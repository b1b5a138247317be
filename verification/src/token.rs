//! Amounts of NEAR, counted in yoctoNEAR, and the deposit that makes a message
//! premium.

use vstd::prelude::*;

verus! {

/// YoctoNEAR in one milliNEAR.
pub const YOCTO_PER_MILLINEAR: u128 = 1_000_000_000_000_000_000_000;

/// MilliNEAR that a call must carry for its message to be premium: a tenth of
/// one NEAR.
pub const PREMIUM_MILLINEAR: u128 = 100;

/// The smallest deposit, in yoctoNEAR, that makes a message premium.
pub open spec fn premium_threshold() -> nat {
    (PREMIUM_MILLINEAR * YOCTO_PER_MILLINEAR) as nat
}

/// Whether a deposit of `attached_deposit` yoctoNEAR makes a message premium:
/// it does as soon as it reaches the threshold, the threshold itself included.
pub open spec fn spec_is_premium(attached_deposit: u128) -> bool {
    attached_deposit >= premium_threshold()
}

/// The threshold is a tenth of one NEAR, 10^23 yoctoNEAR. A deposit of exactly
/// that amount is premium, a deposit of one yoctoNEAR less is not, and whatever
/// is at least as large as a premium deposit is premium too.
pub proof fn lemma_premium_boundary(smaller: u128, larger: u128)
    ensures
        premium_threshold() == 100_000_000_000_000_000_000_000nat,
        spec_is_premium(100_000_000_000_000_000_000_000u128),
        !spec_is_premium(99_999_999_999_999_999_999_999u128),
        smaller <= larger && spec_is_premium(smaller) ==> spec_is_premium(larger),
{
}

/// Converts milliNEAR to yoctoNEAR with `near_sdk::NearToken::from_millinear`
/// and reads the amount back with `NearToken::as_yoctonear`.
///
/// Trusted, not proved: the token built from `millinear` holds
/// `millinear * 10^21` yoctoNEAR, and `as_yoctonear` returns what the token
/// holds. The product must fit in a `u128`, since `from_millinear` multiplies
/// without a check.
#[verifier::external_body]
fn millinear_to_yoctonear(millinear: u128) -> (yocto: u128)
    requires
        millinear * YOCTO_PER_MILLINEAR <= u128::MAX,
    ensures
        yocto == millinear * YOCTO_PER_MILLINEAR,
{
    near_sdk::NearToken::from_millinear(millinear).as_yoctonear()
}

/// The premium threshold in yoctoNEAR.
pub fn premium_threshold_yocto() -> (threshold: u128)
    ensures
        threshold == premium_threshold(),
        threshold == 100_000_000_000_000_000_000_000u128,
{
    millinear_to_yoctonear(PREMIUM_MILLINEAR)
}

/// Decides whether a call that carries `attached_deposit` yoctoNEAR posts a
/// premium message.
#[verifier::when_used_as_spec(spec_is_premium)]
pub fn is_premium(attached_deposit: u128) -> (premium: bool)
    ensures
        premium == spec_is_premium(attached_deposit),
        premium <==> attached_deposit >= premium_threshold(),
{
    attached_deposit >= premium_threshold_yocto()
}

} // verus!
