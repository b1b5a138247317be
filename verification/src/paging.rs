//! Pages: contiguous slices of a sequence, named by a first index and a limit.

use vstd::prelude::*;

verus! {

/// The index at which a page starts when none is asked for.
pub const DEFAULT_FROM_INDEX: u128 = 0;

/// The most entries a page holds when no limit is asked for.
pub const DEFAULT_LIMIT: u64 = 10;

/// The first index asked for, or the default.
pub open spec fn from_or_default(from_index: Option<u128>) -> nat {
    match from_index {
        Some(from) => from as nat,
        None => DEFAULT_FROM_INDEX as nat,
    }
}

/// The limit asked for, or the default.
pub open spec fn limit_or_default(limit: Option<u64>) -> nat {
    match limit {
        Some(most) => most as nat,
        None => DEFAULT_LIMIT as nat,
    }
}

/// Where a page of a sequence of `total` entries starts: at the first index
/// asked for, or at the end of the sequence if that index lies beyond it.
pub open spec fn page_start(total: nat, from_index: Option<u128>) -> nat {
    let from = from_or_default(from_index);
    if from <= total {
        from
    } else {
        total
    }
}

/// Where a page of a sequence of `total` entries ends (exclusive): after
/// `limit` entries, or at the end of the sequence if fewer are left.
pub open spec fn page_end(total: nat, from_index: Option<u128>, limit: Option<u64>) -> nat {
    let start = page_start(total, from_index);
    let most = limit_or_default(limit);
    if start + most <= total {
        start + most
    } else {
        total
    }
}

/// The page of `all` that `from_index` and `limit` name: the entries of `all`
/// from the first index on, in their order, as many as the limit allows and
/// `all` still has.
pub open spec fn page_of<T>(all: Seq<T>, from_index: Option<u128>, limit: Option<u64>) -> Seq<T> {
    all.subrange(
        page_start(all.len(), from_index) as int,
        page_end(all.len(), from_index, limit) as int,
    )
}

/// Computes the half-open range of indices `[start, end)` that a page of a
/// sequence of `total` entries covers. An index at or beyond `total`, or a
/// limit of zero, gives an empty range; a limit that reaches beyond the end
/// gives the entries that are left.
pub fn page_bounds(total: u64, from_index: Option<u128>, limit: Option<u64>) -> (bounds: (u64, u64))
    ensures
        bounds.0 == page_start(total as nat, from_index),
        bounds.1 == page_end(total as nat, from_index, limit),
        bounds.0 <= bounds.1 <= total,
{
    let from: u128 = match from_index {
        Some(from) => from,
        None => DEFAULT_FROM_INDEX,
    };
    let most: u64 = match limit {
        Some(most) => most,
        None => DEFAULT_LIMIT,
    };
    if from >= total as u128 {
        return (total, total);
    }
    let start: u64 = from as u64;
    let left: u64 = total - start;
    let end: u64 = if most <= left {
        start + most
    } else {
        total
    };
    (start, end)
}

/// A page is the slice `[from_index, from_index + limit)` of the sequence, cut
/// off at its end: it holds `max(0, min(limit, len - from_index))` entries, its
/// entry `i` is entry `from_index + i` of the sequence, and it is empty when
/// `from_index` is at or beyond the end.
pub proof fn lemma_page_is_slice<T>(all: Seq<T>, from_index: u128, limit: u64)
    ensures
        page_of(all, Some(from_index), Some(limit)).len() == vstd::math::max(
            0,
            vstd::math::min(limit as int, all.len() - from_index),
        ),
        forall|i: int|
            0 <= i < page_of(all, Some(from_index), Some(limit)).len() ==> {
                &&& from_index + i < all.len()
                &&& #[trigger] page_of(all, Some(from_index), Some(limit))[i] == all[from_index + i]
            },
        from_index >= all.len() ==> page_of(all, Some(from_index), Some(limit)) == Seq::<T>::empty(),
        from_index + limit <= all.len() ==> page_of(all, Some(from_index), Some(limit))
            == all.subrange(from_index as int, from_index + limit),
        from_index <= all.len() < from_index + limit ==> page_of(all, Some(from_index), Some(limit))
            == all.subrange(from_index as int, all.len() as int),
{
}

/// A page asked for without a first index starts at index 0, and one asked for
/// without a limit holds at most 10 entries.
pub proof fn lemma_default_page<T>(all: Seq<T>, from_index: Option<u128>, limit: Option<u64>)
    ensures
        page_of(all, None, None) == page_of(all, Some(0), Some(10)),
        page_of(all, None, limit) == page_of(all, Some(0), limit),
        page_of(all, from_index, None) == page_of(all, from_index, Some(10)),
{
}

} // verus!
