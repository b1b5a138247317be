//! An append-only message board for a NEAR contract.
//!
//! Accounts post text messages; a message is *premium* when at least a tenth
//! of one NEAR is attached to the call that posts it. Anyone can page through
//! the messages in the order in which they were posted.
//!
//! Every function is verified against a mathematical model: a
//! [`GuestBook`] is a sequence of [`MessageView`]s that only ever grows at its
//! end, and a page is a contiguous slice of that sequence.

pub mod book;
pub mod message;
pub mod paging;
pub mod token;

pub use book::GuestBook;
pub use message::{MessageView, PostedMessage};
pub use paging::{page_bounds, DEFAULT_FROM_INDEX, DEFAULT_LIMIT};
pub use token::{is_premium, premium_threshold_yocto, PREMIUM_MILLINEAR, YOCTO_PER_MILLINEAR};
