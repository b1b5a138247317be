//! The guest book: an append-only sequence of posted messages.

use vstd::prelude::*;

use crate::message::{posted, MessageView, PostedMessage};
use crate::paging::{from_or_default, limit_or_default, page_bounds, page_of};
use crate::token::premium_threshold;

verus! {

/// The messages posted so far, oldest first. A message keeps the index at
/// which it was posted, and nothing is ever changed or removed: the only way
/// to alter a guest book is [`GuestBook::add_message`].
pub struct GuestBook {
    messages: Vec<PostedMessage>,
}

impl View for GuestBook {
    type V = Seq<MessageView>;

    /// The messages in the order in which they were posted.
    closed spec fn view(&self) -> Seq<MessageView> {
        self.messages.deep_view()
    }
}

impl GuestBook {
    /// A guest book without messages.
    pub fn new() -> (book: GuestBook)
        ensures
            book@ == Seq::<MessageView>::empty(),
    {
        let book = GuestBook { messages: Vec::new() };
        assert(book.messages.deep_view() =~= Seq::<MessageView>::empty());
        book
    }

    /// Posts `text` in the name of `sender`, the account that made the call,
    /// with `attached_deposit` yoctoNEAR attached to it.
    ///
    /// The message goes to the end of the book, at the index that was the
    /// number of messages before; the messages already there stay as they are.
    /// It is premium exactly when the deposit reaches the threshold. Any text
    /// and any deposit are accepted.
    pub fn add_message(&mut self, text: String, sender: String, attached_deposit: u128)
        ensures
            final(self)@ == old(self)@.push(posted(text@, sender@, attached_deposit)),
            final(self)@.len() == old(self)@.len() + 1,
            forall|i: int| 0 <= i < old(self)@.len() ==> final(self)@[i] == old(self)@[i],
            final(self)@.last().premium <==> attached_deposit >= premium_threshold(),
            final(self)@.last().sender == sender@,
            final(self)@.last().text == text@,
    {
        let message = PostedMessage::new(text, sender, attached_deposit);
        self.messages.push(message);
        assert(self.messages.deep_view() =~= old(self).messages.deep_view().push(message@));
    }

    /// The page of messages that starts at `from_index` (0 when absent) and
    /// holds at most `limit` messages (10 when absent), in the order in which
    /// they were posted. Where the book ends before the limit is reached the
    /// page holds what is left, and it is empty when `from_index` is at or
    /// beyond the number of messages.
    pub fn get_messages(&self, from_index: Option<u128>, limit: Option<u64>) -> (page: Vec<PostedMessage>)
        ensures
            page.deep_view() == page_of(self@, from_index, limit),
            page@.len() == vstd::math::max(
                0,
                vstd::math::min(
                    limit_or_default(limit) as int,
                    self@.len() - from_or_default(from_index),
                ),
            ),
            forall|i: int|
                0 <= i < page@.len() ==> (#[trigger] page@[i])@ == self@[from_or_default(from_index)
                    + i],
            from_or_default(from_index) >= self@.len() ==> page@.len() == 0,
    {
        let total: usize = self.messages.len();
        let (start, end) = page_bounds(total as u64, from_index, limit);
        let stop: usize = end as usize;
        let mut index: usize = start as usize;
        let mut page: Vec<PostedMessage> = Vec::new();
        while index < stop
            invariant
                start <= index <= stop <= total,
                total == self.messages.len(),
                page.deep_view() == self.messages.deep_view().subrange(start as int, index as int),
            decreases stop - index,
        {
            let ghost before = page.deep_view();
            page.push(self.messages[index].clone());
            index += 1;
            assert(page.deep_view() =~= before.push(self.messages[index - 1]@));
            assert(page.deep_view() =~= self.messages.deep_view().subrange(
                start as int,
                index as int,
            ));
        }
        proof {
            assert forall|i: int| 0 <= i < page@.len() implies (#[trigger] page@[i])@
                == self@[from_or_default(from_index) + i] by {
                assert(page.deep_view()[i] == page@[i]@);
            }
        }
        page
    }

    /// The number of messages posted so far.
    pub fn total_messages(&self) -> (total: u64)
        ensures
            total == self@.len(),
    {
        self.messages.len() as u64
    }
}

/// One call of [`GuestBook::add_message`]: what is posted, by whom, and with
/// which deposit.
pub struct Posting {
    pub text: Seq<char>,
    pub sender: Seq<char>,
    pub attached_deposit: u128,
}

impl Posting {
    /// The message that this call stores.
    pub open spec fn message(self) -> MessageView {
        posted(self.text, self.sender, self.attached_deposit)
    }
}

/// The book that `calls`, made one after the other on `book`, leave behind.
pub open spec fn after_postings(book: Seq<MessageView>, calls: Seq<Posting>) -> Seq<MessageView>
    decreases calls.len(),
{
    if calls.len() == 0 {
        book
    } else {
        after_postings(book, calls.drop_last()).push(calls.last().message())
    }
}

/// Posting only ever appends. After any number of calls the book has grown by
/// exactly that number of messages, the messages that were there before are
/// untouched, and call number `k` has put its message, with the sender and text
/// of that call, at index `book.len() + k`, where it stays through all later
/// calls.
pub proof fn lemma_postings_append(book: Seq<MessageView>, calls: Seq<Posting>)
    ensures
        after_postings(book, calls).len() == book.len() + calls.len(),
        forall|i: int| 0 <= i < book.len() ==> after_postings(book, calls)[i] == book[i],
        forall|k: int|
            0 <= k < calls.len() ==> {
                &&& #[trigger] after_postings(book, calls)[book.len() + k] == calls[k].message()
                &&& after_postings(book, calls)[book.len() + k].sender == calls[k].sender
                &&& after_postings(book, calls)[book.len() + k].text == calls[k].text
                &&& after_postings(book, calls)[book.len() + k].premium
                    <==> calls[k].attached_deposit >= premium_threshold()
            },
        forall|n: int|
            0 <= n <= calls.len() ==> #[trigger] after_postings(book, calls.take(n))
                == after_postings(book, calls).take(book.len() + n),
    decreases calls.len(),
{
    if calls.len() == 0 {
        assert forall|n: int| 0 <= n <= calls.len() implies #[trigger] after_postings(
            book,
            calls.take(n),
        ) == after_postings(book, calls).take(book.len() + n) by {
            assert(calls.take(n) =~= calls);
            assert(book.take(book.len() as int) =~= book);
        }
    } else {
        let earlier = calls.drop_last();
        lemma_postings_append(book, earlier);
        let all = after_postings(book, calls);
        assert forall|k: int| 0 <= k < calls.len() implies {
            &&& #[trigger] all[book.len() + k] == calls[k].message()
            &&& all[book.len() + k].sender == calls[k].sender
            &&& all[book.len() + k].text == calls[k].text
            &&& all[book.len() + k].premium <==> calls[k].attached_deposit
                >= premium_threshold()
        } by {
            if k < earlier.len() {
                assert(earlier[k] == calls[k]);
                assert(after_postings(book, earlier)[book.len() + k] == earlier[k].message());
            }
        }
        assert forall|n: int| 0 <= n <= calls.len() implies #[trigger] after_postings(
            book,
            calls.take(n),
        ) == all.take(book.len() + n) by {
            if n == calls.len() {
                assert(calls.take(n) =~= calls);
                assert(all.take(book.len() + n) =~= all);
            } else {
                assert(calls.take(n) =~= earlier.take(n));
                assert(after_postings(book, earlier.take(n)) == after_postings(
                    book,
                    earlier,
                ).take(book.len() + n));
                assert(all.take(book.len() + n) =~= after_postings(book, earlier).take(
                    book.len() + n,
                ));
            }
        }
    }
}

/// Starting from an empty book, the number of messages after `calls` equals
/// the number of calls, and the last call's message stands at the last index.
pub proof fn lemma_count_after_postings(calls: Seq<Posting>)
    ensures
        after_postings(Seq::empty(), calls).len() == calls.len(),
        calls.len() > 0 ==> after_postings(Seq::empty(), calls)[calls.len() - 1]
            == calls.last().message(),
{
    lemma_postings_append(Seq::empty(), calls);
    if calls.len() > 0 {
        assert(after_postings(Seq::empty(), calls)[0 + (calls.len() - 1)] == calls[calls.len()
            - 1].message());
    }
}

/// A message that has just been posted is listed as it was posted. Every page
/// of the grown book that covers the index the message was given holds, at
/// that index, the message of the call, with its text and sender unchanged;
/// and the page of one entry that starts at the index holds nothing else.
pub proof fn lemma_posted_message_is_listed(
    book: Seq<MessageView>,
    call: Posting,
    from_index: Option<u128>,
    limit: Option<u64>,
)
    requires
        from_or_default(from_index) <= book.len() < from_or_default(from_index) + limit_or_default(
            limit,
        ),
    ensures
        book.len() - from_or_default(from_index) < page_of(
            book.push(call.message()),
            from_index,
            limit,
        ).len(),
        page_of(book.push(call.message()), from_index, limit)[book.len() - from_or_default(
            from_index,
        )] == call.message(),
        page_of(book.push(call.message()), from_index, limit)[book.len() - from_or_default(
            from_index,
        )].text == call.text,
        page_of(book.push(call.message()), from_index, limit)[book.len() - from_or_default(
            from_index,
        )].sender == call.sender,
        from_or_default(from_index) == book.len() ==> page_of(
            book.push(call.message()),
            from_index,
            limit,
        ) == seq![call.message()],
{
    let grown = book.push(call.message());
    if from_or_default(from_index) == book.len() {
        assert(page_of(grown, from_index, limit) =~= seq![call.message()]);
    }
}

impl Default for GuestBook {
    /// A guest book without messages.
    fn default() -> (book: GuestBook)
        ensures
            book@ == Seq::<MessageView>::empty(),
    {
        GuestBook::new()
    }
}

} // verus!
