//! The per-channel writer.  One writer owns one append-only output resource
//! for its whole lifetime: a fixed header record written exactly once at
//! open, then one line per update, in exactly the order the updates were
//! pushed.  This module carries the writer's state and its output content;
//! the queue and the output device around it are plain plumbing.

use crate::text::u64_digits;
use crate::text::u64_to_string;
use vstd::prelude::*;
use vstd::string::StringExecFns;

verus! {

/// One trade record: id, timestamp (ms epoch), signed amount and
/// non-negative price, the last two as the decimal text the feed carried.
#[derive(Debug, Clone, PartialEq)]
#[verifier::ext_equal]
pub struct Update {
    pub id: u64,
    pub mts: u64,
    pub amount: String,
    pub price: String,
}

impl Update {
    /// An explicit copy, field for field.
    pub fn duplicate(&self) -> (r: Update)
        ensures
            r == *self,
    {
        let r = Update {
            id: self.id,
            mts: self.mts,
            amount: self.amount.clone(),
            price: self.price.clone(),
        };
        proof {
            assert(r =~= *self);
        }
        r
    }
}

/// The mathematical shape of one update.
#[verifier::ext_equal]
pub ghost struct UpdateView {
    pub id: u64,
    pub mts: u64,
    pub amount: Seq<char>,
    pub price: Seq<char>,
}

impl View for Update {
    type V = UpdateView;

    open spec fn view(&self) -> UpdateView {
        UpdateView { id: self.id, mts: self.mts, amount: self.amount@, price: self.price@ }
    }
}

/// The views of a sequence of updates.
pub open spec fn updates_view(s: Seq<Update>) -> Seq<UpdateView> {
    s.map_values(|u: Update| u@)
}

/// The header record, written exactly once when a writer opens its resource.
pub open spec fn header_line() -> Seq<char> {
    "ID,MTS,AMOUNT,PRICE"@
}

/// One output record: the update's four fields in fixed column order.
pub open spec fn record_line(u: UpdateView) -> Seq<char> {
    u64_digits(u.id as int) + ","@ + u64_digits(u.mts as int) + ","@ + u.amount + ","@ + u.price
}

/// The header record as text.
pub fn header() -> (s: String)
    ensures
        s@ == header_line(),
{
    String::from_str("ID,MTS,AMOUNT,PRICE")
}

/// Renders one update as its output record, exactly `record_line`.
pub fn format_update(u: &Update) -> (s: String)
    ensures
        s@ == record_line(u@),
{
    let mut s = u64_to_string(u.id);
    s.append(",");
    let t = u64_to_string(u.mts);
    s.append(t.as_str());
    s.append(",");
    s.append(u.amount.as_str());
    s.append(",");
    s.append(u.price.as_str());
    assert(s@ =~= record_line(u@));
    s
}

/// The writer for one channel: the name of the output resource it owns, the
/// updates it has accepted, in order, and whether its termination has been
/// requested.  Once closed, a writer accepts nothing further.
pub struct SubscriberHandler {
    name: String,
    received: Vec<Update>,
    closed: bool,
}

/// The mathematical shape of one writer.
#[verifier::ext_equal]
pub ghost struct HandlerView {
    pub name: Seq<char>,
    pub received: Seq<UpdateView>,
    pub closed: bool,
}

impl View for SubscriberHandler {
    type V = HandlerView;

    closed spec fn view(&self) -> HandlerView {
        HandlerView {
            name: self.name@,
            received: updates_view(self.received@),
            closed: self.closed,
        }
    }
}

/// What requesting a writer's termination does to it: nothing but marking it
/// closed.  In particular its output is untouched: no record is appended and
/// the header is not written again.
pub open spec fn shutdown_model(h: HandlerView) -> HandlerView {
    HandlerView { name: h.name, received: h.received, closed: true }
}

/// Requesting termination twice is the same as requesting it once: a second
/// shutdown is tolerated and changes nothing.
pub proof fn lemma_shutdown_idempotent(h: HandlerView)
    ensures
        shutdown_model(shutdown_model(h)) == shutdown_model(h),
{
}

impl SubscriberHandler {
    /// Opens a writer for a named output resource: no update yet, not closed.
    pub fn create(name: String) -> (h: SubscriberHandler)
        ensures
            h@ == (HandlerView { name: name@, received: Seq::empty(), closed: false }),
    {
        let h = SubscriberHandler { name, received: Vec::new(), closed: false };
        proof {
            assert(h@.received =~= Seq::<UpdateView>::empty());
            assert(h@ =~= (HandlerView { name: h.name@, received: Seq::empty(), closed: false }));
        }
        h
    }

    /// The name of the output resource this writer owns.
    pub fn name(&self) -> (r: &String)
        ensures
            r@ == self@.name,
    {
        &self.name
    }

    /// Whether termination has been requested.
    pub fn is_closed(&self) -> (r: bool)
        ensures
            r == self@.closed,
    {
        self.closed
    }

    /// Accepts one update for appending.  Order is kept: the update stands
    /// last.  A closed writer accepts nothing.
    pub fn send(&mut self, update: Update)
        ensures
            final(self)@.name == old(self)@.name,
            final(self)@.closed == old(self)@.closed,
            old(self)@.closed ==> final(self)@.received == old(self)@.received,
            !old(self)@.closed ==> final(self)@.received == old(self)@.received.push(update@),
    {
        if !self.closed {
            let ghost pre = self.received@;
            self.received.push(update);
            proof {
                assert(updates_view(self.received@) =~= updates_view(pre).push(update@));
            }
        }
    }

    /// Requests termination.  The output is untouched; a repeated request is
    /// tolerated and changes nothing further.
    pub fn close(&mut self)
        ensures
            final(self)@ == shutdown_model(old(self)@),
    {
        self.closed = true;
        proof {
            assert(self@ =~= shutdown_model(old(self)@));
        }
    }

    /// The full content of this writer's output resource: the header first,
    /// then one record per accepted update, in the order they were pushed.
    pub fn output_lines(&self) -> (lines: Vec<String>)
        ensures
            lines@.len() == 1 + self@.received.len(),
            lines@[0]@ == header_line(),
            forall|i: int|
                0 <= i < self@.received.len() ==> #[trigger] lines@[i + 1]@ == record_line(
                    self@.received[i],
                ),
    {
        let mut lines: Vec<String> = Vec::new();
        lines.push(header());
        let mut i: usize = 0;
        while i < self.received.len()
            invariant
                i <= self.received@.len(),
                lines@.len() == 1 + i,
                lines@[0]@ == header_line(),
                forall|j: int|
                    0 <= j < i ==> #[trigger] lines@[j + 1]@ == record_line(
                        updates_view(self.received@)[j],
                    ),
            decreases self.received@.len() - i,
        {
            lines.push(format_update(&self.received[i]));
            i = i + 1;
        }
        lines
    }
}

} // verus!
