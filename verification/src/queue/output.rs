//! The output queue of a canister, whose requests time out.

use crate::messages::{saturated, Cycles, Request, RequestOrResponse, Response, Time};
use crate::queue::{size_is_valid, stat_total, QueueDecodeError, QueueWithReservation, StateError};
use std::collections::VecDeque;
use std::sync::Arc;
use vstd::prelude::*;

verus! {

/// What is wrong with the parts that an output queue is to be made of.
#[derive(Clone, Copy, Debug, PartialEq, Eq, Structural)]
pub enum OutputQueueViolation {
    /// The first slot is empty.
    NoneAtFront,
    /// The deadlines or the ends of the deadline ranges do not increase.
    DeadlinesNotSorted,
    /// The first deadline range ends at or before the begin of the queue.
    DeadlineRangeEndBeforeBegin,
    /// The first deadline range ends at or before the timeout index.
    DeadlineRangeEndBeforeTimeoutIndex,
    /// The last deadline range ends after the queue.
    DeadlineRangeEndAfterEnd,
    /// A request is left before the timeout index.
    RequestBeforeTimeoutIndex,
    /// The index just past the last slot does not fit the machine.
    EndOverflow,
    /// The timeout index lies after the queue.
    TimeoutIndexAfterEnd,
}

impl OutputQueueViolation {
    /// What is wrong, in words.
    pub open spec fn spec_message(self) -> Seq<char> {
        match self {
            OutputQueueViolation::NoneAtFront => "`None` at the beginning of the queue."@,
            OutputQueueViolation::DeadlinesNotSorted => "Deadline ranges not sorted."@,
            OutputQueueViolation::DeadlineRangeEndBeforeBegin => "Deadline range end before queue begin."@,
            OutputQueueViolation::DeadlineRangeEndBeforeTimeoutIndex => "Deadline range end before `timeout_index`."@,
            OutputQueueViolation::DeadlineRangeEndAfterEnd => "Deadline range end after queue end."@,
            OutputQueueViolation::RequestBeforeTimeoutIndex => "Request(s) before `timeout_index`."@,
            OutputQueueViolation::EndOverflow => "Queue end out of range."@,
            OutputQueueViolation::TimeoutIndexAfterEnd => "`timeout_index` after queue end."@,
        }
    }

    /// What is wrong, in words.
    pub fn message(&self) -> (m: &'static str)
        ensures
            m@ == self.spec_message(),
    {
        match self {
            OutputQueueViolation::NoneAtFront => "`None` at the beginning of the queue.",
            OutputQueueViolation::DeadlinesNotSorted => "Deadline ranges not sorted.",
            OutputQueueViolation::DeadlineRangeEndBeforeBegin => "Deadline range end before queue begin.",
            OutputQueueViolation::DeadlineRangeEndBeforeTimeoutIndex => "Deadline range end before `timeout_index`.",
            OutputQueueViolation::DeadlineRangeEndAfterEnd => "Deadline range end after queue end.",
            OutputQueueViolation::RequestBeforeTimeoutIndex => "Request(s) before `timeout_index`.",
            OutputQueueViolation::EndOverflow => "Queue end out of range.",
            OutputQueueViolation::TimeoutIndexAfterEnd => "`timeout_index` after queue end.",
        }
    }
}

/// The number of messages among `items`.
pub open spec fn message_count(items: Seq<Option<RequestOrResponse>>) -> nat
    decreases items.len(),
{
    if items.len() == 0 {
        0
    } else {
        message_count(items.drop_last()) + if items.last() is Some {
            1nat
        } else {
            0nat
        }
    }
}

/// A sequence holds no more messages than items.
pub proof fn lemma_message_count_bound(items: Seq<Option<RequestOrResponse>>)
    ensures
        message_count(items) <= items.len(),
    decreases items.len(),
{
    if items.len() > 0 {
        lemma_message_count_bound(items.drop_last());
    }
}

/// Where an item is a message, the number of messages is not 0.
pub proof fn lemma_message_count_positive(items: Seq<Option<RequestOrResponse>>, i: int)
    requires
        0 <= i < items.len(),
        items[i] is Some,
    ensures
        message_count(items) > 0,
    decreases items.len(),
{
    if i < items.len() - 1 {
        lemma_message_count_positive(items.drop_last(), i);
    }
}

/// Without its first item a sequence holds one message less if that item is
/// a message, and as many as before if not.
pub proof fn lemma_message_count_drop_first(items: Seq<Option<RequestOrResponse>>)
    requires
        items.len() > 0,
    ensures
        message_count(items.subrange(1, items.len() as int)) + (if items[0] is Some {
            1nat
        } else {
            0nat
        }) == message_count(items),
    decreases items.len(),
{
    let rest = items.subrange(1, items.len() as int);
    if items.len() == 1 {
        assert(items.drop_last() =~= Seq::empty());
        assert(rest =~= Seq::empty());
    } else {
        lemma_message_count_drop_first(items.drop_last());
        assert(rest.drop_last() =~= items.drop_last().subrange(1, items.len() - 1));
        assert(rest.last() == items.last());
    }
}

/// With one item emptied a sequence holds one message less if that item was
/// a message, and as many as before if not.
pub proof fn lemma_message_count_emptied(items: Seq<Option<RequestOrResponse>>, i: int)
    requires
        0 <= i < items.len(),
    ensures
        message_count(items.update(i, None)) + (if items[i] is Some {
            1nat
        } else {
            0nat
        }) == message_count(items),
    decreases items.len(),
{
    let emptied = items.update(i, None);
    if i == items.len() - 1 {
        assert(emptied.drop_last() =~= items.drop_last());
    } else {
        lemma_message_count_emptied(items.drop_last(), i);
        assert(emptied.drop_last() =~= items.drop_last().update(i, None));
    }
}

/// Whether the times and the ends of the ranges both increase strictly.
pub open spec fn deadlines_increase(deadlines: Seq<(Time, usize)>) -> bool {
    forall|i: int, j: int|
        0 <= i < j < deadlines.len() ==> (#[trigger] deadlines[i]).0 < (#[trigger] deadlines[j]).0
            && deadlines[i].1 < deadlines[j].1
}

/// The deadlines after a request with the deadline `deadline` was pushed, so
/// that the queue ends at `end`: the last range is stretched to `end` if its
/// deadline is not before `deadline`; otherwise a new range up to `end` is
/// added.
pub open spec fn deadlines_after_push(deadlines: Seq<(Time, usize)>, deadline: Time, end: usize) -> Seq<
    (Time, usize),
> {
    if deadlines.len() > 0 && deadlines.last().0 >= deadline {
        deadlines.update(deadlines.len() - 1, (deadlines.last().0, end))
    } else {
        deadlines.push((deadline, end))
    }
}

/// Whether `after` is `before` without the ranges at its front that end at
/// or before `begin` or `timeout_index`: what is left of such ranges has
/// left the queue or has been looked at for timing out.
pub open spec fn deadlines_pruned(
    before: Seq<(Time, usize)>,
    after: Seq<(Time, usize)>,
    begin: usize,
    timeout_index: usize,
) -> bool {
    let dropped = before.len() - after.len();
    &&& 0 <= dropped
    &&& after == before.subrange(dropped, before.len() as int)
    &&& forall|i: int|
        0 <= i < dropped ==> (#[trigger] before[i]).1 <= begin || before[i].1 <= timeout_index
    &&& after.len() > 0 ==> after[0].1 > begin && after[0].1 > timeout_index
}

/// Whether `after` is `before` without the empty slots at its front.
pub open spec fn front_skipped(
    before: Seq<Option<RequestOrResponse>>,
    after: Seq<Option<RequestOrResponse>>,
) -> bool {
    let skipped = before.len() - after.len();
    &&& 0 <= skipped
    &&& after == before.subrange(skipped, before.len() as int)
    &&& forall|i: int| 0 <= i < skipped ==> (#[trigger] before[i]) is None
    &&& after.len() > 0 ==> after[0] is Some
}

/// The number of ranges at the front of `deadlines` whose deadline is not
/// after `now`.
pub open spec fn expired_count(deadlines: Seq<(Time, usize)>, now: Time) -> int
    decreases deadlines.len(),
{
    if deadlines.len() == 0 {
        0
    } else if deadlines.last().0 <= now {
        deadlines.len() as int
    } else {
        expired_count(deadlines.drop_last(), now)
    }
}

/// Where the deadlines increase, the expired ranges are those before the
/// first range whose deadline is after `now`.
pub proof fn lemma_expired_count(deadlines: Seq<(Time, usize)>, now: Time, p: int)
    requires
        deadlines_increase(deadlines),
        0 <= p <= deadlines.len(),
        forall|i: int| 0 <= i < p ==> (#[trigger] deadlines[i]).0 <= now,
        p < deadlines.len() ==> deadlines[p].0 > now,
    ensures
        expired_count(deadlines, now) == p,
    decreases deadlines.len(),
{
    if deadlines.len() > 0 {
        let n = deadlines.len() as int;
        if deadlines.last().0 <= now {
            if p < n - 1 {
                assert(deadlines[p].0 < deadlines[n - 1].0);
            }
        } else {
            if p == n {
                assert(deadlines[n - 1].0 <= now);
            }
            let rest = deadlines.drop_last();
            assert(deadlines_increase(rest)) by {
                assert forall|i: int, j: int| 0 <= i < j < rest.len() implies (
                #[trigger] rest[i]).0 < (#[trigger] rest[j]).0 && rest[i].1 < rest[j].1 by {
                    assert(rest[i] == deadlines[i]);
                    assert(rest[j] == deadlines[j]);
                }
            }
            assert forall|i: int| 0 <= i < p implies (#[trigger] rest[i]).0 <= now by {
                assert(rest[i] == deadlines[i]);
            }
            lemma_expired_count(rest, now, p);
        }
    }
}

/// Where the range at `p` has a deadline that is not after `now`, more than
/// `p` ranges are expired.
pub proof fn lemma_expired_count_at_least(deadlines: Seq<(Time, usize)>, now: Time, p: int)
    requires
        deadlines_increase(deadlines),
        0 <= p < deadlines.len(),
        deadlines[p].0 <= now,
    ensures
        p < expired_count(deadlines, now) <= deadlines.len(),
    decreases deadlines.len(),
{
    let n = deadlines.len() as int;
    if deadlines.last().0 <= now {
    } else {
        let rest = deadlines.drop_last();
        assert(deadlines_increase(rest)) by {
            assert forall|i: int, j: int| 0 <= i < j < rest.len() implies (#[trigger] rest[i]).0 < (
            #[trigger] rest[j]).0 && rest[i].1 < rest[j].1 by {
                assert(rest[i] == deadlines[i]);
                assert(rest[j] == deadlines[j]);
            }
        }
        assert(p < n - 1);
        assert(rest[p] == deadlines[p]);
        lemma_expired_count_at_least(rest, now, p);
    }
}

/// What is left of increasing deadlines without the first `p` ranges
/// increases.
pub proof fn lemma_deadlines_suffix(deadlines: Seq<(Time, usize)>, p: int)
    requires
        deadlines_increase(deadlines),
        0 <= p <= deadlines.len(),
    ensures
        deadlines_increase(deadlines.subrange(p, deadlines.len() as int)),
{
    let left = deadlines.subrange(p, deadlines.len() as int);
    assert forall|a: int, b: int| 0 <= a < b < left.len() implies (#[trigger] left[a]).0 < (
    #[trigger] left[b]).0 && left[a].1 < left[b].1 by {
        assert(left[a] == deadlines[a + p]);
        assert(left[b] == deadlines[b + p]);
    }
}

/// Where the first `p` ranges were dropped after timing out got past them,
/// and what was left was pruned, the whole was pruned.
pub proof fn lemma_pruned_after_scan(
    all: Seq<(Time, usize)>,
    mid: Seq<(Time, usize)>,
    left: Seq<(Time, usize)>,
    p: int,
    begin: usize,
    timeout_index: usize,
)
    requires
        deadlines_increase(all),
        0 <= p <= all.len(),
        mid == all.subrange(p, all.len() as int),
        p > 0 ==> all[p - 1].1 <= timeout_index,
        deadlines_pruned(mid, left, begin, timeout_index),
    ensures
        deadlines_pruned(all, left, begin, timeout_index),
{
    let dropped = all.len() - left.len();
    assert(left =~= all.subrange(dropped, all.len() as int));
    assert forall|k: int| 0 <= k < dropped implies (#[trigger] all[k]).1 <= begin || all[k].1
        <= timeout_index by {
        if k < p {
            if k < p - 1 {
                assert(all[k].1 < all[p - 1].1);
            }
        } else {
            assert(mid[k - p] == all[k]);
        }
    }
}

/// Whether the slot with the index `at` holds a request, in a queue that
/// begins at the index `begin`.
pub open spec fn request_at(items: Seq<Option<RequestOrResponse>>, begin: usize, at: int) -> bool {
    begin <= at < begin + items.len() && items[at - begin] matches Some(
        RequestOrResponse::Request(_),
    )
}

/// The cycles of the messages in the first `n` of `items` together.
pub open spec fn slot_cycles(items: Seq<Option<RequestOrResponse>>, n: int) -> int
    decreases n,
{
    if n <= 0 {
        0
    } else {
        slot_cycles(items, n - 1) + match items[n - 1] {
            Some(msg) => msg.spec_cycles() as int,
            None => 0,
        }
    }
}

/// `vals` holds, for the first `vals.len()` of `items` in their order, what
/// `stat` returned for the message in the slot, and 0 for an empty slot.
pub open spec fn slot_stats_of<F: Fn(&RequestOrResponse) -> usize>(
    stat: F,
    items: Seq<Option<RequestOrResponse>>,
    vals: Seq<usize>,
) -> bool {
    &&& vals.len() <= items.len()
    &&& forall|i: int|
        0 <= i < vals.len() ==> match #[trigger] items[i] {
            Some(msg) => call_ensures(stat, (&msg,), vals[i]),
            None => vals[i] == 0,
        }
}

/// Representation of a single canister output queue. There is an upper bound
/// on the number of messages it can store. There is also a begin index which
/// can be used effectively as a sequence number for the next message popped
/// out of the queue.
///
/// The slots hold `Option<_>` items so that requests can be dropped from
/// anywhere in the queue, i.e. replaced with `None`. They keep their place in
/// the queue until they reach the beginning, where they are discarded.
///
/// There is always `Some` at the front: when a message is popped off the
/// queue, the `None` items that follow it are popped as well.
pub struct OutputQueue {
    queue: QueueWithReservation<Option<RequestOrResponse>>,
    /// Queue begin index.
    ///
    /// This provides consistent indices that identify each queue item, even as
    /// items are being pushed and popped, for use e.g. in `deadline_range_ends`.
    begin: usize,
    /// Ordered ranges of messages having the same request deadline. Each range
    /// is represented as a deadline and its end index (the index just past
    /// the last request where the deadline applies). Both the deadlines and
    /// queue indices are strictly increasing.
    deadline_range_ends: VecDeque<(Time, usize)>,
    /// Index from which request timing out will resume.
    ///
    /// Used to ensure amortized constant time for timing out requests.
    /// May point before the beginning of the queue if messages have been popped
    /// since the last call that timed out requests.
    timeout_index: usize,
    /// The number of actual messages in the queue.
    num_messages: usize,
}

impl OutputQueue {
    /// The slots of the queue, the next one to leave first.
    pub closed spec fn items(&self) -> Seq<Option<RequestOrResponse>> {
        self.queue@
    }

    /// The index of the first slot.
    pub closed spec fn spec_begin(&self) -> usize {
        self.begin
    }

    /// The deadlines of the requests: each range with its deadline and the
    /// index just past its last request.
    pub closed spec fn deadlines(&self) -> Seq<(Time, usize)> {
        self.deadline_range_ends@
    }

    /// The index from which timing out resumes.
    pub closed spec fn spec_timeout_index(&self) -> usize {
        self.timeout_index
    }

    /// The number of messages as the queue counts them.
    pub closed spec fn spec_num_messages(&self) -> usize {
        self.num_messages
    }

    /// The largest number of slots that may be used or reserved.
    pub closed spec fn spec_capacity(&self) -> nat {
        self.queue.spec_capacity()
    }

    /// The number of slots that are reserved.
    pub closed spec fn spec_reserved(&self) -> nat {
        self.queue.spec_reserved()
    }

    /// The index just past the last slot.
    pub open spec fn end(&self) -> int {
        self.spec_begin() + self.items().len()
    }

    /// Whether a slot is left to push a request into or to reserve.
    pub open spec fn has_slot(&self) -> bool {
        self.items().len() + self.spec_reserved() < self.spec_capacity()
    }

    /// What holds of the queue between any two operations.
    pub open spec fn wf(&self) -> bool {
        &&& self.items().len() + self.spec_reserved() <= self.spec_capacity()
        &&& self.end() <= usize::MAX
        // There is a message at the front.
        &&& self.items().len() > 0 ==> self.items()[0] is Some
        // The deadline ranges are sorted and lie within the part of the queue
        // that has not been looked at for timing out.
        &&& deadlines_increase(self.deadlines())
        &&& self.deadlines().len() > 0 ==> {
            &&& self.deadlines()[0].1 > self.spec_begin()
            &&& self.deadlines()[0].1 > self.spec_timeout_index()
            &&& self.deadlines().last().1 <= self.end()
        }
        &&& self.spec_timeout_index() <= self.end()
        // No request is left before the timeout index.
        &&& forall|i: int|
            0 <= i < self.items().len() && self.spec_begin() + i < self.spec_timeout_index()
                ==> !(#[trigger] self.items()[i] matches Some(RequestOrResponse::Request(_)))
        &&& self.spec_num_messages() == message_count(self.items())
    }

    /// An empty queue without reservations.
    pub fn new(capacity: usize) -> (q: Self)
        ensures
            q.wf(),
            q.items() == Seq::<Option<RequestOrResponse>>::empty(),
            q.deadlines() == Seq::<(Time, usize)>::empty(),
            q.spec_begin() == 0,
            q.spec_timeout_index() == 0,
            q.spec_num_messages() == 0,
            q.spec_capacity() == capacity,
            q.spec_reserved() == 0,
    {
        Self {
            queue: QueueWithReservation::new(capacity),
            begin: 0,
            deadline_range_ends: VecDeque::new(),
            timeout_index: 0,
            num_messages: 0,
        }
    }

    /// Returns `Ok(())` if there exists at least one available slot,
    /// `Err(StateError::QueueFull)` with the capacity otherwise.
    pub fn check_has_slot(&self) -> (r: Result<(), StateError>)
        requires
            self.wf(),
        ensures
            match r {
                Ok(()) => self.has_slot(),
                Err(e) => !self.has_slot() && e == (StateError::QueueFull {
                    capacity: self.spec_capacity() as usize,
                }),
            },
    {
        self.queue.check_has_slot()
    }

    /// Returns the number of slots available in the queue.
    pub fn available_slots(&self) -> (n: usize)
        requires
            self.wf(),
        ensures
            n == self.spec_capacity() - (self.items().len() + self.spec_reserved()),
    {
        self.queue.available_slots()
    }

    /// Whether `post` is this queue with nothing changed but the slots, the
    /// reservations and the number of messages.
    pub open spec fn same_indices(&self, post: &Self) -> bool {
        &&& post.spec_begin() == self.spec_begin()
        &&& post.spec_timeout_index() == self.spec_timeout_index()
        &&& post.spec_capacity() == self.spec_capacity()
    }

    /// Pushes a request with its deadline into the queue, or hands it back
    /// with `StateError::QueueFull` where no slot is left.
    pub fn push_request(&mut self, msg: Arc<Request>, deadline: Time) -> (r: Result<
        (),
        (StateError, Arc<Request>),
    >)
        requires
            old(self).wf(),
            old(self).end() < usize::MAX,
        ensures
            final(self).wf(),
            old(self).same_indices(final(self)),
            final(self).spec_reserved() == old(self).spec_reserved(),
            match r {
                Ok(()) => {
                    &&& old(self).has_slot()
                    &&& final(self).items() == old(self).items().push(
                        Some(RequestOrResponse::Request(msg)),
                    )
                    &&& final(self).deadlines() == deadlines_after_push(
                        old(self).deadlines(),
                        deadline,
                        (old(self).end() + 1) as usize,
                    )
                    &&& final(self).spec_num_messages() == old(self).spec_num_messages() + 1
                },
                Err((e, m)) => {
                    &&& !old(self).has_slot()
                    &&& m == msg
                    &&& e == (StateError::QueueFull { capacity: old(self).spec_capacity() as usize })
                    &&& final(self).items() == old(self).items()
                    &&& final(self).deadlines() == old(self).deadlines()
                    &&& final(self).spec_num_messages() == old(self).spec_num_messages()
                },
            },
    {
        if let Err(e) = self.queue.check_has_slot() {
            return Err((e, msg));
        }
        let ghost before = self.queue@;
        let ghost deadlines_before = self.deadline_range_ends@;
        self.queue.queue.push_back(Some(RequestOrResponse::Request(msg)));

        // Update the deadline queue.
        //
        // If the deadline is less than or equal the one at the end of the
        // deadline queue, update the `end` of the last deadline range.
        //
        // If the new deadline is greater than the one of the previous request
        // or there is no previous request in the queue, push a new tuple.
        let end = self.begin + self.queue.queue.len();
        let n = self.deadline_range_ends.len();
        let stretch = n > 0 && self.deadline_range_ends[n - 1].0 >= deadline;
        if stretch {
            let back_deadline = self.deadline_range_ends[n - 1].0;
            self.deadline_range_ends.pop_back();
            self.deadline_range_ends.push_back((back_deadline, end));
            assert(self.deadline_range_ends@ =~= deadlines_before.update(
                n - 1,
                (back_deadline, end),
            ));
        } else {
            self.deadline_range_ends.push_back((deadline, end));
        }
        assert(self.queue@.drop_last() =~= before);
        proof {
            lemma_message_count_bound(before);
        }
        self.num_messages += 1;
        Ok(())
    }

    /// Pushes a response into a reserved slot.
    pub fn push_response(&mut self, msg: Arc<Response>)
        requires
            old(self).wf(),
            old(self).spec_reserved() > 0,
            old(self).end() < usize::MAX,
        ensures
            final(self).wf(),
            old(self).same_indices(final(self)),
            final(self).spec_reserved() == old(self).spec_reserved() - 1,
            final(self).items() == old(self).items().push(Some(RequestOrResponse::Response(msg))),
            final(self).deadlines() == old(self).deadlines(),
            final(self).spec_num_messages() == old(self).spec_num_messages() + 1,
    {
        let ghost before = self.queue@;
        let pushed = self.queue.push_into_reserved_slot(Some(RequestOrResponse::Response(msg)));
        assert(pushed is Ok);
        assert(self.queue@.drop_last() =~= before);
        proof {
            lemma_message_count_bound(before);
        }
        self.num_messages += 1;
    }

    /// Reserves a slot if available, else returns `Err(StateError::QueueFull)`.
    pub fn reserve_slot(&mut self) -> (r: Result<(), StateError>)
        requires
            old(self).wf(),
        ensures
            final(self).wf(),
            old(self).same_indices(final(self)),
            final(self).items() == old(self).items(),
            final(self).deadlines() == old(self).deadlines(),
            final(self).spec_num_messages() == old(self).spec_num_messages(),
            match r {
                Ok(()) => old(self).has_slot() && final(self).spec_reserved() == old(self).spec_reserved() + 1,
                Err(e) => !old(self).has_slot() && final(self).spec_reserved() == old(self).spec_reserved() && e == (StateError::QueueFull {
                    capacity: old(self).spec_capacity() as usize,
                }),
            },
    {
        self.queue.reserve_slot()
    }

    /// Pops a message off the queue and returns it, together with the empty
    /// slots that follow it: there is always a message at the front.
    pub fn pop(&mut self) -> (r: Option<RequestOrResponse>)
        requires
            old(self).wf(),
        ensures
            final(self).wf(),
            final(self).spec_capacity() == old(self).spec_capacity(),
            final(self).spec_reserved() == old(self).spec_reserved(),
            final(self).spec_timeout_index() == old(self).spec_timeout_index(),
            final(self).end() == old(self).end(),
            match r {
                None => {
                    &&& old(self).items().len() == 0
                    &&& final(self).items() == old(self).items()
                    &&& final(self).deadlines() == old(self).deadlines()
                    &&& final(self).spec_begin() == old(self).spec_begin()
                    &&& final(self).spec_num_messages() == old(self).spec_num_messages()
                },
                Some(msg) => {
                    &&& old(self).items().len() > 0
                    &&& old(self).items()[0] == Some(msg)
                    &&& front_skipped(
                        old(self).items().subrange(1, old(self).items().len() as int),
                        final(self).items(),
                    )
                    &&& deadlines_pruned(
                        old(self).deadlines(),
                        final(self).deadlines(),
                        final(self).spec_begin(),
                        final(self).spec_timeout_index(),
                    )
                    &&& final(self).spec_num_messages() == old(self).spec_num_messages() - 1
                },
            },
    {
        let ghost items = self.queue@;
        match self.queue.pop() {
            None => None,
            Some(front) => {
                proof {
                    lemma_message_count_drop_first(items);
                }
                self.begin += 1;
                self.num_messages -= 1;
                self.advance_to_next_message();
                match front {
                    Some(msg) => Some(msg),
                    None => vstd::pervasive::unreached(),
                }
            },
        }
    }

    /// Returns the message that `pop` would have returned, without removing it
    /// from the queue.
    pub fn peek(&self) -> (r: Option<&RequestOrResponse>)
        requires
            self.wf(),
        ensures
            match r {
                Some(msg) => self.items().len() > 0 && self.items()[0] == Some(*msg),
                None => self.items().len() == 0,
            },
    {
        match self.queue.peek() {
            Some(Some(msg)) => Some(msg),
            Some(None) => vstd::pervasive::unreached(),
            None => None,
        }
    }

    /// Number of actual messages in the queue (empty slots are ignored).
    pub fn num_messages(&self) -> (n: usize)
        ensures
            n == self.spec_num_messages(),
    {
        self.num_messages
    }

    /// Returns the number of reserved slots in the queue.
    pub fn reserved_slots(&self) -> (n: usize)
        ensures
            n == self.spec_reserved(),
    {
        self.queue.reserved_slots()
    }

    /// Returns `true` if the queue has one or more used slots.
    pub fn has_used_slots(&self) -> (b: bool)
        ensures
            b == (self.items().len() > 0 || self.spec_reserved() > 0),
    {
        self.queue.has_used_slots()
    }

    /// Returns true if there are any expired deadlines at `current_time`,
    /// false otherwise.
    pub fn has_expired_deadlines(&self, current_time: Time) -> (b: bool)
        ensures
            b == (self.deadlines().len() > 0 && self.deadlines()[0].0 <= current_time),
    {
        self.deadline_range_ends.len() > 0 && self.deadline_range_ends[0].0 <= current_time
    }

    /// The index up to which requests can time out at `now`: the end of the
    /// last range whose deadline is not after `now`, or where timing out
    /// resumes if there is no such range.
    pub open spec fn timeout_window_end(&self, now: Time) -> int {
        let expired = expired_count(self.deadlines(), now);
        if expired > 0 {
            self.deadlines()[expired - 1].1 as int
        } else {
            self.timeout_window_begin()
        }
    }

    /// The index at which timing out resumes.
    pub open spec fn timeout_window_begin(&self) -> int {
        if self.spec_timeout_index() >= self.spec_begin() {
            self.spec_timeout_index() as int
        } else {
            self.spec_begin() as int
        }
    }

    /// Looks for the next request before the index `range_end`, from the
    /// timeout index on, and moves the timeout index past the slots that were
    /// looked at. Returns the position of the request in the queue.
    fn next_request_before(&mut self, range_end: usize) -> (found: Option<usize>)
        requires
            old(self).begin <= old(self).timeout_index <= range_end,
            range_end <= old(self).begin + old(self).queue@.len(),
        ensures
            final(self).queue == old(self).queue,
            final(self).begin == old(self).begin,
            final(self).deadline_range_ends == old(self).deadline_range_ends,
            final(self).num_messages == old(self).num_messages,
            forall|at: int|
                old(self).timeout_index <= at < final(self).timeout_index - (if found is Some {
                    1int
                } else {
                    0int
                }) ==> !request_at(old(self).queue@, old(self).begin, at),
            match found {
                Some(i) => {
                    &&& final(self).timeout_index == old(self).begin + i + 1
                    &&& old(self).timeout_index <= old(self).begin + i < range_end
                    &&& request_at(old(self).queue@, old(self).begin, old(self).begin + i)
                },
                None => final(self).timeout_index == range_end,
            },
    {
        while self.timeout_index < range_end
            invariant
                self.queue == old(self).queue,
                self.begin == old(self).begin,
                self.deadline_range_ends == old(self).deadline_range_ends,
                self.num_messages == old(self).num_messages,
                old(self).begin <= old(self).timeout_index <= self.timeout_index <= range_end,
                range_end <= old(self).begin + old(self).queue@.len(),
                forall|at: int|
                    old(self).timeout_index <= at < self.timeout_index ==> !request_at(
                        old(self).queue@,
                        old(self).begin,
                        at,
                    ),
            decreases range_end - self.timeout_index,
        {
            let i = self.timeout_index - self.begin;
            self.timeout_index += 1;
            let is_request = match &self.queue.queue[i] {
                Some(RequestOrResponse::Request(_)) => true,
                _ => false,
            };
            if is_request {
                return Some(i);
            }
        }
        None
    }

    /// Times out the next request whose deadline is not after `current_time`:
    /// the request leaves the queue and is returned, and its slot stays empty
    /// until it gets to the front. Returns `None` where no such request is
    /// left.
    ///
    /// The requests time out in the order of their slots. Timing out resumes
    /// where it stopped the last time, or at the begin of the queue.
    #[verifier::rlimit(40)]
    pub fn time_out_next_request(&mut self, current_time: Time) -> (r: Option<Arc<Request>>)
        requires
            old(self).wf(),
        ensures
            final(self).wf(),
            final(self).spec_capacity() == old(self).spec_capacity(),
            final(self).spec_reserved() == old(self).spec_reserved(),
            final(self).end() == old(self).end(),
            match r {
                Some(request) => {
                    let at = final(self).spec_timeout_index() - 1;
                    &&& old(self).timeout_window_begin() <= at < old(self).timeout_window_end(
                        current_time,
                    )
                    &&& request_at(old(self).items(), old(self).spec_begin(), at)
                    &&& old(self).items()[at - old(self).spec_begin()] == Some(
                        RequestOrResponse::Request(request),
                    )
                    &&& forall|earlier: int|
                        old(self).timeout_window_begin() <= earlier < at ==> !request_at(
                            old(self).items(),
                            old(self).spec_begin(),
                            earlier,
                        )
                    &&& front_skipped(
                        old(self).items().update(at - old(self).spec_begin(), None),
                        final(self).items(),
                    )
                    &&& deadlines_pruned(
                        old(self).deadlines(),
                        final(self).deadlines(),
                        final(self).spec_begin(),
                        final(self).spec_timeout_index(),
                    )
                    &&& final(self).spec_num_messages() == old(self).spec_num_messages() - 1
                },
                None => {
                    let expired = expired_count(old(self).deadlines(), current_time);
                    &&& forall|at: int|
                        old(self).timeout_window_begin() <= at < old(self).timeout_window_end(
                            current_time,
                        ) ==> !request_at(old(self).items(), old(self).spec_begin(), at)
                    &&& final(self).items() == old(self).items()
                    &&& final(self).spec_begin() == old(self).spec_begin()
                    &&& final(self).spec_num_messages() == old(self).spec_num_messages()
                    &&& final(self).deadlines() == old(self).deadlines().subrange(
                        expired,
                        old(self).deadlines().len() as int,
                    )
                    &&& final(self).spec_timeout_index() == (if expired > 0 {
                        old(self).timeout_window_end(current_time)
                    } else {
                        old(self).spec_timeout_index() as int
                    })
                },
            },
    {
        let ghost d0 = self.deadline_range_ends@;
        let ghost items0 = self.queue@;
        let ghost begin0 = self.begin;
        let ghost s = old(self).timeout_window_begin();
        let ghost mut p: int = 0;
        assert(self.deadline_range_ends@ =~= d0.subrange(0, d0.len() as int));
        while self.deadline_range_ends.len() > 0
            invariant
                old(self).wf(),
                d0 == old(self).deadlines(),
                items0 == old(self).items(),
                begin0 == old(self).spec_begin(),
                s == old(self).timeout_window_begin(),
                self.queue == old(self).queue,
                self.begin == old(self).begin,
                self.num_messages == old(self).num_messages,
                0 <= p <= d0.len(),
                self.deadline_range_ends@ == d0.subrange(p, d0.len() as int),
                forall|i: int| 0 <= i < p ==> (#[trigger] d0[i]).0 <= current_time,
                p == 0 ==> self.timeout_index == old(self).timeout_index,
                p > 0 ==> self.timeout_index == d0[p - 1].1,
                p > 0 ==> forall|at: int|
                    s <= at < self.timeout_index ==> !request_at(items0, begin0, at),
            decreases d0.len() - p,
        {
            let deadline = self.deadline_range_ends[0].0;
            let deadline_range_end = self.deadline_range_ends[0].1;
            assert(self.deadline_range_ends@[0] == d0[p]);
            if deadline > current_time {
                proof {
                    lemma_expired_count(d0, current_time, p);
                    self.lemma_pruned_wf(old(self), p);
                }
                return None;
            }
            proof {
                assert(d0[0].1 > begin0 && d0[0].1 > old(self).spec_timeout_index());
                if p > 0 {
                    assert(d0[0].1 <= d0[p - 1].1) by {
                        if p - 1 > 0 {
                            assert(d0[0].1 < d0[p - 1].1);
                        }
                    }
                    assert(d0[p - 1].1 < d0[p].1);
                }
                if p < d0.len() - 1 {
                    assert(d0[p].1 < d0[d0.len() - 1].1);
                }
                assert(d0[d0.len() - 1] == d0.last());
            }
            if self.timeout_index < self.begin {
                self.timeout_index = self.begin;
            }
            match self.next_request_before(deadline_range_end) {
                Some(i) => {
                    let ghost mid = self.deadline_range_ends@;
                    proof {
                        lemma_expired_count_at_least(d0, current_time, p);
                        lemma_deadlines_suffix(d0, p);
                        assert(mid.last() == d0[d0.len() - 1]);
                        assert forall|k: int| 0 <= k < i implies !(
                        #[trigger] self.queue@[k] matches Some(
                            RequestOrResponse::Request(_),
                        )) by {
                            if begin0 + k >= s {
                                assert(!request_at(items0, begin0, begin0 + k));
                            }
                        }
                    }
                    let request = self.take_request_at(i);
                    proof {
                        lemma_pruned_after_scan(
                            d0,
                            mid,
                            self.deadline_range_ends@,
                            p,
                            self.begin,
                            self.timeout_index,
                        );
                        let upto = expired_count(d0, current_time);
                        if p < upto - 1 {
                            assert(d0[p].1 < d0[upto - 1].1);
                        }
                    }
                    return Some(request);
                },
                None => {},
            }
            self.deadline_range_ends.pop_front();
            proof {
                assert(self.deadline_range_ends@ =~= d0.subrange(p + 1, d0.len() as int));
                p = p + 1;
            }
        }
        proof {
            lemma_expired_count(d0, current_time, p);
            self.lemma_pruned_wf(old(self), p);
        }
        None
    }

    /// Takes the request out of the slot at position `i`, which is the last
    /// slot that was looked at for timing out, and tidies up the front of the
    /// queue.
    fn take_request_at(&mut self, i: usize) -> (request: Arc<Request>)
        requires
            old(self).items().len() + old(self).spec_reserved() <= old(self).spec_capacity(),
            old(self).end() <= usize::MAX,
            deadlines_increase(old(self).deadlines()),
            old(self).deadlines().len() > 0 ==> old(self).deadlines().last().1 <= old(self).end(),
            i < old(self).items().len(),
            old(self).spec_timeout_index() == old(self).spec_begin() + i + 1,
            old(self).items()[i as int] matches Some(RequestOrResponse::Request(_)),
            forall|k: int|
                0 <= k < i ==> !(#[trigger] old(self).items()[k] matches Some(
                    RequestOrResponse::Request(_),
                )),
            old(self).spec_num_messages() == message_count(old(self).items()),
        ensures
            final(self).wf(),
            final(self).spec_capacity() == old(self).spec_capacity(),
            final(self).spec_reserved() == old(self).spec_reserved(),
            final(self).spec_timeout_index() == old(self).spec_timeout_index(),
            final(self).spec_num_messages() == old(self).spec_num_messages() - 1,
            final(self).end() == old(self).end(),
            old(self).items()[i as int] == Some(RequestOrResponse::Request(request)),
            front_skipped(old(self).items().update(i as int, None), final(self).items()),
            deadlines_pruned(
                old(self).deadlines(),
                final(self).deadlines(),
                final(self).spec_begin(),
                final(self).spec_timeout_index(),
            ),
    {
        let ghost items = self.queue@;
        let item = self.queue.queue.remove(i);
        self.queue.queue.insert(i, None);
        proof {
            assert(self.queue@ =~= items.update(i as int, None));
            lemma_message_count_emptied(items, i as int);
            lemma_message_count_positive(items, i as int);
        }
        self.num_messages -= 1;
        proof {
            assert forall|k: int|
                0 <= k < self.queue@.len() && self.begin + k
                    < self.timeout_index implies !(#[trigger] self.queue@[k] matches Some(
                RequestOrResponse::Request(_),
            )) by {
                if k != i {
                    assert(self.queue@[k] == items[k]);
                }
            }
        }
        self.advance_to_next_message();
        match item {
            Some(Some(RequestOrResponse::Request(request))) => request,
            _ => vstd::pervasive::unreached(),
        }
    }

    /// A queue whose first `p` deadline ranges were dropped after all their
    /// slots were looked at is well formed.
    proof fn lemma_pruned_wf(&self, before: &Self, p: int)
        requires
            before.wf(),
            self.queue == before.queue,
            self.begin == before.begin,
            self.num_messages == before.num_messages,
            0 <= p <= before.deadlines().len(),
            self.deadlines() == before.deadlines().subrange(p, before.deadlines().len() as int),
            p == 0 ==> self.timeout_index == before.timeout_index,
            p > 0 ==> self.timeout_index == before.deadlines()[p - 1].1,
            p > 0 ==> forall|at: int|
                before.timeout_window_begin() <= at < self.timeout_index ==> !request_at(
                    before.items(),
                    before.spec_begin(),
                    at,
                ),
        ensures
            self.wf(),
    {
        let d0 = before.deadlines();
        let left = self.deadlines();
        assert forall|a: int, b: int| 0 <= a < b < left.len() implies (#[trigger] left[a]).0 < (
        #[trigger] left[b]).0 && left[a].1 < left[b].1 by {
            assert(left[a] == d0[a + p]);
            assert(left[b] == d0[b + p]);
        }
        if p > 0 {
            if p - 1 > 0 {
                assert(d0[0].1 < d0[p - 1].1);
            }
            if p - 1 < d0.len() - 1 {
                assert(d0[p - 1].1 < d0[d0.len() - 1].1);
            }
            assert(d0[d0.len() - 1] == d0.last());
            assert forall|i: int|
                0 <= i < self.items().len() && self.spec_begin() + i
                    < self.spec_timeout_index() implies !(#[trigger] self.items()[i] matches Some(
                RequestOrResponse::Request(_),
            )) by {
                if self.spec_begin() + i >= before.timeout_window_begin() {
                    assert(!request_at(before.items(), before.spec_begin(), self.spec_begin() + i));
                }
            }
        }
        if left.len() > 0 {
            assert(left[0] == d0[p]);
            assert(left.last() == d0[d0.len() - 1]);
            if p > 0 {
                assert(d0[p - 1].1 < d0[p].1);
                assert(d0[0].1 <= d0[p].1) by {
                    assert(d0[0].1 < d0[p].1);
                }
            }
        }
    }

    /// Returns the amount of cycles contained in the queue. What is above
    /// `u128::MAX` is cut off.
    pub fn cycles_in_queue(&self) -> (total: Cycles)
        ensures
            total == saturated(slot_cycles(self.items(), self.items().len() as int)),
    {
        let mut total: Cycles = 0;
        let mut i: usize = 0;
        while i < self.queue.queue.len()
            invariant
                i <= self.items().len(),
                self.items() == self.queue.queue@,
                total == saturated(slot_cycles(self.items(), i as int)),
                slot_cycles(self.items(), i as int) >= 0,
            decreases self.items().len() - i,
        {
            if let Some(msg) = &self.queue.queue[i] {
                total = total.saturating_add(msg.cycles());
            }
            i = i + 1;
        }
        total
    }

    /// Calculates the sum of the given stat across all enqueued messages.
    ///
    /// Time complexity: O(num_messages).
    pub fn calculate_stat_sum<F: Fn(&RequestOrResponse) -> usize>(&self, stat: F) -> (sum: usize)
        requires
            forall|i: int|
                0 <= i < self.items().len() ==> (#[trigger] self.items()[i] matches Some(msg)
                    ==> call_requires(stat, (&msg,))),
            forall|vals: Seq<usize>| #[trigger]
                slot_stats_of(stat, self.items(), vals) ==> stat_total(vals) <= usize::MAX,
        ensures
            exists|vals: Seq<usize>|
                vals.len() == self.items().len() && #[trigger] slot_stats_of(
                    stat,
                    self.items(),
                    vals,
                ) && sum == stat_total(vals),
    {
        let mut sum: usize = 0;
        let mut i: usize = 0;
        let ghost mut vals: Seq<usize> = Seq::empty();
        while i < self.queue.queue.len()
            invariant
                i <= self.items().len(),
                self.items() == self.queue.queue@,
                vals.len() == i,
                slot_stats_of(stat, self.items(), vals),
                sum == stat_total(vals),
                forall|j: int|
                    0 <= j < self.items().len() ==> (#[trigger] self.items()[j] matches Some(msg)
                        ==> call_requires(stat, (&msg,))),
                forall|all: Seq<usize>| #[trigger]
                    slot_stats_of(stat, self.items(), all) ==> stat_total(all) <= usize::MAX,
            decreases self.items().len() - i,
        {
            let v: usize = match &self.queue.queue[i] {
                Some(msg) => {
                    assert(self.items()[i as int] == Some(*msg));
                    stat(msg)
                },
                None => 0,
            };
            proof {
                let next = vals.push(v);
                assert(next.drop_last() =~= vals);
                assert(slot_stats_of(stat, self.items(), next));
                vals = next;
            }
            sum = sum + v;
            i = i + 1;
        }
        sum
    }

    /// What holds of the queue while the slots at its front may be empty.
    pub open spec fn wf_but_front(&self) -> bool {
        &&& self.items().len() + self.spec_reserved() <= self.spec_capacity()
        &&& self.end() <= usize::MAX
        &&& deadlines_increase(self.deadlines())
        &&& self.deadlines().len() > 0 ==> self.deadlines().last().1 <= self.end()
        &&& self.spec_timeout_index() <= self.end()
        &&& forall|i: int|
            0 <= i < self.items().len() && self.spec_begin() + i < self.spec_timeout_index()
                ==> !(#[trigger] self.items()[i] matches Some(RequestOrResponse::Request(_)))
        &&& self.spec_num_messages() == message_count(self.items())
    }

    /// Consumes any empty slots at the beginning of the queue and discards
    /// the deadline ranges that are no longer relevant.
    fn advance_to_next_message(&mut self)
        requires
            old(self).wf_but_front(),
        ensures
            final(self).wf(),
            final(self).spec_capacity() == old(self).spec_capacity(),
            final(self).spec_reserved() == old(self).spec_reserved(),
            final(self).spec_timeout_index() == old(self).spec_timeout_index(),
            final(self).spec_num_messages() == old(self).spec_num_messages(),
            final(self).end() == old(self).end(),
            front_skipped(old(self).items(), final(self).items()),
            deadlines_pruned(
                old(self).deadlines(),
                final(self).deadlines(),
                final(self).spec_begin(),
                final(self).spec_timeout_index(),
            ),
    {
        let ghost items = self.queue@;
        let ghost deadlines = self.deadline_range_ends@;
        self.skip_empty_front();
        self.prune_deadlines();
        proof {
            let left = self.deadline_range_ends@;
            let dropped = deadlines.len() - left.len();
            assert forall|i: int, j: int| 0 <= i < j < left.len() implies (#[trigger] left[i]).0 < (
            #[trigger] left[j]).0 && left[i].1 < left[j].1 by {
                assert(left[i] == deadlines[i + dropped]);
                assert(left[j] == deadlines[j + dropped]);
            }
            if left.len() > 0 {
                assert(left.last() == deadlines[deadlines.len() - 1]);
            }
            let skipped = items.len() - self.queue@.len();
            assert forall|i: int|
                0 <= i < self.queue@.len() && self.begin + i
                    < self.timeout_index implies !(#[trigger] self.queue@[i] matches Some(
                RequestOrResponse::Request(_),
            )) by {
                assert(self.queue@[i] == items[i + skipped]);
            }
        }
    }

    /// Removes the empty slots at the front of the queue.
    fn skip_empty_front(&mut self)
        requires
            old(self).queue.wf(),
            old(self).begin + old(self).queue@.len() <= usize::MAX,
        ensures
            final(self).queue.wf(),
            final(self).queue.spec_capacity() == old(self).queue.spec_capacity(),
            final(self).queue.spec_reserved() == old(self).queue.spec_reserved(),
            final(self).deadline_range_ends == old(self).deadline_range_ends,
            final(self).timeout_index == old(self).timeout_index,
            final(self).num_messages == old(self).num_messages,
            final(self).begin + final(self).queue@.len() == old(self).begin + old(self).queue@.len(),
            front_skipped(old(self).queue@, final(self).queue@),
            message_count(final(self).queue@) == message_count(old(self).queue@),
    {
        let ghost items = self.queue@;
        let ghost begin = self.begin;
        assert(self.queue@ =~= items.subrange(0, items.len() as int));
        while self.queue.queue.len() > 0 && self.queue.queue[0].is_none()
            invariant
                self.queue.wf(),
                self.queue.spec_capacity() == old(self).queue.spec_capacity(),
                self.queue.spec_reserved() == old(self).queue.spec_reserved(),
                self.deadline_range_ends == old(self).deadline_range_ends,
                self.timeout_index == old(self).timeout_index,
                self.num_messages == old(self).num_messages,
                self.begin + self.queue@.len() == begin + items.len(),
                begin + items.len() <= usize::MAX,
                self.begin >= begin,
                self.queue@ == items.subrange(self.begin - begin, items.len() as int),
                forall|i: int| 0 <= i < self.begin - begin ==> (#[trigger] items[i]) is None,
                message_count(self.queue@) == message_count(items),
            decreases self.queue@.len(),
        {
            proof {
                lemma_message_count_drop_first(self.queue@);
            }
            self.queue.pop();
            assert(self.queue@ =~= items.subrange(self.begin + 1 - begin, items.len() as int));
            self.begin += 1;
        }
    }

    /// Removes the deadline ranges at the front that end at or before the
    /// begin of the queue or the timeout index.
    fn prune_deadlines(&mut self)
        ensures
            final(self).queue == old(self).queue,
            final(self).begin == old(self).begin,
            final(self).timeout_index == old(self).timeout_index,
            final(self).num_messages == old(self).num_messages,
            deadlines_pruned(
                old(self).deadline_range_ends@,
                final(self).deadline_range_ends@,
                old(self).begin,
                old(self).timeout_index,
            ),
    {
        let ghost deadlines = self.deadline_range_ends@;
        assert(self.deadline_range_ends@ =~= deadlines.subrange(0, deadlines.len() as int));
        while self.deadline_range_ends.len() > 0 && (self.deadline_range_ends[0].1 <= self.begin
            || self.deadline_range_ends[0].1 <= self.timeout_index)
            invariant
                self.queue == old(self).queue,
                self.begin == old(self).begin,
                self.timeout_index == old(self).timeout_index,
                self.num_messages == old(self).num_messages,
                self.deadline_range_ends@.len() <= deadlines.len(),
                self.deadline_range_ends@ == deadlines.subrange(
                    deadlines.len() - self.deadline_range_ends@.len(),
                    deadlines.len() as int,
                ),
                forall|i: int|
                    0 <= i < deadlines.len() - self.deadline_range_ends@.len() ==> (
                    #[trigger] deadlines[i]).1 <= self.begin || deadlines[i].1
                        <= self.timeout_index,
            decreases self.deadline_range_ends@.len(),
        {
            let ghost current = self.deadline_range_ends@;
            self.deadline_range_ends.pop_front();
            assert(self.deadline_range_ends@ =~= deadlines.subrange(
                deadlines.len() - (current.len() - 1),
                deadlines.len() as int,
            ));
        }
    }
}

/// Whether the range at `i` has an earlier deadline and an earlier end
/// than the next range.
pub open spec fn range_before_next(deadlines: Seq<(Time, usize)>, i: int) -> bool {
    deadlines[i].0 < deadlines[i + 1].0 && deadlines[i].1 < deadlines[i + 1].1
}

/// The deadlines increase where each range is before the next.
pub proof fn lemma_adjacent_deadlines(deadlines: Seq<(Time, usize)>)
    requires
        forall|i: int| 0 <= i < deadlines.len() - 1 ==> #[trigger] range_before_next(deadlines, i),
    ensures
        deadlines_increase(deadlines),
{
    assert forall|i: int, j: int| 0 <= i < j < deadlines.len() implies (
    #[trigger] deadlines[i]).0 < (#[trigger] deadlines[j]).0 && deadlines[i].1
        < deadlines[j].1 by {
        lemma_deadlines_chain(deadlines, i, j);
    }
}

/// A range is before every later range where each range is before the next.
pub proof fn lemma_deadlines_chain(deadlines: Seq<(Time, usize)>, i: int, j: int)
    requires
        0 <= i < j < deadlines.len(),
        forall|k: int| 0 <= k < deadlines.len() - 1 ==> #[trigger] range_before_next(deadlines, k),
    ensures
        deadlines[i].0 < deadlines[j].0,
        deadlines[i].1 < deadlines[j].1,
    decreases j - i,
{
    if i + 1 < j {
        lemma_deadlines_chain(deadlines, i + 1, j);
    }
    assert(range_before_next(deadlines, i));
}

/// What is wrong with the parts of an output queue: the first of the
/// violations that holds of them, or nothing.
pub open spec fn output_queue_violation(
    items: Seq<Option<RequestOrResponse>>,
    begin: usize,
    deadlines: Seq<(Time, usize)>,
    timeout_index: usize,
) -> Option<OutputQueueViolation> {
    let end = begin + items.len();
    if items.len() > 0 && items[0] is None {
        Some(OutputQueueViolation::NoneAtFront)
    } else if !deadlines_increase(deadlines) {
        Some(OutputQueueViolation::DeadlinesNotSorted)
    } else if end > usize::MAX {
        Some(OutputQueueViolation::EndOverflow)
    } else if deadlines.len() > 0 && deadlines[0].1 <= begin {
        Some(OutputQueueViolation::DeadlineRangeEndBeforeBegin)
    } else if deadlines.len() > 0 && deadlines[0].1 <= timeout_index {
        Some(OutputQueueViolation::DeadlineRangeEndBeforeTimeoutIndex)
    } else if deadlines.len() > 0 && deadlines.last().1 > end {
        Some(OutputQueueViolation::DeadlineRangeEndAfterEnd)
    } else if timeout_index > end {
        Some(OutputQueueViolation::TimeoutIndexAfterEnd)
    } else if exists|i: int|
        0 <= i < items.len() && begin + i < timeout_index && #[trigger] items[i] matches Some(
            RequestOrResponse::Request(_),
        ) {
        Some(OutputQueueViolation::RequestBeforeTimeoutIndex)
    } else {
        None
    }
}

impl OutputQueue {
    /// What is wrong with the queue, or nothing.
    pub open spec fn violation(&self) -> Option<OutputQueueViolation> {
        output_queue_violation(
            self.items(),
            self.spec_begin(),
            self.deadlines(),
            self.spec_timeout_index(),
        )
    }

    /// Queue invariant check that produces an error if any invariant does
    /// not hold.
    fn test_invariants(&self) -> (r: Result<(), OutputQueueViolation>)
        ensures
            match r {
                Ok(()) => self.violation() is None,
                Err(v) => self.violation() == Some(v),
            },
    {
        let n = self.queue.queue.len();
        if n > 0 && self.queue.queue[0].is_none() {
            return Err(OutputQueueViolation::NoneAtFront);
        }
        let m = self.deadline_range_ends.len();
        let ghost deadlines = self.deadline_range_ends@;
        assert(self.items() == self.queue.queue@);
        assert(self.deadlines() == deadlines);
        let mut k: usize = 0;
        while m > 0 && k < m - 1
            invariant
                m == deadlines.len(),
                deadlines == self.deadline_range_ends@,
                deadlines == self.deadlines(),
                !(self.items().len() > 0 && self.items()[0] is None),
                k <= m,
                forall|i: int| 0 <= i < k ==> #[trigger] range_before_next(deadlines, i),
            decreases m - k,
        {
            let a = self.deadline_range_ends[k];
            let b = self.deadline_range_ends[k + 1];
            if !(a.0 < b.0 && a.1 < b.1) {
                assert(!deadlines_increase(deadlines)) by {
                    if deadlines_increase(deadlines) {
                        assert(deadlines[k as int].0 < deadlines[k + 1].0);
                        assert(deadlines[k as int].1 < deadlines[k + 1].1);
                    }
                }
                return Err(OutputQueueViolation::DeadlinesNotSorted);
            }
            assert(range_before_next(deadlines, k as int));
            k = k + 1;
        }
        proof {
            lemma_adjacent_deadlines(deadlines);
        }
        if n > usize::MAX - self.begin {
            return Err(OutputQueueViolation::EndOverflow);
        }
        let end = self.begin + n;
        // Deadline indices must be in the `(begin, end]` interval.
        if m > 0 {
            if self.deadline_range_ends[0].1 <= self.begin {
                return Err(OutputQueueViolation::DeadlineRangeEndBeforeBegin);
            }
            if self.deadline_range_ends[0].1 <= self.timeout_index {
                return Err(OutputQueueViolation::DeadlineRangeEndBeforeTimeoutIndex);
            }
            if self.deadline_range_ends[m - 1].1 > end {
                return Err(OutputQueueViolation::DeadlineRangeEndAfterEnd);
            }
        }
        if self.timeout_index > end {
            return Err(OutputQueueViolation::TimeoutIndexAfterEnd);
        }
        let looked_at: usize = if self.timeout_index > self.begin {
            self.timeout_index - self.begin
        } else {
            0
        };
        let mut i: usize = 0;
        while i < looked_at
            invariant
                i <= looked_at <= n,
                n == self.queue.queue@.len(),
                self.items() == self.queue.queue@,
                deadlines == self.deadlines(),
                !(self.items().len() > 0 && self.items()[0] is None),
                deadlines_increase(deadlines),
                self.end() <= usize::MAX,
                deadlines.len() > 0 ==> deadlines[0].1 > self.spec_begin() && deadlines[0].1
                    > self.spec_timeout_index() && deadlines.last().1 <= self.end(),
                self.spec_timeout_index() <= self.end(),
                looked_at == (if self.timeout_index > self.begin {
                    self.timeout_index - self.begin
                } else {
                    0
                }),
                forall|j: int|
                    0 <= j < i ==> !(#[trigger] self.items()[j] matches Some(
                        RequestOrResponse::Request(_),
                    )),
            decreases looked_at - i,
        {
            let is_request = match &self.queue.queue[i] {
                Some(RequestOrResponse::Request(_)) => true,
                _ => false,
            };
            if is_request {
                assert(0 <= i < self.items().len() && self.spec_begin() + i
                    < self.spec_timeout_index() && self.items()[i as int] matches Some(
                    RequestOrResponse::Request(_),
                ));
                return Err(OutputQueueViolation::RequestBeforeTimeoutIndex);
            }
            i = i + 1;
        }
        assert forall|j: int|
            0 <= j < self.items().len() && self.spec_begin() + j
                < self.spec_timeout_index() implies !(#[trigger] self.items()[j] matches Some(
            RequestOrResponse::Request(_),
        )) by {
            assert(j < looked_at);
        }
        Ok(())
    }

    /// The output queue with the given slots, reservations, deadline ranges
    /// and indices, where these fit together. The messages are counted.
    pub fn from_parts(
        slots: VecDeque<Option<RequestOrResponse>>,
        capacity: u64,
        num_slots_reserved: u64,
        begin: usize,
        deadline_range_ends: VecDeque<(Time, usize)>,
        timeout_index: usize,
        expected_capacity: usize,
    ) -> (r: Result<Self, QueueDecodeError>)
        ensures
            match r {
                Ok(q) => {
                    &&& q.wf()
                    &&& q.items() == slots@
                    &&& q.deadlines() == deadline_range_ends@
                    &&& q.spec_begin() == begin
                    &&& q.spec_timeout_index() == timeout_index
                    &&& q.spec_capacity() == expected_capacity
                    &&& q.spec_reserved() == num_slots_reserved
                    &&& size_is_valid(capacity, slots@.len() as usize, num_slots_reserved, expected_capacity)
                    &&& output_queue_violation(
                        slots@,
                        begin,
                        deadline_range_ends@,
                        timeout_index,
                    ) is None
                },
                Err(QueueDecodeError::InvalidOutputQueue(v)) => {
                    &&& size_is_valid(
                        capacity,
                        slots@.len() as usize,
                        num_slots_reserved,
                        expected_capacity,
                    )
                    &&& output_queue_violation(
                        slots@,
                        begin,
                        deadline_range_ends@,
                        timeout_index,
                    ) == Some(v)
                },
                Err(e) => {
                    &&& !size_is_valid(
                        capacity,
                        slots@.len() as usize,
                        num_slots_reserved,
                        expected_capacity,
                    )
                    &&& e == (if capacity != expected_capacity {
                        QueueDecodeError::WrongCapacity { capacity, expected: expected_capacity }
                    } else {
                        QueueDecodeError::OverCapacity {
                            message_count: slots@.len() as usize,
                            reserved_slots: num_slots_reserved,
                            capacity,
                        }
                    })
                },
            },
    {
        let queue = match QueueWithReservation::from_parts(
            slots,
            capacity,
            num_slots_reserved,
            expected_capacity,
        ) {
            Ok(queue) => queue,
            Err(e) => {
                return Err(e);
            },
        };
        let mut num_messages: usize = 0;
        let mut i: usize = 0;
        while i < queue.queue.len()
            invariant
                i <= queue.queue@.len(),
                num_messages == message_count(queue.queue@.subrange(0, i as int)),
                num_messages <= i,
            decreases queue.queue@.len() - i,
        {
            assert(queue.queue@.subrange(0, i + 1).drop_last() =~= queue.queue@.subrange(
                0,
                i as int,
            ));
            if queue.queue[i].is_some() {
                num_messages = num_messages + 1;
            }
            i = i + 1;
        }
        assert(queue.queue@.subrange(0, i as int) =~= queue.queue@);
        let res = OutputQueue { begin, queue, deadline_range_ends, timeout_index, num_messages };
        match res.test_invariants() {
            Ok(()) => Ok(res),
            Err(violation) => Err(QueueDecodeError::InvalidOutputQueue(violation)),
        }
    }
}

impl OutputQueue {
    /// The capacity that the queue was made with.
    pub fn capacity(&self) -> (n: usize)
        ensures
            n == self.spec_capacity(),
    {
        self.queue.capacity()
    }

    /// The index of the first slot.
    pub fn begin(&self) -> (n: usize)
        ensures
            n == self.spec_begin(),
    {
        self.begin
    }

    /// The index from which timing out resumes.
    pub fn timeout_index(&self) -> (n: usize)
        ensures
            n == self.spec_timeout_index(),
    {
        self.timeout_index
    }

    /// The number of slots, empty or not.
    pub fn num_slots(&self) -> (n: usize)
        ensures
            n == self.items().len(),
    {
        self.queue.num_items()
    }

    /// The slot at position `i`, the next one to leave being at 0.
    pub fn slot(&self, i: usize) -> (slot: &Option<RequestOrResponse>)
        requires
            i < self.items().len(),
        ensures
            *slot == self.items()[i as int],
    {
        &self.queue.queue[i]
    }

    /// The number of deadline ranges.
    pub fn num_deadline_ranges(&self) -> (n: usize)
        ensures
            n == self.deadlines().len(),
    {
        self.deadline_range_ends.len()
    }

    /// The deadline range at position `i`: its deadline and the index just
    /// past its last request.
    pub fn deadline_range(&self, i: usize) -> (range: (Time, usize))
        requires
            i < self.deadlines().len(),
        ensures
            range == self.deadlines()[i as int],
    {
        self.deadline_range_ends[i]
    }
}

} // verus!
