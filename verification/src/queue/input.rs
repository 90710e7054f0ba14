//! The input queue of a canister.

use crate::messages::{saturated, total_cycles, Cycles, RequestOrResponse};
use crate::queue::{
    size_is_valid, stat_total, stats_of, QueueDecodeError, QueueWithReservation, StateError,
};
use std::collections::VecDeque;
use vstd::prelude::*;

verus! {

/// Representation of a single canister input queue. There is an upper bound on
/// the number of messages it can store.
pub struct InputQueue {
    queue: QueueWithReservation<RequestOrResponse>,
}

impl View for InputQueue {
    type V = Seq<RequestOrResponse>;

    /// The messages of the queue, the next one to leave first.
    closed spec fn view(&self) -> Seq<RequestOrResponse> {
        self.queue@
    }
}

impl InputQueue {
    /// The largest number of slots that may be used or reserved.
    pub closed spec fn spec_capacity(&self) -> nat {
        self.queue.spec_capacity()
    }

    /// The number of slots that are reserved.
    pub closed spec fn spec_reserved(&self) -> nat {
        self.queue.spec_reserved()
    }

    /// Messages and reservations together never exceed the capacity.
    pub open spec fn wf(&self) -> bool {
        self@.len() + self.spec_reserved() <= self.spec_capacity()
    }

    /// Whether a slot is left to push a request into or to reserve.
    pub open spec fn has_slot(&self) -> bool {
        self@.len() + self.spec_reserved() < self.spec_capacity()
    }

    /// An empty queue without reservations.
    pub fn new(capacity: usize) -> (q: Self)
        ensures
            q.wf(),
            q@ == Seq::<RequestOrResponse>::empty(),
            q.spec_capacity() == capacity,
            q.spec_reserved() == 0,
    {
        Self { queue: QueueWithReservation::new(capacity) }
    }

    /// Returns `Ok(())` if there exists at least one available slot,
    /// `Err(StateError::QueueFull)` with the capacity otherwise.
    pub fn check_has_slot(&self) -> (r: Result<(), StateError>)
        requires
            self.wf(),
        ensures
            match r {
                Ok(()) => self.has_slot(),
                Err(e) => !self.has_slot() && e == (StateError::QueueFull {
                    capacity: self.spec_capacity() as usize,
                }),
            },
    {
        self.queue.check_has_slot()
    }

    /// Returns the number of slots available in the queue.
    pub fn available_slots(&self) -> (n: usize)
        requires
            self.wf(),
        ensures
            n == self.spec_capacity() - (self@.len() + self.spec_reserved()),
    {
        self.queue.available_slots()
    }

    /// Pushes a message into the queue: a request into a free slot, a
    /// response into a reserved slot. Where there is no such slot, the message
    /// comes back with an error.
    pub fn push(&mut self, msg: RequestOrResponse) -> (r: Result<(), (StateError, RequestOrResponse)>)
        requires
            old(self).wf(),
        ensures
            final(self).wf(),
            final(self).spec_capacity() == old(self).spec_capacity(),
            match r {
                Ok(()) => {
                    &&& final(self)@ == old(self)@.push(msg)
                    &&& match msg {
                        RequestOrResponse::Request(_) => old(self).has_slot() && final(self).spec_reserved() == old(self).spec_reserved(),
                        RequestOrResponse::Response(_) => old(self).spec_reserved() > 0 && final(self).spec_reserved() == old(self).spec_reserved() - 1,
                    }
                },
                Err((e, m)) => {
                    &&& m == msg
                    &&& final(self)@ == old(self)@
                    &&& final(self).spec_reserved() == old(self).spec_reserved()
                    &&& match msg {
                        RequestOrResponse::Request(_) => !old(self).has_slot() && e == (
                        StateError::QueueFull { capacity: old(self).spec_capacity() as usize }),
                        RequestOrResponse::Response(_) => old(self).spec_reserved() == 0 && e == (
                        StateError::QueueFull { capacity: 0 }),
                    }
                },
            },
    {
        if msg.is_request() {
            self.queue.push(msg)
        } else {
            self.queue.push_into_reserved_slot(msg)
        }
    }

    /// Returns a reference to the next message in the queue; or `None` if
    /// the queue is empty.
    pub fn peek(&self) -> (r: Option<&RequestOrResponse>)
        ensures
            match r {
                Some(item) => self@.len() > 0 && *item == self@[0],
                None => self@.len() == 0,
            },
    {
        self.queue.peek()
    }

    /// Reserves a slot if available, else returns `Err(StateError::QueueFull)`.
    pub fn reserve_slot(&mut self) -> (r: Result<(), StateError>)
        requires
            old(self).wf(),
        ensures
            final(self).wf(),
            final(self)@ == old(self)@,
            final(self).spec_capacity() == old(self).spec_capacity(),
            match r {
                Ok(()) => old(self).has_slot() && final(self).spec_reserved() == old(self).spec_reserved() + 1,
                Err(e) => !old(self).has_slot() && final(self).spec_reserved() == old(self).spec_reserved() && e == (StateError::QueueFull {
                    capacity: old(self).spec_capacity() as usize,
                }),
            },
    {
        self.queue.reserve_slot()
    }

    /// Pops a message from the queue. Returns `None` if the queue is empty.
    pub fn pop(&mut self) -> (r: Option<RequestOrResponse>)
        requires
            old(self).wf(),
        ensures
            final(self).wf(),
            final(self).spec_capacity() == old(self).spec_capacity(),
            final(self).spec_reserved() == old(self).spec_reserved(),
            match r {
                Some(item) => old(self)@.len() > 0 && item == old(self)@[0] && final(self)@ == old(self)@.subrange(1, old(self)@.len() as int),
                None => old(self)@.len() == 0 && final(self)@ == old(self)@,
            },
    {
        self.queue.pop()
    }

    /// Returns the number of messages in the queue.
    pub fn num_messages(&self) -> (n: usize)
        ensures
            n == self@.len(),
    {
        self.queue.num_items()
    }

    /// Returns the number of reserved slots in the queue.
    pub fn reserved_slots(&self) -> (n: usize)
        ensures
            n == self.spec_reserved(),
    {
        self.queue.reserved_slots()
    }

    /// Returns `true` if the queue has one or more used slots.
    pub fn has_used_slots(&self) -> (b: bool)
        ensures
            b == (self@.len() > 0 || self.spec_reserved() > 0),
    {
        self.queue.has_used_slots()
    }

    /// Returns the amount of cycles contained in the queue. What is above
    /// `u128::MAX` is cut off.
    pub fn cycles_in_queue(&self) -> (total: Cycles)
        ensures
            total == saturated(total_cycles(self@, self@.len() as int)),
    {
        let mut total: Cycles = 0;
        let mut i: usize = 0;
        while i < self.queue.queue.len()
            invariant
                i <= self@.len(),
                self@ == self.queue.queue@,
                total == saturated(total_cycles(self@, i as int)),
                total_cycles(self@, i as int) >= 0,
            decreases self@.len() - i,
        {
            let cycles = self.queue.queue[i].cycles();
            total = total.saturating_add(cycles);
            i = i + 1;
        }
        total
    }

    /// Calculates the sum of the given stat across all enqueued messages.
    ///
    /// Time complexity: O(num_messages).
    pub fn calculate_stat_sum<F: Fn(&RequestOrResponse) -> usize>(&self, stat: F) -> (sum: usize)
        requires
            forall|i: int| 0 <= i < self@.len() ==> call_requires(stat, (&#[trigger] self@[i],)),
            forall|vals: Seq<usize>| #[trigger]
                stats_of(stat, self@, vals) ==> stat_total(vals) <= usize::MAX,
        ensures
            exists|vals: Seq<usize>|
                vals.len() == self@.len() && #[trigger] stats_of(stat, self@, vals) && sum
                    == stat_total(vals),
    {
        assert(self@ == self.queue@);
        self.queue.calculate_stat_sum(stat)
    }
}

impl InputQueue {
    /// The input queue with the given messages and reservations. An input
    /// queue has neither deadline ranges nor a timeout index:
    /// `num_deadline_ranges` and `timeout_index` are what was read of them.
    pub fn from_parts(
        messages: VecDeque<RequestOrResponse>,
        capacity: u64,
        num_slots_reserved: u64,
        num_deadline_ranges: usize,
        timeout_index: u64,
        expected_capacity: usize,
    ) -> (r: Result<Self, QueueDecodeError>)
        ensures
            match r {
                Ok(q) => {
                    &&& num_deadline_ranges == 0 && timeout_index == 0
                    &&& size_is_valid(capacity, messages@.len() as usize, num_slots_reserved, expected_capacity)
                    &&& q.wf()
                    &&& q@ == messages@
                    &&& q.spec_capacity() == expected_capacity
                    &&& q.spec_reserved() == num_slots_reserved
                },
                Err(e) => if num_deadline_ranges != 0 || timeout_index != 0 {
                    e == QueueDecodeError::DeadlinesOnInputQueue
                } else {
                    &&& !size_is_valid(
                        capacity,
                        messages@.len() as usize,
                        num_slots_reserved,
                        expected_capacity,
                    )
                    &&& e == (if capacity != expected_capacity {
                        QueueDecodeError::WrongCapacity { capacity, expected: expected_capacity }
                    } else {
                        QueueDecodeError::OverCapacity {
                            message_count: messages@.len() as usize,
                            reserved_slots: num_slots_reserved,
                            capacity,
                        }
                    })
                },
            },
    {
        if num_deadline_ranges != 0 || timeout_index != 0 {
            return Err(QueueDecodeError::DeadlinesOnInputQueue);
        }
        match QueueWithReservation::from_parts(
            messages,
            capacity,
            num_slots_reserved,
            expected_capacity,
        ) {
            Ok(queue) => Ok(InputQueue { queue }),
            Err(e) => Err(e),
        }
    }
}

impl InputQueue {
    /// The capacity that the queue was made with.
    pub fn capacity(&self) -> (n: usize)
        ensures
            n == self.spec_capacity(),
    {
        self.queue.capacity()
    }

    /// The message at position `i`, the next one to leave being at 0.
    pub fn message(&self, i: usize) -> (msg: &RequestOrResponse)
        requires
            i < self@.len(),
        ensures
            *msg == self@[i as int],
    {
        &self.queue.queue[i]
    }
}

} // verus!
