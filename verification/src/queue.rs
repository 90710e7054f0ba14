//! FIFO queues with an upper bound on the slots that are used or reserved.

pub mod ingress;
pub mod input;
pub mod output;

use crate::queue::output::OutputQueueViolation;
use std::collections::VecDeque;
use vstd::prelude::*;

verus! {

/// Why a queue refused an item or a reservation.
#[derive(Clone, Copy, Debug, PartialEq, Eq, Structural)]
pub enum StateError {
    /// No slot is left. `capacity` is the capacity of the queue, or 0 where a
    /// reservation was needed and none was there.
    QueueFull { capacity: usize },
}

/// The sum of a sequence of stats.
pub open spec fn stat_total(vals: Seq<usize>) -> int
    decreases vals.len(),
{
    if vals.len() == 0 {
        0
    } else {
        stat_total(vals.drop_last()) + vals.last()
    }
}

/// `vals` holds what `stat` returned for the first `vals.len()` items of `items`,
/// in their order.
pub open spec fn stats_of<T, F: Fn(&T) -> usize>(stat: F, items: Seq<T>, vals: Seq<usize>) -> bool {
    &&& vals.len() <= items.len()
    &&& forall|i: int| 0 <= i < vals.len() ==> call_ensures(stat, (&#[trigger] items[i],), vals[i])
}

/// A FIFO queue that enforces an upper bound on the number of slots used and
/// reserved. Pushing an item into the queue or reserving a slot may fail if the
/// queue is full. Pushing an item into a reserved slot succeeds as long as a
/// reservation is left.
pub struct QueueWithReservation<T: Clone> {
    queue: VecDeque<T>,
    /// Maximum number of messages allowed in the `queue` above.
    capacity: usize,
    /// Number of slots in the above `queue` currently reserved. A slot must
    /// first be reserved before it can be pushed to, which consumes it.
    num_slots_reserved: usize,
}

impl<T: Clone> View for QueueWithReservation<T> {
    type V = Seq<T>;

    /// The items of the queue, the next one to leave first.
    closed spec fn view(&self) -> Seq<T> {
        self.queue@
    }
}

impl<T: Clone> QueueWithReservation<T> {
    /// The largest number of slots that may be used or reserved.
    pub closed spec fn spec_capacity(&self) -> nat {
        self.capacity as nat
    }

    /// The number of slots that are reserved.
    pub closed spec fn spec_reserved(&self) -> nat {
        self.num_slots_reserved as nat
    }

    /// Items and reservations together never exceed the capacity.
    pub open spec fn wf(&self) -> bool {
        self@.len() + self.spec_reserved() <= self.spec_capacity()
    }

    /// Whether a slot is left to push into or to reserve.
    pub open spec fn has_slot(&self) -> bool {
        self@.len() + self.spec_reserved() < self.spec_capacity()
    }

    /// An empty queue without reservations.
    pub fn new(capacity: usize) -> (q: Self)
        ensures
            q.wf(),
            q@ == Seq::<T>::empty(),
            q.spec_capacity() == capacity,
            q.spec_reserved() == 0,
    {
        let queue = VecDeque::new();
        Self { queue, capacity, num_slots_reserved: 0 }
    }

    /// Returns `Ok(())` if there exists at least one available slot,
    /// `Err(StateError::QueueFull)` with the capacity otherwise.
    pub fn check_has_slot(&self) -> (r: Result<(), StateError>)
        requires
            self.wf(),
        ensures
            match r {
                Ok(()) => self.has_slot(),
                Err(e) => !self.has_slot() && e == (StateError::QueueFull {
                    capacity: self.spec_capacity() as usize,
                }),
            },
    {
        if self.queue.len() + self.num_slots_reserved >= self.capacity {
            return Err(StateError::QueueFull { capacity: self.capacity });
        }
        Ok(())
    }

    /// Returns the number of slots available in the queue. This many items can
    /// be reserved or pushed before an error is returned.
    pub fn available_slots(&self) -> (n: usize)
        requires
            self.wf(),
        ensures
            n == self.spec_capacity() - (self@.len() + self.spec_reserved()),
    {
        self.capacity - (self.queue.len() + self.num_slots_reserved)
    }

    /// Reserves a slot if available, else returns `Err(StateError::QueueFull)`.
    pub fn reserve_slot(&mut self) -> (r: Result<(), StateError>)
        requires
            old(self).wf(),
        ensures
            final(self).wf(),
            final(self)@ == old(self)@,
            final(self).spec_capacity() == old(self).spec_capacity(),
            match r {
                Ok(()) => old(self).has_slot() && final(self).spec_reserved() == old(self).spec_reserved() + 1,
                Err(e) => !old(self).has_slot() && final(self).spec_reserved() == old(self).spec_reserved() && e == (StateError::QueueFull {
                    capacity: old(self).spec_capacity() as usize,
                }),
            },
    {
        match self.check_has_slot() {
            Ok(()) => {
                self.num_slots_reserved += 1;
                Ok(())
            },
            Err(e) => Err(e),
        }
    }

    /// Pushes an item into the queue if not full, returns
    /// `Err(StateError::QueueFull)` along with the provided item otherwise.
    pub fn push(&mut self, msg: T) -> (r: Result<(), (StateError, T)>)
        requires
            old(self).wf(),
        ensures
            final(self).wf(),
            final(self).spec_capacity() == old(self).spec_capacity(),
            final(self).spec_reserved() == old(self).spec_reserved(),
            match r {
                Ok(()) => old(self).has_slot() && final(self)@ == old(self)@.push(msg),
                Err((e, m)) => !old(self).has_slot() && final(self)@ == old(self)@ && m == msg
                    && e == (StateError::QueueFull {
                    capacity: old(self).spec_capacity() as usize,
                }),
            },
    {
        if let Err(e) = self.check_has_slot() {
            return Err((e, msg));
        }
        self.queue.push_back(msg);
        Ok(())
    }

    /// Pushes an item into a reserved slot, consuming the reservation, or
    /// returns the item with an error if there is no reservation available.
    pub fn push_into_reserved_slot(&mut self, msg: T) -> (r: Result<(), (StateError, T)>)
        requires
            old(self).wf(),
        ensures
            final(self).wf(),
            final(self).spec_capacity() == old(self).spec_capacity(),
            match r {
                Ok(()) => old(self).spec_reserved() > 0 && final(self).spec_reserved() == old(self).spec_reserved() - 1 && final(self)@ == old(self)@.push(msg),
                Err((e, m)) => old(self).spec_reserved() == 0 && final(self).spec_reserved() == 0
                    && final(self)@ == old(self)@ && m == msg && e == (StateError::QueueFull {
                    capacity: 0,
                }),
            },
    {
        if self.num_slots_reserved > 0 {
            self.num_slots_reserved -= 1;
            self.queue.push_back(msg);
            Ok(())
        } else {
            Err((StateError::QueueFull { capacity: 0 }, msg))
        }
    }

    /// Pops an item from the queue. Returns `None` if the queue is empty.
    pub fn pop(&mut self) -> (r: Option<T>)
        requires
            old(self).wf(),
        ensures
            final(self).wf(),
            final(self).spec_capacity() == old(self).spec_capacity(),
            final(self).spec_reserved() == old(self).spec_reserved(),
            match r {
                Some(item) => old(self)@.len() > 0 && item == old(self)@[0] && final(self)@ == old(self)@.subrange(1, old(self)@.len() as int),
                None => old(self)@.len() == 0 && final(self)@ == old(self)@,
            },
    {
        self.queue.pop_front()
    }

    /// Returns a reference to the next item in the queue; or `None` if
    /// the queue is empty.
    pub fn peek(&self) -> (r: Option<&T>)
        ensures
            match r {
                Some(item) => self@.len() > 0 && *item == self@[0],
                None => self@.len() == 0,
            },
    {
        if self.queue.len() > 0 {
            Some(&self.queue[0])
        } else {
            None
        }
    }

    /// Returns the number of items in the queue.
    pub fn num_items(&self) -> (n: usize)
        ensures
            n == self@.len(),
    {
        self.queue.len()
    }

    /// Returns the capacity that the queue was made with.
    pub fn capacity(&self) -> (n: usize)
        ensures
            n == self.spec_capacity(),
    {
        self.capacity
    }

    /// Returns the number of reserved slots in the queue.
    pub fn reserved_slots(&self) -> (n: usize)
        ensures
            n == self.spec_reserved(),
    {
        self.num_slots_reserved
    }

    /// Returns `true` if the queue has one or more used slots.
    pub fn has_used_slots(&self) -> (b: bool)
        ensures
            b == (self@.len() > 0 || self.spec_reserved() > 0),
    {
        self.queue.len() > 0 || self.reserved_slots() > 0
    }

    /// Calculates the sum of the given stat across all enqueued messages.
    ///
    /// Time complexity: O(num_messages).
    pub fn calculate_stat_sum<F: Fn(&T) -> usize>(&self, stat: F) -> (sum: usize)
        requires
            forall|i: int| 0 <= i < self@.len() ==> call_requires(stat, (&#[trigger] self@[i],)),
            forall|vals: Seq<usize>| #[trigger]
                stats_of(stat, self@, vals) ==> stat_total(vals) <= usize::MAX,
        ensures
            exists|vals: Seq<usize>|
                vals.len() == self@.len() && #[trigger] stats_of(stat, self@, vals) && sum
                    == stat_total(vals),
    {
        let mut sum: usize = 0;
        let mut i: usize = 0;
        let ghost mut vals: Seq<usize> = Seq::empty();
        while i < self.queue.len()
            invariant
                i <= self@.len(),
                vals.len() == i,
                stats_of(stat, self@, vals),
                sum == stat_total(vals),
                forall|j: int| 0 <= j < self@.len() ==> call_requires(stat, (&#[trigger] self@[j],)),
                forall|all: Seq<usize>| #[trigger]
                    stats_of(stat, self@, all) ==> stat_total(all) <= usize::MAX,
            decreases self@.len() - i,
        {
            let v: usize = stat(&self.queue[i]);
            proof {
                let next = vals.push(v);
                assert(next.drop_last() =~= vals);
                assert(stats_of(stat, self@, next));
                vals = next;
            }
            sum = sum + v;
            i = i + 1;
        }
        sum
    }
}

/// Why a queue cannot be made of the parts that were read.
#[derive(Clone, Copy, Debug, PartialEq, Eq, Structural)]
pub enum QueueDecodeError {
    /// The capacity is not the expected one.
    WrongCapacity { capacity: u64, expected: usize },
    /// There are more messages and reserved slots than the capacity allows.
    OverCapacity { message_count: usize, reserved_slots: u64, capacity: u64 },
    /// An input queue was read that has deadlines or a timeout index.
    DeadlinesOnInputQueue,
    /// The parts of an output queue do not fit together.
    InvalidOutputQueue(OutputQueueViolation),
}

/// Whether `capacity` is the expected capacity and allows for
/// `message_count` messages and `reserved_slots` reserved slots.
pub open spec fn size_is_valid(
    capacity: u64,
    message_count: usize,
    reserved_slots: u64,
    expected_capacity: usize,
) -> bool {
    capacity == expected_capacity && message_count + reserved_slots <= capacity
}

/// Validates that the queue capacity is `expected_capacity`; and that the
/// queue (items plus reservations) is not over capacity.
pub fn check_size(capacity: u64, message_count: usize, reserved_slots: u64, expected_capacity: usize) -> (r:
    Result<(), QueueDecodeError>)
    ensures
        r is Ok <==> size_is_valid(capacity, message_count, reserved_slots, expected_capacity),
        r matches Err(e) ==> e == (if capacity != expected_capacity {
            QueueDecodeError::WrongCapacity { capacity, expected: expected_capacity }
        } else {
            QueueDecodeError::OverCapacity { message_count, reserved_slots, capacity }
        }),
{
    if capacity != expected_capacity as u64 {
        return Err(QueueDecodeError::WrongCapacity { capacity, expected: expected_capacity });
    }
    if reserved_slots > capacity || capacity - reserved_slots < message_count as u64 {
        return Err(QueueDecodeError::OverCapacity { message_count, reserved_slots, capacity });
    }
    Ok(())
}

impl<T: Clone> QueueWithReservation<T> {
    /// The queue with the given items and reservations, where these fit
    /// the capacity and the capacity is the expected one.
    pub fn from_parts(items: VecDeque<T>, capacity: u64, num_slots_reserved: u64, expected_capacity: usize) -> (r:
        Result<Self, QueueDecodeError>)
        ensures
            match r {
                Ok(q) => {
                    &&& size_is_valid(capacity, items@.len() as usize, num_slots_reserved, expected_capacity)
                    &&& q.wf()
                    &&& q@ == items@
                    &&& q.spec_capacity() == expected_capacity
                    &&& q.spec_reserved() == num_slots_reserved
                },
                Err(e) => {
                    &&& !size_is_valid(capacity, items@.len() as usize, num_slots_reserved, expected_capacity)
                    &&& e == (if capacity != expected_capacity {
                        QueueDecodeError::WrongCapacity { capacity, expected: expected_capacity }
                    } else {
                        QueueDecodeError::OverCapacity {
                            message_count: items@.len() as usize,
                            reserved_slots: num_slots_reserved,
                            capacity,
                        }
                    })
                },
            },
    {
        match check_size(capacity, items.len(), num_slots_reserved, expected_capacity) {
            Ok(()) => Ok(
                QueueWithReservation {
                    num_slots_reserved: num_slots_reserved as usize,
                    capacity: expected_capacity,
                    queue: items,
                },
            ),
            Err(e) => Err(e),
        }
    }
}

} // verus!
