//! The ingress queue of a canister.

use std::collections::VecDeque;
use vstd::prelude::*;

verus! {

/// The sizes of the first `n` of `items` together.
pub open spec fn total_size_bytes<M>(items: Seq<(M, usize)>, n: int) -> int
    decreases n,
{
    if n <= 0 {
        0
    } else {
        total_size_bytes(items, n - 1) + items[n - 1].1
    }
}

/// Those of the first `n` of `items` whose flag is set, in their order.
pub open spec fn flagged_items<M>(items: Seq<(M, usize)>, flags: Seq<bool>, n: int) -> Seq<
    (M, usize),
>
    decreases n,
{
    if n <= 0 {
        Seq::empty()
    } else if flags[n - 1] {
        flagged_items(items, flags, n - 1).push(items[n - 1])
    } else {
        flagged_items(items, flags, n - 1)
    }
}

/// The sizes of a part of the items are no more than the sizes of all.
pub proof fn lemma_flagged_size<M>(items: Seq<(M, usize)>, flags: Seq<bool>, n: int)
    requires
        0 <= n <= items.len(),
        n <= flags.len(),
    ensures
        0 <= total_size_bytes(
            flagged_items(items, flags, n),
            flagged_items(items, flags, n).len() as int,
        ) <= total_size_bytes(items, n),
        flagged_items(items, flags, n).len() <= n,
    decreases n,
{
    if n > 0 {
        lemma_flagged_size(items, flags, n - 1);
        let before = flagged_items(items, flags, n - 1);
        if flags[n - 1] {
            let now = before.push(items[n - 1]);
            lemma_size_of_prefix(now, before.len() as int, before);
        }
    }
}

/// The size of the first `n` items depends on those items only.
pub proof fn lemma_size_of_prefix<M>(items: Seq<(M, usize)>, n: int, prefix: Seq<(M, usize)>)
    requires
        0 <= n <= items.len(),
        prefix.len() == n,
        forall|i: int| 0 <= i < n ==> items[i] == prefix[i],
    ensures
        total_size_bytes(items, n) == total_size_bytes(prefix, n),
    decreases n,
{
    if n > 0 {
        lemma_size_of_prefix(items, n - 1, prefix.drop_last());
        lemma_size_of_prefix(prefix, n - 1, prefix.drop_last());
    }
}

/// Representation of the ingress queue. There is no upper bound on the
/// number of messages it can store. The queue keeps an estimate of its size in
/// bytes: each message comes with the estimate of its own size.
pub struct IngressQueue<M> {
    queue: VecDeque<(M, usize)>,
    /// Estimated size in bytes.
    size_bytes: usize,
}

impl<M> View for IngressQueue<M> {
    type V = Seq<(M, usize)>;

    /// The messages of the queue with their sizes, the next one to leave
    /// first.
    closed spec fn view(&self) -> Seq<(M, usize)> {
        self.queue@
    }
}

impl<M> IngressQueue<M> {
    /// The estimate of the size that the queue keeps.
    pub closed spec fn spec_size_bytes(&self) -> usize {
        self.size_bytes
    }

    /// The estimate is the sum of the sizes of the messages.
    pub open spec fn wf(&self) -> bool {
        self.spec_size_bytes() == total_size_bytes(self@, self@.len() as int)
    }

    /// An empty queue.
    pub fn new() -> (q: Self)
        ensures
            q.wf(),
            q@ == Seq::<(M, usize)>::empty(),
            q.spec_size_bytes() == 0,
    {
        IngressQueue { queue: VecDeque::new(), size_bytes: 0 }
    }

    /// Pushes a message whose size is estimated as `size_bytes`.
    pub fn push(&mut self, msg: M, size_bytes: usize)
        requires
            old(self).wf(),
            old(self).spec_size_bytes() + size_bytes <= usize::MAX,
        ensures
            final(self).wf(),
            final(self)@ == old(self)@.push((msg, size_bytes)),
            final(self).spec_size_bytes() == old(self).spec_size_bytes() + size_bytes,
    {
        let ghost before = self.queue@;
        self.size_bytes += size_bytes;
        self.queue.push_back((msg, size_bytes));
        proof {
            lemma_size_of_prefix(self.queue@, before.len() as int, before);
        }
    }

    /// Pops the next message.
    pub fn pop(&mut self) -> (r: Option<M>)
        requires
            old(self).wf(),
        ensures
            final(self).wf(),
            match r {
                Some(msg) => {
                    &&& old(self)@.len() > 0
                    &&& msg == old(self)@[0].0
                    &&& final(self)@ == old(self)@.subrange(1, old(self)@.len() as int)
                    &&& final(self).spec_size_bytes() == old(self).spec_size_bytes() - old(self)@[0].1
                },
                None => old(self)@.len() == 0 && final(self)@ == old(self)@ && final(self).spec_size_bytes() == old(self).spec_size_bytes(),
            },
    {
        let ghost before = self.queue@;
        match self.queue.pop_front() {
            Some((msg, size)) => {
                proof {
                    lemma_size_without_first(before);
                }
                self.size_bytes -= size;
                Some(msg)
            },
            None => None,
        }
    }

    /// Returns a reference to the next message.
    pub fn peek(&self) -> (r: Option<&M>)
        ensures
            match r {
                Some(msg) => self@.len() > 0 && *msg == self@[0].0,
                None => self@.len() == 0,
            },
    {
        if self.queue.len() > 0 {
            Some(&self.queue[0].0)
        } else {
            None
        }
    }

    /// The number of messages.
    pub fn size(&self) -> (n: usize)
        ensures
            n == self@.len(),
    {
        self.queue.len()
    }

    /// Whether the queue holds no message.
    pub fn is_empty(&self) -> (b: bool)
        ensures
            b == (self@.len() == 0),
    {
        self.size() == 0
    }

    /// Estimate of the queue size in bytes.
    pub fn count_bytes(&self) -> (n: usize)
        ensures
            n == self.spec_size_bytes(),
    {
        self.size_bytes
    }

    /// Calls `filter` on each ingress message in the queue, retaining the
    /// messages for whom the filter returns `true` and dropping the rest.
    pub fn filter_messages<F: Fn(&M) -> bool>(&mut self, filter: F)
        requires
            old(self).wf(),
            forall|i: int| 0 <= i < old(self)@.len() ==> call_requires(
                filter,
                (&(#[trigger] old(self)@[i]).0,),
            ),
        ensures
            final(self).wf(),
            exists|flags: Seq<bool>|
                {
                    &&& flags.len() == old(self)@.len()
                    &&& forall|i: int|
                        0 <= i < flags.len() ==> call_ensures(
                            filter,
                            (&(#[trigger] old(self)@[i]).0,),
                            flags[i],
                        )
                    &&& final(self)@ == #[trigger] flagged_items(
                        old(self)@,
                        flags,
                        old(self)@.len() as int,
                    )
                },
    {
        let ghost items = self.queue@;
        let ghost mut flags: Seq<bool> = Seq::empty();
        let mut kept: VecDeque<(M, usize)> = VecDeque::new();
        let mut size_bytes: usize = 0;
        let n = self.queue.len();
        let mut i: usize = 0;
        while i < n
            invariant
                i <= n,
                n == items.len(),
                old(self).wf(),
                items == old(self)@,
                self.queue@ == items.subrange(i as int, n as int),
                flags.len() == i,
                forall|j: int|
                    0 <= j < i ==> call_ensures(filter, (&(#[trigger] items[j]).0,), flags[j]),
                forall|j: int|
                    0 <= j < items.len() ==> call_requires(filter, (&(#[trigger] items[j]).0,)),
                kept@ == flagged_items(items, flags, i as int),
                size_bytes == total_size_bytes(kept@, kept@.len() as int),
            decreases n - i,
        {
            let ghost kept_before = kept@;
            match self.queue.pop_front() {
                Some((msg, size)) => {
                    assert(items[i as int] == (msg, size));
                    let keep = filter(&msg);
                    proof {
                        let next = flags.push(keep);
                        lemma_flagged_same(items, flags, next, i as int);
                        flags = next;
                        lemma_flagged_size(items, flags, i + 1);
                        lemma_size_within(items, i + 1);
                    }
                    if keep {
                        kept.push_back((msg, size));
                        proof {
                            lemma_size_of_prefix(kept@, kept_before.len() as int, kept_before);
                        }
                        size_bytes = size_bytes + size;
                    }
                    assert(self.queue@ =~= items.subrange(i + 1, n as int));
                },
                None => {},
            }
            i = i + 1;
        }
        self.queue = kept;
        self.size_bytes = size_bytes;
    }
}

/// Without its first item a sequence is smaller by the size of that item.
pub proof fn lemma_size_without_first<M>(items: Seq<(M, usize)>)
    requires
        items.len() > 0,
    ensures
        total_size_bytes(
            items.subrange(1, items.len() as int),
            items.len() - 1,
        ) + items[0].1 == total_size_bytes(items, items.len() as int),
        total_size_bytes(items.subrange(1, items.len() as int), items.len() - 1) >= 0,
    decreases items.len(),
{
    let rest = items.subrange(1, items.len() as int);
    let n = items.len() as int;
    if n > 1 {
        let shorter = items.drop_last();
        let inner = shorter.subrange(1, n - 1);
        lemma_size_without_first(shorter);
        lemma_size_of_prefix(items, n - 1, shorter);
        assert forall|i: int| 0 <= i < n - 2 implies rest[i] == inner[i] by {}
        lemma_size_of_prefix(rest, n - 2, inner);
        assert(total_size_bytes(items, n) == total_size_bytes(items, n - 1) + items[n - 1].1);
        assert(total_size_bytes(rest, n - 1) == total_size_bytes(rest, n - 2) + rest[n - 2].1);
        assert(rest[n - 2] == items[n - 1]);
    } else {
        assert(total_size_bytes(items, 1) == total_size_bytes(items, 0) + items[0].1);
        assert(total_size_bytes(rest, 0) == 0);
    }
}

/// The flagged items among the first `n` do not depend on later flags.
pub proof fn lemma_flagged_same<M>(items: Seq<(M, usize)>, a: Seq<bool>, b: Seq<bool>, n: int)
    requires
        0 <= n <= a.len(),
        n <= b.len(),
        forall|i: int| 0 <= i < n ==> a[i] == b[i],
    ensures
        flagged_items(items, a, n) == flagged_items(items, b, n),
    decreases n,
{
    if n > 0 {
        lemma_flagged_same(items, a, b, n - 1);
    }
}

/// The size of a part of the items is no more than the size of all.
pub proof fn lemma_size_within<M>(items: Seq<(M, usize)>, n: int)
    requires
        0 <= n <= items.len(),
    ensures
        0 <= total_size_bytes(items, n) <= total_size_bytes(items, items.len() as int),
    decreases items.len() - n,
{
    if n < items.len() {
        lemma_size_within(items, n + 1);
    }
    lemma_size_nonnegative(items, n);
}

/// A size is not negative.
pub proof fn lemma_size_nonnegative<M>(items: Seq<(M, usize)>, n: int)
    ensures
        0 <= total_size_bytes(items, n),
    decreases n,
{
    if n > 0 {
        lemma_size_nonnegative(items, n - 1);
    }
}

} // verus!
