//! A map from heights to values, kept as a vector of entries in strictly
//! increasing order of height.

use vstd::prelude::*;

verus! {

/// Identifies a version of the state. Height 0 is the initial state.
pub type Height = u64;

/// Whether the heights of `s` are strictly increasing.
pub open spec fn strictly_increasing(s: Seq<Height>) -> bool {
    forall|i: int, j: int| 0 <= i < j < s.len() ==> s[i] < s[j]
}

/// The heights of a sequence of entries, in the order of the entries.
pub open spec fn entry_keys<V>(s: Seq<(Height, V)>) -> Seq<Height> {
    Seq::new(s.len(), |i: int| s[i].0)
}

/// The position of the entry for `h`, where there is one.
pub open spec fn entry_index<V>(s: Seq<(Height, V)>, h: Height) -> int {
    choose|i: int| 0 <= i < s.len() && s[i].0 == h
}

/// The map that a sequence of entries stands for.
pub open spec fn entry_map<V>(s: Seq<(Height, V)>) -> Map<Height, V> {
    Map::new(
        |h: Height| exists|i: int| 0 <= i < s.len() && s[i].0 == h,
        |h: Height| s[entry_index(s, h)].1,
    )
}

/// In a sequence of entries with strictly increasing heights, every entry is
/// the one that the map holds for its height.
pub proof fn lemma_entry_map_at<V>(s: Seq<(Height, V)>, i: int)
    requires
        strictly_increasing(entry_keys(s)),
        0 <= i < s.len(),
    ensures
        entry_map(s).contains_key(s[i].0),
        entry_map(s)[s[i].0] == s[i].1,
        entry_index(s, s[i].0) == i,
{
    let j = entry_index(s, s[i].0);
    assert(0 <= j < s.len() && s[j].0 == s[i].0);
    if j < i {
        assert(entry_keys(s)[j] < entry_keys(s)[i]);
    } else if i < j {
        assert(entry_keys(s)[i] < entry_keys(s)[j]);
    }
}

/// A key of the map has an entry in the sequence.
pub proof fn lemma_entry_map_key<V>(s: Seq<(Height, V)>, h: Height) -> (i: int)
    requires
        strictly_increasing(entry_keys(s)),
        entry_map(s).contains_key(h),
    ensures
        0 <= i < s.len(),
        s[i].0 == h,
        entry_map(s)[h] == s[i].1,
        entry_keys(s)[i] == h,
{
    let i = entry_index(s, h);
    lemma_entry_map_at(s, i);
    i
}

/// Where the first entry that is not below `h` is not an entry for `h`, the
/// map has no entry for `h`, and every entry from there on is above `h`.
pub proof fn lemma_entry_map_miss<V>(s: Seq<(Height, V)>, i: int, h: Height)
    requires
        strictly_increasing(entry_keys(s)),
        0 <= i <= s.len(),
        forall|j: int| 0 <= j < i ==> (#[trigger] s[j]).0 < h,
        forall|j: int| i <= j < s.len() ==> (#[trigger] s[j]).0 >= h,
        !(i < s.len() && s[i].0 == h),
    ensures
        forall|j: int| i <= j < s.len() ==> (#[trigger] s[j]).0 > h,
        !entry_map(s).contains_key(h),
{
    assert forall|j: int| i <= j < s.len() implies (#[trigger] s[j]).0 > h by {
        if i < j {
            assert(entry_keys(s)[i] < entry_keys(s)[j]);
            assert(s[i].0 >= h);
        }
    }
    if entry_map(s).contains_key(h) {
        let j = lemma_entry_map_key(s, h);
        if j < i {
            assert(s[j].0 < h);
        } else {
            assert(s[j].0 > h);
        }
    }
}

/// Whether eviction below `bound` spares height `h`: it is at `bound` or
/// above, or it is one of the heights to keep.
pub open spec fn retained(h: Height, bound: Height, keep: Set<Height>) -> bool {
    h >= bound || keep.contains(h)
}

/// A set of heights that can be walked in increasing order.
pub struct HeightSet {
    heights: HeightMap<()>,
}

impl View for HeightSet {
    type V = Set<Height>;

    closed spec fn view(&self) -> Set<Height> {
        self.heights@.dom()
    }
}

impl HeightSet {
    /// The heights of the set in increasing order.
    pub closed spec fn elements(&self) -> Seq<Height> {
        self.heights.keys()
    }

    /// The heights are held in strictly increasing order.
    pub closed spec fn wf(&self) -> bool {
        self.heights.wf()
    }

    /// How `elements` and the view of a well-formed set hang together.
    pub proof fn lemma_elements(&self)
        requires
            self.wf(),
        ensures
            strictly_increasing(self.elements()),
            forall|h: Height| #[trigger] self@.contains(h) <==> self.elements().contains(h),
            forall|i: int|
                0 <= i < self.elements().len() ==> self@.contains(#[trigger] self.elements()[i]),
            self@.finite(),
            self@.len() == self.elements().len(),
    {
        self.heights.lemma_keys();
    }

    /// The empty set.
    pub fn new() -> (s: Self)
        ensures
            s.wf(),
            s@ == Set::<Height>::empty(),
    {
        let s = HeightSet { heights: HeightMap::new() };
        assert(s@ =~= Set::<Height>::empty());
        s
    }

    /// The set of the heights that `heights` holds.
    pub fn from_heights(heights: &Vec<Height>) -> (s: Self)
        ensures
            s.wf(),
            s@ == heights@.to_set(),
    {
        let mut s = HeightSet::new();
        let mut i: usize = 0;
        while i < heights.len()
            invariant
                i <= heights@.len(),
                s.wf(),
                s@ == heights@.subrange(0, i as int).to_set(),
            decreases heights@.len() - i,
        {
            let h = heights[i];
            s.insert(h);
            proof {
                let seen = heights@.subrange(0, i as int);
                let seen_now = heights@.subrange(0, i + 1);
                assert(seen_now =~= seen.push(h));
                assert forall|k: Height| seen_now.to_set().contains(k) <==> seen.to_set().insert(
                    h,
                ).contains(k) by {
                    if seen.contains(k) {
                        let j = choose|j: int| 0 <= j < seen.len() && seen[j] == k;
                        assert(seen_now[j] == k);
                    }
                    if k == h {
                        assert(seen_now[i as int] == k);
                    }
                    if seen_now.contains(k) && k != h {
                        let j = choose|j: int| 0 <= j < seen_now.len() && seen_now[j] == k;
                        assert(seen[j] == k);
                    }
                }
                assert(seen_now.to_set() =~= seen.to_set().insert(h));
            }
            i = i + 1;
        }
        proof {
            assert(heights@.subrange(0, i as int) =~= heights@);
        }
        s
    }

    /// Adds `h` to the set.
    pub fn insert(&mut self, h: Height)
        requires
            old(self).wf(),
        ensures
            final(self).wf(),
            final(self)@ == old(self)@.insert(h),
    {
        self.heights.insert(h, ());
        assert(self@ =~= old(self)@.insert(h));
    }

    /// Whether `h` is in the set.
    pub fn contains(&self, h: Height) -> (b: bool)
        requires
            self.wf(),
        ensures
            b == self@.contains(h),
    {
        self.heights.contains_key(h)
    }

    /// The number of heights in the set.
    pub fn len(&self) -> (n: usize)
        ensures
            n == self.elements().len(),
    {
        self.heights.len()
    }

    /// The height at position `i` in increasing order.
    pub fn element_at(&self, i: usize) -> (h: Height)
        requires
            i < self.elements().len(),
        ensures
            h == self.elements()[i as int],
    {
        self.heights.key_at(i)
    }

    /// The heights of the set in increasing order.
    pub fn to_vec(&self) -> (v: Vec<Height>)
        ensures
            v@ == self.elements(),
    {
        self.heights.key_vec()
    }
}

/// A map from heights to values whose entries can be walked in increasing
/// order of height.
pub struct HeightMap<V> {
    entries: Vec<(Height, V)>,
}

impl<V> View for HeightMap<V> {
    type V = Map<Height, V>;

    closed spec fn view(&self) -> Map<Height, V> {
        entry_map(self.entries@)
    }
}

impl<V> HeightMap<V> {
    /// The heights of the map in increasing order.
    pub closed spec fn keys(&self) -> Seq<Height> {
        entry_keys(self.entries@)
    }

    /// The values of the map in increasing order of their heights.
    pub closed spec fn values(&self) -> Seq<V> {
        Seq::new(self.entries@.len(), |i: int| self.entries@[i].1)
    }

    /// The entries are in strictly increasing order of height.
    pub closed spec fn wf(&self) -> bool {
        strictly_increasing(entry_keys(self.entries@))
    }

    /// The number of entries.
    pub open spec fn spec_len(&self) -> nat {
        self.keys().len()
    }

    /// How `keys`, `values` and the view of a well-formed map hang together.
    pub proof fn lemma_keys(&self)
        requires
            self.wf(),
        ensures
            strictly_increasing(self.keys()),
            self.keys().len() == self.values().len(),
            forall|i: int|
                0 <= i < self.keys().len() ==> self@.contains_key(#[trigger] self.keys()[i])
                    && self@[self.keys()[i]] == self.values()[i],
            forall|h: Height| #[trigger]
                self@.contains_key(h) <==> exists|i: int|
                    0 <= i < self.keys().len() && self.keys()[i] == h,
            forall|h: Height| #[trigger] self@.contains_key(h) <==> self.keys().contains(h),
            self@.dom().finite(),
            self@.dom().len() == self.keys().len(),
    {
        let s = self.entries@;
        assert forall|i: int| 0 <= i < self.keys().len() implies self@.contains_key(
            #[trigger] self.keys()[i],
        ) && self@[self.keys()[i]] == self.values()[i] by {
            lemma_entry_map_at(s, i);
        }
        assert forall|h: Height| #[trigger] self@.contains_key(h) implies self.keys().contains(
            h,
        ) by {
            let i = lemma_entry_map_key(s, h);
            assert(self.keys()[i] == h);
        }
        assert forall|h: Height| self.keys().contains(h) implies #[trigger] self@.contains_key(
            h,
        ) by {
            let i = choose|i: int| 0 <= i < self.keys().len() && self.keys()[i] == h;
            lemma_entry_map_at(s, i);
        }
        lemma_strictly_increasing_set(self.keys());
        assert(self.keys().to_set() =~= self@.dom());
    }

    /// A map without entries.
    pub fn new() -> (m: Self)
        ensures
            m.wf(),
            m@ == Map::<Height, V>::empty(),
            m.keys() == Seq::<Height>::empty(),
    {
        let m = HeightMap { entries: Vec::new() };
        assert(m@ =~= Map::<Height, V>::empty());
        assert(m.keys() =~= Seq::<Height>::empty());
        m
    }

    /// The number of entries.
    pub fn len(&self) -> (n: usize)
        ensures
            n == self.keys().len(),
    {
        self.entries.len()
    }

    /// Whether the map has no entry.
    pub fn is_empty(&self) -> (b: bool)
        ensures
            b == (self.keys().len() == 0),
    {
        self.entries.len() == 0
    }

    /// The position of the first entry whose height is at least `h`.
    fn lower_bound(&self, h: Height) -> (i: usize)
        requires
            self.wf(),
        ensures
            i <= self.entries@.len(),
            forall|j: int| 0 <= j < i ==> (#[trigger] self.entries@[j]).0 < h,
            forall|j: int| i <= j < self.entries@.len() ==> (#[trigger] self.entries@[j]).0 >= h,
    {
        let mut lo: usize = 0;
        let mut hi: usize = self.entries.len();
        while lo < hi
            invariant
                self.wf(),
                lo <= hi <= self.entries@.len(),
                forall|j: int| 0 <= j < lo ==> (#[trigger] self.entries@[j]).0 < h,
                forall|j: int| hi <= j < self.entries@.len() ==> (#[trigger] self.entries@[j]).0 >= h,
            decreases hi - lo,
        {
            let mid: usize = lo + (hi - lo) / 2;
            if self.entries[mid].0 < h {
                assert forall|j: int| 0 <= j < mid + 1 implies (#[trigger] self.entries@[j]).0
                    < h by {
                    if j < mid {
                        assert(entry_keys(self.entries@)[j] < entry_keys(self.entries@)[mid as int]);
                    }
                }
                lo = mid + 1;
            } else {
                assert forall|j: int| mid <= j < self.entries@.len() implies (
                #[trigger] self.entries@[j]).0 >= h by {
                    if mid < j {
                        assert(entry_keys(self.entries@)[mid as int] < entry_keys(
                            self.entries@,
                        )[j]);
                    }
                }
                hi = mid;
            }
        }
        lo
    }

    /// Whether the map has an entry for `h`.
    pub fn contains_key(&self, h: Height) -> (b: bool)
        requires
            self.wf(),
        ensures
            b == self@.contains_key(h),
    {
        let i = self.lower_bound(h);
        if i < self.entries.len() && self.entries[i].0 == h {
            proof {
                lemma_entry_map_at(self.entries@, i as int);
            }
            true
        } else {
            proof {
                lemma_entry_map_miss(self.entries@, i as int, h);
            }
            false
        }
    }

    /// The value stored for `h`.
    pub fn get(&self, h: Height) -> (r: Option<&V>)
        requires
            self.wf(),
        ensures
            match r {
                Some(v) => self@.contains_key(h) && *v == self@[h],
                None => !self@.contains_key(h),
            },
    {
        let i = self.lower_bound(h);
        if i < self.entries.len() && self.entries[i].0 == h {
            proof {
                lemma_entry_map_at(self.entries@, i as int);
            }
            Some(&self.entries[i].1)
        } else {
            proof {
                lemma_entry_map_miss(self.entries@, i as int, h);
            }
            None
        }
    }

    /// The height at position `i` in increasing order.
    pub fn key_at(&self, i: usize) -> (h: Height)
        requires
            i < self.keys().len(),
        ensures
            h == self.keys()[i as int],
    {
        self.entries[i].0
    }

    /// The value at position `i` in increasing order of height.
    pub fn value_at(&self, i: usize) -> (v: &V)
        requires
            i < self.keys().len(),
        ensures
            *v == self.values()[i as int],
    {
        &self.entries[i].1
    }

    /// The position of the entry for `h` in increasing order of height.
    pub fn position(&self, h: Height) -> (r: Option<usize>)
        requires
            self.wf(),
        ensures
            match r {
                Some(i) => i < self.keys().len() && self.keys()[i as int] == h
                    && self@.contains_key(h),
                None => !self@.contains_key(h),
            },
    {
        let i = self.lower_bound(h);
        if i < self.entries.len() && self.entries[i].0 == h {
            proof {
                lemma_entry_map_at(self.entries@, i as int);
            }
            Some(i)
        } else {
            proof {
                lemma_entry_map_miss(self.entries@, i as int, h);
            }
            None
        }
    }

    /// The value at position `i` in increasing order of height, to be changed
    /// in place.
    pub fn value_at_mut(&mut self, i: usize) -> (v: &mut V)
        requires
            old(self).wf(),
            i < old(self).keys().len(),
        ensures
            *v == old(self).values()[i as int],
            final(self).wf(),
            final(self).keys() == old(self).keys(),
            final(self).values() == old(self).values().update(i as int, *final(v)),
            final(self)@ == old(self)@.insert(old(self).keys()[i as int], *final(v)),
    {
        let ghost before = self.entries@;
        let r = &mut self.entries[i].1;
        proof {
            lemma_update_entry(before, i as int, *final(r));
        }
        r
    }

    /// The heights of the map in increasing order.
    pub fn key_vec(&self) -> (ks: Vec<Height>)
        ensures
            ks@ == self.keys(),
    {
        let mut ks: Vec<Height> = Vec::new();
        let mut i: usize = 0;
        while i < self.entries.len()
            invariant
                i <= self.entries@.len(),
                ks@ == self.keys().subrange(0, i as int),
            decreases self.entries@.len() - i,
        {
            ks.push(self.entries[i].0);
            assert(ks@ =~= self.keys().subrange(0, i + 1));
            i = i + 1;
        }
        assert(ks@ =~= self.keys());
        ks
    }

    /// Moves the entries at `h` and above into a map of their own, which is
    /// returned, and keeps those below `h`.
    pub fn split_off(&mut self, h: Height) -> (upper: HeightMap<V>)
        requires
            old(self).wf(),
        ensures
            final(self).wf(),
            upper.wf(),
            final(self)@ == old(self)@.restrict(Set::new(|k: Height| k < h)),
            upper@ == old(self)@.restrict(Set::new(|k: Height| k >= h)),
    {
        let i = self.lower_bound(h);
        let ghost before = self.entries@;
        let tail = self.entries.split_off(i);
        let upper = HeightMap { entries: tail };
        proof {
            let low = self.entries@;
            let high = upper.entries@;
            assert(low =~= before.subrange(0, i as int));
            assert(high =~= before.subrange(i as int, before.len() as int));
            assert forall|a: int, b: int| 0 <= a < b < low.len() implies entry_keys(low)[a]
                < entry_keys(low)[b] by {
                assert(entry_keys(before)[a] < entry_keys(before)[b]);
            }
            assert forall|a: int, b: int| 0 <= a < b < high.len() implies entry_keys(high)[a]
                < entry_keys(high)[b] by {
                assert(entry_keys(before)[a + i] < entry_keys(before)[b + i]);
            }
            let lo_map = entry_map(before).restrict(Set::new(|k: Height| k < h));
            let hi_map = entry_map(before).restrict(Set::new(|k: Height| k >= h));
            assert forall|k: Height| #[trigger]
                entry_map(low).contains_key(k) == lo_map.contains_key(k) by {
                if entry_map(low).contains_key(k) {
                    let j = lemma_entry_map_key(low, k);
                    assert(before[j].0 == k);
                }
                if lo_map.contains_key(k) {
                    let j = lemma_entry_map_key(before, k);
                    assert(low[j].0 == k);
                }
            }
            assert forall|k: Height| #[trigger] entry_map(low).contains_key(k) implies entry_map(
                low,
            )[k] == lo_map[k] by {
                let j = lemma_entry_map_key(low, k);
                assert(before[j] == low[j]);
                lemma_entry_map_at(before, j);
            }
            assert(entry_map(low) =~= lo_map);
            assert forall|k: Height| #[trigger]
                entry_map(high).contains_key(k) == hi_map.contains_key(k) by {
                if entry_map(high).contains_key(k) {
                    let j = lemma_entry_map_key(high, k);
                    assert(before[j + i].0 == k);
                }
                if hi_map.contains_key(k) {
                    let j = lemma_entry_map_key(before, k);
                    assert(high[j - i].0 == k);
                }
            }
            assert forall|k: Height| #[trigger] entry_map(high).contains_key(k) implies entry_map(
                high,
            )[k] == hi_map[k] by {
                let j = lemma_entry_map_key(high, k);
                assert(before[j + i] == high[j]);
                lemma_entry_map_at(before, j + i);
            }
            assert(entry_map(high) =~= hi_map);
        }
        upper
    }

    /// Keeps the entries whose height is at least `bound` or is in `keep`, and
    /// returns the others in a map of their own.
    pub fn split_below(&mut self, bound: Height, keep: &HeightSet) -> (removed: HeightMap<V>)
        requires
            old(self).wf(),
            keep.wf(),
        ensures
            final(self).wf(),
            removed.wf(),
            final(self)@ == old(self)@.restrict(Set::new(|h: Height| retained(h, bound, keep@))),
            removed@ == old(self)@.restrict(Set::new(|h: Height| !retained(h, bound, keep@))),
    {
        let mut removed: HeightMap<V> = HeightMap::new();
        let ks = self.key_vec();
        let n = ks.len();
        proof {
            self.lemma_keys();
        }
        let mut j: usize = 0;
        while j < n
            invariant
                j <= n,
                n == ks@.len(),
                ks@ == old(self).keys(),
                strictly_increasing(ks@),
                forall|h: Height| #[trigger] old(self)@.contains_key(h) <==> ks@.contains(h),
                old(self).wf(),
                keep.wf(),
                self.wf(),
                removed.wf(),
                forall|h: Height| #[trigger]
                    self@.contains_key(h) <==> old(self)@.contains_key(h) && (retained(
                        h,
                        bound,
                        keep@,
                    ) || (j < n && h >= ks@[j as int])),
                forall|h: Height| #[trigger] self@.contains_key(h) ==> self@[h] == old(self)@[h],
                forall|h: Height| #[trigger]
                    removed@.contains_key(h) <==> old(self)@.contains_key(h) && !retained(
                        h,
                        bound,
                        keep@,
                    ) && !(j < n && h >= ks@[j as int]),
                forall|h: Height| #[trigger]
                    removed@.contains_key(h) ==> removed@[h] == old(self)@[h],
            decreases n - j,
        {
            let k = ks[j];
            assert(ks@.contains(k));
            let in_keep = keep.contains(k);
            if !(k >= bound || in_keep) {
                match self.remove(k) {
                    Some(v) => {
                        removed.insert(k, v);
                    },
                    None => {},
                }
            }
            proof {
                assert forall|h: Height| old(self)@.contains_key(h) implies ((j < n && h
                    >= ks@[j as int]) <==> (h == k || (j + 1 < n && h >= ks@[j + 1]))) by {
                    let t = choose|t: int| 0 <= t < ks@.len() && ks@[t] == h;
                    if t < j {
                        assert(ks@[t] < ks@[j as int]);
                    } else if t > j {
                        assert(j + 1 < n);
                        if t > j + 1 {
                            assert(ks@[j + 1] < ks@[t]);
                        }
                        assert(ks@[j as int] < ks@[t]);
                    }
                    if j + 1 < n {
                        assert(ks@[j as int] < ks@[j + 1]);
                    }
                }
            }
            j = j + 1;
        }
        proof {
            assert(self@ =~= old(self)@.restrict(
                Set::new(|h: Height| retained(h, bound, keep@)),
            ));
            assert(removed@ =~= old(self)@.restrict(
                Set::new(|h: Height| !retained(h, bound, keep@)),
            ));
        }
        removed
    }

    /// The smallest height of the map.
    pub fn first_key(&self) -> (r: Option<Height>)
        ensures
            match r {
                Some(h) => self.keys().len() > 0 && h == self.keys()[0],
                None => self.keys().len() == 0,
            },
    {
        if self.entries.len() == 0 {
            None
        } else {
            Some(self.entries[0].0)
        }
    }

    /// The largest height of the map.
    pub fn last_key(&self) -> (r: Option<Height>)
        ensures
            match r {
                Some(h) => self.keys().len() > 0 && h == self.keys().last(),
                None => self.keys().len() == 0,
            },
    {
        let n = self.entries.len();
        if n == 0 {
            None
        } else {
            Some(self.entries[n - 1].0)
        }
    }

    /// Stores `v` for `h` and returns the value that was stored for `h` before.
    pub fn insert(&mut self, h: Height, v: V) -> (previous: Option<V>)
        requires
            old(self).wf(),
        ensures
            final(self).wf(),
            final(self)@ == old(self)@.insert(h, v),
            match previous {
                Some(p) => old(self)@.contains_key(h) && p == old(self)@[h],
                None => !old(self)@.contains_key(h),
            },
    {
        let i = self.lower_bound(h);
        let ghost before = self.entries@;
        if i < self.entries.len() && self.entries[i].0 == h {
            self.entries.push((h, v));
            let replaced = self.entries.swap_remove(i);
            proof {
                let after = self.entries@;
                assert(after =~= before.update(i as int, (h, v)));
                assert(entry_keys(after) =~= entry_keys(before));
                lemma_entry_map_at(before, i as int);
                assert forall|k: Height| #[trigger]
                    entry_map(after).contains_key(k) == entry_map(before).insert(
                        h,
                        v,
                    ).contains_key(k) by {
                    if entry_map(after).contains_key(k) {
                        let j = lemma_entry_map_key(after, k);
                        assert(before[j].0 == k);
                    }
                    if entry_map(before).contains_key(k) {
                        let j = lemma_entry_map_key(before, k);
                        assert(after[j].0 == k);
                    }
                    if k == h {
                        assert(after[i as int].0 == h);
                    }
                }
                assert forall|k: Height| #[trigger]
                    entry_map(after).contains_key(k) implies entry_map(after)[k] == entry_map(
                    before,
                ).insert(h, v)[k] by {
                    let j = lemma_entry_map_key(after, k);
                    lemma_entry_map_at(before, j);
                }
                assert(entry_map(after) =~= entry_map(before).insert(h, v));
            }
            Some(replaced.1)
        } else {
            proof {
                lemma_entry_map_miss(before, i as int, h);
            }
            self.entries.insert(i, (h, v));
            proof {
                let after = self.entries@;
                assert(after =~= before.insert(i as int, (h, v)));
                assert forall|a: int, b: int| 0 <= a < b < after.len() implies entry_keys(
                    after,
                )[a] < entry_keys(after)[b] by {
                    let pa = if a < i { a } else { a - 1 };
                    let pb = if b < i { b } else { b - 1 };
                    if a != i && b != i {
                        assert(entry_keys(before)[pa] < entry_keys(before)[pb]);
                    } else if a == i {
                        assert(before[pb].0 > h);
                    } else {
                        assert(before[pa].0 < h);
                    }
                }
                assert forall|k: Height| #[trigger]
                    entry_map(after).contains_key(k) == entry_map(before).insert(
                        h,
                        v,
                    ).contains_key(k) by {
                    if entry_map(after).contains_key(k) {
                        let j = lemma_entry_map_key(after, k);
                        if j != i {
                            let p = if j < i { j } else { j - 1 };
                            assert(before[p].0 == k);
                        }
                    }
                    if entry_map(before).contains_key(k) {
                        let j = lemma_entry_map_key(before, k);
                        let q = if j < i { j } else { j + 1 };
                        assert(after[q].0 == k);
                    }
                    if k == h {
                        assert(after[i as int].0 == h);
                    }
                }
                assert forall|k: Height| #[trigger]
                    entry_map(after).contains_key(k) implies entry_map(after)[k] == entry_map(
                    before,
                ).insert(h, v)[k] by {
                    let j = lemma_entry_map_key(after, k);
                    if j != i {
                        let p = if j < i { j } else { j - 1 };
                        assert(before[p] == after[j]);
                        lemma_entry_map_at(before, p);
                    }
                }
                assert(entry_map(after) =~= entry_map(before).insert(h, v));
            }
            None
        }
    }

    /// Removes the entry for `h` and returns its value.
    pub fn remove(&mut self, h: Height) -> (removed: Option<V>)
        requires
            old(self).wf(),
        ensures
            final(self).wf(),
            final(self)@ == old(self)@.remove(h),
            match removed {
                Some(v) => old(self)@.contains_key(h) && v == old(self)@[h],
                None => !old(self)@.contains_key(h),
            },
    {
        let i = self.lower_bound(h);
        let ghost before = self.entries@;
        if i < self.entries.len() && self.entries[i].0 == h {
            let entry = self.entries.remove(i);
            proof {
                let after = self.entries@;
                assert(after =~= before.remove(i as int));
                lemma_entry_map_at(before, i as int);
                lemma_remove_entry(before, i as int);
            }
            Some(entry.1)
        } else {
            proof {
                lemma_entry_map_miss(before, i as int, h);
                assert(entry_map(before).remove(h) =~= entry_map(before));
            }
            None
        }
    }
}

/// A strictly increasing sequence names as many heights as it is long.
pub proof fn lemma_strictly_increasing_set(s: Seq<Height>)
    requires
        strictly_increasing(s),
    ensures
        s.no_duplicates(),
        s.to_set().finite(),
        s.to_set().len() == s.len(),
{
    assert(s.no_duplicates()) by {
        assert forall|i: int, j: int| 0 <= i < s.len() && 0 <= j < s.len() && i != j implies s[i]
            != s[j] by {
            if i < j {
                assert(s[i] < s[j]);
            } else {
                assert(s[j] < s[i]);
            }
        }
    }
    s.unique_seq_to_set();
}

/// Taking one entry out of a strictly increasing sequence of entries takes
/// its height out of the map and leaves the rest as it was.
pub proof fn lemma_remove_entry<V>(s: Seq<(Height, V)>, i: int)
    requires
        strictly_increasing(entry_keys(s)),
        0 <= i < s.len(),
    ensures
        strictly_increasing(entry_keys(s.remove(i))),
        entry_map(s.remove(i)) == entry_map(s).remove(s[i].0),
{
    let t = s.remove(i);
    let h = s[i].0;
    assert forall|a: int, b: int| 0 <= a < b < t.len() implies entry_keys(t)[a] < entry_keys(
        t,
    )[b] by {
        let pa = if a < i { a } else { a + 1 };
        let pb = if b < i { b } else { b + 1 };
        assert(entry_keys(s)[pa] < entry_keys(s)[pb]);
    }
    assert forall|k: Height| #[trigger]
        entry_map(t).contains_key(k) == entry_map(s).remove(h).contains_key(k) by {
        if entry_map(t).contains_key(k) {
            let j = lemma_entry_map_key(t, k);
            let p = if j < i { j } else { j + 1 };
            assert(s[p].0 == k);
            lemma_entry_map_at(s, p);
            lemma_entry_map_at(s, i);
            if k == h {
                assert(entry_index(s, h) == p);
            }
        }
        if entry_map(s).remove(h).contains_key(k) {
            let j = lemma_entry_map_key(s, k);
            let q = if j < i { j } else { j - 1 };
            assert(t[q].0 == k);
        }
    }
    assert forall|k: Height| #[trigger] entry_map(t).contains_key(k) implies entry_map(t)[k]
        == entry_map(s).remove(h)[k] by {
        let j = lemma_entry_map_key(t, k);
        let p = if j < i { j } else { j + 1 };
        lemma_entry_map_at(s, p);
    }
    assert(entry_map(t) =~= entry_map(s).remove(h));
}

/// Putting another value into one entry of a strictly increasing sequence of
/// entries stores that value for the entry's height and leaves the rest.
pub proof fn lemma_update_entry<V>(s: Seq<(Height, V)>, i: int, v: V)
    requires
        strictly_increasing(entry_keys(s)),
        0 <= i < s.len(),
    ensures
        entry_keys(s.update(i, (s[i].0, v))) == entry_keys(s),
        entry_map(s.update(i, (s[i].0, v))) == entry_map(s).insert(s[i].0, v),
{
    let h = s[i].0;
    let t = s.update(i, (h, v));
    assert(t.len() == s.len());
    assert(entry_keys(t) =~= entry_keys(s));
    assert forall|k: Height| #[trigger]
        entry_map(t).contains_key(k) == entry_map(s).insert(h, v).contains_key(k) by {
        if entry_map(t).contains_key(k) {
            let j = lemma_entry_map_key(t, k);
            assert(s[j].0 == k);
        }
        if entry_map(s).contains_key(k) {
            let j = lemma_entry_map_key(s, k);
            assert(t[j].0 == k);
        }
        if k == h {
            assert(t[i].0 == h);
        }
    }
    assert forall|k: Height| #[trigger] entry_map(t).contains_key(k) implies entry_map(t)[k]
        == entry_map(s).insert(h, v)[k] by {
        let j = lemma_entry_map_key(t, k);
        if j != i {
            assert(t[j] == s[j]);
            lemma_entry_map_at(s, j);
            lemma_entry_map_at(s, i);
        }
    }
    assert(entry_map(t) =~= entry_map(s).insert(h, v));
}

/// Two strictly increasing sequences that name the same heights are equal.
pub proof fn lemma_strictly_increasing_unique(a: Seq<Height>, b: Seq<Height>)
    requires
        strictly_increasing(a),
        strictly_increasing(b),
        forall|h: Height| a.contains(h) <==> b.contains(h),
    ensures
        a == b,
    decreases a.len(),
{
    if a.len() == 0 {
        if b.len() > 0 {
            assert(b.contains(b[0]));
            assert(a.contains(b[0]));
        }
        assert(a =~= b);
    } else {
        let m = a.last();
        assert(a.contains(m));
        assert(b.contains(m));
        let j = choose|j: int| 0 <= j < b.len() && b[j] == m;
        if j < b.len() - 1 {
            assert(b[j] < b.last());
            assert(b.contains(b.last()));
            assert(a.contains(b.last()));
            let i = choose|i: int| 0 <= i < a.len() && a[i] == b.last();
            if i < a.len() - 1 {
                assert(a[i] < a.last());
            }
        }
        let a0 = a.drop_last();
        let b0 = b.drop_last();
        assert forall|h: Height| a0.contains(h) <==> b0.contains(h) by {
            if a0.contains(h) {
                let i = choose|i: int| 0 <= i < a0.len() && a0[i] == h;
                assert(a[i] == h);
                assert(a[i] < a.last());
                assert(a.contains(h));
                let k = choose|k: int| 0 <= k < b.len() && b[k] == h;
                assert(b0[k] == h);
            }
            if b0.contains(h) {
                let k = choose|k: int| 0 <= k < b0.len() && b0[k] == h;
                assert(b[k] == h);
                assert(b[k] < b.last());
                assert(b.contains(h));
                let i = choose|i: int| 0 <= i < a.len() && a[i] == h;
                assert(a0[i] == h);
            }
        }
        assert(strictly_increasing(a0)) by {
            assert forall|x: int, y: int| 0 <= x < y < a0.len() implies a0[x] < a0[y] by {
                assert(a[x] < a[y]);
            }
        }
        assert(strictly_increasing(b0)) by {
            assert forall|x: int, y: int| 0 <= x < y < b0.len() implies b0[x] < b0[y] by {
                assert(b[x] < b[y]);
            }
        }
        lemma_strictly_increasing_unique(a0, b0);
        assert(a =~= a0.push(m));
        assert(b =~= b0.push(m));
    }
}

/// A strictly increasing sequence starts with its lowest height and ends
/// with its greatest.
pub proof fn lemma_strictly_increasing_ends(s: Seq<Height>, low: Height, high: Height)
    requires
        strictly_increasing(s),
        s.contains(low),
        s.contains(high),
        forall|i: int| 0 <= i < s.len() ==> low <= #[trigger] s[i] <= high,
    ensures
        s.len() > 0,
        s[0] == low,
        s.last() == high,
{
    let i = choose|i: int| 0 <= i < s.len() && s[i] == low;
    if i > 0 {
        assert(s[0] < s[i]);
    }
    let j = choose|j: int| 0 <= j < s.len() && s[j] == high;
    if j < s.len() - 1 {
        assert(s[j] < s.last());
    }
}

} // verus!
