//! The state syncs that are under way.

use crate::height_map::{Height, HeightMap};
use crate::types::CryptoHashOfState;
use vstd::prelude::*;

verus! {

/// Keeps track of the ongoing state syncs: for each height that is being
/// synced, the root hash of the state. The priority of state sync artifacts
/// depends on it.
pub struct StateSyncRefs {
    active: HeightMap<CryptoHashOfState>,
}

impl View for StateSyncRefs {
    type V = Map<Height, CryptoHashOfState>;

    /// The root hashes of the states that are being synced, by height.
    closed spec fn view(&self) -> Map<Height, CryptoHashOfState> {
        self.active@
    }
}

impl StateSyncRefs {
    /// The heights are held in increasing order.
    pub closed spec fn wf(&self) -> bool {
        self.active.wf()
    }

    /// No state is being synced.
    pub fn new() -> (refs: Self)
        ensures
            refs.wf(),
            refs@ == Map::<Height, CryptoHashOfState>::empty(),
    {
        StateSyncRefs { active: HeightMap::new() }
    }

    /// Get the hash of the active sync at `height`.
    pub fn get(&self, height: Height) -> (r: Option<CryptoHashOfState>)
        requires
            self.wf(),
        ensures
            match r {
                Some(hash) => self@.contains_key(height) && hash@ == self@[height]@,
                None => !self@.contains_key(height),
            },
    {
        match self.active.get(height) {
            Some(hash) => Some(hash.clone()),
            None => None,
        }
    }

    /// Insert into the collection of active syncs. Returns the root hash of
    /// the sync that was active at `height` before.
    pub fn insert(&mut self, height: Height, root_hash: CryptoHashOfState) -> (previous: Option<
        CryptoHashOfState,
    >)
        requires
            old(self).wf(),
        ensures
            final(self).wf(),
            final(self)@ == old(self)@.insert(height, root_hash),
            match previous {
                Some(hash) => old(self)@.contains_key(height) && hash == old(self)@[height],
                None => !old(self)@.contains_key(height),
            },
    {
        self.active.insert(height, root_hash)
    }

    /// Remove from the collection of active syncs. Returns the root hash of
    /// the sync that was active at `height`.
    pub fn remove(&mut self, height: Height) -> (removed: Option<CryptoHashOfState>)
        requires
            old(self).wf(),
        ensures
            final(self).wf(),
            final(self)@ == old(self)@.remove(height),
            match removed {
                Some(hash) => old(self)@.contains_key(height) && hash == old(self)@[height],
                None => !old(self)@.contains_key(height),
            },
    {
        self.active.remove(height)
    }

    /// True if there is no active sync.
    pub fn is_empty(&self) -> (b: bool)
        requires
            self.wf(),
        ensures
            b == (self@ == Map::<Height, CryptoHashOfState>::empty()),
    {
        proof {
            self.active.lemma_keys();
            if self.active.keys().len() > 0 {
                assert(self@.contains_key(self.active.keys()[0]));
            } else {
                assert(self@ =~= Map::<Height, CryptoHashOfState>::empty());
            }
        }
        self.active.is_empty()
    }
}

} // verus!
