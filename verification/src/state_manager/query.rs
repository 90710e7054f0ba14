//! What the store can tell about the states that it holds.

use crate::checkpoint::{CheckpointError, CheckpointRef};
use crate::height_map::{strictly_increasing, Height, HeightSet};
use crate::manifest::Manifest;
use crate::metadata::{CertificationMetadata, StateMetadata};
use crate::state_manager::{FetchTarget, StateManagerImpl, Tip};
use crate::types::{
    hash_eq, Certification, CertificationMask, CryptoHashOfPartialState, CryptoHashOfState,
    Labeled, PermanentStateHashError, StateHashError, StateManagerError,
    TransientStateHashError,
};
use std::sync::Arc;
use vstd::prelude::*;

verus! {

/// Where the state at a height is to be found.
pub enum StateLookup<'a, S> {
    /// The state is resident in memory.
    Resident(Labeled<&'a Arc<S>>),
    /// The height is above the latest state.
    NotCommittedYet,
    /// The state is not in memory. It can be loaded if there is a checkpoint
    /// at this height on disk.
    NotResident,
}

/// What `get_state_at` answers once the checkpoint at `height` was looked
/// for on disk: the state if it could be loaded, and for every error that the
/// state was removed.
pub fn state_from_checkpoint<S>(height: Height, loaded: Result<S, CheckpointError>) -> (r: Result<
    Labeled<Arc<S>>,
    StateManagerError,
>)
    ensures
        match loaded {
            Ok(state) => r matches Ok(labeled) && labeled.height == height && *labeled.value
                == state,
            Err(_) => r == Err::<Labeled<Arc<S>>, StateManagerError>(
                StateManagerError::StateRemoved(height),
            ),
        },
{
    match loaded {
        Ok(state) => Ok(Labeled { height, value: Arc::new(state) }),
        Err(_) => Err(StateManagerError::StateRemoved(height)),
    }
}

impl<S, T> StateManagerImpl<S, T> {
    /// Whether the state at `h` has a certification.
    pub open spec fn is_certified(&self, h: Height) -> bool {
        self.certifications_metadata().contains_key(h)
            && self.certifications_metadata()[h].certification is Some
    }

    /// Whether the state at `h` has a certification and still has its hash
    /// tree.
    pub open spec fn is_readable_certified(&self, h: Height) -> bool {
        self.is_certified(h) && self.certifications_metadata()[h].hash_tree is Some
    }

    /// The root hash of the checkpoint at `height`, or why it cannot be given.
    pub open spec fn state_hash_at(&self, height: Height) -> Result<Seq<u8>, StateHashError> {
        if self.states_metadata().contains_key(height) {
            match self.states_metadata()[height].root_hash {
                Some(hash) => Ok(hash@),
                None => Err(
                    StateHashError::Transient(TransientStateHashError::HashNotComputedYet(height)),
                ),
            }
        } else if forall|h: Height| #[trigger]
            self.certifications_metadata().contains_key(h) ==> h < height {
            // All states that we have, if any, are below.
            Err(StateHashError::Transient(TransientStateHashError::StateNotCommittedYet(height)))
        } else if forall|h: Height| #[trigger]
            self.certifications_metadata().contains_key(h) ==> height < h {
            // The state is older than the oldest state we still have. It might
            // also not have been a checkpoint; we don't know anymore.
            Err(StateHashError::Permanent(PermanentStateHashError::StateRemoved(height)))
        } else {
            Err(StateHashError::Permanent(PermanentStateHashError::StateNotFullyCertified(height)))
        }
    }

    /// The root hash of the checkpoint at `height`.
    ///
    /// Only the states in memory are consulted. A state that is available
    /// only on disk has no snapshot, so its root hash is not available.
    pub fn get_state_hash_at(&self, height: Height) -> (r: Result<
        CryptoHashOfState,
        StateHashError,
    >)
        requires
            self.wf(),
        ensures
            match r {
                Ok(hash) => self.state_hash_at(height) == Ok::<Seq<u8>, StateHashError>(hash@),
                Err(e) => self.state_hash_at(height) == Err::<Seq<u8>, StateHashError>(e),
            },
    {
        proof {
            self.states.certifications_metadata.lemma_keys();
            let keys = self.states.certifications_metadata.keys();
            if keys.len() > 0 {
                assert(self.certifications_metadata().contains_key(keys[0]));
                assert(self.certifications_metadata().contains_key(keys[keys.len() - 1]));
                assert forall|h: Height| #[trigger]
                    self.certifications_metadata().contains_key(h) implies keys[0] <= h
                    <= keys[keys.len() - 1] by {
                    let i = choose|i: int| 0 <= i < keys.len() && keys[i] == h;
                    if i > 0 {
                        assert(keys[0] < keys[i]);
                    }
                    if i < keys.len() - 1 {
                        assert(keys[i] < keys[keys.len() - 1]);
                    }
                }
            } else {
                assert forall|h: Height| !(#[trigger] self.certifications_metadata().contains_key(
                    h,
                )) by {
                    if self.certifications_metadata().contains_key(h) {
                        let i = choose|i: int| 0 <= i < keys.len() && keys[i] == h;
                    }
                }
            }
        }
        match self.states.states_metadata.get(height) {
            Some(metadata) => match &metadata.root_hash {
                Some(hash) => Ok(hash.clone()),
                None => Err(
                    StateHashError::Transient(TransientStateHashError::HashNotComputedYet(height)),
                ),
            },
            None => match self.states.certifications_metadata.last_key() {
                Some(key) => {
                    if key < height {
                        Err(
                            StateHashError::Transient(
                                TransientStateHashError::StateNotCommittedYet(height),
                            ),
                        )
                    } else {
                        let oldest_kept = self.states.certifications_metadata.key_at(0);
                        if height < oldest_kept {
                            Err(
                                StateHashError::Permanent(
                                    PermanentStateHashError::StateRemoved(height),
                                ),
                            )
                        } else {
                            Err(
                                StateHashError::Permanent(
                                    PermanentStateHashError::StateNotFullyCertified(height),
                                ),
                            )
                        }
                    }
                },
                None => Err(
                    StateHashError::Transient(TransientStateHashError::StateNotCommittedYet(height)),
                ),
            },
        }
    }

    /// The latest state in memory with its height.
    pub fn get_latest_state(&self) -> (r: Labeled<&Arc<S>>)
        requires
            self.wf(),
        ensures
            r.height == self.spec_latest_state_height(),
            self.snapshots().contains_key(r.height),
            *r.value == self.snapshots()[r.height],
    {
        proof {
            self.states.snapshots.lemma_keys();
        }
        let at = self.states.snapshots.len() - 1;
        Labeled { height: self.states.snapshots.key_at(at), value: self.states.snapshots.value_at(at) }
    }

    /// Where the state at `height` is to be found.
    pub fn get_state_at(&self, height: Height) -> (r: StateLookup<'_, S>)
        requires
            self.wf(),
        ensures
            match r {
                StateLookup::NotCommittedYet => self.spec_latest_state_height() < height,
                StateLookup::Resident(labeled) => self.snapshots().contains_key(height)
                    && labeled.height == height && *labeled.value == self.snapshots()[height],
                StateLookup::NotResident => height <= self.spec_latest_state_height()
                    && !self.snapshots().contains_key(height),
            },
    {
        if self.latest_state_height < height {
            return StateLookup::NotCommittedYet;
        }
        match self.states.snapshots.get(height) {
            Some(state) => StateLookup::Resident(Labeled { height, value: state }),
            None => StateLookup::NotResident,
        }
    }

    /// The states that have no certification yet, lowest height first, each
    /// with the hash to certify.
    pub fn list_state_hashes_to_certify(&self) -> (hashes: Vec<(Height, CryptoHashOfPartialState)>)
        requires
            self.wf(),
        ensures
            ({
                let heights = self.certification_heights().filter(
                    |h: Height| !self.is_certified(h),
                );
                &&& hashes@.len() == heights.len()
                &&& forall|i: int|
                    0 <= i < hashes@.len() ==> (#[trigger] hashes@[i]).0 == heights[i]
                        && hashes@[i].1@
                        == self.certifications_metadata()[heights[i]].certified_state_hash@
            }),
    {
        let ghost keys = self.certification_heights();
        let ghost uncertified = |h: Height| !self.is_certified(h);
        let mut hashes: Vec<(Height, CryptoHashOfPartialState)> = Vec::new();
        let n = self.states.certifications_metadata.len();
        proof {
            self.states.certifications_metadata.lemma_keys();
            reveal(Seq::filter);
            assert(keys.subrange(0, 0) =~= Seq::<Height>::empty());
        }
        let mut i: usize = 0;
        while i < n
            invariant
                i <= n,
                n == keys.len(),
                keys == self.certification_heights(),
                keys == self.states.certifications_metadata.keys(),
                self.states.certifications_metadata.wf(),
                uncertified == |h: Height| !self.is_certified(h),
                hashes@.len() == keys.subrange(0, i as int).filter(uncertified).len(),
                forall|j: int|
                    0 <= j < hashes@.len() ==> (#[trigger] hashes@[j]).0 == keys.subrange(
                        0,
                        i as int,
                    ).filter(uncertified)[j] && hashes@[j].1@
                        == self.certifications_metadata()[hashes@[j].0].certified_state_hash@,
            decreases n - i,
        {
            let h = self.states.certifications_metadata.key_at(i);
            let metadata = self.states.certifications_metadata.value_at(i);
            proof {
                self.states.certifications_metadata.lemma_keys();
                assert(self.certifications_metadata()[keys[i as int]] == *metadata);
                assert(self.certifications_metadata().contains_key(keys[i as int]));
                reveal(Seq::filter);
                assert(keys.subrange(0, i + 1).drop_last() =~= keys.subrange(0, i as int));
                assert(keys.subrange(0, i + 1).last() == h);
            }
            if metadata.certification.is_none() {
                hashes.push((h, metadata.certified_state_hash.clone()));
            }
            i = i + 1;
        }
        proof {
            assert(keys.subrange(0, n as int) =~= keys);
        }
        hashes
    }

    /// The heights of the states that pass `cert_mask`, in increasing order:
    /// the checkpoints on disk, whose heights are `checkpoint_heights`, and
    /// the states in memory.
    pub fn list_state_heights(&self, cert_mask: CertificationMask, checkpoint_heights: &Vec<Height>) -> (heights: Vec<Height>)
        requires
            self.wf(),
        ensures
            strictly_increasing(heights@),
            forall|h: Height|
                heights@.contains(h) <==> (checkpoint_heights@.contains(h)
                    || self.snapshots().contains_key(h)) && cert_mask.admits(self.is_certified(h)),
    {
        let mut selected = HeightSet::new();
        let mut i: usize = 0;
        while i < checkpoint_heights.len()
            invariant
                i <= checkpoint_heights@.len(),
                self.wf(),
                selected.wf(),
                forall|h: Height| #[trigger]
                    selected@.contains(h) <==> checkpoint_heights@.subrange(0, i as int).contains(
                        h,
                    ) && cert_mask.admits(self.is_certified(h)),
            decreases checkpoint_heights@.len() - i,
        {
            let h = checkpoint_heights[i];
            let certified = self.has_certification(h);
            proof {
                let seen = checkpoint_heights@.subrange(0, i as int);
                let seen_now = checkpoint_heights@.subrange(0, i + 1);
                assert forall|k: Height| #[trigger]
                    seen_now.contains(k) <==> k == h || seen.contains(k) by {
                    if seen.contains(k) {
                        let j = choose|j: int| 0 <= j < seen.len() && seen[j] == k;
                        assert(seen_now[j] == k);
                    }
                    if k == h {
                        assert(seen_now[i as int] == k);
                    }
                    if seen_now.contains(k) && k != h {
                        let j = choose|j: int| 0 <= j < seen_now.len() && seen_now[j] == k;
                        assert(seen[j] == k);
                    }
                }
            }
            if cert_mask.matches(certified) {
                selected.insert(h);
            }
            i = i + 1;
        }
        proof {
            assert(checkpoint_heights@.subrange(0, i as int) =~= checkpoint_heights@);
            self.states.snapshots.lemma_keys();
        }
        let ghost keys = self.states.snapshots.keys();
        let n = self.states.snapshots.len();
        let mut j: usize = 0;
        while j < n
            invariant
                j <= n,
                n == keys.len(),
                keys == self.states.snapshots.keys(),
                self.wf(),
                selected.wf(),
                forall|h: Height| #[trigger]
                    selected@.contains(h) <==> (checkpoint_heights@.contains(h) || keys.subrange(
                        0,
                        j as int,
                    ).contains(h)) && cert_mask.admits(self.is_certified(h)),
            decreases n - j,
        {
            let h = self.states.snapshots.key_at(j);
            let certified = self.has_certification(h);
            proof {
                let seen = keys.subrange(0, j as int);
                let seen_now = keys.subrange(0, j + 1);
                assert forall|k: Height| #[trigger]
                    seen_now.contains(k) <==> k == h || seen.contains(k) by {
                    if seen.contains(k) {
                        let a = choose|a: int| 0 <= a < seen.len() && seen[a] == k;
                        assert(seen_now[a] == k);
                    }
                    if k == h {
                        assert(seen_now[j as int] == k);
                    }
                    if seen_now.contains(k) && k != h {
                        let a = choose|a: int| 0 <= a < seen_now.len() && seen_now[a] == k;
                        assert(seen[a] == k);
                    }
                }
            }
            if cert_mask.matches(certified) {
                selected.insert(h);
            }
            j = j + 1;
        }
        let heights = selected.to_vec();
        proof {
            assert(keys.subrange(0, n as int) =~= keys);
            self.states.snapshots.lemma_keys();
            selected.lemma_elements();
            assert forall|h: Height|
                heights@.contains(h) <==> (checkpoint_heights@.contains(h)
                    || self.snapshots().contains_key(h)) && cert_mask.admits(
                    self.is_certified(h),
                ) by {
                assert(heights@.contains(h) <==> selected@.contains(h));
                assert(self.snapshots().contains_key(h) <==> keys.contains(h));
            }
        }
        heights
    }

    /// The state that is being fetched.
    pub fn fetch_state_target(&self) -> (r: Option<&FetchTarget>)
        ensures
            match r {
                Some(target) => self.fetch_target() == Some(*target),
                None => self.fetch_target() is None,
            },
    {
        self.states.fetch_state.as_ref()
    }

    /// The height of the tip, unless it is checked out.
    pub fn tip_height(&self) -> (r: Option<Height>)
        ensures
            match r {
                Some(h) => self.tip() matches Tip::Available(tip_height, _) && tip_height == h,
                None => self.tip() is CheckedOut,
            },
    {
        match &self.states.tip {
            Tip::Available(h, _) => Some(*h),
            Tip::CheckedOut { .. } => None,
        }
    }

    /// The number of states in memory.
    pub fn resident_state_count(&self) -> (n: usize)
        ensures
            n == self.snapshot_heights().len(),
    {
        self.states.snapshots.len()
    }

    /// The lowest height of the states in memory apart from the initial
    /// state, or 0 where only the initial state is there.
    pub fn oldest_resident_height(&self) -> (h: Height)
        requires
            self.wf(),
        ensures
            h == (if self.snapshot_heights().len() > 1 {
                self.snapshot_heights()[1]
            } else {
                0
            }),
    {
        if self.states.snapshots.len() > 1 {
            self.states.snapshots.key_at(1)
        } else {
            0
        }
    }

    /// The heights of the checkpoints that the store has metadata for, in
    /// increasing order.
    pub fn checkpoint_heights(&self) -> (heights: Vec<Height>)
        ensures
            heights@ == self.metadata_heights(),
    {
        self.states.states_metadata.key_vec()
    }

    /// The metadata of the checkpoint at `h`.
    pub fn state_metadata(&self, h: Height) -> (r: Option<&StateMetadata>)
        requires
            self.wf(),
        ensures
            match r {
                Some(metadata) => self.states_metadata().contains_key(h) && *metadata
                    == self.states_metadata()[h],
                None => !self.states_metadata().contains_key(h),
            },
    {
        self.states.states_metadata.get(h)
    }

    /// The certification metadata of the state at `h`.
    pub fn certification_metadata(&self, h: Height) -> (r: Option<&CertificationMetadata<T>>)
        requires
            self.wf(),
        ensures
            match r {
                Some(metadata) => self.certifications_metadata().contains_key(h) && *metadata
                    == self.certifications_metadata()[h],
                None => !self.certifications_metadata().contains_key(h),
            },
    {
        self.states.certifications_metadata.get(h)
    }

    /// Whether the state at `h` has a certification.
    pub fn has_certification(&self, h: Height) -> (b: bool)
        requires
            self.wf(),
        ensures
            b == self.is_certified(h),
    {
        match self.states.certifications_metadata.get(h) {
            Some(metadata) => metadata.certification.is_some(),
            None => false,
        }
    }

    /// The latest state that is certified and still has its hash tree: its
    /// height, the state, the certification and the hash tree.
    pub fn latest_certified_state(&self) -> (r: Option<(Height, &Arc<S>, &Certification, &Arc<T>)>)
        requires
            self.wf(),
        ensures
            match r {
                Some((h, state, certification, hash_tree)) => {
                    &&& self.is_readable_certified(h)
                    &&& self.snapshots().contains_key(h)
                    &&& *state == self.snapshots()[h]
                    &&& self.certifications_metadata()[h].certification == Some(*certification)
                    &&& self.certifications_metadata()[h].hash_tree == Some(*hash_tree)
                    &&& forall|k: Height| self.is_readable_certified(k) ==> k <= h
                },
                None => forall|k: Height| !self.is_readable_certified(k),
            },
    {
        proof {
            self.states.certifications_metadata.lemma_keys();
        }
        let ghost keys = self.states.certifications_metadata.keys();
        let mut i: usize = self.states.certifications_metadata.len();
        while i > 0
            invariant
                i <= keys.len(),
                keys == self.states.certifications_metadata.keys(),
                self.wf(),
                forall|j: int|
                    i <= j < keys.len() ==> !self.is_readable_certified(#[trigger] keys[j]),
            decreases i,
        {
            let metadata = self.states.certifications_metadata.value_at(i - 1);
            let h = self.states.certifications_metadata.key_at(i - 1);
            proof {
                self.states.certifications_metadata.lemma_keys();
                assert(self.certifications_metadata()[keys[i - 1]] == *metadata);
                assert(self.certifications_metadata().contains_key(keys[i - 1]));
            }
            if let Some(hash_tree) = &metadata.hash_tree {
                if let Some(certification) = &metadata.certification {
                    match self.states.snapshots.get(h) {
                        Some(state) => {
                            proof {
                                assert forall|k: Height|
                                    self.is_readable_certified(k) implies k <= h by {
                                    let j = choose|j: int| 0 <= j < keys.len() && keys[j] == k;
                                    if j > i - 1 {
                                        assert(!self.is_readable_certified(keys[j]));
                                    } else if j < i - 1 {
                                        assert(keys[j] < keys[i - 1]);
                                    }
                                }
                            }
                            return Some((h, state, certification, hash_tree));
                        },
                        None => {
                            assert(false);
                        },
                    }
                }
            }
            i = i - 1;
        }
        proof {
            assert forall|k: Height| !self.is_readable_certified(k) by {
                if self.is_readable_certified(k) {
                    let j = choose|j: int| 0 <= j < keys.len() && keys[j] == k;
                    assert(!self.is_readable_certified(keys[j]));
                }
            }
        }
        None
    }

    /// The latest checkpoint in the store that has a manifest: its height,
    /// its manifest and its state. A new checkpoint is compared with it to
    /// find out what has changed.
    pub fn latest_manifest_base(&self) -> (r: Option<(Height, &Manifest, &Arc<S>)>)
        requires
            self.wf(),
        ensures
            match r {
                Some((h, manifest, state)) => {
                    &&& self.states_metadata().contains_key(h)
                    &&& self.states_metadata()[h].manifest == Some(*manifest)
                    &&& self.snapshots().contains_key(h)
                    &&& *state == self.snapshots()[h]
                    &&& forall|k: Height|
                        self.states_metadata().contains_key(k)
                            && self.states_metadata()[k].manifest is Some ==> k <= h
                },
                None => forall|k: Height|
                    self.states_metadata().contains_key(k) ==> self.states_metadata()[k].manifest
                        is None,
            },
    {
        proof {
            self.states.states_metadata.lemma_keys();
        }
        let ghost keys = self.states.states_metadata.keys();
        let mut i: usize = self.states.states_metadata.len();
        while i > 0
            invariant
                i <= keys.len(),
                keys == self.states.states_metadata.keys(),
                self.wf(),
                forall|j: int|
                    i <= j < keys.len() ==> self.states_metadata()[#[trigger] keys[j]].manifest
                        is None,
            decreases i,
        {
            let metadata = self.states.states_metadata.value_at(i - 1);
            let h = self.states.states_metadata.key_at(i - 1);
            proof {
                self.states.states_metadata.lemma_keys();
                assert(self.states_metadata()[keys[i - 1]] == *metadata);
                assert(self.states_metadata().contains_key(keys[i - 1]));
            }
            if let Some(manifest) = &metadata.manifest {
                match self.states.snapshots.get(h) {
                    Some(state) => {
                        proof {
                            assert forall|k: Height|
                                self.states_metadata().contains_key(k)
                                    && self.states_metadata()[k].manifest is Some implies k
                                <= h by {
                                let j = choose|j: int| 0 <= j < keys.len() && keys[j] == k;
                                if j > i - 1 {
                                    assert(self.states_metadata()[keys[j]].manifest is None);
                                } else if j < i - 1 {
                                    assert(keys[j] < keys[i - 1]);
                                }
                            }
                        }
                        return Some((h, manifest, state));
                    },
                    None => {
                        assert(false);
                    },
                }
            }
            i = i - 1;
        }
        proof {
            assert forall|k: Height| self.states_metadata().contains_key(k) implies self.states_metadata()[k].manifest is None by {
                let j = choose|j: int| 0 <= j < keys.len() && keys[j] == k;
                assert(self.states_metadata()[keys[j]].manifest is None);
            }
        }
        None
    }

    /// The manifest and the token of the last of the checkpoints on disk,
    /// whose heights are `checkpoint_heights`, that has both in the store.
    pub fn latest_manifest(&self, checkpoint_heights: &Vec<Height>) -> (r: Option<
        (&Manifest, &CheckpointRef),
    >)
        requires
            self.wf(),
        ensures
            match r {
                Some((manifest, checkpoint_ref)) => exists|i: int|
                    {
                        &&& 0 <= i < checkpoint_heights@.len()
                        &&& self.has_manifest_at(#[trigger] checkpoint_heights@[i])
                        &&& self.states_metadata()[checkpoint_heights@[i]].manifest == Some(
                            *manifest,
                        )
                        &&& self.states_metadata()[checkpoint_heights@[i]].checkpoint_ref == Some(
                            *checkpoint_ref,
                        )
                        &&& forall|j: int|
                            i < j < checkpoint_heights@.len() ==> !self.has_manifest_at(
                                #[trigger] checkpoint_heights@[j],
                            )
                    },
                None => forall|j: int|
                    0 <= j < checkpoint_heights@.len() ==> !self.has_manifest_at(
                        #[trigger] checkpoint_heights@[j],
                    ),
            },
    {
        let mut i: usize = checkpoint_heights.len();
        while i > 0
            invariant
                i <= checkpoint_heights@.len(),
                self.wf(),
                forall|j: int|
                    i <= j < checkpoint_heights@.len() ==> !self.has_manifest_at(
                        #[trigger] checkpoint_heights@[j],
                    ),
            decreases i,
        {
            let h = checkpoint_heights[i - 1];
            if let Some(metadata) = self.states.states_metadata.get(h) {
                if let Some(manifest) = &metadata.manifest {
                    if let Some(checkpoint_ref) = &metadata.checkpoint_ref {
                        assert(self.has_manifest_at(checkpoint_heights@[i - 1]));
                        return Some((manifest, checkpoint_ref));
                    }
                }
            }
            i = i - 1;
        }
        None
    }

    /// Whether the store holds the manifest of the checkpoint at `h`.
    pub open spec fn has_manifest_at(&self, h: Height) -> bool {
        self.states_metadata().contains_key(h) && self.states_metadata()[h].manifest is Some
    }

    /// The checkpoint of the lowest height whose root hash is `root_hash`:
    /// its height and its manifest.
    pub fn find_checkpoint_by_root_hash(&self, root_hash: &CryptoHashOfState) -> (r: Option<
        (Height, &Manifest),
    >)
        requires
            self.wf(),
        ensures
            match r {
                Some((h, manifest)) => {
                    &&& self.has_root_hash(h, root_hash@)
                    &&& self.states_metadata()[h].manifest == Some(*manifest)
                    &&& forall|k: Height| self.has_root_hash(k, root_hash@) ==> h <= k
                },
                None => forall|k: Height| !self.has_root_hash(k, root_hash@),
            },
    {
        proof {
            self.states.states_metadata.lemma_keys();
        }
        let ghost keys = self.states.states_metadata.keys();
        let n = self.states.states_metadata.len();
        let mut i: usize = 0;
        while i < n
            invariant
                i <= n,
                n == keys.len(),
                keys == self.states.states_metadata.keys(),
                self.wf(),
                forall|j: int| 0 <= j < i ==> !self.has_root_hash(#[trigger] keys[j], root_hash@),
            decreases n - i,
        {
            let metadata = self.states.states_metadata.value_at(i);
            let h = self.states.states_metadata.key_at(i);
            proof {
                self.states.states_metadata.lemma_keys();
                assert(self.states_metadata()[keys[i as int]] == *metadata);
                assert(self.states_metadata().contains_key(keys[i as int]));
            }
            if let Some(hash) = &metadata.root_hash {
                if let Some(manifest) = &metadata.manifest {
                    if hash_eq(hash, root_hash) {
                        proof {
                            assert forall|k: Height|
                                self.has_root_hash(k, root_hash@) implies h <= k by {
                                let j = choose|j: int| 0 <= j < keys.len() && keys[j] == k;
                                if j < i {
                                    assert(!self.has_root_hash(keys[j], root_hash@));
                                } else if j > i {
                                    assert(keys[i as int] < keys[j]);
                                }
                            }
                        }
                        return Some((h, manifest));
                    }
                }
            }
            i = i + 1;
        }
        proof {
            assert forall|k: Height| !self.has_root_hash(k, root_hash@) by {
                if self.has_root_hash(k, root_hash@) {
                    let j = choose|j: int| 0 <= j < keys.len() && keys[j] == k;
                    assert(!self.has_root_hash(keys[j], root_hash@));
                }
            }
        }
        None
    }

    /// Whether the store holds a checkpoint at `h` with its manifest and the
    /// root hash `root_hash`.
    pub open spec fn has_root_hash(&self, h: Height, root_hash: Seq<u8>) -> bool {
        &&& self.states_metadata().contains_key(h)
        &&& self.states_metadata()[h].manifest is Some
        &&& self.states_metadata()[h].root_hash matches Some(hash) && hash@ == root_hash
    }
}

} // verus!
