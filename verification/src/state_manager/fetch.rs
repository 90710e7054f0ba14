//! Which state the store asks its peers for, and how a state that was synced
//! enters the store.

use crate::checkpoint::CheckpointRef;
use crate::height_map::{lemma_strictly_increasing_ends, Height};
use crate::manifest::Manifest;
use crate::metadata::{CertificationMetadata, StateMetadata};
use crate::state_manager::{update_latest_height, FetchTarget, StateManagerImpl};
use crate::types::{
    hash_eq, CryptoHash, CryptoHashOfState, PermanentStateHashError, StateHashError,
    TransientStateHashError,
};
use std::sync::Arc;
use vstd::prelude::*;

verus! {

/// What the store did with a request to fetch a state.
#[derive(Clone, Copy, Debug, PartialEq, Eq, Structural)]
pub enum FetchDecision {
    /// The state is there and its root hash is the requested one.
    AlreadyPresent,
    /// The state is there, its root hash is still being computed.
    HashNotComputedYet,
    /// The state is older than all states of the store: it is not fetched.
    StateRemoved,
    /// The store holds a state at this height that is not a checkpoint.
    NotFullyCertified,
    /// The checkpoint at `from` has the requested root hash: it can be copied
    /// under the new height instead of being fetched. Nothing was changed.
    CopyCheckpoint { from: Height },
    /// There was no target; the requested state is the target now.
    NewTarget,
    /// The target was at the lower height `from`; the requested state is the
    /// target now.
    TargetRaised { from: Height },
    /// The requested state is the target already.
    TargetUnchanged,
    /// The target is at the greater height `target`: the request is stale.
    Ignored { target: Height },
}

/// Why a request to fetch a state must not be carried out. Either is a
/// violation of the protocol.
#[derive(Clone, Copy, Debug, PartialEq, Eq, Structural)]
pub enum FetchError {
    /// The state at this height is there with another root hash.
    HashMismatch { height: Height },
    /// The state at this height is the target already, with another root
    /// hash.
    TargetHashMismatch { height: Height },
}

/// What is left to do after a synced state was handed to the store.
#[derive(Clone, Copy, Debug, PartialEq, Eq, Structural)]
pub enum SyncOutcome {
    /// The store holds a state at this height or above: nothing entered.
    AlreadyPresent,
    /// The state has entered the store. The metadata on disk has to be
    /// written again.
    Stored,
}

impl<S, T> StateManagerImpl<S, T> {
    /// Whether a target at `height` would have the root hash `root_hash`.
    pub open spec fn target_compatible(&self, height: Height, root_hash: Seq<u8>) -> bool {
        match self.fetch_target() {
            Some(target) => target.height == height ==> target.root_hash@ == root_hash,
            None => true,
        }
    }

    /// Whether the store can be asked to fetch the state at `height` with
    /// the root hash `root_hash`.
    pub open spec fn can_fetch(&self, height: Height, root_hash: Seq<u8>) -> bool {
        match self.state_hash_at(height) {
            Ok(hash) => hash == root_hash,
            Err(StateHashError::Transient(TransientStateHashError::StateNotCommittedYet(_))) => (
            forall|k: Height| !self.has_root_hash(k, root_hash)) ==> self.target_compatible(
                height,
                root_hash,
            ),
            Err(_) => true,
        }
    }

    /// Tells whether the store can be asked to fetch the state at `height`
    /// with the root hash `root_hash`, and if not, why.
    pub fn check_fetch(&self, height: Height, root_hash: &CryptoHashOfState) -> (r: Result<
        (),
        FetchError,
    >)
        requires
            self.wf(),
        ensures
            r is Ok <==> self.can_fetch(height, root_hash@),
            match r {
                Ok(()) => true,
                Err(FetchError::HashMismatch { height: h }) => h == height && self.state_hash_at(
                    height,
                ) is Ok,
                Err(FetchError::TargetHashMismatch { height: h }) => h == height
                    && !self.target_compatible(height, root_hash@),
            },
    {
        match self.get_state_hash_at(height) {
            Ok(hash) => {
                if hash_eq(&hash, root_hash) {
                    Ok(())
                } else {
                    Err(FetchError::HashMismatch { height })
                }
            },
            Err(StateHashError::Transient(TransientStateHashError::StateNotCommittedYet(_))) => {
                if self.find_checkpoint_by_root_hash(root_hash).is_some() {
                    return Ok(());
                }
                self.check_fetch_target(height, root_hash)
            },
            Err(_) => Ok(()),
        }
    }

    /// Tells whether the state at `height` with the root hash `root_hash`
    /// can be made the target, and if not, why.
    pub fn check_fetch_target(&self, height: Height, root_hash: &CryptoHashOfState) -> (r: Result<
        (),
        FetchError,
    >)
        ensures
            r is Ok <==> self.target_compatible(height, root_hash@),
            r matches Err(e) ==> e == (FetchError::TargetHashMismatch { height }),
    {
        match &self.states.fetch_state {
            Some(target) => {
                if target.height == height && !hash_eq(&target.root_hash, root_hash) {
                    Err(FetchError::TargetHashMismatch { height })
                } else {
                    Ok(())
                }
            },
            None => Ok(()),
        }
    }

    /// Whether `post` is this store with nothing changed but the target.
    pub open spec fn same_but_target(&self, post: &Self) -> bool {
        &&& post.snapshots() == self.snapshots()
        &&& post.snapshot_heights() == self.snapshot_heights()
        &&& post.states_metadata() == self.states_metadata()
        &&& post.certifications_metadata() == self.certifications_metadata()
        &&& post.certification_heights() == self.certification_heights()
        &&& post.tip() == self.tip()
        &&& post.last_advertised() == self.last_advertised()
        &&& post.spec_latest_state_height() == self.spec_latest_state_height()
        &&& post.spec_latest_certified_height() == self.spec_latest_certified_height()
    }

    /// Whether the target is the state at `height` with the root hash
    /// `root_hash` and the given interval.
    pub open spec fn targets(&self, height: Height, root_hash: Seq<u8>, interval: Height) -> bool {
        self.fetch_target() matches Some(target) && target.height == height && target.root_hash@
            == root_hash && target.cup_interval_length == interval
    }

    /// Makes the state at `height` the target unless the target is at that
    /// height or above already.
    pub fn set_fetch_target(
        &mut self,
        height: Height,
        root_hash: &CryptoHashOfState,
        cup_interval_length: Height,
    ) -> (decision: FetchDecision)
        requires
            old(self).wf(),
            old(self).target_compatible(height, root_hash@),
        ensures
            final(self).wf(),
            old(self).same_but_target(final(self)),
            match decision {
                FetchDecision::NewTarget => old(self).fetch_target() is None && final(self).targets(height, root_hash@, cup_interval_length),
                FetchDecision::TargetRaised { from } => {
                    &&& old(self).fetch_target() matches Some(target) && target.height == from
                    &&& from < height
                    &&& final(self).targets(height, root_hash@, cup_interval_length)
                },
                FetchDecision::TargetUnchanged => {
                    &&& old(self).fetch_target() matches Some(target) && target.height == height
                    &&& final(self).fetch_target() == old(self).fetch_target()
                },
                FetchDecision::Ignored { target: current } => {
                    &&& old(self).fetch_target() matches Some(target) && target.height == current
                    &&& height < current
                    &&& final(self).fetch_target() == old(self).fetch_target()
                },
                _ => false,
            },
    {
        let previous: Option<Height> = match &self.states.fetch_state {
            Some(target) => Some(target.height),
            None => None,
        };
        match previous {
            None => {
                self.states.fetch_state = Some(
                    FetchTarget { height, root_hash: root_hash.clone(), cup_interval_length },
                );
                FetchDecision::NewTarget
            },
            Some(prev_height) => {
                if prev_height < height {
                    self.states.fetch_state = Some(
                        FetchTarget { height, root_hash: root_hash.clone(), cup_interval_length },
                    );
                    FetchDecision::TargetRaised { from: prev_height }
                } else if prev_height == height {
                    FetchDecision::TargetUnchanged
                } else {
                    FetchDecision::Ignored { target: prev_height }
                }
            },
        }
    }

    /// Asks the store to fetch the state at `height` with the root hash
    /// `root_hash`.
    ///
    /// Nothing is done where the store holds a state at that height, or held
    /// one. Where the state is not committed yet and a checkpoint of the store
    /// has the same root hash, that checkpoint is named, to be copied; if the
    /// copy fails, `set_fetch_target` takes over. Otherwise the state becomes
    /// the target, unless the target is at that height or above already.
    pub fn fetch_state(
        &mut self,
        height: Height,
        root_hash: &CryptoHashOfState,
        cup_interval_length: Height,
    ) -> (decision: FetchDecision)
        requires
            old(self).wf(),
            old(self).can_fetch(height, root_hash@),
        ensures
            final(self).wf(),
            old(self).same_but_target(final(self)),
            match decision {
                FetchDecision::AlreadyPresent => {
                    &&& old(self).state_hash_at(height) is Ok
                    &&& final(self).fetch_target() == old(self).fetch_target()
                },
                FetchDecision::HashNotComputedYet => {
                    &&& old(self).state_hash_at(height) == Err::<Seq<u8>, StateHashError>(
                        StateHashError::Transient(
                            TransientStateHashError::HashNotComputedYet(height),
                        ),
                    )
                    &&& final(self).fetch_target() == old(self).fetch_target()
                },
                FetchDecision::StateRemoved => {
                    &&& old(self).state_hash_at(height) == Err::<Seq<u8>, StateHashError>(
                        StateHashError::Permanent(PermanentStateHashError::StateRemoved(height)),
                    )
                    &&& final(self).fetch_target() == old(self).fetch_target()
                },
                FetchDecision::NotFullyCertified => {
                    &&& old(self).state_hash_at(height) == Err::<Seq<u8>, StateHashError>(
                        StateHashError::Permanent(
                            PermanentStateHashError::StateNotFullyCertified(height),
                        ),
                    )
                    &&& final(self).fetch_target() == old(self).fetch_target()
                },
                FetchDecision::CopyCheckpoint { from } => {
                    &&& old(self).not_committed_yet(height)
                    &&& old(self).has_root_hash(from, root_hash@)
                    &&& forall|k: Height| old(self).has_root_hash(k, root_hash@) ==> from <= k
                    &&& final(self).fetch_target() == old(self).fetch_target()
                },
                FetchDecision::NewTarget => {
                    &&& old(self).not_committed_yet(height)
                    &&& forall|k: Height| !old(self).has_root_hash(k, root_hash@)
                    &&& old(self).fetch_target() is None
                    &&& final(self).targets(height, root_hash@, cup_interval_length)
                },
                FetchDecision::TargetRaised { from } => {
                    &&& old(self).not_committed_yet(height)
                    &&& forall|k: Height| !old(self).has_root_hash(k, root_hash@)
                    &&& old(self).fetch_target() matches Some(target) && target.height == from
                    &&& from < height
                    &&& final(self).targets(height, root_hash@, cup_interval_length)
                },
                FetchDecision::TargetUnchanged => {
                    &&& old(self).not_committed_yet(height)
                    &&& forall|k: Height| !old(self).has_root_hash(k, root_hash@)
                    &&& old(self).fetch_target() matches Some(target) && target.height == height
                    &&& final(self).fetch_target() == old(self).fetch_target()
                },
                FetchDecision::Ignored { target: current } => {
                    &&& old(self).not_committed_yet(height)
                    &&& forall|k: Height| !old(self).has_root_hash(k, root_hash@)
                    &&& old(self).fetch_target() matches Some(target) && target.height == current
                    &&& height < current
                    &&& final(self).fetch_target() == old(self).fetch_target()
                },
            },
    {
        match self.get_state_hash_at(height) {
            Ok(_) => FetchDecision::AlreadyPresent,
            Err(StateHashError::Transient(TransientStateHashError::HashNotComputedYet(_))) => {
                // The state is already available, but we haven't finished
                // computing the hash yet.
                FetchDecision::HashNotComputedYet
            },
            Err(StateHashError::Permanent(PermanentStateHashError::StateRemoved(_))) => {
                // No need to fetch an old state, nothing to do.
                FetchDecision::StateRemoved
            },
            Err(StateHashError::Permanent(PermanentStateHashError::StateNotFullyCertified(_))) => {
                FetchDecision::NotFullyCertified
            },
            Err(StateHashError::Transient(TransientStateHashError::StateNotCommittedYet(_))) => {
                // Let's see if we already have this state locally. This might
                // be the case if we are in subnet recovery mode and
                // re-introducing some old state with a new height.
                let local: Option<Height> = match self.find_checkpoint_by_root_hash(root_hash) {
                    Some((checkpoint_height, _)) => Some(checkpoint_height),
                    None => None,
                };
                match local {
                    Some(checkpoint_height) => FetchDecision::CopyCheckpoint {
                        from: checkpoint_height,
                    },
                    // Normal path: we don't have the state locally, let's
                    // fetch it.
                    None => self.set_fetch_target(height, root_hash, cup_interval_length),
                }
            },
        }
    }

    /// Whether the state at `height` is neither in the store nor below the
    /// latest state of the store.
    pub open spec fn not_committed_yet(&self, height: Height) -> bool {
        self.state_hash_at(height) == Err::<Seq<u8>, StateHashError>(
            StateHashError::Transient(TransientStateHashError::StateNotCommittedYet(height)),
        )
    }

    /// Hands a state that was synced, or copied from another checkpoint, to
    /// the store: the checkpoint at `height` with its manifest and root hash,
    /// the hash tree of its certified part and that tree's root hash.
    ///
    /// Fetching is given up where the target is not above `height`. The state
    /// enters the store unless the store holds a state at `height` or above.
    /// The tip is left alone: whoever takes the tip next finds the newer
    /// state.
    pub fn on_synced_checkpoint(
        &mut self,
        state: S,
        height: Height,
        manifest: Manifest,
        root_hash: CryptoHashOfState,
        hash_tree: T,
        certified_state_hash: CryptoHash,
    ) -> (outcome: SyncOutcome)
        requires
            old(self).wf(),
        ensures
            final(self).wf(),
            final(self).fetch_target() == (match old(self).fetch_target() {
                Some(target) if target.height <= height => None,
                other => other,
            }),
            final(self).tip() == old(self).tip(),
            final(self).last_advertised() == old(self).last_advertised(),
            final(self).spec_latest_certified_height() == old(self).spec_latest_certified_height(),
            outcome == (if height <= old(self).spec_latest_state_height() {
                SyncOutcome::AlreadyPresent
            } else {
                SyncOutcome::Stored
            }),
            outcome == SyncOutcome::AlreadyPresent ==> {
                &&& final(self).snapshots() == old(self).snapshots()
                &&& final(self).states_metadata() == old(self).states_metadata()
                &&& final(self).certifications_metadata() == old(self).certifications_metadata()
                &&& final(self).spec_latest_state_height() == old(self).spec_latest_state_height()
            },
            outcome == SyncOutcome::Stored ==> {
                &&& final(self).spec_latest_state_height() == height
                &&& final(self).snapshots() == old(self).snapshots().insert(
                    height,
                    final(self).snapshots()[height],
                )
                &&& *final(self).snapshots()[height] == state
                &&& final(self).certifications_metadata() == old(
                    self,
                ).certifications_metadata().insert(
                    height,
                    final(self).certifications_metadata()[height],
                )
                &&& final(self).certifications_metadata()[height].hash_tree matches Some(tree)
                    && *tree == hash_tree
                &&& final(self).certifications_metadata()[height].certified_state_hash
                    == certified_state_hash
                &&& final(self).certifications_metadata()[height].certification is None
                &&& final(self).states_metadata() == old(self).states_metadata().insert(
                    height,
                    final(self).states_metadata()[height],
                )
                &&& final(self).states_metadata()[height].manifest == Some(manifest)
                &&& final(self).states_metadata()[height].root_hash == Some(root_hash)
                &&& final(self).states_metadata()[height].state_sync_file_group is None
                &&& final(self).states_metadata()[height].checkpoint_ref matches Some(r)
                    && r.spec_height() == height && !r.spec_marked_deleted()
            },
    {
        self.states.disable_state_fetch_below(height);
        proof {
            self.lemma_heights();
        }
        if self.latest_state_height >= height {
            return SyncOutcome::AlreadyPresent;
        }
        let ghost pre = *self;
        self.states.snapshots.insert(height, Arc::new(state));
        self.states.certifications_metadata.insert(
            height,
            CertificationMetadata {
                certified_state_hash,
                hash_tree: Some(Arc::new(hash_tree)),
                certification: None,
            },
        );
        self.states.states_metadata.insert(
            height,
            StateMetadata {
                manifest: Some(manifest),
                checkpoint_ref: Some(CheckpointRef::new(height)),
                root_hash: Some(root_hash),
                state_sync_file_group: None,
            },
        );
        update_latest_height(&mut self.latest_state_height, height);
        proof {
            self.lemma_heights();
            let keys = self.snapshot_heights();
            assert(pre.snapshots().contains_key(0));
            assert(self.snapshots() == pre.snapshots().insert(height, self.snapshots()[height]));
            assert(self.snapshots().contains_key(0));
            assert(self.snapshots().contains_key(height));
            assert(keys.contains(0));
            assert(keys.contains(height));
            assert forall|i: int| 0 <= i < keys.len() implies 0 <= #[trigger] keys[i]
                <= height by {
                assert(keys.contains(keys[i]));
                assert(self.snapshots().contains_key(keys[i]));
            }
            lemma_strictly_increasing_ends(keys, 0, height);
            assert(!pre.snapshots().contains_key(height));
            assert(!pre.certifications_metadata().contains_key(height));
        }
        SyncOutcome::Stored
    }

    /// Records the manifest and the root hash that were computed for the
    /// checkpoint at `height`, if the store still holds that checkpoint.
    /// Returns whether it does. The metadata on disk has to be written again
    /// in either case.
    pub fn record_manifest(&mut self, height: Height, manifest: Manifest, root_hash: CryptoHashOfState) -> (recorded: bool)
        requires
            old(self).wf(),
        ensures
            final(self).wf(),
            final(self).fetch_target() == old(self).fetch_target(),
            final(self).snapshots() == old(self).snapshots(),
            final(self).certifications_metadata() == old(self).certifications_metadata(),
            final(self).tip() == old(self).tip(),
            final(self).last_advertised() == old(self).last_advertised(),
            final(self).spec_latest_state_height() == old(self).spec_latest_state_height(),
            final(self).spec_latest_certified_height() == old(self).spec_latest_certified_height(),
            recorded == old(self).states_metadata().contains_key(height),
            !recorded ==> final(self).states_metadata() == old(self).states_metadata(),
            recorded ==> final(self).states_metadata() == old(self).states_metadata().insert(
                height,
                StateMetadata {
                    checkpoint_ref: old(self).states_metadata()[height].checkpoint_ref,
                    root_hash: Some(root_hash),
                    manifest: Some(manifest),
                    state_sync_file_group: old(self).states_metadata()[height].state_sync_file_group,
                },
            ),
    {
        proof {
            self.lemma_heights();
            self.states.states_metadata.lemma_keys();
        }
        match self.states.states_metadata.position(height) {
            Some(at) => {
                let metadata = self.states.states_metadata.value_at_mut(at);
                metadata.root_hash = Some(root_hash);
                metadata.manifest = Some(manifest);
                proof {
                    self.lemma_heights();
                }
                true
            },
            None => false,
        }
    }

    /// The metadata that is written to disk: every checkpoint of the store,
    /// lowest height first, with its manifest if it has one.
    pub fn metadata_to_persist(&self) -> (entries: Vec<(Height, Option<&Manifest>)>)
        requires
            self.wf(),
        ensures
            entries@.len() == self.metadata_heights().len(),
            forall|i: int|
                0 <= i < entries@.len() ==> {
                    let h = self.metadata_heights()[i];
                    &&& (#[trigger] entries@[i]).0 == h
                    &&& match entries@[i].1 {
                        Some(manifest) => self.states_metadata()[h].manifest == Some(*manifest),
                        None => self.states_metadata()[h].manifest is None,
                    }
                },
    {
        let mut entries: Vec<(Height, Option<&Manifest>)> = Vec::new();
        let n = self.states.states_metadata.len();
        let ghost keys = self.states.states_metadata.keys();
        proof {
            self.states.states_metadata.lemma_keys();
        }
        let mut i: usize = 0;
        while i < n
            invariant
                i <= n,
                n == keys.len(),
                keys == self.states.states_metadata.keys(),
                keys == self.metadata_heights(),
                self.wf(),
                entries@.len() == i,
                forall|j: int|
                    0 <= j < i ==> {
                        let h = keys[j];
                        &&& (#[trigger] entries@[j]).0 == h
                        &&& match entries@[j].1 {
                            Some(manifest) => self.states_metadata()[h].manifest == Some(
                                *manifest,
                            ),
                            None => self.states_metadata()[h].manifest is None,
                        }
                    },
            decreases n - i,
        {
            let h = self.states.states_metadata.key_at(i);
            let metadata = self.states.states_metadata.value_at(i);
            proof {
                self.states.states_metadata.lemma_keys();
                assert(self.states_metadata()[keys[i as int]] == *metadata);
            }
            entries.push((h, metadata.manifest_to_persist()));
            i = i + 1;
        }
        entries
    }

    /// Takes note that the checkpoint at `height` has diverged: the store
    /// forgets the metadata of the checkpoints from `height` on. Returns
    /// those of the checkpoints on disk, whose heights are
    /// `checkpoint_heights`, that are above `height`, in their order: they are
    /// to be removed. The metadata on disk has to be written again, and then
    /// the node has to stop.
    pub fn report_diverged_checkpoint(&mut self, height: Height, checkpoint_heights: &Vec<Height>) -> (to_remove: Vec<Height>)
        requires
            old(self).wf(),
        ensures
            final(self).wf(),
            final(self).fetch_target() == old(self).fetch_target(),
            final(self).snapshots() == old(self).snapshots(),
            final(self).certifications_metadata() == old(self).certifications_metadata(),
            final(self).tip() == old(self).tip(),
            final(self).last_advertised() == old(self).last_advertised(),
            final(self).spec_latest_state_height() == old(self).spec_latest_state_height(),
            final(self).spec_latest_certified_height() == old(self).spec_latest_certified_height(),
            final(self).states_metadata() == old(self).states_metadata().restrict(
                Set::new(|h: Height| h < height),
            ),
            to_remove@ == checkpoint_heights@.filter(|h: Height| h > height),
    {
        let mut to_remove: Vec<Height> = Vec::new();
        let ghost above = |h: Height| h > height;
        proof {
            reveal(Seq::filter);
            assert(checkpoint_heights@.subrange(0, 0) =~= Seq::<Height>::empty());
        }
        let mut i: usize = 0;
        while i < checkpoint_heights.len()
            invariant
                i <= checkpoint_heights@.len(),
                above == |h: Height| h > height,
                to_remove@ == checkpoint_heights@.subrange(0, i as int).filter(above),
            decreases checkpoint_heights@.len() - i,
        {
            let h = checkpoint_heights[i];
            proof {
                reveal(Seq::filter);
                assert(checkpoint_heights@.subrange(0, i + 1).drop_last()
                    =~= checkpoint_heights@.subrange(0, i as int));
            }
            if h > height {
                to_remove.push(h);
            }
            i = i + 1;
        }
        proof {
            assert(checkpoint_heights@.subrange(0, i as int) =~= checkpoint_heights@);
        }
        self.states.states_metadata.split_off(height);
        proof {
            self.lemma_heights();
        }
        to_remove
    }
}

} // verus!
