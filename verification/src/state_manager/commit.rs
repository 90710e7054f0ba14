//! How a state that execution has worked on enters the store.

use crate::checkpoint::CheckpointRef;
use crate::height_map::{lemma_strictly_increasing_ends, Height};
use crate::manifest::ManifestDelta;
use crate::metadata::{CertificationMetadata, StateMetadata};
use crate::state_manager::{update_latest_height, ManifestJob, StateManagerImpl, Tip};
use crate::types::{hash_eq, CertificationScope, CryptoHash};
use std::sync::Arc;
use vstd::prelude::*;

verus! {

/// Why a state must not be committed. Either is a fault that the node
/// cannot recover from.
#[derive(Clone, Copy, Debug, PartialEq, Eq, Structural)]
pub enum CommitError {
    /// The tip is in the store: the state to commit was not taken from it.
    StateNotBorrowed { height: Height, tip_height: Height },
    /// The state at this height was committed before with another hash:
    /// execution is not deterministic.
    HashMismatch { height: Height },
}

/// What is left to do after a state was committed.
#[derive(Debug, PartialEq, Eq)]
pub struct CommitOutcome {
    /// The checkpoint whose manifest is to be computed, if one was made and
    /// has entered the store.
    pub compute_manifest: Option<ManifestJob>,
    /// Whether the metadata on disk has to be written again.
    pub persist_metadata: bool,
}

impl<S, T> StateManagerImpl<S, T> {
    /// Whether the tip is checked out and the state at `height`, if it was
    /// committed before, had the hash `certified_state_hash`.
    pub open spec fn can_commit(&self, height: Height, certified_state_hash: Seq<u8>) -> bool {
        &&& self.tip() is CheckedOut
        &&& self.certifications_metadata().contains_key(height)
            ==> self.certifications_metadata()[height].certified_state_hash@
            == certified_state_hash
    }

    /// Tells whether the state with the given hash of its certified part may
    /// be committed at `height`, and if not, why.
    pub fn check_commit(&self, height: Height, certified_state_hash: &CryptoHash) -> (r: Result<
        (),
        CommitError,
    >)
        requires
            self.wf(),
        ensures
            r is Ok <==> self.can_commit(height, certified_state_hash@),
            match r {
                Ok(()) => true,
                Err(CommitError::StateNotBorrowed { height: h, tip_height }) => {
                    &&& h == height
                    &&& self.tip() matches Tip::Available(t, _) && t == tip_height
                },
                Err(CommitError::HashMismatch { height: h }) => h == height
                    && self.tip() is CheckedOut,
            },
    {
        // A commit must be preceded by taking the tip: no two clients work on
        // the tip at the same time.
        if let Tip::Available(tip_height, _) = &self.states.tip {
            return Err(CommitError::StateNotBorrowed { height, tip_height: *tip_height });
        }
        // It's possible that we already computed this state before. The
        // hashes must agree.
        if let Some(prev_metadata) = self.states.certifications_metadata.get(height) {
            if !hash_eq(&prev_metadata.certified_state_hash, certified_state_hash) {
                return Err(CommitError::HashMismatch { height });
            }
        }
        Ok(())
    }

    /// Commits `state` at `height` and puts it back as the tip.
    /// `committed_state` is the copy that enters the store as a snapshot,
    /// `hash_tree` the hash tree of its certified part and
    /// `certified_state_hash` the root hash of that tree. With scope `Full`
    /// the checkpoint at `height` has been made, and `manifest_delta` says
    /// what is known of it from the last checkpoint with a manifest; it is
    /// not used on the NNS subnet.
    ///
    /// Where the store already holds a state at `height` or above, no
    /// snapshot enters the store, and the state still becomes the tip.
    pub fn commit_and_certify(
        &mut self,
        state: S,
        committed_state: S,
        height: Height,
        scope: CertificationScope,
        hash_tree: T,
        certified_state_hash: CryptoHash,
        manifest_delta: Option<ManifestDelta>,
        is_nns: bool,
    ) -> (outcome: CommitOutcome)
        requires
            old(self).wf(),
            old(self).can_commit(height, certified_state_hash@),
        ensures
            final(self).wf(),
            final(self).tip() == Tip::Available(height, state),
            final(self).fetch_target() == old(self).fetch_target(),
            final(self).last_advertised() == old(self).last_advertised(),
            final(self).spec_latest_certified_height() == old(self).spec_latest_certified_height(),
            outcome.persist_metadata == (scope == CertificationScope::Full),
            height <= old(self).spec_latest_state_height() ==> {
                &&& final(self).snapshots() == old(self).snapshots()
                &&& final(self).states_metadata() == old(self).states_metadata()
                &&& final(self).certifications_metadata() == old(self).certifications_metadata()
                &&& final(self).spec_latest_state_height() == old(self).spec_latest_state_height()
                &&& outcome.compute_manifest is None
            },
            height > old(self).spec_latest_state_height() ==> {
                &&& final(self).spec_latest_state_height() == height
                &&& final(self).snapshots() == old(self).snapshots().insert(
                    height,
                    final(self).snapshots()[height],
                )
                &&& *final(self).snapshots()[height] == committed_state
                &&& final(self).certifications_metadata() == old(
                    self,
                ).certifications_metadata().insert(
                    height,
                    final(self).certifications_metadata()[height],
                )
                &&& final(self).certifications_metadata()[height].hash_tree matches Some(tree)
                    && *tree == hash_tree
                &&& final(self).certifications_metadata()[height].certified_state_hash
                    == certified_state_hash
                &&& final(self).certifications_metadata()[height].certification is None
                &&& match scope {
                    CertificationScope::Full => {
                        &&& final(self).states_metadata() == old(self).states_metadata().insert(
                            height,
                            final(self).states_metadata()[height],
                        )
                        &&& final(self).states_metadata()[height].is_fresh(height)
                        &&& outcome.compute_manifest == Some(
                            ManifestJob {
                                checkpoint_height: height,
                                manifest_delta: if is_nns {
                                    None
                                } else {
                                    manifest_delta
                                },
                            },
                        )
                    },
                    CertificationScope::Metadata => {
                        &&& final(self).states_metadata() == old(self).states_metadata()
                        &&& outcome.compute_manifest is None
                    },
                }
            },
    {
        let persist_metadata = match scope {
            CertificationScope::Full => true,
            CertificationScope::Metadata => false,
        };
        proof {
            self.lemma_heights();
        }
        if height <= self.latest_state_height {
            // This state is older than the one we already have. This can
            // happen if we state-sync and apply blocks in parallel. The next
            // call to take_tip() will take care of updating the tip if needed.
            self.states.tip = Tip::Available(height, state);
            return CommitOutcome { compute_manifest: None, persist_metadata };
        }
        let ghost pre = *self;
        self.states.snapshots.insert(height, Arc::new(committed_state));
        let compute_manifest = match scope {
            CertificationScope::Full => {
                self.states.states_metadata.insert(
                    height,
                    StateMetadata {
                        checkpoint_ref: Some(CheckpointRef::new(height)),
                        manifest: None,
                        root_hash: None,
                        state_sync_file_group: None,
                    },
                );
                // On the NNS subnet we never allow incremental manifest
                // computation.
                Some(
                    ManifestJob {
                        checkpoint_height: height,
                        manifest_delta: if is_nns {
                            None
                        } else {
                            manifest_delta
                        },
                    },
                )
            },
            CertificationScope::Metadata => None,
        };
        self.states.certifications_metadata.insert(
            height,
            CertificationMetadata {
                hash_tree: Some(Arc::new(hash_tree)),
                certified_state_hash,
                certification: None,
            },
        );
        update_latest_height(&mut self.latest_state_height, height);
        self.states.tip = Tip::Available(height, state);
        proof {
            self.lemma_heights();
            let keys = self.snapshot_heights();
            assert(pre.snapshots().contains_key(0));
            assert(self.snapshots() == pre.snapshots().insert(height, self.snapshots()[height]));
            assert(self.snapshots().contains_key(0));
            assert(self.snapshots().contains_key(height));
            assert(keys.contains(0));
            assert(keys.contains(height));
            assert forall|i: int| 0 <= i < keys.len() implies 0 <= #[trigger] keys[i]
                <= height by {
                assert(keys.contains(keys[i]));
                assert(self.snapshots().contains_key(keys[i]));
            }
            lemma_strictly_increasing_ends(keys, 0, height);
            assert(!pre.snapshots().contains_key(height));
            assert(!pre.certifications_metadata().contains_key(height));
        }
        CommitOutcome { compute_manifest, persist_metadata }
    }
}

} // verus!
