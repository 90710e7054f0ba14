//! What the store keeps for each height beside the state itself.

use crate::checkpoint::CheckpointRef;
use crate::manifest::Manifest;
use crate::types::{Certification, CryptoHash, CryptoHashOfState};
use std::sync::Arc;
use vstd::prelude::*;

verus! {

/// The chunks of the files that are grouped for state sync: for each chunk
/// of the group, the chunks of the manifest that it holds.
#[derive(Clone, Debug, PartialEq, Eq)]
pub struct FileGroupChunks {
    pub chunks: Vec<(u32, Vec<u32>)>,
}

/// What the store keeps for a checkpoint.
#[derive(Debug, PartialEq, Eq)]
pub struct StateMetadata {
    /// The token of the checkpoint.
    pub checkpoint_ref: Option<CheckpointRef>,
    /// Manifest and root hash are computed in the background: both are `None`
    /// until then, and they are set together.
    pub root_hash: Option<CryptoHashOfState>,
    pub manifest: Option<Manifest>,
    /// `None` until the state is served by state sync for the first time.
    pub state_sync_file_group: Option<Arc<FileGroupChunks>>,
}

impl StateMetadata {
    /// Whether manifest and root hash are both there or both missing.
    pub open spec fn manifest_and_hash_agree(&self) -> bool {
        self.manifest is Some <==> self.root_hash is Some
    }

    /// The same metadata after removal of the checkpoint was requested.
    pub open spec fn with_checkpoint_marked(self) -> StateMetadata {
        StateMetadata {
            checkpoint_ref: match self.checkpoint_ref {
                Some(r) => Some(r.marked()),
                None => None,
            },
            root_hash: self.root_hash,
            manifest: self.manifest,
            state_sync_file_group: self.state_sync_file_group,
        }
    }

    /// Whether this is what the store holds for a fresh checkpoint at `h`:
    /// an unmarked token for `h`, and neither manifest nor root hash.
    pub open spec fn is_fresh(&self, h: crate::height_map::Height) -> bool {
        &&& self.checkpoint_ref matches Some(r) && r.spec_height() == h && !r.spec_marked_deleted()
        &&& self.root_hash is None
        &&& self.manifest is None
        &&& self.state_sync_file_group is None
    }

    /// The metadata that is read back for a checkpoint: nothing where no
    /// manifest was stored, else the manifest with its hash.
    pub fn from_persisted(manifest: Option<(Manifest, CryptoHashOfState)>) -> (m: StateMetadata)
        ensures
            m.checkpoint_ref is None,
            m.state_sync_file_group is None,
            m.manifest_and_hash_agree(),
            match manifest {
                Some((stored, hash)) => m.manifest == Some(stored) && m.root_hash == Some(hash),
                None => m.manifest is None && m.root_hash is None,
            },
    {
        match manifest {
            None => StateMetadata {
                checkpoint_ref: None,
                root_hash: None,
                manifest: None,
                state_sync_file_group: None,
            },
            Some((stored, hash)) => StateMetadata {
                checkpoint_ref: None,
                manifest: Some(stored),
                root_hash: Some(hash),
                state_sync_file_group: None,
            },
        }
    }

    /// The manifest to store for this checkpoint, if it has one.
    pub fn manifest_to_persist(&self) -> (m: Option<&Manifest>)
        ensures
            match m {
                Some(stored) => self.manifest == Some(*stored),
                None => self.manifest is None,
            },
    {
        self.manifest.as_ref()
    }
}

/// What the store keeps for each state to certify it.
#[derive(Debug)]
pub struct CertificationMetadata<T> {
    /// The hash tree of the part of the state that is certified every round.
    /// Dropped as soon as a higher state is certified.
    pub hash_tree: Option<Arc<T>>,
    /// Root hash of the tree above. It is kept when the tree is dropped.
    pub certified_state_hash: CryptoHash,
    /// Certification of the root hash, once it was delivered.
    pub certification: Option<Certification>,
}

} // verus!
