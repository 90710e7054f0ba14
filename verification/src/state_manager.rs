//! The state store: the snapshots that are resident in memory, the metadata
//! of checkpoints and certifications by height, the tip that execution works
//! on, and the state that is being fetched.

pub mod certification;
pub mod commit;
pub mod eviction;
pub mod fetch;
pub mod query;
pub mod startup;
pub mod tip;

use crate::height_map::{strictly_increasing, Height, HeightMap};
use crate::manifest::ManifestDelta;
use crate::metadata::{CertificationMetadata, StateMetadata};
use crate::types::{CryptoHash, CryptoHashOfState};
use std::sync::Arc;
use vstd::prelude::*;

verus! {

/// The single mutable working copy of the state. While execution works on
/// it, it is checked out of the store.
pub enum Tip<S> {
    /// Taken by execution at the height `at` and not committed back yet.
    CheckedOut { at: Height },
    /// In the store, with the height that it was committed at.
    Available(Height, S),
}

/// The state that the store is asked to fetch from its peers.
#[derive(Clone, Debug, PartialEq, Eq)]
pub struct FetchTarget {
    pub height: Height,
    pub root_hash: CryptoHashOfState,
    pub cup_interval_length: Height,
}

/// A checkpoint whose manifest is to be computed in the background.
#[derive(Clone, Debug, PartialEq, Eq)]
pub struct ManifestJob {
    /// The height of the checkpoint.
    pub checkpoint_height: Height,
    /// What is known from an earlier manifest. Without it every chunk is
    /// hashed.
    pub manifest_delta: Option<ManifestDelta>,
}

/// A checkpoint as it was loaded from disk, with the hash tree of its
/// certified part and that tree's root hash.
pub struct LoadedCheckpoint<S, T> {
    pub height: Height,
    pub state: S,
    pub hash_tree: T,
    pub certified_state_hash: CryptoHash,
}

/// The mutable state that the threads of the store share.
pub struct SharedState<S, T> {
    /// Certification metadata, kept for all states.
    certifications_metadata: HeightMap<CertificationMetadata<T>>,
    /// Metadata for each checkpoint.
    states_metadata: HeightMap<StateMetadata>,
    /// The states present in memory. Never empty: the state at height 0 is
    /// always there.
    snapshots: HeightMap<Arc<S>>,
    /// The last checkpoint that was advertised.
    last_advertised: Height,
    /// The state we are trying to fetch.
    fetch_state: Option<FetchTarget>,
    /// The working copy of execution.
    tip: Tip<S>,
}

impl<S, T> SharedState<S, T> {
    /// Gives up fetching where the target is not above `height`.
    fn disable_state_fetch_below(&mut self, height: Height)
        ensures
            final(self).fetch_state == (match old(self).fetch_state {
                Some(target) if target.height <= height => None,
                other => other,
            }),
            final(self).certifications_metadata == old(self).certifications_metadata,
            final(self).states_metadata == old(self).states_metadata,
            final(self).snapshots == old(self).snapshots,
            final(self).last_advertised == old(self).last_advertised,
            final(self).tip == old(self).tip,
    {
        let give_up = match &self.fetch_state {
            Some(target) => target.height <= height,
            None => false,
        };
        if give_up {
            self.fetch_state = None;
        }
    }
}

/// The state store.
pub struct StateManagerImpl<S, T> {
    states: SharedState<S, T>,
    /// The height of the latest snapshot, kept beside the snapshots because it
    /// is asked for often.
    latest_state_height: Height,
    /// The height of the latest certified state.
    latest_certified_height: Height,
}

/// Whether `latest` is the height of the latest certified state among
/// `certifications`: the greatest height with a certification, or 0 where no
/// state is certified.
pub open spec fn is_latest_certified<T>(
    certifications: Map<Height, CertificationMetadata<T>>,
    latest: Height,
) -> bool {
    &&& forall|h: Height| #[trigger]
        certifications.contains_key(h) && certifications[h].certification is Some ==> h <= latest
    &&& latest == 0 || (certifications.contains_key(latest)
        && certifications[latest].certification is Some)
}

impl<S, T> StateManagerImpl<S, T> {
    /// Height for the initial default state.
    pub const INITIAL_STATE_HEIGHT: Height = 0;

    /// The states present in memory, by height.
    pub closed spec fn snapshots(&self) -> Map<Height, Arc<S>> {
        self.states.snapshots@
    }

    /// The heights of the states present in memory, in increasing order.
    pub closed spec fn snapshot_heights(&self) -> Seq<Height> {
        self.states.snapshots.keys()
    }

    /// The metadata of the checkpoints, by height.
    pub closed spec fn states_metadata(&self) -> Map<Height, StateMetadata> {
        self.states.states_metadata@
    }

    /// The heights that have checkpoint metadata, in increasing order.
    pub closed spec fn metadata_heights(&self) -> Seq<Height> {
        self.states.states_metadata.keys()
    }

    /// The certification metadata, by height.
    pub closed spec fn certifications_metadata(&self) -> Map<Height, CertificationMetadata<T>> {
        self.states.certifications_metadata@
    }

    /// The heights that have certification metadata, in increasing order.
    pub closed spec fn certification_heights(&self) -> Seq<Height> {
        self.states.certifications_metadata.keys()
    }

    /// The state that is being fetched.
    pub closed spec fn fetch_target(&self) -> Option<FetchTarget> {
        self.states.fetch_state
    }

    /// The working copy of execution.
    pub closed spec fn tip(&self) -> Tip<S> {
        self.states.tip
    }

    /// The last checkpoint that was advertised.
    pub closed spec fn last_advertised(&self) -> Height {
        self.states.last_advertised
    }

    /// The height of the latest state in memory.
    pub closed spec fn spec_latest_state_height(&self) -> Height {
        self.latest_state_height
    }

    /// The height of the latest certified state.
    pub closed spec fn spec_latest_certified_height(&self) -> Height {
        self.latest_certified_height
    }

    /// The three maps are held in increasing order of height.
    pub closed spec fn maps_wf(&self) -> bool {
        &&& self.states.snapshots.wf()
        &&& self.states.states_metadata.wf()
        &&& self.states.certifications_metadata.wf()
    }

    /// What holds of the store between any two operations.
    pub open spec fn wf(&self) -> bool {
        &&& self.maps_wf()
        // The snapshots are in strictly increasing order of height and the
        // initial state is always among them.
        &&& strictly_increasing(self.snapshot_heights())
        &&& self.snapshot_heights().len() > 0
        &&& self.snapshot_heights()[0] == 0
        &&& self.snapshots().contains_key(0)
        &&& self.spec_latest_state_height() == self.snapshot_heights().last()
        &&& forall|h: Height| #[trigger]
            self.snapshots().contains_key(h) ==> h <= self.spec_latest_state_height()
        // A checkpoint is a resident state. Its manifest and its root hash are
        // set together or not at all, and it has an unmarked token of its own.
        &&& forall|h: Height| #[trigger]
            self.states_metadata().contains_key(h) ==> {
                &&& self.snapshots().contains_key(h)
                &&& self.states_metadata()[h].manifest_and_hash_agree()
                &&& self.states_metadata()[h].checkpoint_ref matches Some(r) && r.spec_height()
                    == h && !r.spec_marked_deleted()
            }
        // Every resident state but the initial one has certification metadata,
        // and nothing else has.
        &&& forall|h: Height| #[trigger]
            self.certifications_metadata().contains_key(h) <==> self.snapshots().contains_key(h)
                && h > 0
        &&& is_latest_certified(
            self.certifications_metadata(),
            self.spec_latest_certified_height(),
        )
        &&& match self.tip() {
            Tip::Available(h, _) => h <= self.spec_latest_state_height(),
            Tip::CheckedOut { at } => at <= self.spec_latest_state_height(),
        }
    }

    /// How the heights in order and the maps of a store hang together.
    pub proof fn lemma_heights(&self)
        requires
            self.maps_wf(),
        ensures
            strictly_increasing(self.snapshot_heights()),
            strictly_increasing(self.metadata_heights()),
            strictly_increasing(self.certification_heights()),
            forall|h: Height| #[trigger]
                self.snapshots().contains_key(h) <==> self.snapshot_heights().contains(h),
            forall|h: Height| #[trigger]
                self.states_metadata().contains_key(h) <==> self.metadata_heights().contains(h),
            forall|h: Height| #[trigger]
                self.certifications_metadata().contains_key(h)
                    <==> self.certification_heights().contains(h),
    {
        self.states.snapshots.lemma_keys();
        self.states.states_metadata.lemma_keys();
        self.states.certifications_metadata.lemma_keys();
    }

    /// The heights in order are determined by the maps: a strictly increasing
    /// sequence that names the heights of a map is the sequence of its
    /// heights.
    pub proof fn lemma_heights_are(&self, keys: Seq<Height>)
        requires
            self.maps_wf(),
            strictly_increasing(keys),
        ensures
            (forall|h: Height| keys.contains(h) <==> self.snapshots().contains_key(h))
                ==> self.snapshot_heights() == keys,
            (forall|h: Height| keys.contains(h) <==> self.states_metadata().contains_key(h))
                ==> self.metadata_heights() == keys,
            (forall|h: Height| keys.contains(h) <==> self.certifications_metadata().contains_key(h))
                ==> self.certification_heights() == keys,
    {
        self.lemma_heights();
        if forall|h: Height| keys.contains(h) <==> self.snapshots().contains_key(h) {
            crate::height_map::lemma_strictly_increasing_unique(self.snapshot_heights(), keys);
        }
        if forall|h: Height| keys.contains(h) <==> self.states_metadata().contains_key(h) {
            crate::height_map::lemma_strictly_increasing_unique(self.metadata_heights(), keys);
        }
        if forall|h: Height| keys.contains(h) <==> self.certifications_metadata().contains_key(h) {
            crate::height_map::lemma_strictly_increasing_unique(
                self.certification_heights(),
                keys,
            );
        }
    }

    /// For every checkpoint of the store, the manifest is there if and only
    /// if the root hash is there.
    pub proof fn lemma_manifest_and_root_hash_together(&self, h: Height)
        requires
            self.wf(),
            self.states_metadata().contains_key(h),
        ensures
            self.states_metadata()[h].manifest is Some <==> self.states_metadata()[h].root_hash
                is Some,
    {
    }

    /// The heights of the snapshots are strictly increasing, and the snapshot
    /// at height 0 is always there.
    pub proof fn lemma_snapshots_increase_from_zero(&self)
        requires
            self.wf(),
        ensures
            strictly_increasing(self.snapshot_heights()),
            self.snapshot_heights().len() > 0,
            self.snapshot_heights()[0] == 0,
            self.snapshots().contains_key(0),
            forall|h: Height| #[trigger]
                self.snapshots().contains_key(h) <==> self.snapshot_heights().contains(h),
    {
        self.lemma_heights();
    }

    /// The height of the latest state in memory.
    pub fn latest_state_height(&self) -> (h: Height)
        ensures
            h == self.spec_latest_state_height(),
    {
        self.latest_state_height
    }

    /// The height of the latest certified state.
    pub fn latest_certified_height(&self) -> (h: Height)
        ensures
            h == self.spec_latest_certified_height(),
    {
        self.latest_certified_height
    }
}

/// Raises the cached height to `h` where `h` is above it, and returns the
/// cached height after that.
pub fn update_latest_height(cached: &mut Height, h: Height) -> (latest: Height)
    ensures
        latest == (if *old(cached) >= h {
            *old(cached)
        } else {
            h
        }),
        *final(cached) == latest,
{
    if *cached < h {
        *cached = h;
    }
    *cached
}

} // verus!
