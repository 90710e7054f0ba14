//! How the store is put together from the checkpoints found on disk.

use crate::checkpoint::CheckpointRef;
use crate::height_map::{strictly_increasing, Height, HeightMap};
use crate::metadata::{CertificationMetadata, StateMetadata};
use crate::state_manager::{
    is_latest_certified, LoadedCheckpoint, ManifestJob, SharedState, StateManagerImpl, Tip,
};
use std::sync::Arc;
use vstd::prelude::*;

verus! {

/// The heights of a sequence of loaded checkpoints, in their order.
pub open spec fn loaded_heights<S, T>(checkpoints: Seq<LoadedCheckpoint<S, T>>) -> Seq<Height> {
    Seq::new(checkpoints.len(), |i: int| checkpoints[i].height)
}

/// Whether the metadata read from disk has both the manifest and the root
/// hash of the checkpoint at `h`.
pub open spec fn has_manifest(metadatas: Map<Height, StateMetadata>, h: Height) -> bool {
    metadatas.contains_key(h) && metadatas[h].root_hash is Some && metadatas[h].manifest is Some
}

/// Those of `heights` whose manifest has to be computed, in their order.
pub open spec fn heights_without_manifest(
    heights: Seq<Height>,
    metadatas: Map<Height, StateMetadata>,
) -> Seq<Height>
    decreases heights.len(),
{
    if heights.len() == 0 {
        Seq::empty()
    } else {
        let before = heights_without_manifest(heights.drop_last(), metadatas);
        if has_manifest(metadatas, heights.last()) {
            before
        } else {
            before.push(heights.last())
        }
    }
}

/// Whether `jobs` asks for the manifests of `heights`, each from scratch.
pub open spec fn jobs_for(jobs: Seq<ManifestJob>, heights: Seq<Height>) -> bool {
    &&& jobs.len() == heights.len()
    &&& forall|j: int|
        0 <= j < jobs.len() ==> (#[trigger] jobs[j]).checkpoint_height == heights[j]
            && jobs[j].manifest_delta is None
}

/// Whether the three maps are what is kept for `checkpoints`, given the
/// metadata that was read from disk.
pub open spec fn populated_from<S, T>(
    metadatas: Map<Height, StateMetadata>,
    checkpoints: Seq<LoadedCheckpoint<S, T>>,
    certifications: Map<Height, CertificationMetadata<T>>,
    states_metadata: Map<Height, StateMetadata>,
    snapshots: Map<Height, Arc<S>>,
) -> bool {
    let heights = loaded_heights(checkpoints);
    &&& forall|h: Height| #[trigger] certifications.contains_key(h) <==> heights.contains(h)
    &&& forall|h: Height| #[trigger] states_metadata.contains_key(h) <==> heights.contains(h)
    &&& forall|h: Height| #[trigger] snapshots.contains_key(h) <==> heights.contains(h)
    &&& forall|i: int|
        0 <= i < checkpoints.len() ==> {
            let h = (#[trigger] checkpoints[i]).height;
            &&& *snapshots[h] == checkpoints[i].state
            &&& certifications[h].hash_tree matches Some(tree) && *tree == checkpoints[i].hash_tree
            &&& certifications[h].certified_state_hash == checkpoints[i].certified_state_hash
            &&& certifications[h].certification is None
            &&& states_metadata[h].checkpoint_ref matches Some(r) && r.spec_height() == h
                && !r.spec_marked_deleted()
            &&& states_metadata[h].state_sync_file_group is None
            &&& if has_manifest(metadatas, h) {
                &&& states_metadata[h].manifest == metadatas[h].manifest
                &&& states_metadata[h].root_hash == metadatas[h].root_hash
            } else {
                &&& states_metadata[h].manifest is None
                &&& states_metadata[h].root_hash is None
            }
        }
}

/// What is kept for the checkpoints found on disk.
pub struct PopulatedMetadata<S, T> {
    pub certifications_metadata: HeightMap<CertificationMetadata<T>>,
    pub states_metadata: HeightMap<StateMetadata>,
    /// The checkpoints whose manifest has to be computed, in increasing order
    /// of height.
    pub compute_manifest_requests: Vec<ManifestJob>,
    pub snapshots: HeightMap<Arc<S>>,
}

/// Of the checkpoints on disk, given in the order in which they were made,
/// drops from the end those that are newer than `starting_height`, but never
/// the last one that is left. Returns the dropped heights, newest first:
/// they are to be archived, so that the states from `starting_height` on are
/// computed again.
pub fn archive_checkpoints_above(checkpoint_heights: &mut Vec<Height>, starting_height: Height) -> (archived: Vec<Height>)
    ensures
        final(checkpoint_heights)@.len() + archived@.len() == old(checkpoint_heights)@.len(),
        final(checkpoint_heights)@ == old(checkpoint_heights)@.subrange(
            0,
            final(checkpoint_heights)@.len() as int,
        ),
        old(checkpoint_heights)@.len() > 0 ==> final(checkpoint_heights)@.len() > 0,
        forall|j: int|
            0 <= j < archived@.len() ==> #[trigger] archived@[j] == old(
                checkpoint_heights,
            )@[old(checkpoint_heights)@.len() - 1 - j] && archived@[j] > starting_height,
        final(checkpoint_heights)@.len() > 1 ==> final(checkpoint_heights)@.last()
            <= starting_height,
{
    let mut archived: Vec<Height> = Vec::new();
    while checkpoint_heights.len() > 1 && checkpoint_heights[checkpoint_heights.len() - 1]
        > starting_height
        invariant
            checkpoint_heights@.len() + archived@.len() == old(checkpoint_heights)@.len(),
            checkpoint_heights@ == old(checkpoint_heights)@.subrange(
                0,
                checkpoint_heights@.len() as int,
            ),
            old(checkpoint_heights)@.len() > 0 ==> checkpoint_heights@.len() > 0,
            forall|j: int|
                0 <= j < archived@.len() ==> #[trigger] archived@[j] == old(
                    checkpoint_heights,
                )@[old(checkpoint_heights)@.len() - 1 - j] && archived@[j] > starting_height,
        decreases checkpoint_heights@.len(),
    {
        match checkpoint_heights.pop() {
            Some(h) => {
                archived.push(h);
                assert(checkpoint_heights@ =~= old(checkpoint_heights)@.subrange(
                    0,
                    checkpoint_heights@.len() as int,
                ));
            },
            None => {},
        }
    }
    archived
}

/// Sets up the certification metadata, the checkpoint metadata and the
/// snapshots for the checkpoints found on disk. `metadatas` is what was read
/// from the metadata file; where it lacks the manifest or the root hash of a
/// checkpoint, both are computed again.
pub fn populate_metadata<S, T>(
    metadatas: HeightMap<StateMetadata>,
    states: Vec<LoadedCheckpoint<S, T>>,
) -> (populated: PopulatedMetadata<S, T>)
    requires
        metadatas.wf(),
        strictly_increasing(loaded_heights(states@)),
    ensures
        populated.certifications_metadata.wf(),
        populated.states_metadata.wf(),
        populated.snapshots.wf(),
        populated_from(
            metadatas@,
            states@,
            populated.certifications_metadata@,
            populated.states_metadata@,
            populated.snapshots@,
        ),
        jobs_for(
            populated.compute_manifest_requests@,
            heights_without_manifest(loaded_heights(states@), metadatas@),
        ),
{
    let ghost heights = loaded_heights(states@);
    let ghost loaded = metadatas@;
    let mut metadatas = metadatas;
    let mut compute_manifest_requests: Vec<ManifestJob> = Vec::new();
    let mut certifications_metadata: HeightMap<CertificationMetadata<T>> = HeightMap::new();
    let mut states_metadata: HeightMap<StateMetadata> = HeightMap::new();
    let mut snapshots: HeightMap<Arc<S>> = HeightMap::new();

    assert(heights.subrange(0, 0) =~= Seq::<Height>::empty());
    for checkpoint in it: states
        invariant
            it.seq() == states@,
            heights == loaded_heights(states@),
            strictly_increasing(heights),
            metadatas.wf(),
            certifications_metadata.wf(),
            states_metadata.wf(),
            snapshots.wf(),
            forall|h: Height| #[trigger]
                metadatas@.contains_key(h) <==> loaded.contains_key(h) && !heights.subrange(
                    0,
                    it.index(),
                ).contains(h),
            forall|h: Height| #[trigger] metadatas@.contains_key(h) ==> metadatas@[h] == loaded[h],
            populated_from(
                loaded,
                states@.subrange(0, it.index()),
                certifications_metadata@,
                states_metadata@,
                snapshots@,
            ),
            jobs_for(
                compute_manifest_requests@,
                heights_without_manifest(heights.subrange(0, it.index()), loaded),
            ),
    {
        let ghost idx = it.index();
        let ghost done = states@.subrange(0, idx);
        let ghost next = states@.subrange(0, idx + 1);
        let LoadedCheckpoint { height, state, hash_tree, certified_state_hash } = checkpoint;
        proof {
            assert(heights[idx] == height);
            assert forall|j: int| 0 <= j < idx implies heights[j] != height by {
                assert(heights[j] < heights[idx]);
            }
            let seen = heights.subrange(0, idx);
            assert(!seen.contains(height)) by {
                if seen.contains(height) {
                    let j = choose|j: int| 0 <= j < seen.len() && seen[j] == height;
                    assert(heights[j] == height);
                }
            }
            assert(!loaded_heights(done).contains(height)) by {
                if loaded_heights(done).contains(height) {
                    let j = choose|j: int|
                        0 <= j < loaded_heights(done).len() && loaded_heights(done)[j] == height;
                    assert(done[j] == states@[j]);
                    assert(heights[j] == height);
                }
            }
        }
        certifications_metadata.insert(
            height,
            CertificationMetadata {
                hash_tree: Some(Arc::new(hash_tree)),
                certified_state_hash,
                certification: None,
            },
        );
        let checkpoint_ref = CheckpointRef::new(height);
        let stored = match metadatas.remove(height) {
            Some(StateMetadata { root_hash: Some(root_hash), manifest: Some(manifest), .. }) => {
                Some((root_hash, manifest))
            },
            _ => None,
        };
        // Root hash and manifest should either be both there or both missing,
        // but nothing is assumed of the file: both are computed again if
        // either is missing.
        match stored {
            Some((root_hash, manifest)) => {
                states_metadata.insert(
                    height,
                    StateMetadata {
                        checkpoint_ref: Some(checkpoint_ref),
                        manifest: Some(manifest),
                        root_hash: Some(root_hash),
                        state_sync_file_group: None,
                    },
                );
            },
            None => {
                compute_manifest_requests.push(
                    ManifestJob { checkpoint_height: height, manifest_delta: None },
                );
                states_metadata.insert(
                    height,
                    StateMetadata {
                        checkpoint_ref: Some(checkpoint_ref),
                        manifest: None,
                        root_hash: None,
                        state_sync_file_group: None,
                    },
                );
            },
        }
        snapshots.insert(height, Arc::new(state));
        proof {
            let seen = heights.subrange(0, idx);
            let seen_now = heights.subrange(0, idx + 1);
            assert forall|h: Height| #[trigger]
                seen_now.contains(h) <==> (h == height || seen.contains(h)) by {
                if seen.contains(h) {
                    let j = choose|j: int| 0 <= j < seen.len() && seen[j] == h;
                    assert(seen_now[j] == h);
                }
                if h == height {
                    assert(seen_now[idx] == h);
                }
                if seen_now.contains(h) && h != height {
                    let j = choose|j: int| 0 <= j < seen_now.len() && seen_now[j] == h;
                    assert(seen[j] == h);
                }
            }
            assert(heights.subrange(0, idx + 1).drop_last() =~= heights.subrange(0, idx));
            assert(heights.subrange(0, idx + 1).last() == height);
            assert(loaded_heights(next) =~= loaded_heights(done).push(height));
            assert forall|h: Height| #[trigger]
                loaded_heights(next).contains(h) <==> (h == height || loaded_heights(
                    done,
                ).contains(h)) by {
                if loaded_heights(done).contains(h) {
                    let j = choose|j: int|
                        0 <= j < loaded_heights(done).len() && loaded_heights(done)[j] == h;
                    assert(loaded_heights(next)[j] == h);
                }
                if h == height {
                    assert(loaded_heights(next)[idx] == h);
                }
            }
            assert forall|i: int| 0 <= i < next.len() implies {
                let h = (#[trigger] next[i]).height;
                &&& *snapshots@[h] == next[i].state
                &&& certifications_metadata@[h].hash_tree matches Some(tree) && *tree
                    == next[i].hash_tree
                &&& certifications_metadata@[h].certified_state_hash
                    == next[i].certified_state_hash
                &&& certifications_metadata@[h].certification is None
                &&& states_metadata@[h].checkpoint_ref matches Some(r) && r.spec_height() == h
                    && !r.spec_marked_deleted()
                &&& states_metadata@[h].state_sync_file_group is None
                &&& if has_manifest(loaded, h) {
                    &&& states_metadata@[h].manifest == loaded[h].manifest
                    &&& states_metadata@[h].root_hash == loaded[h].root_hash
                } else {
                    &&& states_metadata@[h].manifest is None
                    &&& states_metadata@[h].root_hash is None
                }
            } by {
                if i < idx {
                    assert(next[i] == done[i]);
                    assert(loaded_heights(done)[i] == done[i].height);
                    assert(done[i].height != height);
                } else {
                    assert(next[i] == states@[idx]);
                }
            }
        }
    }
    proof {
        assert(states@.subrange(0, states@.len() as int) =~= states@);
        assert(heights.subrange(0, heights.len() as int) =~= heights);
    }
    PopulatedMetadata { certifications_metadata, states_metadata, compute_manifest_requests, snapshots }
}

impl<S, T> StateManagerImpl<S, T> {
    /// The store for the checkpoints found on disk, given in increasing
    /// order of height. `metadatas` is what was read from the metadata file,
    /// `initial_state` the state at height 0, and `tip` the working copy of
    /// the latest of these states. Returns the store and the checkpoints whose
    /// manifest has to be computed.
    pub fn new(
        checkpoints: Vec<LoadedCheckpoint<S, T>>,
        metadatas: HeightMap<StateMetadata>,
        initial_state: S,
        tip: S,
    ) -> (r: (Self, Vec<ManifestJob>))
        requires
            metadatas.wf(),
            strictly_increasing(loaded_heights(checkpoints@)),
            checkpoints@.len() > 0 ==> checkpoints@[0].height > 0,
        ensures
            r.0.wf(),
            r.0.snapshot_heights() == seq![0u64] + loaded_heights(checkpoints@),
            *r.0.snapshots()[0] == initial_state,
            populated_from(
                metadatas@,
                checkpoints@,
                r.0.certifications_metadata(),
                r.0.states_metadata(),
                r.0.snapshots().remove(0),
            ),
            jobs_for(r.1@, heights_without_manifest(loaded_heights(checkpoints@), metadatas@)),
            r.0.fetch_target() is None,
            r.0.last_advertised() == 0,
            r.0.spec_latest_certified_height() == 0,
            r.0.spec_latest_state_height() == (if checkpoints@.len() > 0 {
                checkpoints@.last().height
            } else {
                0
            }),
            r.0.tip() == Tip::Available(r.0.spec_latest_state_height(), tip),
    {
        let ghost heights = loaded_heights(checkpoints@);
        proof {
            assert forall|i: int| 0 <= i < heights.len() implies heights[i] > 0 by {
                if i > 0 {
                    assert(heights[0] < heights[i]);
                }
                assert(heights[0] == checkpoints@[0].height);
            }
        }
        let latest: Height = if checkpoints.len() > 0 {
            checkpoints[checkpoints.len() - 1].height
        } else {
            0
        };
        let PopulatedMetadata {
            certifications_metadata,
            states_metadata,
            compute_manifest_requests,
            snapshots,
        } = populate_metadata(metadatas, checkpoints);
        let ghost populated_snapshots = snapshots@;
        let mut snapshots = snapshots;
        proof {
            if populated_snapshots.contains_key(0) {
                let i = choose|i: int| 0 <= i < heights.len() && heights[i] == 0;
                assert(heights[i] > 0);
            }
        }
        snapshots.insert(0, Arc::new(initial_state));
        let manager = StateManagerImpl {
            states: SharedState {
                certifications_metadata,
                states_metadata,
                snapshots,
                last_advertised: 0,
                fetch_state: None,
                tip: Tip::Available(latest, tip),
            },
            latest_state_height: latest,
            latest_certified_height: 0,
        };
        proof {
            let all = seq![0u64] + heights;
            assert(manager.snapshots().remove(0) =~= populated_snapshots);
            manager.lemma_heights();
            assert(strictly_increasing(all)) by {
                assert forall|x: int, y: int| 0 <= x < y < all.len() implies all[x] < all[y] by {
                    if x == 0 {
                        assert(all[y] == heights[y - 1]);
                    } else {
                        assert(heights[x - 1] < heights[y - 1]);
                    }
                }
            }
            assert forall|h: Height| manager.snapshot_heights().contains(h) <==> all.contains(
                h,
            ) by {
                if all.contains(h) {
                    let i = choose|i: int| 0 <= i < all.len() && all[i] == h;
                    if i > 0 {
                        assert(heights[i - 1] == h);
                        assert(heights.contains(h));
                    }
                    assert(manager.snapshots().contains_key(h));
                }
                if manager.snapshot_heights().contains(h) {
                    assert(manager.snapshots().contains_key(h));
                    if h != 0 {
                        assert(populated_snapshots.contains_key(h));
                        let i = choose|i: int| 0 <= i < heights.len() && heights[i] == h;
                        assert(all[i + 1] == h);
                    } else {
                        assert(all[0] == h);
                    }
                }
            }
            crate::height_map::lemma_strictly_increasing_unique(manager.snapshot_heights(), all);
            assert(all.last() == latest);
            assert forall|h: Height| #[trigger]
                manager.snapshots().contains_key(h) implies h <= latest by {
                let i = choose|i: int| 0 <= i < all.len() && all[i] == h;
                if i < all.len() - 1 {
                    assert(all[i] < all.last());
                }
            }
            assert forall|h: Height| #[trigger]
                manager.states_metadata().contains_key(h) implies {
                &&& manager.snapshots().contains_key(h)
                &&& manager.states_metadata()[h].manifest_and_hash_agree()
                &&& manager.states_metadata()[h].checkpoint_ref matches Some(r) && r.spec_height()
                    == h && !r.spec_marked_deleted()
            } by {
                let i = choose|i: int| 0 <= i < heights.len() && heights[i] == h;
                assert(checkpoints@[i].height == h);
            }
            assert forall|h: Height| #[trigger]
                manager.certifications_metadata().contains_key(h) implies !(
            manager.certifications_metadata()[h].certification is Some) by {
                let i = choose|i: int| 0 <= i < heights.len() && heights[i] == h;
                assert(checkpoints@[i].height == h);
            }
            assert forall|h: Height| #[trigger]
                manager.certifications_metadata().contains_key(h)
                    <==> manager.snapshots().contains_key(h) && h > 0 by {
                if heights.contains(h) {
                    let i = choose|i: int| 0 <= i < heights.len() && heights[i] == h;
                    assert(heights[i] > 0);
                }
            }
        }
        (manager, compute_manifest_requests)
    }
}

} // verus!
