//! Which states leave the store when the states below a height are no longer
//! needed.

use crate::height_map::{retained, strictly_increasing, Height, HeightMap, HeightSet};
use crate::metadata::{CertificationMetadata, StateMetadata};
use crate::state_manager::{is_latest_certified, StateManagerImpl, Tip};
use std::sync::Arc;
use vstd::prelude::*;

verus! {

/// The number of extra checkpoints to keep for state sync.
pub const EXTRA_CHECKPOINTS_TO_KEEP: usize = 1;

/// The heights that eviction spares whatever their age: height 0 and the
/// checkpoints from `last_checkpoint_to_keep` on, as far as the store has
/// metadata for them, and the latest certified height.
pub open spec fn heights_to_keep(
    checkpoints: Set<Height>,
    last_checkpoint_to_keep: Height,
    latest_certified: Height,
) -> Set<Height> {
    Set::new(
        |h: Height|
            (checkpoints.contains(h) && (h == 0 || h >= last_checkpoint_to_keep)) || h
                == latest_certified,
    )
}

/// The states below this height may go: the requested height, but never
/// above the latest state.
pub open spec fn last_height_to_keep(latest_state_height: Height, requested_height: Height) -> Height {
    if latest_state_height <= requested_height {
        latest_state_height
    } else {
        requested_height
    }
}

/// The latest of the checkpoints `heights`, given in increasing order, that
/// is not above `h`.
pub open spec fn latest_at_or_below(heights: Seq<Height>, h: Height) -> Option<Height>
    decreases heights.len(),
{
    if heights.len() == 0 {
        None
    } else if heights.last() <= h {
        Some(heights.last())
    } else {
        latest_at_or_below(heights.drop_last(), h)
    }
}

/// The oldest of the `EXTRA_CHECKPOINTS_TO_KEEP + 1` latest checkpoints of
/// `heights`, given in increasing order.
pub open spec fn oldest_of_latest(heights: Seq<Height>) -> Option<Height> {
    if heights.len() == 0 {
        None
    } else if heights.len() <= EXTRA_CHECKPOINTS_TO_KEEP {
        Some(heights[0])
    } else {
        Some(heights[heights.len() - 1 - EXTRA_CHECKPOINTS_TO_KEEP])
    }
}

/// The checkpoints from this height on stay: the latest checkpoint at or
/// below the requested height, from which the store starts again after a
/// restart, and the `EXTRA_CHECKPOINTS_TO_KEEP + 1` latest checkpoints. It is
/// never above `last_height_to_keep`. `checkpoints` are the heights of the
/// checkpoints on disk in increasing order.
pub open spec fn oldest_checkpoint_to_keep(
    checkpoints: Seq<Height>,
    requested_height: Height,
    last_height_to_keep: Height,
) -> Height {
    let restart = match latest_at_or_below(checkpoints, requested_height) {
        Some(h) => h,
        None => requested_height,
    };
    let extra = match oldest_of_latest(checkpoints) {
        Some(h) => h,
        None => last_height_to_keep,
    };
    let bound = if extra <= last_height_to_keep {
        extra
    } else {
        last_height_to_keep
    };
    if bound <= restart {
        bound
    } else {
        restart
    }
}

/// What left the store. It is handed back so that the caller can free it
/// off the hot path.
pub struct RemovedStates<S, T> {
    /// The snapshots that were evicted.
    pub snapshots: HeightMap<Arc<S>>,
    /// The certification metadata that was evicted.
    pub certifications_metadata: HeightMap<CertificationMetadata<T>>,
    /// The metadata of the checkpoints that were evicted. Their tokens are
    /// marked deleted.
    pub states_metadata: HeightMap<StateMetadata>,
    /// Whether a checkpoint left the store, so that the metadata on disk has
    /// to be written again.
    pub persist_metadata: bool,
    /// The lowest height that may still be resident apart from height 0.
    pub min_resident_height: Height,
}

/// The height of the latest certified state among `certifications`, or 0
/// where none is certified.
pub fn latest_certified<T>(certifications: &HeightMap<CertificationMetadata<T>>) -> (latest: Height)
    requires
        certifications.wf(),
    ensures
        is_latest_certified(certifications@, latest),
{
    proof {
        certifications.lemma_keys();
    }
    let mut i: usize = certifications.len();
    while i > 0
        invariant
            i <= certifications.keys().len(),
            certifications.wf(),
            forall|j: int|
                i <= j < certifications.keys().len() ==> (
                #[trigger] certifications.values()[j]).certification is None,
        decreases i,
    {
        if certifications.value_at(i - 1).certification.is_some() {
            let h = certifications.key_at(i - 1);
            proof {
                certifications.lemma_keys();
                assert forall|k: Height| #[trigger]
                    certifications@.contains_key(k)
                        && certifications@[k].certification is Some implies k <= h by {
                    let j = choose|j: int|
                        0 <= j < certifications.keys().len() && certifications.keys()[j] == k;
                    assert(certifications@[certifications.keys()[j]]
                        == certifications.values()[j]);
                    if j > i - 1 {
                        assert(certifications.values()[j].certification is None);
                    } else if j < i - 1 {
                        assert(certifications.keys()[j] < certifications.keys()[i - 1]);
                    }
                }
                assert(certifications@[certifications.keys()[i - 1]]
                    == certifications.values()[i - 1]);
            }
            return h;
        }
        i = i - 1;
    }
    proof {
        certifications.lemma_keys();
        assert forall|k: Height| #[trigger]
            certifications@.contains_key(k) implies !(certifications@[k].certification
            is Some) by {
            let j = choose|j: int|
                0 <= j < certifications.keys().len() && certifications.keys()[j] == k;
            assert(certifications@[certifications.keys()[j]] == certifications.values()[j]);
            assert(certifications.values()[j].certification is None);
        }
    }
    0
}

/// Only one height can be the latest certified one.
pub proof fn lemma_latest_certified_unique<T>(
    certifications: Map<Height, CertificationMetadata<T>>,
    a: Height,
    b: Height,
)
    requires
        is_latest_certified(certifications, a),
        is_latest_certified(certifications, b),
    ensures
        a == b,
{
}

impl<S, T> StateManagerImpl<S, T> {
    /// Whether `post` is this store after the states below
    /// `last_height_to_keep` and the checkpoints below
    /// `last_checkpoint_to_keep` were evicted.
    pub open spec fn evicted_to(
        &self,
        post: &Self,
        last_height_to_keep: Height,
        last_checkpoint_to_keep: Height,
    ) -> bool {
        let keep = heights_to_keep(
            self.states_metadata().dom(),
            last_checkpoint_to_keep,
            self.spec_latest_certified_height(),
        );
        &&& post.snapshots() == self.snapshots().restrict(
            Set::new(|h: Height| h == 0 || retained(h, last_height_to_keep, keep)),
        )
        &&& post.certifications_metadata() == self.certifications_metadata().restrict(
            Set::new(|h: Height| retained(h, last_height_to_keep, keep)),
        )
        &&& post.states_metadata() == self.states_metadata().restrict(
            Set::new(|h: Height| retained(h, last_height_to_keep, keep)),
        )
        &&& post.spec_latest_state_height() == self.spec_latest_state_height()
        &&& post.spec_latest_certified_height() == self.spec_latest_certified_height()
        &&& post.fetch_target() == self.fetch_target()
        &&& post.tip() == self.tip()
        &&& post.last_advertised() == self.last_advertised()
    }

    /// Whether `removed` holds what leaves this store when the states below
    /// `last_height_to_keep` and the checkpoints below
    /// `last_checkpoint_to_keep` are evicted.
    pub open spec fn evicts(
        &self,
        removed: &RemovedStates<S, T>,
        last_height_to_keep: Height,
        last_checkpoint_to_keep: Height,
    ) -> bool {
        let keep = heights_to_keep(
            self.states_metadata().dom(),
            last_checkpoint_to_keep,
            self.spec_latest_certified_height(),
        );
        &&& removed.snapshots@ == self.snapshots().restrict(
            Set::new(|h: Height| !(h == 0 || retained(h, last_height_to_keep, keep))),
        )
        &&& removed.certifications_metadata@ == self.certifications_metadata().restrict(
            Set::new(|h: Height| !retained(h, last_height_to_keep, keep)),
        )
        &&& forall|h: Height| #[trigger]
            removed.states_metadata@.contains_key(h) <==> self.states_metadata().contains_key(h)
                && !retained(h, last_height_to_keep, keep)
        &&& forall|h: Height| #[trigger]
            removed.states_metadata@.contains_key(h) ==> removed.states_metadata@[h]
                == self.states_metadata()[h].with_checkpoint_marked()
        &&& removed.persist_metadata == exists|h: Height| #[trigger]
            removed.states_metadata@.contains_key(h)
        &&& keep.contains(removed.min_resident_height) || removed.min_resident_height
            == last_height_to_keep
        &&& removed.min_resident_height <= last_height_to_keep
        &&& forall|h: Height| keep.contains(h) ==> removed.min_resident_height <= h
    }

    /// Remove any in-memory state at height h with 0 < h < last_height_to_keep,
    /// and any checkpoint at height h < last_checkpoint_to_keep, except the
    /// latest certified state. The tokens of the checkpoints that leave are
    /// marked deleted.
    pub(crate) fn remove_states_below_impl(
        &mut self,
        last_height_to_keep: Height,
        last_checkpoint_to_keep: Height,
    ) -> (removed: RemovedStates<S, T>)
        requires
            old(self).wf(),
            last_height_to_keep <= old(self).spec_latest_state_height(),
        ensures
            final(self).wf(),
            old(self).evicted_to(final(self), last_height_to_keep, last_checkpoint_to_keep),
            old(self).evicts(&removed, last_height_to_keep, last_checkpoint_to_keep),
            removed.snapshots.wf(),
            removed.certifications_metadata.wf(),
            removed.states_metadata.wf(),
    {
        let ghost keep_spec = heights_to_keep(
            self.states_metadata().dom(),
            last_checkpoint_to_keep,
            self.spec_latest_certified_height(),
        );
        let ghost pre = *self;
        proof {
            self.lemma_heights();
            self.states.states_metadata.lemma_keys();
            self.states.snapshots.lemma_keys();
        }
        // We keep height 0, the checkpoints from the oldest one to keep, and
        // the latest certified state.
        let mut heights_to_keep = HeightSet::new();
        let n = self.states.states_metadata.len();
        let mut i: usize = 0;
        while i < n
            invariant
                i <= n,
                n == self.states.states_metadata.keys().len(),
                self.states.states_metadata.wf(),
                heights_to_keep.wf(),
                forall|h: Height| #[trigger]
                    heights_to_keep@.contains(h) <==> exists|j: int|
                        0 <= j < i && self.states.states_metadata.keys()[j] == h && (h == 0 || h
                            >= last_checkpoint_to_keep),
            decreases n - i,
        {
            let h = self.states.states_metadata.key_at(i);
            if h == 0 || h >= last_checkpoint_to_keep {
                heights_to_keep.insert(h);
            }
            i = i + 1;
        }
        heights_to_keep.insert(self.latest_certified_height);
        proof {
            assert(heights_to_keep@ =~= keep_spec) by {
                assert forall|h: Height| heights_to_keep@.contains(h) == keep_spec.contains(
                    h,
                ) by {
                    if self.states_metadata().contains_key(h) {
                        let j = choose|j: int|
                            0 <= j < self.states.states_metadata.keys().len()
                                && self.states.states_metadata.keys()[j] == h;
                        assert(self.states.states_metadata.keys()[j] == h);
                    }
                }
            }
            heights_to_keep.lemma_elements();
            assert(heights_to_keep@.contains(self.spec_latest_certified_height()));
            let at = choose|j: int|
                0 <= j < heights_to_keep.elements().len() && heights_to_keep.elements()[j]
                    == self.spec_latest_certified_height();
            assert(heights_to_keep.elements().len() > 0);
        }
        let lowest_to_keep = heights_to_keep.element_at(0);
        proof {
            assert(heights_to_keep.elements()[0] == lowest_to_keep);
            assert(heights_to_keep.elements().contains(lowest_to_keep));
            assert forall|h: Height| keep_spec.contains(h) implies lowest_to_keep <= h by {
                let j = choose|j: int|
                    0 <= j < heights_to_keep.elements().len() && heights_to_keep.elements()[j]
                        == h;
                if j > 0 {
                    assert(heights_to_keep.elements()[0] < heights_to_keep.elements()[j]);
                }
            }
        }
        let min_resident_height = if lowest_to_keep <= last_height_to_keep {
            lowest_to_keep
        } else {
            last_height_to_keep
        };

        let removed_certifications = self.states.certifications_metadata.split_below(
            last_height_to_keep,
            &heights_to_keep,
        );
        let mut removed_metadata = self.states.states_metadata.split_below(
            last_height_to_keep,
            &heights_to_keep,
        );
        // The initial state stays in memory whatever else is kept.
        heights_to_keep.insert(0);
        let removed_snapshots = self.states.snapshots.split_below(
            last_height_to_keep,
            &heights_to_keep,
        );
        proof {
            assert(Set::new(|h: Height| retained(h, last_height_to_keep, heights_to_keep@))
                =~= Set::new(|h: Height| h == 0 || retained(h, last_height_to_keep, keep_spec)));
            assert(Set::new(|h: Height| !retained(h, last_height_to_keep, heights_to_keep@))
                =~= Set::new(
                |h: Height| !(h == 0 || retained(h, last_height_to_keep, keep_spec)),
            ));
        }

        // Every checkpoint that leaves is marked deleted.
        let ghost unmarked = removed_metadata@;
        let ghost removed_keys = removed_metadata.keys();
        let m = removed_metadata.len();
        proof {
            removed_metadata.lemma_keys();
        }
        let mut k: usize = 0;
        while k < m
            invariant
                k <= m,
                m == removed_keys.len(),
                removed_metadata.wf(),
                removed_metadata.keys() == removed_keys,
                strictly_increasing(removed_keys),
                forall|h: Height| #[trigger]
                    removed_metadata@.contains_key(h) <==> unmarked.contains_key(h),
                forall|h: Height| #[trigger] unmarked.contains_key(h) <==> removed_keys.contains(h),
                forall|j: int|
                    0 <= j < k ==> removed_metadata@[#[trigger] removed_keys[j]]
                        == unmarked[removed_keys[j]].with_checkpoint_marked(),
                forall|j: int|
                    k <= j < m ==> removed_metadata@[#[trigger] removed_keys[j]]
                        == unmarked[removed_keys[j]],
            decreases m - k,
        {
            let ghost before = removed_metadata@;
            proof {
                removed_metadata.lemma_keys();
                assert(removed_metadata@[removed_keys[k as int]] == removed_metadata.values()[k as int]);
            }
            let metadata = removed_metadata.value_at_mut(k);
            let ghost unmarked_metadata = *metadata;
            match &mut metadata.checkpoint_ref {
                Some(checkpoint_ref) => {
                    checkpoint_ref.mark_deleted();
                },
                None => {},
            }
            assert(*metadata == unmarked_metadata.with_checkpoint_marked());
            proof {
                removed_metadata.lemma_keys();
                assert(removed_metadata@ =~= before.insert(
                    removed_keys[k as int],
                    removed_metadata@[removed_keys[k as int]],
                ));
                assert forall|j: int| 0 <= j < m && j != k implies #[trigger] removed_keys[j]
                    != removed_keys[k as int] by {
                    if j < k {
                        assert(removed_keys[j] < removed_keys[k as int]);
                    } else {
                        assert(removed_keys[k as int] < removed_keys[j]);
                    }
                }
            }
            k = k + 1;
        }

        let latest_height = match self.states.snapshots.last_key() {
            Some(h) => h,
            None => Self::INITIAL_STATE_HEIGHT,
        };
        self.latest_state_height = latest_height;
        let latest_certified_height = latest_certified(&self.states.certifications_metadata);
        self.latest_certified_height = latest_certified_height;
        let persist_metadata = removed_metadata.len() > 0;

        proof {
            self.states.snapshots.lemma_keys();
            removed_metadata.lemma_keys();
            let lsh = pre.spec_latest_state_height();
            // The latest state stays, and so does the initial one.
            assert(pre.snapshot_heights().contains(lsh));
            assert(pre.snapshots().contains_key(lsh));
            assert(self.snapshots().contains_key(lsh));
            assert(self.snapshots().contains_key(0));
            let keys = self.snapshot_heights();
            let at0 = choose|j: int| 0 <= j < keys.len() && keys[j] == 0;
            if at0 > 0 {
                assert(keys[0] < keys[at0]);
            }
            let at_latest = choose|j: int| 0 <= j < keys.len() && keys[j] == lsh;
            if at_latest < keys.len() - 1 {
                assert(keys[at_latest] < keys.last());
                assert(self.snapshots().contains_key(keys.last()));
                assert(pre.snapshots().contains_key(keys.last()));
            }
            assert(latest_height == lsh);
            // The latest certified state stays.
            let lch = pre.spec_latest_certified_height();
            assert(keep_spec.contains(lch));
            assert(is_latest_certified(self.certifications_metadata(), lch));
            lemma_latest_certified_unique(
                self.certifications_metadata(),
                lch,
                latest_certified_height,
            );
            assert forall|h: Height| #[trigger]
                removed_metadata@.contains_key(h) implies removed_metadata@[h]
                == pre.states_metadata()[h].with_checkpoint_marked() by {
                let j = choose|j: int| 0 <= j < removed_keys.len() && removed_keys[j] == h;
                assert(removed_metadata@[removed_keys[j]]
                    == unmarked[removed_keys[j]].with_checkpoint_marked());
            }
            if removed_metadata.keys().len() > 0 {
                assert(removed_metadata@.contains_key(removed_metadata.keys()[0]));
            }
        }
        RemovedStates {
            snapshots: removed_snapshots,
            certifications_metadata: removed_certifications,
            states_metadata: removed_metadata,
            persist_metadata,
            min_resident_height,
        }
    }
}

/// Computes `oldest_checkpoint_to_keep` for the checkpoints on disk.
pub fn find_oldest_checkpoint_to_keep(
    checkpoint_heights: &HeightSet,
    requested_height: Height,
    last_height_to_keep: Height,
) -> (oldest: Height)
    requires
        checkpoint_heights.wf(),
    ensures
        oldest == oldest_checkpoint_to_keep(
            checkpoint_heights.elements(),
            requested_height,
            last_height_to_keep,
        ),
{
    let ghost heights = checkpoint_heights.elements();
    let n = checkpoint_heights.len();
    // The latest checkpoint below or at the requested height will also be kept
    // because the state manager needs to load from it when restarting.
    let mut i: usize = n;
    assert(heights.subrange(0, n as int) =~= heights);
    while i > 0 && checkpoint_heights.element_at(i - 1) > requested_height
        invariant
            i <= n,
            n == heights.len(),
            heights == checkpoint_heights.elements(),
            latest_at_or_below(heights, requested_height) == latest_at_or_below(
                heights.subrange(0, i as int),
                requested_height,
            ),
        decreases i,
    {
        assert(heights.subrange(0, i as int).drop_last() =~= heights.subrange(0, i - 1));
        i = i - 1;
    }
    let restart = if i > 0 {
        checkpoint_heights.element_at(i - 1)
    } else {
        requested_height
    };
    // Keep extra checkpoints for state sync.
    let extra = if n == 0 {
        last_height_to_keep
    } else if n <= EXTRA_CHECKPOINTS_TO_KEEP {
        checkpoint_heights.element_at(0)
    } else {
        checkpoint_heights.element_at(n - 1 - EXTRA_CHECKPOINTS_TO_KEEP)
    };
    let bound = if extra <= last_height_to_keep {
        extra
    } else {
        last_height_to_keep
    };
    if bound <= restart {
        bound
    } else {
        restart
    }
}

impl<S, T> StateManagerImpl<S, T> {
    /// Tells the store that the states strictly below `requested_height` are
    /// no longer needed. `checkpoint_heights` are the heights of the
    /// checkpoints on disk.
    ///
    /// All states with heights greater than 0 and smaller than the lower of
    /// the latest state height and `requested_height` are removed, except the
    /// checkpoints from the oldest checkpoint to keep on (see
    /// `oldest_checkpoint_to_keep`) and the latest certified state.
    pub fn remove_states_below(
        &mut self,
        requested_height: Height,
        checkpoint_heights: &HeightSet,
    ) -> (removed: RemovedStates<S, T>)
        requires
            old(self).wf(),
            checkpoint_heights.wf(),
        ensures
            final(self).wf(),
            old(self).evicted_to(
                final(self),
                last_height_to_keep(old(self).spec_latest_state_height(), requested_height),
                oldest_checkpoint_to_keep(
                    checkpoint_heights.elements(),
                    requested_height,
                    last_height_to_keep(old(self).spec_latest_state_height(), requested_height),
                ),
            ),
            old(self).evicts(
                &removed,
                last_height_to_keep(old(self).spec_latest_state_height(), requested_height),
                oldest_checkpoint_to_keep(
                    checkpoint_heights.elements(),
                    requested_height,
                    last_height_to_keep(old(self).spec_latest_state_height(), requested_height),
                ),
            ),
            removed.snapshots.wf(),
            removed.certifications_metadata.wf(),
            removed.states_metadata.wf(),
    {
        // The latest state must be kept.
        let latest_state_height = self.latest_state_height();
        let last_height_to_keep = if latest_state_height <= requested_height {
            latest_state_height
        } else {
            requested_height
        };
        let oldest_checkpoint_to_keep = find_oldest_checkpoint_to_keep(
            checkpoint_heights,
            requested_height,
            last_height_to_keep,
        );
        self.remove_states_below_impl(last_height_to_keep, oldest_checkpoint_to_keep)
    }

    /// Variant of `remove_states_below` that removes only states that are
    /// not checkpoints.
    ///
    /// The following states are NOT removed:
    /// * Any state with height >= requested_height
    /// * Checkpoint heights
    /// * The latest state
    /// * The latest certified state
    /// * State 0
    pub fn remove_inmemory_states_below(&mut self, requested_height: Height) -> (removed:
        RemovedStates<S, T>)
        requires
            old(self).wf(),
        ensures
            final(self).wf(),
            old(self).evicted_to(
                final(self),
                last_height_to_keep(old(self).spec_latest_state_height(), requested_height),
                0,
            ),
            old(self).evicts(
                &removed,
                last_height_to_keep(old(self).spec_latest_state_height(), requested_height),
                0,
            ),
            removed.states_metadata@ == Map::<Height, StateMetadata>::empty(),
            !removed.persist_metadata,
            removed.snapshots.wf(),
            removed.certifications_metadata.wf(),
            removed.states_metadata.wf(),
    {
        // The latest state must be kept.
        let latest_state_height = self.latest_state_height();
        let last_height_to_keep = if latest_state_height <= requested_height {
            latest_state_height
        } else {
            requested_height
        };
        let removed = self.remove_states_below_impl(
            last_height_to_keep,
            Self::INITIAL_STATE_HEIGHT,
        );
        assert(removed.states_metadata@ =~= Map::<Height, StateMetadata>::empty());
        removed
    }

    /// Evicting twice in a row with the same bounds changes nothing the
    /// second time: where `second` is `first` after an eviction and `third` is
    /// `second` after the same eviction, `third` holds what `second` holds.
    pub proof fn lemma_eviction_idempotent(
        first: &Self,
        second: &Self,
        third: &Self,
        last_height_to_keep: Height,
        last_checkpoint_to_keep: Height,
    )
        requires
            first.evicted_to(second, last_height_to_keep, last_checkpoint_to_keep),
            second.evicted_to(third, last_height_to_keep, last_checkpoint_to_keep),
        ensures
            third.snapshots() == second.snapshots(),
            third.certifications_metadata() == second.certifications_metadata(),
            third.states_metadata() == second.states_metadata(),
            third.spec_latest_state_height() == second.spec_latest_state_height(),
            third.spec_latest_certified_height() == second.spec_latest_certified_height(),
            third.fetch_target() == second.fetch_target(),
            third.tip() == second.tip(),
            third.last_advertised() == second.last_advertised(),
    {
        assert(third.snapshots() =~= second.snapshots());
        assert(third.certifications_metadata() =~= second.certifications_metadata());
        assert(third.states_metadata() =~= second.states_metadata());
    }
}

/// What `latest_at_or_below` finds among heights in increasing order: the
/// greatest of them that is not above `h`.
pub proof fn lemma_latest_at_or_below(heights: Seq<Height>, h: Height)
    requires
        strictly_increasing(heights),
    ensures
        match latest_at_or_below(heights, h) {
            Some(m) => heights.contains(m) && m <= h && forall|c: Height|
                heights.contains(c) && c <= h ==> c <= m,
            None => forall|c: Height| heights.contains(c) ==> c > h,
        },
    decreases heights.len(),
{
    if heights.len() > 0 {
        let rest = heights.drop_last();
        assert(strictly_increasing(rest)) by {
            assert forall|i: int, j: int| 0 <= i < j < rest.len() implies rest[i] < rest[j] by {
                assert(heights[i] < heights[j]);
            }
        }
        lemma_latest_at_or_below(rest, h);
        assert forall|c: Height| heights.contains(c) implies c == heights.last() || rest.contains(
            c,
        ) by {
            let i = choose|i: int| 0 <= i < heights.len() && heights[i] == c;
            if i < heights.len() - 1 {
                assert(rest[i] == c);
            }
        }
        assert forall|c: Height| rest.contains(c) implies heights.contains(c) && c
            < heights.last() by {
            let i = choose|i: int| 0 <= i < rest.len() && rest[i] == c;
            assert(heights[i] == c);
            assert(heights[i] < heights[heights.len() - 1]);
        }
        assert(heights.contains(heights.last())) by {
            assert(heights[heights.len() - 1] == heights.last());
        }
    }
}

/// Where heights below `bound` leave a listing of checkpoints and the
/// restart checkpoint of the listing is not below `bound`, the restart
/// checkpoint stays the same.
pub proof fn lemma_latest_at_or_below_shrunk(
    before: Seq<Height>,
    after: Seq<Height>,
    h: Height,
    bound: Height,
)
    requires
        strictly_increasing(before),
        strictly_increasing(after),
        forall|c: Height| after.contains(c) ==> before.contains(c),
        forall|c: Height| before.contains(c) && !after.contains(c) ==> c < bound,
        latest_at_or_below(before, h) matches Some(m) ==> bound <= m,
    ensures
        latest_at_or_below(after, h) == latest_at_or_below(before, h),
{
    lemma_latest_at_or_below(before, h);
    lemma_latest_at_or_below(after, h);
}

/// Where heights below `bound` leave a listing of checkpoints and the oldest
/// of the latest checkpoints of the listing is not below `bound`, it stays
/// the same.
pub proof fn lemma_oldest_of_latest_shrunk(before: Seq<Height>, after: Seq<Height>, bound: Height)
    requires
        strictly_increasing(before),
        strictly_increasing(after),
        forall|c: Height| after.contains(c) ==> before.contains(c),
        forall|c: Height| before.contains(c) && !after.contains(c) ==> c < bound,
        oldest_of_latest(before) matches Some(x) ==> bound <= x,
    ensures
        oldest_of_latest(after) == oldest_of_latest(before),
{
    let n = before.len() as int;
    if n == 0 {
        if after.len() > 0 {
            assert(after.contains(after[0]));
        }
    } else if n == 1 {
        assert(before.contains(before[0]));
        assert(after.contains(before[0]));
        assert forall|c: Height| before.contains(c) implies after.contains(c) by {
            let i = choose|i: int| 0 <= i < before.len() && before[i] == c;
            assert(i == 0);
        }
        crate::height_map::lemma_strictly_increasing_unique(before, after);
    } else {
        let top = before[n - 1];
        let second = before[n - 2];
        assert(second < top);
        assert(before.contains(top));
        assert(before.contains(second));
        assert(after.contains(top));
        assert(after.contains(second));
        let k = after.len() as int;
        let at_top = choose|j: int| 0 <= j < after.len() && after[j] == top;
        let at_second = choose|j: int| 0 <= j < after.len() && after[j] == second;
        assert(at_top != at_second);
        // Nothing of `after` is above `top`.
        if at_top < k - 1 {
            assert(after[at_top] < after[k - 1]);
            assert(after.contains(after[k - 1]));
            let i = choose|i: int| 0 <= i < before.len() && before[i] == after[k - 1];
            if i < n - 1 {
                assert(before[i] < before[n - 1]);
            }
        }
        assert(at_top == k - 1);
        if at_second > at_top {
            assert(after[at_top] < after[at_second]);
        }
        // Nothing of `after` lies between `second` and `top`.
        if at_second < k - 2 {
            let between = after[k - 2];
            assert(after[at_second] < after[k - 2]);
            assert(after[k - 2] < after[k - 1]);
            assert(after.contains(between));
            let i = choose|i: int| 0 <= i < before.len() && before[i] == between;
            if i < n - 2 {
                assert(before[i] < before[n - 2]);
            } else if i == n - 2 {
            } else if i == n - 1 {
            }
        }
        assert(at_second == k - 2);
    }
}

impl<S, T> StateManagerImpl<S, T> {
    /// Calling `remove_states_below` twice in a row with the same requested
    /// height changes nothing the second time: where `second` is `first`
    /// after the first call and `third` is `second` after the second call,
    /// `third` holds what `second` holds. `checkpoints` are the checkpoints on
    /// disk at the first call and `checkpoints_after` those at the second
    /// call, both in increasing order: no checkpoint has come, and only
    /// checkpoints that the first call evicted have gone.
    pub proof fn lemma_remove_states_below_idempotent(
        first: &Self,
        second: &Self,
        third: &Self,
        requested_height: Height,
        checkpoints: Seq<Height>,
        checkpoints_after: Seq<Height>,
    )
        requires
            strictly_increasing(checkpoints),
            strictly_increasing(checkpoints_after),
            forall|h: Height| checkpoints_after.contains(h) ==> checkpoints.contains(h),
            forall|h: Height|
                checkpoints.contains(h) && !checkpoints_after.contains(h)
                    ==> first.states_metadata().contains_key(h)
                    && !second.states_metadata().contains_key(h),
            first.evicted_to(
                second,
                last_height_to_keep(first.spec_latest_state_height(), requested_height),
                oldest_checkpoint_to_keep(
                    checkpoints,
                    requested_height,
                    last_height_to_keep(first.spec_latest_state_height(), requested_height),
                ),
            ),
            second.evicted_to(
                third,
                last_height_to_keep(second.spec_latest_state_height(), requested_height),
                oldest_checkpoint_to_keep(
                    checkpoints_after,
                    requested_height,
                    last_height_to_keep(second.spec_latest_state_height(), requested_height),
                ),
            ),
        ensures
            third.snapshots() == second.snapshots(),
            third.certifications_metadata() == second.certifications_metadata(),
            third.states_metadata() == second.states_metadata(),
            third.spec_latest_state_height() == second.spec_latest_state_height(),
            third.spec_latest_certified_height() == second.spec_latest_certified_height(),
            third.fetch_target() == second.fetch_target(),
            third.tip() == second.tip(),
            third.last_advertised() == second.last_advertised(),
    {
        let bound = last_height_to_keep(first.spec_latest_state_height(), requested_height);
        let oldest = oldest_checkpoint_to_keep(checkpoints, requested_height, bound);
        let keep = heights_to_keep(
            first.states_metadata().dom(),
            oldest,
            first.spec_latest_certified_height(),
        );
        assert forall|h: Height|
            checkpoints.contains(h) && !checkpoints_after.contains(h) implies h < oldest by {
            assert(first.states_metadata().contains_key(h));
            assert(!second.states_metadata().contains_key(h));
            assert(!retained(h, bound, keep));
            assert(!keep.contains(h));
        }
        lemma_latest_at_or_below_shrunk(checkpoints, checkpoints_after, requested_height, oldest);
        lemma_oldest_of_latest_shrunk(checkpoints, checkpoints_after, oldest);
        Self::lemma_eviction_idempotent(first, second, third, bound, oldest);
    }
}

} // verus!
