//! How certifications enter the store and which states still wait for one.

use crate::height_map::{Height, HeightMap};
use crate::metadata::CertificationMetadata;
use crate::state_manager::{is_latest_certified, update_latest_height, StateManagerImpl};
use crate::types::{hash_eq, Certification, CryptoHashOfPartialState};
use std::sync::Arc;
use vstd::prelude::*;

verus! {

/// How a delivered certification stands to what the store has computed.
#[derive(Clone, Copy, Debug, PartialEq, Eq, Structural)]
pub enum CertificationCheck {
    /// The store holds no state at the height of the certification: the
    /// delivery changes nothing.
    UnknownHeight,
    /// The certified hash is the hash that the store has computed.
    Matches,
    /// The certified hash differs from the hash that the store has computed:
    /// the state of this node has diverged.
    Diverged,
}

/// The hash trees that the first `n` of `heights` hold below the height
/// `below`, in the order of `heights`.
pub open spec fn trees_below<T>(
    heights: Seq<Height>,
    certifications: Map<Height, CertificationMetadata<T>>,
    below: Height,
    n: int,
) -> Seq<Arc<T>>
    decreases n,
{
    if n <= 0 {
        Seq::empty()
    } else {
        let before = trees_below(heights, certifications, below, n - 1);
        let h = heights[n - 1];
        if h < below && certifications[h].hash_tree is Some {
            before.push(certifications[h].hash_tree->0)
        } else {
            before
        }
    }
}

/// From the first height that is not below `below` on, no tree is added.
pub proof fn lemma_trees_below_stop<T>(
    heights: Seq<Height>,
    certifications: Map<Height, CertificationMetadata<T>>,
    below: Height,
    from: int,
    n: int,
)
    requires
        0 <= from <= n <= heights.len(),
        forall|i: int| from <= i < heights.len() ==> #[trigger] heights[i] >= below,
    ensures
        trees_below(heights, certifications, below, n) == trees_below(
            heights,
            certifications,
            below,
            from,
        ),
    decreases n - from,
{
    if from < n {
        lemma_trees_below_stop(heights, certifications, below, from, n - 1);
    }
}

impl<S, T> StateManagerImpl<S, T> {
    /// How `certification` stands to the hash computed for its height.
    pub open spec fn certification_check(&self, certification: Certification) -> CertificationCheck {
        if !self.certifications_metadata().contains_key(certification.height) {
            CertificationCheck::UnknownHeight
        } else if self.certifications_metadata()[certification.height].certified_state_hash@
            == certification.hash@ {
            CertificationCheck::Matches
        } else {
            CertificationCheck::Diverged
        }
    }

    /// Compares the hash of a delivered certification with the hash that the
    /// store has computed for the state at that height.
    pub fn check_certification(&self, certification: &Certification) -> (check: CertificationCheck)
        requires
            self.wf(),
        ensures
            check == self.certification_check(*certification),
    {
        match self.states.certifications_metadata.get(certification.height) {
            None => CertificationCheck::UnknownHeight,
            Some(metadata) => {
                if hash_eq(&certification.hash, &metadata.certified_state_hash) {
                    CertificationCheck::Matches
                } else {
                    CertificationCheck::Diverged
                }
            },
        }
    }

    /// Records the certification of the state at its height, if the store
    /// holds that state. The hash trees of all states below that height are
    /// no longer needed: they leave the store and are returned, lowest
    /// height first.
    pub fn deliver_state_certification(&mut self, certification: Certification) -> (released: Vec<
        Arc<T>,
    >)
        requires
            old(self).wf(),
            old(self).certification_check(certification) != CertificationCheck::Diverged,
        ensures
            final(self).wf(),
            final(self).snapshots() == old(self).snapshots(),
            final(self).states_metadata() == old(self).states_metadata(),
            final(self).fetch_target() == old(self).fetch_target(),
            final(self).tip() == old(self).tip(),
            final(self).last_advertised() == old(self).last_advertised(),
            final(self).spec_latest_state_height() == old(self).spec_latest_state_height(),
            final(self).certification_heights() == old(self).certification_heights(),
            !old(self).certifications_metadata().contains_key(certification.height) ==> {
                &&& final(self).certifications_metadata() == old(self).certifications_metadata()
                &&& final(self).spec_latest_certified_height() == old(
                    self,
                ).spec_latest_certified_height()
                &&& released@.len() == 0
            },
            old(self).certifications_metadata().contains_key(certification.height) ==> {
                &&& final(self).certifications_metadata().dom() == old(
                    self,
                ).certifications_metadata().dom()
                &&& forall|h: Height| #[trigger]
                    final(self).certifications_metadata().contains_key(h) ==> {
                        let before = old(self).certifications_metadata()[h];
                        let after = final(self).certifications_metadata()[h];
                        &&& after.certified_state_hash == before.certified_state_hash
                        &&& after.certification == (if h == certification.height {
                            Some(certification)
                        } else {
                            before.certification
                        })
                        &&& after.hash_tree == (if h < certification.height {
                            None
                        } else {
                            before.hash_tree
                        })
                    }
                &&& final(self).spec_latest_certified_height() == (if old(
                    self,
                ).spec_latest_certified_height() >= certification.height {
                    old(self).spec_latest_certified_height()
                } else {
                    certification.height
                })
                &&& released@ == trees_below(
                    old(self).certification_heights(),
                    old(self).certifications_metadata(),
                    certification.height,
                    old(self).certification_heights().len() as int,
                )
            },
    {
        let certification_height = certification.height;
        let mut released: Vec<Arc<T>> = Vec::new();
        let ghost pre = *self;
        let ghost keys = self.states.certifications_metadata.keys();
        let ghost before = self.states.certifications_metadata@;
        proof {
            self.lemma_heights();
            self.states.certifications_metadata.lemma_keys();
        }
        let at = match self.states.certifications_metadata.position(certification_height) {
            Some(at) => at,
            None => {
                return released;
            },
        };
        update_latest_height(&mut self.latest_certified_height, certification_height);
        let metadata = self.states.certifications_metadata.value_at_mut(at);
        metadata.certification = Some(certification);
        let ghost recorded = self.states.certifications_metadata@;
        proof {
            self.states.certifications_metadata.lemma_keys();
            assert(recorded == before.insert(certification_height, recorded[certification_height]));
        }
        let mut i: usize = 0;
        while i < at
            invariant
                i <= at < keys.len(),
                keys[at as int] == certification_height,
                crate::height_map::strictly_increasing(keys),
                self.states.certifications_metadata.wf(),
                self.states.certifications_metadata.keys() == keys,
                forall|h: Height| #[trigger]
                    self.states.certifications_metadata@.contains_key(h) <==> keys.contains(h),
                forall|h: Height| #[trigger] recorded.contains_key(h) <==> keys.contains(h),
                forall|j: int|
                    0 <= j < i ==> {
                        let now = self.states.certifications_metadata@[#[trigger] keys[j]];
                        &&& now.hash_tree is None
                        &&& now.certification == recorded[keys[j]].certification
                        &&& now.certified_state_hash == recorded[keys[j]].certified_state_hash
                    },
                forall|j: int|
                    i <= j < keys.len() ==> self.states.certifications_metadata@[
                    #[trigger] keys[j]] == recorded[keys[j]],
                released@ == trees_below(keys, recorded, certification_height, i as int),
                self.states.snapshots == pre.states.snapshots,
                self.states.states_metadata == pre.states.states_metadata,
                self.states.fetch_state == pre.states.fetch_state,
                self.states.tip == pre.states.tip,
                self.states.last_advertised == pre.states.last_advertised,
                self.latest_state_height == pre.latest_state_height,
                self.latest_certified_height == (if pre.latest_certified_height
                    >= certification_height {
                    pre.latest_certified_height
                } else {
                    certification_height
                }),
            decreases at - i,
        {
            let ghost step_before = self.states.certifications_metadata@;
            proof {
                self.states.certifications_metadata.lemma_keys();
                assert(keys[i as int] < keys[at as int]);
                assert(step_before[keys[i as int]] == recorded[keys[i as int]]);
            }
            let metadata = self.states.certifications_metadata.value_at_mut(i);
            if let Some(tree) = metadata.hash_tree.take() {
                released.push(tree);
            }
            proof {
                self.states.certifications_metadata.lemma_keys();
                assert(self.states.certifications_metadata@ =~= step_before.insert(
                    keys[i as int],
                    self.states.certifications_metadata@[keys[i as int]],
                ));
                assert forall|j: int| 0 <= j < keys.len() && j != i implies #[trigger] keys[j]
                    != keys[i as int] by {
                    if j < i {
                        assert(keys[j] < keys[i as int]);
                    } else {
                        assert(keys[i as int] < keys[j]);
                    }
                }
            }
            i = i + 1;
        }
        proof {
            self.states.certifications_metadata.lemma_keys();
            let after = self.states.certifications_metadata@;
            assert(after.dom() =~= before.dom());
            assert forall|j: int| 0 <= j < keys.len() implies (j < at <==> #[trigger] keys[j]
                < certification_height) by {
                if j < at {
                    assert(keys[j] < keys[at as int]);
                } else if j > at {
                    assert(keys[at as int] < keys[j]);
                }
            }
            assert forall|h: Height| #[trigger] after.contains_key(h) implies {
                &&& after[h].certified_state_hash == before[h].certified_state_hash
                &&& after[h].certification == (if h == certification_height {
                    Some(certification)
                } else {
                    before[h].certification
                })
                &&& after[h].hash_tree == (if h < certification_height {
                    None
                } else {
                    before[h].hash_tree
                })
            } by {
                let j = choose|j: int| 0 <= j < keys.len() && keys[j] == h;
                assert(keys[j] == h);
                if j < at {
                    assert(after[keys[j]].hash_tree is None);
                } else {
                    assert(after[keys[j]] == recorded[keys[j]]);
                }
            }
            lemma_trees_below_stop(keys, recorded, certification_height, at as int, keys.len() as int);
            lemma_trees_below_same(keys, recorded, before, certification_height, keys.len() as int);
            assert(after.contains_key(certification_height));
            assert(after[certification_height].certification is Some);
            assert(is_latest_certified(before, pre.spec_latest_certified_height()));
            assert forall|h: Height| #[trigger]
                after.contains_key(h) && after[h].certification is Some implies h
                <= self.spec_latest_certified_height() by {
                if h != certification_height {
                    assert(before.contains_key(h) && before[h].certification is Some);
                }
            }
            if pre.spec_latest_certified_height() != 0 {
                assert(after.contains_key(pre.spec_latest_certified_height()));
            }
            assert(is_latest_certified(after, self.spec_latest_certified_height()));
        }
        released
    }
}

/// The trees below a height are the same in two maps that hold the same
/// trees below that height.
pub proof fn lemma_trees_below_same<T>(
    heights: Seq<Height>,
    a: Map<Height, CertificationMetadata<T>>,
    b: Map<Height, CertificationMetadata<T>>,
    below: Height,
    n: int,
)
    requires
        0 <= n <= heights.len(),
        forall|i: int|
            0 <= i < heights.len() && heights[i] < below ==> a[#[trigger] heights[i]].hash_tree
                == b[heights[i]].hash_tree,
    ensures
        trees_below(heights, a, below, n) == trees_below(heights, b, below, n),
    decreases n,
{
    if n > 0 {
        lemma_trees_below_same(heights, a, b, below, n - 1);
    }
}

} // verus!
