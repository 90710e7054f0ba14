//! How execution takes the tip out of the store.

use crate::height_map::Height;
use crate::state_manager::{StateManagerImpl, Tip};
use crate::types::{hash_eq, CryptoHashOfPartialState, StateManagerError};
use vstd::prelude::*;

verus! {

/// The hash that the next state names as the hash of its predecessor.
#[derive(Clone, Debug, PartialEq, Eq)]
pub enum PrevStateHash {
    /// The tip is the initial state: the hash is that of the hash tree of the
    /// initial state, which the caller computes.
    OfInitialState,
    /// The certified hash that the store holds for the height of the tip.
    Certified(CryptoHashOfPartialState),
}

/// What execution gets when it takes the tip.
pub enum TipCheckout<S> {
    /// The tip of the store at its height.
    Current { height: Height, state: S, prev_state_hash: PrevStateHash },
    /// The latest snapshot is newer than the tip, which happens when a state
    /// was synced meanwhile. The new tip is to be made from the checkpoint
    /// and the snapshot at `height`; `stale` is the tip that the store held.
    Newer { height: Height, stale: S, prev_state_hash: PrevStateHash },
}

/// Why the tip cannot be taken. Either is a fault that the node cannot
/// recover from.
#[derive(Clone, Copy, Debug, PartialEq, Eq, Structural)]
pub enum TakeTipError {
    /// The tip is checked out already.
    TipCheckedOut,
    /// The latest snapshot is newer than the tip and is not a checkpoint.
    MissingCheckpoint { height: Height },
}

/// How the hash that a state names as the hash of its predecessor stands to
/// what the store holds.
#[derive(Clone, Copy, Debug, PartialEq, Eq, Structural)]
pub enum PrevHashCheck {
    /// The state is at height 0 or 1: its predecessor has no certified hash.
    NotChecked,
    /// The certification metadata of the predecessor has been removed. This
    /// can happen when a newer state was synced and the states below it were
    /// removed.
    PredecessorRemoved,
    /// The hash is the certified hash of the predecessor.
    Matches,
    /// The hash is not the certified hash of the predecessor.
    Mismatch,
}

impl<S, T> StateManagerImpl<S, T> {
    /// The hash that the state after the one at `height` names as the hash
    /// of its predecessor.
    pub open spec fn prev_state_hash_at(&self, height: Height, hash: PrevStateHash) -> bool {
        if height > 0 {
            &&& self.certifications_metadata().contains_key(height)
            &&& hash matches PrevStateHash::Certified(h) && h@
                == self.certifications_metadata()[height].certified_state_hash@
        } else {
            hash == PrevStateHash::OfInitialState
        }
    }

    /// Tells whether the tip can be taken, and if not, why.
    pub fn check_take_tip(&self) -> (r: Result<(), TakeTipError>)
        requires
            self.wf(),
        ensures
            r is Ok <==> self.tip_is_ready(),
            match r {
                Ok(()) => true,
                Err(TakeTipError::TipCheckedOut) => self.tip() is CheckedOut,
                Err(TakeTipError::MissingCheckpoint { height }) => self.tip() is Available
                    && height == self.spec_latest_state_height(),
            },
    {
        match &self.states.tip {
            Tip::CheckedOut { .. } => Err(TakeTipError::TipCheckedOut),
            Tip::Available(tip_height, _) => {
                if *tip_height < self.latest_state_height
                    && !self.states.states_metadata.contains_key(self.latest_state_height) {
                    Err(TakeTipError::MissingCheckpoint { height: self.latest_state_height })
                } else {
                    Ok(())
                }
            },
        }
    }

    /// Whether the tip is in the store and, where the latest snapshot is
    /// newer than the tip, that snapshot is a checkpoint.
    pub open spec fn tip_is_ready(&self) -> bool {
        match self.tip() {
            Tip::Available(tip_height, _) => tip_height < self.spec_latest_state_height()
                ==> self.states_metadata().contains_key(self.spec_latest_state_height()),
            Tip::CheckedOut { .. } => false,
        }
    }

    /// Takes the tip out of the store. Until it is committed again, nobody
    /// else can take it.
    ///
    /// Where the latest snapshot is newer than the tip, the caller has to
    /// make the new tip from that snapshot; its checkpoint stays in the store
    /// at least until then.
    pub fn take_tip(&mut self) -> (checkout: TipCheckout<S>)
        requires
            old(self).wf(),
            old(self).tip_is_ready(),
        ensures
            final(self).wf(),
            final(self).tip() == (Tip::<S>::CheckedOut { at: old(self).spec_latest_state_height() }),
            final(self).snapshots() == old(self).snapshots(),
            final(self).states_metadata() == old(self).states_metadata(),
            final(self).certifications_metadata() == old(self).certifications_metadata(),
            final(self).fetch_target() == old(self).fetch_target(),
            final(self).last_advertised() == old(self).last_advertised(),
            final(self).spec_latest_state_height() == old(self).spec_latest_state_height(),
            final(self).spec_latest_certified_height() == old(self).spec_latest_certified_height(),
            match checkout {
                TipCheckout::Current { height, state, prev_state_hash } => {
                    &&& old(self).tip() == Tip::Available(height, state)
                    &&& height == old(self).spec_latest_state_height()
                    &&& old(self).prev_state_hash_at(height, prev_state_hash)
                },
                TipCheckout::Newer { height, stale, prev_state_hash } => {
                    &&& old(self).tip() matches Tip::Available(tip_height, tip) && tip_height
                        < height && tip == stale
                    &&& height == old(self).spec_latest_state_height()
                    &&& old(self).snapshots().contains_key(height)
                    &&& old(self).states_metadata().contains_key(height)
                    &&& old(self).prev_state_hash_at(height, prev_state_hash)
                },
            },
    {
        proof {
            self.lemma_heights();
        }
        let mut tip = Tip::CheckedOut { at: self.latest_state_height };
        std::mem::swap(&mut self.states.tip, &mut tip);
        match tip {
            Tip::Available(tip_height, state) => {
                let latest = self.latest_state_height;
                if latest > tip_height {
                    // The latest checkpoint is newer than the tip. This can
                    // happen when we replay blocks and sync states
                    // concurrently.
                    let prev_state_hash = self.hash_at(latest);
                    TipCheckout::Newer { height: latest, stale: state, prev_state_hash }
                } else {
                    // Since execution will use this tip to compute the *next*
                    // state, it gets the hash of the current tip.
                    let prev_state_hash = self.hash_at(tip_height);
                    TipCheckout::Current { height: tip_height, state, prev_state_hash }
                }
            },
            Tip::CheckedOut { .. } => vstd::pervasive::unreached(),
        }
    }

    /// The hash that the state after the resident state at `height` names as
    /// the hash of its predecessor.
    fn hash_at(&self, height: Height) -> (hash: PrevStateHash)
        requires
            self.maps_wf(),
            height > 0 ==> self.certifications_metadata().contains_key(height),
        ensures
            self.prev_state_hash_at(height, hash),
    {
        if height > Self::INITIAL_STATE_HEIGHT {
            match self.states.certifications_metadata.get(height) {
                Some(metadata) => PrevStateHash::Certified(metadata.certified_state_hash.clone()),
                None => PrevStateHash::OfInitialState,
            }
        } else {
            PrevStateHash::OfInitialState
        }
    }

    /// Decides what becomes of the tip that was taken, in order to work at
    /// `height`. Where the tip was taken at that height, the state is handed
    /// on. Otherwise the state goes back into the store: the state at `height`
    /// was removed if `height` is lower, and is not committed yet if it is
    /// higher.
    pub fn take_tip_at(&mut self, height: Height, state: S) -> (r: Result<S, StateManagerError>)
        requires
            old(self).wf(),
            old(self).tip() is CheckedOut,
        ensures
            final(self).wf(),
            final(self).snapshots() == old(self).snapshots(),
            final(self).states_metadata() == old(self).states_metadata(),
            final(self).certifications_metadata() == old(self).certifications_metadata(),
            final(self).fetch_target() == old(self).fetch_target(),
            final(self).last_advertised() == old(self).last_advertised(),
            final(self).spec_latest_state_height() == old(self).spec_latest_state_height(),
            final(self).spec_latest_certified_height() == old(self).spec_latest_certified_height(),
            ({
                let tip_height = old(self).tip()->at;
                match r {
                    Ok(taken) => height == tip_height && taken == state && final(self).tip()
                        == old(self).tip(),
                    Err(StateManagerError::StateRemoved(h)) => h == height && height < tip_height
                        && final(self).tip() == Tip::Available(tip_height, state),
                    Err(StateManagerError::StateNotCommittedYet(h)) => h == height && tip_height
                        < height && final(self).tip() == Tip::Available(tip_height, state),
                }
            }),
    {
        proof {
            self.lemma_heights();
        }
        let tip_height = match &self.states.tip {
            Tip::CheckedOut { at } => *at,
            Tip::Available(h, _) => *h,
        };
        if height < tip_height {
            self.states.tip = Tip::Available(tip_height, state);
            return Err(StateManagerError::StateRemoved(height));
        }
        if tip_height < height {
            self.states.tip = Tip::Available(tip_height, state);
            return Err(StateManagerError::StateNotCommittedYet(height));
        }
        Ok(state)
    }

    /// How `prev_state_hash`, which the state to commit at `height` names as
    /// the hash of its predecessor, stands to the certified hash that the
    /// store holds for `height - 1`.
    pub open spec fn prev_hash_check(&self, height: Height, prev_state_hash: Option<Seq<u8>>) -> PrevHashCheck {
        if height <= 1 {
            PrevHashCheck::NotChecked
        } else if !self.certifications_metadata().contains_key((height - 1) as Height) {
            PrevHashCheck::PredecessorRemoved
        } else if prev_state_hash == Some(
            self.certifications_metadata()[(height - 1) as Height].certified_state_hash@,
        ) {
            PrevHashCheck::Matches
        } else {
            PrevHashCheck::Mismatch
        }
    }

    /// Compares the hash that the state to commit at `height` names as the
    /// hash of its predecessor with the certified hash of the state at
    /// `height - 1`. A mismatch is a fault that the node cannot recover from.
    pub fn check_prev_state_hash(&self, height: Height, prev_state_hash: Option<&CryptoHashOfPartialState>) -> (check: PrevHashCheck)
        requires
            self.wf(),
        ensures
            check == self.prev_hash_check(
                height,
                match prev_state_hash {
                    Some(hash) => Some(hash@),
                    None => None,
                },
            ),
    {
        if height == Self::INITIAL_STATE_HEIGHT {
            return PrevHashCheck::NotChecked;
        }
        let prev_height = height - 1;
        if prev_height == Self::INITIAL_STATE_HEIGHT {
            return PrevHashCheck::NotChecked;
        }
        match self.states.certifications_metadata.get(prev_height) {
            Some(metadata) => {
                let same = match prev_state_hash {
                    Some(hash) => hash_eq(hash, &metadata.certified_state_hash),
                    None => false,
                };
                if same {
                    PrevHashCheck::Matches
                } else {
                    PrevHashCheck::Mismatch
                }
            },
            None => PrevHashCheck::PredecessorRemoved,
        }
    }
}

} // verus!
