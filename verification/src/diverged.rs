//! Which of the states that were set aside after a divergence are removed.

use crate::height_map::Height;
use vstd::prelude::*;

verus! {

/// The number of diverged checkpoints, and of backups, to keep before the
/// old ones are deleted.
pub const MAX_ARCHIVED_CHECKPOINTS_TO_KEEP: usize = 2;

/// The number of diverged state markers to keep.
pub const MAX_DIVERGED_STATE_MARKERS_TO_KEEP: usize = 100;

/// How long to keep diverged states, in seconds: 30 days.
pub const ARCHIVED_CHECKPOINT_MAX_AGE_SECS: u64 = 2592000;

/// A state that was set aside, and how long ago.
#[derive(Clone, Copy, Debug, PartialEq, Eq, Structural)]
pub struct ArchivedState {
    pub height: Height,
    /// The whole seconds of its age.
    pub age_secs: u64,
    /// The rest of its age in nanoseconds.
    pub age_subsec_nanos: u32,
}

impl ArchivedState {
    /// Whether the state is older than `ARCHIVED_CHECKPOINT_MAX_AGE_SECS`.
    pub open spec fn is_too_old(self) -> bool {
        self.age_secs > ARCHIVED_CHECKPOINT_MAX_AGE_SECS || (self.age_secs
            == ARCHIVED_CHECKPOINT_MAX_AGE_SECS && self.age_subsec_nanos > 0)
    }

    /// Whether the state is older than `ARCHIVED_CHECKPOINT_MAX_AGE_SECS`.
    pub fn too_old(&self) -> (b: bool)
        ensures
            b == self.is_too_old(),
    {
        self.age_secs > ARCHIVED_CHECKPOINT_MAX_AGE_SECS || (self.age_secs
            == ARCHIVED_CHECKPOINT_MAX_AGE_SECS && self.age_subsec_nanos > 0)
    }
}

/// Of the first `n` of `states`, the heights of those that are removed when
/// the first `surplus` are removed whatever their age, and the others if they
/// are too old.
pub open spec fn obsolete_heights(states: Seq<ArchivedState>, surplus: int, n: int) -> Seq<Height>
    decreases n,
{
    if n <= 0 {
        Seq::empty()
    } else {
        let before = obsolete_heights(states, surplus, n - 1);
        if n - 1 < surplus || states[n - 1].is_too_old() {
            before.push(states[n - 1].height)
        } else {
            before
        }
    }
}

/// The heights of the states to remove, of `states` in the order in which
/// they were set aside: all but the last `max_to_keep`, and of those every
/// state that is too old.
pub fn archived_states_to_remove(states: &Vec<ArchivedState>, max_to_keep: usize) -> (to_remove: Vec<
    Height,
>)
    ensures
        to_remove@ == obsolete_heights(
            states@,
            if states@.len() > max_to_keep {
                states@.len() - max_to_keep
            } else {
                0
            },
            states@.len() as int,
        ),
{
    let surplus: usize = if states.len() > max_to_keep {
        states.len() - max_to_keep
    } else {
        0
    };
    let mut to_remove: Vec<Height> = Vec::new();
    let mut i: usize = 0;
    while i < states.len()
        invariant
            i <= states@.len(),
            to_remove@ == obsolete_heights(states@, surplus as int, i as int),
        decreases states@.len() - i,
    {
        if i < surplus || states[i].too_old() {
            to_remove.push(states[i].height);
        }
        i = i + 1;
    }
    to_remove
}

/// The latest of the first `n` of `times`, or 0 where there is none.
pub open spec fn latest_of(times: Seq<u64>, n: int) -> u64
    decreases n,
{
    if n <= 0 {
        0
    } else {
        let before = latest_of(times, n - 1);
        if times[n - 1] > before {
            times[n - 1]
        } else {
            before
        }
    }
}

/// The time of the last divergence: the latest of the times, in seconds
/// since the epoch, at which the diverged states were set aside, or 0 where
/// there is none.
pub fn last_diverged_state_timestamp(times: &Vec<u64>) -> (last: u64)
    ensures
        last == latest_of(times@, times@.len() as int),
{
    let mut last: u64 = 0;
    let mut i: usize = 0;
    while i < times.len()
        invariant
            i <= times@.len(),
            last == latest_of(times@, i as int),
        decreases times@.len() - i,
    {
        if times[i] > last {
            last = times[i];
        }
        i = i + 1;
    }
    last
}

} // verus!
