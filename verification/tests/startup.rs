use state_manager::checkpoint::{CheckpointError, LayoutError};
use state_manager::diverged::{
    archived_states_to_remove, last_diverged_state_timestamp, ArchivedState,
    ARCHIVED_CHECKPOINT_MAX_AGE_SECS, MAX_ARCHIVED_CHECKPOINTS_TO_KEEP,
};
use state_manager::state_manager::query::state_from_checkpoint;
use state_manager::state_manager::startup::archive_checkpoints_above;
use state_manager::state_manager::update_latest_height;
use state_manager::types::{hash_eq, CertificationMask, StateManagerError};
use state_manager::worker::{
    deallocate, deallocation_after_send, handle_compute_manifest_request, should_offload,
    ComputeManifestRequest, Deallocation, ManifestWork, OffloadPolicy,
    DEALLOCATION_BACKLOG_THRESHOLD,
};
use state_manager::state_manager::ManifestJob;

#[test]
fn checkpoints_above_the_starting_height_are_archived() {
    let mut heights = vec![100, 200, 300];
    assert_eq!(archive_checkpoints_above(&mut heights, 150), vec![300, 200]);
    assert_eq!(heights, vec![100]);
    let mut heights = vec![100, 200, 300];
    assert_eq!(archive_checkpoints_above(&mut heights, 300), Vec::<u64>::new());
    assert_eq!(heights, vec![100, 200, 300]);
}

#[test]
fn the_only_checkpoint_is_never_archived() {
    let mut heights = vec![200];
    assert_eq!(archive_checkpoints_above(&mut heights, 150), Vec::<u64>::new());
    assert_eq!(heights, vec![200]);
    let mut heights = vec![200, 300];
    assert_eq!(archive_checkpoints_above(&mut heights, 50), vec![300]);
    assert_eq!(heights, vec![200]);
    let mut heights: Vec<u64> = vec![];
    assert_eq!(archive_checkpoints_above(&mut heights, 50), Vec::<u64>::new());
}

fn archived(height: u64, age_secs: u64) -> ArchivedState {
    ArchivedState { height, age_secs, age_subsec_nanos: 0 }
}

#[test]
fn old_and_surplus_archived_states_are_removed() {
    let day = 24 * 60 * 60;
    let states = vec![archived(1, 40 * day), archived(2, 10), archived(3, 31 * day), archived(4, 5)];
    assert_eq!(
        archived_states_to_remove(&states, MAX_ARCHIVED_CHECKPOINTS_TO_KEEP),
        vec![1, 2, 3]
    );
    assert_eq!(archived_states_to_remove(&states, 100), vec![1, 3]);
    assert_eq!(archived_states_to_remove(&states, 0), vec![1, 2, 3, 4]);
    // Exactly the maximal age is not too old, a nanosecond more is.
    let at_limit = ArchivedState {
        height: 9,
        age_secs: ARCHIVED_CHECKPOINT_MAX_AGE_SECS,
        age_subsec_nanos: 0,
    };
    assert!(!at_limit.too_old());
    assert!(ArchivedState { age_subsec_nanos: 1, ..at_limit }.too_old());
    assert_eq!(ARCHIVED_CHECKPOINT_MAX_AGE_SECS, 30 * 24 * 60 * 60);
}

#[test]
fn the_last_divergence_is_the_latest_time() {
    assert_eq!(last_diverged_state_timestamp(&vec![]), 0);
    assert_eq!(last_diverged_state_timestamp(&vec![5, 9, 7]), 9);
}

#[test]
fn latest_height_only_rises() {
    let mut cached = 5;
    assert_eq!(update_latest_height(&mut cached, 3), 5);
    assert_eq!(cached, 5);
    assert_eq!(update_latest_height(&mut cached, 8), 8);
    assert_eq!(cached, 8);
}

#[test]
fn every_checkpoint_error_means_that_the_state_was_removed() {
    assert_eq!(
        state_from_checkpoint::<u8>(4, Err(CheckpointError::NotFound(4))),
        Err(StateManagerError::StateRemoved(4))
    );
    assert_eq!(
        state_from_checkpoint::<u8>(4, Err(CheckpointError::Persistence("bad".to_string()))),
        Err(StateManagerError::StateRemoved(4))
    );
    let loaded = state_from_checkpoint(4, Ok(7u8)).unwrap();
    assert_eq!((loaded.height, *loaded.value), (4, 7));
}

#[test]
fn layout_errors_become_checkpoint_errors() {
    assert_eq!(
        CheckpointError::from_layout(LayoutError::NotFound(3)),
        CheckpointError::NotFound(3)
    );
    assert_eq!(
        CheckpointError::from_layout(LayoutError::AlreadyExists(3)),
        CheckpointError::AlreadyExists(3)
    );
    assert_eq!(
        CheckpointError::from_layout(LayoutError::LatestCheckpoint(3)),
        CheckpointError::LatestCheckpoint(3)
    );
    assert_eq!(
        CheckpointError::from_layout(LayoutError::IoError {
            path: "p".to_string(),
            message: "m".to_string(),
            io_err: "e".to_string()
        }),
        CheckpointError::IoError {
            path: "p".to_string(),
            message: "m".to_string(),
            io_err: "e".to_string()
        }
    );
    assert_eq!(
        CheckpointError::from_layout(LayoutError::CorruptedLayout {
            path: "p".to_string(),
            message: "m".to_string()
        }),
        CheckpointError::CorruptedLayout { path: "p".to_string(), message: "m".to_string() }
    );
    assert_eq!(
        CheckpointError::from_persistence("x".to_string()),
        CheckpointError::Persistence("x".to_string())
    );
}

#[test]
fn objects_are_offloaded_unless_too_many_wait() {
    assert!(should_offload(OffloadPolicy::UnlessBacklogged, 0));
    assert!(should_offload(OffloadPolicy::UnlessBacklogged, DEALLOCATION_BACKLOG_THRESHOLD - 1));
    assert!(!should_offload(OffloadPolicy::UnlessBacklogged, DEALLOCATION_BACKLOG_THRESHOLD));
    assert!(should_offload(OffloadPolicy::Always, DEALLOCATION_BACKLOG_THRESHOLD));
    assert_eq!(DEALLOCATION_BACKLOG_THRESHOLD, 500);
}

#[test]
fn an_object_that_could_not_be_sent_comes_back() {
    assert_eq!(deallocation_after_send::<u8>(Ok(())), Deallocation::Offloaded);
    assert_eq!(deallocation_after_send(Err(7u8)), Deallocation::Disconnected(7));
}

#[test]
fn deallocate_sends_the_object_to_the_other_thread() {
    let (sender, receiver) = crossbeam_channel::unbounded::<Vec<u8>>();
    assert_eq!(
        deallocate(&sender, vec![1, 2, 3], OffloadPolicy::UnlessBacklogged),
        Deallocation::Offloaded
    );
    assert_eq!(receiver.try_recv(), Ok(vec![1, 2, 3]));
    for _ in 0..DEALLOCATION_BACKLOG_THRESHOLD {
        assert_eq!(deallocate(&sender, vec![0], OffloadPolicy::Always), Deallocation::Offloaded);
    }
    assert_eq!(receiver.len(), DEALLOCATION_BACKLOG_THRESHOLD);
    // Too many objects wait: the next one is dropped on the spot.
    assert_eq!(
        deallocate(&sender, vec![9], OffloadPolicy::UnlessBacklogged),
        Deallocation::DroppedInline
    );
    assert_eq!(receiver.len(), DEALLOCATION_BACKLOG_THRESHOLD);
    assert_eq!(deallocate(&sender, vec![9], OffloadPolicy::Always), Deallocation::Offloaded);
    assert_eq!(receiver.len(), DEALLOCATION_BACKLOG_THRESHOLD + 1);
    drop(receiver);
    assert_eq!(
        deallocate(&sender, vec![7], OffloadPolicy::Always),
        Deallocation::Disconnected(vec![7])
    );
}

#[test]
fn a_barrier_is_answered_at_once() {
    let (sender, receiver) = crossbeam_channel::unbounded::<()>();
    assert_eq!(
        handle_compute_manifest_request(ComputeManifestRequest::Wait { sender }),
        ManifestWork::Notified
    );
    assert_eq!(receiver.try_recv(), Ok(()));
    let (sender, receiver) = crossbeam_channel::unbounded::<()>();
    drop(receiver);
    assert_eq!(
        handle_compute_manifest_request(ComputeManifestRequest::Wait { sender }),
        ManifestWork::WaiterGone
    );
    let job = ManifestJob { checkpoint_height: 4, manifest_delta: None };
    assert_eq!(
        handle_compute_manifest_request(ComputeManifestRequest::Compute(job.clone())),
        ManifestWork::Compute(job)
    );
}

#[test]
fn active_state_syncs_are_tracked_by_height() {
    let mut refs = state_manager::state_sync::StateSyncRefs::new();
    assert!(refs.is_empty());
    assert_eq!(refs.insert(7, vec![1]), None);
    assert_eq!(refs.insert(7, vec![2]), Some(vec![1]));
    assert_eq!(refs.get(7), Some(vec![2]));
    assert_eq!(refs.get(8), None);
    assert!(!refs.is_empty());
    assert_eq!(refs.remove(8), None);
    assert_eq!(refs.remove(7), Some(vec![2]));
    assert!(refs.is_empty());
}

#[test]
fn certification_masks_select_states() {
    assert!(CertificationMask::cert_certified().matches(true));
    assert!(!CertificationMask::cert_certified().matches(false));
    assert!(!CertificationMask::cert_uncertified().matches(true));
    assert!(CertificationMask::cert_uncertified().matches(false));
    assert!(CertificationMask::cert_any().matches(true));
    assert!(CertificationMask::cert_any().matches(false));
    assert!(hash_eq(&vec![1, 2], &vec![1, 2]));
    assert!(!hash_eq(&vec![1, 2], &vec![1, 3]));
    assert!(!hash_eq(&vec![1, 2], &vec![1]));
}
