use state_manager::height_map::{HeightMap, HeightSet};
use state_manager::manifest::{FileInfo, Manifest};
use state_manager::metadata::StateMetadata;
use state_manager::state_manager::certification::CertificationCheck;
use state_manager::state_manager::commit::CommitError;
use state_manager::state_manager::fetch::{FetchDecision, FetchError, SyncOutcome};
use state_manager::state_manager::query::StateLookup;
use state_manager::state_manager::tip::{PrevHashCheck, PrevStateHash, TakeTipError, TipCheckout};
use state_manager::state_manager::{LoadedCheckpoint, StateManagerImpl};
use state_manager::types::{
    Certification, CertificationMask, CertificationScope, PermanentStateHashError,
    StateHashError, StateManagerError, TransientStateHashError,
};

type Manager = StateManagerImpl<String, u32>;

fn hash_of(height: u64) -> Vec<u8> {
    vec![height as u8, 0xAA]
}

fn manifest_of(height: u64) -> Manifest {
    Manifest {
        version: 1,
        file_table: vec![FileInfo {
            relative_path: format!("state_{}", height),
            size_bytes: 100 * height,
            hash: vec![height as u8],
        }],
        chunk_table: vec![],
    }
}

fn loaded(height: u64) -> LoadedCheckpoint<String, u32> {
    LoadedCheckpoint {
        height,
        state: format!("state@{}", height),
        hash_tree: height as u32,
        certified_state_hash: hash_of(height),
    }
}

fn empty_manager() -> Manager {
    Manager::new(vec![], HeightMap::new(), "genesis".to_string(), "tip".to_string()).0
}

fn take(manager: &mut Manager) -> (u64, String) {
    assert_eq!(manager.check_take_tip(), Ok(()));
    match manager.take_tip() {
        TipCheckout::Current { height, state, .. } => (height, state),
        TipCheckout::Newer { height, stale, .. } => (height, stale),
    }
}

fn commit(manager: &mut Manager, height: u64, scope: CertificationScope) {
    let (_, state) = take(manager);
    assert_eq!(manager.check_commit(height, &hash_of(height)), Ok(()));
    manager.commit_and_certify(
        state,
        format!("state@{}", height),
        height,
        scope,
        height as u32,
        hash_of(height),
        None,
        false,
    );
}

fn certify(manager: &mut Manager, height: u64) -> Vec<u32> {
    let certification = Certification { height, hash: hash_of(height), signature: vec![1] };
    assert_eq!(manager.check_certification(&certification), CertificationCheck::Matches);
    manager
        .deliver_state_certification(certification)
        .into_iter()
        .map(|tree| *tree)
        .collect()
}

#[test]
fn new_store_holds_the_initial_state() {
    let manager = empty_manager();
    assert_eq!(manager.latest_state_height(), 0);
    assert_eq!(manager.latest_certified_height(), 0);
    assert_eq!(manager.resident_state_count(), 1);
    assert_eq!(manager.tip_height(), Some(0));
    assert_eq!(manager.fetch_state_target(), None);
    let latest = manager.get_latest_state();
    assert_eq!(latest.height, 0);
    assert_eq!(latest.value.as_str(), "genesis");
    assert_eq!(manager.list_state_heights(CertificationMask::cert_any(), &vec![]), vec![0]);
}

#[test]
fn new_store_takes_over_the_checkpoints_on_disk() {
    let mut metadatas = HeightMap::new();
    metadatas.insert(10, StateMetadata::from_persisted(Some((manifest_of(10), vec![10]))));
    metadatas.insert(20, StateMetadata::from_persisted(None));
    metadatas.insert(
        30,
        StateMetadata {
            checkpoint_ref: None,
            root_hash: Some(vec![30]),
            manifest: None,
            state_sync_file_group: None,
        },
    );
    let (manager, jobs) = Manager::new(
        vec![loaded(10), loaded(20), loaded(30)],
        metadatas,
        "genesis".to_string(),
        "tip".to_string(),
    );
    assert_eq!(manager.latest_state_height(), 30);
    assert_eq!(manager.tip_height(), Some(30));
    assert_eq!(manager.resident_state_count(), 4);
    assert_eq!(manager.checkpoint_heights(), vec![10, 20, 30]);
    // The manifest is computed again where the manifest or the hash is missing.
    let job_heights: Vec<u64> = jobs.iter().map(|j| j.checkpoint_height).collect();
    assert_eq!(job_heights, vec![20, 30]);
    assert!(jobs.iter().all(|j| j.manifest_delta.is_none()));
    assert_eq!(manager.get_state_hash_at(10), Ok(vec![10]));
    assert_eq!(
        manager.get_state_hash_at(30),
        Err(StateHashError::Transient(TransientStateHashError::HashNotComputedYet(30)))
    );
    let m10 = manager.state_metadata(10).unwrap();
    assert_eq!(m10.manifest, Some(manifest_of(10)));
    assert_eq!(m10.checkpoint_ref.as_ref().unwrap().height(), 10);
    assert!(!m10.checkpoint_ref.as_ref().unwrap().is_marked_deleted());
    let m30 = manager.state_metadata(30).unwrap();
    assert_eq!(m30.root_hash, None);
    assert_eq!(m30.manifest, None);
    let c20 = manager.certification_metadata(20).unwrap();
    assert_eq!(c20.certified_state_hash, hash_of(20));
    assert_eq!(c20.hash_tree.as_deref(), Some(&20));
    assert!(c20.certification.is_none());
}

#[test]
fn manifest_and_root_hash_are_set_together() {
    let mut manager = empty_manager();
    commit(&mut manager, 1, CertificationScope::Full);
    let fresh = manager.state_metadata(1).unwrap();
    assert!(fresh.manifest.is_none() && fresh.root_hash.is_none());
    assert!(manager.record_manifest(1, manifest_of(1), vec![1]));
    let stored = manager.state_metadata(1).unwrap();
    assert!(stored.manifest.is_some() && stored.root_hash.is_some());
    assert_eq!(manager.get_state_hash_at(1), Ok(vec![1]));
    // A manifest for a checkpoint that is gone is dropped.
    assert!(!manager.record_manifest(2, manifest_of(2), vec![2]));
    assert!(manager.state_metadata(2).is_none());
    let persisted = manager.metadata_to_persist();
    assert_eq!(persisted.len(), 1);
    assert_eq!(persisted[0].0, 1);
    assert_eq!(persisted[0].1, Some(&manifest_of(1)));
}

#[test]
fn snapshot_heights_increase_from_zero() {
    let mut manager = empty_manager();
    commit(&mut manager, 3, CertificationScope::Metadata);
    commit(&mut manager, 7, CertificationScope::Full);
    commit(&mut manager, 7, CertificationScope::Full);
    commit(&mut manager, 5, CertificationScope::Metadata);
    assert_eq!(
        manager.list_state_heights(CertificationMask::cert_any(), &vec![]),
        vec![0, 3, 7]
    );
    assert_eq!(manager.latest_state_height(), 7);
    assert_eq!(manager.tip_height(), Some(5));
    assert_eq!(manager.oldest_resident_height(), 3);
}

#[test]
fn a_tip_below_a_snapshot_that_is_no_checkpoint_cannot_be_taken() {
    let mut manager = empty_manager();
    commit(&mut manager, 3, CertificationScope::Metadata);
    commit(&mut manager, 1, CertificationScope::Metadata);
    assert_eq!(manager.tip_height(), Some(1));
    assert_eq!(manager.check_take_tip(), Err(TakeTipError::MissingCheckpoint { height: 3 }));
}

#[test]
fn committing_an_outdated_state_keeps_it_as_tip_only() {
    let mut manager = empty_manager();
    commit(&mut manager, 5, CertificationScope::Metadata);
    let (_, state) = take(&mut manager);
    let outcome = manager.commit_and_certify(
        state,
        "older".to_string(),
        2,
        CertificationScope::Full,
        2,
        hash_of(2),
        None,
        false,
    );
    assert_eq!(outcome.compute_manifest, None);
    assert!(outcome.persist_metadata);
    assert_eq!(manager.tip_height(), Some(2));
    assert_eq!(manager.latest_state_height(), 5);
    assert_eq!(manager.resident_state_count(), 2);
    assert!(manager.state_metadata(2).is_none());
}

#[test]
fn full_commit_asks_for_the_manifest() {
    let mut manager = empty_manager();
    let (_, state) = take(&mut manager);
    let outcome = manager.commit_and_certify(
        state,
        "one".to_string(),
        1,
        CertificationScope::Full,
        1,
        hash_of(1),
        None,
        true,
    );
    assert!(outcome.persist_metadata);
    let job = outcome.compute_manifest.unwrap();
    assert_eq!(job.checkpoint_height, 1);
    assert_eq!(job.manifest_delta, None);
    let (_, state) = take(&mut manager);
    let outcome = manager.commit_and_certify(
        state,
        "two".to_string(),
        2,
        CertificationScope::Metadata,
        2,
        hash_of(2),
        None,
        false,
    );
    assert!(!outcome.persist_metadata);
    assert_eq!(outcome.compute_manifest, None);
    assert_eq!(manager.checkpoint_heights(), vec![1]);
}

#[test]
fn committing_twice_with_different_hashes_is_refused() {
    let mut manager = empty_manager();
    commit(&mut manager, 1, CertificationScope::Full);
    let (_, _state) = take(&mut manager);
    assert_eq!(manager.check_commit(1, &hash_of(1)), Ok(()));
    assert_eq!(
        manager.check_commit(1, &vec![0xFF, 0xFF]),
        Err(CommitError::HashMismatch { height: 1 })
    );
}

#[test]
fn committing_without_taking_the_tip_is_refused() {
    let mut manager = empty_manager();
    commit(&mut manager, 1, CertificationScope::Metadata);
    assert_eq!(
        manager.check_commit(2, &hash_of(2)),
        Err(CommitError::StateNotBorrowed { height: 2, tip_height: 1 })
    );
}

#[test]
fn the_tip_can_be_taken_only_once() {
    let mut manager = empty_manager();
    let (height, _state) = take(&mut manager);
    assert_eq!(height, 0);
    assert_eq!(manager.tip_height(), None);
    assert_eq!(manager.check_take_tip(), Err(TakeTipError::TipCheckedOut));
}

#[test]
fn take_tip_names_the_hash_of_the_predecessor() {
    let mut manager = empty_manager();
    match manager.take_tip() {
        TipCheckout::Current { height, state, prev_state_hash } => {
            assert_eq!(height, 0);
            assert_eq!(state, "tip");
            assert_eq!(prev_state_hash, PrevStateHash::OfInitialState);
            manager.commit_and_certify(
                state,
                "one".to_string(),
                1,
                CertificationScope::Metadata,
                1,
                hash_of(1),
                None,
                false,
            );
        }
        TipCheckout::Newer { .. } => panic!("no newer snapshot"),
    }
    match manager.take_tip() {
        TipCheckout::Current { height, prev_state_hash, .. } => {
            assert_eq!(height, 1);
            assert_eq!(prev_state_hash, PrevStateHash::Certified(hash_of(1)));
        }
        TipCheckout::Newer { .. } => panic!("no newer snapshot"),
    }
}

#[test]
fn take_tip_finds_a_synced_state() {
    let mut manager = empty_manager();
    commit(&mut manager, 1, CertificationScope::Metadata);
    assert_eq!(
        manager.on_synced_checkpoint("synced".to_string(), 9, manifest_of(9), vec![9], 9, hash_of(9)),
        SyncOutcome::Stored
    );
    assert_eq!(manager.tip_height(), Some(1));
    assert_eq!(manager.latest_state_height(), 9);
    match manager.take_tip() {
        TipCheckout::Newer { height, stale, prev_state_hash } => {
            assert_eq!(height, 9);
            assert_eq!(stale, "tip");
            assert_eq!(prev_state_hash, PrevStateHash::Certified(hash_of(9)));
        }
        TipCheckout::Current { .. } => panic!("the synced state is newer"),
    }
    match manager.get_state_at(9) {
        StateLookup::Resident(labeled) => assert_eq!(labeled.value.as_str(), "synced"),
        _ => panic!("the synced state is resident"),
    }
}

#[test]
fn take_tip_at_puts_the_tip_back_at_another_height() {
    let mut manager = empty_manager();
    commit(&mut manager, 4, CertificationScope::Metadata);
    let (tip_height, state) = take(&mut manager);
    assert_eq!(tip_height, 4);
    assert_eq!(manager.take_tip_at(3, state), Err(StateManagerError::StateRemoved(3)));
    assert_eq!(manager.tip_height(), Some(4));
    let (_, state) = take(&mut manager);
    assert_eq!(manager.take_tip_at(5, state), Err(StateManagerError::StateNotCommittedYet(5)));
    let (_, state) = take(&mut manager);
    assert_eq!(manager.take_tip_at(4, state), Ok("tip".to_string()));
    assert_eq!(manager.tip_height(), None);
}

#[test]
fn prev_state_hash_is_checked_against_the_predecessor() {
    let mut manager = empty_manager();
    commit(&mut manager, 1, CertificationScope::Metadata);
    commit(&mut manager, 2, CertificationScope::Metadata);
    assert_eq!(manager.check_prev_state_hash(0, None), PrevHashCheck::NotChecked);
    assert_eq!(manager.check_prev_state_hash(1, None), PrevHashCheck::NotChecked);
    assert_eq!(manager.check_prev_state_hash(3, Some(&hash_of(2))), PrevHashCheck::Matches);
    assert_eq!(manager.check_prev_state_hash(3, Some(&hash_of(1))), PrevHashCheck::Mismatch);
    assert_eq!(manager.check_prev_state_hash(3, None), PrevHashCheck::Mismatch);
    assert_eq!(manager.check_prev_state_hash(9, Some(&hash_of(8))), PrevHashCheck::PredecessorRemoved);
}

#[test]
fn state_hash_errors() {
    let mut manager = empty_manager();
    assert_eq!(
        manager.get_state_hash_at(1),
        Err(StateHashError::Transient(TransientStateHashError::StateNotCommittedYet(1)))
    );
    commit(&mut manager, 2, CertificationScope::Metadata);
    commit(&mut manager, 3, CertificationScope::Full);
    commit(&mut manager, 4, CertificationScope::Metadata);
    assert_eq!(
        manager.get_state_hash_at(1),
        Err(StateHashError::Permanent(PermanentStateHashError::StateRemoved(1)))
    );
    assert_eq!(
        manager.get_state_hash_at(2),
        Err(StateHashError::Permanent(PermanentStateHashError::StateNotFullyCertified(2)))
    );
    assert_eq!(
        manager.get_state_hash_at(3),
        Err(StateHashError::Transient(TransientStateHashError::HashNotComputedYet(3)))
    );
    assert_eq!(
        manager.get_state_hash_at(5),
        Err(StateHashError::Transient(TransientStateHashError::StateNotCommittedYet(5)))
    );
    manager.record_manifest(3, manifest_of(3), vec![3, 3]);
    assert_eq!(manager.get_state_hash_at(3), Ok(vec![3, 3]));
}

#[test]
fn remove_states_below_keeps_checkpoints_and_evicts_the_rest() {
    let (mut manager, _) = Manager::new(
        vec![loaded(10), loaded(20)],
        HeightMap::new(),
        "genesis".to_string(),
        "tip".to_string(),
    );
    commit(&mut manager, 22, CertificationScope::Metadata);
    commit(&mut manager, 30, CertificationScope::Full);
    let on_disk = HeightSet::from_heights(&vec![10, 20, 30]);
    let removed = manager.remove_states_below(25, &on_disk);
    assert_eq!(
        manager.list_state_heights(CertificationMask::cert_any(), &vec![]),
        vec![0, 20, 30]
    );
    assert_eq!(manager.checkpoint_heights(), vec![20, 30]);
    // The snapshot at 22 and the checkpoint at 10 are handed back.
    assert_eq!(removed.snapshots.key_vec(), vec![10, 22]);
    assert_eq!(removed.certifications_metadata.key_vec(), vec![10, 22]);
    assert_eq!(removed.states_metadata.key_vec(), vec![10]);
    let evicted = removed.states_metadata.get(10).unwrap();
    assert!(evicted.checkpoint_ref.as_ref().unwrap().is_marked_deleted());
    assert_eq!(evicted.checkpoint_ref.as_ref().unwrap().checkpoint_to_remove(), Some(10));
    assert!(removed.persist_metadata);
    assert_eq!(removed.min_resident_height, 0);
    // What stays is not marked.
    let kept = manager.state_metadata(20).unwrap();
    assert!(!kept.checkpoint_ref.as_ref().unwrap().is_marked_deleted());
    assert_eq!(kept.checkpoint_ref.as_ref().unwrap().checkpoint_to_remove(), None);
    assert_eq!(manager.latest_state_height(), 30);
}

#[test]
fn remove_states_below_twice_changes_nothing_the_second_time() {
    let (mut manager, _) = Manager::new(
        vec![loaded(10), loaded(20)],
        HeightMap::new(),
        "genesis".to_string(),
        "tip".to_string(),
    );
    commit(&mut manager, 22, CertificationScope::Metadata);
    commit(&mut manager, 30, CertificationScope::Full);
    certify(&mut manager, 22);
    let on_disk = HeightSet::from_heights(&vec![10, 20, 30]);
    manager.remove_states_below(28, &on_disk);
    let heights = manager.list_state_heights(CertificationMask::cert_any(), &vec![]);
    assert_eq!(heights, vec![0, 20, 22, 30]);
    let again = manager.remove_states_below(28, &on_disk);
    assert_eq!(manager.list_state_heights(CertificationMask::cert_any(), &vec![]), heights);
    assert!(again.snapshots.is_empty());
    assert!(again.certifications_metadata.is_empty());
    assert!(again.states_metadata.is_empty());
    assert!(!again.persist_metadata);
    // The same holds once the evicted checkpoint has left the disk.
    let on_disk_after = HeightSet::from_heights(&vec![20, 30]);
    let third = manager.remove_states_below(28, &on_disk_after);
    assert!(third.snapshots.is_empty());
    assert_eq!(manager.list_state_heights(CertificationMask::cert_any(), &vec![]), heights);
}

#[test]
fn remove_states_below_never_removes_the_latest_state() {
    let mut manager = empty_manager();
    commit(&mut manager, 1, CertificationScope::Metadata);
    commit(&mut manager, 2, CertificationScope::Metadata);
    commit(&mut manager, 3, CertificationScope::Metadata);
    let removed = manager.remove_states_below(100, &HeightSet::new());
    assert_eq!(removed.snapshots.key_vec(), vec![1, 2]);
    assert_eq!(
        manager.list_state_heights(CertificationMask::cert_any(), &vec![]),
        vec![0, 3]
    );
    assert_eq!(removed.min_resident_height, 0);
    assert!(!removed.persist_metadata);
}

#[test]
fn remove_inmemory_states_below_spares_checkpoints() {
    let mut manager = empty_manager();
    commit(&mut manager, 1, CertificationScope::Full);
    commit(&mut manager, 2, CertificationScope::Metadata);
    commit(&mut manager, 3, CertificationScope::Full);
    commit(&mut manager, 4, CertificationScope::Metadata);
    commit(&mut manager, 5, CertificationScope::Metadata);
    let removed = manager.remove_inmemory_states_below(5);
    assert_eq!(removed.snapshots.key_vec(), vec![2, 4]);
    assert!(removed.states_metadata.is_empty());
    assert!(!removed.persist_metadata);
    assert_eq!(manager.checkpoint_heights(), vec![1, 3]);
    assert_eq!(
        manager.list_state_heights(CertificationMask::cert_any(), &vec![]),
        vec![0, 1, 3, 5]
    );
}

#[test]
fn the_latest_certified_state_survives_eviction() {
    let mut manager = empty_manager();
    commit(&mut manager, 1, CertificationScope::Metadata);
    commit(&mut manager, 2, CertificationScope::Metadata);
    commit(&mut manager, 3, CertificationScope::Metadata);
    certify(&mut manager, 1);
    assert_eq!(manager.latest_certified_height(), 1);
    let removed = manager.remove_states_below(3, &HeightSet::new());
    assert_eq!(removed.snapshots.key_vec(), vec![2]);
    assert_eq!(manager.latest_certified_height(), 1);
    assert_eq!(
        manager.list_state_heights(CertificationMask::cert_certified(), &vec![]),
        vec![1]
    );
    assert_eq!(
        manager.list_state_heights(CertificationMask::cert_uncertified(), &vec![7, 3]),
        vec![0, 3, 7]
    );
}

#[test]
fn fetch_state_keeps_the_highest_target() {
    let mut manager = empty_manager();
    assert_eq!(manager.check_fetch(50, &vec![5]), Ok(()));
    assert_eq!(manager.fetch_state(50, &vec![5], 10), FetchDecision::NewTarget);
    assert_eq!(manager.check_fetch(40, &vec![4]), Ok(()));
    assert_eq!(manager.fetch_state(40, &vec![4], 10), FetchDecision::Ignored { target: 50 });
    let target = manager.fetch_state_target().unwrap();
    assert_eq!((target.height, target.root_hash.clone()), (50, vec![5]));
    assert_eq!(manager.fetch_state(50, &vec![5], 10), FetchDecision::TargetUnchanged);
    assert_eq!(manager.check_fetch(60, &vec![6]), Ok(()));
    assert_eq!(manager.fetch_state(60, &vec![6], 20), FetchDecision::TargetRaised { from: 50 });
    let target = manager.fetch_state_target().unwrap();
    assert_eq!(target.height, 60);
    assert_eq!(target.root_hash, vec![6]);
    assert_eq!(target.cup_interval_length, 20);
}

#[test]
fn fetch_state_with_another_hash_is_refused() {
    let mut manager = empty_manager();
    manager.fetch_state(50, &vec![5], 10);
    assert_eq!(
        manager.check_fetch(50, &vec![6]),
        Err(FetchError::TargetHashMismatch { height: 50 })
    );
    commit(&mut manager, 1, CertificationScope::Full);
    manager.record_manifest(1, manifest_of(1), vec![1]);
    assert_eq!(manager.check_fetch(1, &vec![1]), Ok(()));
    assert_eq!(manager.check_fetch(1, &vec![2]), Err(FetchError::HashMismatch { height: 1 }));
}

#[test]
fn fetch_state_of_known_states_does_nothing() {
    let mut manager = empty_manager();
    commit(&mut manager, 2, CertificationScope::Metadata);
    commit(&mut manager, 3, CertificationScope::Full);
    commit(&mut manager, 4, CertificationScope::Full);
    manager.record_manifest(4, manifest_of(4), vec![4]);
    assert_eq!(manager.fetch_state(1, &vec![9], 10), FetchDecision::StateRemoved);
    assert_eq!(manager.fetch_state(2, &vec![9], 10), FetchDecision::NotFullyCertified);
    assert_eq!(manager.fetch_state(3, &vec![9], 10), FetchDecision::HashNotComputedYet);
    assert_eq!(manager.fetch_state(4, &vec![4], 10), FetchDecision::AlreadyPresent);
    assert_eq!(manager.fetch_state_target(), None);
    // A state that is not there yet, with the root hash of a checkpoint of the store.
    assert_eq!(manager.fetch_state(8, &vec![4], 10), FetchDecision::CopyCheckpoint { from: 4 });
    assert_eq!(manager.fetch_state_target(), None);
    assert_eq!(manager.set_fetch_target(8, &vec![4], 10), FetchDecision::NewTarget);
    assert_eq!(manager.fetch_state_target().unwrap().height, 8);
}

#[test]
fn a_synced_state_ends_the_fetch() {
    let mut manager = empty_manager();
    manager.fetch_state(50, &vec![5], 10);
    assert_eq!(
        manager.on_synced_checkpoint("s".to_string(), 40, manifest_of(40), vec![4], 40, hash_of(40)),
        SyncOutcome::Stored
    );
    assert_eq!(manager.fetch_state_target().unwrap().height, 50);
    assert_eq!(
        manager.on_synced_checkpoint("s".to_string(), 50, manifest_of(50), vec![5], 50, hash_of(50)),
        SyncOutcome::Stored
    );
    assert_eq!(manager.fetch_state_target(), None);
    assert_eq!(
        manager.on_synced_checkpoint("s".to_string(), 45, manifest_of(45), vec![4], 45, hash_of(45)),
        SyncOutcome::AlreadyPresent
    );
    assert_eq!(manager.checkpoint_heights(), vec![40, 50]);
    assert_eq!(manager.get_state_hash_at(50), Ok(vec![5]));
    assert_eq!(manager.find_checkpoint_by_root_hash(&vec![4]).unwrap().0, 40);
    assert!(manager.find_checkpoint_by_root_hash(&vec![7]).is_none());
}

#[test]
fn a_certification_with_another_hash_means_divergence() {
    let mut manager = empty_manager();
    commit(&mut manager, 1, CertificationScope::Metadata);
    let wrong = Certification { height: 1, hash: vec![0xBA, 0xD0], signature: vec![] };
    assert_eq!(manager.check_certification(&wrong), CertificationCheck::Diverged);
    let unknown = Certification { height: 2, hash: hash_of(2), signature: vec![] };
    assert_eq!(manager.check_certification(&unknown), CertificationCheck::UnknownHeight);
    assert!(manager.deliver_state_certification(unknown).is_empty());
    assert_eq!(manager.latest_certified_height(), 0);
}

#[test]
fn a_certification_releases_the_hash_trees_below() {
    let mut manager = empty_manager();
    commit(&mut manager, 1, CertificationScope::Metadata);
    commit(&mut manager, 2, CertificationScope::Metadata);
    commit(&mut manager, 3, CertificationScope::Metadata);
    let hashes = manager.list_state_hashes_to_certify();
    assert_eq!(hashes, vec![(1, hash_of(1)), (2, hash_of(2)), (3, hash_of(3))]);
    assert!(manager.latest_certified_state().is_none());
    assert_eq!(certify(&mut manager, 2), vec![1]);
    assert_eq!(manager.latest_certified_height(), 2);
    assert_eq!(manager.list_state_hashes_to_certify(), vec![(1, hash_of(1)), (3, hash_of(3))]);
    let (height, state, certification, tree) = manager.latest_certified_state().unwrap();
    assert_eq!((height, state.as_str(), certification.height, **tree), (2, "state@2", 2, 2));
    // A certification of a lower height leaves the later trees alone.
    assert_eq!(certify(&mut manager, 1), Vec::<u32>::new());
    assert_eq!(manager.latest_certified_height(), 2);
    assert_eq!(certify(&mut manager, 3), vec![2]);
    assert_eq!(manager.latest_certified_state().unwrap().0, 3);
    assert!(manager.certification_metadata(1).unwrap().hash_tree.is_none());
    assert!(manager.certification_metadata(1).unwrap().certification.is_some());
}

#[test]
fn get_state_at_tells_where_a_state_is() {
    let mut manager = empty_manager();
    commit(&mut manager, 1, CertificationScope::Metadata);
    commit(&mut manager, 3, CertificationScope::Metadata);
    assert!(matches!(manager.get_state_at(4), StateLookup::NotCommittedYet));
    assert!(matches!(manager.get_state_at(2), StateLookup::NotResident));
    match manager.get_state_at(3) {
        StateLookup::Resident(labeled) => {
            assert_eq!(labeled.height, 3);
            assert_eq!(labeled.value.as_str(), "state@3");
        }
        _ => panic!("state 3 is resident"),
    }
}

#[test]
fn a_diverged_checkpoint_takes_the_later_ones_with_it() {
    let mut manager = empty_manager();
    commit(&mut manager, 1, CertificationScope::Full);
    commit(&mut manager, 2, CertificationScope::Full);
    commit(&mut manager, 3, CertificationScope::Full);
    let to_remove = manager.report_diverged_checkpoint(2, &vec![1, 2, 3, 4]);
    assert_eq!(to_remove, vec![3, 4]);
    assert_eq!(manager.checkpoint_heights(), vec![1]);
}

#[test]
fn latest_manifest_is_that_of_the_last_checkpoint_with_one() {
    let mut manager = empty_manager();
    commit(&mut manager, 1, CertificationScope::Full);
    commit(&mut manager, 2, CertificationScope::Full);
    commit(&mut manager, 3, CertificationScope::Full);
    assert!(manager.latest_manifest(&vec![1, 2, 3]).is_none());
    assert!(manager.latest_manifest_base().is_none());
    manager.record_manifest(1, manifest_of(1), vec![1]);
    manager.record_manifest(2, manifest_of(2), vec![2]);
    let (manifest, checkpoint_ref) = manager.latest_manifest(&vec![1, 2, 3]).unwrap();
    assert_eq!(manifest, &manifest_of(2));
    assert_eq!(checkpoint_ref.height(), 2);
    let (manifest, _) = manager.latest_manifest(&vec![1, 3]).unwrap();
    assert_eq!(manifest, &manifest_of(1));
    let (height, manifest, state) = manager.latest_manifest_base().unwrap();
    assert_eq!((height, manifest, state.as_str()), (2, &manifest_of(2), "state@2"));
    assert_eq!(manifest_of(2).state_size_bytes(), 200);
}
