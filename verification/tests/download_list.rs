use state_manager::download_list::{
    compute_download_eta_ms, Advert, ArtifactDownloadListImpl, ArtifactTracker, GossipConfig,
    Scheduled,
};

/// Stands for the artifact manager: the quota of every peer and whether
/// artifacts have a chunk tracker.
struct TestArtifactManager {
    quota: usize,
    num_chunks: u32,
}

fn default_gossip_config() -> GossipConfig {
    GossipConfig { max_chunk_size: 4096, max_chunk_wait_ms: 15_000, max_artifact_timeout_ms: 60_000 }
}

type DownloadList = ArtifactDownloadListImpl<String, u32>;

/// Schedules the download of the given number of adverts at `now` and
/// returns the latest expiry.
fn try_begin_download(
    num_adverts: i32,
    gossip_config: &GossipConfig,
    artifact_manager: &TestArtifactManager,
    artifact_download_list: &mut DownloadList,
    now: u64,
) -> u64 {
    let mut max_expiry = now;
    for advert_id in 0..num_adverts {
        let integrity_hash = vec![u8::try_from(advert_id).unwrap()];
        let gossip_advert = Advert {
            artifact_id: advert_id.to_string(),
            size: 0,
            integrity_hash: integrity_hash.clone(),
        };
        let scheduled = artifact_download_list.schedule_download(
            0,
            gossip_advert,
            gossip_config,
            1,
            now,
            Some(artifact_manager.quota),
            Some(artifact_manager.num_chunks),
        );
        assert_eq!(scheduled, Scheduled::New);
        let tracker = artifact_download_list.tracker(&integrity_hash).unwrap();
        if tracker.expiry_instant() > max_expiry {
            max_expiry = tracker.expiry_instant();
        }
    }
    max_expiry
}

/// Artifact trackers can be removed from the artifact download list.
#[test]
fn download_list_remove_test() {
    let artifact_manager = TestArtifactManager { quota: usize::MAX, num_chunks: 0 };
    let mut artifact_download_list = DownloadList::new();
    let mut gossip_config = default_gossip_config();
    gossip_config.max_chunk_wait_ms = 1000;
    let num_adverts = 30;
    let _max_expiry = try_begin_download(
        num_adverts,
        &gossip_config,
        &artifact_manager,
        &mut artifact_download_list,
        0,
    );

    for num in 0..num_adverts {
        let integrity_hash = vec![u8::try_from(num).unwrap()];
        artifact_download_list.get_tracker(&integrity_hash).unwrap();
        artifact_download_list.remove_tracker(&integrity_hash);
    }
    assert_eq!(artifact_download_list.len(), 0);
}

/// The artifact download list is pruned when artifact downloads expire.
#[test]
fn download_list_expire_test() {
    let artifact_manager = TestArtifactManager { quota: usize::MAX, num_chunks: 0 };
    let mut artifact_download_list = DownloadList::new();
    let mut gossip_config = default_gossip_config();
    gossip_config.max_chunk_wait_ms = 1000;
    let num_adverts = 30;
    let max_expiry = try_begin_download(
        num_adverts,
        &gossip_config,
        &artifact_manager,
        &mut artifact_download_list,
        5,
    );
    assert_eq!(max_expiry, 1005);
    // Nothing has expired at the instant of the expiry itself.
    assert_eq!(artifact_download_list.prune_expired_downloads(max_expiry).len(), 0);
    assert_eq!(artifact_download_list.len(), num_adverts as usize);

    let expired = artifact_download_list.prune_expired_downloads(max_expiry + 1);
    assert_eq!(expired.len(), num_adverts as usize);
    assert_eq!(artifact_download_list.len(), 0);
    assert_eq!(expired[0], ("0".to_string(), vec![0]));
    assert_eq!(expired[29], ("29".to_string(), vec![29]));

    // Check that the expired artifact list is empty.
    let expired = artifact_download_list.prune_expired_downloads(max_expiry + 1);
    assert_eq!(expired.len(), 0);
    assert_eq!(artifact_download_list.len(), 0);
}

fn advert(id: &str, size: usize, hash: u8) -> Advert<String> {
    Advert { artifact_id: id.to_string(), size, integrity_hash: vec![hash] }
}

#[test]
fn downloads_expire_in_the_order_of_their_expiry() {
    let config =
        GossipConfig { max_chunk_size: 10, max_chunk_wait_ms: 100, max_artifact_timeout_ms: 10_000 };
    let mut list = DownloadList::new();
    // 5 chunks, 2 peers: 1000 ms.
    assert_eq!(list.schedule_download(7, advert("a", 50, 1), &config, 2, 0, Some(50), Some(1)), Scheduled::New);
    // 1 chunk, 1 peer: 100 ms.
    assert_eq!(list.schedule_download(8, advert("b", 3, 2), &config, 1, 0, Some(50), Some(2)), Scheduled::New);
    // The same expiry as "a", scheduled later.
    assert_eq!(list.schedule_download(9, advert("c", 100, 3), &config, 1, 0, Some(100), Some(3)), Scheduled::New);
    assert_eq!(list.tracker(&vec![1]).unwrap().expiry_instant(), 1000);
    assert_eq!(list.tracker(&vec![2]).unwrap().expiry_instant(), 100);
    assert_eq!(list.tracker(&vec![3]).unwrap().expiry_instant(), 1000);
    assert_eq!(list.tracker(&vec![3]).unwrap().peer_id, 9);
    assert_eq!(list.tracker(&vec![3]).unwrap().artifact_id(), "c");
    assert_eq!(list.prune_expired_downloads(100), vec![]);
    assert_eq!(list.prune_expired_downloads(101), vec![("b".to_string(), vec![2])]);
    assert_eq!(
        list.prune_expired_downloads(2000),
        vec![("a".to_string(), vec![1]), ("c".to_string(), vec![3])]
    );
    assert_eq!(list.len(), 0);
}

#[test]
fn downloads_are_not_scheduled_twice_nor_without_quota() {
    let config =
        GossipConfig { max_chunk_size: 10, max_chunk_wait_ms: 100, max_artifact_timeout_ms: 10_000 };
    let mut list = DownloadList::new();
    assert_eq!(list.schedule_download(7, advert("a", 50, 1), &config, 2, 0, None, Some(1)), Scheduled::NoQuota);
    assert_eq!(list.schedule_download(7, advert("a", 50, 1), &config, 2, 0, Some(49), Some(1)), Scheduled::NoQuota);
    assert_eq!(list.schedule_download(7, advert("a", 50, 1), &config, 2, 0, Some(50), None), Scheduled::NoChunkTracker);
    assert_eq!(list.len(), 0);
    assert!(list.tracker(&vec![1]).is_none());
    assert_eq!(list.schedule_download(7, advert("a", 50, 1), &config, 2, 0, Some(50), Some(1)), Scheduled::New);
    assert_eq!(list.schedule_download(8, advert("a2", 5, 1), &config, 2, 9, None, None), Scheduled::AlreadyTracked);
    assert_eq!(list.len(), 1);
    assert_eq!(list.tracker(&vec![1]).unwrap().peer_id, 7);
    // The tracker can be changed in place.
    list.get_tracker(&vec![1]).unwrap().chunkable = 42;
    assert_eq!(list.tracker(&vec![1]).unwrap().chunkable, 42);
    assert!(list.get_tracker(&vec![2]).is_none());
    list.remove_tracker(&vec![2]);
    assert_eq!(list.len(), 1);
}

#[test]
fn download_time_is_bounded() {
    let config =
        GossipConfig { max_chunk_size: 10, max_chunk_wait_ms: 100, max_artifact_timeout_ms: 10_000 };
    assert_eq!(compute_download_eta_ms(0, &config, 3), 300);
    assert_eq!(compute_download_eta_ms(9, &config, 3), 300);
    assert_eq!(compute_download_eta_ms(25, &config, 3), 600);
    assert_eq!(compute_download_eta_ms(1_000_000, &config, 3), 10_000);
    assert_eq!(compute_download_eta_ms(25, &config, 0), 0);
    let huge = GossipConfig {
        max_chunk_size: 1,
        max_chunk_wait_ms: u32::MAX,
        max_artifact_timeout_ms: u64::MAX,
    };
    assert_eq!(compute_download_eta_ms(usize::MAX, &huge, u32::MAX), u64::MAX);
    let tracker: ArtifactTracker<u8, u8> = ArtifactTracker::new(1, 50, 2, 3, 10);
    assert_eq!(tracker.get_duration_ms(25), 15);
    assert_eq!(tracker.get_duration_ms(5), 0);
}
