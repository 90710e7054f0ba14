//! The list of the artifacts that are being downloaded.
//!
//! A download is looked up by the integrity hash of its artifact. Each
//! download is given a finite time to conclude, which depends on the size of
//! the artifact and on the number of peers that can be asked for it; the list
//! is kept in the order in which the downloads expire.

use crate::types::{hash_eq, CryptoHash};
use vstd::prelude::*;

verus! {

/// Identifies a node.
pub type NodeId = u64;

/// A point in time, in milliseconds since some fixed start.
pub type Millis = u64;

/// What a peer announces of an artifact.
pub struct Advert<A> {
    pub artifact_id: A,
    /// The size of the artifact in bytes.
    pub size: usize,
    pub integrity_hash: CryptoHash,
}

/// How long downloads may take.
#[derive(Clone, Copy, Debug, PartialEq, Eq, Structural)]
pub struct GossipConfig {
    /// The largest size of a chunk in bytes.
    pub max_chunk_size: u32,
    /// How long to wait for a chunk, in milliseconds.
    pub max_chunk_wait_ms: u32,
    /// The longest time that the download of an artifact may take, in
    /// milliseconds.
    pub max_artifact_timeout_ms: u64,
}

/// Tracks the download of one artifact.
pub struct ArtifactTracker<A, C> {
    /// Artifact ID
    artifact_id: A,
    /// Time limit for the artifact download.
    expiry_instant: Millis,
    /// The artifact as far as it has been downloaded.
    pub chunkable: C,
    /// The ID of the node whose quota is charged for this artifact.
    pub peer_id: NodeId,
    /// When the download was scheduled.
    requested_instant: Millis,
}

impl<A, C> ArtifactTracker<A, C> {
    /// The ID of the artifact.
    pub closed spec fn spec_artifact_id(&self) -> A {
        self.artifact_id
    }

    /// When the download expires.
    pub closed spec fn spec_expiry_instant(&self) -> Millis {
        self.expiry_instant
    }

    /// When the download was scheduled.
    pub closed spec fn spec_requested_instant(&self) -> Millis {
        self.requested_instant
    }

    /// The artifact as far as it has been downloaded.
    pub closed spec fn spec_chunkable(&self) -> C {
        self.chunkable
    }

    /// The ID of the node whose quota is charged for this artifact.
    pub closed spec fn spec_peer_id(&self) -> NodeId {
        self.peer_id
    }

    /// A tracker for a download that is scheduled at `now`.
    pub fn new(artifact_id: A, expiry_instant: Millis, chunkable: C, peer_id: NodeId, now: Millis) -> (t:
        Self)
        ensures
            t.spec_artifact_id() == artifact_id,
            t.spec_expiry_instant() == expiry_instant,
            t.spec_chunkable() == chunkable,
            t.spec_peer_id() == peer_id,
            t.spec_requested_instant() == now,
    {
        ArtifactTracker { artifact_id, expiry_instant, chunkable, peer_id, requested_instant: now }
    }

    /// The ID of the artifact.
    pub fn artifact_id(&self) -> (id: &A)
        ensures
            *id == self.spec_artifact_id(),
    {
        &self.artifact_id
    }

    /// When the download expires.
    pub fn expiry_instant(&self) -> (t: Millis)
        ensures
            t == self.spec_expiry_instant(),
    {
        self.expiry_instant
    }

    /// How long the download has taken at `now`, in milliseconds.
    pub fn get_duration_ms(&self, now: Millis) -> (d: Millis)
        ensures
            d == (if now >= self.spec_requested_instant() {
                now - self.spec_requested_instant()
            } else {
                0
            }),
    {
        if now >= self.requested_instant {
            now - self.requested_instant
        } else {
            0
        }
    }
}

/// The worst-case time for the download of an artifact of `size` bytes, in
/// milliseconds: every chunk times out for each of the `max_peers` peers that
/// have advertised the artifact. The time is bound to the longest time that a
/// download may take.
pub open spec fn download_eta_ms(size: usize, config: GossipConfig, max_peers: u32) -> int {
    let chunks = if size as int / config.max_chunk_size as int >= 1 {
        size as int / config.max_chunk_size as int
    } else {
        1
    };
    let eta = chunks * max_peers * config.max_chunk_wait_ms;
    if eta <= config.max_artifact_timeout_ms {
        eta
    } else {
        config.max_artifact_timeout_ms as int
    }
}

/// Computes `download_eta_ms`.
pub fn compute_download_eta_ms(size: usize, config: &GossipConfig, max_peers: u32) -> (eta: Millis)
    requires
        config.max_chunk_size > 0,
    ensures
        eta == download_eta_ms(size, *config, max_peers),
        eta <= config.max_artifact_timeout_ms,
{
    let per_chunk: u64 = size as u64 / config.max_chunk_size as u64;
    let chunks: u128 = if per_chunk >= 1 {
        per_chunk as u128
    } else {
        1
    };
    let peers: u128 = max_peers as u128;
    let wait: u128 = config.max_chunk_wait_ms as u128;
    assert(chunks * peers <= 0xffff_ffff_ffff_ffff * 0xffff_ffff) by (nonlinear_arith)
        requires
            0 <= chunks <= 0xffff_ffff_ffff_ffff,
            0 <= peers <= 0xffff_ffff,
    ;
    let by_peers: u128 = chunks * peers;
    assert(by_peers * wait <= 0xffff_ffff_ffff_ffff * 0xffff_ffff * 0xffff_ffff) by (nonlinear_arith)
        requires
            0 <= by_peers <= 0xffff_ffff_ffff_ffff * 0xffff_ffff,
            0 <= wait <= 0xffff_ffff,
    ;
    let eta: u128 = by_peers * wait;
    if eta <= config.max_artifact_timeout_ms as u128 {
        eta as u64
    } else {
        config.max_artifact_timeout_ms
    }
}

/// One download of the list: the integrity hash of the artifact, when the
/// download expires, and its tracker.
pub struct Download<A, C> {
    integrity_hash: CryptoHash,
    expiry_instant: Millis,
    tracker: ArtifactTracker<A, C>,
}

/// The integrity hashes of downloads.
pub closed spec fn hashes_of<A, C>(downloads: Seq<Download<A, C>>) -> Seq<Seq<u8>> {
    Seq::new(downloads.len(), |i: int| downloads[i].integrity_hash@)
}

/// When downloads expire.
pub closed spec fn expiries_of<A, C>(downloads: Seq<Download<A, C>>) -> Seq<Millis> {
    Seq::new(downloads.len(), |i: int| downloads[i].expiry_instant)
}

/// The trackers of downloads.
pub closed spec fn trackers_of<A, C>(downloads: Seq<Download<A, C>>) -> Seq<ArtifactTracker<A, C>> {
    Seq::new(downloads.len(), |i: int| downloads[i].tracker)
}

/// With another tracker in one download, the hashes and the expiries of the
/// downloads are what they were.
proof fn lemma_tracker_replaced<A, C>(
    downloads: Seq<Download<A, C>>,
    i: int,
    tracker: ArtifactTracker<A, C>,
)
    requires
        0 <= i < downloads.len(),
    ensures
        ({
            let replaced = downloads.update(
                i,
                Download {
                    integrity_hash: downloads[i].integrity_hash,
                    expiry_instant: downloads[i].expiry_instant,
                    tracker,
                },
            );
            &&& hashes_of(replaced) == hashes_of(downloads)
            &&& expiries_of(replaced) == expiries_of(downloads)
            &&& trackers_of(replaced) == trackers_of(downloads).update(i, tracker)
        }),
{
    let replaced = downloads.update(
        i,
        Download {
            integrity_hash: downloads[i].integrity_hash,
            expiry_instant: downloads[i].expiry_instant,
            tracker,
        },
    );
    assert(hashes_of(replaced) =~= hashes_of(downloads));
    assert(expiries_of(replaced) =~= expiries_of(downloads));
    assert(trackers_of(replaced) =~= trackers_of(downloads).update(i, tracker));
}

/// The downloads that are under way.
pub struct ArtifactDownloadListImpl<A, C> {
    /// The downloads in the order in which they expire; downloads that expire
    /// at the same time are in the order in which they were scheduled.
    downloads: Vec<Download<A, C>>,
}

/// What was done with an advert.
#[derive(Clone, Copy, Debug, PartialEq, Eq, Structural)]
pub enum Scheduled {
    /// The artifact is being downloaded already.
    AlreadyTracked,
    /// The peer has no quota, or not enough, for an artifact of this size.
    NoQuota,
    /// There is no tracker for the chunks of this artifact.
    NoChunkTracker,
    /// The download was scheduled.
    New,
}

impl<A, C> ArtifactDownloadListImpl<A, C> {
    /// The integrity hashes of the downloads in the order of the list.
    pub closed spec fn hashes(&self) -> Seq<Seq<u8>> {
        hashes_of(self.downloads@)
    }

    /// When the downloads expire, in the order of the list.
    pub closed spec fn expiries(&self) -> Seq<Millis> {
        expiries_of(self.downloads@)
    }

    /// The trackers of the downloads in the order of the list.
    pub closed spec fn trackers(&self) -> Seq<ArtifactTracker<A, C>> {
        trackers_of(self.downloads@)
    }

    /// The downloads are in the order in which they expire, and no two of
    /// them are for the same integrity hash.
    pub open spec fn wf(&self) -> bool {
        &&& self.hashes().len() == self.expiries().len() == self.trackers().len()
        &&& forall|i: int, j: int|
            0 <= i < j < self.expiries().len() ==> self.expiries()[i] <= self.expiries()[j]
        &&& forall|i: int, j: int|
            0 <= i < j < self.hashes().len() ==> self.hashes()[i] != self.hashes()[j]
    }

    /// The position of the download for `hash`, or the length of the list
    /// where there is none.
    pub open spec fn position_of(&self, hash: Seq<u8>) -> int {
        if exists|i: int| 0 <= i < self.hashes().len() && self.hashes()[i] == hash {
            choose|i: int| 0 <= i < self.hashes().len() && self.hashes()[i] == hash
        } else {
            self.hashes().len() as int
        }
    }

    /// Whether a download for `hash` is in the list.
    pub open spec fn is_tracked(&self, hash: Seq<u8>) -> bool {
        self.hashes().contains(hash)
    }

    /// The number of the downloads that expire at `instant` or before.
    pub open spec fn expiring_until(&self, instant: Millis) -> int {
        count_until(self.expiries(), instant)
    }

    /// The number of the downloads that expire before `instant`.
    pub open spec fn expired_before(&self, instant: Millis) -> int {
        count_before(self.expiries(), instant)
    }

    /// A list without downloads.
    pub fn new() -> (list: Self)
        ensures
            list.wf(),
            list.hashes().len() == 0,
    {
        ArtifactDownloadListImpl { downloads: Vec::new() }
    }

    /// The number of downloads.
    pub fn len(&self) -> (n: usize)
        ensures
            n == self.hashes().len(),
    {
        self.downloads.len()
    }

    /// The position of the download for `integrity_hash`.
    fn find(&self, integrity_hash: &CryptoHash) -> (r: Option<usize>)
        ensures
            match r {
                Some(i) => i < self.hashes().len() && self.hashes()[i as int] == integrity_hash@,
                None => !self.is_tracked(integrity_hash@),
            },
    {
        let mut i: usize = 0;
        while i < self.downloads.len()
            invariant
                i <= self.downloads@.len(),
                forall|j: int| 0 <= j < i ==> self.hashes()[j] != integrity_hash@,
            decreases self.downloads@.len() - i,
        {
            if hash_eq(&self.downloads[i].integrity_hash, integrity_hash) {
                return Some(i);
            }
            i = i + 1;
        }
        None
    }

    /// The tracker of the download for `integrity_hash`.
    pub fn tracker(&self, integrity_hash: &CryptoHash) -> (r: Option<&ArtifactTracker<A, C>>)
        requires
            self.wf(),
        ensures
            match r {
                Some(tracker) => self.is_tracked(integrity_hash@) && *tracker
                    == self.trackers()[self.position_of(integrity_hash@)],
                None => !self.is_tracked(integrity_hash@),
            },
    {
        match self.find(integrity_hash) {
            Some(i) => {
                proof {
                    self.lemma_position(i as int);
                }
                Some(&self.downloads[i].tracker)
            },
            None => None,
        }
    }

    /// The download at position `i` is the one that `position_of` finds for
    /// its hash.
    pub proof fn lemma_position(&self, i: int)
        requires
            self.wf(),
            0 <= i < self.hashes().len(),
        ensures
            self.is_tracked(self.hashes()[i]),
            self.position_of(self.hashes()[i]) == i,
    {
        let hash = self.hashes()[i];
        assert(self.hashes().contains(hash));
        let j = self.position_of(hash);
        if j < i {
            assert(self.hashes()[j] != self.hashes()[i]);
        } else if i < j {
            assert(self.hashes()[i] != self.hashes()[j]);
        }
    }

    /// Schedules the download of the advertised artifact at `now`, unless the
    /// artifact is being downloaded already.
    ///
    /// `remaining_quota` is what is left of the quota of the peer, whose quota
    /// is charged for the download, and `chunk_tracker` the tracker for the
    /// chunks of the artifact, if there is one. The download is given
    /// `download_eta_ms` milliseconds from `now` on; it enters the list after
    /// the downloads that expire no later.
    pub fn schedule_download(
        &mut self,
        peer_id: NodeId,
        advert: Advert<A>,
        gossip_config: &GossipConfig,
        max_advertizing_peer: u32,
        now: Millis,
        remaining_quota: Option<usize>,
        chunk_tracker: Option<C>,
    ) -> (scheduled: Scheduled)
        requires
            old(self).wf(),
            gossip_config.max_chunk_size > 0,
            now + gossip_config.max_artifact_timeout_ms <= u64::MAX,
            old(self).hashes().len() < usize::MAX,
        ensures
            final(self).wf(),
            scheduled == (if old(self).is_tracked(advert.integrity_hash@) {
                Scheduled::AlreadyTracked
            } else if remaining_quota is None || remaining_quota->0 < advert.size {
                Scheduled::NoQuota
            } else if chunk_tracker is None {
                Scheduled::NoChunkTracker
            } else {
                Scheduled::New
            }),
            scheduled != Scheduled::New ==> {
                &&& final(self).hashes() == old(self).hashes()
                &&& final(self).expiries() == old(self).expiries()
                &&& final(self).trackers() == old(self).trackers()
            },
            scheduled == Scheduled::New ==> {
                let expiry = (now + download_eta_ms(
                    advert.size,
                    *gossip_config,
                    max_advertizing_peer,
                )) as Millis;
                let at = old(self).expiring_until(expiry);
                &&& 0 <= at <= old(self).hashes().len()
                &&& final(self).hashes() == old(self).hashes().insert(at, advert.integrity_hash@)
                &&& final(self).expiries() == old(self).expiries().insert(at, expiry)
                &&& final(self).trackers() == old(self).trackers().insert(
                    at,
                    final(self).trackers()[at],
                )
                &&& final(self).trackers()[at].spec_artifact_id() == advert.artifact_id
                &&& final(self).trackers()[at].spec_expiry_instant() == expiry
                &&& final(self).trackers()[at].spec_chunkable() == chunk_tracker->0
                &&& final(self).trackers()[at].spec_peer_id() == peer_id
                &&& final(self).trackers()[at].spec_requested_instant() == now
            },
    {
        // Schedule a download of an artifact that is not currently being
        // downloaded.
        if self.find(&advert.integrity_hash).is_some() {
            return Scheduled::AlreadyTracked;
        }
        match remaining_quota {
            None => {
                return Scheduled::NoQuota;
            },
            Some(quota_size) => {
                if quota_size < advert.size {
                    return Scheduled::NoQuota;
                }
            },
        }
        let chunk_tracker = match chunk_tracker {
            Some(chunk_tracker) => chunk_tracker,
            None => {
                return Scheduled::NoChunkTracker;
            },
        };
        // The worst-case time estimate for the artifact download assumes that
        // all chunks for the artifact will time out for each peer that has
        // advertised the artifact.
        let download_eta_ms = compute_download_eta_ms(
            advert.size,
            gossip_config,
            max_advertizing_peer,
        );
        let expiry_instant = now + download_eta_ms;
        let ghost expiries = self.expiries();
        let ghost hashes = self.hashes();
        let ghost trackers = self.trackers();
        let mut at: usize = 0;
        proof {
            reveal_with_fuel(count_until, 1);
        }
        while at < self.downloads.len() && self.downloads[at].expiry_instant <= expiry_instant
            invariant
                at <= self.downloads@.len(),
                expiries == self.expiries(),
                self.wf(),
                forall|j: int| 0 <= j < at ==> expiries[j] <= expiry_instant,
            decreases self.downloads@.len() - at,
        {
            at = at + 1;
        }
        proof {
            assert forall|j: int| at <= j < expiries.len() implies expiries[j]
                > expiry_instant by {
                if j > at {
                    assert(expiries[at as int] <= expiries[j]);
                }
            }
            lemma_count_until(expiries, expiry_instant, at as int);
        }
        let Advert { artifact_id, size: _, integrity_hash } = advert;
        let tracker = ArtifactTracker::new(
            artifact_id,
            expiry_instant,
            chunk_tracker,
            peer_id,
            now,
        );
        self.downloads.insert(at, Download { integrity_hash, expiry_instant, tracker });
        proof {
            assert(self.hashes() =~= hashes.insert(at as int, integrity_hash@));
            assert(self.expiries() =~= expiries.insert(at as int, expiry_instant));
            assert(self.trackers() =~= trackers.insert(at as int, self.trackers()[at as int]));
            assert forall|i: int, j: int| 0 <= i < j < self.expiries().len() implies self.expiries()[i]
                <= self.expiries()[j] by {
                let pi = if i < at { i } else { i - 1 };
                let pj = if j < at { j } else { j - 1 };
                if i != at && j != at {
                    assert(expiries[pi] <= expiries[pj]);
                }
            }
            assert forall|i: int, j: int| 0 <= i < j < self.hashes().len() implies self.hashes()[i]
                != self.hashes()[j] by {
                let pi = if i < at { i } else { i - 1 };
                let pj = if j < at { j } else { j - 1 };
                if i != at && j != at {
                    assert(hashes[pi] != hashes[pj]);
                } else if i == at {
                    assert(hashes.contains(hashes[pj]));
                } else {
                    assert(hashes.contains(hashes[pi]));
                }
            }
        }
        Scheduled::New
    }

    /// Removes the downloads that expire before `now` from the list and
    /// returns the IDs and the integrity hashes of their artifacts, in the
    /// order in which they expire.
    pub fn prune_expired_downloads(&mut self, now: Millis) -> (expired: Vec<(A, CryptoHash)>)
        requires
            old(self).wf(),
        ensures
            final(self).wf(),
            ({
                let n = old(self).expired_before(now);
                &&& 0 <= n <= old(self).hashes().len()
                &&& expired@.len() == n
                &&& forall|i: int|
                    0 <= i < n ==> (#[trigger] expired@[i]).0 == old(self).trackers()[i].spec_artifact_id() && expired@[i].1@ == old(self).hashes()[i]
                &&& final(self).hashes() == old(self).hashes().subrange(
                    n,
                    old(self).hashes().len() as int,
                )
                &&& final(self).expiries() == old(self).expiries().subrange(
                    n,
                    old(self).expiries().len() as int,
                )
                &&& final(self).trackers() == old(self).trackers().subrange(
                    n,
                    old(self).trackers().len() as int,
                )
            }),
    {
        let ghost expiries = self.expiries();
        let ghost hashes = self.hashes();
        let ghost trackers = self.trackers();
        // Collect the expired downloads: those at the front of the list.
        let mut n: usize = 0;
        while n < self.downloads.len() && self.downloads[n].expiry_instant < now
            invariant
                n <= self.downloads@.len(),
                expiries == self.expiries(),
                forall|j: int| 0 <= j < n ==> expiries[j] < now,
            decreases self.downloads@.len() - n,
        {
            n = n + 1;
        }
        proof {
            assert forall|j: int| n <= j < expiries.len() implies expiries[j] >= now by {
                if j > n {
                    assert(expiries[n as int] <= expiries[j]);
                }
            }
            lemma_count_before(expiries, now, n as int);
        }
        let mut rest = self.downloads.split_off(n);
        std::mem::swap(&mut self.downloads, &mut rest);
        let ghost front = rest@;
        proof {
            assert(self.hashes() =~= hashes.subrange(n as int, hashes.len() as int));
            assert(self.expiries() =~= expiries.subrange(n as int, expiries.len() as int));
            assert(self.trackers() =~= trackers.subrange(n as int, trackers.len() as int));
            assert forall|i: int, j: int| 0 <= i < j < self.expiries().len() implies self.expiries()[i]
                <= self.expiries()[j] by {
                assert(expiries[i + n] <= expiries[j + n]);
            }
            assert forall|i: int, j: int| 0 <= i < j < self.hashes().len() implies self.hashes()[i]
                != self.hashes()[j] by {
                assert(hashes[i + n] != hashes[j + n]);
            }
        }
        // Extract the artifact IDs of the expired downloads.
        let mut expired: Vec<(A, CryptoHash)> = Vec::new();
        for download in it: rest
            invariant
                it.seq() == front,
                front.len() == n,
                forall|j: int|
                    0 <= j < n ==> (#[trigger] front[j]).tracker == trackers[j]
                        && front[j].integrity_hash@ == hashes[j],
                expired@.len() == it.index(),
                forall|i: int|
                    0 <= i < expired@.len() ==> (#[trigger] expired@[i]).0
                        == trackers[i].spec_artifact_id() && expired@[i].1@ == hashes[i],
        {
            let Download { integrity_hash, expiry_instant: _, tracker } = download;
            let ArtifactTracker {
                artifact_id,
                expiry_instant: _,
                chunkable: _,
                peer_id: _,
                requested_instant: _,
            } = tracker;
            expired.push((artifact_id, integrity_hash));
        }
        expired
    }

    /// The tracker of the download for `integrity_hash`, to be changed in
    /// place.
    pub fn get_tracker(&mut self, integrity_hash: &CryptoHash) -> (r: Option<
        &mut ArtifactTracker<A, C>,
    >)
        requires
            old(self).wf(),
        ensures
            final(self).wf(),
            final(self).hashes() == old(self).hashes(),
            final(self).expiries() == old(self).expiries(),
            match r {
                Some(tracker) => {
                    let at = old(self).position_of(integrity_hash@);
                    &&& old(self).is_tracked(integrity_hash@)
                    &&& *tracker == old(self).trackers()[at]
                    &&& final(self).trackers() == old(self).trackers().update(at, *final(tracker))
                },
                None => !old(self).is_tracked(integrity_hash@) && final(self).trackers() == old(self).trackers(),
            },
    {
        match self.find(integrity_hash) {
            Some(i) => {
                let ghost downloads = self.downloads@;
                proof {
                    self.lemma_position(i as int);
                }
                let tracker = &mut self.downloads[i].tracker;
                proof {
                    lemma_tracker_replaced(downloads, i as int, *final(tracker));
                }
                Some(tracker)
            },
            None => None,
        }
    }

    /// Removes the download for `integrity_hash` from the list, if there is
    /// one.
    pub fn remove_tracker(&mut self, integrity_hash: &CryptoHash)
        requires
            old(self).wf(),
        ensures
            final(self).wf(),
            !final(self).is_tracked(integrity_hash@),
            !old(self).is_tracked(integrity_hash@) ==> {
                &&& final(self).hashes() == old(self).hashes()
                &&& final(self).expiries() == old(self).expiries()
                &&& final(self).trackers() == old(self).trackers()
            },
            old(self).is_tracked(integrity_hash@) ==> {
                let at = old(self).position_of(integrity_hash@);
                &&& final(self).hashes() == old(self).hashes().remove(at)
                &&& final(self).expiries() == old(self).expiries().remove(at)
                &&& final(self).trackers() == old(self).trackers().remove(at)
            },
    {
        let ghost expiries = self.expiries();
        let ghost hashes = self.hashes();
        let ghost trackers = self.trackers();
        if let Some(i) = self.find(integrity_hash) {
            proof {
                self.lemma_position(i as int);
            }
            self.downloads.remove(i);
            proof {
                assert(self.hashes() =~= hashes.remove(i as int));
                assert(self.expiries() =~= expiries.remove(i as int));
                assert(self.trackers() =~= trackers.remove(i as int));
                assert forall|a: int, b: int| 0 <= a < b < self.expiries().len() implies self.expiries()[a]
                    <= self.expiries()[b] by {
                    let pa = if a < i { a } else { a + 1 };
                    let pb = if b < i { b } else { b + 1 };
                    assert(expiries[pa] <= expiries[pb]);
                }
                assert forall|a: int, b: int| 0 <= a < b < self.hashes().len() implies self.hashes()[a]
                    != self.hashes()[b] by {
                    let pa = if a < i { a } else { a + 1 };
                    let pb = if b < i { b } else { b + 1 };
                    assert(hashes[pa] != hashes[pb]);
                }
                if self.hashes().contains(integrity_hash@) {
                    let k = choose|k: int|
                        0 <= k < self.hashes().len() && self.hashes()[k] == integrity_hash@;
                    let pk = if k < i { k } else { k + 1 };
                    assert(hashes[pk] == hashes[i as int]);
                    if pk < i {
                        assert(hashes[pk] != hashes[i as int]);
                    } else {
                        assert(hashes[i as int] != hashes[pk]);
                    }
                }
            }
        }
    }
}

/// The number of `instants`, given in increasing order, that are at
/// `instant` or before.
pub open spec fn count_until(instants: Seq<Millis>, instant: Millis) -> int
    decreases instants.len(),
{
    if instants.len() == 0 {
        0
    } else if instants.last() <= instant {
        instants.len() as int
    } else {
        count_until(instants.drop_last(), instant)
    }
}

/// The number of `instants`, given in increasing order, that are before
/// `instant`.
pub open spec fn count_before(instants: Seq<Millis>, instant: Millis) -> int
    decreases instants.len(),
{
    if instants.len() == 0 {
        0
    } else if instants.last() < instant {
        instants.len() as int
    } else {
        count_before(instants.drop_last(), instant)
    }
}

/// `count_until` is the position that parts the instants until `instant`
/// from those after it.
pub proof fn lemma_count_until(instants: Seq<Millis>, instant: Millis, n: int)
    requires
        0 <= n <= instants.len(),
        forall|j: int| 0 <= j < n ==> instants[j] <= instant,
        forall|j: int| n <= j < instants.len() ==> instants[j] > instant,
    ensures
        count_until(instants, instant) == n,
    decreases instants.len(),
{
    if instants.len() > 0 && instants.last() > instant {
        lemma_count_until(instants.drop_last(), instant, n);
    }
}

/// `count_before` is the position that parts the instants before `instant`
/// from the others.
pub proof fn lemma_count_before(instants: Seq<Millis>, instant: Millis, n: int)
    requires
        0 <= n <= instants.len(),
        forall|j: int| 0 <= j < n ==> instants[j] < instant,
        forall|j: int| n <= j < instants.len() ==> instants[j] >= instant,
    ensures
        count_before(instants, instant) == n,
    decreases instants.len(),
{
    if instants.len() > 0 && instants.last() >= instant {
        lemma_count_before(instants.drop_last(), instant, n);
    }
}

} // verus!
