//! Gossip messages exchanged between peers: adverts of artifacts, requests
//! for their chunks, the chunks themselves and requests for retransmission.

pub mod artifact_chunk;
pub mod gossip_chunk;
pub mod gossip_message;

use vstd::prelude::*;

verus! {

/// One message of the gossip protocol.
#[derive(Clone, Debug, PartialEq, Default)]
pub struct GossipMessage {
    pub body: Option<gossip_message::Body>,
}

/// Announces that the sender holds an artifact.
#[derive(Clone, Debug, PartialEq, Default)]
pub struct GossipAdvert {
    pub attribute: Vec<u8>,
    pub size: u64,
    pub artifact_id: Vec<u8>,
    pub integrity_hash: Vec<u8>,
}

/// Asks for one chunk of an artifact.
#[derive(Clone, Debug, PartialEq, Default)]
pub struct GossipChunkRequest {
    pub artifact_id: Vec<u8>,
    pub chunk_id: u32,
    pub integrity_hash: Vec<u8>,
}

/// Tells a peer which artifacts the sender already has, so that the peer
/// sends adverts for the others again.
#[derive(Clone, Debug, PartialEq, Default)]
pub struct ArtifactFilter {
    pub consensus_filter: Option<ConsensusMessageFilter>,
    pub ingress_filter: Option<IngressMessageFilter>,
    pub certification_message_filter: Option<CertificationMessageFilter>,
    pub state_sync_filter: Option<StateSyncFilter>,
}

/// Consensus artifacts below this height are not wanted.
#[derive(Clone, Debug, PartialEq, Default)]
pub struct ConsensusMessageFilter {
    pub height: u64,
}

/// Ingress messages that expire before this time are not wanted.
#[derive(Clone, Debug, PartialEq, Default)]
pub struct IngressMessageFilter {
    pub time: u64,
}

/// Certification artifacts below this height are not wanted.
#[derive(Clone, Debug, PartialEq, Default)]
pub struct CertificationMessageFilter {
    pub height: u64,
}

/// States below this height are not wanted.
#[derive(Clone, Debug, PartialEq, Default)]
pub struct StateSyncFilter {
    pub height: u64,
}

/// Answers a chunk request with the chunk or with an error.
#[derive(Clone, Debug, PartialEq, Default)]
pub struct GossipChunk {
    pub artifact_id: Vec<u8>,
    pub chunk_id: u32,
    pub integrity_hash: Vec<u8>,
    pub response: Option<gossip_chunk::Response>,
}

/// A chunk of an artifact with the witnesses that tie it to the artifact.
#[derive(Clone, Debug, PartialEq, Default)]
pub struct ArtifactChunk {
    pub witnesses: Vec<Vec<u8>>,
    pub data: Option<artifact_chunk::Data>,
}

/// Error reported in place of a chunk.
#[derive(Clone, Copy, Debug, PartialEq, Eq, Hash, PartialOrd, Ord)]
pub enum P2pError {
    Unspecified,
    NotFound,
}

impl P2pError {
    /// The name of the variant as it is written in the message definition.
    pub open spec fn name(self) -> Seq<char> {
        match self {
            P2pError::Unspecified => "P2P_ERROR_UNSPECIFIED"@,
            P2pError::NotFound => "P2P_ERROR_NOT_FOUND"@,
        }
    }

    /// The number that stands for the variant on the wire.
    pub open spec fn tag(self) -> int {
        match self {
            P2pError::Unspecified => 0,
            P2pError::NotFound => 1,
        }
    }

    /// String value of the enum field names used in the message definition.
    pub fn as_str_name(&self) -> (name: &'static str)
        ensures
            name@ == self.name(),
    {
        match self {
            P2pError::Unspecified => "P2P_ERROR_UNSPECIFIED",
            P2pError::NotFound => "P2P_ERROR_NOT_FOUND",
        }
    }

    /// Whether `value` stands for a variant.
    pub fn is_valid(value: i32) -> (b: bool)
        ensures
            b == (value == 0 || value == 1),
    {
        value == 0 || value == 1
    }

    /// The variant that `value` stands for.
    pub fn from_i32(value: i32) -> (r: Option<P2pError>)
        ensures
            match r {
                Some(e) => e.tag() == value,
                None => value != 0 && value != 1,
            },
    {
        if value == 0 {
            Some(P2pError::Unspecified)
        } else if value == 1 {
            Some(P2pError::NotFound)
        } else {
            None
        }
    }

    /// The number that stands for the variant on the wire.
    pub fn to_i32(&self) -> (value: i32)
        ensures
            value == self.tag(),
    {
        match self {
            P2pError::Unspecified => 0,
            P2pError::NotFound => 1,
        }
    }
}

} // verus!
