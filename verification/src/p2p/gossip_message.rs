//! What a gossip message can carry.

use crate::p2p::{ArtifactFilter, GossipAdvert, GossipChunk, GossipChunkRequest};
use vstd::prelude::*;

verus! {

/// The body of a gossip message.
#[derive(Clone, Debug, PartialEq)]
pub enum Body {
    Advert(GossipAdvert),
    ChunkRequest(GossipChunkRequest),
    Chunk(GossipChunk),
    RetransmissionRequest(ArtifactFilter),
}

} // verus!
