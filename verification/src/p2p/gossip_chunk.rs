//! What answers a chunk request.

use crate::p2p::ArtifactChunk;
use vstd::prelude::*;

verus! {

/// The chunk that was asked for, or the number of a `P2pError`.
#[derive(Clone, Debug, PartialEq)]
pub enum Response {
    Chunk(ArtifactChunk),
    Error(i32),
}

} // verus!
