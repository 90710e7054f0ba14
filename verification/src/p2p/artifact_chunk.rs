//! What an artifact chunk holds.

use vstd::prelude::*;

verus! {

/// The bytes of a whole artifact, or of one chunk of it.
#[derive(Clone, Debug, PartialEq)]
pub enum Data {
    Artifact(Vec<u8>),
    Chunk(Vec<u8>),
}

} // verus!
