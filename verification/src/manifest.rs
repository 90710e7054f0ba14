//! The manifest of a checkpoint: its files and their chunks with their
//! hashes.

use crate::height_map::Height;
use crate::page_map::DirtyPageMap;
use vstd::prelude::*;

verus! {

/// One file of a checkpoint.
#[derive(Clone, Debug, PartialEq, Eq)]
pub struct FileInfo {
    /// The path of the file below the root of the checkpoint.
    pub relative_path: String,
    pub size_bytes: u64,
    pub hash: Vec<u8>,
}

/// One chunk of a file of a checkpoint.
#[derive(Clone, Debug, PartialEq, Eq)]
pub struct ChunkInfo {
    /// The position of the file in the file table.
    pub file_index: u32,
    pub size_bytes: u32,
    /// Where the chunk starts in the file.
    pub offset: u64,
    pub hash: Vec<u8>,
}

/// The files of a checkpoint and their chunks, in order. The hash of the
/// encoded manifest is the root hash of the checkpoint.
#[derive(Clone, Debug, PartialEq, Eq)]
pub struct Manifest {
    pub version: u32,
    pub file_table: Vec<FileInfo>,
    pub chunk_table: Vec<ChunkInfo>,
}

/// The sizes of the first `n` files together.
pub open spec fn total_size(files: Seq<FileInfo>, n: int) -> int
    decreases n,
{
    if n <= 0 {
        0
    } else {
        total_size(files, n - 1) + files[n - 1].size_bytes
    }
}

impl Manifest {
    /// The size of the state in bytes: the sizes of all files together, or
    /// `u64::MAX` where the sum is larger than that.
    pub fn state_size_bytes(&self) -> (size: u64)
        ensures
            size == if total_size(self.file_table@, self.file_table@.len() as int) <= u64::MAX {
                total_size(self.file_table@, self.file_table@.len() as int)
            } else {
                u64::MAX as int
            },
    {
        let mut size: u64 = 0;
        let mut i: usize = 0;
        while i < self.file_table.len()
            invariant
                i <= self.file_table@.len(),
                size == if total_size(self.file_table@, i as int) <= u64::MAX {
                    total_size(self.file_table@, i as int)
                } else {
                    u64::MAX as int
                },
                total_size(self.file_table@, i as int) >= 0,
            decreases self.file_table@.len() - i,
        {
            let file_size: u64 = self.file_table[i].size_bytes;
            size = if file_size > u64::MAX - size {
                u64::MAX
            } else {
                size + file_size
            };
            i = i + 1;
        }
        size
    }
}

/// What is known of a new checkpoint from the last one that has a manifest:
/// the pages that changed since. The hashes of the other chunks can be taken
/// over from the base manifest.
#[derive(Clone, Debug, PartialEq, Eq)]
pub struct ManifestDelta {
    /// The manifest of the base checkpoint.
    pub base_manifest: Manifest,
    /// The height of the base checkpoint.
    pub base_height: Height,
    /// The height of the new checkpoint.
    pub target_height: Height,
    /// The pages that changed between the two.
    pub dirty_memory_pages: Vec<DirtyPageMap>,
}

} // verus!
