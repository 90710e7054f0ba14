//! The token that stands for a checkpoint in use, and the errors of the
//! checkpoint layer.

use crate::height_map::Height;
use vstd::prelude::*;

verus! {

/// A token for the checkpoint at one height. The store makes one token when
/// the checkpoint enters it and never a second one for the same height. The
/// checkpoint's directory may be removed only when the token has been marked
/// deleted and nothing uses the checkpoint any more.
#[derive(Debug, PartialEq, Eq)]
pub struct CheckpointRef {
    height: Height,
    marked_deleted: bool,
}

impl CheckpointRef {
    /// The height of the checkpoint.
    pub closed spec fn spec_height(&self) -> Height {
        self.height
    }

    /// Whether removal of the checkpoint was requested.
    pub closed spec fn spec_marked_deleted(&self) -> bool {
        self.marked_deleted
    }

    /// The same token after removal of the checkpoint was requested.
    pub closed spec fn marked(self) -> CheckpointRef {
        CheckpointRef { height: self.height, marked_deleted: true }
    }

    /// A marked token stands for the same checkpoint and stays marked.
    pub proof fn lemma_marked(self)
        ensures
            self.marked().spec_height() == self.spec_height(),
            self.marked().spec_marked_deleted(),
            self.spec_marked_deleted() ==> self.marked() == self,
    {
    }

    /// Construct a new checkpoint reference.
    pub(crate) fn new(height: Height) -> (r: Self)
        ensures
            r.spec_height() == height,
            !r.spec_marked_deleted(),
    {
        CheckpointRef { height, marked_deleted: false }
    }

    /// The height of the checkpoint.
    pub fn height(&self) -> (h: Height)
        ensures
            h == self.spec_height(),
    {
        self.height
    }

    /// Whether removal of the checkpoint was requested.
    pub fn is_marked_deleted(&self) -> (b: bool)
        ensures
            b == self.spec_marked_deleted(),
    {
        self.marked_deleted
    }

    /// Request removal of this checkpoint when the last user of the
    /// checkpoint is done with it.
    pub fn mark_deleted(&mut self)
        ensures
            *final(self) == old(self).marked(),
            final(self).spec_marked_deleted(),
            final(self).spec_height() == old(self).spec_height(),
    {
        self.marked_deleted = true;
    }

    /// What to remove when the last user lets go of the checkpoint: its
    /// height if removal was requested, nothing otherwise.
    pub fn checkpoint_to_remove(&self) -> (r: Option<Height>)
        ensures
            r == (if self.spec_marked_deleted() {
                Some(self.spec_height())
            } else {
                None
            }),
    {
        if !self.marked_deleted {
            return None;
        }
        Some(self.height)
    }
}

/// What went wrong in the directory layout of the state.
#[derive(Clone, Debug, PartialEq, Eq)]
pub enum LayoutError {
    /// An I/O error, with a message and the path of the affected file.
    IoError { path: String, message: String, io_err: String },
    /// The layout of the state root on disk is corrupted.
    CorruptedLayout { path: String, message: String },
    /// Checkpoint for the requested height not found.
    NotFound(Height),
    /// Checkpoint at the specified height already exists.
    AlreadyExists(Height),
    /// Trying to remove the last checkpoint.
    LatestCheckpoint(Height),
}

/// What went wrong while a checkpoint was made or loaded.
#[derive(Clone, Debug, PartialEq, Eq)]
pub enum CheckpointError {
    /// An I/O error, with a message and the path of the affected file.
    IoError { path: String, message: String, io_err: String },
    /// The layout of state root on disk is corrupted.
    CorruptedLayout { path: String, message: String },
    /// A file could not be decoded: the field and the path of the file.
    ProtoError { path: String, field: String, proto_err: String },
    /// Checkpoint at the specified height already exists.
    AlreadyExists(Height),
    /// Checkpoint for the requested height not found.
    NotFound(Height),
    /// An error of the page store.
    Persistence(String),
    /// Trying to remove the last checkpoint.
    LatestCheckpoint(Height),
}

impl CheckpointError {
    /// The checkpoint error that stands for a layout error.
    pub open spec fn of_layout(err: LayoutError) -> CheckpointError {
        match err {
            LayoutError::IoError { path, message, io_err } => CheckpointError::IoError {
                path,
                message,
                io_err,
            },
            LayoutError::CorruptedLayout { path, message } => CheckpointError::CorruptedLayout {
                path,
                message,
            },
            LayoutError::NotFound(h) => CheckpointError::NotFound(h),
            LayoutError::AlreadyExists(h) => CheckpointError::AlreadyExists(h),
            LayoutError::LatestCheckpoint(h) => CheckpointError::LatestCheckpoint(h),
        }
    }

    /// Turns an error of the layout into the checkpoint error with the same
    /// content.
    pub fn from_layout(err: LayoutError) -> (e: CheckpointError)
        ensures
            e == Self::of_layout(err),
    {
        match err {
            LayoutError::IoError { path, message, io_err } => CheckpointError::IoError {
                path,
                message,
                io_err,
            },
            LayoutError::CorruptedLayout { path, message } => CheckpointError::CorruptedLayout {
                path,
                message,
            },
            LayoutError::NotFound(h) => CheckpointError::NotFound(h),
            LayoutError::AlreadyExists(h) => CheckpointError::AlreadyExists(h),
            LayoutError::LatestCheckpoint(h) => CheckpointError::LatestCheckpoint(h),
        }
    }

    /// Turns an error of the page store into a checkpoint error.
    pub fn from_persistence(err: String) -> (e: CheckpointError)
        ensures
            e == CheckpointError::Persistence(err),
    {
        CheckpointError::Persistence(err)
    }
}

} // verus!
