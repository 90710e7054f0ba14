use state_manager::stream::{
    check_slice_destination, check_slice_indices, stream_slice_bounds, verify_recomputed_digest,
    DecodeStreamError, EncodeStreamError, SliceBounds,
};
use state_manager::types::Certification;

#[test]
fn slice_without_begins_covers_the_stream() {
    assert_eq!(
        stream_slice_bounds(None, None, None, 5, 9),
        Ok(SliceBounds { msg_from: 5, witness_from: 5, to: 9 })
    );
    assert_eq!(
        stream_slice_bounds(None, None, Some(3), 5, 9),
        Ok(SliceBounds { msg_from: 5, witness_from: 5, to: 8 })
    );
    assert_eq!(
        stream_slice_bounds(None, None, Some(usize::MAX), 5, 9),
        Ok(SliceBounds { msg_from: 5, witness_from: 5, to: 9 })
    );
    assert_eq!(
        stream_slice_bounds(None, None, Some(0), 5, 9),
        Ok(SliceBounds { msg_from: 5, witness_from: 5, to: 5 })
    );
}

#[test]
fn slice_with_begins() {
    assert_eq!(
        stream_slice_bounds(Some(6), Some(7), Some(1), 5, 9),
        Ok(SliceBounds { msg_from: 7, witness_from: 6, to: 8 })
    );
    assert_eq!(
        stream_slice_bounds(Some(9), Some(9), Some(4), 5, 9),
        Ok(SliceBounds { msg_from: 9, witness_from: 9, to: 9 })
    );
}

#[test]
fn witness_after_messages_is_refused() {
    assert_eq!(
        stream_slice_bounds(Some(8), Some(7), None, 5, 9),
        Err(EncodeStreamError::InvalidSliceIndices { witness_begin: Some(8), msg_begin: Some(7) })
    );
    assert_eq!(
        check_slice_indices(Some(8), None),
        Err(EncodeStreamError::InvalidSliceIndices { witness_begin: Some(8), msg_begin: None })
    );
    assert_eq!(
        check_slice_indices(None, Some(8)),
        Err(EncodeStreamError::InvalidSliceIndices { witness_begin: None, msg_begin: Some(8) })
    );
    assert_eq!(check_slice_indices(Some(7), Some(7)), Ok(()));
}

#[test]
fn slice_begin_outside_of_the_stream_is_refused() {
    assert_eq!(
        stream_slice_bounds(Some(4), Some(10), None, 5, 9),
        Err(EncodeStreamError::InvalidSliceBegin { slice_begin: 10, stream_begin: 5, stream_end: 9 })
    );
    assert_eq!(
        stream_slice_bounds(Some(4), Some(6), None, 5, 9),
        Err(EncodeStreamError::InvalidSliceBegin { slice_begin: 4, stream_begin: 5, stream_end: 9 })
    );
}

#[test]
fn received_slice_is_checked() {
    assert_eq!(check_slice_destination(1, 2, 1), Ok(()));
    assert_eq!(
        check_slice_destination(1, 2, 3),
        Err(DecodeStreamError::InvalidDestination { sender: 2, receiver: 3 })
    );
    let certification = Certification { height: 4, hash: vec![1, 2], signature: vec![] };
    assert_eq!(verify_recomputed_digest(2, &certification, &vec![1, 2], true), Ok(()));
    assert_eq!(
        verify_recomputed_digest(2, &certification, &vec![1, 2], false),
        Err(DecodeStreamError::InvalidSignature(2))
    );
    assert_eq!(
        verify_recomputed_digest(2, &certification, &vec![1, 3], true),
        Err(DecodeStreamError::InvalidSignature(2))
    );
}
