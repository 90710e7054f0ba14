//! Which part of a stream a certified slice covers, and when a slice that
//! was received is accepted.

use crate::types::{hash_eq, Certification};
use vstd::prelude::*;

verus! {

/// The position of a message in a stream.
pub type StreamIndex = u64;

/// Identifies a subnet.
pub type SubnetId = u64;

/// Why a slice of a stream cannot be encoded.
#[derive(Clone, Copy, Debug, PartialEq, Eq, Structural)]
pub enum EncodeStreamError {
    /// There is no certified state, or it has no stream for the subnet.
    NoStreamForSubnet(SubnetId),
    /// The slice begins outside of the stream.
    InvalidSliceBegin { slice_begin: StreamIndex, stream_begin: StreamIndex, stream_end: StreamIndex },
    /// Only one of the two begins is given, or the witness begins after the
    /// messages.
    InvalidSliceIndices { witness_begin: Option<StreamIndex>, msg_begin: Option<StreamIndex> },
}

/// Why a slice that was received is not accepted.
#[derive(Clone, Debug, PartialEq, Eq)]
pub enum DecodeStreamError {
    /// The certification does not cover the slice, or its signature is not
    /// valid.
    InvalidSignature(SubnetId),
    /// The slice is addressed to another subnet.
    InvalidDestination { sender: SubnetId, receiver: SubnetId },
    /// The slice could not be decoded.
    SerializationError(String),
}

/// The part of a stream that a slice covers.
#[derive(Clone, Copy, Debug, PartialEq, Eq, Structural)]
pub struct SliceBounds {
    /// The first message of the slice.
    pub msg_from: StreamIndex,
    /// Where the witness begins: at or before the first message.
    pub witness_from: StreamIndex,
    /// The end of the slice: the position after its last message.
    pub to: StreamIndex,
}

/// Whether the two begins are both left out, or both given with the witness
/// beginning no later than the messages.
pub open spec fn valid_slice_indices(witness_begin: Option<StreamIndex>, msg_begin: Option<StreamIndex>) -> bool {
    match (witness_begin, msg_begin) {
        (None, None) => true,
        (Some(witness_begin), Some(msg_begin)) => witness_begin <= msg_begin,
        _ => false,
    }
}

/// The part of the stream from `stream_begin` to `stream_end` that the slice
/// with the given begins and the given limit on its number of messages
/// covers, or why there is no such slice.
pub open spec fn slice_bounds_of(
    witness_begin: Option<StreamIndex>,
    msg_begin: Option<StreamIndex>,
    msg_limit: Option<usize>,
    stream_begin: StreamIndex,
    stream_end: StreamIndex,
) -> Result<SliceBounds, EncodeStreamError> {
    let msg_from = match msg_begin {
        Some(begin) => begin,
        None => stream_begin,
    };
    let witness_from = match witness_begin {
        Some(begin) => begin,
        None => msg_from,
    };
    if !valid_slice_indices(witness_begin, msg_begin) {
        Err(EncodeStreamError::InvalidSliceIndices { witness_begin, msg_begin })
    } else if msg_from < stream_begin || stream_end < msg_from {
        Err(EncodeStreamError::InvalidSliceBegin { slice_begin: msg_from, stream_begin, stream_end })
    } else if witness_from < stream_begin || stream_end < witness_from {
        Err(
            EncodeStreamError::InvalidSliceBegin {
                slice_begin: witness_from,
                stream_begin,
                stream_end,
            },
        )
    } else {
        Ok(
            SliceBounds {
                msg_from,
                witness_from,
                to: match msg_limit {
                    Some(n) if msg_from + n <= stream_end => (msg_from + n) as StreamIndex,
                    _ => stream_end,
                },
            },
        )
    }
}

/// Tells whether the two begins of a slice go together.
pub fn check_slice_indices(witness_begin: Option<StreamIndex>, msg_begin: Option<StreamIndex>) -> (r:
    Result<(), EncodeStreamError>)
    ensures
        r is Ok <==> valid_slice_indices(witness_begin, msg_begin),
        r matches Err(e) ==> e == (EncodeStreamError::InvalidSliceIndices {
            witness_begin,
            msg_begin,
        }),
{
    match (witness_begin, msg_begin) {
        (None, None) => Ok(()),
        (Some(w), Some(m)) => {
            if w <= m {
                Ok(())
            } else {
                Err(EncodeStreamError::InvalidSliceIndices { witness_begin, msg_begin })
            }
        },
        _ => Err(EncodeStreamError::InvalidSliceIndices { witness_begin, msg_begin }),
    }
}

/// The part of the stream from `stream_begin` to `stream_end` that a slice
/// covers. The messages begin at `msg_begin`, or at the begin of the stream;
/// the witness begins at `witness_begin`, or with the messages; the slice
/// holds at most `msg_limit` messages and ends with the stream at the latest.
pub fn stream_slice_bounds(
    witness_begin: Option<StreamIndex>,
    msg_begin: Option<StreamIndex>,
    msg_limit: Option<usize>,
    stream_begin: StreamIndex,
    stream_end: StreamIndex,
) -> (r: Result<SliceBounds, EncodeStreamError>)
    ensures
        r == slice_bounds_of(witness_begin, msg_begin, msg_limit, stream_begin, stream_end),
{
    if let Err(e) = check_slice_indices(witness_begin, msg_begin) {
        return Err(e);
    }
    let msg_from = match msg_begin {
        Some(begin) => begin,
        None => stream_begin,
    };
    if msg_from < stream_begin || stream_end < msg_from {
        return Err(
            EncodeStreamError::InvalidSliceBegin { slice_begin: msg_from, stream_begin, stream_end },
        );
    }
    let witness_from = match witness_begin {
        Some(begin) => begin,
        None => msg_from,
    };
    if witness_from < stream_begin || stream_end < witness_from {
        return Err(
            EncodeStreamError::InvalidSliceBegin {
                slice_begin: witness_from,
                stream_begin,
                stream_end,
            },
        );
    }
    let to = match msg_limit {
        Some(n) => {
            if n as u64 <= stream_end - msg_from {
                msg_from + n as u64
            } else {
                stream_end
            }
        },
        None => stream_end,
    };
    Ok(SliceBounds { msg_from, witness_from, to })
}

/// Tells whether a slice that `remote_subnet` sent is addressed to this
/// subnet.
pub fn check_slice_destination(own_subnet_id: SubnetId, remote_subnet: SubnetId, destination: SubnetId) -> (r:
    Result<(), DecodeStreamError>)
    ensures
        r is Ok <==> destination == own_subnet_id,
        r matches Err(e) ==> e == (DecodeStreamError::InvalidDestination {
            sender: remote_subnet,
            receiver: destination,
        }),
{
    if destination != own_subnet_id {
        return Err(
            DecodeStreamError::InvalidDestination { sender: remote_subnet, receiver: destination },
        );
    }
    Ok(())
}

/// Tells whether the certification covers the slice whose digest was
/// recomputed as `digest`, given whether the signature of the certification
/// is valid. The signature need not be looked at where the digest is not the
/// certified hash.
pub fn verify_recomputed_digest(
    remote_subnet: SubnetId,
    certification: &Certification,
    digest: &Vec<u8>,
    signature_valid: bool,
) -> (r: Result<(), DecodeStreamError>)
    ensures
        r is Ok <==> digest@ == certification.hash@ && signature_valid,
        r matches Err(e) ==> e == DecodeStreamError::InvalidSignature(remote_subnet),
{
    if hash_eq(digest, &certification.hash) && signature_valid {
        Ok(())
    } else {
        Err(DecodeStreamError::InvalidSignature(remote_subnet))
    }
}

/// A slice whose witness begins after its messages is refused, whatever the
/// stream and the limit.
pub proof fn lemma_witness_after_messages_refused(
    witness_begin: StreamIndex,
    msg_begin: StreamIndex,
    msg_limit: Option<usize>,
    stream_begin: StreamIndex,
    stream_end: StreamIndex,
)
    requires
        witness_begin > msg_begin,
    ensures
        slice_bounds_of(Some(witness_begin), Some(msg_begin), msg_limit, stream_begin, stream_end)
            == Err::<SliceBounds, EncodeStreamError>(
            EncodeStreamError::InvalidSliceIndices {
                witness_begin: Some(witness_begin),
                msg_begin: Some(msg_begin),
            },
        ),
{
}

/// A slice lies within the stream, its witness begins no later than its
/// messages, and it holds no more messages than the limit allows.
pub proof fn lemma_slice_within_stream(
    witness_begin: Option<StreamIndex>,
    msg_begin: Option<StreamIndex>,
    msg_limit: Option<usize>,
    stream_begin: StreamIndex,
    stream_end: StreamIndex,
)
    requires
        slice_bounds_of(witness_begin, msg_begin, msg_limit, stream_begin, stream_end) is Ok,
    ensures
        ({
            let bounds = slice_bounds_of(
                witness_begin,
                msg_begin,
                msg_limit,
                stream_begin,
                stream_end,
            )->Ok_0;
            &&& stream_begin <= bounds.witness_from <= bounds.msg_from <= bounds.to <= stream_end
            &&& msg_limit matches Some(n) ==> bounds.to - bounds.msg_from <= n
        }),
{
}

} // verus!
