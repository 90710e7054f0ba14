use state_manager::p2p::gossip_chunk::Response;
use state_manager::p2p::gossip_message::Body;
use state_manager::p2p::{GossipChunk, GossipMessage, P2pError};

#[test]
fn p2p_error_names() {
    assert_eq!(P2pError::Unspecified.as_str_name(), "P2P_ERROR_UNSPECIFIED");
    assert_eq!(P2pError::NotFound.as_str_name(), "P2P_ERROR_NOT_FOUND");
}

#[test]
fn p2p_error_numbers_round_trip() {
    assert_eq!(P2pError::from_i32(0), Some(P2pError::Unspecified));
    assert_eq!(P2pError::from_i32(1), Some(P2pError::NotFound));
    assert_eq!(P2pError::from_i32(2), None);
    assert_eq!(P2pError::from_i32(-1), None);
    assert_eq!(P2pError::NotFound.to_i32(), 1);
    assert_eq!(P2pError::Unspecified.to_i32(), 0);
    assert!(P2pError::is_valid(1));
    assert!(!P2pError::is_valid(7));
}

#[test]
fn gossip_chunk_carries_an_error_number() {
    let chunk = GossipChunk {
        artifact_id: vec![1, 2],
        chunk_id: 3,
        integrity_hash: vec![9],
        response: Some(Response::Error(P2pError::NotFound.to_i32())),
    };
    let message = GossipMessage { body: Some(Body::Chunk(chunk.clone())) };
    match message.body {
        Some(Body::Chunk(c)) => {
            assert_eq!(c, chunk);
            assert_eq!(c.response, Some(Response::Error(1)));
        }
        _ => panic!("expected a chunk"),
    }
    assert_eq!(GossipMessage::default().body, None);
}
