//! Concrete instances of the codec's laws: round trips in both directions,
//! the frame length prefix, exact-length enforcement, unknown-id and
//! surplus rejection, and the edge cases of each payload shape.

use peerwire::config::Config;
use peerwire::protocol::{
    BitfieldPayload, CancelPayload, DecodeError, HandshakeMessage, HavePayload, PeerMessage,
    PiecePayload, RequestPayload,
};

#[test]
fn test_roundtrip_every_variant() {
    let messages: Vec<PeerMessage> = vec![
        PeerMessage::Choke,
        PeerMessage::Unchoke,
        PeerMessage::Interested,
        PeerMessage::NotInterested,
        PeerMessage::Have(HavePayload { index: 0xdeadbeef }),
        PeerMessage::Bitfield(BitfieldPayload {
            bitfield: vec![0x80, 0x01, 0xff],
        }),
        PeerMessage::Request(RequestPayload {
            index: 1,
            begin: 2,
            length: 3,
        }),
        PeerMessage::Piece(PiecePayload {
            index: 7,
            begin: 14,
            piece: vec![9, 8, 7, 6, 5, 4, 3, 2, 1, 0],
        }),
        PeerMessage::Cancel(CancelPayload {
            index: u32::MAX,
            begin: 0,
            length: u32::MAX,
        }),
    ];

    for message in messages {
        let encoded: Vec<u8> = message.encode();
        let decoded: PeerMessage = PeerMessage::decode(&encoded).unwrap();
        assert_eq!(decoded, message);
    }
}

#[test]
fn test_inverse_roundtrip_request_frame() {
    let bytes: Vec<u8> = vec![
        0x00, 0x00, 0x00, 0x0d, 0x06, 0x00, 0x00, 0x00, 0x21, 0x00, 0x00, 0x08, 0x00, 0x00, 0x00,
        0x01, 0x00,
    ];

    let message: PeerMessage = PeerMessage::decode(&bytes).unwrap();

    assert_eq!(message.encode(), bytes);
}

#[test]
fn test_inverse_roundtrip_piece_frame() {
    let bytes: Vec<u8> = vec![
        0x00, 0x00, 0x00, 0x0b, 0x07, 0x00, 0x00, 0x00, 0x01, 0x00, 0x00, 0x00, 0x02, 0xaa, 0xbb,
    ];

    let message: PeerMessage = PeerMessage::decode(&bytes).unwrap();

    assert_eq!(
        message,
        PeerMessage::Piece(PiecePayload {
            index: 1,
            begin: 2,
            piece: vec![0xaa, 0xbb],
        })
    );
    assert_eq!(message.encode(), bytes);
}

#[test]
fn test_frame_length_prefix_counts_rest() {
    let messages: Vec<PeerMessage> = vec![
        PeerMessage::Choke,
        PeerMessage::Bitfield(BitfieldPayload {
            bitfield: vec![1, 2, 3],
        }),
        PeerMessage::Piece(PiecePayload {
            index: 0,
            begin: 0,
            piece: vec![5; 300],
        }),
    ];

    for message in messages {
        let encoded: Vec<u8> = message.encode();
        let prefix: u32 = u32::from_be_bytes([encoded[0], encoded[1], encoded[2], encoded[3]]);
        assert_eq!(prefix as usize, encoded.len() - 4);
    }
}

#[test]
fn test_have_payload_deficit_rejected() {
    let bytes: Vec<u8> = vec![0x00, 0x00, 0x00, 0x04, 0x04, 0x00, 0x00, 0x00];

    assert_eq!(
        PeerMessage::decode(&bytes).unwrap_err(),
        DecodeError::TooShort
    );
}

#[test]
fn test_have_payload_surplus_rejected() {
    let bytes: Vec<u8> = vec![0x00, 0x00, 0x00, 0x06, 0x04, 0x00, 0x00, 0x00, 0xff, 0x00];

    assert_eq!(
        PeerMessage::decode(&bytes).unwrap_err(),
        DecodeError::TooLong
    );
}

#[test]
fn test_request_payload_deficit_rejected() {
    let bytes: Vec<u8> = vec![
        0x00, 0x00, 0x00, 0x0c, 0x06, 0x00, 0x00, 0x00, 0x21, 0x00, 0x00, 0x08, 0x00, 0x00, 0x00,
        0x01,
    ];

    assert_eq!(
        PeerMessage::decode(&bytes).unwrap_err(),
        DecodeError::TooShort
    );
}

#[test]
fn test_request_payload_surplus_rejected() {
    let bytes: Vec<u8> = vec![
        0x00, 0x00, 0x00, 0x0e, 0x06, 0x00, 0x00, 0x00, 0x21, 0x00, 0x00, 0x08, 0x00, 0x00, 0x00,
        0x01, 0x00, 0x00,
    ];

    assert_eq!(
        PeerMessage::decode(&bytes).unwrap_err(),
        DecodeError::TooLong
    );
}

#[test]
fn test_cancel_payload_deficit_rejected() {
    let bytes: Vec<u8> = vec![
        0x00, 0x00, 0x00, 0x0c, 0x08, 0x00, 0x00, 0x00, 0x21, 0x00, 0x00, 0x08, 0x00, 0x00, 0x00,
        0x01,
    ];

    assert_eq!(
        PeerMessage::decode(&bytes).unwrap_err(),
        DecodeError::TooShort
    );
}

#[test]
fn test_cancel_payload_surplus_rejected() {
    let bytes: Vec<u8> = vec![
        0x00, 0x00, 0x00, 0x0e, 0x08, 0x00, 0x00, 0x00, 0x21, 0x00, 0x00, 0x08, 0x00, 0x00, 0x00,
        0x01, 0x00, 0x00,
    ];

    assert_eq!(
        PeerMessage::decode(&bytes).unwrap_err(),
        DecodeError::TooLong
    );
}

#[test]
fn test_piece_payload_deficit_rejected() {
    let bytes: Vec<u8> = vec![
        0x00, 0x00, 0x00, 0x08, 0x07, 0x00, 0x00, 0x00, 0x21, 0x00, 0x00, 0x08,
    ];

    assert_eq!(
        PeerMessage::decode(&bytes).unwrap_err(),
        DecodeError::TooShort
    );
}

#[test]
fn test_piece_payload_has_no_upper_bound() {
    let bytes: Vec<u8> = vec![
        0x00, 0x00, 0x00, 0x10, 0x07, 0x00, 0x00, 0x00, 0x21, 0x00, 0x00, 0x08, 0x00, 0x01, 0x02,
        0x03, 0x04, 0x05, 0x06, 0x07,
    ];

    let message: PeerMessage = PeerMessage::decode(&bytes).unwrap();

    assert_eq!(
        message,
        PeerMessage::Piece(PiecePayload {
            index: 33,
            begin: 2048,
            piece: vec![0x01, 0x02, 0x03, 0x04, 0x05, 0x06, 0x07],
        })
    );
}

#[test]
fn test_unknown_id_nine_rejected() {
    let bytes: Vec<u8> = vec![0x00, 0x00, 0x00, 0x01, 0x09];

    assert_eq!(
        PeerMessage::decode(&bytes).unwrap_err(),
        DecodeError::InvalidMessageType
    );
}

#[test]
fn test_unknown_id_with_payload_rejected() {
    let bytes: Vec<u8> = vec![0x00, 0x00, 0x00, 0x02, 0xc8, 0x00];

    assert_eq!(
        PeerMessage::decode(&bytes).unwrap_err(),
        DecodeError::InvalidMessageType
    );
}

#[test]
fn test_bodyless_surplus_one_byte_rejected() {
    let bytes: Vec<u8> = vec![0x00, 0x00, 0x00, 0x02, 0x03, 0x00];

    assert_eq!(
        PeerMessage::decode(&bytes).unwrap_err(),
        DecodeError::TooLong
    );
}

#[test]
fn test_have_index_bytes_are_big_endian() {
    let message: PeerMessage = PeerMessage::Have(HavePayload { index: 0x01020304 });

    assert_eq!(
        message.encode(),
        vec![0x00, 0x00, 0x00, 0x05, 0x04, 0x01, 0x02, 0x03, 0x04]
    );
}

#[test]
fn test_empty_bitfield_roundtrip() {
    let bytes: Vec<u8> = vec![0x00, 0x00, 0x00, 0x01, 0x05];

    let message: PeerMessage = PeerMessage::decode(&bytes).unwrap();

    assert_eq!(
        message,
        PeerMessage::Bitfield(BitfieldPayload { bitfield: vec![] })
    );
    assert_eq!(message.encode(), bytes);
}

#[test]
fn test_empty_piece_block_roundtrip() {
    let message: PeerMessage = PeerMessage::Piece(PiecePayload {
        index: 33,
        begin: 2048,
        piece: vec![],
    });

    let encoded: Vec<u8> = message.encode();

    assert_eq!(
        encoded,
        vec![0x00, 0x00, 0x00, 0x09, 0x07, 0x00, 0x00, 0x00, 0x21, 0x00, 0x00, 0x08, 0x00]
    );
    assert_eq!(PeerMessage::decode(&encoded).unwrap(), message);
}

#[test]
fn test_handshake_roundtrip_distinct_bytes() {
    let info_hash: Vec<u8> = (0u8..20).collect();
    let peer_id: Vec<u8> = (100u8..120).collect();

    let message: HandshakeMessage = HandshakeMessage {
        info_hash: info_hash.clone(),
        peer_id: peer_id.clone(),
    };

    let encoded: Vec<u8> = message.encode();
    assert_eq!(encoded.len(), 68);

    let decoded: HandshakeMessage = HandshakeMessage::decode(&encoded).unwrap();
    assert_eq!(decoded.info_hash, info_hash);
    assert_eq!(decoded.peer_id, peer_id);
}

#[test]
fn test_handshake_short_declared_name_tolerated() {
    let mut bytes: Vec<u8> = vec![0u8; 68];
    bytes[0] = 0;
    for i in 9..29 {
        bytes[i] = 0x11;
    }
    for i in 29..68 {
        bytes[i] = 0x22;
    }

    let decoded: HandshakeMessage = HandshakeMessage::decode(&bytes).unwrap();

    assert_eq!(decoded.info_hash, vec![0x11u8; 20]);
    assert_eq!(decoded.peer_id, vec![0x22u8; 39]);
}

#[test]
fn test_handshake_oversized_declared_name_rejected() {
    let mut bytes: Vec<u8> = vec![0u8; 68];
    bytes[0] = 0xff;

    assert_eq!(
        HandshakeMessage::decode(&bytes).unwrap_err(),
        DecodeError::TooShort
    );
}

#[test]
fn test_try_encode_matches_encode() {
    let message: PeerMessage = PeerMessage::Bitfield(BitfieldPayload {
        bitfield: vec![0xca, 0xfe],
    });

    assert_eq!(message.try_encode().unwrap(), message.encode());
}

#[test]
fn test_config_default_values() {
    let config: Config = Config::default();

    assert!(!config.pedantic);
    assert!(config.respect_private_trackers);
}
