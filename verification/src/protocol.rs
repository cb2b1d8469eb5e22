//! The peer-connection wire codec: the fixed 68-byte handshake preamble and
//! the length-prefixed peer message frames exchanged after it.
//!
//! Frame layout: a 4-byte big-endian length counting the type-id byte plus
//! the payload (not itself), then the 1-byte type id, then the payload.

use vstd::prelude::*;

use crate::bytes::{
    copy_range, lemma_u32_be_bytes_roundtrip, lemma_u32_be_value_roundtrip, push_bytes,
    push_u32_be, read_u32_be, spec_u32_from_be, spec_u32_to_be,
};

verus! {

/// Why a byte sequence failed to decode.
#[derive(Debug, PartialEq, Eq, Structural)]
pub enum DecodeError {
    /// More bytes than an exact-length field or a bodyless frame allows.
    TooLong,
    /// Fewer bytes than the format requires for the field or frame.
    TooShort,
    /// The declared 4-byte length prefix contradicts the byte count supplied.
    WrongLength,
    /// The type-id byte matches no known message variant.
    InvalidMessageType,
}

/// Payload of a Have message: the index of a completed piece.
#[derive(Clone, Copy, Debug, PartialEq, Eq, Structural)]
pub struct HavePayload {
    pub index: u32,
}

/// What decoding a Have payload yields: exactly four big-endian bytes, or
/// the error naming which bound was broken.
pub open spec fn spec_decode_have(p: Seq<u8>) -> Result<u32, DecodeError> {
    if p.len() > 4 {
        Err(DecodeError::TooLong)
    } else if p.len() < 4 {
        Err(DecodeError::TooShort)
    } else {
        Ok(spec_u32_from_be(p))
    }
}

impl HavePayload {
    /// Decodes a Have payload: exactly 4 bytes, the big-endian piece index.
    pub fn decode(value: Vec<u8>) -> (r: Result<Self, DecodeError>)
        ensures
            match r {
                Ok(p) => spec_decode_have(value@) == Ok::<u32, DecodeError>(p.index),
                Err(e) => spec_decode_have(value@) == Err::<u32, DecodeError>(e),
            },
            value@.len() > 4 ==> r == Err::<Self, DecodeError>(DecodeError::TooLong),
            value@.len() < 4 ==> r == Err::<Self, DecodeError>(DecodeError::TooShort),
    {
        if value.len() > 4 {
            return Err(DecodeError::TooLong);
        }
        if value.len() < 4 {
            return Err(DecodeError::TooShort);
        }
        let index = read_u32_be(&value, 0);
        proof {
            assert(value@.subrange(0, 4) =~= value@);
        }
        Ok(HavePayload { index })
    }

    /// Encodes the payload as its four big-endian bytes.
    pub fn encode(&self) -> (r: Vec<u8>)
        ensures
            r@ == spec_u32_to_be(self.index),
    {
        let mut out: Vec<u8> = Vec::new();
        push_u32_be(&mut out, self.index);
        out
    }
}

/// Payload of a Bitfield message: opaque bytes, one bit per piece, accepted
/// verbatim at any length.
#[derive(Clone, Debug, PartialEq, Eq)]
pub struct BitfieldPayload {
    pub bitfield: Vec<u8>,
}

impl BitfieldPayload {
    /// Decodes a Bitfield payload: the bytes are taken verbatim; no length
    /// is rejected.
    pub fn decode(value: Vec<u8>) -> (r: Result<Self, DecodeError>)
        ensures
            r matches Ok(p) && p.bitfield@ == value@,
    {
        Ok(BitfieldPayload { bitfield: value })
    }

    /// Encodes the payload as its bytes, verbatim.
    pub fn encode(&self) -> (r: Vec<u8>)
        ensures
            r@ == self.bitfield@,
    {
        let r = copy_range(&self.bitfield, 0, self.bitfield.len());
        proof {
            assert(self.bitfield@.subrange(0, self.bitfield@.len() as int) =~= self.bitfield@);
        }
        r
    }
}

/// What decoding an (index, begin, length) payload yields: exactly twelve
/// bytes split into three big-endian fields, or the error naming which
/// bound was broken. Request and Cancel share this shape.
pub open spec fn spec_decode_triple(p: Seq<u8>) -> Result<(u32, u32, u32), DecodeError> {
    if p.len() > 12 {
        Err(DecodeError::TooLong)
    } else if p.len() < 12 {
        Err(DecodeError::TooShort)
    } else {
        Ok(
            (
                spec_u32_from_be(p.subrange(0, 4)),
                spec_u32_from_be(p.subrange(4, 8)),
                spec_u32_from_be(p.subrange(8, 12)),
            ),
        )
    }
}

/// The twelve bytes of an (index, begin, length) payload, each field
/// big-endian, in declaration order.
pub open spec fn spec_encode_triple(index: u32, begin: u32, length: u32) -> Seq<u8> {
    spec_u32_to_be(index) + spec_u32_to_be(begin) + spec_u32_to_be(length)
}

/// Payload of a Request message: which block of which piece is wanted.
#[derive(Clone, Copy, Debug, PartialEq, Eq, Structural)]
pub struct RequestPayload {
    pub index: u32,
    pub begin: u32,
    pub length: u32,
}

impl RequestPayload {
    /// Decodes a Request payload: exactly 12 bytes, three big-endian fields.
    pub fn decode(value: Vec<u8>) -> (r: Result<Self, DecodeError>)
        ensures
            match r {
                Ok(p) => spec_decode_triple(value@) == Ok::<_, DecodeError>(
                    (p.index, p.begin, p.length),
                ),
                Err(e) => spec_decode_triple(value@) == Err::<(u32, u32, u32), DecodeError>(e),
            },
            value@.len() > 12 ==> r == Err::<Self, DecodeError>(DecodeError::TooLong),
            value@.len() < 12 ==> r == Err::<Self, DecodeError>(DecodeError::TooShort),
    {
        if value.len() > 12 {
            return Err(DecodeError::TooLong);
        }
        if value.len() < 12 {
            return Err(DecodeError::TooShort);
        }
        let index = read_u32_be(&value, 0);
        let begin = read_u32_be(&value, 4);
        let length = read_u32_be(&value, 8);
        Ok(RequestPayload { index, begin, length })
    }

    /// Encodes the payload as index, begin, length, each big-endian.
    pub fn encode(&self) -> (r: Vec<u8>)
        ensures
            r@ == spec_encode_triple(self.index, self.begin, self.length),
    {
        let mut out: Vec<u8> = Vec::new();
        push_u32_be(&mut out, self.index);
        push_u32_be(&mut out, self.begin);
        push_u32_be(&mut out, self.length);
        out
    }
}

/// Payload of a Cancel message: withdraws the matching Request.
#[derive(Clone, Copy, Debug, PartialEq, Eq, Structural)]
pub struct CancelPayload {
    pub index: u32,
    pub begin: u32,
    pub length: u32,
}

impl CancelPayload {
    /// Decodes a Cancel payload: exactly 12 bytes, three big-endian fields.
    pub fn decode(value: Vec<u8>) -> (r: Result<Self, DecodeError>)
        ensures
            match r {
                Ok(p) => spec_decode_triple(value@) == Ok::<_, DecodeError>(
                    (p.index, p.begin, p.length),
                ),
                Err(e) => spec_decode_triple(value@) == Err::<(u32, u32, u32), DecodeError>(e),
            },
            value@.len() > 12 ==> r == Err::<Self, DecodeError>(DecodeError::TooLong),
            value@.len() < 12 ==> r == Err::<Self, DecodeError>(DecodeError::TooShort),
    {
        if value.len() > 12 {
            return Err(DecodeError::TooLong);
        }
        if value.len() < 12 {
            return Err(DecodeError::TooShort);
        }
        let index = read_u32_be(&value, 0);
        let begin = read_u32_be(&value, 4);
        let length = read_u32_be(&value, 8);
        Ok(CancelPayload { index, begin, length })
    }

    /// Encodes the payload as index, begin, length, each big-endian.
    pub fn encode(&self) -> (r: Vec<u8>)
        ensures
            r@ == spec_encode_triple(self.index, self.begin, self.length),
    {
        let mut out: Vec<u8> = Vec::new();
        push_u32_be(&mut out, self.index);
        push_u32_be(&mut out, self.begin);
        push_u32_be(&mut out, self.length);
        out
    }
}

/// What decoding a Piece payload yields: at least eight bytes for index and
/// begin, the rest taken verbatim as the block with no upper bound.
pub open spec fn spec_decode_piece(p: Seq<u8>) -> Result<(u32, u32, Seq<u8>), DecodeError> {
    if p.len() < 8 {
        Err(DecodeError::TooShort)
    } else {
        Ok(
            (
                spec_u32_from_be(p.subrange(0, 4)),
                spec_u32_from_be(p.subrange(4, 8)),
                p.subrange(8, p.len() as int),
            ),
        )
    }
}

/// Payload of a Piece message: a block of piece data.
#[derive(Clone, Debug, PartialEq, Eq)]
pub struct PiecePayload {
    pub index: u32,
    pub begin: u32,
    pub piece: Vec<u8>,
}

impl PiecePayload {
    /// Decodes a Piece payload: two big-endian fields, then the block bytes
    /// verbatim.
    pub fn decode(value: Vec<u8>) -> (r: Result<Self, DecodeError>)
        ensures
            match r {
                Ok(p) => spec_decode_piece(value@) == Ok::<_, DecodeError>(
                    (p.index, p.begin, p.piece@),
                ),
                Err(e) => spec_decode_piece(value@) == Err::<(u32, u32, Seq<u8>), DecodeError>(e),
            },
            value@.len() < 8 ==> r == Err::<Self, DecodeError>(DecodeError::TooShort),
    {
        if value.len() < 8 {
            return Err(DecodeError::TooShort);
        }
        let index = read_u32_be(&value, 0);
        let begin = read_u32_be(&value, 4);
        let piece = copy_range(&value, 8, value.len());
        Ok(PiecePayload { index, begin, piece })
    }

    /// Encodes the payload as index, begin, then the block bytes.
    pub fn encode(&self) -> (r: Vec<u8>)
        ensures
            r@ == spec_u32_to_be(self.index) + spec_u32_to_be(self.begin) + self.piece@,
    {
        let mut out: Vec<u8> = Vec::new();
        push_u32_be(&mut out, self.index);
        push_u32_be(&mut out, self.begin);
        push_bytes(&mut out, &self.piece);
        out
    }
}

/// One framed message of the peer protocol, the closed set of nine variants.
#[derive(Clone, Debug, PartialEq, Eq)]
pub enum PeerMessage {
    Choke,
    Unchoke,
    Interested,
    NotInterested,
    Have(HavePayload),
    Bitfield(BitfieldPayload),
    Request(RequestPayload),
    Piece(PiecePayload),
    Cancel(CancelPayload),
}

/// The mathematical model of a message: the same nine variants with byte
/// vectors abstracted to sequences.
pub enum PeerMessageView {
    Choke,
    Unchoke,
    Interested,
    NotInterested,
    Have { index: u32 },
    Bitfield { bitfield: Seq<u8> },
    Request { index: u32, begin: u32, length: u32 },
    Piece { index: u32, begin: u32, piece: Seq<u8> },
    Cancel { index: u32, begin: u32, length: u32 },
}

impl View for PeerMessage {
    type V = PeerMessageView;

    open spec fn view(&self) -> PeerMessageView {
        match self {
            PeerMessage::Choke => PeerMessageView::Choke,
            PeerMessage::Unchoke => PeerMessageView::Unchoke,
            PeerMessage::Interested => PeerMessageView::Interested,
            PeerMessage::NotInterested => PeerMessageView::NotInterested,
            PeerMessage::Have(p) => PeerMessageView::Have { index: p.index },
            PeerMessage::Bitfield(p) => PeerMessageView::Bitfield { bitfield: p.bitfield@ },
            PeerMessage::Request(p) => PeerMessageView::Request {
                index: p.index,
                begin: p.begin,
                length: p.length,
            },
            PeerMessage::Piece(p) => PeerMessageView::Piece {
                index: p.index,
                begin: p.begin,
                piece: p.piece@,
            },
            PeerMessage::Cancel(p) => PeerMessageView::Cancel {
                index: p.index,
                begin: p.begin,
                length: p.length,
            },
        }
    }
}

/// The wire type id of a message: 0 to 3 for the bodyless variants, 4 to 8
/// for Have, Bitfield, Request, Piece and Cancel.
pub open spec fn spec_msg_id(v: PeerMessageView) -> u8 {
    match v {
        PeerMessageView::Choke => 0,
        PeerMessageView::Unchoke => 1,
        PeerMessageView::Interested => 2,
        PeerMessageView::NotInterested => 3,
        PeerMessageView::Have { .. } => 4,
        PeerMessageView::Bitfield { .. } => 5,
        PeerMessageView::Request { .. } => 6,
        PeerMessageView::Piece { .. } => 7,
        PeerMessageView::Cancel { .. } => 8,
    }
}

/// The payload bytes of a message: empty for the bodyless variants, the
/// variant's fields serialized big-endian in declaration order otherwise.
pub open spec fn spec_msg_payload(v: PeerMessageView) -> Seq<u8> {
    match v {
        PeerMessageView::Choke => Seq::empty(),
        PeerMessageView::Unchoke => Seq::empty(),
        PeerMessageView::Interested => Seq::empty(),
        PeerMessageView::NotInterested => Seq::empty(),
        PeerMessageView::Have { index } => spec_u32_to_be(index),
        PeerMessageView::Bitfield { bitfield } => bitfield,
        PeerMessageView::Request { index, begin, length } => spec_encode_triple(
            index,
            begin,
            length,
        ),
        PeerMessageView::Piece { index, begin, piece } => spec_u32_to_be(index) + spec_u32_to_be(
            begin,
        ) + piece,
        PeerMessageView::Cancel { index, begin, length } => spec_encode_triple(
            index,
            begin,
            length,
        ),
    }
}

/// A message fits in a frame when the type-id byte plus its payload can be
/// counted by the 4-byte length prefix.
pub open spec fn spec_encodable(v: PeerMessageView) -> bool {
    1 + spec_msg_payload(v).len() <= u32::MAX
}

/// The frame for a message: the big-endian length counting the type-id byte
/// plus the payload, then the id, then the payload.
pub open spec fn spec_encode_msg(v: PeerMessageView) -> Seq<u8> {
    spec_u32_to_be((1 + spec_msg_payload(v).len()) as u32) + seq![spec_msg_id(v)]
        + spec_msg_payload(v)
}

/// What decoding a frame yields. A frame shorter than the 4-byte prefix
/// plus one id byte is too short; a prefix that contradicts the byte count
/// is the wrong length; a bodyless id with payload bytes is too long; an id
/// above 8 is unknown; otherwise the payload rules of the variant decide.
pub open spec fn spec_decode_msg(b: Seq<u8>) -> Result<PeerMessageView, DecodeError> {
    if b.len() < 5 {
        Err(DecodeError::TooShort)
    } else if b.len() != 4 + spec_u32_from_be(b.subrange(0, 4)) {
        Err(DecodeError::WrongLength)
    } else {
        let id = b[4];
        let payload = b.subrange(5, b.len() as int);
        if id <= 3 && b.len() > 5 {
            Err(DecodeError::TooLong)
        } else if id == 0 {
            Ok(PeerMessageView::Choke)
        } else if id == 1 {
            Ok(PeerMessageView::Unchoke)
        } else if id == 2 {
            Ok(PeerMessageView::Interested)
        } else if id == 3 {
            Ok(PeerMessageView::NotInterested)
        } else if id == 4 {
            match spec_decode_have(payload) {
                Ok(index) => Ok(PeerMessageView::Have { index }),
                Err(e) => Err(e),
            }
        } else if id == 5 {
            Ok(PeerMessageView::Bitfield { bitfield: payload })
        } else if id == 6 {
            match spec_decode_triple(payload) {
                Ok((index, begin, length)) => Ok(PeerMessageView::Request { index, begin, length }),
                Err(e) => Err(e),
            }
        } else if id == 7 {
            match spec_decode_piece(payload) {
                Ok((index, begin, piece)) => Ok(PeerMessageView::Piece { index, begin, piece }),
                Err(e) => Err(e),
            }
        } else if id == 8 {
            match spec_decode_triple(payload) {
                Ok((index, begin, length)) => Ok(PeerMessageView::Cancel { index, begin, length }),
                Err(e) => Err(e),
            }
        } else {
            Err(DecodeError::InvalidMessageType)
        }
    }
}

impl PeerMessage {
    /// Decodes one complete frame. Every malformed input is mapped to an
    /// error; no input panics.
    pub fn decode(value: &Vec<u8>) -> (r: Result<Self, DecodeError>)
        ensures
            match r {
                Ok(m) => spec_decode_msg(value@) == Ok::<PeerMessageView, DecodeError>(m@),
                Err(e) => spec_decode_msg(value@) == Err::<PeerMessageView, DecodeError>(e),
            },
    {
        if value.len() < 5 {
            return Err(DecodeError::TooShort);
        }
        let length = read_u32_be(value, 0);
        if value.len() - 4 != length as usize {
            return Err(DecodeError::WrongLength);
        }
        let id = value[4];
        if id <= 3 && value.len() > 5 {
            return Err(DecodeError::TooLong);
        }
        match id {
            0 => Ok(PeerMessage::Choke),
            1 => Ok(PeerMessage::Unchoke),
            2 => Ok(PeerMessage::Interested),
            3 => Ok(PeerMessage::NotInterested),
            4 => match HavePayload::decode(copy_range(value, 5, value.len())) {
                Ok(p) => Ok(PeerMessage::Have(p)),
                Err(e) => Err(e),
            },
            5 => match BitfieldPayload::decode(copy_range(value, 5, value.len())) {
                Ok(p) => Ok(PeerMessage::Bitfield(p)),
                Err(e) => Err(e),
            },
            6 => match RequestPayload::decode(copy_range(value, 5, value.len())) {
                Ok(p) => Ok(PeerMessage::Request(p)),
                Err(e) => Err(e),
            },
            7 => match PiecePayload::decode(copy_range(value, 5, value.len())) {
                Ok(p) => Ok(PeerMessage::Piece(p)),
                Err(e) => Err(e),
            },
            8 => match CancelPayload::decode(copy_range(value, 5, value.len())) {
                Ok(p) => Ok(PeerMessage::Cancel(p)),
                Err(e) => Err(e),
            },
            _ => Err(DecodeError::InvalidMessageType),
        }
    }

    /// Encodes the message as one complete frame, the exact inverse of
    /// `decode`.
    pub fn encode(&self) -> (r: Vec<u8>)
        requires
            spec_encodable(self@),
        ensures
            r@ == spec_encode_msg(self@),
    {
        let (id, payload): (u8, Vec<u8>) = match self {
            PeerMessage::Choke => (0u8, Vec::new()),
            PeerMessage::Unchoke => (1u8, Vec::new()),
            PeerMessage::Interested => (2u8, Vec::new()),
            PeerMessage::NotInterested => (3u8, Vec::new()),
            PeerMessage::Have(p) => (4u8, p.encode()),
            PeerMessage::Bitfield(p) => (5u8, p.encode()),
            PeerMessage::Request(p) => (6u8, p.encode()),
            PeerMessage::Piece(p) => (7u8, p.encode()),
            PeerMessage::Cancel(p) => (8u8, p.encode()),
        };
        proof {
            assert(payload@ == spec_msg_payload(self@));
            assert(payload@.len() + 1 <= u32::MAX);
        }
        let length: u32 = 1 + payload.len() as u32;
        let mut out: Vec<u8> = Vec::new();
        push_u32_be(&mut out, length);
        out.push(id);
        push_bytes(&mut out, &payload);
        proof {
            assert(out@ =~= spec_encode_msg(self@));
        }
        out
    }

    /// Encodes the message if it fits a frame: `None` exactly when the
    /// type-id byte plus the payload cannot be counted by the 4-byte length
    /// prefix. Only a Bitfield or Piece can grow that large.
    pub fn try_encode(&self) -> (r: Option<Vec<u8>>)
        ensures
            match r {
                Some(bytes) => spec_encodable(self@) && bytes@ == spec_encode_msg(self@),
                None => !spec_encodable(self@),
            },
    {
        let fits: bool = match self {
            PeerMessage::Bitfield(p) => p.bitfield.len() < u32::MAX as usize,
            PeerMessage::Piece(p) => p.piece.len() <= (u32::MAX - 9) as usize,
            _ => true,
        };
        if fits {
            Some(self.encode())
        } else {
            None
        }
    }
}

/// The fixed preamble exchanged once per connection, before any frame.
#[derive(Clone, Debug, PartialEq, Eq)]
pub struct HandshakeMessage {
    pub info_hash: Vec<u8>,
    pub peer_id: Vec<u8>,
}

/// The mathematical model of a handshake: both byte vectors as sequences.
/// Well-formed values hold exactly 20 bytes in each field; malformed wire
/// input can produce other lengths, so the type does not force them.
pub struct HandshakeMessageView {
    pub info_hash: Seq<u8>,
    pub peer_id: Seq<u8>,
}

impl View for HandshakeMessage {
    type V = HandshakeMessageView;

    open spec fn view(&self) -> HandshakeMessageView {
        HandshakeMessageView { info_hash: self.info_hash@, peer_id: self.peer_id@ }
    }
}

/// The 19 ASCII bytes of the protocol name literal, "BitTorrent protocol".
pub open spec fn spec_protocol_name() -> Seq<u8> {
    seq![
        0x42u8,
        0x69,
        0x74,
        0x54,
        0x6f,
        0x72,
        0x72,
        0x65,
        0x6e,
        0x74,
        0x20,
        0x70,
        0x72,
        0x6f,
        0x74,
        0x6f,
        0x63,
        0x6f,
        0x6c,
    ]
}

/// The preamble for a handshake: the name length 19, the 19-byte protocol
/// name, 8 reserved zero bytes, then the info hash and the peer id. With
/// 20 bytes in each field this is exactly 68 bytes.
pub open spec fn spec_encode_handshake(v: HandshakeMessageView) -> Seq<u8> {
    seq![19u8] + spec_protocol_name() + seq![0u8, 0u8, 0u8, 0u8, 0u8, 0u8, 0u8, 0u8] + v.info_hash
        + v.peer_id
}

/// What decoding a preamble yields. Exactly 68 bytes are required. The
/// declared name length at offset 0 is read but not held to the literal:
/// the info hash is the 20 bytes after the name and the reserved block,
/// and the peer id is the rest. A declared name length that would push
/// those fields past the end is rejected as too short.
pub open spec fn spec_decode_handshake(b: Seq<u8>) -> Result<HandshakeMessageView, DecodeError> {
    if b.len() < 68 {
        Err(DecodeError::TooShort)
    } else if b.len() > 68 {
        Err(DecodeError::TooLong)
    } else {
        let pstrlen = b[0] as int;
        if 29 + pstrlen > 68 {
            Err(DecodeError::TooShort)
        } else {
            Ok(
                HandshakeMessageView {
                    info_hash: b.subrange(9 + pstrlen, 29 + pstrlen),
                    peer_id: b.subrange(29 + pstrlen, 68),
                },
            )
        }
    }
}

impl HandshakeMessage {
    /// Decodes the 68-byte preamble. Every malformed input is mapped to an
    /// error; no input panics.
    pub fn decode(value: &Vec<u8>) -> (r: Result<Self, DecodeError>)
        ensures
            match r {
                Ok(m) => spec_decode_handshake(value@) == Ok::<
                    HandshakeMessageView,
                    DecodeError,
                >(m@),
                Err(e) => spec_decode_handshake(value@) == Err::<HandshakeMessageView, DecodeError>(
                    e,
                ),
            },
    {
        if value.len() < 68 {
            return Err(DecodeError::TooShort);
        }
        if value.len() > 68 {
            return Err(DecodeError::TooLong);
        }
        let pstrlen = value[0] as usize;
        if 29 + pstrlen > 68 {
            return Err(DecodeError::TooShort);
        }
        let info_hash = copy_range(value, 9 + pstrlen, 29 + pstrlen);
        let peer_id = copy_range(value, 29 + pstrlen, 68);
        Ok(HandshakeMessage { info_hash, peer_id })
    }

    /// Encodes the preamble; the caller supplies 20-byte fields, and the
    /// encoder lays them out verbatim after the fixed header.
    pub fn encode(&self) -> (r: Vec<u8>)
        ensures
            r@ == spec_encode_handshake(self@),
    {
        let mut out: Vec<u8> = Vec::new();
        out.push(19);
        out.push(0x42);
        out.push(0x69);
        out.push(0x74);
        out.push(0x54);
        out.push(0x6f);
        out.push(0x72);
        out.push(0x72);
        out.push(0x65);
        out.push(0x6e);
        out.push(0x74);
        out.push(0x20);
        out.push(0x70);
        out.push(0x72);
        out.push(0x6f);
        out.push(0x74);
        out.push(0x6f);
        out.push(0x63);
        out.push(0x6f);
        out.push(0x6c);
        out.push(0);
        out.push(0);
        out.push(0);
        out.push(0);
        out.push(0);
        out.push(0);
        out.push(0);
        out.push(0);
        push_bytes(&mut out, &self.info_hash);
        push_bytes(&mut out, &self.peer_id);
        proof {
            assert(out@ =~= spec_encode_handshake(self@));
        }
        out
    }
}

/// Round-trip law: decoding the frame encoded from any message that fits a
/// frame yields that message back.
pub proof fn lemma_decode_inverts_encode(v: PeerMessageView)
    requires
        spec_encodable(v),
    ensures
        spec_decode_msg(spec_encode_msg(v)) == Ok::<PeerMessageView, DecodeError>(v),
{
    let b = spec_encode_msg(v);
    let pl = spec_msg_payload(v);
    let len32 = (1 + pl.len()) as u32;
    assert(b.len() == 5 + pl.len());
    assert(b.subrange(0, 4) =~= spec_u32_to_be(len32));
    lemma_u32_be_value_roundtrip(len32);
    assert(b[4] == spec_msg_id(v));
    assert(b.subrange(5, b.len() as int) =~= pl);
    match v {
        PeerMessageView::Choke => {
        },
        PeerMessageView::Unchoke => {
        },
        PeerMessageView::Interested => {
        },
        PeerMessageView::NotInterested => {
        },
        PeerMessageView::Have { index } => {
            lemma_u32_be_value_roundtrip(index);
        },
        PeerMessageView::Bitfield { .. } => {
        },
        PeerMessageView::Request { index, begin, length } => {
            assert(pl.subrange(0, 4) =~= spec_u32_to_be(index));
            assert(pl.subrange(4, 8) =~= spec_u32_to_be(begin));
            assert(pl.subrange(8, 12) =~= spec_u32_to_be(length));
            lemma_u32_be_value_roundtrip(index);
            lemma_u32_be_value_roundtrip(begin);
            lemma_u32_be_value_roundtrip(length);
        },
        PeerMessageView::Piece { index, begin, piece } => {
            assert(pl.subrange(0, 4) =~= spec_u32_to_be(index));
            assert(pl.subrange(4, 8) =~= spec_u32_to_be(begin));
            assert(pl.subrange(8, pl.len() as int) =~= piece);
            lemma_u32_be_value_roundtrip(index);
            lemma_u32_be_value_roundtrip(begin);
        },
        PeerMessageView::Cancel { index, begin, length } => {
            assert(pl.subrange(0, 4) =~= spec_u32_to_be(index));
            assert(pl.subrange(4, 8) =~= spec_u32_to_be(begin));
            assert(pl.subrange(8, 12) =~= spec_u32_to_be(length));
            lemma_u32_be_value_roundtrip(index);
            lemma_u32_be_value_roundtrip(begin);
            lemma_u32_be_value_roundtrip(length);
        },
    }
}

/// Inverse round-trip law: re-encoding the message decoded from any byte
/// sequence that decodes successfully yields those bytes back.
pub proof fn lemma_encode_inverts_decode(b: Seq<u8>)
    requires
        spec_decode_msg(b) is Ok,
    ensures
        spec_encode_msg(spec_decode_msg(b)->Ok_0) == b,
{
    let v = spec_decode_msg(b)->Ok_0;
    let id = b[4];
    let pl = b.subrange(5, b.len() as int);
    let length = spec_u32_from_be(b.subrange(0, 4));
    lemma_u32_be_bytes_roundtrip(b.subrange(0, 4));
    assert(b.len() == 4 + length);
    assert(pl.len() + 1 == length);
    if id <= 3 {
        assert(b.len() == 5);
        assert(spec_msg_payload(v) =~= pl);
    } else if id == 4 {
        assert(pl.len() == 4);
        lemma_u32_be_bytes_roundtrip(pl);
        assert(spec_msg_payload(v) =~= pl);
    } else if id == 5 {
        assert(spec_msg_payload(v) == pl);
    } else if id == 6 || id == 8 {
        assert(pl.len() == 12);
        lemma_u32_be_bytes_roundtrip(pl.subrange(0, 4));
        lemma_u32_be_bytes_roundtrip(pl.subrange(4, 8));
        lemma_u32_be_bytes_roundtrip(pl.subrange(8, 12));
        assert(spec_msg_payload(v) =~= pl);
    } else {
        assert(id == 7);
        assert(pl.len() >= 8);
        lemma_u32_be_bytes_roundtrip(pl.subrange(0, 4));
        lemma_u32_be_bytes_roundtrip(pl.subrange(4, 8));
        assert(spec_msg_payload(v) =~= pl);
    }
    assert((1 + spec_msg_payload(v).len()) as u32 == length);
    assert(spec_encode_msg(v) =~= b);
}

/// Frame length law: the first four bytes of an encoded frame, read
/// big-endian, equal the frame's total byte count less the prefix's four.
pub proof fn lemma_frame_length_prefix(v: PeerMessageView)
    requires
        spec_encodable(v),
    ensures
        spec_u32_from_be(spec_encode_msg(v).subrange(0, 4)) == spec_encode_msg(v).len() - 4,
{
    let len32 = (1 + spec_msg_payload(v).len()) as u32;
    assert(spec_encode_msg(v).subrange(0, 4) =~= spec_u32_to_be(len32));
    lemma_u32_be_value_roundtrip(len32);
}

/// Unknown type law: any frame whose declared length matches its byte count
/// but whose type id is above 8 is rejected as an invalid message type.
pub proof fn lemma_unknown_id_rejected(b: Seq<u8>)
    requires
        b.len() >= 5,
        b.len() == 4 + spec_u32_from_be(b.subrange(0, 4)),
        b[4] > 8,
    ensures
        spec_decode_msg(b) == Err::<PeerMessageView, DecodeError>(DecodeError::InvalidMessageType),
{
}

/// Bodyless surplus law: any frame whose declared length matches its byte
/// count but which carries payload bytes after a bodyless type id (0 to 3)
/// is rejected as too long.
pub proof fn lemma_bodyless_surplus_rejected(b: Seq<u8>)
    requires
        b.len() > 5,
        b.len() == 4 + spec_u32_from_be(b.subrange(0, 4)),
        b[4] <= 3,
    ensures
        spec_decode_msg(b) == Err::<PeerMessageView, DecodeError>(DecodeError::TooLong),
{
}

/// Handshake round-trip law: decoding the preamble encoded from a
/// well-formed handshake (20 bytes in each field) yields it back.
pub proof fn lemma_handshake_roundtrip(v: HandshakeMessageView)
    requires
        v.info_hash.len() == 20,
        v.peer_id.len() == 20,
    ensures
        spec_decode_handshake(spec_encode_handshake(v)) == Ok::<HandshakeMessageView, DecodeError>(
            v,
        ),
{
    let b = spec_encode_handshake(v);
    assert(b.len() == 68);
    assert(b[0] == 19u8);
    assert(b.subrange(28, 48) =~= v.info_hash);
    assert(b.subrange(48, 68) =~= v.peer_id);
}

} // verus!
