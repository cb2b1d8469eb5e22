//! Wire codec for the BitTorrent peer protocol: the fixed 68-byte handshake
//! preamble and the length-prefixed message frames exchanged after it.
//!
//! Every encoder and decoder is specified against a pure mathematical model
//! of the wire format (spec functions over `Seq<u8>`), and the round-trip
//! laws between encoding and decoding are proved as lemmas.

pub mod bytes;
pub mod config;
pub mod protocol;
