//! Decoder for the header and trailing metadata of a GTP-U tunneling-protocol
//! packet. One immutable byte buffer goes in; a typed, validated header (or
//! one error from a closed taxonomy) comes out. Every decoder is a pure,
//! single-pass, forward-only function over the buffer, specified against
//! mathematical decode functions on byte sequences.

pub mod header;
pub mod info;
pub mod parser;
