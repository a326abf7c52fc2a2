//! Bounds-checked byte cursor and the shared error taxonomy.
//!
//! Every multi-byte field of this protocol is read in network byte order
//! (most significant byte first), the single fixed byte order this
//! protocol uses throughout.

use vstd::prelude::*;

verus! {

/// The closed set of failure kinds produced by every decoder in this crate.
/// The first error encountered aborts the whole decode and is returned
/// unchanged; no partial value is ever exposed.
#[derive(Debug, Clone, Copy, PartialEq, Eq, Structural)]
pub enum ParseError {
    /// Fewer bytes remain than a field requires.
    PrematureEnd,
    /// Header version value not recognized (defined, not currently enforced).
    UnsupportedVersion,
    /// Information-element tag outside the supported set.
    UnsupportedInformationElement(u8),
    /// Extension-header type tag outside the supported set.
    UnsupportedExtensionHeader(u8),
    /// Peer-address length neither 4 nor 16.
    BadIpAddress,
    /// Decoded UDP port exceeds the 16-bit domain.
    BadUdpPort(u32),
}

pub type ParseResult<T> = Result<T, ParseError>;

/// The unsigned value of two bytes in network byte order.
pub open spec fn spec_u16_be(b0: u8, b1: u8) -> u16 {
    (b0 * 0x100 + b1) as u16
}

/// The unsigned value of four bytes in network byte order.
pub open spec fn spec_u32_be(b0: u8, b1: u8, b2: u8, b3: u8) -> u32 {
    (b0 * 0x1000000 + b1 * 0x10000 + b2 * 0x100 + b3) as u32
}

/// Mathematical model of reading `n` raw bytes at `pos`: the bytes and the
/// new position, or `PrematureEnd` when fewer than `n` bytes remain.
pub open spec fn spec_read(buf: Seq<u8>, pos: int, n: int) -> Result<(Seq<u8>, int), ParseError> {
    if 0 <= pos && 0 <= n && pos + n <= buf.len() {
        Ok((buf.subrange(pos, pos + n), pos + n))
    } else {
        Err(ParseError::PrematureEnd)
    }
}

/// Mathematical model of reading one byte at `pos`.
pub open spec fn spec_read_u8(buf: Seq<u8>, pos: int) -> Result<(u8, int), ParseError> {
    if 0 <= pos && pos + 1 <= buf.len() {
        Ok((buf[pos], pos + 1))
    } else {
        Err(ParseError::PrematureEnd)
    }
}

/// Mathematical model of reading a 16-bit network-byte-order integer at `pos`.
pub open spec fn spec_read_u16(buf: Seq<u8>, pos: int) -> Result<(u16, int), ParseError> {
    if 0 <= pos && pos + 2 <= buf.len() {
        Ok((spec_u16_be(buf[pos], buf[pos + 1]), pos + 2))
    } else {
        Err(ParseError::PrematureEnd)
    }
}

/// Mathematical model of reading a 32-bit network-byte-order integer at `pos`.
pub open spec fn spec_read_u32(buf: Seq<u8>, pos: int) -> Result<(u32, int), ParseError> {
    if 0 <= pos && pos + 4 <= buf.len() {
        Ok((spec_u32_be(buf[pos], buf[pos + 1], buf[pos + 2], buf[pos + 3]), pos + 4))
    } else {
        Err(ParseError::PrematureEnd)
    }
}

/// Bounds-checked sequential reader over a borrowed, immutable byte buffer.
/// The position never exceeds the buffer length; every read either advances
/// the position by exactly the requested count or fails without mutating it.
pub struct Parser<'a> {
    bytes: &'a [u8],
    pos: usize,
}

impl<'a> Parser<'a> {
    /// The underlying byte buffer, as a sequence.
    pub closed spec fn buf(&self) -> Seq<u8> {
        self.bytes@
    }

    /// The read position: the number of bytes consumed so far.
    pub closed spec fn cur(&self) -> int {
        self.pos as int
    }

    /// The cursor invariant: the position stays inside the buffer.
    pub open spec fn wf(&self) -> bool {
        0 <= self.cur() <= self.buf().len()
    }

    pub fn new(bytes: &'a [u8]) -> (p: Parser<'a>)
        ensures
            p.wf(),
            p.buf() == bytes@,
            p.cur() == 0,
    {
        Parser { bytes, pos: 0 }
    }

    /// Read the next `len` raw bytes and advance, or fail with `PrematureEnd`
    /// leaving the cursor unchanged.
    pub fn parse(&mut self, len: usize) -> (r: ParseResult<&'a [u8]>)
        requires
            old(self).wf(),
        ensures
            final(self).wf(),
            final(self).buf() == old(self).buf(),
            final(self).cur() >= old(self).cur(),
            match r {
                Ok(s) => spec_read(old(self).buf(), old(self).cur(), len as int)
                    == Ok::<(Seq<u8>, int), ParseError>((s@, final(self).cur())),
                Err(e) => spec_read(old(self).buf(), old(self).cur(), len as int)
                    == Err::<(Seq<u8>, int), ParseError>(e)
                    && final(self).cur() == old(self).cur(),
            },
    {
        if len > self.bytes.len() - self.pos {
            return Err(ParseError::PrematureEnd);
        }
        let end = self.pos + len;
        let s = vstd::slice::slice_subrange(self.bytes, self.pos, end);
        self.pos = end;
        Ok(s)
    }

    /// Read one byte.
    pub fn parse_u8(&mut self) -> (r: ParseResult<u8>)
        requires
            old(self).wf(),
        ensures
            final(self).wf(),
            final(self).buf() == old(self).buf(),
            final(self).cur() >= old(self).cur(),
            match r {
                Ok(b) => spec_read_u8(old(self).buf(), old(self).cur())
                    == Ok::<(u8, int), ParseError>((b, final(self).cur())),
                Err(e) => spec_read_u8(old(self).buf(), old(self).cur())
                    == Err::<(u8, int), ParseError>(e)
                    && final(self).cur() == old(self).cur(),
            },
    {
        match self.parse(1) {
            Ok(s) => Ok(*vstd::slice::slice_index_get(s, 0)),
            Err(e) => Err(e),
        }
    }

    /// Read a 16-bit integer in network byte order.
    pub fn parse_u16(&mut self) -> (r: ParseResult<u16>)
        requires
            old(self).wf(),
        ensures
            final(self).wf(),
            final(self).buf() == old(self).buf(),
            final(self).cur() >= old(self).cur(),
            match r {
                Ok(v) => spec_read_u16(old(self).buf(), old(self).cur())
                    == Ok::<(u16, int), ParseError>((v, final(self).cur())),
                Err(e) => spec_read_u16(old(self).buf(), old(self).cur())
                    == Err::<(u16, int), ParseError>(e)
                    && final(self).cur() == old(self).cur(),
            },
    {
        match self.parse(2) {
            Ok(s) => {
                let b0 = *vstd::slice::slice_index_get(s, 0);
                let b1 = *vstd::slice::slice_index_get(s, 1);
                Ok((b0 as u16) * 0x100 + (b1 as u16))
            },
            Err(e) => Err(e),
        }
    }

    /// Read a 32-bit integer in network byte order.
    pub fn parse_u32(&mut self) -> (r: ParseResult<u32>)
        requires
            old(self).wf(),
        ensures
            final(self).wf(),
            final(self).buf() == old(self).buf(),
            final(self).cur() >= old(self).cur(),
            match r {
                Ok(v) => spec_read_u32(old(self).buf(), old(self).cur())
                    == Ok::<(u32, int), ParseError>((v, final(self).cur())),
                Err(e) => spec_read_u32(old(self).buf(), old(self).cur())
                    == Err::<(u32, int), ParseError>(e)
                    && final(self).cur() == old(self).cur(),
            },
    {
        match self.parse(4) {
            Ok(s) => {
                let b0 = *vstd::slice::slice_index_get(s, 0);
                let b1 = *vstd::slice::slice_index_get(s, 1);
                let b2 = *vstd::slice::slice_index_get(s, 2);
                let b3 = *vstd::slice::slice_index_get(s, 3);
                Ok((b0 as u32) * 0x1000000 + (b1 as u32) * 0x10000 + (b2 as u32) * 0x100
                    + (b3 as u32))
            },
            Err(e) => Err(e),
        }
    }
}

} // verus!
