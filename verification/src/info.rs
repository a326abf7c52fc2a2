//! Tag-dispatched decoder for information elements: auxiliary fields that
//! may follow a header in some message types. A tag with the high bit clear
//! names a fixed-length element whose byte length the tag determines; a tag
//! with the high bit set names a variable-length element with an explicit
//! one-byte length prefix. Every tag outside the supported sets yields a
//! typed error, never an uncaught failure.

use crate::parser::{
    spec_read, spec_read_u32, spec_read_u8, spec_u32_be, ParseError, ParseResult, Parser,
};
use vstd::prelude::*;

verus! {

/// The two-bit policy field on certain extension records: how a receiver
/// unable to interpret the record should behave.
#[derive(Debug, Clone, Copy, PartialEq, Eq, Structural)]
pub enum Comprehension {
    /// Forward unknown headers.
    Optional,
    /// Discard unknown headers.
    Discard,
    /// Comprehension required by the receiver.
    Receiver,
    /// Comprehension required by all nodes.
    Unconditional,
}

/// The typed payload of an extension-style information element.
#[derive(Debug, Clone, Copy, PartialEq, Eq, Structural)]
pub enum ExtType {
    UdpPort(u16),
    PdcpPduNumber(u32),
}

/// An extension-style information element: comprehension policy plus a
/// typed payload.
#[derive(Debug, Clone, Copy, PartialEq, Eq, Structural)]
pub struct ExtHeader {
    pub comprehension: Comprehension,
    pub header: ExtType,
}

/// The restart counter of a recovery element. Receivers ignore its value,
/// but it is still decoded.
#[derive(Debug, Clone, Copy, PartialEq, Eq, Structural)]
pub struct RestartCounter(pub u8);

/// The tunnel-endpoint-identifier data element.
#[derive(Debug, Clone, Copy, PartialEq, Eq, Structural)]
pub struct TeiData(pub u32);

/// A 16-bit length field, as carried by private extensions.
#[derive(Debug, Clone, Copy, PartialEq, Eq, Structural)]
pub struct Length(pub u16);

/// A peer address: length 4 decodes as an IPv4 address value, length 16 as
/// 16 raw IPv6 bytes, length-checked but not further structured.
#[derive(Debug, Clone, PartialEq, Eq)]
pub enum InetAddr {
    V4(u32),
    V6(Vec<u8>),
}

/// Mathematical image of a peer address.
pub enum InetAddrView {
    V4(u32),
    V6(Seq<u8>),
}

impl View for InetAddr {
    type V = InetAddrView;

    open spec fn view(&self) -> InetAddrView {
        match self {
            InetAddr::V4(v) => InetAddrView::V4(*v),
            InetAddr::V6(bytes) => InetAddrView::V6(bytes@),
        }
    }
}

/// A decoded information element, discriminated by its tag byte.
#[derive(Debug, Clone, PartialEq, Eq)]
pub enum InfoElement {
    /// Tag 14: recovery restart counter.
    Recovery(RestartCounter),
    /// Tag 16: tunnel-endpoint-identifier data.
    TeiData(TeiData),
    /// Tag 133: peer address.
    GtpPeerAddr(InetAddr),
    /// Tag 141: extension-style field.
    ExtHeader(ExtHeader),
}

/// Mathematical image of a decoded information element.
pub enum InfoElementView {
    Recovery(RestartCounter),
    TeiData(TeiData),
    GtpPeerAddr(InetAddrView),
    ExtHeader(ExtHeader),
}

impl View for InfoElement {
    type V = InfoElementView;

    open spec fn view(&self) -> InfoElementView {
        match self {
            InfoElement::Recovery(c) => InfoElementView::Recovery(*c),
            InfoElement::TeiData(d) => InfoElementView::TeiData(*d),
            InfoElement::GtpPeerAddr(a) => InfoElementView::GtpPeerAddr(a@),
            InfoElement::ExtHeader(h) => InfoElementView::ExtHeader(*h),
        }
    }
}

/// A vendor-private extension: an identifier and its raw value bytes.
#[derive(Debug, Clone, PartialEq, Eq)]
pub struct PrivateExt {
    pub id: u8,
    pub value: Vec<u8>,
}

/// The comprehension policy encoded by the top two bits of a type octet.
pub open spec fn spec_comprehension(b: u8) -> Comprehension {
    if b & 0b10000000 == 0 {
        if b & 0b01000000 == 0 {
            Comprehension::Optional
        } else {
            Comprehension::Discard
        }
    } else {
        if b & 0b01000000 == 0 {
            Comprehension::Receiver
        } else {
            Comprehension::Unconditional
        }
    }
}

impl Comprehension {
    pub fn parse(b: u8) -> (r: ParseResult<Comprehension>)
        ensures
            r == Ok::<Comprehension, ParseError>(spec_comprehension(b)),
    {
        Ok(
            match (b & 0b10000000 != 0, b & 0b01000000 != 0) {
                (false, false) => Comprehension::Optional,
                (false, true) => Comprehension::Discard,
                (true, false) => Comprehension::Receiver,
                (true, true) => Comprehension::Unconditional,
            },
        )
    }
}

/// Mathematical model of the scaled UDP-port payload: `len * 4` content
/// bytes whose first four decode as a 32-bit value, rejected as
/// `BadUdpPort` when it exceeds the 16-bit domain.
pub open spec fn spec_parse_udp_port(buf: Seq<u8>, pos: int, len: u8) -> Result<
    (ExtType, int),
    ParseError,
> {
    if len == 0 {
        Err(ParseError::PrematureEnd)
    } else {
        match spec_read(buf, pos, 4 * (len as int)) {
            Err(e) => Err(e),
            Ok((content, p1)) => {
                let port = spec_u32_be(content[0], content[1], content[2], content[3]);
                if port > 0xffff {
                    Err(ParseError::BadUdpPort(port))
                } else {
                    Ok((ExtType::UdpPort(port as u16), p1))
                }
            },
        }
    }
}

/// Mathematical model of the typed payload dispatch on the type octet.
pub open spec fn spec_parse_ext_type(buf: Seq<u8>, pos: int, t: u8, len: u8) -> Result<
    (ExtType, int),
    ParseError,
> {
    if t == 0b01000000 {
        spec_parse_udp_port(buf, pos, len)
    } else if t == 0b11000000 {
        match spec_read_u32(buf, pos) {
            Err(e) => Err(e),
            Ok((v, p1)) => Ok((ExtType::PdcpPduNumber(v), p1)),
        }
    } else {
        Err(ParseError::UnsupportedExtensionHeader(t))
    }
}

/// Mathematical model of an extension-style element after its type octet
/// `t`: comprehension from the top bits of `t`, one length byte, then the
/// typed payload.
pub open spec fn spec_parse_ext_header(buf: Seq<u8>, pos: int, t: u8) -> Result<
    (ExtHeader, int),
    ParseError,
> {
    match spec_read_u8(buf, pos) {
        Err(e) => Err(e),
        Ok((len, p1)) => match spec_parse_ext_type(buf, p1, t, len) {
            Err(e) => Err(e),
            Ok((et, p2)) => Ok(
                (ExtHeader { comprehension: spec_comprehension(t), header: et }, p2),
            ),
        },
    }
}

/// Mathematical model of a peer address with an explicit length: exactly 4
/// bytes give an IPv4 value, exactly 16 the raw IPv6 bytes, and any other
/// length is `BadIpAddress`.
pub open spec fn spec_parse_inet(buf: Seq<u8>, pos: int, len: u8) -> Result<
    (InetAddrView, int),
    ParseError,
> {
    if len == 4 {
        match spec_read(buf, pos, 4) {
            Err(e) => Err(e),
            Ok((c, p1)) => Ok((InetAddrView::V4(spec_u32_be(c[0], c[1], c[2], c[3])), p1)),
        }
    } else if len == 16 {
        match spec_read(buf, pos, 16) {
            Err(e) => Err(e),
            Ok((c, p1)) => Ok((InetAddrView::V6(c), p1)),
        }
    } else {
        Err(ParseError::BadIpAddress)
    }
}

/// Mathematical model of the fixed-length table: tag 14 is the recovery
/// restart counter, tag 16 the tunnel-endpoint-identifier data, and every
/// other low-bit tag is unsupported.
pub open spec fn spec_parse_fixed(buf: Seq<u8>, pos: int, tag: u8) -> Result<
    (InfoElementView, int),
    ParseError,
> {
    if tag == 14 {
        match spec_read_u8(buf, pos) {
            Err(e) => Err(e),
            Ok((v, p1)) => Ok((InfoElementView::Recovery(RestartCounter(v)), p1)),
        }
    } else if tag == 16 {
        match spec_read_u32(buf, pos) {
            Err(e) => Err(e),
            Ok((v, p1)) => Ok((InfoElementView::TeiData(TeiData(v)), p1)),
        }
    } else {
        Err(ParseError::UnsupportedInformationElement(tag))
    }
}

/// Mathematical model of the variable-length table: tag 133 is the peer
/// address (one length byte, then the address), tag 141 the extension-style
/// field (one type octet, then its payload), and every other high-bit tag
/// is unsupported.
pub open spec fn spec_parse_variable(buf: Seq<u8>, pos: int, tag: u8) -> Result<
    (InfoElementView, int),
    ParseError,
> {
    if tag == 133 {
        match spec_read_u8(buf, pos) {
            Err(e) => Err(e),
            Ok((len, p1)) => match spec_parse_inet(buf, p1, len) {
                Err(e) => Err(e),
                Ok((a, p2)) => Ok((InfoElementView::GtpPeerAddr(a), p2)),
            },
        }
    } else if tag == 141 {
        match spec_read_u8(buf, pos) {
            Err(e) => Err(e),
            Ok((t, p1)) => match spec_parse_ext_header(buf, p1, t) {
                Err(e) => Err(e),
                Ok((h, p2)) => Ok((InfoElementView::ExtHeader(h), p2)),
            },
        }
    } else {
        Err(ParseError::UnsupportedInformationElement(tag))
    }
}

/// Mathematical model of one information-element decode: one tag byte, then
/// the fixed-length table when its high bit is clear, the variable-length
/// table when it is set.
pub open spec fn spec_parse_info(buf: Seq<u8>, pos: int) -> Result<
    (InfoElementView, int),
    ParseError,
> {
    match spec_read_u8(buf, pos) {
        Err(e) => Err(e),
        Ok((tag, p1)) => if tag & 0b10000000 == 0 {
            spec_parse_fixed(buf, p1, tag)
        } else {
            spec_parse_variable(buf, p1, tag)
        },
    }
}

impl RestartCounter {
    pub fn parse(p: &mut Parser) -> (r: ParseResult<RestartCounter>)
        requires
            old(p).wf(),
        ensures
            final(p).wf(),
            final(p).buf() == old(p).buf(),
            final(p).cur() >= old(p).cur(),
            match r {
                Ok(v) => spec_read_u8(old(p).buf(), old(p).cur())
                    == Ok::<(u8, int), ParseError>((v.0, final(p).cur())),
                Err(e) => spec_read_u8(old(p).buf(), old(p).cur())
                    == Err::<(u8, int), ParseError>(e),
            },
    {
        match p.parse_u8() {
            Ok(v) => Ok(RestartCounter(v)),
            Err(e) => Err(e),
        }
    }
}

impl TeiData {
    pub fn parse(p: &mut Parser) -> (r: ParseResult<TeiData>)
        requires
            old(p).wf(),
        ensures
            final(p).wf(),
            final(p).buf() == old(p).buf(),
            final(p).cur() >= old(p).cur(),
            match r {
                Ok(v) => spec_read_u32(old(p).buf(), old(p).cur())
                    == Ok::<(u32, int), ParseError>((v.0, final(p).cur())),
                Err(e) => spec_read_u32(old(p).buf(), old(p).cur())
                    == Err::<(u32, int), ParseError>(e),
            },
    {
        match p.parse_u32() {
            Ok(v) => Ok(TeiData(v)),
            Err(e) => Err(e),
        }
    }
}

impl Length {
    pub fn parse(p: &mut Parser) -> (r: ParseResult<Length>)
        requires
            old(p).wf(),
        ensures
            final(p).wf(),
            final(p).buf() == old(p).buf(),
            final(p).cur() >= old(p).cur(),
            match r {
                Ok(v) => crate::parser::spec_read_u16(old(p).buf(), old(p).cur())
                    == Ok::<(u16, int), ParseError>((v.0, final(p).cur())),
                Err(e) => crate::parser::spec_read_u16(old(p).buf(), old(p).cur())
                    == Err::<(u16, int), ParseError>(e),
            },
    {
        match p.parse_u16() {
            Ok(v) => Ok(Length(v)),
            Err(e) => Err(e),
        }
    }
}

impl ExtType {
    /// Decode the typed payload selected by the type octet `t`.
    pub fn parse(t: u8, len: u8, p: &mut Parser) -> (r: ParseResult<ExtType>)
        requires
            old(p).wf(),
        ensures
            final(p).wf(),
            final(p).buf() == old(p).buf(),
            final(p).cur() >= old(p).cur(),
            match r {
                Ok(v) => spec_parse_ext_type(old(p).buf(), old(p).cur(), t, len)
                    == Ok::<(ExtType, int), ParseError>((v, final(p).cur())),
                Err(e) => spec_parse_ext_type(old(p).buf(), old(p).cur(), t, len)
                    == Err::<(ExtType, int), ParseError>(e),
            },
    {
        match t {
            0b01000000 => Self::parse_udp_port(len, p),
            0b11000000 => match p.parse_u32() {
                Ok(v) => Ok(ExtType::PdcpPduNumber(v)),
                Err(e) => Err(e),
            },
            _ => Err(ParseError::UnsupportedExtensionHeader(t)),
        }
    }

    fn parse_udp_port(len: u8, p: &mut Parser) -> (r: ParseResult<ExtType>)
        requires
            old(p).wf(),
        ensures
            final(p).wf(),
            final(p).buf() == old(p).buf(),
            final(p).cur() >= old(p).cur(),
            match r {
                Ok(v) => spec_parse_udp_port(old(p).buf(), old(p).cur(), len)
                    == Ok::<(ExtType, int), ParseError>((v, final(p).cur())),
                Err(e) => spec_parse_udp_port(old(p).buf(), old(p).cur(), len)
                    == Err::<(ExtType, int), ParseError>(e),
            },
    {
        if len == 0 {
            return Err(ParseError::PrematureEnd);
        }
        let s = match p.parse((len as usize) * 4) {
            Ok(s) => s,
            Err(e) => {
                return Err(e);
            },
        };
        let b0 = *vstd::slice::slice_index_get(s, 0);
        let b1 = *vstd::slice::slice_index_get(s, 1);
        let b2 = *vstd::slice::slice_index_get(s, 2);
        let b3 = *vstd::slice::slice_index_get(s, 3);
        let port = (b0 as u32) * 0x1000000 + (b1 as u32) * 0x10000 + (b2 as u32) * 0x100 + (
        b3 as u32);
        if port > 0xffff {
            Err(ParseError::BadUdpPort(port))
        } else {
            Ok(ExtType::UdpPort(port as u16))
        }
    }
}

impl ExtHeader {
    /// Decode an extension-style element from its type octet `t` and the
    /// bytes that follow it.
    pub fn parse(t: u8, p: &mut Parser) -> (r: ParseResult<ExtHeader>)
        requires
            old(p).wf(),
        ensures
            final(p).wf(),
            final(p).buf() == old(p).buf(),
            final(p).cur() >= old(p).cur(),
            match r {
                Ok(v) => spec_parse_ext_header(old(p).buf(), old(p).cur(), t)
                    == Ok::<(ExtHeader, int), ParseError>((v, final(p).cur())),
                Err(e) => spec_parse_ext_header(old(p).buf(), old(p).cur(), t)
                    == Err::<(ExtHeader, int), ParseError>(e),
            },
    {
        let compr = match Comprehension::parse(t) {
            Ok(c) => c,
            Err(e) => {
                return Err(e);
            },
        };
        let len = match p.parse_u8() {
            Ok(v) => v,
            Err(e) => {
                return Err(e);
            },
        };
        let etype = match ExtType::parse(t, len, p) {
            Ok(v) => v,
            Err(e) => {
                return Err(e);
            },
        };
        Ok(ExtHeader { comprehension: compr, header: etype })
    }
}

impl InetAddr {
    fn parse(len: u8, p: &mut Parser) -> (r: ParseResult<InetAddr>)
        requires
            old(p).wf(),
        ensures
            final(p).wf(),
            final(p).buf() == old(p).buf(),
            final(p).cur() >= old(p).cur(),
            match r {
                Ok(v) => spec_parse_inet(old(p).buf(), old(p).cur(), len)
                    == Ok::<(InetAddrView, int), ParseError>((v@, final(p).cur())),
                Err(e) => spec_parse_inet(old(p).buf(), old(p).cur(), len)
                    == Err::<(InetAddrView, int), ParseError>(e),
            },
    {
        match len {
            4 => Self::parse_v4(p),
            16 => Self::parse_v6(p),
            _ => Err(ParseError::BadIpAddress),
        }
    }

    fn parse_v4(p: &mut Parser) -> (r: ParseResult<InetAddr>)
        requires
            old(p).wf(),
        ensures
            final(p).wf(),
            final(p).buf() == old(p).buf(),
            final(p).cur() >= old(p).cur(),
            match r {
                Ok(v) => spec_parse_inet(old(p).buf(), old(p).cur(), 4)
                    == Ok::<(InetAddrView, int), ParseError>((v@, final(p).cur())),
                Err(e) => spec_parse_inet(old(p).buf(), old(p).cur(), 4)
                    == Err::<(InetAddrView, int), ParseError>(e),
            },
    {
        match p.parse(4) {
            Ok(s) => {
                let b0 = *vstd::slice::slice_index_get(s, 0);
                let b1 = *vstd::slice::slice_index_get(s, 1);
                let b2 = *vstd::slice::slice_index_get(s, 2);
                let b3 = *vstd::slice::slice_index_get(s, 3);
                Ok(
                    InetAddr::V4(
                        (b0 as u32) * 0x1000000 + (b1 as u32) * 0x10000 + (b2 as u32) * 0x100 + (
                        b3 as u32),
                    ),
                )
            },
            Err(e) => Err(e),
        }
    }

    fn parse_v6(p: &mut Parser) -> (r: ParseResult<InetAddr>)
        requires
            old(p).wf(),
        ensures
            final(p).wf(),
            final(p).buf() == old(p).buf(),
            final(p).cur() >= old(p).cur(),
            match r {
                Ok(v) => spec_parse_inet(old(p).buf(), old(p).cur(), 16)
                    == Ok::<(InetAddrView, int), ParseError>((v@, final(p).cur())),
                Err(e) => spec_parse_inet(old(p).buf(), old(p).cur(), 16)
                    == Err::<(InetAddrView, int), ParseError>(e),
            },
    {
        match p.parse(16) {
            Ok(s) => Ok(InetAddr::V6(vstd::slice::slice_to_vec(s))),
            Err(e) => Err(e),
        }
    }
}

impl InfoElement {
    /// Decode one information element from the cursor, exactly as the
    /// mathematical decode `spec_parse_info` of the buffer prescribes.
    pub fn parse(p: &mut Parser) -> (r: ParseResult<InfoElement>)
        requires
            old(p).wf(),
        ensures
            final(p).wf(),
            final(p).buf() == old(p).buf(),
            final(p).cur() >= old(p).cur(),
            match r {
                Ok(v) => spec_parse_info(old(p).buf(), old(p).cur())
                    == Ok::<(InfoElementView, int), ParseError>((v@, final(p).cur())),
                Err(e) => spec_parse_info(old(p).buf(), old(p).cur())
                    == Err::<(InfoElementView, int), ParseError>(e),
            },
    {
        let ie_type = match p.parse_u8() {
            Ok(v) => v,
            Err(e) => {
                return Err(e);
            },
        };
        if ie_type & 0b10000000 == 0 {
            Self::parse_fixed(ie_type, p)
        } else {
            Self::parse_variable(ie_type, p)
        }
    }

    fn parse_fixed(ie_type: u8, p: &mut Parser) -> (r: ParseResult<InfoElement>)
        requires
            old(p).wf(),
        ensures
            final(p).wf(),
            final(p).buf() == old(p).buf(),
            final(p).cur() >= old(p).cur(),
            match r {
                Ok(v) => spec_parse_fixed(old(p).buf(), old(p).cur(), ie_type)
                    == Ok::<(InfoElementView, int), ParseError>((v@, final(p).cur())),
                Err(e) => spec_parse_fixed(old(p).buf(), old(p).cur(), ie_type)
                    == Err::<(InfoElementView, int), ParseError>(e),
            },
    {
        match ie_type {
            14 => match RestartCounter::parse(p) {
                Ok(v) => Ok(InfoElement::Recovery(v)),
                Err(e) => Err(e),
            },
            16 => match TeiData::parse(p) {
                Ok(v) => Ok(InfoElement::TeiData(v)),
                Err(e) => Err(e),
            },
            _ => Err(ParseError::UnsupportedInformationElement(ie_type)),
        }
    }

    fn parse_variable(ie_type: u8, p: &mut Parser) -> (r: ParseResult<InfoElement>)
        requires
            old(p).wf(),
        ensures
            final(p).wf(),
            final(p).buf() == old(p).buf(),
            final(p).cur() >= old(p).cur(),
            match r {
                Ok(v) => spec_parse_variable(old(p).buf(), old(p).cur(), ie_type)
                    == Ok::<(InfoElementView, int), ParseError>((v@, final(p).cur())),
                Err(e) => spec_parse_variable(old(p).buf(), old(p).cur(), ie_type)
                    == Err::<(InfoElementView, int), ParseError>(e),
            },
    {
        match ie_type {
            133 => {
                let len = match p.parse_u8() {
                    Ok(v) => v,
                    Err(e) => {
                        return Err(e);
                    },
                };
                match InetAddr::parse(len, p) {
                    Ok(a) => Ok(InfoElement::GtpPeerAddr(a)),
                    Err(e) => Err(e),
                }
            },
            141 => {
                let t = match p.parse_u8() {
                    Ok(v) => v,
                    Err(e) => {
                        return Err(e);
                    },
                };
                match ExtHeader::parse(t, p) {
                    Ok(h) => Ok(InfoElement::ExtHeader(h)),
                    Err(e) => Err(e),
                }
            },
            _ => Err(ParseError::UnsupportedInformationElement(ie_type)),
        }
    }
}

/// Law (determinism): the information-element decode is a pure function of
/// the buffer and the starting position. Two decodes of equal buffers at
/// equal positions yield structurally identical results.
pub proof fn lemma_info_decode_deterministic(buf1: Seq<u8>, buf2: Seq<u8>, pos: int)
    requires
        buf1 == buf2,
    ensures
        spec_parse_info(buf1, pos) == spec_parse_info(buf2, pos),
{
}

/// Law (unknown information-element tags): both dispatch tables are
/// closed. Whenever the tag byte can be read but names neither a
/// fixed-length element (14, 16) nor a variable-length one (133, 141),
/// the decode fails with exactly `UnsupportedInformationElement` of that
/// tag — never a generic or uncaught failure.
pub proof fn lemma_unknown_info_tag(buf: Seq<u8>, pos: int, tag: u8)
    requires
        spec_read_u8(buf, pos) == Ok::<(u8, int), ParseError>((tag, pos + 1)),
        tag != 14,
        tag != 16,
        tag != 133,
        tag != 141,
    ensures
        spec_parse_info(buf, pos) == Err::<(InfoElementView, int), ParseError>(
            ParseError::UnsupportedInformationElement(tag),
        ),
{
}

/// Law (address-length validation): a peer address with length exactly 4
/// decodes as IPv4, exactly 16 as IPv6, and any other length is rejected
/// as `BadIpAddress`; with a valid length the decode succeeds exactly when
/// that many bytes remain.
pub proof fn lemma_address_length(buf: Seq<u8>, pos: int, len: u8)
    ensures
        len != 4 && len != 16 ==> spec_parse_inet(buf, pos, len) == Err::<
            (InetAddrView, int),
            ParseError,
        >(ParseError::BadIpAddress),
        len == 4 ==> (spec_parse_inet(buf, pos, len) matches Ok(pr) ==> pr.0 is V4),
        len == 16 ==> (spec_parse_inet(buf, pos, len) matches Ok(pr) ==> pr.0 is V6),
        (len == 4 || len == 16) && 0 <= pos ==> (spec_parse_inet(buf, pos, len) is Ok <==> pos
            + len <= buf.len()),
{
}

} // verus!
