//! The fixed/variable header decoder: version, protocol discriminator, the
//! three optional-field flag bits, payload length, tunnel endpoint
//! identifier, the flag-gated optional fields, and the chained
//! extension-header walker.

use crate::parser::{
    spec_read, spec_read_u16, spec_read_u32, spec_read_u8, ParseError, ParseResult, Parser,
};
use vstd::prelude::*;

verus! {

/// The 3-bit version field from the top bits of the first octet.
#[derive(Debug, Clone, Copy, PartialEq, Eq, Structural)]
pub struct Version(pub u8);

/// The protocol discriminator: the primary tunneling protocol or its
/// alternate control variant. It occupies the single bit directly below the
/// version field, a bit range strictly disjoint from the version's.
#[derive(Debug, Clone, Copy, PartialEq, Eq, Structural)]
pub enum Protocol {
    Gtp,
    GtpPrime,
}

/// The three independent optional-field indicator bits of the first octet.
/// Any subset may be set; no bit is ever inferred from another.
#[derive(Debug, Clone, Copy, PartialEq, Eq, Structural)]
pub struct Flags {
    pub sequence_number: bool,
    pub npdu_number: bool,
    pub extension_header: bool,
}

/// One of the three optional-field capabilities.
#[derive(Debug, Clone, Copy, PartialEq, Eq, Structural)]
pub enum Flag {
    NPduNumber,
    SequenceNumber,
    ExtensionHeader,
}

/// Message kinds of the echo exchange.
#[derive(Debug, Clone, Copy, PartialEq, Eq, Structural)]
pub enum MessageType {
    EchoRequest,
    EchoResponse,
}

/// The 16-bit payload length field.
#[derive(Debug, Clone, Copy, PartialEq, Eq, Structural)]
pub struct Length(pub u16);

/// The 32-bit tunnel endpoint identifier.
#[derive(Debug, Clone, Copy, PartialEq, Eq, Structural)]
pub struct TunnelEid(pub u32);

/// The optional 16-bit sequence number.
#[derive(Debug, Clone, Copy, PartialEq, Eq, Structural)]
pub struct SequenceNumber(pub u16);

/// The optional 8-bit N-PDU number.
#[derive(Debug, Clone, Copy, PartialEq, Eq, Structural)]
pub struct NPduNumber(pub u8);

/// The closed set of known extension-header type tags. `EndReached` is the
/// chain-terminating sentinel.
#[derive(Debug, Clone, Copy, PartialEq, Eq, Structural)]
pub enum ExtHeaderType {
    EndReached,
    MbmsSupport,
    MsInfoChangeReporting,
    UdpPort,
    PdcpPdu,
    SuspendRequest,
    SuspendResponse,
}

/// One decoded extension-header record: its type tag and its raw content,
/// an owned copy of the sub-slice it was decoded from.
#[derive(Debug, Clone, PartialEq, Eq)]
pub struct ExtensionHeader {
    pub kind: ExtHeaderType,
    pub content: Vec<u8>,
}

/// Mathematical image of one extension-header record.
pub struct ExtensionHeaderView {
    pub kind: ExtHeaderType,
    pub content: Seq<u8>,
}

impl View for ExtensionHeader {
    type V = ExtensionHeaderView;

    open spec fn view(&self) -> ExtensionHeaderView {
        ExtensionHeaderView { kind: self.kind, content: self.content@ }
    }
}

/// The views of a sequence of extension-header records.
pub open spec fn spec_hdr_views(s: Seq<ExtensionHeader>) -> Seq<ExtensionHeaderView> {
    s.map_values(|h: ExtensionHeader| h@)
}

/// A fully decoded header: the always-present fixed fields and the
/// flag-gated optional ones. The sequence number is present if and only if
/// its flag bit is set, the N-PDU number likewise, and the extension chain
/// is non-empty only if the extension flag bit is set.
#[derive(Debug, Clone, PartialEq, Eq)]
pub struct Gtp {
    pub version: Version,
    pub protocol: Protocol,
    pub flags: Flags,
    pub length: Length,
    pub teid: TunnelEid,
    pub seq_num: Option<SequenceNumber>,
    pub npdu_num: Option<NPduNumber>,
    pub ext_hdrs: Vec<ExtensionHeader>,
}

/// Mathematical image of a fully decoded header.
pub struct GtpView {
    pub version: Version,
    pub protocol: Protocol,
    pub flags: Flags,
    pub length: Length,
    pub teid: TunnelEid,
    pub seq_num: Option<SequenceNumber>,
    pub npdu_num: Option<NPduNumber>,
    pub ext_hdrs: Seq<ExtensionHeaderView>,
}

impl View for Gtp {
    type V = GtpView;

    open spec fn view(&self) -> GtpView {
        GtpView {
            version: self.version,
            protocol: self.protocol,
            flags: self.flags,
            length: self.length,
            teid: self.teid,
            seq_num: self.seq_num,
            npdu_num: self.npdu_num,
            ext_hdrs: spec_hdr_views(self.ext_hdrs@),
        }
    }
}

/// The version is the top three bits of the first octet.
pub open spec fn spec_version(b: u8) -> Version {
    Version(b >> 5)
}

/// The protocol discriminator is the bit directly below the version field.
pub open spec fn spec_protocol(b: u8) -> Protocol {
    if b & 0b00010000 == 0 {
        Protocol::GtpPrime
    } else {
        Protocol::Gtp
    }
}

/// The three indicator bits occupy fixed, non-overlapping positions of the
/// first octet.
pub open spec fn spec_flags(b: u8) -> Flags {
    Flags {
        sequence_number: b & 0b00000010 != 0,
        npdu_number: b & 0b00000001 != 0,
        extension_header: b & 0b00000100 != 0,
    }
}

/// Whether a flag set contains one given capability.
pub open spec fn spec_flags_contains(flags: Flags, flag: Flag) -> bool {
    match flag {
        Flag::NPduNumber => flags.npdu_number,
        Flag::SequenceNumber => flags.sequence_number,
        Flag::ExtensionHeader => flags.extension_header,
    }
}

impl Version {
    pub fn parse(b: u8) -> (r: ParseResult<Version>)
        ensures
            r == Ok::<Version, ParseError>(spec_version(b)),
    {
        Ok(Version(b >> 5))
    }
}

impl Protocol {
    pub fn parse(b: u8) -> (r: ParseResult<Protocol>)
        ensures
            r == Ok::<Protocol, ParseError>(spec_protocol(b)),
    {
        if b & 0b00010000 == 0 {
            Ok(Protocol::GtpPrime)
        } else {
            Ok(Protocol::Gtp)
        }
    }
}

impl Flag {
    pub fn has_npdu_number(b: u8) -> (r: bool)
        ensures
            r == (b & 0b00000001 != 0),
    {
        b & 0b00000001 != 0
    }

    pub fn has_sequence_number(b: u8) -> (r: bool)
        ensures
            r == (b & 0b00000010 != 0),
    {
        b & 0b00000010 != 0
    }

    pub fn has_extension_header(b: u8) -> (r: bool)
        ensures
            r == (b & 0b00000100 != 0),
    {
        b & 0b00000100 != 0
    }
}

impl Flags {
    pub fn parse(b: u8) -> (r: ParseResult<Flags>)
        ensures
            r == Ok::<Flags, ParseError>(spec_flags(b)),
    {
        Ok(Flags {
            sequence_number: Flag::has_sequence_number(b),
            npdu_number: Flag::has_npdu_number(b),
            extension_header: Flag::has_extension_header(b),
        })
    }

    pub fn contains(&self, flag: &Flag) -> (r: bool)
        ensures
            r == spec_flags_contains(*self, *flag),
    {
        match flag {
            Flag::NPduNumber => self.npdu_number,
            Flag::SequenceNumber => self.sequence_number,
            Flag::ExtensionHeader => self.extension_header,
        }
    }
}

impl Length {
    pub fn parse(p: &mut Parser) -> (r: ParseResult<Length>)
        requires
            old(p).wf(),
        ensures
            final(p).wf(),
            final(p).buf() == old(p).buf(),
            final(p).cur() >= old(p).cur(),
            match r {
                Ok(v) => spec_read_u16(old(p).buf(), old(p).cur())
                    == Ok::<(u16, int), ParseError>((v.0, final(p).cur())),
                Err(e) => spec_read_u16(old(p).buf(), old(p).cur())
                    == Err::<(u16, int), ParseError>(e),
            },
    {
        match p.parse_u16() {
            Ok(v) => Ok(Length(v)),
            Err(e) => Err(e),
        }
    }
}

impl TunnelEid {
    pub fn parse(p: &mut Parser) -> (r: ParseResult<TunnelEid>)
        requires
            old(p).wf(),
        ensures
            final(p).wf(),
            final(p).buf() == old(p).buf(),
            final(p).cur() >= old(p).cur(),
            match r {
                Ok(v) => spec_read_u32(old(p).buf(), old(p).cur())
                    == Ok::<(u32, int), ParseError>((v.0, final(p).cur())),
                Err(e) => spec_read_u32(old(p).buf(), old(p).cur())
                    == Err::<(u32, int), ParseError>(e),
            },
    {
        match p.parse_u32() {
            Ok(v) => Ok(TunnelEid(v)),
            Err(e) => Err(e),
        }
    }
}

impl SequenceNumber {
    pub fn parse(p: &mut Parser) -> (r: ParseResult<SequenceNumber>)
        requires
            old(p).wf(),
        ensures
            final(p).wf(),
            final(p).buf() == old(p).buf(),
            final(p).cur() >= old(p).cur(),
            match r {
                Ok(v) => spec_read_u16(old(p).buf(), old(p).cur())
                    == Ok::<(u16, int), ParseError>((v.0, final(p).cur())),
                Err(e) => spec_read_u16(old(p).buf(), old(p).cur())
                    == Err::<(u16, int), ParseError>(e),
            },
    {
        match p.parse_u16() {
            Ok(v) => Ok(SequenceNumber(v)),
            Err(e) => Err(e),
        }
    }
}

impl NPduNumber {
    pub fn parse(p: &mut Parser) -> (r: ParseResult<NPduNumber>)
        requires
            old(p).wf(),
        ensures
            final(p).wf(),
            final(p).buf() == old(p).buf(),
            final(p).cur() >= old(p).cur(),
            match r {
                Ok(v) => spec_read_u8(old(p).buf(), old(p).cur())
                    == Ok::<(u8, int), ParseError>((v.0, final(p).cur())),
                Err(e) => spec_read_u8(old(p).buf(), old(p).cur())
                    == Err::<(u8, int), ParseError>(e),
            },
    {
        match p.parse_u8() {
            Ok(v) => Ok(NPduNumber(v)),
            Err(e) => Err(e),
        }
    }
}

/// The tag value of each known extension-header type, or the typed
/// rejection of every other tag.
pub open spec fn spec_ext_header_type(b: u8) -> Result<ExtHeaderType, ParseError> {
    if b == 0b00000000 {
        Ok(ExtHeaderType::EndReached)
    } else if b == 0b00000001 {
        Ok(ExtHeaderType::MbmsSupport)
    } else if b == 0b00000010 {
        Ok(ExtHeaderType::MsInfoChangeReporting)
    } else if b == 0b01000000 {
        Ok(ExtHeaderType::UdpPort)
    } else if b == 0b11000000 {
        Ok(ExtHeaderType::PdcpPdu)
    } else if b == 0b11000001 {
        Ok(ExtHeaderType::SuspendRequest)
    } else if b == 0b11000010 {
        Ok(ExtHeaderType::SuspendResponse)
    } else {
        Err(ParseError::UnsupportedExtensionHeader(b))
    }
}

/// Mathematical model of reading one extension-header type tag at `pos`.
pub open spec fn spec_parse_ext_header_type(buf: Seq<u8>, pos: int) -> Result<
    (ExtHeaderType, int),
    ParseError,
> {
    match spec_read_u8(buf, pos) {
        Err(e) => Err(e),
        Ok((b, p1)) => match spec_ext_header_type(b) {
            Err(e) => Err(e),
            Ok(t) => Ok((t, p1)),
        },
    }
}

impl ExtHeaderType {
    pub fn parse(p: &mut Parser) -> (r: ParseResult<ExtHeaderType>)
        requires
            old(p).wf(),
        ensures
            final(p).wf(),
            final(p).buf() == old(p).buf(),
            final(p).cur() >= old(p).cur(),
            match r {
                Ok(t) => spec_parse_ext_header_type(old(p).buf(), old(p).cur())
                    == Ok::<(ExtHeaderType, int), ParseError>((t, final(p).cur())),
                Err(e) => spec_parse_ext_header_type(old(p).buf(), old(p).cur())
                    == Err::<(ExtHeaderType, int), ParseError>(e),
            },
    {
        let t = match p.parse_u8() {
            Ok(b) => b,
            Err(e) => return Err(e),
        };
        match t {
            0b00000000 => Ok(ExtHeaderType::EndReached),
            0b00000001 => Ok(ExtHeaderType::MbmsSupport),
            0b00000010 => Ok(ExtHeaderType::MsInfoChangeReporting),
            0b01000000 => Ok(ExtHeaderType::UdpPort),
            0b11000000 => Ok(ExtHeaderType::PdcpPdu),
            0b11000001 => Ok(ExtHeaderType::SuspendRequest),
            0b11000010 => Ok(ExtHeaderType::SuspendResponse),
            _ => Err(ParseError::UnsupportedExtensionHeader(t)),
        }
    }
}

/// Mathematical model of the extension-header chain walk, entered with one
/// pending type tag. Each step reads a length-in-four-byte-words octet,
/// `length * 4` content bytes and the next type tag, appends one record for
/// the pending tag, and stops when the next tag is the sentinel. Each step
/// consumes at least two bytes, so the walk terminates on every buffer.
pub open spec fn spec_parse_chain(buf: Seq<u8>, pos: int, kind: ExtHeaderType) -> Result<
    (Seq<ExtensionHeaderView>, int),
    ParseError,
>
    decreases buf.len() - pos,
{
    match spec_read_u8(buf, pos) {
        Err(e) => Err(e),
        Ok((lw, p1)) => match spec_read(buf, p1, 4 * (lw as int)) {
            Err(e) => Err(e),
            Ok((content, p2)) => match spec_parse_ext_header_type(buf, p2) {
                Err(e) => Err(e),
                Ok((next, p3)) => {
                    let rec = ExtensionHeaderView { kind, content };
                    if next == ExtHeaderType::EndReached {
                        Ok((seq![rec], p3))
                    } else {
                        match spec_parse_chain(buf, p3, next) {
                            Err(e) => Err(e),
                            Ok((rest, end)) => Ok((seq![rec] + rest, end)),
                        }
                    }
                },
            },
        },
    }
}

impl ExtensionHeader {
    fn new(kind: ExtHeaderType, content: Vec<u8>) -> (r: ExtensionHeader)
        ensures
            r@ == (ExtensionHeaderView { kind, content: content@ }),
    {
        ExtensionHeader { kind, content }
    }

    /// Walk the chain from one pending type tag, appending each decoded
    /// record to `res`. On failure the first error is returned and `res` is
    /// left unchanged: no partial chain is ever exposed.
    pub fn parse(p: &mut Parser, kind: ExtHeaderType, res: &mut Vec<ExtensionHeader>) -> (r:
        ParseResult<()>)
        requires
            old(p).wf(),
        ensures
            final(p).wf(),
            final(p).buf() == old(p).buf(),
            final(p).cur() >= old(p).cur(),
            match r {
                Ok(_) => spec_parse_chain(old(p).buf(), old(p).cur(), kind) matches Ok(pr)
                    && spec_hdr_views(final(res)@) == spec_hdr_views(old(res)@) + pr.0
                    && final(p).cur() == pr.1,
                Err(e) => spec_parse_chain(old(p).buf(), old(p).cur(), kind)
                    == Err::<(Seq<ExtensionHeaderView>, int), ParseError>(e)
                    && final(res)@ == old(res)@,
            },
    {
        let ghost b = old(p).buf();
        let ghost pos0 = old(p).cur();
        let ghost res0 = old(res)@;
        let mut out: Vec<ExtensionHeader> = Vec::new();
        let mut kind_cur = kind;
        loop
            invariant
                b == old(p).buf(),
                pos0 == old(p).cur(),
                res0 == old(res)@,
                p.wf(),
                p.buf() == b,
                p.cur() >= pos0,
                res@ == res0,
                ({
                    let fullr = spec_parse_chain(b, pos0, kind);
                    match spec_parse_chain(b, p.cur(), kind_cur) {
                        Ok(pr) => fullr == Ok::<(Seq<ExtensionHeaderView>, int), ParseError>(
                            (spec_hdr_views(out@) + pr.0, pr.1),
                        ),
                        Err(e) => fullr == Err::<(Seq<ExtensionHeaderView>, int), ParseError>(e),
                    }
                }),
            decreases b.len() - p.cur(),
        {
            let ghost pos_e = p.cur();
            let ghost out_e = out@;
            let lw = match p.parse_u8() {
                Ok(v) => v,
                Err(e) => {
                    return Err(e);
                },
            };
            let clen: usize = (lw as usize) * 4;
            let content_s = match p.parse(clen) {
                Ok(s) => s,
                Err(e) => {
                    return Err(e);
                },
            };
            let content = vstd::slice::slice_to_vec(content_s);
            let next = match ExtHeaderType::parse(p) {
                Ok(t) => t,
                Err(e) => {
                    return Err(e);
                },
            };
            out.push(ExtensionHeader::new(kind_cur, content));
            proof {
                let rec = ExtensionHeaderView { kind: kind_cur, content: content_s@ };
                assert(spec_hdr_views(out@) =~= spec_hdr_views(out_e) + seq![rec]);
            }
            if matches!(next, ExtHeaderType::EndReached) {
                proof {
                    let rec = ExtensionHeaderView { kind: kind_cur, content: content_s@ };
                    assert(spec_parse_chain(b, pos_e, kind_cur)
                        == Ok::<(Seq<ExtensionHeaderView>, int), ParseError>(
                        (seq![rec], p.cur()),
                    ));
                }
                let ghost out_final = out@;
                res.append(&mut out);
                proof {
                    assert(spec_hdr_views(res@) =~= spec_hdr_views(res0) + spec_hdr_views(
                        out_final,
                    ));
                }
                return Ok(());
            }
            proof {
                let rec = ExtensionHeaderView { kind: kind_cur, content: content_s@ };
                assert(spec_parse_chain(b, pos_e, kind_cur) == (
                match spec_parse_chain(b, p.cur(), next) {
                    Err(e) => Err::<(Seq<ExtensionHeaderView>, int), ParseError>(e),
                    Ok((rest, end)) => Ok((seq![rec] + rest, end)),
                }));
                if let Ok(pr) = spec_parse_chain(b, p.cur(), next) {
                    assert(spec_hdr_views(out_e) + (seq![rec] + pr.0) =~= spec_hdr_views(out@)
                        + pr.0);
                }
            }
            kind_cur = next;
        }
    }
}

/// Mathematical model of the flag-gated sequence-number field.
pub open spec fn spec_parse_seq_num(buf: Seq<u8>, pos: int, flags: Flags) -> Result<
    (Option<SequenceNumber>, int),
    ParseError,
> {
    if flags.sequence_number {
        match spec_read_u16(buf, pos) {
            Err(e) => Err(e),
            Ok((v, p1)) => Ok((Some(SequenceNumber(v)), p1)),
        }
    } else {
        Ok((None, pos))
    }
}

/// Mathematical model of the flag-gated N-PDU-number field.
pub open spec fn spec_parse_npdu(buf: Seq<u8>, pos: int, flags: Flags) -> Result<
    (Option<NPduNumber>, int),
    ParseError,
> {
    if flags.npdu_number {
        match spec_read_u8(buf, pos) {
            Err(e) => Err(e),
            Ok((v, p1)) => Ok((Some(NPduNumber(v)), p1)),
        }
    } else {
        Ok((None, pos))
    }
}

/// Mathematical model of the flag-gated extension chain: one type tag and
/// then the chain walk when the flag is set, the empty sequence otherwise.
pub open spec fn spec_parse_ext_hdrs(buf: Seq<u8>, pos: int, flags: Flags) -> Result<
    (Seq<ExtensionHeaderView>, int),
    ParseError,
> {
    if flags.extension_header {
        match spec_parse_ext_header_type(buf, pos) {
            Err(e) => Err(e),
            Ok((kind, p1)) => spec_parse_chain(buf, p1, kind),
        }
    } else {
        Ok((Seq::empty(), pos))
    }
}

impl Flags {
    /// Read the sequence number exactly when its own flag bit is set.
    fn parse_seq_num(&self, p: &mut Parser) -> (r: ParseResult<Option<SequenceNumber>>)
        requires
            old(p).wf(),
        ensures
            final(p).wf(),
            final(p).buf() == old(p).buf(),
            final(p).cur() >= old(p).cur(),
            match r {
                Ok(v) => spec_parse_seq_num(old(p).buf(), old(p).cur(), *self)
                    == Ok::<(Option<SequenceNumber>, int), ParseError>((v, final(p).cur())),
                Err(e) => spec_parse_seq_num(old(p).buf(), old(p).cur(), *self)
                    == Err::<(Option<SequenceNumber>, int), ParseError>(e),
            },
    {
        if self.sequence_number {
            match SequenceNumber::parse(p) {
                Ok(v) => Ok(Some(v)),
                Err(e) => Err(e),
            }
        } else {
            Ok(None)
        }
    }

    /// Read the N-PDU number exactly when its own flag bit is set.
    pub fn parse_npdu(&self, p: &mut Parser) -> (r: ParseResult<Option<NPduNumber>>)
        requires
            old(p).wf(),
        ensures
            final(p).wf(),
            final(p).buf() == old(p).buf(),
            final(p).cur() >= old(p).cur(),
            match r {
                Ok(v) => spec_parse_npdu(old(p).buf(), old(p).cur(), *self)
                    == Ok::<(Option<NPduNumber>, int), ParseError>((v, final(p).cur())),
                Err(e) => spec_parse_npdu(old(p).buf(), old(p).cur(), *self)
                    == Err::<(Option<NPduNumber>, int), ParseError>(e),
            },
    {
        if self.npdu_number {
            match NPduNumber::parse(p) {
                Ok(v) => Ok(Some(v)),
                Err(e) => Err(e),
            }
        } else {
            Ok(None)
        }
    }

    /// Read the extension chain exactly when its own flag bit is set.
    pub fn parse_ext_hdrs(&self, p: &mut Parser) -> (r: ParseResult<Vec<ExtensionHeader>>)
        requires
            old(p).wf(),
        ensures
            final(p).wf(),
            final(p).buf() == old(p).buf(),
            final(p).cur() >= old(p).cur(),
            match r {
                Ok(v) => spec_parse_ext_hdrs(old(p).buf(), old(p).cur(), *self)
                    == Ok::<(Seq<ExtensionHeaderView>, int), ParseError>(
                    (spec_hdr_views(v@), final(p).cur()),
                ),
                Err(e) => spec_parse_ext_hdrs(old(p).buf(), old(p).cur(), *self)
                    == Err::<(Seq<ExtensionHeaderView>, int), ParseError>(e),
            },
    {
        if self.extension_header {
            let kind = match ExtHeaderType::parse(p) {
                Ok(t) => t,
                Err(e) => {
                    return Err(e);
                },
            };
            let mut res: Vec<ExtensionHeader> = Vec::new();
            match ExtensionHeader::parse(p, kind, &mut res) {
                Ok(_) => Ok(res),
                Err(e) => Err(e),
            }
        } else {
            let res: Vec<ExtensionHeader> = Vec::new();
            proof {
                assert(spec_hdr_views(res@) =~= Seq::<ExtensionHeaderView>::empty());
            }
            Ok(res)
        }
    }
}

/// Mathematical model of the whole header decode: first octet (version,
/// protocol discriminator, flags), payload length, tunnel endpoint
/// identifier, the flag-gated optional fields, and the extension chain.
pub open spec fn spec_parse_gtp(buf: Seq<u8>, pos: int) -> Result<(GtpView, int), ParseError> {
    match spec_read_u8(buf, pos) {
        Err(e) => Err(e),
        Ok((top, p1)) => {
            let flags = spec_flags(top);
            match spec_read_u16(buf, p1) {
                Err(e) => Err(e),
                Ok((len, p2)) => match spec_read_u32(buf, p2) {
                    Err(e) => Err(e),
                    Ok((teid, p3)) => match spec_parse_seq_num(buf, p3, flags) {
                        Err(e) => Err(e),
                        Ok((sn, p4)) => match spec_parse_npdu(buf, p4, flags) {
                            Err(e) => Err(e),
                            Ok((nn, p5)) => match spec_parse_ext_hdrs(buf, p5, flags) {
                                Err(e) => Err(e),
                                Ok((hs, p6)) => Ok(
                                    (
                                        GtpView {
                                            version: spec_version(top),
                                            protocol: spec_protocol(top),
                                            flags,
                                            length: Length(len),
                                            teid: TunnelEid(teid),
                                            seq_num: sn,
                                            npdu_num: nn,
                                            ext_hdrs: hs,
                                        },
                                        p6,
                                    ),
                                ),
                            },
                        },
                    },
                },
            }
        },
    }
}

impl Gtp {
    /// Decode one full header from the cursor: either a fully populated
    /// header or the first error encountered, exactly as the mathematical
    /// decode `spec_parse_gtp` of the buffer prescribes.
    pub fn parse(p: &mut Parser) -> (r: ParseResult<Gtp>)
        requires
            old(p).wf(),
        ensures
            final(p).wf(),
            final(p).buf() == old(p).buf(),
            final(p).cur() >= old(p).cur(),
            match r {
                Ok(g) => spec_parse_gtp(old(p).buf(), old(p).cur())
                    == Ok::<(GtpView, int), ParseError>((g@, final(p).cur())),
                Err(e) => spec_parse_gtp(old(p).buf(), old(p).cur())
                    == Err::<(GtpView, int), ParseError>(e),
            },
    {
        let top = match p.parse_u8() {
            Ok(v) => v,
            Err(e) => {
                return Err(e);
            },
        };
        let ver = match Version::parse(top) {
            Ok(v) => v,
            Err(e) => {
                return Err(e);
            },
        };
        let proto = match Protocol::parse(top) {
            Ok(v) => v,
            Err(e) => {
                return Err(e);
            },
        };
        let flags = match Flags::parse(top) {
            Ok(v) => v,
            Err(e) => {
                return Err(e);
            },
        };
        let len = match Length::parse(p) {
            Ok(v) => v,
            Err(e) => {
                return Err(e);
            },
        };
        let teid = match TunnelEid::parse(p) {
            Ok(v) => v,
            Err(e) => {
                return Err(e);
            },
        };
        let seq_num = match flags.parse_seq_num(p) {
            Ok(v) => v,
            Err(e) => {
                return Err(e);
            },
        };
        let npdu_num = match flags.parse_npdu(p) {
            Ok(v) => v,
            Err(e) => {
                return Err(e);
            },
        };
        let ext_hdrs = match flags.parse_ext_hdrs(p) {
            Ok(v) => v,
            Err(e) => {
                return Err(e);
            },
        };
        Ok(Gtp { version: ver, protocol: proto, flags, length: len, teid, seq_num, npdu_num, ext_hdrs })
    }
}

/// Law (determinism): the decode is a pure function of the buffer and the
/// starting position. Two decodes of equal buffers at equal positions yield
/// structurally identical results; there is no hidden state.
pub proof fn lemma_decode_deterministic(buf1: Seq<u8>, buf2: Seq<u8>, pos: int)
    requires
        buf1 == buf2,
    ensures
        spec_parse_gtp(buf1, pos) == spec_parse_gtp(buf2, pos),
{
}

/// Law (chain termination): a successful chain walk yields one record for
/// the pending tag it was entered with and one per further non-sentinel
/// type tag, and stops exactly at the first sentinel next-tag, the byte
/// just before the final position. A walk that fails does so with
/// `PrematureEnd` (the buffer ended before a sentinel was reached) or with
/// the typed rejection of an unsupported tag — nothing else.
pub proof fn lemma_chain_termination(buf: Seq<u8>, pos: int, kind: ExtHeaderType)
    ensures
        match spec_parse_chain(buf, pos, kind) {
            Ok(pr) => pr.0.len() >= 1 && pr.0[0].kind == kind && (forall|i: int|
                1 <= i < pr.0.len() ==> pr.0[i].kind != ExtHeaderType::EndReached) && pos < pr.1
                <= buf.len() && buf[pr.1 - 1] == 0,
            Err(e) => e == ParseError::PrematureEnd || (e matches
                ParseError::UnsupportedExtensionHeader(_)),
        },
    decreases buf.len() - pos,
{
    match spec_read_u8(buf, pos) {
        Err(_) => {},
        Ok((lw, p1)) => match spec_read(buf, p1, 4 * (lw as int)) {
            Err(_) => {},
            Ok((content, p2)) => match spec_parse_ext_header_type(buf, p2) {
                Err(_) => {},
                Ok((next, p3)) => {
                    if next != ExtHeaderType::EndReached {
                        lemma_chain_termination(buf, p3, next);
                    }
                },
            },
        },
    }
}

/// A successful header decode starts inside the buffer and finishes past
/// its starting position but never past the end of the buffer.
pub proof fn lemma_gtp_bounds(buf: Seq<u8>, pos: int)
    ensures
        spec_parse_gtp(buf, pos) matches Ok(pr) ==> 0 <= pos < pr.1 <= buf.len(),
{
    match spec_read_u8(buf, pos) {
        Err(_) => {},
        Ok((top, p1)) => {
            let flags = spec_flags(top);
            match spec_read_u16(buf, p1) {
                Err(_) => {},
                Ok((len, p2)) => match spec_read_u32(buf, p2) {
                    Err(_) => {},
                    Ok((teid, p3)) => match spec_parse_seq_num(buf, p3, flags) {
                        Err(_) => {},
                        Ok((sn, p4)) => match spec_parse_npdu(buf, p4, flags) {
                            Err(_) => {},
                            Ok((nn, p5)) => {
                                if flags.extension_header {
                                    match spec_parse_ext_header_type(buf, p5) {
                                        Err(_) => {},
                                        Ok((kind, p6)) => {
                                            lemma_chain_termination(buf, p6, kind);
                                        },
                                    }
                                }
                            },
                        },
                    },
                },
            }
        },
    }
}

/// Law (truncation, chain part): cutting the buffer anywhere strictly
/// before the final position of a successful chain walk turns the walk
/// into `PrematureEnd`.
proof fn lemma_chain_truncated(buf: Seq<u8>, pos: int, kind: ExtHeaderType, k: int)
    requires
        spec_parse_chain(buf, pos, kind) matches Ok(pr) && pos <= k < pr.1,
    ensures
        spec_parse_chain(buf.subrange(0, k), pos, kind) == Err::<
            (Seq<ExtensionHeaderView>, int),
            ParseError,
        >(ParseError::PrematureEnd),
    decreases buf.len() - pos,
{
    lemma_chain_termination(buf, pos, kind);
    let bufk = buf.subrange(0, k);
    match spec_read_u8(buf, pos) {
        Err(_) => {
            assert(false);
        },
        Ok((lw, p1)) => {
            if p1 > k {
                assert(spec_read_u8(bufk, pos) == Err::<(u8, int), ParseError>(
                    ParseError::PrematureEnd,
                ));
            } else {
                assert(bufk[pos] == buf[pos]);
                match spec_read(buf, p1, 4 * (lw as int)) {
                    Err(_) => {
                        assert(false);
                    },
                    Ok((content, p2)) => {
                        if p2 > k {
                            assert(spec_read(bufk, p1, 4 * (lw as int)) == Err::<
                                (Seq<u8>, int),
                                ParseError,
                            >(ParseError::PrematureEnd));
                        } else {
                            match spec_parse_ext_header_type(buf, p2) {
                                Err(_) => {
                                    assert(false);
                                },
                                Ok((next, p3)) => {
                                    if p3 > k {
                                        assert(spec_read_u8(bufk, p2) == Err::<
                                            (u8, int),
                                            ParseError,
                                        >(ParseError::PrematureEnd));
                                    } else {
                                        assert(bufk[p2] == buf[p2]);
                                        if next == ExtHeaderType::EndReached {
                                            assert(false);
                                        } else {
                                            lemma_chain_truncated(buf, p3, next, k);
                                        }
                                    }
                                },
                            }
                        }
                    },
                }
            }
        },
    }
}

/// Law (truncation): for any buffer layout the header decode accepts,
/// cutting the buffer at any offset strictly before the last byte the
/// layout requires yields `PrematureEnd` — never a wrong value and never
/// an out-of-bounds access.
pub proof fn lemma_truncation(buf: Seq<u8>, pos: int, k: int)
    requires
        spec_parse_gtp(buf, pos) matches Ok(pr) && pos <= k < pr.1,
    ensures
        spec_parse_gtp(buf.subrange(0, k), pos) == Err::<(GtpView, int), ParseError>(
            ParseError::PrematureEnd,
        ),
{
    lemma_gtp_bounds(buf, pos);
    let bufk = buf.subrange(0, k);
    match spec_read_u8(buf, pos) {
        Err(_) => {
            assert(false);
        },
        Ok((top, p1)) => {
            let flags = spec_flags(top);
            if p1 > k {
                assert(spec_read_u8(bufk, pos) == Err::<(u8, int), ParseError>(
                    ParseError::PrematureEnd,
                ));
            } else {
                assert(bufk[pos] == buf[pos]);
                match spec_read_u16(buf, p1) {
                    Err(_) => {
                        assert(false);
                    },
                    Ok((len, p2)) => {
                        if p2 > k {
                            assert(spec_read_u16(bufk, p1) == Err::<(u16, int), ParseError>(
                                ParseError::PrematureEnd,
                            ));
                        } else {
                            match spec_read_u32(buf, p2) {
                                Err(_) => {
                                    assert(false);
                                },
                                Ok((teid, p3)) => {
                                    if p3 > k {
                                        assert(spec_read_u32(bufk, p2) == Err::<
                                            (u32, int),
                                            ParseError,
                                        >(ParseError::PrematureEnd));
                                    } else {
                                        lemma_truncation_tail(buf, k, p3, flags);
                                    }
                                },
                            }
                        }
                    },
                }
            }
        },
    }
}

/// The optional-field stages of the truncation law: sequence number,
/// N-PDU number and extension chain, entered at position `p3` with the
/// untruncated decode known to finish strictly after the cut `k`.
proof fn lemma_truncation_tail(buf: Seq<u8>, k: int, p3: int, flags: Flags)
    requires
        0 <= p3 <= k <= buf.len(),
        ({
            match spec_parse_seq_num(buf, p3, flags) {
                Err(_) => false,
                Ok((sn, p4)) => match spec_parse_npdu(buf, p4, flags) {
                    Err(_) => false,
                    Ok((nn, p5)) => match spec_parse_ext_hdrs(buf, p5, flags) {
                        Err(_) => false,
                        Ok((hs, p6)) => k < p6,
                    },
                },
            }
        }),
    ensures
        ({
            let bufk = buf.subrange(0, k);
            match spec_parse_seq_num(bufk, p3, flags) {
                Err(e) => e == ParseError::PrematureEnd,
                Ok((sn, p4)) => match spec_parse_npdu(bufk, p4, flags) {
                    Err(e) => e == ParseError::PrematureEnd,
                    Ok((nn, p5)) => spec_parse_ext_hdrs(bufk, p5, flags) == Err::<
                        (Seq<ExtensionHeaderView>, int),
                        ParseError,
                    >(ParseError::PrematureEnd),
                },
            }
        }),
{
    let bufk = buf.subrange(0, k);
    match spec_parse_seq_num(buf, p3, flags) {
        Err(_) => {
            assert(false);
        },
        Ok((sn, p4)) => {
            if flags.sequence_number && p4 > k {
                assert(spec_parse_seq_num(bufk, p3, flags) == Err::<
                    (Option<SequenceNumber>, int),
                    ParseError,
                >(ParseError::PrematureEnd));
            } else {
                assert(spec_parse_seq_num(bufk, p3, flags) == Ok::<
                    (Option<SequenceNumber>, int),
                    ParseError,
                >((sn, p4)));
                match spec_parse_npdu(buf, p4, flags) {
                    Err(_) => {
                        assert(false);
                    },
                    Ok((nn, p5)) => {
                        if flags.npdu_number && p5 > k {
                            assert(spec_parse_npdu(bufk, p4, flags) == Err::<
                                (Option<NPduNumber>, int),
                                ParseError,
                            >(ParseError::PrematureEnd));
                        } else {
                            assert(spec_parse_npdu(bufk, p4, flags) == Ok::<
                                (Option<NPduNumber>, int),
                                ParseError,
                            >((nn, p5)));
                            lemma_truncation_ext(buf, k, p5, flags);
                        }
                    },
                }
            }
        },
    }
}

/// The extension-chain stage of the truncation law.
proof fn lemma_truncation_ext(buf: Seq<u8>, k: int, p5: int, flags: Flags)
    requires
        0 <= p5 <= k <= buf.len(),
        spec_parse_ext_hdrs(buf, p5, flags) matches Ok(eh) && k < eh.1,
    ensures
        spec_parse_ext_hdrs(buf.subrange(0, k), p5, flags) == Err::<
            (Seq<ExtensionHeaderView>, int),
            ParseError,
        >(ParseError::PrematureEnd),
{
    let bufk = buf.subrange(0, k);
    if !flags.extension_header {
        assert(false);
    } else {
        match spec_parse_ext_header_type(buf, p5) {
            Err(_) => {
                assert(false);
            },
            Ok((kind, p6)) => {
                if p6 > k {
                    assert(spec_read_u8(bufk, p5) == Err::<(u8, int), ParseError>(
                        ParseError::PrematureEnd,
                    ));
                } else {
                    assert(bufk[p5] == buf[p5]);
                    lemma_chain_truncated(buf, p6, kind, k);
                }
            },
        }
    }
}

/// Law (flag fidelity): in every successfully decoded header, the presence
/// of the sequence number, the presence of the N-PDU number and the
/// non-emptiness of the extension chain each exactly mirror their own
/// indicator bit of the first octet — never more, never less.
pub proof fn lemma_flag_fidelity(buf: Seq<u8>, pos: int)
    ensures
        spec_parse_gtp(buf, pos) matches Ok(pr) ==> {
            &&& pr.0.flags == spec_flags(buf[pos])
            &&& pr.0.seq_num is Some <==> pr.0.flags.sequence_number
            &&& pr.0.npdu_num is Some <==> pr.0.flags.npdu_number
            &&& pr.0.ext_hdrs.len() > 0 <==> pr.0.flags.extension_header
        },
{
    match spec_read_u8(buf, pos) {
        Err(_) => {},
        Ok((top, p1)) => {
            let flags = spec_flags(top);
            match spec_read_u16(buf, p1) {
                Err(_) => {},
                Ok((len, p2)) => match spec_read_u32(buf, p2) {
                    Err(_) => {},
                    Ok((teid, p3)) => match spec_parse_seq_num(buf, p3, flags) {
                        Err(_) => {},
                        Ok((sn, p4)) => match spec_parse_npdu(buf, p4, flags) {
                            Err(_) => {},
                            Ok((nn, p5)) => {
                                if flags.extension_header {
                                    match spec_parse_ext_header_type(buf, p5) {
                                        Err(_) => {},
                                        Ok((kind, p6)) => {
                                            lemma_chain_termination(buf, p6, kind);
                                        },
                                    }
                                }
                            },
                        },
                    },
                },
            }
        },
    }
}

/// Law (unknown extension tags): the type-tag table is closed. Every tag
/// byte outside the seven known values is rejected as exactly
/// `UnsupportedExtensionHeader` of that byte, and no known tag is.
pub proof fn lemma_unknown_ext_tag(b: u8)
    ensures
        spec_ext_header_type(b) is Err <==> !(b == 0b00000000 || b == 0b00000001 || b
            == 0b00000010 || b == 0b01000000 || b == 0b11000000 || b == 0b11000001 || b
            == 0b11000010),
        spec_ext_header_type(b) matches Err(e) ==> e == ParseError::UnsupportedExtensionHeader(b),
{
}

} // verus!
