use gtp::header::{
    ExtHeaderType, Flag, Flags, Gtp, Length, NPduNumber, Protocol, SequenceNumber, TunnelEid,
    Version,
};
use gtp::parser::{ParseError, Parser};

#[test]
fn parse_minimal_header() {
    let raw = [0b00110000, 0, 0, 0, 0, 0, 1, 0];
    let mut p = Parser::new(&raw);
    let parsed = Gtp::parse(&mut p).unwrap();
    assert!(
        !parsed.flags.sequence_number && !parsed.flags.npdu_number
            && !parsed.flags.extension_header
    );
    assert_eq!(parsed.version, Version(1));
    assert_eq!(parsed.length, Length(0));
    assert_eq!(parsed.teid, TunnelEid(1));
}

#[test]
fn parse_basic_header() {
    let raw = [0b00110011, 0, 0, 0, 0, 0, 1, 0, 14, 5, 0];
    let mut p = Parser::new(&raw);
    let parsed = Gtp::parse(&mut p).unwrap();
    assert!(parsed.flags.sequence_number || parsed.flags.npdu_number || parsed.flags.extension_header);
    assert_eq!(parsed.seq_num, Some(SequenceNumber(14)));
    assert_eq!(parsed.npdu_num, Some(NPduNumber(5)));
}

#[test]
fn minimal_header_full_shape() {
    let raw = [0b00110000, 0, 0, 0, 0, 0, 1];
    let mut p = Parser::new(&raw);
    let parsed = Gtp::parse(&mut p).unwrap();
    assert_eq!(parsed.version, Version(1));
    assert_eq!(parsed.protocol, Protocol::Gtp);
    assert_eq!(parsed.length, Length(0));
    assert_eq!(parsed.teid, TunnelEid(1));
    assert_eq!(parsed.seq_num, None);
    assert_eq!(parsed.npdu_num, None);
    assert!(parsed.ext_hdrs.is_empty());
}

#[test]
fn decode_is_deterministic() {
    let raw = [0b00110111, 0, 0, 0, 0, 0, 1, 0, 14, 5, 1, 0, 0];
    let mut p1 = Parser::new(&raw);
    let mut p2 = Parser::new(&raw);
    let g1 = Gtp::parse(&mut p1).unwrap();
    let g2 = Gtp::parse(&mut p2).unwrap();
    assert_eq!(g1, g2);
}

#[test]
fn flag_fidelity_all_combinations() {
    for bits in 0u8..8 {
        let mut raw = vec![0b00110000 | bits, 0, 0, 0, 0, 0, 1];
        if bits & 0b010 != 0 {
            raw.extend_from_slice(&[0, 14]);
        }
        if bits & 0b001 != 0 {
            raw.push(5);
        }
        if bits & 0b100 != 0 {
            raw.extend_from_slice(&[1, 0, 0]);
        }
        let mut p = Parser::new(&raw);
        let parsed = Gtp::parse(&mut p).unwrap();
        assert_eq!(parsed.flags.sequence_number, bits & 0b010 != 0);
        assert_eq!(parsed.flags.npdu_number, bits & 0b001 != 0);
        assert_eq!(parsed.flags.extension_header, bits & 0b100 != 0);
        assert_eq!(parsed.seq_num.is_some(), bits & 0b010 != 0);
        assert_eq!(parsed.npdu_num.is_some(), bits & 0b001 != 0);
        assert_eq!(!parsed.ext_hdrs.is_empty(), bits & 0b100 != 0);
    }
}

#[test]
fn truncation_yields_premature_end() {
    let raw = [0b00110111, 0, 0, 0, 0, 0, 1, 0, 14, 5, 1, 0, 0];
    let mut p = Parser::new(&raw);
    assert!(Gtp::parse(&mut p).is_ok());
    for k in 0..raw.len() {
        let mut q = Parser::new(&raw[..k]);
        assert_eq!(Gtp::parse(&mut q).unwrap_err(), ParseError::PrematureEnd);
    }
}

#[test]
fn extension_flag_with_one_byte_left() {
    let raw = [0b00110100, 0];
    let mut p = Parser::new(&raw);
    assert_eq!(Gtp::parse(&mut p).unwrap_err(), ParseError::PrematureEnd);
}

#[test]
fn chain_two_records() {
    let raw = [
        0b00110100, 0, 0, 0, 0, 0, 1, 1, 0, 2, 1, 0xaa, 0xbb, 0xcc, 0xdd, 0,
    ];
    let mut p = Parser::new(&raw);
    let parsed = Gtp::parse(&mut p).unwrap();
    assert_eq!(parsed.ext_hdrs.len(), 2);
    assert_eq!(parsed.ext_hdrs[0].kind, ExtHeaderType::MbmsSupport);
    assert_eq!(parsed.ext_hdrs[0].content, Vec::<u8>::new());
    assert_eq!(parsed.ext_hdrs[1].kind, ExtHeaderType::MsInfoChangeReporting);
    assert_eq!(parsed.ext_hdrs[1].content, vec![0xaa, 0xbb, 0xcc, 0xdd]);
}

#[test]
fn chain_without_sentinel_ends_prematurely() {
    let raw = [0b00110100, 0, 0, 0, 0, 0, 1, 1, 1, 0xaa];
    let mut p = Parser::new(&raw);
    assert_eq!(Gtp::parse(&mut p).unwrap_err(), ParseError::PrematureEnd);
}

#[test]
fn chain_unknown_first_tag() {
    let raw = [0b00110100, 0, 0, 0, 0, 0, 1, 99];
    let mut p = Parser::new(&raw);
    assert_eq!(
        Gtp::parse(&mut p).unwrap_err(),
        ParseError::UnsupportedExtensionHeader(99)
    );
}

#[test]
fn chain_unknown_next_tag() {
    let raw = [0b00110100, 0, 0, 0, 0, 0, 1, 1, 0, 77];
    let mut p = Parser::new(&raw);
    assert_eq!(
        Gtp::parse(&mut p).unwrap_err(),
        ParseError::UnsupportedExtensionHeader(77)
    );
}

#[test]
fn version_and_protocol_extraction() {
    assert_eq!(Version::parse(0b00110000), Ok(Version(1)));
    assert_eq!(Version::parse(0b10100000), Ok(Version(5)));
    assert_eq!(Protocol::parse(0b00110000), Ok(Protocol::Gtp));
    assert_eq!(Protocol::parse(0b00100000), Ok(Protocol::GtpPrime));
}

#[test]
fn flag_bit_predicates() {
    assert!(Flag::has_npdu_number(0b00000001));
    assert!(!Flag::has_npdu_number(0b11111110));
    assert!(Flag::has_sequence_number(0b00000010));
    assert!(!Flag::has_sequence_number(0b11111101));
    assert!(Flag::has_extension_header(0b00000100));
    assert!(!Flag::has_extension_header(0b11111011));
}

#[test]
fn flags_contains_mirrors_bits() {
    let flags = Flags::parse(0b00000110).unwrap();
    assert!(flags.contains(&Flag::SequenceNumber));
    assert!(flags.contains(&Flag::ExtensionHeader));
    assert!(!flags.contains(&Flag::NPduNumber));
}

#[test]
fn ext_header_type_tag_table() {
    let cases: [(u8, ExtHeaderType); 7] = [
        (0b00000000, ExtHeaderType::EndReached),
        (0b00000001, ExtHeaderType::MbmsSupport),
        (0b00000010, ExtHeaderType::MsInfoChangeReporting),
        (0b01000000, ExtHeaderType::UdpPort),
        (0b11000000, ExtHeaderType::PdcpPdu),
        (0b11000001, ExtHeaderType::SuspendRequest),
        (0b11000010, ExtHeaderType::SuspendResponse),
    ];
    for (byte, want) in cases {
        let raw = [byte];
        let mut p = Parser::new(&raw);
        assert_eq!(ExtHeaderType::parse(&mut p), Ok(want));
    }
    let raw = [0b00000011];
    let mut p = Parser::new(&raw);
    assert_eq!(
        ExtHeaderType::parse(&mut p),
        Err(ParseError::UnsupportedExtensionHeader(0b00000011))
    );
}

#[test]
fn multibyte_fields_are_network_order() {
    let raw = [0x12, 0x34];
    let mut p = Parser::new(&raw);
    assert_eq!(p.parse_u16(), Ok(0x1234));
    let raw = [0x12, 0x34, 0x56, 0x78];
    let mut p = Parser::new(&raw);
    assert_eq!(p.parse_u32(), Ok(0x12345678));
}

#[test]
fn failed_read_leaves_position_unchanged() {
    let raw = [1, 2, 3];
    let mut p = Parser::new(&raw);
    assert_eq!(p.parse(5).unwrap_err(), ParseError::PrematureEnd);
    assert_eq!(p.parse(3).unwrap(), &[1, 2, 3]);
}

#[test]
fn empty_buffer_is_premature_end() {
    let raw: [u8; 0] = [];
    let mut p = Parser::new(&raw);
    assert_eq!(Gtp::parse(&mut p).unwrap_err(), ParseError::PrematureEnd);
}
