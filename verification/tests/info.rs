use gtp::info::{
    Comprehension, ExtHeader, ExtType, InetAddr, InfoElement, Length, RestartCounter, TeiData,
};
use gtp::parser::{ParseError, Parser};

#[test]
fn recovery_restart_counter() {
    let raw = [14, 7];
    let mut p = Parser::new(&raw);
    let parsed = InfoElement::parse(&mut p).unwrap();
    assert_eq!(parsed, InfoElement::Recovery(RestartCounter(7)));
}

#[test]
fn tei_data_element() {
    let raw = [16, 0, 0, 1, 0];
    let mut p = Parser::new(&raw);
    let parsed = InfoElement::parse(&mut p).unwrap();
    assert_eq!(parsed, InfoElement::TeiData(TeiData(256)));
}

#[test]
fn peer_address_v4() {
    let raw = [133, 4, 10, 11, 12, 13];
    let mut p = Parser::new(&raw);
    let parsed = InfoElement::parse(&mut p).unwrap();
    assert_eq!(
        parsed,
        InfoElement::GtpPeerAddr(InetAddr::V4(0x0a0b0c0d))
    );
}

#[test]
fn peer_address_v6() {
    let mut raw = vec![133, 16];
    let addr: Vec<u8> = (1..=16).collect();
    raw.extend_from_slice(&addr);
    let mut p = Parser::new(&raw);
    let parsed = InfoElement::parse(&mut p).unwrap();
    assert_eq!(parsed, InfoElement::GtpPeerAddr(InetAddr::V6(addr)));
}

#[test]
fn peer_address_bad_length() {
    let raw = [133, 5, 1, 2, 3, 4, 5];
    let mut p = Parser::new(&raw);
    assert_eq!(
        InfoElement::parse(&mut p).unwrap_err(),
        ParseError::BadIpAddress
    );
}

#[test]
fn peer_address_truncated_v4() {
    let raw = [133, 4, 1, 2];
    let mut p = Parser::new(&raw);
    assert_eq!(
        InfoElement::parse(&mut p).unwrap_err(),
        ParseError::PrematureEnd
    );
}

#[test]
fn unknown_fixed_tag() {
    let raw = [99, 0, 0];
    let mut p = Parser::new(&raw);
    assert_eq!(
        InfoElement::parse(&mut p).unwrap_err(),
        ParseError::UnsupportedInformationElement(99)
    );
}

#[test]
fn unknown_variable_tag() {
    let raw = [0b10010000, 0, 0];
    let mut p = Parser::new(&raw);
    assert_eq!(
        InfoElement::parse(&mut p).unwrap_err(),
        ParseError::UnsupportedInformationElement(0b10010000)
    );
}

#[test]
fn udp_port_element() {
    let raw = [141, 0b01000000, 1, 0, 0, 0, 80];
    let mut p = Parser::new(&raw);
    let parsed = InfoElement::parse(&mut p).unwrap();
    assert_eq!(
        parsed,
        InfoElement::ExtHeader(ExtHeader {
            comprehension: Comprehension::Discard,
            header: ExtType::UdpPort(80),
        })
    );
}

#[test]
fn udp_port_out_of_range() {
    let raw = [141, 0b01000000, 1, 0, 1, 0, 0];
    let mut p = Parser::new(&raw);
    assert_eq!(
        InfoElement::parse(&mut p).unwrap_err(),
        ParseError::BadUdpPort(65536)
    );
}

#[test]
fn udp_port_zero_length() {
    let raw = [141, 0b01000000, 0];
    let mut p = Parser::new(&raw);
    assert_eq!(
        InfoElement::parse(&mut p).unwrap_err(),
        ParseError::PrematureEnd
    );
}

#[test]
fn pdcp_pdu_element() {
    let raw = [141, 0b11000000, 1, 0, 0, 1, 0];
    let mut p = Parser::new(&raw);
    let parsed = InfoElement::parse(&mut p).unwrap();
    assert_eq!(
        parsed,
        InfoElement::ExtHeader(ExtHeader {
            comprehension: Comprehension::Unconditional,
            header: ExtType::PdcpPduNumber(256),
        })
    );
}

#[test]
fn unknown_nested_extension_type() {
    let raw = [141, 0b01000001, 1, 0, 0, 0, 80];
    let mut p = Parser::new(&raw);
    assert_eq!(
        InfoElement::parse(&mut p).unwrap_err(),
        ParseError::UnsupportedExtensionHeader(0b01000001)
    );
}

#[test]
fn comprehension_from_top_bits() {
    assert_eq!(Comprehension::parse(0b00000000), Ok(Comprehension::Optional));
    assert_eq!(Comprehension::parse(0b01000000), Ok(Comprehension::Discard));
    assert_eq!(Comprehension::parse(0b10000000), Ok(Comprehension::Receiver));
    assert_eq!(
        Comprehension::parse(0b11000000),
        Ok(Comprehension::Unconditional)
    );
}

#[test]
fn fixed_element_truncated() {
    let raw = [16, 0];
    let mut p = Parser::new(&raw);
    assert_eq!(
        InfoElement::parse(&mut p).unwrap_err(),
        ParseError::PrematureEnd
    );
}

#[test]
fn info_length_field_is_network_order() {
    let raw = [1, 44];
    let mut p = Parser::new(&raw);
    assert_eq!(Length::parse(&mut p), Ok(Length(300)));
}

#[test]
fn info_decode_is_deterministic() {
    let raw = [133, 4, 192, 168, 0, 1];
    let mut p1 = Parser::new(&raw);
    let mut p2 = Parser::new(&raw);
    assert_eq!(
        InfoElement::parse(&mut p1).unwrap(),
        InfoElement::parse(&mut p2).unwrap()
    );
}
