use netparse::ipv4::{
    parse_ipv4_header, parse_ipv4_packet, parse_options, Flags, Header, Ipv4Option, Ipv4Protocol,
};
use netparse::wire::DecodeError;

fn plain_packet() -> Vec<u8> {
    vec![
        0x45, 0xb9, 0x00, 0x1c, 0x12, 0x34, 0x5f, 0xff, 0x40, 0x11, 0xab, 0xcd, 0xc0, 0xa8, 0x00,
        0x01, 0xc0, 0xa8, 0x00, 0x02, 0x00, 0x35, 0x00, 0x35, 0x00, 0x08, 0x00, 0x00,
    ]
}

#[test]
fn ipv4_header_without_options() {
    let bytes = plain_packet();
    let (rest, packet) = parse_ipv4_packet(&bytes).unwrap();
    assert_eq!(rest.len(), 0);
    assert!(packet.header.options.is_empty());
    assert_eq!(packet.body, &bytes[20..]);
    assert_eq!(
        packet.header,
        Header {
            len: 5,
            dscp: 0x2e,
            ecn: 1,
            total_len: 28,
            id: 0x1234,
            flags: Flags { df: true, mf: false },
            fragment_off: 0x1fff,
            ttl: 64,
            proto: Ipv4Protocol::Udp,
            checksum: 0xabcd,
            source_ip: &[192, 168, 0, 1],
            dst_ip: &[192, 168, 0, 2],
            options: vec![],
        }
    );
    assert_eq!(packet.clone(), packet);
}

#[test]
fn ipv4_header_leaves_what_follows_it() {
    let bytes = plain_packet();
    let (rest, header) = parse_ipv4_header(&bytes).unwrap();
    assert_eq!(rest, &bytes[20..]);
    assert_eq!(header.len, 5);
}

#[test]
fn ipv4_flags() {
    let mut bytes = plain_packet();
    bytes[6] = 0x20;
    bytes[7] = 0x01;
    let (_, header) = parse_ipv4_header(&bytes).unwrap();
    assert_eq!(header.flags, Flags { df: false, mf: true });
    assert_eq!(header.fragment_off, 1);
    bytes[6] = 0x00;
    let (_, header) = parse_ipv4_header(&bytes).unwrap();
    assert_eq!(header.flags, Flags { df: false, mf: false });
}

fn packet_with_options() -> Vec<u8> {
    let mut bytes = plain_packet();
    bytes[0] = 0x47;
    let payload = bytes.split_off(20);
    bytes.extend_from_slice(&[0x01, 0x83, 0x03, 0x10, 0x00, 0x44, 0x44, 0x44]);
    bytes.extend_from_slice(&payload);
    bytes
}

#[test]
fn ipv4_options_are_bounded_by_the_header_length() {
    let bytes = packet_with_options();
    let (rest, header) = parse_ipv4_header(&bytes).unwrap();
    assert_eq!(
        header.options,
        vec![Ipv4Option::NoOperation, Ipv4Option::Other(0x83, 3, &[0x10]), Ipv4Option::EndOfOption]
    );
    assert_eq!(rest, &bytes[25..]);
    let (rest, packet) = parse_ipv4_packet(&bytes).unwrap();
    assert_eq!(rest.len(), 0);
    assert_eq!(packet.body, &bytes[28..]);
    assert_eq!(packet.header, header);
}

#[test]
fn ipv4_options_end_where_their_bytes_do() {
    let mut bytes = plain_packet();
    bytes[0] = 0x46;
    let payload = bytes.split_off(20);
    bytes.extend_from_slice(&[0x01, 0x01, 0x07, 0x02]);
    bytes.extend_from_slice(&payload);
    let (rest, header) = parse_ipv4_header(&bytes).unwrap();
    assert_eq!(
        header.options,
        vec![Ipv4Option::NoOperation, Ipv4Option::NoOperation, Ipv4Option::Other(7, 2, &[])]
    );
    assert_eq!(rest, &bytes[24..]);
}

#[test]
fn ipv4_option_list() {
    let bytes = [9, 9, 1, 0, 1, 1];
    assert_eq!(
        parse_options(&bytes, 2, 6),
        Ok((vec![Ipv4Option::NoOperation, Ipv4Option::EndOfOption], 4))
    );
    assert_eq!(parse_options(&bytes, 2, 2), Ok((vec![], 2)));
    assert_eq!(parse_options(&bytes, 2, 3), Ok((vec![Ipv4Option::NoOperation], 3)));
    assert_eq!(parse_options(&bytes, 2, 7), Err(DecodeError::Incomplete));
    assert_eq!(parse_options(&[7], 0, 1), Err(DecodeError::Incomplete));
    assert_eq!(parse_options(&[7, 4, 0], 0, 3), Err(DecodeError::Incomplete));
    assert_eq!(parse_options(&[7, 1, 0], 0, 3), Err(DecodeError::Malformed));
    assert_eq!(parse_options(&[7, 0, 0], 0, 3), Err(DecodeError::Malformed));
}

#[test]
fn ipv4_header_failures() {
    let bytes = plain_packet();
    for n in 0..20 {
        assert_eq!(parse_ipv4_header(&bytes[..n]), Err(DecodeError::Incomplete));
    }
    let mut wrong_version = bytes.clone();
    wrong_version[0] = 0x65;
    assert_eq!(parse_ipv4_header(&wrong_version), Err(DecodeError::Malformed));
    assert_eq!(parse_ipv4_header(&wrong_version[..1]), Err(DecodeError::Malformed));
    assert_eq!(parse_ipv4_packet(&wrong_version), Err(DecodeError::Malformed));
    let mut reserved = bytes.clone();
    reserved[6] = 0x80;
    assert_eq!(parse_ipv4_header(&reserved), Err(DecodeError::Malformed));
    assert_eq!(parse_ipv4_header(&reserved[..7]), Err(DecodeError::Malformed));
    let with_options = packet_with_options();
    assert_eq!(parse_ipv4_header(&with_options[..27]), Err(DecodeError::Incomplete));
    assert_eq!(parse_ipv4_packet(&with_options[..27]), Err(DecodeError::Incomplete));
    assert!(parse_ipv4_header(&with_options[..28]).is_ok());
}

#[test]
fn ipv4_short_header_length_starts_the_payload_early() {
    let mut bytes = plain_packet();
    bytes[0] = 0x42;
    let (_, packet) = parse_ipv4_packet(&bytes).unwrap();
    assert!(packet.header.options.is_empty());
    assert_eq!(packet.body, &bytes[8..]);
}

#[test]
fn ipv4_protocol_numbers() {
    assert_eq!(Ipv4Protocol::from_u8(1), Ipv4Protocol::Icmp);
    assert_eq!(Ipv4Protocol::from_u8(6), Ipv4Protocol::Tcp);
    assert_eq!(Ipv4Protocol::from_u8(17), Ipv4Protocol::Udp);
    assert_eq!(Ipv4Protocol::from_u8(47), Ipv4Protocol::Gre);
    assert_eq!(Ipv4Protocol::from_u8(54), Ipv4Protocol::Nhrp);
    assert_eq!(Ipv4Protocol::from_u8(62), Ipv4Protocol::Cftp);
    assert_eq!(Ipv4Protocol::from_u8(64), Ipv4Protocol::SatExpak);
    assert_eq!(Ipv4Protocol::from_u8(67), Ipv4Protocol::Ippc);
    assert_eq!(Ipv4Protocol::from_u8(69), Ipv4Protocol::SatMon);
    assert_eq!(Ipv4Protocol::from_u8(89), Ipv4Protocol::Ospfigp);
    assert_eq!(Ipv4Protocol::from_u8(98), Ipv4Protocol::Encap);
    assert_eq!(Ipv4Protocol::from_u8(100), Ipv4Protocol::Gmtp);
    for v in [0u8, 55, 61, 63, 68, 99, 101, 255] {
        assert_eq!(Ipv4Protocol::from_u8(v), Ipv4Protocol::Other(v));
    }
    let named = (0u8..=255).filter(|v| Ipv4Protocol::from_u8(*v) != Ipv4Protocol::Other(*v));
    assert_eq!(named.count(), 90);
}
