use netparse::ipv4::Ipv4Protocol;
use netparse::ipv6::{
    has_next_header, parse_extensions, parse_ipv6_extension, parse_ipv6_header, parse_ipv6_packet,
    parse_options, slice2addr, Ipv6Extension, Ipv6Header, Ipv6HeaderData, Ipv6HeaderType,
    Ipv6Option,
};
use netparse::wire::DecodeError;

#[test]
fn test_ipv6() {
    let packet = [
        0x60, 0x00, 0x00, 0x00, 0x00, 0x24, 0x11, 0x40, 0x3f, 0xfe, 0x05, 0x07, 0x00, 0x00, 0x00, 0x01,
        0x02, 0x00, 0x86, 0xff, 0xfe, 0x05, 0x80, 0xda, 0x3f, 0xfe, 0x05, 0x01, 0x48, 0x19, 0x00, 0x00,
        0x00, 0x00, 0x00, 0x00, 0x00, 0x00, 0x00, 0x42, 0x09, 0x5c, 0x00, 0x35, 0x00, 0x24, 0xf0, 0x09,
        0x00, 0x06, 0x01, 0x00, 0x00, 0x01, 0x00, 0x00, 0x00, 0x00, 0x00, 0x00, 0x06, 0x69, 0x74, 0x6f,
        0x6a, 0x75, 0x6e, 0x03, 0x6f, 0x72, 0x67, 0x00, 0x00, 0xff, 0x00, 0x01,
    ];
    let (left, ip_packet) = parse_ipv6_packet(&packet).unwrap();
    assert_eq!(left.len(), 0);
    println!("{:?}", &ip_packet);
}

fn fixed_header(payload_length: u16, next_header: u8) -> Vec<u8> {
    let mut h = vec![0x6a, 0xbc, 0xde, 0xf0];
    h.push((payload_length >> 8) as u8);
    h.push((payload_length & 0xff) as u8);
    h.push(next_header);
    h.push(64);
    h.extend_from_slice(&[
        0x20, 0x01, 0x0d, 0xb8, 0x00, 0x00, 0x00, 0x00, 0x12, 0x34, 0x56, 0x78, 0x9a, 0xbc, 0xde,
        0xf0,
    ]);
    h.extend_from_slice(&[
        0xfe, 0x80, 0x00, 0x00, 0x00, 0x00, 0x00, 0x07, 0x00, 0x00, 0x00, 0x00, 0x00, 0x00, 0x00,
        0x01,
    ]);
    h
}

#[test]
fn ipv6_header_fields() {
    let bytes = fixed_header(0, 6);
    let (rest, header) = parse_ipv6_header(&bytes).unwrap();
    assert_eq!(rest.len(), 0);
    assert_eq!(
        header,
        Ipv6Header {
            traffic_class: 0xab,
            flow_label: 0xcdef0,
            payload_length: 0,
            next_header: Ipv6HeaderType::Ipv4(Ipv4Protocol::Tcp),
            hop_limit: 64,
            src_ip: [0x2001, 0x0db8, 0, 0, 0x1234, 0x5678, 0x9abc, 0xdef0],
            dst_ip: [0xfe80, 0, 0, 0x0007, 0, 0, 0, 1],
        }
    );
}

#[test]
fn ipv6_header_failures() {
    let mut bytes = fixed_header(0, 6);
    for n in 0..40 {
        assert_eq!(parse_ipv6_header(&bytes[..n]), Err(DecodeError::Incomplete));
    }
    bytes[0] = 0x45;
    assert_eq!(parse_ipv6_header(&bytes), Err(DecodeError::Malformed));
    assert_eq!(parse_ipv6_header(&bytes[..1]), Err(DecodeError::Malformed));
}

#[test]
fn ipv6_address_groups() {
    let ip: Vec<u8> = (0u8..16).collect();
    assert_eq!(
        slice2addr(&ip),
        [0x0001, 0x0203, 0x0405, 0x0607, 0x0809, 0x0a0b, 0x0c0d, 0x0e0f]
    );
}

#[test]
fn ipv6_next_header_codes() {
    assert_eq!(Ipv6HeaderType::from_u8(0), Ipv6HeaderType::HopByHopOptions);
    assert_eq!(Ipv6HeaderType::from_u8(43), Ipv6HeaderType::Routing);
    assert_eq!(Ipv6HeaderType::from_u8(44), Ipv6HeaderType::Fragment);
    assert_eq!(Ipv6HeaderType::from_u8(60), Ipv6HeaderType::DestinationOptions);
    assert_eq!(Ipv6HeaderType::from_u8(59), Ipv6HeaderType::NoNext);
    assert_eq!(Ipv6HeaderType::from_u8(17), Ipv6HeaderType::Ipv4(Ipv4Protocol::Udp));
    assert_eq!(Ipv6HeaderType::from_u8(200), Ipv6HeaderType::Ipv4(Ipv4Protocol::Other(200)));
    assert!(has_next_header(Ipv6HeaderType::HopByHopOptions));
    assert!(has_next_header(Ipv6HeaderType::Routing));
    assert!(has_next_header(Ipv6HeaderType::Fragment));
    assert!(has_next_header(Ipv6HeaderType::DestinationOptions));
    assert!(!has_next_header(Ipv6HeaderType::NoNext));
    assert!(!has_next_header(Ipv6HeaderType::Ipv4(Ipv4Protocol::Tcp)));
}

fn chain() -> Vec<u8> {
    let mut p = Vec::new();
    // hop-by-hop, announces routing; length 0: six option bytes
    p.extend_from_slice(&[43, 0, 0x00, 0x01, 0x03, 0xaa, 0x05, 0x02]);
    // routing, announces fragment; length 1: twelve data bytes
    p.extend_from_slice(&[44, 1, 2, 3]);
    p.extend_from_slice(&[1, 2, 3, 4, 5, 6, 7, 8, 9, 10, 11, 12]);
    // fragment, announces destination options
    p.extend_from_slice(&[60, 0, 0x12, 0x39, 0xde, 0xad, 0xbe, 0xef]);
    // destination options, announces UDP; length 0
    p.extend_from_slice(&[17, 0, 0x07, 0x06, 1, 2, 3, 4]);
    p
}

fn chain_extensions() -> Vec<Ipv6Extension<'static>> {
    vec![
        Ipv6Extension {
            inner: Ipv6HeaderData::HopByHopOptions(vec![
                Ipv6Option::Padding0,
                Ipv6Option::Padding1,
                Ipv6Option::Opt(5, 2, &[]),
            ]),
            len: 0,
            next_header: Ipv6HeaderType::Routing,
        },
        Ipv6Extension {
            inner: Ipv6HeaderData::Routing(2, 3, &[1, 2, 3, 4, 5, 6, 7, 8, 9, 10, 11, 12]),
            len: 1,
            next_header: Ipv6HeaderType::Fragment,
        },
        Ipv6Extension {
            inner: Ipv6HeaderData::Fragment(0x1239 / 8, true, 0xdeadbeef),
            len: 2,
            next_header: Ipv6HeaderType::DestinationOptions,
        },
        Ipv6Extension {
            inner: Ipv6HeaderData::DestinationOptions(vec![Ipv6Option::Opt(7, 6, &[1, 2, 3, 4])]),
            len: 0,
            next_header: Ipv6HeaderType::Ipv4(Ipv4Protocol::Udp),
        },
    ]
}

#[test]
fn ipv6_extension_chain_has_one_record_per_link() {
    let mut payload = chain();
    payload.extend_from_slice(b"data");
    let (rest, exts) = parse_extensions(&payload, Ipv6HeaderType::HopByHopOptions).unwrap();
    assert_eq!(rest, &b"data"[..]);
    assert_eq!(exts, chain_extensions());
    assert_eq!(exts[2].inner, Ipv6HeaderData::Fragment(583, true, 0xdeadbeef));
}

#[test]
fn ipv6_packet_with_extensions() {
    let mut payload = chain();
    payload.extend_from_slice(b"data");
    let mut bytes = fixed_header(payload.len() as u16, 0);
    bytes.extend_from_slice(&payload);
    bytes.extend_from_slice(b"after");
    let (rest, packet) = parse_ipv6_packet(&bytes).unwrap();
    assert_eq!(rest, &b"after"[..]);
    assert_eq!(packet.body, &b"data"[..]);
    assert_eq!(packet.header.next_header, Ipv6HeaderType::HopByHopOptions);
    assert_eq!(packet.extensions, chain_extensions());
    assert_eq!(packet.clone(), packet);
}

#[test]
fn ipv6_chain_ends_at_no_next_header() {
    let payload = [59, 0, 0, 0, 0, 0, 0, 0, 9, 9];
    let (rest, exts) = parse_extensions(&payload, Ipv6HeaderType::DestinationOptions).unwrap();
    assert_eq!(rest, &[9, 9][..]);
    assert_eq!(exts.len(), 1);
    assert_eq!(exts[0].next_header, Ipv6HeaderType::NoNext);
    assert_eq!(
        exts[0].inner,
        Ipv6HeaderData::DestinationOptions(vec![Ipv6Option::Padding0; 6])
    );
}

#[test]
fn ipv6_no_extension_when_the_first_code_is_a_protocol() {
    let payload = [1, 2, 3];
    let (rest, exts) =
        parse_extensions(&payload, Ipv6HeaderType::Ipv4(Ipv4Protocol::Tcp)).unwrap();
    assert_eq!(rest, &[1, 2, 3][..]);
    assert!(exts.is_empty());
    let (rest, exts) = parse_extensions(&payload, Ipv6HeaderType::NoNext).unwrap();
    assert_eq!(rest, &[1, 2, 3][..]);
    assert!(exts.is_empty());
}

#[test]
fn ipv6_long_extension_lengths_do_not_wrap() {
    // a length field of 32 counts 8 * 32 + 8 = 264 bytes
    let mut payload = vec![6, 32, 0, 0];
    payload.extend(std::iter::repeat(0xee).take(260));
    payload.push(0x77);
    let (rest, exts) = parse_extensions(&payload, Ipv6HeaderType::Routing).unwrap();
    assert_eq!(rest, &[0x77][..]);
    assert_eq!(exts.len(), 1);
    assert_eq!(exts[0].len, 32);
    match &exts[0].inner {
        Ipv6HeaderData::Routing(0, 0, data) => assert_eq!(data.len(), 260),
        other => panic!("{:?}", other),
    }
}

#[test]
fn ipv6_extension_failures() {
    let full = chain();
    assert_eq!(
        parse_extensions(&full[..full.len() - 1], Ipv6HeaderType::HopByHopOptions),
        Err(DecodeError::Incomplete)
    );
    assert_eq!(
        parse_extensions(&full[..10], Ipv6HeaderType::HopByHopOptions),
        Err(DecodeError::Incomplete)
    );
    assert_eq!(
        parse_extensions(&[], Ipv6HeaderType::Fragment),
        Err(DecodeError::Incomplete)
    );
    assert_eq!(
        parse_ipv6_extension(&full, 0, Ipv6HeaderType::NoNext),
        Err(DecodeError::Malformed)
    );
    assert_eq!(
        parse_ipv6_extension(&full, 0, Ipv6HeaderType::Ipv4(Ipv4Protocol::Udp)),
        Err(DecodeError::Malformed)
    );
    // an option whose length is below the two bytes it has already taken
    assert_eq!(
        parse_extensions(&[17, 0, 5, 1, 0, 0, 0, 0], Ipv6HeaderType::HopByHopOptions),
        Err(DecodeError::Malformed)
    );
    // an option that runs past the end of its header
    assert_eq!(
        parse_extensions(&[17, 0, 5, 7, 0, 0, 0, 0], Ipv6HeaderType::HopByHopOptions),
        Err(DecodeError::Incomplete)
    );
}

#[test]
fn ipv6_options() {
    assert_eq!(parse_options(&[], 0), Ok(vec![]));
    assert_eq!(parse_options(&[0, 0, 9], 2), Ok(vec![Ipv6Option::Padding0; 2]));
    assert_eq!(
        parse_options(&[1, 4, 0, 0, 0xc2, 3, 0x55], 7),
        Ok(vec![Ipv6Option::Padding1, Ipv6Option::Opt(0xc2, 3, &[0x55])])
    );
    // a span longer than the input takes the input as it is
    assert_eq!(parse_options(&[0, 0], 10), Ok(vec![Ipv6Option::Padding0; 2]));
    assert_eq!(parse_options(&[1], 1), Err(DecodeError::Incomplete));
    assert_eq!(parse_options(&[1, 0], 2), Err(DecodeError::Malformed));
    assert_eq!(parse_options(&[5, 4, 0], 3), Err(DecodeError::Incomplete));
}

#[test]
fn ipv6_packet_failures() {
    let mut bytes = fixed_header(10, 17);
    bytes.extend_from_slice(&[0; 9]);
    assert_eq!(parse_ipv6_packet(&bytes), Err(DecodeError::Incomplete));
    bytes.push(0);
    assert!(parse_ipv6_packet(&bytes).is_ok());
    // the chain may not leave the payload
    let mut bytes = fixed_header(4, 44);
    bytes.extend_from_slice(&[17, 0, 0, 0, 0, 0, 0, 0]);
    assert_eq!(parse_ipv6_packet(&bytes), Err(DecodeError::Incomplete));
}
