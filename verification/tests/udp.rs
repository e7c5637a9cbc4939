use netparse::udp::{parse_udp_header, parse_udp_packet, UdpHeader, UdpPacket};
use netparse::wire::DecodeError;

#[test]
fn udp_header() {
    let bytes = [0x00, 0x35, 0xc0, 0x01, 0x00, 0x0a, 0xbe, 0xef, 1, 2, 3];
    assert_eq!(
        parse_udp_header(&bytes),
        Ok((&[1, 2, 3][..], UdpHeader { src: 53, dst: 0xc001, len: 10, checksum: 0xbeef }))
    );
    for n in 0..8 {
        assert_eq!(parse_udp_header(&bytes[..n]), Err(DecodeError::Incomplete));
    }
}

#[test]
fn udp_packet_body_is_what_the_length_counts() {
    let bytes = [0x00, 0x35, 0xc0, 0x01, 0x00, 0x0a, 0xbe, 0xef, 1, 2, 3];
    assert_eq!(
        parse_udp_packet(&bytes),
        Ok((
            &[3][..],
            UdpPacket {
                header: UdpHeader { src: 53, dst: 0xc001, len: 10, checksum: 0xbeef },
                body: &[1, 2],
            }
        ))
    );
    assert_eq!(parse_udp_packet(&bytes[..9]), Err(DecodeError::Incomplete));
    assert_eq!(parse_udp_packet(&bytes[..7]), Err(DecodeError::Incomplete));
}

#[test]
fn udp_empty_body() {
    let bytes = [0, 1, 0, 2, 0, 8, 0, 0];
    let (rest, packet) = parse_udp_packet(&bytes).unwrap();
    assert_eq!(rest.len(), 0);
    assert_eq!(packet.body.len(), 0);
}

#[test]
fn udp_length_below_the_header_is_malformed() {
    for len in 0..8 {
        let bytes = [0, 1, 0, 2, 0, len, 0, 0, 9, 9];
        assert_eq!(parse_udp_packet(&bytes), Err(DecodeError::Malformed));
    }
}
