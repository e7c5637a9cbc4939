use netparse::ethernet::{parse_eth2_packet, EthernetIIPacket};
use netparse::wire::DecodeError;

fn frame() -> Vec<u8> {
    vec![
        0xff, 0xff, 0xff, 0xff, 0xff, 0xff, 0x02, 0x00, 0x5e, 0x10, 0x00, 0x01, 0x08, 0x00, 0x45,
        0x00, 0x01,
    ]
}

#[test]
fn ethernet_frame() {
    let bytes = frame();
    assert_eq!(
        parse_eth2_packet(&bytes),
        Ok((
            &b""[..],
            EthernetIIPacket {
                dest_mac: &[0xff; 6],
                source_mac: &[0x02, 0x00, 0x5e, 0x10, 0x00, 0x01],
                body: &[0x45, 0x00, 0x01],
            }
        ))
    );
    let (_, packet) = parse_eth2_packet(&bytes[..14]).unwrap();
    assert_eq!(packet.body.len(), 0);
}

#[test]
fn ethernet_failures() {
    let bytes = frame();
    for n in 0..14 {
        assert_eq!(parse_eth2_packet(&bytes[..n]), Err(DecodeError::Incomplete));
    }
    let mut other = bytes.clone();
    other[12] = 0x86;
    other[13] = 0xdd;
    assert_eq!(parse_eth2_packet(&other), Err(DecodeError::Malformed));
    assert_eq!(parse_eth2_packet(&other[..13]), Err(DecodeError::Malformed));
    let mut arp = bytes.clone();
    arp[13] = 0x06;
    assert_eq!(parse_eth2_packet(&arp), Err(DecodeError::Malformed));
}
