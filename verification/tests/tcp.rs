use netparse::tcp::{
    known_options, parse_options, parse_tcp_packet, Bits, TcpFlags, TcpOption, TcpPacket,
};
use netparse::wire::DecodeError;

fn syn_with_options() -> Vec<u8> {
    vec![
        0xc0, 0x01, 0x00, 0x50, 0x00, 0x00, 0x00, 0x01, 0x00, 0x00, 0x00, 0x00, 0xa0, 0x02, 0xff,
        0xff, 0x12, 0x34, 0x00, 0x00, 0x02, 0x04, 0x05, 0xb4, 0x01, 0x03, 0x03, 0x06, 0x01, 0x01,
        0x08, 0x0a, 0x00, 0x00, 0x00, 0x01, 0x00, 0x00, 0x00, 0x00, 0x68, 0x69,
    ]
}

#[test]
fn test_ip_flags() {
    let bytes = syn_with_options();
    let (_, packet) = parse_tcp_packet(&bytes).unwrap();
    assert_eq!(
        packet.flags,
        TcpFlags {
            offset: 10,
            ns: false,
            cwr: false,
            ece: false,
            urg: false,
            ack: false,
            psh: false,
            rst: false,
            syn: true,
            fin: false,
        }
    );
    let mut all = [0u8; 20];
    all[12] = 0x51;
    all[13] = 0xff;
    let (_, packet) = parse_tcp_packet(&all).unwrap();
    assert_eq!(
        packet.flags,
        TcpFlags {
            offset: 5,
            ns: true,
            cwr: true,
            ece: true,
            urg: true,
            ack: true,
            psh: true,
            rst: true,
            syn: true,
            fin: true,
        }
    );
}

#[test]
fn tcp_each_flag_has_its_bit() {
    let mut bytes = [0u8; 20];
    bytes[12] = 0x50;
    let masks: [(u8, usize); 8] =
        [(0x80, 0), (0x40, 1), (0x20, 2), (0x10, 3), (0x08, 4), (0x04, 5), (0x02, 6), (0x01, 7)];
    for (mask, which) in masks {
        bytes[13] = mask;
        let (_, p) = parse_tcp_packet(&bytes).unwrap();
        let f = p.flags;
        let got = [f.cwr, f.ece, f.urg, f.ack, f.psh, f.rst, f.syn, f.fin];
        for (i, flag) in got.iter().enumerate() {
            assert_eq!(*flag, i == which);
        }
        assert!(!f.ns);
    }
}

#[test]
fn tcp_from_bits_reads_ones() {
    let bits = Bits { offset: 7, ns: 1, cwr: 0, ece: 1, urg: 0, ack: 1, psh: 0, rst: 1, syn: 0, fin: 1 };
    assert_eq!(
        TcpFlags::from_bits(bits),
        TcpFlags {
            offset: 7,
            ns: true,
            cwr: false,
            ece: true,
            urg: false,
            ack: true,
            psh: false,
            rst: true,
            syn: false,
            fin: true,
        }
    );
}

#[test]
fn tcp_packet_with_options() {
    let bytes = syn_with_options();
    let expected = TcpPacket {
        src: 0xc001,
        dst: 80,
        seq: 1,
        ack: 0,
        flags: TcpFlags {
            offset: 10,
            ns: false,
            cwr: false,
            ece: false,
            urg: false,
            ack: false,
            psh: false,
            rst: false,
            syn: true,
            fin: false,
        },
        window_sz: 0xffff,
        checksum: 0x1234,
        urgent: 0,
        options: vec![
            TcpOption::MaximumSegmentSize(1460),
            TcpOption::NoOperation,
            TcpOption::WindowScale(6),
            TcpOption::NoOperation,
            TcpOption::NoOperation,
            TcpOption::Timestamps(1, 0),
        ],
        body: &b"hi"[..],
    };
    assert_eq!(parse_tcp_packet(&bytes), Ok((&b""[..], expected)));
}

#[test]
fn tcp_packet_without_options_leaves_what_follows_the_header() {
    let mut bytes = vec![0u8; 20];
    bytes[0] = 0x01;
    bytes[1] = 0xbb;
    bytes[12] = 0x50;
    bytes[13] = 0x10;
    bytes.extend_from_slice(b"abc");
    let (rest, packet) = parse_tcp_packet(&bytes).unwrap();
    assert_eq!(rest, &b"abc"[..]);
    assert_eq!(packet.body, &b"abc"[..]);
    assert_eq!(packet.src, 443);
    assert!(packet.options.is_empty());
    assert!(packet.flags.ack);
}

#[test]
fn tcp_end_of_list_stops_the_walk() {
    let mut bytes = vec![0u8; 20];
    bytes[12] = 0x70;
    bytes.extend_from_slice(&[0x01, 0x00, 0x02, 0x04, 0x05, 0xb4, 0x01, 0x01]);
    bytes.extend_from_slice(b"xy");
    let (rest, packet) = parse_tcp_packet(&bytes).unwrap();
    assert_eq!(packet.options, vec![TcpOption::NoOperation, TcpOption::EndOfOptionList]);
    assert_eq!(rest, &[0x02, 0x04, 0x05, 0xb4, 0x01, 0x01][..]);
    assert_eq!(packet.body, &b"xy"[..]);
}

#[test]
fn tcp_reserved_bits_must_be_zero() {
    let mut bytes = [0u8; 20];
    bytes[12] = 0x52;
    assert_eq!(parse_tcp_packet(&bytes), Err(DecodeError::Malformed));
    assert_eq!(parse_tcp_packet(&bytes[..13]), Err(DecodeError::Malformed));
    bytes[12] = 0x58;
    assert_eq!(parse_tcp_packet(&bytes), Err(DecodeError::Malformed));
}

#[test]
fn tcp_short_input_is_incomplete() {
    let bytes = syn_with_options();
    for n in 0..40 {
        assert_eq!(parse_tcp_packet(&bytes[..n]), Err(DecodeError::Incomplete));
    }
    assert!(parse_tcp_packet(&bytes[..40]).is_ok());
}

#[test]
fn tcp_option_shapes() {
    assert_eq!(known_options(&[1, 9], 0), Ok((TcpOption::NoOperation, 1)));
    assert_eq!(known_options(&[2, 4, 0x05, 0xb4], 0), Ok((TcpOption::MaximumSegmentSize(1460), 4)));
    assert_eq!(known_options(&[9, 3, 3, 7], 1), Ok((TcpOption::WindowScale(7), 4)));
    assert_eq!(
        known_options(&[8, 10, 0, 0, 1, 0, 0xff, 0, 0, 1], 0),
        Ok((TcpOption::Timestamps(256, 0xff000001), 10))
    );
    assert_eq!(
        known_options(&[2, 5, 1, 2, 3], 0),
        Ok((TcpOption::Other(2, 5, &[1, 2, 3][..]), 5))
    );
    assert_eq!(known_options(&[30, 2], 0), Ok((TcpOption::Other(30, 2, &[][..]), 2)));
    assert_eq!(known_options(&[0, 3, 7], 0), Ok((TcpOption::Other(0, 3, &[7][..]), 3)));
}

#[test]
fn tcp_option_failures() {
    assert_eq!(known_options(&[], 0), Err(DecodeError::Incomplete));
    assert_eq!(known_options(&[2], 0), Err(DecodeError::Incomplete));
    assert_eq!(known_options(&[2, 4, 5], 0), Err(DecodeError::Incomplete));
    assert_eq!(known_options(&[3, 3], 0), Err(DecodeError::Incomplete));
    assert_eq!(known_options(&[8, 10, 0, 0, 0, 0, 0, 0, 0], 0), Err(DecodeError::Incomplete));
    assert_eq!(known_options(&[30, 6, 0, 0], 0), Err(DecodeError::Incomplete));
    assert_eq!(known_options(&[30, 1, 0, 0], 0), Err(DecodeError::Malformed));
    assert_eq!(known_options(&[30, 0, 0, 0], 0), Err(DecodeError::Malformed));
}

#[test]
fn tcp_option_list() {
    assert_eq!(parse_options(&[1, 1, 9], 2), Ok((&b""[..], vec![TcpOption::NoOperation; 2])));
    assert_eq!(parse_options(&[1, 1, 9], 0), Ok((&b""[..], vec![])));
    assert_eq!(parse_options(&[1, 1, 9], 4), Err(DecodeError::Incomplete));
    assert_eq!(
        parse_options(&[0, 1, 9], 3),
        Ok((&[1, 9][..], vec![TcpOption::EndOfOptionList]))
    );
    assert_eq!(parse_options(&[1, 5, 1, 9], 3), Err(DecodeError::Malformed));
}

#[test]
fn tcp_clone_keeps_the_packet() {
    let bytes = syn_with_options();
    let (_, packet) = parse_tcp_packet(&bytes).unwrap();
    assert_eq!(packet.clone(), packet);
}
