//! UDP datagrams: the fixed eight-byte header and the payload that its
//! length field counts.

use vstd::prelude::*;
use crate::wire::{decoded, read_u16, spec_be16, tail, take, DecodeError};

verus! {

/// The four fields of the header. `len` counts the header and the payload.
#[derive(Clone, Copy, Debug, PartialEq, Eq)]
pub struct UdpHeader {
    pub src: u16,
    pub dst: u16,
    pub len: u16,
    pub checksum: u16,
}

impl View for UdpHeader {
    type V = UdpHeader;

    open spec fn view(&self) -> UdpHeader {
        *self
    }
}

/// A decoded datagram.
#[derive(Clone, Copy, Debug, PartialEq, Eq)]
pub struct UdpPacket<'a> {
    pub header: UdpHeader,
    pub body: &'a [u8],
}

/// What a `UdpPacket` holds.
pub struct UdpPacketModel {
    pub header: UdpHeader,
    pub body: Seq<u8>,
}

impl<'a> View for UdpPacket<'a> {
    type V = UdpPacketModel;

    open spec fn view(&self) -> UdpPacketModel {
        UdpPacketModel { header: self.header, body: self.body@ }
    }
}

/// The header that opens `bs`, and the position after it.
pub open spec fn spec_udp_header(bs: Seq<u8>) -> Result<(UdpHeader, int), DecodeError> {
    if bs.len() < 8 {
        Err(DecodeError::Incomplete)
    } else {
        Ok(
            (
                UdpHeader {
                    src: spec_be16(bs, 0),
                    dst: spec_be16(bs, 2),
                    len: spec_be16(bs, 4),
                    checksum: spec_be16(bs, 6),
                },
                8,
            ),
        )
    }
}

/// The datagram that opens `bs`, and the position after it. The payload is
/// what the length field counts beyond the eight bytes of the header; a
/// length below eight is not accepted.
pub open spec fn spec_udp_packet(bs: Seq<u8>) -> Result<(UdpPacketModel, int), DecodeError> {
    match spec_udp_header(bs) {
        Err(e) => Err(e),
        Ok((header, _)) => if header.len < 8 {
            Err(DecodeError::Malformed)
        } else if header.len > bs.len() {
            Err(DecodeError::Incomplete)
        } else {
            Ok(
                (
                    UdpPacketModel { header, body: bs.subrange(8, header.len as int) },
                    header.len as int,
                ),
            )
        },
    }
}

/// Decodes the header that opens `bs`.
pub fn parse_udp_header<'a>(bs: &'a [u8]) -> (r: Result<(&'a [u8], UdpHeader), DecodeError>)
    ensures
        decoded(bs@, r, spec_udp_header(bs@)),
{
    let src = read_u16(bs, 0)?;
    let dst = read_u16(bs, 2)?;
    let len = read_u16(bs, 4)?;
    let checksum = read_u16(bs, 6)?;
    Ok((tail(bs, 8), UdpHeader { src, dst, len, checksum }))
}

/// Decodes the datagram that opens `bs`.
pub fn parse_udp_packet<'a>(bs: &'a [u8]) -> (r: Result<(&'a [u8], UdpPacket<'a>), DecodeError>)
    ensures
        decoded(bs@, r, spec_udp_packet(bs@)),
{
    let (_, header) = parse_udp_header(bs)?;
    if header.len < 8 {
        return Err(DecodeError::Malformed);
    }
    let body = take(bs, 8, (header.len - 8) as usize)?;
    Ok((tail(bs, header.len as usize), UdpPacket { header, body }))
}

} // verus!
