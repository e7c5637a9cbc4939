//! Ethernet II frames that carry IPv4: two six-byte addresses, the type
//! field, and the payload.

use vstd::prelude::*;
use crate::wire::{decoded, expect_bits, read_u8, tail, take, DecodeError};

verus! {

/// A decoded frame. The addresses are views of six bytes each.
#[derive(Clone, Copy, Debug, PartialEq, Eq)]
pub struct EthernetIIPacket<'a> {
    pub dest_mac: &'a [u8],
    pub source_mac: &'a [u8],
    pub body: &'a [u8],
}

/// What an `EthernetIIPacket` holds.
pub struct EthernetIIPacketModel {
    pub dest_mac: Seq<u8>,
    pub source_mac: Seq<u8>,
    pub body: Seq<u8>,
}

impl<'a> View for EthernetIIPacket<'a> {
    type V = EthernetIIPacketModel;

    open spec fn view(&self) -> EthernetIIPacketModel {
        EthernetIIPacketModel {
            dest_mac: self.dest_mac@,
            source_mac: self.source_mac@,
            body: self.body@,
        }
    }
}

/// The frame that `bs` holds, and the position after it. The type field
/// must be 0x0800; each of its two bytes is checked as soon as it is
/// present. The payload is all that follows, so the frame ends where `bs`
/// does.
pub open spec fn spec_eth2_packet(bs: Seq<u8>) -> Result<
    (EthernetIIPacketModel, int),
    DecodeError,
> {
    if bs.len() < 13 {
        Err(DecodeError::Incomplete)
    } else if bs[12] != 0x08 {
        Err(DecodeError::Malformed)
    } else if bs.len() < 14 {
        Err(DecodeError::Incomplete)
    } else if bs[13] != 0x00 {
        Err(DecodeError::Malformed)
    } else {
        Ok(
            (
                EthernetIIPacketModel {
                    dest_mac: bs.subrange(0, 6),
                    source_mac: bs.subrange(6, 12),
                    body: bs.skip(14),
                },
                bs.len() as int,
            ),
        )
    }
}

/// Decodes the frame that `bs` holds.
pub fn parse_eth2_packet<'a>(bs: &'a [u8]) -> (r: Result<
    (&'a [u8], EthernetIIPacket<'a>),
    DecodeError,
>)
    ensures
        decoded(bs@, r, spec_eth2_packet(bs@)),
{
    let dest = take(bs, 0, 6)?;
    let src = take(bs, 6, 6)?;
    expect_bits(read_u8(bs, 12)?, 0x08)?;
    expect_bits(read_u8(bs, 13)?, 0x00)?;
    let rest = tail(bs, 14);
    Ok((tail(bs, bs.len()), EthernetIIPacket { dest_mac: dest, source_mac: src, body: rest }))
}

} // verus!
