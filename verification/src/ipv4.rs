//! IPv4 packets: the fixed twenty-byte header, the options that the header
//! length makes room for, and the payload.

use vstd::prelude::*;
use crate::wire::{
    copy_vec, decoded, expect_bits, read_u16, read_u8, spec_be16, tail, take, views, DecodeError,
};

verus! {

/// The protocol that an IPv4 packet carries, by its assigned number.
#[derive(Clone, Copy, Debug, PartialEq, Eq)]
pub enum Ipv4Protocol {
    Icmp,
    Igmp,
    Ggp,
    Ip,
    St,
    Tcp,
    Ucl,
    Egp,
    Igp,
    BbnRccMon,
    NvpII,
    Pup,
    Argus,
    Emcon,
    Xnet,
    Chaos,
    Udp,
    Mux,
    DcnMeas,
    Hmp,
    Prm,
    XndIdp,
    Trunk1,
    Trunk2,
    Leaf1,
    Leaf2,
    Rdp,
    Irtp,
    IsoTp4,
    Netblt,
    MfeNsp,
    MeritInp,
    Sep,
    ThreePC,
    Idpr,
    Xtp,
    Ddp,
    IdprCmtp,
    TpPlusPlus,
    Il,
    Sip,
    Sdrp,
    SipSr,
    SipFrag,
    Idrp,
    Rsvp,
    Gre,
    Mhrp,
    Bna,
    SippEsp,
    SippAh,
    INlsp,
    Swipe,
    Nhrp,
    Cftp,
    SatExpak,
    Kryptolan,
    Rvd,
    Ippc,
    SatMon,
    Visa,
    Ipcv,
    Cpnx,
    Cphb,
    Wsn,
    Pvp,
    BrSatMon,
    SunNd,
    WbMon,
    WbExpak,
    IsoIp,
    Vmtp,
    SecureVmtp,
    Vines,
    Ttp,
    NsfnetIgp,
    Dgp,
    Tcf,
    Igrp,
    Ospfigp,
    SpriteRpc,
    Larp,
    Mtp,
    Ax25,
    Ipip,
    Micp,
    SccSp,
    Etherip,
    Encap,
    Gmtp,
    Other(u8),
}

impl Ipv4Protocol {
    /// What `from_u8` yields for the number `v`.
    pub open spec fn spec_from_u8(v: u8) -> Ipv4Protocol {
        match v {
            1 => Ipv4Protocol::Icmp,
            2 => Ipv4Protocol::Igmp,
            3 => Ipv4Protocol::Ggp,
            4 => Ipv4Protocol::Ip,
            5 => Ipv4Protocol::St,
            6 => Ipv4Protocol::Tcp,
            7 => Ipv4Protocol::Ucl,
            8 => Ipv4Protocol::Egp,
            9 => Ipv4Protocol::Igp,
            10 => Ipv4Protocol::BbnRccMon,
            11 => Ipv4Protocol::NvpII,
            12 => Ipv4Protocol::Pup,
            13 => Ipv4Protocol::Argus,
            14 => Ipv4Protocol::Emcon,
            15 => Ipv4Protocol::Xnet,
            16 => Ipv4Protocol::Chaos,
            17 => Ipv4Protocol::Udp,
            18 => Ipv4Protocol::Mux,
            19 => Ipv4Protocol::DcnMeas,
            20 => Ipv4Protocol::Hmp,
            21 => Ipv4Protocol::Prm,
            22 => Ipv4Protocol::XndIdp,
            23 => Ipv4Protocol::Trunk1,
            24 => Ipv4Protocol::Trunk2,
            25 => Ipv4Protocol::Leaf1,
            26 => Ipv4Protocol::Leaf2,
            27 => Ipv4Protocol::Rdp,
            28 => Ipv4Protocol::Irtp,
            29 => Ipv4Protocol::IsoTp4,
            30 => Ipv4Protocol::Netblt,
            31 => Ipv4Protocol::MfeNsp,
            32 => Ipv4Protocol::MeritInp,
            33 => Ipv4Protocol::Sep,
            34 => Ipv4Protocol::ThreePC,
            35 => Ipv4Protocol::Idpr,
            36 => Ipv4Protocol::Xtp,
            37 => Ipv4Protocol::Ddp,
            38 => Ipv4Protocol::IdprCmtp,
            39 => Ipv4Protocol::TpPlusPlus,
            40 => Ipv4Protocol::Il,
            41 => Ipv4Protocol::Sip,
            42 => Ipv4Protocol::Sdrp,
            43 => Ipv4Protocol::SipSr,
            44 => Ipv4Protocol::SipFrag,
            45 => Ipv4Protocol::Idrp,
            46 => Ipv4Protocol::Rsvp,
            47 => Ipv4Protocol::Gre,
            48 => Ipv4Protocol::Mhrp,
            49 => Ipv4Protocol::Bna,
            50 => Ipv4Protocol::SippEsp,
            51 => Ipv4Protocol::SippAh,
            52 => Ipv4Protocol::INlsp,
            53 => Ipv4Protocol::Swipe,
            54 => Ipv4Protocol::Nhrp,
            62 => Ipv4Protocol::Cftp,
            64 => Ipv4Protocol::SatExpak,
            65 => Ipv4Protocol::Kryptolan,
            66 => Ipv4Protocol::Rvd,
            67 => Ipv4Protocol::Ippc,
            69 => Ipv4Protocol::SatMon,
            70 => Ipv4Protocol::Visa,
            71 => Ipv4Protocol::Ipcv,
            72 => Ipv4Protocol::Cpnx,
            73 => Ipv4Protocol::Cphb,
            74 => Ipv4Protocol::Wsn,
            75 => Ipv4Protocol::Pvp,
            76 => Ipv4Protocol::BrSatMon,
            77 => Ipv4Protocol::SunNd,
            78 => Ipv4Protocol::WbMon,
            79 => Ipv4Protocol::WbExpak,
            80 => Ipv4Protocol::IsoIp,
            81 => Ipv4Protocol::Vmtp,
            82 => Ipv4Protocol::SecureVmtp,
            83 => Ipv4Protocol::Vines,
            84 => Ipv4Protocol::Ttp,
            85 => Ipv4Protocol::NsfnetIgp,
            86 => Ipv4Protocol::Dgp,
            87 => Ipv4Protocol::Tcf,
            88 => Ipv4Protocol::Igrp,
            89 => Ipv4Protocol::Ospfigp,
            90 => Ipv4Protocol::SpriteRpc,
            91 => Ipv4Protocol::Larp,
            92 => Ipv4Protocol::Mtp,
            93 => Ipv4Protocol::Ax25,
            94 => Ipv4Protocol::Ipip,
            95 => Ipv4Protocol::Micp,
            96 => Ipv4Protocol::SccSp,
            97 => Ipv4Protocol::Etherip,
            98 => Ipv4Protocol::Encap,
            100 => Ipv4Protocol::Gmtp,
            x => Ipv4Protocol::Other(x),
        }
    }

    /// The number that stands for the protocol.
    pub open spec fn number(self) -> u8 {
        match self {
            Ipv4Protocol::Icmp => 1,
            Ipv4Protocol::Igmp => 2,
            Ipv4Protocol::Ggp => 3,
            Ipv4Protocol::Ip => 4,
            Ipv4Protocol::St => 5,
            Ipv4Protocol::Tcp => 6,
            Ipv4Protocol::Ucl => 7,
            Ipv4Protocol::Egp => 8,
            Ipv4Protocol::Igp => 9,
            Ipv4Protocol::BbnRccMon => 10,
            Ipv4Protocol::NvpII => 11,
            Ipv4Protocol::Pup => 12,
            Ipv4Protocol::Argus => 13,
            Ipv4Protocol::Emcon => 14,
            Ipv4Protocol::Xnet => 15,
            Ipv4Protocol::Chaos => 16,
            Ipv4Protocol::Udp => 17,
            Ipv4Protocol::Mux => 18,
            Ipv4Protocol::DcnMeas => 19,
            Ipv4Protocol::Hmp => 20,
            Ipv4Protocol::Prm => 21,
            Ipv4Protocol::XndIdp => 22,
            Ipv4Protocol::Trunk1 => 23,
            Ipv4Protocol::Trunk2 => 24,
            Ipv4Protocol::Leaf1 => 25,
            Ipv4Protocol::Leaf2 => 26,
            Ipv4Protocol::Rdp => 27,
            Ipv4Protocol::Irtp => 28,
            Ipv4Protocol::IsoTp4 => 29,
            Ipv4Protocol::Netblt => 30,
            Ipv4Protocol::MfeNsp => 31,
            Ipv4Protocol::MeritInp => 32,
            Ipv4Protocol::Sep => 33,
            Ipv4Protocol::ThreePC => 34,
            Ipv4Protocol::Idpr => 35,
            Ipv4Protocol::Xtp => 36,
            Ipv4Protocol::Ddp => 37,
            Ipv4Protocol::IdprCmtp => 38,
            Ipv4Protocol::TpPlusPlus => 39,
            Ipv4Protocol::Il => 40,
            Ipv4Protocol::Sip => 41,
            Ipv4Protocol::Sdrp => 42,
            Ipv4Protocol::SipSr => 43,
            Ipv4Protocol::SipFrag => 44,
            Ipv4Protocol::Idrp => 45,
            Ipv4Protocol::Rsvp => 46,
            Ipv4Protocol::Gre => 47,
            Ipv4Protocol::Mhrp => 48,
            Ipv4Protocol::Bna => 49,
            Ipv4Protocol::SippEsp => 50,
            Ipv4Protocol::SippAh => 51,
            Ipv4Protocol::INlsp => 52,
            Ipv4Protocol::Swipe => 53,
            Ipv4Protocol::Nhrp => 54,
            Ipv4Protocol::Cftp => 62,
            Ipv4Protocol::SatExpak => 64,
            Ipv4Protocol::Kryptolan => 65,
            Ipv4Protocol::Rvd => 66,
            Ipv4Protocol::Ippc => 67,
            Ipv4Protocol::SatMon => 69,
            Ipv4Protocol::Visa => 70,
            Ipv4Protocol::Ipcv => 71,
            Ipv4Protocol::Cpnx => 72,
            Ipv4Protocol::Cphb => 73,
            Ipv4Protocol::Wsn => 74,
            Ipv4Protocol::Pvp => 75,
            Ipv4Protocol::BrSatMon => 76,
            Ipv4Protocol::SunNd => 77,
            Ipv4Protocol::WbMon => 78,
            Ipv4Protocol::WbExpak => 79,
            Ipv4Protocol::IsoIp => 80,
            Ipv4Protocol::Vmtp => 81,
            Ipv4Protocol::SecureVmtp => 82,
            Ipv4Protocol::Vines => 83,
            Ipv4Protocol::Ttp => 84,
            Ipv4Protocol::NsfnetIgp => 85,
            Ipv4Protocol::Dgp => 86,
            Ipv4Protocol::Tcf => 87,
            Ipv4Protocol::Igrp => 88,
            Ipv4Protocol::Ospfigp => 89,
            Ipv4Protocol::SpriteRpc => 90,
            Ipv4Protocol::Larp => 91,
            Ipv4Protocol::Mtp => 92,
            Ipv4Protocol::Ax25 => 93,
            Ipv4Protocol::Ipip => 94,
            Ipv4Protocol::Micp => 95,
            Ipv4Protocol::SccSp => 96,
            Ipv4Protocol::Etherip => 97,
            Ipv4Protocol::Encap => 98,
            Ipv4Protocol::Gmtp => 100,
            Ipv4Protocol::Other(x) => x,
        }
    }

    /// The protocol with the number `v`: the named protocol that the number
    /// is assigned to, or `Other` with the number itself. The result stands
    /// for `v` again, and it is `Other` only for a number that no named
    /// protocol has.
    pub fn from_u8(v: u8) -> (r: Ipv4Protocol)
        ensures
            r == Self::spec_from_u8(v),
            r.number() == v,
            r is Other <==> !(1 <= v <= 54 || v == 62 || 64 <= v <= 67 || 69 <= v <= 98 || v
                == 100),
    {
        match v {
            1 => Ipv4Protocol::Icmp,
            2 => Ipv4Protocol::Igmp,
            3 => Ipv4Protocol::Ggp,
            4 => Ipv4Protocol::Ip,
            5 => Ipv4Protocol::St,
            6 => Ipv4Protocol::Tcp,
            7 => Ipv4Protocol::Ucl,
            8 => Ipv4Protocol::Egp,
            9 => Ipv4Protocol::Igp,
            10 => Ipv4Protocol::BbnRccMon,
            11 => Ipv4Protocol::NvpII,
            12 => Ipv4Protocol::Pup,
            13 => Ipv4Protocol::Argus,
            14 => Ipv4Protocol::Emcon,
            15 => Ipv4Protocol::Xnet,
            16 => Ipv4Protocol::Chaos,
            17 => Ipv4Protocol::Udp,
            18 => Ipv4Protocol::Mux,
            19 => Ipv4Protocol::DcnMeas,
            20 => Ipv4Protocol::Hmp,
            21 => Ipv4Protocol::Prm,
            22 => Ipv4Protocol::XndIdp,
            23 => Ipv4Protocol::Trunk1,
            24 => Ipv4Protocol::Trunk2,
            25 => Ipv4Protocol::Leaf1,
            26 => Ipv4Protocol::Leaf2,
            27 => Ipv4Protocol::Rdp,
            28 => Ipv4Protocol::Irtp,
            29 => Ipv4Protocol::IsoTp4,
            30 => Ipv4Protocol::Netblt,
            31 => Ipv4Protocol::MfeNsp,
            32 => Ipv4Protocol::MeritInp,
            33 => Ipv4Protocol::Sep,
            34 => Ipv4Protocol::ThreePC,
            35 => Ipv4Protocol::Idpr,
            36 => Ipv4Protocol::Xtp,
            37 => Ipv4Protocol::Ddp,
            38 => Ipv4Protocol::IdprCmtp,
            39 => Ipv4Protocol::TpPlusPlus,
            40 => Ipv4Protocol::Il,
            41 => Ipv4Protocol::Sip,
            42 => Ipv4Protocol::Sdrp,
            43 => Ipv4Protocol::SipSr,
            44 => Ipv4Protocol::SipFrag,
            45 => Ipv4Protocol::Idrp,
            46 => Ipv4Protocol::Rsvp,
            47 => Ipv4Protocol::Gre,
            48 => Ipv4Protocol::Mhrp,
            49 => Ipv4Protocol::Bna,
            50 => Ipv4Protocol::SippEsp,
            51 => Ipv4Protocol::SippAh,
            52 => Ipv4Protocol::INlsp,
            53 => Ipv4Protocol::Swipe,
            54 => Ipv4Protocol::Nhrp,
            62 => Ipv4Protocol::Cftp,
            64 => Ipv4Protocol::SatExpak,
            65 => Ipv4Protocol::Kryptolan,
            66 => Ipv4Protocol::Rvd,
            67 => Ipv4Protocol::Ippc,
            69 => Ipv4Protocol::SatMon,
            70 => Ipv4Protocol::Visa,
            71 => Ipv4Protocol::Ipcv,
            72 => Ipv4Protocol::Cpnx,
            73 => Ipv4Protocol::Cphb,
            74 => Ipv4Protocol::Wsn,
            75 => Ipv4Protocol::Pvp,
            76 => Ipv4Protocol::BrSatMon,
            77 => Ipv4Protocol::SunNd,
            78 => Ipv4Protocol::WbMon,
            79 => Ipv4Protocol::WbExpak,
            80 => Ipv4Protocol::IsoIp,
            81 => Ipv4Protocol::Vmtp,
            82 => Ipv4Protocol::SecureVmtp,
            83 => Ipv4Protocol::Vines,
            84 => Ipv4Protocol::Ttp,
            85 => Ipv4Protocol::NsfnetIgp,
            86 => Ipv4Protocol::Dgp,
            87 => Ipv4Protocol::Tcf,
            88 => Ipv4Protocol::Igrp,
            89 => Ipv4Protocol::Ospfigp,
            90 => Ipv4Protocol::SpriteRpc,
            91 => Ipv4Protocol::Larp,
            92 => Ipv4Protocol::Mtp,
            93 => Ipv4Protocol::Ax25,
            94 => Ipv4Protocol::Ipip,
            95 => Ipv4Protocol::Micp,
            96 => Ipv4Protocol::SccSp,
            97 => Ipv4Protocol::Etherip,
            98 => Ipv4Protocol::Encap,
            100 => Ipv4Protocol::Gmtp,
            x => Ipv4Protocol::Other(x),
        }
    }
}

/// The two flags of the fragmentation field.
#[derive(Clone, Copy, Debug, PartialEq, Eq)]
pub struct Flags {
    pub df: bool,
    pub mf: bool,
}

/// One entry of the option list. `Dummy` marks the end of the option bytes
/// where no end-of-list option stands; it never appears in a decoded list.
#[derive(Clone, Copy, Debug, PartialEq, Eq)]
pub enum Ipv4Option<'a> {
    EndOfOption,
    NoOperation,
    Other(u8, u8, &'a [u8]),
    Dummy,
}

/// What an `Ipv4Option` holds.
pub enum Ipv4OptionModel {
    EndOfOption,
    NoOperation,
    Other(u8, u8, Seq<u8>),
    Dummy,
}

impl<'a> View for Ipv4Option<'a> {
    type V = Ipv4OptionModel;

    open spec fn view(&self) -> Ipv4OptionModel {
        match *self {
            Ipv4Option::EndOfOption => Ipv4OptionModel::EndOfOption,
            Ipv4Option::NoOperation => Ipv4OptionModel::NoOperation,
            Ipv4Option::Other(class, length, data) => Ipv4OptionModel::Other(class, length, data@),
            Ipv4Option::Dummy => Ipv4OptionModel::Dummy,
        }
    }
}

/// A decoded header. `len` is the header length in 32-bit words; the two
/// addresses are views of four bytes each, in wire order.
#[derive(Debug, PartialEq, Eq)]
pub struct Header<'a> {
    pub len: u8,
    pub dscp: u8,
    pub ecn: u8,
    pub total_len: u16,
    pub id: u16,
    pub flags: Flags,
    pub fragment_off: u16,
    pub ttl: u8,
    pub proto: Ipv4Protocol,
    pub checksum: u16,
    pub source_ip: &'a [u8],
    pub dst_ip: &'a [u8],
    pub options: Vec<Ipv4Option<'a>>,
}

/// What a `Header` holds.
pub struct HeaderModel {
    pub len: u8,
    pub dscp: u8,
    pub ecn: u8,
    pub total_len: u16,
    pub id: u16,
    pub flags: Flags,
    pub fragment_off: u16,
    pub ttl: u8,
    pub proto: Ipv4Protocol,
    pub checksum: u16,
    pub source_ip: Seq<u8>,
    pub dst_ip: Seq<u8>,
    pub options: Seq<Ipv4OptionModel>,
}

impl<'a> View for Header<'a> {
    type V = HeaderModel;

    open spec fn view(&self) -> HeaderModel {
        HeaderModel {
            len: self.len,
            dscp: self.dscp,
            ecn: self.ecn,
            total_len: self.total_len,
            id: self.id,
            flags: self.flags,
            fragment_off: self.fragment_off,
            ttl: self.ttl,
            proto: self.proto,
            checksum: self.checksum,
            source_ip: self.source_ip@,
            dst_ip: self.dst_ip@,
            options: views(self.options@),
        }
    }
}

impl<'a> Clone for Header<'a> {
    fn clone(&self) -> (r: Self)
        ensures
            r@ == self@,
    {
        Header {
            len: self.len,
            dscp: self.dscp,
            ecn: self.ecn,
            total_len: self.total_len,
            id: self.id,
            flags: self.flags,
            fragment_off: self.fragment_off,
            ttl: self.ttl,
            proto: self.proto,
            checksum: self.checksum,
            source_ip: self.source_ip,
            dst_ip: self.dst_ip,
            options: copy_vec(&self.options),
        }
    }
}

/// A decoded packet: the header, and the payload as a view of what follows
/// it.
#[derive(Debug, PartialEq, Eq)]
pub struct Ipv4Packet<'a> {
    pub header: Header<'a>,
    pub body: &'a [u8],
}

/// What an `Ipv4Packet` holds.
pub struct Ipv4PacketModel {
    pub header: HeaderModel,
    pub body: Seq<u8>,
}

impl<'a> View for Ipv4Packet<'a> {
    type V = Ipv4PacketModel;

    open spec fn view(&self) -> Ipv4PacketModel {
        Ipv4PacketModel { header: self.header@, body: self.body@ }
    }
}

impl<'a> Clone for Ipv4Packet<'a> {
    fn clone(&self) -> (r: Self)
        ensures
            r@ == self@,
    {
        Ipv4Packet { header: self.header.clone(), body: self.body }
    }
}

/// The options that stand between `at` and `end`, after those of `acc`, and
/// the position after them. A zero byte is the end-of-list option: it is
/// part of the list and ends it. A byte of one is a lone no-operation
/// option. Any other byte is followed by a length byte that counts the whole
/// option, and by the bytes that the length leaves after those two; a length
/// below two is not accepted. The list also ends where the bytes between
/// `at` and `end` are used up. Nothing is decoded unless `bs` reaches to
/// `end`.
pub open spec fn spec_options_from(
    bs: Seq<u8>,
    at: int,
    end: int,
    acc: Seq<Ipv4OptionModel>,
) -> Result<(Seq<Ipv4OptionModel>, int), DecodeError>
    decreases end - at,
{
    if at < 0 || end > bs.len() {
        Err(DecodeError::Incomplete)
    } else if at >= end {
        Ok((acc, at))
    } else if bs[at] == 0 {
        Ok((acc.push(Ipv4OptionModel::EndOfOption), at + 1))
    } else if bs[at] == 1 {
        spec_options_from(bs, at + 1, end, acc.push(Ipv4OptionModel::NoOperation))
    } else if at + 2 > end {
        Err(DecodeError::Incomplete)
    } else if bs[at + 1] < 2 {
        Err(DecodeError::Malformed)
    } else if at + bs[at + 1] > end {
        Err(DecodeError::Incomplete)
    } else {
        spec_options_from(
            bs,
            at + bs[at + 1],
            end,
            acc.push(
                Ipv4OptionModel::Other(bs[at], bs[at + 1], bs.subrange(at + 2, at + bs[at + 1])),
            ),
        )
    }
}

/// The header that opens `bs`, and the position at which decoding stopped.
/// The version must be 4, and the bit before the two flags zero; each is
/// checked as soon as its byte is present. A header length above five words
/// makes room for options, which are decoded from the bytes between the
/// fixed header and the header length; decoding stops after the option list.
pub open spec fn spec_ipv4_header(bs: Seq<u8>) -> Result<(HeaderModel, int), DecodeError> {
    if bs.len() < 1 {
        Err(DecodeError::Incomplete)
    } else if bs[0] / 16 != 4 {
        Err(DecodeError::Malformed)
    } else if bs.len() < 7 {
        Err(DecodeError::Incomplete)
    } else if bs[6] / 128 != 0 {
        Err(DecodeError::Malformed)
    } else if bs.len() < 20 {
        Err(DecodeError::Incomplete)
    } else {
        let len = bs[0] % 16;
        let found = if len > 5 {
            spec_options_from(bs, 20, 4 * len, Seq::empty())
        } else {
            Ok((Seq::empty(), 20))
        };
        match found {
            Err(e) => Err(e),
            Ok((options, stop)) => Ok(
                (
                    HeaderModel {
                        len: len as u8,
                        dscp: (bs[1] / 4) as u8,
                        ecn: (bs[1] % 4) as u8,
                        total_len: spec_be16(bs, 2),
                        id: spec_be16(bs, 4),
                        flags: Flags { df: (bs[6] / 64) % 2 == 1, mf: (bs[6] / 32) % 2 == 1 },
                        fragment_off: (spec_be16(bs, 6) % 0x2000) as u16,
                        ttl: bs[8],
                        proto: Ipv4Protocol::spec_from_u8(bs[9]),
                        checksum: spec_be16(bs, 10),
                        source_ip: bs.subrange(12, 16),
                        dst_ip: bs.subrange(16, 20),
                        options,
                    },
                    stop,
                ),
            ),
        }
    }
}

/// The packet that `bs` holds, and the position after it. The payload
/// starts where the header length says that the header ends, and takes the
/// rest of `bs`.
pub open spec fn spec_ipv4_packet(bs: Seq<u8>) -> Result<(Ipv4PacketModel, int), DecodeError> {
    match spec_ipv4_header(bs) {
        Err(e) => Err(e),
        Ok((header, _)) => Ok(
            (Ipv4PacketModel { header, body: bs.skip(4 * header.len) }, bs.len() as int),
        ),
    }
}

/// A header that decodes lies inside the buffer, whatever its length field
/// says, and decoding stops inside it.
pub proof fn lemma_header_fits(bs: Seq<u8>)
    ensures
        spec_ipv4_header(bs) matches Ok((header, stop)) ==> 4 * header.len <= bs.len() && 20
            <= stop <= bs.len() && (header.len > 5 ==> stop <= 4 * header.len),
{
    if bs.len() >= 20 && bs[0] % 16 > 5 {
        lemma_options_stop(bs, 20, 4 * (bs[0] % 16), Seq::empty());
    }
}

/// A decoded option list holds no `Dummy`, and it ends between its start
/// and the end of its bytes.
pub proof fn lemma_options_stop(bs: Seq<u8>, at: int, end: int, acc: Seq<Ipv4OptionModel>)
    requires
        0 <= at <= end,
        forall|i: int| 0 <= i < acc.len() ==> !(#[trigger] acc[i] is Dummy),
    ensures
        spec_options_from(bs, at, end, acc) matches Ok((l, stop)) ==> at <= stop <= end
            <= bs.len() && forall|i: int| 0 <= i < l.len() ==> !(#[trigger] l[i] is Dummy),
    decreases end - at,
{
    if end <= bs.len() && at < end {
        let next = if bs[at] == 0 || bs[at] == 1 {
            at + 1
        } else {
            at + bs[at + 1]
        };
        let more = if bs[at] == 0 {
            acc.push(Ipv4OptionModel::EndOfOption)
        } else if bs[at] == 1 {
            acc.push(Ipv4OptionModel::NoOperation)
        } else {
            acc.push(
                Ipv4OptionModel::Other(bs[at], bs[at + 1], bs.subrange(at + 2, at + bs[at + 1])),
            )
        };
        assert forall|i: int| 0 <= i < more.len() implies !(#[trigger] more[i] is Dummy) by {
            if i < acc.len() {
                assert(more[i] == acc[i]);
            }
        }
        if bs[at] == 1 || (bs[at] != 0 && at + 2 <= end && bs[at + 1] >= 2 && next <= end) {
            lemma_options_stop(bs, next, end, more);
        }
    }
}

/// A header without options is twenty bytes long: the option list is empty
/// and the payload starts at byte 20.
pub proof fn lemma_plain_header_payload(bs: Seq<u8>)
    requires
        spec_ipv4_packet(bs) matches Ok((p, _)) && p.header.len == 5,
    ensures
        spec_ipv4_packet(bs) matches Ok((p, _)) && p.header.options.len() == 0 && p.body
            == bs.skip(20),
{
}

/// Whether the option bytes are used up at `at`.
fn test_eof(at: usize, end: usize) -> (r: bool)
    ensures
        r == (at >= end),
{
    at >= end
}

/// Decodes the options that stand between `at` and `end`.
pub fn parse_options<'a>(bs: &'a [u8], at: usize, end: usize) -> (r: Result<
    (Vec<Ipv4Option<'a>>, usize),
    DecodeError,
>)
    ensures
        match r {
            Ok((options, stop)) => spec_options_from(bs@, at as int, end as int, Seq::empty())
                == Ok::<(Seq<Ipv4OptionModel>, int), DecodeError>((views(options@), stop as int))
                && (at <= end <= bs@.len() ==> at <= stop <= end) && forall|i: int|
                0 <= i < options@.len() ==> !(#[trigger] options@[i] is Dummy),
            Err(e) => spec_options_from(bs@, at as int, end as int, Seq::empty()) == Err::<
                (Seq<Ipv4OptionModel>, int),
                DecodeError,
            >(e),
        },
{
    let mut options: Vec<Ipv4Option<'a>> = Vec::new();
    assert(views(options@) =~= Seq::<Ipv4OptionModel>::empty());
    if end > bs.len() {
        return Err(DecodeError::Incomplete);
    }
    let mut pos: usize = at;
    loop
        invariant
            end <= bs@.len(),
            at <= end ==> at <= pos <= end,
            forall|i: int| 0 <= i < options@.len() ==> !(#[trigger] options@[i] is Dummy),
            spec_options_from(bs@, pos as int, end as int, views(options@)) == spec_options_from(
                bs@,
                at as int,
                end as int,
                Seq::empty(),
            ),
        decreases end - pos,
    {
        if test_eof(pos, end) {
            return Ok((options, pos));
        }
        let class = bs[pos];
        if class == 0 {
            assert(views(options@.push(Ipv4Option::EndOfOption)) =~= views(options@).push(
                Ipv4OptionModel::EndOfOption,
            ));
            options.push(Ipv4Option::EndOfOption);
            return Ok((options, pos + 1));
        }
        if class == 1 {
            assert(views(options@.push(Ipv4Option::NoOperation)) =~= views(options@).push(
                Ipv4OptionModel::NoOperation,
            ));
            options.push(Ipv4Option::NoOperation);
            pos = pos + 1;
            continue ;
        }
        if end - pos < 2 {
            return Err(DecodeError::Incomplete);
        }
        let length = bs[pos + 1];
        if length < 2 {
            return Err(DecodeError::Malformed);
        }
        if end - pos < length as usize {
            return Err(DecodeError::Incomplete);
        }
        let data = take(bs, pos + 2, (length - 2) as usize)?;
        let opt = Ipv4Option::Other(class, length, data);
        assert(views(options@.push(opt)) =~= views(options@).push(opt@));
        options.push(opt);
        pos = pos + length as usize;
    }
}

/// Decodes the header that opens `bs`.
pub fn parse_ipv4_header<'a>(bs: &'a [u8]) -> (r: Result<(&'a [u8], Header<'a>), DecodeError>)
    ensures
        decoded(bs@, r, spec_ipv4_header(bs@)),
        r matches Ok((_, h)) ==> forall|i: int|
            0 <= i < h.options@.len() ==> !(#[trigger] h.options@[i] is Dummy),
{
    let first = read_u8(bs, 0)?;
    expect_bits(first / 16, 4)?;
    let len = first % 16;
    let second = read_u8(bs, 1)?;
    let total_len = read_u16(bs, 2)?;
    let id = read_u16(bs, 4)?;
    let seventh = read_u8(bs, 6)?;
    expect_bits(seventh / 128, 0)?;
    let fragment_off = read_u16(bs, 6)? % 0x2000;
    let ttl = read_u8(bs, 8)?;
    let proto = read_u8(bs, 9)?;
    let checksum = read_u16(bs, 10)?;
    let source = take(bs, 12, 4)?;
    let dst = take(bs, 16, 4)?;
    let (options, stop) = if len > 5 {
        parse_options(bs, 20, 4 * len as usize)?
    } else {
        (Vec::new(), 20)
    };
    assert(len <= 5 ==> views(options@) =~= Seq::<Ipv4OptionModel>::empty());
    Ok(
        (
            tail(bs, stop),
            Header {
                len,
                dscp: second / 4,
                ecn: second % 4,
                total_len,
                id,
                flags: Flags { df: (seventh / 64) % 2 == 1, mf: (seventh / 32) % 2 == 1 },
                fragment_off,
                ttl,
                proto: Ipv4Protocol::from_u8(proto),
                checksum,
                source_ip: source,
                dst_ip: dst,
                options,
            },
        ),
    )
}

/// Decodes the packet that `bs` holds. All of `bs` after the header is the
/// payload, so no input is left over.
pub fn parse_ipv4_packet<'a>(bs: &'a [u8]) -> (r: Result<(&'a [u8], Ipv4Packet<'a>), DecodeError>)
    ensures
        decoded(bs@, r, spec_ipv4_packet(bs@)),
{
    proof {
        lemma_header_fits(bs@);
    }
    let (_, header) = parse_ipv4_header(bs)?;
    Ok((tail(bs, bs.len()), Ipv4Packet { body: tail(bs, 4 * header.len as usize), header }))
}

} // verus!
