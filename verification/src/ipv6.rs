//! IPv6 packets: the fixed forty-byte header, the chain of extension headers
//! that the payload may open with, and what follows the chain.

use vstd::prelude::*;
use crate::ipv4::Ipv4Protocol;
use crate::wire::{
    agrees, copy_vec, decoded, expect_bits, read_u16, read_u32, read_u8, spec_be16, spec_be32, tail,
    take, views, DecodeError,
};

verus! {

/// What a next-header code announces: one of the four kinds of extension
/// header, the end of the chain with nothing after it, or the protocol of
/// the payload.
#[derive(Clone, Copy, Debug, PartialEq, Eq)]
pub enum Ipv6HeaderType {
    HopByHopOptions,
    Routing,
    Fragment,
    DestinationOptions,
    NoNext,
    Ipv4(Ipv4Protocol),
}

impl Ipv6HeaderType {
    /// What `from_u8` yields for the code `v`.
    pub open spec fn spec_from_u8(v: u8) -> Ipv6HeaderType {
        match v {
            0 => Ipv6HeaderType::HopByHopOptions,
            43 => Ipv6HeaderType::Routing,
            44 => Ipv6HeaderType::Fragment,
            60 => Ipv6HeaderType::DestinationOptions,
            59 => Ipv6HeaderType::NoNext,
            _ => Ipv6HeaderType::Ipv4(Ipv4Protocol::spec_from_u8(v)),
        }
    }

    /// What the next-header code `v` announces.
    pub fn from_u8(v: u8) -> (r: Ipv6HeaderType)
        ensures
            r == Self::spec_from_u8(v),
    {
        match v {
            0 => Ipv6HeaderType::HopByHopOptions,
            43 => Ipv6HeaderType::Routing,
            44 => Ipv6HeaderType::Fragment,
            60 => Ipv6HeaderType::DestinationOptions,
            59 => Ipv6HeaderType::NoNext,
            _ => Ipv6HeaderType::Ipv4(Ipv4Protocol::from_u8(v)),
        }
    }
}

/// Whether `ht` announces an extension header.
pub open spec fn spec_has_next_header(ht: Ipv6HeaderType) -> bool {
    !(ht is Ipv4 || ht is NoNext)
}

/// Whether `ht` announces an extension header, so that the chain goes on.
pub fn has_next_header(ht: Ipv6HeaderType) -> (r: bool)
    ensures
        r == spec_has_next_header(ht),
{
    match ht {
        Ipv6HeaderType::Ipv4(_) => false,
        Ipv6HeaderType::NoNext => false,
        _ => true,
    }
}

/// The fixed header. Each address is held as its eight 16-bit groups.
#[derive(Clone, Copy, Debug, PartialEq, Eq)]
pub struct Ipv6Header {
    pub traffic_class: u8,
    pub flow_label: u32,
    pub payload_length: u16,
    pub next_header: Ipv6HeaderType,
    pub hop_limit: u8,
    pub src_ip: [u16; 8],
    pub dst_ip: [u16; 8],
}

/// What an `Ipv6Header` holds.
pub struct Ipv6HeaderModel {
    pub traffic_class: u8,
    pub flow_label: u32,
    pub payload_length: u16,
    pub next_header: Ipv6HeaderType,
    pub hop_limit: u8,
    pub src_ip: Seq<u16>,
    pub dst_ip: Seq<u16>,
}

impl View for Ipv6Header {
    type V = Ipv6HeaderModel;

    open spec fn view(&self) -> Ipv6HeaderModel {
        Ipv6HeaderModel {
            traffic_class: self.traffic_class,
            flow_label: self.flow_label,
            payload_length: self.payload_length,
            next_header: self.next_header,
            hop_limit: self.hop_limit,
            src_ip: self.src_ip@,
            dst_ip: self.dst_ip@,
        }
    }
}

/// One option of a hop-by-hop or destination options header. `Dummy` marks
/// the end of the option bytes; it never appears in a decoded list.
#[derive(Clone, Copy, Debug, PartialEq, Eq)]
pub enum Ipv6Option<'a> {
    Opt(u8, u8, &'a [u8]),
    Padding0,
    Padding1,
    Dummy,
}

/// What an `Ipv6Option` holds.
pub enum Ipv6OptionModel {
    Opt(u8, u8, Seq<u8>),
    Padding0,
    Padding1,
    Dummy,
}

impl<'a> View for Ipv6Option<'a> {
    type V = Ipv6OptionModel;

    open spec fn view(&self) -> Ipv6OptionModel {
        match *self {
            Ipv6Option::Opt(typ, len, data) => Ipv6OptionModel::Opt(typ, len, data@),
            Ipv6Option::Padding0 => Ipv6OptionModel::Padding0,
            Ipv6Option::Padding1 => Ipv6OptionModel::Padding1,
            Ipv6Option::Dummy => Ipv6OptionModel::Dummy,
        }
    }
}

/// What an extension header holds, by its kind.
#[derive(Debug, PartialEq, Eq)]
pub enum Ipv6HeaderData<'a> {
    HopByHopOptions(Vec<Ipv6Option<'a>>),
    Routing(u8, u8, &'a [u8]),
    Fragment(u16, bool, u32),
    DestinationOptions(Vec<Ipv6Option<'a>>),
    NoNext,
}

/// What an `Ipv6HeaderData` holds.
pub enum Ipv6HeaderDataModel {
    HopByHopOptions(Seq<Ipv6OptionModel>),
    Routing(u8, u8, Seq<u8>),
    Fragment(u16, bool, u32),
    DestinationOptions(Seq<Ipv6OptionModel>),
    NoNext,
}

impl<'a> View for Ipv6HeaderData<'a> {
    type V = Ipv6HeaderDataModel;

    open spec fn view(&self) -> Ipv6HeaderDataModel {
        match *self {
            Ipv6HeaderData::HopByHopOptions(o) => Ipv6HeaderDataModel::HopByHopOptions(views(o@)),
            Ipv6HeaderData::Routing(t, s, d) => Ipv6HeaderDataModel::Routing(t, s, d@),
            Ipv6HeaderData::Fragment(o, l, i) => Ipv6HeaderDataModel::Fragment(o, l, i),
            Ipv6HeaderData::DestinationOptions(o) => Ipv6HeaderDataModel::DestinationOptions(
                views(o@),
            ),
            Ipv6HeaderData::NoNext => Ipv6HeaderDataModel::NoNext,
        }
    }
}

impl<'a> Clone for Ipv6HeaderData<'a> {
    fn clone(&self) -> (r: Self)
        ensures
            r@ == self@,
    {
        match self {
            Ipv6HeaderData::HopByHopOptions(o) => Ipv6HeaderData::HopByHopOptions(copy_vec(o)),
            Ipv6HeaderData::Routing(t, s, d) => Ipv6HeaderData::Routing(*t, *s, *d),
            Ipv6HeaderData::Fragment(o, l, i) => Ipv6HeaderData::Fragment(*o, *l, *i),
            Ipv6HeaderData::DestinationOptions(o) => Ipv6HeaderData::DestinationOptions(
                copy_vec(o),
            ),
            Ipv6HeaderData::NoNext => Ipv6HeaderData::NoNext,
        }
    }
}

impl Ipv6HeaderDataModel {
    /// The next-header code under which an extension of this kind stands in
    /// a chain.
    pub open spec fn kind(self) -> Ipv6HeaderType {
        match self {
            Ipv6HeaderDataModel::HopByHopOptions(_) => Ipv6HeaderType::HopByHopOptions,
            Ipv6HeaderDataModel::Routing(_, _, _) => Ipv6HeaderType::Routing,
            Ipv6HeaderDataModel::Fragment(_, _, _) => Ipv6HeaderType::Fragment,
            Ipv6HeaderDataModel::DestinationOptions(_) => Ipv6HeaderType::DestinationOptions,
            Ipv6HeaderDataModel::NoNext => Ipv6HeaderType::NoNext,
        }
    }
}

/// One extension header: what it holds, its length field, and what its
/// next-header field announces.
#[derive(Debug, PartialEq, Eq)]
pub struct Ipv6Extension<'a> {
    pub inner: Ipv6HeaderData<'a>,
    pub len: u8,
    pub next_header: Ipv6HeaderType,
}

/// What an `Ipv6Extension` holds.
pub struct Ipv6ExtensionModel {
    pub inner: Ipv6HeaderDataModel,
    pub len: u8,
    pub next_header: Ipv6HeaderType,
}

impl<'a> View for Ipv6Extension<'a> {
    type V = Ipv6ExtensionModel;

    open spec fn view(&self) -> Ipv6ExtensionModel {
        Ipv6ExtensionModel { inner: self.inner@, len: self.len, next_header: self.next_header }
    }
}

impl<'a> Clone for Ipv6Extension<'a> {
    fn clone(&self) -> (r: Self)
        ensures
            r@ == self@,
    {
        Ipv6Extension {
            inner: self.inner.clone(),
            len: self.len,
            next_header: self.next_header,
        }
    }
}

/// A decoded packet: the fixed header, the extension headers in chain order,
/// and the part of the payload that follows them.
#[derive(Debug, PartialEq, Eq)]
pub struct Ipv6Packet<'a> {
    pub header: Ipv6Header,
    pub extensions: Vec<Ipv6Extension<'a>>,
    pub body: &'a [u8],
}

/// What an `Ipv6Packet` holds.
pub struct Ipv6PacketModel {
    pub header: Ipv6HeaderModel,
    pub extensions: Seq<Ipv6ExtensionModel>,
    pub body: Seq<u8>,
}

impl<'a> View for Ipv6Packet<'a> {
    type V = Ipv6PacketModel;

    open spec fn view(&self) -> Ipv6PacketModel {
        Ipv6PacketModel {
            header: self.header@,
            extensions: views(self.extensions@),
            body: self.body@,
        }
    }
}

/// The eight 16-bit groups of the address whose sixteen bytes start at `at`.
pub open spec fn spec_addr(bs: Seq<u8>, at: int) -> Seq<u16> {
    Seq::new(8, |i: int| spec_be16(bs, at + 2 * i))
}

/// The 16-bit number with `x` as its high byte and `y` as its low byte.
fn pair(x: u8, y: u8) -> (r: u16)
    ensures
        r == x as int * 0x100 + y as int,
{
    x as u16 * 0x100 + y as u16
}

/// The eight 16-bit groups of the address that the first sixteen bytes of
/// `ip` spell.
pub fn slice2addr(ip: &[u8]) -> (r: [u16; 8])
    requires
        ip@.len() >= 16,
    ensures
        r@ == spec_addr(ip@, 0),
{
    let r = [
        pair(ip[0], ip[1]),
        pair(ip[2], ip[3]),
        pair(ip[4], ip[5]),
        pair(ip[6], ip[7]),
        pair(ip[8], ip[9]),
        pair(ip[10], ip[11]),
        pair(ip[12], ip[13]),
        pair(ip[14], ip[15]),
    ];
    assert(r@ =~= spec_addr(ip@, 0));
    r
}

/// The fixed header that opens `bs`, and the position after it. The version
/// must be 6; it is checked as soon as the first byte is present.
pub open spec fn spec_ipv6_header(bs: Seq<u8>) -> Result<(Ipv6HeaderModel, int), DecodeError> {
    if bs.len() < 1 {
        Err(DecodeError::Incomplete)
    } else if bs[0] / 16 != 6 {
        Err(DecodeError::Malformed)
    } else if bs.len() < 40 {
        Err(DecodeError::Incomplete)
    } else {
        Ok(
            (
                Ipv6HeaderModel {
                    traffic_class: ((bs[0] % 16) * 16 + bs[1] / 16) as u8,
                    flow_label: ((bs[1] % 16) * 0x1_0000 + spec_be16(bs, 2)) as u32,
                    payload_length: spec_be16(bs, 4),
                    next_header: Ipv6HeaderType::spec_from_u8(bs[6]),
                    hop_limit: bs[7],
                    src_ip: spec_addr(bs, 8),
                    dst_ip: spec_addr(bs, 24),
                },
                40,
            ),
        )
    }
}

/// The options that fill `bs` from `at` to its end, after those of `acc`. A
/// zero byte is a lone byte of padding. Any other byte is followed by a
/// length byte that counts the whole option, and by the bytes that the
/// length leaves after those two: the option is padding if its first byte is
/// one, and kept with its bytes otherwise. A length below two is not
/// accepted.
pub open spec fn spec_options_from(bs: Seq<u8>, at: int, acc: Seq<Ipv6OptionModel>) -> Result<
    Seq<Ipv6OptionModel>,
    DecodeError,
>
    decreases bs.len() - at,
{
    if at < 0 || at >= bs.len() {
        Ok(acc)
    } else if bs[at] == 0 {
        spec_options_from(bs, at + 1, acc.push(Ipv6OptionModel::Padding0))
    } else if at + 2 > bs.len() {
        Err(DecodeError::Incomplete)
    } else if bs[at + 1] < 2 {
        Err(DecodeError::Malformed)
    } else if at + bs[at + 1] > bs.len() {
        Err(DecodeError::Incomplete)
    } else if bs[at] == 1 {
        spec_options_from(bs, at + bs[at + 1], acc.push(Ipv6OptionModel::Padding1))
    } else {
        spec_options_from(
            bs,
            at + bs[at + 1],
            acc.push(
                Ipv6OptionModel::Opt(bs[at], bs[at + 1], bs.subrange(at + 2, at + bs[at + 1])),
            ),
        )
    }
}

/// The options that the first `len` bytes of `bs` hold, or all of `bs` where
/// it is shorter.
pub open spec fn spec_options(bs: Seq<u8>, len: int) -> Result<Seq<Ipv6OptionModel>, DecodeError> {
    if len < 0 {
        Err(DecodeError::Incomplete)
    } else if len <= bs.len() {
        spec_options_from(bs.take(len), 0, Seq::empty())
    } else {
        spec_options_from(bs, 0, Seq::empty())
    }
}

/// The extension header of the kind `ht` that starts at `at`, and the
/// position after it. A hop-by-hop or destination options header and a
/// routing header take eight bytes and eight more for each unit of their
/// length field; a fragment header takes eight bytes, and its length is
/// given as 2. Of a fragment header's 16-bit field the upper thirteen bits
/// are the offset and the lowest bit is the flag. A kind that is no
/// extension header has no decoding.
pub open spec fn spec_extension(bs: Seq<u8>, at: int, ht: Ipv6HeaderType) -> Result<
    (Ipv6ExtensionModel, int),
    DecodeError,
> {
    if at < 0 {
        Err(DecodeError::Incomplete)
    } else {
        match ht {
            Ipv6HeaderType::HopByHopOptions => spec_options_header(bs, at, true),
            Ipv6HeaderType::DestinationOptions => spec_options_header(bs, at, false),
            Ipv6HeaderType::Routing => if at + 4 > bs.len() || at + 8 * bs[at + 1] + 8
                > bs.len() {
                Err(DecodeError::Incomplete)
            } else {
                Ok(
                    (
                        Ipv6ExtensionModel {
                            inner: Ipv6HeaderDataModel::Routing(
                                bs[at + 2],
                                bs[at + 3],
                                bs.subrange(at + 4, at + 8 * bs[at + 1] + 8),
                            ),
                            len: bs[at + 1],
                            next_header: Ipv6HeaderType::spec_from_u8(bs[at]),
                        },
                        at + 8 * bs[at + 1] + 8,
                    ),
                )
            },
            Ipv6HeaderType::Fragment => if at + 8 > bs.len() {
                Err(DecodeError::Incomplete)
            } else {
                Ok(
                    (
                        Ipv6ExtensionModel {
                            inner: Ipv6HeaderDataModel::Fragment(
                                (spec_be16(bs, at + 2) / 8) as u16,
                                spec_be16(bs, at + 2) % 2 == 1,
                                spec_be32(bs, at + 4),
                            ),
                            len: 2,
                            next_header: Ipv6HeaderType::spec_from_u8(bs[at]),
                        },
                        at + 8,
                    ),
                )
            },
            Ipv6HeaderType::NoNext => Err(DecodeError::Malformed),
            Ipv6HeaderType::Ipv4(_) => Err(DecodeError::Malformed),
        }
    }
}

/// The hop-by-hop (`hop`) or destination options header that starts at `at`.
/// Its options are decoded from the bytes that the length field counts, as
/// far as they are present, before the header is found to be cut short.
pub open spec fn spec_options_header(bs: Seq<u8>, at: int, hop: bool) -> Result<
    (Ipv6ExtensionModel, int),
    DecodeError,
> {
    if at < 0 || at + 2 > bs.len() {
        Err(DecodeError::Incomplete)
    } else {
        match spec_options(bs.skip(at + 2), 8 * bs[at + 1] + 6) {
            Err(e) => Err(e),
            Ok(options) => if at + 8 * bs[at + 1] + 8 > bs.len() {
                Err(DecodeError::Incomplete)
            } else {
                Ok(
                    (
                        Ipv6ExtensionModel {
                            inner: if hop {
                                Ipv6HeaderDataModel::HopByHopOptions(options)
                            } else {
                                Ipv6HeaderDataModel::DestinationOptions(options)
                            },
                            len: bs[at + 1],
                            next_header: Ipv6HeaderType::spec_from_u8(bs[at]),
                        },
                        at + 8 * bs[at + 1] + 8,
                    ),
                )
            },
        }
    }
}

/// The chain of extension headers that starts at `at` with one of the kind
/// `ht`, after those of `acc`, and the position after the chain. Each
/// header announces the kind of the next; the chain ends with the first
/// announcement of something that is no extension header.
pub open spec fn spec_extensions_from(
    bs: Seq<u8>,
    at: int,
    ht: Ipv6HeaderType,
    acc: Seq<Ipv6ExtensionModel>,
) -> Result<(Seq<Ipv6ExtensionModel>, int), DecodeError>
    decreases bs.len() - at,
{
    if !spec_has_next_header(ht) {
        Ok((acc, at))
    } else {
        match spec_extension(bs, at, ht) {
            Err(e) => Err(e),
            Ok((ext, next)) => spec_extensions_from(bs, next, ext.next_header, acc.push(ext)),
        }
    }
}

/// The chain of extension headers that opens `bs`, the first of the kind
/// `ht`.
pub open spec fn spec_extensions(bs: Seq<u8>, ht: Ipv6HeaderType) -> Result<
    (Seq<Ipv6ExtensionModel>, int),
    DecodeError,
> {
    spec_extensions_from(bs, 0, ht, Seq::empty())
}

/// The packet that `bs` opens with, and the position after it. The payload
/// is as many bytes after the fixed header as the header's payload length
/// says; the chain of extension headers is decoded from the payload alone,
/// and the body is what the chain leaves of it.
pub open spec fn spec_ipv6_packet(bs: Seq<u8>) -> Result<(Ipv6PacketModel, int), DecodeError> {
    match spec_ipv6_header(bs) {
        Err(e) => Err(e),
        Ok((header, _)) => if 40 + header.payload_length > bs.len() {
            Err(DecodeError::Incomplete)
        } else {
            let payload = bs.subrange(40, 40 + header.payload_length);
            match spec_extensions(payload, header.next_header) {
                Err(e) => Err(e),
                Ok((extensions, stop)) => Ok(
                    (
                        Ipv6PacketModel { header, extensions, body: payload.skip(stop) },
                        40 + header.payload_length,
                    ),
                ),
            }
        },
    }
}

/// Whether a list of extension headers is a chain that starts with the kind
/// `first`: the first header is of that kind, every later one of the kind
/// that the header before it announces, and what the last one announces, or
/// `first` where there is no header, is no extension header.
pub open spec fn is_chain(first: Ipv6HeaderType, exts: Seq<Ipv6ExtensionModel>) -> bool {
    &&& forall|i: int|
        0 <= i < exts.len() ==> (#[trigger] exts[i]).inner.kind() == if i == 0 {
            first
        } else {
            exts[i - 1].next_header
        }
    &&& forall|i: int|
        0 <= i < exts.len() ==> spec_has_next_header((#[trigger] exts[i]).inner.kind())
    &&& !spec_has_next_header(
        if exts.len() == 0 {
            first
        } else {
            exts.last().next_header
        },
    )
}

/// What announces the header after the last one of `acc`, or the first one
/// where `acc` is empty.
pub open spec fn announced(first: Ipv6HeaderType, acc: Seq<Ipv6ExtensionModel>) -> Ipv6HeaderType {
    if acc.len() == 0 {
        first
    } else {
        acc.last().next_header
    }
}

/// Decoding a chain adds exactly one header for each link: a list that is a
/// chain up to the kind `ht` still to come is, after decoding, a chain as a
/// whole, and decoding ends after its start and inside the buffer.
pub proof fn lemma_extensions_chain(
    bs: Seq<u8>,
    at: int,
    ht: Ipv6HeaderType,
    first: Ipv6HeaderType,
    acc: Seq<Ipv6ExtensionModel>,
)
    requires
        0 <= at <= bs.len(),
        ht == announced(first, acc),
        forall|i: int|
            0 <= i < acc.len() ==> (#[trigger] acc[i]).inner.kind() == if i == 0 {
                first
            } else {
                acc[i - 1].next_header
            },
        forall|i: int|
            0 <= i < acc.len() ==> spec_has_next_header((#[trigger] acc[i]).inner.kind()),
    ensures
        spec_extensions_from(bs, at, ht, acc) matches Ok((exts, stop)) ==> is_chain(first, exts)
            && at <= stop <= bs.len(),
    decreases bs.len() - at,
{
    if spec_has_next_header(ht) {
        if let Ok((ext, next)) = spec_extension(bs, at, ht) {
            let more = acc.push(ext);
            assert forall|i: int| 0 <= i < more.len() implies (#[trigger] more[i]).inner.kind()
                == if i == 0 {
                first
            } else {
                more[i - 1].next_header
            } by {
                if i < acc.len() {
                    assert(more[i] == acc[i]);
                }
            }
            assert forall|i: int| 0 <= i < more.len() implies spec_has_next_header(
                (#[trigger] more[i]).inner.kind(),
            ) by {
                if i < acc.len() {
                    assert(more[i] == acc[i]);
                }
            }
            lemma_extensions_chain(bs, next, ext.next_header, first, more);
        }
    }
}

/// The extension headers of a decoded packet are a chain that starts with
/// the kind that the fixed header announces: one header for each link, none
/// left out and none added.
pub proof fn lemma_packet_chain(bs: Seq<u8>)
    ensures
        spec_ipv6_packet(bs) matches Ok((p, _)) ==> is_chain(p.header.next_header, p.extensions),
{
    if let Ok((header, _)) = spec_ipv6_header(bs) {
        if 40 + header.payload_length <= bs.len() {
            let payload = bs.subrange(40, 40 + header.payload_length);
            lemma_extensions_chain(
                payload,
                0,
                header.next_header,
                header.next_header,
                Seq::empty(),
            );
        }
    }
}

/// A decoded option list holds no `Dummy`.
pub proof fn lemma_options_hold_no_marker(bs: Seq<u8>, at: int, acc: Seq<Ipv6OptionModel>)
    requires
        forall|i: int| 0 <= i < acc.len() ==> !(#[trigger] acc[i] is Dummy),
    ensures
        spec_options_from(bs, at, acc) matches Ok(l) ==> forall|i: int|
            0 <= i < l.len() ==> !(#[trigger] l[i] is Dummy),
    decreases bs.len() - at,
{
    if 0 <= at < bs.len() {
        let next = if bs[at] == 0 {
            at + 1
        } else {
            at + bs[at + 1]
        };
        let more = if bs[at] == 0 {
            acc.push(Ipv6OptionModel::Padding0)
        } else if bs[at] == 1 {
            acc.push(Ipv6OptionModel::Padding1)
        } else {
            acc.push(
                Ipv6OptionModel::Opt(bs[at], bs[at + 1], bs.subrange(at + 2, at + bs[at + 1])),
            )
        };
        assert forall|i: int| 0 <= i < more.len() implies !(#[trigger] more[i] is Dummy) by {
            if i < acc.len() {
                assert(more[i] == acc[i]);
            }
        }
        if bs[at] == 0 || (at + 2 <= bs.len() && bs[at + 1] >= 2 && next <= bs.len()) {
            lemma_options_hold_no_marker(bs, next, more);
        }
    }
}

/// Whether the option bytes are used up at `at`.
fn eoo_check(bs: &[u8], at: usize) -> (r: bool)
    ensures
        r == (at >= bs@.len()),
{
    at >= bs.len()
}

/// Decodes the options that the first `len` bytes of `bs` hold, or all of
/// `bs` where it is shorter.
pub fn parse_options<'a>(bs: &'a [u8], len: usize) -> (r: Result<Vec<Ipv6Option<'a>>, DecodeError>)
    ensures
        match r {
            Ok(options) => spec_options(bs@, len as int) == Ok::<
                Seq<Ipv6OptionModel>,
                DecodeError,
            >(views(options@)),
            Err(e) => spec_options(bs@, len as int) == Err::<Seq<Ipv6OptionModel>, DecodeError>(e),
        },
        r matches Ok(options) ==> forall|i: int|
            0 <= i < options@.len() ==> !(#[trigger] options@[i] is Dummy),
{
    let span = if len <= bs.len() {
        take(bs, 0, len)?
    } else {
        bs
    };
    assert(len <= bs@.len() ==> span@ == bs@.take(len as int));
    let mut options: Vec<Ipv6Option<'a>> = Vec::new();
    let mut pos: usize = 0;
    assert(views(options@) =~= Seq::<Ipv6OptionModel>::empty());
    loop
        invariant
            pos <= span@.len(),
            forall|i: int| 0 <= i < options@.len() ==> !(#[trigger] options@[i] is Dummy),
            spec_options_from(span@, pos as int, views(options@)) == spec_options(
                bs@,
                len as int,
            ),
        decreases span@.len() - pos,
    {
        if eoo_check(span, pos) {
            return Ok(options);
        }
        let typ = span[pos];
        if typ == 0 {
            assert(views(options@.push(Ipv6Option::Padding0)) =~= views(options@).push(
                Ipv6OptionModel::Padding0,
            ));
            options.push(Ipv6Option::Padding0);
            pos = pos + 1;
            continue ;
        }
        let len = read_u8(span, pos + 1)?;
        if len < 2 {
            return Err(DecodeError::Malformed);
        }
        let data = take(span, pos + 2, (len - 2) as usize)?;
        let opt = if typ == 1 {
            Ipv6Option::Padding1
        } else {
            Ipv6Option::Opt(typ, len, data)
        };
        assert(views(options@.push(opt)) =~= views(options@).push(opt@));
        options.push(opt);
        pos = pos + len as usize;
    }
}

/// Decodes the hop-by-hop (`hop`) or destination options header that starts
/// at `at`.
fn parse_options_header<'a>(bs: &'a [u8], at: usize, hop: bool) -> (r: Result<
    (Ipv6Extension<'a>, usize),
    DecodeError,
>)
    ensures
        agrees(r, spec_options_header(bs@, at as int, hop)),
{
    let next_header = read_u8(bs, at)?;
    let len = read_u8(bs, at + 1)?;
    let need = 8 * len as usize + 6;
    let options = parse_options(tail(bs, at + 2), need)?;
    take(bs, at + 2, need)?;
    let inner = if hop {
        Ipv6HeaderData::HopByHopOptions(options)
    } else {
        Ipv6HeaderData::DestinationOptions(options)
    };
    Ok(
        (
            Ipv6Extension { inner, len, next_header: Ipv6HeaderType::from_u8(next_header) },
            at + 2 + need,
        ),
    )
}

/// Decodes the hop-by-hop options header that starts at `at`.
fn parse_hop<'a>(bs: &'a [u8], at: usize) -> (r: Result<(Ipv6Extension<'a>, usize), DecodeError>)
    ensures
        agrees(r, spec_extension(bs@, at as int, Ipv6HeaderType::HopByHopOptions)),
{
    parse_options_header(bs, at, true)
}

/// Decodes the destination options header that starts at `at`.
fn parse_destination<'a>(bs: &'a [u8], at: usize) -> (r: Result<
    (Ipv6Extension<'a>, usize),
    DecodeError,
>)
    ensures
        agrees(r, spec_extension(bs@, at as int, Ipv6HeaderType::DestinationOptions)),
{
    parse_options_header(bs, at, false)
}

/// Decodes the routing header that starts at `at`.
fn parse_routing<'a>(bs: &'a [u8], at: usize) -> (r: Result<
    (Ipv6Extension<'a>, usize),
    DecodeError,
>)
    ensures
        agrees(r, spec_extension(bs@, at as int, Ipv6HeaderType::Routing)),
{
    let next_header = read_u8(bs, at)?;
    let len = read_u8(bs, at + 1)?;
    let routing_type = read_u8(bs, at + 2)?;
    let segments_left = read_u8(bs, at + 3)?;
    let need = 8 * len as usize + 4;
    let routing_data = take(bs, at + 4, need)?;
    Ok(
        (
            Ipv6Extension {
                inner: Ipv6HeaderData::Routing(routing_type, segments_left, routing_data),
                len,
                next_header: Ipv6HeaderType::from_u8(next_header),
            },
            at + 4 + need,
        ),
    )
}

/// Decodes the fragment header that starts at `at`.
fn parse_fragment<'a>(bs: &'a [u8], at: usize) -> (r: Result<
    (Ipv6Extension<'a>, usize),
    DecodeError,
>)
    ensures
        agrees(r, spec_extension(bs@, at as int, Ipv6HeaderType::Fragment)),
{
    let next_header = read_u8(bs, at)?;
    let _ = read_u8(bs, at + 1)?;
    let field = read_u16(bs, at + 2)?;
    let id = read_u32(bs, at + 4)?;
    Ok(
        (
            Ipv6Extension {
                inner: Ipv6HeaderData::Fragment(field / 8, field % 2 == 1, id),
                len: 2,
                next_header: Ipv6HeaderType::from_u8(next_header),
            },
            at + 8,
        ),
    )
}

/// Decodes the extension header of the kind `header_type` that starts at
/// `at`.
pub fn parse_ipv6_extension<'a>(bs: &'a [u8], at: usize, header_type: Ipv6HeaderType) -> (r: Result<
    (Ipv6Extension<'a>, usize),
    DecodeError,
>)
    ensures
        agrees(r, spec_extension(bs@, at as int, header_type)),
{
    match header_type {
        Ipv6HeaderType::HopByHopOptions => parse_hop(bs, at),
        Ipv6HeaderType::Routing => parse_routing(bs, at),
        Ipv6HeaderType::Fragment => parse_fragment(bs, at),
        Ipv6HeaderType::DestinationOptions => parse_destination(bs, at),
        Ipv6HeaderType::NoNext => Err(DecodeError::Malformed),
        Ipv6HeaderType::Ipv4(_) => Err(DecodeError::Malformed),
    }
}

/// Decodes the chain of extension headers that opens `bs`, the first of the
/// kind `header_type`. The chain that comes out has one header for each
/// link.
pub fn parse_extensions<'a>(bs: &'a [u8], header_type: Ipv6HeaderType) -> (r: Result<
    (&'a [u8], Vec<Ipv6Extension<'a>>),
    DecodeError,
>)
    ensures
        match r {
            Ok((rest, exts)) => spec_extensions(bs@, header_type) matches Ok((m, stop)) && views(
                exts@,
            ) == m && rest@ == bs@.skip(stop) && is_chain(header_type, m),
            Err(e) => spec_extensions(bs@, header_type) == Err::<
                (Seq<Ipv6ExtensionModel>, int),
                DecodeError,
            >(e),
        },
{
    let mut ret: Vec<Ipv6Extension<'a>> = Vec::new();
    let mut pos: usize = 0;
    let mut ht = header_type;
    proof {
        assert(views(ret@) =~= Seq::<Ipv6ExtensionModel>::empty());
        lemma_extensions_chain(bs@, 0, header_type, header_type, Seq::empty());
    }
    while has_next_header(ht)
        invariant
            pos <= bs@.len(),
            spec_extensions_from(bs@, pos as int, ht, views(ret@)) == spec_extensions(
                bs@,
                header_type,
            ),
            spec_extensions(bs@, header_type) matches Ok((m, stop)) ==> is_chain(header_type, m)
                && stop <= bs@.len(),
        decreases bs@.len() - pos,
    {
        let (extension, next) = parse_ipv6_extension(bs, pos, ht)?;
        assert(views(ret@.push(extension)) =~= views(ret@).push(extension@));
        ht = extension.next_header;
        ret.push(extension);
        pos = next;
    }
    Ok((tail(bs, pos), ret))
}

/// Decodes the fixed header that opens `bs`.
pub fn parse_ipv6_header<'a>(bs: &'a [u8]) -> (r: Result<(&'a [u8], Ipv6Header), DecodeError>)
    ensures
        decoded(bs@, r, spec_ipv6_header(bs@)),
{
    let first = read_u8(bs, 0)?;
    expect_bits(first / 16, 6)?;
    let second = read_u8(bs, 1)?;
    let low = read_u16(bs, 2)?;
    let payload_length = read_u16(bs, 4)?;
    let next_header = read_u8(bs, 6)?;
    let hop_limit = read_u8(bs, 7)?;
    let src = take(bs, 8, 16)?;
    let dst = take(bs, 24, 16)?;
    let src_ip = slice2addr(src);
    let dst_ip = slice2addr(dst);
    proof {
        assert(src_ip@ =~= spec_addr(bs@, 8));
        assert(dst_ip@ =~= spec_addr(bs@, 24));
    }
    Ok(
        (
            tail(bs, 40),
            Ipv6Header {
                traffic_class: (first % 16) * 16 + second / 16,
                flow_label: (second % 16) as u32 * 0x1_0000 + low as u32,
                payload_length,
                next_header: Ipv6HeaderType::from_u8(next_header),
                hop_limit,
                src_ip,
                dst_ip,
            },
        ),
    )
}

/// Decodes the packet that `bs` opens with.
pub fn parse_ipv6_packet<'a>(bs: &'a [u8]) -> (r: Result<(&'a [u8], Ipv6Packet<'a>), DecodeError>)
    ensures
        decoded(bs@, r, spec_ipv6_packet(bs@)),
        r matches Ok((_, p)) ==> is_chain(p.header.next_header, views(p.extensions@)),
{
    let (_, header) = parse_ipv6_header(bs)?;
    let payload = take(bs, 40, header.payload_length as usize)?;
    let (body, extensions) = parse_extensions(payload, header.next_header)?;
    Ok((tail(bs, 40 + header.payload_length as usize), Ipv6Packet { header, extensions, body }))
}

impl<'a> Clone for Ipv6Packet<'a> {
    fn clone(&self) -> (r: Self)
        ensures
            r@ == self@,
    {
        let r = Ipv6Packet {
            header: self.header,
            extensions: self.extensions.clone(),
            body: self.body,
        };
        assert(views(r.extensions@) =~= views(self.extensions@));
        r
    }
}

} // verus!
