//! TCP segments: the fixed twenty-byte header, the options that the data
//! offset makes room for, and the payload.

use vstd::prelude::*;
use crate::wire::{
    copy_vec, expect_bits, read_u16, read_u32, read_u8, spec_be16, spec_be32, tail, take, views,
    yields, DecodeError,
};

verus! {

/// The data offset and the nine control bits, each as the number that its
/// bits spell.
#[derive(Clone, Copy, Debug, PartialEq, Eq)]
pub struct Bits {
    pub offset: u8,
    pub ns: u8,
    pub cwr: u8,
    pub ece: u8,
    pub urg: u8,
    pub ack: u8,
    pub psh: u8,
    pub rst: u8,
    pub syn: u8,
    pub fin: u8,
}

/// The data offset, in 32-bit words, and the nine control bits.
#[derive(Clone, Copy, Debug, PartialEq, Eq)]
pub struct TcpFlags {
    pub offset: u8,
    pub ns: bool,
    pub cwr: bool,
    pub ece: bool,
    pub urg: bool,
    pub ack: bool,
    pub psh: bool,
    pub rst: bool,
    pub syn: bool,
    pub fin: bool,
}

impl TcpFlags {
    /// What `from_bits` yields for the bit fields `bits`.
    pub open spec fn spec_from_bits(bits: Bits) -> TcpFlags {
        TcpFlags {
            offset: bits.offset,
            ns: bits.ns == 1,
            cwr: bits.cwr == 1,
            ece: bits.ece == 1,
            urg: bits.urg == 1,
            ack: bits.ack == 1,
            psh: bits.psh == 1,
            rst: bits.rst == 1,
            syn: bits.syn == 1,
            fin: bits.fin == 1,
        }
    }

    /// The flags that the bit fields spell: a flag is set when its field is 1.
    pub fn from_bits(bits: Bits) -> (r: TcpFlags)
        ensures
            r == Self::spec_from_bits(bits),
    {
        TcpFlags {
            offset: bits.offset,
            fin: bits.fin == 1,
            syn: bits.syn == 1,
            rst: bits.rst == 1,
            psh: bits.psh == 1,
            ack: bits.ack == 1,
            urg: bits.urg == 1,
            ece: bits.ece == 1,
            cwr: bits.cwr == 1,
            ns: bits.ns == 1,
        }
    }
}

/// One entry of the option list. `DummyOption` marks the end of the option
/// bytes where no end-of-list option stands; it never appears in a decoded
/// list. `MD5` has no shape of its own in the grammar: a signature option is
/// decoded as `Other`, like every option without a fixed shape.
#[derive(Clone, Copy, Debug, PartialEq, Eq)]
pub enum TcpOption<'a> {
    DummyOption,
    EndOfOptionList,
    NoOperation,
    MaximumSegmentSize(u16),
    WindowScale(u8),
    Timestamps(u32, u32),
    MD5(&'a [u8]),
    Other(u8, u8, &'a [u8]),
}

/// What a `TcpOption` holds.
pub enum TcpOptionModel {
    DummyOption,
    EndOfOptionList,
    NoOperation,
    MaximumSegmentSize(u16),
    WindowScale(u8),
    Timestamps(u32, u32),
    MD5(Seq<u8>),
    Other(u8, u8, Seq<u8>),
}

impl<'a> View for TcpOption<'a> {
    type V = TcpOptionModel;

    open spec fn view(&self) -> TcpOptionModel {
        match *self {
            TcpOption::DummyOption => TcpOptionModel::DummyOption,
            TcpOption::EndOfOptionList => TcpOptionModel::EndOfOptionList,
            TcpOption::NoOperation => TcpOptionModel::NoOperation,
            TcpOption::MaximumSegmentSize(s) => TcpOptionModel::MaximumSegmentSize(s),
            TcpOption::WindowScale(s) => TcpOptionModel::WindowScale(s),
            TcpOption::Timestamps(v, e) => TcpOptionModel::Timestamps(v, e),
            TcpOption::MD5(d) => TcpOptionModel::MD5(d@),
            TcpOption::Other(k, l, d) => TcpOptionModel::Other(k, l, d@),
        }
    }
}

/// A decoded segment.
#[derive(Debug, PartialEq, Eq)]
pub struct TcpPacket<'a> {
    pub src: u16,
    pub dst: u16,
    pub seq: u32,
    pub ack: u32,
    pub flags: TcpFlags,
    pub window_sz: u16,
    pub checksum: u16,
    pub urgent: u16,
    pub options: Vec<TcpOption<'a>>,
    pub body: &'a [u8],
}

/// What a `TcpPacket` holds.
pub struct TcpPacketModel {
    pub src: u16,
    pub dst: u16,
    pub seq: u32,
    pub ack: u32,
    pub flags: TcpFlags,
    pub window_sz: u16,
    pub checksum: u16,
    pub urgent: u16,
    pub options: Seq<TcpOptionModel>,
    pub body: Seq<u8>,
}

impl<'a> View for TcpPacket<'a> {
    type V = TcpPacketModel;

    open spec fn view(&self) -> TcpPacketModel {
        TcpPacketModel {
            src: self.src,
            dst: self.dst,
            seq: self.seq,
            ack: self.ack,
            flags: self.flags,
            window_sz: self.window_sz,
            checksum: self.checksum,
            urgent: self.urgent,
            options: views(self.options@),
            body: self.body@,
        }
    }
}

impl<'a> Clone for TcpPacket<'a> {
    fn clone(&self) -> (r: Self)
        ensures
            r@ == self@,
    {
        TcpPacket {
            src: self.src,
            dst: self.dst,
            seq: self.seq,
            ack: self.ack,
            flags: self.flags,
            window_sz: self.window_sz,
            checksum: self.checksum,
            urgent: self.urgent,
            options: copy_vec(&self.options),
            body: self.body,
        }
    }
}

/// The option that starts at `at`, where the list does not end there. A
/// byte of one is a lone no-operation option. Any other byte is followed by a
/// length byte that counts the whole option. Three options have a fixed
/// shape when their length is the one that the shape needs: the maximum
/// segment size (2, with length 4), the window scale (3, with length 3) and
/// the timestamps (8, with length 10). Any other option is kept with its
/// bytes as they are. A length below the two bytes that the option has
/// already taken is not accepted.
pub open spec fn spec_known_option(bs: Seq<u8>, at: int) -> Result<
    (TcpOptionModel, int),
    DecodeError,
> {
    if at < 0 || at >= bs.len() {
        Err(DecodeError::Incomplete)
    } else if bs[at] == 1 {
        Ok((TcpOptionModel::NoOperation, at + 1))
    } else if at + 2 > bs.len() {
        Err(DecodeError::Incomplete)
    } else if bs[at] == 2 && bs[at + 1] == 4 {
        if at + 4 > bs.len() {
            Err(DecodeError::Incomplete)
        } else {
            Ok((TcpOptionModel::MaximumSegmentSize(spec_be16(bs, at + 2)), at + 4))
        }
    } else if bs[at] == 3 && bs[at + 1] == 3 {
        if at + 3 > bs.len() {
            Err(DecodeError::Incomplete)
        } else {
            Ok((TcpOptionModel::WindowScale(bs[at + 2]), at + 3))
        }
    } else if bs[at] == 8 && bs[at + 1] == 10 {
        if at + 10 > bs.len() {
            Err(DecodeError::Incomplete)
        } else {
            Ok((TcpOptionModel::Timestamps(spec_be32(bs, at + 2), spec_be32(bs, at + 6)), at + 10))
        }
    } else if bs[at + 1] < 2 {
        Err(DecodeError::Malformed)
    } else if at + bs[at + 1] > bs.len() {
        Err(DecodeError::Incomplete)
    } else {
        Ok(
            (
                TcpOptionModel::Other(bs[at], bs[at + 1], bs.subrange(at + 2, at + bs[at + 1])),
                at + bs[at + 1],
            ),
        )
    }
}

/// The options that stand in `bs` from `at` on, after those of `acc`, and
/// the position after them. The list ends with an end-of-list option, a
/// zero byte, which is part of it, or where `bs` ends.
pub open spec fn spec_options_from(bs: Seq<u8>, at: int, acc: Seq<TcpOptionModel>) -> Result<
    (Seq<TcpOptionModel>, int),
    DecodeError,
>
    decreases bs.len() - at,
{
    if at < 0 || at >= bs.len() {
        Ok((acc, at))
    } else if bs[at] == 0 {
        Ok((acc.push(TcpOptionModel::EndOfOptionList), at + 1))
    } else {
        match spec_known_option(bs, at) {
            Err(e) => Err(e),
            Ok((opt, next)) => spec_options_from(bs, next, acc.push(opt)),
        }
    }
}

/// The options that the first `len` bytes of `bs` hold, and those of the
/// `len` bytes that the list leaves over.
pub open spec fn spec_options(bs: Seq<u8>, len: int) -> Result<
    (Seq<TcpOptionModel>, Seq<u8>),
    DecodeError,
> {
    if len < 0 || len > bs.len() {
        Err(DecodeError::Incomplete)
    } else {
        match spec_options_from(bs.take(len), 0, Seq::empty()) {
            Err(e) => Err(e),
            Ok((options, stop)) => Ok((options, bs.take(len).skip(stop))),
        }
    }
}

/// The segment that `bs` holds, and the input left over. The three bits
/// after the data offset are reserved and must be zero. A data offset above
/// five words makes room for options, which are decoded from the bytes
/// between the fixed header and the offset; what the option list leaves of
/// those bytes is the input left over. With no room for options, the input
/// left over is all that follows the fixed header. The payload starts at the
/// data offset in either case.
pub open spec fn spec_tcp_packet(bs: Seq<u8>) -> Result<(TcpPacketModel, Seq<u8>), DecodeError> {
    if bs.len() < 13 {
        Err(DecodeError::Incomplete)
    } else if (bs[12] / 2) % 8 != 0 {
        Err(DecodeError::Malformed)
    } else if bs.len() < 20 {
        Err(DecodeError::Incomplete)
    } else {
        let offset = bs[12] / 16;
        let bits = Bits {
            offset: (bs[12] / 16) as u8,
            ns: (bs[12] % 2) as u8,
            cwr: (bs[13] / 128) as u8,
            ece: ((bs[13] / 64) % 2) as u8,
            urg: ((bs[13] / 32) % 2) as u8,
            ack: ((bs[13] / 16) % 2) as u8,
            psh: ((bs[13] / 8) % 2) as u8,
            rst: ((bs[13] / 4) % 2) as u8,
            syn: ((bs[13] / 2) % 2) as u8,
            fin: (bs[13] % 2) as u8,
        };
        let found = if offset > 5 {
            spec_options(bs.skip(20), 4 * offset - 20)
        } else {
            Ok((Seq::empty(), bs.skip(20)))
        };
        match found {
            Err(e) => Err(e),
            Ok((options, left)) => Ok(
                (
                    TcpPacketModel {
                        src: spec_be16(bs, 0),
                        dst: spec_be16(bs, 2),
                        seq: spec_be32(bs, 4),
                        ack: spec_be32(bs, 8),
                        flags: TcpFlags::spec_from_bits(bits),
                        window_sz: spec_be16(bs, 14),
                        checksum: spec_be16(bs, 16),
                        urgent: spec_be16(bs, 18),
                        options,
                        body: bs.skip(4 * offset),
                    },
                    left,
                ),
            ),
        }
    }
}

/// A decoded option list holds no `DummyOption`, and it ends between its
/// start and the end of the option bytes.
pub proof fn lemma_options_hold_no_marker(bs: Seq<u8>, at: int, acc: Seq<TcpOptionModel>)
    requires
        0 <= at <= bs.len(),
        forall|i: int| 0 <= i < acc.len() ==> !(#[trigger] acc[i] is DummyOption),
    ensures
        spec_options_from(bs, at, acc) matches Ok((l, stop)) ==> at <= stop <= bs.len() && forall|
            i: int,
        | 0 <= i < l.len() ==> !(#[trigger] l[i] is DummyOption),
    decreases bs.len() - at,
{
    if at < bs.len() {
        let more = if bs[at] == 0 {
            acc.push(TcpOptionModel::EndOfOptionList)
        } else {
            match spec_known_option(bs, at) {
                Ok((opt, _)) => acc.push(opt),
                Err(_) => acc,
            }
        };
        assert forall|i: int| 0 <= i < more.len() implies !(#[trigger] more[i] is DummyOption) by {
            if i < acc.len() {
                assert(more[i] == acc[i]);
            }
        }
        if bs[at] != 0 {
            if let Ok((_, next)) = spec_known_option(bs, at) {
                lemma_options_hold_no_marker(bs, next, more);
            }
        }
    }
}

/// Whether the option bytes are used up at `at`.
fn eof_check(bs: &[u8], at: usize) -> (r: bool)
    ensures
        r == (at >= bs@.len()),
{
    at >= bs.len()
}

/// The marker that ends the option list at `at`, where one does: the
/// end-of-list option for a zero byte, `DummyOption` where the bytes are
/// used up.
fn end_of_options<'a>(bs: &'a [u8], at: usize) -> (r: Option<(TcpOption<'a>, usize)>)
    ensures
        match r {
            Some((opt, next)) => if at >= bs@.len() {
                opt == TcpOption::DummyOption && next == at
            } else {
                bs@[at as int] == 0 && opt == TcpOption::EndOfOptionList && next == at + 1
            },
            None => at < bs@.len() && bs@[at as int] != 0,
        },
{
    if eof_check(bs, at) {
        Some((TcpOption::DummyOption, at))
    } else if bs[at] == 0 {
        Some((TcpOption::EndOfOptionList, at + 1))
    } else {
        None
    }
}

/// Decodes the option that starts at `at`.
pub fn known_options<'a>(bs: &'a [u8], at: usize) -> (r: Result<
    (TcpOption<'a>, usize),
    DecodeError,
>)
    ensures
        match r {
            Ok((opt, next)) => spec_known_option(bs@, at as int) == Ok::<
                (TcpOptionModel, int),
                DecodeError,
            >((opt@, next as int)) && at < next <= bs@.len() && !(opt is DummyOption),
            Err(e) => spec_known_option(bs@, at as int) == Err::<
                (TcpOptionModel, int),
                DecodeError,
            >(e),
        },
{
    let kind = read_u8(bs, at)?;
    if kind == 1 {
        return Ok((TcpOption::NoOperation, at + 1));
    }
    let len = read_u8(bs, at + 1)?;
    if kind == 2 && len == 4 {
        let seg_size = read_u16(bs, at + 2)?;
        return Ok((TcpOption::MaximumSegmentSize(seg_size), at + 4));
    }
    if kind == 3 && len == 3 {
        let shift = read_u8(bs, at + 2)?;
        return Ok((TcpOption::WindowScale(shift), at + 3));
    }
    if kind == 8 && len == 10 {
        let ts_val = read_u32(bs, at + 2)?;
        let ts_ecr = read_u32(bs, at + 6)?;
        return Ok((TcpOption::Timestamps(ts_val, ts_ecr), at + 10));
    }
    if len < 2 {
        return Err(DecodeError::Malformed);
    }
    let data = take(bs, at + 2, (len - 2) as usize)?;
    Ok((TcpOption::Other(kind, len, data), at + len as usize))
}

/// Decodes the options that the first `len` bytes of `bs` hold.
pub fn parse_options<'a>(bs: &'a [u8], len: usize) -> (r: Result<
    (&'a [u8], Vec<TcpOption<'a>>),
    DecodeError,
>)
    ensures
        match r {
            Ok((rest, options)) => spec_options(bs@, len as int) == Ok::<
                (Seq<TcpOptionModel>, Seq<u8>),
                DecodeError,
            >((views(options@), rest@)),
            Err(e) => spec_options(bs@, len as int) == Err::<
                (Seq<TcpOptionModel>, Seq<u8>),
                DecodeError,
            >(e),
        },
        r matches Ok((_, options)) ==> forall|i: int|
            0 <= i < options@.len() ==> !(#[trigger] options@[i] is DummyOption),
{
    let span = take(bs, 0, len)?;
    let mut options: Vec<TcpOption<'a>> = Vec::new();
    let mut pos: usize = 0;
    assert(views(options@) =~= Seq::<TcpOptionModel>::empty());
    assert(span@ == bs@.take(len as int));
    loop
        invariant
            0 <= len <= bs@.len(),
            span@ == bs@.take(len as int),
            pos <= span@.len(),
            forall|i: int| 0 <= i < options@.len() ==> !(#[trigger] options@[i] is DummyOption),
            spec_options_from(span@, pos as int, views(options@)) == spec_options_from(
                span@,
                0,
                Seq::empty(),
            ),
        decreases span@.len() - pos,
    {
        if let Some((end, next)) = end_of_options(span, pos) {
            match end {
                TcpOption::DummyOption => {},
                _ => {
                    assert(views(options@.push(end)) =~= views(options@).push(end@));
                    options.push(end);
                },
            }
            return Ok((tail(span, next), options));
        }
        let (opt, next) = known_options(span, pos)?;
        assert(views(options@.push(opt)) =~= views(options@).push(opt@));
        options.push(opt);
        pos = next;
    }
}

/// Decodes the segment that `bs` holds.
pub fn parse_tcp_packet<'a>(bs: &'a [u8]) -> (r: Result<(&'a [u8], TcpPacket<'a>), DecodeError>)
    ensures
        yields(r, spec_tcp_packet(bs@)),
        r matches Ok((_, p)) ==> forall|i: int|
            0 <= i < p.options@.len() ==> !(#[trigger] p.options@[i] is DummyOption),
{
    let src = read_u16(bs, 0)?;
    let dst = read_u16(bs, 2)?;
    let seq = read_u32(bs, 4)?;
    let ack = read_u32(bs, 8)?;
    let hi = read_u8(bs, 12)?;
    expect_bits((hi / 2) % 8, 0)?;
    let lo = read_u8(bs, 13)?;
    let bits = Bits {
        offset: hi / 16,
        ns: hi % 2,
        cwr: lo / 128,
        ece: (lo / 64) % 2,
        urg: (lo / 32) % 2,
        ack: (lo / 16) % 2,
        psh: (lo / 8) % 2,
        rst: (lo / 4) % 2,
        syn: (lo / 2) % 2,
        fin: lo % 2,
    };
    let sz = read_u16(bs, 14)?;
    let sum = read_u16(bs, 16)?;
    let urgent = read_u16(bs, 18)?;
    let (rest, options) = if bits.offset > 5 {
        parse_options(tail(bs, 20), (4 * bits.offset - 20) as usize)?
    } else {
        (tail(bs, 20), Vec::new())
    };
    assert(bits.offset <= 5 ==> views(options@) =~= Seq::<TcpOptionModel>::empty());
    Ok(
        (
            rest,
            TcpPacket {
                src,
                dst,
                seq,
                ack,
                body: tail(bs, 4 * bits.offset as usize),
                flags: TcpFlags::from_bits(bits),
                window_sz: sz,
                checksum: sum,
                urgent,
                options,
            },
        ),
    )
}

} // verus!
