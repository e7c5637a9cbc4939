//! The primitive field reader: big-endian integers at a position of a buffer,
//! and the outcome type that every decoder of this crate shares.

use vstd::prelude::*;
use vstd::slice::slice_subrange;

verus! {

/// Why a decoder produced no value.
#[derive(Clone, Copy, Debug, PartialEq, Eq)]
pub enum DecodeError {
    /// Fewer bytes are present than a field requires; more input may help.
    Incomplete,
    /// The bytes present violate the grammar; more input cannot help.
    Malformed,
}

/// The outcome of an entry point against the outcome that the grammar gives
/// for the same bytes: the same failure, or the same value with the remaining
/// input starting where the grammar stopped.
pub open spec fn decoded<T: View>(
    bs: Seq<u8>,
    r: Result<(&[u8], T), DecodeError>,
    s: Result<(T::V, int), DecodeError>,
) -> bool {
    match (r, s) {
        (Ok((rest, v)), Ok((m, end))) => v@ == m && rest@ == bs.skip(end),
        (Err(e), Err(f)) => e == f,
        _ => false,
    }
}

/// The outcome of a decoder that works at a position against the outcome that
/// the grammar gives there: the same failure, or the same value and the same
/// position after it.
pub open spec fn agrees<T: View>(
    r: Result<(T, usize), DecodeError>,
    s: Result<(T::V, int), DecodeError>,
) -> bool {
    match (r, s) {
        (Ok((v, next)), Ok((m, end))) => v@ == m && next == end,
        (Err(e), Err(f)) => e == f,
        _ => false,
    }
}

/// The outcome of a decoder that hands back a view of the input it left
/// against what the grammar gives: the same failure, or the same value and
/// the same bytes left.
pub open spec fn yields<T: View>(
    r: Result<(&[u8], T), DecodeError>,
    s: Result<(T::V, Seq<u8>), DecodeError>,
) -> bool {
    match (r, s) {
        (Ok((rest, v)), Ok((m, left))) => v@ == m && rest@ == left,
        (Err(e), Err(f)) => e == f,
        _ => false,
    }
}

/// What each item of a list holds.
pub open spec fn views<T: View>(v: Seq<T>) -> Seq<T::V> {
    Seq::new(v.len(), |i: int| v[i]@)
}

/// The outcome of a decoder that yields a value or nothing against what the
/// grammar gives.
pub open spec fn same<T: View>(r: Option<T>, s: Option<T::V>) -> bool {
    match (r, s) {
        (Some(v), Some(m)) => v@ == m,
        (None, None) => true,
        _ => false,
    }
}

/// The unsigned number whose big-endian encoding is the two bytes at `at`.
pub open spec fn spec_be16(bs: Seq<u8>, at: int) -> u16
    recommends
        0 <= at,
        at + 2 <= bs.len(),
{
    (bs[at] as int * 0x100 + bs[at + 1] as int) as u16
}

/// The unsigned number whose big-endian encoding is the four bytes at `at`.
pub open spec fn spec_be32(bs: Seq<u8>, at: int) -> u32
    recommends
        0 <= at,
        at + 4 <= bs.len(),
{
    (bs[at] as int * 0x100_0000 + bs[at + 1] as int * 0x1_0000 + bs[at + 2] as int * 0x100 + bs[at
        + 3] as int) as u32
}

/// What reading one byte at `at` yields.
pub open spec fn spec_read_u8(bs: Seq<u8>, at: int) -> Result<u8, DecodeError> {
    if 0 <= at && at + 1 <= bs.len() {
        Ok(bs[at])
    } else {
        Err(DecodeError::Incomplete)
    }
}

/// What reading a big-endian 16-bit number at `at` yields.
pub open spec fn spec_read_u16(bs: Seq<u8>, at: int) -> Result<u16, DecodeError> {
    if 0 <= at && at + 2 <= bs.len() {
        Ok(spec_be16(bs, at))
    } else {
        Err(DecodeError::Incomplete)
    }
}

/// What reading a big-endian 32-bit number at `at` yields.
pub open spec fn spec_read_u32(bs: Seq<u8>, at: int) -> Result<u32, DecodeError> {
    if 0 <= at && at + 4 <= bs.len() {
        Ok(spec_be32(bs, at))
    } else {
        Err(DecodeError::Incomplete)
    }
}

/// What taking the `n` bytes at `at` yields.
pub open spec fn spec_take(bs: Seq<u8>, at: int, n: int) -> Result<Seq<u8>, DecodeError> {
    if 0 <= at && 0 <= n && at + n <= bs.len() {
        Ok(bs.subrange(at, at + n))
    } else {
        Err(DecodeError::Incomplete)
    }
}

/// Calls `nom::be_u8`. Trusted: the call yields nothing exactly when the input
/// is empty; otherwise it yields the first byte, and the input after it.
#[verifier::external_body]
fn be_u8<'a>(i: &'a [u8]) -> (r: Option<(&'a [u8], u8)>)
    ensures
        match r {
            Some((rest, v)) => i@.len() >= 1 && rest@ == i@.skip(1) && v == i@[0],
            None => i@.len() < 1,
        },
{
    match nom::be_u8(i) {
        nom::IResult::Done(rest, v) => Some((rest, v)),
        nom::IResult::Incomplete(_) => None,
        nom::IResult::Error(_) => None,
    }
}

/// Calls `nom::be_u16`. Trusted: the call yields nothing exactly when the
/// input has fewer than two bytes; otherwise it yields the number that the
/// first two bytes encode, most significant byte first, and the input after
/// them.
#[verifier::external_body]
fn be_u16<'a>(i: &'a [u8]) -> (r: Option<(&'a [u8], u16)>)
    ensures
        match r {
            Some((rest, v)) => i@.len() >= 2 && rest@ == i@.skip(2) && v == spec_be16(i@, 0),
            None => i@.len() < 2,
        },
{
    match nom::be_u16(i) {
        nom::IResult::Done(rest, v) => Some((rest, v)),
        nom::IResult::Incomplete(_) => None,
        nom::IResult::Error(_) => None,
    }
}

/// Calls `nom::be_u32`. Trusted: the call yields nothing exactly when the
/// input has fewer than four bytes; otherwise it yields the number that the
/// first four bytes encode, most significant byte first, and the input after
/// them.
#[verifier::external_body]
fn be_u32<'a>(i: &'a [u8]) -> (r: Option<(&'a [u8], u32)>)
    ensures
        match r {
            Some((rest, v)) => i@.len() >= 4 && rest@ == i@.skip(4) && v == spec_be32(i@, 0),
            None => i@.len() < 4,
        },
{
    match nom::be_u32(i) {
        nom::IResult::Done(rest, v) => Some((rest, v)),
        nom::IResult::Incomplete(_) => None,
        nom::IResult::Error(_) => None,
    }
}

/// A list with the same items.
pub fn copy_vec<T: Copy>(v: &Vec<T>) -> (r: Vec<T>)
    ensures
        r@ == v@,
{
    let mut out: Vec<T> = Vec::new();
    let mut i: usize = 0;
    while i < v.len()
        invariant
            i <= v@.len(),
            out@ == v@.take(i as int),
        decreases v@.len() - i,
    {
        out.push(v[i]);
        i = i + 1;
        assert(out@ =~= v@.take(i as int));
    }
    assert(v@.take(i as int) =~= v@);
    out
}

/// The bytes of `bs` from `at` on; empty when `at` lies past the end.
pub fn tail<'a>(bs: &'a [u8], at: usize) -> (r: &'a [u8])
    ensures
        r@ == if at <= bs@.len() {
            bs@.skip(at as int)
        } else {
            Seq::<u8>::empty()
        },
{
    let n = bs.len();
    if at <= n {
        slice_subrange(bs, at, n)
    } else {
        slice_subrange(bs, n, n)
    }
}

/// Reads the byte at `at`.
pub fn read_u8(bs: &[u8], at: usize) -> (r: Result<u8, DecodeError>)
    ensures
        r == spec_read_u8(bs@, at as int),
        bs@.len() <= usize::MAX,
{
    let _ = bs.len();
    match be_u8(tail(bs, at)) {
        Some((_, v)) => Ok(v),
        None => Err(DecodeError::Incomplete),
    }
}

/// Reads the big-endian 16-bit number at `at`.
pub fn read_u16(bs: &[u8], at: usize) -> (r: Result<u16, DecodeError>)
    ensures
        r == spec_read_u16(bs@, at as int),
        bs@.len() <= usize::MAX,
{
    let _ = bs.len();
    match be_u16(tail(bs, at)) {
        Some((_, v)) => Ok(v),
        None => Err(DecodeError::Incomplete),
    }
}

/// Reads the big-endian 32-bit number at `at`.
pub fn read_u32(bs: &[u8], at: usize) -> (r: Result<u32, DecodeError>)
    ensures
        r == spec_read_u32(bs@, at as int),
        bs@.len() <= usize::MAX,
{
    let _ = bs.len();
    match be_u32(tail(bs, at)) {
        Some((_, v)) => Ok(v),
        None => Err(DecodeError::Incomplete),
    }
}

/// Takes the `n` bytes at `at` as a view into `bs`.
pub fn take<'a>(bs: &'a [u8], at: usize, n: usize) -> (r: Result<&'a [u8], DecodeError>)
    ensures
        match r {
            Ok(view) => spec_take(bs@, at as int, n as int) == Ok::<Seq<u8>, DecodeError>(view@),
            Err(e) => spec_take(bs@, at as int, n as int) == Err::<Seq<u8>, DecodeError>(e),
        },
{
    let len = bs.len();
    if at <= len && n <= len - at {
        Ok(slice_subrange(bs, at, at + n))
    } else {
        Err(DecodeError::Incomplete)
    }
}

/// Checks bits that the format fixes: `Malformed` unless `got` is `want`.
pub fn expect_bits(got: u8, want: u8) -> (r: Result<(), DecodeError>)
    ensures
        r == if got == want {
            Ok::<(), DecodeError>(())
        } else {
            Err::<(), DecodeError>(DecodeError::Malformed)
        },
{
    if got == want {
        Ok(())
    } else {
        Err(DecodeError::Malformed)
    }
}

} // verus!
