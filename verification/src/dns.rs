//! DNS messages: the header, the question and resource-record sections, the
//! domain-name grammar with compression pointers, and the pass that expands
//! those pointers once a whole message has been decoded.

use std::collections::HashMap;
use vstd::prelude::*;
use crate::resolve::{
    fix_queries, fix_records, lemma_resolved_message_wf, resolve_message, spec_message_full,
};
use crate::wire::{
    agrees, copy_vec, decoded, expect_bits, read_u16, read_u32, read_u8, same, spec_be16,
    spec_be32, tail, take, views, DecodeError,
};

verus! {

/// Whether a message is a query or a response.
#[derive(Clone, Copy, Debug, Eq, PartialEq)]
pub enum QR {
    Query,
    Response,
}

impl QR {
    /// What `from` yields for the code `i`.
    pub open spec fn spec_from(i: u8) -> Option<QR> {
        if i == 0 {
            Some(QR::Query)
        } else if i == 1 {
            Some(QR::Response)
        } else {
            None
        }
    }

    /// The direction that the one-bit code `i` stands for.
    pub fn from(i: u8) -> (r: Option<QR>)
        ensures
            r == Self::spec_from(i),
    {
        match i {
            0 => Some(QR::Query),
            1 => Some(QR::Response),
            _ => None,
        }
    }
}

/// The kind of query. Codes 3 to 15 have no assigned meaning and are kept as
/// `Reserved`.
#[derive(Clone, Copy, Debug, Eq, PartialEq)]
pub enum Opcode {
    Query,
    InverseQuery,
    Status,
    Reserved(u8),
}

impl Opcode {
    /// What `from` yields for the code `i`.
    pub open spec fn spec_from(i: u8) -> Option<Opcode> {
        if i == 0 {
            Some(Opcode::Query)
        } else if i == 1 {
            Some(Opcode::InverseQuery)
        } else if i == 2 {
            Some(Opcode::Status)
        } else if i < 16 {
            Some(Opcode::Reserved(i))
        } else {
            None
        }
    }

    /// The opcode that the code `i` stands for; none above the four-bit range.
    pub fn from(i: u8) -> (r: Option<Opcode>)
        ensures
            r == Self::spec_from(i),
    {
        match i {
            0 => Some(Opcode::Query),
            1 => Some(Opcode::InverseQuery),
            2 => Some(Opcode::Status),
            _ => {
                if i < 16 {
                    Some(Opcode::Reserved(i))
                } else {
                    None
                }
            },
        }
    }
}

/// The response code. Codes 5 to 14 have no assigned meaning and are kept as
/// `Reserved`; 15 and above are not accepted.
#[derive(Clone, Copy, Debug, Eq, PartialEq)]
pub enum Rcode {
    NoError,
    FormatError,
    ServerFailure,
    NameError,
    NotImplemented,
    Reserved(u8),
}

impl Rcode {
    /// What `from` yields for the code `i`.
    pub open spec fn spec_from(i: u8) -> Option<Rcode> {
        if i == 0 {
            Some(Rcode::NoError)
        } else if i == 1 {
            Some(Rcode::FormatError)
        } else if i == 2 {
            Some(Rcode::ServerFailure)
        } else if i == 3 {
            Some(Rcode::NameError)
        } else if i == 4 {
            Some(Rcode::NotImplemented)
        } else if i < 15 {
            Some(Rcode::Reserved(i))
        } else {
            None
        }
    }

    /// The response code that the code `i` stands for; none from 15 on.
    pub fn from(i: u8) -> (r: Option<Rcode>)
        ensures
            r == Self::spec_from(i),
    {
        match i {
            0 => Some(Rcode::NoError),
            1 => Some(Rcode::FormatError),
            2 => Some(Rcode::ServerFailure),
            3 => Some(Rcode::NameError),
            4 => Some(Rcode::NotImplemented),
            _ => {
                if i < 15 {
                    Some(Rcode::Reserved(i))
                } else {
                    None
                }
            },
        }
    }
}

/// The seven fields packed into the third and fourth byte of a header, each
/// as the number that its bits spell.
#[derive(Clone, Copy, Debug, Eq, PartialEq)]
pub struct Bits {
    pub qr: u8,
    pub opcode: u8,
    pub aa: u8,
    pub tc: u8,
    pub rd: u8,
    pub ra: u8,
    pub rcode: u8,
}

/// A header as it stands on the wire, before its codes are interpreted.
#[derive(Clone, Copy, Debug, Eq, PartialEq)]
pub struct RawHeader {
    pub id: u16,
    pub fields: Bits,
    pub qdcount: u16,
    pub ancount: u16,
    pub nscount: u16,
    pub arcount: u16,
}

/// The fixed twelve-byte header of a message.
#[derive(Clone, Copy, Debug, Eq, PartialEq)]
pub struct Header {
    pub id: u16,
    pub qr: QR,
    pub opcode: Opcode,
    pub aa: bool,
    pub tc: bool,
    pub rd: bool,
    pub ra: bool,
    pub rcode: Rcode,
    pub qdcount: u16,
    pub ancount: u16,
    pub nscount: u16,
    pub arcount: u16,
}

impl View for Header {
    type V = Header;

    open spec fn view(&self) -> Header {
        *self
    }
}

impl Header {
    /// What `from` yields for the raw header `raw`.
    pub open spec fn spec_from(raw: RawHeader) -> Option<Header> {
        match (
            QR::spec_from(raw.fields.qr),
            Opcode::spec_from(raw.fields.opcode),
            Rcode::spec_from(raw.fields.rcode),
        ) {
            (Some(qr), Some(opcode), Some(rcode)) => Some(
                Header {
                    id: raw.id,
                    qr,
                    opcode,
                    aa: raw.fields.aa % 2 == 1,
                    tc: raw.fields.tc % 2 == 1,
                    rd: raw.fields.rd % 2 == 1,
                    ra: raw.fields.ra % 2 == 1,
                    rcode,
                    qdcount: raw.qdcount,
                    ancount: raw.ancount,
                    nscount: raw.nscount,
                    arcount: raw.arcount,
                },
            ),
            _ => None,
        }
    }

    /// Interprets the codes of a raw header. There is a header exactly when
    /// the direction, the opcode and the response code each stand for
    /// something; a flag is set when the lowest bit of its field is.
    pub fn from(raw: RawHeader) -> (r: Option<Header>)
        ensures
            r == Self::spec_from(raw),
    {
        let qr = QR::from(raw.fields.qr);
        let opcode = Opcode::from(raw.fields.opcode);
        let rcode = Rcode::from(raw.fields.rcode);
        match (qr, opcode, rcode) {
            (Some(qr), Some(opcode), Some(rcode)) => Some(
                Header {
                    id: raw.id,
                    qr,
                    opcode,
                    aa: raw.fields.aa % 2 == 1,
                    tc: raw.fields.tc % 2 == 1,
                    rd: raw.fields.rd % 2 == 1,
                    ra: raw.fields.ra % 2 == 1,
                    rcode,
                    qdcount: raw.qdcount,
                    ancount: raw.ancount,
                    nscount: raw.nscount,
                    arcount: raw.arcount,
                },
            ),
            _ => None,
        }
    }
}

/// The fields of the header that opens `bs`, read in wire order. The three
/// bits between `ra` and `rcode` are reserved and must be zero; they are
/// checked as soon as their byte is present.
pub open spec fn spec_raw_header(bs: Seq<u8>) -> Result<RawHeader, DecodeError> {
    if bs.len() < 4 {
        Err(DecodeError::Incomplete)
    } else if (bs[3] / 16) % 8 != 0 {
        Err(DecodeError::Malformed)
    } else if bs.len() < 12 {
        Err(DecodeError::Incomplete)
    } else {
        Ok(
            RawHeader {
                id: spec_be16(bs, 0),
                fields: Bits {
                    qr: bs[2] / 128,
                    opcode: (bs[2] / 8) % 16,
                    aa: (bs[2] / 4) % 2,
                    tc: (bs[2] / 2) % 2,
                    rd: bs[2] % 2,
                    ra: bs[3] / 128,
                    rcode: bs[3] % 16,
                },
                qdcount: spec_be16(bs, 4),
                ancount: spec_be16(bs, 6),
                nscount: spec_be16(bs, 8),
                arcount: spec_be16(bs, 10),
            },
        )
    }
}

/// The header that opens `bs`, and the position after it.
pub open spec fn spec_header(bs: Seq<u8>) -> Result<(Header, int), DecodeError> {
    match spec_raw_header(bs) {
        Err(e) => Err(e),
        Ok(raw) => match Header::spec_from(raw) {
            Some(h) => Ok((h, 12)),
            None => Err(DecodeError::Malformed),
        },
    }
}

/// Reads the fields of the header that opens `bs`.
fn raw_header(bs: &[u8]) -> (r: Result<RawHeader, DecodeError>)
    ensures
        r == spec_raw_header(bs@),
{
    let id = read_u16(bs, 0)?;
    let hi = read_u8(bs, 2)?;
    let lo = read_u8(bs, 3)?;
    expect_bits((lo / 16) % 8, 0)?;
    let qdcount = read_u16(bs, 4)?;
    let ancount = read_u16(bs, 6)?;
    let nscount = read_u16(bs, 8)?;
    let arcount = read_u16(bs, 10)?;
    Ok(
        RawHeader {
            id,
            fields: Bits {
                qr: hi / 128,
                opcode: (hi / 8) % 16,
                aa: (hi / 4) % 2,
                tc: (hi / 2) % 2,
                rd: hi % 2,
                ra: lo / 128,
                rcode: lo % 16,
            },
            qdcount,
            ancount,
            nscount,
            arcount,
        },
    )
}

/// Decodes the header that opens `bs`.
pub fn parse_dns_header<'a>(bs: &'a [u8]) -> (r: Result<(&'a [u8], Header), DecodeError>)
    ensures
        decoded(bs@, r, spec_header(bs@)),
{
    let raw = raw_header(bs)?;
    match Header::from(raw) {
        Some(h) => Ok((tail(bs, 12), h)),
        None => Err(DecodeError::Malformed),
    }
}

/// The type of a resource record: one of the types whose body has a grammar
/// of its own, or `Unknown` with the type code of a record of any other
/// type, whose body is kept as it stands.
#[derive(Clone, Copy, Debug, Eq, PartialEq)]
pub enum Type {
    A,
    NS,
    MD,
    MF,
    Cname,
    SOA,
    MB,
    MG,
    MR,
    Null,
    WKS,
    Ptr,
    Hinfo,
    Minfo,
    MX,
    Txt,
    AAAA,
    Unknown(u16),
}

impl Type {
    /// What `from` yields for the code `v`.
    pub open spec fn spec_from(v: u16) -> Option<Type> {
        match v {
            1 => Some(Type::A),
            2 => Some(Type::NS),
            3 => Some(Type::MD),
            4 => Some(Type::MF),
            5 => Some(Type::Cname),
            6 => Some(Type::SOA),
            7 => Some(Type::MB),
            8 => Some(Type::MG),
            9 => Some(Type::MR),
            10 => Some(Type::Null),
            11 => Some(Type::WKS),
            12 => Some(Type::Ptr),
            13 => Some(Type::Hinfo),
            14 => Some(Type::Minfo),
            15 => Some(Type::MX),
            16 => Some(Type::Txt),
            28 => Some(Type::AAAA),
            _ => None,
        }
    }

    /// The type that a record with the type code `v` has: the type that the
    /// code stands for, or `Unknown` with the code itself where it stands
    /// for none.
    pub open spec fn spec_of_code(v: u16) -> Type {
        match Self::spec_from(v) {
            Some(t) => t,
            None => Type::Unknown(v),
        }
    }

    /// The code under which the type stands in a record.
    pub open spec fn code(self) -> u16 {
        match self {
            Type::A => 1,
            Type::NS => 2,
            Type::MD => 3,
            Type::MF => 4,
            Type::Cname => 5,
            Type::SOA => 6,
            Type::MB => 7,
            Type::MG => 8,
            Type::MR => 9,
            Type::Null => 10,
            Type::WKS => 11,
            Type::Ptr => 12,
            Type::Hinfo => 13,
            Type::Minfo => 14,
            Type::MX => 15,
            Type::Txt => 16,
            Type::AAAA => 28,
            Type::Unknown(v) => v,
        }
    }

    /// The record type with a grammar of its own that the code `v` stands
    /// for, if any; never `Unknown`.
    pub fn from(v: u16) -> (r: Option<Type>)
        ensures
            r == Self::spec_from(v),
            r matches Some(t) ==> !(t is Unknown) && t.code() == v,
    {
        match v {
            1 => Some(Type::A),
            2 => Some(Type::NS),
            3 => Some(Type::MD),
            4 => Some(Type::MF),
            5 => Some(Type::Cname),
            6 => Some(Type::SOA),
            7 => Some(Type::MB),
            8 => Some(Type::MG),
            9 => Some(Type::MR),
            10 => Some(Type::Null),
            11 => Some(Type::WKS),
            12 => Some(Type::Ptr),
            13 => Some(Type::Hinfo),
            14 => Some(Type::Minfo),
            15 => Some(Type::MX),
            16 => Some(Type::Txt),
            28 => Some(Type::AAAA),
            _ => None,
        }
    }

    /// The type of a record whose type code is `v`: the type that the code
    /// stands for, or `Unknown` with the code where it stands for none. The
    /// result stands under the code `v` again.
    pub fn of_code(v: u16) -> (r: Type)
        ensures
            r == Self::spec_of_code(v),
            r.code() == v,
            r is Unknown <==> Self::spec_from(v) is None,
    {
        match Type::from(v) {
            Some(t) => t,
            None => Type::Unknown(v),
        }
    }
}

/// The class of a resource record.
#[derive(Clone, Copy, Debug, Eq, PartialEq)]
pub enum Class {
    IN,
    CS,
    CH,
    HS,
}

impl Class {
    /// What `from` yields for the code `v`.
    pub open spec fn spec_from(v: u16) -> Option<Class> {
        match v {
            1 => Some(Class::IN),
            2 => Some(Class::CS),
            3 => Some(Class::CH),
            4 => Some(Class::HS),
            _ => None,
        }
    }

    /// The class that the code `v` stands for, if any.
    pub fn from(v: u16) -> (r: Option<Class>)
        ensures
            r == Self::spec_from(v),
    {
        match v {
            1 => Some(Class::IN),
            2 => Some(Class::CS),
            3 => Some(Class::CH),
            4 => Some(Class::HS),
            _ => None,
        }
    }
}

/// What a question asks for: a record type, or one of the four codes that
/// only questions may carry.
#[derive(Clone, Copy, Debug, Eq, PartialEq)]
pub enum Qtype {
    Type(Type),
    Axfr,
    MailB,
    MailA,
    Wildcard,
}

impl Qtype {
    /// What `from` yields for the code `v`.
    pub open spec fn spec_from(v: u16) -> Option<Qtype> {
        match Type::spec_from(v) {
            Some(t) => Some(Qtype::Type(t)),
            None => match v {
                252 => Some(Qtype::Axfr),
                253 => Some(Qtype::MailB),
                254 => Some(Qtype::MailA),
                255 => Some(Qtype::Wildcard),
                _ => None,
            },
        }
    }

    /// The question type that the code `v` stands for, if any: a record type
    /// with a grammar of its own where `v` is the code of one, else one of
    /// the codes 252 to 255. A question never asks for an `Unknown` type.
    pub fn from(v: u16) -> (r: Option<Qtype>)
        ensures
            r == Self::spec_from(v),
            r matches Some(Qtype::Type(t)) ==> !(t is Unknown) && t.code() == v,
    {
        if let Some(typ) = Type::from(v) {
            return Some(Qtype::Type(typ));
        }
        match v {
            252 => Some(Qtype::Axfr),
            253 => Some(Qtype::MailB),
            254 => Some(Qtype::MailA),
            255 => Some(Qtype::Wildcard),
            _ => None,
        }
    }
}

/// The class that a question asks for: a record class, or any.
#[derive(Clone, Copy, Debug, Eq, PartialEq)]
pub enum Qclass {
    Class(Class),
    Wildcard,
}

impl Qclass {
    /// What `from` yields for the code `v`.
    pub open spec fn spec_from(v: u16) -> Option<Qclass> {
        match Class::spec_from(v) {
            Some(c) => Some(Qclass::Class(c)),
            None => if v == 255 {
                Some(Qclass::Wildcard)
            } else {
                None
            },
        }
    }

    /// The question class that the code `v` stands for, if any: a record
    /// class where `v` is the code of one, else the wildcard for 255.
    pub fn from(v: u16) -> (r: Option<Qclass>)
        ensures
            r == Self::spec_from(v),
    {
        if let Some(class) = Class::from(v) {
            return Some(Qclass::Class(class));
        }
        match v {
            255 => Some(Qclass::Wildcard),
            _ => None,
        }
    }
}

/// One segment of a domain name: a view of its bytes, without the length byte
/// that precedes them on the wire.
pub type Label<'a> = &'a [u8];

/// The name that a question asks about.
pub type Qname<'a> = DomainName<'a>;

/// A domain name as it stands in a message. Only `Labels` is a complete name;
/// the other two end in a pointer to the rest of the name, elsewhere in the
/// same message.
#[derive(Debug, Eq, PartialEq)]
pub enum DomainName<'a> {
    Labels(Vec<Label<'a>>),
    Pointer(u16),
    LabelWithPointer(Vec<Label<'a>>, u16),
}

impl<'a> Clone for DomainName<'a> {
    fn clone(&self) -> (r: Self)
        ensures
            r@ == self@,
    {
        match self {
            DomainName::Labels(l) => DomainName::Labels(copy_vec(l)),
            DomainName::Pointer(off) => DomainName::Pointer(*off),
            DomainName::LabelWithPointer(l, off) => DomainName::LabelWithPointer(
                copy_vec(l),
                *off,
            ),
        }
    }
}

/// What a `DomainName` holds: the bytes of its labels, and the offset that its
/// pointer names.
pub enum NameModel {
    Labels(Seq<Seq<u8>>),
    Pointer(u16),
    LabelWithPointer(Seq<Seq<u8>>, u16),
}

impl<'a> View for DomainName<'a> {
    type V = NameModel;

    open spec fn view(&self) -> NameModel {
        match *self {
            DomainName::Labels(l) => NameModel::Labels(views(l@)),
            DomainName::Pointer(off) => NameModel::Pointer(off),
            DomainName::LabelWithPointer(l, off) => NameModel::LabelWithPointer(views(l@), off),
        }
    }
}

/// Every label holds at least one byte and fewer than 64.
pub open spec fn labels_wf(labels: Seq<Seq<u8>>) -> bool {
    forall|i: int| 0 <= i < labels.len() ==> 1 <= (#[trigger] labels[i]).len() < 64
}

impl NameModel {
    /// The labels that the name itself holds.
    pub open spec fn labels(self) -> Seq<Seq<u8>> {
        match self {
            NameModel::Labels(l) => l,
            NameModel::Pointer(_) => Seq::empty(),
            NameModel::LabelWithPointer(l, _) => l,
        }
    }

    /// The offset at which the name goes on, if it ends in a pointer.
    pub open spec fn pointer(self) -> Option<u16> {
        match self {
            NameModel::Labels(_) => None,
            NameModel::Pointer(off) => Some(off),
            NameModel::LabelWithPointer(_, off) => Some(off),
        }
    }

    /// What holds of every name that the grammar yields: its labels are
    /// neither empty nor longer than a length byte can say, a pointer's
    /// offset fits in 14 bits, and a name that mixes both has a label.
    pub open spec fn wf(self) -> bool {
        match self {
            NameModel::Labels(l) => labels_wf(l),
            NameModel::Pointer(off) => off < 0x4000,
            NameModel::LabelWithPointer(l, off) => labels_wf(l) && l.len() > 0 && off < 0x4000,
        }
    }
}

/// The name that starts at `at`, given the labels `acc` already read, and the
/// position after it. The byte at `at` decides: zero ends the name; one with
/// both high bits set is the first byte of a pointer, whose offset is the
/// other 14 bits of it and the next byte; one with both high bits clear is
/// the length of a label that follows; the two remaining forms are not part
/// of the grammar.
pub open spec fn spec_name_from(bs: Seq<u8>, at: int, acc: Seq<Seq<u8>>) -> Result<
    (NameModel, int),
    DecodeError,
>
    decreases bs.len() - at,
{
    if at < 0 || at >= bs.len() {
        Err(DecodeError::Incomplete)
    } else if bs[at] == 0 {
        Ok((NameModel::Labels(acc), at + 1))
    } else if bs[at] >= 0xC0 {
        if at + 2 > bs.len() {
            Err(DecodeError::Incomplete)
        } else {
            let off = (spec_be16(bs, at) - 0xC000) as u16;
            if acc.len() == 0 {
                Ok((NameModel::Pointer(off), at + 2))
            } else {
                Ok((NameModel::LabelWithPointer(acc, off), at + 2))
            }
        }
    } else if bs[at] >= 0x40 {
        Err(DecodeError::Malformed)
    } else if at + 1 + bs[at] > bs.len() {
        Err(DecodeError::Incomplete)
    } else {
        spec_name_from(bs, at + 1 + bs[at], acc.push(bs.subrange(at + 1, at + 1 + bs[at])))
    }
}

/// The name that starts at `at`, and the position after it.
pub open spec fn spec_name(bs: Seq<u8>, at: int) -> Result<(NameModel, int), DecodeError> {
    spec_name_from(bs, at, Seq::empty())
}

/// A byte of 0xC0 or more where a label could start is never taken for a
/// label length: with the byte after it, it is a pointer, and the name ends
/// there, as a bare pointer if no label came before and as labels with a
/// pointer otherwise.
pub proof fn lemma_high_byte_is_pointer(bs: Seq<u8>, at: int, acc: Seq<Seq<u8>>)
    requires
        0 <= at,
        at + 2 <= bs.len(),
        bs[at] >= 0xC0,
    ensures
        spec_name_from(bs, at, acc) matches Ok((name, end)) && end == at + 2 && name.pointer()
            == Some(((bs[at] - 0xC0) * 0x100 + bs[at + 1]) as u16) && name.labels() == acc,
{
}

/// A name that the grammar yields is well formed, and ends inside the buffer
/// and after its start.
pub proof fn lemma_name_wf(bs: Seq<u8>, at: int, acc: Seq<Seq<u8>>)
    requires
        labels_wf(acc),
    ensures
        match spec_name_from(bs, at, acc) {
            Ok((name, end)) => name.wf() && 0 <= at < end <= bs.len(),
            Err(_) => true,
        },
    decreases bs.len() - at,
{
    if 0 <= at < bs.len() && 0 < bs[at] < 0x40 && at + 1 + bs[at] <= bs.len() {
        let label = bs.subrange(at + 1, at + 1 + bs[at]);
        assert forall|i: int| 0 <= i < acc.push(label).len() implies 1 <= (#[trigger] acc.push(
            label,
        )[i]).len() < 64 by {
            if i < acc.len() {
                assert(acc.push(label)[i] == acc[i]);
            }
        }
        lemma_name_wf(bs, at + 1 + bs[at], acc.push(label));
    }
}

/// Decodes the name that starts at `at`.
pub fn domain_name<'a>(bs: &'a [u8], at: usize) -> (r: Result<(DomainName<'a>, usize), DecodeError>)
    ensures
        agrees(r, spec_name(bs@, at as int)),
        r matches Ok((name, end)) ==> name@.wf() && at < end <= bs@.len(),
{
    let n = bs.len();
    let mut labels: Vec<&'a [u8]> = Vec::new();
    let mut pos: usize = at;
    proof {
        lemma_name_wf(bs@, at as int, Seq::empty());
        assert(views(labels@) =~= Seq::<Seq<u8>>::empty());
    }
    loop
        invariant
            n == bs@.len(),
            spec_name_from(bs@, pos as int, views(labels@)) == spec_name(bs@, at as int),
            spec_name(bs@, at as int) matches Ok((name, end)) ==> name.wf() && at < end
                <= bs@.len(),
        decreases bs@.len() - pos,
    {
        let b = read_u8(bs, pos)?;
        if b == 0 {
            return Ok((DomainName::Labels(labels), pos + 1));
        }
        if b >= 0xC0 {
            let word = read_u16(bs, pos)?;
            let off: u16 = word - 0xC000;
            assert(views(labels@).len() == labels@.len());
            if labels.len() == 0 {
                return Ok((DomainName::Pointer(off), pos + 2));
            }
            return Ok((DomainName::LabelWithPointer(labels, off), pos + 2));
        }
        if b >= 0x40 {
            return Err(DecodeError::Malformed);
        }
        let label = take(bs, pos + 1, b as usize)?;
        proof {
            assert(views(labels@.push(label)) =~= views(labels@).push(label@));
        }
        labels.push(label);
        pos = pos + 1 + b as usize;
    }
}

/// A character string: up to 255 bytes, preceded on the wire by their count.
#[derive(Clone, Copy, Debug, Eq, PartialEq)]
pub struct CharacterString<'a>(pub &'a [u8]);

impl<'a> View for CharacterString<'a> {
    type V = Seq<u8>;

    open spec fn view(&self) -> Seq<u8> {
        self.0@
    }
}

/// The body of an HINFO record.
#[derive(Clone, Copy, Debug, Eq, PartialEq)]
pub struct Hinfo<'a> {
    pub cpu: CharacterString<'a>,
    pub os: CharacterString<'a>,
}

/// What an `Hinfo` holds.
pub struct HinfoModel {
    pub cpu: Seq<u8>,
    pub os: Seq<u8>,
}

impl<'a> View for Hinfo<'a> {
    type V = HinfoModel;

    open spec fn view(&self) -> HinfoModel {
        HinfoModel { cpu: self.cpu@, os: self.os@ }
    }
}

/// The body of a MINFO record.
#[derive(Debug, Eq, PartialEq)]
pub struct Minfo<'a> {
    pub rmailbox: DomainName<'a>,
    pub emailbox: DomainName<'a>,
}

/// What a `Minfo` holds.
pub struct MinfoModel {
    pub rmailbox: NameModel,
    pub emailbox: NameModel,
}

impl<'a> View for Minfo<'a> {
    type V = MinfoModel;

    open spec fn view(&self) -> MinfoModel {
        MinfoModel { rmailbox: self.rmailbox@, emailbox: self.emailbox@ }
    }
}

impl<'a> Clone for Minfo<'a> {
    fn clone(&self) -> (r: Self)
        ensures
            r@ == self@,
    {
        Minfo { rmailbox: self.rmailbox.clone(), emailbox: self.emailbox.clone() }
    }
}

/// The body of an MX record.
#[derive(Debug, Eq, PartialEq)]
pub struct MX<'a> {
    pub preference: u16,
    pub exchange: DomainName<'a>,
}

/// What an `MX` holds.
pub struct MxModel {
    pub preference: u16,
    pub exchange: NameModel,
}

impl<'a> View for MX<'a> {
    type V = MxModel;

    open spec fn view(&self) -> MxModel {
        MxModel { preference: self.preference, exchange: self.exchange@ }
    }
}

impl<'a> Clone for MX<'a> {
    fn clone(&self) -> (r: Self)
        ensures
            r@ == self@,
    {
        MX { preference: self.preference, exchange: self.exchange.clone() }
    }
}

/// The body of an SOA record.
#[derive(Debug, Eq, PartialEq)]
pub struct Soa<'a> {
    pub mname: DomainName<'a>,
    pub rname: DomainName<'a>,
    pub serial: u32,
    pub refresh: u32,
    pub retry: u32,
    pub expire: u32,
    pub minimum: u32,
}

/// What a `Soa` holds.
pub struct SoaModel {
    pub mname: NameModel,
    pub rname: NameModel,
    pub serial: u32,
    pub refresh: u32,
    pub retry: u32,
    pub expire: u32,
    pub minimum: u32,
}

impl<'a> View for Soa<'a> {
    type V = SoaModel;

    open spec fn view(&self) -> SoaModel {
        SoaModel {
            mname: self.mname@,
            rname: self.rname@,
            serial: self.serial,
            refresh: self.refresh,
            retry: self.retry,
            expire: self.expire,
            minimum: self.minimum,
        }
    }
}

impl<'a> Clone for Soa<'a> {
    fn clone(&self) -> (r: Self)
        ensures
            r@ == self@,
    {
        Soa {
            mname: self.mname.clone(),
            rname: self.rname.clone(),
            serial: self.serial,
            refresh: self.refresh,
            retry: self.retry,
            expire: self.expire,
            minimum: self.minimum,
        }
    }
}

/// The body of a WKS record. The address holds the four address bytes in
/// the reverse of their wire order.
#[derive(Clone, Copy, Debug, Eq, PartialEq)]
pub struct Wks<'a> {
    pub address: [u8; 4],
    pub protocol: u8,
    pub bitmap: &'a [u8],
}

/// What a `Wks` holds.
pub struct WksModel {
    pub address: Seq<u8>,
    pub protocol: u8,
    pub bitmap: Seq<u8>,
}

impl<'a> View for Wks<'a> {
    type V = WksModel;

    open spec fn view(&self) -> WksModel {
        WksModel { address: self.address@, protocol: self.protocol, bitmap: self.bitmap@ }
    }
}

/// The body of a resource record. Each record type decodes to the variant
/// that bears its name. `Unknown` holds the data bytes of a record whose
/// type has no grammar of its own, as they stand.
#[derive(Debug, Eq, PartialEq)]
pub enum Rdata<'a> {
    Cname(DomainName<'a>),
    Hinfo(Hinfo<'a>),
    MB(DomainName<'a>),
    MD(DomainName<'a>),
    MF(DomainName<'a>),
    MG(DomainName<'a>),
    Minfo(Minfo<'a>),
    MR(DomainName<'a>),
    MX(MX<'a>),
    Null(&'a [u8]),
    NS(DomainName<'a>),
    Ptr(DomainName<'a>),
    Soa(Soa<'a>),
    Txt(Vec<CharacterString<'a>>),
    A(&'a [u8]),
    Wks(Wks<'a>),
    AAAA(&'a [u8]),
    Unknown(&'a [u8]),
}

/// What an `Rdata` holds.
pub enum RdataModel {
    Cname(NameModel),
    Hinfo(HinfoModel),
    MB(NameModel),
    MD(NameModel),
    MF(NameModel),
    MG(NameModel),
    Minfo(MinfoModel),
    MR(NameModel),
    MX(MxModel),
    Null(Seq<u8>),
    NS(NameModel),
    Ptr(NameModel),
    Soa(SoaModel),
    Txt(Seq<Seq<u8>>),
    A(Seq<u8>),
    Wks(WksModel),
    AAAA(Seq<u8>),
    Unknown(Seq<u8>),
}

impl<'a> View for Rdata<'a> {
    type V = RdataModel;

    open spec fn view(&self) -> RdataModel {
        match *self {
            Rdata::Cname(n) => RdataModel::Cname(n@),
            Rdata::Hinfo(h) => RdataModel::Hinfo(h@),
            Rdata::MB(n) => RdataModel::MB(n@),
            Rdata::MD(n) => RdataModel::MD(n@),
            Rdata::MF(n) => RdataModel::MF(n@),
            Rdata::MG(n) => RdataModel::MG(n@),
            Rdata::Minfo(m) => RdataModel::Minfo(m@),
            Rdata::MR(n) => RdataModel::MR(n@),
            Rdata::MX(m) => RdataModel::MX(m@),
            Rdata::Null(b) => RdataModel::Null(b@),
            Rdata::NS(n) => RdataModel::NS(n@),
            Rdata::Ptr(n) => RdataModel::Ptr(n@),
            Rdata::Soa(s) => RdataModel::Soa(s@),
            Rdata::Txt(l) => RdataModel::Txt(views(l@)),
            Rdata::A(b) => RdataModel::A(b@),
            Rdata::Wks(w) => RdataModel::Wks(w@),
            Rdata::AAAA(b) => RdataModel::AAAA(b@),
            Rdata::Unknown(b) => RdataModel::Unknown(b@),
        }
    }
}

impl<'a> Clone for Rdata<'a> {
    fn clone(&self) -> (r: Self)
        ensures
            r@ == self@,
    {
        match self {
            Rdata::Cname(n) => Rdata::Cname(n.clone()),
            Rdata::Hinfo(h) => Rdata::Hinfo(*h),
            Rdata::MB(n) => Rdata::MB(n.clone()),
            Rdata::MD(n) => Rdata::MD(n.clone()),
            Rdata::MF(n) => Rdata::MF(n.clone()),
            Rdata::MG(n) => Rdata::MG(n.clone()),
            Rdata::Minfo(m) => Rdata::Minfo(m.clone()),
            Rdata::MR(n) => Rdata::MR(n.clone()),
            Rdata::MX(m) => Rdata::MX(m.clone()),
            Rdata::Null(b) => Rdata::Null(*b),
            Rdata::NS(n) => Rdata::NS(n.clone()),
            Rdata::Ptr(n) => Rdata::Ptr(n.clone()),
            Rdata::Soa(s) => Rdata::Soa(s.clone()),
            Rdata::Txt(l) => Rdata::Txt(copy_vec(l)),
            Rdata::A(b) => Rdata::A(*b),
            Rdata::Wks(w) => Rdata::Wks(*w),
            Rdata::AAAA(b) => Rdata::AAAA(*b),
            Rdata::Unknown(b) => Rdata::Unknown(*b),
        }
    }
}

/// The name that fills `raw` from its first byte to its last, if one does.
pub open spec fn spec_whole_name(raw: Seq<u8>) -> Option<NameModel> {
    match spec_name(raw, 0) {
        Ok((name, end)) => if end == raw.len() {
            Some(name)
        } else {
            None
        },
        Err(_) => None,
    }
}

/// The character string that starts at `at`, and the position after it.
pub open spec fn spec_char_string(bs: Seq<u8>, at: int) -> Result<(Seq<u8>, int), DecodeError> {
    if at < 0 || at >= bs.len() {
        Err(DecodeError::Incomplete)
    } else if at + 1 + bs[at] > bs.len() {
        Err(DecodeError::Incomplete)
    } else {
        Ok((bs.subrange(at + 1, at + 1 + bs[at]), at + 1 + bs[at]))
    }
}

/// The character strings that fill `bs` from `at` to its end, after those of
/// `acc`; none unless the last of them ends where `bs` does.
pub open spec fn spec_strings_from(bs: Seq<u8>, at: int, acc: Seq<Seq<u8>>) -> Option<
    Seq<Seq<u8>>,
>
    decreases bs.len() - at,
{
    if at < 0 || at > bs.len() {
        None
    } else if at == bs.len() {
        Some(acc)
    } else {
        match spec_char_string(bs, at) {
            Err(_) => None,
            Ok((s, next)) => spec_strings_from(bs, next, acc.push(s)),
        }
    }
}

/// The body of a TXT record: one or more character strings that fill `raw`.
pub open spec fn spec_txt(raw: Seq<u8>) -> Option<Seq<Seq<u8>>> {
    if raw.len() == 0 {
        None
    } else {
        spec_strings_from(raw, 0, Seq::empty())
    }
}

/// The body of an HINFO record: two character strings that fill `raw`.
pub open spec fn spec_hinfo(raw: Seq<u8>) -> Option<HinfoModel> {
    match spec_char_string(raw, 0) {
        Err(_) => None,
        Ok((cpu, next)) => match spec_char_string(raw, next) {
            Err(_) => None,
            Ok((os, end)) => if end == raw.len() {
                Some(HinfoModel { cpu, os })
            } else {
                None
            },
        },
    }
}

/// The body of a MINFO record: two names that fill `raw`.
pub open spec fn spec_minfo(raw: Seq<u8>) -> Option<MinfoModel> {
    match spec_name(raw, 0) {
        Err(_) => None,
        Ok((rmailbox, next)) => match spec_name(raw, next) {
            Err(_) => None,
            Ok((emailbox, end)) => if end == raw.len() {
                Some(MinfoModel { rmailbox, emailbox })
            } else {
                None
            },
        },
    }
}

/// The body of an MX record: a 16-bit preference and a name that fill `raw`.
pub open spec fn spec_mx(raw: Seq<u8>) -> Option<MxModel> {
    if raw.len() < 2 {
        None
    } else {
        match spec_name(raw, 2) {
            Err(_) => None,
            Ok((exchange, end)) => if end == raw.len() {
                Some(MxModel { preference: spec_be16(raw, 0), exchange })
            } else {
                None
            },
        }
    }
}

/// The body of an SOA record: two names and five 32-bit numbers that fill
/// `raw`.
pub open spec fn spec_soa(raw: Seq<u8>) -> Option<SoaModel> {
    match spec_name(raw, 0) {
        Err(_) => None,
        Ok((mname, next)) => match spec_name(raw, next) {
            Err(_) => None,
            Ok((rname, at)) => if at + 20 == raw.len() {
                Some(
                    SoaModel {
                        mname,
                        rname,
                        serial: spec_be32(raw, at),
                        refresh: spec_be32(raw, at + 4),
                        retry: spec_be32(raw, at + 8),
                        expire: spec_be32(raw, at + 12),
                        minimum: spec_be32(raw, at + 16),
                    },
                )
            } else {
                None
            },
        },
    }
}

/// The body of a WKS record: four address bytes, kept in reverse order, a
/// protocol number, and a bitmap that takes what is left of `raw`.
pub open spec fn spec_wks(raw: Seq<u8>) -> Option<WksModel> {
    if raw.len() < 5 {
        None
    } else {
        Some(
            WksModel {
                address: seq![raw[3], raw[2], raw[1], raw[0]],
                protocol: raw[4],
                bitmap: raw.skip(5),
            },
        )
    }
}

/// The body of a record of type `typ` whose data bytes are `raw`. For a
/// type with a grammar there is one exactly when `raw` is, from its first
/// byte to its last, what the grammar of that type describes. A body of
/// type `Null` or of an unknown type is `raw` itself, whatever it holds.
pub open spec fn spec_rdata(typ: Type, raw: Seq<u8>) -> Option<RdataModel> {
    match typ {
        Type::A => if raw.len() == 4 {
            Some(RdataModel::A(raw))
        } else {
            None
        },
        Type::AAAA => if raw.len() == 16 {
            Some(RdataModel::AAAA(raw))
        } else {
            None
        },
        Type::Null => Some(RdataModel::Null(raw)),
        Type::NS => match spec_whole_name(raw) {
            Some(n) => Some(RdataModel::NS(n)),
            None => None,
        },
        Type::MD => match spec_whole_name(raw) {
            Some(n) => Some(RdataModel::MD(n)),
            None => None,
        },
        Type::MF => match spec_whole_name(raw) {
            Some(n) => Some(RdataModel::MF(n)),
            None => None,
        },
        Type::Cname => match spec_whole_name(raw) {
            Some(n) => Some(RdataModel::Cname(n)),
            None => None,
        },
        Type::MB => match spec_whole_name(raw) {
            Some(n) => Some(RdataModel::MB(n)),
            None => None,
        },
        Type::MG => match spec_whole_name(raw) {
            Some(n) => Some(RdataModel::MG(n)),
            None => None,
        },
        Type::MR => match spec_whole_name(raw) {
            Some(n) => Some(RdataModel::MR(n)),
            None => None,
        },
        Type::Ptr => match spec_whole_name(raw) {
            Some(n) => Some(RdataModel::Ptr(n)),
            None => None,
        },
        Type::SOA => match spec_soa(raw) {
            Some(s) => Some(RdataModel::Soa(s)),
            None => None,
        },
        Type::WKS => match spec_wks(raw) {
            Some(w) => Some(RdataModel::Wks(w)),
            None => None,
        },
        Type::Hinfo => match spec_hinfo(raw) {
            Some(h) => Some(RdataModel::Hinfo(h)),
            None => None,
        },
        Type::Minfo => match spec_minfo(raw) {
            Some(m) => Some(RdataModel::Minfo(m)),
            None => None,
        },
        Type::MX => match spec_mx(raw) {
            Some(m) => Some(RdataModel::MX(m)),
            None => None,
        },
        Type::Txt => match spec_txt(raw) {
            Some(l) => Some(RdataModel::Txt(l)),
            None => None,
        },
        Type::Unknown(_) => Some(RdataModel::Unknown(raw)),
    }
}

/// Decodes the name that fills `raw`.
fn whole_name<'a>(raw: &'a [u8]) -> (r: Option<DomainName<'a>>)
    ensures
        same(r, spec_whole_name(raw@)),
{
    match domain_name(raw, 0) {
        Ok((name, end)) => if end == raw.len() {
            Some(name)
        } else {
            None
        },
        Err(_) => None,
    }
}

/// Decodes the character string that starts at `at`.
fn parse_char_string<'a>(bs: &'a [u8], at: usize) -> (r: Result<
    (CharacterString<'a>, usize),
    DecodeError,
>)
    ensures
        agrees(r, spec_char_string(bs@, at as int)),
        r matches Ok((_, end)) ==> at < end <= bs@.len(),
{
    let n = bs.len();
    let len = read_u8(bs, at)?;
    let string = take(bs, at + 1, len as usize)?;
    Ok((CharacterString(string), at + 1 + len as usize))
}

/// Decodes the body of an HINFO record.
fn hinfo<'a>(raw: &'a [u8]) -> (r: Option<Hinfo<'a>>)
    ensures
        same(r, spec_hinfo(raw@)),
{
    let (cpu, next) = match parse_char_string(raw, 0) {
        Ok(x) => x,
        Err(_) => { return None; },
    };
    let (os, end) = match parse_char_string(raw, next) {
        Ok(x) => x,
        Err(_) => { return None; },
    };
    if end == raw.len() {
        Some(Hinfo { cpu, os })
    } else {
        None
    }
}

/// Decodes the body of a MINFO record.
fn minfo<'a>(raw: &'a [u8]) -> (r: Option<Minfo<'a>>)
    ensures
        same(r, spec_minfo(raw@)),
{
    let (rmailbox, next) = match domain_name(raw, 0) {
        Ok(x) => x,
        Err(_) => { return None; },
    };
    let (emailbox, end) = match domain_name(raw, next) {
        Ok(x) => x,
        Err(_) => { return None; },
    };
    if end == raw.len() {
        Some(Minfo { rmailbox, emailbox })
    } else {
        None
    }
}

/// Decodes the body of an MX record.
fn parse_mx<'a>(raw: &'a [u8]) -> (r: Option<MX<'a>>)
    ensures
        same(r, spec_mx(raw@)),
{
    let preference = match read_u16(raw, 0) {
        Ok(x) => x,
        Err(_) => { return None; },
    };
    let (exchange, end) = match domain_name(raw, 2) {
        Ok(x) => x,
        Err(_) => { return None; },
    };
    if end == raw.len() {
        Some(MX { preference, exchange })
    } else {
        None
    }
}

/// Decodes the body of an SOA record.
fn parse_soa<'a>(raw: &'a [u8]) -> (r: Option<Soa<'a>>)
    ensures
        same(r, spec_soa(raw@)),
{
    let (mname, next) = match domain_name(raw, 0) {
        Ok(x) => x,
        Err(_) => { return None; },
    };
    let (rname, at) = match domain_name(raw, next) {
        Ok(x) => x,
        Err(_) => { return None; },
    };
    if raw.len() - at != 20 {
        return None;
    }
    match (
        read_u32(raw, at),
        read_u32(raw, at + 4),
        read_u32(raw, at + 8),
        read_u32(raw, at + 12),
        read_u32(raw, at + 16),
    ) {
        (Ok(serial), Ok(refresh), Ok(retry), Ok(expire), Ok(minimum)) => Some(
            Soa { mname, rname, serial, refresh, retry, expire, minimum },
        ),
        _ => None,
    }
}

/// Decodes the body of a TXT record.
fn parse_txt<'a>(raw: &'a [u8]) -> (r: Option<Vec<CharacterString<'a>>>)
    ensures
        match r {
            Some(l) => spec_txt(raw@) == Some(views(l@)),
            None => spec_txt(raw@) is None,
        },
{
    let n = raw.len();
    if n == 0 {
        return None;
    }
    let mut strings: Vec<CharacterString<'a>> = Vec::new();
    let mut pos: usize = 0;
    assert(views(strings@) =~= Seq::<Seq<u8>>::empty());
    while pos < n
        invariant
            n == raw@.len(),
            pos <= n,
            spec_strings_from(raw@, pos as int, views(strings@)) == spec_txt(raw@),
        decreases n - pos,
    {
        let (s, next) = match parse_char_string(raw, pos) {
            Ok(x) => x,
            Err(_) => { return None; },
        };
        assert(views(strings@.push(s)) =~= views(strings@).push(s@));
        strings.push(s);
        pos = next;
    }
    Some(strings)
}

/// Decodes the body of a WKS record.
fn parse_wks<'a>(raw: &'a [u8]) -> (r: Option<Wks<'a>>)
    ensures
        same(r, spec_wks(raw@)),
{
    if raw.len() < 5 {
        return None;
    }
    let address: [u8; 4] = [raw[3], raw[2], raw[1], raw[0]];
    assert(address@ =~= seq![raw@[3], raw@[2], raw@[1], raw@[0]]);
    Some(Wks { address, protocol: raw[4], bitmap: tail(raw, 5) })
}

impl<'a> Rdata<'a> {
    /// Decodes the body of a record of type `typ` from its data bytes. The
    /// body must take up all of `raw`: bytes left over after it, or a body
    /// cut short, give no value. A body of an unknown type is kept as it
    /// stands, as `Unknown`.
    pub fn from(typ: Type, raw: &'a [u8]) -> (r: Option<Rdata<'a>>)
        ensures
            same(r, spec_rdata(typ, raw@)),
    {
        match typ {
            Type::A => {
                if raw.len() == 4 {
                    Some(Rdata::A(raw))
                } else {
                    None
                }
            },
            Type::NS => match whole_name(raw) {
                Some(n) => Some(Rdata::NS(n)),
                None => None,
            },
            Type::MD => match whole_name(raw) {
                Some(n) => Some(Rdata::MD(n)),
                None => None,
            },
            Type::MF => match whole_name(raw) {
                Some(n) => Some(Rdata::MF(n)),
                None => None,
            },
            Type::Cname => match whole_name(raw) {
                Some(n) => Some(Rdata::Cname(n)),
                None => None,
            },
            Type::SOA => match parse_soa(raw) {
                Some(s) => Some(Rdata::Soa(s)),
                None => None,
            },
            Type::MB => match whole_name(raw) {
                Some(n) => Some(Rdata::MB(n)),
                None => None,
            },
            Type::MG => match whole_name(raw) {
                Some(n) => Some(Rdata::MG(n)),
                None => None,
            },
            Type::MR => match whole_name(raw) {
                Some(n) => Some(Rdata::MR(n)),
                None => None,
            },
            Type::Null => Some(Rdata::Null(raw)),
            Type::WKS => match parse_wks(raw) {
                Some(w) => Some(Rdata::Wks(w)),
                None => None,
            },
            Type::Ptr => match whole_name(raw) {
                Some(n) => Some(Rdata::Ptr(n)),
                None => None,
            },
            Type::Hinfo => match hinfo(raw) {
                Some(h) => Some(Rdata::Hinfo(h)),
                None => None,
            },
            Type::Minfo => match minfo(raw) {
                Some(m) => Some(Rdata::Minfo(m)),
                None => None,
            },
            Type::MX => match parse_mx(raw) {
                Some(m) => Some(Rdata::MX(m)),
                None => None,
            },
            Type::Txt => match parse_txt(raw) {
                Some(l) => Some(Rdata::Txt(l)),
                None => None,
            },
            Type::AAAA => {
                if raw.len() == 16 {
                    Some(Rdata::AAAA(raw))
                } else {
                    None
                }
            },
            Type::Unknown(_) => Some(Rdata::Unknown(raw)),
        }
    }
}

/// One entry of the question section.
#[derive(Debug, Eq, PartialEq)]
pub struct Query<'a> {
    pub qname: Qname<'a>,
    pub qtype: Qtype,
    pub qclass: Qclass,
}

/// What a `Query` holds.
pub struct QueryModel {
    pub qname: NameModel,
    pub qtype: Qtype,
    pub qclass: Qclass,
}

impl<'a> View for Query<'a> {
    type V = QueryModel;

    open spec fn view(&self) -> QueryModel {
        QueryModel { qname: self.qname@, qtype: self.qtype, qclass: self.qclass }
    }
}

impl<'a> Clone for Query<'a> {
    fn clone(&self) -> (r: Self)
        ensures
            r@ == self@,
    {
        Query { qname: self.qname.clone(), qtype: self.qtype, qclass: self.qclass }
    }
}

/// One entry of the answer, authority or additional section.
#[derive(Debug, Eq, PartialEq)]
pub struct ResourceRecord<'a> {
    pub name: DomainName<'a>,
    pub typ: Type,
    pub class: Class,
    pub ttl: u32,
    pub rdata: Rdata<'a>,
}

/// What a `ResourceRecord` holds.
pub struct RecordModel {
    pub name: NameModel,
    pub typ: Type,
    pub class: Class,
    pub ttl: u32,
    pub rdata: RdataModel,
}

impl<'a> View for ResourceRecord<'a> {
    type V = RecordModel;

    open spec fn view(&self) -> RecordModel {
        RecordModel {
            name: self.name@,
            typ: self.typ,
            class: self.class,
            ttl: self.ttl,
            rdata: self.rdata@,
        }
    }
}

impl<'a> Clone for ResourceRecord<'a> {
    fn clone(&self) -> (r: Self)
        ensures
            r@ == self@,
    {
        ResourceRecord {
            name: self.name.clone(),
            typ: self.typ,
            class: self.class,
            ttl: self.ttl,
            rdata: self.rdata.clone(),
        }
    }
}

/// A whole message: the header and the four sections that it counts.
#[derive(Debug, Eq, PartialEq)]
pub struct Message<'a> {
    pub header: Header,
    pub questions: Vec<Query<'a>>,
    pub answers: Vec<ResourceRecord<'a>>,
    pub authorities: Vec<ResourceRecord<'a>>,
    pub additional: Vec<ResourceRecord<'a>>,
}

/// What a `Message` holds.
pub struct MessageModel {
    pub header: Header,
    pub questions: Seq<QueryModel>,
    pub answers: Seq<RecordModel>,
    pub authorities: Seq<RecordModel>,
    pub additional: Seq<RecordModel>,
}

impl<'a> View for Message<'a> {
    type V = MessageModel;

    open spec fn view(&self) -> MessageModel {
        MessageModel {
            header: self.header,
            questions: views(self.questions@),
            answers: views(self.answers@),
            authorities: views(self.authorities@),
            additional: views(self.additional@),
        }
    }
}

impl<'a> Clone for Message<'a> {
    fn clone(&self) -> (r: Self)
        ensures
            r@ == self@,
    {
        let r = Message {
            header: self.header,
            questions: self.questions.clone(),
            answers: self.answers.clone(),
            authorities: self.authorities.clone(),
            additional: self.additional.clone(),
        };
        assert(views(r.questions@) =~= views(self.questions@));
        assert(views(r.answers@) =~= views(self.answers@));
        assert(views(r.authorities@) =~= views(self.authorities@));
        assert(views(r.additional@) =~= views(self.additional@));
        r
    }
}

impl RdataModel {
    /// Whether `p` holds of every name in the body.
    pub open spec fn all_names(self, p: spec_fn(NameModel) -> bool) -> bool {
        match self {
            RdataModel::Cname(n) => p(n),
            RdataModel::MB(n) => p(n),
            RdataModel::MD(n) => p(n),
            RdataModel::MF(n) => p(n),
            RdataModel::MG(n) => p(n),
            RdataModel::MR(n) => p(n),
            RdataModel::NS(n) => p(n),
            RdataModel::Ptr(n) => p(n),
            RdataModel::Minfo(m) => p(m.rmailbox) && p(m.emailbox),
            RdataModel::MX(m) => p(m.exchange),
            RdataModel::Soa(s) => p(s.mname) && p(s.rname),
            RdataModel::Hinfo(_) => true,
            RdataModel::Null(_) => true,
            RdataModel::Txt(_) => true,
            RdataModel::A(_) => true,
            RdataModel::Wks(_) => true,
            RdataModel::AAAA(_) => true,
            RdataModel::Unknown(_) => true,
        }
    }
}

impl RecordModel {
    /// Whether `p` holds of the owner name and of every name in the body.
    pub open spec fn all_names(self, p: spec_fn(NameModel) -> bool) -> bool {
        p(self.name) && self.rdata.all_names(p)
    }
}

impl MessageModel {
    /// Whether `p` holds of every name in the message: the name of each
    /// question, and the names of each record of the three record sections.
    pub open spec fn all_names(self, p: spec_fn(NameModel) -> bool) -> bool {
        &&& forall|i: int| 0 <= i < self.questions.len() ==> p(#[trigger] self.questions[i].qname)
        &&& forall|i: int|
            0 <= i < self.answers.len() ==> (#[trigger] self.answers[i]).all_names(p)
        &&& forall|i: int|
            0 <= i < self.authorities.len() ==> (#[trigger] self.authorities[i]).all_names(p)
        &&& forall|i: int|
            0 <= i < self.additional.len() ==> (#[trigger] self.additional[i]).all_names(p)
    }
}

/// The question that starts at `at`: a name, a question type and a question
/// class, each code checked as soon as it is read.
pub open spec fn spec_query(bs: Seq<u8>, at: int) -> Result<(QueryModel, int), DecodeError> {
    match spec_name(bs, at) {
        Err(e) => Err(e),
        Ok((qname, p)) => if p + 2 > bs.len() {
            Err(DecodeError::Incomplete)
        } else {
            match Qtype::spec_from(spec_be16(bs, p)) {
                None => Err(DecodeError::Malformed),
                Some(qtype) => if p + 4 > bs.len() {
                    Err(DecodeError::Incomplete)
                } else {
                    match Qclass::spec_from(spec_be16(bs, p + 2)) {
                        None => Err(DecodeError::Malformed),
                        Some(qclass) => Ok((QueryModel { qname, qtype, qclass }, p + 4)),
                    }
                },
            }
        },
    }
}

/// The resource record that starts at `at`: a name, a type, a class, a
/// 32-bit time to live, a 16-bit data length, and that many data bytes, which
/// the body for the type must fill. A type code that stands for no type is
/// kept as `Unknown`, and the data bytes of such a record are its body as
/// they stand. The class code is checked as soon as it is read, the body
/// once all its bytes are present.
pub open spec fn spec_record(bs: Seq<u8>, at: int) -> Result<(RecordModel, int), DecodeError> {
    match spec_name(bs, at) {
        Err(e) => Err(e),
        Ok((name, p)) => if p + 4 > bs.len() {
            Err(DecodeError::Incomplete)
        } else {
            let typ = Type::spec_of_code(spec_be16(bs, p));
            match Class::spec_from(spec_be16(bs, p + 2)) {
                None => Err(DecodeError::Malformed),
                Some(class) => if p + 10 > bs.len() || p + 10 + spec_be16(bs, p + 8) > bs.len() {
                    Err(DecodeError::Incomplete)
                } else {
                    let end = p + 10 + spec_be16(bs, p + 8);
                    match spec_rdata(typ, bs.subrange(p + 10, end)) {
                        None => Err(DecodeError::Malformed),
                        Some(rdata) => Ok(
                            (
                                RecordModel { name, typ, class, ttl: spec_be32(bs, p + 4), rdata },
                                end,
                            ),
                        ),
                    }
                },
            }
        },
    }
}

/// A record of a type without a grammar of its own decodes whenever its
/// name, its class and its lengths do: its type is `Unknown` with the type
/// code, and its body is `Unknown` with the data bytes as they stand. In
/// any decoded record the type stands under the code that was read, and the
/// body is `Unknown` exactly when the type is.
pub proof fn lemma_unknown_type_is_kept(bs: Seq<u8>, at: int)
    ensures
        spec_record(bs, at) matches Ok((rec, end)) ==> {
            &&& spec_name(bs, at) matches Ok((_, p)) && rec.typ.code() == spec_be16(bs, p)
            &&& rec.typ is Unknown <==> Type::spec_from(rec.typ.code()) is None
            &&& rec.typ is Unknown <==> rec.rdata is Unknown
            &&& rec.typ is Unknown ==> (spec_name(bs, at) matches Ok((_, p)) && rec.rdata
                == RdataModel::Unknown(bs.subrange(p + 10, end)))
        },
        spec_name(bs, at) matches Ok((_, p)) ==> ({
            &&& Type::spec_from(spec_be16(bs, p)) is None
            &&& p + 10 + spec_be16(bs, p + 8) <= bs.len()
            &&& Class::spec_from(spec_be16(bs, p + 2)) is Some
        } ==> spec_record(bs, at) is Ok),
{
}

/// `n` questions in a row from `at` on, after those of `acc`.
pub open spec fn spec_queries_from(bs: Seq<u8>, at: int, n: nat, acc: Seq<QueryModel>) -> Result<
    (Seq<QueryModel>, int),
    DecodeError,
>
    decreases n,
{
    if n == 0 {
        Ok((acc, at))
    } else {
        match spec_query(bs, at) {
            Err(e) => Err(e),
            Ok((q, next)) => spec_queries_from(bs, next, (n - 1) as nat, acc.push(q)),
        }
    }
}

/// `n` resource records in a row from `at` on, after those of `acc`.
pub open spec fn spec_records_from(bs: Seq<u8>, at: int, n: nat, acc: Seq<RecordModel>) -> Result<
    (Seq<RecordModel>, int),
    DecodeError,
>
    decreases n,
{
    if n == 0 {
        Ok((acc, at))
    } else {
        match spec_record(bs, at) {
            Err(e) => Err(e),
            Ok((rec, next)) => spec_records_from(bs, next, (n - 1) as nat, acc.push(rec)),
        }
    }
}

/// The message that `bs` opens with, and the position after it: the header,
/// then as many questions, answers, authority records and additional records
/// as the header counts. The first entry that fails makes the whole message
/// fail in the same way.
pub open spec fn spec_message(bs: Seq<u8>) -> Result<(MessageModel, int), DecodeError> {
    match spec_header(bs) {
        Err(e) => Err(e),
        Ok((header, qd_at)) => match spec_queries_from(
            bs,
            qd_at,
            header.qdcount as nat,
            Seq::empty(),
        ) {
            Err(e) => Err(e),
            Ok((questions, an_at)) => match spec_records_from(
                bs,
                an_at,
                header.ancount as nat,
                Seq::empty(),
            ) {
                Err(e) => Err(e),
                Ok((answers, ns_at)) => match spec_records_from(
                    bs,
                    ns_at,
                    header.nscount as nat,
                    Seq::empty(),
                ) {
                    Err(e) => Err(e),
                    Ok((authorities, ar_at)) => match spec_records_from(
                        bs,
                        ar_at,
                        header.arcount as nat,
                        Seq::empty(),
                    ) {
                        Err(e) => Err(e),
                        Ok((additional, end)) => Ok(
                            (
                                MessageModel {
                                    header,
                                    questions,
                                    answers,
                                    authorities,
                                    additional,
                                },
                                end,
                            ),
                        ),
                    },
                },
            },
        },
    }
}

/// A run of questions has as many entries as were asked for.
pub proof fn lemma_queries_count(bs: Seq<u8>, at: int, n: nat, acc: Seq<QueryModel>)
    ensures
        spec_queries_from(bs, at, n, acc) matches Ok((l, _)) ==> l.len() == acc.len() + n,
    decreases n,
{
    if n > 0 {
        if let Ok((q, next)) = spec_query(bs, at) {
            lemma_queries_count(bs, next, (n - 1) as nat, acc.push(q));
        }
    }
}

/// A run of resource records has as many entries as were asked for.
pub proof fn lemma_records_count(bs: Seq<u8>, at: int, n: nat, acc: Seq<RecordModel>)
    ensures
        spec_records_from(bs, at, n, acc) matches Ok((l, _)) ==> l.len() == acc.len() + n,
    decreases n,
{
    if n > 0 {
        if let Ok((rec, next)) = spec_record(bs, at) {
            lemma_records_count(bs, next, (n - 1) as nat, acc.push(rec));
        }
    }
}

/// Every section of a decoded message has exactly as many entries as the
/// header counts for it: a message never comes out with fewer.
pub proof fn lemma_section_counts(bs: Seq<u8>)
    ensures
        spec_message(bs) matches Ok((m, _)) ==> {
            &&& m.questions.len() == m.header.qdcount
            &&& m.answers.len() == m.header.ancount
            &&& m.authorities.len() == m.header.nscount
            &&& m.additional.len() == m.header.arcount
        },
{
    if let Ok((header, qd_at)) = spec_header(bs) {
        lemma_queries_count(bs, qd_at, header.qdcount as nat, Seq::empty());
        if let Ok((_, an_at)) = spec_queries_from(bs, qd_at, header.qdcount as nat, Seq::empty()) {
            lemma_records_count(bs, an_at, header.ancount as nat, Seq::empty());
            if let Ok((_, ns_at)) = spec_records_from(
                bs,
                an_at,
                header.ancount as nat,
                Seq::empty(),
            ) {
                lemma_records_count(bs, ns_at, header.nscount as nat, Seq::empty());
                if let Ok((_, ar_at)) = spec_records_from(
                    bs,
                    ns_at,
                    header.nscount as nat,
                    Seq::empty(),
                ) {
                    lemma_records_count(bs, ar_at, header.arcount as nat, Seq::empty());
                }
            }
        }
    }
}

/// Every name of a record body that decodes is well formed.
pub proof fn lemma_rdata_names_wf(typ: Type, raw: Seq<u8>)
    ensures
        spec_rdata(typ, raw) matches Some(rdata) ==> rdata.all_names(|n: NameModel| n.wf()),
{
    lemma_name_wf(raw, 0, Seq::empty());
    lemma_name_wf(raw, 2, Seq::empty());
    if let Ok((_, next)) = spec_name(raw, 0) {
        lemma_name_wf(raw, next, Seq::empty());
    }
}

/// Every name of a record that decodes is well formed.
pub proof fn lemma_record_names_wf(bs: Seq<u8>, at: int)
    ensures
        spec_record(bs, at) matches Ok((rec, _)) ==> rec.all_names(|n: NameModel| n.wf()),
{
    lemma_name_wf(bs, at, Seq::empty());
    if let Ok((_, p)) = spec_name(bs, at) {
        if p + 10 <= bs.len() {
            lemma_rdata_names_wf(
                Type::spec_of_code(spec_be16(bs, p)),
                bs.subrange(p + 10, p + 10 + spec_be16(bs, p + 8)),
            );
        }
    }
}

/// A run of records that decodes after well-formed ones holds well-formed
/// names only.
pub proof fn lemma_records_names_wf(bs: Seq<u8>, at: int, n: nat, acc: Seq<RecordModel>)
    requires
        forall|i: int| 0 <= i < acc.len() ==> (#[trigger] acc[i]).all_names(|n: NameModel| n.wf()),
    ensures
        spec_records_from(bs, at, n, acc) matches Ok((l, _)) ==> forall|i: int|
            0 <= i < l.len() ==> (#[trigger] l[i]).all_names(|n: NameModel| n.wf()),
    decreases n,
{
    if n > 0 {
        if let Ok((rec, next)) = spec_record(bs, at) {
            lemma_record_names_wf(bs, at);
            let more = acc.push(rec);
            assert forall|i: int| 0 <= i < more.len() implies (#[trigger] more[i]).all_names(
                |n: NameModel| n.wf(),
            ) by {
                if i < acc.len() {
                    assert(more[i] == acc[i]);
                }
            }
            lemma_records_names_wf(bs, next, (n - 1) as nat, more);
        }
    }
}

/// A run of questions that decodes after well-formed ones holds well-formed
/// names only.
pub proof fn lemma_queries_names_wf(bs: Seq<u8>, at: int, n: nat, acc: Seq<QueryModel>)
    requires
        forall|i: int| 0 <= i < acc.len() ==> (#[trigger] acc[i].qname).wf(),
    ensures
        spec_queries_from(bs, at, n, acc) matches Ok((l, _)) ==> forall|i: int|
            0 <= i < l.len() ==> (#[trigger] l[i].qname).wf(),
    decreases n,
{
    if n > 0 {
        if let Ok((q, next)) = spec_query(bs, at) {
            lemma_name_wf(bs, at, Seq::empty());
            let more = acc.push(q);
            assert forall|i: int| 0 <= i < more.len() implies (#[trigger] more[i].qname).wf() by {
                if i < acc.len() {
                    assert(more[i] == acc[i]);
                }
            }
            lemma_queries_names_wf(bs, next, (n - 1) as nat, more);
        }
    }
}

/// Every name of a decoded message is well formed: no label is empty or
/// longer than 63 bytes, and every pointer names an offset below 0x4000.
pub proof fn lemma_message_names_wf(bs: Seq<u8>)
    ensures
        spec_message(bs) matches Ok((m, _)) ==> m.all_names(|n: NameModel| n.wf()),
{
    if let Ok((header, qd_at)) = spec_header(bs) {
        lemma_queries_names_wf(bs, qd_at, header.qdcount as nat, Seq::empty());
        if let Ok((_, an_at)) = spec_queries_from(bs, qd_at, header.qdcount as nat, Seq::empty()) {
            lemma_records_names_wf(bs, an_at, header.ancount as nat, Seq::empty());
            if let Ok((_, ns_at)) = spec_records_from(
                bs,
                an_at,
                header.ancount as nat,
                Seq::empty(),
            ) {
                lemma_records_names_wf(bs, ns_at, header.nscount as nat, Seq::empty());
                if let Ok((_, ar_at)) = spec_records_from(
                    bs,
                    ns_at,
                    header.nscount as nat,
                    Seq::empty(),
                ) {
                    lemma_records_names_wf(bs, ar_at, header.arcount as nat, Seq::empty());
                }
            }
        }
    }
}

/// Decodes the question that starts at `at`.
pub fn query<'a>(bs: &'a [u8], at: usize) -> (r: Result<(Query<'a>, usize), DecodeError>)
    ensures
        agrees(r, spec_query(bs@, at as int)),
        r matches Ok((_, end)) ==> at < end <= bs@.len(),
{
    let (qname, p) = domain_name(bs, at)?;
    let qtype = match Qtype::from(read_u16(bs, p)?) {
        Some(t) => t,
        None => { return Err(DecodeError::Malformed); },
    };
    let qclass = match Qclass::from(read_u16(bs, p + 2)?) {
        Some(c) => c,
        None => { return Err(DecodeError::Malformed); },
    };
    Ok((Query { qname, qtype, qclass }, p + 4))
}

/// Decodes the resource record that starts at `at`.
pub fn resource_record<'a>(bs: &'a [u8], at: usize) -> (r: Result<
    (ResourceRecord<'a>, usize),
    DecodeError,
>)
    ensures
        agrees(r, spec_record(bs@, at as int)),
        r matches Ok((rec, end)) ==> at < end <= bs@.len() && (rec.typ is Unknown
            <==> rec.rdata is Unknown),
{
    let (name, p) = domain_name(bs, at)?;
    let typ = Type::of_code(read_u16(bs, p)?);
    let class = match Class::from(read_u16(bs, p + 2)?) {
        Some(c) => c,
        None => { return Err(DecodeError::Malformed); },
    };
    let ttl = read_u32(bs, p + 4)?;
    let rdlen = read_u16(bs, p + 8)?;
    let raw = take(bs, p + 10, rdlen as usize)?;
    match Rdata::from(typ, raw) {
        Some(rdata) => Ok(
            (ResourceRecord { name, typ, class, ttl, rdata }, p + 10 + rdlen as usize),
        ),
        None => Err(DecodeError::Malformed),
    }
}

/// Decodes `count` questions in a row from `at` on.
fn queries<'a>(bs: &'a [u8], at: usize, count: u16) -> (r: Result<
    (Vec<Query<'a>>, usize),
    DecodeError,
>)
    ensures
        match r {
            Ok((v, end)) => spec_queries_from(bs@, at as int, count as nat, Seq::empty()) == Ok::<
                (Seq<QueryModel>, int),
                DecodeError,
            >((views(v@), end as int)),
            Err(e) => spec_queries_from(bs@, at as int, count as nat, Seq::empty()) == Err::<
                (Seq<QueryModel>, int),
                DecodeError,
            >(e),
        },
        r matches Ok((v, end)) ==> v@.len() == count && (at <= bs@.len() ==> at <= end
            <= bs@.len()),
{
    let mut out: Vec<Query<'a>> = Vec::new();
    let mut pos: usize = at;
    let mut i: u16 = 0;
    assert(views(out@) =~= Seq::<QueryModel>::empty());
    while i < count
        invariant
            i <= count,
            out@.len() == i,
            at <= bs@.len() ==> at <= pos <= bs@.len(),
            spec_queries_from(bs@, pos as int, (count - i) as nat, views(out@))
                == spec_queries_from(bs@, at as int, count as nat, Seq::empty()),
        decreases count - i,
    {
        let (q, next) = query(bs, pos)?;
        assert(views(out@.push(q)) =~= views(out@).push(q@));
        out.push(q);
        pos = next;
        i = i + 1;
    }
    Ok((out, pos))
}

/// Decodes `count` resource records in a row from `at` on.
fn records<'a>(bs: &'a [u8], at: usize, count: u16) -> (r: Result<
    (Vec<ResourceRecord<'a>>, usize),
    DecodeError,
>)
    ensures
        match r {
            Ok((v, end)) => spec_records_from(bs@, at as int, count as nat, Seq::empty()) == Ok::<
                (Seq<RecordModel>, int),
                DecodeError,
            >((views(v@), end as int)),
            Err(e) => spec_records_from(bs@, at as int, count as nat, Seq::empty()) == Err::<
                (Seq<RecordModel>, int),
                DecodeError,
            >(e),
        },
        r matches Ok((v, end)) ==> v@.len() == count && (at <= bs@.len() ==> at <= end
            <= bs@.len()),
{
    let mut out: Vec<ResourceRecord<'a>> = Vec::new();
    let mut pos: usize = at;
    let mut i: u16 = 0;
    assert(views(out@) =~= Seq::<RecordModel>::empty());
    while i < count
        invariant
            i <= count,
            out@.len() == i,
            at <= bs@.len() ==> at <= pos <= bs@.len(),
            spec_records_from(bs@, pos as int, (count - i) as nat, views(out@))
                == spec_records_from(bs@, at as int, count as nat, Seq::empty()),
        decreases count - i,
    {
        let (rec, next) = resource_record(bs, pos)?;
        assert(views(out@.push(rec)) =~= views(out@).push(rec@));
        out.push(rec);
        pos = next;
        i = i + 1;
    }
    Ok((out, pos))
}

/// Decodes the message that `bs` opens with, leaving compression pointers
/// as they stand. Either the whole message is decoded, each section with
/// exactly the number of entries that the header counts, or nothing is.
pub fn parse_dns_message<'a>(bs: &'a [u8]) -> (r: Result<(&'a [u8], Message<'a>), DecodeError>)
    ensures
        decoded(bs@, r, spec_message(bs@)),
        r matches Ok((_, m)) ==> {
            &&& m.questions@.len() == m.header.qdcount
            &&& m.answers@.len() == m.header.ancount
            &&& m.authorities@.len() == m.header.nscount
            &&& m.additional@.len() == m.header.arcount
            &&& m@.all_names(|n: NameModel| n.wf())
        },
{
    proof {
        lemma_section_counts(bs@);
        lemma_message_names_wf(bs@);
    }
    let (_, header) = parse_dns_header(bs)?;
    let (questions, an_at) = queries(bs, 12, header.qdcount)?;
    let (answers, ns_at) = records(bs, an_at, header.ancount)?;
    let (authorities, ar_at) = records(bs, ns_at, header.nscount)?;
    let (additional, end) = records(bs, ar_at, header.arcount)?;
    Ok((tail(bs, end), Message { header, questions, answers, authorities, additional }))
}

/// Decodes the message that `bytestr` opens with, then replaces every name
/// that ends in a compression pointer by the full name that it stands for.
/// A name whose pointer chain fails stays as it was decoded; the message is
/// returned all the same.
pub fn parse_dns_message_full<'a>(bytestr: &'a [u8]) -> (r: Result<
    (&'a [u8], Message<'a>),
    DecodeError,
>)
    ensures
        decoded(bytestr@, r, spec_message_full(bytestr@)),
        r matches Ok((_, m)) ==> {
            &&& m.questions@.len() == m.header.qdcount
            &&& m.answers@.len() == m.header.ancount
            &&& m.authorities@.len() == m.header.nscount
            &&& m.additional@.len() == m.header.arcount
            &&& m@.all_names(|n: NameModel| n.wf())
        },
{
    let (rest, mut msg) = parse_dns_message(bytestr)?;
    let ghost before = msg@;
    let mut parsed_pointers: HashMap<u16, DomainName<'a>> = HashMap::new();
    fix_queries(&mut msg.questions, &mut parsed_pointers, bytestr);
    fix_records(&mut msg.answers, &mut parsed_pointers, bytestr);
    fix_records(&mut msg.authorities, &mut parsed_pointers, bytestr);
    fix_records(&mut msg.additional, &mut parsed_pointers, bytestr);
    proof {
        let after = resolve_message(bytestr@, before);
        assert(msg@.questions =~= after.questions);
        assert(msg@.answers =~= after.answers);
        assert(msg@.authorities =~= after.authorities);
        assert(msg@.additional =~= after.additional);
        lemma_resolved_message_wf(bytestr@, before);
    }
    Ok((rest, msg))
}

} // verus!
