//! The second pass over a decoded DNS message: every name that ends in a
//! compression pointer is replaced by the full list of labels that it stands
//! for, found by decoding again at the offset that the pointer names.
//!
//! A chain of pointers is followed until a name without a pointer is reached.
//! A chain that comes back to an offset it has already visited stands for no
//! name, and neither does one that leads to bytes that do not decode; a field
//! whose chain fails is left as it was. Names decoded at an offset are kept
//! in a memo for the length of the pass, so that no offset is decoded twice.

use std::collections::{HashMap, HashSet};
use vstd::prelude::*;
use vstd::set_lib::{lemma_int_range, set_int_range};
use crate::dns::{
    domain_name, labels_wf, lemma_name_wf, spec_message, spec_name, DomainName, MessageModel,
    MinfoModel, MxModel, NameModel, Query, QueryModel, Rdata, RdataModel, RecordModel,
    ResourceRecord, SoaModel,
};
use crate::wire::{views, DecodeError};

verus! {

broadcast use vstd::std_specs::hash::group_hash_axioms;

/// The offsets that a pointer can name and that are not in `visited`.
pub open spec fn unvisited(visited: Set<int>) -> Set<int> {
    set_int_range(0, 0x10000).difference(visited)
}

/// Visiting a new offset leaves fewer offsets to visit.
pub proof fn lemma_unvisited_shrinks(visited: Set<int>, off: int)
    requires
        0 <= off < 0x10000,
        !visited.contains(off),
    ensures
        unvisited(visited).finite(),
        unvisited(visited.insert(off)).len() < unvisited(visited).len(),
{
    lemma_int_range(0, 0x10000);
    assert(unvisited(visited).contains(off));
    assert(unvisited(visited.insert(off)) =~= unvisited(visited).remove(off));
}

/// The labels that `name` stands for in the message `bs`, given the offsets
/// that the chain leading to `name` has visited: the labels of `name`
/// itself, followed by those of the name decoded at the offset it points to,
/// and so on. There are none if decoding fails at an offset of the chain, or
/// if the chain reaches an offset for the second time.
pub open spec fn spec_resolve(bs: Seq<u8>, name: NameModel, visited: Set<int>) -> Option<
    Seq<Seq<u8>>,
>
    decreases unvisited(visited).len(),
{
    match name.pointer() {
        None => Some(name.labels()),
        Some(off) => if visited.contains(off as int) {
            None
        } else {
            match spec_name(bs, off as int) {
                Err(_) => None,
                Ok((target, _)) => {
                    proof {
                        lemma_unvisited_shrinks(visited, off as int);
                    }
                    match spec_resolve(bs, target, visited.insert(off as int)) {
                        None => None,
                        Some(rest) => Some(name.labels() + rest),
                    }
                },
            }
        },
    }
}

/// The labels that `name` stands for in the message `bs`.
pub open spec fn spec_expand(bs: Seq<u8>, name: NameModel) -> Option<Seq<Seq<u8>>> {
    spec_resolve(bs, name, Set::empty())
}

/// A name after the pass: its full list of labels where it stands for one,
/// else the name as it was.
pub open spec fn resolve_name(bs: Seq<u8>, name: NameModel) -> NameModel {
    match spec_expand(bs, name) {
        Some(labels) => NameModel::Labels(labels),
        None => name,
    }
}

/// `front` before the labels of `rest`, where there are any.
pub open spec fn prepend(front: Seq<Seq<u8>>, rest: Option<Seq<Seq<u8>>>) -> Option<
    Seq<Seq<u8>>,
> {
    match rest {
        Some(l) => Some(front + l),
        None => None,
    }
}

/// Every entry of the memo is the name that decodes at its offset.
pub open spec fn memo_ok(bs: Seq<u8>, memo: Map<u16, DomainName>) -> bool {
    forall|off: u16| #[trigger]
        memo.contains_key(off) ==> (spec_name(bs, off as int) matches Ok((name, _)) && memo[off]@
            == name)
}

/// The name that decodes at `off`, from the memo where it holds one; a name
/// decoded afresh is added to the memo.
fn lookup<'a>(bs: &'a [u8], off: u16, memo: &mut HashMap<u16, DomainName<'a>>) -> (r: Option<
    DomainName<'a>,
>)
    requires
        memo_ok(bs@, old(memo)@),
    ensures
        memo_ok(bs@, final(memo)@),
        match r {
            Some(name) => spec_name(bs@, off as int) matches Ok((m, _)) && name@ == m,
            None => spec_name(bs@, off as int) is Err,
        },
{
    if let Some(known) = memo.get(&off) {
        return Some(known.clone());
    }
    match domain_name(bs, off as usize) {
        Ok((name, _)) => {
            memo.insert(off, name.clone());
            Some(name)
        },
        Err(_) => None,
    }
}

/// Adds the views of `more` to the end of `acc`.
fn extend_views<'a>(acc: &mut Vec<&'a [u8]>, more: &Vec<&'a [u8]>)
    ensures
        final(acc)@ == old(acc)@ + more@,
{
    let mut i: usize = 0;
    while i < more.len()
        invariant
            i <= more@.len(),
            acc@ == old(acc)@ + more@.take(i as int),
        decreases more@.len() - i,
    {
        acc.push(more[i]);
        i = i + 1;
        assert(acc@ =~= old(acc)@ + more@.take(i as int));
    }
    assert(more@.take(i as int) =~= more@);
}

/// Expands `domain` in the message `bytestr`: the full name that it stands
/// for, or nothing where its chain of pointers fails.
pub(crate) fn domain_deref<'a>(
    domain: &DomainName<'a>,
    dict: &mut HashMap<u16, DomainName<'a>>,
    bytestr: &'a [u8],
) -> (r: Option<DomainName<'a>>)
    requires
        memo_ok(bytestr@, old(dict)@),
    ensures
        memo_ok(bytestr@, final(dict)@),
        match r {
            Some(name) => spec_expand(bytestr@, domain@) matches Some(labels) && name@
                == NameModel::Labels(labels),
            None => spec_expand(bytestr@, domain@) is None,
        },
{
    let mut acc: Vec<&'a [u8]> = Vec::new();
    let mut cur: DomainName<'a> = domain.clone();
    let mut seen: HashSet<u16> = HashSet::new();
    let ghost mut visited: Set<int> = Set::empty();
    proof {
        if let Some(labels) = spec_resolve(bytestr@, cur@, visited) {
            assert(views(acc@) + labels =~= labels);
        }
    }
    loop
        invariant
            memo_ok(bytestr@, dict@),
            forall|o: u16| seen@.contains(o) <==> visited.contains(o as int),
            spec_expand(bytestr@, domain@) == prepend(
                views(acc@),
                spec_resolve(bytestr@, cur@, visited),
            ),
        decreases unvisited(visited).len(),
    {
        let ghost front = views(acc@);
        let ghost name = cur@;
        let off = match cur {
            DomainName::Labels(l) => {
                extend_views(&mut acc, &l);
                proof {
                    assert(views(acc@) =~= front + name.labels());
                }
                return Some(DomainName::Labels(acc));
            },
            DomainName::Pointer(off) => off,
            DomainName::LabelWithPointer(l, off) => {
                extend_views(&mut acc, &l);
                off
            },
        };
        proof {
            assert(views(acc@) =~= front + name.labels());
        }
        if seen.contains(&off) {
            return None;
        }
        seen.insert(off);
        let target = match lookup(bytestr, off, dict) {
            Some(t) => t,
            None => { return None; },
        };
        proof {
            lemma_unvisited_shrinks(visited, off as int);
            let next = spec_resolve(bytestr@, target@, visited.insert(off as int));
            if let Some(rest) = next {
                assert((front + name.labels()) + rest =~= front + (name.labels() + rest));
            }
            visited = visited.insert(off as int);
        }
        cur = target;
    }
}

/// The body of a record after the pass: each name in it resolved.
pub open spec fn resolve_rdata(bs: Seq<u8>, rdata: RdataModel) -> RdataModel {
    match rdata {
        RdataModel::Cname(n) => RdataModel::Cname(resolve_name(bs, n)),
        RdataModel::MB(n) => RdataModel::MB(resolve_name(bs, n)),
        RdataModel::MD(n) => RdataModel::MD(resolve_name(bs, n)),
        RdataModel::MF(n) => RdataModel::MF(resolve_name(bs, n)),
        RdataModel::MG(n) => RdataModel::MG(resolve_name(bs, n)),
        RdataModel::MR(n) => RdataModel::MR(resolve_name(bs, n)),
        RdataModel::NS(n) => RdataModel::NS(resolve_name(bs, n)),
        RdataModel::Ptr(n) => RdataModel::Ptr(resolve_name(bs, n)),
        RdataModel::Minfo(m) => RdataModel::Minfo(
            MinfoModel {
                rmailbox: resolve_name(bs, m.rmailbox),
                emailbox: resolve_name(bs, m.emailbox),
            },
        ),
        RdataModel::MX(m) => RdataModel::MX(
            MxModel { preference: m.preference, exchange: resolve_name(bs, m.exchange) },
        ),
        RdataModel::Soa(s) => RdataModel::Soa(
            SoaModel {
                mname: resolve_name(bs, s.mname),
                rname: resolve_name(bs, s.rname),
                serial: s.serial,
                refresh: s.refresh,
                retry: s.retry,
                expire: s.expire,
                minimum: s.minimum,
            },
        ),
        RdataModel::Hinfo(_) => rdata,
        RdataModel::Null(_) => rdata,
        RdataModel::Txt(_) => rdata,
        RdataModel::A(_) => rdata,
        RdataModel::Wks(_) => rdata,
        RdataModel::AAAA(_) => rdata,
        RdataModel::Unknown(_) => rdata,
    }
}

/// A record after the pass: its owner name and the names in its body
/// resolved, the rest as it was.
pub open spec fn resolve_record(bs: Seq<u8>, rec: RecordModel) -> RecordModel {
    RecordModel {
        name: resolve_name(bs, rec.name),
        typ: rec.typ,
        class: rec.class,
        ttl: rec.ttl,
        rdata: resolve_rdata(bs, rec.rdata),
    }
}

/// A question after the pass.
pub open spec fn resolve_query(bs: Seq<u8>, q: QueryModel) -> QueryModel {
    QueryModel { qname: resolve_name(bs, q.qname), qtype: q.qtype, qclass: q.qclass }
}

/// A message after the pass: every question and every record resolved, in
/// the order in which they stood.
pub open spec fn resolve_message(bs: Seq<u8>, m: MessageModel) -> MessageModel {
    MessageModel {
        header: m.header,
        questions: Seq::new(m.questions.len(), |i: int| resolve_query(bs, m.questions[i])),
        answers: Seq::new(m.answers.len(), |i: int| resolve_record(bs, m.answers[i])),
        authorities: Seq::new(m.authorities.len(), |i: int| resolve_record(bs, m.authorities[i])),
        additional: Seq::new(m.additional.len(), |i: int| resolve_record(bs, m.additional[i])),
    }
}

/// Replaces `name` by the full name that it stands for, where there is one.
fn fix_name<'a>(
    name: &mut DomainName<'a>,
    dict: &mut HashMap<u16, DomainName<'a>>,
    bytestr: &'a [u8],
)
    requires
        memo_ok(bytestr@, old(dict)@),
    ensures
        memo_ok(bytestr@, final(dict)@),
        final(name)@ == resolve_name(bytestr@, old(name)@),
{
    match domain_deref(name, dict, bytestr) {
        Some(full) => {
            *name = full;
        },
        None => {},
    }
}

/// Resolves the owner name of `record` and the names in its body.
pub(crate) fn fix_record<'a>(
    record: &mut ResourceRecord<'a>,
    dict: &mut HashMap<u16, DomainName<'a>>,
    bytestr: &'a [u8],
)
    requires
        memo_ok(bytestr@, old(dict)@),
    ensures
        memo_ok(bytestr@, final(dict)@),
        final(record)@ == resolve_record(bytestr@, old(record)@),
{
    fix_name(&mut record.name, dict, bytestr);
    match &mut record.rdata {
        Rdata::Cname(domain) => fix_name(domain, dict, bytestr),
        Rdata::MB(domain) => fix_name(domain, dict, bytestr),
        Rdata::MD(domain) => fix_name(domain, dict, bytestr),
        Rdata::MF(domain) => fix_name(domain, dict, bytestr),
        Rdata::MG(domain) => fix_name(domain, dict, bytestr),
        Rdata::MR(domain) => fix_name(domain, dict, bytestr),
        Rdata::NS(domain) => fix_name(domain, dict, bytestr),
        Rdata::Ptr(domain) => fix_name(domain, dict, bytestr),
        Rdata::Minfo(minfo) => {
            fix_name(&mut minfo.rmailbox, dict, bytestr);
            fix_name(&mut minfo.emailbox, dict, bytestr);
        },
        Rdata::MX(mx) => fix_name(&mut mx.exchange, dict, bytestr),
        Rdata::Soa(soa) => {
            fix_name(&mut soa.mname, dict, bytestr);
            fix_name(&mut soa.rname, dict, bytestr);
        },
        Rdata::Hinfo(_) => {},
        Rdata::Null(_) => {},
        Rdata::Txt(_) => {},
        Rdata::A(_) => {},
        Rdata::Wks(_) => {},
        Rdata::AAAA(_) => {},
        Rdata::Unknown(_) => {},
    }
}

/// Resolves every record of a section.
pub(crate) fn fix_records<'a>(
    records: &mut Vec<ResourceRecord<'a>>,
    dict: &mut HashMap<u16, DomainName<'a>>,
    bytestr: &'a [u8],
)
    requires
        memo_ok(bytestr@, old(dict)@),
    ensures
        memo_ok(bytestr@, final(dict)@),
        final(records)@.len() == old(records)@.len(),
        forall|i: int|
            0 <= i < old(records)@.len() ==> (#[trigger] final(records)@[i])@ == resolve_record(
                bytestr@,
                old(records)@[i]@,
            ),
{
    let mut i: usize = 0;
    while i < records.len()
        invariant
            memo_ok(bytestr@, dict@),
            records@.len() == old(records)@.len(),
            i <= records@.len(),
            forall|j: int|
                0 <= j < i ==> (#[trigger] records@[j])@ == resolve_record(
                    bytestr@,
                    old(records)@[j]@,
                ),
            forall|j: int| i <= j < records@.len() ==> records@[j] == old(records)@[j],
        decreases records@.len() - i,
    {
        fix_record(&mut records[i], dict, bytestr);
        i = i + 1;
    }
}

/// Resolves the name of every question.
pub(crate) fn fix_queries<'a>(
    queries: &mut Vec<Query<'a>>,
    dict: &mut HashMap<u16, DomainName<'a>>,
    bytestr: &'a [u8],
)
    requires
        memo_ok(bytestr@, old(dict)@),
    ensures
        memo_ok(bytestr@, final(dict)@),
        final(queries)@.len() == old(queries)@.len(),
        forall|i: int|
            0 <= i < old(queries)@.len() ==> (#[trigger] final(queries)@[i])@ == resolve_query(
                bytestr@,
                old(queries)@[i]@,
            ),
{
    let mut i: usize = 0;
    while i < queries.len()
        invariant
            memo_ok(bytestr@, dict@),
            queries@.len() == old(queries)@.len(),
            i <= queries@.len(),
            forall|j: int|
                0 <= j < i ==> (#[trigger] queries@[j])@ == resolve_query(
                    bytestr@,
                    old(queries)@[j]@,
                ),
            forall|j: int| i <= j < queries@.len() ==> queries@[j] == old(queries)@[j],
        decreases queries@.len() - i,
    {
        fix_name(&mut queries[i].qname, dict, bytestr);
        i = i + 1;
    }
}

/// The message that `bs` opens with, after the pass, and the position after
/// it. The pass changes no outcome: a message that does not decode fails as
/// it did.
pub open spec fn spec_message_full(bs: Seq<u8>) -> Result<(MessageModel, int), DecodeError> {
    match spec_message(bs) {
        Err(e) => Err(e),
        Ok((m, end)) => Ok((resolve_message(bs, m), end)),
    }
}

/// After the pass, a record whose names each stand for a list of labels
/// holds complete names only.
pub proof fn lemma_record_fully_resolved(bs: Seq<u8>, rec: RecordModel)
    requires
        rec.all_names(|n: NameModel| spec_expand(bs, n) is Some),
    ensures
        resolve_record(bs, rec).all_names(|n: NameModel| n is Labels),
{
}

/// After the pass, no pointer is left in a message whose every name stands
/// for a list of labels, that is, in which every chain of pointers leads
/// through names that decode and never returns to an offset: each name in
/// the message is then a complete name.
pub proof fn lemma_message_fully_resolved(bs: Seq<u8>, m: MessageModel)
    requires
        m.all_names(|n: NameModel| spec_expand(bs, n) is Some),
    ensures
        resolve_message(bs, m).all_names(|n: NameModel| n is Labels),
{
    let after = resolve_message(bs, m);
    let p = |n: NameModel| n is Labels;
    assert forall|i: int| 0 <= i < after.questions.len() implies p(
        #[trigger] after.questions[i].qname,
    ) by {
        assert(spec_expand(bs, m.questions[i].qname) is Some);
    }
    assert forall|i: int| 0 <= i < after.answers.len() implies (
    #[trigger] after.answers[i]).all_names(p) by {
        lemma_record_fully_resolved(bs, m.answers[i]);
    }
    assert forall|i: int| 0 <= i < after.authorities.len() implies (
    #[trigger] after.authorities[i]).all_names(p) by {
        lemma_record_fully_resolved(bs, m.authorities[i]);
    }
    assert forall|i: int| 0 <= i < after.additional.len() implies (
    #[trigger] after.additional[i]).all_names(p) by {
        lemma_record_fully_resolved(bs, m.additional[i]);
    }
}

/// The labels that a well-formed name stands for are well formed: each holds
/// at least one byte and fewer than 64.
pub proof fn lemma_resolved_labels_wf(bs: Seq<u8>, name: NameModel, visited: Set<int>)
    requires
        name.wf(),
    ensures
        spec_resolve(bs, name, visited) matches Some(labels) ==> labels_wf(labels),
    decreases unvisited(visited).len(),
{
    if let Some(off) = name.pointer() {
        if !visited.contains(off as int) {
            if let Ok((target, _)) = spec_name(bs, off as int) {
                lemma_unvisited_shrinks(visited, off as int);
                lemma_name_wf(bs, off as int, Seq::empty());
                lemma_resolved_labels_wf(bs, target, visited.insert(off as int));
                if let Some(rest) = spec_resolve(bs, target, visited.insert(off as int)) {
                    let all = name.labels() + rest;
                    assert forall|i: int| 0 <= i < all.len() implies 1 <= (#[trigger] all[i]).len()
                        < 64 by {
                        if i < name.labels().len() {
                            assert(all[i] == name.labels()[i]);
                        } else {
                            assert(all[i] == rest[i - name.labels().len()]);
                        }
                    }
                }
            }
        }
    }
}

/// The pass keeps names well formed.
pub proof fn lemma_resolved_name_wf(bs: Seq<u8>, name: NameModel)
    requires
        name.wf(),
    ensures
        resolve_name(bs, name).wf(),
{
    lemma_resolved_labels_wf(bs, name, Set::empty());
}

/// The pass keeps every name of a record well formed.
pub proof fn lemma_resolved_record_wf(bs: Seq<u8>, rec: RecordModel)
    requires
        rec.all_names(|n: NameModel| n.wf()),
    ensures
        resolve_record(bs, rec).all_names(|n: NameModel| n.wf()),
{
    lemma_resolved_name_wf(bs, rec.name);
    match rec.rdata {
        RdataModel::Cname(n) => lemma_resolved_name_wf(bs, n),
        RdataModel::MB(n) => lemma_resolved_name_wf(bs, n),
        RdataModel::MD(n) => lemma_resolved_name_wf(bs, n),
        RdataModel::MF(n) => lemma_resolved_name_wf(bs, n),
        RdataModel::MG(n) => lemma_resolved_name_wf(bs, n),
        RdataModel::MR(n) => lemma_resolved_name_wf(bs, n),
        RdataModel::NS(n) => lemma_resolved_name_wf(bs, n),
        RdataModel::Ptr(n) => lemma_resolved_name_wf(bs, n),
        RdataModel::Minfo(m) => {
            lemma_resolved_name_wf(bs, m.rmailbox);
            lemma_resolved_name_wf(bs, m.emailbox);
        },
        RdataModel::MX(m) => lemma_resolved_name_wf(bs, m.exchange),
        RdataModel::Soa(s) => {
            lemma_resolved_name_wf(bs, s.mname);
            lemma_resolved_name_wf(bs, s.rname);
        },
        _ => {},
    }
}

/// The pass keeps every name of a message well formed.
pub proof fn lemma_resolved_message_wf(bs: Seq<u8>, m: MessageModel)
    requires
        m.all_names(|n: NameModel| n.wf()),
    ensures
        resolve_message(bs, m).all_names(|n: NameModel| n.wf()),
{
    let after = resolve_message(bs, m);
    let p = |n: NameModel| n.wf();
    assert forall|i: int| 0 <= i < after.questions.len() implies p(
        #[trigger] after.questions[i].qname,
    ) by {
        lemma_resolved_name_wf(bs, m.questions[i].qname);
    }
    assert forall|i: int| 0 <= i < after.answers.len() implies (
    #[trigger] after.answers[i]).all_names(p) by {
        lemma_resolved_record_wf(bs, m.answers[i]);
    }
    assert forall|i: int| 0 <= i < after.authorities.len() implies (
    #[trigger] after.authorities[i]).all_names(p) by {
        lemma_resolved_record_wf(bs, m.authorities[i]);
    }
    assert forall|i: int| 0 <= i < after.additional.len() implies (
    #[trigger] after.additional[i]).all_names(p) by {
        lemma_resolved_record_wf(bs, m.additional[i]);
    }
}

/// A name whose pointer names an offset at or past the end of the message
/// stands for no list of labels, so the pass leaves it as it is.
pub proof fn lemma_pointer_past_end(bs: Seq<u8>, name: NameModel)
    requires
        name.pointer() matches Some(off) && off >= bs.len(),
    ensures
        spec_expand(bs, name) is None,
        resolve_name(bs, name) == name,
{
}

/// A complete name stands for its own labels, so the pass does not change
/// it.
pub proof fn lemma_labels_unchanged(bs: Seq<u8>, name: NameModel)
    requires
        name is Labels,
    ensures
        resolve_name(bs, name) == name,
{
}

} // verus!
