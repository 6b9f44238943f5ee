//! DNS messages: names and records on the wire.

use vstd::prelude::*;
use vstd::slice::slice_subrange;
use crate::bytes::{
    get_u16_be, push_bytes, push_u16_be, push_u32_be, read_u16_be, u16_be, u32_be,
};

verus! {

pub const TYPE_A: u16 = 1;

pub const TYPE_PTR: u16 = 12;

pub const TYPE_TXT: u16 = 16;

pub const TYPE_AAAA: u16 = 28;

pub const TYPE_SRV: u16 = 33;

pub const TYPE_ANY: u16 = 255;

pub const CLASS_IN: u16 = 0x0001;

/// `IN` with the bit that replaces older records of the name.
pub const CLASS_IN_FLUSH: u16 = 0x8001;

pub const HEADER_SIZE: usize = 12;

/// Pointers that are followed in one name.
pub const MAX_JUMPS: u8 = 15;

// ── Writing ──────────────────────────────────────────────────────────────────

/// A label on the wire: its length, then its bytes.
pub open spec fn label_bytes(label: Seq<u8>) -> Seq<u8> {
    seq![(label.len() % 256) as u8] + label
}

/// Labels on the wire, one after the other.
pub open spec fn labels_bytes(labels: Seq<Seq<u8>>) -> Seq<u8>
    decreases labels.len(),
{
    if labels.len() == 0 {
        Seq::empty()
    } else {
        labels_bytes(labels.drop_last()) + label_bytes(labels.last())
    }
}

/// A name on the wire: its labels and an empty one.
pub open spec fn name_bytes(labels: Seq<Seq<u8>>) -> Seq<u8> {
    labels_bytes(labels).push(0)
}

/// The bytes of each label.
pub open spec fn label_list(labels: Seq<&[u8]>) -> Seq<Seq<u8>> {
    labels.map_values(|l: &[u8]| l@)
}

/// A record on the wire.
pub open spec fn record_bytes(
    labels: Seq<Seq<u8>>,
    rtype: u16,
    class: u16,
    ttl: u32,
    rdata: Seq<u8>,
) -> Seq<u8> {
    name_bytes(labels) + u16_be(rtype) + u16_be(class) + u32_be(ttl) + u16_be(
        (rdata.len() % 0x1_0000) as u16,
    ) + rdata
}

/// The header of an unasked answer: no questions, so many answers, and so many
/// additional records.
pub open spec fn announcement_header(answers: u16, additional: u16) -> Seq<u8> {
    u16_be(0) + u16_be(0x8400) + u16_be(0) + u16_be(answers) + u16_be(0) + u16_be(additional)
}

/// Appends a name.
pub fn push_name(out: &mut Vec<u8>, labels: &[&[u8]])
    ensures
        final(out)@ == old(out)@ + name_bytes(label_list(labels@)),
{
    let ghost before = out@;
    let ghost all = label_list(labels@);
    let mut i: usize = 0;
    while i < labels.len()
        invariant
            i <= labels@.len(),
            all == label_list(labels@),
            out@ == before + labels_bytes(all.take(i as int)),
        decreases labels@.len() - i,
    {
        assert(all.take(i + 1).drop_last() == all.take(i as int));
        let label: &[u8] = labels[i];
        out.push((label.len() % 256) as u8);
        push_bytes(out, label);
        assert(out@ == before + labels_bytes(all.take(i as int)) + label_bytes(label@));
        assert(out@ == before + labels_bytes(all.take(i + 1)));
        i = i + 1;
    }
    assert(all.take(i as int) == all);
    out.push(0);
    assert(out@ == before + name_bytes(all));
}

/// Appends a record.
pub fn push_record(out: &mut Vec<u8>, labels: &[&[u8]], rtype: u16, class: u16, ttl: u32, rdata: &[u8])
    ensures
        final(out)@ == old(out)@ + record_bytes(label_list(labels@), rtype, class, ttl, rdata@),
{
    push_name(out, labels);
    push_u16_be(out, rtype);
    push_u16_be(out, class);
    push_u32_be(out, ttl);
    push_u16_be(out, (rdata.len() % 0x1_0000) as u16);
    push_bytes(out, rdata);
    assert(out@ == old(out)@ + record_bytes(label_list(labels@), rtype, class, ttl, rdata@));
}

/// Appends the header of an unasked answer.
pub fn push_announcement_header(out: &mut Vec<u8>, answers: u16, additional: u16)
    ensures
        final(out)@ == old(out)@ + announcement_header(answers, additional),
{
    push_u16_be(out, 0);
    push_u16_be(out, 0x8400);
    push_u16_be(out, 0);
    push_u16_be(out, answers);
    push_u16_be(out, 0);
    push_u16_be(out, additional);
    assert(out@ == old(out)@ + announcement_header(answers, additional));
}

// ── Reading ──────────────────────────────────────────────────────────────────

/// The labels of the name at `at`, and where what follows the name starts. A
/// name may end in a pointer to the rest of it; at most `jumps` are followed.
pub open spec fn name_at(p: Seq<u8>, at: int, jumps: nat) -> Option<(Seq<Seq<u8>>, int)>
    decreases jumps, p.len() - at,
{
    if at < 0 || at >= p.len() {
        None
    } else if p[at] >= 0xC0 {
        if at + 1 >= p.len() || jumps == 0 {
            None
        } else {
            match name_at(p, (p[at] - 0xC0) * 256 + p[at + 1], (jumps - 1) as nat) {
                Some(rest) => Some((rest.0, at + 2)),
                None => None,
            }
        }
    } else if p[at] >= 0x40 {
        None
    } else if p[at] == 0 {
        Some((Seq::empty(), at + 1))
    } else if at + 1 + p[at] > p.len() {
        None
    } else {
        match name_at(p, at + 1 + p[at], jumps) {
            Some(rest) => Some((seq![p.subrange(at + 1, at + 1 + p[at])] + rest.0, rest.1)),
            None => None,
        }
    }
}

/// A byte with an ASCII capital made small.
pub open spec fn lower_byte(b: u8) -> u8 {
    if 65 <= b <= 90 {
        (b + 32) as u8
    } else {
        b
    }
}

/// Whether two labels are equal but for the case of ASCII letters.
pub open spec fn same_label(a: Seq<u8>, b: Seq<u8>) -> bool {
    a.len() == b.len() && forall|i: int|
        0 <= i < a.len() ==> lower_byte(#[trigger] a[i]) == lower_byte(b[i])
}

/// Whether the first of the wanted labels are these.
pub open spec fn labels_start(labels: Seq<Seq<u8>>, wanted: Seq<Seq<u8>>) -> bool {
    labels.len() <= wanted.len() && forall|i: int|
        0 <= i < labels.len() ==> same_label(#[trigger] labels[i], wanted[i])
}

/// Whether the labels are the wanted ones.
pub open spec fn labels_match(labels: Seq<Seq<u8>>, wanted: Seq<Seq<u8>>) -> bool {
    labels.len() == wanted.len() && labels_start(labels, wanted)
}

fn lower_of(b: u8) -> (r: u8)
    ensures
        r == lower_byte(b),
{
    if 65 <= b && b <= 90 {
        b + 32
    } else {
        b
    }
}

/// Tests whether two labels are equal but for the case of ASCII letters.
pub fn bytes_eq_ascii_ignore_case(a: &[u8], b: &[u8]) -> (r: bool)
    ensures
        r == same_label(a@, b@),
{
    if a.len() != b.len() {
        return false;
    }
    let mut i: usize = 0;
    while i < a.len()
        invariant
            i <= a@.len() == b@.len(),
            forall|j: int| 0 <= j < i ==> lower_byte(#[trigger] a@[j]) == lower_byte(b@[j]),
        decreases a@.len() - i,
    {
        if lower_of(a[i]) != lower_of(b[i]) {
            return false;
        }
        i = i + 1;
    }
    true
}

/// What is read of a whole name once its first labels and the rest are.
pub open spec fn joined(done: Seq<Seq<u8>>, end: Option<int>, rest: Option<(Seq<Seq<u8>>, int)>) -> Option<
    (Seq<Seq<u8>>, int),
> {
    match rest {
        Some(r) => Some(
            (
                done + r.0,
                match end {
                    Some(e) => e,
                    None => r.1,
                },
            ),
        ),
        None => None,
    }
}

proof fn joined_label(
    done: Seq<Seq<u8>>,
    end: Option<int>,
    label: Seq<u8>,
    rest: Option<(Seq<Seq<u8>>, int)>,
)
    ensures
        joined(
            done,
            end,
            match rest {
                Some(r) => Some((seq![label] + r.0, r.1)),
                None => None,
            },
        ) == joined(done.push(label), end, rest),
{
    if let Some(r) = rest {
        assert(done + (seq![label] + r.0) == done.push(label) + r.0);
    }
}

/// Copies bytes.
fn copied(bytes: &[u8]) -> (r: Vec<u8>)
    ensures
        r@ == bytes@,
{
    let mut out: Vec<u8> = Vec::new();
    push_bytes(&mut out, bytes);
    assert(out@ == bytes@);
    out
}

/// The bytes of each label.
pub open spec fn labels_view(labels: Seq<Vec<u8>>) -> Seq<Seq<u8>> {
    labels.map_values(|l: Vec<u8>| l@)
}

/// Reads the name at `start`. Returns its labels, and where what follows the
/// name starts. Fails where the message holds no name there.
pub fn read_name(packet: &[u8], start: usize) -> (r: Option<(Vec<Vec<u8>>, usize)>)
    ensures
        match r {
            Some(name) => name_at(packet@, start as int, MAX_JUMPS as nat) == Some(
                (labels_view(name.0@), name.1 as int),
            ) && start < name.1 <= packet@.len(),
            None => name_at(packet@, start as int, MAX_JUMPS as nat) is None,
        },
{
    let n: usize = packet.len();
    let ghost whole = name_at(packet@, start as int, MAX_JUMPS as nat);
    let mut labels: Vec<Vec<u8>> = Vec::new();
    let mut cursor: usize = start;
    let mut jumps: u8 = MAX_JUMPS;
    let mut end: Option<usize> = None;
    proof {
        assert(labels_view(labels@) == Seq::<Seq<u8>>::empty());
        if let Some(name) = whole {
            assert(Seq::<Seq<u8>>::empty() + name.0 == name.0);
        }
    }
    loop
        invariant
            n == packet@.len(),
            whole == name_at(packet@, start as int, MAX_JUMPS as nat),
            whole == joined(
                labels_view(labels@),
                match end {
                    Some(e) => Some(e as int),
                    None => None,
                },
                name_at(packet@, cursor as int, jumps as nat),
            ),
            end matches Some(e) ==> start < e <= n,
            end is None ==> start <= cursor,
        decreases jumps, n - cursor,
    {
        if cursor >= n {
            return None;
        }
        let len: u8 = packet[cursor];
        if len >= 0xC0 {
            if n - cursor < 2 || jumps == 0 {
                return None;
            }
            let ptr: usize = (len - 0xC0) as usize * 256 + packet[cursor + 1] as usize;
            if end.is_none() {
                end = Some(cursor + 2);
            }
            cursor = ptr;
            jumps = jumps - 1;
            continue;
        }
        if len >= 0x40 {
            return None;
        }
        if len == 0 {
            let next: usize = match end {
                Some(e) => e,
                None => cursor + 1,
            };
            assert(labels_view(labels@) + Seq::<Seq<u8>>::empty() == labels_view(labels@));
            return Some((labels, next));
        }
        let label_len: usize = len as usize;
        if n - cursor < 1 + label_len {
            return None;
        }
        let label: &[u8] = slice_subrange(packet, cursor + 1, cursor + 1 + label_len);
        let copy: Vec<u8> = copied(label);
        proof {
            joined_label(
                labels_view(labels@),
                match end {
                    Some(e) => Some(e as int),
                    None => None,
                },
                label@,
                name_at(packet@, cursor + 1 + label_len, jumps as nat),
            );
            assert(labels_view(labels@.push(copy)) == labels_view(labels@).push(label@));
        }
        labels.push(copy);
        cursor = cursor + 1 + label_len;
    }
}

/// Tests whether the labels from `from` on are the wanted ones.
pub fn labels_are(labels: &Vec<Vec<u8>>, from: usize, wanted: &[&[u8]]) -> (r: bool)
    ensures
        r == (from <= labels@.len() && labels_match(
            labels_view(labels@).skip(from as int),
            label_list(wanted@),
        )),
{
    let n: usize = labels.len();
    if n < from || n - from != wanted.len() {
        return false;
    }
    let ghost rest = labels_view(labels@).skip(from as int);
    let mut i: usize = 0;
    while i < wanted.len()
        invariant
            i <= wanted@.len(),
            n == labels@.len(),
            n - from == wanted@.len(),
            rest == labels_view(labels@).skip(from as int),
            forall|j: int|
                0 <= j < i ==> same_label(#[trigger] rest[j], label_list(wanted@)[j]),
        decreases wanted@.len() - i,
    {
        assert(rest[i as int] == labels@[from + i]@);
        assert(label_list(wanted@)[i as int] == wanted@[i as int]@);
        if !bytes_eq_ascii_ignore_case(labels[from + i].as_slice(), wanted[i]) {
            return false;
        }
        i = i + 1;
    }
    true
}

/// A record of a message. Its data is known by where it lies.
pub struct RecordView {
    pub labels: Seq<Seq<u8>>,
    pub rtype: u16,
    pub data_at: int,
    pub data_len: int,
}

/// The record at `at`.
pub open spec fn record_at(p: Seq<u8>, at: int) -> Option<RecordView> {
    match name_at(p, at, MAX_JUMPS as nat) {
        Some(name) => if name.1 + 10 <= p.len() && name.1 + 10 + get_u16_be(p, name.1 + 8)
            <= p.len() {
            Some(
                RecordView {
                    labels: name.0,
                    rtype: get_u16_be(p, name.1),
                    data_at: name.1 + 10,
                    data_len: get_u16_be(p, name.1 + 8) as int,
                },
            )
        } else {
            None
        },
        None => None,
    }
}

/// A record of a message.
pub struct Record {
    pub labels: Vec<Vec<u8>>,
    pub rtype: u16,
    pub data_at: usize,
    pub data_len: usize,
}

impl View for Record {
    type V = RecordView;

    open spec fn view(&self) -> RecordView {
        RecordView {
            labels: labels_view(self.labels@),
            rtype: self.rtype,
            data_at: self.data_at as int,
            data_len: self.data_len as int,
        }
    }
}

/// Reads the record at `at`.
pub fn read_record(packet: &[u8], at: usize) -> (r: Option<Record>)
    ensures
        match r {
            Some(record) => record_at(packet@, at as int) == Some(record@) && at < record.data_at
                && record.data_at + record.data_len <= packet@.len(),
            None => record_at(packet@, at as int) is None,
        },
{
    let n: usize = packet.len();
    match read_name(packet, at) {
        Some((labels, end)) => {
            if n - end < 10 {
                return None;
            }
            let data_len: usize = read_u16_be(packet, end + 8) as usize;
            if n - end - 10 < data_len {
                return None;
            }
            Some(
                Record { labels, rtype: read_u16_be(packet, end), data_at: end + 10, data_len },
            )
        },
        None => None,
    }
}

// ── Reading back ─────────────────────────────────────────────────────────────

/// Whether a label has a length that the wire can hold.
pub open spec fn proper_label(label: Seq<u8>) -> bool {
    1 <= label.len() <= 63
}

/// Whether every label has a length that the wire can hold.
pub open spec fn proper_labels(labels: Seq<Seq<u8>>) -> bool {
    forall|i: int| 0 <= i < labels.len() ==> proper_label(#[trigger] labels[i])
}

/// Whether bytes stand at `at`.
pub open spec fn stands_at(p: Seq<u8>, at: int, b: Seq<u8>) -> bool {
    0 <= at && at + b.len() <= p.len() && p.subrange(at, at + b.len()) == b
}

proof fn labels_bytes_front(labels: Seq<Seq<u8>>)
    requires
        labels.len() > 0,
    ensures
        labels_bytes(labels) == label_bytes(labels[0]) + labels_bytes(labels.drop_first()),
    decreases labels.len(),
{
    if labels.len() == 1 {
        assert(labels.drop_last() == Seq::<Seq<u8>>::empty());
        assert(labels.drop_first() == Seq::<Seq<u8>>::empty());
        assert(labels_bytes(labels.drop_last()) == Seq::<u8>::empty());
        assert(labels_bytes(labels) == label_bytes(labels[0]));
    } else {
        labels_bytes_front(labels.drop_last());
        assert(labels.drop_last().drop_first() == labels.drop_first().drop_last());
        assert(labels_bytes(labels) == label_bytes(labels[0]) + labels_bytes(labels.drop_first()));
    }
}

/// A name that was written is read back from where it stands.
pub proof fn name_read_back(p: Seq<u8>, at: int, labels: Seq<Seq<u8>>, jumps: nat)
    requires
        proper_labels(labels),
        stands_at(p, at, name_bytes(labels)),
    ensures
        name_at(p, at, jumps) == Some((labels, at + name_bytes(labels).len())),
    decreases labels.len(),
{
    let b = name_bytes(labels);
    let s = p.subrange(at, at + b.len());
    if labels.len() == 0 {
        assert(s[0] == 0);
        assert(labels == Seq::<Seq<u8>>::empty());
    } else {
        let label = labels[0];
        let rest = labels.drop_first();
        labels_bytes_front(labels);
        assert(proper_label(labels[0]));
        assert forall|i: int| 0 <= i < rest.len() implies proper_label(#[trigger] rest[i]) by {
            assert(rest[i] == labels[i + 1]);
        }
        let n = label.len() as int;
        assert(b == label_bytes(label) + name_bytes(rest));
        assert(s[0] == b[0]);
        assert(p[at] == n);
        assert(p.subrange(at + 1, at + 1 + n) == label) by {
            assert(s.subrange(1, 1 + n) == b.subrange(1, 1 + n));
            assert(s.subrange(1, 1 + n) == p.subrange(at + 1, at + 1 + n));
            assert(b.subrange(1, 1 + n) == label);
        }
        assert(p.subrange(at + 1 + n, at + b.len()) == name_bytes(rest)) by {
            assert(s.subrange(1 + n, b.len() as int) == b.subrange(1 + n, b.len() as int));
            assert(s.subrange(1 + n, b.len() as int) == p.subrange(at + 1 + n, at + b.len()));
            assert(b.subrange(1 + n, b.len() as int) == name_bytes(rest));
        }
        name_read_back(p, at + 1 + n, rest, jumps);
        assert(seq![label] + rest == labels);
    }
}

/// A record that was written is read back from where it stands.
pub proof fn record_read_back(
    p: Seq<u8>,
    at: int,
    labels: Seq<Seq<u8>>,
    rtype: u16,
    class: u16,
    ttl: u32,
    rdata: Seq<u8>,
)
    requires
        proper_labels(labels),
        rdata.len() < 0x1_0000,
        stands_at(p, at, record_bytes(labels, rtype, class, ttl, rdata)),
    ensures
        record_at(p, at) matches Some(r) && r.labels == labels && r.rtype == rtype && r.data_len
            == rdata.len() && r.data_at + r.data_len == at + record_bytes(
            labels,
            rtype,
            class,
            ttl,
            rdata,
        ).len() && p.subrange(r.data_at, r.data_at + r.data_len) == rdata,
{
    let name = name_bytes(labels);
    let b = record_bytes(labels, rtype, class, ttl, rdata);
    let s = p.subrange(at, at + b.len());
    let k = name.len() as int;
    assert(p.subrange(at, at + k) == name) by {
        assert(s.subrange(0, k) == p.subrange(at, at + k));
        assert(b.subrange(0, k) == name);
    }
    name_read_back(p, at, labels, MAX_JUMPS as nat);
    let e = at + k;
    assert(p[e] == s[k] && p[e + 1] == s[k + 1]);
    assert(p[e + 8] == s[k + 8] && p[e + 9] == s[k + 9]);
    assert(b[k] == u16_be(rtype)[0] && b[k + 1] == u16_be(rtype)[1]);
    assert(b[k + 8] == u16_be(rdata.len() as u16)[0] && b[k + 9] == u16_be(rdata.len() as u16)[1]);
    assert(p.subrange(e + 10, at + b.len()) == rdata) by {
        assert(s.subrange(k + 10, b.len() as int) == p.subrange(e + 10, at + b.len()));
        assert(b.subrange(k + 10, b.len() as int) == rdata);
    }
}

// ── Laws ─────────────────────────────────────────────────────────────────────

/// Two labels are the same where each pair of bytes is equal, or is a small
/// letter and its capital, 32 places before it.
pub proof fn labels_are_the_same_in_either_case(a: Seq<u8>, b: Seq<u8>)
    ensures
        same_label(a, b) == (a.len() == b.len() && forall|i: int|
            #![trigger a[i]]
            0 <= i < a.len() ==> (a[i] == b[i] || (97 <= a[i] <= 122 && a[i] == b[i] + 32) || (97
                <= b[i] <= 122 && b[i] == a[i] + 32))),
{
    if same_label(a, b) {
        assert forall|i: int|
            #![trigger a[i]]
            0 <= i < a.len() implies (a[i] == b[i] || (97 <= a[i] <= 122 && a[i] == b[i] + 32) || (
        97 <= b[i] <= 122 && b[i] == a[i] + 32)) by {
            assert(lower_byte(a[i]) == lower_byte(b[i]));
        }
    }
}

/// Two names are the same where they have as many labels and each label is the
/// same as the one in its place.
pub proof fn names_are_the_same_label_by_label(labels: Seq<Seq<u8>>, wanted: Seq<Seq<u8>>, i: int)
    ensures
        labels_match(labels, labels),
        labels_match(labels, wanted) ==> labels.len() == wanted.len() && labels_match(
            wanted,
            labels,
        ),
        labels_match(labels, wanted) && 0 <= i < labels.len() ==> same_label(labels[i], wanted[i]),
        0 <= i < labels.len() && i < wanted.len() && !same_label(labels[i], wanted[i])
            ==> !labels_match(labels, wanted),
{
    if labels_match(labels, wanted) {
        assert forall|k: int| 0 <= k < wanted.len() implies same_label(
            #[trigger] wanted[k],
            labels[k],
        ) by {
            assert(same_label(labels[k], wanted[k]));
            assert forall|m: int| 0 <= m < wanted[k].len() implies lower_byte(
                #[trigger] wanted[k][m],
            ) == lower_byte(labels[k][m]) by {
                assert(lower_byte(labels[k][m]) == lower_byte(wanted[k][m]));
            }
        }
    }
}

/// A pointer to where a name was written is read as that name. What follows it
/// starts right behind the two bytes of the pointer.
pub proof fn a_pointer_is_followed(
    p: Seq<u8>,
    at: int,
    to: int,
    labels: Seq<Seq<u8>>,
    jumps: nat,
)
    requires
        proper_labels(labels),
        stands_at(p, to, name_bytes(labels)),
        0 <= to < 0x4000,
        0 <= at < p.len() - 1,
        p[at] == 192 + to / 256,
        p[at + 1] == to % 256,
        jumps > 0,
    ensures
        name_at(p, at, jumps) == Some((labels, at + 2)),
{
    name_read_back(p, to, labels, (jumps - 1) as nat);
    assert((p[at] - 0xC0) * 256 + p[at + 1] == to);
}

/// A name that points to itself is not read, and neither is one that points
/// where no pointer may be followed any more.
pub proof fn a_circle_is_not_followed(p: Seq<u8>, at: int, jumps: nat)
    requires
        0 <= at < 0x4000,
        at < p.len() - 1,
        p[at] == 192 + at / 256,
        p[at + 1] == at % 256,
    ensures
        name_at(p, at, jumps) is None,
    decreases jumps,
{
    assert((p[at] - 0xC0) * 256 + p[at + 1] == at);
    if jumps > 0 {
        a_circle_is_not_followed(p, at, (jumps - 1) as nat);
    }
}

/// On the wire a record is its name, and behind it its type, its class, its
/// lifetime in seconds and the length of its data, highest byte first, and
/// then the data.
pub proof fn a_record_is_laid_out(
    labels: Seq<Seq<u8>>,
    rtype: u16,
    class: u16,
    ttl: u32,
    rdata: Seq<u8>,
)
    requires
        rdata.len() < 0x1_0000,
    ensures
        ({
            let b = record_bytes(labels, rtype, class, ttl, rdata);
            let k = name_bytes(labels).len() as int;
            &&& b.len() == k + 10 + rdata.len()
            &&& b.take(k) == name_bytes(labels)
            &&& b[k] * 256 + b[k + 1] == rtype
            &&& b[k + 2] * 256 + b[k + 3] == class
            &&& b[k + 4] * 0x100_0000 + b[k + 5] * 0x1_0000 + b[k + 6] * 256 + b[k + 7] == ttl
            &&& b[k + 8] * 256 + b[k + 9] == rdata.len()
            &&& b.skip(k + 10) == rdata
        }),
{
    let b = record_bytes(labels, rtype, class, ttl, rdata);
    let k = name_bytes(labels).len() as int;
    assert(b.take(k) == name_bytes(labels));
    assert(b.skip(k + 10) == rdata);
    assert(b[k] == u16_be(rtype)[0] && b[k + 1] == u16_be(rtype)[1]);
    assert(b[k + 2] == u16_be(class)[0] && b[k + 3] == u16_be(class)[1]);
    assert(b[k + 4] == u32_be(ttl)[0] && b[k + 5] == u32_be(ttl)[1]);
    assert(b[k + 6] == u32_be(ttl)[2] && b[k + 7] == u32_be(ttl)[3]);
    let n = rdata.len() as u16;
    assert(b[k + 8] == u16_be(n)[0] && b[k + 9] == u16_be(n)[1]);
}

/// The header of an announcement has the identifier zero, says that it is an
/// authoritative response, and counts no questions, its answers, no
/// authorities and its additional records.
pub proof fn a_header_counts_its_records(answers: u16, additional: u16)
    ensures
        ({
            let h = announcement_header(answers, additional);
            &&& h.len() == 12
            &&& h[0] == 0 && h[1] == 0
            &&& h[2] == 0x84 && h[3] == 0
            &&& h[4] == 0 && h[5] == 0
            &&& h[6] * 256 + h[7] == answers
            &&& h[8] == 0 && h[9] == 0
            &&& h[10] * 256 + h[11] == additional
        }),
{
}

/// A message that ends within a name, a byte that starts neither a label nor a
/// pointer, and a pointer that may not be followed make no name.
pub proof fn a_cut_name_is_not_read(p: Seq<u8>, at: int, jumps: nat)
    ensures
        at < 0 || at >= p.len() ==> name_at(p, at, jumps) is None,
        at == p.len() - 1 && p[at] > 0 ==> name_at(p, at, jumps) is None,
        0 <= at < p.len() && p[at] < 64 && at + p[at] >= p.len() && p[at] > 0 ==> name_at(
            p,
            at,
            jumps,
        ) is None,
        0 <= at < p.len() && 64 <= p[at] < 192 ==> name_at(p, at, jumps) is None,
        0 <= at < p.len() && p[at] >= 192 ==> name_at(p, at, 0) is None,
{
}

} // verus!
