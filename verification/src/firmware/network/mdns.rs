//! mDNS: answers for `<hostname>.local`, announcements of the device, and the
//! LAN server's announcement.

use vstd::prelude::*;
use vstd::slice::slice_subrange;
use vstd::utf8::{encode_utf8, is_ascii_chars_encode_utf8};
use crate::bytes::{bytes_equal, get_u16_be, push_bytes, push_u16_be, read_u16_be, u16_be};
use crate::dns::{
    a_header_counts_its_records, a_pointer_is_followed, announcement_header, label_list,
    labels_are, labels_bytes, labels_match, labels_view, name_at, name_bytes, name_read_back,
    names_are_the_same_label_by_label, proper_label, proper_labels, push_announcement_header,
    push_name, push_record, read_name, read_record, record_at, record_bytes, record_read_back,
    same_label, stands_at, Record, RecordView, CLASS_IN, CLASS_IN_FLUSH, HEADER_SIZE, MAX_JUMPS,
    TYPE_A, TYPE_AAAA, TYPE_ANY, TYPE_PTR, TYPE_SRV, TYPE_TXT,
};
use super::udp::{address_view, set_discovered_server, unspecified, TelemetryState};
use crate::firmware::status::uptime_of;

verus! {

pub const MDNS_PORT: u16 = 5353;

pub const MDNS_TTL_SECS: u32 = 120;

pub const MDNS_ANNOUNCE_INTERVAL_SECS: u64 = 30;

pub const HTTP_PORT: u16 = 80;

// ── Questions ────────────────────────────────────────────────────────────────

/// A question for the device's addresses.
#[derive(Clone, Copy, Debug, PartialEq, Eq, Structural)]
pub struct MdnsQuestionMatch {
    pub prefer_unicast_response: bool,
    pub qtype: u16,
    pub qclass_raw: u16,
}

/// The labels of `<hostname>.local`.
pub open spec fn host_labels(hostname: Seq<u8>) -> Seq<Seq<u8>> {
    seq![hostname, encode_utf8("local"@)]
}

/// Whether a question asks for an address of class `IN`. The highest bit of
/// the class asks for a unicast reply.
pub open spec fn asks_for_address(qtype: u16, qclass_raw: u16) -> bool {
    qclass_raw % 0x8000 == 1 && (qtype == TYPE_A || qtype == TYPE_AAAA || qtype == TYPE_ANY)
}

/// The first of `left` questions from `at` on that asks for the host's address.
/// There is none where the message ends before it is found.
pub open spec fn question_from(q: Seq<u8>, hostname: Seq<u8>, left: nat, at: int) -> Option<
    MdnsQuestionMatch,
>
    decreases left,
{
    if left == 0 {
        None
    } else {
        match name_at(q, at, MAX_JUMPS as nat) {
            Some(name) => if name.1 + 4 > q.len() {
                None
            } else {
                let qtype = get_u16_be(q, name.1);
                let qclass_raw = get_u16_be(q, name.1 + 2);
                if labels_match(name.0, host_labels(hostname)) && asks_for_address(
                    qtype,
                    qclass_raw,
                ) {
                    Some(
                        MdnsQuestionMatch {
                            prefer_unicast_response: qclass_raw >= 0x8000,
                            qtype,
                            qclass_raw,
                        },
                    )
                } else {
                    question_from(q, hostname, (left - 1) as nat, name.1 + 4)
                }
            },
            None => None,
        }
    }
}

/// The first question of a message that asks for the host's address.
pub open spec fn question_of(q: Seq<u8>, hostname: Seq<u8>) -> Option<MdnsQuestionMatch> {
    if q.len() < HEADER_SIZE {
        None
    } else {
        question_from(q, hostname, get_u16_be(q, 4) as nat, HEADER_SIZE as int)
    }
}

/// Reads the name at `start`. Returns whether it is `<hostname>.local`, and
/// where what follows it starts.
pub fn dns_name_matches_host_local(packet: &[u8], start: usize, hostname: &[u8]) -> (r: Option<
    (bool, usize),
>)
    ensures
        match r {
            Some(m) => name_at(packet@, start as int, MAX_JUMPS as nat) matches Some(name) && m.0
                == labels_match(name.0, host_labels(hostname@)) && m.1 == name.1 && m.1
                <= packet@.len(),
            None => name_at(packet@, start as int, MAX_JUMPS as nat) is None,
        },
{
    match read_name(packet, start) {
        Some((labels, next)) => {
            let wanted: [&[u8]; 2] = [hostname, "local".as_bytes()];
            assert(label_list(wanted@) == host_labels(hostname@));
            assert(labels_view(labels@).skip(0) == labels_view(labels@));
            Some((labels_are(&labels, 0, &wanted), next))
        },
        None => None,
    }
}

/// Finds the first question of a message that asks for the host's address.
pub fn question_matches_hostname(query: &[u8], hostname: &[u8]) -> (r: Option<MdnsQuestionMatch>)
    ensures
        r == question_of(query@, hostname@),
{
    let n: usize = query.len();
    if n < HEADER_SIZE {
        return None;
    }
    let mut left: u16 = read_u16_be(query, 4);
    let mut at: usize = HEADER_SIZE;
    while left > 0
        invariant
            n == query@.len(),
            question_of(query@, hostname@) == question_from(
                query@,
                hostname@,
                left as nat,
                at as int,
            ),
        decreases left,
    {
        match dns_name_matches_host_local(query, at, hostname) {
            Some((matches_name, next)) => {
                if n - next < 4 {
                    return None;
                }
                let qtype: u16 = read_u16_be(query, next);
                let qclass_raw: u16 = read_u16_be(query, next + 2);
                if matches_name && qclass_raw % 0x8000 == 1 && (qtype == TYPE_A || qtype
                    == TYPE_AAAA || qtype == TYPE_ANY) {
                    return Some(
                        MdnsQuestionMatch {
                            prefer_unicast_response: qclass_raw >= 0x8000,
                            qtype,
                            qclass_raw,
                        },
                    );
                }
                at = next + 4;
            },
            None => {
                return None;
            },
        }
        left = left - 1;
    }
    None
}

// ── Answers ──────────────────────────────────────────────────────────────────

/// The bytes of an address, if there is one.
pub open spec fn bytes_of4(ip: Option<[u8; 4]>) -> Option<Seq<u8>> {
    match ip {
        Some(a) => Some(a@),
        None => None,
    }
}

/// The bytes of an address, if there is one.
pub open spec fn bytes_of16(ip: Option<[u8; 16]>) -> Option<Seq<u8>> {
    match ip {
        Some(a) => Some(a@),
        None => None,
    }
}

/// The address that answers a question: of the type asked for, or of either
/// type, IPv4 first, where any is asked for.
pub open spec fn answer_of(qtype: u16, ipv4: Option<Seq<u8>>, ipv6: Option<Seq<u8>>) -> Option<
    (u16, Seq<u8>),
> {
    if (qtype == TYPE_A || qtype == TYPE_ANY) && ipv4 is Some {
        Some((TYPE_A, ipv4->0))
    } else if (qtype == TYPE_AAAA || qtype == TYPE_ANY) && ipv6 is Some {
        Some((TYPE_AAAA, ipv6->0))
    } else {
        None
    }
}

/// The reply to a question: its identifier, the question again, and an answer
/// whose name points to that of the question.
pub open spec fn response_bytes(
    query: Seq<u8>,
    hostname: Seq<u8>,
    question: MdnsQuestionMatch,
    answer: (u16, Seq<u8>),
) -> Seq<u8> {
    query.take(2) + seq![0x84u8, 0, 0, 1, 0, 1, 0, 0, 0, 0] + name_bytes(host_labels(hostname))
        + u16_be(question.qtype) + u16_be(question.qclass_raw) + seq![0xC0u8, 0x0C] + u16_be(
        answer.0,
    ) + seq![0x80u8, 0x01, 0, 0, 0, 120] + u16_be(answer.1.len() as u16) + answer.1
}

/// The reply to a message, if it asks for an address that the device has and
/// the reply takes no more than `max_len` bytes.
pub open spec fn response_to(
    query: Seq<u8>,
    hostname: Seq<u8>,
    ipv4: Option<Seq<u8>>,
    ipv6: Option<Seq<u8>>,
    max_len: usize,
) -> Option<(Seq<u8>, MdnsQuestionMatch)> {
    match question_of(query, hostname) {
        Some(question) => match answer_of(question.qtype, ipv4, ipv6) {
            Some(answer) => {
                let reply = response_bytes(query, hostname, question, answer);
                if reply.len() <= max_len {
                    Some((reply, question))
                } else {
                    None
                }
            },
            None => None,
        },
        None => None,
    }
}

fn push_host_name(out: &mut Vec<u8>, hostname: &[u8])
    ensures
        final(out)@ == old(out)@ + name_bytes(host_labels(hostname@)),
{
    let labels: [&[u8]; 2] = [hostname, "local".as_bytes()];
    assert(label_list(labels@) == host_labels(hostname@));
    push_name(out, &labels);
}

fn response(
    query: &[u8],
    hostname: &[u8],
    question: MdnsQuestionMatch,
    answer_type: u16,
    address: &[u8],
) -> (r: Vec<u8>)
    requires
        query@.len() >= 2,
        address@.len() <= 16,
    ensures
        r@ == response_bytes(query@, hostname@, question, (answer_type, address@)),
{
    let mut out: Vec<u8> = Vec::new();
    push_bytes(&mut out, slice_subrange(query, 0, 2));
    let counts: [u8; 10] = [0x84, 0, 0, 1, 0, 1, 0, 0, 0, 0];
    push_bytes(&mut out, &counts);
    assert(counts@ == seq![0x84u8, 0, 0, 1, 0, 1, 0, 0, 0, 0]);
    push_host_name(&mut out, hostname);
    push_u16_be(&mut out, question.qtype);
    push_u16_be(&mut out, question.qclass_raw);
    let pointer: [u8; 2] = [0xC0, 0x0C];
    assert(pointer@ == seq![0xC0u8, 0x0C]);
    push_bytes(&mut out, &pointer);
    push_u16_be(&mut out, answer_type);
    let class_ttl: [u8; 6] = [0x80, 0x01, 0, 0, 0, 120];
    assert(class_ttl@ == seq![0x80u8, 0x01, 0, 0, 0, 120]);
    push_bytes(&mut out, &class_ttl);
    push_u16_be(&mut out, address.len() as u16);
    push_bytes(&mut out, address);
    assert(query@.subrange(0, 2) == query@.take(2));
    assert(Seq::<u8>::empty() + query@.take(2) == query@.take(2));
    out
}

/// A reply as mathematical values.
pub open spec fn reply_view(r: Option<(Vec<u8>, MdnsQuestionMatch)>) -> Option<
    (Seq<u8>, MdnsQuestionMatch),
> {
    match r {
        Some(reply) => Some((reply.0@, reply.1)),
        None => None,
    }
}

/// Builds the reply to a message that asks for an address of the device.
pub fn build_mdns_response(
    query: &[u8],
    hostname: &[u8],
    ipv4: Option<[u8; 4]>,
    ipv6: Option<[u8; 16]>,
    max_len: usize,
) -> (r: Option<(Vec<u8>, MdnsQuestionMatch)>)
    ensures
        reply_view(r) == response_to(
            query@,
            hostname@,
            bytes_of4(ipv4),
            bytes_of16(ipv6),
            max_len,
        ),
{
    let question: MdnsQuestionMatch = match question_matches_hostname(query, hostname) {
        Some(question) => question,
        None => {
            return None;
        },
    };
    let qtype: u16 = question.qtype;
    let reply: Vec<u8> = match (ipv4, ipv6) {
        (Some(address), _) if qtype == TYPE_A || qtype == TYPE_ANY => response(
            query,
            hostname,
            question,
            TYPE_A,
            &address,
        ),
        (_, Some(address)) if qtype == TYPE_AAAA || qtype == TYPE_ANY => response(
            query,
            hostname,
            question,
            TYPE_AAAA,
            &address,
        ),
        _ => {
            return None;
        },
    };
    if reply.len() > max_len {
        return None;
    }
    Some((reply, question))
}

/// Whether a reply also goes to the multicast group, and not to the asker
/// alone. It goes to the asker in any case.
pub fn reply_to_group(question: MdnsQuestionMatch) -> (r: bool)
    ensures
        r == !question.prefer_unicast_response,
{
    !question.prefer_unicast_response
}

/// An answer to a question for the host's address repeats its name, so that a
/// reader finds the name that was asked for in the reply.
pub proof fn reply_repeats_the_name(
    query: Seq<u8>,
    hostname: Seq<u8>,
    question: MdnsQuestionMatch,
    answer: (u16, Seq<u8>),
)
    requires
        query.len() >= 2,
        1 <= hostname.len() <= 63,
    ensures
        name_at(
            response_bytes(query, hostname, question, answer),
            HEADER_SIZE as int,
            MAX_JUMPS as nat,
        ) == Some(
            (
                host_labels(hostname),
                HEADER_SIZE + name_bytes(host_labels(hostname)).len(),
            ),
        ),
{
    let b = response_bytes(query, hostname, question, answer);
    let name = name_bytes(host_labels(hostname));
    local_is_ascii();
    assert(b.subrange(12, 12 + name.len() as int) == name);
    name_read_back(b, 12, host_labels(hostname), MAX_JUMPS as nat);
}

proof fn local_is_ascii()
    ensures
        encode_utf8("local"@).len() == 5,
{
    reveal_strlit("local");
    is_ascii_chars_encode_utf8("local"@);
}

// ── Announcements ────────────────────────────────────────────────────────────

/// `_services._dns-sd._udp.local`.
pub open spec fn services_labels() -> Seq<Seq<u8>> {
    seq![
        encode_utf8("_services"@),
        encode_utf8("_dns-sd"@),
        encode_utf8("_udp"@),
        encode_utf8("local"@),
    ]
}

/// `_http._tcp.local`.
pub open spec fn http_labels() -> Seq<Seq<u8>> {
    seq![encode_utf8("_http"@), encode_utf8("_tcp"@), encode_utf8("local"@)]
}

/// `_brewster._udp.local`.
pub open spec fn brewster_labels() -> Seq<Seq<u8>> {
    seq![encode_utf8("_brewster"@), encode_utf8("_udp"@), encode_utf8("local"@)]
}

/// What a service is reached at: priority, weight, port and host.
pub open spec fn service_data(port: u16, host: Seq<Seq<u8>>) -> Seq<u8> {
    u16_be(0) + u16_be(0) + u16_be(port) + name_bytes(host)
}

/// The records of the device's services.
pub open spec fn service_records(hostname: Seq<u8>) -> Seq<u8> {
    record_bytes(services_labels(), TYPE_PTR, CLASS_IN, MDNS_TTL_SECS, name_bytes(http_labels()))
        + record_bytes(
        http_labels(),
        TYPE_PTR,
        CLASS_IN,
        MDNS_TTL_SECS,
        name_bytes(seq![hostname] + http_labels()),
    ) + record_bytes(
        brewster_labels(),
        TYPE_PTR,
        CLASS_IN,
        MDNS_TTL_SECS,
        name_bytes(seq![hostname] + brewster_labels()),
    ) + record_bytes(
        seq![hostname] + http_labels(),
        TYPE_SRV,
        CLASS_IN_FLUSH,
        MDNS_TTL_SECS,
        service_data(HTTP_PORT, host_labels(hostname)),
    ) + record_bytes(
        seq![hostname] + http_labels(),
        TYPE_TXT,
        CLASS_IN_FLUSH,
        MDNS_TTL_SECS,
        seq![0u8],
    )
}

/// The record of an address, if the device has it.
pub open spec fn address_record(hostname: Seq<u8>, rtype: u16, address: Option<Seq<u8>>) -> Seq<u8> {
    match address {
        Some(a) => record_bytes(
            host_labels(hostname),
            rtype,
            CLASS_IN_FLUSH,
            MDNS_TTL_SECS,
            a,
        ),
        None => Seq::empty(),
    }
}

/// The number of records in an announcement.
pub open spec fn announced_records(ipv4: bool, ipv6: bool) -> int {
    5 + (if ipv4 {
        1int
    } else {
        0
    }) + (if ipv6 {
        1int
    } else {
        0
    })
}

/// An announcement of the device's services and addresses.
pub open spec fn announcement_bytes(
    hostname: Seq<u8>,
    ipv4: Option<Seq<u8>>,
    ipv6: Option<Seq<u8>>,
) -> Seq<u8> {
    announcement_header(announced_records(ipv4 is Some, ipv6 is Some) as u16, 0) + service_records(
        hostname,
    ) + address_record(hostname, TYPE_A, ipv4) + address_record(hostname, TYPE_AAAA, ipv6)
}

/// The announcement of the device, if it has an address, its name fits a
/// label, and the announcement takes no more than `max_len` bytes.
pub open spec fn announcement_of(
    hostname: Seq<u8>,
    ipv4: Option<Seq<u8>>,
    ipv6: Option<Seq<u8>>,
    max_len: usize,
) -> Option<Seq<u8>> {
    let bytes = announcement_bytes(hostname, ipv4, ipv6);
    if (ipv4 is None && ipv6 is None) || hostname.len() > 63 || bytes.len() > max_len {
        None
    } else {
        Some(bytes)
    }
}

fn push_pointer(out: &mut Vec<u8>, labels: &[&[u8]], target: &[&[u8]])
    ensures
        final(out)@ == old(out)@ + record_bytes(
            label_list(labels@),
            TYPE_PTR,
            CLASS_IN,
            MDNS_TTL_SECS,
            name_bytes(label_list(target@)),
        ),
{
    let mut data: Vec<u8> = Vec::new();
    push_name(&mut data, target);
    assert(data@ == name_bytes(label_list(target@)));
    push_record(out, labels, TYPE_PTR, CLASS_IN, MDNS_TTL_SECS, data.as_slice());
}

fn push_services(out: &mut Vec<u8>, hostname: &[u8])
    ensures
        final(out)@ == old(out)@ + service_records(hostname@),
{
    let udp: &[u8] = "_udp".as_bytes();
    let local: &[u8] = "local".as_bytes();
    let http: &[u8] = "_http".as_bytes();
    let tcp: &[u8] = "_tcp".as_bytes();
    let brewster: &[u8] = "_brewster".as_bytes();
    let services: [&[u8]; 4] = ["_services".as_bytes(), "_dns-sd".as_bytes(), udp, local];
    let http_service: [&[u8]; 3] = [http, tcp, local];
    let http_instance: [&[u8]; 4] = [hostname, http, tcp, local];
    let brewster_service: [&[u8]; 3] = [brewster, udp, local];
    let brewster_instance: [&[u8]; 4] = [hostname, brewster, udp, local];
    assert(label_list(services@) == services_labels());
    assert(label_list(http_service@) == http_labels());
    assert(label_list(http_instance@) == seq![hostname@] + http_labels());
    assert(label_list(brewster_service@) == brewster_labels());
    assert(label_list(brewster_instance@) == seq![hostname@] + brewster_labels());
    push_pointer(out, &services, &http_service);
    push_pointer(out, &http_service, &http_instance);
    push_pointer(out, &brewster_service, &brewster_instance);
    let mut data: Vec<u8> = Vec::new();
    push_u16_be(&mut data, 0);
    push_u16_be(&mut data, 0);
    push_u16_be(&mut data, HTTP_PORT);
    push_host_name(&mut data, hostname);
    assert(data@ == service_data(HTTP_PORT, host_labels(hostname@)));
    push_record(out, &http_instance, TYPE_SRV, CLASS_IN_FLUSH, MDNS_TTL_SECS, data.as_slice());
    let empty: [u8; 1] = [0];
    assert(empty@ == seq![0u8]);
    push_record(out, &http_instance, TYPE_TXT, CLASS_IN_FLUSH, MDNS_TTL_SECS, &empty);
    assert(out@ == old(out)@ + service_records(hostname@));
}

fn push_address(out: &mut Vec<u8>, hostname: &[u8], rtype: u16, address: &[u8])
    ensures
        final(out)@ == old(out)@ + address_record(hostname@, rtype, Some(address@)),
{
    let labels: [&[u8]; 2] = [hostname, "local".as_bytes()];
    assert(label_list(labels@) == host_labels(hostname@));
    push_record(out, &labels, rtype, CLASS_IN_FLUSH, MDNS_TTL_SECS, address);
}

/// An announcement as mathematical values.
pub open spec fn bytes_view(r: Option<Vec<u8>>) -> Option<Seq<u8>> {
    match r {
        Some(b) => Some(b@),
        None => None,
    }
}

/// Builds an announcement of the device's services and addresses.
pub fn build_mdns_announcement(
    hostname: &[u8],
    ipv4: Option<[u8; 4]>,
    ipv6: Option<[u8; 16]>,
    max_len: usize,
) -> (r: Option<Vec<u8>>)
    ensures
        bytes_view(r) == announcement_of(
            hostname@,
            bytes_of4(ipv4),
            bytes_of16(ipv6),
            max_len,
        ),
{
    if (ipv4.is_none() && ipv6.is_none()) || hostname.len() > 63 {
        return None;
    }
    let mut answer_count: u16 = 5;
    if ipv4.is_some() {
        answer_count = answer_count + 1;
    }
    if ipv6.is_some() {
        answer_count = answer_count + 1;
    }
    let mut out: Vec<u8> = Vec::new();
    push_announcement_header(&mut out, answer_count, 0);
    push_services(&mut out, hostname);
    let ghost head = announcement_header(answer_count, 0) + service_records(hostname@);
    assert(out@ == head);
    if let Some(address) = ipv4 {
        push_address(&mut out, hostname, TYPE_A, &address);
    }
    let ghost with4 = head + address_record(hostname@, TYPE_A, bytes_of4(ipv4));
    assert(out@ == with4);
    if let Some(address) = ipv6 {
        push_address(&mut out, hostname, TYPE_AAAA, &address);
    }
    assert(out@ == announcement_bytes(hostname@, bytes_of4(ipv4), bytes_of16(ipv6)));
    if out.len() > max_len {
        return None;
    }
    Some(out)
}

// ── Questions for services ───────────────────────────────────────────────────

/// Whether a question asks for a record that the device announces of its
/// services.
pub open spec fn asks_for_service(
    labels: Seq<Seq<u8>>,
    hostname: Seq<u8>,
    qtype: u16,
    qclass_raw: u16,
) -> bool {
    let pointer = labels_match(labels, services_labels()) || labels_match(labels, http_labels())
        || labels_match(labels, brewster_labels());
    let instance = labels_match(labels, seq![hostname] + http_labels());
    qclass_raw % 0x8000 == 1 && ((pointer && (qtype == TYPE_PTR || qtype == TYPE_ANY)) || (instance
        && (qtype == TYPE_SRV || qtype == TYPE_TXT || qtype == TYPE_ANY)))
}

/// The first of `left` questions from `at` on that asks for a service of the
/// device. There is none where the message ends before it is found.
pub open spec fn service_question_from(q: Seq<u8>, hostname: Seq<u8>, left: nat, at: int) -> Option<
    MdnsQuestionMatch,
>
    decreases left,
{
    if left == 0 {
        None
    } else {
        match name_at(q, at, MAX_JUMPS as nat) {
            Some(name) => if name.1 + 4 > q.len() {
                None
            } else {
                let qtype = get_u16_be(q, name.1);
                let qclass_raw = get_u16_be(q, name.1 + 2);
                if asks_for_service(name.0, hostname, qtype, qclass_raw) {
                    Some(
                        MdnsQuestionMatch {
                            prefer_unicast_response: qclass_raw >= 0x8000,
                            qtype,
                            qclass_raw,
                        },
                    )
                } else {
                    service_question_from(q, hostname, (left - 1) as nat, name.1 + 4)
                }
            },
            None => None,
        }
    }
}

/// The first question of a message that asks for a service of the device.
pub open spec fn service_question_of(q: Seq<u8>, hostname: Seq<u8>) -> Option<MdnsQuestionMatch> {
    if q.len() < HEADER_SIZE {
        None
    } else {
        service_question_from(q, hostname, get_u16_be(q, 4) as nat, HEADER_SIZE as int)
    }
}

fn is_service_question(labels: &Vec<Vec<u8>>, hostname: &[u8], qtype: u16, qclass_raw: u16) -> (r:
    bool)
    ensures
        r == asks_for_service(labels_view(labels@), hostname@, qtype, qclass_raw),
{
    let udp: &[u8] = "_udp".as_bytes();
    let local: &[u8] = "local".as_bytes();
    let http: &[u8] = "_http".as_bytes();
    let tcp: &[u8] = "_tcp".as_bytes();
    let services: [&[u8]; 4] = ["_services".as_bytes(), "_dns-sd".as_bytes(), udp, local];
    let http_service: [&[u8]; 3] = [http, tcp, local];
    let brewster_service: [&[u8]; 3] = ["_brewster".as_bytes(), udp, local];
    let http_instance: [&[u8]; 4] = [hostname, http, tcp, local];
    assert(label_list(services@) == services_labels());
    assert(label_list(http_service@) == http_labels());
    assert(label_list(brewster_service@) == brewster_labels());
    assert(label_list(http_instance@) == seq![hostname@] + http_labels());
    assert(labels_view(labels@).skip(0) == labels_view(labels@));
    if qclass_raw % 0x8000 != 1 {
        return false;
    }
    let pointer: bool = labels_are(labels, 0, &services) || labels_are(labels, 0, &http_service)
        || labels_are(labels, 0, &brewster_service);
    let instance: bool = labels_are(labels, 0, &http_instance);
    (pointer && (qtype == TYPE_PTR || qtype == TYPE_ANY)) || (instance && (qtype == TYPE_SRV
        || qtype == TYPE_TXT || qtype == TYPE_ANY))
}

/// Finds the first question of a message that asks for a service of the device.
pub fn question_matches_service(query: &[u8], hostname: &[u8]) -> (r: Option<MdnsQuestionMatch>)
    ensures
        r == service_question_of(query@, hostname@),
{
    let n: usize = query.len();
    if n < HEADER_SIZE {
        return None;
    }
    let mut left: u16 = read_u16_be(query, 4);
    let mut at: usize = HEADER_SIZE;
    while left > 0
        invariant
            n == query@.len(),
            service_question_of(query@, hostname@) == service_question_from(
                query@,
                hostname@,
                left as nat,
                at as int,
            ),
        decreases left,
    {
        match read_name(query, at) {
            Some((labels, next)) => {
                if n - next < 4 {
                    return None;
                }
                let qtype: u16 = read_u16_be(query, next);
                let qclass_raw: u16 = read_u16_be(query, next + 2);
                if is_service_question(&labels, hostname, qtype, qclass_raw) {
                    return Some(
                        MdnsQuestionMatch {
                            prefer_unicast_response: qclass_raw >= 0x8000,
                            qtype,
                            qclass_raw,
                        },
                    );
                }
                at = next + 4;
            },
            None => {
                return None;
            },
        }
        left = left - 1;
    }
    None
}

/// The reply to a message that asks for a service of the device: what the
/// device announces.
pub open spec fn service_reply_to(
    query: Seq<u8>,
    hostname: Seq<u8>,
    ipv4: Option<Seq<u8>>,
    ipv6: Option<Seq<u8>>,
    max_len: usize,
) -> Option<(Seq<u8>, MdnsQuestionMatch)> {
    match (service_question_of(query, hostname), announcement_of(hostname, ipv4, ipv6, max_len)) {
        (Some(question), Some(reply)) => Some((reply, question)),
        _ => None,
    }
}

/// Builds the reply to a message that asks for a service of the device.
pub fn build_service_response(
    query: &[u8],
    hostname: &[u8],
    ipv4: Option<[u8; 4]>,
    ipv6: Option<[u8; 16]>,
    max_len: usize,
) -> (r: Option<(Vec<u8>, MdnsQuestionMatch)>)
    ensures
        reply_view(r) == service_reply_to(
            query@,
            hostname@,
            bytes_of4(ipv4),
            bytes_of16(ipv6),
            max_len,
        ),
{
    match question_matches_service(query, hostname) {
        Some(question) => match build_mdns_announcement(hostname, ipv4, ipv6, max_len) {
            Some(reply) => Some((reply, question)),
            None => None,
        },
        None => None,
    }
}

/// A message whose first question asks for a service of the device is answered
/// with what the device announces.
pub proof fn announced_names_are_answered(
    header: Seq<u8>,
    labels: Seq<Seq<u8>>,
    hostname: Seq<u8>,
    qtype: u16,
    qclass_raw: u16,
    ipv4: Option<Seq<u8>>,
    ipv6: Option<Seq<u8>>,
    max_len: usize,
)
    requires
        header.len() == HEADER_SIZE,
        get_u16_be(header, 4) >= 1,
        proper_labels(labels),
        asks_for_service(labels, hostname, qtype, qclass_raw),
        announcement_of(hostname, ipv4, ipv6, max_len) is Some,
    ensures
        service_reply_to(
            header + name_bytes(labels) + u16_be(qtype) + u16_be(qclass_raw),
            hostname,
            ipv4,
            ipv6,
            max_len,
        ) == Some(
            (
                announcement_of(hostname, ipv4, ipv6, max_len)->0,
                MdnsQuestionMatch {
                    prefer_unicast_response: qclass_raw >= 0x8000,
                    qtype,
                    qclass_raw,
                },
            ),
        ),
{
    let name = name_bytes(labels);
    let q = header + name + u16_be(qtype) + u16_be(qclass_raw);
    let end = HEADER_SIZE + name.len();
    assert(q.subrange(HEADER_SIZE as int, end) == name);
    name_read_back(q, HEADER_SIZE as int, labels, MAX_JUMPS as nat);
    assert(q[4] == header[4] && q[5] == header[5]);
    assert(q[end] == u16_be(qtype)[0] && q[end + 1] == u16_be(qtype)[1]);
    assert(q[end + 2] == u16_be(qclass_raw)[0] && q[end + 3] == u16_be(qclass_raw)[1]);
}

// ── The LAN server ───────────────────────────────────────────────────────────

/// What the records of a message said of a server so far.
pub struct FoundView {
    pub announced: bool,
    pub port: Option<u16>,
    pub address: Option<Seq<u8>>,
}

/// Nothing was found yet.
pub open spec fn no_records() -> FoundView {
    FoundView { announced: false, port: None, address: None }
}

/// What is known after one more record: a pointer of the service announces a
/// server, the first service record of an instance of it gives the port, and
/// the first address record the address.
pub open spec fn found_after(p: Seq<u8>, found: FoundView, r: RecordView) -> FoundView {
    if r.rtype == TYPE_PTR && labels_match(r.labels, brewster_labels()) {
        FoundView { announced: true, ..found }
    } else if r.rtype == TYPE_SRV && found.port is None && r.labels.len() > 0 && labels_match(
        r.labels.skip(1),
        brewster_labels(),
    ) && r.data_len >= 6 {
        FoundView { port: Some(get_u16_be(p, r.data_at + 4)), ..found }
    } else if r.rtype == TYPE_A && found.address is None && r.data_len == 4 {
        FoundView { address: Some(p.subrange(r.data_at, r.data_at + 4)), ..found }
    } else {
        found
    }
}

/// Where what follows `n` questions starts.
pub open spec fn skip_questions(p: Seq<u8>, at: int, n: nat) -> Option<int>
    decreases n,
{
    if n == 0 {
        Some(at)
    } else {
        match name_at(p, at, MAX_JUMPS as nat) {
            Some(name) => if name.1 + 4 > p.len() {
                None
            } else {
                skip_questions(p, name.1 + 4, (n - 1) as nat)
            },
            None => None,
        }
    }
}

/// What is known after `n` records from `at` on.
pub open spec fn records_from(p: Seq<u8>, at: int, n: nat, found: FoundView) -> Option<FoundView>
    decreases n,
{
    if n == 0 {
        Some(found)
    } else {
        match record_at(p, at) {
            Some(r) => records_from(
                p,
                r.data_at + r.data_len,
                (n - 1) as nat,
                found_after(p, found, r),
            ),
            None => None,
        }
    }
}

/// The number of records of a message.
pub open spec fn record_total(p: Seq<u8>) -> nat {
    get_u16_be(p, 6) as nat + get_u16_be(p, 8) as nat + get_u16_be(p, 10) as nat
}

/// The LAN server that a message announces: where its records point to the
/// service, and give a port and an address that are not zero.
pub open spec fn announced_server(p: Seq<u8>) -> Option<(Seq<u8>, u16)> {
    if p.len() < HEADER_SIZE {
        None
    } else {
        match skip_questions(p, HEADER_SIZE as int, get_u16_be(p, 4) as nat) {
            Some(at) => match records_from(p, at, record_total(p), no_records()) {
                Some(f) => match (f.address, f.port) {
                    (Some(address), Some(port)) => if f.announced && port != 0 && !unspecified(
                        address,
                    ) {
                        Some((address, port))
                    } else {
                        None
                    },
                    _ => None,
                },
                None => None,
            },
            None => None,
        }
    }
}

/// What the records of a message said of a server so far.
struct Found {
    announced: bool,
    port: Option<u16>,
    address: Option<[u8; 4]>,
}

impl View for Found {
    type V = FoundView;

    closed spec fn view(&self) -> FoundView {
        FoundView {
            announced: self.announced,
            port: self.port,
            address: bytes_of4(self.address),
        }
    }
}

fn take_record(packet: &[u8], found: Found, record: &Record) -> (r: Found)
    requires
        record.data_at + record.data_len <= packet@.len(),
    ensures
        r@ == found_after(packet@, found@, record@),
{
    let n: usize = packet.len();
    let service: [&[u8]; 3] = ["_brewster".as_bytes(), "_udp".as_bytes(), "local".as_bytes()];
    assert(label_list(service@) == brewster_labels());
    assert(labels_view(record.labels@).skip(0) == labels_view(record.labels@));
    let at: usize = record.data_at;
    if record.rtype == TYPE_PTR && labels_are(&record.labels, 0, &service) {
        Found { announced: true, ..found }
    } else if record.rtype == TYPE_SRV && found.port.is_none() && labels_are(
        &record.labels,
        1,
        &service,
    ) && record.data_len >= 6 {
        Found { port: Some(read_u16_be(packet, at + 4)), ..found }
    } else if record.rtype == TYPE_A && found.address.is_none() && record.data_len == 4 {
        let address: [u8; 4] = [packet[at], packet[at + 1], packet[at + 2], packet[at + 3]];
        assert(address@ == packet@.subrange(at as int, at + 4));
        Found { address: Some(address), ..found }
    } else {
        found
    }
}

fn skip_all_questions(packet: &[u8], count: u16) -> (r: Option<usize>)
    requires
        packet@.len() >= HEADER_SIZE,
    ensures
        match r {
            Some(at) => skip_questions(packet@, HEADER_SIZE as int, count as nat) == Some(at as int)
                && at <= packet@.len(),
            None => skip_questions(packet@, HEADER_SIZE as int, count as nat) is None,
        },
{
    let n: usize = packet.len();
    let mut left: u16 = count;
    let mut at: usize = HEADER_SIZE;
    while left > 0
        invariant
            n == packet@.len(),
            at <= n,
            skip_questions(packet@, HEADER_SIZE as int, count as nat) == skip_questions(
                packet@,
                at as int,
                left as nat,
            ),
        decreases left,
    {
        match read_name(packet, at) {
            Some((_, next)) => {
                if n - next < 4 {
                    return None;
                }
                at = next + 4;
            },
            None => {
                return None;
            },
        }
        left = left - 1;
    }
    Some(at)
}

/// Finds the LAN server that a message announces.
pub fn find_server(packet: &[u8]) -> (r: Option<([u8; 4], u16)>)
    ensures
        address_view(r) == announced_server(packet@),
{
    let n: usize = packet.len();
    if n < HEADER_SIZE {
        return None;
    }
    let mut at: usize = match skip_all_questions(packet, read_u16_be(packet, 4)) {
        Some(at) => at,
        None => {
            return None;
        },
    };
    let mut left: u32 = read_u16_be(packet, 6) as u32 + read_u16_be(packet, 8) as u32 + read_u16_be(
        packet,
        10,
    ) as u32;
    let mut found: Found = Found { announced: false, port: None, address: None };
    let ghost all = records_from(packet@, at as int, left as nat, no_records());
    assert(found@ == no_records());
    while left > 0
        invariant
            at <= packet@.len() == n,
            all == records_from(packet@, at as int, left as nat, found@),
            packet@.len() >= HEADER_SIZE,
            announced_server(packet@) == (match all {
                Some(f) => match (f.address, f.port) {
                    (Some(address), Some(port)) => if f.announced && port != 0 && !unspecified(
                        address,
                    ) {
                        Some((address, port))
                    } else {
                        None
                    },
                    _ => None,
                },
                None => None,
            }),
        decreases left,
    {
        match read_record(packet, at) {
            Some(record) => {
                found = take_record(packet, found, &record);
                at = record.data_at + record.data_len;
            },
            None => {
                return None;
            },
        }
        left = left - 1;
    }
    match (found.address, found.port) {
        (Some(address), Some(port)) => {
            let zero: [u8; 4] = [0, 0, 0, 0];
            assert(zero@ == seq![0u8, 0, 0, 0]);
            if found.announced && port != 0 && !bytes_equal(&address, &zero) {
                Some((address, port))
            } else {
                None
            }
        },
        _ => None,
    }
}

/// Takes in an mDNS message. Where it announces a LAN server, telemetry goes
/// to it. Returns whether it did.
pub fn server_message(state: &mut TelemetryState, packet: &[u8], now_ticks: u64, tick_hz: u64) -> (r:
    bool)
    requires
        tick_hz > 0,
    ensures
        r == announced_server(packet@) is Some,
        match announced_server(packet@) {
            Some(server) => {
                &&& final(state).discovered_ip@ == server.0
                &&& *final(state) == (TelemetryState {
                    discovered_ip: final(state).discovered_ip,
                    discovered_port: server.1,
                    discovered_uptime_s: uptime_of(now_ticks, tick_hz),
                    ..*old(state)
                })
            },
            None => *final(state) == *old(state),
        },
{
    match find_server(packet) {
        Some((ip, port)) => {
            set_discovered_server(state, ip, port, now_ticks, tick_hz);
            true
        },
        None => false,
    }
}

// ── Laws ─────────────────────────────────────────────────────────────────────

/// A question asks for an address where its type is that of IPv4 addresses,
/// of IPv6 addresses or of any record, and its class is that of the Internet,
/// with or without the wish for a unicast reply.
pub proof fn addresses_are_asked_for_by_type(qtype: u16, qclass_raw: u16)
    ensures
        asks_for_address(qtype, qclass_raw) == ((qtype == 1 || qtype == 28 || qtype == 255) && (
        qclass_raw == 1 || qclass_raw == 0x8001)),
{
}

/// A question is answered with an address of the type that it asks for. One for
/// any record is answered with the IPv4 address, or the IPv6 address where
/// there is no other.
pub proof fn the_answer_is_of_the_type_asked_for(
    qtype: u16,
    v4: Seq<u8>,
    v6: Seq<u8>,
    ipv4: Option<Seq<u8>>,
    ipv6: Option<Seq<u8>>,
)
    ensures
        answer_of(1, Some(v4), ipv6) == Some((1u16, v4)),
        answer_of(1, None, ipv6) is None,
        answer_of(28, ipv4, Some(v6)) == Some((28u16, v6)),
        answer_of(28, ipv4, None) is None,
        answer_of(255, Some(v4), ipv6) == Some((1u16, v4)),
        answer_of(255, None, Some(v6)) == Some((28u16, v6)),
        answer_of(255, None, None) is None,
        qtype != 1 && qtype != 28 && qtype != 255 ==> answer_of(qtype, ipv4, ipv6) is None,
{
}

/// A question for the name of the host, in capitals or small letters, is found,
/// with its type, its class and whether it wishes a unicast reply.
#[verifier::rlimit(40)]
pub proof fn a_question_for_the_host_is_found(
    header: Seq<u8>,
    name: Seq<u8>,
    local: Seq<u8>,
    rest: Seq<u8>,
    hostname: Seq<u8>,
    qtype: u16,
    unicast: bool,
)
    requires
        header.len() == 12,
        header[4] > 0 || header[5] > 0,
        1 <= name.len() <= 63,
        same_label(name, hostname),
        same_label(local, encode_utf8("local"@)),
        qtype == 1 || qtype == 28 || qtype == 255,
    ensures
        question_of(
            header + name_bytes(seq![name, local]) + u16_be(qtype) + u16_be(
                if unicast {
                    0x8001
                } else {
                    1
                },
            ) + rest,
            hostname,
        ) == Some(
            MdnsQuestionMatch {
                prefer_unicast_response: unicast,
                qtype,
                qclass_raw: if unicast {
                    0x8001
                } else {
                    1
                },
            },
        ),
{
    local_is_ascii();
    let labels = seq![name, local];
    let qclass_raw: u16 = if unicast {
        0x8001
    } else {
        1
    };
    let n = name_bytes(labels);
    let q = header + n + u16_be(qtype) + u16_be(qclass_raw) + rest;
    let end = 12 + n.len() as int;
    assert(q.subrange(12, end) == n);
    name_read_back(q, 12, labels, MAX_JUMPS as nat);
    assert(q[4] == header[4] && q[5] == header[5]);
    assert(q[end] == u16_be(qtype)[0] && q[end + 1] == u16_be(qtype)[1]);
    assert(q[end + 2] == u16_be(qclass_raw)[0] && q[end + 3] == u16_be(qclass_raw)[1]);
    assert(labels_match(labels, host_labels(hostname)));
    assert(get_u16_be(q, 4) > 0);
}

/// A question for another name than that of the host is passed over: what a
/// message asks is what the questions behind it ask.
pub proof fn a_question_for_another_name_is_passed_over(
    q: Seq<u8>,
    at: int,
    labels: Seq<Seq<u8>>,
    hostname: Seq<u8>,
    left: nat,
)
    requires
        proper_labels(labels),
        stands_at(q, at, name_bytes(labels)),
        at + name_bytes(labels).len() + 4 <= q.len(),
        labels.len() != 2 || !same_label(labels[0], hostname) || !same_label(
            labels[1],
            encode_utf8("local"@),
        ),
    ensures
        question_from(q, hostname, left + 1, at) == question_from(
            q,
            hostname,
            left,
            at + name_bytes(labels).len() + 4,
        ),
{
    name_read_back(q, at, labels, MAX_JUMPS as nat);
    let wanted = host_labels(hostname);
    if labels.len() == 2 {
        assert(wanted[0] == hostname && wanted[1] == encode_utf8("local"@));
        if labels_match(labels, wanted) {
            assert(same_label(labels[0], wanted[0]) && same_label(labels[1], wanted[1]));
        }
    }
}

/// A reply has the identifier of the message that it answers, says that it is
/// an authoritative response, and holds one question, the one that was asked,
/// and one record: the address, under the name that was asked for, to be kept
/// for 120 seconds.
#[verifier::rlimit(40)]
pub proof fn the_reply_carries_the_address(
    query: Seq<u8>,
    hostname: Seq<u8>,
    question: MdnsQuestionMatch,
    rtype: u16,
    address: Seq<u8>,
)
    requires
        query.len() >= 2,
        1 <= hostname.len() <= 63,
        address.len() <= 16,
    ensures
        ({
            let b = response_bytes(query, hostname, question, (rtype, address));
            let e = 12 + hostname.len() as int + 8;
            &&& b[0] == query[0] && b[1] == query[1]
            &&& b[2] == 0x84 && b[3] == 0
            &&& b[4] == 0 && b[5] == 1
            &&& b[6] == 0 && b[7] == 1
            &&& b[8] == 0 && b[9] == 0 && b[10] == 0 && b[11] == 0
            &&& name_at(b, 12, MAX_JUMPS as nat) == Some(
                (seq![hostname, encode_utf8("local"@)], e),
            )
            &&& b[e] * 256 + b[e + 1] == question.qtype
            &&& b[e + 2] * 256 + b[e + 3] == question.qclass_raw
            &&& record_at(b, e + 4) == Some(
                RecordView {
                    labels: seq![hostname, encode_utf8("local"@)],
                    rtype,
                    data_at: e + 16,
                    data_len: address.len() as int,
                },
            )
            &&& b[e + 8] == 0x80 && b[e + 9] == 1
            &&& b[e + 10] == 0 && b[e + 11] == 0 && b[e + 12] == 0 && b[e + 13] == 120
            &&& b.skip(e + 16) == address
        }),
{
    let b = response_bytes(query, hostname, question, (rtype, address));
    let labels = host_labels(hostname);
    let name = name_bytes(labels);
    local_is_ascii();
    reveal_with_fuel(labels_bytes, 3);
    assert(labels.drop_last() == seq![hostname]);
    assert(seq![hostname].drop_last() == Seq::<Seq<u8>>::empty());
    assert(name.len() == hostname.len() + 8);
    let e = 12 + name.len() as int;
    assert(b.subrange(12, e) == name);
    name_read_back(b, 12, labels, MAX_JUMPS as nat);
    assert(b[e] == u16_be(question.qtype)[0] && b[e + 1] == u16_be(question.qtype)[1]);
    assert(b[e + 2] == u16_be(question.qclass_raw)[0] && b[e + 3] == u16_be(question.qclass_raw)[1]);
    assert(b[e + 4] == 0xC0 && b[e + 5] == 0x0C);
    a_pointer_is_followed(b, e + 4, 12, labels, MAX_JUMPS as nat);
    assert(b[e + 6] == u16_be(rtype)[0] && b[e + 7] == u16_be(rtype)[1]);
    let n = address.len() as u16;
    assert(b[e + 14] == u16_be(n)[0] && b[e + 15] == u16_be(n)[1]);
    assert(b.skip(e + 16) == address);
}

/// The names, types and data of `n` records from `at` on.
pub open spec fn records_read(p: Seq<u8>, at: int, n: nat) -> Option<
    Seq<(Seq<Seq<u8>>, u16, Seq<u8>)>,
>
    decreases n,
{
    if n == 0 {
        Some(Seq::empty())
    } else {
        match record_at(p, at) {
            Some(r) => match records_read(p, r.data_at + r.data_len, (n - 1) as nat) {
                Some(rest) => Some(
                    seq![(r.labels, r.rtype, p.subrange(r.data_at, r.data_at + r.data_len))] + rest,
                ),
                None => None,
            },
            None => None,
        }
    }
}

#[verifier::opaque]
spec fn record_of(labels: Seq<Seq<u8>>, rtype: u16, class: u16, rdata: Seq<u8>) -> Seq<u8> {
    record_bytes(labels, rtype, class, MDNS_TTL_SECS, rdata)
}

proof fn one_more_record(
    p: Seq<u8>,
    at: int,
    labels: Seq<Seq<u8>>,
    rtype: u16,
    class: u16,
    rdata: Seq<u8>,
    n: nat,
    rest: Seq<(Seq<Seq<u8>>, u16, Seq<u8>)>,
)
    requires
        proper_labels(labels),
        rdata.len() < 0x1_0000,
        stands_at(p, at, record_of(labels, rtype, class, rdata)),
        records_read(p, at + record_of(labels, rtype, class, rdata).len(), n) == Some(rest),
    ensures
        records_read(p, at, n + 1) == Some(seq![(labels, rtype, rdata)] + rest),
{
    reveal(record_of);
    record_read_back(p, at, labels, rtype, class, MDNS_TTL_SECS, rdata);
}

proof fn names_are_short(labels: Seq<Seq<u8>>)
    requires
        proper_labels(labels),
    ensures
        labels_bytes(labels).len() <= 64 * labels.len(),
        name_bytes(labels).len() <= 64 * labels.len() + 1,
    decreases labels.len(),
{
    if labels.len() > 0 {
        let before = labels.drop_last();
        assert forall|i: int| 0 <= i < before.len() implies proper_label(#[trigger] before[i]) by {
            assert(before[i] == labels[i]);
        }
        names_are_short(before);
        assert(proper_label(labels[labels.len() - 1]));
    }
}

proof fn service_names_are_proper(hostname: Seq<u8>)
    requires
        1 <= hostname.len() <= 63,
    ensures
        proper_labels(services_labels()),
        proper_labels(http_labels()),
        proper_labels(brewster_labels()),
        proper_labels(seq![hostname] + http_labels()),
        proper_labels(seq![hostname] + brewster_labels()),
        proper_labels(host_labels(hostname)),
{
    reveal_strlit("_services");
    is_ascii_chars_encode_utf8("_services"@);
    reveal_strlit("_dns-sd");
    is_ascii_chars_encode_utf8("_dns-sd"@);
    reveal_strlit("_udp");
    is_ascii_chars_encode_utf8("_udp"@);
    reveal_strlit("local");
    is_ascii_chars_encode_utf8("local"@);
    reveal_strlit("_http");
    is_ascii_chars_encode_utf8("_http"@);
    reveal_strlit("_tcp");
    is_ascii_chars_encode_utf8("_tcp"@);
    reveal_strlit("_brewster");
    is_ascii_chars_encode_utf8("_brewster"@);
}

proof fn address_is_read(
    p: Seq<u8>,
    at: int,
    hostname: Seq<u8>,
    rtype: u16,
    address: Option<Seq<u8>>,
    n: nat,
    rest: Seq<(Seq<Seq<u8>>, u16, Seq<u8>)>,
)
    requires
        1 <= hostname.len() <= 63,
        address matches Some(a) ==> a.len() <= 16,
        stands_at(p, at, address_part(hostname, rtype, address)),
        records_read(p, at + address_part(hostname, rtype, address).len(), n) == Some(rest),
    ensures
        match address {
            Some(a) => records_read(p, at, n + 1) == Some(
                seq![(host_labels(hostname), rtype, a)] + rest,
            ),
            None => records_read(p, at, n) == Some(rest),
        },
{
    reveal(address_part);
    service_names_are_proper(hostname);
    match address {
        Some(a) => {
            reveal(record_of);
            one_more_record(p, at, host_labels(hostname), rtype, CLASS_IN_FLUSH, a, n, rest);
        },
        None => {},
    }
}

/// The records of the services, with their data.
spec fn services_of(hostname: Seq<u8>) -> Seq<(Seq<Seq<u8>>, u16, Seq<u8>)> {
    seq![
        (services_labels(), 12u16, name_bytes(http_labels())),
        (http_labels(), 12u16, name_bytes(seq![hostname] + http_labels())),
        (brewster_labels(), 12u16, name_bytes(seq![hostname] + brewster_labels())),
        (
            seq![hostname] + http_labels(),
            33u16,
            seq![0u8, 0, 0, 0, 0, 80] + name_bytes(host_labels(hostname)),
        ),
        (seq![hostname] + http_labels(), 16u16, seq![0u8]),
    ]
}

proof fn data_of_a_service(host: Seq<Seq<u8>>)
    ensures
        service_data(HTTP_PORT, host) == seq![0u8, 0, 0, 0, 0, 80] + name_bytes(host),
{
    let n = name_bytes(host);
    assert(u16_be(0) + u16_be(0) + u16_be(HTTP_PORT) =~= seq![0u8, 0, 0, 0, 0, 80]);
    assert(service_data(HTTP_PORT, host) =~= seq![0u8, 0, 0, 0, 0, 80] + n);
}

#[verifier::spinoff_prover]
#[verifier::rlimit(40)]
proof fn services_are_records(hostname: Seq<u8>)
    ensures
        ({
            let r = services_of(hostname);
            service_records(hostname) == record_of(r[0].0, 12, CLASS_IN, r[0].2) + record_of(
                r[1].0,
                12,
                CLASS_IN,
                r[1].2,
            ) + record_of(r[2].0, 12, CLASS_IN, r[2].2) + record_of(
                r[3].0,
                33,
                CLASS_IN_FLUSH,
                r[3].2,
            ) + record_of(r[4].0, 16, CLASS_IN_FLUSH, r[4].2)
        }),
{
    let http = http_labels();
    let brewster = brewster_labels();
    let host = host_labels(hostname);
    let instance = seq![hostname] + http;
    let d4 = service_data(HTTP_PORT, host);
    data_of_a_service(host);
    let r = services_of(hostname);
    let b1 = record_bytes(services_labels(), TYPE_PTR, CLASS_IN, MDNS_TTL_SECS, name_bytes(http));
    let b2 = record_bytes(http, TYPE_PTR, CLASS_IN, MDNS_TTL_SECS, name_bytes(instance));
    let b3 = record_bytes(
        brewster,
        TYPE_PTR,
        CLASS_IN,
        MDNS_TTL_SECS,
        name_bytes(seq![hostname] + brewster),
    );
    let b4 = record_bytes(instance, TYPE_SRV, CLASS_IN_FLUSH, MDNS_TTL_SECS, d4);
    let b5 = record_bytes(instance, TYPE_TXT, CLASS_IN_FLUSH, MDNS_TTL_SECS, seq![0u8]);
    assert(b1 == record_of(r[0].0, 12, CLASS_IN, r[0].2)) by {
        reveal(record_of);
    }
    assert(b2 == record_of(r[1].0, 12, CLASS_IN, r[1].2)) by {
        reveal(record_of);
    }
    assert(b3 == record_of(r[2].0, 12, CLASS_IN, r[2].2)) by {
        reveal(record_of);
    }
    assert(b4 == record_of(r[3].0, 33, CLASS_IN_FLUSH, r[3].2)) by {
        reveal(record_of);
    }
    assert(b5 == record_of(r[4].0, 16, CLASS_IN_FLUSH, r[4].2)) by {
        reveal(record_of);
    }
}

#[verifier::spinoff_prover]
#[verifier::rlimit(40)]
proof fn services_are_proper(hostname: Seq<u8>)
    requires
        1 <= hostname.len() <= 63,
    ensures
        forall|i: int|
            0 <= i < 5 ==> proper_labels((#[trigger] services_of(hostname)[i]).0) && services_of(
                hostname,
            )[i].2.len() < 0x1_0000,
{
    service_names_are_proper(hostname);
    names_are_short(http_labels());
    names_are_short(seq![hostname] + http_labels());
    names_are_short(seq![hostname] + brewster_labels());
    names_are_short(host_labels(hostname));
}

#[verifier::rlimit(40)]
proof fn five_pieces_stand(
    p: Seq<u8>,
    at: int,
    r1: Seq<u8>,
    r2: Seq<u8>,
    r3: Seq<u8>,
    r4: Seq<u8>,
    r5: Seq<u8>,
)
    requires
        stands_at(p, at, r1 + r2 + r3 + r4 + r5),
    ensures
        stands_at(p, at, r1),
        stands_at(p, at + r1.len(), r2),
        stands_at(p, at + r1.len() + r2.len(), r3),
        stands_at(p, at + r1.len() + r2.len() + r3.len(), r4),
        stands_at(p, at + r1.len() + r2.len() + r3.len() + r4.len(), r5),
        (r1 + r2 + r3 + r4 + r5).len() == r1.len() + r2.len() + r3.len() + r4.len() + r5.len(),
{
    let s = r1 + r2 + r3 + r4 + r5;
    piece_stands(p, at, s, Seq::empty(), r1, r2 + r3 + r4 + r5);
    piece_stands(p, at, s, r1, r2, r3 + r4 + r5);
    piece_stands(p, at, s, r1 + r2, r3, r4 + r5);
    piece_stands(p, at, s, r1 + r2 + r3, r4, r5);
    piece_stands(p, at, s, r1 + r2 + r3 + r4, r5, Seq::empty());
}

#[verifier::rlimit(40)]
proof fn five_are_read(
    p: Seq<u8>,
    at: int,
    r: Seq<(Seq<Seq<u8>>, u16, Seq<u8>)>,
    n: nat,
    rest: Seq<(Seq<Seq<u8>>, u16, Seq<u8>)>,
)
    requires
        r.len() == 5,
        r[0].1 == 12 && r[1].1 == 12 && r[2].1 == 12 && r[3].1 == 33 && r[4].1 == 16,
        forall|i: int| 0 <= i < 5 ==> proper_labels((#[trigger] r[i]).0) && r[i].2.len() < 0x1_0000,
        ({
            let s = record_of(r[0].0, 12, CLASS_IN, r[0].2) + record_of(
                r[1].0,
                12,
                CLASS_IN,
                r[1].2,
            ) + record_of(r[2].0, 12, CLASS_IN, r[2].2) + record_of(
                r[3].0,
                33,
                CLASS_IN_FLUSH,
                r[3].2,
            ) + record_of(r[4].0, 16, CLASS_IN_FLUSH, r[4].2);
            stands_at(p, at, s) && records_read(p, at + s.len(), n) == Some(rest)
        }),
    ensures
        records_read(p, at, n + 5) == Some(r + rest),
{
    let b1 = record_of(r[0].0, 12, CLASS_IN, r[0].2);
    let b2 = record_of(r[1].0, 12, CLASS_IN, r[1].2);
    let b3 = record_of(r[2].0, 12, CLASS_IN, r[2].2);
    let b4 = record_of(r[3].0, 33, CLASS_IN_FLUSH, r[3].2);
    let b5 = record_of(r[4].0, 16, CLASS_IN_FLUSH, r[4].2);
    five_pieces_stand(p, at, b1, b2, b3, b4, b5);
    let a2 = at + b1.len();
    let a3 = a2 + b2.len();
    let a4 = a3 + b3.len();
    let a5 = a4 + b4.len();
    one_more_record(p, a5, r[4].0, 16, CLASS_IN_FLUSH, r[4].2, n, rest);
    let e5 = seq![(r[4].0, 16u16, r[4].2)] + rest;
    one_more_record(p, a4, r[3].0, 33, CLASS_IN_FLUSH, r[3].2, n + 1, e5);
    let e4 = seq![(r[3].0, 33u16, r[3].2)] + e5;
    one_more_record(p, a3, r[2].0, 12, CLASS_IN, r[2].2, n + 2, e4);
    let e3 = seq![(r[2].0, 12u16, r[2].2)] + e4;
    one_more_record(p, a2, r[1].0, 12, CLASS_IN, r[1].2, n + 3, e3);
    let e2 = seq![(r[1].0, 12u16, r[1].2)] + e3;
    one_more_record(p, at, r[0].0, 12, CLASS_IN, r[0].2, n + 4, e2);
    let e1 = seq![(r[0].0, 12u16, r[0].2)] + e2;
    assert(e1 == r + rest);
}

#[verifier::opaque]
spec fn services_part(hostname: Seq<u8>) -> Seq<u8> {
    service_records(hostname)
}

#[verifier::opaque]
spec fn address_part(hostname: Seq<u8>, rtype: u16, address: Option<Seq<u8>>) -> Seq<u8> {
    address_record(hostname, rtype, address)
}

proof fn services_are_read(
    p: Seq<u8>,
    at: int,
    hostname: Seq<u8>,
    n: nat,
    rest: Seq<(Seq<Seq<u8>>, u16, Seq<u8>)>,
)
    requires
        1 <= hostname.len() <= 63,
        stands_at(p, at, services_part(hostname)),
        records_read(p, at + services_part(hostname).len(), n) == Some(rest),
    ensures
        records_read(p, at, n + 5) == Some(services_of(hostname) + rest),
{
    reveal(services_part);
    services_are_records(hostname);
    services_are_proper(hostname);
    five_are_read(p, at, services_of(hostname), n, rest);
}

#[verifier::rlimit(40)]
proof fn addresses_are_read(
    p: Seq<u8>,
    at: int,
    hostname: Seq<u8>,
    ipv4: Option<Seq<u8>>,
    ipv6: Option<Seq<u8>>,
) -> (r: Seq<(Seq<Seq<u8>>, u16, Seq<u8>)>)
    requires
        1 <= hostname.len() <= 63,
        ipv4 matches Some(a) ==> a.len() == 4,
        ipv6 matches Some(a) ==> a.len() == 16,
        stands_at(p, at, address_part(hostname, TYPE_A, ipv4)),
        stands_at(
            p,
            at + address_part(hostname, TYPE_A, ipv4).len(),
            address_part(hostname, TYPE_AAAA, ipv6),
        ),
    ensures
        r == (match ipv4 {
            Some(a) => seq![(host_labels(hostname), 1u16, a)],
            None => Seq::empty(),
        }) + (match ipv6 {
            Some(a) => seq![(host_labels(hostname), 28u16, a)],
            None => Seq::empty(),
        }),
        records_read(p, at, r.len()) == Some(r),
{
    let x4 = address_part(hostname, TYPE_A, ipv4);
    let x6 = address_part(hostname, TYPE_AAAA, ipv6);
    let none = Seq::<(Seq<Seq<u8>>, u16, Seq<u8>)>::empty();
    assert(records_read(p, at + x4.len() + x6.len(), 0) == Some(none));
    address_is_read(p, at + x4.len(), hostname, TYPE_AAAA, ipv6, 0, none);
    let v6 = match ipv6 {
        Some(a) => seq![(host_labels(hostname), 28u16, a)],
        None => none,
    };
    assert(v6 + none == v6);
    address_is_read(p, at, hostname, TYPE_A, ipv4, v6.len(), v6);
    let v4 = match ipv4 {
        Some(a) => seq![(host_labels(hostname), 1u16, a)],
        None => none,
    };
    assert(none + v6 == v6);
    v4 + v6
}

proof fn piece_stands(p: Seq<u8>, at: int, whole: Seq<u8>, a: Seq<u8>, b: Seq<u8>, c: Seq<u8>)
    requires
        stands_at(p, at, whole),
        whole =~= a + b + c,
    ensures
        stands_at(p, at + a.len(), b),
{
    let s = p.subrange(at, at + whole.len());
    assert forall|i: int| 0 <= i < b.len() implies p[at + a.len() + i] == b[i] by {
        assert(s[a.len() + i] == whole[a.len() + i]);
    }
    assert(p.subrange(at + a.len(), at + a.len() + b.len()) == b);
}

#[verifier::rlimit(40)]
proof fn announcement_pieces(hostname: Seq<u8>, ipv4: Option<Seq<u8>>, ipv6: Option<Seq<u8>>)
    ensures
        ({
            let b = announcement_bytes(hostname, ipv4, ipv6);
            let s = services_part(hostname);
            let x4 = address_part(hostname, TYPE_A, ipv4);
            let x6 = address_part(hostname, TYPE_AAAA, ipv6);
            &&& b[6] * 256 + b[7] == 5 + (if ipv4 is Some {
                1int
            } else {
                0
            }) + (if ipv6 is Some {
                1int
            } else {
                0
            })
            &&& stands_at(b, 12, s)
            &&& stands_at(b, 12 + s.len() as int, x4)
            &&& stands_at(b, 12 + s.len() as int + x4.len(), x6)
        }),
{
    let b = announcement_bytes(hostname, ipv4, ipv6);
    let s = services_part(hostname);
    let x4 = address_part(hostname, TYPE_A, ipv4);
    let x6 = address_part(hostname, TYPE_AAAA, ipv6);
    let count = announced_records(ipv4 is Some, ipv6 is Some) as u16;
    let h = announcement_header(count, 0);
    assert(b == h + s + x4 + x6) by {
        reveal(services_part);
        reveal(address_part);
    }
    four_pieces_stand(b, h, s, x4, x6, count);
}

proof fn four_pieces_stand(
    b: Seq<u8>,
    h: Seq<u8>,
    s: Seq<u8>,
    x4: Seq<u8>,
    x6: Seq<u8>,
    count: u16,
)
    requires
        b == h + s + x4 + x6,
        h == announcement_header(count, 0),
    ensures
        b[6] * 256 + b[7] == count,
        stands_at(b, 12, s),
        stands_at(b, 12 + s.len() as int, x4),
        stands_at(b, 12 + s.len() as int + x4.len(), x6),
{
    a_header_counts_its_records(count, 0);
    assert(b[6] == h[6] && b[7] == h[7]);
    assert(b.subrange(0, b.len() as int) == b);
    piece_stands(b, 0, b, h, s, x4 + x6);
    piece_stands(b, 0, b, h + s, x4, x6);
    piece_stands(b, 0, b, h + s + x4, x6, Seq::empty());
}

#[verifier::rlimit(40)]
proof fn all_are_read(b: Seq<u8>, hostname: Seq<u8>, ipv4: Option<Seq<u8>>, ipv6: Option<Seq<u8>>)
    requires
        1 <= hostname.len() <= 63,
        ipv4 matches Some(a) ==> a.len() == 4,
        ipv6 matches Some(a) ==> a.len() == 16,
        stands_at(b, 12, services_part(hostname)),
        stands_at(
            b,
            12 + services_part(hostname).len() as int,
            address_part(hostname, TYPE_A, ipv4),
        ),
        stands_at(
            b,
            12 + services_part(hostname).len() as int + address_part(hostname, TYPE_A, ipv4).len(),
            address_part(hostname, TYPE_AAAA, ipv6),
        ),
    ensures
        ({
            let records = services_of(hostname) + (match ipv4 {
                Some(a) => seq![(host_labels(hostname), 1u16, a)],
                None => Seq::empty(),
            }) + (match ipv6 {
                Some(a) => seq![(host_labels(hostname), 28u16, a)],
                None => Seq::empty(),
            });
            records_read(b, 12, records.len()) == Some(records)
        }),
{
    let s = services_part(hostname);
    let tail = addresses_are_read(b, 12 + s.len() as int, hostname, ipv4, ipv6);
    services_are_read(b, 12, hostname, tail.len(), tail);
    let first = services_of(hostname);
    let v4 = match ipv4 {
        Some(a) => seq![(host_labels(hostname), 1u16, a)],
        None => Seq::empty(),
    };
    let v6 = match ipv6 {
        Some(a) => seq![(host_labels(hostname), 28u16, a)],
        None => Seq::empty(),
    };
    assert(first + (v4 + v6) == first + v4 + v6);
}

/// Whether a message counts its records and a reader finds in it, in this
/// order: that there are web services, the device among them, the device among
/// the Brewster services, where its web service is reached, on port 80 of the
/// host, an empty description of it, and each address of the host.
#[verifier::opaque]
pub open spec fn tells_of(
    b: Seq<u8>,
    hostname: Seq<u8>,
    ipv4: Option<Seq<u8>>,
    ipv6: Option<Seq<u8>>,
) -> bool {
    let local = encode_utf8("local"@);
    let http = seq![encode_utf8("_http"@), encode_utf8("_tcp"@), local];
    let services = seq![
        encode_utf8("_services"@),
        encode_utf8("_dns-sd"@),
        encode_utf8("_udp"@),
        local,
    ];
    let brewster = seq![encode_utf8("_brewster"@), encode_utf8("_udp"@), local];
    let host = seq![hostname, local];
    let v4 = match ipv4 {
        Some(a) => seq![(host, 1u16, a)],
        None => Seq::empty(),
    };
    let v6 = match ipv6 {
        Some(a) => seq![(host, 28u16, a)],
        None => Seq::empty(),
    };
    let records = seq![
        (services, 12u16, name_bytes(http)),
        (http, 12u16, name_bytes(seq![hostname] + http)),
        (brewster, 12u16, name_bytes(seq![hostname] + brewster)),
        (seq![hostname] + http, 33u16, seq![0u8, 0, 0, 0, 0, 80] + name_bytes(host)),
        (seq![hostname] + http, 16u16, seq![0u8]),
    ] + v4 + v6;
    &&& b[6] * 256 + b[7] == records.len()
    &&& records_read(b, 12, records.len()) == Some(records)
}

#[verifier::spinoff_prover]
#[verifier::rlimit(40)]
proof fn parts_tell(b: Seq<u8>, hostname: Seq<u8>, ipv4: Option<Seq<u8>>, ipv6: Option<Seq<u8>>)
    requires
        1 <= hostname.len() <= 63,
        ipv4 matches Some(a) ==> a.len() == 4,
        ipv6 matches Some(a) ==> a.len() == 16,
        b[6] * 256 + b[7] == 5 + (if ipv4 is Some {
            1int
        } else {
            0
        }) + (if ipv6 is Some {
            1int
        } else {
            0
        }),
        stands_at(b, 12, services_part(hostname)),
        stands_at(
            b,
            12 + services_part(hostname).len() as int,
            address_part(hostname, TYPE_A, ipv4),
        ),
        stands_at(
            b,
            12 + services_part(hostname).len() as int + address_part(hostname, TYPE_A, ipv4).len(),
            address_part(hostname, TYPE_AAAA, ipv6),
        ),
    ensures
        tells_of(b, hostname, ipv4, ipv6),
{
    reveal(tells_of);
    all_are_read(b, hostname, ipv4, ipv6);
}

/// An announcement counts its records, and a reader finds them in it.
#[verifier::rlimit(40)]
pub proof fn the_announcement_is_read(
    hostname: Seq<u8>,
    ipv4: Option<Seq<u8>>,
    ipv6: Option<Seq<u8>>,
)
    requires
        1 <= hostname.len() <= 63,
        ipv4 matches Some(a) ==> a.len() == 4,
        ipv6 matches Some(a) ==> a.len() == 16,
    ensures
        tells_of(announcement_bytes(hostname, ipv4, ipv6), hostname, ipv4, ipv6),
{
    announcement_pieces(hostname, ipv4, ipv6);
    parts_tell(announcement_bytes(hostname, ipv4, ipv6), hostname, ipv4, ipv6);
}

/// A question for a service is for one of the names that the device announces:
/// the three kinds of services by their pointers, and the device's own web
/// service by where it is reached or what describes it.
pub proof fn services_are_asked_for_by_name(hostname: Seq<u8>, qtype: u16, qclass_raw: u16)
    ensures
        ({
            let local = encode_utf8("local"@);
            let http = seq![encode_utf8("_http"@), encode_utf8("_tcp"@), local];
            let internet = qclass_raw == 1 || qclass_raw == 0x8001;
            &&& internet && (qtype == 12 || qtype == 255) ==> {
                &&& asks_for_service(
                    seq![
                        encode_utf8("_services"@),
                        encode_utf8("_dns-sd"@),
                        encode_utf8("_udp"@),
                        local,
                    ],
                    hostname,
                    qtype,
                    qclass_raw,
                )
                &&& asks_for_service(http, hostname, qtype, qclass_raw)
                &&& asks_for_service(
                    seq![encode_utf8("_brewster"@), encode_utf8("_udp"@), local],
                    hostname,
                    qtype,
                    qclass_raw,
                )
            }
            &&& internet && (qtype == 33 || qtype == 16 || qtype == 255) ==> asks_for_service(
                seq![hostname] + http,
                hostname,
                qtype,
                qclass_raw,
            )
        }),
        forall|labels: Seq<Seq<u8>>|
            #[trigger] asks_for_service(labels, hostname, qtype, qclass_raw) ==> (qclass_raw == 1
                || qclass_raw == 0x8001) && (qtype == 12 || qtype == 16 || qtype == 33 || qtype
                == 255),
{
    names_are_the_same_label_by_label(services_labels(), services_labels(), 0);
    names_are_the_same_label_by_label(http_labels(), http_labels(), 0);
    names_are_the_same_label_by_label(brewster_labels(), brewster_labels(), 0);
    let instance = seq![hostname] + http_labels();
    names_are_the_same_label_by_label(instance, instance, 0);
}

/// A server is reported only where its message announces the service, and with
/// an address and a port that are not zero.
pub proof fn only_a_reachable_server_is_found(p: Seq<u8>)
    requires
        p.len() >= 12,
    ensures
        announced_server(p) matches Some(s) ==> s.1 > 0 && s.0 != seq![0u8, 0, 0, 0],
        p[4] == 0 && p[5] == 0 && p[6] == 0 && p[7] == 0 && p[8] == 0 && p[9] == 0 && p[10] == 0
            && p[11] == 0 ==> announced_server(p) is None,
{
}

/// The first port and the first address that a message gives are the ones that
/// count, and only a pointer of the service announces a server.
pub proof fn the_first_of_each_counts(p: Seq<u8>, found: FoundView, r: RecordView)
    ensures
        found.port is Some ==> found_after(p, found, r).port == found.port,
        found.address is Some ==> found_after(p, found, r).address == found.address,
        found.announced ==> found_after(p, found, r).announced,
        found_after(p, found, r).announced && !found.announced ==> r.rtype == 12 && labels_match(
            r.labels,
            seq![encode_utf8("_brewster"@), encode_utf8("_udp"@), encode_utf8("local"@)],
        ),
        found.port is None && found_after(p, found, r).port is Some ==> r.rtype == 33
            && r.data_len >= 6 && found_after(p, found, r).port->0 == p[r.data_at + 4] * 256
            + p[r.data_at + 5],
        found.address is None && found_after(p, found, r).address is Some ==> r.rtype == 1
            && r.data_len == 4,
{
}

} // verus!
