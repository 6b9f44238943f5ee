//! How the server announces itself: a broadcast beacon and an mDNS message,
//! both every five seconds.

use vstd::prelude::*;
use vstd::utf8::{encode_utf8, is_ascii_chars_encode_utf8};
use crate::bytes::{get_u16_be, push_bytes, push_u16_be, u16_be, u16_le, u16_le_within};
use crate::dns::{
    announcement_header, label_list, labels_match, name_bytes, proper_label, proper_labels,
    push_announcement_header, push_name, push_record, record_at, record_bytes, record_read_back,
    stands_at, RecordView, CLASS_IN, CLASS_IN_FLUSH, TYPE_A, TYPE_PTR, TYPE_SRV, TYPE_TXT,
};
use crate::firmware::network::mdns::{
    announced_server, brewster_labels, host_labels, no_records, record_total, records_from,
    service_data, FoundView,
};
use crate::firmware::network::udp::{beacon_of, unspecified, BEACON_MAGIC, BEACON_SIZE};
use crate::text::{append_decimal, decimal};

verus! {

pub const MDNS_TTL: u32 = 120;

pub const ANNOUNCE_INTERVAL_SECS: u64 = 5;

// ── Beacon ───────────────────────────────────────────────────────────────────

/// A beacon: the magic, the server's address, and its two ports.
pub open spec fn beacon_bytes(ip: Seq<u8>, telemetry_port: u16, http_port: u16) -> Seq<u8> {
    BEACON_MAGIC@ + ip + u16_le(telemetry_port) + u16_le(http_port)
}

/// Builds a beacon.
pub fn build_beacon(ip: [u8; 4], telemetry_port: u16, http_port: u16) -> (r: [u8; BEACON_SIZE])
    ensures
        r@ == beacon_bytes(ip@, telemetry_port, http_port),
{
    let r: [u8; BEACON_SIZE] = [
        BEACON_MAGIC[0],
        BEACON_MAGIC[1],
        BEACON_MAGIC[2],
        BEACON_MAGIC[3],
        ip[0],
        ip[1],
        ip[2],
        ip[3],
        (telemetry_port % 256) as u8,
        (telemetry_port / 256) as u8,
        (http_port % 256) as u8,
        (http_port / 256) as u8,
    ];
    assert(r@ == beacon_bytes(ip@, telemetry_port, http_port));
    r
}

/// The device finds the server that sent a beacon.
pub proof fn beacon_is_understood(ip: Seq<u8>, telemetry_port: u16, http_port: u16)
    requires
        ip.len() == 4,
        !unspecified(ip),
        telemetry_port != 0,
    ensures
        beacon_of(beacon_bytes(ip, telemetry_port, http_port)) == Some((ip, telemetry_port)),
{
    let b = beacon_bytes(ip, telemetry_port, http_port);
    assert(b.take(4) == BEACON_MAGIC@);
    assert(b.subrange(4, 8) == ip);
    assert(b.subrange(8, 10) == u16_le(telemetry_port));
    u16_le_within(b, 8, telemetry_port);
}

// ── mDNS ─────────────────────────────────────────────────────────────────────

/// The name of the service instance: that of the device and `-server`.
pub open spec fn instance_text(device_name: Seq<char>) -> Seq<char> {
    device_name + "-server"@
}

/// The text record: the telemetry port.
pub open spec fn port_text(udp_port: u16) -> Seq<char> {
    "udp="@ + decimal(udp_port as nat)
}

/// The name of the service instance.
pub fn instance_name(device_name: &str) -> (r: String)
    ensures
        r@ == instance_text(device_name@),
{
    let mut out: String = device_name.to_owned();
    out.append("-server");
    out
}

/// The text record.
pub fn txt_record(udp_port: u16) -> (r: String)
    ensures
        r@ == port_text(udp_port),
{
    let mut out: String = "udp=".to_owned();
    append_decimal(&mut out, udp_port as u64);
    out
}

/// The message that announces the server: a pointer to the instance and its
/// text as answers, its port and its address as additional records.
pub open spec fn mdns_bytes(ip: Seq<u8>, telemetry_port: u16, instance: Seq<u8>, txt: Seq<u8>) -> Seq<
    u8,
> {
    announcement_header(2, 2) + record_bytes(
        brewster_labels(),
        TYPE_PTR,
        CLASS_IN,
        MDNS_TTL,
        name_bytes(seq![instance] + brewster_labels()),
    ) + record_bytes(
        seq![instance] + brewster_labels(),
        TYPE_TXT,
        CLASS_IN_FLUSH,
        MDNS_TTL,
        seq![(txt.len() % 256) as u8] + txt,
    ) + record_bytes(
        seq![instance] + brewster_labels(),
        TYPE_SRV,
        CLASS_IN_FLUSH,
        MDNS_TTL,
        service_data(telemetry_port, host_labels(instance)),
    ) + record_bytes(host_labels(instance), TYPE_A, CLASS_IN_FLUSH, MDNS_TTL, ip)
}

fn mdns_packet(ip: [u8; 4], telemetry_port: u16, instance: &[u8], txt: &[u8]) -> (r: Vec<u8>)
    ensures
        r@ == mdns_bytes(ip@, telemetry_port, instance@, txt@),
{
    let brewster: &[u8] = "_brewster".as_bytes();
    let udp: &[u8] = "_udp".as_bytes();
    let local: &[u8] = "local".as_bytes();
    let service: [&[u8]; 3] = [brewster, udp, local];
    let named: [&[u8]; 4] = [instance, brewster, udp, local];
    let host: [&[u8]; 2] = [instance, local];
    assert(label_list(service@) == brewster_labels());
    assert(label_list(named@) == seq![instance@] + brewster_labels());
    assert(label_list(host@) == host_labels(instance@));
    let mut pointer: Vec<u8> = Vec::new();
    push_name(&mut pointer, &named);
    assert(pointer@ == name_bytes(seq![instance@] + brewster_labels()));
    let mut text: Vec<u8> = Vec::new();
    text.push((txt.len() % 256) as u8);
    push_bytes(&mut text, txt);
    assert(text@ == seq![(txt@.len() % 256) as u8] + txt@);
    let mut reached: Vec<u8> = Vec::new();
    push_u16_be(&mut reached, 0);
    push_u16_be(&mut reached, 0);
    push_u16_be(&mut reached, telemetry_port);
    push_name(&mut reached, &host);
    assert(reached@ == service_data(telemetry_port, host_labels(instance@)));
    let mut out: Vec<u8> = Vec::new();
    push_announcement_header(&mut out, 2, 2);
    push_record(&mut out, &service, TYPE_PTR, CLASS_IN, MDNS_TTL, pointer.as_slice());
    push_record(&mut out, &named, TYPE_TXT, CLASS_IN_FLUSH, MDNS_TTL, text.as_slice());
    push_record(&mut out, &named, TYPE_SRV, CLASS_IN_FLUSH, MDNS_TTL, reached.as_slice());
    push_record(&mut out, &host, TYPE_A, CLASS_IN_FLUSH, MDNS_TTL, &ip);
    assert(Seq::<u8>::empty() + announcement_header(2, 2) == announcement_header(2, 2));
    out
}

/// Builds the message that announces the server. Fails where it takes more
/// than `max_len` bytes.
pub fn build_mdns_packet(
    ip: [u8; 4],
    telemetry_port: u16,
    instance: &[u8],
    txt: &[u8],
    max_len: usize,
) -> (r: Option<Vec<u8>>)
    ensures
        match r {
            Some(b) => b@ == mdns_bytes(ip@, telemetry_port, instance@, txt@) && b@.len()
                <= max_len,
            None => mdns_bytes(ip@, telemetry_port, instance@, txt@).len() > max_len,
        },
{
    let out: Vec<u8> = mdns_packet(ip, telemetry_port, instance, txt);
    if out.len() > max_len {
        return None;
    }
    Some(out)
}

proof fn service_is_proper()
    ensures
        proper_labels(brewster_labels()),
        proper_label(encode_utf8("local"@)),
{
    reveal_strlit("_brewster");
    reveal_strlit("_udp");
    reveal_strlit("local");
    is_ascii_chars_encode_utf8("_brewster"@);
    is_ascii_chars_encode_utf8("_udp"@);
    is_ascii_chars_encode_utf8("local"@);
}

/// A name of proper labels is not long.
proof fn name_length(labels: Seq<Seq<u8>>)
    requires
        proper_labels(labels),
    ensures
        name_bytes(labels).len() <= 64 * labels.len() + 1,
    decreases labels.len(),
{
    if labels.len() > 0 {
        let shorter = labels.drop_last();
        assert forall|i: int| 0 <= i < shorter.len() implies proper_label(#[trigger] shorter[i]) by {
            assert(shorter[i] == labels[i]);
        }
        name_length(shorter);
        assert(proper_label(labels[labels.len() - 1]));
    }
}

/// What four records say of a server.
proof fn server_in_records(
    p: Seq<u8>,
    at: int,
    pointer: RecordView,
    text: RecordView,
    reached: RecordView,
    address: RecordView,
)
    requires
        record_at(p, at) == Some(pointer),
        record_at(p, pointer.data_at + pointer.data_len) == Some(text),
        record_at(p, text.data_at + text.data_len) == Some(reached),
        record_at(p, reached.data_at + reached.data_len) == Some(address),
        pointer.rtype == TYPE_PTR,
        pointer.labels == brewster_labels(),
        text.rtype == TYPE_TXT,
        reached.rtype == TYPE_SRV,
        reached.labels.len() > 0,
        reached.labels.skip(1) == brewster_labels(),
        reached.data_len >= 6,
        address.rtype == TYPE_A,
        address.data_len == 4,
    ensures
        records_from(p, at, 4, no_records()) == Some(
            FoundView {
                announced: true,
                port: Some(get_u16_be(p, reached.data_at + 4)),
                address: Some(p.subrange(address.data_at, address.data_at + 4)),
            },
        ),
{
    reveal_with_fuel(records_from, 5);
    let service = brewster_labels();
    assert(labels_match(service, service));
}

/// The device finds the server that sent an announcement.
pub proof fn announcement_is_understood(
    ip: Seq<u8>,
    telemetry_port: u16,
    instance: Seq<u8>,
    txt: Seq<u8>,
)
    requires
        ip.len() == 4,
        !unspecified(ip),
        telemetry_port != 0,
        1 <= instance.len() <= 63,
        txt.len() <= 255,
    ensures
        announced_server(mdns_bytes(ip, telemetry_port, instance, txt)) == Some(
            (ip, telemetry_port),
        ),
{
    announcement_layout(ip, telemetry_port, instance, txt);
    records_are_understood(
        mdns_bytes(ip, telemetry_port, instance, txt),
        ip,
        telemetry_port,
        instance,
        txt,
    );
}

/// Whether a message holds the records of an announcement.
spec fn holds_records(
    p: Seq<u8>,
    ip: Seq<u8>,
    telemetry_port: u16,
    instance: Seq<u8>,
    txt: Seq<u8>,
) -> bool {
    let named = seq![instance] + brewster_labels();
    let host = host_labels(instance);
    let text = seq![(txt.len() % 256) as u8] + txt;
    let reached = service_data(telemetry_port, host);
    let r1 = record_bytes(brewster_labels(), TYPE_PTR, CLASS_IN, MDNS_TTL, name_bytes(named));
    let r2 = record_bytes(named, TYPE_TXT, CLASS_IN_FLUSH, MDNS_TTL, text);
    let r3 = record_bytes(named, TYPE_SRV, CLASS_IN_FLUSH, MDNS_TTL, reached);
    let r4 = record_bytes(host, TYPE_A, CLASS_IN_FLUSH, MDNS_TTL, ip);
    &&& p.len() >= 12
    &&& get_u16_be(p, 4) == 0
    &&& record_total(p) == 4
    &&& stands_at(p, 12, r1)
    &&& stands_at(p, 12 + r1.len() as int, r2)
    &&& stands_at(p, 12 + r1.len() as int + r2.len(), r3)
    &&& stands_at(p, 12 + r1.len() as int + r2.len() + r3.len(), r4)
}

proof fn records_are_understood(
    p: Seq<u8>,
    ip: Seq<u8>,
    telemetry_port: u16,
    instance: Seq<u8>,
    txt: Seq<u8>,
)
    requires
        holds_records(p, ip, telemetry_port, instance, txt),
        ip.len() == 4,
        !unspecified(ip),
        telemetry_port != 0,
        1 <= instance.len() <= 63,
        txt.len() <= 255,
    ensures
        announced_server(p) == Some((ip, telemetry_port)),
{
    let named = seq![instance] + brewster_labels();
    let host = host_labels(instance);
    let reached = service_data(telemetry_port, host);
    service_is_proper();
    assert forall|i: int| 0 <= i < named.len() implies proper_label(#[trigger] named[i]) by {
        if i > 0 {
            assert(named[i] == brewster_labels()[i - 1]);
        }
    }
    name_length(named);
    name_length(host);
    let r1 = record_bytes(brewster_labels(), TYPE_PTR, CLASS_IN, MDNS_TTL, name_bytes(named));
    let text = seq![(txt.len() % 256) as u8] + txt;
    let r2 = record_bytes(named, TYPE_TXT, CLASS_IN_FLUSH, MDNS_TTL, text);
    let r3 = record_bytes(named, TYPE_SRV, CLASS_IN_FLUSH, MDNS_TTL, reached);
    let a2 = 12 + r1.len() as int;
    let a3 = a2 + r2.len();
    let a4 = a3 + r3.len();
    record_read_back(p, 12, brewster_labels(), TYPE_PTR, CLASS_IN, MDNS_TTL, name_bytes(named));
    record_read_back(p, a2, named, TYPE_TXT, CLASS_IN_FLUSH, MDNS_TTL, text);
    record_read_back(p, a3, named, TYPE_SRV, CLASS_IN_FLUSH, MDNS_TTL, reached);
    record_read_back(p, a4, host, TYPE_A, CLASS_IN_FLUSH, MDNS_TTL, ip);
    let pointer = record_at(p, 12)->0;
    let texted = record_at(p, a2)->0;
    let port = record_at(p, a3)->0;
    let address = record_at(p, a4)->0;
    assert(named.skip(1) == brewster_labels());
    server_in_records(p, 12, pointer, texted, port, address);
    let data = p.subrange(port.data_at, port.data_at + port.data_len);
    assert(data[4] == reached[4] && data[5] == reached[5]);
    assert(reached[4] == u16_be(telemetry_port)[0] && reached[5] == u16_be(telemetry_port)[1]);
    assert(get_u16_be(p, port.data_at + 4) == telemetry_port);
}

/// Where the parts of an announcement stand.
proof fn announcement_layout(ip: Seq<u8>, telemetry_port: u16, instance: Seq<u8>, txt: Seq<u8>)
    ensures
        holds_records(
            mdns_bytes(ip, telemetry_port, instance, txt),
            ip,
            telemetry_port,
            instance,
            txt,
        ),
{
    let named = seq![instance] + brewster_labels();
    let host = host_labels(instance);
    let text = seq![(txt.len() % 256) as u8] + txt;
    let h = announcement_header(2, 2);
    let r1 = record_bytes(brewster_labels(), TYPE_PTR, CLASS_IN, MDNS_TTL, name_bytes(named));
    let r2 = record_bytes(named, TYPE_TXT, CLASS_IN_FLUSH, MDNS_TTL, text);
    let r3 = record_bytes(
        named,
        TYPE_SRV,
        CLASS_IN_FLUSH,
        MDNS_TTL,
        service_data(telemetry_port, host),
    );
    let r4 = record_bytes(host, TYPE_A, CLASS_IN_FLUSH, MDNS_TTL, ip);
    parts_stand(h, r1, r2, r3, r4);
    assert(h.len() == 12);
    let p = h + r1 + r2 + r3 + r4;
    assert(forall|i: int| 0 <= i < 12 ==> p[i] == h[i]);
}

/// Five parts stand one after the other.
proof fn parts_stand(h: Seq<u8>, a: Seq<u8>, b: Seq<u8>, c: Seq<u8>, d: Seq<u8>)
    ensures
        ({
            let p = h + a + b + c + d;
            let n = h.len() as int;
            &&& stands_at(p, n, a)
            &&& stands_at(p, n + a.len(), b)
            &&& stands_at(p, n + a.len() + b.len(), c)
            &&& stands_at(p, n + a.len() + b.len() + c.len(), d)
        }),
{
    let p = h + a + b + c + d;
    let n = h.len() as int;
    assert(p.subrange(n, n + a.len()) == a);
    assert(p.subrange(n + a.len(), n + a.len() + b.len()) == b);
    assert(p.subrange(n + a.len() + b.len(), n + a.len() + b.len() + c.len()) == c);
    assert(p.subrange(n + a.len() + b.len() + c.len(), p.len() as int) == d);
}

} // verus!
