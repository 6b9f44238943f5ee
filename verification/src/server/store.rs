//! History of received packets, kept in memory for a limited time.
//!
//! Records are kept in the order in which they arrived, and old ones are
//! dropped whenever a packet comes in. Points in time are nanoseconds since
//! the start of 1970.

use std::collections::VecDeque;
use vstd::prelude::*;
use vstd::relations::{sorted_by, total_ordering};
use vstd::seq_lib::lemma_sorted_unique;
use super::lttb::{indices, lttb, lttb_indices, lttb_spans_the_curve, SamplePoint};
use super::packet::{Packet, PACKET_VERSION};

verus! {

/// One record is stored per this many seconds of device uptime.
pub const STORE_INTERVAL_S: u32 = 1;

pub const NANOS_PER_SECOND: u128 = 1_000_000_000;

/// A longer time between two records is a gap in the data.
pub const GAP_NANOS: u128 = 5_000_000_000;

/// Dead zone width of a restored packet, which is not stored.
pub const RESTORED_DEADBAND_CENTI: u8 = 50;

/// A stored packet.
#[derive(Clone, Copy, Debug)]
pub struct Record {
    pub received_ns: u128,
    pub packet: Packet,
}

/// The history and the statistics of what was received.
pub struct Store {
    pub records: VecDeque<Record>,
    pub retention_ns: u128,
    /// The last packet, whether it was stored or not.
    pub latest: Option<Packet>,
    /// Whether packets are stored.
    pub collecting: bool,
    pub packets_received: u64,
    /// Packets that are missing from the sequence.
    pub packets_dropped: u64,
    pub last_seq: Option<u32>,
}

/// What a store holds.
#[verifier::ext_equal]
pub struct StoreView {
    pub records: Seq<Record>,
    pub retention_ns: u128,
    pub latest: Option<Packet>,
    pub collecting: bool,
    pub packets_received: u64,
    pub packets_dropped: u64,
    pub last_seq: Option<u32>,
}

impl View for Store {
    type V = StoreView;

    open spec fn view(&self) -> StoreView {
        StoreView {
            records: self.records@,
            retention_ns: self.retention_ns,
            latest: self.latest,
            collecting: self.collecting,
            packets_received: self.packets_received,
            packets_dropped: self.packets_dropped,
            last_seq: self.last_seq,
        }
    }
}

/// A record as it is written to disk.
#[derive(Clone, Copy, Debug)]
pub struct PersistedRecord {
    /// Seconds since the start of 1970 when the packet was received.
    pub t: u64,
    pub seq: u32,
    pub uptime_s: u32,
    pub temp0: Option<i16>,
    pub temp1: Option<i16>,
    pub temp2: Option<i16>,
    pub target_centi: i16,
    pub output_pct: u8,
    pub relay_on: bool,
    pub device_collecting: bool,
    pub ntp_synced: bool,
    pub window_step: u8,
    pub on_steps: u8,
    pub sensor_status: [u8; 3],
    pub device_ip: [u8; 4],
    pub sensor_count: u8,
    pub pid_p_pct: i8,
    pub pid_i_pct: i8,
    pub pid_d_pct: i8,
}

/// A point of the history that is served.
#[derive(Clone, Copy, Debug)]
pub struct HistoryPoint {
    pub seq: u32,
    /// Seconds since the start of 1970 when the packet was received.
    pub t_s: u64,
    /// Data is missing between the point before this one and this one.
    pub gap_before: bool,
    pub temp_centi: Option<i16>,
    pub target_centi: i16,
    pub output_pct: u8,
    pub window_step: u8,
    pub on_steps: u8,
    pub relay_on: bool,
    pub extra_temps: [Option<i16>; 2],
    pub pid_p_pct: i8,
    pub pid_i_pct: i8,
    pub pid_d_pct: i8,
}

/// Statistics of what was received.
#[derive(Clone, Copy, Debug, PartialEq, Eq, Structural)]
pub struct TelemetryStats {
    pub packets_received: u64,
    pub packets_dropped: u64,
    pub last_seq: Option<u32>,
}

// ── Inserting ────────────────────────────────────────────────────────────────

/// The packets that are missing between two sequence numbers, the counter
/// having wrapped or not. A jump backwards, as after a restart, counts as none.
pub open spec fn missing_between(last_seq: u32, seq: u32) -> int {
    let gap = (seq - last_seq - 1) % 0x1_0000_0000;
    if gap < 0x8000_0000 {
        gap
    } else {
        0
    }
}

/// The packets that are missing before one.
pub open spec fn missing_before(last_seq: Option<u32>, seq: u32) -> int {
    match last_seq {
        Some(last) => missing_between(last, seq),
        None => 0,
    }
}

/// Whether a packet is stored after another: a second of uptime later, or
/// after a restart of the device.
pub open spec fn is_stored_after(records: Seq<Record>, uptime_s: u32) -> bool {
    records.len() == 0 || uptime_s < records.last().packet.uptime_s || uptime_s
        - records.last().packet.uptime_s >= STORE_INTERVAL_S
}

/// The first record from `from` on that was received no earlier than `cutoff`.
pub open spec fn first_fresh(records: Seq<Record>, cutoff: int, from: int) -> int
    decreases records.len() - from,
{
    if from < 0 || from >= records.len() || records[from].received_ns >= cutoff {
        from
    } else {
        first_fresh(records, cutoff, from + 1)
    }
}

/// The records without the old ones at their start.
pub open spec fn fresh(records: Seq<Record>, cutoff: int) -> Seq<Record> {
    records.skip(first_fresh(records, cutoff, 0))
}

/// The time before which records are old.
pub open spec fn cutoff_of(retention_ns: u128, now_ns: u128) -> int {
    if now_ns >= retention_ns {
        now_ns - retention_ns
    } else {
        0
    }
}

/// Whether a packet is stored.
pub open spec fn is_stored(s: StoreView, pkt: Packet) -> bool {
    pkt.collecting && is_stored_after(s.records, pkt.uptime_s)
}

/// The records with a packet that came in, where it is stored.
pub open spec fn with_packet(s: StoreView, pkt: Packet, now_ns: u128) -> Seq<Record> {
    if is_stored(s, pkt) {
        s.records.push(Record { received_ns: now_ns, packet: pkt })
    } else {
        s.records
    }
}

/// A store after a packet came in.
pub open spec fn after_insert(s: StoreView, pkt: Packet, now_ns: u128) -> StoreView {
    StoreView {
        records: fresh(with_packet(s, pkt, now_ns), cutoff_of(s.retention_ns, now_ns)),
        latest: Some(pkt),
        collecting: pkt.collecting,
        packets_received: ((s.packets_received + 1) % 0x1_0000_0000_0000_0000) as u64,
        packets_dropped: ((s.packets_dropped + missing_before(s.last_seq, pkt.seq))
            % 0x1_0000_0000_0000_0000) as u64,
        last_seq: Some(pkt.seq),
        ..s
    }
}

/// A store after its history and statistics were cleared.
pub open spec fn after_clear(s: StoreView) -> StoreView {
    StoreView {
        records: Seq::empty(),
        latest: None,
        packets_received: 0,
        packets_dropped: 0,
        last_seq: None,
        ..s
    }
}

/// A record as it is written to disk.
pub open spec fn persisted(r: Record) -> PersistedRecord {
    let p = r.packet;
    PersistedRecord {
        t: (r.received_ns as int / 1_000_000_000 % 0x1_0000_0000_0000_0000) as u64,
        seq: p.seq,
        uptime_s: p.uptime_s,
        temp0: p.temps@[0],
        temp1: p.temps@[1],
        temp2: p.temps@[2],
        target_centi: p.target_centi,
        output_pct: p.output_pct,
        relay_on: p.relay_on,
        device_collecting: p.collecting,
        ntp_synced: p.ntp_synced,
        window_step: p.window_step,
        on_steps: p.on_steps,
        sensor_status: p.sensor_status,
        device_ip: p.device_ip,
        sensor_count: p.sensor_count,
        pid_p_pct: p.pid_p_pct,
        pid_i_pct: p.pid_i_pct,
        pid_d_pct: p.pid_d_pct,
    }
}

fn to_persisted(r: &Record) -> (x: PersistedRecord)
    ensures
        x == persisted(*r),
{
    let p: Packet = r.packet;
    PersistedRecord {
        t: (r.received_ns / NANOS_PER_SECOND % 0x1_0000_0000_0000_0000) as u64,
        seq: p.seq,
        uptime_s: p.uptime_s,
        temp0: p.temps[0],
        temp1: p.temps[1],
        temp2: p.temps[2],
        target_centi: p.target_centi,
        output_pct: p.output_pct,
        relay_on: p.relay_on,
        device_collecting: p.collecting,
        ntp_synced: p.ntp_synced,
        window_step: p.window_step,
        on_steps: p.on_steps,
        sensor_status: p.sensor_status,
        device_ip: p.device_ip,
        sensor_count: p.sensor_count,
        pid_p_pct: p.pid_p_pct,
        pid_i_pct: p.pid_i_pct,
        pid_d_pct: p.pid_d_pct,
    }
}

fn missing(last_seq: Option<u32>, seq: u32) -> (r: u32)
    ensures
        r == missing_before(last_seq, seq),
{
    match last_seq {
        Some(last) => {
            let gap: u32 = seq.wrapping_sub(last.wrapping_add(1));
            if gap < 0x8000_0000 {
                gap
            } else {
                0
            }
        },
        None => 0,
    }
}

impl Store {
    /// A store without history.
    pub fn new(retention_secs: u64) -> (s: Self)
        ensures
            s@ == (StoreView {
                records: Seq::empty(),
                retention_ns: (retention_secs * 1_000_000_000) as u128,
                latest: None,
                collecting: false,
                packets_received: 0,
                packets_dropped: 0,
                last_seq: None,
            }),
    {
        Store {
            records: VecDeque::new(),
            retention_ns: retention_secs as u128 * NANOS_PER_SECOND,
            latest: None,
            collecting: false,
            packets_received: 0,
            packets_dropped: 0,
            last_seq: None,
        }
    }

    /// Drops the old records at the start.
    fn prune(&mut self, cutoff: u128)
        ensures
            final(self)@ == (StoreView {
                records: fresh(old(self)@.records, cutoff as int),
                ..old(self)@
            }),
    {
        let ghost all = self.records@;
        let ghost mut k: int = 0;
        assert(all.skip(0) == all);
        while self.records.len() > 0 && self.records[0].received_ns < cutoff
            invariant
                0 <= k <= all.len(),
                all == old(self).records@,
                self.records@ == all.skip(k),
                first_fresh(all, cutoff as int, 0) == first_fresh(all, cutoff as int, k),
                self@ == (StoreView { records: self@.records, ..old(self)@ }),
            decreases self.records@.len(),
        {
            let dropped: Option<Record> = self.records.pop_front();
            proof {
                assert(all.skip(k)[0] == all[k]);
                assert(all.skip(k).subrange(1, all.skip(k).len() as int) == all.skip(k + 1));
                k = k + 1;
            }
        }
        proof {
            if k < all.len() {
                assert(all.skip(k)[0] == all[k]);
            }
        }
    }

    /// Takes in a packet that was received at a point in time, and drops the
    /// records older than the retention time. Where the packet is stored, the
    /// record is returned as it is to be written to disk.
    pub fn insert(&mut self, pkt: Packet, now_ns: u128) -> (r: Option<PersistedRecord>)
        ensures
            final(self)@ == after_insert(old(self)@, pkt, now_ns),
            r == (if is_stored(old(self)@, pkt) {
                Some(persisted(Record { received_ns: now_ns, packet: pkt }))
            } else {
                None
            }),
    {
        let gap: u32 = missing(self.last_seq, pkt.seq);
        self.packets_dropped = self.packets_dropped.wrapping_add(gap as u64);
        self.packets_received = self.packets_received.wrapping_add(1);
        self.last_seq = Some(pkt.seq);
        self.collecting = pkt.collecting;
        self.latest = Some(pkt);
        let n: usize = self.records.len();
        let should_store: bool = pkt.collecting && (n == 0 || {
            let last_up: u32 = self.records[n - 1].packet.uptime_s;
            pkt.uptime_s < last_up || pkt.uptime_s - last_up >= STORE_INTERVAL_S
        });
        let record: Record = Record { received_ns: now_ns, packet: pkt };
        if should_store {
            self.records.push_back(record);
        }
        let cutoff: u128 = now_ns.saturating_sub(self.retention_ns);
        self.prune(cutoff);
        if should_store {
            Some(to_persisted(&record))
        } else {
            None
        }
    }

    /// The last packet.
    pub fn latest(&self) -> (r: Option<Packet>)
        ensures
            r == self.latest,
    {
        self.latest
    }

    /// The last packet, and whether packets are stored.
    pub fn latest_with_collecting(&self) -> (r: (Option<Packet>, bool))
        ensures
            r == (self.latest, self.collecting),
    {
        (self.latest, self.collecting)
    }

    /// Starts or stops storing packets.
    pub fn set_collecting(&mut self, enabled: bool)
        ensures
            final(self)@ == (StoreView { collecting: enabled, ..old(self)@ }),
    {
        self.collecting = enabled;
    }

    /// Forgets the history and the statistics.
    pub fn clear(&mut self)
        ensures
            final(self)@ == after_clear(old(self)@),
    {
        self.records.clear();
        self.latest = None;
        self.packets_received = 0;
        self.packets_dropped = 0;
        self.last_seq = None;
    }

    /// The statistics of what was received.
    pub fn telemetry_stats(&self) -> (r: TelemetryStats)
        ensures
            r == (TelemetryStats {
                packets_received: self.packets_received,
                packets_dropped: self.packets_dropped,
                last_seq: self.last_seq,
            }),
    {
        TelemetryStats {
            packets_received: self.packets_received,
            packets_dropped: self.packets_dropped,
            last_seq: self.last_seq,
        }
    }
}

/// A sequence without a jump is complete, a jump forward by some numbers has
/// those less one missing, and a jump backward has none missing.
pub proof fn missing_packets_are_counted(last_seq: u32, step: u32)
    ensures
        ({
            let seq = ((last_seq + step) % 0x1_0000_0000) as u32;
            missing_between(last_seq, seq) == (if 1 <= step <= 0x8000_0000 {
                step - 1
            } else {
                0
            })
        }),
{
}

/// A packet is stored exactly where the device collects and its uptime is not
/// that of the record before: forward by a second or more, or back after a
/// restart.
pub proof fn one_record_per_second_of_uptime(s: StoreView, pkt: Packet)
    ensures
        is_stored(s, pkt) <==> pkt.collecting && (s.records.len() == 0 || pkt.uptime_s
            != s.records.last().packet.uptime_s),
{
}

/// A packet that comes in is counted once, becomes the last one, and switches
/// collecting as the device has it. What is received and what is missing
/// account for every number of the sequence from the packet before to this one,
/// unless it jumps backward.
pub proof fn every_packet_is_accounted_for(s: StoreView, pkt: Packet, now_ns: u128)
    requires
        s.packets_received < u64::MAX,
        s.packets_dropped <= u64::MAX - 0x8000_0000,
    ensures
        ({
            let after = after_insert(s, pkt, now_ns);
            let missed = after.packets_dropped - s.packets_dropped;
            &&& after.packets_received == s.packets_received + 1
            &&& after.latest == Some(pkt)
            &&& after.collecting == pkt.collecting
            &&& after.last_seq == Some(pkt.seq)
            &&& after.retention_ns == s.retention_ns
            &&& s.last_seq is None ==> missed == 0
            &&& s.last_seq matches Some(last) ==> {
                &&& missed >= 0
                &&& last < pkt.seq <= last + 0x8000_0000 ==> missed + 1 == pkt.seq - last
                &&& pkt.seq + 0x8000_0000 <= last ==> missed + 1 == pkt.seq + 0x1_0000_0000 - last
                &&& last - 0x8000_0000 < pkt.seq <= last || pkt.seq > last + 0x8000_0000 ==> missed
                    == 0
            }
        }),
{
}

/// After clearing nothing is left of the history and of what was counted, while
/// the retention time and the state of collecting stay.
pub proof fn clearing_leaves_nothing(s: StoreView)
    ensures
        after_clear(s).records.len() == 0,
        after_clear(s).latest is None,
        after_clear(s).packets_received == 0,
        after_clear(s).packets_dropped == 0,
        after_clear(s).last_seq is None,
        after_clear(s).retention_ns == s.retention_ns,
        after_clear(s).collecting == s.collecting,
{
}

/// Whether records were received in order.
pub open spec fn in_order(records: Seq<Record>) -> bool {
    forall|i: int, j: int|
        0 <= i <= j < records.len() ==> (#[trigger] records[i]).received_ns <= (
        #[trigger] records[j]).received_ns
}

proof fn first_fresh_is(records: Seq<Record>, cutoff: int, from: int)
    requires
        0 <= from <= records.len(),
    ensures
        from <= first_fresh(records, cutoff, from) <= records.len(),
        first_fresh(records, cutoff, from) < records.len() ==> records[first_fresh(
            records,
            cutoff,
            from,
        )].received_ns >= cutoff,
        forall|i: int|
            from <= i < first_fresh(records, cutoff, from) ==> (#[trigger] records[i]).received_ns
                < cutoff,
    decreases records.len() - from,
{
    if from < records.len() && records[from].received_ns < cutoff {
        first_fresh_is(records, cutoff, from + 1);
    }
}

/// Of records that were received in order, exactly those are kept that are no
/// older than the retention time, and they stay in order.
pub proof fn retention_is_exact(records: Seq<Record>, cutoff: int)
    requires
        in_order(records),
    ensures
        in_order(fresh(records, cutoff)),
        forall|i: int|
            0 <= i < fresh(records, cutoff).len() ==> (#[trigger] fresh(
                records,
                cutoff,
            )[i]).received_ns >= cutoff,
        forall|i: int|
            0 <= i < records.len() && (#[trigger] records[i]).received_ns >= cutoff ==> fresh(
                records,
                cutoff,
            ).contains(records[i]),
{
    first_fresh_is(records, cutoff, 0);
    let k = first_fresh(records, cutoff, 0);
    let kept = fresh(records, cutoff);
    assert forall|i: int| 0 <= i < kept.len() implies (#[trigger] kept[i]).received_ns >= cutoff by {
        assert(kept[i] == records[k + i]);
        assert(records[k].received_ns <= records[k + i].received_ns);
    }
    assert forall|i: int|
        0 <= i < records.len() && (#[trigger] records[i]).received_ns >= cutoff implies kept.contains(
        records[i],
    ) by {
        assert(kept[i - k] == records[i]);
    }
    assert forall|i: int, j: int| 0 <= i <= j < kept.len() implies (#[trigger] kept[i]).received_ns
        <= (#[trigger] kept[j]).received_ns by {
        assert(kept[i] == records[k + i] && kept[j] == records[k + j]);
    }
}

/// Where packets come in one after the other, only records at the start are
/// dropped for each of them. What is kept is in order and no older than the
/// retention time, nothing recent is lost, and a packet that is stored comes
/// last.
pub proof fn inserts_keep_what_is_recent(s: StoreView, pkt: Packet, now_ns: u128)
    requires
        in_order(s.records),
        s.records.len() > 0 ==> s.records.last().received_ns <= now_ns,
    ensures
        ({
            let after = after_insert(s, pkt, now_ns).records;
            let cutoff = cutoff_of(s.retention_ns, now_ns);
            let record = Record { received_ns: now_ns, packet: pkt };
            let all = with_packet(s, pkt, now_ns);
            &&& exists|k: int| 0 <= k <= s.records.len() && after == #[trigger] all.skip(k)
            &&& in_order(after)
            &&& forall|i: int|
                0 <= i < after.len() ==> cutoff <= (#[trigger] after[i]).received_ns <= now_ns
            &&& forall|i: int|
                0 <= i < s.records.len() && (#[trigger] s.records[i]).received_ns >= cutoff
                    ==> after.contains(s.records[i])
            &&& is_stored(s, pkt) ==> after.len() > 0 && after.last() == record
            &&& forall|i: int|
                0 <= i < after.len() ==> (#[trigger] after[i]).received_ns + s.retention_ns
                    >= now_ns
            &&& forall|i: int|
                0 <= i < s.records.len() && (#[trigger] s.records[i]).received_ns + s.retention_ns
                    >= now_ns ==> after.contains(s.records[i])
        }),
{
    let cutoff = cutoff_of(s.retention_ns, now_ns);
    let all = with_packet(s, pkt, now_ns);
    let after = fresh(all, cutoff);
    if s.records.len() > 0 {
        assert forall|i: int| 0 <= i < s.records.len() implies (#[trigger] s.records[i]).received_ns
            <= now_ns by {
            assert(s.records[i].received_ns <= s.records[s.records.len() - 1].received_ns);
        }
    }
    assert(in_order(all));
    retention_is_exact(all, cutoff);
    first_fresh_is(all, cutoff, 0);
    let k = first_fresh(all, cutoff, 0);
    assert forall|i: int| 0 <= i < after.len() implies cutoff <= (#[trigger] after[i]).received_ns
        <= now_ns by {
        assert(after[i] == all[k + i]);
    }
    assert forall|i: int|
        0 <= i < s.records.len() && (#[trigger] s.records[i]).received_ns
            >= cutoff implies after.contains(s.records[i]) by {
        assert(all[i] == s.records[i]);
    }
    if is_stored(s, pkt) {
        assert(all[all.len() - 1].received_ns >= cutoff);
        assert(k < all.len());
    }
    assert(after == all.skip(k));
}

// ── Disk ─────────────────────────────────────────────────────────────────────

/// Records as they are written to disk.
pub open spec fn persisted_all(records: Seq<Record>) -> Seq<PersistedRecord> {
    records.map_values(|r: Record| persisted(r))
}

/// Whether a packet is the one that a record on disk stands for. What is not
/// written to disk has a fixed value.
pub open spec fn is_restored(p: Packet, x: PersistedRecord) -> bool {
    &&& p.hostname@ == Seq::new(20, |i: int| 0u8)
    &&& p.temps@ == seq![x.temp0, x.temp1, x.temp2]
    &&& p == (Packet {
        version: PACKET_VERSION,
        hostname: p.hostname,
        seq: x.seq,
        uptime_s: x.uptime_s,
        temps: p.temps,
        target_centi: x.target_centi,
        output_pct: x.output_pct,
        relay_on: x.relay_on,
        collecting: x.device_collecting,
        ntp_synced: x.ntp_synced,
        history_clear: false,
        heat_on: false,
        window_step: x.window_step,
        on_steps: x.on_steps,
        sensor_status: x.sensor_status,
        device_ip: x.device_ip,
        sensor_count: x.sensor_count,
        deadband_centi: RESTORED_DEADBAND_CENTI,
        pid_p_pct: x.pid_p_pct,
        pid_i_pct: x.pid_i_pct,
        pid_d_pct: x.pid_d_pct,
    })
}

/// The records on disk that are not older than `cutoff`.
pub open spec fn within_retention(list: Seq<PersistedRecord>, cutoff: int) -> Seq<PersistedRecord>
    decreases list.len(),
{
    if list.len() == 0 {
        Seq::empty()
    } else {
        let before = within_retention(list.drop_last(), cutoff);
        if list.last().t * 1_000_000_000 >= cutoff {
            before.push(list.last())
        } else {
            before
        }
    }
}

/// Whether records are those that records on disk stand for.
pub open spec fn are_restored(records: Seq<Record>, list: Seq<PersistedRecord>) -> bool {
    records.len() == list.len() && forall|i: int|
        0 <= i < list.len() ==> is_restored((#[trigger] records[i]).packet, list[i])
            && records[i].received_ns == list[i].t * 1_000_000_000
}

fn from_persisted(x: &PersistedRecord) -> (r: Record)
    ensures
        is_restored(r.packet, *x),
        r.received_ns == x.t * 1_000_000_000,
{
    let temps: [Option<i16>; 3] = [x.temp0, x.temp1, x.temp2];
    let hostname: [u8; 20] = [0;20];
    assert(hostname@ == Seq::new(20, |i: int| 0u8));
    Record {
        received_ns: x.t as u128 * NANOS_PER_SECOND,
        packet: Packet {
            version: PACKET_VERSION,
            hostname,
            seq: x.seq,
            uptime_s: x.uptime_s,
            temps,
            target_centi: x.target_centi,
            output_pct: x.output_pct,
            relay_on: x.relay_on,
            collecting: x.device_collecting,
            ntp_synced: x.ntp_synced,
            history_clear: false,
            heat_on: false,
            window_step: x.window_step,
            on_steps: x.on_steps,
            sensor_status: x.sensor_status,
            device_ip: x.device_ip,
            sensor_count: x.sensor_count,
            deadband_centi: RESTORED_DEADBAND_CENTI,
            pid_p_pct: x.pid_p_pct,
            pid_i_pct: x.pid_i_pct,
            pid_d_pct: x.pid_d_pct,
        },
    }
}

impl Store {
    /// The records as they are written to disk.
    pub fn current_records(&self) -> (r: Vec<PersistedRecord>)
        ensures
            r@ == persisted_all(self.records@),
    {
        let mut out: Vec<PersistedRecord> = Vec::new();
        let n: usize = self.records.len();
        let mut i: usize = 0;
        while i < n
            invariant
                i <= n == self.records@.len(),
                out@ == persisted_all(self.records@).take(i as int),
            decreases n - i,
        {
            out.push(to_persisted(&self.records[i]));
            assert(persisted_all(self.records@).take(i + 1) == persisted_all(self.records@).take(
                i as int,
            ).push(persisted(self.records@[i as int])));
            i = i + 1;
        }
        assert(persisted_all(self.records@).take(i as int) == persisted_all(self.records@));
        out
    }

    /// Adds records from disk to the history, without those older than the
    /// retention time, and takes over the last packet and whether packets were
    /// stored. Returns how many records were added.
    pub fn restore(&mut self, list: Vec<PersistedRecord>, now_ns: u128) -> (count: usize)
        ensures
            ({
                let kept = within_retention(list@, cutoff_of(old(self)@.retention_ns, now_ns));
                let before = old(self)@.records.len() as int;
                &&& count == kept.len()
                &&& final(self)@.records.len() == before + kept.len()
                &&& final(self)@.records.take(before) == old(self)@.records
                &&& are_restored(final(self)@.records.skip(before), kept)
            }),
            final(self)@ == (StoreView {
                records: final(self)@.records,
                latest: if final(self)@.records.len() > 0 {
                    Some(final(self)@.records.last().packet)
                } else {
                    None
                },
                collecting: list@.len() > 0 && list@.last().device_collecting,
                ..old(self)@
            }),
    {
        let cutoff: u128 = now_ns.saturating_sub(self.retention_ns);
        let ghost before = self.records@;
        let mut count: usize = 0;
        let mut last_collecting: bool = false;
        let mut i: usize = 0;
        assert(list@.take(0) == Seq::<PersistedRecord>::empty());
        assert(before.take(before.len() as int) == before);
        while i < list.len()
            invariant
                i <= list@.len(),
                before == old(self).records@,
                count <= i,
                count == within_retention(list@.take(i as int), cutoff as int).len(),
                self.records@.len() == before.len() + count,
                self.records@.take(before.len() as int) == before,
                are_restored(
                    self.records@.skip(before.len() as int),
                    within_retention(list@.take(i as int), cutoff as int),
                ),
                last_collecting == (i > 0 && list@[i - 1].device_collecting),
                self@ == (StoreView { records: self@.records, ..old(self)@ }),
            decreases list@.len() - i,
        {
            assert(list@.take(i + 1).drop_last() == list@.take(i as int));
            let x: PersistedRecord = list[i];
            last_collecting = x.device_collecting;
            let record: Record = from_persisted(&x);
            if record.received_ns >= cutoff {
                let ghost all = self.records@;
                let ghost kept = within_retention(list@.take(i as int), cutoff as int);
                self.records.push_back(record);
                count = count + 1;
                proof {
                    let n = before.len() as int;
                    assert(all.push(record).take(n) == all.take(n));
                    assert(all.push(record).skip(n) == all.skip(n).push(record));
                    let r = all.skip(n).push(record);
                    let k = kept.push(x);
                    assert forall|j: int| 0 <= j < k.len() implies is_restored(
                        (#[trigger] r[j]).packet,
                        k[j],
                    ) && r[j].received_ns == k[j].t * 1_000_000_000 by {
                        if j < kept.len() {
                            assert(r[j] == all.skip(n)[j]);
                        }
                    }
                }
            }
            i = i + 1;
        }
        assert(list@.take(i as int) == list@);
        let n: usize = self.records.len();
        self.latest = if n > 0 {
            Some(self.records[n - 1].packet)
        } else {
            None
        };
        self.collecting = last_collecting;
        count
    }
}

/// What was written to disk is written again after it was restored.
pub proof fn restored_is_written_again(r: Record, x: PersistedRecord)
    requires
        is_restored(r.packet, x),
        r.received_ns == x.t * 1_000_000_000,
    ensures
        persisted(r) == x,
{
}

/// A packet that is written to disk and restored is the same in all that is
/// written, and it is as old as it was, to the second.
pub proof fn a_restored_packet_is_the_one_that_came(r: Record, back: Record)
    requires
        r.received_ns < 0x1_0000_0000_0000_0000 * 1_000_000_000,
        is_restored(back.packet, persisted(r)),
        back.received_ns == persisted(r).t * 1_000_000_000,
    ensures
        back.received_ns <= r.received_ns < back.received_ns + 1_000_000_000,
        back.packet.seq == r.packet.seq,
        back.packet.uptime_s == r.packet.uptime_s,
        back.packet.temps@[0] == r.packet.temps@[0],
        back.packet.temps@[1] == r.packet.temps@[1],
        back.packet.temps@[2] == r.packet.temps@[2],
        back.packet.target_centi == r.packet.target_centi,
        back.packet.output_pct == r.packet.output_pct,
        back.packet.relay_on == r.packet.relay_on,
        back.packet.collecting == r.packet.collecting,
        back.packet.ntp_synced == r.packet.ntp_synced,
        back.packet.window_step == r.packet.window_step,
        back.packet.on_steps == r.packet.on_steps,
        back.packet.sensor_status == r.packet.sensor_status,
        back.packet.device_ip == r.packet.device_ip,
        back.packet.sensor_count == r.packet.sensor_count,
        back.packet.pid_p_pct == r.packet.pid_p_pct,
        back.packet.pid_i_pct == r.packet.pid_i_pct,
        back.packet.pid_d_pct == r.packet.pid_d_pct,
        !back.packet.history_clear,
{
}

/// A record on disk holds each value of its packet under its own name.
pub proof fn a_written_record_names_its_values(r: Record)
    requires
        r.received_ns < 0x1_0000_0000_0000_0000 * 1_000_000_000,
    ensures
        ({
            let x = persisted(r);
            &&& x.t * 1_000_000_000 <= r.received_ns < (x.t + 1) * 1_000_000_000
            &&& x.seq == r.packet.seq && x.uptime_s == r.packet.uptime_s
            &&& x.temp0 == r.packet.temps@[0] && x.temp1 == r.packet.temps@[1] && x.temp2
                == r.packet.temps@[2]
            &&& x.target_centi == r.packet.target_centi && x.output_pct == r.packet.output_pct
            &&& x.relay_on == r.packet.relay_on && x.device_collecting == r.packet.collecting
            &&& x.ntp_synced == r.packet.ntp_synced
            &&& x.window_step == r.packet.window_step && x.on_steps == r.packet.on_steps
            &&& x.sensor_status == r.packet.sensor_status && x.device_ip == r.packet.device_ip
            &&& x.sensor_count == r.packet.sensor_count
            &&& x.pid_p_pct == r.packet.pid_p_pct && x.pid_i_pct == r.packet.pid_i_pct
                && x.pid_d_pct == r.packet.pid_d_pct
        }),
{
}

/// Of the records on disk exactly those are restored that are no older than the
/// cutoff, and what is read in two parts is restored in two parts.
pub proof fn restoring_keeps_what_is_recent(
    list: Seq<PersistedRecord>,
    more: Seq<PersistedRecord>,
    cutoff: int,
)
    ensures
        list.len() == 1 ==> within_retention(list, cutoff) == (if list[0].t * 1_000_000_000
            >= cutoff {
            list
        } else {
            Seq::empty()
        }),
        within_retention(list + more, cutoff) == within_retention(list, cutoff)
            + within_retention(more, cutoff),
    decreases more.len(),
{
    reveal_with_fuel(within_retention, 2);
    if list.len() == 1 {
        assert(list.drop_last() == Seq::<PersistedRecord>::empty());
        assert(Seq::<PersistedRecord>::empty().push(list[0]) == list);
    }
    if more.len() == 0 {
        assert(list + more == list);
    } else {
        restoring_keeps_what_is_recent(list, more.drop_last(), cutoff);
        assert((list + more).drop_last() == list + more.drop_last());
        assert((list + more).last() == more.last());
    }
}

// ── Serving ──────────────────────────────────────────────────────────────────

/// The curve of the first probe over the uptime. A missing reading counts as
/// zero.
pub open spec fn curve(records: Seq<Record>) -> Seq<SamplePoint> {
    records.map_values(
        |r: Record|
            SamplePoint {
                x: r.packet.uptime_s,
                y: match r.packet.temps@[0] {
                    Some(centi) => centi,
                    None => 0,
                },
            },
    )
}

/// Whether data is missing right after record `k`.
pub open spec fn gap_after(records: Seq<Record>, k: int) -> bool {
    records[k + 1].received_ns - records[k].received_ns > GAP_NANOS
}

/// Whether data is missing from record `from` to record `to`.
pub open spec fn gap_between(records: Seq<Record>, from: int, to: int) -> bool {
    exists|k: int| from <= k < to && #[trigger] gap_after(records, k)
}

/// A record as a point of the history.
pub open spec fn is_point(p: HistoryPoint, r: Record, gap: bool) -> bool {
    &&& p.extra_temps@ == seq![r.packet.temps@[1], r.packet.temps@[2]]
    &&& p == (HistoryPoint {
        seq: r.packet.seq,
        t_s: (r.received_ns as int / 1_000_000_000 % 0x1_0000_0000_0000_0000) as u64,
        gap_before: gap,
        temp_centi: r.packet.temps@[0],
        target_centi: r.packet.target_centi,
        output_pct: r.packet.output_pct,
        window_step: r.packet.window_step,
        on_steps: r.packet.on_steps,
        relay_on: r.packet.relay_on,
        extra_temps: p.extra_temps,
        pid_p_pct: r.packet.pid_p_pct,
        pid_i_pct: r.packet.pid_i_pct,
        pid_d_pct: r.packet.pid_d_pct,
    })
}

/// Whether points are those of the chosen records.
pub open spec fn are_points(points: Seq<HistoryPoint>, records: Seq<Record>, chosen: Seq<int>) -> bool {
    points.len() == chosen.len() && forall|i: int|
        0 <= i < chosen.len() ==> is_point(
            #[trigger] points[i],
            records[chosen[i]],
            i > 0 && gap_between(records, chosen[i - 1], chosen[i]),
        )
}

/// The uptime from one record to another where it is positive and less than a
/// day, as a list of one or none.
pub open spec fn step_between(a: Record, b: Record) -> Seq<u32> {
    let d = b.packet.uptime_s - a.packet.uptime_s;
    if 0 < d < 86400 {
        seq![d as u32]
    } else {
        Seq::empty()
    }
}

/// The steps of uptime between chosen records that follow each other.
pub open spec fn steps_of(records: Seq<Record>, chosen: Seq<int>) -> Seq<u32>
    decreases chosen.len(),
{
    if chosen.len() < 2 {
        Seq::empty()
    } else {
        steps_of(records, chosen.drop_last()) + step_between(
            records[chosen[chosen.len() - 2]],
            records[chosen.last()],
        )
    }
}

/// The order of numbers.
pub open spec fn ascending() -> spec_fn(u32, u32) -> bool {
    |a: u32, b: u32| a <= b
}

/// The median of the steps, and 1 where there are none.
pub open spec fn median(steps: Seq<u32>) -> u32 {
    if steps.len() == 0 {
        1
    } else {
        steps.sort_by(ascending())[steps.len() as int / 2]
    }
}

/// `slice::sort_unstable` on numbers: the same numbers in ascending order.
#[verifier::external_body]
fn sort_numbers(v: &mut Vec<u32>)
    ensures
        final(v)@.to_multiset() == old(v)@.to_multiset(),
        sorted_by(final(v)@, ascending()),
{
    v.sort_unstable();
}

proof fn ascending_is_total()
    ensures
        total_ordering(ascending()),
{
}

/// Steps of uptime are not zero.
proof fn steps_are_positive(records: Seq<Record>, chosen: Seq<int>)
    ensures
        forall|i: int|
            0 <= i < steps_of(records, chosen).len() ==> #[trigger] steps_of(records, chosen)[i] >= 1,
    decreases chosen.len(),
{
    if chosen.len() >= 2 {
        let before = steps_of(records, chosen.drop_last());
        let new = step_between(records[chosen[chosen.len() - 2]], records[chosen.last()]);
        steps_are_positive(records, chosen.drop_last());
        assert forall|i: int| 0 <= i < (before + new).len() implies #[trigger] (before + new)[i]
            >= 1 by {
            if i < before.len() {
                assert((before + new)[i] == before[i]);
            } else {
                assert((before + new)[i] == new[i - before.len()]);
            }
        }
    }
}

/// The median is one of the steps.
proof fn median_is_one_of(steps: Seq<u32>)
    ensures
        steps.len() > 0 ==> steps.contains(median(steps)),
        steps.len() == 0 ==> median(steps) == 1,
{
    if steps.len() > 0 {
        let sorted = steps.sort_by(ascending());
        ascending_is_total();
        steps.lemma_sort_by_ensures(ascending());
        steps.to_multiset_ensures();
        sorted.to_multiset_ensures();
        assert(sorted.contains(sorted[steps.len() as int / 2]));
    }
}

fn median_of(steps: Vec<u32>) -> (r: u32)
    ensures
        r == median(steps@),
{
    if steps.len() == 0 {
        return 1;
    }
    let ghost given = steps@;
    let mut list: Vec<u32> = steps;
    sort_numbers(&mut list);
    proof {
        ascending_is_total();
        given.lemma_sort_by_ensures(ascending());
        lemma_sorted_unique(list@, given.sort_by(ascending()), ascending());
        list@.to_multiset_ensures();
        given.to_multiset_ensures();
    }
    list[list.len() / 2]
}

/// What is thinned out is the curve of the first probe over the uptime of the
/// device, record by record.
pub proof fn the_curve_is_of_the_first_probe(records: Seq<Record>, i: int)
    requires
        0 <= i < records.len(),
    ensures
        curve(records).len() == records.len(),
        curve(records)[i].x == records[i].packet.uptime_s,
        records[i].packet.temps@[0] matches Some(centi) ==> curve(records)[i].y == centi,
        records[i].packet.temps@[0] is None ==> curve(records)[i].y == 0,
{
}

/// Data is missing where two records in a row came more than five seconds
/// apart, and between two records where it is at any place between them.
pub proof fn gaps_are_pauses_of_five_seconds(records: Seq<Record>, from: int, mid: int, to: int)
    requires
        0 <= from <= mid <= to < records.len(),
    ensures
        !gap_between(records, from, from),
        from + 1 < records.len() ==> (gap_between(records, from, from + 1) <==> records[from
            + 1].received_ns > records[from].received_ns + 5_000_000_000),
        gap_between(records, from, to) <==> gap_between(records, from, mid) || gap_between(
            records,
            mid,
            to,
        ),
{
    if from + 1 < records.len() && gap_after(records, from) {
        assert(gap_between(records, from, from + 1));
    }
    if gap_between(records, from, to) {
        let k = choose|k: int| from <= k < to && #[trigger] gap_after(records, k);
        if k < mid {
            assert(gap_between(records, from, mid));
        } else {
            assert(gap_between(records, mid, to));
        }
    }
    if gap_between(records, from, mid) {
        let k = choose|k: int| from <= k < mid && #[trigger] gap_after(records, k);
        assert(gap_between(records, from, to));
    }
    if gap_between(records, mid, to) {
        let k = choose|k: int| mid <= k < to && #[trigger] gap_after(records, k);
        assert(gap_between(records, from, to));
    }
}

/// A point that is served holds each value of its record under its own name.
pub proof fn a_point_names_its_values(p: HistoryPoint, r: Record, gap: bool)
    requires
        is_point(p, r, gap),
        r.received_ns < 0x1_0000_0000_0000_0000 * 1_000_000_000,
    ensures
        p.seq == r.packet.seq,
        p.t_s * 1_000_000_000 <= r.received_ns < (p.t_s + 1) * 1_000_000_000,
        p.gap_before == gap,
        p.temp_centi == r.packet.temps@[0],
        p.extra_temps@[0] == r.packet.temps@[1],
        p.extra_temps@[1] == r.packet.temps@[2],
        p.target_centi == r.packet.target_centi,
        p.output_pct == r.packet.output_pct,
        p.window_step == r.packet.window_step,
        p.on_steps == r.packet.on_steps,
        p.relay_on == r.packet.relay_on,
        p.pid_p_pct == r.packet.pid_p_pct,
        p.pid_i_pct == r.packet.pid_i_pct,
        p.pid_d_pct == r.packet.pid_d_pct,
{
}

/// A point is marked where data is missing between the point before it and
/// itself, and the first one is not.
pub proof fn points_are_marked_after_gaps(
    points: Seq<HistoryPoint>,
    records: Seq<Record>,
    chosen: Seq<int>,
    i: int,
)
    requires
        are_points(points, records, chosen),
        0 <= i < chosen.len(),
    ensures
        points.len() == chosen.len(),
        points[i].seq == records[chosen[i]].packet.seq,
        i == 0 ==> !points[i].gap_before,
        i > 0 ==> (points[i].gap_before <==> exists|k: int|
            chosen[i - 1] <= k < chosen[i] && (#[trigger] records[k + 1]).received_ns
                - records[k].received_ns > 5_000_000_000),
{
    if i > 0 {
        if points[i].gap_before {
            let k = choose|k: int|
                chosen[i - 1] <= k < chosen[i] && #[trigger] gap_after(records, k);
            assert(records[k + 1].received_ns - records[k].received_ns > 5_000_000_000);
        }
        if exists|k: int|
            chosen[i - 1] <= k < chosen[i] && (#[trigger] records[k + 1]).received_ns
                - records[k].received_ns > 5_000_000_000 {
            let k = choose|k: int|
                chosen[i - 1] <= k < chosen[i] && (#[trigger] records[k + 1]).received_ns
                    - records[k].received_ns > 5_000_000_000;
            assert(gap_after(records, k));
        }
    }
}

/// The median stands in the middle of the steps once they are in order, the
/// upper one of two in the middle.
pub proof fn the_median_is_in_the_middle(steps: Seq<u32>, ordered: Seq<u32>)
    requires
        steps.len() > 0,
        ordered.to_multiset() == steps.to_multiset(),
        forall|i: int, j: int| 0 <= i < j < ordered.len() ==> ordered[i] <= ordered[j],
    ensures
        ordered.len() == steps.len(),
        median(steps) == ordered[steps.len() as int / 2],
{
    ascending_is_total();
    steps.lemma_sort_by_ensures(ascending());
    steps.to_multiset_ensures();
    ordered.to_multiset_ensures();
    assert(sorted_by(ordered, ascending()));
    lemma_sorted_unique(ordered, steps.sort_by(ascending()), ascending());
}

/// Records that follow each other by the same time of at least a second and
/// less than a day have that time as their interval.
pub proof fn even_steps_are_the_interval(records: Seq<Record>, chosen: Seq<int>, step: u32)
    requires
        chosen.len() >= 2,
        0 < step < 86400,
        forall|i: int|
            1 <= i < chosen.len() ==> records[#[trigger] chosen[i]].packet.uptime_s
                == records[chosen[i - 1]].packet.uptime_s + step,
    ensures
        steps_of(records, chosen).len() == chosen.len() - 1,
        median(steps_of(records, chosen)) == step,
{
    even_steps(records, chosen, step);
    let steps = steps_of(records, chosen);
    median_is_one_of(steps);
    let k = choose|k: int| 0 <= k < steps.len() && steps[k] == median(steps);
    assert(steps[k] == step);
}

proof fn even_steps(records: Seq<Record>, chosen: Seq<int>, step: u32)
    requires
        0 < step < 86400,
        chosen.len() >= 1,
        forall|i: int|
            1 <= i < chosen.len() ==> records[#[trigger] chosen[i]].packet.uptime_s
                == records[chosen[i - 1]].packet.uptime_s + step,
    ensures
        steps_of(records, chosen).len() == chosen.len() - 1,
        forall|k: int|
            0 <= k < steps_of(records, chosen).len() ==> #[trigger] steps_of(records, chosen)[k]
                == step,
    decreases chosen.len(),
{
    if chosen.len() >= 2 {
        let before = chosen.drop_last();
        assert forall|i: int| 1 <= i < before.len() implies records[#[trigger] before[i]].packet.uptime_s
            == records[before[i - 1]].packet.uptime_s + step by {
            assert(chosen[i] == before[i] && chosen[i - 1] == before[i - 1]);
        }
        even_steps(records, before, step);
        assert(chosen[chosen.len() - 1] == chosen.last());
    }
}

/// Two records count for the interval only where the second has run longer, by
/// less than a day.
pub proof fn restarts_do_not_count_for_the_interval(records: Seq<Record>, a: int, b: int)
    ensures
        ({
            let d = records[b].packet.uptime_s - records[a].packet.uptime_s;
            steps_of(records, seq![a, b]) == (if d <= 0 || d >= 24 * 3600 {
                Seq::<u32>::empty()
            } else {
                seq![d as u32]
            })
        }),
{
    reveal_with_fuel(steps_of, 3);
    let both = seq![a, b];
    assert(both.drop_last().len() == 1);
    assert(steps_of(records, both.drop_last()) == Seq::<u32>::empty());
}

impl Store {
    /// The curve that downsampling looks at.
    fn sample_points(&self) -> (r: Vec<SamplePoint>)
        ensures
            r@ == curve(self.records@),
    {
        let mut out: Vec<SamplePoint> = Vec::new();
        let n: usize = self.records.len();
        let mut i: usize = 0;
        while i < n
            invariant
                i <= n == self.records@.len(),
                out@ == curve(self.records@).take(i as int),
            decreases n - i,
        {
            let packet: Packet = self.records[i].packet;
            let y: i16 = match packet.temps[0] {
                Some(centi) => centi,
                None => 0,
            };
            out.push(SamplePoint { x: packet.uptime_s, y });
            assert(curve(self.records@).take(i + 1) == curve(self.records@).take(i as int).push(
                curve(self.records@)[i as int],
            ));
            i = i + 1;
        }
        assert(curve(self.records@).take(i as int) == curve(self.records@));
        out
    }

    /// Tests whether data is missing from record `from` to record `to`.
    fn has_gap(&self, from: usize, to: usize) -> (r: bool)
        requires
            from <= to < self.records@.len(),
        ensures
            r == gap_between(self.records@, from as int, to as int),
    {
        let mut k: usize = from;
        while k < to
            invariant
                from <= k <= to < self.records@.len(),
                forall|j: int| from <= j < k ==> !#[trigger] gap_after(self.records@, j),
            decreases to - k,
        {
            let a: u128 = self.records[k].received_ns;
            let b: u128 = self.records[k + 1].received_ns;
            if b > a && b - a > GAP_NANOS {
                assert(gap_after(self.records@, k as int));
                return true;
            }
            assert(!gap_after(self.records@, k as int));
            k = k + 1;
        }
        false
    }

    /// The median step of uptime between chosen records.
    fn median_step(&self, chosen: &Vec<usize>) -> (r: u32)
        requires
            forall|i: int| 0 <= i < chosen@.len() ==> #[trigger] chosen@[i] < self.records@.len(),
        ensures
            r == median(steps_of(self.records@, indices(chosen@))),
    {
        let ghost all = indices(chosen@);
        let mut steps: Vec<u32> = Vec::new();
        if chosen.len() < 2 {
            return median_of(steps);
        }
        let mut i: usize = 1;
        assert(all.take(1).len() == 1);
        assert(steps@ == steps_of(self.records@, all.take(1)));
        while i < chosen.len()
            invariant
                1 <= i <= chosen@.len(),
                all == indices(chosen@),
                forall|k: int|
                    0 <= k < chosen@.len() ==> #[trigger] chosen@[k] < self.records@.len(),
                steps@ == steps_of(self.records@, all.take(i as int)),
            decreases chosen@.len() - i,
        {
            assert(all.take(i + 1).drop_last() == all.take(i as int));
            let from: usize = chosen[i - 1];
            let to: usize = chosen[i];
            assert(all[i - 1] == from && all[i as int] == to);
            let a: u32 = self.records[from].packet.uptime_s;
            let b: u32 = self.records[to].packet.uptime_s;
            if b > a && b - a < 86400 {
                steps.push(b - a);
            }
            assert(steps@ == steps_of(self.records@, all.take(i + 1)));
            i = i + 1;
        }
        assert(all.take(i as int) == all);
        median_of(steps)
    }

    /// A record as a point of the history.
    fn point_at(&self, at: usize, gap_before: bool) -> (p: HistoryPoint)
        requires
            at < self.records@.len(),
        ensures
            is_point(p, self.records@[at as int], gap_before),
    {
        let r: Record = self.records[at];
        let extra_temps: [Option<i16>; 2] = [r.packet.temps[1], r.packet.temps[2]];
        HistoryPoint {
            seq: r.packet.seq,
            t_s: (r.received_ns / NANOS_PER_SECOND % 0x1_0000_0000_0000_0000) as u64,
            gap_before,
            temp_centi: r.packet.temps[0],
            target_centi: r.packet.target_centi,
            output_pct: r.packet.output_pct,
            window_step: r.packet.window_step,
            on_steps: r.packet.on_steps,
            relay_on: r.packet.relay_on,
            extra_temps,
            pid_p_pct: r.packet.pid_p_pct,
            pid_i_pct: r.packet.pid_i_pct,
            pid_d_pct: r.packet.pid_d_pct,
        }
    }

    /// The history in no more than `max_points` points, the number of records
    /// it was made from, and the median uptime in seconds from one point to
    /// the next.
    pub fn history_data(&self, max_points: usize) -> (r: (Vec<HistoryPoint>, u32, u32))
        ensures
            r.0@.len() == (if self.records@.len() <= max_points {
                self.records@.len()
            } else {
                max_points as nat
            }),
            are_points(
                r.0@,
                self.records@,
                lttb(curve(self.records@), max_points as int),
            ),
            r.1 == self.records@.len() % 0x1_0000_0000,
            r.2 == median(
                steps_of(self.records@, lttb(curve(self.records@), max_points as int)),
            ),
            r.2 >= 1,
    {
        let samples: Vec<SamplePoint> = self.sample_points();
        let total: u32 = (self.records.len() as u64 % 0x1_0000_0000) as u32;
        let chosen: Vec<usize> = lttb_indices(samples.as_slice(), max_points);
        let ghost all = indices(chosen@);
        proof {
            lttb_spans_the_curve(curve(self.records@), max_points as int);
            assert forall|i: int| 0 <= i < chosen@.len() implies #[trigger] chosen@[i]
                < self.records@.len() by {
                assert(all[i] == chosen@[i]);
            }
            assert forall|i: int, j: int| 0 <= i < j < chosen@.len() implies #[trigger] chosen@[i]
                < #[trigger] chosen@[j] by {
                assert(all[i] == chosen@[i] && all[j] == chosen@[j]);
            }
        }
        let interval_s: u32 = self.median_step(&chosen);
        proof {
            steps_are_positive(self.records@, all);
            median_is_one_of(steps_of(self.records@, all));
        }
        let mut points: Vec<HistoryPoint> = Vec::new();
        let mut i: usize = 0;
        while i < chosen.len()
            invariant
                i <= chosen@.len(),
                all == indices(chosen@),
                forall|k: int|
                    0 <= k < chosen@.len() ==> #[trigger] chosen@[k] < self.records@.len(),
                forall|j: int, k: int|
                    0 <= j < k < chosen@.len() ==> #[trigger] chosen@[j] < #[trigger] chosen@[k],
                points@.len() == i,
                forall|k: int|
                    0 <= k < i ==> is_point(
                        #[trigger] points@[k],
                        self.records@[all[k]],
                        k > 0 && gap_between(self.records@, all[k - 1], all[k]),
                    ),
            decreases chosen@.len() - i,
        {
            assert(all[i as int] == chosen@[i as int]);
            let gap_before: bool = if i > 0 {
                assert(all[i - 1] == chosen@[i - 1]);
                assert(chosen@[i - 1] < chosen@[i as int]);
                self.has_gap(chosen[i - 1], chosen[i])
            } else {
                false
            };
            points.push(self.point_at(chosen[i], gap_before));
            i = i + 1;
        }
        (points, total, interval_s)
    }
}

} // verus!
