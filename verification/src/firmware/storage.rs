//! What survives a reboot: the target temperature and the history ring in the
//! `cfg` flash partition. The probe name is kept here too, in RAM.
//!
//! Nothing here touches the flash. A change is planned as the reads, erases
//! and writes to make, and taken over once they were made.

use vstd::prelude::*;
use vstd::utf8::encode_utf8;
use crate::bytes::{
    bits_i16, bits_i32, get_u16_le, get_u32_le, i16_bits, i16_from_bits, i16_to_bits, i32_bits,
    i32_from_bits, i32_to_bits, push_bytes, push_u16_le, push_u32_le, read_u16_le, read_u32_le,
    u16_le, u16_le_within, u32_le, u32_le_within,
};
use crate::text::{chars_equal, to_chars, to_string, trim, trim_chars};
use super::bounded::{string32, string32_new, string32_push_str, string32_str};
use super::error::StorageError;
use super::status::{centi_of_raw, raw_to_centi, RuntimeSample};

verus! {

pub const TEMP_PROBE_NAME_MAX_LEN: usize = 32;

pub const TARGET_TEMP_MIN_CENTI: i32 = 0;

pub const TARGET_TEMP_MAX_CENTI: i32 = 15_000;

pub const TARGET_STORE_MAGIC: [u8; 4] = [0x42, 0x52, 0x57, 0x54];

pub const TARGET_STORE_VERSION: u8 = 1;

pub const TARGET_STORE_SIZE: usize = 9;

pub const HISTORY_RECORD_SIZE: u32 = 16;

/// Number of extra (not controlled) probes in a history record.
pub const HISTORY_EXTRA_SENSOR_COUNT: usize = 3;

/// Stands for a probe that gave no reading.
pub const HISTORY_EXTRA_SENSOR_NONE: i16 = i16::MAX;

pub const HISTORY_DATA_OFFSET: u32 = 0x1000;

pub const HISTORY_SECTOR_SIZE: u32 = 0x1000;

pub const HISTORY_SAMPLE_INTERVAL_SECS: u32 = 60;

// ── State ────────────────────────────────────────────────────────────────────

/// The history ring: where it lies in flash and where it goes on.
#[derive(Clone, Copy, Debug, PartialEq, Eq, Structural)]
pub struct HistoryRing {
    /// Flash offset of the first record.
    pub base: u32,
    /// Number of record slots; 0 without a usable partition.
    pub capacity: u32,
    /// Slot of the next record.
    pub write_index: u32,
    /// Sequence number of the next record.
    pub next_seq: u32,
    /// Number of records held.
    pub count: u32,
    /// Uptime in seconds when a record was last taken; 0 for never.
    pub last_persist_uptime_s: u32,
}

impl HistoryRing {
    /// The ring lies within the flash, and goes on at one of its slots.
    pub open spec fn wf(self) -> bool {
        self.capacity > 0 ==> {
            &&& self.write_index < self.capacity
            &&& self.count <= self.capacity
            &&& self.base + self.capacity * HISTORY_RECORD_SIZE + HISTORY_SECTOR_SIZE <= u32::MAX
        }
    }

    /// Flash offset of a slot.
    pub open spec fn offset_of(self, index: int) -> int {
        self.base + index * HISTORY_RECORD_SIZE
    }
}

/// The persistent state of the device.
pub struct StorageState {
    pub target_centi: i32,
    pub store_offset: u32,
    pub store_len: u32,
    pub history: HistoryRing,
    pub probe_name: heapless::String<TEMP_PROBE_NAME_MAX_LEN>,
}

impl StorageState {
    /// The state before the flash was looked at: 21.11 °C and no history.
    pub fn new() -> (s: Self)
        ensures
            s.target_centi == 2111,
            s.store_offset == 0 && s.store_len == 0,
            s.history == empty_ring(0),
            string32(s.probe_name) == Seq::<char>::empty(),
    {
        StorageState {
            target_centi: 2111,
            store_offset: 0,
            store_len: 0,
            history: HistoryRing {
                base: 0,
                capacity: 0,
                write_index: 0,
                next_seq: 0,
                count: 0,
                last_persist_uptime_s: 0,
            },
            probe_name: string32_new(),
        }
    }
}

/// A ring without slots.
pub open spec fn empty_ring(last_persist_uptime_s: u32) -> HistoryRing {
    HistoryRing {
        base: 0,
        capacity: 0,
        write_index: 0,
        next_seq: 0,
        count: 0,
        last_persist_uptime_s,
    }
}

// ── Target temperature ───────────────────────────────────────────────────────

/// Whether a target temperature is accepted.
pub open spec fn valid_target(centi: int) -> bool {
    TARGET_TEMP_MIN_CENTI <= centi <= TARGET_TEMP_MAX_CENTI
}

/// Tests whether a target temperature is accepted.
pub fn valid_target_centi(target_centi: i32) -> (r: bool)
    ensures
        r == valid_target(target_centi as int),
{
    TARGET_TEMP_MIN_CENTI <= target_centi && target_centi <= TARGET_TEMP_MAX_CENTI
}

/// The flash record of a target temperature: magic, version, value.
pub open spec fn target_record(centi: i32) -> Seq<u8> {
    TARGET_STORE_MAGIC@ + seq![TARGET_STORE_VERSION] + u32_le(i32_bits(centi))
}

/// The target temperature that a flash record holds, if it holds a valid one.
pub open spec fn target_in(raw: Seq<u8>) -> Option<i32> {
    let centi = bits_i32(get_u32_le(raw, 5));
    if raw.take(4) == TARGET_STORE_MAGIC@ && raw[4] == TARGET_STORE_VERSION && valid_target(
        centi as int,
    ) {
        Some(centi)
    } else {
        None
    }
}

/// Writes a target temperature as a flash record.
pub fn encode_target(centi: i32) -> (raw: [u8; TARGET_STORE_SIZE])
    ensures
        raw@ == target_record(centi),
{
    let bits: u32 = i32_to_bits(centi);
    let raw: [u8; TARGET_STORE_SIZE] = [
        0x42,
        0x52,
        0x57,
        0x54,
        TARGET_STORE_VERSION,
        (bits % 256) as u8,
        (bits / 0x100 % 256) as u8,
        (bits / 0x1_0000 % 256) as u8,
        (bits / 0x100_0000) as u8,
    ];
    assert(raw@ =~= target_record(centi));
    raw
}

/// Reads a target temperature from a flash record.
pub fn decode_target(raw: &[u8; TARGET_STORE_SIZE]) -> (r: Option<i32>)
    ensures
        r == target_in(raw@),
{
    if raw[0] != 0x42 || raw[1] != 0x52 || raw[2] != 0x57 || raw[3] != 0x54 {
        proof {
            let i = if raw[0] != 0x42 {
                0
            } else if raw[1] != 0x52 {
                1
            } else if raw[2] != 0x57 {
                2
            } else {
                3int
            };
            assert(raw@.take(4)[i] != TARGET_STORE_MAGIC@[i]);
        }
        return None;
    }
    assert(raw@.take(4) =~= TARGET_STORE_MAGIC@);
    if raw[4] != TARGET_STORE_VERSION {
        return None;
    }
    let centi: i32 = i32_from_bits(read_u32_le(raw, 5));
    if valid_target_centi(centi) {
        Some(centi)
    } else {
        None
    }
}

/// A valid target temperature survives the flash.
pub proof fn target_record_read_back(centi: i32)
    requires
        valid_target(centi as int),
    ensures
        target_in(target_record(centi)) == Some(centi),
        target_record(centi).len() == TARGET_STORE_SIZE,
{
    let raw = target_record(centi);
    assert(raw.take(4) =~= TARGET_STORE_MAGIC@);
}

/// An entry of the partition table.
pub struct PartitionEntry {
    pub label: String,
    pub offset: u32,
    pub len: u32,
}

/// The first partition at or after `from` with the label `cfg`, or the number
/// of partitions.
pub open spec fn config_partition(entries: Seq<PartitionEntry>, from: int) -> int
    decreases entries.len() - from,
{
    if from < 0 || from >= entries.len() || entries[from].label@ == "cfg"@ {
        from
    } else {
        config_partition(entries, from + 1)
    }
}

/// Finds the partition that the configuration is stored in.
pub fn find_config_partition(entries: &[PartitionEntry]) -> (r: Option<(u32, u32)>)
    ensures
        ({
            let i = config_partition(entries@, 0);
            r == if i < entries@.len() {
                Some((entries@[i].offset, entries@[i].len))
            } else {
                None
            }
        }),
{
    let wanted: Vec<char> = to_chars("cfg");
    let mut i: usize = 0;
    while i < entries.len()
        invariant
            i <= entries@.len(),
            wanted@ == "cfg"@,
            config_partition(entries@, 0) == config_partition(entries@, i as int),
        decreases entries@.len() - i,
    {
        let label: Vec<char> = to_chars(entries[i].label.as_str());
        if chars_equal(label.as_slice(), wanted.as_slice()) {
            return Some((entries[i].offset, entries[i].len));
        }
        i = i + 1;
    }
    None
}

/// Whether the partition has room for a target temperature to read.
pub fn target_readable(store_len: u32) -> (r: bool)
    ensures
        r == (store_len >= TARGET_STORE_SIZE),
{
    store_len >= TARGET_STORE_SIZE as u32
}

/// The target temperature at boot: the one in flash where the partition has
/// one, the old one otherwise.
pub open spec fn booted_target(store_len: u32, raw: Option<[u8; 9]>) -> Option<i32> {
    if store_len >= TARGET_STORE_SIZE && raw is Some {
        target_in(raw->0@)
    } else {
        None
    }
}

/// Takes over the configuration partition and the target temperature and
/// history in it. `partition` is what the partition table gave, `raw` what was
/// read at the start of the partition and `records` what was read at each
/// history slot, each nothing where the read failed. Returns the target
/// temperature that was restored.
pub fn init_persistent_target(
    storage: &mut StorageState,
    partition: Option<(u32, u32)>,
    raw: Option<[u8; TARGET_STORE_SIZE]>,
    records: &[Option<[u8; 16]>],
) -> (loaded: Option<i32>)
    requires
        match partition {
            Some(p) => partition_fits(p.0, p.1),
            None => partition_fits(old(storage).store_offset, old(storage).store_len),
        },
    ensures
        final(storage).store_offset == (match partition {
            Some(p) => p.0,
            None => old(storage).store_offset,
        }),
        final(storage).store_len == (match partition {
            Some(p) => p.1,
            None => old(storage).store_len,
        }),
        loaded == booted_target(final(storage).store_len, raw),
        final(storage).target_centi == (match loaded {
            Some(centi) => centi,
            None => old(storage).target_centi,
        }),
        final(storage).history == ring_at_boot(
            final(storage).store_offset,
            final(storage).store_len,
            records@,
            old(storage).history.last_persist_uptime_s,
        ),
        final(storage).history.wf(),
        final(storage).probe_name == old(storage).probe_name,
{
    if let Some((offset, len)) = partition {
        storage.store_offset = offset;
        storage.store_len = len;
    }
    let mut loaded: Option<i32> = None;
    if target_readable(storage.store_len) {
        if let Some(bytes) = raw {
            loaded = decode_target(&bytes);
            if let Some(centi) = loaded {
                storage.target_centi = centi;
            }
        }
    }
    storage.history =
    history_init(
        storage.store_offset,
        storage.store_len,
        records,
        storage.history.last_persist_uptime_s,
    );
    loaded
}

/// The target temperature in hundredths of a degree.
pub fn get_target_temp_centi(storage: &StorageState) -> (r: i32)
    ensures
        r == storage.target_centi,
{
    storage.target_centi
}

/// Sets the target temperature without a flash write.
pub fn set_target_temp_centi_ram(storage: &mut StorageState, target_centi: i32)
    ensures
        *final(storage) == (StorageState { target_centi, ..*old(storage) }),
{
    storage.target_centi = target_centi;
}

/// A write to make at a flash offset.
#[derive(Clone, Copy, Debug)]
pub struct TargetWrite {
    pub offset: u32,
    pub raw: [u8; TARGET_STORE_SIZE],
}

/// Why a target temperature cannot be stored, if it cannot.
pub open spec fn target_store_error(store_len: u32, flash_ready: bool) -> Option<StorageError> {
    if store_len == 0 {
        Some(StorageError::MissingPartition)
    } else if store_len < TARGET_STORE_SIZE {
        Some(StorageError::PartitionTooSmall)
    } else if !flash_ready {
        Some(StorageError::NotInitialized)
    } else {
        None
    }
}

/// Plans the flash write of a target temperature.
pub fn persist_target_temp_c(storage: &StorageState, target_centi: i32, flash_ready: bool) -> (r:
    Result<TargetWrite, StorageError>)
    ensures
        match r {
            Ok(write) => target_store_error(storage.store_len, flash_ready) is None && write.offset
                == storage.store_offset && write.raw@ == target_record(target_centi),
            Err(e) => target_store_error(storage.store_len, flash_ready) == Some(e),
        },
{
    if storage.store_len == 0 {
        return Err(StorageError::MissingPartition);
    }
    if storage.store_len < TARGET_STORE_SIZE as u32 {
        return Err(StorageError::PartitionTooSmall);
    }
    if !flash_ready {
        return Err(StorageError::NotInitialized);
    }
    Ok(TargetWrite { offset: storage.store_offset, raw: encode_target(target_centi) })
}

/// Sets the target temperature and plans its flash write. An accepted target
/// is in force even where it cannot be stored.
pub fn set_target_temp_c_persistent(
    storage: &mut StorageState,
    target_centi: i32,
    flash_ready: bool,
) -> (r: Result<TargetWrite, StorageError>)
    ensures
        *final(storage) == (StorageState {
            target_centi: if valid_target(target_centi as int) {
                target_centi
            } else {
                old(storage).target_centi
            },
            ..*old(storage)
        }),
        match r {
            Ok(write) => valid_target(target_centi as int) && target_store_error(
                old(storage).store_len,
                flash_ready,
            ) is None && write.offset == old(storage).store_offset && write.raw@ == target_record(
                target_centi,
            ),
            Err(e) => e == (if !valid_target(target_centi as int) {
                StorageError::OutOfRange
            } else {
                target_store_error(old(storage).store_len, flash_ready)->0
            }) && (valid_target(target_centi as int) ==> target_store_error(
                old(storage).store_len,
                flash_ready,
            ) is Some),
        },
{
    if !valid_target_centi(target_centi) {
        return Err(StorageError::OutOfRange);
    }
    storage.target_centi = target_centi;
    persist_target_temp_c(storage, target_centi, flash_ready)
}

// ── Probe name ───────────────────────────────────────────────────────────────

/// Why a probe name is not accepted.
#[derive(Clone, Copy, Debug, PartialEq, Eq, Structural)]
pub enum ProbeNameError {
    Empty,
    TooLong,
    InvalidChar,
}

/// Whether a character may stand in a probe name.
pub open spec fn probe_name_char(c: char) -> bool {
    ||| 'a' <= c <= 'z'
    ||| 'A' <= c <= 'Z'
    ||| '0' <= c <= '9'
    ||| c == ' '
    ||| c == '-'
    ||| c == '_'
    ||| c == '.'
}

/// Tests whether a character may stand in a probe name.
fn is_valid_probe_name_char(ch: char) -> (r: bool)
    ensures
        r == probe_name_char(ch),
{
    ('a' <= ch && ch <= 'z') || ('A' <= ch && ch <= 'Z') || ('0' <= ch && ch <= '9') || ch == ' '
        || ch == '-' || ch == '_' || ch == '.'
}

/// Why a probe name is not accepted, if it is not.
pub open spec fn probe_name_error(name: Seq<char>) -> Option<ProbeNameError> {
    let trimmed = trim(name);
    if trimmed.len() == 0 {
        Some(ProbeNameError::Empty)
    } else if encode_utf8(trimmed).len() > TEMP_PROBE_NAME_MAX_LEN {
        Some(ProbeNameError::TooLong)
    } else if exists|i: int| 0 <= i < trimmed.len() && !probe_name_char(#[trigger] trimmed[i]) {
        Some(ProbeNameError::InvalidChar)
    } else {
        None
    }
}

/// Sets the probe name, without the white space around it.
pub fn set_temp_probe_name(storage: &mut StorageState, name: &str) -> (r: Result<
    (),
    ProbeNameError,
>)
    ensures
        match r {
            Ok(()) => {
                &&& probe_name_error(name@) is None
                &&& string32(final(storage).probe_name) == trim(name@)
                &&& *final(storage) == (StorageState {
                    probe_name: final(storage).probe_name,
                    ..*old(storage)
                })
            },
            Err(e) => probe_name_error(name@) == Some(e) && *final(storage) == *old(storage),
        },
{
    let chars: Vec<char> = to_chars(name);
    let trimmed: &[char] = trim_chars(chars.as_slice());
    if trimmed.len() == 0 {
        return Err(ProbeNameError::Empty);
    }
    let text: String = to_string(trimmed);
    if text.as_str().as_bytes().len() > TEMP_PROBE_NAME_MAX_LEN {
        return Err(ProbeNameError::TooLong);
    }
    let mut i: usize = 0;
    while i < trimmed.len()
        invariant
            i <= trimmed@.len(),
            trimmed@ == trim(name@),
            trimmed@.len() > 0,
            encode_utf8(trimmed@).len() <= TEMP_PROBE_NAME_MAX_LEN,
            *storage == *old(storage),
            forall|j: int| 0 <= j < i ==> probe_name_char(#[trigger] trimmed@[j]),
        decreases trimmed@.len() - i,
    {
        if !is_valid_probe_name_char(trimmed[i]) {
            assert(!probe_name_char(trim(name@)[i as int]));
            return Err(ProbeNameError::InvalidChar);
        }
        i = i + 1;
    }
    let mut normalized = string32_new();
    assert(Seq::<char>::empty() + text@ == text@);
    let pushed: Result<(), ()> = string32_push_str(&mut normalized, text.as_str());
    storage.probe_name = normalized;
    Ok(())
}

/// The probe name, or the default where none is set.
pub open spec fn probe_name_of(stored: Seq<char>) -> Seq<char> {
    if stored.len() == 0 {
        "probe-1"@
    } else {
        stored
    }
}

/// The probe name, or the default where none is set.
pub fn temp_probe_name(storage: &StorageState) -> (r: heapless::String<TEMP_PROBE_NAME_MAX_LEN>)
    ensures
        string32(r) == probe_name_of(string32(storage.probe_name)),
{
    let current: &str = string32_str(&storage.probe_name);
    let mut name = string32_new();
    let text: &str = if current.is_empty() {
        "probe-1"
    } else {
        current
    };
    proof {
        reveal_strlit("probe-1");
        vstd::utf8::is_ascii_chars_encode_utf8("probe-1"@);
        assert(Seq::<char>::empty() + text@ == text@);
    }
    let pushed: Result<(), ()> = string32_push_str(&mut name, text);
    name
}

// ── History ──────────────────────────────────────────────────────────────────

/// Whether a slot holds a record. An erased slot reads as all ones.
pub open spec fn holds_record(slot: Option<[u8; 16]>) -> bool {
    slot is Some && get_u32_le(slot->0@, 0) != u32::MAX
}

/// The sequence number of the record in a slot.
pub open spec fn record_seq(slot: Option<[u8; 16]>) -> u32 {
    get_u32_le(slot->0@, 0)
}

/// The number of slots that hold a record.
pub open spec fn record_count(slots: Seq<Option<[u8; 16]>>) -> nat
    decreases slots.len(),
{
    if slots.len() == 0 {
        0
    } else {
        record_count(slots.drop_last()) + (if holds_record(slots.last()) {
            1nat
        } else {
            0nat
        })
    }
}

/// The slot of the record with the greatest sequence number, the first where
/// several have it.
pub open spec fn newest_slot(slots: Seq<Option<[u8; 16]>>) -> Option<int>
    decreases slots.len(),
{
    if slots.len() == 0 {
        None
    } else {
        let before = newest_slot(slots.drop_last());
        if holds_record(slots.last()) && (before is None || record_seq(slots.last()) > record_seq(
            slots[before->0],
        )) {
            Some(slots.len() - 1)
        } else {
            before
        }
    }
}

/// The number of slots in a partition.
pub open spec fn slots_in(partition_len: u32) -> nat {
    if partition_len <= HISTORY_DATA_OFFSET + HISTORY_RECORD_SIZE {
        0
    } else {
        ((partition_len - HISTORY_DATA_OFFSET) / HISTORY_RECORD_SIZE as int) as nat
    }
}

/// Whether every flash offset in a partition with history fits in 32 bits.
pub open spec fn partition_fits(partition_offset: u32, partition_len: u32) -> bool {
    slots_in(partition_len) > 0 ==> partition_offset + partition_len + HISTORY_SECTOR_SIZE
        <= u32::MAX
}

/// Tests whether every flash offset in a partition fits in 32 bits.
pub fn is_addressable(partition_offset: u32, partition_len: u32) -> (r: bool)
    ensures
        r == partition_fits(partition_offset, partition_len),
{
    partition_len <= HISTORY_DATA_OFFSET + HISTORY_RECORD_SIZE || partition_offset as u64
        + partition_len as u64 + HISTORY_SECTOR_SIZE as u64 <= u32::MAX as u64
}

/// The flash offsets of the history slots in a partition, which are read at
/// boot.
pub fn slot_offsets(partition_offset: u32, partition_len: u32) -> (r: Vec<u32>)
    requires
        partition_fits(partition_offset, partition_len),
    ensures
        r@.len() == slots_in(partition_len),
        forall|i: int|
            0 <= i < r@.len() ==> #[trigger] r@[i] == partition_offset + HISTORY_DATA_OFFSET + i
                * HISTORY_RECORD_SIZE,
{
    let mut out: Vec<u32> = Vec::new();
    if partition_len <= HISTORY_DATA_OFFSET + HISTORY_RECORD_SIZE {
        return out;
    }
    let slots: u32 = (partition_len - HISTORY_DATA_OFFSET) / HISTORY_RECORD_SIZE;
    let mut i: u32 = 0;
    while i < slots
        invariant
            i <= slots,
            slots * HISTORY_RECORD_SIZE <= partition_len - HISTORY_DATA_OFFSET,
            partition_offset + partition_len <= u32::MAX,
            out@.len() == i,
            forall|j: int|
                0 <= j < i ==> #[trigger] out@[j] == partition_offset + HISTORY_DATA_OFFSET + j
                    * HISTORY_RECORD_SIZE,
        decreases slots - i,
    {
        out.push(partition_offset + HISTORY_DATA_OFFSET + i * HISTORY_RECORD_SIZE);
        i = i + 1;
    }
    out
}

/// The ring that the records in flash describe: it goes on after the newest.
/// Slots that were not read count as empty.
pub open spec fn ring_at_boot(
    partition_offset: u32,
    partition_len: u32,
    slots: Seq<Option<[u8; 16]>>,
    last_persist_uptime_s: u32,
) -> HistoryRing {
    let capacity = slots_in(partition_len);
    let read = if slots.len() > capacity {
        slots.take(capacity as int)
    } else {
        slots
    };
    if capacity == 0 {
        empty_ring(last_persist_uptime_s)
    } else {
        HistoryRing {
            base: (partition_offset + HISTORY_DATA_OFFSET) as u32,
            capacity: capacity as u32,
            write_index: match newest_slot(read) {
                Some(i) => ((i + 1) % capacity as int) as u32,
                None => 0,
            },
            next_seq: match newest_slot(read) {
                Some(i) => record_seq(read[i]).wrapping_add(1),
                None => 0,
            },
            count: record_count(read) as u32,
            last_persist_uptime_s,
        }
    }
}

/// Tests whether a record is there.
pub fn history_record_valid(raw: &[u8; 16]) -> (r: bool)
    ensures
        r == holds_record(Some(*raw)),
{
    read_u32_le(raw, 0) != u32::MAX
}

/// What a pass over the slots has found so far.
#[derive(Clone, Copy, Debug, PartialEq, Eq, Structural)]
pub struct HistoryScan {
    pub slots_seen: u32,
    pub valid_count: u32,
    pub has_records: bool,
    pub max_seq: u32,
    pub max_index: u32,
}

impl HistoryScan {
    /// Whether this is what a pass over these slots finds.
    pub open spec fn of(self, slots: Seq<Option<[u8; 16]>>) -> bool {
        &&& self.slots_seen == slots.len()
        &&& self.valid_count == record_count(slots)
        &&& self.valid_count <= self.slots_seen
        &&& self.has_records == (newest_slot(slots) is Some)
        &&& newest_slot(slots) matches Some(i) ==> 0 <= i < slots.len() && self.max_index == i
            && self.max_seq == record_seq(slots[i])
    }

    /// Before the first slot.
    pub fn new() -> (s: Self)
        ensures
            s.of(Seq::empty()),
            s == (HistoryScan {
                slots_seen: 0,
                valid_count: 0,
                has_records: false,
                max_seq: 0,
                max_index: 0,
            }),
    {
        HistoryScan {
            slots_seen: 0,
            valid_count: 0,
            has_records: false,
            max_seq: 0,
            max_index: 0,
        }
    }

    /// Takes in what was read at the next slot.
    pub fn next_slot(&mut self, slot: Option<[u8; 16]>)
        requires
            old(self).slots_seen < u32::MAX,
            old(self).valid_count <= old(self).slots_seen,
        ensures
            forall|slots: Seq<Option<[u8; 16]>>| #[trigger]
                old(self).of(slots) ==> final(self).of(slots.push(slot)),
            final(self).slots_seen == old(self).slots_seen + 1,
            final(self).valid_count <= final(self).slots_seen,
    {
        assert forall|slots: Seq<Option<[u8; 16]>>| #[trigger] slots.push(slot).drop_last()
            == slots by {}
        let index: u32 = self.slots_seen;
        self.slots_seen = index + 1;
        if let Some(raw) = slot {
            if history_record_valid(&raw) {
                self.valid_count = self.valid_count + 1;
                let seq: u32 = read_u32_le(&raw, 0);
                if !self.has_records || seq > self.max_seq {
                    self.has_records = true;
                    self.max_seq = seq;
                    self.max_index = index;
                }
            }
        }
        assert forall|slots: Seq<Option<[u8; 16]>>| #[trigger]
            old(self).of(slots) implies self.of(slots.push(slot)) by {
            assert(slots.push(slot).drop_last() == slots);
            let before = newest_slot(slots);
            if before is Some {
                assert(slots.push(slot)[before->0] == slots[before->0]);
            }
        }
    }
}

/// Finds where the history ring goes on.
pub fn history_init(
    partition_offset: u32,
    partition_len: u32,
    records: &[Option<[u8; 16]>],
    last_persist_uptime_s: u32,
) -> (r: HistoryRing)
    requires
        partition_fits(partition_offset, partition_len),
    ensures
        r == ring_at_boot(partition_offset, partition_len, records@, last_persist_uptime_s),
        r.wf(),
{
    if partition_len <= HISTORY_DATA_OFFSET + HISTORY_RECORD_SIZE {
        return HistoryRing {
            base: 0,
            capacity: 0,
            write_index: 0,
            next_seq: 0,
            count: 0,
            last_persist_uptime_s,
        };
    }
    let base: u32 = partition_offset + HISTORY_DATA_OFFSET;
    let capacity: u32 = (partition_len - HISTORY_DATA_OFFSET) / HISTORY_RECORD_SIZE;
    let ghost slots = if records@.len() > capacity {
        records@.take(capacity as int)
    } else {
        records@
    };
    let mut scan: HistoryScan = HistoryScan::new();
    let mut index: usize = 0;
    assert(slots.take(0) == Seq::<Option<[u8; 16]>>::empty());
    while index < records.len() && scan.slots_seen < capacity
        invariant
            index <= slots.len() <= capacity,
            slots == (if records@.len() > capacity {
                records@.take(capacity as int)
            } else {
                records@
            }),
            scan.of(slots.take(index as int)),
        decreases slots.len() - index,
    {
        assert(slots.take(index + 1) == slots.take(index as int).push(slots[index as int]));
        scan.next_slot(records[index]);
        index = index + 1;
    }
    assert(slots.take(index as int) == slots);
    if scan.has_records {
        HistoryRing {
            base,
            capacity,
            write_index: (scan.max_index + 1) % capacity,
            next_seq: scan.max_seq.wrapping_add(1),
            count: scan.valid_count,
            last_persist_uptime_s,
        }
    } else {
        proof {
            no_newest_no_records(slots);
        }
        HistoryRing {
            base,
            capacity,
            write_index: 0,
            next_seq: 0,
            count: 0,
            last_persist_uptime_s,
        }
    }
}

proof fn no_newest_no_records(slots: Seq<Option<[u8; 16]>>)
    requires
        newest_slot(slots) is None,
    ensures
        record_count(slots) == 0,
    decreases slots.len(),
{
    if slots.len() > 0 {
        no_newest_no_records(slots.drop_last());
    }
}

/// The newest slot holds a record, no record has a greater sequence number,
/// and there is one as soon as there is any record.
pub proof fn newest_is_greatest(slots: Seq<Option<[u8; 16]>>)
    ensures
        newest_slot(slots) is Some <==> record_count(slots) > 0,
        newest_slot(slots) is None ==> forall|k: int|
            0 <= k < slots.len() ==> !holds_record(#[trigger] slots[k]),
        newest_slot(slots) matches Some(i) ==> {
            &&& 0 <= i < slots.len()
            &&& holds_record(slots[i])
            &&& forall|k: int|
                0 <= k < slots.len() && holds_record(#[trigger] slots[k]) ==> record_seq(slots[k])
                    <= record_seq(slots[i])
        },
    decreases slots.len(),
{
    if slots.len() > 0 {
        newest_is_greatest(slots.drop_last());
        let n = slots.len() - 1;
        if newest_slot(slots) is None {
            assert forall|k: int| 0 <= k < slots.len() implies !holds_record(
                #[trigger] slots[k],
            ) by {
                if k < n {
                    assert(slots.drop_last()[k] == slots[k]);
                }
            }
        }
        if newest_slot(slots) is Some {
            let i = newest_slot(slots)->0;
            assert forall|k: int|
                0 <= k < slots.len() && holds_record(#[trigger] slots[k]) implies record_seq(
                slots[k],
            ) <= record_seq(slots[i]) by {
                if k < n {
                    assert(slots.drop_last()[k] == slots[k]);
                }
            }
        }
    }
}

/// A value brought into a range.
pub open spec fn clamped(v: int, low: int, high: int) -> int {
    if v < low {
        low
    } else if v > high {
        high
    } else {
        v
    }
}

/// The reading of an extra probe as a record holds it.
pub open spec fn extra_centi(extra: Seq<i32>, i: int) -> i16 {
    if i < extra.len() && extra[i] != i32::MAX {
        clamped(extra[i] as int, i16::MIN as int, i16::MAX - 1) as i16
    } else {
        HISTORY_EXTRA_SENSOR_NONE
    }
}

/// A history record: sequence number, controlled probe, extra probes, target,
/// duty cycle in percent, window step and on-steps.
pub open spec fn history_record(
    seq: u32,
    temp: i16,
    extra: Seq<i32>,
    target_centi: i32,
    output_pct: u8,
    window_step: nat,
    on_steps: nat,
) -> Seq<u8> {
    u32_le(seq) + u16_le(i16_bits(temp)) + u16_le(i16_bits(extra_centi(extra, 0))) + u16_le(
        i16_bits(extra_centi(extra, 1)),
    ) + u16_le(i16_bits(extra_centi(extra, 2))) + u16_le(
        (i32_bits(target_centi) % 0x1_0000) as u16,
    ) + seq![output_pct, (16 * window_step + on_steps) as u8]
}

/// The history record of a control cycle.
pub open spec fn record_of(
    seq: u32,
    sample: RuntimeSample,
    target_centi: i32,
    extra: Seq<i32>,
) -> Seq<u8> {
    history_record(
        seq,
        clamped(centi_of_raw(sample.temp_raw as int), i16::MIN as int, i16::MAX as int) as i16,
        extra,
        target_centi,
        clamped(sample.pid_deci as int / 10, 0, 100) as u8,
        clamped(sample.pid_window_step as int, 0, 15) as nat,
        clamped(sample.pid_on_steps as int, 0, 15) as nat,
    )
}

/// The reading of an extra probe, brought into a record's range.
fn encode_extra(extra: &[i32], i: usize) -> (r: i16)
    ensures
        r == extra_centi(extra@, i as int),
{
    if i < extra.len() && extra[i] != i32::MAX {
        let v: i32 = extra[i];
        if v < i16::MIN as i32 {
            i16::MIN
        } else if v > i16::MAX as i32 - 1 {
            i16::MAX - 1
        } else {
            v as i16
        }
    } else {
        HISTORY_EXTRA_SENSOR_NONE
    }
}

/// Writes a history record.
pub fn encode_history_record(
    seq: u32,
    sample: &RuntimeSample,
    target_centi: i32,
    extra_temps_centi: &[i32],
) -> (raw: [u8; 16])
    ensures
        raw@ == record_of(seq, *sample, target_centi, extra_temps_centi@),
{
    let centi: i32 = raw_to_centi(sample.temp_raw);
    let temp: i16 = if centi < i16::MIN as i32 {
        i16::MIN
    } else if centi > i16::MAX as i32 {
        i16::MAX
    } else {
        centi as i16
    };
    let output_pct: u8 = if sample.pid_deci / 10 > 100 {
        100
    } else {
        (sample.pid_deci / 10) as u8
    };
    let window_step: u8 = if sample.pid_window_step > 15 {
        15
    } else {
        sample.pid_window_step
    };
    let on_steps: u8 = if sample.pid_on_steps > 15 {
        15
    } else {
        sample.pid_on_steps
    };
    let mut bytes: Vec<u8> = Vec::new();
    push_u32_le(&mut bytes, seq);
    assert(bytes@ == u32_le(seq));
    push_u16_le(&mut bytes, i16_to_bits(temp));
    push_u16_le(&mut bytes, i16_to_bits(encode_extra(extra_temps_centi, 0)));
    push_u16_le(&mut bytes, i16_to_bits(encode_extra(extra_temps_centi, 1)));
    push_u16_le(&mut bytes, i16_to_bits(encode_extra(extra_temps_centi, 2)));
    push_u16_le(&mut bytes, (i32_to_bits(target_centi) % 0x1_0000) as u16);
    let tail: [u8; 2] = [output_pct, 16 * window_step + on_steps];
    push_bytes(&mut bytes, &tail);
    assert(tail@ == seq![output_pct, (16 * window_step + on_steps) as u8]);
    to_record(bytes.as_slice())
}

fn to_record(bytes: &[u8]) -> (raw: [u8; 16])
    requires
        bytes@.len() == 16,
    ensures
        raw@ == bytes@,
{
    let mut raw: [u8; 16] = [0xff; 16];
    let mut i: usize = 0;
    while i < 16
        invariant
            i <= 16,
            bytes@.len() == 16,
            forall|j: int| 0 <= j < i ==> raw@[j] == bytes@[j],
        decreases 16 - i,
    {
        raw[i] = bytes[i];
        i = i + 1;
    }
    assert(raw@ =~= bytes@);
    raw
}

/// One point of the device's history.
#[derive(Clone, Copy, Debug, PartialEq, Eq)]
pub struct HistorySample {
    pub seq: u32,
    pub temp_centi: i16,
    pub target_centi: i16,
    pub output_percent: u8,
    pub window_step: u8,
    pub on_steps: u8,
    pub relay_on: bool,
    /// The extra probes in order, nothing where there was no reading.
    pub extra_temps: [Option<i16>; 3],
}

/// The reading that a record holds of an extra probe.
pub open spec fn extra_in(bits: u16) -> Option<i16> {
    if bits_i16(bits) == HISTORY_EXTRA_SENSOR_NONE {
        None
    } else {
        Some(bits_i16(bits))
    }
}

/// Whether a point is the one that a record holds.
pub open spec fn sample_in(sample: HistorySample, raw: Seq<u8>) -> bool {
    &&& sample.seq == get_u32_le(raw, 0)
    &&& sample.temp_centi == bits_i16(get_u16_le(raw, 4))
    &&& sample.target_centi == bits_i16(get_u16_le(raw, 12))
    &&& sample.output_percent == raw[14]
    &&& sample.window_step == raw[15] / 16
    &&& sample.on_steps == raw[15] % 16
    &&& sample.relay_on == (sample.on_steps > 0 && sample.window_step < sample.on_steps)
    &&& sample.extra_temps@ == seq![
        extra_in(get_u16_le(raw, 6)),
        extra_in(get_u16_le(raw, 8)),
        extra_in(get_u16_le(raw, 10)),
    ]
}

fn decode_extra(bits: u16) -> (r: Option<i16>)
    ensures
        r == extra_in(bits),
{
    let v: i16 = i16_from_bits(bits);
    if v == HISTORY_EXTRA_SENSOR_NONE {
        None
    } else {
        Some(v)
    }
}

/// Reads a history record.
pub fn decode_history_record(raw: &[u8; 16]) -> (r: HistorySample)
    ensures
        sample_in(r, raw@),
{
    let window_step: u8 = raw[15] / 16;
    let on_steps: u8 = raw[15] % 16;
    HistorySample {
        seq: read_u32_le(raw, 0),
        temp_centi: i16_from_bits(read_u16_le(raw, 4)),
        target_centi: i16_from_bits(read_u16_le(raw, 12)),
        output_percent: raw[14],
        window_step,
        on_steps,
        relay_on: on_steps > 0 && window_step < on_steps,
        extra_temps: [
            decode_extra(read_u16_le(raw, 6)),
            decode_extra(read_u16_le(raw, 8)),
            decode_extra(read_u16_le(raw, 10)),
        ],
    }
}

/// Where the pieces of a record begin and end.
proof fn record_pieces(
    a: Seq<u8>,
    b: Seq<u8>,
    c: Seq<u8>,
    d: Seq<u8>,
    e: Seq<u8>,
    f: Seq<u8>,
    g: Seq<u8>,
)
    requires
        a.len() == 4,
        b.len() == 2,
        c.len() == 2,
        d.len() == 2,
        e.len() == 2,
        f.len() == 2,
        g.len() == 2,
    ensures
        (a + b + c + d + e + f + g).len() == 16,
        (a + b + c + d + e + f + g).subrange(0, 4) == a,
        (a + b + c + d + e + f + g).subrange(4, 6) == b,
        (a + b + c + d + e + f + g).subrange(6, 8) == c,
        (a + b + c + d + e + f + g).subrange(8, 10) == d,
        (a + b + c + d + e + f + g).subrange(10, 12) == e,
        (a + b + c + d + e + f + g).subrange(12, 14) == f,
        (a + b + c + d + e + f + g)[14] == g[0],
        (a + b + c + d + e + f + g)[15] == g[1],
{
}

/// What stands at each place of a record.
proof fn history_record_layout(
    seq: u32,
    temp: i16,
    extra: Seq<i32>,
    target_centi: i32,
    output_pct: u8,
    window_step: nat,
    on_steps: nat,
)
    ensures
        ({
            let raw = history_record(
                seq,
                temp,
                extra,
                target_centi,
                output_pct,
                window_step,
                on_steps,
            );
            &&& raw.len() == 16
            &&& get_u32_le(raw, 0) == seq
            &&& get_u16_le(raw, 4) == i16_bits(temp)
            &&& get_u16_le(raw, 6) == i16_bits(extra_centi(extra, 0))
            &&& get_u16_le(raw, 8) == i16_bits(extra_centi(extra, 1))
            &&& get_u16_le(raw, 10) == i16_bits(extra_centi(extra, 2))
            &&& get_u16_le(raw, 12) == (i32_bits(target_centi) % 0x1_0000) as u16
            &&& raw[14] == output_pct
            &&& raw[15] == (16 * window_step + on_steps) as u8
        }),
{
    let raw = history_record(seq, temp, extra, target_centi, output_pct, window_step, on_steps);
    record_pieces(
        u32_le(seq),
        u16_le(i16_bits(temp)),
        u16_le(i16_bits(extra_centi(extra, 0))),
        u16_le(i16_bits(extra_centi(extra, 1))),
        u16_le(i16_bits(extra_centi(extra, 2))),
        u16_le((i32_bits(target_centi) % 0x1_0000) as u16),
        seq![output_pct, (16 * window_step + on_steps) as u8],
    );
    u32_le_within(raw, 0, seq);
    u16_le_within(raw, 4, i16_bits(temp));
    u16_le_within(raw, 6, i16_bits(extra_centi(extra, 0)));
    u16_le_within(raw, 8, i16_bits(extra_centi(extra, 1)));
    u16_le_within(raw, 10, i16_bits(extra_centi(extra, 2)));
    u16_le_within(raw, 12, (i32_bits(target_centi) % 0x1_0000) as u16);
}

/// A target in the range of 16 bits is kept by its lower 16 bits.
proof fn target_bits_read_back(target_centi: i32)
    requires
        i16::MIN <= target_centi <= i16::MAX,
    ensures
        bits_i16((i32_bits(target_centi) % 0x1_0000) as u16) == target_centi,
{
}

/// What is written to history is read back from it: temperatures, target and
/// duty cycle as they were, the steps of the window up to 15.
pub proof fn history_record_read_back(
    seq: u32,
    temp: i16,
    extra: Seq<i32>,
    target_centi: i32,
    output_pct: u8,
    window_step: nat,
    on_steps: nat,
    sample: HistorySample,
)
    requires
        window_step <= 15,
        on_steps <= 15,
        i16::MIN <= target_centi <= i16::MAX,
        sample_in(
            sample,
            history_record(seq, temp, extra, target_centi, output_pct, window_step, on_steps),
        ),
    ensures
        history_record(
            seq,
            temp,
            extra,
            target_centi,
            output_pct,
            window_step,
            on_steps,
        ).len() == HISTORY_RECORD_SIZE,
        sample.seq == seq,
        sample.temp_centi == temp,
        sample.target_centi == target_centi,
        sample.output_percent == output_pct,
        sample.window_step == window_step,
        sample.on_steps == on_steps,
        forall|i: int|
            0 <= i < 3 ==> #[trigger] sample.extra_temps@[i] == (if i < extra.len() && extra[i]
                != i32::MAX {
                Some(clamped(extra[i] as int, i16::MIN as int, i16::MAX - 1) as i16)
            } else {
                None
            }),
{
    history_record_layout(seq, temp, extra, target_centi, output_pct, window_step, on_steps);
    target_bits_read_back(target_centi);
    assert(sample.extra_temps@[0] == extra_in(i16_bits(extra_centi(extra, 0))));
    assert(sample.extra_temps@[1] == extra_in(i16_bits(extra_centi(extra, 1))));
    assert(sample.extra_temps@[2] == extra_in(i16_bits(extra_centi(extra, 2))));
}

/// A history record to write, and whether its sector is to be erased first.
#[derive(Clone, Copy, Debug)]
pub struct HistoryWrite {
    pub erase: bool,
    pub offset: u32,
    pub raw: [u8; 16],
}

/// Whether a record is due: there is a ring, and a minute has passed since the
/// last one or there was none.
pub open spec fn history_due(ring: HistoryRing, now_uptime_s: u32) -> bool {
    &&& ring.capacity > 0
    &&& ring.last_persist_uptime_s == 0 || now_uptime_s - ring.last_persist_uptime_s
        >= HISTORY_SAMPLE_INTERVAL_SECS
}

/// Plans the write of a history record where one is due. The minute counts
/// from here on even where the flash is not there to be written.
///
/// `extra_temps_centi` holds the readings of the extra probes, `i32::MAX` where
/// there is none. The caller sees to it that history is being collected.
pub fn persist_history_sample(
    storage: &mut StorageState,
    sample: &RuntimeSample,
    extra_temps_centi: &[i32],
    now_uptime_s: u32,
    flash_ready: bool,
) -> (r: Option<HistoryWrite>)
    requires
        old(storage).history.wf(),
    ensures
        *final(storage) == (StorageState {
            history: HistoryRing {
                last_persist_uptime_s: if history_due(old(storage).history, now_uptime_s) {
                    now_uptime_s
                } else {
                    old(storage).history.last_persist_uptime_s
                },
                ..old(storage).history
            },
            ..*old(storage)
        }),
        final(storage).history.wf(),
        match r {
            Some(write) => {
                let ring = old(storage).history;
                &&& history_due(ring, now_uptime_s) && flash_ready
                &&& write.offset == ring.offset_of(ring.write_index as int)
                &&& write.erase == (write.offset % HISTORY_SECTOR_SIZE == 0)
                &&& write.raw@ == record_of(
                    ring.next_seq,
                    *sample,
                    old(storage).target_centi,
                    extra_temps_centi@,
                )
            },
            None => !history_due(old(storage).history, now_uptime_s) || !flash_ready,
        },
{
    let last: u32 = storage.history.last_persist_uptime_s;
    if last != 0 && now_uptime_s.saturating_sub(last) < HISTORY_SAMPLE_INTERVAL_SECS {
        return None;
    }
    if storage.history.capacity == 0 {
        return None;
    }
    storage.history.last_persist_uptime_s = now_uptime_s;
    if !flash_ready {
        return None;
    }
    let offset: u32 = history_record_offset(&storage.history, storage.history.write_index);
    let raw: [u8; 16] = encode_history_record(
        storage.history.next_seq,
        sample,
        storage.target_centi,
        extra_temps_centi,
    );
    Some(HistoryWrite { erase: offset % HISTORY_SECTOR_SIZE == 0, offset, raw })
}

/// Flash offset of a slot.
pub fn history_record_offset(ring: &HistoryRing, index: u32) -> (r: u32)
    requires
        ring.wf(),
        index < ring.capacity,
    ensures
        r == ring.offset_of(index as int),
        r + HISTORY_SECTOR_SIZE <= u32::MAX,
{
    ring.base + index * HISTORY_RECORD_SIZE
}

/// The ring after a record was written: it goes on at the next slot, with one
/// record more and, where a sector was erased, a sector's records less.
pub open spec fn ring_after_write(ring: HistoryRing, erased: bool) -> HistoryRing {
    let per_sector = HISTORY_SECTOR_SIZE / HISTORY_RECORD_SIZE;
    let kept = if !erased {
        ring.count as int
    } else if ring.count > per_sector {
        ring.count - per_sector
    } else {
        0
    };
    HistoryRing {
        write_index: ((ring.write_index + 1) % ring.capacity as int) as u32,
        next_seq: ring.next_seq.wrapping_add(1),
        count: (if kept + 1 < ring.capacity {
            kept + 1
        } else {
            ring.capacity as int
        }) as u32,
        ..ring
    }
}

/// Takes over a history record that was written.
pub fn history_sample_written(storage: &mut StorageState, erased: bool)
    requires
        old(storage).history.wf(),
        old(storage).history.capacity > 0,
    ensures
        *final(storage) == (StorageState {
            history: ring_after_write(old(storage).history, erased),
            ..*old(storage)
        }),
        final(storage).history.wf(),
{
    let capacity: u32 = storage.history.capacity;
    let mut count: u32 = storage.history.count;
    if erased {
        let records_per_sector: u32 = HISTORY_SECTOR_SIZE / HISTORY_RECORD_SIZE;
        let removed: u32 = if count < records_per_sector {
            count
        } else {
            records_per_sector
        };
        count = count - removed;
    }
    storage.history.write_index = (storage.history.write_index + 1) % capacity;
    storage.history.next_seq = storage.history.next_seq.wrapping_add(1);
    storage.history.count = if count < capacity {
        count + 1
    } else {
        capacity
    };
}

/// Why the history cannot be cleared, if it cannot.
pub open spec fn history_clear_error(ring: HistoryRing, flash_ready: bool) -> Option<StorageError> {
    if ring.capacity == 0 {
        Some(StorageError::MissingPartition)
    } else if !flash_ready {
        Some(StorageError::NotInitialized)
    } else {
        None
    }
}

/// The number of sectors that the ring stands in.
pub open spec fn sector_count(ring: HistoryRing) -> int {
    (ring.capacity * HISTORY_RECORD_SIZE + HISTORY_SECTOR_SIZE - 1) / HISTORY_SECTOR_SIZE as int
}

/// Plans the erasure of the history: the offsets of the sectors to erase, one
/// after the other from the start of the ring.
pub fn clear_history_persistent(storage: &StorageState, flash_ready: bool) -> (r: Result<
    Vec<u32>,
    StorageError,
>)
    requires
        storage.history.wf(),
    ensures
        match r {
            Ok(sectors) => {
                &&& history_clear_error(storage.history, flash_ready) is None
                &&& sectors@.len() == sector_count(storage.history)
                &&& forall|i: int|
                    0 <= i < sectors@.len() ==> #[trigger] sectors@[i] == storage.history.base + i
                        * HISTORY_SECTOR_SIZE
            },
            Err(e) => history_clear_error(storage.history, flash_ready) == Some(e),
        },
{
    if storage.history.capacity == 0 {
        return Err(StorageError::MissingPartition);
    }
    if !flash_ready {
        return Err(StorageError::NotInitialized);
    }
    let start: u32 = storage.history.base;
    let end: u32 = start + storage.history.capacity * HISTORY_RECORD_SIZE;
    let mut sectors: Vec<u32> = Vec::new();
    let mut sector: u32 = start;
    while sector < end
        invariant
            storage.history.wf(),
            storage.history.capacity > 0,
            start == storage.history.base,
            end == start + storage.history.capacity * HISTORY_RECORD_SIZE,
            end + HISTORY_SECTOR_SIZE <= u32::MAX,
            sector == start + sectors@.len() * HISTORY_SECTOR_SIZE,
            sector < end + HISTORY_SECTOR_SIZE,
            forall|i: int|
                0 <= i < sectors@.len() ==> #[trigger] sectors@[i] == start + i
                    * HISTORY_SECTOR_SIZE,
        decreases end + HISTORY_SECTOR_SIZE - sector,
    {
        sectors.push(sector);
        sector = sector + HISTORY_SECTOR_SIZE;
    }
    Ok(sectors)
}

/// Every slot of the ring lies in one of the sectors that clearing erases.
pub proof fn clearing_covers_the_ring(ring: HistoryRing, index: int)
    requires
        ring.wf(),
        0 <= index < ring.capacity,
    ensures
        0 <= (ring.offset_of(index) - ring.base) / HISTORY_SECTOR_SIZE as int,
        sector_count(ring) > (ring.offset_of(index) + HISTORY_RECORD_SIZE - 1 - ring.base)
            / HISTORY_SECTOR_SIZE as int,
{
}

/// Takes over that the history was erased.
pub fn history_cleared(storage: &mut StorageState)
    requires
        old(storage).history.wf(),
    ensures
        *final(storage) == (StorageState {
            history: HistoryRing {
                write_index: 0,
                next_seq: 0,
                count: 0,
                last_persist_uptime_s: 0,
                ..old(storage).history
            },
            ..*old(storage)
        }),
        final(storage).history.wf(),
{
    storage.history.write_index = 0;
    storage.history.next_seq = 0;
    storage.history.count = 0;
    storage.history.last_persist_uptime_s = 0;
}

/// The seconds between two history records.
pub fn history_sample_interval_secs() -> (r: u32)
    ensures
        r == HISTORY_SAMPLE_INTERVAL_SECS,
{
    HISTORY_SAMPLE_INTERVAL_SECS
}

/// The number of history records held.
pub fn history_total_samples(storage: &StorageState) -> (r: u32)
    ensures
        r == storage.history.count,
{
    storage.history.count
}

// ── Reading the history ──────────────────────────────────────────────────────

/// The slots of the ring from the oldest to the newest.
pub open spec fn in_order(slots: Seq<Option<[u8; 16]>>, start: int) -> Seq<Option<[u8; 16]>> {
    slots.skip(start) + slots.take(start)
}

/// The records among slots, in order.
pub open spec fn records_in(slots: Seq<Option<[u8; 16]>>) -> Seq<Seq<u8>>
    decreases slots.len(),
{
    if slots.len() == 0 {
        Seq::empty()
    } else {
        let before = records_in(slots.drop_last());
        if holds_record(slots.last()) {
            before.push(slots.last()->0@)
        } else {
            before
        }
    }
}

/// The last items of a sequence, `n` at most.
pub open spec fn last_of<T>(s: Seq<T>, n: int) -> Seq<T> {
    if s.len() > n {
        s.skip(s.len() - n)
    } else {
        s
    }
}

/// The newest records of the ring, from old to new, `max_points` at most.
pub open spec fn newest_records(
    ring: HistoryRing,
    slots: Seq<Option<[u8; 16]>>,
    max_points: int,
) -> Seq<Seq<u8>> {
    if ring.capacity == 0 || max_points <= 0 {
        Seq::empty()
    } else {
        last_of(records_in(in_order(slots, ring.write_index as int)), max_points)
    }
}

/// Whether points are those that records hold, one for one.
pub open spec fn samples_of(samples: Seq<HistorySample>, records: Seq<Seq<u8>>) -> bool {
    &&& samples.len() == records.len()
    &&& forall|i: int| 0 <= i < samples.len() ==> sample_in(#[trigger] samples[i], records[i])
}

/// Collects the points of a pass over the slots, leaving out the oldest.
pub struct HistoryCollector {
    pub skip: usize,
    pub seen: usize,
    pub points: Vec<HistorySample>,
}

impl HistoryCollector {
    /// Whether this is what a pass over these slots collects.
    pub open spec fn of(self, slots: Seq<Option<[u8; 16]>>) -> bool {
        &&& self.seen == records_in(slots).len()
        &&& self.seen <= slots.len()
        &&& samples_of(
            self.points@,
            if self.seen > self.skip {
                records_in(slots).skip(self.skip as int)
            } else {
                Seq::empty()
            },
        )
    }

    /// Before the first slot.
    pub fn new(skip: usize) -> (c: Self)
        ensures
            c.of(Seq::empty()),
            c.skip == skip,
    {
        HistoryCollector { skip, seen: 0, points: Vec::new() }
    }

    /// Takes in what was read at the next slot.
    pub fn next_slot(&mut self, slot: Option<[u8; 16]>)
        requires
            old(self).seen < usize::MAX,
        ensures
            forall|slots: Seq<Option<[u8; 16]>>| #[trigger]
                old(self).of(slots) ==> final(self).of(slots.push(slot)),
            final(self).skip == old(self).skip,
    {
        let ghost points = self.points@;
        if let Some(raw) = slot {
            if history_record_valid(&raw) {
                if self.seen >= self.skip {
                    self.points.push(decode_history_record(&raw));
                }
                self.seen = self.seen + 1;
            }
        }
        assert forall|slots: Seq<Option<[u8; 16]>>| #[trigger]
            old(self).of(slots) implies self.of(slots.push(slot)) by {
            assert(slots.push(slot).drop_last() == slots);
            let before = records_in(slots);
            let after = records_in(slots.push(slot));
            if holds_record(slot) && before.len() >= self.skip {
                assert(after.skip(self.skip as int) =~= before.skip(self.skip as int).push(
                    slot->0@,
                ));
                if before.len() == self.skip {
                    assert(before.skip(self.skip as int) =~= Seq::<Seq<u8>>::empty());
                }
            }
        }
    }
}

proof fn records_in_count(slots: Seq<Option<[u8; 16]>>)
    ensures
        records_in(slots).len() == record_count(slots),
        record_count(slots) <= slots.len(),
    decreases slots.len(),
{
    if slots.len() > 0 {
        records_in_count(slots.drop_last());
    }
}

/// The slot that a step of a pass from the oldest slot comes to.
pub fn history_slot(ring: &HistoryRing, step: u32) -> (r: u32)
    requires
        ring.wf(),
        step < ring.capacity,
    ensures
        r < ring.capacity,
        r == (ring.write_index + step) % ring.capacity as int,
        forall|slots: Seq<Option<[u8; 16]>>|
            slots.len() == ring.capacity ==> #[trigger] in_order(
                slots,
                ring.write_index as int,
            )[step as int] == slots[r as int],
{
    if step < ring.capacity - ring.write_index {
        assert((ring.write_index + step) % ring.capacity as int == ring.write_index + step)
            by (nonlinear_arith)
            requires
                0 <= ring.write_index + step < ring.capacity,
        ;
        ring.write_index + step
    } else {
        assert((ring.write_index + step) % ring.capacity as int == ring.write_index + step
            - ring.capacity) by (nonlinear_arith)
            requires
                ring.capacity <= ring.write_index + step < 2 * ring.capacity,
        ;
        step - (ring.capacity - ring.write_index)
    }
}

/// The newest points of the history, from old to new, `max_points` at most.
/// `records` is what was read at each slot, nothing where the read failed.
pub fn history_snapshot(
    storage: &StorageState,
    records: &[Option<[u8; 16]>],
    max_points: usize,
) -> (points: Vec<HistorySample>)
    requires
        storage.history.wf(),
        records@.len() == storage.history.capacity,
    ensures
        samples_of(points@, newest_records(storage.history, records@, max_points as int)),
        points@.len() <= max_points,
{
    let ring: HistoryRing = storage.history;
    if ring.capacity == 0 || max_points == 0 {
        return Vec::new();
    }
    let ghost slots = in_order(records@, ring.write_index as int);
    let mut valid_count: usize = 0;
    let mut step: u32 = 0;
    assert(slots.take(0) == Seq::<Option<[u8; 16]>>::empty());
    while step < ring.capacity
        invariant
            step <= ring.capacity,
            ring.wf(),
            records@.len() == ring.capacity,
            slots == in_order(records@, ring.write_index as int),
            slots.len() == ring.capacity,
            valid_count == record_count(slots.take(step as int)),
            valid_count <= step,
        decreases ring.capacity - step,
    {
        assert(slots.take(step + 1).drop_last() == slots.take(step as int));
        let index: u32 = history_slot(&ring, step);
        if let Some(raw) = records[index as usize] {
            if history_record_valid(&raw) {
                valid_count = valid_count + 1;
            }
        }
        step = step + 1;
    }
    assert(slots.take(step as int) == slots);
    proof {
        records_in_count(slots);
    }
    let keep: usize = if max_points < valid_count {
        max_points
    } else {
        valid_count
    };
    let mut collector: HistoryCollector = HistoryCollector::new(valid_count - keep);
    step = 0;
    while step < ring.capacity
        invariant
            step <= ring.capacity,
            ring.wf(),
            records@.len() == ring.capacity,
            slots == in_order(records@, ring.write_index as int),
            slots.len() == ring.capacity,
            collector.of(slots.take(step as int)),
            collector.skip == valid_count - keep,
        decreases ring.capacity - step,
    {
        assert(slots.take(step + 1) == slots.take(step as int).push(slots[step as int]));
        let index: u32 = history_slot(&ring, step);
        let n: usize = records.len();
        collector.next_slot(records[index as usize]);
        step = step + 1;
    }
    assert(slots.take(step as int) == slots);
    proof {
        if valid_count == keep {
            assert(records_in(slots).skip(0) =~= records_in(slots));
        }
        if records_in(slots).len() == 0 {
            assert(records_in(slots) =~= Seq::<Seq<u8>>::empty());
        }
    }
    collector.points
}

proof fn records_in_push(slots: Seq<Option<[u8; 16]>>, slot: Option<[u8; 16]>)
    ensures
        records_in(slots.push(slot)) == (if holds_record(slot) {
            records_in(slots).push(slot->0@)
        } else {
            records_in(slots)
        }),
{
    assert(slots.push(slot).drop_last() == slots);
}

/// A record that was written is the newest point from then on: whatever the
/// other slots hold, a pass over the ring ends with it.
pub proof fn written_record_is_newest(
    ring: HistoryRing,
    erased: bool,
    slots: Seq<Option<[u8; 16]>>,
    raw: [u8; 16],
    max_points: int,
)
    requires
        ring.wf(),
        ring.capacity > 0,
        slots.len() == ring.capacity,
        slots[ring.write_index as int] == Some(raw),
        holds_record(Some(raw)),
        max_points > 0,
    ensures
        ({
            let points = newest_records(ring_after_write(ring, erased), slots, max_points);
            points.len() > 0 && points.last() == raw@
        }),
{
    let next = ring_after_write(ring, erased).write_index as int;
    let ordered = in_order(slots, next);
    let w = ring.write_index as int;
    assert(next == if w + 1 < ring.capacity {
        w + 1
    } else {
        0
    }) by {
        if w + 1 < ring.capacity {
            assert((w + 1) % (ring.capacity as int) == w + 1) by (nonlinear_arith)
                requires
                    0 <= w + 1 < ring.capacity,
            ;
        } else {
            assert((w + 1) % (ring.capacity as int) == 0) by (nonlinear_arith)
                requires
                    w + 1 == ring.capacity,
                    ring.capacity > 0,
            ;
        }
    }
    assert(ordered.last() == Some(raw));
    assert(ordered == ordered.drop_last().push(Some(raw)));
    records_in_push(ordered.drop_last(), Some(raw));
}

/// A reboot goes on where the ring left off: as long as a written record has
/// the greatest sequence number, the ring found at boot has the same next slot
/// and the same next sequence number as the ring before the reboot.
pub proof fn reboot_goes_on(
    ring: HistoryRing,
    erased: bool,
    partition_offset: u32,
    partition_len: u32,
    slots: Seq<Option<[u8; 16]>>,
    raw: [u8; 16],
    last_persist_uptime_s: u32,
)
    requires
        ring.wf(),
        ring.capacity > 0,
        ring.capacity == slots_in(partition_len),
        ring.base == partition_offset + HISTORY_DATA_OFFSET,
        slots.len() == ring.capacity,
        slots[ring.write_index as int] == Some(raw),
        holds_record(Some(raw)),
        get_u32_le(raw@, 0) == ring.next_seq,
        forall|k: int|
            0 <= k < slots.len() && k != ring.write_index && holds_record(#[trigger] slots[k])
                ==> record_seq(slots[k]) < ring.next_seq,
    ensures
        ({
            let booted = ring_at_boot(
                partition_offset,
                partition_len,
                slots,
                last_persist_uptime_s,
            );
            let written = ring_after_write(ring, erased);
            &&& booted.base == written.base && booted.capacity == written.capacity
            &&& booted.write_index == written.write_index
            &&& booted.next_seq == written.next_seq
        }),
{
    newest_is_greatest(slots);
    assert(holds_record(slots[ring.write_index as int]));
    assert(newest_slot(slots) == Some(ring.write_index as int));
}

/// A point that is read from the record of a control cycle tells of that
/// cycle: the temperature in hundredths, the duty cycle in whole percent, the
/// place in the window, and the extra probes in their order.
pub proof fn a_record_tells_of_its_cycle(
    seq: u32,
    sample: RuntimeSample,
    target_centi: i32,
    extra: Seq<i32>,
    point: HistorySample,
    i: int,
)
    requires
        sample_in(point, record_of(seq, sample, target_centi, extra)),
        i16::MIN <= target_centi <= i16::MAX,
        -5000 <= sample.temp_raw <= 5000,
        sample.pid_deci <= 1000,
        sample.pid_window_step <= 15,
        sample.pid_on_steps <= 15,
        0 <= i < 3,
    ensures
        point.seq == seq,
        sample.temp_raw >= 0 ==> 16 * point.temp_centi <= 100 * sample.temp_raw < 16
            * point.temp_centi + 16,
        sample.temp_raw <= 0 ==> 16 * point.temp_centi - 16 < 100 * sample.temp_raw <= 16
            * point.temp_centi,
        point.target_centi == target_centi,
        10 * point.output_percent <= sample.pid_deci < 10 * point.output_percent + 10,
        point.window_step == sample.pid_window_step,
        point.on_steps == sample.pid_on_steps,
        point.relay_on <==> sample.pid_window_step < sample.pid_on_steps,
        i >= extra.len() || extra[i] == i32::MAX ==> point.extra_temps@[i] is None,
        i < extra.len() && i16::MIN <= extra[i] < i16::MAX ==> point.extra_temps@[i] is Some
            && point.extra_temps@[i]->0 == extra[i],
{
    let temp = clamped(centi_of_raw(sample.temp_raw as int), i16::MIN as int, i16::MAX as int) as i16;
    history_record_read_back(
        seq,
        temp,
        extra,
        target_centi,
        clamped(sample.pid_deci as int / 10, 0, 100) as u8,
        clamped(sample.pid_window_step as int, 0, 15) as nat,
        clamped(sample.pid_on_steps as int, 0, 15) as nat,
        point,
    );
    super::status::hundredths_are_the_same_temperature(sample.temp_raw as int);
    super::status::hundredths_are_the_same_temperature(-sample.temp_raw as int);
    assert(point.extra_temps@[i] == point.extra_temps@[i]);
}

/// Records are taken a minute apart, the first one at once, and none without a
/// place to keep them.
pub proof fn records_come_a_minute_apart(ring: HistoryRing, now_uptime_s: u32)
    ensures
        ring.capacity == 0 ==> !history_due(ring, now_uptime_s),
        ring.capacity > 0 && ring.last_persist_uptime_s == 0 ==> history_due(ring, now_uptime_s),
        ring.capacity > 0 && ring.last_persist_uptime_s > 0 ==> (history_due(ring, now_uptime_s)
            <==> now_uptime_s >= ring.last_persist_uptime_s + 60),
{
}

/// A target is accepted from 0 to 150 degrees, and one that is restored was.
pub proof fn targets_are_in_range(centi: int, raw: Seq<u8>)
    requires
        raw.len() == 9,
    ensures
        valid_target(centi) <==> 0 <= centi && centi <= 150 * 100,
        target_in(raw) matches Some(target) ==> 0 <= target <= 15_000 && raw[0] == 0x42 && raw[1]
            == 0x52 && raw[2] == 0x57 && raw[3] == 0x54 && raw[4] == 1 && target == raw[5] + 256
            * raw[6] + 65536 * raw[7] + 16777216 * raw[8],
{
    if target_in(raw) is Some {
        assert(raw.take(4)[0] == raw[0] && raw.take(4)[1] == raw[1] && raw.take(4)[2] == raw[2]
            && raw.take(4)[3] == raw[3]);
    }
}

/// A target cannot be stored without a partition, in one that is too small, or
/// while the flash is not there, in this order.
pub proof fn a_target_is_stored_where_there_is_room(store_len: u32, flash_ready: bool)
    ensures
        target_store_error(store_len, flash_ready) is None <==> store_len >= 9 && flash_ready,
        store_len == 0 ==> target_store_error(store_len, flash_ready) == Some(
            StorageError::MissingPartition,
        ),
        0 < store_len < 9 ==> target_store_error(store_len, flash_ready) == Some(
            StorageError::PartitionTooSmall,
        ),
        store_len >= 9 && !flash_ready ==> target_store_error(store_len, flash_ready) == Some(
            StorageError::NotInitialized,
        ),
{
}

/// The configuration is kept in the first partition with its label.
pub proof fn the_partition_is_found_by_its_label(entries: Seq<PartitionEntry>, from: int)
    requires
        0 <= from <= entries.len(),
    ensures
        from <= config_partition(entries, from) <= entries.len(),
        config_partition(entries, from) < entries.len() ==> entries[config_partition(
            entries,
            from,
        )].label@ == "cfg"@,
        forall|k: int|
            from <= k < config_partition(entries, from) ==> (#[trigger] entries[k]).label@ != "cfg"@,
    decreases entries.len() - from,
{
    if from < entries.len() && entries[from].label@ != "cfg"@ {
        the_partition_is_found_by_its_label(entries, from + 1);
    }
}

/// Slots of 16 bytes fill a partition from its second sector of 4096 bytes on,
/// where there is room for more than one.
pub proof fn slots_fill_the_partition(partition_len: u32)
    ensures
        partition_len <= 4096 + 16 ==> slots_in(partition_len) == 0,
        partition_len > 4096 + 16 ==> 4096 + 16 * slots_in(partition_len) <= partition_len < 4096
            + 16 * (slots_in(partition_len) + 1),
{
}

/// The ring goes on to the next slot and from the last one to the first, with
/// the next number, and holds a record more until it is full. A sector that was
/// erased takes its 256 records with it.
pub proof fn the_ring_goes_round(ring: HistoryRing, erased: bool)
    requires
        ring.wf(),
        ring.capacity > 0,
    ensures
        ({
            let next = ring_after_write(ring, erased);
            &&& ring.write_index + 1 < ring.capacity ==> next.write_index == ring.write_index + 1
            &&& ring.write_index + 1 == ring.capacity ==> next.write_index == 0
            &&& ring.next_seq < u32::MAX ==> next.next_seq == ring.next_seq + 1
            &&& !erased && ring.count < ring.capacity ==> next.count == ring.count + 1
            &&& !erased && ring.count == ring.capacity ==> next.count == ring.count
            &&& erased && ring.count >= 256 ==> next.count == ring.count - 255
            &&& erased && ring.count < 256 ==> next.count == 1
            &&& next.base == ring.base && next.capacity == ring.capacity
        }),
{
    let w = ring.write_index as int;
    let n = ring.capacity as int;
    if w + 1 < n {
        assert((w + 1) % n == w + 1) by (nonlinear_arith)
            requires
                0 <= w + 1 < n,
        ;
    } else {
        assert((w + 1) % n == 0) by (nonlinear_arith)
            requires
                w + 1 == n,
                n > 0,
        ;
    }
}

/// A ring full of records is read from the slot that would be written next,
/// which is the oldest, round to the one before it, and a reader who asks for
/// fewer points gets the newest of them.
pub proof fn a_full_ring_is_read_from_old_to_new(
    ring: HistoryRing,
    slots: Seq<Option<[u8; 16]>>,
    max_points: int,
    i: int,
)
    requires
        ring.wf(),
        ring.capacity > 0,
        slots.len() == ring.capacity,
        forall|k: int| 0 <= k < slots.len() ==> holds_record(#[trigger] slots[k]),
        0 < max_points <= slots.len(),
        0 <= i < max_points,
    ensures
        newest_records(ring, slots, max_points).len() == max_points,
        ({
            let at = ring.write_index + slots.len() - max_points + i;
            newest_records(ring, slots, max_points)[i] == (if at < slots.len() {
                slots[at]->0@
            } else {
                slots[at - slots.len()]->0@
            })
        }),
{
    let ordered = in_order(slots, ring.write_index as int);
    assert forall|k: int| 0 <= k < ordered.len() implies holds_record(#[trigger] ordered[k]) by {
        let w = ring.write_index as int;
        if k < slots.len() - w {
            assert(ordered[k] == slots[w + k]);
        } else {
            assert(ordered[k] == slots[k - (slots.len() - w)]);
        }
    }
    all_records_are_read(ordered);
}

proof fn all_records_are_read(slots: Seq<Option<[u8; 16]>>)
    requires
        forall|k: int| 0 <= k < slots.len() ==> holds_record(#[trigger] slots[k]),
    ensures
        records_in(slots).len() == slots.len(),
        forall|k: int| 0 <= k < slots.len() ==> #[trigger] records_in(slots)[k] == slots[k]->0@,
    decreases slots.len(),
{
    if slots.len() > 0 {
        let before = slots.drop_last();
        assert forall|k: int| 0 <= k < before.len() implies holds_record(#[trigger] before[k]) by {
            assert(before[k] == slots[k]);
        }
        all_records_are_read(before);
        assert(slots[slots.len() - 1] == slots.last());
        assert(holds_record(slots[slots.len() - 1]));
        assert forall|k: int| 0 <= k < slots.len() implies #[trigger] records_in(slots)[k]
            == slots[k]->0@ by {
            if k < before.len() {
                assert(records_in(before)[k] == before[k]->0@);
            }
        }
    }
}

/// Slots without a record are passed over.
pub proof fn empty_slots_are_passed_over(
    slots: Seq<Option<[u8; 16]>>,
    more: Seq<Option<[u8; 16]>>,
)
    ensures
        records_in(slots + more) == records_in(slots) + records_in(more),
        slots.len() == 1 && (slots[0] is None || get_u32_le(slots[0]->0@, 0) == 0xffff_ffff)
            ==> records_in(slots).len() == 0,
    decreases more.len(),
{
    reveal_with_fuel(records_in, 2);
    if more.len() == 0 {
        assert(slots + more == slots);
    } else {
        empty_slots_are_passed_over(slots, more.drop_last());
        assert((slots + more).drop_last() == slots + more.drop_last());
        assert((slots + more).last() == more.last());
    }
}

/// A probe name is accepted where it is not empty, takes no more than 32 bytes
/// and is made of letters, digits, blanks, dashes, underlines and dots.
pub proof fn names_are_accepted_by_their_letters(name: Seq<char>)
    ensures
        probe_name_error(name) is None <==> {
            let t = trim(name);
            &&& t.len() > 0
            &&& encode_utf8(t).len() <= 32
            &&& forall|i: int|
                0 <= i < t.len() ==> {
                    let c = #[trigger] t[i];
                    ('a' <= c && c <= 'z') || ('A' <= c && c <= 'Z') || ('0' <= c && c <= '9') || c
                        == ' ' || c == '-' || c == '_' || c == '.'
                }
        },
        trim(name).len() == 0 <==> probe_name_error(name) == Some(ProbeNameError::Empty),
        trim(name).len() > 0 && encode_utf8(trim(name)).len() > 32 <==> probe_name_error(name)
            == Some(ProbeNameError::TooLong),
{
}

/// A target that was written to a partition with room for it is the one at the
/// next boot; without room, or where nothing could be read, there is none.
pub proof fn a_stored_target_survives_a_boot(store_len: u32, raw: [u8; 9], centi: i32)
    requires
        raw@ == target_record(centi),
    ensures
        valid_target(centi as int) && store_len >= 9 ==> booted_target(store_len, Some(raw)) == Some(
            centi,
        ),
        store_len < 9 ==> booted_target(store_len, Some(raw)) is None,
        booted_target(store_len, None) is None,
{
    if valid_target(centi as int) {
        target_record_read_back(centi);
    }
}

/// The history can be cleared where there is a ring and the flash is ready, and
/// nowhere else.
pub proof fn the_history_is_cleared_where_there_is_one(ring: HistoryRing, flash_ready: bool)
    ensures
        history_clear_error(ring, flash_ready) is None <==> ring.capacity > 0 && flash_ready,
        ring.capacity == 0 ==> history_clear_error(ring, flash_ready) == Some(
            StorageError::MissingPartition,
        ),
        ring.capacity > 0 && !flash_ready ==> history_clear_error(ring, flash_ready) == Some(
            StorageError::NotInitialized,
        ),
{
}

/// Of more records than are wanted the last ones are kept, in order, and of no
/// more than are wanted all.
pub proof fn the_last_ones_are_kept<T>(s: Seq<T>, n: int, i: int)
    requires
        n >= 0,
    ensures
        s.len() <= n ==> last_of(s, n) == s,
        s.len() > n ==> last_of(s, n).len() == n,
        0 <= i < last_of(s, n).len() ==> last_of(s, n)[last_of(s, n).len() - 1 - i] == s[s.len() - 1
            - i],
{
}

/// A probe has the name that was set, and `probe-1` before one was.
pub proof fn a_probe_has_the_name_that_was_set(name: Seq<char>)
    ensures
        name.len() > 0 ==> probe_name_of(name) == name,
        probe_name_of(Seq::empty()) == "probe-1"@,
{
}

/// The points that are served are as many as the records, each with the number
/// and the temperature of its own record.
pub proof fn points_are_those_of_the_records(
    samples: Seq<HistorySample>,
    records: Seq<Seq<u8>>,
    i: int,
)
    requires
        samples_of(samples, records),
    ensures
        samples.len() == records.len(),
        0 <= i < samples.len() ==> samples[i].seq == get_u32_le(records[i], 0)
            && samples[i].temp_centi == bits_i16(get_u16_le(records[i], 4)),
        samples_of(Seq::empty(), Seq::empty()),
{
    if 0 <= i < samples.len() {
        assert(sample_in(samples[i], records[i]));
    }
}

} // verus!
