//! DS18B20 temperature probes on a 1-Wire bus.
//!
//! What is sent over the bus and what its replies mean. Driving the pin, slot
//! by slot, is left to the caller.

use vstd::prelude::*;
use vstd::utf8::{encode_utf8, is_ascii_chars, is_ascii_chars_encode_utf8};
use super::bounded::{string16, string16_new, string16_push};
use super::error::SensorError;
use super::shared::{crc8, crc8_maxim};
use crate::bytes::{bits_i16, get_u16_le, i16_from_bits, read_u16_le};

verus! {

pub const ONEWIRE_SKIP_ROM: u8 = 0xCC;

pub const ONEWIRE_MATCH_ROM: u8 = 0x55;

pub const ONEWIRE_SEARCH_ROM: u8 = 0xF0;

pub const ONEWIRE_READ_SCRATCHPAD: u8 = 0xBE;

pub const ONEWIRE_WRITE_SCRATCHPAD: u8 = 0x4E;

pub const ONEWIRE_CONVERT_TEMP: u8 = 0x44;

pub const DS18B20_READ_ATTEMPTS: usize = 3;

// ── Bits ─────────────────────────────────────────────────────────────────────

/// Bit `i` of a byte, the least significant first.
pub open spec fn bit(value: u8, i: u8) -> bool {
    (value >> i) & 1 == 1
}

/// The bits of a byte in the order in which they go over the bus.
pub open spec fn bits(value: u8) -> Seq<bool> {
    Seq::new(8, |i: int| bit(value, i as u8))
}

/// The weight of a bit.
pub open spec fn weighed(b: bool, weight: nat) -> nat {
    if b {
        weight
    } else {
        0
    }
}

/// The byte that eight bits make.
pub open spec fn byte_of(s: Seq<bool>) -> nat {
    weighed(s[0], 1) + weighed(s[1], 2) + weighed(s[2], 4) + weighed(s[3], 8) + weighed(s[4], 16)
        + weighed(s[5], 32) + weighed(s[6], 64) + weighed(s[7], 128)
}

/// The bits of a byte in the order in which they go over the bus.
pub fn byte_bits(value: u8) -> (r: [bool; 8])
    ensures
        r@ == bits(value),
{
    let r: [bool; 8] = [
        (value >> 0) & 1 == 1,
        (value >> 1) & 1 == 1,
        (value >> 2) & 1 == 1,
        (value >> 3) & 1 == 1,
        (value >> 4) & 1 == 1,
        (value >> 5) & 1 == 1,
        (value >> 6) & 1 == 1,
        (value >> 7) & 1 == 1,
    ];
    assert(r@ == bits(value));
    r
}

fn weigh(b: bool, weight: u8) -> (r: u8)
    ensures
        r == weighed(b, weight as nat),
{
    if b {
        weight
    } else {
        0
    }
}

/// The byte that eight bits from the bus make.
pub fn byte_from_bits(s: &[bool; 8]) -> (r: u8)
    ensures
        r == byte_of(s@),
{
    weigh(s[0], 1) + weigh(s[1], 2) + weigh(s[2], 4) + weigh(s[3], 8) + weigh(s[4], 16) + weigh(
        s[5],
        32,
    ) + weigh(s[6], 64) + weigh(s[7], 128)
}

/// A byte that went over the bus bit by bit is the same byte again.
pub proof fn bits_read_back(value: u8)
    ensures
        byte_of(bits(value)) == value,
{
    let b0 = (value >> 0u8) & 1;
    let b1 = (value >> 1u8) & 1;
    let b2 = (value >> 2u8) & 1;
    let b3 = (value >> 3u8) & 1;
    let b4 = (value >> 4u8) & 1;
    let b5 = (value >> 5u8) & 1;
    let b6 = (value >> 6u8) & 1;
    let b7 = (value >> 7u8) & 1;
    assert(value == b0 + 2 * b1 + 4 * b2 + 8 * b3 + 16 * b4 + 32 * b5 + 64 * b6 + 128 * b7 && b0 <= 1
        && b1 <= 1 && b2 <= 1 && b3 <= 1 && b4 <= 1 && b5 <= 1 && b6 <= 1 && b7 <= 1) by (bit_vector)
        requires
            b0 == (value >> 0u8) & 1,
            b1 == (value >> 1u8) & 1,
            b2 == (value >> 2u8) & 1,
            b3 == (value >> 3u8) & 1,
            b4 == (value >> 4u8) & 1,
            b5 == (value >> 5u8) & 1,
            b6 == (value >> 6u8) & 1,
            b7 == (value >> 7u8) & 1,
    ;
}

/// How a bit is written: how long the line is low, then high, in microseconds.
#[derive(Clone, Copy, Debug, PartialEq, Eq, Structural)]
pub struct WriteSlot {
    pub low_us: u32,
    pub high_us: u32,
}

/// The slot that writes a bit.
pub fn write_slot(b: bool) -> (r: WriteSlot)
    ensures
        r == (if b {
            WriteSlot { low_us: 6, high_us: 64 }
        } else {
            WriteSlot { low_us: 60, high_us: 10 }
        }),
{
    if b {
        WriteSlot { low_us: 6, high_us: 64 }
    } else {
        WriteSlot { low_us: 60, high_us: 10 }
    }
}

// ── Commands ─────────────────────────────────────────────────────────────────

/// The bytes that address one device, or every device, with a command.
pub open spec fn command_bytes(rom: Option<[u8; 8]>, command: u8) -> Seq<u8> {
    match rom {
        Some(r) => seq![ONEWIRE_MATCH_ROM] + r@ + seq![command],
        None => seq![ONEWIRE_SKIP_ROM, command],
    }
}

/// The bytes that address one device, or every device, with a command.
pub fn ds18b20_command(rom: Option<[u8; 8]>, command: u8) -> (r: Vec<u8>)
    ensures
        r@ == command_bytes(rom, command),
{
    let mut out: Vec<u8> = Vec::new();
    match rom {
        Some(id) => {
            out.push(ONEWIRE_MATCH_ROM);
            let mut i: usize = 0;
            while i < 8
                invariant
                    i <= 8,
                    out@ == seq![ONEWIRE_MATCH_ROM] + id@.take(i as int),
                decreases 8 - i,
            {
                out.push(id[i]);
                assert(id@.take(i + 1) == id@.take(i as int).push(id@[i as int]));
                i = i + 1;
            }
            assert(id@.take(8) == id@);
        },
        None => {
            out.push(ONEWIRE_SKIP_ROM);
        },
    }
    out.push(command);
    assert(out@ == command_bytes(rom, command));
    out
}

/// The bytes that start a conversion on every device.
pub fn ds18b20_start_conversion() -> (r: Vec<u8>)
    ensures
        r@ == command_bytes(None, ONEWIRE_CONVERT_TEMP),
{
    ds18b20_command(None, ONEWIRE_CONVERT_TEMP)
}

/// The configuration register for a resolution: bits 5 and 6 hold how many
/// bits it has over nine. A resolution out of range counts as the nearest in it.
pub open spec fn resolution_register(resolution_bits: u8) -> int {
    let bits = if resolution_bits < 9 {
        9
    } else if resolution_bits > 12 {
        12
    } else {
        resolution_bits as int
    };
    0x1F + 32 * (bits - 9)
}

/// The bytes that set the resolution of every device: both alarm registers
/// are zero.
pub fn ds18b20_configure_resolution(resolution_bits: u8) -> (r: [u8; 5])
    ensures
        r@ == seq![
            ONEWIRE_SKIP_ROM,
            ONEWIRE_WRITE_SCRATCHPAD,
            0u8,
            0u8,
            resolution_register(resolution_bits) as u8,
        ],
{
    let clamped: u8 = if resolution_bits < 9 {
        9
    } else if resolution_bits > 12 {
        12
    } else {
        resolution_bits
    };
    let steps: u8 = clamped - 9;
    let config_byte: u8 = 0x1F + 32 * steps;
    let r: [u8; 5] = [ONEWIRE_SKIP_ROM, ONEWIRE_WRITE_SCRATCHPAD, 0, 0, config_byte];
    assert(r@ == seq![
        ONEWIRE_SKIP_ROM,
        ONEWIRE_WRITE_SCRATCHPAD,
        0u8,
        0u8,
        resolution_register(resolution_bits) as u8,
    ]);
    r
}

// ── Readings ─────────────────────────────────────────────────────────────────

/// The temperature in a scratchpad, in sixteenths of a degree, where its
/// checksum is right.
pub open spec fn scratchpad_raw(scratchpad: Seq<u8>) -> Option<i16> {
    if crc8(scratchpad.take(8)) == scratchpad[8] {
        Some(bits_i16(get_u16_le(scratchpad, 0)))
    } else {
        None
    }
}

/// Reads the temperature in a scratchpad.
pub fn decode_scratchpad(scratchpad: &[u8; 9]) -> (r: Option<i16>)
    ensures
        r == scratchpad_raw(scratchpad@),
{
    let all: &[u8] = scratchpad;
    let head: &[u8] = vstd::slice::slice_subrange(all, 0, 8);
    assert(head@ == scratchpad@.take(8));
    if crc8_maxim(head) != scratchpad[8] {
        return None;
    }
    Some(i16_from_bits(read_u16_le(all, 0)))
}

/// What to do after an attempt to read a temperature.
#[derive(Clone, Copy, Debug, PartialEq, Eq, Structural)]
pub enum ReadStep {
    /// The temperature in sixteenths of a degree.
    Done(i16),
    Retry,
    Failed(SensorError),
}

/// Decides what to do after attempt number `attempt`, counted from zero, read
/// a scratchpad: a wrong checksum is read again, three times in all.
pub fn after_read(attempt: usize, scratchpad: &[u8; 9]) -> (r: ReadStep)
    ensures
        r == (match scratchpad_raw(scratchpad@) {
            Some(raw) => ReadStep::Done(raw),
            None => if attempt + 1 < DS18B20_READ_ATTEMPTS {
                ReadStep::Retry
            } else {
                ReadStep::Failed(SensorError::CrcMismatch)
            },
        }),
        r is Done <==> crc8(scratchpad@.take(8)) == scratchpad@[8],
        r is Retry <==> crc8(scratchpad@.take(8)) != scratchpad@[8] && attempt < 2,
        r is Failed <==> crc8(scratchpad@.take(8)) != scratchpad@[8] && attempt >= 2,
{
    match decode_scratchpad(scratchpad) {
        Some(raw) => ReadStep::Done(raw),
        None => if attempt < DS18B20_READ_ATTEMPTS - 1 {
            ReadStep::Retry
        } else {
            ReadStep::Failed(SensorError::CrcMismatch)
        },
    }
}

// ── Serial numbers ───────────────────────────────────────────────────────────

/// Whether a byte only separates the digits of a serial number.
pub open spec fn is_separator(b: u8) -> bool {
    b == 58 || b == 45 || b == 32 || b == 9
}

/// The bytes of a serial number without separators.
pub open spec fn compact(bytes: Seq<u8>) -> Seq<u8>
    decreases bytes.len(),
{
    if bytes.len() == 0 {
        Seq::empty()
    } else if is_separator(bytes.last()) {
        compact(bytes.drop_last())
    } else {
        compact(bytes.drop_last()).push(bytes.last())
    }
}

/// The value of a hexadecimal digit in ASCII.
pub open spec fn hex_value(b: u8) -> Option<nat> {
    if 48 <= b <= 57 {
        Some((b - 48) as nat)
    } else if 97 <= b <= 102 {
        Some((b - 97 + 10) as nat)
    } else if 65 <= b <= 70 {
        Some((b - 65 + 10) as nat)
    } else {
        None
    }
}

/// Whether two digits stand for a byte.
pub open spec fn digit_pair(high: u8, low: u8, byte: u8) -> bool {
    &&& hex_value(high) is Some
    &&& hex_value(low) is Some
    &&& byte == 16 * hex_value(high)->0 + hex_value(low)->0
}

/// Whether sixteen bytes are the hexadecimal digits of a ROM code.
pub open spec fn digits_of(digits: Seq<u8>, rom: Seq<u8>) -> bool {
    &&& digits.len() == 16
    &&& rom.len() == 8
    &&& forall|i: int| 0 <= i < 8 ==> digit_pair(digits[2 * i], digits[2 * i + 1], #[trigger] rom[i])
}

fn hex_digit(b: u8) -> (r: Option<u8>)
    ensures
        match r {
            Some(v) => hex_value(b) == Some(v as nat) && v < 16,
            None => hex_value(b) is None,
        },
{
    if 48 <= b && b <= 57 {
        Some(b - 48)
    } else if 97 <= b && b <= 102 {
        Some(b - 97 + 10)
    } else if 65 <= b && b <= 70 {
        Some(b - 65 + 10)
    } else {
        None
    }
}

/// Reads a serial number: sixteen hexadecimal digits, with separators anywhere.
pub fn parse_ds18b20_serial(serial: &str) -> (r: Option<[u8; 8]>)
    ensures
        match r {
            Some(rom) => digits_of(compact(encode_utf8(serial@)), rom@),
            None => forall|rom: Seq<u8>| !#[trigger] digits_of(compact(encode_utf8(serial@)), rom),
        },
{
    let text: &[u8] = serial.as_bytes();
    let mut digits: Vec<u8> = Vec::new();
    let mut k: usize = 0;
    assert(text@.take(0) == Seq::<u8>::empty());
    while k < text.len()
        invariant
            k <= text@.len(),
            digits@ == compact(text@.take(k as int)),
        decreases text@.len() - k,
    {
        assert(text@.take(k + 1).drop_last() == text@.take(k as int));
        let b: u8 = text[k];
        if !(b == 58 || b == 45 || b == 32 || b == 9) {
            digits.push(b);
        }
        k = k + 1;
    }
    assert(text@.take(k as int) == text@);
    if digits.len() != 16 {
        return None;
    }
    let mut rom: [u8; 8] = [0;8];
    let mut i: usize = 0;
    while i < 8
        invariant
            i <= 8,
            digits@.len() == 16,
            digits@ == compact(encode_utf8(serial@)),
            forall|j: int|
                0 <= j < i ==> digit_pair(digits@[2 * j], digits@[2 * j + 1], #[trigger] rom@[j]),
        decreases 8 - i,
    {
        match (hex_digit(digits[2 * i]), hex_digit(digits[2 * i + 1])) {
            (Some(high), Some(low)) => {
                rom[i] = 16 * high + low;
            },
            _ => {
                assert forall|other: Seq<u8>| !#[trigger] digits_of(digits@, other) by {
                    if digits_of(digits@, other) {
                        assert(digit_pair(digits@[2 * i], digits@[2 * i + 1], other[i as int]));
                    }
                }
                return None;
            },
        }
        i = i + 1;
    }
    Some(rom)
}

/// A hexadecimal digit in lower case.
pub open spec fn hex_char(v: int) -> char {
    if v < 10 {
        (48 + v) as char
    } else {
        (87 + v) as char
    }
}

/// A ROM code in hexadecimal: two digits for each byte.
pub open spec fn serial_text(rom: Seq<u8>) -> Seq<char> {
    Seq::new(
        2 * rom.len(),
        |i: int|
            if i % 2 == 0 {
                hex_char(rom[i / 2] as int / 16)
            } else {
                hex_char(rom[i / 2] as int % 16)
            },
    )
}

proof fn serial_is_ascii(rom: Seq<u8>, n: int)
    requires
        0 <= n <= 2 * rom.len(),
    ensures
        is_ascii_chars(serial_text(rom).take(n)),
        encode_utf8(serial_text(rom).take(n)).len() == n,
{
    let s = serial_text(rom).take(n);
    assert forall|i: int| 0 <= i < s.len() implies '\0' <= #[trigger] s[i] <= '\u{7f}' by {
        assert(0 <= rom[i / 2] as int / 16 < 16);
    }
    is_ascii_chars_encode_utf8(s);
}

fn hex_digit_char(v: u8) -> (r: char)
    requires
        v < 16,
    ensures
        r == hex_char(v as int),
{
    if v < 10 {
        (48 + v) as char
    } else {
        (87 + v) as char
    }
}

/// Writes a ROM code as a serial number.
pub fn format_ds18b20_serial(rom: [u8; 8]) -> (r: heapless::String<16>)
    ensures
        string16(r) == serial_text(rom@),
{
    let ghost all = serial_text(rom@);
    let mut out = string16_new();
    assert(all.take(0) == Seq::<char>::empty());
    let mut i: usize = 0;
    while i < 8
        invariant
            i <= 8,
            all == serial_text(rom@),
            string16(out) == all.take(2 * i),
        decreases 8 - i,
    {
        let byte: u8 = rom[i];
        proof {
            serial_is_ascii(rom@, 2 * i + 1);
            serial_is_ascii(rom@, 2 * i + 2);
            assert(2 * i / 2 == i && (2 * i + 1) / 2 == i);
            assert(all[2 * i] == hex_char(byte as int / 16));
            assert(all[2 * i + 1] == hex_char(byte as int % 16));
            assert(all.take(2 * i + 1) == all.take(2 * i).push(all[2 * i]));
            assert(all.take(2 * i + 2) == all.take(2 * i + 1).push(all[2 * i + 1]));
        }
        let high: Result<(), ()> = string16_push(&mut out, hex_digit_char(byte / 16));
        let low: Result<(), ()> = string16_push(&mut out, hex_digit_char(byte % 16));
        i = i + 1;
    }
    assert(all.take(16) == all);
    out
}

/// A serial number that was written reads as the same ROM code, and as no other.
pub proof fn serial_read_back(rom: Seq<u8>, other: Seq<u8>)
    requires
        rom.len() == 8,
    ensures
        digits_of(compact(encode_utf8(serial_text(rom))), rom),
        digits_of(compact(encode_utf8(serial_text(rom))), other) ==> other == rom,
{
    let s = serial_text(rom);
    let b = encode_utf8(s);
    serial_is_ascii(rom, 16);
    assert(s.take(16) == s);
    is_ascii_chars_encode_utf8(s);
    assert forall|i: int| 0 <= i < 16 implies !is_separator(#[trigger] b[i]) && hex_value(b[i])
        == Some(
        (if i % 2 == 0 {
            rom[i / 2] as int / 16
        } else {
            rom[i / 2] as int % 16
        }) as nat,
    ) by {
        assert(b[i] == s[i] as u8);
        assert(0 <= rom[i / 2] as int / 16 < 16);
    }
    compact_without_separators(b);
    assert forall|i: int| 0 <= i < 8 implies digit_pair(b[2 * i], b[2 * i + 1], #[trigger] rom[i]) by {
        assert(2 * i / 2 == i && (2 * i + 1) / 2 == i);
    }
    if digits_of(b, other) {
        assert forall|i: int| 0 <= i < 8 implies other[i] == rom[i] by {
            assert(digit_pair(b[2 * i], b[2 * i + 1], rom[i]));
        }
        assert(other == rom);
    }
}

proof fn compact_without_separators(b: Seq<u8>)
    requires
        forall|i: int| 0 <= i < b.len() ==> !is_separator(#[trigger] b[i]),
    ensures
        compact(b) == b,
    decreases b.len(),
{
    if b.len() > 0 {
        compact_without_separators(b.drop_last());
        assert(b.drop_last().push(b.last()) == b);
    }
}

// ── Search ───────────────────────────────────────────────────────────────────

/// The 64 bits of a ROM code in the order in which they go over the bus.
pub open spec fn rom_bits(rom: Seq<u8>) -> Seq<bool> {
    Seq::new(64, |i: int| bit(rom[i / 8], (i % 8) as u8))
}

/// The bit that a search goes on with at position `n`, counted from one, where
/// the devices answered with `id` and its complement with `complement`. Where
/// both are zero, the devices differ: the search goes where the last pass went
/// before position `last`, the other way at it, and to zero after it. Where
/// both are one, no device answers.
pub open spec fn taken(rom: Seq<bool>, last: int, n: int, id: bool, complement: bool) -> Option<
    bool,
> {
    if id && complement {
        None
    } else if id != complement {
        Some(id)
    } else if n < last {
        Some(rom[n - 1])
    } else {
        Some(n == last)
    }
}

/// The last position so far where the devices differed and zero was taken.
pub open spec fn branch_after(branch: int, n: int, id: bool, complement: bool, b: bool) -> int {
    if !id && !complement && !b {
        n
    } else {
        branch
    }
}

/// A search for the ROM codes on the bus.
pub struct RomSearch {
    /// The code that the last pass found.
    pub rom: [u8; 8],
    pub last_discrepancy: u8,
    pub found: Vec<[u8; 8]>,
}

/// One pass of a search, which finds one code.
pub struct SearchPass {
    /// The position of the bit that comes next, counted from one.
    pub bit_number: u8,
    pub next_discrepancy: u8,
    pub next_rom: [u8; 8],
}

impl SearchPass {
    /// The bits that were not taken yet are zero.
    pub open spec fn wf(self) -> bool {
        &&& 1 <= self.bit_number <= 65
        &&& self.next_discrepancy < self.bit_number
        &&& forall|i: int|
            self.bit_number - 1 <= i < 64 ==> !#[trigger] rom_bits(self.next_rom@)[i]
    }

    /// The bits that were taken.
    pub open spec fn bits(self) -> Seq<bool> {
        rom_bits(self.next_rom@).take(self.bit_number - 1)
    }

    /// The pass before its first bit.
    pub fn new() -> (p: Self)
        ensures
            p.wf(),
            p.bit_number == 1,
            p.next_discrepancy == 0,
            p.bits() == Seq::<bool>::empty(),
    {
        let p = SearchPass { bit_number: 1, next_discrepancy: 0, next_rom: [0;8] };
        assert forall|i: int| 0 <= i < 64 implies !#[trigger] rom_bits(p.next_rom@)[i] by {
            let k = (i % 8) as u8;
            assert((0u8 >> k) & 1 != 1) by (bit_vector);
        }
        p
    }
}

/// Sets bit `i` of byte `k` of a ROM code.
fn set_bit(rom: &mut [u8; 8], k: usize, i: u8)
    requires
        k < 8,
        i < 8,
    ensures
        rom_bits(final(rom)@) == rom_bits(old(rom)@).update(8 * k + i, true),
{
    let ghost before = rom@;
    let byte: u8 = rom[k];
    let set: u8 = byte | (1u8 << i);
    rom[k] = set;
    proof {
        let after = rom@;
        assert forall|j: int| 0 <= j < 64 implies #[trigger] rom_bits(after)[j] == rom_bits(
            before,
        ).update(8 * k + i, true)[j] by {
            let at = (j % 8) as u8;
            if j / 8 == k {
                assert(((set >> at) & 1 == 1) == (at == i || (byte >> at) & 1 == 1)) by (bit_vector)
                    requires
                        set == byte | (1u8 << i),
                        i < 8,
                        at < 8,
                ;
                assert(j == 8 * k + i <==> at == i);
            } else {
                assert(j != 8 * k + i);
            }
        }
        assert(rom_bits(after) == rom_bits(before).update(8 * k + i, true));
    }
}

impl RomSearch {
    /// The search before its first pass.
    pub fn new() -> (s: Self)
        ensures
            s.rom@ == Seq::new(8, |i: int| 0u8),
            s.last_discrepancy == 0,
            s.found@.len() == 0,
    {
        RomSearch { rom: [0;8], last_discrepancy: 0, found: Vec::new() }
    }

    /// Takes the answers at one position into account. Returns the bit to go
    /// on with, which is then written, or `None` where no device answers.
    pub fn next_bit(&self, pass: &mut SearchPass, id: bool, complement: bool) -> (r: Option<bool>)
        requires
            old(pass).wf(),
            old(pass).bit_number <= 64,
        ensures
            r == taken(
                rom_bits(self.rom@),
                self.last_discrepancy as int,
                old(pass).bit_number as int,
                id,
                complement,
            ),
            match r {
                Some(b) => {
                    &&& final(pass).wf()
                    &&& final(pass).bit_number == old(pass).bit_number + 1
                    &&& final(pass).bits() == old(pass).bits().push(b)
                    &&& final(pass).next_discrepancy == branch_after(
                        old(pass).next_discrepancy as int,
                        old(pass).bit_number as int,
                        id,
                        complement,
                        b,
                    )
                },
                None => *final(pass) == *old(pass),
            },
    {
        let n: u8 = pass.bit_number;
        let k: usize = ((n - 1) / 8) as usize;
        let i: u8 = (n - 1) % 8;
        let b: bool = if id && complement {
            return None;
        } else if id != complement {
            id
        } else if n < self.last_discrepancy {
            (self.rom[k] >> i) & 1 == 1
        } else {
            n == self.last_discrepancy
        };
        if !id && !complement && !b {
            pass.next_discrepancy = n;
        }
        let ghost before = rom_bits(pass.next_rom@);
        if b {
            set_bit(&mut pass.next_rom, k, i);
        }
        assert(8 * k + i == n - 1);
        assert(rom_bits(pass.next_rom@) == before.update(n - 1, b));
        pass.bit_number = n + 1;
        assert(pass.bits() == old(pass).bits().push(b));
        Some(b)
    }

    /// Ends a pass: one that broke off, a code with a wrong checksum, or one
    /// more than `max` ends the search and is left out. Returns whether another
    /// pass is due.
    pub fn end_pass(&mut self, pass: &SearchPass, max: usize) -> (r: bool)
        ensures
            ({
                let code = pass.next_rom@;
                if pass.bit_number > 64 && crc8(code.take(7)) == code[7]
                    && old(self).found@.len() < max {
                    &&& final(self).rom@ == code
                    &&& final(self).last_discrepancy == pass.next_discrepancy
                    &&& final(self).found@ == old(self).found@.push(pass.next_rom)
                    &&& r == (pass.next_discrepancy > 0)
                } else {
                    &&& *final(self) == *old(self)
                    &&& !r
                }
            }),
    {
        if pass.bit_number <= 64 {
            return false;
        }
        let code: &[u8] = &pass.next_rom;
        let head: &[u8] = vstd::slice::slice_subrange(code, 0, 7);
        assert(head@ == pass.next_rom@.take(7));
        if crc8_maxim(head) != pass.next_rom[7] || self.found.len() >= max {
            return false;
        }
        self.found.push(pass.next_rom);
        self.rom = pass.next_rom;
        self.last_discrepancy = pass.next_discrepancy;
        self.last_discrepancy != 0
    }
}

/// Whether a device on the bus has a code that starts with these bits.
pub open spec fn answers(bus: Set<Seq<bool>>, start: Seq<bool>) -> bool {
    exists|d: Seq<bool>| #[trigger] bus.contains(d) && starts(d, start)
}

/// Whether a code starts with these bits.
pub open spec fn starts(code: Seq<bool>, start: Seq<bool>) -> bool {
    start.len() <= code.len() && code.take(start.len() as int) == start
}

/// The code and the last branch that a pass ends with, after it took the bits
/// `start`: the line is low where any device that is still addressed pulls it.
pub open spec fn pass_over(
    bus: Set<Seq<bool>>,
    rom: Seq<bool>,
    last: int,
    start: Seq<bool>,
    branch: int,
) -> Option<(Seq<bool>, int)>
    decreases 64 - start.len(),
{
    if start.len() >= 64 {
        Some((start, branch))
    } else {
        let n = start.len() + 1;
        let id = !answers(bus, start.push(false));
        let complement = !answers(bus, start.push(true));
        match taken(rom, last, n as int, id, complement) {
            Some(b) => pass_over(
                bus,
                rom,
                last,
                start.push(b),
                branch_after(branch, n as int, id, complement, b),
            ),
            None => None,
        }
    }
}

/// The last position of a code, counted from one, where it has a zero and a
/// device with the same bits before it has a one.
pub open spec fn last_branch(bus: Set<Seq<bool>>, code: Seq<bool>) -> int
    decreases code.len(),
{
    if code.len() == 0 {
        0
    } else if !code.last() && answers(bus, code.drop_last().push(true)) {
        code.len() as int
    } else {
        last_branch(bus, code.drop_last())
    }
}

/// Whether the codes agree before a position where the first has a zero and
/// the second a one.
pub open spec fn precedes_at(a: Seq<bool>, b: Seq<bool>, k: int) -> bool {
    0 <= k < 64 && a.take(k) == b.take(k) && !a[k] && b[k]
}

/// Whether a code comes before another in the order of a search.
pub open spec fn precedes(a: Seq<bool>, b: Seq<bool>) -> bool {
    exists|k: int| #[trigger] precedes_at(a, b, k)
}

/// Whether every code on the bus has 64 bits.
pub open spec fn codes(bus: Set<Seq<bool>>) -> bool {
    forall|d: Seq<bool>| #[trigger] bus.contains(d) ==> d.len() == 64
}

/// A device that answers to some bits answers to one more of either value.
proof fn answers_further(bus: Set<Seq<bool>>, start: Seq<bool>)
    requires
        codes(bus),
        answers(bus, start),
        start.len() < 64,
    ensures
        answers(bus, start.push(false)) || answers(bus, start.push(true)),
{
    let d = choose|d: Seq<bool>| #[trigger] bus.contains(d) && starts(d, start);
    let b = d[start.len() as int];
    assert(d.take(start.len() as int + 1) == start.push(b));
    assert(starts(d, start.push(b)));
}

/// A pass ends with a code on the bus and with its last branch.
proof fn pass_ends(
    bus: Set<Seq<bool>>,
    rom: Seq<bool>,
    last: int,
    start: Seq<bool>,
    branch: int,
)
    requires
        codes(bus),
        answers(bus, start),
        start.len() <= 64,
        branch == last_branch(bus, start),
        last <= start.len() || (start.len() < last <= 64 && bus.contains(rom) && start == rom.take(
            start.len() as int,
        )),
    ensures
        pass_over(bus, rom, last, start, branch) matches Some(end) && bus.contains(end.0)
            && end.1 == last_branch(bus, end.0) && starts(end.0, start),
    decreases 64 - start.len(),
{
    if start.len() >= 64 {
        let d = choose|d: Seq<bool>| #[trigger] bus.contains(d) && starts(d, start);
        assert(d.take(64) == d);
        assert(start.take(64) == start);
    } else {
        answers_further(bus, start);
        let n = start.len() + 1;
        let id = !answers(bus, start.push(false));
        let complement = !answers(bus, start.push(true));
        let b = taken(rom, last, n as int, id, complement)->0;
        assert(start.push(b).drop_last() == start);
        if n < last {
            assert(rom.take(n as int) == start.push(rom[n - 1]));
            assert(starts(rom, start.push(rom[n - 1])));
            assert(b == rom[n - 1]);
        }
        assert(answers(bus, start.push(b)));
        pass_ends(
            bus,
            rom,
            last,
            start.push(b),
            branch_after(branch, n as int, id, complement, b),
        );
        let end = pass_over(bus, rom, last, start, branch)->0;
        assert(end.0.take(n as int).take(start.len() as int) == end.0.take(start.len() as int));
        assert(start.push(b).take(start.len() as int) == start);
    }
}

/// What the last branch of a code is.
proof fn last_branch_is(bus: Set<Seq<bool>>, code: Seq<bool>, k: int)
    ensures
        ({
            let n = last_branch(bus, code);
            &&& 0 <= n <= code.len()
            &&& n > 0 ==> !code[n - 1] && answers(bus, code.take(n - 1).push(true))
            &&& n < k <= code.len() ==> code[k - 1] || !answers(bus, code.take(k - 1).push(true))
        }),
    decreases code.len(),
{
    if code.len() > 0 {
        let shorter = code.drop_last();
        let n = last_branch(bus, shorter);
        last_branch_is(bus, shorter, k);
        assert(shorter == code.take(code.len() - 1));
        if 0 < n {
            assert(shorter.take(n - 1) == code.take(n - 1));
        }
        if 0 < k < code.len() {
            assert(shorter.take(k - 1) == code.take(k - 1));
        }
    }
}

/// Past the branch that it turns at, a pass ends with the first code that
/// starts with the bits taken so far.
proof fn pass_ends_first(
    bus: Set<Seq<bool>>,
    rom: Seq<bool>,
    last: int,
    start: Seq<bool>,
    branch: int,
    d: Seq<bool>,
)
    requires
        codes(bus),
        bus.contains(d),
        starts(d, start),
        start.len() <= 64,
        last <= start.len(),
        branch == last_branch(bus, start),
    ensures
        pass_over(bus, rom, last, start, branch) matches Some(end) && (d == end.0 || precedes(end.0, d)),
    decreases 64 - start.len(),
{
    pass_ends(bus, rom, last, start, branch);
    if start.len() >= 64 {
        assert(d.take(64) == d);
    } else {
        answers_further(bus, start);
        let n = start.len() + 1;
        let id = !answers(bus, start.push(false));
        let complement = !answers(bus, start.push(true));
        let b = taken(rom, last, n as int, id, complement)->0;
        let at = start.len() as int;
        let next = branch_after(branch, n as int, id, complement, b);
        assert(start.push(b).drop_last() == start);
        assert(d.take(n as int) == start.push(d[at]));
        assert(starts(d, start.push(d[at])));
        if d[at] == b {
            pass_ends_first(bus, rom, last, start.push(b), next, d);
        } else {
            pass_ends(bus, rom, last, start.push(b), next);
            let end = pass_over(bus, rom, last, start, branch)->0;
            assert(end.0.take(n as int)[at] == b);
            assert(precedes_at(end.0, d, at));
        }
    }
}

/// A pass follows the code of the pass before it up to its last branch.
proof fn pass_follows(bus: Set<Seq<bool>>, rom: Seq<bool>, last: int, m: int)
    requires
        codes(bus),
        bus.contains(rom),
        last == last_branch(bus, rom),
        0 <= m < last,
    ensures
        pass_over(bus, rom, last, rom.take(m), last_branch(bus, rom.take(m))) == ({
            let turned = rom.take(last - 1).push(true);
            pass_over(bus, rom, last, turned, last_branch(bus, turned))
        }),
    decreases last - m,
{
    last_branch_is(bus, rom, last);
    let start = rom.take(m);
    let n = m + 1;
    let id = !answers(bus, start.push(false));
    let complement = !answers(bus, start.push(true));
    assert(rom.take(n) == start.push(rom[m]));
    assert(starts(rom, start.push(rom[m])));
    if n < last {
        assert(taken(rom, last, n, id, complement) == Some(rom[m]));
        assert(rom.take(n).drop_last() == start);
        pass_follows(bus, rom, last, n);
    } else {
        assert(taken(rom, last, n, id, complement) == Some(true));
        assert(start.push(true).drop_last() == start);
    }
}

/// The first pass of a search finds the first code on the bus. A later pass
/// finds the code that comes next after that of the pass before it, as long as
/// one comes after it.
pub proof fn pass_finds_the_next(bus: Set<Seq<bool>>, rom: Seq<bool>, last: int, d: Seq<bool>)
    requires
        codes(bus),
        bus.contains(d),
        last == 0 || (bus.contains(rom) && last == last_branch(bus, rom)),
    ensures
        ({
            let end = pass_over(bus, rom, last, Seq::empty(), 0);
            &&& end is Some
            &&& bus.contains((end->0).0)
            &&& (end->0).1 == last_branch(bus, (end->0).0)
            &&& last == 0 ==> d == (end->0).0 || precedes((end->0).0, d)
            &&& last > 0 ==> precedes(rom, (end->0).0)
            &&& last > 0 && precedes(rom, d) ==> d == (end->0).0 || precedes((end->0).0, d)
        }),
{
    let start = Seq::<bool>::empty();
    assert(d.take(0) == start);
    assert(starts(d, start));
    assert(answers(bus, start));
    if last == 0 {
        pass_ends(bus, rom, last, start, 0);
        pass_ends_first(bus, rom, last, start, 0, d);
    } else {
        assert(rom.take(0) == start);
        last_branch_is(bus, rom, last);
        let turned = rom.take(last - 1).push(true);
        pass_ends(bus, rom, last, start, 0);
        pass_follows(bus, rom, last, 0);
        pass_ends(bus, rom, last, turned, last_branch(bus, turned));
        let code = (pass_over(bus, rom, last, start, 0)->0).0;
        assert(code.take(last) == turned);
        assert(code.take(last).take(last - 1) == code.take(last - 1));
        assert(turned.take(last - 1) == rom.take(last - 1));
        assert(code[last - 1] == turned[last - 1]);
        assert(precedes_at(rom, code, last - 1));
        if precedes(rom, d) {
            let k = choose|k: int| #[trigger] precedes_at(rom, d, k);
            last_branch_is(bus, rom, k + 1);
            assert(d.take(k + 1) == rom.take(k).push(true));
            assert(starts(d, rom.take(k).push(true)));
            if k + 1 == last {
                pass_ends_first(bus, rom, last, turned, last_branch(bus, turned), d);
            } else {
                assert(code.take(last - 1).take(k) == code.take(k));
                assert(rom.take(last - 1).take(k) == rom.take(k));
                assert(code.take(last - 1)[k] == rom.take(last - 1)[k]);
                assert(precedes_at(code, d, k));
            }
        }
    }
}

/// Whether codes were found by successive passes of one search, of which the
/// last left no branch.
pub open spec fn whole_search(bus: Set<Seq<bool>>, visited: Seq<Seq<bool>>) -> bool {
    &&& visited.len() > 0
    &&& pass_over(bus, Seq::new(64, |i: int| false), 0, Seq::empty(), 0) == Some(
        (visited[0], last_branch(bus, visited[0])),
    )
    &&& forall|i: int|
        0 <= i < visited.len() - 1 ==> {
            &&& last_branch(bus, #[trigger] visited[i]) > 0
            &&& pass_over(bus, visited[i], last_branch(bus, visited[i]), Seq::empty(), 0) == Some(
                (visited[i + 1], last_branch(bus, visited[i + 1])),
            )
        }
    &&& last_branch(bus, visited.last()) == 0
}

/// A search that went through finds every device on the bus.
pub proof fn search_finds_every_device(
    bus: Set<Seq<bool>>,
    visited: Seq<Seq<bool>>,
    d: Seq<bool>,
)
    requires
        codes(bus),
        whole_search(bus, visited),
        bus.contains(d),
    ensures
        visited.contains(d),
{
    if !visited.contains(d) {
        search_is_before(bus, visited, d, visited.len() - 1);
        let code = visited.last();
        let k = choose|k: int| #[trigger] precedes_at(code, d, k);
        last_branch_is(bus, code, k + 1);
        assert(d.take(k + 1) == code.take(k).push(true));
        assert(starts(d, code.take(k).push(true)));
    }
}

/// A device that was not found comes after every code found so far.
proof fn search_is_before(bus: Set<Seq<bool>>, visited: Seq<Seq<bool>>, d: Seq<bool>, i: int)
    requires
        codes(bus),
        whole_search(bus, visited),
        bus.contains(d),
        !visited.contains(d),
        0 <= i < visited.len(),
    ensures
        bus.contains(visited[i]),
        precedes(visited[i], d),
    decreases i,
{
    if i == 0 {
        pass_finds_the_next(bus, Seq::new(64, |i: int| false), 0, d);
    } else {
        search_is_before(bus, visited, d, i - 1);
        pass_finds_the_next(bus, visited[i - 1], last_branch(bus, visited[i - 1]), d);
    }
    assert(visited[i] != d);
}

/// A reading whose checksum is right gives the temperature in sixteenths of a
/// degree that the device wrote, below zero too, and one whose checksum is
/// wrong gives none.
pub proof fn a_sound_reading_is_read(scratchpad: Seq<u8>)
    requires
        scratchpad.len() == 9,
    ensures
        scratchpad_raw(scratchpad) is Some <==> crc8(scratchpad.take(8)) == scratchpad[8],
        scratchpad_raw(scratchpad) matches Some(read) ==> read == (if scratchpad[1] < 128 {
            scratchpad[0] + 256 * scratchpad[1]
        } else {
            scratchpad[0] + 256 * scratchpad[1] - 0x1_0000
        }),
{
}

/// A resolution of 9 to 12 bits has the register value that the device knows it
/// by, and one out of range that of the nearest.
pub proof fn resolutions_have_their_register(bits: u8)
    ensures
        bits <= 9 ==> resolution_register(bits) == 0x1f,
        bits == 10 ==> resolution_register(bits) == 0x3f,
        bits == 11 ==> resolution_register(bits) == 0x5f,
        bits >= 12 ==> resolution_register(bits) == 0x7f,
{
}

/// A byte goes over the bus with its least significant bit first.
pub proof fn the_lowest_bit_goes_first(value: u8)
    ensures
        bits(value)[0] <==> value % 2 == 1,
        bits(value)[7] <==> value >= 128,
{
    assert((value >> 0u8) & 1 == value % 2) by (bit_vector);
    assert((value >> 7u8) & 1 == 1 <==> value >= 128) by (bit_vector);
}

/// A command goes to one device by its code, or to all of them.
pub proof fn a_command_names_its_device(rom: [u8; 8], command: u8, i: int)
    requires
        0 <= i < 8,
    ensures
        command_bytes(None, command) == seq![0xccu8, command],
        command_bytes(Some(rom), command).len() == 10,
        command_bytes(Some(rom), command)[0] == 0x55,
        command_bytes(Some(rom), command)[1 + i] == rom@[i],
        command_bytes(Some(rom), command)[9] == command,
{
}

/// Colons, dashes, blanks and tabs in a serial number do not count, and every
/// other byte does.
pub proof fn separators_do_not_count(a: Seq<u8>, sep: u8, b: Seq<u8>)
    ensures
        sep == 58 || sep == 45 || sep == 32 || sep == 9 ==> compact(a + seq![sep] + b) == compact(
            a + b,
        ),
        !(sep == 58 || sep == 45 || sep == 32 || sep == 9) ==> compact(a + seq![sep] + b).len()
            == compact(a + b).len() + 1,
        !(sep == 58 || sep == 45 || sep == 32 || sep == 9) ==> compact(a + seq![sep]) == compact(
            a,
        ).push(sep),
    decreases b.len(),
{
    let all = a + seq![sep] + b;
    assert((a + seq![sep]).drop_last() == a);
    if b.len() == 0 {
        assert(all == a + seq![sep]);
        assert(a + b == a);
    } else {
        let shorter = b.drop_last();
        separators_do_not_count(a, sep, shorter);
        assert(all.drop_last() == a + seq![sep] + shorter);
        assert((a + b).drop_last() == a + shorter);
        assert(all.last() == b.last() && (a + b).last() == b.last());
    }
}

/// A byte is written with two hexadecimal digits, the higher one first, and is
/// read from capitals as well as from small letters.
pub proof fn hexadecimal_digits_are_read_in_either_case(high: u8, low: u8)
    requires
        high < 16,
        low < 16,
    ensures
        high < 10 && low < 10 ==> digit_pair(
            (48 + high) as u8,
            (48 + low) as u8,
            (16 * high + low) as u8,
        ),
        high >= 10 && low >= 10 ==> {
            &&& digit_pair((87 + high) as u8, (87 + low) as u8, (16 * high + low) as u8)
            &&& digit_pair((55 + high) as u8, (55 + low) as u8, (16 * high + low) as u8)
            &&& digit_pair((87 + high) as u8, (55 + low) as u8, (16 * high + low) as u8)
        },
        high < 10 && low >= 10 ==> {
            &&& digit_pair((48 + high) as u8, (87 + low) as u8, (16 * high + low) as u8)
            &&& digit_pair((48 + high) as u8, (55 + low) as u8, (16 * high + low) as u8)
        },
        serial_text(seq![(16 * high + low) as u8]) == seq![hex_char(high as int), hex_char(low as int)],
        hex_char(high as int) as int == (if high < 10 {
            48 + high
        } else {
            87 + high
        }),
{
    let b = (16 * high + low) as u8;
    assert(seq![b][0] == b);
    assert(serial_text(seq![b]) =~= seq![hex_char(high as int), hex_char(low as int)]);
}

/// Bytes that are no hexadecimal digits make no serial number, and neither do
/// more or fewer than sixteen digits.
pub proof fn a_serial_number_has_sixteen_digits(digits: Seq<u8>, rom: Seq<u8>, i: int)
    requires
        0 <= i < 16,
    ensures
        digits.len() != 16 ==> !digits_of(digits, rom),
        digits_of(digits, rom) ==> 48 <= digits[i] <= 57 || 97 <= digits[i] <= 102 || 65 <= digits[i]
            <= 70,
{
    if digits_of(digits, rom) {
        let k = i / 2;
        assert(digit_pair(digits[2 * k], digits[2 * k + 1], rom[k]));
        assert(i == 2 * k || i == 2 * k + 1);
    }
}

} // verus!
