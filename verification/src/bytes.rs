//! Bytes: fixed-width integers on the wire, searching, and text in UTF-8.

use vstd::prelude::*;
use vstd::utf8::{decode_utf8, valid_utf8};
use crate::text::{find, find_from, first_in, first_not_in, starts_with, to_chars};

verus! {

// ── Integers ─────────────────────────────────────────────────────────────────

/// A 16-bit value, least significant byte first.
pub open spec fn u16_le(v: u16) -> Seq<u8> {
    seq![(v % 256) as u8, (v / 256) as u8]
}

/// A 16-bit value, most significant byte first.
pub open spec fn u16_be(v: u16) -> Seq<u8> {
    seq![(v / 256) as u8, (v % 256) as u8]
}

/// A 32-bit value, least significant byte first.
pub open spec fn u32_le(v: u32) -> Seq<u8> {
    seq![
        (v % 256) as u8,
        (v / 0x100 % 256) as u8,
        (v / 0x1_0000 % 256) as u8,
        (v / 0x100_0000) as u8,
    ]
}

/// A 32-bit value, most significant byte first.
pub open spec fn u32_be(v: u32) -> Seq<u8> {
    seq![
        (v / 0x100_0000) as u8,
        (v / 0x1_0000 % 256) as u8,
        (v / 0x100 % 256) as u8,
        (v % 256) as u8,
    ]
}

/// The 16-bit value at `at`, least significant byte first.
pub open spec fn get_u16_le(b: Seq<u8>, at: int) -> u16 {
    (b[at] + 256 * b[at + 1]) as u16
}

/// The 16-bit value at `at`, most significant byte first.
pub open spec fn get_u16_be(b: Seq<u8>, at: int) -> u16 {
    (256 * b[at] + b[at + 1]) as u16
}

/// The 32-bit value at `at`, least significant byte first.
pub open spec fn get_u32_le(b: Seq<u8>, at: int) -> u32 {
    (b[at] + 0x100 * b[at + 1] + 0x1_0000 * b[at + 2] + 0x100_0000 * b[at + 3]) as u32
}

/// The 32-bit value at `at`, most significant byte first.
pub open spec fn get_u32_be(b: Seq<u8>, at: int) -> u32 {
    (0x100_0000 * b[at] + 0x1_0000 * b[at + 1] + 0x100 * b[at + 2] + b[at + 3]) as u32
}

/// Two's complement of a signed 16-bit value.
pub open spec fn i16_bits(v: i16) -> u16 {
    if v < 0 {
        (v + 0x1_0000) as u16
    } else {
        v as u16
    }
}

/// The signed value of 16 bits in two's complement.
pub open spec fn bits_i16(b: u16) -> i16 {
    if b >= 0x8000 {
        (b - 0x1_0000) as i16
    } else {
        b as i16
    }
}

/// Two's complement of a signed 8-bit value.
pub open spec fn i8_bits(v: i8) -> u8 {
    if v < 0 {
        (v + 0x100) as u8
    } else {
        v as u8
    }
}

/// The signed value of 8 bits in two's complement.
pub open spec fn bits_i8(b: u8) -> i8 {
    if b >= 0x80 {
        (b - 0x100) as i8
    } else {
        b as i8
    }
}

/// Two's complement of a signed 32-bit value.
pub open spec fn i32_bits(v: i32) -> u32 {
    if v < 0 {
        (v + 0x1_0000_0000) as u32
    } else {
        v as u32
    }
}

/// The signed value of 32 bits in two's complement.
pub open spec fn bits_i32(b: u32) -> i32 {
    if b >= 0x8000_0000 {
        (b - 0x1_0000_0000) as i32
    } else {
        b as i32
    }
}

/// Appends a 16-bit value, least significant byte first.
pub fn push_u16_le(out: &mut Vec<u8>, v: u16)
    ensures
        final(out)@ == old(out)@ + u16_le(v),
{
    out.push((v % 256) as u8);
    out.push((v / 256) as u8);
}

/// Appends a 32-bit value, least significant byte first.
pub fn push_u32_le(out: &mut Vec<u8>, v: u32)
    ensures
        final(out)@ == old(out)@ + u32_le(v),
{
    out.push((v % 256) as u8);
    out.push((v / 0x100 % 256) as u8);
    out.push((v / 0x1_0000 % 256) as u8);
    out.push((v / 0x100_0000) as u8);
}

/// Appends a 16-bit value, most significant byte first.
pub fn push_u16_be(out: &mut Vec<u8>, v: u16)
    ensures
        final(out)@ == old(out)@ + u16_be(v),
{
    out.push((v / 256) as u8);
    out.push((v % 256) as u8);
}

/// Appends a 32-bit value, most significant byte first.
pub fn push_u32_be(out: &mut Vec<u8>, v: u32)
    ensures
        final(out)@ == old(out)@ + u32_be(v),
{
    out.push((v / 0x100_0000) as u8);
    out.push((v / 0x1_0000 % 256) as u8);
    out.push((v / 0x100 % 256) as u8);
    out.push((v % 256) as u8);
}

/// Appends bytes.
pub fn push_bytes(out: &mut Vec<u8>, bytes: &[u8])
    ensures
        final(out)@ == old(out)@ + bytes@,
{
    let mut i: usize = 0;
    while i < bytes.len()
        invariant
            i <= bytes@.len(),
            out@ == old(out)@ + bytes@.take(i as int),
        decreases bytes@.len() - i,
    {
        out.push(bytes[i]);
        i = i + 1;
    }
    assert(bytes@.take(i as int) == bytes@);
}

/// Reads a 16-bit value, least significant byte first.
pub fn read_u16_le(b: &[u8], at: usize) -> (v: u16)
    requires
        at + 2 <= b@.len(),
    ensures
        v == get_u16_le(b@, at as int),
{
    b[at] as u16 + 256 * b[at + 1] as u16
}

/// Reads a 16-bit value, most significant byte first.
pub fn read_u16_be(b: &[u8], at: usize) -> (v: u16)
    requires
        at + 2 <= b@.len(),
    ensures
        v == get_u16_be(b@, at as int),
{
    256 * b[at] as u16 + b[at + 1] as u16
}

/// Reads a 32-bit value, least significant byte first.
pub fn read_u32_le(b: &[u8], at: usize) -> (v: u32)
    requires
        at + 4 <= b@.len(),
    ensures
        v == get_u32_le(b@, at as int),
{
    b[at] as u32 + 0x100 * b[at + 1] as u32 + 0x1_0000 * b[at + 2] as u32 + 0x100_0000 * b[at
        + 3] as u32
}

/// Reads a 32-bit value, most significant byte first.
pub fn read_u32_be(b: &[u8], at: usize) -> (v: u32)
    requires
        at + 4 <= b@.len(),
    ensures
        v == get_u32_be(b@, at as int),
{
    0x100_0000 * b[at] as u32 + 0x1_0000 * b[at + 1] as u32 + 0x100 * b[at + 2] as u32 + b[at
        + 3] as u32
}

/// Two's complement of a signed 16-bit value.
pub fn i16_to_bits(v: i16) -> (b: u16)
    ensures
        b == i16_bits(v),
{
    if v < 0 {
        (v as i32 + 0x1_0000) as u16
    } else {
        v as u16
    }
}

/// The signed value of 16 bits in two's complement.
pub fn i16_from_bits(b: u16) -> (v: i16)
    ensures
        v == bits_i16(b),
{
    if b >= 0x8000 {
        (b as i32 - 0x1_0000) as i16
    } else {
        b as i16
    }
}

/// Two's complement of a signed 8-bit value.
pub fn i8_to_bits(v: i8) -> (b: u8)
    ensures
        b == i8_bits(v),
{
    if v < 0 {
        (v as i16 + 0x100) as u8
    } else {
        v as u8
    }
}

/// The signed value of 8 bits in two's complement.
pub fn i8_from_bits(b: u8) -> (v: i8)
    ensures
        v == bits_i8(b),
{
    if b >= 0x80 {
        (b as i16 - 0x100) as i8
    } else {
        b as i8
    }
}

/// Two's complement of a signed 32-bit value.
pub fn i32_to_bits(v: i32) -> (b: u32)
    ensures
        b == i32_bits(v),
{
    if v < 0 {
        (v as i64 + 0x1_0000_0000) as u32
    } else {
        v as u32
    }
}

/// The signed value of 32 bits in two's complement.
pub fn i32_from_bits(b: u32) -> (v: i32)
    ensures
        v == bits_i32(b),
{
    if b >= 0x8000_0000 {
        (b as i64 - 0x1_0000_0000) as i32
    } else {
        b as i32
    }
}

/// A 16-bit value is read back from where it was written.
pub proof fn u16_le_read_back(v: u16)
    ensures
        get_u16_le(u16_le(v), 0) == v,
        get_u16_be(u16_be(v), 0) == v,
{
}

/// A 32-bit value is read back from where it was written.
pub proof fn u32_read_back(v: u32)
    ensures
        get_u32_le(u32_le(v), 0) == v,
        get_u32_be(u32_be(v), 0) == v,
{
}

/// A 16-bit value is read back from within other bytes.
pub proof fn u16_le_within(b: Seq<u8>, at: int, v: u16)
    requires
        0 <= at <= b.len() - 2,
        b.subrange(at, at + 2) == u16_le(v),
    ensures
        get_u16_le(b, at) == v,
{
    assert(b[at] == b.subrange(at, at + 2)[0] && b[at + 1] == b.subrange(at, at + 2)[1]);
}

/// A 32-bit value is read back from within other bytes.
pub proof fn u32_le_within(b: Seq<u8>, at: int, v: u32)
    requires
        0 <= at <= b.len() - 4,
        b.subrange(at, at + 4) == u32_le(v),
    ensures
        get_u32_le(b, at) == v,
{
    let s = b.subrange(at, at + 4);
    assert(b[at] == s[0] && b[at + 1] == s[1] && b[at + 2] == s[2] && b[at + 3] == s[3]);
}

/// Signed values survive two's complement.
pub proof fn twos_complement_read_back(a: i8, b: i16, c: i32)
    ensures
        bits_i8(i8_bits(a)) == a,
        bits_i16(i16_bits(b)) == b,
        bits_i32(i32_bits(c)) == c,
{
}

// ── Searching ────────────────────────────────────────────────────────────────

/// Tests whether `needle` stands at position `at`.
fn stands_at(hay: &[u8], needle: &[u8], at: usize) -> (r: bool)
    requires
        at + needle@.len() <= hay@.len(),
    ensures
        r == (hay@.subrange(at as int, at + needle@.len()) == needle@),
{
    let n: usize = hay.len();
    let mut i: usize = 0;
    while i < needle.len()
        invariant
            i <= needle@.len(),
            at + needle@.len() <= hay@.len() == n,
            forall|j: int| 0 <= j < i ==> hay@[at + j] == needle@[j],
        decreases needle@.len() - i,
    {
        if hay[at + i] != needle[i] {
            assert(hay@.subrange(at as int, at + needle@.len())[i as int] != needle@[i as int]);
            return false;
        }
        i = i + 1;
    }
    assert(hay@.subrange(at as int, at + needle@.len()) == needle@);
    true
}

/// Tests whether two byte strings are equal.
pub fn bytes_equal(a: &[u8], b: &[u8]) -> (r: bool)
    ensures
        r == (a@ == b@),
{
    if a.len() != b.len() {
        return false;
    }
    assert(a@.subrange(0, b@.len() as int) == a@);
    stands_at(a, b, 0)
}

/// Tests whether bytes start with `prefix`.
pub fn bytes_start_with(s: &[u8], prefix: &[u8]) -> (r: bool)
    ensures
        r == starts_with(s@, prefix@),
{
    if prefix.len() > s.len() {
        return false;
    }
    assert(s@.subrange(0, prefix@.len() as int) == s@.take(prefix@.len() as int));
    stands_at(s, prefix, 0)
}

/// Finds the first occurrence of `needle`.
pub fn find_bytes(hay: &[u8], needle: &[u8]) -> (r: Option<usize>)
    ensures
        match r {
            Some(i) => find(hay@, needle@) == Some(i as int) && i + needle@.len() <= hay@.len(),
            None => find(hay@, needle@) is None,
        },
{
    if needle.len() > hay.len() {
        return None;
    }
    let last: usize = hay.len() - needle.len();
    let mut i: usize = 0;
    loop
        invariant
            i <= last,
            last + needle@.len() == hay@.len(),
            find(hay@, needle@) == find_from(hay@, needle@, i as int),
        decreases last - i,
    {
        if stands_at(hay, needle, i) {
            return Some(i);
        }
        if i == last {
            assert(find_from(hay@, needle@, i + 1) is None);
            return None;
        }
        i = i + 1;
    }
}

/// Tests whether a byte is one of `set`.
fn byte_in(b: u8, set: &[u8]) -> (r: bool)
    ensures
        r == set@.contains(b),
{
    let mut i: usize = 0;
    while i < set.len()
        invariant
            i <= set@.len(),
            forall|j: int| 0 <= j < i ==> set@[j] != b,
        decreases set@.len() - i,
    {
        if set[i] == b {
            return true;
        }
        i = i + 1;
    }
    false
}

/// Finds the first byte that is one of `set`, or the end.
pub fn find_any_byte(s: &[u8], set: &[u8]) -> (r: usize)
    ensures
        r == first_in(s@, set@, 0),
        r <= s@.len(),
{
    let mut i: usize = 0;
    while i < s.len() && !byte_in(s[i], set)
        invariant
            i <= s@.len(),
            first_in(s@, set@, 0) == first_in(s@, set@, i as int),
        decreases s@.len() - i,
    {
        i = i + 1;
    }
    i
}

/// Finds the first byte that is not one of `set`, or the end.
pub fn find_other_byte(s: &[u8], set: &[u8]) -> (r: usize)
    ensures
        r == first_not_in(s@, set@, 0),
        r <= s@.len(),
{
    let mut i: usize = 0;
    while i < s.len() && byte_in(s[i], set)
        invariant
            i <= s@.len(),
            first_not_in(s@, set@, 0) == first_not_in(s@, set@, i as int),
        decreases s@.len() - i,
    {
        i = i + 1;
    }
    i
}

// ── Text ─────────────────────────────────────────────────────────────────────

/// The text that bytes hold in UTF-8, if they hold any.
pub open spec fn utf8_text(b: Seq<u8>) -> Option<Seq<char>> {
    if valid_utf8(b) {
        Some(decode_utf8(b))
    } else {
        None
    }
}

/// `core::str::from_utf8`: the text that bytes hold in UTF-8, or nothing where
/// they are not valid UTF-8.
#[verifier::external_body]
pub(crate) fn str_from_utf8(b: &[u8]) -> (r: Option<&str>)
    ensures
        match r {
            Some(s) => utf8_text(b@) == Some(s@),
            None => utf8_text(b@) is None,
        },
{
    core::str::from_utf8(b).ok()
}

/// The characters that bytes hold in UTF-8.
pub fn utf8_chars(b: &[u8]) -> (r: Option<Vec<char>>)
    ensures
        match r {
            Some(v) => utf8_text(b@) == Some(v@),
            None => utf8_text(b@) is None,
        },
{
    match str_from_utf8(b) {
        Some(s) => Some(to_chars(s)),
        None => None,
    }
}

/// Values stand with their least significant byte first, or last, and their
/// bytes weigh what they weigh in the value.
pub proof fn bytes_weigh_by_their_place(b: Seq<u8>, at: int)
    ensures
        get_u16_le(b, at) == b[at] + 256 * b[at + 1],
        get_u16_be(b, at) == 256 * b[at] + b[at + 1],
        get_u32_le(b, at) == b[at] + 0x100 * b[at + 1] + 0x1_0000 * b[at + 2] + 0x100_0000 * b[at
            + 3],
        get_u32_be(b, at) == 0x100_0000 * b[at] + 0x1_0000 * b[at + 1] + 0x100 * b[at + 2] + b[at
            + 3],
{
}

/// A signed value has the bits of two's complement: the same below the middle,
/// and less by the whole range from there on.
pub proof fn signed_bits_are_twos_complement(a: u8, b: u16, c: u32)
    ensures
        bits_i8(a) == (if a < 0x80 {
            a as int
        } else {
            a - 0x100
        }),
        bits_i16(b) == (if b < 0x8000 {
            b as int
        } else {
            b - 0x1_0000
        }),
        bits_i32(c) == (if c < 0x8000_0000 {
            c as int
        } else {
            c - 0x1_0000_0000
        }),
{
}

} // verus!
