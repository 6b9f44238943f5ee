//! Text: decimal numbers, splitting, trimming and searching.
//!
//! Text is a sequence of characters. The functions here build on a `String`
//! by appending to it, and read text as a slice of characters.

use vstd::prelude::*;
use vstd::slice::slice_subrange;

verus! {

/// `String::push`: appends one character.
pub assume_specification[ String::push ](s: &mut String, ch: char)
    ensures
        final(s)@ == old(s)@.push(ch),
;

// ── Numbers in decimal ───────────────────────────────────────────────────────

/// The character of a decimal digit.
pub open spec fn digit_char(d: nat) -> char {
    ('0' as int + d) as char
}

/// A number in decimal, without leading zeros.
pub open spec fn decimal(n: nat) -> Seq<char>
    decreases n,
{
    if n < 10 {
        seq![digit_char(n)]
    } else {
        decimal(n / 10).push(digit_char(n % 10))
    }
}

/// The last `width` decimal digits of a number, leading zeros included.
pub open spec fn digits(n: nat, width: nat) -> Seq<char>
    decreases width,
{
    if width == 0 {
        Seq::empty()
    } else {
        digits(n / 10, (width - 1) as nat).push(digit_char(n % 10))
    }
}

/// Ten to the power of `n`.
pub open spec fn pow10(n: nat) -> nat
    decreases n,
{
    if n == 0 {
        1
    } else {
        10 * pow10((n - 1) as nat)
    }
}

/// `magnitude` units of `1 / 10^width`, written with `width` decimal places.
pub open spec fn fixed_point(negative: bool, magnitude: nat, width: nat) -> Seq<char> {
    (if negative {
        "-"@
    } else {
        ""@
    }) + decimal(magnitude / pow10(width)) + "."@ + digits(magnitude % pow10(width), width)
}

/// `true` or `false`.
pub open spec fn bool_text(b: bool) -> Seq<char> {
    if b {
        "true"@
    } else {
        "false"@
    }
}

/// Appends one decimal digit.
pub fn append_digit(out: &mut String, d: u8)
    requires
        d < 10,
    ensures
        final(out)@ == old(out)@.push(digit_char(d as nat)),
{
    out.push((48 + d) as char);
}

/// Appends a number in decimal.
pub fn append_decimal(out: &mut String, n: u64)
    ensures
        final(out)@ == old(out)@ + decimal(n as nat),
    decreases n,
{
    if n >= 10 {
        append_decimal(out, n / 10);
    }
    append_digit(out, (n % 10) as u8);
}

/// Appends the last `width` decimal digits of a number.
pub fn append_digits(out: &mut String, n: u64, width: u8)
    ensures
        final(out)@ == old(out)@ + digits(n as nat, width as nat),
    decreases width,
{
    if width > 0 {
        append_digits(out, n / 10, width - 1);
        append_digit(out, (n % 10) as u8);
    }
}

/// Appends a fixed-point number.
pub fn append_fixed(out: &mut String, negative: bool, magnitude: u64, width: u8)
    requires
        width <= 6,
    ensures
        final(out)@ == old(out)@ + fixed_point(negative, magnitude as nat, width as nat),
{
    let mut scale: u64 = 1;
    let mut i: u8 = 0;
    while i < width
        invariant
            i <= width <= 6,
            scale == pow10(i as nat),
            scale <= 1_000_000,
            i < 6 ==> scale <= 100_000,
            i < 5 ==> scale <= 10_000,
            i < 4 ==> scale <= 1_000,
            i < 3 ==> scale <= 100,
            i < 2 ==> scale <= 10,
            i < 1 ==> scale <= 1,
            scale > 0,
        decreases width - i,
    {
        scale = scale * 10;
        i = i + 1;
    }
    out.append(if negative { "-" } else { "" });
    append_decimal(out, magnitude / scale);
    out.append(".");
    append_digits(out, magnitude % scale, width);
}

/// `true` or `false`, as text.
pub fn bool_str(b: bool) -> (s: &'static str)
    ensures
        s@ == bool_text(b),
{
    if b {
        "true"
    } else {
        "false"
    }
}

// ── Characters ───────────────────────────────────────────────────────────────

/// The characters of a string, in order.
pub fn to_chars(s: &str) -> (v: Vec<char>)
    ensures
        v@ == s@,
{
    let mut v: Vec<char> = Vec::new();
    for c in it: s.chars()
        invariant
            it.seq() == s@,
            v@ == it.seq().take(it.index() as int),
    {
        v.push(c);
    }
    v
}

/// Appends characters to a string.
pub fn append_chars(out: &mut String, chars: &[char])
    ensures
        final(out)@ == old(out)@ + chars@,
{
    let mut i: usize = 0;
    while i < chars.len()
        invariant
            i <= chars@.len(),
            out@ == old(out)@ + chars@.take(i as int),
        decreases chars@.len() - i,
    {
        out.push(chars[i]);
        i = i + 1;
    }
    assert(chars@.take(i as int) == chars@);
}

/// The string made of these characters.
pub fn to_string(chars: &[char]) -> (s: String)
    ensures
        s@ == chars@,
{
    let mut s: String = String::new();
    append_chars(&mut s, chars);
    s
}

/// Whether a character has the Unicode property `White_Space`.
pub open spec fn is_space(c: char) -> bool {
    let n = c as int;
    ||| 0x9 <= n <= 0xd
    ||| n == 0x20
    ||| n == 0x85
    ||| n == 0xa0
    ||| n == 0x1680
    ||| 0x2000 <= n <= 0x200a
    ||| n == 0x2028
    ||| n == 0x2029
    ||| n == 0x202f
    ||| n == 0x205f
    ||| n == 0x3000
}

/// Tests for white space.
pub fn char_is_space(c: char) -> (r: bool)
    ensures
        r == is_space(c),
{
    let n: u32 = c as u32;
    (0x9 <= n && n <= 0xd) || n == 0x20 || n == 0x85 || n == 0xa0 || n == 0x1680 || (0x2000 <= n && n
        <= 0x200a) || n == 0x2028 || n == 0x2029 || n == 0x202f || n == 0x205f || n == 0x3000
}

/// Text without the white space at its start.
pub open spec fn trim_start(s: Seq<char>) -> Seq<char>
    decreases s.len(),
{
    if s.len() > 0 && is_space(s[0]) {
        trim_start(s.drop_first())
    } else {
        s
    }
}

/// Text without the white space at its end.
pub open spec fn trim_end(s: Seq<char>) -> Seq<char>
    decreases s.len(),
{
    if s.len() > 0 && is_space(s.last()) {
        trim_end(s.drop_last())
    } else {
        s
    }
}

/// Text without the white space at either end.
pub open spec fn trim(s: Seq<char>) -> Seq<char> {
    trim_end(trim_start(s))
}

/// Trimming makes no text longer.
pub proof fn trim_start_len(s: Seq<char>)
    ensures
        trim_start(s).len() <= s.len(),
    decreases s.len(),
{
    if s.len() > 0 && is_space(s[0]) {
        trim_start_len(s.drop_first());
    }
}

/// Text that neither starts nor ends with white space stays as it is.
pub proof fn trim_of_trimmed(s: Seq<char>)
    requires
        s.len() > 0 ==> !is_space(s[0]) && !is_space(s.last()),
    ensures
        trim(s) == s,
{
}

/// Drops the white space at the start.
pub fn trim_start_chars(s: &[char]) -> (r: &[char])
    ensures
        r@ == trim_start(s@),
{
    let mut i: usize = 0;
    assert(s@.skip(0) == s@);
    while i < s.len() && char_is_space(s[i])
        invariant
            i <= s@.len(),
            trim_start(s@) == trim_start(s@.skip(i as int)),
        decreases s@.len() - i,
    {
        assert(s@.skip(i as int).drop_first() == s@.skip(i + 1));
        i = i + 1;
    }
    let r: &[char] = slice_subrange(s, i, s.len());
    assert(r@ == s@.skip(i as int));
    r
}

/// Drops the white space at both ends.
pub fn trim_chars(s: &[char]) -> (r: &[char])
    ensures
        r@ == trim(s@),
{
    let t: &[char] = trim_start_chars(s);
    let mut n: usize = t.len();
    assert(t@.take(n as int) == t@);
    while n > 0 && char_is_space(t[n - 1])
        invariant
            n <= t@.len(),
            trim_end(t@) == trim_end(t@.take(n as int)),
        decreases n,
    {
        assert(t@.take(n as int).drop_last() == t@.take(n - 1));
        n = n - 1;
    }
    let r: &[char] = slice_subrange(t, 0, n);
    assert(r@ == t@.take(n as int));
    r
}

// ── Splitting ────────────────────────────────────────────────────────────────

/// The parts of a text between separators: one more than there are separators.
pub open spec fn split(s: Seq<char>, sep: char) -> Seq<Seq<char>>
    decreases s.len(),
{
    if s.len() == 0 {
        seq![Seq::empty()]
    } else {
        let before = split(s.drop_last(), sep);
        if s.last() == sep {
            before.push(Seq::empty())
        } else {
            before.drop_last().push(before.last().push(s.last()))
        }
    }
}

/// The contents of a list of texts.
pub open spec fn texts(v: Seq<Vec<char>>) -> Seq<Seq<char>> {
    v.map_values(|t: Vec<char>| t@)
}

/// There is always at least one part.
pub proof fn split_nonempty(s: Seq<char>, sep: char)
    ensures
        split(s, sep).len() > 0,
    decreases s.len(),
{
    if s.len() > 0 {
        split_nonempty(s.drop_last(), sep);
    }
}

/// Splits text at every separator.
pub fn split_chars(s: &[char], sep: char) -> (parts: Vec<Vec<char>>)
    ensures
        texts(parts@) == split(s@, sep),
{
    let mut done: Vec<Vec<char>> = Vec::new();
    let mut part: Vec<char> = Vec::new();
    let mut i: usize = 0;
    assert(s@.take(0) == Seq::<char>::empty());
    while i < s.len()
        invariant
            i <= s@.len(),
            texts(done@).push(part@) == split(s@.take(i as int), sep),
        decreases s@.len() - i,
    {
        assert(s@.take(i + 1).drop_last() == s@.take(i as int));
        assert(texts(done@).push(part@).drop_last() == texts(done@));
        if s[i] == sep {
            assert(texts(done@.push(part)) == texts(done@).push(part@));
            done.push(part);
            part = Vec::new();
        } else {
            part.push(s[i]);
        }
        i = i + 1;
    }
    assert(s@.take(i as int) == s@);
    assert(texts(done@.push(part)) == texts(done@).push(part@));
    done.push(part);
    done
}

/// Text without a separator makes the last part longer.
pub proof fn split_of_part(s: Seq<char>, part: Seq<char>, sep: char)
    requires
        !part.contains(sep),
    ensures
        split(s + part, sep) == split(s, sep).drop_last().push(split(s, sep).last() + part),
    decreases part.len(),
{
    let before = split(s, sep);
    split_nonempty(s, sep);
    if part.len() == 0 {
        assert(s + part == s);
        assert(before.last() + part == before.last());
        assert(before.drop_last().push(before.last()) == before);
    } else {
        let shorter = part.drop_last();
        assert forall|i: int| 0 <= i < shorter.len() implies shorter[i] != sep by {
            assert(part.contains(part[i]));
        }
        split_of_part(s, shorter, sep);
        assert((s + part).drop_last() == s + shorter);
        assert(part.contains(part.last()));
        let so_far = split(s + shorter, sep);
        assert(so_far.drop_last() == before.drop_last());
        assert(so_far.last() == before.last() + shorter);
        assert((before.last() + shorter).push(part.last()) == before.last() + part);
    }
}

// ── Searching ────────────────────────────────────────────────────────────────

/// The first position at or after `from` where `needle` stands in `hay`.
pub open spec fn find_from<T>(hay: Seq<T>, needle: Seq<T>, from: int) -> Option<int>
    decreases hay.len() + 1 - from,
{
    if from < 0 || from + needle.len() > hay.len() {
        None
    } else if hay.subrange(from, from + needle.len()) == needle {
        Some(from)
    } else {
        find_from(hay, needle, from + 1)
    }
}

/// The first position where `needle` stands in `hay`.
pub open spec fn find<T>(hay: Seq<T>, needle: Seq<T>) -> Option<int> {
    find_from(hay, needle, 0)
}

/// Whether `s` starts with `prefix`.
pub open spec fn starts_with<T>(s: Seq<T>, prefix: Seq<T>) -> bool {
    prefix.len() <= s.len() && s.take(prefix.len() as int) == prefix
}

/// The first position at or after `from` of an element of `set`, or the length.
pub open spec fn first_in<T>(s: Seq<T>, set: Seq<T>, from: int) -> int
    decreases s.len() - from,
{
    if from < 0 || from >= s.len() || set.contains(s[from]) {
        from
    } else {
        first_in(s, set, from + 1)
    }
}

/// The first position at or after `from` of an element outside `set`, or the length.
pub open spec fn first_not_in<T>(s: Seq<T>, set: Seq<T>, from: int) -> int
    decreases s.len() - from,
{
    if from < 0 || from >= s.len() || !set.contains(s[from]) {
        from
    } else {
        first_not_in(s, set, from + 1)
    }
}

/// An element of `set` is the first where none stands before it.
pub proof fn first_in_at<T>(s: Seq<T>, set: Seq<T>, from: int, at: int)
    requires
        0 <= from <= at < s.len(),
        set.contains(s[at]),
        forall|i: int| from <= i < at ==> !set.contains(#[trigger] s[i]),
    ensures
        first_in(s, set, from) == at,
    decreases at - from,
{
    if from < at {
        first_in_at(s, set, from + 1, at);
    }
}

/// A piece is found where it stands if its first element does not occur before.
pub proof fn find_from_at<T>(hay: Seq<T>, needle: Seq<T>, from: int, at: int)
    requires
        needle.len() > 0,
        0 <= from <= at <= hay.len() - needle.len(),
        hay.subrange(at, at + needle.len()) == needle,
        forall|i: int| from <= i < at ==> #[trigger] hay[i] != needle[0],
    ensures
        find_from(hay, needle, from) == Some(at),
    decreases at - from,
{
    if from < at {
        assert(hay.subrange(from, from + needle.len())[0] == hay[from]);
        find_from_at(hay, needle, from + 1, at);
    }
}

/// A found position lies within the text.
pub proof fn find_from_bounds<T>(hay: Seq<T>, needle: Seq<T>, from: int)
    requires
        from >= 0,
    ensures
        find_from(hay, needle, from) matches Some(i) ==> {
            &&& from <= i <= hay.len() - needle.len()
            &&& hay.subrange(i, i + needle.len()) == needle
        },
    decreases hay.len() + 1 - from,
{
    if from + needle.len() <= hay.len() && hay.subrange(from, from + needle.len()) != needle {
        find_from_bounds(hay, needle, from + 1);
    }
}

/// Tests whether `needle` stands at position `at`.
fn stands_at(hay: &[char], needle: &[char], at: usize) -> (r: bool)
    requires
        at + needle@.len() <= hay@.len(),
    ensures
        r == (hay@.subrange(at as int, at + needle@.len()) == needle@),
{
    let n: usize = hay.len();
    let mut i: usize = 0;
    while i < needle.len()
        invariant
            i <= needle@.len(),
            at + needle@.len() <= hay@.len() == n,
            forall|j: int| 0 <= j < i ==> hay@[at + j] == needle@[j],
        decreases needle@.len() - i,
    {
        if hay[at + i] != needle[i] {
            assert(hay@.subrange(at as int, at + needle@.len())[i as int] != needle@[i as int]);
            return false;
        }
        i = i + 1;
    }
    assert(hay@.subrange(at as int, at + needle@.len()) == needle@);
    true
}

/// Finds the first occurrence of `needle`.
pub fn find_chars(hay: &[char], needle: &[char]) -> (r: Option<usize>)
    ensures
        match r {
            Some(i) => find(hay@, needle@) == Some(i as int) && i + needle@.len() <= hay@.len(),
            None => find(hay@, needle@) is None,
        },
{
    if needle.len() > hay.len() {
        return None;
    }
    let last: usize = hay.len() - needle.len();
    let mut i: usize = 0;
    loop
        invariant
            i <= last,
            last + needle@.len() == hay@.len(),
            find(hay@, needle@) == find_from(hay@, needle@, i as int),
        decreases last - i,
    {
        if stands_at(hay, needle, i) {
            return Some(i);
        }
        if i == last {
            assert(find_from(hay@, needle@, i + 1) is None);
            return None;
        }
        i = i + 1;
    }
}

/// Tests whether text starts with `prefix`.
pub fn chars_start_with(s: &[char], prefix: &[char]) -> (r: bool)
    ensures
        r == starts_with(s@, prefix@),
{
    if prefix.len() > s.len() {
        return false;
    }
    assert(s@.subrange(0, prefix@.len() as int) == s@.take(prefix@.len() as int));
    stands_at(s, prefix, 0)
}

/// Tests whether a character is one of `set`.
fn char_in(c: char, set: &[char]) -> (r: bool)
    ensures
        r == set@.contains(c),
{
    let mut i: usize = 0;
    while i < set.len()
        invariant
            i <= set@.len(),
            forall|j: int| 0 <= j < i ==> set@[j] != c,
        decreases set@.len() - i,
    {
        if set[i] == c {
            return true;
        }
        i = i + 1;
    }
    false
}

/// Finds the first character that is one of `set`, or the end of the text.
pub fn find_any_char(s: &[char], set: &[char]) -> (r: usize)
    ensures
        r == first_in(s@, set@, 0),
        r <= s@.len(),
        r < s@.len() ==> set@.contains(s@[r as int]),
{
    let mut i: usize = 0;
    while i < s.len() && !char_in(s[i], set)
        invariant
            i <= s@.len(),
            first_in(s@, set@, 0) == first_in(s@, set@, i as int),
        decreases s@.len() - i,
    {
        i = i + 1;
    }
    i
}

/// Tests whether two texts are equal.
pub fn chars_equal(a: &[char], b: &[char]) -> (r: bool)
    ensures
        r == (a@ == b@),
{
    if a.len() != b.len() {
        return false;
    }
    assert(a@.subrange(0, b@.len() as int) == a@);
    stands_at(a, b, 0)
}

/// A character with an ASCII capital made small.
pub open spec fn lower(c: char) -> char {
    if 'A' <= c && c <= 'Z' {
        (c as int + 32) as char
    } else {
        c
    }
}

/// Whether two texts are equal but for the case of ASCII letters.
pub open spec fn same_letters(a: Seq<char>, b: Seq<char>) -> bool {
    a.len() == b.len() && forall|i: int| 0 <= i < a.len() ==> lower(#[trigger] a[i]) == lower(b[i])
}

fn lower_char(c: char) -> (r: char)
    ensures
        r == lower(c),
{
    if 'A' <= c && c <= 'Z' {
        (c as u8 + 32) as char
    } else {
        c
    }
}

/// Tests whether two texts are equal but for the case of ASCII letters.
pub fn chars_same_letters(a: &[char], b: &[char]) -> (r: bool)
    ensures
        r == same_letters(a@, b@),
{
    if a.len() != b.len() {
        return false;
    }
    let mut i: usize = 0;
    while i < a.len()
        invariant
            i <= a@.len() == b@.len(),
            forall|j: int| 0 <= j < i ==> lower(#[trigger] a@[j]) == lower(b@[j]),
        decreases a@.len() - i,
    {
        if lower_char(a[i]) != lower_char(b[i]) {
            return false;
        }
        i = i + 1;
    }
    true
}

// ── Reading numbers ──────────────────────────────────────────────────────────

/// Whether a character is a decimal digit.
pub open spec fn is_digit(c: char) -> bool {
    '0' <= c && c <= '9'
}

/// The value of a decimal digit.
pub open spec fn digit_value(c: char) -> nat {
    (c as int - '0' as int) as nat
}

/// The number that a text of decimal digits stands for.
pub open spec fn decimal_value(s: Seq<char>) -> nat
    decreases s.len(),
{
    if s.len() == 0 {
        0
    } else {
        10 * decimal_value(s.drop_last()) + digit_value(s.last())
    }
}

/// Whether a text is made of decimal digits only.
pub open spec fn all_digits(s: Seq<char>) -> bool {
    forall|i: int| 0 <= i < s.len() ==> is_digit(#[trigger] s[i])
}

/// The digits of an unsigned number: one leading `+` is let pass.
pub open spec fn unsigned_digits(s: Seq<char>) -> Seq<char> {
    if s.len() > 0 && s[0] == '+' {
        s.drop_first()
    } else {
        s
    }
}

/// The unsigned number that a text reads as: an optional `+`, then at least
/// one digit and nothing else, of a value of at most `max`.
pub open spec fn read_unsigned(s: Seq<char>, max: nat) -> Option<nat> {
    let d = unsigned_digits(s);
    if d.len() > 0 && all_digits(d) && decimal_value(d) <= max {
        Some(decimal_value(d))
    } else {
        None
    }
}

/// More digits stand for no smaller a number.
proof fn decimal_value_grows(s: Seq<char>, n: int)
    requires
        0 <= n <= s.len(),
    ensures
        decimal_value(s.take(n)) <= decimal_value(s),
    decreases s.len() - n,
{
    if n < s.len() {
        decimal_value_grows(s, n + 1);
        assert(s.take(n + 1).drop_last() == s.take(n));
    } else {
        assert(s.take(n) == s);
    }
}

/// Reads an unsigned decimal number of at most `max`.
pub fn parse_unsigned(s: &[char], max: u64) -> (r: Option<u64>)
    ensures
        match r {
            Some(v) => read_unsigned(s@, max as nat) == Some(v as nat) && v <= max,
            None => read_unsigned(s@, max as nat) is None,
        },
{
    let start: usize = if s.len() > 0 && s[0] == '+' {
        1
    } else {
        0
    };
    let d: &[char] = slice_subrange(s, start, s.len());
    assert(d@ == unsigned_digits(s@));
    if d.len() == 0 {
        return None;
    }
    let mut value: u64 = 0;
    let mut i: usize = 0;
    while i < d.len()
        invariant
            i <= d@.len(),
            d@ == unsigned_digits(s@),
            d@.len() > 0,
            value == decimal_value(d@.take(i as int)),
            value <= max,
            forall|j: int| 0 <= j < i ==> is_digit(#[trigger] d@[j]),
        decreases d@.len() - i,
    {
        let c: char = d[i];
        assert(d@.take(i + 1).drop_last() == d@.take(i as int));
        if !('0' <= c && c <= '9') {
            assert(!is_digit(d@[i as int]));
            return None;
        }
        let digit: u64 = (c as u32 - 48) as u64;
        assert(decimal_value(d@.take(i + 1)) == 10 * value + digit);
        if value > max / 10 || digit > max - value * 10 {
            proof {
                decimal_value_grows(d@, i + 1);
            }
            return None;
        }
        value = value * 10 + digit;
        i = i + 1;
    }
    assert(d@.take(i as int) == d@);
    Some(value)
}

proof fn decimal_digits(n: nat)
    ensures
        decimal(n).len() > 0,
        all_digits(decimal(n)),
        decimal_value(decimal(n)) == n,
    decreases n,
{
    let s = decimal(n);
    if n < 10 {
        assert(s.drop_last() == Seq::<char>::empty());
        assert(decimal_value(s.drop_last()) == 0);
    } else {
        decimal_digits(n / 10);
        assert(s.drop_last() == decimal(n / 10));
        assert forall|i: int| 0 <= i < s.len() implies is_digit(#[trigger] s[i]) by {
            if i < s.len() - 1 {
                assert(s[i] == decimal(n / 10)[i]);
            }
        }
    }
}

/// A number that was written reads as the same number.
pub proof fn decimal_read_back(n: nat, max: nat)
    requires
        n <= max,
    ensures
        read_unsigned(decimal(n), max) == Some(n),
        all_digits(decimal(n)),
{
    decimal_digits(n);
    assert(is_digit(decimal(n)[0]));
}

// ── Laws ─────────────────────────────────────────────────────────────────────

/// White space is blanks, tabs and line ends; no letter, digit or punctuation
/// mark of ASCII is.
pub proof fn letters_and_digits_are_no_space(c: char)
    ensures
        c == ' ' || c == '\t' || c == '\n' || c == '\r' ==> is_space(c),
        '!' <= c && c <= '~' ==> !is_space(c),
{
}

proof fn trim_start_is_a_tail(s: Seq<char>) -> (n: int)
    ensures
        0 <= n <= s.len(),
        trim_start(s) == s.skip(n),
        forall|i: int| 0 <= i < n ==> is_space(#[trigger] s[i]),
        n < s.len() ==> !is_space(s[n]),
    decreases s.len(),
{
    if s.len() > 0 && is_space(s[0]) {
        let n = trim_start_is_a_tail(s.drop_first());
        assert(s.drop_first().skip(n) == s.skip(n + 1));
        assert forall|i: int| 0 <= i < n + 1 implies is_space(#[trigger] s[i]) by {
            if i > 0 {
                assert(s.drop_first()[i - 1] == s[i]);
            }
        }
        n + 1
    } else {
        assert(s.skip(0) == s);
        0
    }
}

proof fn trim_end_is_a_head(s: Seq<char>) -> (n: int)
    ensures
        0 <= n <= s.len(),
        trim_end(s) == s.take(n),
        forall|i: int| n <= i < s.len() ==> is_space(#[trigger] s[i]),
        n > 0 ==> !is_space(s[n - 1]),
    decreases s.len(),
{
    if s.len() > 0 && is_space(s.last()) {
        let n = trim_end_is_a_head(s.drop_last());
        assert(s.drop_last().take(n) == s.take(n));
        assert forall|i: int| n <= i < s.len() implies is_space(#[trigger] s[i]) by {
            if i < s.len() - 1 {
                assert(s.drop_last()[i] == s[i]);
            }
        }
        n
    } else {
        assert(s.take(s.len() as int) == s);
        s.len() as int
    }
}

/// Trimming takes away the white space at either end and nothing else: what is
/// left is a piece of the text that neither starts nor ends with white space.
pub proof fn trimming_takes_only_white_space(before: Seq<char>, text: Seq<char>, after: Seq<char>)
    requires
        forall|i: int| 0 <= i < before.len() ==> is_space(#[trigger] before[i]),
        forall|i: int| 0 <= i < after.len() ==> is_space(#[trigger] after[i]),
        text.len() > 0 ==> !is_space(text[0]) && !is_space(text.last()),
    ensures
        trim(before + text + after) == text,
{
    let s = before + text + after;
    let n = trim_start_is_a_tail(s);
    let t = trim_start(s);
    let m = trim_end_is_a_head(t);
    if text.len() > 0 {
        assert(s[before.len() as int] == text[0]);
        assert(n == before.len()) by {
            if n < before.len() {
                assert(s[n] == before[n]);
            }
            if n > before.len() {
                assert(is_space(s[before.len() as int]));
            }
        }
        assert(t == text + after);
        let k = text.len() as int;
        assert(t[k - 1] == text.last());
        assert(m == k) by {
            if m < k {
                assert(is_space(t[k - 1]));
            }
            if m > k {
                assert(t[m - 1] == after[m - 1 - k]);
            }
        }
        assert(t.take(k) == text);
    } else {
        if n < s.len() {
            if n < before.len() {
                assert(s[n] == before[n]);
            } else {
                assert(s[n] == after[n - before.len()]);
            }
        }
        assert(t == Seq::<char>::empty());
        assert(trim(s) == text);
    }
}

/// Parts one after the other, with a separator between them.
pub open spec fn with_separators(parts: Seq<Seq<char>>, sep: char) -> Seq<char>
    decreases parts.len(),
{
    if parts.len() == 0 {
        Seq::empty()
    } else if parts.len() == 1 {
        parts[0]
    } else {
        with_separators(parts.drop_last(), sep).push(sep) + parts.last()
    }
}

proof fn a_longer_part(parts: Seq<Seq<char>>, sep: char, c: char)
    requires
        parts.len() > 0,
    ensures
        with_separators(parts.drop_last().push(parts.last().push(c)), sep) == with_separators(
            parts,
            sep,
        ).push(c),
{
    let longer = parts.drop_last().push(parts.last().push(c));
    assert(longer.drop_last() == parts.drop_last());
    if parts.len() > 1 {
        assert(with_separators(longer, sep) == with_separators(parts.drop_last(), sep).push(sep)
            + parts.last().push(c));
    }
}

/// The parts of a text hold no separator, and with separators between them
/// they are the text.
pub proof fn parts_make_up_the_text(s: Seq<char>, sep: char)
    ensures
        with_separators(split(s, sep), sep) == s,
        forall|i: int| 0 <= i < split(s, sep).len() ==> !(#[trigger] split(s, sep)[i]).contains(sep),
    decreases s.len(),
{
    let parts = split(s, sep);
    if s.len() > 0 {
        let before = split(s.drop_last(), sep);
        parts_make_up_the_text(s.drop_last(), sep);
        split_nonempty(s.drop_last(), sep);
        assert(s.drop_last().push(s.last()) == s);
        if s.last() == sep {
            assert(parts.drop_last() == before);
            assert(with_separators(parts, sep) == s);
        } else {
            a_longer_part(before, sep, s.last());
        }
        assert forall|i: int| 0 <= i < parts.len() implies !(#[trigger] parts[i]).contains(sep) by {
            if s.last() == sep {
                if i < before.len() {
                    assert(parts[i] == before[i]);
                }
            } else if i < before.len() - 1 {
                assert(parts[i] == before[i]);
            } else {
                assert(!before[i].contains(sep));
                assert forall|k: int| 0 <= k < parts[i].len() implies parts[i][k] != sep by {
                    if k < before[i].len() {
                        assert(before[i].contains(before[i][k]));
                    }
                }
            }
        }
    }
}

/// A piece that occurs in a text is found, and at no later place than it occurs.
pub proof fn the_first_occurrence_is_found<T>(hay: Seq<T>, needle: Seq<T>, from: int, at: int)
    requires
        0 <= from <= at <= hay.len() - needle.len(),
        hay.subrange(at, at + needle.len()) == needle,
    ensures
        find_from(hay, needle, from) matches Some(i) && from <= i <= at && hay.subrange(
            i,
            i + needle.len(),
        ) == needle,
    decreases at - from,
{
    if from < at && hay.subrange(from, from + needle.len()) != needle {
        the_first_occurrence_is_found(hay, needle, from + 1, at);
    }
}

/// Two texts are the same letters where each pair of characters is equal, or
/// is a small letter and its capital, 32 places before it.
pub proof fn letters_are_the_same_in_either_case(a: Seq<char>, b: Seq<char>)
    ensures
        same_letters(a, b) == (a.len() == b.len() && forall|i: int|
            #![trigger a[i]]
            0 <= i < a.len() ==> (a[i] == b[i] || ('a' <= a[i] && a[i] <= 'z' && a[i] as int
                == b[i] as int + 32) || ('a' <= b[i] && b[i] <= 'z' && b[i] as int == a[i] as int
                + 32))),
{
    assert forall|c: char, d: char|
        #![trigger lower(c), lower(d)]
        (lower(c) == lower(d)) == (c == d || ('a' <= c && c <= 'z' && c as int == d as int + 32)
            || ('a' <= d && d <= 'z' && d as int == c as int + 32)) by {
        let x = c as int;
        let y = d as int;
    }
    if same_letters(a, b) {
        assert forall|i: int|
            #![trigger a[i]]
            0 <= i < a.len() implies (a[i] == b[i] || ('a' <= a[i] && a[i] <= 'z' && a[i] as int
            == b[i] as int + 32) || ('a' <= b[i] && b[i] <= 'z' && b[i] as int == a[i] as int
            + 32)) by {
            assert(lower(a[i]) == lower(b[i]));
        }
    }
}

/// A digit more makes a number ten times as large and adds the digit's value.
pub proof fn digits_are_worth_tens(s: Seq<char>, c: char)
    requires
        '0' <= c && c <= '9',
    ensures
        decimal_value(Seq::empty()) == 0,
        decimal_value(s.push(c)) == 10 * decimal_value(s) + (c as int - 48),
{
    assert(s.push(c).drop_last() == s);
}

/// A text of digits reads as their number, with or without a plus sign, where
/// that is not too large; what has no digits, or something else among them,
/// reads as no number.
pub proof fn only_digits_make_a_number(s: Seq<char>, max: nat)
    ensures
        read_unsigned(Seq::empty(), max) is None,
        (s.len() > 0 && forall|i: int| 0 <= i < s.len() ==> '0' <= #[trigger] s[i] && s[i] <= '9')
            ==> {
            &&& read_unsigned(s, max) == (if decimal_value(s) <= max {
                Some(decimal_value(s))
            } else {
                None
            })
            &&& read_unsigned(seq!['+'] + s, max) == read_unsigned(s, max)
        },
        forall|i: int|
            0 < i < s.len() && !('0' <= #[trigger] s[i] && s[i] <= '9') ==> read_unsigned(s, max)
                is None,
        s.len() > 0 && s[0] != '+' && !('0' <= s[0] && s[0] <= '9') ==> read_unsigned(s, max)
            is None,
{
    assert((seq!['+'] + s).drop_first() == s);
    if s.len() > 0 && s[0] == '+' {
        assert forall|i: int|
            0 < i < s.len() && !('0' <= #[trigger] s[i] && s[i] <= '9') implies read_unsigned(
            s,
            max,
        ) is None by {
            assert(s.drop_first()[i - 1] == s[i]);
        }
    }
}

/// A number of a fixed width has so many digits, and they stand for what the
/// number has below the power of ten of that width.
pub proof fn fixed_width_digits_stand_for_the_number(n: nat, width: nat)
    ensures
        digits(n, width).len() == width,
        all_digits(digits(n, width)),
        n < pow10(width) ==> decimal_value(digits(n, width)) == n,
        pow10(0) == 1,
        pow10(width + 1) == 10 * pow10(width),
    decreases width,
{
    if width > 0 {
        let w = (width - 1) as nat;
        fixed_width_digits_stand_for_the_number(n / 10, w);
        let s = digits(n, width);
        assert(s.drop_last() == digits(n / 10, w));
        assert forall|i: int| 0 <= i < s.len() implies is_digit(#[trigger] s[i]) by {
            if i < s.len() - 1 {
                assert(s[i] == s.drop_last()[i]);
            }
        }
    }
}

} // verus!
