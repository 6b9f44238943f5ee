//! The history file: one record per line.
//!
//! Turning a record into a line and back is left to the caller.

use vstd::prelude::*;
use crate::text::{split, split_chars, split_of_part, texts, to_chars, to_string, trim, trim_chars};
use super::store::PersistedRecord;

verus! {

/// The texts of a list of strings.
pub open spec fn string_texts(v: Seq<String>) -> Seq<Seq<char>> {
    v.map_values(|s: String| s@)
}

/// The parts that hold more than white space, without the white space around
/// them.
pub open spec fn filled(parts: Seq<Seq<char>>) -> Seq<Seq<char>>
    decreases parts.len(),
{
    if parts.len() == 0 {
        Seq::empty()
    } else {
        let before = filled(parts.drop_last());
        if trim(parts.last()).len() > 0 {
            before.push(trim(parts.last()))
        } else {
            before
        }
    }
}

/// The lines of a file that hold a record.
pub open spec fn lines_of(data: Seq<char>) -> Seq<Seq<char>> {
    filled(split(data, '\n'))
}

/// Finds the lines of a file that hold a record.
pub fn record_lines(data: &str) -> (r: Vec<String>)
    ensures
        string_texts(r@) == lines_of(data@),
{
    let chars: Vec<char> = to_chars(data);
    let parts: Vec<Vec<char>> = split_chars(chars.as_slice(), '\n');
    filled_strings(&parts)
}

/// Finds the parts that hold more than white space.
pub fn filled_strings(parts: &Vec<Vec<char>>) -> (r: Vec<String>)
    ensures
        string_texts(r@) == filled(texts(parts@)),
{
    let ghost all = texts(parts@);
    let mut out: Vec<String> = Vec::new();
    let mut i: usize = 0;
    assert(all.take(0) == Seq::<Seq<char>>::empty());
    assert(string_texts(out@) == Seq::<Seq<char>>::empty());
    while i < parts.len()
        invariant
            i <= parts@.len() == all.len(),
            all == texts(parts@),
            string_texts(out@) == filled(all.take(i as int)),
        decreases parts@.len() - i,
    {
        assert(all.take(i + 1).drop_last() == all.take(i as int));
        assert(all[i as int] == parts@[i as int]@);
        let line: &[char] = trim_chars(parts[i].as_slice());
        if line.len() > 0 {
            let text: String = to_string(line);
            assert(string_texts(out@.push(text)) == string_texts(out@).push(text@));
            out.push(text);
        }
        i = i + 1;
    }
    assert(all.take(i as int) == all);
    out
}

/// The records among lines that were read, those that could be.
pub open spec fn readable(lines: Seq<Option<PersistedRecord>>) -> Seq<PersistedRecord>
    decreases lines.len(),
{
    if lines.len() == 0 {
        Seq::empty()
    } else {
        match lines.last() {
            Some(record) => readable(lines.drop_last()).push(record),
            None => readable(lines.drop_last()),
        }
    }
}

/// Takes the records among lines that were read, and counts those that could
/// not be.
pub fn readable_records(lines: &[Option<PersistedRecord>]) -> (r: (Vec<PersistedRecord>, usize))
    ensures
        r.0@ == readable(lines@),
        r.1 == lines@.len() - readable(lines@).len(),
{
    let mut records: Vec<PersistedRecord> = Vec::new();
    let mut bad: usize = 0;
    let mut i: usize = 0;
    assert(lines@.take(0) == Seq::<Option<PersistedRecord>>::empty());
    while i < lines.len()
        invariant
            i <= lines@.len(),
            records@ == readable(lines@.take(i as int)),
            bad + records@.len() == i,
        decreases lines@.len() - i,
    {
        assert(lines@.take(i + 1).drop_last() == lines@.take(i as int));
        match lines[i] {
            Some(record) => {
                records.push(record);
            },
            None => {
                bad = bad + 1;
            },
        }
        i = i + 1;
    }
    assert(lines@.take(i as int) == lines@);
    (records, bad)
}

/// Lines as a file, each with its end.
pub open spec fn file_of(lines: Seq<Seq<char>>) -> Seq<char>
    decreases lines.len(),
{
    if lines.len() == 0 {
        Seq::empty()
    } else {
        file_of(lines.drop_last()) + lines.last() + seq!['\n']
    }
}

/// Writes lines as a file.
pub fn file_text(lines: &[String]) -> (r: String)
    ensures
        r@ == file_of(string_texts(lines@)),
{
    let ghost all = string_texts(lines@);
    let mut out: String = String::new();
    let mut i: usize = 0;
    assert(all.take(0) == Seq::<Seq<char>>::empty());
    while i < lines.len()
        invariant
            i <= lines@.len() == all.len(),
            all == string_texts(lines@),
            out@ == file_of(all.take(i as int)),
        decreases lines@.len() - i,
    {
        assert(all.take(i + 1).drop_last() == all.take(i as int));
        assert(all[i as int] == lines@[i as int]@);
        out.append(lines[i].as_str());
        out.push('\n');
        assert(out@ == file_of(all.take(i as int)) + all[i as int] + seq!['\n']);
        i = i + 1;
    }
    assert(all.take(i as int) == all);
    out
}

/// The name of the file that a new version is written to before it takes the
/// place of the old one.
pub fn temporary_name(path: &str) -> (r: String)
    ensures
        r@ == path@ + ".tmp"@,
{
    let mut out: String = path.to_owned();
    out.append(".tmp");
    out
}

// ── Reading back ─────────────────────────────────────────────────────────────

/// Whether a text can be a line of the file: it is not empty, has no white
/// space around it and no line end in it.
pub open spec fn is_line(s: Seq<char>) -> bool {
    s.len() > 0 && trim(s) == s && !s.contains('\n')
}

/// The parts of a file are its lines and an empty one.
proof fn split_of_file(lines: Seq<Seq<char>>)
    requires
        forall|i: int| 0 <= i < lines.len() ==> is_line(#[trigger] lines[i]),
    ensures
        split(file_of(lines), '\n') == lines.push(Seq::empty()),
    decreases lines.len(),
{
    if lines.len() == 0 {
        assert(lines.push(Seq::<char>::empty()) == seq![Seq::<char>::empty()]);
    } else {
        let before = lines.drop_last();
        let line = lines.last();
        assert forall|i: int| 0 <= i < before.len() implies is_line(#[trigger] before[i]) by {
            assert(before[i] == lines[i]);
        }
        split_of_file(before);
        assert(is_line(lines[lines.len() - 1]));
        let text = file_of(before);
        split_of_part(text, line, '\n');
        assert(before.push(Seq::<char>::empty()).drop_last() == before);
        assert(Seq::<char>::empty() + line == line);
        assert(file_of(lines) == (text + line).push('\n'));
        assert((text + line).push('\n').drop_last() == text + line);
        assert(split(file_of(lines), '\n') == before.push(line).push(Seq::empty()));
        assert(before.push(line) == lines);
    }
}

proof fn filled_lines(lines: Seq<Seq<char>>)
    requires
        forall|i: int| 0 <= i < lines.len() ==> is_line(#[trigger] lines[i]),
    ensures
        filled(lines) == lines,
    decreases lines.len(),
{
    if lines.len() > 0 {
        let before = lines.drop_last();
        assert forall|i: int| 0 <= i < before.len() implies is_line(#[trigger] before[i]) by {
            assert(before[i] == lines[i]);
        }
        filled_lines(before);
        assert(is_line(lines[lines.len() - 1]));
        assert(before.push(lines.last()) == lines);
    }
}

/// The lines that are read from a file are those that were written to it.
pub proof fn file_read_back(lines: Seq<Seq<char>>)
    requires
        forall|i: int| 0 <= i < lines.len() ==> is_line(#[trigger] lines[i]),
    ensures
        lines_of(file_of(lines)) == lines,
{
    split_of_file(lines);
    filled_lines(lines);
    let parts = lines.push(Seq::<char>::empty());
    assert(parts.drop_last() == lines);
    assert(trim(Seq::<char>::empty()).len() == 0);
}

/// A record appended to a file is read after those that were there.
pub proof fn append_adds_a_line(lines: Seq<Seq<char>>, line: Seq<char>)
    requires
        forall|i: int| 0 <= i < lines.len() ==> is_line(#[trigger] lines[i]),
        is_line(line),
    ensures
        lines_of(file_of(lines) + line + seq!['\n']) == lines.push(line),
{
    let longer = lines.push(line);
    assert(longer.drop_last() == lines);
    assert forall|i: int| 0 <= i < longer.len() implies is_line(#[trigger] longer[i]) by {
        if i < lines.len() {
            assert(longer[i] == lines[i]);
        }
    }
    file_read_back(longer);
}

/// Blank parts are left out, and every other part is kept without the white
/// space around it, in order.
pub proof fn blank_parts_are_left_out(parts: Seq<Seq<char>>, i: int)
    requires
        0 <= i < parts.len(),
    ensures
        filled(parts).len() <= parts.len(),
        trim(parts[i]).len() > 0 ==> filled(parts).contains(trim(parts[i])),
        (forall|k: int| 0 <= k < parts.len() ==> trim(#[trigger] parts[k]).len() > 0) ==> filled(
            parts,
        ).len() == parts.len() && filled(parts)[i] == trim(parts[i]),
        forall|k: int| 0 <= k < filled(parts).len() ==> (#[trigger] filled(parts)[k]).len() > 0,
    decreases parts.len(),
{
    let before = parts.drop_last();
    let now = filled(parts);
    let so_far = filled(before);
    if before.len() == 0 {
        assert(so_far == Seq::<Seq<char>>::empty());
        assert(parts.last() == parts[i]);
        if trim(parts[i]).len() > 0 {
            assert(now[0] == trim(parts[i]));
        }
    } else {
        let k = if i < before.len() {
            i
        } else {
            0
        };
        blank_parts_are_left_out(before, k);
        if i < before.len() {
            assert(before[i] == parts[i]);
            if trim(parts[i]).len() > 0 {
                let m = choose|m: int| 0 <= m < so_far.len() && so_far[m] == trim(parts[i]);
                assert(now[m] == trim(parts[i]));
            }
        } else {
            assert(parts.last() == parts[i]);
            if trim(parts[i]).len() > 0 {
                assert(now[now.len() - 1] == trim(parts[i]));
            }
        }
        if forall|k: int| 0 <= k < parts.len() ==> trim(#[trigger] parts[k]).len() > 0 {
            assert forall|k: int| 0 <= k < before.len() implies trim(#[trigger] before[k]).len()
                > 0 by {
                assert(before[k] == parts[k]);
            }
            assert(trim(parts[parts.len() - 1]).len() > 0);
        }
    }
}

/// A line that could not be read is left out, and the records of the others
/// are kept in order.
pub proof fn unreadable_lines_are_left_out(
    before: Seq<Option<PersistedRecord>>,
    records: Seq<PersistedRecord>,
)
    ensures
        readable(before.push(None)) == readable(before),
        readable(before + records.map_values(|r: PersistedRecord| Some(r))) == readable(before)
            + records,
    decreases records.len(),
{
    assert(before.push(None).drop_last() == before);
    let read = records.map_values(|r: PersistedRecord| Some(r));
    let all = before + read;
    if records.len() == 0 {
        assert(all == before);
        assert(readable(before) + records == readable(before));
    } else {
        let fewer = records.drop_last();
        unreadable_lines_are_left_out(before, fewer);
        assert(all.drop_last() == before + fewer.map_values(|r: PersistedRecord| Some(r)));
        assert(all.last() == Some(records.last()));
        assert((readable(before) + fewer).push(records.last()) == readable(before) + records);
    }
}

} // verus!
