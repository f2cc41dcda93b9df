//! The line grammar shared by the kernel's memory pseudo-files.
//!
//! A file is a run of lines ended by `\n`. A field line is
//! `<Key>:` blanks digits blanks `kB` blanks, where a blank is a space, a
//! tab or a carriage return and at least one blank stands before the unit.
//! The first line that starts with `<Key>:` is the field's line; other lines
//! are not looked at.

use vstd::prelude::*;
use vstd::string::*;

verus! {

/// Space, tab or carriage return.
pub open spec fn is_blank(b: u8) -> bool {
    b == 32 || b == 9 || b == 13
}

/// An ASCII decimal digit.
pub open spec fn is_digit(b: u8) -> bool {
    48 <= b <= 57
}

/// Index of the first `\n` of `s` at or after `i`, or the length of `s`.
pub open spec fn line_end(s: Seq<u8>, i: int) -> int
    decreases s.len() - i,
{
    if i >= s.len() {
        s.len() as int
    } else if s[i] == 10 {
        i
    } else {
        line_end(s, i + 1)
    }
}

/// First index in `[i, end]` that holds no blank.
pub open spec fn skip_blanks(s: Seq<u8>, i: int, end: int) -> int
    decreases end - i,
{
    if i < end && is_blank(s[i]) {
        skip_blanks(s, i + 1, end)
    } else {
        i
    }
}

/// First index in `[i, end]` that holds no digit.
pub open spec fn digits_end(s: Seq<u8>, i: int, end: int) -> int
    decreases end - i,
{
    if i < end && is_digit(s[i]) {
        digits_end(s, i + 1, end)
    } else {
        i
    }
}

/// The number that the digits `s[from..to]` write in base ten.
pub open spec fn decimal_value(s: Seq<u8>, from: int, to: int) -> nat
    decreases to - from,
{
    if to <= from {
        0
    } else {
        (decimal_value(s, from, to - 1) * 10 + (s[to - 1] - 48)) as nat
    }
}

/// Every byte of `s[from..to]` is a blank.
pub open spec fn all_blank(s: Seq<u8>, from: int, to: int) -> bool {
    forall|k: int| from <= k < to ==> is_blank(#[trigger] s[k])
}

/// The kilobyte figure that `s[from..end]` writes, if it has the form
/// blanks digits blanks `kB` blanks and the number fits 64 bits.
pub open spec fn parse_kb(s: Seq<u8>, from: int, end: int) -> Option<u64> {
    let a = skip_blanks(s, from, end);
    let b = digits_end(s, a, end);
    let c = skip_blanks(s, b, end);
    if a < b && decimal_value(s, a, b) <= u64::MAX && b < c && c + 2 <= end && s[c] == 107 && s[c
        + 1] == 66 && all_blank(s, c + 2, end) {
        Some(decimal_value(s, a, b) as u64)
    } else {
        None
    }
}

/// The line `s[start..end]` starts with `key` and a colon.
pub open spec fn has_key(s: Seq<u8>, start: int, end: int, key: Seq<u8>) -> bool {
    &&& start + key.len() < end
    &&& s.subrange(start, start + key.len()) == key
    &&& s[start + key.len()] == 58
}

/// What a file says of one field.
#[derive(Clone, Copy, Debug, PartialEq, Eq, Structural)]
pub enum FieldValue {
    /// No line starts with the key.
    Missing,
    /// The field's line does not write a kilobyte figure.
    Malformed,
    /// The figure, in kilobytes.
    Kilobytes(u64),
}

/// What the lines of `s` from index `start` on say of the field `key`.
pub open spec fn field_from(s: Seq<u8>, key: Seq<u8>, start: int) -> FieldValue
    decreases s.len() + 1 - start,
    when start >= 0
    via field_from_terminates
{
    if start >= s.len() {
        FieldValue::Missing
    } else {
        let end = line_end(s, start);
        if has_key(s, start, end, key) {
            match parse_kb(s, start + key.len() + 1, end) {
                Some(kb) => FieldValue::Kilobytes(kb),
                None => FieldValue::Malformed,
            }
        } else {
            field_from(s, key, end + 1)
        }
    }
}

#[via_fn]
proof fn field_from_terminates(s: Seq<u8>, key: Seq<u8>, start: int) {
    if 0 <= start < s.len() {
        lemma_line_end_bounds(s, start);
    }
}

/// What the file `s` says of the field `key`.
pub open spec fn field_of(s: Seq<u8>, key: Seq<u8>) -> FieldValue {
    field_from(s, key, 0)
}

/// The figure of a field that may be left out: zero unless it is written.
pub open spec fn or_zero(value: FieldValue) -> u64 {
    match value {
        FieldValue::Kilobytes(kb) => kb,
        _ => 0,
    }
}

/// A line ends at or after the place it is looked for from.
pub proof fn lemma_line_end_bounds(s: Seq<u8>, i: int)
    requires
        0 <= i <= s.len(),
    ensures
        i <= line_end(s, i) <= s.len(),
    decreases s.len() - i,
{
    if i < s.len() && s[i] != 10 {
        lemma_line_end_bounds(s, i + 1);
    }
}

proof fn lemma_decimal_grows(s: Seq<u8>, from: int, mid: int, to: int)
    requires
        from <= mid <= to,
        forall|k: int| from <= k < to ==> is_digit(#[trigger] s[k]),
    ensures
        decimal_value(s, from, mid) <= decimal_value(s, from, to),
    decreases to - mid,
{
    if mid < to {
        lemma_decimal_grows(s, from, mid, to - 1);
    }
}

fn find_line_end(s: &[u8], start: usize) -> (end: usize)
    requires
        start <= s.len(),
    ensures
        end == line_end(s@, start as int),
        start <= end <= s.len(),
{
    let mut i: usize = start;
    while i < s.len() && s[i] != 10
        invariant
            start <= i <= s.len(),
            line_end(s@, start as int) == line_end(s@, i as int),
        decreases s.len() - i,
    {
        i += 1;
    }
    i
}

fn find_blanks_end(s: &[u8], start: usize, end: usize) -> (stop: usize)
    requires
        start <= end <= s.len(),
    ensures
        stop == skip_blanks(s@, start as int, end as int),
        start <= stop <= end,
{
    let mut i: usize = start;
    while i < end && (s[i] == 32 || s[i] == 9 || s[i] == 13)
        invariant
            start <= i <= end <= s.len(),
            skip_blanks(s@, start as int, end as int) == skip_blanks(s@, i as int, end as int),
        decreases end - i,
    {
        i += 1;
    }
    i
}

/// Finds where the run of digits that starts at `start` ends.
pub fn find_digits_end(s: &[u8], start: usize, end: usize) -> (stop: usize)
    requires
        start <= end <= s.len(),
    ensures
        stop == digits_end(s@, start as int, end as int),
        start <= stop <= end,
        forall|k: int| start <= k < stop ==> is_digit(#[trigger] s@[k]),
{
    let mut i: usize = start;
    while i < end && 48 <= s[i] && s[i] <= 57
        invariant
            start <= i <= end <= s.len(),
            digits_end(s@, start as int, end as int) == digits_end(s@, i as int, end as int),
            forall|k: int| start <= k < i ==> is_digit(#[trigger] s@[k]),
        decreases end - i,
    {
        i += 1;
    }
    i
}

/// Reads the digits `s[from..to]` as a number, if it fits 64 bits.
pub fn read_decimal(s: &[u8], from: usize, to: usize) -> (value: Option<u64>)
    requires
        from <= to <= s.len(),
        forall|k: int| from <= k < to ==> is_digit(#[trigger] s@[k]),
    ensures
        value is Some <==> decimal_value(s@, from as int, to as int) <= u64::MAX,
        value is Some ==> value->0 == decimal_value(s@, from as int, to as int),
{
    let mut acc: u64 = 0;
    let mut i: usize = from;
    while i < to
        invariant
            from <= i <= to <= s.len(),
            forall|k: int| from <= k < to ==> is_digit(#[trigger] s@[k]),
            acc == decimal_value(s@, from as int, i as int),
        decreases to - i,
    {
        assert(is_digit(s@[i as int]));
        let digit: u64 = (s[i] - 48) as u64;
        if acc > (u64::MAX - digit) / 10 {
            proof {
                lemma_decimal_grows(s@, from as int, i + 1, to as int);
            }
            return None;
        }
        acc = acc * 10 + digit;
        i += 1;
    }
    Some(acc)
}

/// Reads the kilobyte figure that `s[from..end]` writes.
pub fn read_kb(s: &[u8], from: usize, end: usize) -> (kb: Option<u64>)
    requires
        from <= end <= s.len(),
    ensures
        kb == parse_kb(s@, from as int, end as int),
{
    let a = find_blanks_end(s, from, end);
    let b = find_digits_end(s, a, end);
    let c = find_blanks_end(s, b, end);
    if !(a < b && b < c && c <= end - 2 && end >= 2) {
        return None;
    }
    if s[c] != 107 || s[c + 1] != 66 {
        return None;
    }
    let tail = find_blanks_end(s, c + 2, end);
    proof {
        lemma_blank_run(s@, c + 2, end as int);
    }
    if tail != end {
        return None;
    }
    read_decimal(s, a, b)
}

proof fn lemma_blank_run(s: Seq<u8>, from: int, end: int)
    requires
        from <= end,
    ensures
        all_blank(s, from, end) <==> skip_blanks(s, from, end) == end,
        from <= skip_blanks(s, from, end) <= end,
        skip_blanks(s, from, end) < end ==> !is_blank(s[skip_blanks(s, from, end)]),
    decreases end - from,
{
    if from < end && is_blank(s[from]) {
        lemma_blank_run(s, from + 1, end);
        if all_blank(s, from + 1, end) {
            assert forall|k: int| from <= k < end implies is_blank(#[trigger] s[k]) by {
                if k > from {
                }
            }
        }
    } else if from < end {
        assert(!is_blank(s[from]));
    }
}

fn starts_with_key(s: &[u8], start: usize, end: usize, key: &[u8]) -> (found: bool)
    requires
        start <= end <= s.len(),
    ensures
        found == has_key(s@, start as int, end as int, key@),
{
    if key.len() >= end - start {
        return false;
    }
    let mut i: usize = 0;
    while i < key.len()
        invariant
            i <= key.len(),
            start + key.len() < end <= s.len(),
            s@.subrange(start as int, start + i) == key@.subrange(0, i as int),
        decreases key.len() - i,
    {
        if s[start + i] != key[i] {
            assert(s@.subrange(start as int, start + key.len())[i as int] != key@[i as int]);
            return false;
        }
        assert(s@.subrange(start as int, start + i + 1) =~= s@.subrange(
            start as int,
            start + i,
        ).push(s@[start + i]));
        assert(key@.subrange(0, i + 1) =~= key@.subrange(0, i as int).push(key@[i as int]));
        i += 1;
    }
    assert(key@.subrange(0, key.len() as int) =~= key@);
    s[start + key.len()] == 58
}

/// Looks the field `key` up in the file `s`.
pub fn read_field(s: &[u8], key: &str) -> (value: FieldValue)
    ensures
        value == field_of(s@, key.spec_bytes()),
{
    let key_bytes = key.as_bytes();
    let mut start: usize = 0;
    while start < s.len()
        invariant
            start <= s.len(),
            key_bytes@ == key.spec_bytes(),
            field_of(s@, key.spec_bytes()) == field_from(s@, key.spec_bytes(), start as int),
        decreases s.len() - start,
    {
        let end = find_line_end(s, start);
        if starts_with_key(s, start, end, key_bytes) {
            return match read_kb(s, start + key_bytes.len() + 1, end) {
                Some(kb) => FieldValue::Kilobytes(kb),
                None => FieldValue::Malformed,
            };
        }
        if end == s.len() {
            assert(field_from(s@, key.spec_bytes(), end + 1) == FieldValue::Missing);
            return FieldValue::Missing;
        }
        start = end + 1;
    }
    FieldValue::Missing
}

} // verus!
