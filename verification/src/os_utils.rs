//! Kernel release strings and the oldest kernel that offers the memory rollup.
//!
//! A release string such as `5.15.0-91-generic` is trimmed of white space
//! and cut at its dots. The first two parts are the major and the minor
//! number; a part that is missing or is not a plain number counts as zero.

use vstd::prelude::*;
use vstd::string::*;

verus! {

/// A character that Unicode classes as white space.
pub open spec fn is_whitespace(c: char) -> bool {
    let code = c as u32;
    ||| 0x09 <= code <= 0x0d
    ||| code == 0x20
    ||| code == 0x85
    ||| code == 0xa0
    ||| code == 0x1680
    ||| 0x2000 <= code <= 0x200a
    ||| code == 0x2028
    ||| code == 0x2029
    ||| code == 0x202f
    ||| code == 0x205f
    ||| code == 0x3000
}

/// An ASCII decimal digit.
pub open spec fn is_decimal(c: char) -> bool {
    0x30 <= c as u32 <= 0x39
}

/// First index in `[i, end]` that holds no white space.
pub open spec fn leading_space_end(s: Seq<char>, i: int, end: int) -> int
    decreases end - i,
{
    if i < end && is_whitespace(s[i]) {
        leading_space_end(s, i + 1, end)
    } else {
        i
    }
}

/// Last index in `[start, end]` before which no white space stands.
pub open spec fn trailing_space_start(s: Seq<char>, start: int, end: int) -> int
    decreases end - start,
{
    if start < end && is_whitespace(s[end - 1]) {
        trailing_space_start(s, start, end - 1)
    } else {
        end
    }
}

/// Index of the first dot in `[i, end)`, or `end`.
pub open spec fn part_end(s: Seq<char>, i: int, end: int) -> int
    decreases end - i,
{
    if i < end && s[i] != '.' {
        part_end(s, i + 1, end)
    } else {
        i
    }
}

/// The number that the digits `s[from..to]` write in base ten.
pub open spec fn digits_value(s: Seq<char>, from: int, to: int) -> int
    decreases to - from,
{
    if to <= from {
        0
    } else {
        digits_value(s, from, to - 1) * 10 + (s[to - 1] as u32 - 0x30)
    }
}

/// Every character of `s[from..to]` is a digit.
pub open spec fn all_decimal(s: Seq<char>, from: int, to: int) -> bool {
    forall|k: int| from <= k < to ==> is_decimal(#[trigger] s[k])
}

/// The number that `s[from..to]` writes: digits, with or without a plus
/// sign before them, that fit 32 bits. Anything else counts as zero.
pub open spec fn number_or_zero(s: Seq<char>, from: int, to: int) -> u32 {
    let start = if from < to && s[from] == '+' {
        from + 1
    } else {
        from
    };
    if start < to && all_decimal(s, start, to) && digits_value(s, start, to) <= u32::MAX {
        digits_value(s, start, to) as u32
    } else {
        0
    }
}

/// Major and minor number of the kernel release `s`.
pub open spec fn kernel_version_of(s: Seq<char>) -> (u32, u32) {
    let start = leading_space_end(s, 0, s.len() as int);
    let end = trailing_space_start(s, start, s.len() as int);
    let first_dot = part_end(s, start, end);
    let major = number_or_zero(s, start, first_dot);
    if first_dot < end {
        (major, number_or_zero(s, first_dot + 1, part_end(s, first_dot + 1, end)))
    } else {
        (major, 0)
    }
}

/// Whether kernel `major.minor` is older than 4.14, the first release that
/// offers the per-process memory rollup.
pub open spec fn spec_kernel_too_old(major: u32, minor: u32) -> bool {
    major < 4 || (major == 4 && minor < 14)
}

/// The version to warn about: that of the release `s`, if it is too old.
pub open spec fn kernel_warning_of(s: Seq<char>) -> Option<(u32, u32)> {
    let version = kernel_version_of(s);
    if spec_kernel_too_old(version.0, version.1) {
        Some(version)
    } else {
        None
    }
}

proof fn lemma_digits_value_grows(s: Seq<char>, from: int, mid: int, to: int)
    requires
        from <= mid <= to,
        all_decimal(s, from, to),
    ensures
        0 <= digits_value(s, from, mid) <= digits_value(s, from, to),
    decreases to - mid,
{
    if mid < to {
        lemma_digits_value_grows(s, from, mid, to - 1);
        assert(is_decimal(s[to - 1]));
    } else {
        lemma_digits_value_positive(s, from, mid);
    }
}

proof fn lemma_digits_value_positive(s: Seq<char>, from: int, to: int)
    requires
        from <= to,
        all_decimal(s, from, to),
    ensures
        0 <= digits_value(s, from, to),
    decreases to - from,
{
    if from < to {
        lemma_digits_value_positive(s, from, to - 1);
        assert(is_decimal(s[to - 1]));
    }
}

fn char_is_whitespace(c: char) -> (white: bool)
    ensures
        white == is_whitespace(c),
{
    let code = c as u32;
    (0x09 <= code && code <= 0x0d) || code == 0x20 || code == 0x85 || code == 0xa0 || code
        == 0x1680 || (0x2000 <= code && code <= 0x200a) || code == 0x2028 || code == 0x2029 || code
        == 0x202f || code == 0x205f || code == 0x3000
}

/// Reads `text[from..to]` as a number, zero where it is none.
fn read_number(text: &Vec<char>, from: usize, to: usize) -> (number: u32)
    requires
        from <= to <= text.len(),
    ensures
        number == number_or_zero(text@, from as int, to as int),
{
    let start = if from < to && text[from] == '+' {
        from + 1
    } else {
        from
    };
    if start >= to {
        return 0;
    }
    let mut acc: u64 = 0;
    let mut i: usize = start;
    while i < to
        invariant
            start <= i <= to <= text.len(),
            from <= to,
            start == if from < to && text@[from as int] == '+' {
                from + 1
            } else {
                from as int
            },
            all_decimal(text@, start as int, i as int),
            acc == digits_value(text@, start as int, i as int),
            acc <= u32::MAX,
        decreases to - i,
    {
        let code = text[i] as u32;
        if code < 0x30 || code > 0x39 {
            assert(!is_decimal(text@[i as int]));
            return 0;
        }
        acc = acc * 10 + (code - 0x30) as u64;
        if acc > 0xffff_ffff {
            proof {
                if all_decimal(text@, start as int, to as int) {
                    lemma_digits_value_grows(text@, start as int, i + 1, to as int);
                }
            }
            return 0;
        }
        i += 1;
    }
    acc as u32
}

/// Major and minor number of the kernel release `release`.
pub fn parse_kernel_version(release: &str) -> (version: (u32, u32))
    ensures
        version == kernel_version_of(release@),
{
    let len = release.unicode_len();
    let mut text: Vec<char> = Vec::new();
    let mut n: usize = 0;
    while n < len
        invariant
            n <= len,
            len == release@.len(),
            text@ == release@.take(n as int),
        decreases len - n,
    {
        text.push(release.get_char(n));
        assert(text@ =~= release@.take(n + 1));
        n += 1;
    }
    assert(text@ =~= release@);
    let mut start: usize = 0;
    while start < len && char_is_whitespace(text[start])
        invariant
            start <= len,
            len == text.len(),
            leading_space_end(text@, 0, len as int) == leading_space_end(
                text@,
                start as int,
                len as int,
            ),
        decreases len - start,
    {
        start += 1;
    }
    let mut end: usize = len;
    while start < end && char_is_whitespace(text[end - 1])
        invariant
            start <= end <= len,
            len == text.len(),
            trailing_space_start(text@, start as int, len as int) == trailing_space_start(
                text@,
                start as int,
                end as int,
            ),
        decreases end - start,
    {
        end -= 1;
    }
    let first_dot = find_part_end(&text, start, end);
    let major = read_number(&text, start, first_dot);
    if first_dot < end {
        let second_dot = find_part_end(&text, first_dot + 1, end);
        (major, read_number(&text, first_dot + 1, second_dot))
    } else {
        (major, 0)
    }
}

fn find_part_end(text: &Vec<char>, from: usize, end: usize) -> (stop: usize)
    requires
        from <= end <= text.len(),
    ensures
        stop == part_end(text@, from as int, end as int),
        from <= stop <= end,
{
    let mut i: usize = from;
    while i < end && text[i] != '.'
        invariant
            from <= i <= end <= text.len(),
            part_end(text@, from as int, end as int) == part_end(text@, i as int, end as int),
        decreases end - i,
    {
        i += 1;
    }
    i
}

/// Tells whether kernel `major.minor` predates the memory rollup.
pub fn kernel_too_old(major: u32, minor: u32) -> (old_kernel: bool)
    ensures
        old_kernel == spec_kernel_too_old(major, minor),
{
    major < 4 || (major == 4 && minor < 14)
}

/// Checks the kernel release `release`: the version to warn about if it
/// predates the memory rollup, nothing otherwise. An old kernel is no
/// error; precise accounting may be missing on it.
pub fn check_kernel_version(release: &str) -> (warning: Option<(u32, u32)>)
    ensures
        warning == kernel_warning_of(release@),
{
    let (major, minor) = parse_kernel_version(release);
    if kernel_too_old(major, minor) {
        Some((major, minor))
    } else {
        None
    }
}

} // verus!
