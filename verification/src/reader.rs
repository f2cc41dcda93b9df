//! Turns what was read of single kernel pseudo-files into typed values.
//!
//! The caller opens and reads the files; this module judges each outcome.
//! Of the memory rollup, `Pss` and `Rss` must be written; `SwapPss`,
//! `Private_Dirty` and `Shared_Dirty` count as zero where they are missing or
//! do not write a figure.

use vstd::prelude::*;
use vstd::string::*;
use crate::sample::{CollectionFailure, FailureReason, FatalError, MemoryFields};
use crate::text::{field_of, lemma_line_end_bounds, line_end, or_zero, read_field, FieldValue};

verus! {

/// How an attempt to read one file ended.
#[derive(Debug, PartialEq, Eq)]
pub enum FileRead {
    /// The whole content of the file.
    Content(Vec<u8>),
    /// There is no such file.
    NotFound,
    /// The file may not be read.
    PermissionDenied,
    /// The process was gone when the file was read.
    Vanished,
    /// Any other failure.
    Failed,
}

/// What the memory rollup of a process yields.
#[derive(Clone, Copy, Debug, PartialEq, Eq, Structural)]
pub enum RollupRead {
    /// The precise figures.
    Fields(MemoryFields),
    /// No rollup is to be had: the status file is to be tried.
    Retry,
    /// The process is skipped.
    Failure(CollectionFailure),
}

/// The longest command name that is shown, in bytes.
pub const COMMAND_WIDTH: usize = 32;

/// The figures that the rollup text `s` writes, if it writes `Pss` and `Rss`.
pub open spec fn rollup_fields(s: Seq<u8>) -> Option<MemoryFields> {
    match (field_of(s, "Pss".spec_bytes()), field_of(s, "Rss".spec_bytes())) {
        (FieldValue::Kilobytes(pss_kb), FieldValue::Kilobytes(rss_kb)) => Some(
            MemoryFields {
                pss_kb,
                rss_kb,
                swap_pss_kb: or_zero(field_of(s, "SwapPss".spec_bytes())),
                private_dirty_kb: or_zero(field_of(s, "Private_Dirty".spec_bytes())),
                shared_dirty_kb: or_zero(field_of(s, "Shared_Dirty".spec_bytes())),
            },
        ),
        _ => None,
    }
}

/// What the rollup read `read` of process `pid` yields.
pub open spec fn rollup_of(pid: u32, read: FileRead) -> RollupRead {
    match read {
        FileRead::Content(bytes) => match rollup_fields(bytes@) {
            Some(fields) => RollupRead::Fields(fields),
            None => RollupRead::Failure(
                CollectionFailure { pid, reason: FailureReason::MalformedData },
            ),
        },
        FileRead::NotFound => RollupRead::Retry,
        FileRead::PermissionDenied => RollupRead::Retry,
        FileRead::Vanished => RollupRead::Failure(
            CollectionFailure { pid, reason: FailureReason::VanishedBeforeRead },
        ),
        FileRead::Failed => RollupRead::Failure(
            CollectionFailure { pid, reason: FailureReason::Unreadable },
        ),
    }
}

/// The figures of degraded accounting: the resident size and nothing else.
pub open spec fn degraded_fields(rss_kb: u64) -> MemoryFields {
    MemoryFields { pss_kb: 0, rss_kb, swap_pss_kb: 0, private_dirty_kb: 0, shared_dirty_kb: 0 }
}

/// What the status read `read` of process `pid` yields.
pub open spec fn status_of(pid: u32, read: FileRead) -> Result<MemoryFields, CollectionFailure> {
    match read {
        FileRead::Content(bytes) => match field_of(bytes@, "VmRSS".spec_bytes()) {
            FieldValue::Kilobytes(rss_kb) => Ok(degraded_fields(rss_kb)),
            _ => Err(CollectionFailure { pid, reason: FailureReason::MalformedData }),
        },
        FileRead::NotFound => Err(
            CollectionFailure { pid, reason: FailureReason::VanishedBeforeRead },
        ),
        FileRead::PermissionDenied => Err(
            CollectionFailure { pid, reason: FailureReason::PermissionDenied },
        ),
        FileRead::Vanished => Err(
            CollectionFailure { pid, reason: FailureReason::VanishedBeforeRead },
        ),
        FileRead::Failed => Err(CollectionFailure { pid, reason: FailureReason::Unreadable }),
    }
}

/// A byte as it is shown: printable ASCII stays, anything else becomes `?`.
pub open spec fn display_byte(b: u8) -> u8 {
    if 32 <= b <= 126 {
        b
    } else {
        63
    }
}

/// The first line of `s`, cut to [`COMMAND_WIDTH`] bytes, each byte as shown.
pub open spec fn command_text(s: Seq<u8>) -> Seq<u8> {
    let width = if line_end(s, 0) < COMMAND_WIDTH {
        line_end(s, 0)
    } else {
        COMMAND_WIDTH as int
    };
    Seq::new(width as nat, |i: int| display_byte(s[i]))
}

/// The name shown where none could be read: a single `?`.
pub open spec fn placeholder_name() -> Seq<u8> {
    seq![63u8]
}

/// The command name that the read `read` yields; the placeholder where the
/// read failed or the name is empty.
pub open spec fn command_name_of(read: FileRead) -> Seq<u8> {
    match read {
        FileRead::Content(bytes) => if command_text(bytes@).len() > 0 {
            command_text(bytes@)
        } else {
            placeholder_name()
        },
        _ => placeholder_name(),
    }
}

/// What the read `read` of the system memory information yields.
pub open spec fn system_total_of(read: FileRead) -> Result<u64, FatalError> {
    match read {
        FileRead::Content(bytes) => match field_of(bytes@, "MemTotal".spec_bytes()) {
            FieldValue::Kilobytes(total_kb) => Ok(total_kb),
            _ => Err(FatalError::SystemTotalMalformed),
        },
        _ => Err(FatalError::SystemTotalUnreadable),
    }
}

/// Value of a field that may be left out.
fn optional_kb(value: FieldValue) -> (kb: u64)
    ensures
        kb == or_zero(value),
{
    match value {
        FieldValue::Kilobytes(kb) => kb,
        _ => 0,
    }
}

/// Parses the text of a memory rollup.
pub fn parse_memory_rollup(text: &[u8]) -> (fields: Option<MemoryFields>)
    ensures
        fields == rollup_fields(text@),
{
    let pss_kb = match read_field(text, "Pss") {
        FieldValue::Kilobytes(kb) => kb,
        _ => {
            return None;
        },
    };
    let rss_kb = match read_field(text, "Rss") {
        FieldValue::Kilobytes(kb) => kb,
        _ => {
            return None;
        },
    };
    Some(
        MemoryFields {
            pss_kb,
            rss_kb,
            swap_pss_kb: optional_kb(read_field(text, "SwapPss")),
            private_dirty_kb: optional_kb(read_field(text, "Private_Dirty")),
            shared_dirty_kb: optional_kb(read_field(text, "Shared_Dirty")),
        },
    )
}

/// Judges the read of the memory rollup of process `pid`: the precise
/// figures, a call for the degraded path where the file is absent or
/// denied, or the failure to record.
pub fn read_memory_rollup(pid: u32, read: &FileRead) -> (outcome: RollupRead)
    ensures
        outcome == rollup_of(pid, *read),
{
    match read {
        FileRead::Content(bytes) => match parse_memory_rollup(bytes.as_slice()) {
            Some(fields) => RollupRead::Fields(fields),
            None => RollupRead::Failure(
                CollectionFailure { pid, reason: FailureReason::MalformedData },
            ),
        },
        FileRead::NotFound => RollupRead::Retry,
        FileRead::PermissionDenied => RollupRead::Retry,
        FileRead::Vanished => RollupRead::Failure(
            CollectionFailure { pid, reason: FailureReason::VanishedBeforeRead },
        ),
        FileRead::Failed => RollupRead::Failure(
            CollectionFailure { pid, reason: FailureReason::Unreadable },
        ),
    }
}

/// Judges the read of the status file of process `pid`: the degraded
/// figures, or the failure to record.
pub fn read_status_fallback(pid: u32, read: &FileRead) -> (outcome: Result<
    MemoryFields,
    CollectionFailure,
>)
    ensures
        outcome == status_of(pid, *read),
{
    match read {
        FileRead::Content(bytes) => match read_field(bytes.as_slice(), "VmRSS") {
            FieldValue::Kilobytes(rss_kb) => Ok(
                MemoryFields {
                    pss_kb: 0,
                    rss_kb,
                    swap_pss_kb: 0,
                    private_dirty_kb: 0,
                    shared_dirty_kb: 0,
                },
            ),
            _ => Err(CollectionFailure { pid, reason: FailureReason::MalformedData }),
        },
        FileRead::NotFound => Err(
            CollectionFailure { pid, reason: FailureReason::VanishedBeforeRead },
        ),
        FileRead::PermissionDenied => Err(
            CollectionFailure { pid, reason: FailureReason::PermissionDenied },
        ),
        FileRead::Vanished => Err(
            CollectionFailure { pid, reason: FailureReason::VanishedBeforeRead },
        ),
        FileRead::Failed => Err(CollectionFailure { pid, reason: FailureReason::Unreadable }),
    }
}

/// Cuts and cleans the text of a command-name file.
fn clean_command(text: &[u8]) -> (name: Vec<u8>)
    ensures
        name@ == command_text(text@),
{
    let mut name: Vec<u8> = Vec::new();
    let mut i: usize = 0;
    while i < text.len() && i < COMMAND_WIDTH && text[i] != 10
        invariant
            i <= text.len(),
            i <= COMMAND_WIDTH,
            line_end(text@, 0) == line_end(text@, i as int),
            name@ == Seq::new(i as nat, |k: int| display_byte(text@[k])),
        decreases text.len() - i,
    {
        let b = text[i];
        let shown: u8 = if 32 <= b && b <= 126 {
            b
        } else {
            63
        };
        name.push(shown);
        assert(name@ =~= Seq::new((i + 1) as nat, |k: int| display_byte(text@[k])));
        i += 1;
    }
    proof {
        if i < text.len() && i < COMMAND_WIDTH {
            assert(line_end(text@, 0) == i);
        } else if i >= text.len() {
            assert(line_end(text@, 0) == i);
        } else {
            lemma_line_end_bounds(text@, i as int);
        }
    }
    name
}

/// The command name to show for a process, from the read of its name file.
/// Never fails: a failed read or an empty name gives the placeholder `?`.
pub fn read_command_name(read: &FileRead) -> (name: Vec<u8>)
    ensures
        name@ == command_name_of(*read),
{
    match read {
        FileRead::Content(bytes) => {
            let name = clean_command(bytes.as_slice());
            if name.len() > 0 {
                return name;
            }
        },
        _ => {},
    }
    let mut placeholder: Vec<u8> = Vec::new();
    placeholder.push(63);
    assert(placeholder@ =~= placeholder_name());
    placeholder
}

/// The installed memory of the host in kilobytes, from the read of the
/// system memory information; an error where it cannot be had.
pub fn read_system_total_kb(read: &FileRead) -> (total: Result<u64, FatalError>)
    ensures
        total == system_total_of(*read),
{
    match read {
        FileRead::Content(bytes) => match read_field(bytes.as_slice(), "MemTotal") {
            FieldValue::Kilobytes(total_kb) => Ok(total_kb),
            _ => Err(FatalError::SystemTotalMalformed),
        },
        _ => Err(FatalError::SystemTotalUnreadable),
    }
}

} // verus!
