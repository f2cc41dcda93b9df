use memwatch::reader::{
    parse_memory_rollup, read_command_name, read_memory_rollup, read_status_fallback,
    read_system_total_kb, FileRead, RollupRead, COMMAND_WIDTH,
};
use memwatch::sample::{CollectionFailure, FailureReason, FatalError, MemoryFields};
use memwatch::text::{read_field, read_kb, FieldValue};

const ROLLUP: &[u8] = b"55d0c6a4d000-7ffd5a5f5000 ---p 00000000 00:00 0    [rollup]\n\
Rss:                4936 kB\n\
Pss:                 511 kB\n\
Pss_Dirty:           400 kB\n\
Shared_Clean:       4512 kB\n\
Shared_Dirty:          7 kB\n\
Private_Clean:        12 kB\n\
Private_Dirty:       412 kB\n\
Swap:                  3 kB\n\
SwapPss:               2 kB\n\
Locked:                0 kB\n";

#[test]
fn rollup_fields_are_extracted() {
    let fields = parse_memory_rollup(ROLLUP);
    assert_eq!(
        fields,
        Some(MemoryFields {
            pss_kb: 511,
            rss_kb: 4936,
            swap_pss_kb: 2,
            private_dirty_kb: 412,
            shared_dirty_kb: 7,
        })
    );
}

#[test]
fn rollup_key_must_match_whole_key() {
    // `Pss_Dirty:` and `Swap:` are other fields than `Pss:` and `SwapPss:`.
    let text = b"Pss_Dirty: 9 kB\nRss: 2 kB\nPss: 1 kB\nSwap: 8 kB\n";
    let fields = parse_memory_rollup(text).unwrap();
    assert_eq!(fields.pss_kb, 1);
    assert_eq!(fields.swap_pss_kb, 0);
}

#[test]
fn rollup_unknown_keys_are_ignored() {
    let text = b"Future_Field: 77 kB\nnot a field line at all\nPss: 10 kB\nRss: 20 kB\n";
    let fields = parse_memory_rollup(text).unwrap();
    assert_eq!((fields.pss_kb, fields.rss_kb), (10, 20));
}

#[test]
fn rollup_without_pss_is_malformed() {
    let read = FileRead::Content(b"Rss: 20 kB\n".to_vec());
    assert_eq!(
        read_memory_rollup(7, &read),
        RollupRead::Failure(CollectionFailure { pid: 7, reason: FailureReason::MalformedData })
    );
}

#[test]
fn rollup_with_non_numeric_rss_is_malformed() {
    let read = FileRead::Content(b"Pss: 10 kB\nRss: lots kB\n".to_vec());
    assert_eq!(
        read_memory_rollup(7, &read),
        RollupRead::Failure(CollectionFailure { pid: 7, reason: FailureReason::MalformedData })
    );
}

#[test]
fn rollup_empty_file_is_malformed() {
    let read = FileRead::Content(Vec::new());
    assert_eq!(
        read_memory_rollup(9, &read),
        RollupRead::Failure(CollectionFailure { pid: 9, reason: FailureReason::MalformedData })
    );
}

#[test]
fn rollup_optional_fields_default_to_zero() {
    let text = b"Pss: 10 kB\nRss: 20 kB\nSwapPss: garbage\n";
    assert_eq!(
        parse_memory_rollup(text),
        Some(MemoryFields {
            pss_kb: 10,
            rss_kb: 20,
            swap_pss_kb: 0,
            private_dirty_kb: 0,
            shared_dirty_kb: 0,
        })
    );
}

#[test]
fn rollup_absent_or_denied_calls_for_the_fallback() {
    assert_eq!(read_memory_rollup(1, &FileRead::NotFound), RollupRead::Retry);
    assert_eq!(read_memory_rollup(1, &FileRead::PermissionDenied), RollupRead::Retry);
}

#[test]
fn rollup_other_failures_skip_the_process() {
    assert_eq!(
        read_memory_rollup(3, &FileRead::Vanished),
        RollupRead::Failure(CollectionFailure {
            pid: 3,
            reason: FailureReason::VanishedBeforeRead
        })
    );
    assert_eq!(
        read_memory_rollup(3, &FileRead::Failed),
        RollupRead::Failure(CollectionFailure { pid: 3, reason: FailureReason::Unreadable })
    );
}

#[test]
fn status_fallback_reports_rss_only() {
    let read = FileRead::Content(b"Name:\tbash\nVmPeak:\t   9000 kB\nVmRSS:\t    4936 kB\n".to_vec());
    assert_eq!(
        read_status_fallback(5, &read),
        Ok(MemoryFields {
            pss_kb: 0,
            rss_kb: 4936,
            swap_pss_kb: 0,
            private_dirty_kb: 0,
            shared_dirty_kb: 0,
        })
    );
}

#[test]
fn status_fallback_failures() {
    let fail = |reason| Err(CollectionFailure { pid: 5, reason });
    assert_eq!(
        read_status_fallback(5, &FileRead::Content(b"Name:\tkthreadd\n".to_vec())),
        fail(FailureReason::MalformedData)
    );
    assert_eq!(
        read_status_fallback(5, &FileRead::NotFound),
        fail(FailureReason::VanishedBeforeRead)
    );
    assert_eq!(
        read_status_fallback(5, &FileRead::Vanished),
        fail(FailureReason::VanishedBeforeRead)
    );
    assert_eq!(
        read_status_fallback(5, &FileRead::PermissionDenied),
        fail(FailureReason::PermissionDenied)
    );
    assert_eq!(read_status_fallback(5, &FileRead::Failed), fail(FailureReason::Unreadable));
}

#[test]
fn command_name_is_first_line() {
    assert_eq!(read_command_name(&FileRead::Content(b"bash\n".to_vec())), b"bash".to_vec());
    assert_eq!(read_command_name(&FileRead::Content(b"a b\nrest".to_vec())), b"a b".to_vec());
}

#[test]
fn command_name_is_truncated() {
    let long = vec![b'x'; 100];
    let name = read_command_name(&FileRead::Content(long));
    assert_eq!(COMMAND_WIDTH, 32);
    assert_eq!(name, vec![b'x'; 32]);
}

#[test]
fn command_name_is_sanitized() {
    let name = read_command_name(&FileRead::Content(vec![b'a', 0x07, 0xc3, 0xa9, b'~', 0x7f]));
    assert_eq!(name, b"a???~?".to_vec());
}

#[test]
fn command_name_placeholder() {
    assert_eq!(read_command_name(&FileRead::NotFound), b"?".to_vec());
    assert_eq!(read_command_name(&FileRead::PermissionDenied), b"?".to_vec());
    assert_eq!(read_command_name(&FileRead::Vanished), b"?".to_vec());
    assert_eq!(read_command_name(&FileRead::Failed), b"?".to_vec());
    assert_eq!(read_command_name(&FileRead::Content(Vec::new())), b"?".to_vec());
    assert_eq!(read_command_name(&FileRead::Content(b"\nname".to_vec())), b"?".to_vec());
}

#[test]
fn system_total_is_read() {
    let read = FileRead::Content(
        b"MemTotal:       16303428 kB\nMemFree:         1000000 kB\n".to_vec(),
    );
    assert_eq!(read_system_total_kb(&read), Ok(16303428));
}

#[test]
fn system_total_errors() {
    assert_eq!(
        read_system_total_kb(&FileRead::Content(b"MemFree: 1 kB\n".to_vec())),
        Err(FatalError::SystemTotalMalformed)
    );
    assert_eq!(
        read_system_total_kb(&FileRead::Content(b"MemTotal: many kB\n".to_vec())),
        Err(FatalError::SystemTotalMalformed)
    );
    assert_eq!(read_system_total_kb(&FileRead::NotFound), Err(FatalError::SystemTotalUnreadable));
    assert_eq!(
        read_system_total_kb(&FileRead::PermissionDenied),
        Err(FatalError::SystemTotalUnreadable)
    );
    assert_eq!(read_system_total_kb(&FileRead::Vanished), Err(FatalError::SystemTotalUnreadable));
    assert_eq!(read_system_total_kb(&FileRead::Failed), Err(FatalError::SystemTotalUnreadable));
}

#[test]
fn field_first_line_wins() {
    assert_eq!(read_field(b"A: 1 kB\nA: 2 kB\n", "A"), FieldValue::Kilobytes(1));
    assert_eq!(read_field(b"A: x kB\nA: 2 kB\n", "A"), FieldValue::Malformed);
}

#[test]
fn field_missing() {
    assert_eq!(read_field(b"", "A"), FieldValue::Missing);
    assert_eq!(read_field(b"B: 1 kB\n", "A"), FieldValue::Missing);
    assert_eq!(read_field(b" A: 1 kB\n", "A"), FieldValue::Missing);
    assert_eq!(read_field(b"A", "A"), FieldValue::Missing);
}

#[test]
fn field_last_line_without_newline() {
    assert_eq!(read_field(b"B: 1 kB\nA: 2 kB", "A"), FieldValue::Kilobytes(2));
}

#[test]
fn kilobyte_figures() {
    let kb = |text: &[u8]| read_kb(text, 0, text.len());
    assert_eq!(kb(b" 12 kB"), Some(12));
    assert_eq!(kb(b"\t  0 kB \r"), Some(0));
    assert_eq!(kb(b"007 kB"), Some(7));
    assert_eq!(kb(b"18446744073709551615 kB"), Some(u64::MAX));
    assert_eq!(kb(b"18446744073709551616 kB"), None);
    assert_eq!(kb(b"99999999999999999999999 kB"), None);
    assert_eq!(kb(b"12"), None);
    assert_eq!(kb(b"12kB"), None);
    assert_eq!(kb(b"12 MB"), None);
    assert_eq!(kb(b"12 kB x"), None);
    assert_eq!(kb(b"-12 kB"), None);
    assert_eq!(kb(b" kB"), None);
    assert_eq!(kb(b""), None);
}

#[test]
fn kilobyte_figure_within_bounds() {
    let text = b"xx 34 kB yy";
    assert_eq!(read_kb(text, 2, 8), Some(34));
    assert_eq!(read_kb(text, 2, 7), None);
}
