use memwatch::collector::{candidate_pids, parse_pid, Collector, Request};
use memwatch::reader::FileRead;
use memwatch::sample::{
    AccountingMode, CollectionFailure, FailureReason, FatalError, ProcessSample, Snapshot,
};

fn names(list: &[&str]) -> Vec<Vec<u8>> {
    list.iter().map(|name| name.as_bytes().to_vec()).collect()
}

fn rollup(pss: u64, rss: u64) -> FileRead {
    FileRead::Content(format!("Rss: {} kB\nPss: {} kB\nSwapPss: 1 kB\n", rss, pss).into_bytes())
}

fn meminfo() -> FileRead {
    FileRead::Content(b"MemTotal: 8000000 kB\n".to_vec())
}

/// Runs a pass in which the pids of `unreadable` cannot be read.
fn run_pass(entries: &[&str], unreadable: &[u32], total: FileRead) -> Result<Snapshot, FatalError> {
    let mut collector = Collector::new();
    collector.begin(&names(entries));
    let mut total = Some(total);
    loop {
        let read = match collector.next_request() {
            Request::Rollup(pid) => {
                if unreadable.contains(&pid) {
                    FileRead::Vanished
                } else {
                    rollup(pid as u64 * 10, pid as u64 * 20)
                }
            }
            Request::Status(_) => FileRead::Failed,
            Request::Command(pid) => FileRead::Content(format!("proc{}\n", pid).into_bytes()),
            Request::SystemTotal => total.take().unwrap(),
            Request::Nothing => break,
        };
        collector.supply(read);
    }
    collector.collect(42)
}

#[test]
fn pids_of_directory_entries() {
    assert_eq!(parse_pid(b"1"), Some(1));
    assert_eq!(parse_pid(b"4294967295"), Some(u32::MAX));
    assert_eq!(parse_pid(b"4294967296"), None);
    assert_eq!(parse_pid(b"99999999999999999999999"), None);
    assert_eq!(parse_pid(b""), None);
    assert_eq!(parse_pid(b"0"), None);
    assert_eq!(parse_pid(b"012"), None);
    assert_eq!(parse_pid(b"self"), None);
    assert_eq!(parse_pid(b"12a"), None);
    assert_eq!(parse_pid(b"+12"), None);
    assert_eq!(parse_pid(b" 12"), None);
}

#[test]
fn candidates_are_ascending_and_distinct() {
    let entries = names(&["300", "cpuinfo", "2", "self", "41", "2", "1000", "7", "meminfo", "41"]);
    assert_eq!(candidate_pids(&entries), vec![2, 7, 41, 300, 1000]);
    assert_eq!(candidate_pids(&names(&[])), Vec::<u32>::new());
    assert_eq!(candidate_pids(&names(&["uptime", "net"])), Vec::<u32>::new());
}

#[test]
fn resilience_counts_samples_and_failures() {
    let entries = ["5", "1", "9", "3", "7", "sys", "11"];
    let snapshot = run_pass(&entries, &[3, 9], meminfo()).unwrap();
    assert_eq!(snapshot.samples().len(), 4);
    assert_eq!(snapshot.failures().len(), 2);
    let pids: Vec<u32> = snapshot.samples().iter().map(|s| s.pid).collect();
    assert_eq!(pids, vec![1, 5, 7, 11]);
    assert_eq!(
        snapshot.failures(),
        &vec![
            CollectionFailure { pid: 3, reason: FailureReason::VanishedBeforeRead },
            CollectionFailure { pid: 9, reason: FailureReason::VanishedBeforeRead },
        ]
    );
    assert_eq!(snapshot.system_total_kb(), 8000000);
    assert_eq!(snapshot.timestamp_ms(), 42);
    assert_eq!(snapshot.global_accounting_mode(), AccountingMode::Precise);
}

#[test]
fn resilience_every_process_unreadable() {
    let snapshot = run_pass(&["1", "2", "3"], &[1, 2, 3], meminfo()).unwrap();
    assert_eq!(snapshot.samples().len(), 0);
    assert_eq!(snapshot.failures().len(), 3);
}

#[test]
fn resilience_no_process_at_all() {
    let snapshot = run_pass(&[], &[], meminfo()).unwrap();
    assert_eq!(snapshot.samples().len(), 0);
    assert_eq!(snapshot.failures().len(), 0);
    assert_eq!(snapshot.system_total_kb(), 8000000);
}

#[test]
fn sample_is_built_from_the_reads() {
    let snapshot = run_pass(&["12"], &[], meminfo()).unwrap();
    assert_eq!(
        snapshot.samples(),
        &vec![ProcessSample {
            pid: 12,
            command: b"proc12".to_vec(),
            pss_kb: 120,
            rss_kb: 240,
            swap_pss_kb: 1,
            private_dirty_kb: 0,
            shared_dirty_kb: 0,
            accounting_mode: AccountingMode::Precise,
        }]
    );
}

#[test]
fn missing_system_total_is_fatal() {
    assert_eq!(run_pass(&["1", "2"], &[], FileRead::NotFound), Err(FatalError::SystemTotalUnreadable));
    assert_eq!(
        run_pass(&["1", "2"], &[], FileRead::Content(b"nothing here\n".to_vec())),
        Err(FatalError::SystemTotalMalformed)
    );
}

#[test]
fn requests_follow_the_protocol() {
    let mut collector = Collector::new();
    assert_eq!(collector.next_request(), Request::Nothing);
    assert!(!collector.is_finished());
    collector.begin(&names(&["20", "10"]));
    assert_eq!(collector.next_request(), Request::Rollup(10));
    collector.supply(rollup(1, 2));
    assert_eq!(collector.next_request(), Request::Command(10));
    collector.supply(FileRead::Content(b"first\n".to_vec()));
    assert_eq!(collector.next_request(), Request::Rollup(20));
    collector.supply(FileRead::NotFound);
    assert_eq!(collector.next_request(), Request::Status(20));
    collector.supply(FileRead::Content(b"VmRSS:\t 77 kB\n".to_vec()));
    assert_eq!(collector.next_request(), Request::Command(20));
    collector.supply(FileRead::NotFound);
    assert_eq!(collector.next_request(), Request::SystemTotal);
    assert!(!collector.is_finished());
    collector.supply(meminfo());
    assert_eq!(collector.next_request(), Request::Nothing);
    assert!(collector.is_finished());

    let snapshot = collector.collect(5).unwrap();
    assert_eq!(snapshot.samples().len(), 2);
    let second = &snapshot.samples()[1];
    assert_eq!(second.pid, 20);
    assert_eq!(second.command, b"?".to_vec());
    assert_eq!((second.pss_kb, second.rss_kb, second.swap_pss_kb), (0, 77, 0));
    assert_eq!(second.accounting_mode, AccountingMode::Degraded);
    assert_eq!(snapshot.samples()[0].accounting_mode, AccountingMode::Precise);
    assert_eq!(snapshot.global_accounting_mode(), AccountingMode::Degraded);

    // The collector is idle again.
    assert_eq!(collector.next_request(), Request::Nothing);
    assert!(matches!(collector.collect(6), Err(FatalError::ScanIncomplete)));
}

#[test]
fn fallback_failures_are_recorded() {
    let mut collector = Collector::new();
    collector.begin(&names(&["1", "2", "3", "4"]));
    // 1: rollup denied, status denied.
    collector.supply(FileRead::PermissionDenied);
    collector.supply(FileRead::PermissionDenied);
    // 2: rollup absent, status gone as well.
    collector.supply(FileRead::NotFound);
    collector.supply(FileRead::NotFound);
    // 3: rollup malformed.
    collector.supply(FileRead::Content(b"Pss: ? kB\n".to_vec()));
    // 4: rollup fails otherwise.
    collector.supply(FileRead::Failed);
    assert_eq!(collector.next_request(), Request::SystemTotal);
    collector.supply(meminfo());
    let snapshot = collector.collect(0).unwrap();
    assert_eq!(snapshot.samples().len(), 0);
    assert_eq!(
        snapshot.failures(),
        &vec![
            CollectionFailure { pid: 1, reason: FailureReason::PermissionDenied },
            CollectionFailure { pid: 2, reason: FailureReason::VanishedBeforeRead },
            CollectionFailure { pid: 3, reason: FailureReason::MalformedData },
            CollectionFailure { pid: 4, reason: FailureReason::Unreadable },
        ]
    );
}

#[test]
fn collect_before_the_pass_is_over() {
    let mut collector = Collector::new();
    assert!(matches!(collector.collect(1), Err(FatalError::ScanIncomplete)));
    collector.begin(&names(&["1"]));
    assert!(matches!(collector.collect(1), Err(FatalError::ScanIncomplete)));
    // The pass stays as it was.
    assert_eq!(collector.next_request(), Request::Rollup(1));
}

#[test]
fn supply_without_a_request_changes_nothing() {
    let mut collector = Collector::new();
    collector.supply(meminfo());
    assert_eq!(collector.next_request(), Request::Nothing);
    assert!(!collector.is_finished());
}

#[test]
fn begin_drops_an_unfinished_pass() {
    let mut collector = Collector::new();
    collector.begin(&names(&["1", "2"]));
    collector.supply(FileRead::Failed);
    collector.begin(&names(&["8"]));
    assert_eq!(collector.next_request(), Request::Rollup(8));
    collector.supply(FileRead::Failed);
    collector.supply(meminfo());
    let snapshot = collector.collect(0).unwrap();
    assert_eq!(snapshot.failures().len(), 1);
    assert_eq!(snapshot.failures()[0].pid, 8);
}

#[test]
fn snapshot_wants_ascending_pids() {
    let sample = |pid: u32| ProcessSample {
        pid,
        command: b"x".to_vec(),
        pss_kb: 1,
        rss_kb: 1,
        swap_pss_kb: 0,
        private_dirty_kb: 0,
        shared_dirty_kb: 0,
        accounting_mode: AccountingMode::Precise,
    };
    assert!(Snapshot::new(0, vec![sample(1), sample(2), sample(9)], vec![], 10).is_some());
    assert!(Snapshot::new(0, vec![], vec![], 10).is_some());
    assert!(Snapshot::new(0, vec![sample(2), sample(1)], vec![], 10).is_none());
    assert!(Snapshot::new(0, vec![sample(1), sample(1)], vec![], 10).is_none());
}
