//! One sampling pass over the process table, as a machine that asks for reads.
//!
//! The pass is begun with the names found in the process directory. It then
//! names one read at a time ([`Collector::next_request`]); the caller makes
//! the read and hands back how it ended ([`Collector::supply`]). Processes are
//! taken in ascending pid order. A process whose files cannot be read or
//! understood is recorded as a failure and the pass goes on. The system
//! memory total is asked for last; only its loss makes the pass fail.

use vstd::prelude::*;
use crate::reader::{
    command_name_of,
    read_command_name,
    read_memory_rollup,
    read_status_fallback,
    read_system_total_kb,
    rollup_of,
    status_of,
    system_total_of,
    FileRead,
    RollupRead,
};
use crate::sample::{
    aggregate_mode,
    pids_ascending,
    sample_of,
    sample_views,
    AccountingMode,
    CollectionFailure,
    FatalError,
    MemoryFields,
    ProcessSample,
    SampleView,
    Snapshot,
    SnapshotView,
};
use crate::text::{decimal_value, digits_end, find_digits_end, read_decimal};

verus! {

/// The pid that a directory entry names: its name is a decimal number
/// without a leading zero that fits 32 bits.
pub open spec fn entry_pid(name: Seq<u8>) -> Option<u32> {
    if name.len() > 0 && name[0] != 48 && digits_end(name, 0, name.len() as int) == name.len()
        && decimal_value(name, 0, name.len() as int) <= u32::MAX {
        Some(decimal_value(name, 0, name.len() as int) as u32)
    } else {
        None
    }
}

/// Reads a directory entry's name as a pid.
pub fn parse_pid(name: &[u8]) -> (pid: Option<u32>)
    ensures
        pid == entry_pid(name@),
{
    if name.len() == 0 || name[0] == 48 {
        return None;
    }
    let stop = find_digits_end(name, 0, name.len());
    if stop != name.len() {
        return None;
    }
    match read_decimal(name, 0, name.len()) {
        Some(value) => if value <= 0xffff_ffff {
            Some(value as u32)
        } else {
            None
        },
        None => None,
    }
}

/// Each value of `pids` is below those that follow it.
pub open spec fn strictly_ascending(pids: Seq<u32>) -> bool {
    forall|i: int, j: int| 0 <= i < j < pids.len() ==> pids[i] < pids[j]
}

/// One of the first `count` entries names `pid`.
pub open spec fn names_pid(entries: Seq<Vec<u8>>, count: int, pid: u32) -> bool {
    exists|i: int| 0 <= i < count && entry_pid(#[trigger] entries[i]@) == Some(pid)
}

/// `pids` holds the pids that `entries` name, each once, in ascending order.
pub open spec fn is_candidate_list(pids: Seq<u32>, entries: Seq<Vec<u8>>) -> bool {
    &&& strictly_ascending(pids)
    &&& forall|pid: u32| pids.contains(pid) <==> names_pid(entries, entries.len() as int, pid)
}

/// Two ascending lists of the same pids are the same list.
pub proof fn lemma_same_pids_same_list(a: Seq<u32>, b: Seq<u32>)
    requires
        strictly_ascending(a),
        strictly_ascending(b),
        forall|pid: u32| a.contains(pid) <==> b.contains(pid),
    ensures
        a == b,
    decreases a.len(),
{
    if a.len() == 0 {
        if b.len() > 0 {
            assert(b.contains(b[0]));
        }
        assert(a =~= b);
    } else {
        assert(a.contains(a.last()));
        let j = choose|j: int| 0 <= j < b.len() && b[j] == a.last();
        assert(b.contains(b.last()));
        let i = choose|i: int| 0 <= i < a.len() && a[i] == b.last();
        if i < a.len() - 1 {
            assert(a[i] < a.last());
        }
        if j < b.len() - 1 {
            assert(b[j] < b.last());
        }
        assert(a.last() == b.last());
        let a_rest = a.drop_last();
        let b_rest = b.drop_last();
        assert forall|pid: u32| a_rest.contains(pid) <==> b_rest.contains(pid) by {
            if a_rest.contains(pid) {
                let x = choose|x: int| 0 <= x < a_rest.len() && a_rest[x] == pid;
                assert(a[x] == pid && a[x] < a.last());
                assert(a.contains(pid));
                let y = choose|y: int| 0 <= y < b.len() && b[y] == pid;
                assert(b_rest[y] == pid);
            }
            if b_rest.contains(pid) {
                let y = choose|y: int| 0 <= y < b_rest.len() && b_rest[y] == pid;
                assert(b[y] == pid && b[y] < b.last());
                assert(b.contains(pid));
                let x = choose|x: int| 0 <= x < a.len() && a[x] == pid;
                assert(a_rest[x] == pid);
            }
        }
        lemma_same_pids_same_list(a_rest, b_rest);
        assert(a =~= a_rest.push(a.last()));
        assert(b =~= b_rest.push(b.last()));
    }
}

/// The entries of the process directory fix the candidates of a pass.
pub proof fn lemma_candidate_list_is_unique(a: Seq<u32>, b: Seq<u32>, entries: Seq<Vec<u8>>)
    requires
        is_candidate_list(a, entries),
        is_candidate_list(b, entries),
    ensures
        a == b,
{
    lemma_same_pids_same_list(a, b);
}

/// Puts `pid` in its place in an ascending list, unless it is there already.
fn insert_pid(list: &mut Vec<u32>, pid: u32)
    requires
        strictly_ascending(old(list)@),
    ensures
        strictly_ascending(final(list)@),
        forall|p: u32| final(list)@.contains(p) <==> (old(list)@.contains(p) || p == pid),
{
    let mut i: usize = list.len();
    while i > 0 && list[i - 1] > pid
        invariant
            i <= list.len(),
            list@ == old(list)@,
            forall|k: int| i <= k < list.len() ==> list@[k] > pid,
        decreases i,
    {
        i -= 1;
    }
    if i > 0 && list[i - 1] == pid {
        assert(list@.contains(pid));
        return ;
    }
    let ghost before = list@;
    list.insert(i, pid);
    proof {
        let after = list@;
        assert(after == before.insert(i as int, pid));
        assert forall|a: int, b: int| 0 <= a < b < after.len() implies after[a] < after[b] by {
            if b < i {
                assert(after[a] == before[a] && after[b] == before[b]);
            } else if b == i {
                assert(after[a] == before[a]);
                if a < i - 1 {
                    assert(before[a] < before[i - 1]);
                }
            } else if a < i {
                assert(after[a] == before[a] && after[b] == before[b - 1]);
                if a < i - 1 {
                    assert(before[a] < before[i - 1]);
                }
            } else if a == i {
                assert(after[b] == before[b - 1]);
            } else {
                assert(after[a] == before[a - 1] && after[b] == before[b - 1]);
            }
        }
        assert forall|p: u32| after.contains(p) <==> (before.contains(p) || p == pid) by {
            if after.contains(p) {
                let k = choose|k: int| 0 <= k < after.len() && after[k] == p;
                if k < i {
                    assert(before[k] == p);
                } else if k > i {
                    assert(before[k - 1] == p);
                }
            }
            if before.contains(p) {
                let k = choose|k: int| 0 <= k < before.len() && before[k] == p;
                if k < i {
                    assert(after[k] == p);
                } else {
                    assert(after[k + 1] == p);
                }
            }
            if p == pid {
                assert(after[i as int] == p);
            }
        }
    }
}

/// The pids that the directory entries `entries` name: the candidates of one
/// pass, each once, in ascending order. Entries that name no pid are left out.
pub fn candidate_pids(entries: &Vec<Vec<u8>>) -> (pids: Vec<u32>)
    ensures
        is_candidate_list(pids@, entries@),
{
    let mut pids: Vec<u32> = Vec::new();
    let mut i: usize = 0;
    while i < entries.len()
        invariant
            i <= entries.len(),
            strictly_ascending(pids@),
            forall|pid: u32| pids@.contains(pid) <==> names_pid(entries@, i as int, pid),
        decreases entries.len() - i,
    {
        let ghost before = pids@;
        match parse_pid(entries[i].as_slice()) {
            Some(pid) => {
                insert_pid(&mut pids, pid);
            },
            None => {},
        }
        proof {
            let found = entry_pid(entries@[i as int]@);
            assert forall|pid: u32| pids@.contains(pid) <==> names_pid(
                entries@,
                i + 1,
                pid,
            ) by {
                if names_pid(entries@, i + 1, pid) {
                    let k = choose|k: int|
                        0 <= k < i + 1 && entry_pid(#[trigger] entries@[k]@) == Some(pid);
                    if k < i {
                        assert(names_pid(entries@, i as int, pid));
                    }
                }
                if before.contains(pid) {
                    assert(names_pid(entries@, i as int, pid));
                    let k = choose|k: int|
                        0 <= k < i && entry_pid(#[trigger] entries@[k]@) == Some(pid);
                    assert(0 <= k < i + 1);
                }
                if found == Some(pid) {
                    assert(0 <= i < i + 1 && entry_pid(entries@[i as int]@) == Some(pid));
                }
            }
        }
        i += 1;
    }
    pids
}

/// The read that a pass waits for.
#[derive(Clone, Copy, Debug, PartialEq, Eq, Structural)]
pub enum Request {
    /// The memory rollup of the process.
    Rollup(u32),
    /// The status file of the process.
    Status(u32),
    /// The command-name file of the process.
    Command(u32),
    /// The system memory information.
    SystemTotal,
    /// No read: no pass is under way, or the pass is over.
    Nothing,
}

/// Where a pass stands.
#[derive(Clone, Copy, Debug, PartialEq, Eq, Structural)]
pub enum Stage {
    /// No pass is under way.
    Idle,
    /// The rollup of the current process is awaited.
    Rollup,
    /// The rollup was absent or denied; the status file is awaited.
    Status,
    /// The figures are in; the command name is awaited.
    Command(MemoryFields, AccountingMode),
    /// Every process is done; the system total is awaited.
    SystemTotal,
    /// The pass is over and has its system total.
    Complete(u64),
    /// The pass is over and has no system total.
    Aborted(FatalError),
}

/// The mathematical value of a [`Collector`].
pub ghost struct ScanView {
    /// The pids of this pass.
    pub candidates: Seq<u32>,
    /// How many candidates are done.
    pub cursor: int,
    pub stage: Stage,
    pub samples: Seq<SampleView>,
    pub failures: Seq<CollectionFailure>,
}

impl ScanView {
    /// A process is being read.
    pub open spec fn probing(self) -> bool {
        self.stage is Rollup || self.stage is Status || self.stage is Command
    }

    /// The invariant of a pass: candidates ascend, a process is current
    /// exactly while one is being read, every candidate that is done gave one
    /// sample or one failure, and both lists are in pid order below the
    /// candidates still to come.
    pub open spec fn wf(self) -> bool {
        &&& strictly_ascending(self.candidates)
        &&& 0 <= self.cursor <= self.candidates.len()
        &&& self.probing() <==> self.cursor < self.candidates.len()
        &&& self.samples.len() + self.failures.len() == self.cursor
        &&& pids_ascending(self.samples)
        &&& forall|i: int, k: int|
            0 <= i < self.samples.len() && self.cursor <= k < self.candidates.len()
                ==> self.samples[i].pid < self.candidates[k]
        &&& forall|i: int, j: int|
            0 <= i < j < self.failures.len() ==> self.failures[i].pid < self.failures[j].pid
        &&& forall|i: int, k: int|
            0 <= i < self.failures.len() && self.cursor <= k < self.candidates.len()
                ==> self.failures[i].pid < self.candidates[k]
    }

    /// The process that is being read.
    pub open spec fn pid(self) -> u32
        recommends
            self.probing(),
    {
        self.candidates[self.cursor]
    }

    /// The read that the pass waits for.
    pub open spec fn request(self) -> Request {
        match self.stage {
            Stage::Rollup => Request::Rollup(self.pid()),
            Stage::Status => Request::Status(self.pid()),
            Stage::Command(_, _) => Request::Command(self.pid()),
            Stage::SystemTotal => Request::SystemTotal,
            _ => Request::Nothing,
        }
    }

    /// The stage in which a pass with `done` candidates behind it goes on.
    pub open spec fn stage_after(self, done: int) -> Stage {
        if done < self.candidates.len() {
            Stage::Rollup
        } else {
            Stage::SystemTotal
        }
    }

    /// The pass once the current process is recorded as failed.
    pub open spec fn with_failure(self, failure: CollectionFailure) -> ScanView {
        ScanView {
            cursor: self.cursor + 1,
            stage: self.stage_after(self.cursor + 1),
            failures: self.failures.push(failure),
            ..self
        }
    }

    /// The pass once the current process has given a sample.
    pub open spec fn with_sample(self, sample: SampleView) -> ScanView {
        ScanView {
            cursor: self.cursor + 1,
            stage: self.stage_after(self.cursor + 1),
            samples: self.samples.push(sample),
            ..self
        }
    }

    /// The pass after the awaited read ended as `read`.
    pub open spec fn step(self, read: FileRead) -> ScanView {
        match self.stage {
            Stage::Rollup => match rollup_of(self.pid(), read) {
                RollupRead::Fields(fields) => ScanView {
                    stage: Stage::Command(fields, AccountingMode::Precise),
                    ..self
                },
                RollupRead::Retry => ScanView { stage: Stage::Status, ..self },
                RollupRead::Failure(failure) => self.with_failure(failure),
            },
            Stage::Status => match status_of(self.pid(), read) {
                Ok(fields) => ScanView {
                    stage: Stage::Command(fields, AccountingMode::Degraded),
                    ..self
                },
                Err(failure) => self.with_failure(failure),
            },
            Stage::Command(fields, mode) => self.with_sample(
                sample_of(self.pid(), command_name_of(read), fields, mode),
            ),
            Stage::SystemTotal => match system_total_of(read) {
                Ok(total_kb) => ScanView { stage: Stage::Complete(total_kb), ..self },
                Err(error) => ScanView { stage: Stage::Aborted(error), ..self },
            },
            _ => self,
        }
    }

    /// The pass that is begun over `candidates`.
    pub open spec fn begun(candidates: Seq<u32>) -> ScanView {
        ScanView {
            candidates,
            cursor: 0,
            stage: if candidates.len() > 0 {
                Stage::Rollup
            } else {
                Stage::SystemTotal
            },
            samples: Seq::empty(),
            failures: Seq::empty(),
        }
    }

    /// No pass.
    pub open spec fn idle() -> ScanView {
        ScanView {
            candidates: Seq::empty(),
            cursor: 0,
            stage: Stage::Idle,
            samples: Seq::empty(),
            failures: Seq::empty(),
        }
    }

    /// What the pass yields when its snapshot is asked for at `timestamp_ms`.
    pub open spec fn outcome(self, timestamp_ms: u64) -> Result<SnapshotView, FatalError> {
        match self.stage {
            Stage::Complete(total_kb) => Ok(
                SnapshotView {
                    timestamp_ms,
                    samples: self.samples,
                    failures: self.failures,
                    system_total_kb: total_kb,
                    global_accounting_mode: aggregate_mode(self.samples),
                },
            ),
            Stage::Aborted(error) => Err(error),
            _ => Err(FatalError::ScanIncomplete),
        }
    }
}

/// Enumerates, reads and assembles: one pass at a time.
pub struct Collector {
    candidates: Vec<u32>,
    cursor: usize,
    stage: Stage,
    samples: Vec<ProcessSample>,
    failures: Vec<CollectionFailure>,
}

impl View for Collector {
    type V = ScanView;

    closed spec fn view(&self) -> ScanView {
        ScanView {
            candidates: self.candidates@,
            cursor: self.cursor as int,
            stage: self.stage,
            samples: sample_views(self.samples@),
            failures: self.failures@,
        }
    }
}

impl Collector {
    /// The invariant of every collector.
    pub open spec fn wf(&self) -> bool {
        self@.wf()
    }

    /// A collector with no pass under way.
    pub fn new() -> (collector: Collector)
        ensures
            collector.wf(),
            collector@ == ScanView::idle(),
    {
        let collector = Collector {
            candidates: Vec::new(),
            cursor: 0,
            stage: Stage::Idle,
            samples: Vec::new(),
            failures: Vec::new(),
        };
        assert(sample_views(collector.samples@) =~= Seq::empty());
        collector
    }

    /// Begins a pass over the processes that the directory entries `entries`
    /// name. Whatever an earlier pass had gathered is dropped.
    pub fn begin(&mut self, entries: &Vec<Vec<u8>>)
        ensures
            final(self).wf(),
            is_candidate_list(final(self)@.candidates, entries@),
            final(self)@ == ScanView::begun(final(self)@.candidates),
    {
        let candidates = candidate_pids(entries);
        let stage = if candidates.len() > 0 {
            Stage::Rollup
        } else {
            Stage::SystemTotal
        };
        self.candidates = candidates;
        self.cursor = 0;
        self.stage = stage;
        self.samples = Vec::new();
        self.failures = Vec::new();
        assert(sample_views(self.samples@) =~= Seq::empty());
    }

    /// The read that the pass waits for.
    pub fn next_request(&self) -> (request: Request)
        requires
            self.wf(),
        ensures
            request == self@.request(),
    {
        match self.stage {
            Stage::Rollup => Request::Rollup(self.candidates[self.cursor]),
            Stage::Status => Request::Status(self.candidates[self.cursor]),
            Stage::Command(_, _) => Request::Command(self.candidates[self.cursor]),
            Stage::SystemTotal => Request::SystemTotal,
            _ => Request::Nothing,
        }
    }

    /// Whether the pass is over, with or without a system total.
    pub fn is_finished(&self) -> (finished: bool)
        ensures
            finished == (self@.stage is Complete || self@.stage is Aborted),
    {
        match self.stage {
            Stage::Complete(_) => true,
            Stage::Aborted(_) => true,
            _ => false,
        }
    }

    fn record_failure(&mut self, failure: CollectionFailure)
        requires
            old(self).wf(),
            old(self)@.probing(),
            failure.pid == old(self)@.pid(),
        ensures
            final(self).wf(),
            final(self)@ == old(self)@.with_failure(failure),
    {
        assert(self.cursor < self.candidates.len());
        self.failures.push(failure);
        self.cursor = self.cursor + 1;
        self.stage = if self.cursor < self.candidates.len() {
            Stage::Rollup
        } else {
            Stage::SystemTotal
        };
        proof {
            let pre = old(self)@;
            assert(forall|i: int| 0 <= i < pre.failures.len() ==> pre.failures[i].pid < pre.candidates[pre.cursor]);
            assert(forall|i: int| 0 <= i < pre.samples.len() ==> pre.samples[i].pid < pre.candidates[pre.cursor]);
        }
    }

    fn record_sample(&mut self, sample: ProcessSample)
        requires
            old(self).wf(),
            old(self)@.probing(),
            sample@.pid == old(self)@.pid(),
        ensures
            final(self).wf(),
            final(self)@ == old(self)@.with_sample(sample@),
    {
        assert(self.cursor < self.candidates.len());
        self.samples.push(sample);
        self.cursor = self.cursor + 1;
        self.stage = if self.cursor < self.candidates.len() {
            Stage::Rollup
        } else {
            Stage::SystemTotal
        };
        proof {
            let pre = old(self)@;
            assert(sample_views(self.samples@) =~= pre.samples.push(sample@));
            assert(forall|i: int| 0 <= i < pre.failures.len() ==> pre.failures[i].pid < pre.candidates[pre.cursor]);
            assert(forall|i: int| 0 <= i < pre.samples.len() ==> pre.samples[i].pid < pre.candidates[pre.cursor]);
        }
    }

    /// Hands the pass the outcome of the read it waited for. The pass then
    /// waits for the next read, or is over. Where no read was awaited,
    /// nothing changes.
    pub fn supply(&mut self, read: FileRead)
        requires
            old(self).wf(),
        ensures
            final(self).wf(),
            final(self)@ == old(self)@.step(read),
    {
        match self.stage {
            Stage::Rollup => {
                let pid = self.candidates[self.cursor];
                match read_memory_rollup(pid, &read) {
                    RollupRead::Fields(fields) => {
                        self.stage = Stage::Command(fields, AccountingMode::Precise);
                    },
                    RollupRead::Retry => {
                        self.stage = Stage::Status;
                    },
                    RollupRead::Failure(failure) => {
                        self.record_failure(failure);
                    },
                }
            },
            Stage::Status => {
                let pid = self.candidates[self.cursor];
                match read_status_fallback(pid, &read) {
                    Ok(fields) => {
                        self.stage = Stage::Command(fields, AccountingMode::Degraded);
                    },
                    Err(failure) => {
                        self.record_failure(failure);
                    },
                }
            },
            Stage::Command(fields, mode) => {
                let pid = self.candidates[self.cursor];
                let command = read_command_name(&read);
                self.record_sample(ProcessSample::new(pid, command, fields, mode));
            },
            Stage::SystemTotal => {
                match read_system_total_kb(&read) {
                    Ok(total_kb) => {
                        self.stage = Stage::Complete(total_kb);
                    },
                    Err(error) => {
                        self.stage = Stage::Aborted(error);
                    },
                }
            },
            _ => {},
        }
    }

    /// Ends the pass and hands out its snapshot, stamped `timestamp_ms`.
    ///
    /// A pass that has its system total gives the snapshot of every sample
    /// and failure it recorded. A pass that lost the system total gives that
    /// error. Either way the collector is idle afterwards. A pass that is not
    /// over gives `ScanIncomplete` and stays as it is.
    pub fn collect(&mut self, timestamp_ms: u64) -> (result: Result<Snapshot, FatalError>)
        requires
            old(self).wf(),
        ensures
            final(self).wf(),
            result is Ok <==> old(self)@.stage is Complete,
            result is Ok ==> result->Ok_0.wf() && Ok::<SnapshotView, FatalError>(result->Ok_0@)
                == old(self)@.outcome(timestamp_ms),
            result is Err ==> Err::<SnapshotView, FatalError>(result->Err_0) == old(self)@.outcome(
                timestamp_ms,
            ),
            final(self)@ == if old(self)@.stage is Complete || old(self)@.stage is Aborted {
                ScanView::idle()
            } else {
                old(self)@
            },
    {
        match self.stage {
            Stage::Complete(total_kb) => {
                let mut samples: Vec<ProcessSample> = Vec::new();
                let mut failures: Vec<CollectionFailure> = Vec::new();
                core::mem::swap(&mut self.samples, &mut samples);
                core::mem::swap(&mut self.failures, &mut failures);
                self.candidates = Vec::new();
                self.cursor = 0;
                self.stage = Stage::Idle;
                assert(sample_views(self.samples@) =~= Seq::empty());
                Ok(Snapshot::new(timestamp_ms, samples, failures, total_kb).unwrap())
            },
            Stage::Aborted(error) => {
                self.candidates = Vec::new();
                self.cursor = 0;
                self.stage = Stage::Idle;
                self.samples = Vec::new();
                self.failures = Vec::new();
                assert(sample_views(self.samples@) =~= Seq::empty());
                Err(error)
            },
            _ => Err(FatalError::ScanIncomplete),
        }
    }
}

} // verus!
