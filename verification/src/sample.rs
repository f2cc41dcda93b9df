//! The values one sampling pass produces: per-process samples, per-process
//! failures and the snapshot that gathers them.

use vstd::prelude::*;

verus! {

/// How a sample's figures were obtained.
#[derive(Clone, Copy, Debug, PartialEq, Eq, Structural)]
pub enum AccountingMode {
    /// From the kernel's per-process memory rollup.
    Precise,
    /// From the status file: resident size only, the rest reported as zero.
    Degraded,
}

/// Why no sample could be taken of a process.
#[derive(Clone, Copy, Debug, PartialEq, Eq, Structural)]
pub enum FailureReason {
    VanishedBeforeRead,
    PermissionDenied,
    MalformedData,
    Unreadable,
}

/// The memory figures of one process, in kilobytes.
#[derive(Clone, Copy, Debug, PartialEq, Eq, Structural)]
pub struct MemoryFields {
    pub pss_kb: u64,
    pub rss_kb: u64,
    pub swap_pss_kb: u64,
    pub private_dirty_kb: u64,
    pub shared_dirty_kb: u64,
}

/// A process that was skipped, and why.
#[derive(Clone, Copy, Debug, PartialEq, Eq, Structural)]
pub struct CollectionFailure {
    pub pid: u32,
    pub reason: FailureReason,
}

/// The only failure that aborts a sampling pass: no system memory total.
#[derive(Clone, Copy, Debug, PartialEq, Eq, Structural)]
pub enum FatalError {
    /// The pass was asked for its snapshot before the system total was supplied.
    ScanIncomplete,
    /// The system memory information could not be read.
    SystemTotalUnreadable,
    /// The system memory information holds no usable total.
    SystemTotalMalformed,
}

/// One process's figures for one tick.
#[derive(Debug, PartialEq, Eq)]
pub struct ProcessSample {
    pub pid: u32,
    pub command: Vec<u8>,
    pub pss_kb: u64,
    pub rss_kb: u64,
    pub swap_pss_kb: u64,
    pub private_dirty_kb: u64,
    pub shared_dirty_kb: u64,
    pub accounting_mode: AccountingMode,
}

/// The mathematical value of a [`ProcessSample`].
pub ghost struct SampleView {
    pub pid: u32,
    pub command: Seq<u8>,
    pub pss_kb: u64,
    pub rss_kb: u64,
    pub swap_pss_kb: u64,
    pub private_dirty_kb: u64,
    pub shared_dirty_kb: u64,
    pub accounting_mode: AccountingMode,
}

/// The sample that `fields` of process `pid`, named `command`, make up.
pub open spec fn sample_of(
    pid: u32,
    command: Seq<u8>,
    fields: MemoryFields,
    mode: AccountingMode,
) -> SampleView {
    SampleView {
        pid,
        command,
        pss_kb: fields.pss_kb,
        rss_kb: fields.rss_kb,
        swap_pss_kb: fields.swap_pss_kb,
        private_dirty_kb: fields.private_dirty_kb,
        shared_dirty_kb: fields.shared_dirty_kb,
        accounting_mode: mode,
    }
}

impl View for ProcessSample {
    type V = SampleView;

    open spec fn view(&self) -> SampleView {
        SampleView {
            pid: self.pid,
            command: self.command@,
            pss_kb: self.pss_kb,
            rss_kb: self.rss_kb,
            swap_pss_kb: self.swap_pss_kb,
            private_dirty_kb: self.private_dirty_kb,
            shared_dirty_kb: self.shared_dirty_kb,
            accounting_mode: self.accounting_mode,
        }
    }
}

impl Clone for ProcessSample {
    fn clone(&self) -> (copy: Self)
        ensures
            copy@ == self@,
    {
        ProcessSample {
            pid: self.pid,
            command: self.command.clone(),
            pss_kb: self.pss_kb,
            rss_kb: self.rss_kb,
            swap_pss_kb: self.swap_pss_kb,
            private_dirty_kb: self.private_dirty_kb,
            shared_dirty_kb: self.shared_dirty_kb,
            accounting_mode: self.accounting_mode,
        }
    }
}

impl ProcessSample {
    /// Assembles a sample from its parts.
    pub fn new(pid: u32, command: Vec<u8>, fields: MemoryFields, mode: AccountingMode) -> (sample:
        Self)
        ensures
            sample@ == sample_of(pid, command@, fields, mode),
    {
        ProcessSample {
            pid,
            command,
            pss_kb: fields.pss_kb,
            rss_kb: fields.rss_kb,
            swap_pss_kb: fields.swap_pss_kb,
            private_dirty_kb: fields.private_dirty_kb,
            shared_dirty_kb: fields.shared_dirty_kb,
            accounting_mode: mode,
        }
    }
}

/// The views of a list of samples, in order.
pub open spec fn sample_views(samples: Seq<ProcessSample>) -> Seq<SampleView> {
    Seq::new(samples.len(), |i: int| samples[i]@)
}

/// Pids grow strictly along `samples`: each process occurs once, in pid order.
pub open spec fn pids_ascending(samples: Seq<SampleView>) -> bool {
    forall|i: int, j: int| 0 <= i < j < samples.len() ==> samples[i].pid < samples[j].pid
}

/// Some sample of `samples` is degraded.
pub open spec fn any_degraded(samples: Seq<SampleView>) -> bool {
    exists|i: int|
        0 <= i < samples.len() && (#[trigger] samples[i]).accounting_mode
            == AccountingMode::Degraded
}

/// The accounting mode of a whole pass: precise unless some sample is degraded.
pub open spec fn aggregate_mode(samples: Seq<SampleView>) -> AccountingMode {
    if any_degraded(samples) {
        AccountingMode::Degraded
    } else {
        AccountingMode::Precise
    }
}

/// Computes the accounting mode of a whole pass.
pub fn aggregate_accounting_mode(samples: &Vec<ProcessSample>) -> (mode: AccountingMode)
    ensures
        mode == aggregate_mode(sample_views(samples@)),
{
    let ghost views = sample_views(samples@);
    let mut i: usize = 0;
    while i < samples.len()
        invariant
            i <= samples.len(),
            views == sample_views(samples@),
            forall|k: int| 0 <= k < i ==> (#[trigger] views[k]).accounting_mode
                != AccountingMode::Degraded,
        decreases samples.len() - i,
    {
        match samples[i].accounting_mode {
            AccountingMode::Degraded => {
                assert(views[i as int].accounting_mode == AccountingMode::Degraded);
                return AccountingMode::Degraded;
            },
            AccountingMode::Precise => {},
        }
        i += 1;
    }
    AccountingMode::Precise
}

/// Tells whether the pids of `samples` grow strictly.
pub fn has_ascending_pids(samples: &Vec<ProcessSample>) -> (ascending: bool)
    ensures
        ascending == pids_ascending(sample_views(samples@)),
{
    let ghost views = sample_views(samples@);
    if samples.len() == 0 {
        return true;
    }
    let mut i: usize = 1;
    while i < samples.len()
        invariant
            1 <= i <= samples.len(),
            views == sample_views(samples@),
            forall|a: int, b: int| 0 <= a < b < i ==> views[a].pid < views[b].pid,
        decreases samples.len() - i,
    {
        if samples[i - 1].pid >= samples[i].pid {
            assert(!(views[i - 1].pid < views[i as int].pid));
            return false;
        }
        assert forall|a: int, b: int| 0 <= a < b < i + 1 implies views[a].pid < views[b].pid by {
            if b == i && a < i - 1 {
                assert(views[a].pid < views[i - 1].pid);
            }
        }
        i += 1;
    }
    true
}

/// What one sampling pass saw of the host. Immutable once made.
#[derive(Debug, PartialEq, Eq)]
pub struct Snapshot {
    timestamp_ms: u64,
    samples: Vec<ProcessSample>,
    failures: Vec<CollectionFailure>,
    system_total_kb: u64,
    global_accounting_mode: AccountingMode,
}

/// The mathematical value of a [`Snapshot`].
pub ghost struct SnapshotView {
    pub timestamp_ms: u64,
    pub samples: Seq<SampleView>,
    pub failures: Seq<CollectionFailure>,
    pub system_total_kb: u64,
    pub global_accounting_mode: AccountingMode,
}

impl SnapshotView {
    /// Samples are in strict pid order and the global mode aggregates theirs.
    pub open spec fn wf(self) -> bool {
        &&& pids_ascending(self.samples)
        &&& self.global_accounting_mode == aggregate_mode(self.samples)
    }
}

impl View for Snapshot {
    type V = SnapshotView;

    closed spec fn view(&self) -> SnapshotView {
        SnapshotView {
            timestamp_ms: self.timestamp_ms,
            samples: sample_views(self.samples@),
            failures: self.failures@,
            system_total_kb: self.system_total_kb,
            global_accounting_mode: self.global_accounting_mode,
        }
    }
}

impl Snapshot {
    /// The invariant of every snapshot this library hands out.
    pub open spec fn wf(&self) -> bool {
        self@.wf()
    }

    /// Makes a snapshot of `samples`, which must come in strict pid order;
    /// otherwise there is no snapshot. The global mode is derived.
    pub fn new(
        timestamp_ms: u64,
        samples: Vec<ProcessSample>,
        failures: Vec<CollectionFailure>,
        system_total_kb: u64,
    ) -> (made: Option<Snapshot>)
        ensures
            made is Some <==> pids_ascending(sample_views(samples@)),
            made is Some ==> made->0.wf() && made->0@ == (SnapshotView {
                timestamp_ms,
                samples: sample_views(samples@),
                failures: failures@,
                system_total_kb,
                global_accounting_mode: aggregate_mode(sample_views(samples@)),
            }),
    {
        if !has_ascending_pids(&samples) {
            return None;
        }
        let global_accounting_mode = aggregate_accounting_mode(&samples);
        Some(Snapshot { timestamp_ms, samples, failures, system_total_kb, global_accounting_mode })
    }

    /// When the pass completed, in milliseconds of the caller's clock.
    pub fn timestamp_ms(&self) -> (t: u64)
        ensures
            t == self@.timestamp_ms,
    {
        self.timestamp_ms
    }

    /// The samples, in strict pid order.
    pub fn samples(&self) -> (samples: &Vec<ProcessSample>)
        ensures
            sample_views(samples@) == self@.samples,
    {
        &self.samples
    }

    /// The processes that were skipped, in pid order of the scan.
    pub fn failures(&self) -> (failures: &Vec<CollectionFailure>)
        ensures
            failures@ == self@.failures,
    {
        &self.failures
    }

    /// Installed memory of the host, in kilobytes.
    pub fn system_total_kb(&self) -> (total: u64)
        ensures
            total == self@.system_total_kb,
    {
        self.system_total_kb
    }

    /// Precise unless some sample is degraded.
    pub fn global_accounting_mode(&self) -> (mode: AccountingMode)
        ensures
            mode == self@.global_accounting_mode,
    {
        self.global_accounting_mode
    }
}

} // verus!
