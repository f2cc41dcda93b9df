//! What a whole sampling pass comes to, whatever the reads return.
//!
//! A pass asks for reads one at a time. Here the answers are taken as given,
//! as a function from request to outcome, and the pass is run to its end.
//! Its result is then a function of the candidates and the answers: every
//! candidate gives exactly one sample or one failure, in pid order, and the
//! pass has its snapshot exactly if the system total could be read.

use vstd::prelude::*;
use crate::collector::{strictly_ascending, Request, ScanView, Stage};
use crate::reader::{command_name_of, rollup_of, status_of, system_total_of, FileRead, RollupRead};
use crate::sample::{sample_of, AccountingMode, CollectionFailure, FatalError, SampleView};

verus! {

/// What the reads `reads` make of process `pid`: its sample, or the failure
/// that is recorded for it.
pub open spec fn probe(pid: u32, reads: spec_fn(Request) -> FileRead) -> Result<
    SampleView,
    CollectionFailure,
> {
    let name = command_name_of(reads(Request::Command(pid)));
    match rollup_of(pid, reads(Request::Rollup(pid))) {
        RollupRead::Fields(fields) => Ok(sample_of(pid, name, fields, AccountingMode::Precise)),
        RollupRead::Retry => match status_of(pid, reads(Request::Status(pid))) {
            Ok(fields) => Ok(sample_of(pid, name, fields, AccountingMode::Degraded)),
            Err(failure) => Err(failure),
        },
        RollupRead::Failure(failure) => Err(failure),
    }
}

/// The samples of the first `n` candidates, in order.
pub open spec fn sampled(candidates: Seq<u32>, n: int, reads: spec_fn(Request) -> FileRead) -> Seq<
    SampleView,
>
    decreases n,
{
    if n <= 0 {
        Seq::empty()
    } else {
        let rest = sampled(candidates, n - 1, reads);
        match probe(candidates[n - 1], reads) {
            Ok(sample) => rest.push(sample),
            Err(_) => rest,
        }
    }
}

/// The failures of the first `n` candidates, in order.
pub open spec fn failed(candidates: Seq<u32>, n: int, reads: spec_fn(Request) -> FileRead) -> Seq<
    CollectionFailure,
>
    decreases n,
{
    if n <= 0 {
        Seq::empty()
    } else {
        let rest = failed(candidates, n - 1, reads);
        match probe(candidates[n - 1], reads) {
            Ok(_) => rest,
            Err(failure) => rest.push(failure),
        }
    }
}

/// An upper bound on the reads that the pass still asks for.
pub open spec fn reads_left(scan: ScanView) -> int {
    let processes = scan.candidates.len() - scan.cursor;
    match scan.stage {
        Stage::Rollup => 3 * processes + 1,
        Stage::Status => 3 * processes,
        Stage::Command(_, _) => 3 * processes - 1,
        Stage::SystemTotal => 1,
        _ => 0,
    }
}

/// The pass after its awaited read was answered from `reads`.
pub open spec fn answered(scan: ScanView, reads: spec_fn(Request) -> FileRead) -> ScanView {
    scan.step(reads(scan.request()))
}

/// The pass run to its end, every read answered from `reads`.
pub open spec fn run(scan: ScanView, reads: spec_fn(Request) -> FileRead) -> ScanView
    decreases reads_left(scan),
    when scan.wf()
    via run_terminates
{
    if scan.request() == Request::Nothing {
        scan
    } else {
        run(answered(scan, reads), reads)
    }
}

#[via_fn]
proof fn run_terminates(scan: ScanView, reads: spec_fn(Request) -> FileRead) {
    if scan.wf() && scan.request() != Request::Nothing {
        lemma_step_keeps_wf(scan, reads(scan.request()));
    }
}

/// A read keeps the pass well formed, and an awaited read brings it nearer
/// its end.
pub proof fn lemma_step_keeps_wf(scan: ScanView, read: FileRead)
    requires
        scan.wf(),
    ensures
        scan.step(read).wf(),
        scan.step(read).candidates == scan.candidates,
        scan.request() != Request::Nothing ==> 0 <= reads_left(scan.step(read)) < reads_left(scan),
{
    if scan.probing() {
        assert(forall|i: int|
            0 <= i < scan.samples.len() ==> scan.samples[i].pid < scan.candidates[scan.cursor]);
        assert(forall|i: int|
            0 <= i < scan.failures.len() ==> scan.failures[i].pid < scan.candidates[scan.cursor]);
        assert forall|k: int| scan.cursor < k < scan.candidates.len() implies scan.candidates[scan.cursor]
            < #[trigger] scan.candidates[k] by {}
    }
}

/// A pass that stands between two processes, with the samples and failures
/// of the candidates behind it, ends with those of all candidates.
proof fn lemma_run_from(scan: ScanView, reads: spec_fn(Request) -> FileRead)
    requires
        scan.wf(),
        scan.stage is Rollup || scan.stage is SystemTotal,
        scan.samples == sampled(scan.candidates, scan.cursor, reads),
        scan.failures == failed(scan.candidates, scan.cursor, reads),
    ensures
        run(scan, reads).candidates == scan.candidates,
        run(scan, reads).samples == sampled(scan.candidates, scan.candidates.len() as int, reads),
        run(scan, reads).failures == failed(scan.candidates, scan.candidates.len() as int, reads),
        run(scan, reads).stage == match system_total_of(reads(Request::SystemTotal)) {
            Ok(total_kb) => Stage::Complete(total_kb),
            Err(error) => Stage::Aborted(error),
        },
        run(scan, reads).wf(),
    decreases scan.candidates.len() - scan.cursor,
{
    let first = answered(scan, reads);
    lemma_step_keeps_wf(scan, reads(scan.request()));
    assert(run(scan, reads) == run(first, reads));
    if scan.stage is SystemTotal {
        assert(run(first, reads) == first);
    } else {
        if first.stage is Status || first.stage is Command {
            let second = answered(first, reads);
            lemma_step_keeps_wf(first, reads(first.request()));
            assert(run(first, reads) == run(second, reads));
            if second.stage is Command {
                let third = answered(second, reads);
                lemma_step_keeps_wf(second, reads(second.request()));
                assert(run(second, reads) == run(third, reads));
                lemma_run_from(third, reads);
            } else {
                lemma_run_from(second, reads);
            }
        } else {
            lemma_run_from(first, reads);
        }
    }
}

/// Every candidate gives one sample or one failure, never both and never
/// neither.
pub proof fn lemma_every_candidate_counted(
    candidates: Seq<u32>,
    n: int,
    reads: spec_fn(Request) -> FileRead,
)
    requires
        0 <= n <= candidates.len(),
    ensures
        sampled(candidates, n, reads).len() + failed(candidates, n, reads).len() == n,
    decreases n,
{
    if n > 0 {
        lemma_every_candidate_counted(candidates, n - 1, reads);
    }
}

/// A pass over `candidates`, run to its end with the reads answered from
/// `reads`, records the sample of every candidate that can be read and the
/// failure of every candidate that cannot, each list in pid order. Of N
/// candidates with K unreadable it holds N - K samples and K failures. It
/// yields its snapshot exactly if the system total can be read, and then
/// the snapshot holds those samples and failures.
pub proof fn lemma_pass_result(
    candidates: Seq<u32>,
    reads: spec_fn(Request) -> FileRead,
    timestamp_ms: u64,
)
    requires
        strictly_ascending(candidates),
    ensures
        ({
            let end = run(ScanView::begun(candidates), reads);
            let count = candidates.len() as int;
            &&& end.samples == sampled(candidates, count, reads)
            &&& end.failures == failed(candidates, count, reads)
            &&& end.samples.len() + end.failures.len() == count
            &&& end.outcome(timestamp_ms) is Ok <==> system_total_of(
                reads(Request::SystemTotal),
            ) is Ok
            &&& end.outcome(timestamp_ms) is Ok ==> end.outcome(timestamp_ms)->Ok_0.samples
                == sampled(candidates, count, reads) && end.outcome(timestamp_ms)->Ok_0.failures
                == failed(candidates, count, reads) && end.outcome(
                timestamp_ms,
            )->Ok_0.system_total_kb == system_total_of(reads(Request::SystemTotal))->Ok_0
            &&& end.outcome(timestamp_ms) is Err ==> Err::<u64, FatalError>(
                end.outcome(timestamp_ms)->Err_0,
            ) == system_total_of(reads(Request::SystemTotal))
        }),
{
    let start = ScanView::begun(candidates);
    assert(start.wf());
    lemma_run_from(start, reads);
    lemma_every_candidate_counted(candidates, candidates.len() as int, reads);
}

} // verus!
