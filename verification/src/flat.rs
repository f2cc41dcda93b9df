//! Flat rows: one row per live process, with the change of its Pss since
//! the tick before.
//!
//! A process that was not in the snapshot before is marked new. A process
//! that is no longer in the snapshot has no row.

use vstd::prelude::*;
use crate::rows::{row_views, Delta, DisplayRow, RowView};
use crate::sample::{pids_ascending, sample_views, ProcessSample, SampleView};

verus! {

/// Some sample of `samples` belongs to process `pid`.
pub open spec fn has_pid(samples: Seq<SampleView>, pid: u32) -> bool {
    exists|j: int| 0 <= j < samples.len() && (#[trigger] samples[j]).pid == pid
}

/// How the Pss of `sample` moved against the snapshot `previous`.
pub open spec fn delta_against(previous: Seq<SampleView>, sample: SampleView) -> Delta {
    if has_pid(previous, sample.pid) {
        let j = choose|j: int| 0 <= j < previous.len() && (#[trigger] previous[j]).pid == sample.pid;
        Delta::Change((sample.pss_kb - previous[j].pss_kb) as i128)
    } else {
        Delta::New
    }
}

/// The flat row of `sample`, its change taken against `previous`.
pub open spec fn flat_row(sample: SampleView, previous: Seq<SampleView>) -> RowView {
    RowView {
        pid: Some(sample.pid),
        command: sample.command,
        process_count: 1,
        pss_kb: sample.pss_kb as u128,
        rss_kb: sample.rss_kb as u128,
        swap_pss_kb: sample.swap_pss_kb as u128,
        private_dirty_kb: sample.private_dirty_kb as u128,
        shared_dirty_kb: sample.shared_dirty_kb as u128,
        delta: delta_against(previous, sample),
    }
}

/// The flat rows of the snapshot `current` after the snapshot `previous`,
/// in the order of `current`.
pub open spec fn flat_rows(current: Seq<SampleView>, previous: Seq<SampleView>) -> Seq<RowView> {
    Seq::new(current.len(), |i: int| flat_row(current[i], previous))
}

/// A process in both snapshots shows the difference of its two Pss figures.
pub proof fn lemma_delta_of_known_process(previous: Seq<SampleView>, j: int, sample: SampleView)
    requires
        pids_ascending(previous),
        0 <= j < previous.len(),
        previous[j].pid == sample.pid,
    ensures
        delta_against(previous, sample) == Delta::Change(
            (sample.pss_kb - previous[j].pss_kb) as i128,
        ),
{
    assert(has_pid(previous, sample.pid));
    let k = choose|k: int| 0 <= k < previous.len() && (#[trigger] previous[k]).pid == sample.pid;
    if k < j {
        assert(previous[k].pid < previous[j].pid);
    } else if j < k {
        assert(previous[j].pid < previous[k].pid);
    }
}

/// The flat view has a row for a process exactly if the current snapshot
/// has a sample of it: a process that exited has none.
pub proof fn lemma_flat_rows_are_the_live_processes(
    current: Seq<SampleView>,
    previous: Seq<SampleView>,
    pid: u32,
)
    ensures
        has_pid(current, pid) <==> exists|i: int|
            0 <= i < flat_rows(current, previous).len() && (#[trigger] flat_rows(
                current,
                previous,
            )[i]).pid == Some(pid),
{
    let rows = flat_rows(current, previous);
    if has_pid(current, pid) {
        let j = choose|j: int| 0 <= j < current.len() && (#[trigger] current[j]).pid == pid;
        assert(rows[j].pid == Some(pid));
    }
    if exists|i: int| 0 <= i < rows.len() && (#[trigger] rows[i]).pid == Some(pid) {
        let i = choose|i: int| 0 <= i < rows.len() && (#[trigger] rows[i]).pid == Some(pid);
        assert(current[i].pid == pid);
    }
}

/// Builds the flat rows of `current` against `previous`. Both lists are in
/// pid order, so one pass over each suffices.
pub(crate) fn build_flat_rows(current: &Vec<ProcessSample>, previous: &Vec<ProcessSample>) -> (rows: Vec<
    DisplayRow,
>)
    requires
        pids_ascending(sample_views(current@)),
        pids_ascending(sample_views(previous@)),
    ensures
        row_views(rows@) == flat_rows(sample_views(current@), sample_views(previous@)),
{
    let ghost cur = sample_views(current@);
    let ghost prev = sample_views(previous@);
    let mut rows: Vec<DisplayRow> = Vec::new();
    let mut i: usize = 0;
    let mut j: usize = 0;
    while i < current.len()
        invariant
            i <= current.len(),
            j <= previous.len(),
            cur == sample_views(current@),
            prev == sample_views(previous@),
            pids_ascending(cur),
            pids_ascending(prev),
            rows@.len() == i,
            forall|k: int| 0 <= k < i ==> (#[trigger] rows@[k])@ == flat_row(cur[k], prev),
            forall|k: int| 0 <= k < j && i < cur.len() ==> (#[trigger] prev[k]).pid < cur[i as int].pid,
        decreases current.len() - i,
    {
        let sample = &current[i];
        assert(sample@ == cur[i as int]);
        while j < previous.len() && previous[j].pid < sample.pid
            invariant
                j <= previous.len(),
                prev == sample_views(previous@),
                forall|k: int| 0 <= k < j ==> (#[trigger] prev[k]).pid < sample.pid,
            decreases previous.len() - j,
        {
            assert(prev[j as int].pid == previous@[j as int].pid);
            j += 1;
        }
        let delta = if j < previous.len() && previous[j].pid == sample.pid {
            assert(prev[j as int] == previous@[j as int]@);
            proof {
                lemma_delta_of_known_process(prev, j as int, sample@);
            }
            Delta::Change((sample.pss_kb as i128) - (previous[j].pss_kb as i128))
        } else {
            proof {
                if has_pid(prev, sample.pid) {
                    let k = choose|k: int|
                        0 <= k < prev.len() && (#[trigger] prev[k]).pid == sample.pid;
                    if k >= j {
                        assert(prev[j as int] == previous@[j as int]@);
                        if k > j {
                            assert(prev[j as int].pid < prev[k].pid);
                        }
                    }
                }
            }
            Delta::New
        };
        let row = DisplayRow {
            pid: Some(sample.pid),
            command: sample.command.clone(),
            process_count: 1,
            pss_kb: sample.pss_kb as u128,
            rss_kb: sample.rss_kb as u128,
            swap_pss_kb: sample.swap_pss_kb as u128,
            private_dirty_kb: sample.private_dirty_kb as u128,
            shared_dirty_kb: sample.shared_dirty_kb as u128,
            delta,
        };
        assert(row@ == flat_row(cur[i as int], prev));
        rows.push(row);
        proof {
            if i + 1 < cur.len() {
                assert(cur[i as int].pid < cur[i + 1].pid);
            }
        }
        i += 1;
    }
    assert(row_views(rows@) =~= flat_rows(cur, prev));
    rows
}

} // verus!
