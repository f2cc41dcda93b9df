//! Grouped rows: one row per command name, the figures of all processes of
//! that name added up, with the number of processes that went in.
//!
//! Sums of 64-bit figures are held in 128 bits, which cannot overflow: a
//! list holds fewer than 2^64 samples.

use vstd::prelude::*;
use crate::rows::{
    bytes_equal,
    is_strictly_ordered,
    lemma_display_order_is_unique,
    row_views,
    Delta,
    DisplayRow,
    RowView,
};
use crate::sample::{sample_views, ProcessSample, SampleView};
use crate::view::SortKey;

verus! {

/// The figures of one group, as unbounded numbers.
pub ghost struct GroupSums {
    pub count: int,
    pub pss_kb: int,
    pub rss_kb: int,
    pub swap_pss_kb: int,
    pub private_dirty_kb: int,
    pub shared_dirty_kb: int,
}

/// The group of nothing.
pub open spec fn no_sums() -> GroupSums {
    GroupSums {
        count: 0,
        pss_kb: 0,
        rss_kb: 0,
        swap_pss_kb: 0,
        private_dirty_kb: 0,
        shared_dirty_kb: 0,
    }
}

/// The sums over those of the first `n` samples that are named `command`.
pub open spec fn group_sums(samples: Seq<SampleView>, n: int, command: Seq<u8>) -> GroupSums
    decreases n,
{
    if n <= 0 {
        no_sums()
    } else {
        let rest = group_sums(samples, n - 1, command);
        let last = samples[n - 1];
        if last.command == command {
            GroupSums {
                count: rest.count + 1,
                pss_kb: rest.pss_kb + last.pss_kb,
                rss_kb: rest.rss_kb + last.rss_kb,
                swap_pss_kb: rest.swap_pss_kb + last.swap_pss_kb,
                private_dirty_kb: rest.private_dirty_kb + last.private_dirty_kb,
                shared_dirty_kb: rest.shared_dirty_kb + last.shared_dirty_kb,
            }
        } else {
            rest
        }
    }
}

/// The grouped row of `command` over the first `n` samples.
pub open spec fn group_row(samples: Seq<SampleView>, n: int, command: Seq<u8>) -> RowView {
    let sums = group_sums(samples, n, command);
    RowView {
        pid: None,
        command,
        process_count: sums.count as usize,
        pss_kb: sums.pss_kb as u128,
        rss_kb: sums.rss_kb as u128,
        swap_pss_kb: sums.swap_pss_kb as u128,
        private_dirty_kb: sums.private_dirty_kb as u128,
        shared_dirty_kb: sums.shared_dirty_kb as u128,
        delta: Delta::Undefined,
    }
}

/// `rows` groups the first `n` samples: each row is the grouped row of its
/// command and sums at least one process, no two rows share a command, and
/// every sample's command has its row.
pub open spec fn groups_first(rows: Seq<RowView>, samples: Seq<SampleView>, n: int) -> bool {
    &&& forall|r: int|
        0 <= r < rows.len() ==> #[trigger] rows[r] == group_row(samples, n, rows[r].command)
            && group_sums(samples, n, rows[r].command).count >= 1
    &&& forall|r: int, s: int| 0 <= r < s < rows.len() ==> rows[r].command != rows[s].command
    &&& forall|k: int|
        0 <= k < n ==> exists|r: int|
            0 <= r < rows.len() && (#[trigger] rows[r]).command == (#[trigger] samples[k]).command
}

/// `rows` groups `samples` by command.
pub open spec fn is_grouping(rows: Seq<RowView>, samples: Seq<SampleView>) -> bool {
    groups_first(rows, samples, samples.len() as int)
}

/// The Pss of the first `n` samples, added up.
pub open spec fn total_pss(samples: Seq<SampleView>, n: int) -> int
    decreases n,
{
    if n <= 0 {
        0
    } else {
        total_pss(samples, n - 1) + samples[n - 1].pss_kb
    }
}

/// No sum exceeds what its number of processes allows, so each fits 128 bits.
pub proof fn lemma_group_sums_bounded(samples: Seq<SampleView>, n: int, command: Seq<u8>)
    requires
        0 <= n <= samples.len(),
    ensures
        0 <= group_sums(samples, n, command).count <= n,
        0 <= group_sums(samples, n, command).pss_kb <= group_sums(samples, n, command).count
            * 0xffff_ffff_ffff_ffff,
        0 <= group_sums(samples, n, command).rss_kb <= group_sums(samples, n, command).count
            * 0xffff_ffff_ffff_ffff,
        0 <= group_sums(samples, n, command).swap_pss_kb <= group_sums(samples, n, command).count
            * 0xffff_ffff_ffff_ffff,
        0 <= group_sums(samples, n, command).private_dirty_kb <= group_sums(samples, n, command).count
            * 0xffff_ffff_ffff_ffff,
        0 <= group_sums(samples, n, command).shared_dirty_kb <= group_sums(samples, n, command).count
            * 0xffff_ffff_ffff_ffff,
    decreases n,
{
    if n > 0 {
        lemma_group_sums_bounded(samples, n - 1, command);
    }
}

/// A command that none of the first `n` samples bears has empty sums.
pub proof fn lemma_absent_command_sums(samples: Seq<SampleView>, n: int, command: Seq<u8>)
    requires
        0 <= n <= samples.len(),
        forall|k: int| 0 <= k < n ==> (#[trigger] samples[k]).command != command,
    ensures
        group_sums(samples, n, command) == no_sums(),
    decreases n,
{
    if n > 0 {
        lemma_absent_command_sums(samples, n - 1, command);
    }
}

/// A group that sums at least one process has its command among the samples.
pub proof fn lemma_counted_command_occurs(samples: Seq<SampleView>, n: int, command: Seq<u8>)
    requires
        0 <= n <= samples.len(),
        group_sums(samples, n, command).count >= 1,
    ensures
        exists|k: int| 0 <= k < n && (#[trigger] samples[k]).command == command,
{
    if forall|k: int| 0 <= k < n ==> (#[trigger] samples[k]).command != command {
        lemma_absent_command_sums(samples, n, command);
    }
}

/// Grouping leaves no choice but the order: two groupings of the same
/// samples hold the same rows, and in strict display order they are the
/// same list.
pub proof fn lemma_grouping_is_determined(
    first: Seq<RowView>,
    second: Seq<RowView>,
    samples: Seq<SampleView>,
    key: SortKey,
)
    requires
        is_grouping(first, samples),
        is_grouping(second, samples),
    ensures
        forall|row: RowView| first.contains(row) <==> second.contains(row),
        is_strictly_ordered(first, key) && is_strictly_ordered(second, key) ==> first == second,
{
    let n = samples.len() as int;
    assert forall|row: RowView| first.contains(row) <==> second.contains(row) by {
        if first.contains(row) {
            let r = choose|r: int| 0 <= r < first.len() && first[r] == row;
            lemma_counted_command_occurs(samples, n, first[r].command);
            let k = choose|k: int| 0 <= k < n && (#[trigger] samples[k]).command == row.command;
            let s = choose|s: int|
                0 <= s < second.len() && (#[trigger] second[s]).command == samples[k].command;
            assert(second[s] == row);
        }
        if second.contains(row) {
            let r = choose|r: int| 0 <= r < second.len() && second[r] == row;
            lemma_counted_command_occurs(samples, n, second[r].command);
            let k = choose|k: int| 0 <= k < n && (#[trigger] samples[k]).command == row.command;
            let s = choose|s: int|
                0 <= s < first.len() && (#[trigger] first[s]).command == samples[k].command;
            assert(first[s] == row);
        }
    }
    if is_strictly_ordered(first, key) && is_strictly_ordered(second, key) {
        lemma_display_order_is_unique(first, second, key);
    }
}

/// The total Pss of `n` samples fits 128 bits.
pub proof fn lemma_total_pss_bounded(samples: Seq<SampleView>, n: int)
    requires
        0 <= n <= samples.len(),
    ensures
        0 <= total_pss(samples, n) <= n * 0xffff_ffff_ffff_ffff,
    decreases n,
{
    if n > 0 {
        lemma_total_pss_bounded(samples, n - 1);
    }
}

/// Adds up the Pss of `samples`.
pub fn sum_pss(samples: &Vec<ProcessSample>) -> (total: u128)
    ensures
        total == total_pss(sample_views(samples@), samples@.len() as int),
{
    let ghost views = sample_views(samples@);
    let mut total: u128 = 0;
    let mut i: usize = 0;
    while i < samples.len()
        invariant
            i <= samples.len(),
            views == sample_views(samples@),
            total == total_pss(views, i as int),
        decreases samples.len() - i,
    {
        proof {
            lemma_total_pss_bounded(views, i as int);
            assert(views[i as int] == samples@[i as int]@);
        }
        total = total + samples[i].pss_kb as u128;
        i += 1;
    }
    total
}

/// Groups `samples` by command name.
pub fn build_grouped_rows(samples: &Vec<ProcessSample>) -> (rows: Vec<DisplayRow>)
    ensures
        is_grouping(row_views(rows@), sample_views(samples@)),
{
    let ghost views = sample_views(samples@);
    let mut rows: Vec<DisplayRow> = Vec::new();
    let mut i: usize = 0;
    while i < samples.len()
        invariant
            i <= samples.len(),
            views == sample_views(samples@),
            groups_first(row_views(rows@), views, i as int),
        decreases samples.len() - i,
    {
        let sample = &samples[i];
        let ghost before = row_views(rows@);
        let ghost name = sample.command@;
        assert(views[i as int] == sample@);
        let mut g: usize = 0;
        while g < rows.len() && !bytes_equal(&rows[g].command, &sample.command)
            invariant
                g <= rows.len(),
                before == row_views(rows@),
                name == sample.command@,
                forall|r: int| 0 <= r < g ==> (#[trigger] before[r]).command != name,
            decreases rows.len() - g,
        {
            assert(before[g as int] == rows@[g as int]@);
            g += 1;
        }
        if g < rows.len() {
            proof {
                assert(before[g as int] == rows@[g as int]@);
                assert(before[g as int] == group_row(views, i as int, name));
                lemma_group_sums_bounded(views, i as int, name);
            }
            let merged = DisplayRow {
                pid: None,
                command: sample.command.clone(),
                process_count: rows[g].process_count + 1,
                pss_kb: rows[g].pss_kb + sample.pss_kb as u128,
                rss_kb: rows[g].rss_kb + sample.rss_kb as u128,
                swap_pss_kb: rows[g].swap_pss_kb + sample.swap_pss_kb as u128,
                private_dirty_kb: rows[g].private_dirty_kb + sample.private_dirty_kb as u128,
                shared_dirty_kb: rows[g].shared_dirty_kb + sample.shared_dirty_kb as u128,
                delta: Delta::Undefined,
            };
            proof {
                lemma_group_sums_bounded(views, i + 1, name);
                assert(merged@ == group_row(views, i + 1, name));
            }
            rows[g] = merged;
            proof {
                let after = row_views(rows@);
                assert(after =~= before.update(g as int, group_row(views, i + 1, name)));
                assert forall|r: int| 0 <= r < after.len() implies #[trigger] after[r]
                    == group_row(views, i + 1, after[r].command) && group_sums(
                    views,
                    i + 1,
                    after[r].command,
                ).count >= 1 by {
                    if r != g {
                        assert(after[r] == before[r]);
                        if r < g {
                            assert(before[r].command != before[g as int].command);
                        } else {
                            assert(before[g as int].command != before[r].command);
                        }
                    }
                }
                assert forall|k: int| 0 <= k < i + 1 implies exists|r: int|
                    0 <= r < after.len() && (#[trigger] after[r]).command == (
                    #[trigger] views[k]).command by {
                    if k < i {
                        let r = choose|r: int|
                            0 <= r < before.len() && (#[trigger] before[r]).command
                                == views[k].command;
                        assert(after[r].command == views[k].command);
                    } else {
                        assert(after[g as int].command == views[k].command);
                    }
                }
            }
        } else {
            proof {
                assert forall|k: int| 0 <= k < i implies (#[trigger] views[k]).command != name by {
                    let r = choose|r: int|
                        0 <= r < before.len() && (#[trigger] before[r]).command
                            == views[k].command;
                    assert(before[r].command != name);
                }
                lemma_absent_command_sums(views, i as int, name);
            }
            let fresh = DisplayRow {
                pid: None,
                command: sample.command.clone(),
                process_count: 1,
                pss_kb: sample.pss_kb as u128,
                rss_kb: sample.rss_kb as u128,
                swap_pss_kb: sample.swap_pss_kb as u128,
                private_dirty_kb: sample.private_dirty_kb as u128,
                shared_dirty_kb: sample.shared_dirty_kb as u128,
                delta: Delta::Undefined,
            };
            assert(fresh@ == group_row(views, i + 1, name));
            rows.push(fresh);
            proof {
                let after = row_views(rows@);
                assert(after =~= before.push(group_row(views, i + 1, name)));
                assert forall|r: int| 0 <= r < after.len() implies #[trigger] after[r]
                    == group_row(views, i + 1, after[r].command) && group_sums(
                    views,
                    i + 1,
                    after[r].command,
                ).count >= 1 by {
                    if r < before.len() {
                        assert(after[r] == before[r]);
                        assert(before[r].command != name);
                    }
                }
                assert forall|k: int| 0 <= k < i + 1 implies exists|r: int|
                    0 <= r < after.len() && (#[trigger] after[r]).command == (
                    #[trigger] views[k]).command by {
                    if k < i {
                        let r = choose|r: int|
                            0 <= r < before.len() && (#[trigger] before[r]).command
                                == views[k].command;
                        assert(after[r].command == views[k].command);
                    } else {
                        assert(after[before.len() as int].command == views[k].command);
                    }
                }
            }
        }
        i += 1;
    }
    rows
}

} // verus!
