//! Folds successive snapshots into the state that is shown.
//!
//! The analyzer keeps the snapshot it was last given and the rows made from
//! it: flat rows with their change against the snapshot before, and grouped
//! rows. An older snapshot is not kept. The display cursor is kept in range
//! of the rows of the current view mode after every change.

use vstd::prelude::*;
use vstd::seq_lib::*;
use crate::flat::{build_flat_rows, flat_rows};
use crate::grouping::{build_grouped_rows, is_grouping, sum_pss, total_pss};
use crate::rows::{
    distinct_places,
    is_strictly_ordered,
    lemma_display_order_is_unique,
    lemma_ordered_distinct_is_strict,
    lemma_permutation_keeps_places,
    row_views,
    same_place,
    sort_rows,
    DisplayRow,
    RowView,
};
use crate::sample::{
    sample_views,
    AccountingMode,
    ProcessSample,
    SampleView,
    Snapshot,
    SnapshotView,
};
use crate::view::{ViewMode, ViewState};

verus! {

/// What is shown: the rows in display order, the totals and the cursor.
#[derive(Debug, PartialEq, Eq)]
pub struct AnalyzedState {
    pub rows: Vec<DisplayRow>,
    pub system_total_kb: u64,
    /// The Pss of all live processes, added up.
    pub used_kb: u128,
    /// How many processes the last pass had to skip.
    pub failure_count: usize,
    pub global_accounting_mode: AccountingMode,
    pub view: ViewState,
}

/// The mathematical value of an [`AnalyzedState`].
pub ghost struct StateView {
    pub rows: Seq<RowView>,
    pub system_total_kb: u64,
    pub used_kb: u128,
    pub failure_count: usize,
    pub global_accounting_mode: AccountingMode,
    pub view: ViewState,
}

impl View for AnalyzedState {
    type V = StateView;

    open spec fn view(&self) -> StateView {
        StateView {
            rows: row_views(self.rows@),
            system_total_kb: self.system_total_kb,
            used_kb: self.used_kb,
            failure_count: self.failure_count,
            global_accounting_mode: self.global_accounting_mode,
            view: self.view,
        }
    }
}

/// The mathematical value of an [`Analyzer`].
pub ghost struct AnalyzerView {
    /// The snapshot last folded in, if any.
    pub current: Option<SnapshotView>,
    /// The flat rows of that snapshot, in pid order.
    pub flat: Seq<RowView>,
    /// The grouped rows of that snapshot, in no particular order.
    pub grouped: Seq<RowView>,
    pub view: ViewState,
}

impl AnalyzerView {
    /// The samples of the current snapshot.
    pub open spec fn samples(self) -> Seq<SampleView> {
        match self.current {
            Some(snapshot) => snapshot.samples,
            None => Seq::empty(),
        }
    }

    /// The rows of view mode `mode`, not yet in display order.
    pub open spec fn rows_of(self, mode: ViewMode) -> Seq<RowView> {
        match mode {
            ViewMode::Flat => self.flat,
            ViewMode::GroupedByCommand => self.grouped,
        }
    }

    /// How many rows the current view mode shows.
    pub open spec fn row_count(self) -> int {
        self.rows_of(self.view.view_mode).len() as int
    }

    /// The invariant of an analyzer: the current snapshot is well formed,
    /// there is one flat row per sample, the grouped rows group the samples,
    /// and the cursor points into the rows that are shown.
    pub open spec fn wf(self) -> bool {
        &&& self.current is Some ==> self.current->0.wf()
        &&& self.flat.len() == self.samples().len()
        &&& forall|i: int|
            0 <= i < self.flat.len() ==> (#[trigger] self.flat[i]).pid == Some(
                self.samples()[i].pid,
            )
        &&& is_grouping(self.grouped, self.samples())
        &&& self.view.in_range(self.row_count())
    }

    /// `state` is what this analyzer shows: its cursor, the totals of its
    /// snapshot, and the rows of its view mode in strict display order.
    pub open spec fn shows(self, state: StateView) -> bool {
        &&& state.view == self.view
        &&& state.system_total_kb == match self.current {
            Some(snapshot) => snapshot.system_total_kb,
            None => 0,
        }
        &&& state.used_kb == total_pss(self.samples(), self.samples().len() as int)
        &&& state.failure_count == match self.current {
            Some(snapshot) => snapshot.failures.len(),
            None => 0,
        }
        &&& state.global_accounting_mode == match self.current {
            Some(snapshot) => snapshot.global_accounting_mode,
            None => AccountingMode::Precise,
        }
        &&& is_strictly_ordered(state.rows, self.view.sort_key)
        &&& state.rows.to_multiset() == self.rows_of(self.view.view_mode).to_multiset()
        &&& state.rows.len() == self.row_count()
    }

    /// The analyzer before any snapshot: nothing to show, the cursor at its start.
    pub open spec fn initial() -> AnalyzerView {
        AnalyzerView {
            current: None,
            flat: Seq::empty(),
            grouped: Seq::empty(),
            view: ViewState::initial(),
        }
    }

    /// `next` is this analyzer after `snapshot` was folded in: `snapshot` is
    /// current, the flat rows show the change against the snapshot that was
    /// current so far, the grouped rows group the new samples, and the
    /// cursor is clamped to the rows now shown.
    pub open spec fn folds(self, snapshot: SnapshotView, next: AnalyzerView) -> bool {
        &&& next.current == Some(snapshot)
        &&& next.flat == flat_rows(snapshot.samples, self.samples())
        &&& is_grouping(next.grouped, snapshot.samples)
        &&& next.view == self.view.clamped(next.row_count())
    }

    /// This analyzer with the cursor `view`.
    pub open spec fn with_view(self, view: ViewState) -> AnalyzerView {
        AnalyzerView { view, ..self }
    }
}

/// The rows of a well-formed analyzer stand for different things, in either
/// view mode.
pub proof fn lemma_rows_distinct(analyzer: AnalyzerView, mode: ViewMode)
    requires
        analyzer.wf(),
    ensures
        distinct_places(analyzer.rows_of(mode)),
{
    let rows = analyzer.rows_of(mode);
    assert forall|i: int, j: int| 0 <= i < j < rows.len() implies !same_place(
        rows[i],
        rows[j],
    ) by {
        match mode {
            ViewMode::Flat => {
                if analyzer.current is Some {
                    assert(analyzer.samples()[i].pid < analyzer.samples()[j].pid);
                }
            },
            ViewMode::GroupedByCommand => {},
        }
    }
}

/// What is shown is a function of the analyzer's state alone: two states
/// that the same analyzer shows are the same, row for row.
pub proof fn lemma_state_is_determined(analyzer: AnalyzerView, first: StateView, second: StateView)
    requires
        analyzer.shows(first),
        analyzer.shows(second),
    ensures
        first == second,
{
    broadcast use to_multiset_contains;

    assert forall|row: RowView| first.rows.contains(row) <==> second.rows.contains(row) by {
        assert(first.rows.to_multiset().count(row) == second.rows.to_multiset().count(row));
    }
    lemma_display_order_is_unique(first.rows, second.rows, analyzer.view.sort_key);
}

/// Holds the current snapshot and the display cursor.
pub struct Analyzer {
    current: Option<Snapshot>,
    flat: Vec<DisplayRow>,
    grouped: Vec<DisplayRow>,
    view: ViewState,
}

impl View for Analyzer {
    type V = AnalyzerView;

    closed spec fn view(&self) -> AnalyzerView {
        AnalyzerView {
            current: match self.current {
                Some(snapshot) => Some(snapshot@),
                None => None,
            },
            flat: row_views(self.flat@),
            grouped: row_views(self.grouped@),
            view: self.view,
        }
    }
}

impl Analyzer {
    /// The invariant of every analyzer.
    pub open spec fn wf(&self) -> bool {
        self@.wf()
    }

    /// An analyzer that has seen no snapshot.
    pub fn new() -> (analyzer: Analyzer)
        ensures
            analyzer.wf(),
            analyzer@ == AnalyzerView::initial(),
    {
        let analyzer = Analyzer {
            current: None,
            flat: Vec::new(),
            grouped: Vec::new(),
            view: ViewState::new(),
        };
        assert(row_views(analyzer.flat@) =~= Seq::empty());
        assert(row_views(analyzer.grouped@) =~= Seq::empty());
        analyzer
    }

    /// How many rows view mode `mode` shows.
    fn count_rows(&self, mode: ViewMode) -> (count: usize)
        ensures
            count == self@.rows_of(mode).len(),
    {
        match mode {
            ViewMode::Flat => self.flat.len(),
            ViewMode::GroupedByCommand => self.grouped.len(),
        }
    }

    /// Folds `snapshot` in. Flat rows show the change against the snapshot
    /// that was current so far; a process that is only in `snapshot` is new
    /// and a process that is only in the old one has no row. `snapshot`
    /// becomes the current one and the cursor is clamped to the new rows.
    pub fn update(&mut self, snapshot: Snapshot)
        requires
            old(self).wf(),
            snapshot.wf(),
        ensures
            final(self).wf(),
            old(self)@.folds(snapshot@, final(self)@),
    {
        let flat = match &self.current {
            Some(previous) => build_flat_rows(snapshot.samples(), previous.samples()),
            None => {
                let nothing: Vec<ProcessSample> = Vec::new();
                assert(sample_views(nothing@) =~= Seq::empty());
                build_flat_rows(snapshot.samples(), &nothing)
            },
        };
        let grouped = build_grouped_rows(snapshot.samples());
        self.flat = flat;
        self.grouped = grouped;
        self.current = Some(snapshot);
        let count = self.count_rows(self.view.view_mode);
        self.view.clamp(count);
    }

    /// What is shown now: the rows of the current view mode in display
    /// order, the totals of the current snapshot and the cursor. Nothing
    /// changes by asking.
    pub fn get_state(&self) -> (state: AnalyzedState)
        requires
            self.wf(),
        ensures
            self@.shows(state@),
    {
        let rows = match self.view.view_mode {
            ViewMode::Flat => sort_rows(&self.flat, self.view.sort_key),
            ViewMode::GroupedByCommand => sort_rows(&self.grouped, self.view.sort_key),
        };
        proof {
            let shown = self@.rows_of(self.view.view_mode);
            lemma_rows_distinct(self@, self.view.view_mode);
            lemma_permutation_keeps_places(shown, row_views(rows@));
            lemma_ordered_distinct_is_strict(row_views(rows@), self.view.sort_key);
        }
        match &self.current {
            Some(snapshot) => AnalyzedState {
                rows,
                system_total_kb: snapshot.system_total_kb(),
                used_kb: sum_pss(snapshot.samples()),
                failure_count: snapshot.failures().len(),
                global_accounting_mode: snapshot.global_accounting_mode(),
                view: self.view,
            },
            None => AnalyzedState {
                rows,
                system_total_kb: 0,
                used_kb: 0,
                failure_count: 0,
                global_accounting_mode: AccountingMode::Precise,
                view: self.view,
            },
        }
    }

    /// Moves the sort key on by one in its cycle.
    pub fn next_sort(&mut self)
        requires
            old(self).wf(),
        ensures
            final(self).wf(),
            final(self)@ == old(self)@.with_view(old(self)@.view.with_next_sort()),
    {
        self.view.next_sort();
    }

    /// Switches between flat and grouped rows and clamps the cursor to the
    /// rows of the new mode.
    pub fn toggle_view(&mut self)
        requires
            old(self).wf(),
        ensures
            final(self).wf(),
            final(self)@ == old(self)@.with_view(
                old(self)@.view.toggled(final(self)@.row_count()),
            ),
    {
        let count = match self.view.view_mode {
            ViewMode::Flat => self.grouped.len(),
            ViewMode::GroupedByCommand => self.flat.len(),
        };
        self.view.toggle_view(count);
    }

    /// Scrolls one row up.
    pub fn scroll_up(&mut self)
        requires
            old(self).wf(),
        ensures
            final(self).wf(),
            final(self)@ == old(self)@.with_view(old(self)@.view.scrolled_up()),
    {
        let ghost count = self@.row_count();
        self.view.scroll_up();
        assert(self.view.in_range(count));
    }

    /// Scrolls one row down, no further than the last page.
    pub fn scroll_down(&mut self)
        requires
            old(self).wf(),
        ensures
            final(self).wf(),
            final(self)@ == old(self)@.with_view(
                old(self)@.view.scrolled_down(old(self)@.row_count()),
            ),
    {
        let count = self.count_rows(self.view.view_mode);
        self.view.scroll_down(count);
    }

    /// Takes the viewport height as the page size and clamps the cursor.
    pub fn set_page_size(&mut self, page_size: usize)
        requires
            old(self).wf(),
        ensures
            final(self).wf(),
            final(self)@ == old(self)@.with_view(
                old(self)@.view.resized(page_size, old(self)@.row_count()),
            ),
    {
        let count = self.count_rows(self.view.view_mode);
        self.view.set_page_size(page_size, count);
    }

    /// Scrolls one page up; `page_size` is the viewport height.
    pub fn page_up(&mut self, page_size: usize)
        requires
            old(self).wf(),
        ensures
            final(self).wf(),
            final(self)@ == old(self)@.with_view(
                old(self)@.view.paged_up(page_size, old(self)@.row_count()),
            ),
    {
        let count = self.count_rows(self.view.view_mode);
        self.view.page_up(page_size, count);
    }

    /// Scrolls one page down, no further than the last page; `page_size` is
    /// the viewport height.
    pub fn page_down(&mut self, page_size: usize)
        requires
            old(self).wf(),
        ensures
            final(self).wf(),
            final(self)@ == old(self)@.with_view(
                old(self)@.view.paged_down(page_size, old(self)@.row_count()),
            ),
    {
        let count = self.count_rows(self.view.view_mode);
        self.view.page_down(page_size, count);
    }
}

} // verus!
