//! The engine: one collector, one analyzer and the sampling interval.
//!
//! The engine reads no clock and no file. The caller hands it the time, in
//! milliseconds of a clock that does not run backwards, and makes the reads
//! that a sampling pass asks for. A tick is: begin a pass, answer its
//! requests until there are none, then call [`Engine::tick`] with the time
//! at which the last read returned.

use vstd::prelude::*;
use crate::analyzer::{AnalyzedState, Analyzer, AnalyzerView};
use crate::collector::{is_candidate_list, Collector, Request, ScanView};
use crate::controls::Command;
use crate::reader::FileRead;
use crate::sample::FatalError;

verus! {

/// The mathematical value of an [`Engine`].
pub ghost struct EngineView {
    pub scan: ScanView,
    pub analyzer: AnalyzerView,
    /// The sampling interval, in milliseconds.
    pub tick_rate_ms: u64,
    /// When the last tick completed, in milliseconds.
    pub last_tick_ms: u64,
}

impl EngineView {
    /// Both parts are well formed.
    pub open spec fn wf(self) -> bool {
        self.scan.wf() && self.analyzer.wf()
    }

    /// Milliseconds from the last completed tick to `now_ms`; none if the
    /// clock reads earlier than it did then.
    pub open spec fn elapsed_ms(self, now_ms: u64) -> int {
        if now_ms >= self.last_tick_ms {
            now_ms - self.last_tick_ms
        } else {
            0
        }
    }

    /// A tick is due at `now_ms`: the interval has elapsed since the last
    /// completed tick.
    pub open spec fn due(self, now_ms: u64) -> bool {
        self.elapsed_ms(now_ms) >= self.tick_rate_ms
    }

    /// `next` and `result` are what a tick at `now_ms` makes of this engine.
    ///
    /// Where the pass has its snapshot, the analyzer folds it in, the last
    /// tick is `now_ms`, the collector is idle and the result is what the
    /// analyzer then shows. Where it has none, the result is the pass's
    /// error and only the collector may have changed: it is idle if the pass
    /// was over.
    pub open spec fn ticks_to(
        self,
        now_ms: u64,
        next: EngineView,
        result: Result<crate::analyzer::StateView, FatalError>,
    ) -> bool {
        &&& next.tick_rate_ms == self.tick_rate_ms
        &&& match self.scan.outcome(now_ms) {
            Ok(snapshot) => {
                &&& self.analyzer.folds(snapshot, next.analyzer)
                &&& next.last_tick_ms == now_ms
                &&& next.scan == ScanView::idle()
                &&& result is Ok
                &&& next.analyzer.shows(result->Ok_0)
            },
            Err(error) => {
                &&& next.analyzer == self.analyzer
                &&& next.last_tick_ms == self.last_tick_ms
                &&& next.scan == if self.scan.stage is Aborted {
                    ScanView::idle()
                } else {
                    self.scan
                }
                &&& result == Err::<crate::analyzer::StateView, FatalError>(error)
            },
        }
    }

    /// This engine with the analyzer `analyzer`.
    pub open spec fn with_analyzer(self, analyzer: AnalyzerView) -> EngineView {
        EngineView { analyzer, ..self }
    }

    /// The analyzer after `command` with viewport height `page_size`.
    pub open spec fn commanded(self, command: Command, page_size: usize) -> AnalyzerView {
        let analyzer = self.analyzer;
        let view = analyzer.view;
        match command {
            Command::Quit => analyzer,
            Command::NextSort => analyzer.with_view(view.with_next_sort()),
            Command::ToggleView => analyzer.with_view(
                view.toggled(
                    analyzer.rows_of(crate::view::other_mode(view.view_mode)).len() as int,
                ),
            ),
            Command::ScrollUp => analyzer.with_view(view.scrolled_up()),
            Command::ScrollDown => analyzer.with_view(view.scrolled_down(analyzer.row_count())),
            Command::PageUp => analyzer.with_view(view.paged_up(page_size, analyzer.row_count())),
            Command::PageDown => analyzer.with_view(
                view.paged_down(page_size, analyzer.row_count()),
            ),
        }
    }
}

/// Right after a completed tick none is due, and the next one is due
/// exactly when the interval has elapsed from the time that tick completed,
/// however long the tick itself took. This needs an interval above zero:
/// with none, a tick is always due.
pub proof fn lemma_tick_gating(
    before: EngineView,
    completed_ms: u64,
    after: EngineView,
    shown: crate::analyzer::StateView,
    now_ms: u64,
)
    requires
        before.ticks_to(completed_ms, after, Ok(shown)),
        before.tick_rate_ms > 0,
        now_ms >= completed_ms,
    ensures
        !after.due(completed_ms),
        after.due(now_ms) <==> now_ms - completed_ms >= before.tick_rate_ms,
{
}

/// Owns the collector and the analyzer and gates ticks by the interval.
pub struct Engine {
    collector: Collector,
    analyzer: Analyzer,
    tick_rate_ms: u64,
    last_tick_ms: u64,
}

impl View for Engine {
    type V = EngineView;

    closed spec fn view(&self) -> EngineView {
        EngineView {
            scan: self.collector@,
            analyzer: self.analyzer@,
            tick_rate_ms: self.tick_rate_ms,
            last_tick_ms: self.last_tick_ms,
        }
    }
}

impl Engine {
    /// The invariant of every engine.
    pub open spec fn wf(&self) -> bool {
        self@.wf()
    }

    /// An engine that samples every `tick_rate_ms` milliseconds, made at
    /// `now_ms`. No pass is under way and nothing has been sampled.
    pub fn new(tick_rate_ms: u64, now_ms: u64) -> (engine: Engine)
        ensures
            engine.wf(),
            engine@ == (EngineView {
                scan: ScanView::idle(),
                analyzer: AnalyzerView::initial(),
                tick_rate_ms,
                last_tick_ms: now_ms,
            }),
    {
        Engine {
            collector: Collector::new(),
            analyzer: Analyzer::new(),
            tick_rate_ms,
            last_tick_ms: now_ms,
        }
    }

    /// Whether a tick is due at `now_ms`. Changes nothing.
    pub fn should_tick(&self, now_ms: u64) -> (due: bool)
        ensures
            due == self@.due(now_ms),
    {
        let elapsed = if now_ms >= self.last_tick_ms {
            now_ms - self.last_tick_ms
        } else {
            0
        };
        elapsed >= self.tick_rate_ms
    }

    /// Begins a sampling pass over the processes that the directory
    /// entries `entries` name.
    pub fn begin_scan(&mut self, entries: &Vec<Vec<u8>>)
        requires
            old(self).wf(),
        ensures
            final(self).wf(),
            is_candidate_list(final(self)@.scan.candidates, entries@),
            final(self)@ == (EngineView {
                scan: ScanView::begun(final(self)@.scan.candidates),
                ..old(self)@
            }),
    {
        self.collector.begin(entries);
    }

    /// The read that the pass under way waits for.
    pub fn next_request(&self) -> (request: Request)
        requires
            self.wf(),
        ensures
            request == self@.scan.request(),
    {
        self.collector.next_request()
    }

    /// Hands the pass the outcome of the read it waited for.
    pub fn supply(&mut self, read: FileRead)
        requires
            old(self).wf(),
        ensures
            final(self).wf(),
            final(self)@ == (EngineView { scan: old(self)@.scan.step(read), ..old(self)@ }),
    {
        self.collector.supply(read);
    }

    /// Ends the pass, folds its snapshot in and stamps the tick.
    fn complete(&mut self, now_ms: u64) -> (result: Result<AnalyzedState, FatalError>)
        requires
            old(self).wf(),
        ensures
            final(self).wf(),
            old(self)@.ticks_to(
                now_ms,
                final(self)@,
                match result {
                    Ok(state) => Ok(state@),
                    Err(error) => Err(error),
                },
            ),
    {
        match self.collector.collect(now_ms) {
            Ok(snapshot) => {
                self.analyzer.update(snapshot);
                self.last_tick_ms = now_ms;
                Ok(self.analyzer.get_state())
            },
            Err(error) => Err(error),
        }
    }

    /// One tick: takes the snapshot of the pass that was run, folds it into
    /// the analyzer and returns what is then shown. `now_ms` is the time at
    /// which the pass completed; it becomes the time of the last tick, so a
    /// slow pass delays the next tick rather than hastening it. A pass
    /// without a system total, or one that is not over, gives its error and
    /// leaves analyzer and tick time as they were.
    pub fn tick(&mut self, now_ms: u64) -> (result: Result<AnalyzedState, FatalError>)
        requires
            old(self).wf(),
        ensures
            final(self).wf(),
            old(self)@.ticks_to(
                now_ms,
                final(self)@,
                match result {
                    Ok(state) => Ok(state@),
                    Err(error) => Err(error),
                },
            ),
    {
        self.complete(now_ms)
    }

    /// The first tick, to be made once before anything is drawn, whether or
    /// not a tick is due. It does what [`Engine::tick`] does.
    pub fn initial_state(&mut self, now_ms: u64) -> (result: Result<AnalyzedState, FatalError>)
        requires
            old(self).wf(),
        ensures
            final(self).wf(),
            old(self)@.ticks_to(
                now_ms,
                final(self)@,
                match result {
                    Ok(state) => Ok(state@),
                    Err(error) => Err(error),
                },
            ),
    {
        self.complete(now_ms)
    }

    /// What is shown now, without a tick.
    pub fn get_state(&self) -> (state: AnalyzedState)
        requires
            self.wf(),
        ensures
            self@.analyzer.shows(state@),
    {
        self.analyzer.get_state()
    }

    /// Moves the sort key on by one in its cycle.
    pub fn next_sort(&mut self)
        requires
            old(self).wf(),
        ensures
            final(self).wf(),
            final(self)@ == old(self)@.with_analyzer(
                old(self)@.commanded(Command::NextSort, 0),
            ),
    {
        self.analyzer.next_sort();
    }

    /// Switches between flat and grouped rows.
    pub fn toggle_view(&mut self)
        requires
            old(self).wf(),
        ensures
            final(self).wf(),
            final(self)@ == old(self)@.with_analyzer(
                old(self)@.commanded(Command::ToggleView, 0),
            ),
    {
        self.analyzer.toggle_view();
    }

    /// Scrolls one row up.
    pub fn scroll_up(&mut self)
        requires
            old(self).wf(),
        ensures
            final(self).wf(),
            final(self)@ == old(self)@.with_analyzer(
                old(self)@.commanded(Command::ScrollUp, 0),
            ),
    {
        self.analyzer.scroll_up();
    }

    /// Scrolls one row down, no further than the last page.
    pub fn scroll_down(&mut self)
        requires
            old(self).wf(),
        ensures
            final(self).wf(),
            final(self)@ == old(self)@.with_analyzer(
                old(self)@.commanded(Command::ScrollDown, 0),
            ),
    {
        self.analyzer.scroll_down();
    }

    /// Scrolls one page up; `page_size` is the viewport height.
    pub fn page_up(&mut self, page_size: usize)
        requires
            old(self).wf(),
        ensures
            final(self).wf(),
            final(self)@ == old(self)@.with_analyzer(
                old(self)@.commanded(Command::PageUp, page_size),
            ),
    {
        self.analyzer.page_up(page_size);
    }

    /// Scrolls one page down; `page_size` is the viewport height.
    pub fn page_down(&mut self, page_size: usize)
        requires
            old(self).wf(),
        ensures
            final(self).wf(),
            final(self)@ == old(self)@.with_analyzer(
                old(self)@.commanded(Command::PageDown, page_size),
            ),
    {
        self.analyzer.page_down(page_size);
    }

    /// Takes the viewport height as the page size and clamps the cursor.
    pub fn set_page_size(&mut self, page_size: usize)
        requires
            old(self).wf(),
        ensures
            final(self).wf(),
            final(self)@ == old(self)@.with_analyzer(
                old(self)@.analyzer.with_view(
                    old(self)@.analyzer.view.resized(page_size, old(self)@.analyzer.row_count()),
                ),
            ),
    {
        self.analyzer.set_page_size(page_size);
    }

    /// Carries out `command`, with viewport height `page_size` for the page
    /// commands. Says whether the monitor goes on: `Quit` changes nothing
    /// and ends it.
    pub fn apply(&mut self, command: Command, page_size: usize) -> (running: bool)
        requires
            old(self).wf(),
        ensures
            final(self).wf(),
            running == (command != Command::Quit),
            final(self)@ == old(self)@.with_analyzer(old(self)@.commanded(command, page_size)),
    {
        match command {
            Command::Quit => {
                return false;
            },
            Command::NextSort => self.next_sort(),
            Command::ToggleView => self.toggle_view(),
            Command::ScrollUp => self.scroll_up(),
            Command::ScrollDown => self.scroll_down(),
            Command::PageUp => self.page_up(page_size),
            Command::PageDown => self.page_down(page_size),
        }
        true
    }
}

} // verus!
