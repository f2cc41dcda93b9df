//! The cursor of the display: sort key, view mode and scroll position.
//!
//! The scroll offset of a list of `row_count` rows shown `page_size` at a
//! time lies in `[0, max(0, row_count - page_size)]`. Every transition that
//! can move it past that range takes the row count and clamps.

use vstd::prelude::*;

verus! {

/// The figure by which rows are ordered.
#[derive(Clone, Copy, Debug, PartialEq, Eq, Structural)]
pub enum SortKey {
    Pss,
    Rss,
    Swap,
    PrivateDirty,
}

/// One row per process, or one row per command name.
#[derive(Clone, Copy, Debug, PartialEq, Eq, Structural)]
pub enum ViewMode {
    Flat,
    GroupedByCommand,
}

/// The key that follows `key` in the cycle Pss, Rss, Swap, PrivateDirty.
pub open spec fn following_key(key: SortKey) -> SortKey {
    match key {
        SortKey::Pss => SortKey::Rss,
        SortKey::Rss => SortKey::Swap,
        SortKey::Swap => SortKey::PrivateDirty,
        SortKey::PrivateDirty => SortKey::Pss,
    }
}

/// The other view mode.
pub open spec fn other_mode(mode: ViewMode) -> ViewMode {
    match mode {
        ViewMode::Flat => ViewMode::GroupedByCommand,
        ViewMode::GroupedByCommand => ViewMode::Flat,
    }
}

/// The largest scroll offset of `row_count` rows shown `page_size` at a time.
pub open spec fn max_offset(row_count: int, page_size: int) -> int {
    if row_count > page_size {
        row_count - page_size
    } else {
        0
    }
}

/// The smaller of two numbers.
pub open spec fn at_most(value: int, limit: int) -> int {
    if value <= limit {
        value
    } else {
        limit
    }
}

/// The sort keys form a cycle of four.
pub proof fn lemma_sort_keys_cycle(key: SortKey)
    ensures
        following_key(key) != key,
        following_key(following_key(following_key(following_key(key)))) == key,
{
}

/// Scrolling down moves the cursor one row at a time and stops at the last
/// page: after `times` steps from a cursor in range, the offset is the
/// smaller of the old offset plus `times` and the largest offset.
pub proof fn lemma_scroll_down_stops_at_last_page(view: ViewState, row_count: int, times: nat)
    requires
        0 <= row_count <= usize::MAX,
        view.in_range(row_count),
    ensures
        view.scrolled_down_times(row_count, times).scroll_offset == at_most(
            view.scroll_offset + times,
            max_offset(row_count, view.page_size as int),
        ),
        view.scrolled_down_times(row_count, times).in_range(row_count),
        view.scrolled_down_times(row_count, times).page_size == view.page_size,
    decreases times,
{
    if times > 0 {
        lemma_scroll_down_stops_at_last_page(
            view.scrolled_down(row_count),
            row_count,
            (times - 1) as nat,
        );
    }
}

/// The display cursor. It lives as long as the engine and is changed by
/// user commands only.
#[derive(Clone, Copy, Debug, PartialEq, Eq, Structural)]
pub struct ViewState {
    pub sort_key: SortKey,
    pub view_mode: ViewMode,
    pub scroll_offset: usize,
    pub page_size: usize,
}

impl ViewState {
    /// The scroll offset points no further than the last page of
    /// `row_count` rows.
    pub open spec fn in_range(self, row_count: int) -> bool {
        self.scroll_offset <= max_offset(row_count, self.page_size as int)
    }

    /// The cursor with its offset brought back into the range of
    /// `row_count` rows.
    pub open spec fn clamped(self, row_count: int) -> ViewState {
        ViewState {
            scroll_offset: at_most(
                self.scroll_offset as int,
                max_offset(row_count, self.page_size as int),
            ) as usize,
            ..self
        }
    }

    /// The cursor at the start: by Pss, flat, at the top, with no page size yet.
    pub open spec fn initial() -> ViewState {
        ViewState {
            sort_key: SortKey::Pss,
            view_mode: ViewMode::Flat,
            scroll_offset: 0,
            page_size: 0,
        }
    }

    /// The cursor after the sort key moved on by one.
    pub open spec fn with_next_sort(self) -> ViewState {
        ViewState { sort_key: following_key(self.sort_key), ..self }
    }

    /// The cursor in the other view mode, clamped to that mode's row count.
    pub open spec fn toggled(self, row_count: int) -> ViewState {
        (ViewState { view_mode: other_mode(self.view_mode), ..self }).clamped(row_count)
    }

    /// The cursor one row up, if there is one.
    pub open spec fn scrolled_up(self) -> ViewState {
        ViewState {
            scroll_offset: if self.scroll_offset > 0 {
                (self.scroll_offset - 1) as usize
            } else {
                0
            },
            ..self
        }
    }

    /// The cursor one row down, if the range of `row_count` rows allows.
    pub open spec fn scrolled_down(self, row_count: int) -> ViewState {
        ViewState {
            scroll_offset: at_most(
                self.scroll_offset + 1,
                max_offset(row_count, self.page_size as int),
            ) as usize,
            ..self
        }
    }

    /// The cursor with page size `page_size`, clamped.
    pub open spec fn resized(self, page_size: usize, row_count: int) -> ViewState {
        (ViewState { page_size, ..self }).clamped(row_count)
    }

    /// The cursor one page of `page_size` rows up.
    pub open spec fn paged_up(self, page_size: usize, row_count: int) -> ViewState {
        (ViewState {
            page_size,
            scroll_offset: if self.scroll_offset > page_size {
                (self.scroll_offset - page_size) as usize
            } else {
                0
            },
            ..self
        }).clamped(row_count)
    }

    /// The cursor one page of `page_size` rows down, as far as the range of
    /// `row_count` rows allows.
    pub open spec fn paged_down(self, page_size: usize, row_count: int) -> ViewState {
        ViewState {
            page_size,
            scroll_offset: at_most(
                self.scroll_offset + page_size,
                max_offset(row_count, page_size as int),
            ) as usize,
            ..self
        }
    }

    /// The cursor after `times` steps down.
    pub open spec fn scrolled_down_times(self, row_count: int, times: nat) -> ViewState
        decreases times,
    {
        if times == 0 {
            self
        } else {
            self.scrolled_down(row_count).scrolled_down_times(row_count, (times - 1) as nat)
        }
    }

    /// The cursor at the start.
    pub fn new() -> (view: ViewState)
        ensures
            view == ViewState::initial(),
    {
        ViewState {
            sort_key: SortKey::Pss,
            view_mode: ViewMode::Flat,
            scroll_offset: 0,
            page_size: 0,
        }
    }

    /// The largest offset that `row_count` rows allow.
    pub fn limit(&self, row_count: usize) -> (limit: usize)
        ensures
            limit == max_offset(row_count as int, self.page_size as int),
    {
        if row_count > self.page_size {
            row_count - self.page_size
        } else {
            0
        }
    }

    /// Brings the offset back into the range of `row_count` rows.
    pub fn clamp(&mut self, row_count: usize)
        ensures
            *final(self) == old(self).clamped(row_count as int),
            final(self).in_range(row_count as int),
    {
        let limit = self.limit(row_count);
        if self.scroll_offset > limit {
            self.scroll_offset = limit;
        }
    }

    /// Moves the sort key on by one in its cycle.
    pub fn next_sort(&mut self)
        ensures
            *final(self) == old(self).with_next_sort(),
    {
        self.sort_key = match self.sort_key {
            SortKey::Pss => SortKey::Rss,
            SortKey::Rss => SortKey::Swap,
            SortKey::Swap => SortKey::PrivateDirty,
            SortKey::PrivateDirty => SortKey::Pss,
        };
    }

    /// Switches to the other view mode, which shows `row_count` rows.
    pub fn toggle_view(&mut self, row_count: usize)
        ensures
            *final(self) == old(self).toggled(row_count as int),
            final(self).in_range(row_count as int),
    {
        self.view_mode = match self.view_mode {
            ViewMode::Flat => ViewMode::GroupedByCommand,
            ViewMode::GroupedByCommand => ViewMode::Flat,
        };
        self.clamp(row_count);
    }

    /// Scrolls one row up.
    pub fn scroll_up(&mut self)
        ensures
            *final(self) == old(self).scrolled_up(),
            forall|row_count: int|
                old(self).in_range(row_count) ==> #[trigger] final(self).in_range(row_count),
    {
        if self.scroll_offset > 0 {
            self.scroll_offset = self.scroll_offset - 1;
        }
    }

    /// Scrolls one row down, within the range of `row_count` rows.
    pub fn scroll_down(&mut self, row_count: usize)
        ensures
            *final(self) == old(self).scrolled_down(row_count as int),
            final(self).in_range(row_count as int),
    {
        let limit = self.limit(row_count);
        if self.scroll_offset < limit {
            self.scroll_offset = self.scroll_offset + 1;
        } else {
            self.scroll_offset = limit;
        }
    }

    /// Takes the viewport height `page_size` and clamps.
    pub fn set_page_size(&mut self, page_size: usize, row_count: usize)
        ensures
            *final(self) == old(self).resized(page_size, row_count as int),
            final(self).in_range(row_count as int),
    {
        self.page_size = page_size;
        self.clamp(row_count);
    }

    /// Scrolls one page up, the page being `page_size` rows.
    pub fn page_up(&mut self, page_size: usize, row_count: usize)
        ensures
            *final(self) == old(self).paged_up(page_size, row_count as int),
            final(self).in_range(row_count as int),
    {
        self.page_size = page_size;
        if self.scroll_offset > page_size {
            self.scroll_offset = self.scroll_offset - page_size;
        } else {
            self.scroll_offset = 0;
        }
        self.clamp(row_count);
    }

    /// Scrolls one page down, the page being `page_size` rows.
    pub fn page_down(&mut self, page_size: usize, row_count: usize)
        ensures
            *final(self) == old(self).paged_down(page_size, row_count as int),
            final(self).in_range(row_count as int),
    {
        self.page_size = page_size;
        let limit = self.limit(row_count);
        if self.scroll_offset < limit && page_size < limit - self.scroll_offset {
            self.scroll_offset = self.scroll_offset + page_size;
        } else {
            self.scroll_offset = limit;
        }
    }
}

} // verus!
