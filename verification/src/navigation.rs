//! Navigation: the scroll offset, the cursor, and the events that move them.
//!
//! The state is a byte offset into the file and a cell of the visible grid.
//! Every transition clamps: scrolling past either end of the file, or moving
//! the cursor past an edge of the grid, is absorbed and never reported.

use crate::layout::LayoutParams;
use crate::window::{
    lemma_rows_needed_bounds, lemma_rows_needed_fit, spec_rows_needed, spec_window_len,
    window_len,
};
use vstd::math::{max, min};
use vstd::prelude::*;

verus! {

/// A cell of the visible grid.
#[derive(Clone, Copy, Debug, PartialEq, Eq, Structural)]
pub struct CursorPosition {
    /// Row, counted from the top of the grid.
    pub row: usize,
    /// Column, counted in bytes from the left of the row.
    pub column: usize,
}

/// What can happen to the view.
#[derive(Clone, Copy, Debug, PartialEq, Eq, Structural)]
pub enum NavEvent {
    /// Move the window one row towards the end of the file.
    ScrollLineDown,
    /// Move the window one row towards the start of the file.
    ScrollLineUp,
    /// Move the window one screenful towards the end of the file.
    ScrollPageDown,
    /// Move the window one screenful towards the start of the file.
    ScrollPageUp,
    /// Move the cursor down a row, or the window where the cursor cannot move.
    CursorDown,
    /// Move the cursor up a row, or the window where the cursor cannot move.
    CursorUp,
    /// Move the cursor one byte to the left.
    CursorLeft,
    /// Move the cursor one byte to the right.
    CursorRight,
    /// The grid has a new shape: fit the window and the cursor to it.
    Resize,
    /// Leave the viewer.
    Quit,
}

/// What the caller's loop does after a transition.
#[derive(Clone, Copy, Debug, PartialEq, Eq, Structural)]
pub enum Action {
    /// Draw the next frame and go on.
    Continue,
    /// End the session.
    Quit,
}

/// Where the view stands in a file of `extent` bytes.
#[derive(Clone, Copy, Debug, PartialEq, Eq, Structural)]
pub struct NavigationState {
    /// Length of the file in bytes; fixed for the session.
    pub extent: u64,
    /// Offset of the first byte shown.
    pub offset: u64,
    /// The highlighted cell.
    pub cursor: CursorPosition,
}

impl NavigationState {
    /// The largest offset that still fills the screen, or zero for a file
    /// shorter than one screenful.
    pub open spec fn spec_max_offset(&self, layout: LayoutParams) -> int {
        max(0, self.extent - layout.capacity())
    }

    /// Bytes of the file that the current window holds.
    pub open spec fn spec_window_len(&self, layout: LayoutParams) -> int {
        spec_window_len(self.extent as int, self.offset as int, layout.capacity())
    }

    /// Rows of the grid that hold at least one byte.
    pub open spec fn spec_content_row_count(&self, layout: LayoutParams) -> int {
        spec_rows_needed(self.spec_window_len(layout), layout.bytes_per_row as int)
    }

    /// Offset of the byte under the cursor.
    pub open spec fn spec_cursor_address(&self, layout: LayoutParams) -> int {
        self.offset + self.cursor.row * layout.bytes_per_row + self.cursor.column
    }

    /// The state fits the grid: the window ends within the file unless the
    /// file is shorter than the screen, and the cursor lies on a column of
    /// the grid and on a row with content, or on the first row where there
    /// is no content.
    pub open spec fn valid_for(&self, layout: LayoutParams) -> bool {
        &&& self.offset <= self.spec_max_offset(layout)
        &&& self.cursor.column < layout.bytes_per_row
        &&& self.cursor.row < max(self.spec_content_row_count(layout), 1)
    }

    /// The same state with the window at `offset`.
    pub open spec fn at_offset(self, offset: int) -> Self {
        NavigationState { offset: offset as u64, ..self }
    }

    /// The same state with the cursor at `row` and `column`.
    pub open spec fn at_cell(self, row: int, column: int) -> Self {
        NavigationState {
            cursor: CursorPosition { row: row as usize, column: column as usize },
            ..self
        }
    }

    /// The window moved `step` bytes towards the end, as far as the largest
    /// offset allows.
    pub open spec fn scrolled_down(self, step: int, layout: LayoutParams) -> Self {
        self.at_offset(min(self.offset + step, self.spec_max_offset(layout)))
    }

    /// The window moved `step` bytes towards the start, as far as offset zero
    /// allows.
    pub open spec fn scrolled_up(self, step: int) -> Self {
        self.at_offset(max(0, self.offset - step))
    }

    /// The window and the cursor fitted to `layout`: the offset is lowered to
    /// the largest one allowed, then the cursor is pulled back onto the last
    /// row with content and the last column.
    pub open spec fn refitted(self, layout: LayoutParams) -> Self {
        let moved = self.at_offset(min(self.offset as int, self.spec_max_offset(layout)));
        let last_row = max(moved.spec_content_row_count(layout), 1) - 1;
        moved.at_cell(
            min(self.cursor.row as int, last_row),
            min(self.cursor.column as int, layout.bytes_per_row - 1),
        )
    }

    /// The state that `event` leads to.
    pub open spec fn next(self, event: NavEvent, layout: LayoutParams) -> Self {
        match event {
            NavEvent::ScrollLineDown => self.scrolled_down(layout.bytes_per_row as int, layout),
            NavEvent::ScrollLineUp => self.scrolled_up(layout.bytes_per_row as int),
            NavEvent::ScrollPageDown => self.scrolled_down(layout.capacity(), layout),
            NavEvent::ScrollPageUp => self.scrolled_up(layout.capacity()),
            NavEvent::CursorDown => if self.cursor.row + 1 < self.spec_content_row_count(layout) {
                self.at_cell(self.cursor.row + 1, self.cursor.column as int)
            } else {
                self.scrolled_down(layout.bytes_per_row as int, layout)
            },
            NavEvent::CursorUp => if self.cursor.row > 0 {
                self.at_cell(self.cursor.row - 1, self.cursor.column as int)
            } else {
                self.scrolled_up(layout.bytes_per_row as int)
            },
            NavEvent::CursorLeft => if self.cursor.column > 0 {
                self.at_cell(self.cursor.row as int, self.cursor.column - 1)
            } else {
                self
            },
            NavEvent::CursorRight => if self.cursor.column + 1 < layout.bytes_per_row {
                self.at_cell(self.cursor.row as int, self.cursor.column + 1)
            } else {
                self
            },
            NavEvent::Resize => self.refitted(layout),
            NavEvent::Quit => self,
        }
    }

    /// The state after `events`, each taken under the same `layout`.
    pub open spec fn after(self, events: Seq<NavEvent>, layout: LayoutParams) -> Self
        decreases events.len(),
    {
        if events.len() == 0 {
            self
        } else {
            self.after(events.drop_last(), layout).next(events.last(), layout)
        }
    }

    /// The view of a freshly opened file: the window at the start, the cursor
    /// in the top left cell.
    pub fn new(extent: u64) -> (state: Self)
        ensures
            state.extent == extent,
            state.offset == 0,
            state.cursor.row == 0,
            state.cursor.column == 0,
            forall|layout: LayoutParams| layout.valid() ==> #[trigger] state.valid_for(layout),
    {
        NavigationState { extent, offset: 0, cursor: CursorPosition { row: 0, column: 0 } }
    }

    /// Computes the largest offset the window may take.
    pub fn max_offset(&self, layout: &LayoutParams) -> (offset: u64)
        ensures
            offset == self.spec_max_offset(*layout),
            offset <= self.extent,
    {
        self.extent.saturating_sub(layout.clamped_capacity())
    }

    /// Computes how many bytes the current window holds.
    pub fn window_len(&self, layout: &LayoutParams) -> (len: u64)
        ensures
            len == self.spec_window_len(*layout),
    {
        window_len(self.extent, self.offset, layout.clamped_capacity())
    }

    /// Computes how many rows of the grid hold at least one byte.
    pub fn content_row_count(&self, layout: &LayoutParams) -> (rows: usize)
        requires
            layout.valid(),
        ensures
            rows == self.spec_content_row_count(*layout),
            rows <= layout.visible_row_count,
    {
        let len: u64 = self.window_len(layout);
        let per_row: u64 = layout.bytes_per_row as u64;
        proof {
            lemma_rows_needed_bounds(len as int, per_row as int);
            lemma_rows_needed_fit(len as int, per_row as int, layout.visible_row_count as int);
        }
        let full: u64 = len / per_row;
        if len % per_row == 0 {
            full as usize
        } else {
            (full + 1) as usize
        }
    }

    /// Computes the offset of the byte under the cursor, or `None` where the
    /// cursor is on a cell past the end of the file.
    pub fn cursor_address(&self, layout: &LayoutParams) -> (address: Option<u64>)
        ensures
            address == (if self.spec_cursor_address(*layout) < self.extent {
                Some(self.spec_cursor_address(*layout) as u64)
            } else {
                None
            }),
    {
        let row_start: Option<u64> = (self.cursor.row as u64).checked_mul(
            layout.bytes_per_row as u64,
        );
        let in_window: Option<u64> = match row_start {
            Some(start) => start.checked_add(self.cursor.column as u64),
            None => None,
        };
        let address: Option<u64> = match in_window {
            Some(delta) => self.offset.checked_add(delta),
            None => None,
        };
        match address {
            Some(a) => if a < self.extent {
                Some(a)
            } else {
                None
            },
            None => None,
        }
    }

    /// Takes one event under the layout of the current frame.
    ///
    /// A state that fits the layout still fits it afterwards, and `Resize`
    /// makes any state fit.
    pub fn apply(&mut self, event: NavEvent, layout: &LayoutParams) -> (action: Action)
        requires
            layout.valid(),
        ensures
            *final(self) == old(self).next(event, *layout),
            final(self).extent == old(self).extent,
            action == (if event == NavEvent::Quit {
                Action::Quit
            } else {
                Action::Continue
            }),
            old(self).valid_for(*layout) ==> final(self).valid_for(*layout),
            event == NavEvent::Resize ==> final(self).valid_for(*layout),
    {
        match event {
            NavEvent::ScrollLineDown => {
                self.scroll_down(layout.bytes_per_row as u64, layout);
            },
            NavEvent::ScrollLineUp => {
                self.scroll_up(layout.bytes_per_row as u64);
            },
            NavEvent::ScrollPageDown => {
                self.scroll_down(layout.clamped_capacity(), layout);
            },
            NavEvent::ScrollPageUp => {
                self.scroll_up(layout.clamped_capacity());
            },
            NavEvent::CursorDown => {
                let rows: usize = self.content_row_count(layout);
                if rows > 0 && self.cursor.row < rows - 1 {
                    self.cursor.row = self.cursor.row + 1;
                } else {
                    self.scroll_down(layout.bytes_per_row as u64, layout);
                }
            },
            NavEvent::CursorUp => {
                if self.cursor.row > 0 {
                    self.cursor.row = self.cursor.row - 1;
                } else {
                    self.scroll_up(layout.bytes_per_row as u64);
                }
            },
            NavEvent::CursorLeft => {
                if self.cursor.column > 0 {
                    self.cursor.column = self.cursor.column - 1;
                }
            },
            NavEvent::CursorRight => {
                if self.cursor.column < layout.bytes_per_row - 1 {
                    self.cursor.column = self.cursor.column + 1;
                }
            },
            NavEvent::Resize => {
                self.refit(layout);
            },
            NavEvent::Quit => {},
        }
        match event {
            NavEvent::Quit => Action::Quit,
            _ => Action::Continue,
        }
    }

    /// Moves the window `step` bytes towards the end of the file.
    fn scroll_down(&mut self, step: u64, layout: &LayoutParams)
        ensures
            *final(self) == old(self).scrolled_down(step as int, *layout),
    {
        let limit: u64 = self.max_offset(layout);
        self.offset = match self.offset.checked_add(step) {
            Some(target) => if target < limit {
                target
            } else {
                limit
            },
            None => limit,
        };
    }

    /// Moves the window `step` bytes towards the start of the file.
    fn scroll_up(&mut self, step: u64)
        ensures
            *final(self) == old(self).scrolled_up(step as int),
    {
        self.offset = self.offset.saturating_sub(step);
    }

    /// Fits the window and the cursor to `layout`.
    fn refit(&mut self, layout: &LayoutParams)
        requires
            layout.valid(),
        ensures
            *final(self) == old(self).refitted(*layout),
    {
        let limit: u64 = self.max_offset(layout);
        if self.offset > limit {
            self.offset = limit;
        }
        let rows: usize = self.content_row_count(layout);
        let last_row: usize = if rows > 0 {
            rows - 1
        } else {
            0
        };
        if self.cursor.row > last_row {
            self.cursor.row = last_row;
        }
        let last_column: usize = layout.bytes_per_row - 1;
        if self.cursor.column > last_column {
            self.cursor.column = last_column;
        }
    }
}

/// While the window stays within its bounds, scrolling does not change how
/// many rows have content: a file of a screenful or more always fills the
/// screen, and a shorter one cannot scroll.
pub proof fn lemma_content_rows_ignore_scrolling(
    a: NavigationState,
    b: NavigationState,
    layout: LayoutParams,
)
    requires
        a.extent == b.extent,
        a.offset <= a.spec_max_offset(layout),
        b.offset <= b.spec_max_offset(layout),
    ensures
        a.spec_window_len(layout) == b.spec_window_len(layout),
        a.spec_content_row_count(layout) == b.spec_content_row_count(layout),
{
}

/// Every transition keeps a fitting state fitting, and `Resize` makes any
/// state fit.
pub proof fn lemma_next_keeps_valid(state: NavigationState, event: NavEvent, layout: LayoutParams)
    requires
        layout.valid(),
    ensures
        state.next(event, layout).extent == state.extent,
        state.valid_for(layout) ==> state.next(event, layout).valid_for(layout),
        event == NavEvent::Resize ==> state.next(event, layout).valid_for(layout),
{
    if event != NavEvent::Resize && state.valid_for(layout) {
        lemma_content_rows_ignore_scrolling(state, state.next(event, layout), layout);
    }
}

/// After any run of events under one layout, a state that fitted the layout
/// still fits it: the offset is at most the largest one allowed, and the
/// cursor is on the grid.
pub proof fn lemma_events_keep_valid(
    state: NavigationState,
    events: Seq<NavEvent>,
    layout: LayoutParams,
)
    requires
        layout.valid(),
        state.valid_for(layout),
    ensures
        state.after(events, layout).extent == state.extent,
        state.after(events, layout).valid_for(layout),
        0 <= state.after(events, layout).offset <= max(0, state.extent - layout.capacity()),
        state.after(events, layout).offset <= state.extent,
        0 <= state.after(events, layout).cursor.column < layout.bytes_per_row,
        0 <= state.after(events, layout).cursor.row < max(
            state.after(events, layout).spec_content_row_count(layout),
            1,
        ),
    decreases events.len(),
{
    if events.len() > 0 {
        lemma_events_keep_valid(state, events.drop_last(), layout);
        lemma_next_keeps_valid(state.after(events.drop_last(), layout), events.last(), layout);
    }
}

/// Scrolling up from the start of the file changes nothing, however often
/// it is asked for.
pub proof fn lemma_scroll_up_at_top(state: NavigationState, times: nat, layout: LayoutParams)
    requires
        state.offset == 0,
    ensures
        state.next(NavEvent::ScrollLineUp, layout) == state,
        state.after(Seq::new(times, |i: int| NavEvent::ScrollLineUp), layout) == state,
    decreases times,
{
    if times > 0 {
        let events = Seq::new(times, |i: int| NavEvent::ScrollLineUp);
        let fewer = Seq::new((times - 1) as nat, |i: int| NavEvent::ScrollLineUp);
        assert(events.drop_last() =~= fewer);
        lemma_scroll_up_at_top(state, (times - 1) as nat, layout);
    }
}

/// The rows drawn end less than one row past the end of the file, so the
/// last row may be partial but nothing past the file is asked for.
pub proof fn lemma_rows_stay_in_file(state: NavigationState, layout: LayoutParams)
    requires
        layout.valid(),
        state.offset <= state.extent,
    ensures
        state.offset + state.spec_window_len(layout) <= state.extent,
        state.offset + state.spec_content_row_count(layout) * layout.bytes_per_row
            < state.extent + layout.bytes_per_row,
{
    lemma_rows_needed_bounds(state.spec_window_len(layout), layout.bytes_per_row as int);
}

} // verus!
