//! A viewing session: the decisions of the viewer's loop.
//!
//! The loop around a session waits for a key, hands it over with
//! [`Session::handle_key`], and then draws: it measures the terminal, asks
//! [`Session::begin_frame`] which bytes to read, reads them, and has
//! [`Session::render`] lay them out. A session never holds a window that
//! runs past the file or a cursor that is off the grid, whatever keys and
//! terminal sizes it is given.

use crate::keys::{event_for_key, spec_event_for_key, Key};
use crate::layout::{compute, grid_bytes_per_row, grid_visible_rows, LayoutParams};
use crate::navigation::{
    lemma_next_keeps_valid, Action, CursorPosition, NavEvent, NavigationState,
};
use crate::render::{frame_lines, lemma_frame_fits_screen, lines_view, render_frame, Line};
use vstd::math::{max, min};
use vstd::prelude::*;
use vstd::slice::slice_subrange;

verus! {

/// What a session holds, as a mathematical value: the navigation state and
/// the layout of the last frame.
pub struct SessionView {
    /// Where the view stands in the file.
    pub nav: NavigationState,
    /// The grid of the last frame, under which the next key is taken.
    pub layout: LayoutParams,
}

/// What the loop hands to a session.
pub enum Input {
    /// A key was pressed.
    Key(Key),
    /// A frame is about to be drawn on a terminal of `width` columns and
    /// `height` lines.
    Frame { width: u16, height: u16 },
}

/// The bytes a frame needs: `len` of them, from `offset` on.
#[derive(Clone, Copy, Debug, PartialEq, Eq, Structural)]
pub struct ReadRequest {
    /// Offset of the first byte to read.
    pub offset: u64,
    /// How many bytes to read.
    pub len: usize,
}

impl SessionView {
    /// The layout is that of some terminal, and the navigation state fits it.
    pub open spec fn wf(self) -> bool {
        &&& self.layout.valid()
        &&& self.layout.bytes_per_row <= u16::MAX
        &&& self.layout.visible_row_count <= u16::MAX
        &&& self.nav.valid_for(self.layout)
    }

    /// The layout that a terminal of the given size gets.
    pub open spec fn layout_for(width: u16, height: u16) -> LayoutParams {
        LayoutParams {
            bytes_per_row: grid_bytes_per_row(width as int) as usize,
            visible_row_count: grid_visible_rows(height as int) as usize,
        }
    }

    /// A key is taken under the layout of the last frame; a key that is
    /// bound to nothing changes nothing.
    pub open spec fn on_key(self, key: Key) -> SessionView {
        match spec_event_for_key(key) {
            Some(event) => SessionView { nav: self.nav.next(event, self.layout), ..self },
            None => self,
        }
    }

    /// A frame takes the layout from the terminal's size and fits the
    /// navigation state to it.
    pub open spec fn on_frame(self, width: u16, height: u16) -> SessionView {
        let layout = Self::layout_for(width, height);
        SessionView { nav: self.nav.next(NavEvent::Resize, layout), layout }
    }

    /// The session after one input.
    pub open spec fn step(self, input: Input) -> SessionView {
        match input {
            Input::Key(key) => self.on_key(key),
            Input::Frame { width, height } => self.on_frame(width, height),
        }
    }

    /// The session after a run of inputs.
    pub open spec fn after(self, inputs: Seq<Input>) -> SessionView
        decreases inputs.len(),
    {
        if inputs.len() == 0 {
            self
        } else {
            self.after(inputs.drop_last()).step(inputs.last())
        }
    }

    /// The bytes of `window` that a frame shows: no more than were asked for.
    pub open spec fn shown(self, window: Seq<u8>) -> Seq<u8> {
        window.take(min(window.len() as int, self.nav.spec_window_len(self.layout)))
    }
}

/// The state of one viewing session.
pub struct Session {
    nav: NavigationState,
    layout: LayoutParams,
}

impl View for Session {
    type V = SessionView;

    closed spec fn view(&self) -> SessionView {
        SessionView { nav: self.nav, layout: self.layout }
    }
}

impl Session {
    #[verifier::type_invariant]
    spec fn well_formed(self) -> bool {
        self@.wf()
    }

    /// Starts a session on a file of `extent` bytes: the window at the start
    /// of the file, the cursor in the top left cell, and, until the first
    /// frame, rows of sixteen bytes and no room for them.
    pub fn open(extent: u64) -> (session: Session)
        ensures
            session@.wf(),
            session@.nav.extent == extent,
            session@.nav.offset == 0,
            session@.nav.cursor.row == 0,
            session@.nav.cursor.column == 0,
            session@.layout.bytes_per_row == 16,
            session@.layout.visible_row_count == 0,
    {
        let layout = LayoutParams::initial();
        let nav = NavigationState::new(extent);
        Session { nav, layout }
    }

    /// Takes a key press and says whether the loop goes on.
    pub fn handle_key(&mut self, key: Key) -> (action: Action)
        ensures
            final(self)@ == old(self)@.on_key(key),
            final(self)@.wf(),
            action == (if spec_event_for_key(key) == Some(NavEvent::Quit) {
                Action::Quit
            } else {
                Action::Continue
            }),
    {
        proof {
            use_type_invariant(&*self);
        }
        let mut nav = self.nav;
        let action = match event_for_key(key) {
            Some(event) => nav.apply(event, &self.layout),
            None => Action::Continue,
        };
        self.nav = nav;
        action
    }

    /// Prepares the next frame for a terminal of the given size, and says
    /// which bytes of the file the frame shows.
    pub fn begin_frame(&mut self, width: u16, height: u16) -> (request: ReadRequest)
        ensures
            final(self)@ == old(self)@.on_frame(width, height),
            final(self)@.wf(),
            final(self)@.layout.bytes_per_row == grid_bytes_per_row(width as int),
            final(self)@.layout.visible_row_count == grid_visible_rows(height as int),
            request.offset == final(self)@.nav.offset,
            request.len == final(self)@.nav.spec_window_len(final(self)@.layout),
            request.offset + request.len <= final(self)@.nav.extent,
    {
        let layout = compute(width, height);
        let mut nav = self.nav;
        nav.apply(NavEvent::Resize, &layout);
        let len: u64 = nav.window_len(&layout);
        proof {
            lemma_terminal_capacity(layout);
        }
        *self = Session { nav, layout };
        ReadRequest { offset: nav.offset, len: len as usize }
    }

    /// Lays out the bytes read for the current frame.
    ///
    /// `window` holds the bytes of the file from the requested offset on.
    /// Bytes beyond the requested length are not part of the frame and are
    /// left out; fewer bytes than requested give a shorter frame.
    pub fn render(&self, window: &[u8]) -> (lines: Vec<Line>)
        ensures
            lines_view(lines@) == frame_lines(
                self@.shown(window@),
                self@.nav.offset as int,
                self@.layout,
                self@.nav.cursor,
            ),
            lines@.len() <= self@.layout.visible_row_count,
    {
        proof {
            use_type_invariant(self);
            lemma_frame_fits_screen(
                self@.shown(window@),
                self.nav.offset as int,
                self.layout,
                self.nav.cursor,
            );
        }
        let asked: u64 = self.nav.window_len(&self.layout);
        let shown: usize = if (window.len() as u64) <= asked {
            window.len()
        } else {
            asked as usize
        };
        let bytes = slice_subrange(window, 0, shown);
        render_frame(bytes, self.nav.offset, &self.layout, self.nav.cursor)
    }

    /// Offset of the first byte shown.
    pub fn offset(&self) -> (offset: u64)
        ensures
            offset == self@.nav.offset,
    {
        self.nav.offset
    }

    /// The highlighted cell.
    pub fn cursor(&self) -> (cursor: CursorPosition)
        ensures
            cursor == self@.nav.cursor,
    {
        self.nav.cursor
    }

    /// The navigation state.
    pub fn navigation(&self) -> (nav: NavigationState)
        ensures
            nav == self@.nav,
    {
        self.nav
    }

    /// The layout of the last frame.
    pub fn layout(&self) -> (layout: LayoutParams)
        ensures
            layout == self@.layout,
    {
        self.layout
    }
}

/// The grid of a terminal holds fewer than 2^32 bytes.
proof fn lemma_terminal_capacity(layout: LayoutParams)
    requires
        layout.bytes_per_row <= u16::MAX,
        layout.visible_row_count <= u16::MAX,
    ensures
        0 <= layout.capacity() <= 0xffff * 0xffff,
{
    assert(0 <= layout.bytes_per_row * layout.visible_row_count <= 0xffff * 0xffff)
        by (nonlinear_arith)
        requires
            layout.bytes_per_row <= 0xffff,
            layout.visible_row_count <= 0xffff,
    ;
}

/// Every input leaves a well-formed session well-formed: after a key, and
/// after a frame on a terminal of any size, the window ends within the file
/// and the cursor is on the grid.
pub proof fn lemma_step_keeps_wf(session: SessionView, input: Input)
    requires
        session.wf(),
    ensures
        session.step(input).wf(),
        session.step(input).nav.extent == session.nav.extent,
{
    match input {
        Input::Key(key) => {
            if let Some(event) = spec_event_for_key(key) {
                lemma_next_keeps_valid(session.nav, event, session.layout);
            }
        },
        Input::Frame { width, height } => {
            lemma_next_keeps_valid(
                session.nav,
                NavEvent::Resize,
                SessionView::layout_for(width, height),
            );
        },
    }
}

/// After any run of keys and frames, the offset is at most the largest one
/// the last layout allows, and the cursor is on a column of the grid and on
/// a row with content, or on the first row where there is none.
pub proof fn lemma_session_stays_wf(session: SessionView, inputs: Seq<Input>)
    requires
        session.wf(),
    ensures
        session.after(inputs).wf(),
        session.after(inputs).nav.extent == session.nav.extent,
        ({
            let end = session.after(inputs);
            &&& 0 <= end.nav.offset <= max(0, end.nav.extent - end.layout.capacity())
            &&& 0 <= end.nav.cursor.column < end.layout.bytes_per_row
            &&& 0 <= end.nav.cursor.row < max(end.nav.spec_content_row_count(end.layout), 1)
        }),
    decreases inputs.len(),
{
    if inputs.len() > 0 {
        lemma_session_stays_wf(session, inputs.drop_last());
        lemma_step_keeps_wf(session.after(inputs.drop_last()), inputs.last());
    }
}

} // verus!
