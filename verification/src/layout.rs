//! Grid layout: how many bytes fit on a row and how many rows fit on screen.
//!
//! The layout is a pure function of the terminal's size. It is cheap, so
//! callers derive it afresh for every frame instead of caching it.

use vstd::math::{max, min};
use vstd::prelude::*;

verus! {

/// Columns taken by the address prefix of a row: eight hex digits.
pub const ADDRESS_WIDTH: u16 = 8;

/// Columns of spacing on a row: four between the address and the hex column,
/// three between the hex column and the text column.
pub const GUTTER_WIDTH: u16 = 7;

/// Columns one byte takes on a row: two hex digits, a separating space and
/// one glyph in the text column.
pub const BYTE_WIDTH: u16 = 4;

/// Terminal lines that never show file content.
pub const HEADER_LINES: u16 = 2;

/// Bytes per row assumed until the terminal has been measured.
pub const INITIAL_BYTES_PER_ROW: usize = 16;

/// The shape of the byte grid for one frame.
#[derive(Clone, Copy, Debug, PartialEq, Eq, Structural)]
pub struct LayoutParams {
    /// Bytes shown on one row; at least one in a valid layout.
    pub bytes_per_row: usize,
    /// Rows available for file content; may be zero.
    pub visible_row_count: usize,
}

impl LayoutParams {
    /// A grid holds at least one byte per row.
    pub open spec fn valid(&self) -> bool {
        self.bytes_per_row >= 1
    }

    /// Bytes that one screenful can show.
    pub open spec fn capacity(&self) -> int {
        self.bytes_per_row * self.visible_row_count
    }

    /// Columns that a full row occupies.
    pub open spec fn content_width(&self) -> int {
        ADDRESS_WIDTH + GUTTER_WIDTH + BYTE_WIDTH * self.bytes_per_row
    }

    /// The capacity as a machine integer, or `u64::MAX` where it is larger.
    ///
    /// No file is longer than `u64::MAX` bytes, so the clamped value answers
    /// every comparison with an offset or a length as the capacity would.
    pub fn clamped_capacity(&self) -> (capacity: u64)
        ensures
            capacity == min(self.capacity(), u64::MAX as int),
    {
        match (self.bytes_per_row as u64).checked_mul(self.visible_row_count as u64) {
            Some(capacity) => capacity,
            None => u64::MAX,
        }
    }

    /// The layout in force before the first frame: rows of sixteen bytes and
    /// no room for content yet.
    pub fn initial() -> (layout: LayoutParams)
        ensures
            layout.valid(),
            layout.bytes_per_row == INITIAL_BYTES_PER_ROW,
            layout.visible_row_count == 0,
    {
        LayoutParams { bytes_per_row: INITIAL_BYTES_PER_ROW, visible_row_count: 0 }
    }
}

/// Bytes per row that fit in `width` columns, never fewer than one.
pub open spec fn grid_bytes_per_row(width: int) -> int {
    max(1, (width - ADDRESS_WIDTH - GUTTER_WIDTH) / (BYTE_WIDTH as int))
}

/// Content rows that fit in `height` lines, never fewer than zero.
pub open spec fn grid_visible_rows(height: int) -> int {
    max(0, height - HEADER_LINES)
}

/// Derives the grid from the terminal's size.
///
/// A terminal too small for a header or for a single byte is no error: the
/// grid then has one byte per row, or no rows. A terminal wide enough for
/// one byte gets the widest grid that fits: a full row fits in the terminal,
/// and a row one byte longer would not.
pub fn compute(terminal_width: u16, terminal_height: u16) -> (layout: LayoutParams)
    ensures
        layout.valid(),
        layout.bytes_per_row == grid_bytes_per_row(terminal_width as int),
        layout.visible_row_count == grid_visible_rows(terminal_height as int),
        terminal_width >= ADDRESS_WIDTH + GUTTER_WIDTH + BYTE_WIDTH ==> layout.content_width()
            <= terminal_width < layout.content_width() + BYTE_WIDTH,
{
    let room: u16 = terminal_width.saturating_sub(ADDRESS_WIDTH + GUTTER_WIDTH);
    let fit: u16 = room / BYTE_WIDTH;
    let bytes_per_row: u16 = if fit >= 1 { fit } else { 1 };
    let visible_row_count: u16 = terminal_height.saturating_sub(HEADER_LINES);
    LayoutParams {
        bytes_per_row: bytes_per_row as usize,
        visible_row_count: visible_row_count as usize,
    }
}

} // verus!
