//! Rows of the hex grid as styled text.
//!
//! A row is a run of segments: the address, the bytes in hexadecimal, and
//! the bytes as text, with the cell under the cursor set apart in both
//! columns. What the segments look like on screen is left to whoever draws
//! them; this module says what they hold and what each one is.

use crate::hex::{address_text, ascii_glyph, byte_text, hex_text, spec_ascii_glyph};
use crate::layout::{LayoutParams, ADDRESS_WIDTH, BYTE_WIDTH, GUTTER_WIDTH};
use crate::navigation::CursorPosition;
use crate::window::{lemma_rows_needed_bounds, lemma_rows_needed_fit, spec_rows_needed};
use vstd::arithmetic::div_mod::{lemma_div_pos_is_pos, lemma_fundamental_div_mod, lemma_mod_bound};
use vstd::math::{max, min};
use vstd::prelude::*;
use vstd::slice::slice_subrange;

verus! {

/// What a segment of a row is.
#[derive(Clone, Copy, Debug, PartialEq, Eq, Structural)]
pub enum SegmentKind {
    /// The address at the start of a row.
    Address,
    /// Spacing, and bytes in hexadecimal away from the cursor.
    Plain,
    /// The byte under the cursor, in hexadecimal.
    HexCursor,
    /// A byte as text, away from the cursor.
    Ascii,
    /// The byte under the cursor, as text.
    AsciiCursor,
}

/// A colour that a segment can take.
#[derive(Clone, Copy, Debug, PartialEq, Eq, Structural)]
pub enum Tint {
    /// The colour of addresses.
    Yellow,
    /// The colour of the text column.
    Green,
    /// The colour behind the cell under the cursor.
    White,
}

/// Foreground and background of a segment; `None` leaves the terminal's own.
#[derive(Clone, Copy, Debug, PartialEq, Eq, Structural)]
pub struct CellStyle {
    /// Colour of the characters.
    pub foreground: Option<Tint>,
    /// Colour behind the characters.
    pub background: Option<Tint>,
}

/// A run of characters of one kind.
#[derive(Debug, PartialEq, Eq)]
pub struct Segment {
    /// The characters, from left to right.
    pub text: String,
    /// What the characters are.
    pub kind: SegmentKind,
}

/// What a segment holds, as a mathematical value.
pub struct SegmentView {
    /// The characters, from left to right.
    pub text: Seq<char>,
    /// What the characters are.
    pub kind: SegmentKind,
}

impl View for Segment {
    type V = SegmentView;

    open spec fn view(&self) -> SegmentView {
        SegmentView { text: self.text@, kind: self.kind }
    }
}

/// One line of the frame: its segments from left to right.
#[derive(Debug, PartialEq, Eq)]
pub struct Line {
    /// The segments; none on an empty line.
    pub segments: Vec<Segment>,
}

impl View for Line {
    type V = Seq<SegmentView>;

    open spec fn view(&self) -> Seq<SegmentView> {
        segments_view(self.segments@)
    }
}

/// The segments of a line, each as a mathematical value.
pub open spec fn segments_view(segments: Seq<Segment>) -> Seq<SegmentView> {
    segments.map_values(|segment: Segment| segment@)
}

/// The lines of a frame, each as a mathematical value.
pub open spec fn lines_view(lines: Seq<Line>) -> Seq<Seq<SegmentView>> {
    lines.map_values(|line: Line| line@)
}

/// `count` spaces.
pub open spec fn spaces(count: nat) -> Seq<char> {
    Seq::new(count, |i: int| ' ')
}

/// A segment of spacing.
pub open spec fn gap(count: nat) -> SegmentView {
    SegmentView { text: spaces(count), kind: SegmentKind::Plain }
}

/// One byte in the hex column, followed by its separating space. Under the
/// cursor the two digits stand alone in a segment of their own.
pub open spec fn hex_cell(byte: u8, under_cursor: bool) -> Seq<SegmentView> {
    if under_cursor {
        seq![
            SegmentView { text: hex_text(byte as nat, 2), kind: SegmentKind::HexCursor },
            gap(1),
        ]
    } else {
        seq![SegmentView { text: hex_text(byte as nat, 2) + spaces(1), kind: SegmentKind::Plain }]
    }
}

/// The hex column of a row whose cursor, if any, is on column `cursor`.
pub open spec fn hex_cells(bytes: Seq<u8>, cursor: Option<int>) -> Seq<SegmentView>
    decreases bytes.len(),
{
    if bytes.len() == 0 {
        Seq::empty()
    } else {
        hex_cells(bytes.drop_last(), cursor) + hex_cell(
            bytes.last(),
            cursor == Some(bytes.len() - 1),
        )
    }
}

/// One byte in the text column.
pub open spec fn ascii_cell(byte: u8, under_cursor: bool) -> SegmentView {
    SegmentView {
        text: seq![spec_ascii_glyph(byte)],
        kind: if under_cursor {
            SegmentKind::AsciiCursor
        } else {
            SegmentKind::Ascii
        },
    }
}

/// The text column of a row whose cursor, if any, is on column `cursor`.
pub open spec fn ascii_cells(bytes: Seq<u8>, cursor: Option<int>) -> Seq<SegmentView> {
    Seq::new(bytes.len(), |k: int| ascii_cell(bytes[k], cursor == Some(k)))
}

/// A whole row: address, spacing, hex column, spacing, text column.
pub open spec fn row_cells(bytes: Seq<u8>, address: nat, cursor: Option<int>) -> Seq<
    SegmentView,
> {
    seq![SegmentView { text: hex_text(address, 8), kind: SegmentKind::Address }, gap(4)]
        + hex_cells(bytes, cursor) + seq![gap(3)] + ascii_cells(bytes, cursor)
}

/// The column of an optional cursor as a mathematical value.
pub open spec fn cursor_view(cursor_column: Option<usize>) -> Option<int> {
    match cursor_column {
        Some(column) => Some(column as int),
        None => None,
    }
}

/// The bytes of the window that row `row` shows.
pub open spec fn row_bytes(window: Seq<u8>, row: int, bytes_per_row: int) -> Seq<u8> {
    window.subrange(row * bytes_per_row, min((row + 1) * bytes_per_row, window.len() as int))
}

/// Row `row` of the frame that shows `window`, which starts at `offset`.
pub open spec fn frame_row(
    window: Seq<u8>,
    offset: int,
    layout: LayoutParams,
    cursor: CursorPosition,
    row: int,
) -> Seq<SegmentView> {
    row_cells(
        row_bytes(window, row, layout.bytes_per_row as int),
        (offset + row * layout.bytes_per_row) as nat,
        if cursor.row == row {
            Some(cursor.column as int)
        } else {
            None
        },
    )
}

/// Empty lines above the rows, which centre them on the screen.
pub open spec fn top_padding(content_rows: int, visible_rows: int) -> int {
    max(0, visible_rows - content_rows) / 2
}

/// The lines of a frame below its title: the padding, then one row for
/// every `bytes_per_row` bytes of the window.
pub open spec fn frame_lines(
    window: Seq<u8>,
    offset: int,
    layout: LayoutParams,
    cursor: CursorPosition,
) -> Seq<Seq<SegmentView>> {
    let rows = spec_rows_needed(window.len() as int, layout.bytes_per_row as int);
    let padding = top_padding(rows, layout.visible_row_count as int);
    Seq::new(
        (padding + rows) as nat,
        |i: int|
            if i < padding {
                Seq::empty()
            } else {
                frame_row(window, offset, layout, cursor, i - padding)
            },
    )
}

/// How each kind of segment is coloured.
pub open spec fn spec_style_of(kind: SegmentKind) -> CellStyle {
    match kind {
        SegmentKind::Address => CellStyle { foreground: Some(Tint::Yellow), background: None },
        SegmentKind::Plain => CellStyle { foreground: None, background: None },
        SegmentKind::HexCursor => CellStyle { foreground: None, background: Some(Tint::White) },
        SegmentKind::Ascii => CellStyle { foreground: Some(Tint::Green), background: None },
        SegmentKind::AsciiCursor => CellStyle {
            foreground: Some(Tint::Green),
            background: Some(Tint::White),
        },
    }
}

/// Looks up how a kind of segment is coloured.
pub fn style_of(kind: SegmentKind) -> (style: CellStyle)
    ensures
        style == spec_style_of(kind),
{
    match kind {
        SegmentKind::Address => CellStyle { foreground: Some(Tint::Yellow), background: None },
        SegmentKind::Plain => CellStyle { foreground: None, background: None },
        SegmentKind::HexCursor => CellStyle { foreground: None, background: Some(Tint::White) },
        SegmentKind::Ascii => CellStyle { foreground: Some(Tint::Green), background: None },
        SegmentKind::AsciiCursor => CellStyle {
            foreground: Some(Tint::Green),
            background: Some(Tint::White),
        },
    }
}

/// Makes a segment of `count` spaces.
fn gap_segment(count: usize) -> (segment: Segment)
    ensures
        segment@ == gap(count as nat),
{
    let mut text = String::new();
    let mut i: usize = 0;
    while i < count
        invariant
            i <= count,
            text@ == spaces(i as nat),
        decreases count - i,
    {
        text.push(' ');
        i = i + 1;
    }
    Segment { text, kind: SegmentKind::Plain }
}

/// Renders one row of the grid.
///
/// `cursor_column` is the cursor's column where the cursor is on this row.
/// A cursor beyond the last byte of a partial row sets no cell apart.
pub fn render_row(bytes: &[u8], address: u64, cursor_column: Option<usize>) -> (line: Line)
    ensures
        line@ == row_cells(bytes@, address as nat, cursor_view(cursor_column)),
{
    let ghost cursor = cursor_view(cursor_column);
    let ghost head = seq![
        SegmentView { text: hex_text(address as nat, 8), kind: SegmentKind::Address },
        gap(4),
    ];
    let mut segments: Vec<Segment> = Vec::new();
    segments.push(Segment { text: address_text(address), kind: SegmentKind::Address });
    segments.push(gap_segment(4));
    let mut k: usize = 0;
    while k < bytes.len()
        invariant
            k <= bytes@.len(),
            cursor == cursor_view(cursor_column),
            segments_view(segments@) == head + hex_cells(bytes@.take(k as int), cursor),
        decreases bytes@.len() - k,
    {
        let ghost before = segments_view(segments@);
        let under_cursor: bool = match cursor_column {
            Some(column) => column == k,
            None => false,
        };
        if under_cursor {
            segments.push(Segment { text: byte_text(bytes[k]), kind: SegmentKind::HexCursor });
            segments.push(gap_segment(1));
        } else {
            let mut text = byte_text(bytes[k]);
            text.push(' ');
            assert(text@ =~= hex_text(bytes[k as int] as nat, 2) + spaces(1));
            segments.push(Segment { text, kind: SegmentKind::Plain });
        }
        proof {
            let shorter = bytes@.take(k as int);
            let longer = bytes@.take(k + 1);
            assert(longer.drop_last() =~= shorter);
            assert(segments_view(segments@) =~= before + hex_cell(bytes@[k as int], under_cursor));
        }
        k = k + 1;
    }
    assert(bytes@.take(bytes@.len() as int) =~= bytes@);
    segments.push(gap_segment(3));
    let ghost middle = head + hex_cells(bytes@, cursor) + seq![gap(3)];
    let mut k: usize = 0;
    while k < bytes.len()
        invariant
            k <= bytes@.len(),
            cursor == cursor_view(cursor_column),
            segments_view(segments@) == middle + ascii_cells(bytes@.take(k as int), cursor),
        decreases bytes@.len() - k,
    {
        let ghost before = segments_view(segments@);
        let under_cursor: bool = match cursor_column {
            Some(column) => column == k,
            None => false,
        };
        let mut text = String::new();
        text.push(ascii_glyph(bytes[k]));
        let kind = if under_cursor {
            SegmentKind::AsciiCursor
        } else {
            SegmentKind::Ascii
        };
        segments.push(Segment { text, kind });
        proof {
            assert(segments_view(segments@) =~= before.push(
                ascii_cell(bytes@[k as int], under_cursor),
            ));
        }
        k = k + 1;
    }
    Line { segments }
}

/// Renders the lines of a frame below its title.
///
/// `window` holds the bytes of the file from `offset` on. Every byte of it
/// is drawn, `layout.bytes_per_row` to a row, and the rows are centred
/// between empty lines where they do not fill the screen.
pub fn render_frame(
    window: &[u8],
    offset: u64,
    layout: &LayoutParams,
    cursor: CursorPosition,
) -> (lines: Vec<Line>)
    requires
        layout.valid(),
        offset + window@.len() <= u64::MAX,
    ensures
        lines_view(lines@) == frame_lines(window@, offset as int, *layout, cursor),
{
    let len: usize = window.len();
    let per_row: usize = layout.bytes_per_row;
    proof {
        lemma_rows_needed_bounds(len as int, per_row as int);
        let full = len as int / per_row as int;
        if len % per_row != 0 {
            assert(full < len) by (nonlinear_arith)
                requires
                    (full + 1) * per_row < len + per_row,
                    per_row >= 1,
                    full >= 0,
            ;
        }
    }
    let rows: usize = if len % per_row == 0 {
        len / per_row
    } else {
        len / per_row + 1
    };
    let padding: usize = layout.visible_row_count.saturating_sub(rows) / 2;
    let mut lines: Vec<Line> = Vec::new();
    let mut i: usize = 0;
    while i < padding
        invariant
            i <= padding,
            lines@.len() == i,
            forall|j: int| 0 <= j < i ==> (#[trigger] lines@[j])@ == Seq::<SegmentView>::empty(),
        decreases padding - i,
    {
        lines.push(Line { segments: Vec::new() });
        i = i + 1;
    }
    let mut row: usize = 0;
    let mut start: usize = 0;
    while row < rows
        invariant
            layout.valid(),
            per_row == layout.bytes_per_row,
            len == window@.len(),
            offset + len <= u64::MAX,
            rows == spec_rows_needed(len as int, per_row as int),
            len <= rows * per_row < len + per_row,
            padding == top_padding(rows as int, layout.visible_row_count as int),
            row <= rows,
            start <= len,
            row < rows ==> start == row * per_row,
            lines@.len() == padding + row,
            forall|j: int| 0 <= j < padding ==> (#[trigger] lines@[j])@ == Seq::<SegmentView>::empty(),
            forall|j: int|
                padding <= j < padding + row ==> (#[trigger] lines@[j])@ == frame_row(
                    window@,
                    offset as int,
                    *layout,
                    cursor,
                    j - padding,
                ),
        decreases rows - row,
    {
        proof {
            lemma_row_bounds(row as int, rows as int, per_row as int, len as int);
        }
        let end: usize = if len - start > per_row {
            start + per_row
        } else {
            len
        };
        let bytes = slice_subrange(window, start, end);
        let cursor_column: Option<usize> = if cursor.row == row {
            Some(cursor.column)
        } else {
            None
        };
        let line = render_row(bytes, offset + start as u64, cursor_column);
        lines.push(line);
        start = end;
        row = row + 1;
    }
    lines
}

/// Where row `row` of `rows` starts and ends in a window of `len` bytes.
proof fn lemma_row_bounds(row: int, rows: int, per_row: int, len: int)
    requires
        0 <= row < rows,
        per_row >= 1,
        len <= rows * per_row < len + per_row,
    ensures
        0 <= row * per_row < len,
        (row + 1) * per_row == row * per_row + per_row,
        row + 1 < rows ==> (row + 1) * per_row < len,
        row + 1 == rows ==> (row + 1) * per_row >= len,
{
    assert((row + 1) * per_row == row * per_row + per_row) by (nonlinear_arith);
    if row + 1 < rows {
        assert((row + 2) * per_row <= rows * per_row) by (nonlinear_arith)
            requires
                row + 2 <= rows,
                per_row >= 1,
        ;
        assert((row + 2) * per_row == (row + 1) * per_row + per_row) by (nonlinear_arith);
    }
}

/// The characters of a run of segments, from left to right.
pub open spec fn text_of(cells: Seq<SegmentView>) -> Seq<char>
    decreases cells.len(),
{
    if cells.len() == 0 {
        Seq::empty()
    } else {
        text_of(cells.drop_last()) + cells.last().text
    }
}

/// The characters of the hex column: every byte in two digits and a space.
pub open spec fn hex_column(bytes: Seq<u8>) -> Seq<char>
    decreases bytes.len(),
{
    if bytes.len() == 0 {
        Seq::empty()
    } else {
        hex_column(bytes.drop_last()) + hex_text(bytes.last() as nat, 2) + spaces(1)
    }
}

/// The characters of the text column: one glyph for every byte.
pub open spec fn ascii_column(bytes: Seq<u8>) -> Seq<char> {
    Seq::new(bytes.len(), |k: int| spec_ascii_glyph(bytes[k]))
}

/// The characters of two runs of segments side by side are those of the
/// first followed by those of the second.
pub proof fn lemma_text_of_concat(left: Seq<SegmentView>, right: Seq<SegmentView>)
    ensures
        text_of(left + right) == text_of(left) + text_of(right),
    decreases right.len(),
{
    if right.len() == 0 {
    } else {
        assert((left + right).drop_last() =~= left + right.drop_last());
        lemma_text_of_concat(left, right.drop_last());
    }
}

/// The hex column reads the same wherever the cursor is.
pub proof fn lemma_hex_cells_text(bytes: Seq<u8>, cursor: Option<int>)
    ensures
        text_of(hex_cells(bytes, cursor)) == hex_column(bytes),
        hex_column(bytes).len() == 3 * bytes.len(),
    decreases bytes.len(),
{
    if bytes.len() > 0 {
        let cell = hex_cell(bytes.last(), cursor == Some(bytes.len() - 1));
        let digits = hex_text(bytes.last() as nat, 2);
        lemma_hex_cells_text(bytes.drop_last(), cursor);
        lemma_text_of_concat(hex_cells(bytes.drop_last(), cursor), cell);
        assert(text_of(cell) =~= digits + spaces(1)) by {
            reveal_with_fuel(text_of, 3);
        }
        assert(digits.len() == 2) by {
            reveal_with_fuel(hex_text, 3);
        }
    }
}

/// The text column reads the same wherever the cursor is.
pub proof fn lemma_ascii_cells_text(bytes: Seq<u8>, cursor: Option<int>)
    ensures
        text_of(ascii_cells(bytes, cursor)) == ascii_column(bytes),
    decreases bytes.len(),
{
    if bytes.len() == 0 {
    } else {
        let cells = ascii_cells(bytes, cursor);
        lemma_ascii_cells_text(bytes.drop_last(), cursor);
        assert(cells.drop_last() =~= ascii_cells(bytes.drop_last(), cursor));
    }
}

/// What a row reads, whatever the cursor: the address, four spaces, the
/// bytes in hexadecimal with a space after each, three spaces, and the bytes
/// as text. The cursor changes what kind the segments are, never what they
/// hold.
pub proof fn lemma_row_text(bytes: Seq<u8>, address: nat, cursor: Option<int>)
    ensures
        text_of(row_cells(bytes, address, cursor)) == hex_text(address, 8) + spaces(4)
            + hex_column(bytes) + spaces(3) + ascii_column(bytes),
{
    let head = seq![
        SegmentView { text: hex_text(address, 8), kind: SegmentKind::Address },
        gap(4),
    ];
    let hex = hex_cells(bytes, cursor);
    let ascii = ascii_cells(bytes, cursor);
    assert(text_of(head) =~= hex_text(address, 8) + spaces(4)) by {
        reveal_with_fuel(text_of, 3);
    }
    assert(text_of(seq![gap(3)]) =~= spaces(3)) by {
        reveal_with_fuel(text_of, 2);
    }
    lemma_hex_cells_text(bytes, cursor);
    lemma_ascii_cells_text(bytes, cursor);
    lemma_text_of_concat(head, hex);
    lemma_text_of_concat(head + hex, seq![gap(3)]);
    lemma_text_of_concat(head + hex + seq![gap(3)], ascii);
}

/// A row whose address fits in eight digits takes as many columns as the
/// layout reckons with: eight for the address, seven of spacing, and four
/// for every byte. A full row is as wide as the layout's content.
pub proof fn lemma_row_width(
    bytes: Seq<u8>,
    address: nat,
    cursor: Option<int>,
    layout: LayoutParams,
)
    requires
        address < 0x1_0000_0000,
    ensures
        text_of(row_cells(bytes, address, cursor)).len() == ADDRESS_WIDTH + GUTTER_WIDTH
            + BYTE_WIDTH * bytes.len(),
        bytes.len() == layout.bytes_per_row ==> text_of(row_cells(bytes, address, cursor)).len()
            == layout.content_width(),
{
    lemma_row_text(bytes, address, cursor);
    lemma_hex_cells_text(bytes, cursor);
    assert(hex_text(address, 8).len() == 8) by {
        reveal_with_fuel(hex_text, 9);
    }
}

/// A window of no more than a screenful is drawn in no more lines than the
/// screen has rows.
pub proof fn lemma_frame_fits_screen(
    window: Seq<u8>,
    offset: int,
    layout: LayoutParams,
    cursor: CursorPosition,
)
    requires
        layout.valid(),
        window.len() <= layout.capacity(),
    ensures
        frame_lines(window, offset, layout, cursor).len() <= layout.visible_row_count,
{
    lemma_rows_needed_fit(
        window.len() as int,
        layout.bytes_per_row as int,
        layout.visible_row_count as int,
    );
}

/// Whether the cursor is on one of the bytes of a row.
pub open spec fn cursor_on_row(bytes: Seq<u8>, cursor: Option<int>) -> bool {
    cursor matches Some(column) && 0 <= column < bytes.len()
}

/// In the hex column the byte under the cursor, and no other, is set apart:
/// its two digits are the one segment of their kind, and they stand where
/// the cursor is, since every byte before them is one segment.
pub proof fn lemma_hex_cells_cursor(bytes: Seq<u8>, cursor: Option<int>)
    ensures
        hex_cells(bytes, cursor).len() == bytes.len() + (if cursor_on_row(bytes, cursor) {
            1int
        } else {
            0int
        }),
        forall|j: int|
            0 <= j < hex_cells(bytes, cursor).len() ==> ((#[trigger] hex_cells(
                bytes,
                cursor,
            )[j]).kind == SegmentKind::HexCursor <==> cursor == Some(j) && j < bytes.len()),
        forall|j: int|
            0 <= j < hex_cells(bytes, cursor).len() && cursor != Some(j) ==> (#[trigger] hex_cells(
                bytes,
                cursor,
            )[j]).kind == SegmentKind::Plain,
        cursor matches Some(column) ==> (0 <= column < bytes.len() ==> hex_cells(
            bytes,
            cursor,
        )[column].text == hex_text(bytes[column] as nat, 2)),
    decreases bytes.len(),
{
    if bytes.len() > 0 {
        lemma_hex_cells_cursor(bytes.drop_last(), cursor);
    }
}

/// In the text column the byte under the cursor, and no other, is set apart.
pub proof fn lemma_ascii_cells_cursor(bytes: Seq<u8>, cursor: Option<int>)
    ensures
        ascii_cells(bytes, cursor).len() == bytes.len(),
        forall|k: int|
            0 <= k < bytes.len() ==> ((#[trigger] ascii_cells(bytes, cursor)[k]).kind
                == SegmentKind::AsciiCursor <==> cursor == Some(k)),
        forall|k: int|
            0 <= k < bytes.len() && cursor != Some(k) ==> (#[trigger] ascii_cells(
                bytes,
                cursor,
            )[k]).kind == SegmentKind::Ascii,
        forall|k: int|
            0 <= k < bytes.len() ==> (#[trigger] ascii_cells(bytes, cursor)[k]).text
                == seq![spec_ascii_glyph(bytes[k])],
{
}

/// The cell under the cursor looks different from the cells beside it.
pub proof fn lemma_cursor_styles_stand_out()
    ensures
        spec_style_of(SegmentKind::HexCursor) != spec_style_of(SegmentKind::Plain),
        spec_style_of(SegmentKind::AsciiCursor) != spec_style_of(SegmentKind::Ascii),
{
}

/// The cell at `row` and `column` of the grid shows the byte that lies
/// `row * bytes_per_row + column` bytes into the window, where the window
/// reaches that far.
pub proof fn lemma_cell_holds_byte(window: Seq<u8>, bytes_per_row: int, row: int, column: int)
    requires
        bytes_per_row >= 1,
        0 <= row,
        0 <= column < bytes_per_row,
        row * bytes_per_row + column < window.len(),
    ensures
        row < spec_rows_needed(window.len() as int, bytes_per_row),
        column < row_bytes(window, row, bytes_per_row).len(),
        row_bytes(window, row, bytes_per_row)[column] == window[row * bytes_per_row + column],
{
    lemma_rows_needed_bounds(window.len() as int, bytes_per_row);
    let rows = spec_rows_needed(window.len() as int, bytes_per_row);
    assert((row + 1) * bytes_per_row == row * bytes_per_row + bytes_per_row) by (nonlinear_arith);
    assert(row * bytes_per_row >= 0) by (nonlinear_arith)
        requires
            row >= 0,
            bytes_per_row >= 1,
    ;
    assert(row < rows) by (nonlinear_arith)
        requires
            row * bytes_per_row < rows * bytes_per_row,
            bytes_per_row >= 1,
    ;
}

/// Every byte of the window is drawn, and drawn once: byte `i` stands in
/// row `i / bytes_per_row` at column `i % bytes_per_row`.
pub proof fn lemma_rows_hold_window(window: Seq<u8>, bytes_per_row: int, i: int)
    requires
        bytes_per_row >= 1,
        0 <= i < window.len(),
    ensures
        0 <= i / bytes_per_row < spec_rows_needed(window.len() as int, bytes_per_row),
        0 <= i % bytes_per_row < row_bytes(window, i / bytes_per_row, bytes_per_row).len(),
        row_bytes(window, i / bytes_per_row, bytes_per_row)[i % bytes_per_row] == window[i],
{
    lemma_fundamental_div_mod(i, bytes_per_row);
    lemma_mod_bound(i, bytes_per_row);
    lemma_div_pos_is_pos(i, bytes_per_row);
    assert((i / bytes_per_row) * bytes_per_row == bytes_per_row * (i / bytes_per_row))
        by (nonlinear_arith);
    lemma_cell_holds_byte(window, bytes_per_row, i / bytes_per_row, i % bytes_per_row);
}

} // verus!
