use hextui::keys::Key;
use hextui::layout::LayoutParams;
use hextui::navigation::{Action, CursorPosition, NavigationState};
use hextui::render::{render_frame, render_row, Segment, SegmentKind};
use hextui::session::{ReadRequest, Session};
use hextui::window::read_window;

fn file(len: usize) -> Vec<u8> {
    (0..len).map(|i| (i % 251) as u8).collect()
}

fn in_bounds(session: &Session) -> bool {
    let layout = session.layout();
    let state = session.navigation();
    let capacity = (layout.bytes_per_row as u64) * (layout.visible_row_count as u64);
    let max_offset = state.extent.saturating_sub(capacity);
    let window = capacity.min(state.extent - state.offset.min(state.extent));
    let per_row = layout.bytes_per_row as u64;
    let content_rows = (window + per_row - 1) / per_row;
    layout.bytes_per_row >= 1
        && state.offset <= max_offset
        && state.cursor.column < layout.bytes_per_row
        && (state.cursor.row as u64) < content_rows.max(1)
}

#[test]
fn open_session() {
    let session = Session::open(40);
    assert_eq!(session.offset(), 0);
    assert_eq!(session.cursor(), CursorPosition { row: 0, column: 0 });
    assert_eq!(session.navigation(), NavigationState::new(40));
    assert_eq!(session.layout(), LayoutParams { bytes_per_row: 16, visible_row_count: 0 });
}

#[test]
fn first_frame_of_short_file() {
    let mut session = Session::open(40);
    let request = session.begin_frame(79, 12);
    assert_eq!(request, ReadRequest { offset: 0, len: 40 });
    assert_eq!(session.layout(), LayoutParams { bytes_per_row: 16, visible_row_count: 10 });
    assert_eq!(session.navigation(), NavigationState::new(40));
}

#[test]
fn short_file_end_to_end() {
    let data = file(40);
    let mut session = Session::open(40);
    let request = session.begin_frame(79, 12);
    let window = read_window(&data, request.offset, request.len);
    let lines = session.render(&window);
    assert_eq!(lines.len(), 6);
    assert_eq!(lines[3], render_row(&data[0..16], 0, Some(0)));
    assert_eq!(lines[4], render_row(&data[16..32], 16, None));
    assert_eq!(lines[5], render_row(&data[32..40], 32, None));
    assert_eq!(lines[5].segments.len(), 2 + 8 + 1 + 8);

    assert_eq!(session.handle_key(Key::PageDown), Action::Continue);
    assert_eq!(session.offset(), 0);

    for expected_row in [1usize, 2, 2] {
        assert_eq!(session.handle_key(Key::Down), Action::Continue);
        assert_eq!(session.cursor(), CursorPosition { row: expected_row, column: 0 });
    }
    assert_eq!(session.offset(), 0);

    let request = session.begin_frame(79, 12);
    assert_eq!(request, ReadRequest { offset: 0, len: 40 });
    let lines = session.render(&read_window(&data, request.offset, request.len));
    assert_eq!(lines[5], render_row(&data[32..40], 32, Some(0)));
}

#[test]
fn keys_before_the_first_frame() {
    let mut session = Session::open(100);
    session.handle_key(Key::PageDown);
    assert_eq!(session.offset(), 0);
    session.handle_key(Key::Right);
    assert_eq!(session.cursor(), CursorPosition { row: 0, column: 1 });
    session.handle_key(Key::Down);
    assert_eq!(session.offset(), 16);
    assert_eq!(session.cursor(), CursorPosition { row: 0, column: 1 });
    assert!(in_bounds(&session));
}

#[test]
fn q_ends_the_session() {
    let mut session = Session::open(100);
    session.begin_frame(80, 24);
    session.handle_key(Key::Down);
    let before = session.navigation();
    assert_eq!(session.handle_key(Key::Char('q')), Action::Quit);
    assert_eq!(session.navigation(), before);
}

#[test]
fn unbound_keys_change_nothing() {
    let mut session = Session::open(100);
    session.begin_frame(80, 24);
    session.handle_key(Key::Down);
    session.handle_key(Key::Right);
    let before = session.navigation();
    for key in [Key::Other, Key::Char('x'), Key::Char('Q'), Key::Char('\n')] {
        assert_eq!(session.handle_key(key), Action::Continue);
        assert_eq!(session.navigation(), before);
    }
}

#[test]
fn paging_through_a_long_file() {
    let mut session = Session::open(1000);
    let mut requests = Vec::new();
    for _ in 0..7 {
        requests.push(session.begin_frame(79, 12));
        session.handle_key(Key::PageDown);
    }
    assert_eq!(
        requests,
        vec![
            ReadRequest { offset: 0, len: 160 },
            ReadRequest { offset: 160, len: 160 },
            ReadRequest { offset: 320, len: 160 },
            ReadRequest { offset: 480, len: 160 },
            ReadRequest { offset: 640, len: 160 },
            ReadRequest { offset: 800, len: 160 },
            ReadRequest { offset: 840, len: 160 },
        ]
    );
    session.handle_key(Key::PageUp);
    assert_eq!(session.begin_frame(79, 12), ReadRequest { offset: 680, len: 160 });
}

#[test]
fn shrinking_the_terminal_pulls_the_cursor_in() {
    let mut session = Session::open(1000);
    session.begin_frame(79, 12);
    for _ in 0..15 {
        session.handle_key(Key::Right);
    }
    for _ in 0..9 {
        session.handle_key(Key::Down);
    }
    assert_eq!(session.cursor(), CursorPosition { row: 9, column: 15 });
    let request = session.begin_frame(31, 5);
    assert_eq!(session.layout(), LayoutParams { bytes_per_row: 4, visible_row_count: 3 });
    assert_eq!(session.cursor(), CursorPosition { row: 2, column: 3 });
    assert_eq!(request, ReadRequest { offset: 0, len: 12 });
    assert!(in_bounds(&session));
}

#[test]
fn growing_the_terminal_pulls_the_window_back() {
    let mut session = Session::open(100);
    session.begin_frame(79, 4);
    for _ in 0..10 {
        session.handle_key(Key::PageDown);
    }
    assert_eq!(session.offset(), 68);
    let request = session.begin_frame(79, 12);
    assert_eq!(request, ReadRequest { offset: 0, len: 100 });
    assert!(in_bounds(&session));
}

#[test]
fn terminal_without_room_shows_nothing() {
    let data = file(100);
    let mut session = Session::open(100);
    let request = session.begin_frame(5, 1);
    assert_eq!(session.layout(), LayoutParams { bytes_per_row: 1, visible_row_count: 0 });
    assert_eq!(request, ReadRequest { offset: 0, len: 0 });
    let lines = session.render(&read_window(&data, request.offset, request.len));
    assert_eq!(lines.len(), 0);
    assert!(in_bounds(&session));
}

#[test]
fn render_leaves_out_bytes_that_were_not_asked_for() {
    let data = file(100);
    let mut session = Session::open(40);
    let request = session.begin_frame(79, 12);
    assert_eq!(request.len, 40);
    let lines = session.render(&data);
    let expected = render_frame(
        &data[0..40],
        0,
        &LayoutParams { bytes_per_row: 16, visible_row_count: 10 },
        CursorPosition { row: 0, column: 0 },
    );
    assert_eq!(lines, expected);
}

#[test]
fn render_of_a_short_read_is_a_shorter_frame() {
    let data = file(40);
    let mut session = Session::open(40);
    session.begin_frame(79, 12);
    let lines = session.render(&data[0..20]);
    assert_eq!(lines.len(), 4 + 2);
    assert_eq!(lines[4], render_row(&data[0..16], 0, Some(0)));
    assert_eq!(lines[5], render_row(&data[16..20], 16, None));
}

#[test]
fn render_sets_the_cursor_cell_apart() {
    let data = file(1000);
    let mut session = Session::open(1000);
    session.begin_frame(79, 12);
    session.handle_key(Key::Down);
    session.handle_key(Key::Right);
    session.handle_key(Key::Right);
    let request = session.begin_frame(79, 12);
    let lines = session.render(&read_window(&data, request.offset, request.len));
    assert_eq!(lines.len(), 10);
    assert_eq!(
        lines[1].segments[4],
        Segment { text: "12".to_string(), kind: SegmentKind::HexCursor }
    );
    for (row, line) in lines.iter().enumerate() {
        let marked = line
            .segments
            .iter()
            .filter(|s| s.kind == SegmentKind::HexCursor || s.kind == SegmentKind::AsciiCursor)
            .count();
        assert_eq!(marked, if row == 1 { 2 } else { 0 });
    }
}

#[test]
fn any_run_of_keys_and_frames_keeps_the_session_in_bounds() {
    let keys = [
        Key::Up,
        Key::Down,
        Key::Left,
        Key::Right,
        Key::PageUp,
        Key::PageDown,
        Key::Other,
        Key::Char('x'),
    ];
    let sizes = [(79u16, 12u16), (0, 0), (31, 5), (200, 60), (19, 3), (18, 2), (80, 24), (23, 4)];
    for extent in [0u64, 1, 16, 40, 100, 1000, 100_000] {
        let mut session = Session::open(extent);
        let mut seed: u32 = 2024;
        for _ in 0..600 {
            seed = seed.wrapping_mul(1_103_515_245).wrapping_add(12345);
            let pick = (seed >> 16) as usize;
            if pick % 5 == 0 {
                let (width, height) = sizes[(pick / 5) % sizes.len()];
                let request = session.begin_frame(width, height);
                assert_eq!(request.offset, session.offset());
                assert!(request.offset + request.len as u64 <= extent);
            } else {
                assert_eq!(session.handle_key(keys[(pick / 5) % keys.len()]), Action::Continue);
            }
            assert!(in_bounds(&session));
            assert_eq!(session.navigation().extent, extent);
        }
    }
}
