use hextui::window::{read_window, window_len};

#[test]
fn window_len_whole_short_file() {
    assert_eq!(window_len(40, 0, 160), 40);
}

#[test]
fn window_len_full_window() {
    assert_eq!(window_len(1000, 0, 160), 160);
    assert_eq!(window_len(1000, 840, 160), 160);
}

#[test]
fn window_len_near_end() {
    assert_eq!(window_len(100, 90, 32), 10);
    assert_eq!(window_len(1000, 841, 160), 159);
}

#[test]
fn window_len_at_end_is_zero() {
    assert_eq!(window_len(100, 100, 32), 0);
    assert_eq!(window_len(100, 100, u64::MAX), 0);
    assert_eq!(window_len(0, 0, 32), 0);
}

#[test]
fn window_len_one_before_end_is_one() {
    assert_eq!(window_len(100, 99, 1), 1);
    assert_eq!(window_len(100, 99, 32), 1);
    assert_eq!(window_len(100, 99, u64::MAX), 1);
    assert_eq!(window_len(u64::MAX, u64::MAX - 1, u64::MAX), 1);
}

#[test]
fn window_len_past_end_is_zero() {
    assert_eq!(window_len(100, 150, 32), 0);
    assert_eq!(window_len(0, u64::MAX, u64::MAX), 0);
}

#[test]
fn window_len_nothing_asked() {
    assert_eq!(window_len(100, 10, 0), 0);
}

#[test]
fn read_window_at_end_is_empty() {
    let data: Vec<u8> = (0..40).collect();
    assert_eq!(read_window(&data, 40, 16), Vec::<u8>::new());
    assert_eq!(read_window(&data, 40, usize::MAX), Vec::<u8>::new());
}

#[test]
fn read_window_one_before_end_is_one_byte() {
    let data: Vec<u8> = (0..40).collect();
    assert_eq!(read_window(&data, 39, 1), vec![39]);
    assert_eq!(read_window(&data, 39, 16), vec![39]);
    assert_eq!(read_window(&data, 39, usize::MAX), vec![39]);
}

#[test]
fn read_window_full_row() {
    let data: Vec<u8> = (0..40).collect();
    assert_eq!(read_window(&data, 0, 16), (0..16).collect::<Vec<u8>>());
    assert_eq!(read_window(&data, 16, 16), (16..32).collect::<Vec<u8>>());
}

#[test]
fn read_window_partial_row() {
    let data: Vec<u8> = (0..40).collect();
    assert_eq!(read_window(&data, 32, 16), (32..40).collect::<Vec<u8>>());
}

#[test]
fn read_window_unaligned_offset() {
    let data: Vec<u8> = (0..40).collect();
    assert_eq!(read_window(&data, 5, 3), vec![5, 6, 7]);
}

#[test]
fn read_window_past_end_is_empty() {
    let data: Vec<u8> = (0..40).collect();
    assert_eq!(read_window(&data, 41, 16), Vec::<u8>::new());
    assert_eq!(read_window(&data, u64::MAX, 16), Vec::<u8>::new());
}

#[test]
fn read_window_nothing_asked() {
    let data: Vec<u8> = (0..40).collect();
    assert_eq!(read_window(&data, 3, 0), Vec::<u8>::new());
}

#[test]
fn read_window_empty_source() {
    assert_eq!(read_window(&[], 0, 16), Vec::<u8>::new());
}

#[test]
fn read_window_matches_window_len() {
    let data: Vec<u8> = (0..100).collect();
    for offset in 0..=110u64 {
        for max_len in [0usize, 1, 7, 32, 200] {
            let window = read_window(&data, offset, max_len);
            assert_eq!(window.len() as u64, window_len(100, offset, max_len as u64));
            for (i, byte) in window.iter().enumerate() {
                assert_eq!(*byte, data[offset as usize + i]);
            }
        }
    }
}

#[test]
fn read_window_leaves_source_unchanged() {
    let data: Vec<u8> = (0..40).collect();
    let copy = data.clone();
    let _ = read_window(&data, 8, 16);
    assert_eq!(data, copy);
}
