//! Byte windows: the part of a file that one frame shows.
//!
//! A window starts at a byte offset and holds as many bytes as were asked
//! for, or fewer where the file ends first. Reading never goes past the end
//! of the file.

use vstd::arithmetic::div_mod::{lemma_fundamental_div_mod, lemma_fundamental_div_mod_converse};
use vstd::math::{max, min};
use vstd::prelude::*;

verus! {

/// Bytes that a read of at most `max_len` bytes at `offset` yields from a
/// source of `extent` bytes.
pub open spec fn spec_window_len(extent: int, offset: int, max_len: int) -> int {
    min(max_len, max(0, extent - offset))
}

/// Rows that `len` bytes occupy when each row holds `bytes_per_row` bytes;
/// the last row may be partial.
pub open spec fn spec_rows_needed(len: int, bytes_per_row: int) -> int {
    (len + bytes_per_row - 1) / bytes_per_row
}

/// Computes the length of the window at `offset`.
pub fn window_len(extent: u64, offset: u64, max_len: u64) -> (len: u64)
    ensures
        len == spec_window_len(extent as int, offset as int, max_len as int),
{
    let left: u64 = extent.saturating_sub(offset);
    if max_len <= left {
        max_len
    } else {
        left
    }
}

/// Returns the bytes of `source` from `offset` on, at most `max_len` of them.
pub fn read_window(source: &[u8], offset: u64, max_len: usize) -> (window: Vec<u8>)
    ensures
        window@.len() == spec_window_len(source@.len() as int, offset as int, max_len as int),
        forall|i: int| 0 <= i < window@.len() ==> window@[i] == source@[offset + i],
{
    let mut window: Vec<u8> = Vec::new();
    if offset >= source.len() as u64 {
        return window;
    }
    let start: usize = offset as usize;
    let left: usize = source.len() - start;
    let len: usize = if max_len <= left { max_len } else { left };
    let mut i: usize = 0;
    while i < len
        invariant
            i <= len,
            start + len <= source@.len() <= usize::MAX,
            window@.len() == i,
            forall|k: int| 0 <= k < i ==> window@[k] == source@[start + k],
        decreases len - i,
    {
        window.push(source[start + i]);
        i = i + 1;
    }
    window
}

/// The number of rows is the least that holds all the bytes.
pub proof fn lemma_rows_needed_bounds(len: int, bytes_per_row: int)
    requires
        len >= 0,
        bytes_per_row >= 1,
    ensures
        spec_rows_needed(len, bytes_per_row) >= 0,
        len <= spec_rows_needed(len, bytes_per_row) * bytes_per_row < len + bytes_per_row,
        spec_rows_needed(len, bytes_per_row) == len / bytes_per_row + (if len % bytes_per_row
            == 0 {
            0int
        } else {
            1int
        }),
{
    let q = len / bytes_per_row;
    let m = len % bytes_per_row;
    lemma_fundamental_div_mod(len, bytes_per_row);
    if m == 0 {
        lemma_fundamental_div_mod_converse(
            len + bytes_per_row - 1,
            bytes_per_row,
            q,
            bytes_per_row - 1,
        );
    } else {
        assert(len + bytes_per_row - 1 == (q + 1) * bytes_per_row + (m - 1)) by (nonlinear_arith)
            requires
                len == bytes_per_row * q + m,
        ;
        lemma_fundamental_div_mod_converse(
            len + bytes_per_row - 1,
            bytes_per_row,
            q + 1,
            m - 1,
        );
    }
    assert(q >= 0) by (nonlinear_arith)
        requires
            len == bytes_per_row * q + m,
            len >= 0,
            bytes_per_row >= 1,
            0 <= m < bytes_per_row,
    ;
}

/// Bytes that fit in `rows` rows need no more than `rows` rows.
pub proof fn lemma_rows_needed_fit(len: int, bytes_per_row: int, rows: int)
    requires
        0 <= len <= bytes_per_row * rows,
        bytes_per_row >= 1,
    ensures
        spec_rows_needed(len, bytes_per_row) <= rows,
{
    lemma_rows_needed_bounds(len, bytes_per_row);
    let n = spec_rows_needed(len, bytes_per_row);
    assert(n <= rows) by (nonlinear_arith)
        requires
            n * bytes_per_row < len + bytes_per_row,
            len <= bytes_per_row * rows,
            bytes_per_row >= 1,
    ;
}

/// The number of rows is the only one whose last row holds one byte at
/// least and `bytes_per_row` at most.
pub proof fn lemma_rows_needed_unique(len: int, bytes_per_row: int, rows: int)
    requires
        bytes_per_row >= 1,
        0 <= len <= rows * bytes_per_row < len + bytes_per_row,
    ensures
        spec_rows_needed(len, bytes_per_row) == rows,
{
    lemma_rows_needed_bounds(len, bytes_per_row);
    let needed = spec_rows_needed(len, bytes_per_row);
    assert(needed == rows) by (nonlinear_arith)
        requires
            bytes_per_row >= 1,
            len <= rows * bytes_per_row < len + bytes_per_row,
            len <= needed * bytes_per_row < len + bytes_per_row,
    ;
}

/// A read at the end of the source yields nothing, and a read one byte
/// before the end yields exactly one byte, however many are asked for, so
/// long as one is.
pub proof fn lemma_window_at_end(extent: int, max_len: int)
    requires
        extent >= 0,
        max_len >= 0,
    ensures
        spec_window_len(extent, extent, max_len) == 0,
        extent >= 1 && max_len >= 1 ==> spec_window_len(extent, extent - 1, max_len) == 1,
{
}

/// A window never runs past the end of the source, and never holds more
/// than was asked for.
pub proof fn lemma_window_in_bounds(extent: int, offset: int, max_len: int)
    requires
        0 <= offset <= extent,
        max_len >= 0,
    ensures
        0 <= spec_window_len(extent, offset, max_len) <= max_len,
        offset + spec_window_len(extent, offset, max_len) <= extent,
{
}

} // verus!
