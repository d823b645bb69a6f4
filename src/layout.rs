//! Fixed output geometry: resolution, square blocks and horizontal strips.
use vstd::prelude::*;

verus! {

/// Side of the square pixel block used for adaptive sampling.
pub const SQUARE_SIZE: usize = 8;

/// Number of pixel rows in the output image.
pub const NUM_ROWS: usize = 696;

/// Number of pixel columns in the output image.
pub const NUM_COLS: usize = 696;

/// Number of horizontal strips, each `SQUARE_SIZE` rows high.
pub const NUM_STRIPS: usize = NUM_ROWS / SQUARE_SIZE;

/// Number of square blocks across one strip.
pub const NUM_BLOCKS: usize = NUM_COLS / SQUARE_SIZE;

/// Bytes per output pixel (RGBA).
pub const BYTES_PER_PIXEL: usize = 4;

/// Pixels in one strip.
pub const STRIP_PIXELS: usize = SQUARE_SIZE * NUM_COLS;

/// Bytes that one rendered strip occupies in the output buffer.
pub const STRIP_BYTES: usize = STRIP_PIXELS * BYTES_PER_PIXEL;

/// First image row of each strip, in strip order.
pub open spec fn strip_first_row(strip: int) -> int {
    strip * SQUARE_SIZE
}

/// Image row of corner `k` (top-left, top-right, bottom-left, bottom-right)
/// of any block of a strip.
pub open spec fn corner_row(strip: int, k: int) -> int {
    if k < 2 {
        strip_first_row(strip)
    } else {
        strip_first_row(strip) + SQUARE_SIZE - 1
    }
}

/// Image column of corner `k` of block `block`.
pub open spec fn corner_col(block: int, k: int) -> int {
    if k % 2 == 0 {
        block * SQUARE_SIZE
    } else {
        block * SQUARE_SIZE + SQUARE_SIZE - 1
    }
}

/// The four corner pixels `(row, column)` of every block of a strip, block by
/// block from left to right, each block in the order top-left, top-right,
/// bottom-left, bottom-right.
pub fn corner_pixels(strip: usize) -> (r: Vec<(usize, usize)>)
    requires
        strip < NUM_STRIPS,
    ensures
        r@.len() == 4 * NUM_BLOCKS,
        forall|b: int, k: int|
            0 <= b < NUM_BLOCKS && 0 <= k < 4 ==> {
                &&& (#[trigger] r@[4 * b + k]).0 == corner_row(strip as int, k)
                &&& r@[4 * b + k].1 == corner_col(b, k)
            },
{
    let top = strip * SQUARE_SIZE;
    let bottom = top + SQUARE_SIZE - 1;
    let mut r: Vec<(usize, usize)> = Vec::new();
    let mut b: usize = 0;
    while b < NUM_BLOCKS
        invariant
            b <= NUM_BLOCKS,
            top == strip_first_row(strip as int),
            bottom == top + SQUARE_SIZE - 1,
            r@.len() == 4 * b,
            forall|bb: int, k: int|
                0 <= bb < b && 0 <= k < 4 ==> {
                    &&& (#[trigger] r@[4 * bb + k]).0 == corner_row(strip as int, k)
                    &&& r@[4 * bb + k].1 == corner_col(bb, k)
                },
        decreases NUM_BLOCKS - b,
    {
        let left = b * SQUARE_SIZE;
        let right = left + SQUARE_SIZE - 1;
        r.push((top, left));
        r.push((top, right));
        r.push((bottom, left));
        r.push((bottom, right));
        assert forall|bb: int, k: int| 0 <= bb < b + 1 && 0 <= k < 4 implies {
            &&& (#[trigger] r@[4 * bb + k]).0 == corner_row(strip as int, k)
            &&& r@[4 * bb + k].1 == corner_col(bb, k)
        } by {
            if bb == b {
                assert(4 * bb + k == 4 * b + k);
            }
        }
        b += 1;
    }
    r
}

} // verus!
