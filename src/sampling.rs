//! Adaptive square sampling: how one strip of the output buffer is filled
//! from the colours of block corners and of individually traced pixels.
use vstd::prelude::*;

use crate::layout::{
    corner_col, corner_row, strip_first_row, BYTES_PER_PIXEL, NUM_BLOCKS, NUM_COLS, NUM_ROWS,
    NUM_STRIPS, SQUARE_SIZE, STRIP_BYTES, STRIP_PIXELS,
};

verus! {

/// A colour already scaled and clamped to displayable bytes.
#[derive(Clone, Copy, PartialEq, Eq, Structural, Debug)]
pub struct Rgb {
    pub r: u8,
    pub g: u8,
    pub b: u8,
}

/// The background colour as bytes.
pub open spec fn background() -> Rgb {
    Rgb { r: 0, g: 0, b: 0 }
}

impl Rgb {
    /// The background colour.
    pub fn background() -> (c: Rgb)
        ensures
            c == background(),
    {
        Rgb { r: 0, g: 0, b: 0 }
    }
}

/// Row, within its strip, of the pixel at position `p` of the strip.
pub open spec fn row_of(p: int) -> int {
    p / NUM_COLS as int
}

/// Image column of the pixel at position `p` of a strip.
pub open spec fn col_of(p: int) -> int {
    p % NUM_COLS as int
}

/// Block of a strip that the pixel at position `p` falls in.
pub open spec fn block_of(p: int) -> int {
    col_of(p) / SQUARE_SIZE as int
}

/// Which corner of its block the pixel at row `r` (within the strip) and
/// column `c` is, if any: 0 top-left, 1 top-right, 2 bottom-left,
/// 3 bottom-right.
pub open spec fn corner_slot(r: int, c: int) -> Option<int> {
    let last = SQUARE_SIZE - 1;
    let x = c % SQUARE_SIZE as int;
    if r == 0 && x == 0 {
        Some(0)
    } else if r == 0 && x == last {
        Some(1)
    } else if r == last && x == 0 {
        Some(2)
    } else if r == last && x == last {
        Some(3)
    } else {
        None
    }
}

/// The colour stored at byte offset `off` of a buffer.
pub open spec fn rgb_at(buf: Seq<u8>, off: int) -> Rgb {
    Rgb { r: buf[off], g: buf[off + 1], b: buf[off + 2] }
}

/// The colour that pixel `p` of a strip receives: the background in a dark
/// block, the recorded corner colour at a corner of any other block, and a
/// colour that `pixel` may return for its image coordinates elsewhere.
pub open spec fn pixel_colour_ok<F: Fn(usize, usize) -> Rgb>(
    strip: int,
    corners: Seq<Rgb>,
    dark: Seq<bool>,
    pixel: F,
    p: int,
    v: Rgb,
) -> bool {
    let b = block_of(p);
    if dark[b] {
        v == background()
    } else {
        match corner_slot(row_of(p), col_of(p)) {
            Some(k) => v == corners[4 * b + k],
            None => pixel.ensures(
                ((strip_first_row(strip) + row_of(p)) as usize, col_of(p) as usize),
                v,
            ),
        }
    }
}

/// Pixel `p` of the strip is written in `buf`: its colour as
/// `pixel_colour_ok` says, and an opaque alpha byte.
pub open spec fn pixel_written<F: Fn(usize, usize) -> Rgb>(
    buf: Seq<u8>,
    strip: int,
    corners: Seq<Rgb>,
    dark: Seq<bool>,
    pixel: F,
    p: int,
) -> bool {
    let off = p * BYTES_PER_PIXEL;
    &&& pixel_colour_ok(strip, corners, dark, pixel, p, rgb_at(buf, off))
    &&& buf[off + 3] == 255
}

/// Reusing the corner colours changes nothing: when each recorded corner
/// colour is one that `pixel` gives at the coordinates that `corner_pixels`
/// lists for it, every pixel of a block that is not dark holds a colour that
/// `pixel` gives at that pixel's own coordinates.
pub proof fn lemma_corners_match_tracing<F: Fn(usize, usize) -> Rgb>(
    buf: Seq<u8>,
    strip: int,
    coords: Seq<(usize, usize)>,
    corners: Seq<Rgb>,
    dark: Seq<bool>,
    pixel: F,
    p: int,
)
    requires
        0 <= strip < NUM_STRIPS,
        coords.len() == 4 * NUM_BLOCKS,
        forall|b: int, k: int|
            0 <= b < NUM_BLOCKS && 0 <= k < 4 ==> {
                &&& (#[trigger] coords[4 * b + k]).0 == corner_row(strip, k)
                &&& coords[4 * b + k].1 == corner_col(b, k)
            },
        corners.len() == 4 * NUM_BLOCKS,
        forall|i: int| 0 <= i < 4 * NUM_BLOCKS ==> pixel.ensures(#[trigger] coords[i], corners[i]),
        0 <= p < STRIP_PIXELS,
        !dark[block_of(p)],
        pixel_written(buf, strip, corners, dark, pixel, p),
    ensures
        pixel.ensures(
            ((strip_first_row(strip) + row_of(p)) as usize, col_of(p) as usize),
            rgb_at(buf, p * BYTES_PER_PIXEL),
        ),
{
    let b = block_of(p);
    if let Some(k) = corner_slot(row_of(p), col_of(p)) {
        assert(0 <= k < 4);
        assert(0 <= b < NUM_BLOCKS);
        let i = 4 * b + k;
        assert(pixel.ensures(coords[i], corners[i]));
        assert(coords[i].0 == corner_row(strip, k));
        assert(coords[i].1 == corner_col(b, k));
        assert(coords[i] == ((strip_first_row(strip) + row_of(p)) as usize, col_of(p) as usize));
    }
}

/// Filling a strip is deterministic: two buffers in which the same strip was
/// filled from the same corner colours and dark flags, with a pixel function
/// that has one result for each input, hold the same bytes over the strip.
pub proof fn lemma_fill_deterministic<F: Fn(usize, usize) -> Rgb>(
    a: Seq<u8>,
    b: Seq<u8>,
    strip: int,
    corners: Seq<Rgb>,
    dark: Seq<bool>,
    pixel: F,
)
    requires
        a.len() >= STRIP_BYTES,
        b.len() >= STRIP_BYTES,
        forall|p: int| 0 <= p < STRIP_PIXELS ==> pixel_written(a, strip, corners, dark, pixel, p),
        forall|p: int| 0 <= p < STRIP_PIXELS ==> pixel_written(b, strip, corners, dark, pixel, p),
        forall|args: (usize, usize), x: Rgb, y: Rgb|
            pixel.ensures(args, x) && pixel.ensures(args, y) ==> x == y,
    ensures
        a.subrange(0, STRIP_BYTES as int) == b.subrange(0, STRIP_BYTES as int),
{
    assert forall|i: int| 0 <= i < STRIP_BYTES implies a[i] == b[i] by {
        let p = i / BYTES_PER_PIXEL as int;
        assert(pixel_written(a, strip, corners, dark, pixel, p));
        assert(pixel_written(b, strip, corners, dark, pixel, p));
        let off = p * BYTES_PER_PIXEL;
        assert(rgb_at(a, off) == rgb_at(b, off));
        assert(off <= i < off + 4);
    }
    assert(a.subrange(0, STRIP_BYTES as int) =~= b.subrange(0, STRIP_BYTES as int));
}

/// Fill one strip of the output buffer.
///
/// `corners` holds, for each block from left to right, the colours of its
/// four corners (top-left, top-right, bottom-left, bottom-right), and `dark`
/// tells for each block whether its corners were all background. A dark block
/// is filled with the background; in any other block the corners take their
/// recorded colours and every other pixel is traced with `pixel`, which gets
/// image coordinates `(row, column)`. Pixel `(r, c)` of the strip is written
/// at byte offset `4 * (r * NUM_COLS + c)` as red, green, blue and an alpha
/// of 255; bytes after the strip are left as they were.
pub fn fill_strip<F: Fn(usize, usize) -> Rgb>(
    strip: usize,
    corners: &Vec<Rgb>,
    dark: &Vec<bool>,
    pixel: F,
    out: &mut Vec<u8>,
)
    requires
        strip < NUM_STRIPS,
        corners@.len() == 4 * NUM_BLOCKS,
        dark@.len() == NUM_BLOCKS,
        old(out)@.len() >= STRIP_BYTES,
        forall|row: usize, col: usize| row < NUM_ROWS && col < NUM_COLS ==> pixel.requires((row, col)),
    ensures
        final(out)@.len() == old(out)@.len(),
        forall|p: int| #![trigger block_of(p)]
            0 <= p < STRIP_PIXELS ==> pixel_written(final(out)@, strip as int, corners@, dark@, pixel, p),
        forall|p: int| #![trigger block_of(p)]
            0 <= p < STRIP_PIXELS && dark@[block_of(p)] ==> rgb_at(final(out)@, p * BYTES_PER_PIXEL) == background(),
        forall|i: int| STRIP_BYTES <= i < old(out)@.len() ==> final(out)@[i] == old(out)@[i],
{
    let top = strip * SQUARE_SIZE;
    let last = SQUARE_SIZE - 1;
    let mut p: usize = 0;
    while p < STRIP_PIXELS
        invariant
            p <= STRIP_PIXELS,
            strip < NUM_STRIPS,
            top == strip_first_row(strip as int),
            last == SQUARE_SIZE - 1,
            corners@.len() == 4 * NUM_BLOCKS,
            dark@.len() == NUM_BLOCKS,
            out@.len() == old(out)@.len(),
            old(out)@.len() >= STRIP_BYTES,
            forall|row: usize, col: usize| row < NUM_ROWS && col < NUM_COLS ==> pixel.requires((row, col)),
            forall|q: int| 0 <= q < p ==> pixel_written(out@, strip as int, corners@, dark@, pixel, q),
            forall|i: int| p * BYTES_PER_PIXEL <= i < old(out)@.len() ==> out@[i] == old(out)@[i],
        decreases STRIP_PIXELS - p,
    {
        let r = p / NUM_COLS;
        let c = p % NUM_COLS;
        let b = c / SQUARE_SIZE;
        let x = c % SQUARE_SIZE;
        assert(r == row_of(p as int) && c == col_of(p as int) && b == block_of(p as int));
        let colour = if dark[b] {
            Rgb::background()
        } else if r == 0 && x == 0 {
            corners[4 * b]
        } else if r == 0 && x == last {
            corners[4 * b + 1]
        } else if r == last && x == 0 {
            corners[4 * b + 2]
        } else if r == last && x == last {
            corners[4 * b + 3]
        } else {
            pixel(top + r, c)
        };
        let off = p * BYTES_PER_PIXEL;
        let ghost before = out@;
        out[off] = colour.r;
        out[off + 1] = colour.g;
        out[off + 2] = colour.b;
        out[off + 3] = 255u8;
        assert(pixel_written(out@, strip as int, corners@, dark@, pixel, p as int));
        assert forall|q: int| 0 <= q < p implies pixel_written(out@, strip as int, corners@, dark@, pixel, q) by {
            assert(pixel_written(before, strip as int, corners@, dark@, pixel, q));
            assert(rgb_at(out@, q * BYTES_PER_PIXEL) == rgb_at(before, q * BYTES_PER_PIXEL));
            assert(out@[q * BYTES_PER_PIXEL + 3] == before[q * BYTES_PER_PIXEL + 3]);
        }
        p += 1;
    }
    assert forall|q: int| #![trigger block_of(q)]
        0 <= q < STRIP_PIXELS implies pixel_written(out@, strip as int, corners@, dark@, pixel, q) by {}
    assert forall|q: int| #![trigger block_of(q)]
        0 <= q < STRIP_PIXELS && dark@[block_of(q)] implies rgb_at(out@, q * BYTES_PER_PIXEL) == background() by {
        assert(pixel_written(out@, strip as int, corners@, dark@, pixel, q));
    }
}

} // verus!
