use raytracer::layout::{corner_pixels, NUM_BLOCKS, NUM_COLS, NUM_STRIPS, STRIP_BYTES, STRIP_PIXELS};
use raytracer::sampling::{fill_strip, Rgb};
use std::cell::Cell;

fn rgb(r: u8, g: u8, b: u8) -> Rgb {
    Rgb { r, g, b }
}

fn pixel_at(buf: &[u8], r: usize, c: usize) -> [u8; 4] {
    let off = (r * NUM_COLS + c) * 4;
    [buf[off], buf[off + 1], buf[off + 2], buf[off + 3]]
}

#[test]
fn layout_sizes() {
    assert_eq!(NUM_STRIPS, 87);
    assert_eq!(NUM_BLOCKS, 87);
    assert_eq!(STRIP_PIXELS, 8 * 696);
    assert_eq!(STRIP_BYTES, 8 * 696 * 4);
}

#[test]
fn corners_of_first_strip() {
    let c = corner_pixels(0);
    assert_eq!(c.len(), 4 * 87);
    assert_eq!(&c[0..4], &[(0, 0), (0, 7), (7, 0), (7, 7)]);
    assert_eq!(&c[4..8], &[(0, 8), (0, 15), (7, 8), (7, 15)]);
    assert_eq!(c[4 * 86 + 3], (7, 695));
}

#[test]
fn corners_of_later_strip() {
    let c = corner_pixels(3);
    assert_eq!(&c[8..12], &[(24, 16), (24, 23), (31, 16), (31, 23)]);
    let last = corner_pixels(86);
    assert_eq!(last[4 * 86 + 3], (695, 695));
}

#[test]
fn dark_blocks_are_background_and_untraced() {
    let calls = Cell::new(0usize);
    let corners = vec![rgb(9, 9, 9); 4 * NUM_BLOCKS];
    let dark = vec![true; NUM_BLOCKS];
    let mut out = vec![7u8; STRIP_BYTES + 10];
    fill_strip(5, &corners, &dark, |_r, _c| {
        calls.set(calls.get() + 1);
        rgb(200, 200, 200)
    }, &mut out);
    assert_eq!(calls.get(), 0);
    for r in 0..8 {
        for c in 0..NUM_COLS {
            assert_eq!(pixel_at(&out, r, c), [0, 0, 0, 255]);
        }
    }
    assert!(out[STRIP_BYTES..].iter().all(|&b| b == 7));
}

#[test]
fn lit_block_uses_corners_and_traces_interior() {
    let calls = Cell::new(0usize);
    let mut corners = vec![rgb(0, 0, 0); 4 * NUM_BLOCKS];
    corners[4] = rgb(1, 2, 3);
    corners[5] = rgb(4, 5, 6);
    corners[6] = rgb(7, 8, 9);
    corners[7] = rgb(10, 11, 12);
    let mut dark = vec![true; NUM_BLOCKS];
    dark[1] = false;
    let mut out = vec![0u8; STRIP_BYTES];
    fill_strip(2, &corners, &dark, |r, c| {
        calls.set(calls.get() + 1);
        rgb(r as u8, c as u8, 100)
    }, &mut out);
    // Only the 60 interior pixels of block 1 are traced.
    assert_eq!(calls.get(), 60);
    assert_eq!(pixel_at(&out, 0, 8), [1, 2, 3, 255]);
    assert_eq!(pixel_at(&out, 0, 15), [4, 5, 6, 255]);
    assert_eq!(pixel_at(&out, 7, 8), [7, 8, 9, 255]);
    assert_eq!(pixel_at(&out, 7, 15), [10, 11, 12, 255]);
    // Interior pixels get image coordinates: strip 2 starts at row 16.
    assert_eq!(pixel_at(&out, 3, 10), [19, 10, 100, 255]);
    assert_eq!(pixel_at(&out, 0, 9), [16, 9, 100, 255]);
    // Neighbouring dark blocks stay background.
    assert_eq!(pixel_at(&out, 3, 7), [0, 0, 0, 255]);
    assert_eq!(pixel_at(&out, 3, 16), [0, 0, 0, 255]);
}

#[test]
fn filling_twice_gives_identical_bytes() {
    let corners: Vec<Rgb> = (0..4 * NUM_BLOCKS).map(|i| rgb(i as u8, 3, 4)).collect();
    let dark: Vec<bool> = (0..NUM_BLOCKS).map(|b| b % 3 == 0).collect();
    let trace = |r: usize, c: usize| rgb((r * 7 + c) as u8, (c % 251) as u8, 42);
    let mut a = vec![0u8; STRIP_BYTES];
    let mut b = vec![0u8; STRIP_BYTES];
    fill_strip(40, &corners, &dark, trace, &mut a);
    fill_strip(40, &corners, &dark, trace, &mut b);
    assert_eq!(a, b);
}

#[test]
fn all_dark_strip_is_uniform_background() {
    let corners = vec![rgb(0, 0, 0); 4 * NUM_BLOCKS];
    let dark = vec![true; NUM_BLOCKS];
    let mut out = vec![1u8; STRIP_BYTES];
    fill_strip(86, &corners, &dark, |_r, _c| rgb(255, 255, 255), &mut out);
    for px in out.chunks(4) {
        assert_eq!(px, &[0, 0, 0, 255]);
    }
}

#[test]
fn background_colour_is_black() {
    assert_eq!(Rgb::background(), rgb(0, 0, 0));
}
