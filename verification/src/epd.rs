//! The SSD2683-compatible e-paper panel: the diagnostic test pattern, the
//! conversion of the 1bpp framebuffer into the controller's 2-bit format, and
//! the command protocol that drives a full refresh.
use vstd::prelude::*;

use crate::board;
use crate::frame::{
    bit_set, clear_white, draw_rect, frame_has, in_rect, in_screen, lemma_pixel_byte_monotone,
    lemma_pixel_location, lemma_with_pixel, pixel_byte, pixel_white, rect_fits, set_pixel,
    clipped_end,
};

verus! {

pub const WIDTH: usize = board::epd::WIDTH;
pub const HEIGHT: usize = board::epd::HEIGHT;
pub const FRAMEBUFFER_BYTES: usize = board::epd::FRAMEBUFFER_BYTES;

/// Bytes of one framebuffer row.
pub const BYTES_PER_ROW_1BPP: usize = WIDTH / 8;
/// Bytes of one row in the controller's 2-bit format.
pub const BYTES_PER_ROW_OUT: usize = BYTES_PER_ROW_1BPP * 2;
/// How long the busy line may stay active before a wait gives up, in milliseconds.
pub const BUSY_TIMEOUT_MS: u64 = 30_000;
/// How long a busy wait sleeps between two polls, in milliseconds.
pub const BUSY_POLL_MS: u64 = 5;

/// Errors of the panel driver.
#[derive(Debug, Clone, Copy, PartialEq, Eq)]
pub enum Error {
    /// The busy line stayed active longer than the timeout; the text names the step.
    BusyTimeout(&'static str),
}

// ---------------------------------------------------------------------------
// Test pattern
// ---------------------------------------------------------------------------

/// The black frame lines, centre cross and corner blocks of the test pattern.
pub open spec fn in_pattern_rects(x: int, y: int) -> bool {
    let w = WIDTH as int;
    let h = HEIGHT as int;
    ||| in_rect(x, y, 0, 0, w, 4)
    ||| in_rect(x, y, 0, h - 4, w, 4)
    ||| in_rect(x, y, 0, 0, 4, h)
    ||| in_rect(x, y, w - 4, 0, 4, h)
    ||| in_rect(x, y, 0, h / 2 - 1, w, 2)
    ||| in_rect(x, y, w / 2 - 1, 0, 2, h)
    ||| in_rect(x, y, 12, 12, 72, 48)
    ||| in_rect(x, y, w - 84, 12, 72, 48)
    ||| in_rect(x, y, 12, h - 60, 72, 48)
    ||| in_rect(x, y, w - 84, h - 60, 72, 48)
}

/// The checkerboard area in the middle of the test pattern.
pub open spec fn in_checker_area(x: int, y: int) -> bool {
    110 <= x < 290 && 80 <= y < 220
}

/// Colour of the 10x10 checkerboard cell that holds `(x, y)`.
pub open spec fn checker_white(x: int, y: int) -> bool {
    (x / 10 + y / 10) % 2 != 0
}

/// Pixel `(x, y)` lies on one of the two diagonals drawn by their first `n` steps:
/// step `i` blackens `(i, i * HEIGHT / WIDTH)` and `(WIDTH - 1 - i, i * HEIGHT / WIDTH)`.
pub open spec fn on_diagonals(x: int, y: int, n: int) -> bool {
    let w = WIDTH as int;
    let h = HEIGHT as int;
    ||| 0 <= x < n && y == x * h / w
    ||| 0 <= w - 1 - x < n && y == (w - 1 - x) * h / w
}

/// Colour of pixel `(x, y)` of the diagnostic test pattern: the diagonals over
/// the checkerboard over the black rectangles over a white background.
pub open spec fn test_pattern_white(x: int, y: int) -> bool {
    if on_diagonals(x, y, HEIGHT as int) {
        false
    } else if in_checker_area(x, y) {
        checker_white(x, y)
    } else if in_pattern_rects(x, y) {
        false
    } else {
        true
    }
}

/// A frame of full size holds every rectangle.
proof fn lemma_rect_fits_full(len: int, x: int, y: int, w: int, h: int)
    requires
        len >= FRAMEBUFFER_BYTES,
        0 <= x,
        0 <= y,
        0 <= w,
        0 <= h,
    ensures
        rect_fits(len, x, y, w, h),
{
    let xe = clipped_end(x, w, WIDTH as int);
    let ye = clipped_end(y, h, HEIGHT as int);
    if x < xe && y < ye {
        lemma_pixel_location(xe - 1, ye - 1, xe - 1, ye - 1);
    }
}

/// Fills the first `FRAMEBUFFER_BYTES` bytes of `frame` with the diagnostic
/// test pattern.
pub fn fill_test_pattern(frame: &mut [u8])
    requires
        old(frame)@.len() >= FRAMEBUFFER_BYTES,
    ensures
        final(frame)@.len() == old(frame)@.len(),
        forall|i: int|
            FRAMEBUFFER_BYTES <= i < old(frame)@.len() ==> #[trigger] final(frame)@[i]
                == old(frame)@[i],
        forall|x: int, y: int| #[trigger]
            in_screen(x, y) ==> pixel_white(final(frame)@, x, y) == test_pattern_white(x, y),
{
    let ghost start = frame@;
    clear_white(frame);
    let ghost f0 = frame@;
    proof {
        lemma_rect_fits_full(f0.len() as int, 0, 0, WIDTH as int, 4);
        lemma_rect_fits_full(f0.len() as int, 0, HEIGHT - 4, WIDTH as int, 4);
        lemma_rect_fits_full(f0.len() as int, 0, 0, 4, HEIGHT as int);
        lemma_rect_fits_full(f0.len() as int, WIDTH - 4, 0, 4, HEIGHT as int);
        lemma_rect_fits_full(f0.len() as int, 0, HEIGHT / 2 - 1, WIDTH as int, 2);
        lemma_rect_fits_full(f0.len() as int, WIDTH / 2 - 1, 0, 2, HEIGHT as int);
        lemma_rect_fits_full(f0.len() as int, 12, 12, 72, 48);
        lemma_rect_fits_full(f0.len() as int, WIDTH - 84, 12, 72, 48);
        lemma_rect_fits_full(f0.len() as int, 12, HEIGHT - 60, 72, 48);
        lemma_rect_fits_full(f0.len() as int, WIDTH - 84, HEIGHT - 60, 72, 48);
    }

    draw_rect(frame, 0, 0, WIDTH, 4, false);
    let ghost f1 = frame@;
    draw_rect(frame, 0, HEIGHT - 4, WIDTH, 4, false);
    let ghost f2 = frame@;
    draw_rect(frame, 0, 0, 4, HEIGHT, false);
    let ghost f3 = frame@;
    draw_rect(frame, WIDTH - 4, 0, 4, HEIGHT, false);
    let ghost f4 = frame@;
    draw_rect(frame, 0, HEIGHT / 2 - 1, WIDTH, 2, false);
    let ghost f5 = frame@;
    draw_rect(frame, WIDTH / 2 - 1, 0, 2, HEIGHT, false);
    let ghost f6 = frame@;

    draw_rect(frame, 12, 12, 72, 48, false);
    let ghost f7 = frame@;
    draw_rect(frame, WIDTH - 84, 12, 72, 48, false);
    let ghost f8 = frame@;
    draw_rect(frame, 12, HEIGHT - 60, 72, 48, false);
    let ghost f9 = frame@;
    draw_rect(frame, WIDTH - 84, HEIGHT - 60, 72, 48, false);
    let ghost rects = frame@;

    assert forall|px: int, py: int| #[trigger] in_screen(px, py) implies pixel_white(
        rects,
        px,
        py,
    ) == !in_pattern_rects(px, py) by {
        lemma_pixel_location(px, py, px, py);
        assert(frame_has(f0, px, py));
        assert(frame_has(f1, px, py));
        assert(frame_has(f2, px, py));
        assert(frame_has(f3, px, py));
        assert(frame_has(f4, px, py));
        assert(frame_has(f5, px, py));
        assert(frame_has(f6, px, py));
        assert(frame_has(f7, px, py));
        assert(frame_has(f8, px, py));
        assert(frame_has(f9, px, py));
    }

    let mut y: usize = 80;
    while y < 220
        invariant
            80 <= y <= 220,
            frame@.len() == start.len(),
            start.len() >= FRAMEBUFFER_BYTES,
            forall|i: int| FRAMEBUFFER_BYTES <= i < start.len() ==> #[trigger] frame@[i] == start[i],
            forall|px: int, py: int| #[trigger]
                in_screen(px, py) ==> pixel_white(frame@, px, py) == (if in_checker_area(px, py)
                    && py < y {
                    checker_white(px, py)
                } else {
                    !in_pattern_rects(px, py)
                }),
        decreases 220 - y,
    {
        let mut x: usize = 110;
        while x < 290
            invariant
                80 <= y < 220,
                110 <= x <= 290,
                frame@.len() == start.len(),
                start.len() >= FRAMEBUFFER_BYTES,
                forall|i: int|
                    FRAMEBUFFER_BYTES <= i < start.len() ==> #[trigger] frame@[i] == start[i],
                forall|px: int, py: int| #[trigger]
                    in_screen(px, py) ==> pixel_white(frame@, px, py) == (if in_checker_area(px, py)
                        && (py < y || (py == y && px < x)) {
                        checker_white(px, py)
                    } else {
                        !in_pattern_rects(px, py)
                    }),
            decreases 290 - x,
        {
            let black = ((x / 10) + (y / 10)) % 2 == 0;
            let ghost before = frame@;
            proof {
                lemma_pixel_location(x as int, y as int, x as int, y as int);
                lemma_with_pixel(before, x as int, y as int, !black);
            }
            set_pixel(frame, x, y, !black);
            assert forall|px: int, py: int| #[trigger] in_screen(px, py) implies pixel_white(
                frame@,
                px,
                py,
            ) == (if in_checker_area(px, py) && (py < y || (py == y && px < x + 1)) {
                checker_white(px, py)
            } else {
                !in_pattern_rects(px, py)
            }) by {
                lemma_pixel_location(px, py, px, py);
                assert(frame_has(before, px, py));
            }
            x = x + 1;
        }
        y = y + 1;
    }

    let steps = HEIGHT.min(WIDTH);
    let mut i: usize = 0;
    while i < steps
        invariant
            steps == HEIGHT,
            i <= steps,
            frame@.len() == start.len(),
            start.len() >= FRAMEBUFFER_BYTES,
            forall|j: int| FRAMEBUFFER_BYTES <= j < start.len() ==> #[trigger] frame@[j] == start[j],
            forall|px: int, py: int| #[trigger]
                in_screen(px, py) ==> pixel_white(frame@, px, py) == (if on_diagonals(
                    px,
                    py,
                    i as int,
                ) {
                    false
                } else if in_checker_area(px, py) {
                    checker_white(px, py)
                } else {
                    !in_pattern_rects(px, py)
                }),
        decreases steps - i,
    {
        assert(i * 300 <= 89700 && (i * 300) / 400 < 300) by (nonlinear_arith)
            requires
                i < 300,
        ;
        let row = i * HEIGHT / WIDTH;
        let ghost before = frame@;
        proof {
            lemma_pixel_location(i as int, row as int, i as int, row as int);
            lemma_with_pixel(before, i as int, row as int, false);
        }
        set_pixel(frame, i, row, false);
        let ghost middle = frame@;
        proof {
            lemma_pixel_location((WIDTH - 1 - i) as int, row as int, (WIDTH - 1 - i) as int, row as int);
            lemma_with_pixel(middle, (WIDTH - 1 - i) as int, row as int, false);
        }
        set_pixel(frame, WIDTH - 1 - i, row, false);
        assert forall|px: int, py: int| #[trigger] in_screen(px, py) implies pixel_white(
            frame@,
            px,
            py,
        ) == (if on_diagonals(px, py, i + 1) {
            false
        } else if in_checker_area(px, py) {
            checker_white(px, py)
        } else {
            !in_pattern_rects(px, py)
        }) by {
            lemma_pixel_location(px, py, px, py);
            assert(frame_has(before, px, py));
            assert(frame_has(middle, px, py));
        }
        i = i + 1;
    }
}

// ---------------------------------------------------------------------------
// 1bpp to the controller's 2-bit format
// ---------------------------------------------------------------------------

/// Spreads the four bits of a nibble over the low bits of four 2-bit pixels:
/// nibble bit `3 - k` becomes bit `6 - 2k`, every odd bit stays clear.
pub open spec fn spread_nibble(n: u8) -> u8 {
    (((n >> 3u8) & 1u8) << 6u8) | (((n >> 2u8) & 1u8) << 4u8) | (((n >> 1u8) & 1u8) << 2u8) | (n
        & 1u8)
}

/// The two controller bytes for one byte of eight 1bpp pixels: the left four
/// pixels go to the first byte, the right four to the second.
pub open spec fn pack_2683_spec(input: u8) -> (u8, u8) {
    (spread_nibble(input >> 4u8), spread_nibble(input & 0x0Fu8))
}

/// The first byte after the first `i` steps of the packing loop.
spec fn packed_hi_prefix(input: u8, i: u8) -> u8 {
    (if i > 0 { ((input >> 7u8) & 1u8) << 6u8 } else { 0u8 }) | (if i > 1 {
        ((input >> 6u8) & 1u8) << 4u8
    } else {
        0u8
    }) | (if i > 2 { ((input >> 5u8) & 1u8) << 2u8 } else { 0u8 }) | (if i > 3 {
        (input >> 4u8) & 1u8
    } else {
        0u8
    })
}

/// The second byte after the first `i` steps of the packing loop.
spec fn packed_lo_prefix(input: u8, i: u8) -> u8 {
    (if i > 4 { ((input >> 3u8) & 1u8) << 6u8 } else { 0u8 }) | (if i > 5 {
        ((input >> 2u8) & 1u8) << 4u8
    } else {
        0u8
    }) | (if i > 6 { ((input >> 1u8) & 1u8) << 2u8 } else { 0u8 }) | (if i > 7 {
        input & 1u8
    } else {
        0u8
    })
}

/// Converts one byte of eight 1bpp pixels into the controller's 2-bit format.
pub fn pack_1bpp_to_2683(input: u8) -> (out: (u8, u8))
    ensures
        out == pack_2683_spec(input),
{
    let mut out0 = 0u8;
    let mut out1 = 0u8;

    assert(packed_hi_prefix(input, 0) == 0u8 && packed_lo_prefix(input, 0) == 0u8) by (bit_vector);
    let mut i: u8 = 0;
    while i < 8
        invariant
            i <= 8,
            out0 == packed_hi_prefix(input, i),
            out1 == packed_lo_prefix(input, i),
        decreases 8 - i,
    {
        let bit = (input >> (7 - i)) & 0x01;
        if i < 4 {
            assert(packed_hi_prefix(input, i) | (((input >> (7 - i) as u8) & 1u8) << (8 - 2 * (i
                + 1)) as u8) == packed_hi_prefix(input, (i + 1) as u8)) by (bit_vector)
                requires
                    i < 4,
            ;
            assert(packed_lo_prefix(input, i) == packed_lo_prefix(input, (i + 1) as u8))
                by (bit_vector)
                requires
                    i < 4,
            ;
            out0 = out0 | (bit << (8 - 2 * (i + 1)));
        } else {
            assert(packed_lo_prefix(input, i) | (((input >> (7 - i) as u8) & 1u8) << (14 - 2
                * i) as u8) == packed_lo_prefix(input, (i + 1) as u8)) by (bit_vector)
                requires
                    4 <= i < 8,
            ;
            assert(packed_hi_prefix(input, i) == packed_hi_prefix(input, (i + 1) as u8))
                by (bit_vector)
                requires
                    4 <= i < 8,
            ;
            out1 = out1 | (bit << (14 - 2 * i));
        }
        i = i + 1;
    }
    assert(packed_hi_prefix(input, 8) == spread_nibble(input >> 4u8)) by (bit_vector);
    assert(packed_lo_prefix(input, 8) == spread_nibble(input & 0x0Fu8)) by (bit_vector);
    (out0, out1)
}

/// The 2-bit code (`0b00` black, `0b01` white) of pixel `k`, counted from
/// the left, in a packed pair of controller bytes.
pub open spec fn packed_pixel_code(out: (u8, u8), k: u8) -> u8 {
    if k < 4 {
        (out.0 >> (6 - 2 * k) as u8) & 3u8
    } else {
        (out.1 >> (14 - 2 * k) as u8) & 3u8
    }
}

/// The 1bpp byte that a packed pair of controller bytes holds: the low bit of
/// each 2-bit code, left to right.
pub open spec fn unpack_2683(out: (u8, u8)) -> u8 {
    (((out.0 >> 6u8) & 1u8) << 7u8) | (((out.0 >> 4u8) & 1u8) << 6u8) | (((out.0 >> 2u8) & 1u8)
        << 5u8) | ((out.0 & 1u8) << 4u8) | (((out.1 >> 6u8) & 1u8) << 3u8) | (((out.1 >> 4u8)
        & 1u8) << 2u8) | (((out.1 >> 2u8) & 1u8) << 1u8) | (out.1 & 1u8)
}

/// Packing keeps every pixel in its place: pixel `k` of the byte (bit `7 - k`)
/// becomes the `k`-th 2-bit code of the pair, `0b01` for white and `0b00` for black.
pub proof fn lemma_pack_2683_pixels(input: u8, k: u8)
    requires
        k < 8,
    ensures
        packed_pixel_code(pack_2683_spec(input), k) == (input >> (7 - k) as u8) & 1u8,
{
    let out = pack_2683_spec(input);
    let a = out.0;
    let b = out.1;
    assert(a == spread_nibble(input >> 4u8));
    assert(b == spread_nibble(input & 0x0Fu8));
    if k < 4 {
        assert((spread_nibble(input >> 4u8) >> (6 - 2 * k) as u8) & 3u8 == (input >> (7 - k) as u8)
            & 1u8) by (bit_vector)
            requires
                k < 4,
        ;
    } else {
        assert((spread_nibble(input & 0x0Fu8) >> (14 - 2 * k) as u8) & 3u8 == (input >> (7
            - k) as u8) & 1u8) by (bit_vector)
            requires
                4 <= k < 8,
        ;
    }
}

/// Packing loses nothing: the 1bpp byte can be read back from the pair.
pub proof fn lemma_pack_2683_roundtrip(input: u8)
    ensures
        unpack_2683(pack_2683_spec(input)) == input,
{
    assert(unpack_2683((spread_nibble(input >> 4u8), spread_nibble(input & 0x0Fu8))) == input)
        by (bit_vector);
}

/// The transfer format shows the framebuffer as it is: pixel `(x, y)` is white
/// exactly when its 2-bit code, at place `x % 8` of the pair packed from its
/// byte, is `0b01`.
pub proof fn lemma_packed_pixel(frame: Seq<u8>, x: int, y: int)
    requires
        frame_has(frame, x, y),
    ensures
        pixel_white(frame, x, y) <==> packed_pixel_code(
            pack_2683_spec(frame[pixel_byte(x, y)]),
            (x % 8) as u8,
        ) == 1u8,
{
    let b = frame[pixel_byte(x, y)];
    let k = (x % 8) as u8;
    lemma_pack_2683_pixels(b, k);
    assert((b >> (7 - k) as u8) & 1u8 == 1u8 || (b >> (7 - k) as u8) & 1u8 == 0u8) by (bit_vector);
}

/// Converts row `y` of the framebuffer into the controller's 2-bit format:
/// byte `k` of the row becomes bytes `2k` and `2k + 1` of the line.
pub fn pack_row_2683(frame: &[u8], y: usize) -> (line: Vec<u8>)
    requires
        y * BYTES_PER_ROW_1BPP + BYTES_PER_ROW_1BPP <= frame@.len(),
    ensures
        line@.len() == BYTES_PER_ROW_OUT,
        forall|k: int|
            0 <= k < BYTES_PER_ROW_1BPP ==> (#[trigger] line@[2 * k], line@[2 * k + 1])
                == pack_2683_spec(frame@[y * BYTES_PER_ROW_1BPP + k]),
{
    let n = frame.len();
    assert(BYTES_PER_ROW_1BPP == 50);
    let start = y * BYTES_PER_ROW_1BPP;
    let mut line: Vec<u8> = Vec::with_capacity(BYTES_PER_ROW_OUT);
    let mut k: usize = 0;
    while k < BYTES_PER_ROW_1BPP
        invariant
            start == y * BYTES_PER_ROW_1BPP,
            start + BYTES_PER_ROW_1BPP <= frame@.len(),
            frame@.len() == n,
            k <= BYTES_PER_ROW_1BPP,
            line@.len() == 2 * k,
            forall|j: int|
                0 <= j < k ==> (#[trigger] line@[2 * j], line@[2 * j + 1]) == pack_2683_spec(
                    frame@[start + j],
                ),
        decreases BYTES_PER_ROW_1BPP - k,
    {
        let (a, b) = pack_1bpp_to_2683(frame[start + k]);
        line.push(a);
        line.push(b);
        k = k + 1;
    }
    line
}

/// Bytes of a whole frame in the controller's 2-bit format.
pub const FRAME_BYTES_OUT: usize = FRAMEBUFFER_BYTES * 2;

/// Converts the whole framebuffer into the controller's 2-bit format, row by
/// row from the top: byte `i` of the frame becomes bytes `2i` and `2i + 1`.
pub fn pack_frame_2683(frame: &[u8]) -> (out: Vec<u8>)
    requires
        frame@.len() >= FRAMEBUFFER_BYTES,
    ensures
        out@.len() == FRAME_BYTES_OUT,
        forall|i: int|
            0 <= i < FRAMEBUFFER_BYTES ==> (#[trigger] out@[2 * i], out@[2 * i + 1])
                == pack_2683_spec(frame@[i]),
{
    let mut out: Vec<u8> = Vec::with_capacity(FRAME_BYTES_OUT);
    let mut y: usize = 0;
    while y < HEIGHT
        invariant
            y <= HEIGHT,
            frame@.len() >= FRAMEBUFFER_BYTES,
            out@.len() == BYTES_PER_ROW_OUT * y,
            forall|i: int|
                0 <= i < BYTES_PER_ROW_1BPP * y ==> (#[trigger] out@[2 * i], out@[2 * i + 1])
                    == pack_2683_spec(frame@[i]),
        decreases HEIGHT - y,
    {
        assert(y * 50 + 50 <= 15000) by (nonlinear_arith)
            requires
                y < 300,
        ;
        let line = pack_row_2683(frame, y);
        let ghost before = out@;
        assert(BYTES_PER_ROW_OUT == 100 && BYTES_PER_ROW_1BPP == 50);
        assert(before.len() == 100 * y);
        let mut k: usize = 0;
        while k < BYTES_PER_ROW_OUT
            invariant
                y < HEIGHT,
                k <= BYTES_PER_ROW_OUT,
                line@.len() == BYTES_PER_ROW_OUT,
                before.len() == BYTES_PER_ROW_OUT * y,
                out@.len() == before.len() + k,
                forall|i: int| 0 <= i < before.len() ==> #[trigger] out@[i] == before[i],
                forall|j: int| 0 <= j < k ==> #[trigger] out@[before.len() + j] == line@[j],
            decreases BYTES_PER_ROW_OUT - k,
        {
            out.push(line[k]);
            k = k + 1;
        }
        assert(out@.len() == 100 * y + 100);
        assert forall|i: int|
            0 <= i < BYTES_PER_ROW_1BPP * (y + 1) implies (#[trigger] out@[2 * i], out@[2 * i + 1])
            == pack_2683_spec(frame@[i]) by {
            if i >= 50 * y {
                let j = i - 50 * y;
                assert(0 <= j < 50);
                assert(2 * i == before.len() + 2 * j);
                assert(out@[before.len() + 2 * j] == line@[2 * j]);
                assert(out@[before.len() + (2 * j + 1)] == line@[2 * j + 1]);
                assert((line@[2 * j], line@[2 * j + 1]) == pack_2683_spec(
                    frame@[y * BYTES_PER_ROW_1BPP + j],
                ));
            } else {
                assert(out@[2 * i] == before[2 * i]);
                assert(out@[2 * i + 1] == before[2 * i + 1]);
            }
        }
        y = y + 1;
    }
    assert(out@.len() == 100 * 300);
    out
}

// ---------------------------------------------------------------------------
// Temperature compensation
// ---------------------------------------------------------------------------

/// The waveform table entry for a raw temperature reading of the controller.
pub open spec fn temperature_lut_spec(temp: u8) -> u8 {
    if temp <= 5 {
        232
    } else if temp <= 10 {
        235
    } else if temp <= 20 {
        238
    } else if temp <= 30 {
        241
    } else if temp <= 127 {
        244
    } else {
        232
    }
}

/// Maps a raw temperature reading to the waveform table entry sent with command 0xE6.
pub fn temperature_lut(temp: u8) -> (lut: u8)
    ensures
        lut == temperature_lut_spec(temp),
        temp <= 5 ==> lut == 232,
        6 <= temp <= 10 ==> lut == 235,
        11 <= temp <= 20 ==> lut == 238,
        21 <= temp <= 30 ==> lut == 241,
        31 <= temp <= 127 ==> lut == 244,
        128 <= temp ==> lut == 232,
{
    match temp {
        0..=5 => 232,
        6..=10 => 235,
        11..=20 => 238,
        21..=30 => 241,
        31..=127 => 244,
        _ => 232,
    }
}

// ---------------------------------------------------------------------------
// Bit-banged serial bus
// ---------------------------------------------------------------------------

/// The data line levels that send `data` on the bus, most significant bit first.
pub fn serial_levels(data: u8) -> (levels: Vec<bool>)
    ensures
        levels@.len() == 8,
        forall|i: int| 0 <= i < 8 ==> #[trigger] levels@[i] == bit_set(data, (7 - i) as u8),
{
    let mut levels: Vec<bool> = Vec::with_capacity(8);
    let mut step: u8 = 0;
    while step < 8
        invariant
            step <= 8,
            levels@.len() == step,
            forall|i: int| 0 <= i < step ==> #[trigger] levels@[i] == bit_set(data, (7 - i) as u8),
        decreases 8 - step,
    {
        let bit = 7 - step;
        levels.push((data >> bit) & 1 == 1);
        step = step + 1;
    }
    levels
}

/// The byte read from the bus as eight data line levels, most significant bit first.
pub fn byte_from_levels(levels: &[bool]) -> (data: u8)
    requires
        levels@.len() == 8,
    ensures
        forall|i: int| 0 <= i < 8 ==> bit_set(data, (7 - i) as u8) == #[trigger] levels@[i],
{
    let mut data = 0u8;
    let mut step: u8 = 0;
    assert forall|j: u8| j < 8 implies !bit_set(0u8, j) by {
        assert((0u8 >> j) & 1u8 != 1u8) by (bit_vector);
    }
    while step < 8
        invariant
            step <= 8,
            levels@.len() == 8,
            forall|i: int| 0 <= i < step ==> bit_set(data, (7 - i) as u8) == #[trigger] levels@[i],
            forall|j: u8| j < 8 - step ==> !#[trigger] bit_set(data, j),
        decreases 8 - step,
    {
        let bit = 7 - step;
        if levels[step as usize] {
            let ghost before = data;
            data = data | (1 << bit);
            assert forall|j: u8| j < 8 implies bit_set(data, j) == (j == bit || bit_set(before, j))
                by {
                assert(((before | (1u8 << bit)) >> j) & 1u8 == 1u8 <==> (j == bit || (before >> j)
                    & 1u8 == 1u8)) by (bit_vector)
                    requires
                        bit < 8,
                        j < 8,
                ;
            }
        }
        step = step + 1;
    }
    data
}

/// A byte is determined by its eight bits.
pub proof fn lemma_byte_from_bits(a: u8, b: u8)
    requires
        forall|j: u8| j < 8 ==> bit_set(a, j) == bit_set(b, j),
    ensures
        a == b,
{
    assert(bit_set(a, 0) == bit_set(b, 0));
    assert(bit_set(a, 1) == bit_set(b, 1));
    assert(bit_set(a, 2) == bit_set(b, 2));
    assert(bit_set(a, 3) == bit_set(b, 3));
    assert(bit_set(a, 4) == bit_set(b, 4));
    assert(bit_set(a, 5) == bit_set(b, 5));
    assert(bit_set(a, 6) == bit_set(b, 6));
    assert(bit_set(a, 7) == bit_set(b, 7));
    assert(a == b) by (bit_vector)
        requires
            (a >> 0u8) & 1u8 == 1u8 <==> (b >> 0u8) & 1u8 == 1u8,
            (a >> 1u8) & 1u8 == 1u8 <==> (b >> 1u8) & 1u8 == 1u8,
            (a >> 2u8) & 1u8 == 1u8 <==> (b >> 2u8) & 1u8 == 1u8,
            (a >> 3u8) & 1u8 == 1u8 <==> (b >> 3u8) & 1u8 == 1u8,
            (a >> 4u8) & 1u8 == 1u8 <==> (b >> 4u8) & 1u8 == 1u8,
            (a >> 5u8) & 1u8 == 1u8 <==> (b >> 5u8) & 1u8 == 1u8,
            (a >> 6u8) & 1u8 == 1u8 <==> (b >> 6u8) & 1u8 == 1u8,
            (a >> 7u8) & 1u8 == 1u8 <==> (b >> 7u8) & 1u8 == 1u8,
    ;
}

/// What is written on the bus is what a read of the same levels gives back:
/// a byte read from the levels that send `data` is `data`.
pub proof fn lemma_serial_roundtrip(data: u8, levels: Seq<bool>, read: u8)
    requires
        levels.len() == 8,
        forall|i: int| 0 <= i < 8 ==> #[trigger] levels[i] == bit_set(data, (7 - i) as u8),
        forall|i: int| 0 <= i < 8 ==> bit_set(read, (7 - i) as u8) == #[trigger] levels[i],
    ensures
        read == data,
{
    assert forall|j: u8| j < 8 implies bit_set(read, j) == bit_set(data, j) by {
        let i = 7 - j;
        assert(levels[i] == bit_set(data, (7 - i) as u8));
        assert(bit_set(read, (7 - i) as u8) == levels[i]);
    }
    lemma_byte_from_bits(read, data);
}

// ---------------------------------------------------------------------------
// Busy line
// ---------------------------------------------------------------------------

/// What a busy wait does after one poll of the busy line.
#[derive(Debug, Clone, Copy, PartialEq, Eq)]
pub enum BusyWait {
    /// The controller is idle: the wait is over.
    Done,
    /// The controller is still busy: sleep `BUSY_POLL_MS` and poll again.
    Poll,
}

/// Decides a busy wait after one poll: `busy_low` is the (active-low) busy
/// line, `elapsed_ms` the time since the wait began, `step` names the wait.
pub fn busy_wait_step(step: &'static str, busy_low: bool, elapsed_ms: u64) -> (r: Result<
    BusyWait,
    Error,
>)
    ensures
        !busy_low ==> r == Ok::<BusyWait, Error>(BusyWait::Done),
        busy_low && elapsed_ms >= BUSY_TIMEOUT_MS ==> r == Err::<BusyWait, Error>(
            Error::BusyTimeout(step),
        ),
        busy_low && elapsed_ms < BUSY_TIMEOUT_MS ==> r == Ok::<BusyWait, Error>(BusyWait::Poll),
{
    if !busy_low {
        Ok(BusyWait::Done)
    } else if elapsed_ms >= BUSY_TIMEOUT_MS {
        Err(Error::BusyTimeout(step))
    } else {
        Ok(BusyWait::Poll)
    }
}

// ---------------------------------------------------------------------------
// Command protocol
// ---------------------------------------------------------------------------

/// One step of the panel protocol, carried out on the pins by the driver.
#[derive(Debug, Clone, Copy, PartialEq, Eq)]
pub enum BusOp {
    /// Switch the panel power rail on.
    PowerOn,
    /// Switch the panel power rail off.
    PowerOff,
    /// Drive the reset line high (`true`) or low (`false`).
    Reset(bool),
    /// Sleep for the given number of milliseconds.
    DelayMs(u64),
    /// Send a command byte (data/command line low).
    Command(u8),
    /// Send a data byte (data/command line high).
    Data(u8),
    /// Wait until the busy line is released; the text names the wait.
    WaitBusy(&'static str),
}

/// Power-up, reset pulse and controller setup of a refresh.
pub open spec fn init_ops_spec() -> Seq<BusOp> {
    seq![
        BusOp::PowerOn,
        BusOp::DelayMs(10),
        BusOp::Reset(true),
        BusOp::DelayMs(10),
        BusOp::Reset(false),
        BusOp::DelayMs(20),
        BusOp::Reset(true),
        BusOp::DelayMs(10),
        BusOp::WaitBusy("init reset"),
        BusOp::Command(0x00),
        BusOp::Data(0x2F),
        BusOp::Data(0x2E),
        BusOp::Command(0xE9),
        BusOp::Data(0x01),
        BusOp::WaitBusy("init otp"),
    ]
}

/// The request for a temperature reading, which is then read back from the bus.
pub open spec fn read_temperature_ops_spec() -> Seq<BusOp> {
    seq![BusOp::Command(0x40), BusOp::WaitBusy("read temperature command")]
}

/// Loading the waveform for raw temperature `temp`, then the command that
/// opens the framebuffer transfer.
pub open spec fn frame_prelude_ops_spec(temp: u8) -> Seq<BusOp> {
    seq![
        BusOp::Command(0xE0),
        BusOp::Data(0x02),
        BusOp::Command(0xE6),
        BusOp::Data(temperature_lut_spec(temp)),
        BusOp::Command(0xA5),
        BusOp::WaitBusy("temperature load"),
        BusOp::DelayMs(10),
        BusOp::Command(0x10),
    ]
}

/// Power on, refresh and power off of the panel after the framebuffer transfer.
pub open spec fn turn_on_display_ops_spec() -> Seq<BusOp> {
    seq![
        BusOp::Command(0x04),
        BusOp::WaitBusy("power on"),
        BusOp::Command(0x12),
        BusOp::Data(0x00),
        BusOp::WaitBusy("display refresh"),
        BusOp::Command(0x02),
        BusOp::Data(0x00),
        BusOp::WaitBusy("power off command"),
        BusOp::PowerOff,
    ]
}

/// The steps that power up, reset and configure the controller.
pub fn init_ops() -> (ops: Vec<BusOp>)
    ensures
        ops@ == init_ops_spec(),
        ops@ == seq![
            BusOp::PowerOn,
            BusOp::DelayMs(10),
            BusOp::Reset(true),
            BusOp::DelayMs(10),
            BusOp::Reset(false),
            BusOp::DelayMs(20),
            BusOp::Reset(true),
            BusOp::DelayMs(10),
            BusOp::WaitBusy("init reset"),
            BusOp::Command(0x00),
            BusOp::Data(0x2F),
            BusOp::Data(0x2E),
            BusOp::Command(0xE9),
            BusOp::Data(0x01),
            BusOp::WaitBusy("init otp"),
        ],
{
    let ops = vec![
        BusOp::PowerOn,
        BusOp::DelayMs(10),
        BusOp::Reset(true),
        BusOp::DelayMs(10),
        BusOp::Reset(false),
        BusOp::DelayMs(20),
        BusOp::Reset(true),
        BusOp::DelayMs(10),
        BusOp::WaitBusy("init reset"),
        BusOp::Command(0x00),
        BusOp::Data(0x2F),
        BusOp::Data(0x2E),
        BusOp::Command(0xE9),
        BusOp::Data(0x01),
        BusOp::WaitBusy("init otp"),
    ];
    assert(ops@ =~= init_ops_spec());
    ops
}

/// The steps that ask the controller for its temperature.
pub fn read_temperature_ops() -> (ops: Vec<BusOp>)
    ensures
        ops@ == read_temperature_ops_spec(),
        ops@ == seq![BusOp::Command(0x40), BusOp::WaitBusy("read temperature command")],
{
    let ops = vec![BusOp::Command(0x40), BusOp::WaitBusy("read temperature command")];
    assert(ops@ =~= read_temperature_ops_spec());
    ops
}

/// The steps that load the waveform for raw temperature `temp` and open the
/// framebuffer transfer.
pub fn frame_prelude_ops(temp: u8) -> (ops: Vec<BusOp>)
    ensures
        ops@ == frame_prelude_ops_spec(temp),
        ops@.len() == 8,
        ops@[0] == BusOp::Command(0xE0),
        ops@[1] == BusOp::Data(0x02),
        ops@[2] == BusOp::Command(0xE6),
        ops@[3] is Data,
        temp <= 5 ==> ops@[3] == BusOp::Data(232),
        6 <= temp <= 10 ==> ops@[3] == BusOp::Data(235),
        11 <= temp <= 20 ==> ops@[3] == BusOp::Data(238),
        21 <= temp <= 30 ==> ops@[3] == BusOp::Data(241),
        31 <= temp <= 127 ==> ops@[3] == BusOp::Data(244),
        128 <= temp ==> ops@[3] == BusOp::Data(232),
        ops@[4] == BusOp::Command(0xA5),
        ops@[5] == BusOp::WaitBusy("temperature load"),
        ops@[6] == BusOp::DelayMs(10),
        ops@[7] == BusOp::Command(0x10),
{
    let lut = temperature_lut(temp);
    let ops = vec![
        BusOp::Command(0xE0),
        BusOp::Data(0x02),
        BusOp::Command(0xE6),
        BusOp::Data(lut),
        BusOp::Command(0xA5),
        BusOp::WaitBusy("temperature load"),
        BusOp::DelayMs(10),
        BusOp::Command(0x10),
    ];
    assert(ops@ =~= frame_prelude_ops_spec(temp));
    ops
}

/// The steps that refresh the panel from the transferred frame and power it down.
pub fn turn_on_display_ops() -> (ops: Vec<BusOp>)
    ensures
        ops@ == turn_on_display_ops_spec(),
        ops@ == seq![
            BusOp::Command(0x04),
            BusOp::WaitBusy("power on"),
            BusOp::Command(0x12),
            BusOp::Data(0x00),
            BusOp::WaitBusy("display refresh"),
            BusOp::Command(0x02),
            BusOp::Data(0x00),
            BusOp::WaitBusy("power off command"),
            BusOp::PowerOff,
        ],
{
    let ops = vec![
        BusOp::Command(0x04),
        BusOp::WaitBusy("power on"),
        BusOp::Command(0x12),
        BusOp::Data(0x00),
        BusOp::WaitBusy("display refresh"),
        BusOp::Command(0x02),
        BusOp::Data(0x00),
        BusOp::WaitBusy("power off command"),
        BusOp::PowerOff,
    ];
    assert(ops@ =~= turn_on_display_ops_spec());
    ops
}

// ---------------------------------------------------------------------------
// Running a sequence of steps
// ---------------------------------------------------------------------------

/// What the driver does next while it runs a sequence of steps.
#[derive(Debug, Clone, Copy, PartialEq, Eq)]
pub enum OpStep {
    /// Carry out this step.
    Perform(BusOp),
    /// The sequence is over, with this result.
    Finished(Result<(), Error>),
}

/// The label of a busy wait; `None` for every other step.
pub open spec fn wait_label(op: BusOp) -> Option<&'static str> {
    match op {
        BusOp::WaitBusy(step) => Some(step),
        _ => None,
    }
}

/// The next action after `performed` steps of `ops` were carried out, where
/// `last_timed_out` says that the last of them was a busy wait that timed out.
pub open spec fn op_step_spec(ops: Seq<BusOp>, performed: int, last_timed_out: bool) -> OpStep {
    if last_timed_out && 0 < performed <= ops.len() && wait_label(ops[performed - 1]) is Some {
        OpStep::Finished(Err(Error::BusyTimeout(wait_label(ops[performed - 1])->0)))
    } else if 0 <= performed < ops.len() {
        OpStep::Perform(ops[performed])
    } else {
        OpStep::Finished(Ok(()))
    }
}

/// Decides the next action while running `ops`: a timed-out busy wait ends the
/// sequence with that wait's error; otherwise the next step is carried out,
/// and after the last one the sequence ends successfully.
pub fn op_step(ops: &[BusOp], performed: usize, last_timed_out: bool) -> (next: OpStep)
    ensures
        next == op_step_spec(ops@, performed as int, last_timed_out),
{
    if last_timed_out && 0 < performed && performed <= ops.len() {
        if let BusOp::WaitBusy(step) = ops[performed - 1] {
            return OpStep::Finished(Err(Error::BusyTimeout(step)));
        }
    }
    if performed < ops.len() {
        OpStep::Perform(ops[performed])
    } else {
        OpStep::Finished(Ok(()))
    }
}

/// Running `ops` by `op_step` from `performed` steps on, where `times_out(j)`
/// says whether the busy wait at place `j` times out: the steps still carried
/// out, and the result the sequence ends with.
pub open spec fn drive_ops(
    ops: Seq<BusOp>,
    performed: int,
    last_timed_out: bool,
    times_out: spec_fn(int) -> bool,
) -> (Seq<BusOp>, Result<(), Error>)
    decreases ops.len() - performed,
{
    match op_step_spec(ops, performed, last_timed_out) {
        OpStep::Finished(r) => (seq![], r),
        OpStep::Perform(op) => {
            let timed_out = wait_label(op) is Some && times_out(performed);
            let rest = drive_ops(ops, performed + 1, timed_out, times_out);
            (seq![op] + rest.0, rest.1)
        },
    }
}

/// The busy wait at place `k` of `ops` times out.
pub open spec fn wait_times_out(ops: Seq<BusOp>, times_out: spec_fn(int) -> bool, k: int) -> bool {
    wait_label(ops[k]) is Some && times_out(k)
}

/// A sequence stops at its first timed-out busy wait: the steps up to and
/// including that wait are carried out, none after it, and the sequence ends
/// with that wait's labelled timeout error.
pub proof fn lemma_run_stops_at_first_timeout(ops: Seq<BusOp>, times_out: spec_fn(int) -> bool, k: int)
    requires
        0 <= k < ops.len(),
        wait_times_out(ops, times_out, k),
        forall|j: int| 0 <= j < k ==> !#[trigger] wait_times_out(ops, times_out, j),
    ensures
        drive_ops(ops, 0, false, times_out) == (
            ops.take(k + 1),
            Err::<(), Error>(Error::BusyTimeout(wait_label(ops[k])->0)),
        ),
{
    lemma_drive_until_timeout(ops, times_out, k, 0);
}

proof fn lemma_drive_until_timeout(ops: Seq<BusOp>, times_out: spec_fn(int) -> bool, k: int, i: int)
    requires
        0 <= i <= k < ops.len(),
        wait_times_out(ops, times_out, k),
        forall|j: int| 0 <= j < k ==> !#[trigger] wait_times_out(ops, times_out, j),
    ensures
        drive_ops(ops, i, false, times_out) == (
            ops.subrange(i, k + 1),
            Err::<(), Error>(Error::BusyTimeout(wait_label(ops[k])->0)),
        ),
    decreases k - i,
{
    if i == k {
        assert(drive_ops(ops, k + 1, true, times_out) == (
            Seq::<BusOp>::empty(),
            Err::<(), Error>(Error::BusyTimeout(wait_label(ops[k])->0)),
        ));
        assert(ops.subrange(k, k + 1) =~= seq![ops[k]]);
    } else {
        assert(!wait_times_out(ops, times_out, i));
        lemma_drive_until_timeout(ops, times_out, k, i + 1);
        assert(ops.subrange(i, k + 1) =~= seq![ops[i]] + ops.subrange(i + 1, k + 1));
    }
}

/// A sequence in which no busy wait times out carries out every step and ends successfully.
pub proof fn lemma_run_without_timeout(ops: Seq<BusOp>, times_out: spec_fn(int) -> bool)
    requires
        forall|j: int| 0 <= j < ops.len() ==> !#[trigger] wait_times_out(ops, times_out, j),
    ensures
        drive_ops(ops, 0, false, times_out) == (ops, Ok::<(), Error>(())),
{
    lemma_drive_to_end(ops, times_out, 0);
    assert(ops.subrange(0, ops.len() as int) =~= ops);
}

proof fn lemma_drive_to_end(ops: Seq<BusOp>, times_out: spec_fn(int) -> bool, i: int)
    requires
        0 <= i <= ops.len(),
        forall|j: int| 0 <= j < ops.len() ==> !#[trigger] wait_times_out(ops, times_out, j),
    ensures
        drive_ops(ops, i, false, times_out) == (ops.subrange(i, ops.len() as int), Ok::<(), Error>(())),
    decreases ops.len() - i,
{
    if i == ops.len() {
        assert(ops.subrange(i, i) =~= Seq::<BusOp>::empty());
    } else {
        assert(!wait_times_out(ops, times_out, i));
        lemma_drive_to_end(ops, times_out, i + 1);
        assert(ops.subrange(i, ops.len() as int) =~= seq![ops[i]] + ops.subrange(
            i + 1,
            ops.len() as int,
        ));
    }
}

// ---------------------------------------------------------------------------
// Laws of the refresh protocol
// ---------------------------------------------------------------------------

/// Index of the first busy wait in `ops` at or after `i`, or `ops.len()` when there is none.
pub open spec fn first_wait_from(ops: Seq<BusOp>, i: int) -> int
    decreases ops.len() - i,
{
    if i < 0 || i >= ops.len() {
        ops.len() as int
    } else if ops[i] is WaitBusy {
        i
    } else {
        first_wait_from(ops, i + 1)
    }
}

/// Initialisation pulses the reset line before it first waits on the
/// controller: the line goes high, then low, is held low 20 ms, and goes high again.
pub proof fn lemma_init_resets_controller()
    ensures
        exists|i: int|
            #![trigger init_ops_spec()[i]]
            1 <= i && i + 2 < first_wait_from(init_ops_spec(), 0) && init_ops_spec()[i - 1]
                == BusOp::DelayMs(10) && init_ops_spec()[i - 2] == BusOp::Reset(true)
                && init_ops_spec()[i] == BusOp::Reset(false) && init_ops_spec()[i + 1]
                == BusOp::DelayMs(20) && init_ops_spec()[i + 2] == BusOp::Reset(true),
        init_ops_spec()[0] == BusOp::PowerOn,
{
    let ops = init_ops_spec();
    reveal_with_fuel(first_wait_from, 10);
    assert(first_wait_from(ops, 0) == 8);
    assert(ops[4] == BusOp::Reset(false));
}

/// The refresh sends the display-refresh command 0x12 with parameter 0x00
/// after the "power on" wait and before the "display refresh" wait, and ends
/// by powering the panel off.
pub proof fn lemma_refresh_sends_display_refresh()
    ensures
        turn_on_display_ops_spec()[0] == BusOp::Command(0x04),
        turn_on_display_ops_spec()[1] == BusOp::WaitBusy("power on"),
        turn_on_display_ops_spec()[2] == BusOp::Command(0x12),
        turn_on_display_ops_spec()[3] == BusOp::Data(0x00),
        turn_on_display_ops_spec()[4] == BusOp::WaitBusy("display refresh"),
        turn_on_display_ops_spec()[5] == BusOp::Command(0x02),
        turn_on_display_ops_spec().last() == BusOp::PowerOff,
        turn_on_display_ops_spec().len() == 9,
{
}

/// The waveform table is chosen by temperature band: every reading of a band
/// selects that band's entry.
pub proof fn lemma_temperature_bands(temp: u8)
    ensures
        temp <= 5 ==> temperature_lut_spec(temp) == 232,
        6 <= temp <= 10 ==> temperature_lut_spec(temp) == 235,
        11 <= temp <= 20 ==> temperature_lut_spec(temp) == 238,
        21 <= temp <= 30 ==> temperature_lut_spec(temp) == 241,
        31 <= temp <= 127 ==> temperature_lut_spec(temp) == 244,
        128 <= temp ==> temperature_lut_spec(temp) == 232,
        frame_prelude_ops_spec(temp)[3] == BusOp::Data(temperature_lut_spec(temp)),
{
}

/// Colder readings never select a higher waveform entry within the valid
/// range `0..=127`: the table grows with temperature.
pub proof fn lemma_temperature_lut_monotone(a: u8, b: u8)
    requires
        a <= b <= 127,
    ensures
        temperature_lut_spec(a) <= temperature_lut_spec(b),
{
}

} // verus!
