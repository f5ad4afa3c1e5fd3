//! The 1bpp framebuffer of the 400x300 e-paper panel.
//!
//! A frame is a byte buffer holding `HEIGHT` rows of `WIDTH / 8` bytes.
//! Pixel `(x, y)` lives in byte `y * WIDTH / 8 + x / 8`, at bit `7 - x % 8`
//! (the leftmost pixel is the most significant bit); a set bit is white.
use vstd::prelude::*;

use crate::board;

verus! {

/// Bytes of one 1bpp row.
pub const ROW_BYTES: usize = board::epd::WIDTH / 8;

/// Pixel `(x, y)` lies on the panel.
pub open spec fn in_screen(x: int, y: int) -> bool {
    0 <= x < board::epd::WIDTH && 0 <= y < board::epd::HEIGHT
}

/// Index of the byte that holds pixel `(x, y)`.
pub open spec fn pixel_byte(x: int, y: int) -> int {
    y * (ROW_BYTES as int) + x / 8
}

/// Bit position of pixel column `x` inside its byte.
pub open spec fn pixel_bit(x: int) -> u8 {
    (7 - x % 8) as u8
}

/// Bit `k` of `b` is set.
pub open spec fn bit_set(b: u8, k: u8) -> bool {
    (b >> k) & 1u8 == 1u8
}

/// Pixel `(x, y)` of `frame` is white.
pub open spec fn pixel_white(frame: Seq<u8>, x: int, y: int) -> bool {
    bit_set(frame[pixel_byte(x, y)], pixel_bit(x))
}

/// `frame` is long enough to hold pixel `(x, y)`, which lies on the panel.
pub open spec fn frame_has(frame: Seq<u8>, x: int, y: int) -> bool {
    in_screen(x, y) && pixel_byte(x, y) < frame.len()
}

/// Byte `b` with bit `k` set (white) or cleared (black).
pub open spec fn painted(b: u8, k: u8, white: bool) -> u8 {
    if white {
        b | (1u8 << k)
    } else {
        b & !(1u8 << k)
    }
}

/// `frame` after painting pixel `(x, y)`; pixels off the panel leave it as it is.
pub open spec fn with_pixel(frame: Seq<u8>, x: int, y: int, white: bool) -> Seq<u8> {
    if in_screen(x, y) {
        frame.update(pixel_byte(x, y), painted(frame[pixel_byte(x, y)], pixel_bit(x), white))
    } else {
        frame
    }
}

/// End of the span `start..start + len`, clipped to `bound`.
pub open spec fn clipped_end(start: int, len: int, bound: int) -> int {
    if start + len < bound {
        start + len
    } else {
        bound
    }
}

/// Pixel `(px, py)` lies in the rectangle with corner `(x, y)`, width `w` and height `h`.
pub open spec fn in_rect(px: int, py: int, x: int, y: int, w: int, h: int) -> bool {
    x <= px < x + w && y <= py < y + h
}

/// The part of the rectangle that lies on the panel fits in a frame of `len` bytes.
pub open spec fn rect_fits(len: int, x: int, y: int, w: int, h: int) -> bool {
    let xe = clipped_end(x, w, board::epd::WIDTH as int);
    let ye = clipped_end(y, h, board::epd::HEIGHT as int);
    x < xe && y < ye ==> pixel_byte(xe - 1, ye - 1) < len
}

/// Painting one bit of a byte changes that bit alone.
pub proof fn lemma_painted_bit(b: u8, k: u8, j: u8, white: bool)
    requires
        k < 8,
        j < 8,
    ensures
        bit_set(painted(b, k, white), j) == (if j == k { white } else { bit_set(b, j) }),
{
    if white {
        assert(((b | (1u8 << k)) >> j) & 1u8 == 1u8 <==> (j == k || (b >> j) & 1u8 == 1u8))
            by (bit_vector)
            requires
                k < 8,
                j < 8,
        ;
    } else {
        assert(((b & !(1u8 << k)) >> j) & 1u8 == 1u8 <==> (j != k && (b >> j) & 1u8 == 1u8))
            by (bit_vector)
            requires
                k < 8,
                j < 8,
        ;
    }
}

/// Every bit of 0xFF is set.
pub proof fn lemma_all_white_byte(j: u8)
    requires
        j < 8,
    ensures
        bit_set(0xFFu8, j),
{
    assert((0xFFu8 >> j) & 1u8 == 1u8) by (bit_vector)
        requires
            j < 8,
    ;
}

/// Two pixels on the panel share a byte and a bit only when they are the same pixel;
/// every pixel on the panel lies in the first `FRAMEBUFFER_BYTES` bytes.
pub proof fn lemma_pixel_location(x: int, y: int, px: int, py: int)
    requires
        in_screen(x, y),
        in_screen(px, py),
    ensures
        0 <= pixel_byte(x, y) < board::epd::FRAMEBUFFER_BYTES,
        pixel_bit(x) < 8,
        pixel_byte(x, y) == pixel_byte(px, py) && pixel_bit(x) == pixel_bit(px) ==> x == px && y
            == py,
{
    assert(0 <= pixel_byte(x, y) < 15000) by (nonlinear_arith)
        requires
            0 <= x < 400,
            0 <= y < 300,
            pixel_byte(x, y) == y * 50 + x / 8,
    ;
    if pixel_byte(x, y) == pixel_byte(px, py) && pixel_bit(x) == pixel_bit(px) {
        assert(x == px && y == py) by (nonlinear_arith)
            requires
                0 <= x < 400,
                0 <= y < 300,
                0 <= px < 400,
                0 <= py < 300,
                y * 50 + x / 8 == py * 50 + px / 8,
                x % 8 == px % 8,
        ;
    }
}

/// The byte of a pixel grows with both coordinates.
pub proof fn lemma_pixel_byte_monotone(x: int, y: int, xe: int, ye: int)
    requires
        0 <= x <= xe,
        0 <= y <= ye,
    ensures
        pixel_byte(x, y) <= pixel_byte(xe, ye),
{
    assert(y * 50 + x / 8 <= ye * 50 + xe / 8) by (nonlinear_arith)
        requires
            0 <= x <= xe,
            0 <= y <= ye,
    ;
}

/// What painting a pixel does to every pixel of the frame.
pub proof fn lemma_with_pixel(frame: Seq<u8>, x: int, y: int, white: bool)
    requires
        in_screen(x, y) ==> pixel_byte(x, y) < frame.len(),
    ensures
        with_pixel(frame, x, y, white).len() == frame.len(),
        forall|i: int|
            0 <= i < frame.len() && (i >= board::epd::FRAMEBUFFER_BYTES || !in_screen(x, y)
                || i != pixel_byte(x, y)) ==> #[trigger] with_pixel(frame, x, y, white)[i]
                == frame[i],
        forall|px: int, py: int|
            #[trigger] frame_has(frame, px, py) ==> pixel_white(with_pixel(frame, x, y, white), px, py)
                == (if px == x && py == y { white } else { pixel_white(frame, px, py) }),
{
    let f = with_pixel(frame, x, y, white);
    if in_screen(x, y) {
        lemma_pixel_location(x, y, x, y);
    }
    assert forall|px: int, py: int| #[trigger] frame_has(frame, px, py) implies pixel_white(
        f,
        px,
        py,
    ) == (if px == x && py == y { white } else { pixel_white(frame, px, py) }) by {
        lemma_pixel_location(px, py, px, py);
        if in_screen(x, y) {
            lemma_pixel_location(x, y, px, py);
            if pixel_byte(px, py) == pixel_byte(x, y) {
                lemma_painted_bit(frame[pixel_byte(x, y)], pixel_bit(x), pixel_bit(px), white);
            }
        }
    }
}

/// Paints pixel `(x, y)` white or black; a pixel off the panel is ignored.
pub fn set_pixel(frame: &mut [u8], x: usize, y: usize, white: bool)
    requires
        in_screen(x as int, y as int) ==> pixel_byte(x as int, y as int) < old(frame)@.len(),
    ensures
        final(frame)@ == with_pixel(old(frame)@, x as int, y as int, white),
{
    if x >= board::epd::WIDTH || y >= board::epd::HEIGHT {
        return;
    }
    let index = y * ROW_BYTES + x / 8;
    assert(x & 7 == x % 8) by (bit_vector);
    let shift: u8 = (7 - (x & 7)) as u8;
    let mask: u8 = 1u8 << shift;
    if white {
        frame[index] = frame[index] | mask;
    } else {
        frame[index] = frame[index] & !mask;
    }
}

/// Paints the part of the rectangle with corner `(x, y)`, width `w` and height
/// `h` that lies on the panel.
pub fn draw_rect(frame: &mut [u8], x: usize, y: usize, w: usize, h: usize, white: bool)
    requires
        x + w <= usize::MAX,
        y + h <= usize::MAX,
        rect_fits(old(frame)@.len() as int, x as int, y as int, w as int, h as int),
    ensures
        final(frame)@.len() == old(frame)@.len(),
        forall|i: int|
            board::epd::FRAMEBUFFER_BYTES <= i < old(frame)@.len() ==> #[trigger] final(frame)@[i]
                == old(frame)@[i],
        forall|px: int, py: int|
            #[trigger] frame_has(old(frame)@, px, py) ==> pixel_white(final(frame)@, px, py) == (if in_rect(
                px,
                py,
                x as int,
                y as int,
                w as int,
                h as int,
            ) {
                white
            } else {
                pixel_white(old(frame)@, px, py)
            }),
{
    let ghost start = frame@;
    let y_end = (y + h).min(board::epd::HEIGHT);
    let x_end = (x + w).min(board::epd::WIDTH);
    let mut yy = y;
    while yy < y_end
        invariant
            y <= yy,
            y_end == clipped_end(y as int, h as int, board::epd::HEIGHT as int),
            x_end == clipped_end(x as int, w as int, board::epd::WIDTH as int),
            rect_fits(start.len() as int, x as int, y as int, w as int, h as int),
            frame@.len() == start.len(),
            forall|i: int|
                board::epd::FRAMEBUFFER_BYTES <= i < start.len() ==> #[trigger] frame@[i] == start[i],
            forall|px: int, py: int|
                #[trigger] frame_has(start, px, py) ==> pixel_white(frame@, px, py) == (if in_rect(
                    px,
                    py,
                    x as int,
                    y as int,
                    w as int,
                    h as int,
                ) && py < yy {
                    white
                } else {
                    pixel_white(start, px, py)
                }),
        decreases y_end - yy,
    {
        let mut xx = x;
        while xx < x_end
            invariant
                y <= yy < y_end,
                x <= xx,
                y_end == clipped_end(y as int, h as int, board::epd::HEIGHT as int),
                x_end == clipped_end(x as int, w as int, board::epd::WIDTH as int),
                rect_fits(start.len() as int, x as int, y as int, w as int, h as int),
                frame@.len() == start.len(),
                forall|i: int|
                    board::epd::FRAMEBUFFER_BYTES <= i < start.len() ==> #[trigger] frame@[i]
                        == start[i],
                forall|px: int, py: int|
                    #[trigger] frame_has(start, px, py) ==> pixel_white(frame@, px, py) == (if in_rect(
                        px,
                        py,
                        x as int,
                        y as int,
                        w as int,
                        h as int,
                    ) && (py < yy || (py == yy && px < xx)) {
                        white
                    } else {
                        pixel_white(start, px, py)
                    }),
            decreases x_end - xx,
        {
            proof {
                lemma_pixel_byte_monotone(xx as int, yy as int, x_end - 1, y_end - 1);
                lemma_with_pixel(frame@, xx as int, yy as int, white);
                lemma_pixel_location(xx as int, yy as int, xx as int, yy as int);
                assert forall|px: int, py: int| #[trigger] frame_has(start, px, py) implies frame_has(
                    frame@,
                    px,
                    py,
                ) by {}
            }
            set_pixel(frame, xx, yy, white);
            xx = xx + 1;
        }
        yy = yy + 1;
    }
}

/// Paints the whole frame white: sets the first `FRAMEBUFFER_BYTES` bytes to 0xFF.
pub fn clear_white(frame: &mut [u8])
    requires
        old(frame)@.len() >= board::epd::FRAMEBUFFER_BYTES,
    ensures
        final(frame)@.len() == old(frame)@.len(),
        forall|i: int|
            0 <= i < board::epd::FRAMEBUFFER_BYTES ==> #[trigger] final(frame)@[i] == 0xFFu8,
        forall|i: int|
            board::epd::FRAMEBUFFER_BYTES <= i < old(frame)@.len() ==> #[trigger] final(frame)@[i]
                == old(frame)@[i],
        forall|px: int, py: int| #[trigger] in_screen(px, py) ==> pixel_white(final(frame)@, px, py),
{
    let ghost start = frame@;
    let mut i: usize = 0;
    while i < board::epd::FRAMEBUFFER_BYTES
        invariant
            i <= board::epd::FRAMEBUFFER_BYTES,
            frame@.len() == start.len(),
            start.len() >= board::epd::FRAMEBUFFER_BYTES,
            forall|j: int| 0 <= j < i ==> #[trigger] frame@[j] == 0xFFu8,
            forall|j: int| i <= j < start.len() ==> #[trigger] frame@[j] == start[j],
        decreases board::epd::FRAMEBUFFER_BYTES - i,
    {
        frame[i] = 0xFF;
        i = i + 1;
    }
    assert forall|px: int, py: int| #[trigger] in_screen(px, py) implies pixel_white(
        frame@,
        px,
        py,
    ) by {
        lemma_pixel_location(px, py, px, py);
        lemma_all_white_byte(pixel_bit(px));
    }
}

} // verus!
