//! Turning the RGB565 lines of the software renderer into the 1bpp e-paper
//! framebuffer: a fixed luminance threshold decides black or white.
use vstd::prelude::*;

use crate::board;
use crate::frame::{frame_has, in_screen, lemma_pixel_location, lemma_with_pixel, pixel_byte, pixel_white, set_pixel, with_pixel};

verus! {

pub const WIDTH: usize = board::epd::WIDTH;
pub const HEIGHT: usize = board::epd::HEIGHT;
pub const BYTES_PER_ROW_1BPP: usize = WIDTH / 8;
/// Luminance (0..=255) from which a pixel counts as white.
pub const BW_THRESHOLD: u16 = 200;

/// The red channel of an RGB565 pixel, scaled to 0..=255.
pub open spec fn rgb565_red(raw: u16) -> int {
    ((raw >> 11u16) & 0x1Fu16) as int * 255 / 31
}

/// The green channel of an RGB565 pixel, scaled to 0..=255.
pub open spec fn rgb565_green(raw: u16) -> int {
    ((raw >> 5u16) & 0x3Fu16) as int * 255 / 63
}

/// The blue channel of an RGB565 pixel, scaled to 0..=255.
pub open spec fn rgb565_blue(raw: u16) -> int {
    (raw & 0x1Fu16) as int * 255 / 31
}

/// The luminance of an RGB565 pixel: the weighted channel sum (77, 150, 29) over 256.
pub open spec fn rgb565_luma(raw: u16) -> int {
    (77 * rgb565_red(raw) + 150 * rgb565_green(raw) + 29 * rgb565_blue(raw)) / 256
}

/// An RGB565 pixel is shown white when its luminance reaches the threshold.
pub open spec fn rgb565_white_spec(raw: u16) -> bool {
    rgb565_luma(raw) >= BW_THRESHOLD
}

/// Thresholds an RGB565 pixel, given by its raw 16-bit value, to black or white.
pub fn rgb565_is_white(raw: u16) -> (white: bool)
    ensures
        white == rgb565_white_spec(raw),
        white == ((77 * (((raw >> 11u16) & 0x1Fu16) as int * 255 / 31) + 150 * (((raw >> 5u16)
            & 0x3Fu16) as int * 255 / 63) + 29 * ((raw & 0x1Fu16) as int * 255 / 31)) / 256
            >= 200),
{
    assert((raw >> 11u16) & 0x1Fu16 <= 31 && (raw >> 5u16) & 0x3Fu16 <= 63 && raw & 0x1Fu16 <= 31)
        by (bit_vector);
    let red = ((raw >> 11) & 0x1F) * 255 / 31;
    let green = ((raw >> 5) & 0x3F) * 255 / 63;
    let blue = (raw & 0x1F) * 255 / 31;
    assert(red <= 255 && green <= 255 && blue <= 255);
    let sum = 77 * red + 150 * green + 29 * blue;
    assert(sum >> 8u16 == sum / 256) by (bit_vector);
    let luma = sum >> 8;

    luma >= BW_THRESHOLD
}

/// The luminance weighs the channels 77 (red), 150 (green) and 29 (blue) out
/// of 256, each channel first scaled to 0..=255.
pub proof fn lemma_luma_weights(raw: u16)
    ensures
        0 <= rgb565_red(raw) <= 255,
        0 <= rgb565_green(raw) <= 255,
        0 <= rgb565_blue(raw) <= 255,
        rgb565_red(raw) == ((raw >> 11u16) & 0x1Fu16) as int * 255 / 31,
        rgb565_green(raw) == ((raw >> 5u16) & 0x3Fu16) as int * 255 / 63,
        rgb565_blue(raw) == (raw & 0x1Fu16) as int * 255 / 31,
        rgb565_luma(raw) * 256 <= 77 * rgb565_red(raw) + 150 * rgb565_green(raw) + 29
            * rgb565_blue(raw) < rgb565_luma(raw) * 256 + 256,
        rgb565_white_spec(raw) == (rgb565_luma(raw) >= 200),
{
    assert((raw >> 11u16) & 0x1Fu16 <= 31 && (raw >> 5u16) & 0x3Fu16 <= 63 && raw & 0x1Fu16 <= 31)
        by (bit_vector);
}

/// Green counts most: of two pixels with the same blue whose red and green
/// levels are swapped, the one whose green is the larger is at least as bright.
pub proof fn lemma_luma_green_outweighs_red(a: u16, b: u16)
    requires
        rgb565_red(a) == rgb565_green(b),
        rgb565_green(a) == rgb565_red(b),
        rgb565_blue(a) == rgb565_blue(b),
        rgb565_green(a) >= rgb565_red(a),
    ensures
        rgb565_luma(a) >= rgb565_luma(b),
        rgb565_white_spec(b) ==> rgb565_white_spec(a),
{
    lemma_luma_weights(a);
    lemma_luma_weights(b);
}

/// Brighter channels never turn a white pixel black: the luminance grows with
/// each channel level.
pub proof fn lemma_luma_monotone(a: u16, b: u16)
    requires
        rgb565_red(a) <= rgb565_red(b),
        rgb565_green(a) <= rgb565_green(b),
        rgb565_blue(a) <= rgb565_blue(b),
    ensures
        rgb565_luma(a) <= rgb565_luma(b),
        rgb565_white_spec(a) ==> rgb565_white_spec(b),
{
    lemma_luma_weights(a);
    lemma_luma_weights(b);
}

/// The e-paper frame after writing pixel `(x, y)` as the renderer lays it out:
/// `WIDTH / 8` bytes per row, the leftmost pixel in the most significant bit,
/// a set bit for white; a pixel off the panel leaves the frame as it is.
pub open spec fn epd_pixel_written(frame: Seq<u8>, x: usize, y: usize, white: bool) -> Seq<u8> {
    if x >= WIDTH || y >= HEIGHT {
        frame
    } else {
        let index = y * BYTES_PER_ROW_1BPP + x / 8;
        let mask = 1u8 << ((7 - (x & 7usize)) as u8);
        frame.update(index, if white { frame[index] | mask } else { frame[index] & !mask })
    }
}

/// The renderer writes pixels in the framebuffer's own layout: writing a pixel
/// of the e-paper frame gives the same bytes as painting it in the framebuffer.
pub proof fn lemma_epd_pixel_is_frame_pixel(frame: Seq<u8>, x: usize, y: usize, white: bool)
    ensures
        epd_pixel_written(frame, x, y, white) == with_pixel(frame, x as int, y as int, white),
{
    assert(x & 7usize == x % 8) by (bit_vector);
}

/// Paints pixel `(x, y)` of the e-paper frame; a pixel off the panel is ignored.
pub fn set_epd_pixel(frame: &mut [u8], x: usize, y: usize, white: bool)
    requires
        in_screen(x as int, y as int) ==> pixel_byte(x as int, y as int) < old(frame)@.len(),
    ensures
        final(frame)@ == epd_pixel_written(old(frame)@, x, y, white),
{
    proof {
        lemma_epd_pixel_is_frame_pixel(frame@, x, y, white);
    }
    set_pixel(frame, x, y, white);
}

/// Both buffers of a render are large enough: a full frame and a full line.
pub fn render_buffers_fit(epd_frame_len: usize, line_buffer_len: usize) -> (fit: bool)
    ensures
        fit == (epd_frame_len >= board::epd::FRAMEBUFFER_BYTES && line_buffer_len >= WIDTH),
{
    !(epd_frame_len < board::epd::FRAMEBUFFER_BYTES || line_buffer_len < WIDTH)
}

/// A rendered span of line `line` ending at `end` lies on the panel and inside
/// the line buffer, so it is rendered and copied into the frame.
pub fn line_accepted(line: usize, end: usize, line_buffer_len: usize) -> (ok: bool)
    ensures
        ok == (line < HEIGHT && end <= WIDTH && end <= line_buffer_len),
{
    !(line >= HEIGHT || end > WIDTH || end > line_buffer_len)
}

/// Copies the rendered pixels `start..end` of line `line` into the frame,
/// each thresholded to black or white.
pub fn blit_line(frame: &mut [u8], line: usize, start: usize, end: usize, pixels: &[u16])
    requires
        old(frame)@.len() >= board::epd::FRAMEBUFFER_BYTES,
        line < HEIGHT,
        end <= WIDTH,
        end <= pixels@.len(),
    ensures
        final(frame)@.len() == old(frame)@.len(),
        forall|i: int|
            board::epd::FRAMEBUFFER_BYTES <= i < old(frame)@.len() ==> #[trigger] final(frame)@[i]
                == old(frame)@[i],
        forall|px: int, py: int| #[trigger]
            in_screen(px, py) ==> pixel_white(final(frame)@, px, py) == (if py == line && start
                <= px < end {
                rgb565_white_spec(pixels@[px])
            } else {
                pixel_white(old(frame)@, px, py)
            }),
{
    let ghost old_frame = frame@;
    let mut x = start;
    while x < end
        invariant
            start <= x,
            x <= end || x == start,
            old_frame.len() >= board::epd::FRAMEBUFFER_BYTES,
            frame@.len() == old_frame.len(),
            line < HEIGHT,
            end <= WIDTH,
            end <= pixels@.len(),
            forall|i: int|
                board::epd::FRAMEBUFFER_BYTES <= i < old_frame.len() ==> #[trigger] frame@[i]
                    == old_frame[i],
            forall|px: int, py: int| #[trigger]
                in_screen(px, py) ==> pixel_white(frame@, px, py) == (if py == line && start <= px
                    < x {
                    rgb565_white_spec(pixels@[px])
                } else {
                    pixel_white(old_frame, px, py)
                }),
        decreases end - x,
    {
        let white = rgb565_is_white(pixels[x]);
        let ghost before = frame@;
        proof {
            lemma_pixel_location(x as int, line as int, x as int, line as int);
            lemma_with_pixel(before, x as int, line as int, white);
        }
        set_epd_pixel(frame, x, line, white);
        proof {
            lemma_epd_pixel_is_frame_pixel(before, x, line, white);
        }
        assert forall|px: int, py: int| #[trigger] in_screen(px, py) implies pixel_white(
            frame@,
            px,
            py,
        ) == (if py == line && start <= px < x + 1 {
            rgb565_white_spec(pixels@[px])
        } else {
            pixel_white(old_frame, px, py)
        }) by {
            lemma_pixel_location(px, py, px, py);
            assert(frame_has(before, px, py));
        }
        x = x + 1;
    }
}

} // verus!
