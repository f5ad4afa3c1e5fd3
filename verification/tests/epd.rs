use zectrix_rs::epd::{
    busy_wait_step, byte_from_levels, fill_test_pattern, frame_prelude_ops, init_ops, op_step,
    pack_1bpp_to_2683, pack_frame_2683, pack_row_2683, OpStep, FRAME_BYTES_OUT, read_temperature_ops, serial_levels, temperature_lut,
    turn_on_display_ops, BusOp, BusyWait, Error, FRAMEBUFFER_BYTES, HEIGHT, WIDTH,
};
use zectrix_rs::frame::{clear_white, draw_rect, set_pixel};

fn pixel(frame: &[u8], x: usize, y: usize) -> bool {
    (frame[y * 50 + x / 8] >> (7 - x % 8)) & 1 == 1
}

/// Colour of the test pattern, written independently of the library.
fn expected_pattern(x: usize, y: usize) -> bool {
    let diag = (x < 300 && y == x * 300 / 400) || (399 - x < 300 && y == (399 - x) * 300 / 400);
    if diag {
        return false;
    }
    if (110..290).contains(&x) && (80..220).contains(&y) {
        return ((x / 10) + (y / 10)) % 2 != 0;
    }
    let rects: [(usize, usize, usize, usize); 10] = [
        (0, 0, 400, 4),
        (0, 296, 400, 4),
        (0, 0, 4, 300),
        (396, 0, 4, 300),
        (0, 149, 400, 2),
        (199, 0, 2, 300),
        (12, 12, 72, 48),
        (316, 12, 72, 48),
        (12, 240, 72, 48),
        (316, 240, 72, 48),
    ];
    for (rx, ry, w, h) in rects {
        if x >= rx && x < rx + w && y >= ry && y < ry + h {
            return false;
        }
    }
    true
}

#[test]
fn geometry_constants() {
    assert_eq!(WIDTH, 400);
    assert_eq!(HEIGHT, 300);
    assert_eq!(FRAMEBUFFER_BYTES, 15000);
}

#[test]
fn test_pattern_matches_reference_everywhere() {
    let mut frame = vec![0x5Au8; FRAMEBUFFER_BYTES + 10];
    fill_test_pattern(&mut frame);
    for y in 0..HEIGHT {
        for x in 0..WIDTH {
            assert_eq!(pixel(&frame, x, y), expected_pattern(x, y), "pixel {x},{y}");
        }
    }
    assert!(frame[FRAMEBUFFER_BYTES..].iter().all(|b| *b == 0x5A));
}

#[test]
fn test_pattern_ignores_previous_contents() {
    let mut a = vec![0x00u8; FRAMEBUFFER_BYTES];
    let mut b = vec![0xFFu8; FRAMEBUFFER_BYTES];
    fill_test_pattern(&mut a);
    fill_test_pattern(&mut b);
    assert_eq!(a, b);
}

#[test]
fn test_pattern_known_bytes() {
    let mut frame = vec![0u8; FRAMEBUFFER_BYTES];
    fill_test_pattern(&mut frame);
    // The top border is black.
    assert_eq!(frame[0], 0x00);
    assert!(pixel(&frame, 100, 100));
    assert!(!pixel(&frame, 150, 90));
    assert!(pixel(&frame, 160, 90));
    assert!(!pixel(&frame, 0, 0));
    assert!(!pixel(&frame, 399, 0));
    assert!(!pixel(&frame, 40, 30));
}

#[test]
fn set_pixel_changes_one_bit() {
    let mut frame = vec![0xFFu8; FRAMEBUFFER_BYTES];
    set_pixel(&mut frame, 0, 0, false);
    assert_eq!(frame[0], 0x7F);
    set_pixel(&mut frame, 9, 1, false);
    assert_eq!(frame[51], 0xBF);
    set_pixel(&mut frame, 0, 0, true);
    assert_eq!(frame[0], 0xFF);
    assert!(frame.iter().enumerate().all(|(i, b)| i == 51 || *b == 0xFF));
}

#[test]
fn set_pixel_off_panel_is_ignored() {
    let mut frame = vec![0xFFu8; FRAMEBUFFER_BYTES];
    set_pixel(&mut frame, 400, 0, false);
    set_pixel(&mut frame, 0, 300, false);
    assert!(frame.iter().all(|b| *b == 0xFF));
}

#[test]
fn set_pixel_on_short_frame() {
    let mut frame = vec![0xFFu8; 1];
    set_pixel(&mut frame, 7, 0, false);
    assert_eq!(frame, vec![0xFE]);
}

#[test]
fn draw_rect_is_clipped_to_panel() {
    let mut frame = vec![0xFFu8; FRAMEBUFFER_BYTES];
    draw_rect(&mut frame, 396, 298, 100, 100, false);
    for y in 0..HEIGHT {
        for x in 0..WIDTH {
            assert_eq!(pixel(&frame, x, y), !(x >= 396 && y >= 298));
        }
    }
}

#[test]
fn draw_rect_empty() {
    let mut frame = vec![0xFFu8; FRAMEBUFFER_BYTES];
    draw_rect(&mut frame, 10, 10, 0, 5, false);
    draw_rect(&mut frame, 500, 10, 5, 5, false);
    assert!(frame.iter().all(|b| *b == 0xFF));
}

#[test]
fn clear_white_fills_frame_only() {
    let mut frame = vec![0u8; FRAMEBUFFER_BYTES + 3];
    clear_white(&mut frame);
    assert!(frame[..FRAMEBUFFER_BYTES].iter().all(|b| *b == 0xFF));
    assert_eq!(&frame[FRAMEBUFFER_BYTES..], &[0, 0, 0]);
}

#[test]
fn pack_known_values() {
    assert_eq!(pack_1bpp_to_2683(0x00), (0x00, 0x00));
    assert_eq!(pack_1bpp_to_2683(0xFF), (0x55, 0x55));
    assert_eq!(pack_1bpp_to_2683(0x80), (0x40, 0x00));
    assert_eq!(pack_1bpp_to_2683(0x01), (0x00, 0x01));
    assert_eq!(pack_1bpp_to_2683(0xA5), (0x44, 0x11));
}

#[test]
fn pack_keeps_every_pixel() {
    for input in 0..=255u8 {
        let (a, b) = pack_1bpp_to_2683(input);
        assert_eq!(a & 0xAA, 0);
        assert_eq!(b & 0xAA, 0);
        for k in 0..8u32 {
            let code = if k < 4 { (a >> (6 - 2 * k)) & 3 } else { (b >> (14 - 2 * k)) & 3 };
            assert_eq!(code, (input >> (7 - k)) & 1);
        }
    }
}

#[test]
fn pack_row_converts_each_byte() {
    let mut frame = vec![0u8; FRAMEBUFFER_BYTES];
    for k in 0..50 {
        frame[2 * 50 + k] = k as u8 * 5;
    }
    let line = pack_row_2683(&frame, 2);
    assert_eq!(line.len(), 100);
    for k in 0..50 {
        let (a, b) = pack_1bpp_to_2683(k as u8 * 5);
        assert_eq!(line[2 * k], a);
        assert_eq!(line[2 * k + 1], b);
    }
}

#[test]
fn temperature_table() {
    let cases: [(u8, u8); 12] = [
        (0, 232),
        (5, 232),
        (6, 235),
        (10, 235),
        (11, 238),
        (20, 238),
        (21, 241),
        (30, 241),
        (31, 244),
        (127, 244),
        (128, 232),
        (255, 232),
    ];
    for (raw, lut) in cases {
        assert_eq!(temperature_lut(raw), lut, "raw {raw}");
    }
    // Observed on hardware: raw 32 gives 244.
    assert_eq!(temperature_lut(32), 244);
}

#[test]
fn serial_levels_msb_first() {
    assert_eq!(
        serial_levels(0xA5),
        vec![true, false, true, false, false, true, false, true]
    );
}

#[test]
fn serial_roundtrip_all_bytes() {
    for data in 0..=255u8 {
        let levels = serial_levels(data);
        assert_eq!(byte_from_levels(&levels), data);
    }
}

#[test]
fn busy_wait_decisions() {
    assert_eq!(busy_wait_step("init reset", false, 0), Ok(BusyWait::Done));
    assert_eq!(busy_wait_step("init reset", false, 99_999), Ok(BusyWait::Done));
    assert_eq!(busy_wait_step("init reset", true, 29_999), Ok(BusyWait::Poll));
    assert_eq!(
        busy_wait_step("init reset", true, 30_000),
        Err(Error::BusyTimeout("init reset"))
    );
}

#[test]
fn protocol_sequences() {
    let init = init_ops();
    assert_eq!(init.len(), 15);
    assert_eq!(init[0], BusOp::PowerOn);
    assert_eq!(init[8], BusOp::WaitBusy("init reset"));
    assert_eq!(init[9], BusOp::Command(0x00));
    assert_eq!(init[14], BusOp::WaitBusy("init otp"));
    assert_eq!(
        read_temperature_ops(),
        vec![BusOp::Command(0x40), BusOp::WaitBusy("read temperature command")]
    );
    let prelude = frame_prelude_ops(32);
    assert_eq!(prelude[3], BusOp::Data(244));
    assert_eq!(prelude[7], BusOp::Command(0x10));
    let off = turn_on_display_ops();
    assert_eq!(off.len(), 9);
    assert_eq!(off[8], BusOp::PowerOff);
}

#[test]
fn pack_frame_is_all_rows_in_order() {
    let mut frame = vec![0u8; FRAMEBUFFER_BYTES + 5];
    for (i, b) in frame.iter_mut().enumerate() {
        *b = (i * 37 % 256) as u8;
    }
    let out = pack_frame_2683(&frame);
    assert_eq!(out.len(), FRAME_BYTES_OUT);
    assert_eq!(out.len(), 30000);
    for i in 0..FRAMEBUFFER_BYTES {
        assert_eq!((out[2 * i], out[2 * i + 1]), pack_1bpp_to_2683(frame[i]));
    }
    for y in 0..HEIGHT {
        assert_eq!(&out[y * 100..(y + 1) * 100], pack_row_2683(&frame, y).as_slice());
    }
}

/// Runs `ops` the way the driver does, with the waits at `timeouts` timing out.
fn drive(ops: &[BusOp], timeouts: &[usize]) -> (Vec<BusOp>, Result<(), Error>) {
    let mut done = Vec::new();
    let mut performed = 0;
    let mut timed_out = false;
    loop {
        match op_step(ops, performed, timed_out) {
            OpStep::Finished(r) => return (done, r),
            OpStep::Perform(op) => {
                timed_out = matches!(op, BusOp::WaitBusy(_)) && timeouts.contains(&performed);
                done.push(op);
                performed += 1;
            }
        }
    }
}

#[test]
fn sequence_runs_to_the_end_without_timeout() {
    let ops = init_ops();
    let (done, result) = drive(&ops, &[]);
    assert_eq!(done, ops);
    assert_eq!(result, Ok(()));
}

#[test]
fn sequence_stops_at_first_timed_out_wait() {
    let ops = turn_on_display_ops();
    // Places 1 and 4 are the "power on" and "display refresh" waits.
    let (done, result) = drive(&ops, &[4, 1]);
    assert_eq!(done, ops[..2].to_vec());
    assert_eq!(result, Err(Error::BusyTimeout("power on")));
    let (done, result) = drive(&ops, &[4]);
    assert_eq!(done, ops[..5].to_vec());
    assert_eq!(result, Err(Error::BusyTimeout("display refresh")));
}

#[test]
fn op_step_ignores_timeout_flag_on_other_steps() {
    let ops = [BusOp::Command(1), BusOp::Data(2)];
    assert_eq!(op_step(&ops, 1, true), OpStep::Perform(BusOp::Data(2)));
    assert_eq!(op_step(&ops, 2, false), OpStep::Finished(Ok(())));
    assert_eq!(op_step(&ops, 0, false), OpStep::Perform(BusOp::Command(1)));
}
