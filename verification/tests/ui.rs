use zectrix_rs::battery::battery_percent_from_mv;
use zectrix_rs::epd::FRAMEBUFFER_BYTES;
use zectrix_rs::slint_ui::{
    blit_line, line_accepted, render_buffers_fit, rgb565_is_white, set_epd_pixel,
};
use zectrix_rs::text::{decimal_string, signed_decimal_string};
use zectrix_rs::ui::{battery_mv_from_pin, UiState};
use zectrix_rs::wifi::{ScanEntry, WifiScanStatus, WifiSnapshot};

fn pixel(frame: &[u8], x: usize, y: usize) -> bool {
    (frame[y * 50 + x / 8] >> (7 - x % 8)) & 1 == 1
}

#[test]
fn battery_curve_values() {
    assert_eq!(battery_percent_from_mv(0), 0);
    assert_eq!(battery_percent_from_mv(3000), 0);
    assert_eq!(battery_percent_from_mv(3700), 48);
    assert_eq!(battery_percent_from_mv(4000), 87);
    assert_eq!(battery_percent_from_mv(4200), 100);
    assert_eq!(battery_percent_from_mv(46_340), 0);
}

#[test]
fn battery_percent_never_above_hundred() {
    for mv in (0..=46_340u32).step_by(7) {
        assert!(battery_percent_from_mv(mv) <= 100);
    }
}

#[test]
fn battery_divider() {
    assert_eq!(battery_mv_from_pin(1850), 3700);
}

#[test]
fn rgb565_threshold() {
    assert!(rgb565_is_white(0xFFFF));
    assert!(!rgb565_is_white(0x0000));
    assert!(!rgb565_is_white(0xF800)); // pure red: luma 76
    assert!(!rgb565_is_white(0x07E0)); // pure green: luma 149
    assert!(!rgb565_is_white(0x001F)); // pure blue: luma 28
    assert!(rgb565_is_white(0xFFE0)); // yellow: luma 226
}

#[test]
fn epd_pixel_matches_frame_layout() {
    let mut frame = vec![0u8; FRAMEBUFFER_BYTES];
    set_epd_pixel(&mut frame, 399, 299, true);
    assert_eq!(frame[FRAMEBUFFER_BYTES - 1], 0x01);
    set_epd_pixel(&mut frame, 400, 299, true);
    assert_eq!(frame.iter().filter(|b| **b != 0).count(), 1);
}

#[test]
fn epd_pixel_same_as_frame_pixel() {
    for (x, y) in [(0usize, 0usize), (7, 3), (8, 3), (399, 299), (400, 0), (0, 300), (123, 45)] {
        for white in [false, true] {
            let mut a: Vec<u8> = (0..FRAMEBUFFER_BYTES).map(|i| (i * 91 % 256) as u8).collect();
            let mut b = a.clone();
            set_epd_pixel(&mut a, x, y, white);
            zectrix_rs::frame::set_pixel(&mut b, x, y, white);
            assert_eq!(a, b);
        }
    }
}

#[test]
fn render_guards() {
    assert!(render_buffers_fit(15000, 400));
    assert!(!render_buffers_fit(14999, 400));
    assert!(!render_buffers_fit(15000, 399));
    assert!(line_accepted(299, 400, 400));
    assert!(!line_accepted(300, 10, 400));
    assert!(!line_accepted(0, 401, 500));
    assert!(!line_accepted(0, 300, 200));
}

#[test]
fn blit_line_thresholds_span() {
    let mut frame = vec![0xAAu8; FRAMEBUFFER_BYTES];
    let mut pixels = vec![0u16; 400];
    pixels[10] = 0xFFFF;
    pixels[11] = 0x0000;
    pixels[12] = 0xFFFF;
    let before = frame.clone();
    blit_line(&mut frame, 7, 10, 13, &pixels);
    assert!(pixel(&frame, 10, 7));
    assert!(!pixel(&frame, 11, 7));
    assert!(pixel(&frame, 12, 7));
    for y in 0..300 {
        for x in 0..400 {
            if !(y == 7 && (10..13).contains(&x)) {
                assert_eq!(pixel(&frame, x, y), pixel(&before, x, y));
            }
        }
    }
}

#[test]
fn wifi_snapshot_pending_and_failed() {
    let p = WifiSnapshot::pending();
    assert_eq!(p.status, WifiScanStatus::Pending);
    assert_eq!((p.ap_count, p.best_rssi, p.best_channel), (0, 0, 0));
    let f = WifiSnapshot::failed();
    assert_eq!(f.status, WifiScanStatus::Failed);
    assert_eq!((f.ap_count, f.best_rssi, f.best_channel), (0, 0, 0));
}

#[test]
fn wifi_snapshot_from_scan() {
    let aps = [
        ScanEntry { signal_strength: -70, channel: 1 },
        ScanEntry { signal_strength: -40, channel: 6 },
        ScanEntry { signal_strength: -55, channel: 11 },
        ScanEntry { signal_strength: -40, channel: 13 },
    ];
    let s = WifiSnapshot::from_scan(&aps);
    assert_eq!(s.status, WifiScanStatus::Ready);
    assert_eq!(s.ap_count, 4);
    // Equally strong: the last one wins, as with max_by_key.
    assert_eq!((s.best_rssi, s.best_channel), (-40, 13));
}

#[test]
fn wifi_snapshot_empty_and_saturated() {
    let s = WifiSnapshot::from_scan(&[]);
    assert_eq!((s.status, s.ap_count, s.best_rssi, s.best_channel), (WifiScanStatus::Ready, 0, 0, 0));
    let many = vec![ScanEntry { signal_strength: -80, channel: 3 }; 300];
    let s = WifiSnapshot::from_scan(&many);
    assert_eq!(s.ap_count, 255);
    assert_eq!((s.best_rssi, s.best_channel), (-80, 3));
}

#[test]
fn wifi_status_texts() {
    let mut s = WifiSnapshot::pending();
    assert_eq!(s.status_text(), "扫描中");
    s.status = WifiScanStatus::Ready;
    assert_eq!(s.status_text(), "未发现");
    s.ap_count = 3;
    assert_eq!(s.status_text(), "已扫描");
    s.status = WifiScanStatus::Failed;
    assert_eq!(s.status_text(), "扫描失败");
}

#[test]
fn decimal_rendering() {
    assert_eq!(decimal_string(0), "0");
    assert_eq!(decimal_string(7), "7");
    assert_eq!(decimal_string(10), "10");
    assert_eq!(decimal_string(100), "100");
    assert_eq!(decimal_string(255), "255");
    for n in 0..=255u8 {
        assert_eq!(decimal_string(n), format!("{}", n));
    }
    for n in i8::MIN..=i8::MAX {
        assert_eq!(signed_decimal_string(n), format!("{}", n));
    }
}

#[test]
fn ui_state_from_inputs() {
    let wifi = WifiSnapshot::pending();
    let s = UiState::from_inputs(false, true, true, false, true, 1850, wifi);
    assert!(s.enter_pressed);
    assert!(!s.down_pressed);
    assert!(!s.up_pressed);
    assert!(s.charge_present);
    assert!(s.charge_full);
    assert_eq!(s.battery_percent, 48);
    assert_eq!(s.wifi, wifi);
}

#[test]
fn refresh_only_on_change() {
    let wifi = WifiSnapshot::pending();
    let a = UiState::from_inputs(true, true, true, true, false, 1850, wifi);
    let b = a;
    assert!(!UiState::needs_refresh(false, &a, &b));
    assert!(UiState::needs_refresh(true, &a, &b));
    let c = UiState::from_inputs(false, true, true, true, false, 1850, wifi);
    assert!(UiState::needs_refresh(false, &c, &a));
    assert!(UiState::needs_refresh(false, &a, &UiState::invalid()));
}

#[test]
fn invalid_state() {
    let s = UiState::invalid();
    assert_eq!(s.battery_percent, 255);
    assert_eq!(s.wifi, WifiSnapshot::pending());
}

#[test]
fn ui_texts_idle() {
    let s = UiState::from_inputs(true, true, true, true, false, 1850, WifiSnapshot::pending());
    let t = s.texts();
    assert_eq!(t.battery_text, "48%");
    assert_eq!(t.charge_text, "电池");
    assert_eq!(t.button_text, "空闲");
    assert_eq!(t.wifi_status, "扫描中");
    assert_eq!(t.wifi_count_text, "0 个热点");
    assert_eq!(t.wifi_rssi_text, "-- dBm");
    assert_eq!(t.wifi_channel_text, "--");
}

#[test]
fn ui_texts_active() {
    let aps = [ScanEntry { signal_strength: -42, channel: 11 }];
    let wifi = WifiSnapshot::from_scan(&aps);
    let s = UiState::from_inputs(true, false, false, false, false, 2100, wifi);
    let t = s.texts();
    assert_eq!(t.battery_text, "100%");
    assert_eq!(t.charge_text, "充电");
    assert_eq!(t.button_text, "DOWN");
    assert_eq!(t.wifi_status, "已扫描");
    assert_eq!(t.wifi_count_text, "1 个热点");
    assert_eq!(t.wifi_rssi_text, "-42 dBm");
    assert_eq!(t.wifi_channel_text, "CH 11");
    let full = UiState::from_inputs(false, false, false, false, true, 2100, wifi).texts();
    assert_eq!(full.charge_text, "充满");
    assert_eq!(full.button_text, "ENTER");
}
