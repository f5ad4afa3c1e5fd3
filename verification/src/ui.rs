//! The state the screen shows, when the screen must be redrawn, and the
//! texts it shows.
use vstd::prelude::*;

use crate::battery::{battery_percent_from_mv, battery_percent_spec, MAX_CURVE_MV};
use crate::board;
use crate::text::{decimal, decimal_string, signed_decimal, signed_decimal_string};
use crate::wifi::{WifiScanStatus, WifiSnapshot};

verus! {

/// Everything the screen shows; a change of it asks for a refresh.
#[derive(Clone, Copy, Debug, PartialEq, Eq, Structural)]
pub struct UiState {
    pub battery_percent: u8,
    pub enter_pressed: bool,
    pub down_pressed: bool,
    pub up_pressed: bool,
    pub charge_present: bool,
    pub charge_full: bool,
    pub wifi: WifiSnapshot,
}

/// The texts of the screen for one state.
pub struct UiTexts {
    pub battery_text: String,
    pub charge_text: String,
    pub button_text: String,
    pub wifi_status: String,
    pub wifi_count_text: String,
    pub wifi_rssi_text: String,
    pub wifi_channel_text: String,
}

/// Battery voltage in millivolts for a reading of `pin_mv` millivolts at the
/// ADC pin, behind the board's voltage divider.
pub open spec fn battery_mv_spec(pin_mv: int) -> int {
    pin_mv * board::battery::VOLTAGE_DIVIDER_NUMERATOR as int
        / board::battery::VOLTAGE_DIVIDER_DENOMINATOR as int
}

/// Scales an ADC pin reading back through the board's voltage divider.
pub fn battery_mv_from_pin(pin_mv: u32) -> (mv: u32)
    requires
        pin_mv * board::battery::VOLTAGE_DIVIDER_NUMERATOR <= u32::MAX,
    ensures
        mv == battery_mv_spec(pin_mv as int),
{
    pin_mv * board::battery::VOLTAGE_DIVIDER_NUMERATOR
        / board::battery::VOLTAGE_DIVIDER_DENOMINATOR
}

impl UiState {
    /// A state that no reading produces (battery at 255 %), so that the first
    /// comparison with it always differs.
    pub fn invalid() -> (s: Self)
        ensures
            s.battery_percent == 255,
            !s.enter_pressed && !s.down_pressed && !s.up_pressed,
            !s.charge_present && !s.charge_full,
            s.wifi.status == WifiScanStatus::Pending,
            s.wifi.ap_count == 0 && s.wifi.best_rssi == 0 && s.wifi.best_channel == 0,
    {
        UiState {
            battery_percent: u8::MAX,
            enter_pressed: false,
            down_pressed: false,
            up_pressed: false,
            charge_present: false,
            charge_full: false,
            wifi: WifiSnapshot::pending(),
        }
    }

    /// The state shown for the raw input levels: the buttons and the charge
    /// detect line are active low, the charge-full line is active high, and
    /// `pin_mv` is the battery ADC reading at the pin.
    pub fn from_inputs(
        enter_raw_high: bool,
        down_raw_high: bool,
        up_raw_high: bool,
        charge_detect_raw_high: bool,
        charge_full_raw_high: bool,
        pin_mv: u32,
        wifi: WifiSnapshot,
    ) -> (s: Self)
        requires
            battery_mv_spec(pin_mv as int) <= MAX_CURVE_MV,
        ensures
            s.enter_pressed == !enter_raw_high,
            s.down_pressed == !down_raw_high,
            s.up_pressed == !up_raw_high,
            s.charge_present == !charge_detect_raw_high,
            s.charge_full == charge_full_raw_high,
            s.battery_percent == battery_percent_spec(battery_mv_spec(pin_mv as int)),
            s.wifi == wifi,
    {
        let battery_mv = battery_mv_from_pin(pin_mv);
        UiState {
            battery_percent: battery_percent_from_mv(battery_mv),
            enter_pressed: !enter_raw_high,
            down_pressed: !down_raw_high,
            up_pressed: !up_raw_high,
            charge_present: !charge_detect_raw_high,
            charge_full: charge_full_raw_high,
            wifi,
        }
    }

    /// The screen is redrawn when a refresh is forced or the state changed.
    pub fn needs_refresh(force: bool, current: &UiState, last: &UiState) -> (refresh: bool)
        ensures
            refresh == (force || *current != *last),
    {
        force || *current != *last
    }

    /// The charge line of the screen.
    pub open spec fn charge_text_spec(&self) -> Seq<char> {
        if self.charge_full {
            "充满"@
        } else if self.charge_present {
            "充电"@
        } else {
            "电池"@
        }
    }

    /// The button line of the screen: the first pressed of ENTER, DOWN and UP.
    pub open spec fn button_text_spec(&self) -> Seq<char> {
        if self.enter_pressed {
            "ENTER"@
        } else if self.down_pressed {
            "DOWN"@
        } else if self.up_pressed {
            "UP"@
        } else {
            "空闲"@
        }
    }

    /// The texts the screen shows for this state.
    pub fn texts(&self) -> (t: UiTexts)
        ensures
            t.battery_text@ == decimal(self.battery_percent as nat) + "%"@,
            t.charge_text@ == self.charge_text_spec(),
            t.button_text@ == self.button_text_spec(),
            self.charge_full ==> t.charge_text@ == "充满"@,
            !self.charge_full && self.charge_present ==> t.charge_text@ == "充电"@,
            !self.charge_full && !self.charge_present ==> t.charge_text@ == "电池"@,
            self.enter_pressed ==> t.button_text@ == "ENTER"@,
            !self.enter_pressed && self.down_pressed ==> t.button_text@ == "DOWN"@,
            !self.enter_pressed && !self.down_pressed && self.up_pressed ==> t.button_text@
                == "UP"@,
            !self.enter_pressed && !self.down_pressed && !self.up_pressed ==> t.button_text@
                == "空闲"@,
            self.wifi.status == WifiScanStatus::Pending ==> t.wifi_status@ == "扫描中"@,
            self.wifi.status == WifiScanStatus::Ready && self.wifi.ap_count == 0
                ==> t.wifi_status@ == "未发现"@,
            self.wifi.status == WifiScanStatus::Ready && self.wifi.ap_count != 0
                ==> t.wifi_status@ == "已扫描"@,
            self.wifi.status == WifiScanStatus::Failed ==> t.wifi_status@ == "扫描失败"@,
            t.wifi_count_text@ == decimal(self.wifi.ap_count as nat) + " 个热点"@,
            t.wifi_rssi_text@ == (if self.wifi.ap_count == 0 {
                "-- dBm"@
            } else {
                signed_decimal(self.wifi.best_rssi as int) + " dBm"@
            }),
            t.wifi_channel_text@ == (if self.wifi.best_channel == 0 {
                "--"@
            } else {
                "CH "@ + decimal(self.wifi.best_channel as nat)
            }),
    {
        let battery_text = decimal_string(self.battery_percent).concat("%");
        let charge_text = if self.charge_full {
            String::from_str("充满")
        } else if self.charge_present {
            String::from_str("充电")
        } else {
            String::from_str("电池")
        };
        let button_text = if self.enter_pressed {
            String::from_str("ENTER")
        } else if self.down_pressed {
            String::from_str("DOWN")
        } else if self.up_pressed {
            String::from_str("UP")
        } else {
            String::from_str("空闲")
        };
        let wifi_status = String::from_str(self.wifi.status_text());
        let wifi_count_text = decimal_string(self.wifi.ap_count).concat(" 个热点");
        let wifi_rssi_text = if self.wifi.ap_count == 0 {
            String::from_str("-- dBm")
        } else {
            signed_decimal_string(self.wifi.best_rssi).concat(" dBm")
        };
        let wifi_channel_text = if self.wifi.best_channel == 0 {
            String::from_str("--")
        } else {
            let digits = decimal_string(self.wifi.best_channel);
            String::from_str("CH ").concat(digits.as_str())
        };
        UiTexts {
            battery_text,
            charge_text,
            button_text,
            wifi_status,
            wifi_count_text,
            wifi_rssi_text,
            wifi_channel_text,
        }
    }
}

/// The button line names the pressed button, ENTER before DOWN before UP,
/// and reads idle only when no button is pressed.
pub proof fn lemma_button_text_names_pressed(s: UiState)
    ensures
        s.enter_pressed ==> s.button_text_spec() == "ENTER"@,
        !s.enter_pressed && s.down_pressed ==> s.button_text_spec() == "DOWN"@,
        !s.enter_pressed && !s.down_pressed && s.up_pressed ==> s.button_text_spec() == "UP"@,
        !s.enter_pressed && !s.down_pressed && !s.up_pressed ==> s.button_text_spec() == "空闲"@,
{
}

/// The charge line reads full over charging over battery.
pub proof fn lemma_charge_text(s: UiState)
    ensures
        s.charge_full ==> s.charge_text_spec() == "充满"@,
        !s.charge_full && s.charge_present ==> s.charge_text_spec() == "充电"@,
        !s.charge_full && !s.charge_present ==> s.charge_text_spec() == "电池"@,
{
}

} // verus!
