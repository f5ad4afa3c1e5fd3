use vstd::prelude::*;

verus! {

pub const KEY_ENTER: u8 = 0;
pub const CHARGE_FULL_STDBY_H: u8 = 1;
pub const CHARGE_DETECT_CHRG_L: u8 = 2;
pub const LED_GREEN: u8 = 3;
pub const BATTERY_ADC: u8 = 4;
pub const RTC_INT: u8 = 5;
pub const EPD_POWER_ENABLE: u8 = 6;
pub const NFC_FD: u8 = 7;
pub const EPD_BUSY: u8 = 8;
pub const EPD_RESET: u8 = 9;
pub const EPD_DC: u8 = 10;
pub const EPD_CS: u8 = 11;
pub const EPD_SCK: u8 = 12;
pub const EPD_SDA: u8 = 13;
pub const I2S_MCLK: u8 = 14;
pub const I2S_BCLK: u8 = 15;
pub const I2S_DIN: u8 = 16;
pub const POWER_LATCH: u8 = 17;
pub const KEY_DOWN_POWER_DET: u8 = 18;
pub const USB_DN: u8 = 19;
pub const USB_DP: u8 = 20;
pub const NFC_POWER: u8 = 21;
pub const I2S_WS: u8 = 38;
pub const KEY_UP: u8 = 39;
pub const J3_GPIO40: u8 = 40;
pub const J3_GPIO41: u8 = 41;
pub const AUDIO_POWER: u8 = 42;
pub const I2S_DOUT: u8 = 45;
pub const AUDIO_PA_ENABLE: u8 = 46;
pub const I2C_SDA: u8 = 47;
pub const I2C_SCL: u8 = 48;

} // verus!
