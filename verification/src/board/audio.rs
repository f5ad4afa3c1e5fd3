use vstd::prelude::*;

verus! {

pub const SAMPLE_RATE_HZ: u32 = 16_000;
pub const SAMPLE_BITS: u8 = 16;
pub const DEFAULT_VOLUME: u8 = 70;
pub const FACTORY_TEST_VOLUME: u8 = 80;
pub const ES8311_INPUT_GAIN: u8 = 30;

} // verus!
