use vstd::prelude::*;

verus! {

pub const ADC_MAX: u32 = 4095;
pub const ADC_ATTENUATION_DB: u8 = 12;

pub const VOLTAGE_DIVIDER_NUMERATOR: u32 = 2;
pub const VOLTAGE_DIVIDER_DENOMINATOR: u32 = 1;

} // verus!
