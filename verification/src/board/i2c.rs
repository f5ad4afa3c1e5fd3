use vstd::prelude::*;

verus! {

pub const BUS_FREQUENCY_HZ: u32 = 400_000;

pub const ES8311_ADDR: u8 = 0x18;
pub const PCF8563_ADDR: u8 = 0x51;
pub const GT23SC6699_ADDR: u8 = 0x55;

} // verus!
