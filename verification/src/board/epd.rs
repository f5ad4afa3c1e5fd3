use vstd::prelude::*;

verus! {

pub const WIDTH: usize = 400;
pub const HEIGHT: usize = 300;
pub const FRAMEBUFFER_BYTES: usize = WIDTH * HEIGHT / 8;

pub const WRITE_SPI_FREQUENCY_HZ: u32 = 40_000_000;
pub const READ_SPI_FREQUENCY_HZ: u32 = 8_000_000;

pub const BUSY_ACTIVE_LOW: bool = true;

} // verus!
