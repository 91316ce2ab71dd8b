//! Settings of the serial bus on which the converter answers.

use vstd::prelude::*;

verus! {

/// The clock rate, in hertz, that the bus is set to.
pub const MAX_SPEED_HZ: u32 = 1_000_000;

/// The number of the bus mode: the clock idles low and data is taken on its
/// leading edge.
pub const SPI_MODE: u8 = 0;

/// Whether each byte goes over the bus least significant bit first.
pub const LSB_FIRST: bool = false;

} // verus!
