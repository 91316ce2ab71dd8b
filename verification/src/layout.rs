//! Bit layout of the 32-bit frame, derived from the widths of its fields.
//!
//! ```text
//!   smcccw0r_rrrrrrrr_rrrxxxxx_xxxxxx00
//! ```
//!
//! `s` start, `m` mode, `c` channel selection, `w` wait, `0` zero,
//! `r` sample (most significant bit first), `x` checksum (least significant
//! bit first), followed by two padding bits.

use vstd::arithmetic::power2::pow2;
use vstd::bits::{lemma_u64_pow2_no_overflow, lemma_u64_shl_is_mul};
use vstd::prelude::*;

verus! {

/// Number of bits sent and received within a single transaction.
pub const FRAME_BIT_COUNT: u8 = 32;

/// Number of start bits.
pub const START_BIT_COUNT: u8 = 1;

/// Index of the start bit: the most significant bit of the frame.
pub const START_BIT_INDEX: u8 = FRAME_BIT_COUNT - START_BIT_COUNT;

/// Number of bits that select the conversion mode.
pub const MODE_BIT_COUNT: u8 = 1;

/// Index of the mode bit.
pub const MODE_BIT_INDEX: u8 = START_BIT_INDEX - MODE_BIT_COUNT;

/// Number of bits that encode the selected channel.
pub const CHANNEL_BIT_COUNT: u8 = 3;

/// Index of the lowest bit of the channel field.
pub const CHANNEL_BITS_INDEX: u8 = MODE_BIT_INDEX - CHANNEL_BIT_COUNT;

/// Number of channels of the converter.
pub const CHANNEL_COUNT: u8 = 1 << CHANNEL_BIT_COUNT;

/// Number of bits the device takes before it answers.
pub const WAIT_BIT_COUNT: u8 = 1;

/// Index of the wait bit.
pub const WAIT_BIT_INDEX: u8 = CHANNEL_BITS_INDEX - WAIT_BIT_COUNT;

/// Number of zero bits in front of the sample.
pub const ZERO_BIT_COUNT: u8 = 1;

/// Index of the zero bit in front of the sample.
pub const ZERO_BIT_INDEX: u8 = WAIT_BIT_INDEX - ZERO_BIT_COUNT;

/// Resolution of the converter in bits.
pub const SAMPLE_BIT_COUNT: u8 = 12;

/// Index of the least significant bit of the sample.
pub const SAMPLE_BITS_INDEX: u8 = ZERO_BIT_INDEX - SAMPLE_BIT_COUNT;

/// Number of checksum bits: the sample mirrored at its least significant
/// bit, which is sent once.
pub const CHECKSUM_BIT_COUNT: u8 = SAMPLE_BIT_COUNT - 1;

/// Index of the lowest bit of the checksum field.
pub const CHECKSUM_BITS_INDEX: u8 = SAMPLE_BITS_INDEX - CHECKSUM_BIT_COUNT;

/// Number of trailing padding bits.
pub const PADDING_BIT_COUNT: u8 = CHECKSUM_BITS_INDEX;

/// Index of the lowest padding bit.
pub const PADDING_BITS_INDEX: u8 = 0;

/// Index at which the least significant bit of the sample lands when the
/// whole frame is reversed.
pub const SAMPLE_LSB_MIRRORED_INDEX: u8 = FRAME_BIT_COUNT - 1 - SAMPLE_BITS_INDEX;

/// The channel field has room for exactly eight channel numbers.
pub proof fn lemma_channel_count()
    ensures
        CHANNEL_COUNT == 8,
{
    assert(CHANNEL_COUNT == 8) by (bit_vector);
}

/// The right-aligned bit mask of `length` ones, as a value.
pub open spec fn spec_mask(length: u8) -> u32 {
    (0x0000_0000_ffff_ffff_u64 >> ((32 - length) as u8)) as u32
}

/// Whether bit `index` of `frame` is set.
pub open spec fn bit(frame: u32, index: u8) -> bool {
    (frame >> index) & 1 == 1
}

/// Returns a right-aligned bit mask with `length` bits set to one.
#[verifier::when_used_as_spec(spec_mask)]
pub fn mask(length: u8) -> (result: u32)
    requires
        length <= 32,
    ensures
        result == spec_mask(length),
        result == pow2(length as nat) - 1,
        forall|index: u8| index < 32 ==> (#[trigger] bit(result, index) <==> index < length),
{
    let wide: u64 = 0x0000_0000_ffff_ffff_u64 >> (32 - length);
    proof {
        let shift: u8 = (32 - length) as u8;
        assert(0x0000_0000_ffff_ffff_u64 >> shift <= 0xffff_ffff_u64) by (bit_vector);
        assert(forall|index: u8|
            index < 32 ==> (#[trigger] bit((0x0000_0000_ffff_ffff_u64 >> shift) as u32, index)
                <==> index < length)) by (bit_vector)
            requires
                length <= 32,
                shift == 32 - length,
        ;
        let count: u64 = length as u64;
        assert(0x0000_0000_ffff_ffff_u64 >> shift == (1u64 << count) - 1) by (bit_vector)
            requires
                length <= 32,
                shift == 32 - length,
                count == length,
        ;
        lemma_u64_pow2_no_overflow(length as nat);
        lemma_u64_shl_is_mul(1, count);
    }
    wide as u32
}

/// The `count` bits of `frame` from bit `index` upwards, right-aligned.
pub open spec fn field(frame: u32, index: u8, count: u8) -> u32 {
    (frame >> index) & spec_mask(count)
}

/// The mask of the bits that are zero in every response, as a value: the
/// start, mode, channel, wait, zero and padding fields.
pub open spec fn spec_zero_validation_mask() -> u32 {
    spec_mask(START_BIT_COUNT) << START_BIT_INDEX
        | spec_mask(MODE_BIT_COUNT) << MODE_BIT_INDEX
        | spec_mask(CHANNEL_BIT_COUNT) << CHANNEL_BITS_INDEX
        | spec_mask(WAIT_BIT_COUNT) << WAIT_BIT_INDEX
        | spec_mask(ZERO_BIT_COUNT) << ZERO_BIT_INDEX
        | spec_mask(PADDING_BIT_COUNT) << PADDING_BITS_INDEX
}

/// Returns the mask of the bits that are zero in every response: all bits
/// outside the sample and its checksum.
#[verifier::when_used_as_spec(spec_zero_validation_mask)]
pub fn zero_validation_mask() -> (result: u32)
    ensures
        result == spec_zero_validation_mask(),
        result == 0xfe00_0003,
        forall|index: u8|
            index < FRAME_BIT_COUNT ==> (#[trigger] bit(result, index) <==> !(CHECKSUM_BITS_INDEX
                <= index < ZERO_BIT_INDEX)),
{
    let result: u32 = mask(START_BIT_COUNT) << START_BIT_INDEX
        | mask(MODE_BIT_COUNT) << MODE_BIT_INDEX
        | mask(CHANNEL_BIT_COUNT) << CHANNEL_BITS_INDEX
        | mask(WAIT_BIT_COUNT) << WAIT_BIT_INDEX
        | mask(ZERO_BIT_COUNT) << ZERO_BIT_INDEX
        | mask(PADDING_BIT_COUNT) << PADDING_BITS_INDEX;
    assert(spec_zero_validation_mask() == 0xfe00_0003) by (bit_vector);
    assert(forall|index: u8|
        index < FRAME_BIT_COUNT ==> (#[trigger] bit(0xfe00_0003, index) <==> !(CHECKSUM_BITS_INDEX
            <= index < ZERO_BIT_INDEX))) by (bit_vector);
    result
}

} // verus!
