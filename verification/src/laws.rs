//! What holds of the codec as a whole: decoding inverts the device's
//! encoding, and a single flipped bit is detected wherever the frame says
//! something twice.

use crate::channel::{Channel, ConversionMode};
use crate::codec::{
    command_frame, lemma_alignment, lemma_command_frame_fields, lemma_response_frame,
    mirrored_pair, mode_bit, sample_of, spec_align_mirrored, spec_from_be_bytes,
    spec_parse_response, spec_response_frame, spec_reverse_bits, spec_to_be_bytes,
    zero_bits_clear,
};
use crate::error::Mcp3208Error;
use crate::layout::{
    bit, field, spec_mask, zero_validation_mask, CHANNEL_BITS_INDEX, CHANNEL_BIT_COUNT,
    CHECKSUM_BITS_INDEX, CHECKSUM_BIT_COUNT, FRAME_BIT_COUNT, MODE_BIT_COUNT, MODE_BIT_INDEX,
    SAMPLE_BITS_INDEX, START_BIT_COUNT, START_BIT_INDEX, ZERO_BIT_INDEX,
};
use vstd::prelude::*;

verus! {

/// The fields determine the command frame: a frame whose start, mode and
/// channel fields are those of a mode and a channel, and whose other bits
/// are zero, is the command frame of that mode and channel.
pub proof fn lemma_command_frame_unique(frame: u32, mode: ConversionMode, channel: Channel)
    requires
        field(frame, START_BIT_INDEX, START_BIT_COUNT) == 1,
        field(frame, MODE_BIT_INDEX, MODE_BIT_COUNT) == mode_bit(mode),
        field(frame, CHANNEL_BITS_INDEX, CHANNEL_BIT_COUNT) == channel.index(),
        field(frame, 0, CHANNEL_BITS_INDEX) == 0,
    ensures
        frame == command_frame(mode, channel),
{
    let mode_value: u32 = mode_bit(mode);
    let number: u32 = channel.index() as u32;
    assert(frame == 1u32 << START_BIT_INDEX | mode_value << MODE_BIT_INDEX | number
        << CHANNEL_BITS_INDEX) by (bit_vector)
        requires
            field(frame, START_BIT_INDEX, START_BIT_COUNT) == 1,
            field(frame, MODE_BIT_INDEX, MODE_BIT_COUNT) == mode_value,
            field(frame, CHANNEL_BITS_INDEX, CHANNEL_BIT_COUNT) == number,
            field(frame, 0, CHANNEL_BITS_INDEX) == 0,
    ;
}

/// Command frames of different modes or channels differ.
pub proof fn lemma_command_frame_injective(
    mode: ConversionMode,
    channel: Channel,
    other_mode: ConversionMode,
    other_channel: Channel,
)
    requires
        command_frame(mode, channel) == command_frame(other_mode, other_channel),
    ensures
        mode == other_mode,
        channel == other_channel,
{
    lemma_command_frame_fields(mode, channel);
    lemma_command_frame_fields(other_mode, other_channel);
}

/// Splitting a frame into bytes and joining them again gives the frame.
pub proof fn lemma_frame_bytes_round_trip(frame: u32)
    ensures
        spec_to_be_bytes(frame).len() == 4,
        spec_from_be_bytes(spec_to_be_bytes(frame)) == frame,
{
    let bytes = spec_to_be_bytes(frame);
    let first: u8 = bytes[0];
    let second: u8 = bytes[1];
    let third: u8 = bytes[2];
    let fourth: u8 = bytes[3];
    assert((first as u32) << 24 | (second as u32) << 16 | (third as u32) << 8 | (fourth as u32)
        == frame) by (bit_vector)
        requires
            first == ((frame >> 24) & 0xff) as u8,
            second == ((frame >> 16) & 0xff) as u8,
            third == ((frame >> 8) & 0xff) as u8,
            fourth == (frame & 0xff) as u8,
    ;
}

/// Joining four bytes into a frame and splitting it again gives the bytes.
pub proof fn lemma_bytes_frame_round_trip(bytes: Seq<u8>)
    requires
        bytes.len() == 4,
    ensures
        spec_to_be_bytes(spec_from_be_bytes(bytes)) == bytes,
{
    let first: u8 = bytes[0];
    let second: u8 = bytes[1];
    let third: u8 = bytes[2];
    let fourth: u8 = bytes[3];
    let frame: u32 = spec_from_be_bytes(bytes);
    assert(first == ((frame >> 24) & 0xff) as u8 && second == ((frame >> 16) & 0xff) as u8 && third
        == ((frame >> 8) & 0xff) as u8 && fourth == (frame & 0xff) as u8) by (bit_vector)
        requires
            frame == (first as u32) << 24 | (second as u32) << 16 | (third as u32) << 8 | (
            fourth as u32),
    ;
    assert(spec_to_be_bytes(frame) =~= bytes);
}

/// Decoding inverts the device's encoding: the response frame of any
/// twelve-bit sample decodes to that sample.
pub proof fn lemma_round_trip(sample: u16)
    requires
        sample < 4096,
    ensures
        spec_parse_response(spec_response_frame(sample)) == Ok::<u16, Mcp3208Error>(sample),
{
    lemma_response_frame(sample);
}

/// Only the device's encodings decode: a frame decodes to a sample exactly
/// when the sample has twelve bits and the frame is its response frame.
pub proof fn lemma_decodes_iff_response_frame(frame: u32, sample: u16)
    ensures
        spec_parse_response(frame) == Ok::<u16, Mcp3208Error>(sample) <==> (sample < 4096 && frame
            == spec_response_frame(sample)),
{
    if sample < 4096 && frame == spec_response_frame(sample) {
        lemma_round_trip(sample);
    }
    if spec_parse_response(frame) == Ok::<u16, Mcp3208Error>(sample) {
        lemma_alignment(frame);
        assert(sample < 4096 && frame == spec_response_frame(sample)) by (bit_vector)
            requires
                zero_bits_clear(frame),
                spec_align_mirrored(spec_reverse_bits(frame)) == frame,
                sample == sample_of(frame),
        ;
    }
}

/// A set bit among those that are always zero is detected: flipping one of
/// them in a frame that decodes gives a frame that fails with
/// `MalformedResponse`, which holds the corrupted frame.
pub proof fn lemma_zero_bit_corruption(frame: u32, index: u8)
    requires
        spec_parse_response(frame) is Ok,
        index < FRAME_BIT_COUNT,
        bit(zero_validation_mask(), index),
    ensures
        spec_parse_response(frame ^ (1u32 << index)) == Err::<u16, Mcp3208Error>(
            Mcp3208Error::MalformedResponse(frame ^ (1u32 << index)),
        ),
{
    assert(!zero_bits_clear(frame ^ (1u32 << index))) by (bit_vector)
        requires
            zero_bits_clear(frame),
            index < FRAME_BIT_COUNT,
            bit(zero_validation_mask(), index),
    ;
}

/// A flipped bit of the checksum, or of the sample above its least
/// significant bit, is detected: the corrupted frame fails with
/// `ChecksumMismatch`, which holds it.
pub proof fn lemma_mirrored_bit_corruption(frame: u32, index: u8)
    requires
        spec_parse_response(frame) is Ok,
        CHECKSUM_BITS_INDEX <= index < ZERO_BIT_INDEX,
        index != SAMPLE_BITS_INDEX,
    ensures
        spec_parse_response(frame ^ (1u32 << index)) == Err::<u16, Mcp3208Error>(
            Mcp3208Error::ChecksumMismatch(frame ^ (1u32 << index)),
        ),
{
    let corrupted: u32 = frame ^ (1u32 << index);
    let distance: u8 = if index < SAMPLE_BITS_INDEX {
        (SAMPLE_BITS_INDEX - index) as u8
    } else {
        (index - SAMPLE_BITS_INDEX) as u8
    };
    assert(mirrored_pair(frame, distance));
    assert(zero_bits_clear(corrupted) && !mirrored_pair(corrupted, distance)) by (bit_vector)
        requires
            zero_bits_clear(frame),
            mirrored_pair(frame, distance),
            CHECKSUM_BITS_INDEX <= index < ZERO_BIT_INDEX,
            index != SAMPLE_BITS_INDEX,
            distance == if index < SAMPLE_BITS_INDEX {
                (SAMPLE_BITS_INDEX - index) as u8
            } else {
                (index - SAMPLE_BITS_INDEX) as u8
            },
            corrupted == frame ^ (1u32 << index),
    ;
}

/// The sample's least significant bit is sent once only, so flipping it is
/// not detected: the corrupted frame decodes to the sample with that bit
/// flipped.
pub proof fn lemma_unmirrored_bit_corruption(frame: u32)
    requires
        spec_parse_response(frame) is Ok,
    ensures
        spec_parse_response(frame ^ (1u32 << SAMPLE_BITS_INDEX)) == Ok::<u16, Mcp3208Error>(
            sample_of(frame) ^ 1,
        ),
{
    let corrupted: u32 = frame ^ (1u32 << SAMPLE_BITS_INDEX);
    lemma_alignment(frame);
    assert(zero_bits_clear(corrupted) && spec_align_mirrored(spec_reverse_bits(corrupted))
        == corrupted && sample_of(corrupted) == sample_of(frame) ^ 1) by (bit_vector)
        requires
            zero_bits_clear(frame),
            spec_align_mirrored(spec_reverse_bits(frame)) == frame,
            corrupted == frame ^ (1u32 << SAMPLE_BITS_INDEX),
    ;
    lemma_alignment(corrupted);
}

/// The frame that repeats the sample's least significant bit in its
/// checksum: the checksum field holds the sample's low eleven bits in
/// opposite order, one place later than the device sends them.
pub open spec fn late_mirror_frame(sample: u16) -> u32 {
    ((sample as u32) << SAMPLE_BITS_INDEX) | ((spec_align_mirrored(
        spec_reverse_bits((sample as u32) << SAMPLE_BITS_INDEX),
    ) >> 1) & (spec_mask(CHECKSUM_BIT_COUNT) << CHECKSUM_BITS_INDEX))
}

/// A checksum that mirrors the sample's low eleven bits is not the
/// device's, which mirrors the eleven bits above the least significant one.
/// Such a frame decodes only where the two agree, that is where all twelve
/// sample bits are equal; for every other sample it fails with
/// `ChecksumMismatch`.
pub proof fn lemma_late_mirror_rejected(sample: u16)
    requires
        sample < 4096,
    ensures
        sample_of(late_mirror_frame(sample)) == sample,
        forall|index: u8|
            index < CHECKSUM_BIT_COUNT ==> #[trigger] bit(
                field(late_mirror_frame(sample), CHECKSUM_BITS_INDEX, CHECKSUM_BIT_COUNT),
                index,
            ) == bit(sample as u32, (CHECKSUM_BIT_COUNT - 1 - index) as u8),
        spec_parse_response(late_mirror_frame(sample)) == if sample == 0 || sample == 4095 {
            Ok::<u16, Mcp3208Error>(sample)
        } else {
            Err::<u16, Mcp3208Error>(Mcp3208Error::ChecksumMismatch(late_mirror_frame(sample)))
        },
{
    let frame: u32 = late_mirror_frame(sample);
    assert(zero_bits_clear(frame) && sample_of(frame) == sample && (spec_align_mirrored(
        spec_reverse_bits(frame),
    ) == frame <==> (sample == 0 || sample == 4095))) by (bit_vector)
        requires
            sample < 4096,
            frame == late_mirror_frame(sample),
    ;
    assert(forall|index: u8|
        index < CHECKSUM_BIT_COUNT ==> #[trigger] bit(
            field(late_mirror_frame(sample), CHECKSUM_BITS_INDEX, CHECKSUM_BIT_COUNT),
            index,
        ) == bit(sample as u32, (CHECKSUM_BIT_COUNT - 1 - index) as u8)) by (bit_vector)
        requires
            sample < 4096,
    ;
    lemma_alignment(frame);
}

} // verus!
