//! Building command frames and decoding response frames.
//!
//! A response carries the sample twice: most significant bit first, and
//! then once more in the opposite order. The two copies share the sample's
//! least significant bit, so the response reads the same in both directions
//! around that bit. Decoding checks this by reversing the whole frame and
//! shifting the reversed frame back onto the frame itself.

use crate::channel::{Channel, ConversionMode};
use crate::error::Mcp3208Error;
use crate::layout::{
    bit, field, zero_validation_mask, CHANNEL_BITS_INDEX, CHANNEL_BIT_COUNT,
    CHANNEL_COUNT, CHECKSUM_BITS_INDEX, CHECKSUM_BIT_COUNT, FRAME_BIT_COUNT, MODE_BIT_COUNT,
    MODE_BIT_INDEX, SAMPLE_BITS_INDEX, SAMPLE_BIT_COUNT, SAMPLE_LSB_MIRRORED_INDEX,
    START_BIT_COUNT, START_BIT_INDEX,
};
use vstd::prelude::*;

verus! {

/// The value of the mode bit: one for single-ended conversion.
pub open spec fn mode_bit(mode: ConversionMode) -> u32 {
    match mode {
        ConversionMode::SingleEnded => 1,
        ConversionMode::PseudoDifferential => 0,
    }
}

/// The command frame for a conversion: the start bit, the mode bit and the
/// number of the channel, each at its place, and nothing else.
pub open spec fn command_frame(mode: ConversionMode, channel: Channel) -> u32 {
    1u32 << START_BIT_INDEX | mode_bit(mode) << MODE_BIT_INDEX | (channel.index() as u32)
        << CHANNEL_BITS_INDEX
}

/// In the command frame of any mode and channel the start bit is one, the
/// mode bit is one exactly for single-ended conversion, the channel field
/// holds the number of the channel, and every other bit is zero.
pub proof fn lemma_command_frame_fields(mode: ConversionMode, channel: Channel)
    ensures
        field(command_frame(mode, channel), START_BIT_INDEX, START_BIT_COUNT) == 1,
        field(command_frame(mode, channel), MODE_BIT_INDEX, MODE_BIT_COUNT) == mode_bit(mode),
        field(command_frame(mode, channel), CHANNEL_BITS_INDEX, CHANNEL_BIT_COUNT)
            == channel.index(),
        field(command_frame(mode, channel), 0, CHANNEL_BITS_INDEX) == 0,
{
    let mode_value: u32 = mode_bit(mode);
    let number: u32 = channel.index() as u32;
    let frame: u32 = command_frame(mode, channel);
    assert(field(frame, START_BIT_INDEX, START_BIT_COUNT) == 1 && field(
        frame,
        MODE_BIT_INDEX,
        MODE_BIT_COUNT,
    ) == mode_value && field(frame, CHANNEL_BITS_INDEX, CHANNEL_BIT_COUNT) == number && field(
        frame,
        0,
        CHANNEL_BITS_INDEX,
    ) == 0) by (bit_vector)
        requires
            mode_value <= 1,
            number < 8,
            frame == 1u32 << START_BIT_INDEX | mode_value << MODE_BIT_INDEX | number
                << CHANNEL_BITS_INDEX,
    ;
}

/// Builds the command frame that asks for one conversion of `channel`.
///
/// The start bit is set, the mode bit says whether the conversion is
/// single-ended, the channel field holds the number of the channel, and
/// every bit below the channel field is zero.
#[verifier::when_used_as_spec(command_frame)]
pub fn build_request(mode: ConversionMode, channel: Channel) -> (request: u32)
    ensures
        request == command_frame(mode, channel),
        field(request, START_BIT_INDEX, START_BIT_COUNT) == 1,
        field(request, MODE_BIT_INDEX, MODE_BIT_COUNT) == mode_bit(mode),
        field(request, CHANNEL_BITS_INDEX, CHANNEL_BIT_COUNT) == channel.index(),
        field(request, 0, CHANNEL_BITS_INDEX) == 0,
{
    let start_bits: u32 = 1u32 << START_BIT_INDEX;
    let mode_value: u32 = match mode {
        ConversionMode::SingleEnded => 1,
        ConversionMode::PseudoDifferential => 0,
    };
    let mode_bits: u32 = mode_value << MODE_BIT_INDEX;
    let channel_selection_bits: u32 = (channel.index() as u32) << CHANNEL_BITS_INDEX;
    proof {
        lemma_command_frame_fields(mode, channel);
    }
    start_bits | mode_bits | channel_selection_bits
}

/// Whether `reversed` holds the bits of `value` in the opposite order: the
/// least significant bit of one is the most significant bit of the other.
pub open spec fn is_reversal(reversed: u32, value: u32) -> bool {
    forall|index: u8|
        index < FRAME_BIT_COUNT ==> #[trigger] bit(reversed, index) == bit(
            value,
            (FRAME_BIT_COUNT - 1 - index) as u8,
        )
}

/// `value` with each group of `width` bits exchanged with its neighbour;
/// `pattern` marks the lower group of each pair.
pub open spec fn swap_groups(value: u32, width: u8, pattern: u32) -> u32 {
    ((value >> width) & pattern) | ((value & pattern) << width)
}

/// The reversal of `value` in closed form: neighbouring bits are exchanged,
/// then pairs, nibbles, bytes and halves.
pub open spec fn spec_reverse_bits(value: u32) -> u32 {
    swap_groups(
        swap_groups(
            swap_groups(
                swap_groups(swap_groups(value, 1, 0x5555_5555), 2, 0x3333_3333),
                4,
                0x0f0f_0f0f,
            ),
            8,
            0x00ff_00ff,
        ),
        16,
        0x0000_ffff,
    )
}

/// The closed form is the reversal.
pub proof fn lemma_reverse_bits(value: u32)
    ensures
        is_reversal(spec_reverse_bits(value), value),
{
    assert(forall|index: u8|
        index < FRAME_BIT_COUNT ==> #[trigger] bit(spec_reverse_bits(value), index) == bit(
            value,
            (FRAME_BIT_COUNT - 1 - index) as u8,
        )) by (bit_vector);
}

/// Reverses the order of the bits of a frame.
#[verifier::when_used_as_spec(spec_reverse_bits)]
pub fn reverse_bits(value: u32) -> (reversed: u32)
    ensures
        is_reversal(reversed, value),
        reversed == spec_reverse_bits(value),
{
    let pairs: u32 = ((value >> 1) & 0x5555_5555) | ((value & 0x5555_5555) << 1);
    let nibbles: u32 = ((pairs >> 2) & 0x3333_3333) | ((pairs & 0x3333_3333) << 2);
    let bytes: u32 = ((nibbles >> 4) & 0x0f0f_0f0f) | ((nibbles & 0x0f0f_0f0f) << 4);
    let halves: u32 = ((bytes >> 8) & 0x00ff_00ff) | ((bytes & 0x00ff_00ff) << 8);
    proof {
        lemma_reverse_bits(value);
    }
    ((halves >> 16) & 0x0000_ffff) | ((halves & 0x0000_ffff) << 16)
}

/// The reversed frame shifted so that the sample's least significant bit is
/// back at its own index. The direction depends on which side of the
/// frame's middle that bit lies.
pub open spec fn spec_align_mirrored(reversed: u32) -> u32 {
    if SAMPLE_BITS_INDEX <= SAMPLE_LSB_MIRRORED_INDEX {
        reversed >> ((SAMPLE_LSB_MIRRORED_INDEX - SAMPLE_BITS_INDEX) as u8)
    } else {
        reversed << ((SAMPLE_BITS_INDEX - SAMPLE_LSB_MIRRORED_INDEX) as u8)
    }
}

#[verifier::when_used_as_spec(spec_align_mirrored)]
fn align_mirrored(reversed: u32) -> (aligned: u32)
    ensures
        aligned == spec_align_mirrored(reversed),
{
    if SAMPLE_BITS_INDEX <= SAMPLE_LSB_MIRRORED_INDEX {
        reversed >> (SAMPLE_LSB_MIRRORED_INDEX - SAMPLE_BITS_INDEX)
    } else {
        reversed << (SAMPLE_BITS_INDEX - SAMPLE_LSB_MIRRORED_INDEX)
    }
}

/// Whether every bit outside the sample and its checksum is zero.
pub open spec fn zero_bits_clear(frame: u32) -> bool {
    frame & zero_validation_mask() == 0
}

/// Whether the two bits at `distance` below and above the sample's least
/// significant bit are equal.
pub open spec fn mirrored_pair(frame: u32, distance: u8) -> bool {
    bit(frame, (SAMPLE_BITS_INDEX - distance) as u8) == bit(
        frame,
        (SAMPLE_BITS_INDEX + distance) as u8,
    )
}

/// Whether the checksum is the mirror image of the sample: each checksum bit
/// equals the sample bit at the same distance from the sample's least
/// significant bit.
pub open spec fn checksum_consistent(frame: u32) -> bool {
    forall|distance: u8|
        0 < distance <= CHECKSUM_BIT_COUNT ==> #[trigger] mirrored_pair(frame, distance)
}

/// The sample field of a frame.
pub open spec fn sample_of(frame: u32) -> u16 {
    field(frame, SAMPLE_BITS_INDEX, SAMPLE_BIT_COUNT) as u16
}

/// What decoding a response frame gives.
pub open spec fn spec_parse_response(frame: u32) -> Result<u16, Mcp3208Error> {
    if !zero_bits_clear(frame) {
        Err(Mcp3208Error::MalformedResponse(frame))
    } else if !checksum_consistent(frame) {
        Err(Mcp3208Error::ChecksumMismatch(frame))
    } else {
        Ok(sample_of(frame))
    }
}

/// On a frame whose mandatory zero bits are clear, the reversed and
/// realigned frame equals the frame exactly when the checksum mirrors the
/// sample.
pub proof fn lemma_alignment(frame: u32)
    requires
        zero_bits_clear(frame),
    ensures
        spec_align_mirrored(spec_reverse_bits(frame)) == frame <==> checksum_consistent(frame),
{
    if spec_align_mirrored(spec_reverse_bits(frame)) == frame {
        assert(forall|distance: u8|
            0 < distance <= CHECKSUM_BIT_COUNT ==> #[trigger] mirrored_pair(frame, distance))
            by (bit_vector)
            requires
                zero_bits_clear(frame),
                spec_align_mirrored(spec_reverse_bits(frame)) == frame,
        ;
    }
    if checksum_consistent(frame) {
        assert(spec_align_mirrored(spec_reverse_bits(frame)) == frame) by (bit_vector)
            requires
                zero_bits_clear(frame),
                mirrored_pair(frame, 1),
                mirrored_pair(frame, 2),
                mirrored_pair(frame, 3),
                mirrored_pair(frame, 4),
                mirrored_pair(frame, 5),
                mirrored_pair(frame, 6),
                mirrored_pair(frame, 7),
                mirrored_pair(frame, 8),
                mirrored_pair(frame, 9),
                mirrored_pair(frame, 10),
                mirrored_pair(frame, 11),
        ;
    }
}

/// Validates a response frame and extracts its sample.
///
/// Fails with `MalformedResponse` if a bit outside the sample and its
/// checksum is set, and otherwise with `ChecksumMismatch` if the checksum is
/// not the mirror image of the sample. Both errors hold the frame.
pub fn parse_response(response_bits: u32) -> (result: Result<u16, Mcp3208Error>)
    ensures
        result == spec_parse_response(response_bits),
        result matches Ok(sample) ==> sample < 4096,
{
    if response_bits & zero_validation_mask() != 0 {
        return Err(Mcp3208Error::MalformedResponse(response_bits));
    }
    let reversed: u32 = reverse_bits(response_bits);
    let checksum: u32 = align_mirrored(reversed);
    proof {
        lemma_alignment(response_bits);
    }
    if response_bits != checksum {
        return Err(Mcp3208Error::ChecksumMismatch(response_bits));
    }
    let sample: u32 = response_bits >> SAMPLE_BITS_INDEX;
    assert(sample == field(response_bits, SAMPLE_BITS_INDEX, SAMPLE_BIT_COUNT) && sample < 4096)
        by (bit_vector)
        requires
            zero_bits_clear(response_bits),
            sample == response_bits >> SAMPLE_BITS_INDEX,
    ;
    Ok(sample as u16)
}

/// The frame that the device sends for `sample`: the sample in its field,
/// followed by its mirror image, and zero everywhere else.
pub open spec fn spec_response_frame(sample: u16) -> u32 {
    ((sample as u32) << SAMPLE_BITS_INDEX) | spec_align_mirrored(
        spec_reverse_bits((sample as u32) << SAMPLE_BITS_INDEX),
    )
}

/// The response frame of a sample holds the sample in its sample field,
/// the sample's bits above the least significant one in opposite order in
/// its checksum field, and zero in every other bit.
pub proof fn lemma_response_frame(sample: u16)
    requires
        sample < 4096,
    ensures
        zero_bits_clear(spec_response_frame(sample)),
        sample_of(spec_response_frame(sample)) == sample,
        checksum_consistent(spec_response_frame(sample)),
        forall|index: u8|
            index < CHECKSUM_BIT_COUNT ==> #[trigger] bit(
                field(spec_response_frame(sample), CHECKSUM_BITS_INDEX, CHECKSUM_BIT_COUNT),
                index,
            ) == bit(sample as u32, (SAMPLE_BIT_COUNT - 1 - index) as u8),
{
    assert(zero_bits_clear(spec_response_frame(sample)) && sample_of(spec_response_frame(sample))
        == sample) by (bit_vector)
        requires
            sample < 4096,
    ;
    assert(forall|distance: u8|
        0 < distance <= CHECKSUM_BIT_COUNT ==> #[trigger] mirrored_pair(
            spec_response_frame(sample),
            distance,
        )) by (bit_vector)
        requires
            sample < 4096,
    ;
    assert(forall|index: u8|
        index < CHECKSUM_BIT_COUNT ==> #[trigger] bit(
            field(spec_response_frame(sample), CHECKSUM_BITS_INDEX, CHECKSUM_BIT_COUNT),
            index,
        ) == bit(sample as u32, (SAMPLE_BIT_COUNT - 1 - index) as u8)) by (bit_vector)
        requires
            sample < 4096,
    ;
}

/// Builds the response frame that a device sends for `sample`.
///
/// The sample field holds `sample`, each checksum bit repeats the sample
/// bit at the same distance from the sample's least significant bit, and
/// all other bits are zero; so the frame decodes to `sample`.
#[verifier::when_used_as_spec(spec_response_frame)]
pub fn response_frame(sample: u16) -> (frame: u32)
    requires
        sample < 4096,
    ensures
        frame == spec_response_frame(sample),
        zero_bits_clear(frame),
        sample_of(frame) == sample,
        checksum_consistent(frame),
        forall|index: u8|
            index < CHECKSUM_BIT_COUNT ==> #[trigger] bit(
                field(frame, CHECKSUM_BITS_INDEX, CHECKSUM_BIT_COUNT),
                index,
            ) == bit(sample as u32, (SAMPLE_BIT_COUNT - 1 - index) as u8),
        spec_parse_response(frame) == Ok::<u16, Mcp3208Error>(sample),
{
    let placed: u32 = (sample as u32) << SAMPLE_BITS_INDEX;
    proof {
        lemma_response_frame(sample);
    }
    placed | align_mirrored(reverse_bits(placed))
}

/// The four bytes of a frame, most significant byte first.
pub open spec fn spec_to_be_bytes(frame: u32) -> Seq<u8> {
    seq![
        ((frame >> 24) & 0xff) as u8,
        ((frame >> 16) & 0xff) as u8,
        ((frame >> 8) & 0xff) as u8,
        (frame & 0xff) as u8,
    ]
}

/// The frame that four bytes stand for, most significant byte first.
pub open spec fn spec_from_be_bytes(bytes: Seq<u8>) -> u32
    recommends
        bytes.len() == 4,
{
    (bytes[0] as u32) << 24 | (bytes[1] as u32) << 16 | (bytes[2] as u32) << 8 | (bytes[3] as u32)
}

/// Splits a frame into the four bytes that go over the bus, most
/// significant byte first.
pub fn frame_to_bytes(frame: u32) -> (bytes: [u8; 4])
    ensures
        bytes@ == spec_to_be_bytes(frame),
        spec_from_be_bytes(bytes@) == frame,
        frame == bytes[0] * 0x100_0000 + bytes[1] * 0x1_0000 + bytes[2] * 0x100 + bytes[3],
{
    let first: u32 = (frame >> 24) & 0xff;
    let second: u32 = (frame >> 16) & 0xff;
    let third: u32 = (frame >> 8) & 0xff;
    let fourth: u32 = frame & 0xff;
    assert(first < 256 && second < 256 && third < 256 && fourth < 256 && frame == first << 24
        | second << 16 | third << 8 | fourth && frame == first * 0x100_0000 + second * 0x1_0000
        + third * 0x100 + fourth) by (bit_vector)
        requires
            first == (frame >> 24) & 0xff,
            second == (frame >> 16) & 0xff,
            third == (frame >> 8) & 0xff,
            fourth == frame & 0xff,
    ;
    let bytes: [u8; 4] = [first as u8, second as u8, third as u8, fourth as u8];
    assert(bytes@ =~= spec_to_be_bytes(frame));
    bytes
}

/// Joins the four bytes that came over the bus, most significant byte
/// first, into a frame.
pub fn frame_from_bytes(bytes: [u8; 4]) -> (frame: u32)
    ensures
        frame == spec_from_be_bytes(bytes@),
        spec_to_be_bytes(frame) == bytes@,
        frame == bytes[0] * 0x100_0000 + bytes[1] * 0x1_0000 + bytes[2] * 0x100 + bytes[3],
{
    let first: u32 = bytes[0] as u32;
    let second: u32 = bytes[1] as u32;
    let third: u32 = bytes[2] as u32;
    let fourth: u32 = bytes[3] as u32;
    let frame: u32 = first << 24 | second << 16 | third << 8 | fourth;
    assert(first == (frame >> 24) & 0xff && second == (frame >> 16) & 0xff && third == (frame >> 8)
        & 0xff && fourth == frame & 0xff && frame == first * 0x100_0000 + second * 0x1_0000 + third
        * 0x100 + fourth) by (bit_vector)
        requires
            first < 256,
            second < 256,
            third < 256,
            fourth < 256,
            frame == first << 24 | second << 16 | third << 8 | fourth,
    ;
    assert(spec_to_be_bytes(frame) =~= bytes@);
    frame
}

/// Encodes a conversion request as the four bytes to send.
///
/// Succeeds exactly for the channel numbers 0 to 7, with the bytes of the
/// command frame for that channel; any other number is handed back in
/// `ChannelOutOfRange`.
pub fn encode(mode: ConversionMode, channel: u8) -> (result: Result<[u8; 4], Mcp3208Error>)
    ensures
        result is Ok <==> channel <= 7,
        match result {
            Ok(bytes) => {
                let frame = spec_from_be_bytes(bytes@);
                &&& channel < CHANNEL_COUNT
                &&& bytes@ == spec_to_be_bytes(frame)
                &&& frame == command_frame(mode, Channel::VALUES[channel as int])
                &&& field(frame, START_BIT_INDEX, START_BIT_COUNT) == 1
                &&& field(frame, MODE_BIT_INDEX, MODE_BIT_COUNT) == mode_bit(mode)
                &&& field(frame, CHANNEL_BITS_INDEX, CHANNEL_BIT_COUNT) == channel
                &&& field(frame, 0, CHANNEL_BITS_INDEX) == 0
            },
            Err(error) => channel >= CHANNEL_COUNT && error == Mcp3208Error::ChannelOutOfRange(
                channel,
            ),
        },
{
    match Channel::try_from(channel) {
        Ok(selected) => Ok(frame_to_bytes(build_request(mode, selected))),
        Err(error) => Err(error),
    }
}

/// Decodes the four bytes of a response into the sample they carry.
///
/// The bytes are joined most significant byte first and the frame is
/// validated as `parse_response` does.
pub fn decode(bytes: [u8; 4]) -> (result: Result<u16, Mcp3208Error>)
    ensures
        result == spec_parse_response(spec_from_be_bytes(bytes@)),
        result matches Ok(sample) ==> sample < 4096,
{
    parse_response(frame_from_bytes(bytes))
}

} // verus!
