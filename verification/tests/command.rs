use mcp3208::layout::{
    CHANNEL_BITS_INDEX, CHANNEL_BIT_COUNT, CHANNEL_COUNT, CHECKSUM_BITS_INDEX, CHECKSUM_BIT_COUNT,
    FRAME_BIT_COUNT, MODE_BIT_COUNT, MODE_BIT_INDEX, PADDING_BITS_INDEX, PADDING_BIT_COUNT,
    SAMPLE_BITS_INDEX, SAMPLE_BIT_COUNT, SAMPLE_LSB_MIRRORED_INDEX, START_BIT_COUNT,
    START_BIT_INDEX, WAIT_BIT_COUNT, WAIT_BIT_INDEX, ZERO_BIT_COUNT, ZERO_BIT_INDEX,
};
use mcp3208::{
    build_request, encode, frame_from_bytes, frame_to_bytes, mask, zero_validation_mask, Channel,
    ConversionMode, Mcp3208Error,
};

const MODES: [ConversionMode; 2] = [ConversionMode::SingleEnded, ConversionMode::PseudoDifferential];

#[test]
fn layout_constants_have_their_derived_values() {
    assert_eq!(FRAME_BIT_COUNT, 32);
    assert_eq!((START_BIT_COUNT, START_BIT_INDEX), (1, 31));
    assert_eq!((MODE_BIT_COUNT, MODE_BIT_INDEX), (1, 30));
    assert_eq!((CHANNEL_BIT_COUNT, CHANNEL_BITS_INDEX), (3, 27));
    assert_eq!(CHANNEL_COUNT, 8);
    assert_eq!((WAIT_BIT_COUNT, WAIT_BIT_INDEX), (1, 26));
    assert_eq!((ZERO_BIT_COUNT, ZERO_BIT_INDEX), (1, 25));
    assert_eq!((SAMPLE_BIT_COUNT, SAMPLE_BITS_INDEX), (12, 13));
    assert_eq!((CHECKSUM_BIT_COUNT, CHECKSUM_BITS_INDEX), (11, 2));
    assert_eq!((PADDING_BIT_COUNT, PADDING_BITS_INDEX), (2, 0));
    assert_eq!(SAMPLE_LSB_MIRRORED_INDEX, 18);
}

#[test]
fn mask_sets_the_low_bits() {
    assert_eq!(mask(0), 0);
    assert_eq!(mask(1), 1);
    assert_eq!(mask(3), 0b111);
    assert_eq!(mask(11), 0x7ff);
    assert_eq!(mask(12), 0xfff);
    assert_eq!(mask(31), 0x7fff_ffff);
    assert_eq!(mask(32), 0xffff_ffff);
    for length in 0..=32u8 {
        assert_eq!(mask(length) as u64, (1u64 << length) - 1);
        assert_eq!(mask(length).count_ones(), length as u32);
    }
}

#[test]
fn zero_validation_mask_covers_all_but_sample_and_checksum() {
    assert_eq!(zero_validation_mask(), 0xfe00_0003);
    for index in 0..32u8 {
        let set = zero_validation_mask() >> index & 1 == 1;
        assert_eq!(set, !(2..25).contains(&index));
    }
}

#[test]
fn encode_single_ended_channel_zero() {
    assert_eq!(encode(ConversionMode::SingleEnded, 0), Ok([0xc0, 0x00, 0x00, 0x00]));
    assert_eq!(build_request(ConversionMode::SingleEnded, Channel::Ch0), 0xc000_0000);
}

#[test]
fn encode_exact_frames() {
    assert_eq!(encode(ConversionMode::PseudoDifferential, 0), Ok([0x80, 0, 0, 0]));
    assert_eq!(encode(ConversionMode::SingleEnded, 1), Ok([0xc8, 0, 0, 0]));
    assert_eq!(encode(ConversionMode::SingleEnded, 5), Ok([0xe8, 0, 0, 0]));
    assert_eq!(encode(ConversionMode::SingleEnded, 7), Ok([0xf8, 0, 0, 0]));
    assert_eq!(encode(ConversionMode::PseudoDifferential, 7), Ok([0xb8, 0, 0, 0]));
    assert_eq!(build_request(ConversionMode::PseudoDifferential, Channel::Ch3), 0x9800_0000);
}

#[test]
fn encode_sets_start_mode_and_channel_and_nothing_else() {
    for mode in MODES {
        for channel in 0..8u8 {
            let bytes = encode(mode, channel).unwrap();
            let frame = u32::from_be_bytes(bytes);
            let mode_bit = if mode == ConversionMode::SingleEnded { 1 } else { 0 };
            assert_eq!(frame >> 31, 1);
            assert_eq!(frame >> 30 & 1, mode_bit);
            assert_eq!(frame >> 27 & 0b111, channel as u32);
            assert_eq!(frame & 0x07ff_ffff, 0);
            assert_eq!(frame, build_request(mode, Channel::VALUES[channel as usize]));
        }
    }
}

#[test]
fn encode_rejects_channels_out_of_range() {
    for mode in MODES {
        for channel in 8..=255u8 {
            assert_eq!(encode(mode, channel), Err(Mcp3208Error::ChannelOutOfRange(channel)));
        }
    }
}

#[test]
fn channel_from_number() {
    for number in 0..8u8 {
        let channel = Channel::try_from(number).unwrap();
        assert_eq!(channel.index(), number);
        assert_eq!(channel, Channel::VALUES[number as usize]);
    }
    assert_eq!(Channel::try_from(3u8), Ok(Channel::Ch3));
    assert_eq!(Channel::try_from(8u8), Err(Mcp3208Error::ChannelOutOfRange(8)));
    assert_eq!(Channel::try_from(255u8), Err(Mcp3208Error::ChannelOutOfRange(255)));
}

#[test]
fn channel_partner_is_the_other_of_its_pair() {
    assert_eq!(Channel::Ch0.partner(), Channel::Ch1);
    assert_eq!(Channel::Ch1.partner(), Channel::Ch0);
    assert_eq!(Channel::Ch2.partner(), Channel::Ch3);
    assert_eq!(Channel::Ch3.partner(), Channel::Ch2);
    assert_eq!(Channel::Ch4.partner(), Channel::Ch5);
    assert_eq!(Channel::Ch5.partner(), Channel::Ch4);
    assert_eq!(Channel::Ch6.partner(), Channel::Ch7);
    assert_eq!(Channel::Ch7.partner(), Channel::Ch6);
    for channel in Channel::VALUES {
        assert_eq!(channel.partner().partner(), channel);
        assert_ne!(channel.partner(), channel);
        assert_eq!(channel.partner().index(), channel.index() ^ 1);
    }
}

#[test]
fn frames_and_bytes_convert_most_significant_byte_first() {
    assert_eq!(frame_to_bytes(0x1234_5678), [0x12, 0x34, 0x56, 0x78]);
    assert_eq!(frame_from_bytes([0x12, 0x34, 0x56, 0x78]), 0x1234_5678);
    assert_eq!(frame_to_bytes(0), [0, 0, 0, 0]);
    assert_eq!(frame_to_bytes(0xffff_ffff), [0xff, 0xff, 0xff, 0xff]);
    let mut frame: u32 = 1;
    for _ in 0..2000 {
        frame = frame.wrapping_mul(1_664_525).wrapping_add(1_013_904_223);
        assert_eq!(frame_to_bytes(frame), frame.to_be_bytes());
        assert_eq!(frame_from_bytes(frame.to_be_bytes()), frame);
        assert_eq!(frame_from_bytes(frame_to_bytes(frame)), frame);
    }
}
