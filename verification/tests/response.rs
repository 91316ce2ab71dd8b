use mcp3208::{
    decode, encode, parse_response, response_frame, reverse_bits, ConversionMode, Mcp3208Error,
};

/// The frame of a sample, built bit by bit: the sample at bits 24 to 13 and,
/// at bit 12 downwards, its bits 1 to 11 in that order.
fn frame_of(sample: u16) -> u32 {
    let mut frame = (sample as u32) << 13;
    for distance in 1..=11 {
        let sample_bit = (sample as u32) >> distance & 1;
        frame |= sample_bit << (13 - distance);
    }
    frame
}

const ZERO_BITS: [u8; 9] = [0, 1, 25, 26, 27, 28, 29, 30, 31];

#[test]
fn mcp3208_read_adc_single() {
    let request = encode(ConversionMode::SingleEnded, 0).unwrap();
    assert_eq!(request, [0xc0, 0, 0, 0]);
    decode(response_frame(1234).to_be_bytes()).unwrap();

    if let Ok(_) = encode(ConversionMode::SingleEnded, 8) {
        panic!("read from adc > 7");
    }
}

#[test]
fn decode_all_zero_frame() {
    assert_eq!(decode([0, 0, 0, 0]), Ok(0));
    assert_eq!(parse_response(0), Ok(0));
}

#[test]
fn decode_sample_4095() {
    assert_eq!(parse_response(0x01ff_fffc), Ok(4095));
    assert_eq!(decode([0x01, 0xff, 0xff, 0xfc]), Ok(4095));
}

#[test]
fn decode_exact_frames() {
    assert_eq!(parse_response(0x0000_2000), Ok(1));
    assert_eq!(parse_response(0x0000_5000), Ok(2));
    assert_eq!(parse_response(0x0000_7000), Ok(3));
    assert_eq!(parse_response(0x0100_0004), Ok(0x800));
    assert_eq!(parse_response(0x0100_2004), Ok(0x801));
    assert_eq!(decode([0x00, 0x00, 0x50, 0x00]), Ok(2));
}

#[test]
fn response_frame_exact_values() {
    assert_eq!(response_frame(0), 0);
    assert_eq!(response_frame(1), 0x0000_2000);
    assert_eq!(response_frame(2), 0x0000_5000);
    assert_eq!(response_frame(0x800), 0x0100_0004);
    assert_eq!(response_frame(4095), 0x01ff_fffc);
}

#[test]
fn every_sample_round_trips() {
    for sample in 0..4096u16 {
        let frame = frame_of(sample);
        assert_eq!(response_frame(sample), frame);
        assert_eq!(parse_response(frame), Ok(sample));
        assert_eq!(decode(frame.to_be_bytes()), Ok(sample));
    }
}

#[test]
fn only_response_frames_decode() {
    let mut frame: u32 = 7;
    for _ in 0..20000 {
        frame = frame.wrapping_mul(1_664_525).wrapping_add(1_013_904_223);
        let candidate = frame & 0x01ff_fffc;
        match parse_response(candidate) {
            Ok(sample) => assert_eq!(candidate, frame_of(sample)),
            Err(error) => assert_eq!(error, Mcp3208Error::ChecksumMismatch(candidate)),
        }
    }
}

#[test]
fn set_zero_bit_is_malformed() {
    for sample in 0..4096u16 {
        for index in ZERO_BITS {
            let corrupted = frame_of(sample) ^ (1 << index);
            assert_eq!(parse_response(corrupted), Err(Mcp3208Error::MalformedResponse(corrupted)));
        }
    }
    assert_eq!(parse_response(0x8000_0000), Err(Mcp3208Error::MalformedResponse(0x8000_0000)));
    assert_eq!(decode([0, 0, 0, 1]), Err(Mcp3208Error::MalformedResponse(1)));
    assert_eq!(decode([0xc0, 0, 0, 0]), Err(Mcp3208Error::MalformedResponse(0xc000_0000)));
}

#[test]
fn flipped_checksum_bit_is_a_mismatch() {
    for sample in 0..4096u16 {
        for index in 2..13 {
            let corrupted = frame_of(sample) ^ (1 << index);
            assert_eq!(parse_response(corrupted), Err(Mcp3208Error::ChecksumMismatch(corrupted)));
        }
    }
    assert_eq!(parse_response(0x0000_0004), Err(Mcp3208Error::ChecksumMismatch(4)));
    assert_eq!(decode([0x01, 0xff, 0xff, 0xf8]), Err(Mcp3208Error::ChecksumMismatch(0x01ff_fff8)));
}

#[test]
fn flipped_sample_bit_is_a_mismatch_but_for_the_lowest() {
    for sample in 0..4096u16 {
        for index in 14..25 {
            let corrupted = frame_of(sample) ^ (1 << index);
            assert_eq!(parse_response(corrupted), Err(Mcp3208Error::ChecksumMismatch(corrupted)));
        }
        assert_eq!(parse_response(frame_of(sample) ^ (1 << 13)), Ok(sample ^ 1));
    }
}

#[test]
fn checksum_shifted_by_one_place_is_a_mismatch() {
    // sample 1 with its low eleven bits mirrored into the checksum field
    assert_eq!(parse_response(0x0000_3000), Err(Mcp3208Error::ChecksumMismatch(0x0000_3000)));
}

#[test]
fn malformed_is_reported_before_mismatch() {
    assert_eq!(parse_response(0xffff_ffff), Err(Mcp3208Error::MalformedResponse(0xffff_ffff)));
    assert_eq!(parse_response(0x0200_0004), Err(Mcp3208Error::MalformedResponse(0x0200_0004)));
}

#[test]
fn reverse_bits_reverses() {
    assert_eq!(reverse_bits(0), 0);
    assert_eq!(reverse_bits(1), 0x8000_0000);
    assert_eq!(reverse_bits(0x8000_0000), 1);
    assert_eq!(reverse_bits(0x0000_2000), 0x0004_0000);
    assert_eq!(reverse_bits(0x1234_5678), 0x1e6a_2c48);
    let mut value: u32 = 3;
    for _ in 0..5000 {
        value = value.wrapping_mul(1_664_525).wrapping_add(1_013_904_223);
        assert_eq!(reverse_bits(value), value.reverse_bits());
        assert_eq!(reverse_bits(reverse_bits(value)), value);
    }
}
