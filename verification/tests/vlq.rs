use midi_playback::vlq::{write_length, write_variable_length, VLQ_MAX};

fn encoded(value: u32) -> Vec<u8> {
    let mut output = Vec::new();
    write_variable_length(&mut output, value);
    output
}

#[test]
fn zero_is_a_single_zero_byte() {
    assert_eq!(encoded(0), vec![0x00]);
}

#[test]
fn largest_single_byte_value() {
    assert_eq!(encoded(127), vec![0x7F]);
}

#[test]
fn smallest_two_byte_value() {
    assert_eq!(encoded(128), vec![0x81, 0x00]);
}

#[test]
fn smallest_three_byte_value() {
    assert_eq!(encoded(16384), vec![0x81, 0x80, 0x00]);
}

#[test]
fn largest_two_byte_value() {
    assert_eq!(encoded(0x3FFF), vec![0xFF, 0x7F]);
}

#[test]
fn largest_three_byte_value() {
    assert_eq!(encoded(0x1F_FFFF), vec![0xFF, 0xFF, 0x7F]);
}

#[test]
fn smallest_four_byte_value() {
    assert_eq!(encoded(0x20_0000), vec![0x81, 0x80, 0x80, 0x00]);
}

#[test]
fn largest_four_byte_value() {
    assert_eq!(VLQ_MAX, 0x0FFF_FFFF);
    assert_eq!(encoded(VLQ_MAX), vec![0xFF, 0xFF, 0xFF, 0x7F]);
}

#[test]
fn values_beyond_four_bytes_take_five() {
    assert_eq!(encoded(0x1000_0000), vec![0x81, 0x80, 0x80, 0x80, 0x00]);
    assert_eq!(encoded(u32::MAX), vec![0x8F, 0xFF, 0xFF, 0xFF, 0x7F]);
}

#[test]
fn mixed_groups_come_most_significant_first() {
    // 0x0123_4567 has the groups 0x09, 0x0D, 0x0A, 0x67.
    assert_eq!(encoded(0x0123_4567), vec![0x89, 0x8D, 0x8A, 0x67]);
}

#[test]
fn encoding_is_appended_to_what_is_there() {
    let mut output = vec![0xAA, 0xBB];
    write_variable_length(&mut output, 300);
    assert_eq!(output, vec![0xAA, 0xBB, 0x82, 0x2C]);
}

#[test]
fn only_the_last_byte_has_the_top_bit_clear() {
    for value in [0u32, 1, 127, 128, 255, 16383, 16384, 1 << 21, VLQ_MAX, u32::MAX] {
        let bytes = encoded(value);
        let (last, head) = bytes.split_last().unwrap();
        assert!(*last < 0x80);
        assert!(head.iter().all(|byte| *byte >= 0x80));
    }
}

#[test]
fn groups_spell_the_value() {
    for value in [0u32, 1, 127, 128, 255, 16383, 16384, 1 << 21, VLQ_MAX, u32::MAX] {
        let spelled = encoded(value)
            .iter()
            .fold(0u64, |acc, byte| acc * 128 + u64::from(byte & 0x7F));
        assert_eq!(spelled, u64::from(value));
    }
}

fn length(value: usize) -> Vec<u8> {
    let mut output = Vec::new();
    write_length(&mut output, value);
    output
}

#[test]
fn a_length_is_written_like_any_quantity() {
    for value in [0u32, 1, 127, 128, 200, 16383, 16384, 0x1F_FFFF, 0x20_0000, VLQ_MAX, u32::MAX] {
        assert_eq!(length(value as usize), encoded(value));
    }
}

#[test]
fn a_length_beyond_32_bits_takes_as_many_bytes_as_it_needs() {
    if let Ok(value) = usize::try_from(1u64 << 35) {
        assert_eq!(length(value), vec![0x81, 0x80, 0x80, 0x80, 0x80, 0x00]);
    }
    if let Ok(value) = usize::try_from(u64::MAX) {
        assert_eq!(length(value), vec![0x81, 0xFF, 0xFF, 0xFF, 0xFF, 0xFF, 0xFF, 0xFF, 0xFF, 0x7F]);
    }
}

#[test]
fn a_length_is_appended_to_what_is_there() {
    let mut output = vec![0xF0];
    write_length(&mut output, 5);
    assert_eq!(output, vec![0xF0, 0x05]);
}
