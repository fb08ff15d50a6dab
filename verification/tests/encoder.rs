use arcane_frames::command::parse_write;
use arcane_frames::errors::EncodeError;
use arcane_frames::frame::encode_frame;

#[test]
fn scenario_write_1_2_567() {
    let data = parse_write("write 1 2 567").unwrap();
    assert_eq!(
        data,
        vec![0x07, 0x01, 0x02, 0x02, 0x02, 0x37, 0x00, 0x00, 0x00, 0x00, 0x00]
    );
}

#[test]
fn scenario_zero_value() {
    let data = parse_write("write 1 1 0").unwrap();
    assert_eq!(
        data,
        vec![0x07, 0x01, 0x01, 0x00, 0x00, 0x00, 0x00, 0x00, 0x00, 0x00, 0x00]
    );
}

#[test]
fn scenario_max_encodable_value() {
    // 72057594037927935 == 2^56 - 1: the largest value that still fits.
    let data = parse_write("write 255 255 72057594037927935").unwrap();
    assert_eq!(data.len(), 11);
    assert_eq!(data[3], 7);
    assert_eq!(
        data,
        vec![0x07, 0xFF, 0xFF, 0x07, 0xFF, 0xFF, 0xFF, 0xFF, 0xFF, 0xFF, 0xFF]
    );
}

#[test]
fn scenario_payload_too_large() {
    // 72057594037927936 == 2^56: one too many significant bytes.
    let r = parse_write("write 255 255 72057594037927936");
    assert_eq!(r.unwrap_err(), EncodeError::PayloadTooLarge);
}

#[test]
fn scenario_three_tokens() {
    let r = parse_write("write 1 2");
    assert_eq!(r.unwrap_err(), EncodeError::MalformedCommand);
}

#[test]
fn scenario_node_id_out_of_range() {
    let r = parse_write("write 300 2 5");
    assert_eq!(r.unwrap_err(), EncodeError::InvalidField);
}

#[test]
fn header_matches_parsed_fields() {
    let data = parse_write("write 9 250 1").unwrap();
    assert_eq!(data.len(), 11);
    assert_eq!(&data[0..4], &[0x07, 9, 250, 1]);
    assert_eq!(data[4], 1);
}

#[test]
fn round_trip_payload_decodes_back() {
    let data = parse_write("write 1 2 567").unwrap();
    let len = data[3] as usize;
    let mut value: u64 = 0;
    for i in 0..len {
        value = value * 256 + data[4 + i] as u64;
    }
    assert_eq!(value, 567);

    let data = parse_write("write 3 4 16909060").unwrap();
    let len = data[3] as usize;
    assert_eq!(len, 4);
    let mut value: u64 = 0;
    for i in 0..len {
        value = value * 256 + data[4 + i] as u64;
    }
    assert_eq!(value, 16909060);
}

#[test]
fn interior_zero_bytes_are_kept() {
    // 65536 == 0x01_00_00: only the leading zeros go, not the interior ones.
    let data = parse_write("write 1 2 65536").unwrap();
    assert_eq!(
        data,
        vec![0x07, 0x01, 0x02, 0x03, 0x01, 0x00, 0x00, 0x00, 0x00, 0x00, 0x00]
    );
}

#[test]
fn malformed_token_counts() {
    assert_eq!(parse_write("").unwrap_err(), EncodeError::MalformedCommand);
    assert_eq!(
        parse_write("   \t  ").unwrap_err(),
        EncodeError::MalformedCommand
    );
    assert_eq!(
        parse_write("write").unwrap_err(),
        EncodeError::MalformedCommand
    );
    assert_eq!(
        parse_write("write 1 2 3 4").unwrap_err(),
        EncodeError::MalformedCommand
    );
}

#[test]
fn invalid_numeric_fields() {
    assert_eq!(
        parse_write("write abc 2 5").unwrap_err(),
        EncodeError::InvalidField
    );
    assert_eq!(
        parse_write("write 1 256 5").unwrap_err(),
        EncodeError::InvalidField
    );
    assert_eq!(
        parse_write("write 1 2 -1").unwrap_err(),
        EncodeError::InvalidField
    );
    assert_eq!(
        parse_write("write 1 2 18446744073709551616").unwrap_err(),
        EncodeError::InvalidField
    );
    assert_eq!(
        parse_write("write 1 2 5x").unwrap_err(),
        EncodeError::InvalidField
    );
    assert_eq!(
        parse_write("write 1 2 +").unwrap_err(),
        EncodeError::InvalidField
    );
}

#[test]
fn keyword_token_is_not_inspected() {
    // Any 4-token line with parseable numeric fields encodes, whatever the
    // first token says.
    let data = parse_write("foo 1 2 567").unwrap();
    assert_eq!(
        data,
        vec![0x07, 0x01, 0x02, 0x02, 0x02, 0x37, 0x00, 0x00, 0x00, 0x00, 0x00]
    );
}

#[test]
fn plus_signs_parse_like_std() {
    let data = parse_write("write +1 +2 +567").unwrap();
    assert_eq!(
        data,
        vec![0x07, 0x01, 0x02, 0x02, 0x02, 0x37, 0x00, 0x00, 0x00, 0x00, 0x00]
    );
}

#[test]
fn whitespace_runs_delimit_tokens() {
    let data = parse_write("write\t 1  2\n567\r\n").unwrap();
    assert_eq!(
        data,
        vec![0x07, 0x01, 0x02, 0x02, 0x02, 0x37, 0x00, 0x00, 0x00, 0x00, 0x00]
    );
}

#[test]
fn encode_frame_boundaries() {
    let data = encode_frame(0, 0, 255).unwrap();
    assert_eq!(
        data,
        vec![0x07, 0x00, 0x00, 0x01, 0xFF, 0x00, 0x00, 0x00, 0x00, 0x00, 0x00]
    );
    let data = encode_frame(0, 0, 256).unwrap();
    assert_eq!(
        data,
        vec![0x07, 0x00, 0x00, 0x02, 0x01, 0x00, 0x00, 0x00, 0x00, 0x00, 0x00]
    );
    assert_eq!(
        encode_frame(0, 0, u64::MAX).unwrap_err(),
        EncodeError::PayloadTooLarge
    );
}

#[test]
fn error_messages() {
    assert_eq!(
        EncodeError::MalformedCommand.message(),
        "Invalid command format"
    );
    assert_eq!(
        EncodeError::InvalidField.message(),
        "Invalid node_id, param_index, or param_value"
    );
    assert_eq!(
        EncodeError::PayloadTooLarge.message(),
        "Payload exceeds maximum length of 7 bytes"
    );
}
