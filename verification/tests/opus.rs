use momo::moq::opus::{build_opus_head, parse_opus_head, CHANNELS, SAMPLE_RATE};

#[test]
fn test_build_opus_head_format() {
    let head = build_opus_head(SAMPLE_RATE, CHANNELS);
    assert_eq!(head.len(), 19);
    assert_eq!(&head[0..8], b"OpusHead");
    assert_eq!(head[8], 1);
    assert_eq!(head[9], CHANNELS);
    assert_eq!(&head[10..12], &[0x00, 0x00]);
    assert_eq!(&head[12..16], &SAMPLE_RATE.to_le_bytes());
    assert_eq!(&head[16..18], &[0x00, 0x00]);
    assert_eq!(head[18], 0);
}

#[test]
fn test_parse_opus_head_round_trip() {
    let head = build_opus_head(SAMPLE_RATE, CHANNELS);
    let parsed = parse_opus_head(&head).expect("パースに成功すること");
    assert_eq!(parsed.channel_count, CHANNELS);
    assert_eq!(parsed.input_sample_rate, SAMPLE_RATE);
}

#[test]
fn test_parse_opus_head_rejects_short_data() {
    assert!(parse_opus_head(&[0u8; 18]).is_err());
}

#[test]
fn test_parse_opus_head_rejects_invalid_magic() {
    let mut head = build_opus_head(SAMPLE_RATE, CHANNELS);
    head[0] = b'X';
    assert!(parse_opus_head(&head).is_err());
}

#[test]
fn test_parse_opus_head_rejects_zero_channels() {
    let mut head = build_opus_head(SAMPLE_RATE, CHANNELS);
    head[9] = 0;
    assert!(parse_opus_head(&head).is_err());
}

// Own cases.

#[test]
fn opus_head_round_trip_for_mono_44100() {
    let head = build_opus_head(44_100, 1);
    assert_eq!(&head[12..16], &44_100u32.to_le_bytes());
    let parsed = parse_opus_head(&head).unwrap();
    assert_eq!(parsed.channel_count, 1);
    assert_eq!(parsed.input_sample_rate, 44_100);
}

#[test]
fn parse_opus_head_ignores_bytes_after_the_header() {
    let mut head = build_opus_head(SAMPLE_RATE, CHANNELS);
    head.extend_from_slice(&[9, 9, 9]);
    assert_eq!(parse_opus_head(&head).unwrap().channel_count, CHANNELS);
}

#[test]
fn opus_head_errors_carry_their_messages() {
    let mut head = build_opus_head(SAMPLE_RATE, CHANNELS);
    head[8] = 3;
    assert_eq!(parse_opus_head(&head).unwrap_err().to_string(), "media error: unsupported OpusHead version: 3");
    head[8] = 1;
    head[9] = 0;
    assert_eq!(parse_opus_head(&head).unwrap_err().to_string(), "media error: OpusHead channel count is 0");
    assert_eq!(parse_opus_head(b"OpusHea").unwrap_err().to_string(), "media error: invalid OpusHead magic");
}
