use momo::moq::h264::{
    annex_b_to_length_prefixed, avc_codec_string_from_sps, build_avc_decoder_config_record,
    length_prefixed_to_annex_b, nals_to_annex_b, parse_avc_decoder_config_record, split_annex_b,
    LENGTH_SIZE,
};

fn sps() -> Vec<u8> {
    vec![0x67, 0x42, 0xC0, 0x1F, 0x8C, 0x8D, 0x40]
}

fn pps() -> Vec<u8> {
    vec![0x68, 0xCE, 0x3C, 0x80]
}

#[test]
fn test_avc_decoder_config_record_round_trip() {
    let sps_list = vec![sps()];
    let pps_list = vec![pps()];
    let record =
        build_avc_decoder_config_record(&sps_list, &pps_list).expect("組み立てに成功すること");
    let parsed = parse_avc_decoder_config_record(&record).expect("パースに成功すること");
    assert_eq!(parsed.sps, sps_list);
    assert_eq!(parsed.pps, pps_list);
    assert_eq!(parsed.length_size, LENGTH_SIZE);
}

#[test]
fn test_avc_decoder_config_record_baseline_has_no_extension() {
    let record = build_avc_decoder_config_record(&[sps()], &[pps()]).expect("組み立てに成功すること");
    assert_eq!(record.len(), 22);
}

#[test]
fn test_avc_decoder_config_record_rejects_empty_sps() {
    assert!(build_avc_decoder_config_record(&[], &[pps()]).is_err());
}

#[test]
fn test_parse_rejects_unsupported_version() {
    let mut record =
        build_avc_decoder_config_record(&[sps()], &[pps()]).expect("組み立てに成功すること");
    record[0] = 2;
    assert!(parse_avc_decoder_config_record(&record).is_err());
}

#[test]
fn test_parse_rejects_truncated_record() {
    let record = build_avc_decoder_config_record(&[sps()], &[pps()]).expect("組み立てに成功すること");
    assert!(parse_avc_decoder_config_record(&record[..record.len() - 3]).is_err());
}

#[test]
fn test_avc_codec_string_from_sps() {
    assert_eq!(avc_codec_string_from_sps(&sps()).expect("組み立てに成功すること"), "avc1.42C01F");
}

#[test]
fn test_avc_codec_string_rejects_short_sps() {
    assert!(avc_codec_string_from_sps(&[0x67]).is_err());
}

#[test]
fn test_split_annex_b_with_four_byte_start_code() {
    let data = [0, 0, 0, 1, 0x67, 0x42, 0, 0, 0, 1, 0x68, 0xCE];
    let nals = split_annex_b(&data);
    assert_eq!(nals, vec![vec![0x67, 0x42], vec![0x68, 0xCE]]);
}

#[test]
fn test_split_annex_b_with_three_byte_start_code() {
    let data = [0, 0, 1, 0x67, 0x42, 0, 0, 1, 0x68, 0xCE];
    let nals = split_annex_b(&data);
    assert_eq!(nals, vec![vec![0x67, 0x42], vec![0x68, 0xCE]]);
}

#[test]
fn test_split_annex_b_ignores_trailing_zeros() {
    let data = [0, 0, 0, 1, 0x65, 0x80, 0x00, 0x00];
    let nals = split_annex_b(&data);
    assert_eq!(nals, vec![vec![0x65, 0x80]]);
}

#[test]
fn test_annex_b_and_length_prefixed_round_trip() {
    let data = [0, 0, 0, 1, 0x67, 0x42, 0, 0, 0, 1, 0x68, 0xCE];
    let length_prefixed = annex_b_to_length_prefixed(&data).expect("変換に成功すること");
    assert_eq!(length_prefixed, vec![0, 0, 0, 2, 0x67, 0x42, 0, 0, 0, 2, 0x68, 0xCE]);
    let annex_b = length_prefixed_to_annex_b(&length_prefixed, LENGTH_SIZE).expect("変換に成功すること");
    assert_eq!(annex_b, data);
}

#[test]
fn test_annex_b_to_length_prefixed_empty() {
    assert!(annex_b_to_length_prefixed(&[]).expect("変換に成功すること").is_empty());
}

#[test]
fn test_length_prefixed_rejects_truncated_length() {
    assert!(length_prefixed_to_annex_b(&[0, 0], LENGTH_SIZE).is_err());
}

#[test]
fn test_length_prefixed_rejects_truncated_nal() {
    assert!(length_prefixed_to_annex_b(&[0, 0, 0, 4, 0x65], LENGTH_SIZE).is_err());
}

#[test]
fn test_nals_to_annex_b() {
    assert_eq!(
        nals_to_annex_b(&[vec![0x67, 0x42], vec![0x68, 0xCE]]),
        vec![0, 0, 0, 1, 0x67, 0x42, 0, 0, 0, 1, 0x68, 0xCE]
    );
}

// Own cases.

#[test]
fn high_profile_record_carries_extension() {
    let high = vec![0x67, 0x64, 0x00, 0x28, 0xAC];
    let record = build_avc_decoder_config_record(&[high.clone()], &[pps()]).expect("builds");
    assert_eq!(record.len(), 6 + 2 + 5 + 1 + 2 + 4 + 4);
    assert_eq!(&record[record.len() - 4..], &[0xFD, 0xF8, 0xF8, 0x00]);
    let parsed = parse_avc_decoder_config_record(&record).expect("parses");
    assert_eq!(parsed.sps, vec![high]);
}

#[test]
fn short_sps_is_refused_for_record() {
    let err = build_avc_decoder_config_record(&[vec![0x67, 0x42]], &[pps()]).unwrap_err();
    assert_eq!(err.to_string(), "media error: H.264 SPS is too short to read profile/level");
}

#[test]
fn record_errors_carry_their_messages() {
    let err = parse_avc_decoder_config_record(&[1, 2, 3]).unwrap_err();
    assert_eq!(err.to_string(), "media error: AVCDecoderConfigurationRecord is too short: 3");
    let mut record = build_avc_decoder_config_record(&[sps()], &[pps()]).unwrap();
    record[0] = 2;
    let err = parse_avc_decoder_config_record(&record).unwrap_err();
    assert_eq!(err.to_string(), "media error: unsupported AVCDecoderConfigurationRecord version: 2");
}

#[test]
fn invalid_length_size_is_refused() {
    let err = length_prefixed_to_annex_b(&[0, 1, 0x65], 5).unwrap_err();
    assert_eq!(err.to_string(), "media error: invalid NAL length size: 5");
    assert_eq!(length_prefixed_to_annex_b(&[0, 1, 0x65], 2).unwrap(), vec![0, 0, 0, 1, 0x65]);
}

#[test]
fn split_annex_b_skips_data_before_first_start_code() {
    let data = [0x11, 0x22, 0, 0, 1, 0x41, 0x9A];
    assert_eq!(split_annex_b(&data), vec![vec![0x41, 0x9A]]);
    assert!(split_annex_b(&[]).is_empty());
}
