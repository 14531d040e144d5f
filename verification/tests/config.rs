use momo::moq::config::{
    MoqConfig, MoqRole, DEFAULT_VIDEO_KEYFRAME_INTERVAL, MAX_AUDIO_BIT_RATE, MAX_VIDEO_BIT_RATE,
    MAX_VIDEO_KEYFRAME_INTERVAL, MIN_VIDEO_BIT_RATE,
};
use momo::moq::cli::{parse_u32, publish_config, subscribe_config, validate};

fn valid_config() -> MoqConfig {
    MoqConfig {
        role: MoqRole::Publish,
        url: "moqt://example.com:4433/live".to_owned(),
        namespace: "momo".to_owned(),
        video: true,
        audio: true,
        video_bit_rate: Some(2000),
        audio_bit_rate: Some(64),
        video_keyframe_interval: DEFAULT_VIDEO_KEYFRAME_INTERVAL,
    }
}

#[test]
fn test_validate_accepts_valid_config() {
    assert!(valid_config().validate().is_ok());
}

#[test]
fn test_validate_rejects_missing_url() {
    let mut config = valid_config();
    config.url = String::new();
    assert_eq!(
        config.validate().expect_err("検証に失敗すること"),
        "missing '--url' option"
    );
}

#[test]
fn test_validate_rejects_missing_namespace() {
    let mut config = valid_config();
    config.namespace = String::new();
    assert_eq!(
        config.validate().expect_err("検証に失敗すること"),
        "missing '--namespace' option"
    );
}

#[test]
fn test_validate_rejects_no_media() {
    let mut config = valid_config();
    config.video = false;
    config.audio = false;
    assert!(
        config
            .validate()
            .expect_err("検証に失敗すること")
            .starts_with("--no-video-input-device and --no-audio-device")
    );
}

#[test]
fn test_validate_accepts_subscribe_without_media() {
    let mut config = valid_config();
    config.role = MoqRole::Subscribe;
    config.video = false;
    config.audio = false;
    config.video_bit_rate = None;
    config.audio_bit_rate = None;
    assert!(config.validate().is_ok());
}

#[test]
fn test_validate_accepts_missing_video_bit_rate_when_video_disabled() {
    let mut config = valid_config();
    config.video = false;
    config.video_bit_rate = None;
    assert!(config.validate().is_ok());
}

#[test]
fn test_validate_accepts_missing_audio_bit_rate_when_audio_disabled() {
    let mut config = valid_config();
    config.audio = false;
    config.audio_bit_rate = None;
    assert!(config.validate().is_ok());
}

#[test]
fn test_validate_rejects_missing_video_bit_rate() {
    let mut config = valid_config();
    config.video_bit_rate = None;
    assert_eq!(
        config.validate().expect_err("検証に失敗すること"),
        "missing '--video-bit-rate' option"
    );
}

#[test]
fn test_validate_rejects_missing_audio_bit_rate() {
    let mut config = valid_config();
    config.audio_bit_rate = None;
    assert_eq!(
        config.validate().expect_err("検証に失敗すること"),
        "missing '--audio-bit-rate' option"
    );
}

#[test]
fn test_validate_rejects_zero_video_bit_rate() {
    let mut config = valid_config();
    config.video_bit_rate = Some(0);
    assert!(
        config
            .validate()
            .expect_err("検証に失敗すること")
            .starts_with("--video-bit-rate must be in 1-30000")
    );
}

#[test]
fn test_validate_rejects_zero_audio_bit_rate() {
    let mut config = valid_config();
    config.audio_bit_rate = Some(0);
    assert!(
        config
            .validate()
            .expect_err("検証に失敗すること")
            .starts_with("--audio-bit-rate must be in 1-510")
    );
}

#[test]
fn test_validate_rejects_excessive_video_bit_rate() {
    let mut config = valid_config();
    config.video_bit_rate = Some(MAX_VIDEO_BIT_RATE + 1);
    assert!(config.validate().is_err());
}

#[test]
fn test_validate_rejects_excessive_audio_bit_rate() {
    let mut config = valid_config();
    config.audio_bit_rate = Some(MAX_AUDIO_BIT_RATE + 1);
    assert!(config.validate().is_err());
}

#[test]
fn test_validate_accepts_max_video_bit_rate() {
    let mut config = valid_config();
    config.video_bit_rate = Some(MAX_VIDEO_BIT_RATE);
    assert!(config.validate().is_ok());
}

#[test]
fn test_validate_accepts_max_audio_bit_rate() {
    let mut config = valid_config();
    config.audio_bit_rate = Some(MAX_AUDIO_BIT_RATE);
    assert!(config.validate().is_ok());
}

#[test]
fn test_validate_rejects_zero_keyframe_interval() {
    let mut config = valid_config();
    config.video_keyframe_interval = 0;
    assert!(
        config
            .validate()
            .expect_err("検証に失敗すること")
            .starts_with("--video-keyframe-interval must be in 1-")
    );
}

#[test]
fn test_validate_rejects_excessive_keyframe_interval() {
    let mut config = valid_config();
    config.video_keyframe_interval = MAX_VIDEO_KEYFRAME_INTERVAL + 1;
    assert!(config.validate().is_err());
}

#[test]
fn test_validate_rejects_zero_keyframe_interval_for_subscribe() {
    let mut config = valid_config();
    config.role = MoqRole::Subscribe;
    config.video_keyframe_interval = 0;
    assert!(config.validate().is_err());
}

#[test]
fn test_validate_rejects_video_bit_rate_out_of_range() {
    let config = MoqConfig {
        role: MoqRole::Publish,
        url: "moqt://example.com:4433/live".to_owned(),
        namespace: "momo".to_owned(),
        video: true,
        audio: false,
        video_bit_rate: Some(MAX_VIDEO_BIT_RATE + 1),
        audio_bit_rate: None,
        video_keyframe_interval: DEFAULT_VIDEO_KEYFRAME_INTERVAL,
    };
    assert!(validate(&config).is_err());
}

#[test]
fn test_validate_rejects_both_tracks_disabled() {
    let config = MoqConfig {
        role: MoqRole::Publish,
        url: "moqt://example.com:4433/live".to_owned(),
        namespace: "momo".to_owned(),
        video: false,
        audio: false,
        video_bit_rate: None,
        audio_bit_rate: None,
        video_keyframe_interval: DEFAULT_VIDEO_KEYFRAME_INTERVAL,
    };
    assert!(validate(&config).is_err());
}

#[test]
fn test_validate_accepts_subscribe() {
    let config = MoqConfig {
        role: MoqRole::Subscribe,
        url: "moqt://example.com:4433/live".to_owned(),
        namespace: "momo".to_owned(),
        video: true,
        audio: true,
        video_bit_rate: None,
        audio_bit_rate: None,
        video_keyframe_interval: DEFAULT_VIDEO_KEYFRAME_INTERVAL,
    };
    assert!(validate(&config).is_ok());
}

#[test]
fn test_parse_u32_rejects_invalid_value() {
    assert!(parse_u32(Some("abc".to_owned()), "video-bit-rate").is_err());
    assert_eq!(
        parse_u32(Some("100".to_owned()), "video-bit-rate").expect("パースに成功すること"),
        Some(100)
    );
    assert_eq!(parse_u32(None, "video-bit-rate").expect("パースに成功すること"), None);
}

#[test]
fn test_validate_accepts_min_video_bit_rate() {
    let config = MoqConfig {
        role: MoqRole::Publish,
        url: "moqt://example.com:4433/live".to_owned(),
        namespace: "momo".to_owned(),
        video: true,
        audio: false,
        video_bit_rate: Some(MIN_VIDEO_BIT_RATE),
        audio_bit_rate: None,
        video_keyframe_interval: DEFAULT_VIDEO_KEYFRAME_INTERVAL,
    };
    assert!(validate(&config).is_ok());
}

// Own cases.

#[test]
fn validation_messages_are_exact() {
    let mut config = valid_config();
    config.video_bit_rate = Some(30001);
    assert_eq!(config.validate().unwrap_err(), "--video-bit-rate must be in 1-30000 kbps, but 30001");
    let mut config = valid_config();
    config.audio_bit_rate = Some(0);
    assert_eq!(config.validate().unwrap_err(), "--audio-bit-rate must be in 1-510 kbps, but 0");
    let mut config = valid_config();
    config.video_keyframe_interval = MAX_VIDEO_KEYFRAME_INTERVAL + 1;
    assert_eq!(
        config.validate().unwrap_err(),
        "--video-keyframe-interval must be in 1-432000 frames, but 432001"
    );
    let mut config = valid_config();
    config.video = false;
    config.audio = false;
    assert_eq!(
        config.validate().unwrap_err(),
        "--no-video-input-device and --no-audio-device cannot be used at the same time"
    );
}

#[test]
fn parse_u32_follows_str_parse() {
    assert_eq!(parse_u32(Some("+7".to_owned()), "x").unwrap(), Some(7));
    assert_eq!(parse_u32(Some("4294967295".to_owned()), "x").unwrap(), Some(u32::MAX));
    assert_eq!(
        parse_u32(Some("4294967296".to_owned()), "video-bit-rate").unwrap_err(),
        "invalid value for '--video-bit-rate': 4294967296"
    );
    assert!(parse_u32(Some("".to_owned()), "x").is_err());
    assert!(parse_u32(Some("-1".to_owned()), "x").is_err());
}

#[test]
fn publish_config_parses_then_validates() {
    let config = publish_config(
        Some("moqt://example.com/live".to_owned()),
        Some("momo".to_owned()),
        false,
        true,
        Some("500".to_owned()),
        None,
        None,
    )
    .unwrap();
    assert_eq!(config.role, MoqRole::Publish);
    assert!(config.video && !config.audio);
    assert_eq!(config.video_bit_rate, Some(500));
    assert_eq!(config.video_keyframe_interval, DEFAULT_VIDEO_KEYFRAME_INTERVAL);

    let err = publish_config(None, None, false, false, Some("x".to_owned()), Some("y".to_owned()), None)
        .unwrap_err();
    assert_eq!(err, "invalid value for '--video-bit-rate': x");
    let err = publish_config(None, Some("momo".to_owned()), false, false, None, None, None).unwrap_err();
    assert_eq!(err, "missing '--url' option");
}

#[test]
fn subscribe_config_needs_url_and_namespace() {
    let config = subscribe_config(Some("moqt://h/p".to_owned()), Some("ns".to_owned())).unwrap();
    assert_eq!(config.role, MoqRole::Subscribe);
    assert!(config.video && config.audio);
    assert_eq!(config.video_bit_rate, None);
    assert_eq!(subscribe_config(Some("moqt://h/p".to_owned()), None).unwrap_err(), "missing '--namespace' option");
}
