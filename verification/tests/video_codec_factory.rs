use momo::video_codec_factory::{
    apply_selection, implementation_name, CodecCapability, CodecChoice, CodecDirection, CodecSelection,
    VideoCodecType,
};

fn internal() -> CodecCapability {
    let mut supported = Vec::new();
    for codec in [VideoCodecType::Vp8, VideoCodecType::Vp9, VideoCodecType::Av1, VideoCodecType::H264] {
        supported.push((CodecDirection::Encoder, codec));
        supported.push((CodecDirection::Decoder, codec));
    }
    CodecCapability { implementation_name: "internal".to_owned(), supported }
}

fn nvcodec() -> CodecCapability {
    CodecCapability {
        implementation_name: "nvcodec".to_owned(),
        supported: vec![(CodecDirection::Encoder, VideoCodecType::H264), (CodecDirection::Decoder, VideoCodecType::H264)],
    }
}

#[test]
fn build_factories_with_software_selection() {
    let selection = CodecSelection {
        vp8_encoder: Some("software".to_string()),
        vp8_decoder: Some("default".to_string()),
        ..Default::default()
    };
    let choices = apply_selection(&[internal()], &selection).unwrap();
    assert_eq!(
        choices,
        vec![
            CodecChoice { direction: CodecDirection::Encoder, codec_type: VideoCodecType::Vp8, capability: 0 },
            CodecChoice { direction: CodecDirection::Decoder, codec_type: VideoCodecType::Vp8, capability: 0 },
        ]
    );
}

#[test]
fn build_factories_with_unknown_engine() {
    let selection = CodecSelection { vp8_encoder: Some("unknown".to_string()), ..Default::default() };
    assert!(apply_selection(&[internal()], &selection).is_err());
}

#[test]
fn build_factories_with_unavailable_engine() {
    let selection = CodecSelection { vp8_encoder: Some("nvidia".to_string()), ..Default::default() };
    assert!(apply_selection(&[internal()], &selection).is_err());
    assert!(apply_selection(&[internal(), nvcodec()], &selection).is_err());
}

// Own cases.

#[test]
fn selection_messages_are_exact() {
    let selection = CodecSelection { h264_decoder: Some("foo".to_string()), ..Default::default() };
    assert_eq!(apply_selection(&[internal()], &selection).unwrap_err(), "unsupported H.264 decoder engine: foo");
    let selection = CodecSelection { h265_encoder: Some("amf".to_string()), ..Default::default() };
    assert_eq!(
        apply_selection(&[internal()], &selection).unwrap_err(),
        "H.265 encoder engine is not available in this build: amf"
    );
    let selection = CodecSelection { vp9_encoder: Some("nvidia".to_string()), ..Default::default() };
    assert_eq!(apply_selection(&[internal(), nvcodec()], &selection).unwrap_err(), "VP9 encoder is not supported by nvidia");
}

#[test]
fn selection_takes_the_registered_capability() {
    let selection = CodecSelection {
        h264_encoder: Some("nvidia".to_string()),
        av1_decoder: Some("software".to_string()),
        ..Default::default()
    };
    let choices = apply_selection(&[internal(), nvcodec()], &selection).unwrap();
    assert_eq!(
        choices,
        vec![
            CodecChoice { direction: CodecDirection::Decoder, codec_type: VideoCodecType::Av1, capability: 0 },
            CodecChoice { direction: CodecDirection::Encoder, codec_type: VideoCodecType::H264, capability: 1 },
        ]
    );
    assert!(apply_selection(&[], &CodecSelection::default()).unwrap().is_empty());
}

#[test]
fn implementation_names() {
    assert_eq!(implementation_name("default"), Some("internal"));
    assert_eq!(implementation_name("software"), Some("internal"));
    assert_eq!(implementation_name("nvidia"), Some("nvcodec"));
    assert_eq!(implementation_name("vpl"), Some("vpl"));
    assert_eq!(implementation_name("amf"), Some("amf"));
    assert_eq!(implementation_name("videotoolbox"), Some("internal-apple"));
    assert_eq!(implementation_name("Software"), None);
}

#[test]
fn empty_selection() {
    assert!(CodecSelection::default().is_empty());
    assert!(!CodecSelection { h265_decoder: Some("x".to_owned()), ..Default::default() }.is_empty());
}
