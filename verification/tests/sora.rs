use momo::sora::settings::{apply_codec_preference, apply_video_toolbox_preference, PreferenceEntry};
use momo::video_codec_factory::{CodecDirection, VideoCodecType};
use momo::sora::prepare::{prepare, SoraOptions};
use momo::sora::event_handler::{marks_connected, register_track, unregister_track, RegisteredTrack, SoraEvent};
use momo::sora::settings::{
    after_connection, build_audio, build_video, plan_local_media, video_toolbox_requested, AudioSetting,
    AudioSource, VideoSetting, VideoSource,
};

#[test]
fn sora_reconnect_intervals() {
    assert_eq!(after_connection(false, 0), (5, 1));
    assert_eq!(after_connection(false, 1), (15, 2));
    assert_eq!(after_connection(false, 2), (25, 3));
    assert_eq!(after_connection(true, 9), (5, 1));
    assert_eq!(after_connection(false, u32::MAX), (5 * (2 * u32::MAX as u64 + 1), u32::MAX));
}

#[test]
fn video_settings() {
    assert_eq!(build_video(false, Some("VP8"), 100).unwrap(), VideoSetting::Disabled);
    assert_eq!(build_video(true, None, 100).unwrap(), VideoSetting::Enabled);
    assert_eq!(build_video(true, Some("VP8"), 0).unwrap(), VideoSetting::Vp8 { bit_rate: None });
    assert_eq!(build_video(true, Some("H265"), 500).unwrap(), VideoSetting::H265 { bit_rate: Some(500) });
    assert_eq!(build_video(true, Some("AV1"), 1).unwrap(), VideoSetting::Av1 { bit_rate: Some(1) });
    assert_eq!(
        build_video(true, Some("h264"), 1).unwrap_err(),
        "不正な video-codec-type: h264 (VP8, VP9, AV1, H264, H265 のいずれかを指定してください)"
    );
}

#[test]
fn audio_settings() {
    assert_eq!(build_audio(false, Some("AAC"), 0).unwrap(), AudioSetting::Disabled);
    assert_eq!(build_audio(true, None, 0).unwrap(), AudioSetting::Enabled);
    assert_eq!(build_audio(true, Some("OPUS"), 64).unwrap(), AudioSetting::Opus { bit_rate: Some(64) });
    assert_eq!(
        build_audio(true, Some("AAC"), 64).unwrap_err(),
        "不正な audio-codec-type: AAC (OPUS のみ対応しています)"
    );
}

#[test]
fn video_toolbox_is_apple_only() {
    assert_eq!(video_toolbox_requested(None, false).unwrap(), false);
    assert_eq!(video_toolbox_requested(Some("nvidia"), false).unwrap(), false);
    assert_eq!(video_toolbox_requested(Some("videotoolbox"), true).unwrap(), true);
    assert_eq!(
        video_toolbox_requested(Some("videotoolbox"), false).unwrap_err(),
        "videotoolbox is only available on Apple platforms"
    );
}

#[test]
fn local_media_plans() {
    let plan = plan_local_media(true, true, true, false, false, false, false);
    assert_eq!((plan.video, plan.audio, plan.audio_track, plan.beep), (VideoSource::Device, AudioSource::Device, true, false));
    let plan = plan_local_media(true, true, true, false, false, false, true);
    assert_eq!((plan.video, plan.audio, plan.beep), (VideoSource::Fake, AudioSource::Fake, true));
    let plan = plan_local_media(true, true, false, false, true, true, true);
    assert_eq!((plan.video, plan.audio, plan.audio_track, plan.beep), (VideoSource::Libcamera, AudioSource::NoDevice, false, false));
    let plan = plan_local_media(false, true, true, false, false, false, false);
    assert_eq!((plan.video, plan.audio_track), (VideoSource::NoVideo, false));
    let plan = plan_local_media(true, true, true, true, false, false, false);
    assert_eq!(plan.video, VideoSource::NoVideo);
}

#[test]
fn connection_marking_events() {
    for event in [SoraEvent::Notify, SoraEvent::Push, SoraEvent::Track, SoraEvent::Switched, SoraEvent::WebsocketClose] {
        assert!(marks_connected(event));
    }
    for event in [SoraEvent::RemoveTrack, SoraEvent::Message, SoraEvent::SignalingMessage, SoraEvent::DataChannelOpen] {
        assert!(!marks_connected(event));
    }
}

#[test]
fn track_registry_replaces_and_removes() {
    let mut entries: Vec<RegisteredTrack<u32>> = Vec::new();
    assert_eq!(register_track(&mut entries, "a".to_owned(), 1), None);
    assert_eq!(register_track(&mut entries, "b".to_owned(), 2), None);
    assert_eq!(register_track(&mut entries, "a".to_owned(), 3), Some(1));
    let view: Vec<(String, u32)> = entries.iter().map(|e| (e.id.clone(), e.item)).collect();
    assert_eq!(view, vec![("b".to_owned(), 2), ("a".to_owned(), 3)]);
    assert_eq!(unregister_track(&mut entries, "b"), Some(2));
    assert_eq!(unregister_track(&mut entries, "b"), None);
    assert_eq!(entries.len(), 1);
}

fn base_options() -> SoraOptions {
    SoraOptions {
        client_id: None,
        bundle_id: None,
        use_libcamera: false,
        libcamera_supported: false,
        video: true,
        audio: true,
        video_codec_type: Some("H264".to_string()),
        audio_codec_type: None,
        video_bit_rate: 500,
        audio_bit_rate: 0,
        metadata: Some(r#"{"token": "x"}"#.to_string()),
        signaling_notify_metadata: None,
        data_channel_labels: vec!["#chat".to_string()],
        forwarding_filters: Some(
            r#"[{"rules": [[{"field": "kind", "operator": "is_in", "values": ["audio"]}]]}]"#.to_string(),
        ),
    }
}

#[test]
fn prepare_converts_accepted_settings() {
    let prepared = prepare(&base_options()).expect("受け付けられるはず");
    assert_eq!(prepared.video, VideoSetting::H264 { bit_rate: Some(500) });
    assert_eq!(prepared.audio, AudioSetting::Enabled);
    assert_eq!(prepared.metadata.as_deref(), Some(r#"{"token": "x"}"#));
    assert!(prepared.signaling_notify_metadata.is_none());
    assert_eq!(prepared.data_channels.len(), 1);
    assert_eq!(prepared.data_channels[0].label, "#chat");
    assert_eq!(prepared.forwarding_filters.len(), 1);
    assert_eq!(prepared.forwarding_filters[0].rules[0][0].values, vec!["audio".to_string()]);
}

#[test]
fn prepare_refuses_in_order() {
    let mut o = base_options();
    o.client_id = Some(String::new());
    o.use_libcamera = true;
    assert_eq!(prepare(&o).unwrap_err(), "不正な --client-id:  (1〜255 バイトで指定してください)");
    o.client_id = Some("c".to_string());
    assert_eq!(
        prepare(&o).unwrap_err(),
        "--use-libcamera は raspberrypi feature が有効な場合のみ使用できます"
    );
    o.libcamera_supported = true;
    o.metadata = Some("{".to_string());
    assert!(prepare(&o).unwrap_err().starts_with("JSON のパースに失敗: JSON エラー: "));
    o.metadata = None;
    o.video_codec_type = Some("MPEG2".to_string());
    assert_eq!(
        prepare(&o).unwrap_err(),
        "不正な video-codec-type: MPEG2 (VP8, VP9, AV1, H264, H265 のいずれかを指定してください)"
    );
    o.video_codec_type = None;
    o.data_channel_labels = vec!["#a".to_string(), "#a".to_string()];
    assert_eq!(prepare(&o).unwrap_err(), "重複する --data-channel-label: #a");
    o.data_channel_labels = Vec::new();
    o.forwarding_filters = Some("{}".to_string());
    assert!(prepare(&o).unwrap_err().starts_with("--forwarding-filter の JSON が不正です"));
    o.forwarding_filters = None;
    let prepared = prepare(&o).expect("受け付けられるはず");
    assert!(prepared.forwarding_filters.is_empty());
    assert_eq!(prepared.video, VideoSetting::Enabled);
}

fn entry(direction: CodecDirection, codec_type: VideoCodecType) -> PreferenceEntry {
    PreferenceEntry {
        direction,
        codec_type,
        implementation_name: "internal".to_string(),
        implementation_description: "default".to_string(),
    }
}

#[test]
fn codec_preference_is_set_on_the_matching_entry() {
    let mut prefs = vec![
        entry(CodecDirection::Encoder, VideoCodecType::H264),
        entry(CodecDirection::Decoder, VideoCodecType::H264),
    ];
    apply_codec_preference(&mut prefs, CodecDirection::Decoder, VideoCodecType::H264, Some("nvidia"), "nvidia", "nvidia", "NVIDIA NVENC/NVDEC")
        .expect("一致する項目があるので成功するはず");
    assert_eq!(prefs[0].implementation_name, "internal");
    assert_eq!(prefs[1].implementation_name, "nvidia");
    assert_eq!(prefs[1].implementation_description, "NVIDIA NVENC/NVDEC");
    apply_codec_preference(&mut prefs, CodecDirection::Encoder, VideoCodecType::H264, Some("intel"), "nvidia", "nvidia", "x")
        .expect("別の実装名は無視するはず");
    assert_eq!(prefs[0].implementation_name, "internal");
    assert_eq!(
        apply_codec_preference(&mut prefs, CodecDirection::Encoder, VideoCodecType::Av1, Some("nvidia"), "nvidia", "nvidia", "x")
            .unwrap_err(),
        "video codec preference not found: direction=Encoder, codec_type=Av1"
    );
}

#[test]
fn video_toolbox_preference_needs_an_apple_platform() {
    let mut prefs = vec![entry(CodecDirection::Encoder, VideoCodecType::H265)];
    assert_eq!(
        apply_video_toolbox_preference(&mut prefs, CodecDirection::Encoder, VideoCodecType::H265, Some("videotoolbox"), false)
            .unwrap_err(),
        "videotoolbox is only available on Apple platforms"
    );
    assert_eq!(prefs[0].implementation_name, "internal");
    apply_video_toolbox_preference(&mut prefs, CodecDirection::Encoder, VideoCodecType::H265, Some("videotoolbox"), true)
        .expect("Apple では成功するはず");
    assert_eq!(prefs[0].implementation_name, "internal-hwa");
    assert_eq!(prefs[0].implementation_description, "WebRTC ObjC default VideoCodecFactory");
    apply_video_toolbox_preference(&mut prefs, CodecDirection::Decoder, VideoCodecType::H265, None, false)
        .expect("指定なしは何もしないはず");
}
