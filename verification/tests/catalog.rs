use momo::moq::catalog::{
    catalog_entries, AudioTrackSpec, VideoTrackParams, find_audio_track, find_video_track, is_audio_codec, is_video_codec, parse_channel_config, Catalog,
    CatalogTrack,
};

fn video_track() -> CatalogTrack {
    CatalogTrack {
        name: "video".to_owned(),
        codec: Some("avc1.42E01E".to_owned()),
        width: Some(640),
        height: Some(480),
        framerate: Some(30),
        samplerate: None,
        channel_config: None,
    }
}

fn audio_track() -> CatalogTrack {
    CatalogTrack {
        name: "audio".to_owned(),
        codec: Some("opus".to_owned()),
        width: None,
        height: None,
        framerate: None,
        samplerate: Some(48000),
        channel_config: Some("2".to_owned()),
    }
}

#[test]
fn test_encode_and_decode_catalog() {
    let catalog = Catalog { tracks: vec![video_track(), audio_track()] };
    assert_eq!(catalog.tracks.len(), 2);
    let video = find_video_track(&catalog).expect("映像トラックが見つかること");
    assert_eq!(video.track_name, b"video");
    assert_eq!(video.codec, "avc1.42E01E");
    assert_eq!(video.width, 640);
    assert_eq!(video.height, 480);
    assert_eq!(video.framerate, 30);
    let audio = find_audio_track(&catalog).expect("音声トラックが見つかること");
    assert_eq!(audio.track_name, b"audio");
    assert_eq!(audio.codec, "opus");
    assert_eq!(audio.samplerate, 48000);
    assert_eq!(audio.channels, 2);
}

#[test]
fn test_find_video_track_rejects_missing_track() {
    let catalog = Catalog { tracks: vec![audio_track()] };
    assert!(find_video_track(&catalog).is_err());
}

#[test]
fn test_is_video_codec() {
    assert!(is_video_codec("avc1.42E01E"));
    assert!(is_video_codec("avc3.640028"));
    assert!(is_video_codec("hvc1.1.6.L93.B0"));
    assert!(is_video_codec("hev1.1.6.L93.B0"));
    assert!(is_video_codec("av01.0.08M.08"));
    assert!(!is_video_codec("opus"));
}

#[test]
fn test_is_audio_codec() {
    assert!(is_audio_codec("opus"));
    assert!(!is_audio_codec("avc1.42E01E"));
}

#[test]
fn test_parse_channel_config() {
    assert_eq!(parse_channel_config("1").expect("変換に成功すること"), 1);
    assert_eq!(parse_channel_config("2").expect("変換に成功すること"), 2);
    assert!(parse_channel_config("3").is_err());
}

// Own cases.

#[test]
fn missing_tracks_and_fields_have_their_messages() {
    let empty = Catalog { tracks: vec![] };
    assert_eq!(find_video_track(&empty).unwrap_err().to_string(), "catalog error: catalog has no video track");
    assert_eq!(find_audio_track(&empty).unwrap_err().to_string(), "catalog error: catalog has no audio track");

    let mut video = video_track();
    video.width = None;
    let catalog = Catalog { tracks: vec![video] };
    assert_eq!(find_video_track(&catalog).unwrap_err().to_string(), "catalog error: video track has no width");

    let mut video = video_track();
    video.height = Some(0);
    let catalog = Catalog { tracks: vec![video] };
    assert_eq!(
        find_video_track(&catalog).unwrap_err().to_string(),
        "catalog error: video track has an invalid size: 640x0"
    );

    let mut audio = audio_track();
    audio.channel_config = Some("5.1".to_owned());
    let catalog = Catalog { tracks: vec![audio] };
    assert_eq!(find_audio_track(&catalog).unwrap_err().to_string(), "catalog error: unsupported channelConfig: 5.1");

    let mut audio = audio_track();
    audio.samplerate = Some(0);
    let catalog = Catalog { tracks: vec![audio] };
    assert_eq!(
        find_audio_track(&catalog).unwrap_err().to_string(),
        "catalog error: audio track has an invalid samplerate: 0"
    );
}

#[test]
fn first_matching_track_is_taken_and_framerate_defaults_to_30() {
    let mut second = video_track();
    second.name = "video2".to_owned();
    let mut first = video_track();
    first.framerate = None;
    let catalog = Catalog { tracks: vec![audio_track(), first, second] };
    let video = find_video_track(&catalog).unwrap();
    assert_eq!(video.track_name, b"video");
    assert_eq!(video.framerate, 30);
}

fn video_params() -> VideoTrackParams {
    VideoTrackParams {
        codec: "avc1.42E01E".to_string(),
        width: 640,
        height: 480,
        bitrate_kbps: 1000,
        timescale: 1_000_000,
        max_gop_duration_ms: 2000,
    }
}

fn audio_spec() -> AudioTrackSpec {
    AudioTrackSpec {
        codec: "opus".to_string(),
        samplerate: 48000,
        channel_config: "2".to_string(),
        bitrate_kbps: 64,
    }
}

#[test]
fn test_encode_catalog_rejects_no_tracks() {
    assert!(catalog_entries("momo", None, None).is_err());
}

#[test]
fn catalog_entries_describe_video_then_audio() {
    let entries = catalog_entries("momo", Some(&video_params()), Some(&audio_spec())).expect("トラックがあるので成功するはず");
    assert_eq!(entries.len(), 2);
    assert_eq!(entries[0].name, "video");
    assert_eq!(entries[0].role, "video");
    assert_eq!(entries[0].namespace, "momo");
    assert_eq!(entries[0].codec, "avc1.42E01E");
    assert_eq!(entries[0].width, Some(640));
    assert_eq!(entries[0].height, Some(480));
    assert_eq!(entries[0].bitrate, 1_000_000);
    assert_eq!(entries[0].timescale, Some(1_000_000));
    assert_eq!(entries[0].max_gop_duration, Some(2000));
    assert_eq!(entries[0].samplerate, None);
    assert_eq!(entries[1].name, "audio");
    assert_eq!(entries[1].bitrate, 64_000);
    assert_eq!(entries[1].samplerate, Some(48000));
    assert_eq!(entries[1].channel_config.as_deref(), Some("2"));
    assert_eq!(entries[1].width, None);
    let audio_only = catalog_entries("ns", None, Some(&audio_spec())).expect("音声のみでも成功するはず");
    assert_eq!(audio_only.len(), 1);
    assert_eq!(audio_only[0].name, "audio");
    assert_eq!(audio_only[0].namespace, "ns");
    let err = catalog_entries("momo", None, None).unwrap_err();
    assert_eq!(err.to_string(), "catalog error: catalog requires at least one track");
}
