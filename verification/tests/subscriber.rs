use momo::moq::catalog::VideoTrackInfo;
use momo::moq::subscriber::{
    check_subscription, compute_pts_us, copy_plane, pcm_i16_to_bytes, route_catalog_stream, route_stream,
    route_subgroup, AudioStreamState, DataStreamKind, LocTiming, StreamRoute, SubgroupRoute, TrackKind,
    VideoObject, VideoStreamState, DEFAULT_VIDEO_FRAME_INTERVAL_US,
};

#[test]
fn test_compute_pts_us() {
    let properties = LocTiming { timestamp: Some(90_000), timescale: Some(90_000) };
    assert_eq!(compute_pts_us(Some(&properties)), Some(1_000_000));
}

#[test]
fn test_compute_pts_us_without_timescale() {
    let properties = LocTiming { timestamp: Some(1_234_567), timescale: None };
    assert_eq!(compute_pts_us(Some(&properties)), Some(1_234_567));
}

#[test]
fn test_compute_pts_us_without_timestamp() {
    let properties = LocTiming { timestamp: None, timescale: None };
    assert_eq!(compute_pts_us(Some(&properties)), None);
    assert_eq!(compute_pts_us(None), None);
}

#[test]
fn subscriber_test_copy_plane() {
    let src = [1u8, 2, 99, 3, 4, 99];
    assert_eq!(copy_plane(&src, 3, 2, 2), vec![1, 2, 3, 4]);
}

#[test]
fn test_pcm_i16_to_bytes() {
    assert_eq!(pcm_i16_to_bytes(&[1, -1]), vec![1, 0, 0xFF, 0xFF]);
}

// Own cases.

#[test]
fn pts_edge_cases() {
    assert_eq!(compute_pts_us(Some(&LocTiming { timestamp: Some(5), timescale: Some(0) })), None);
    assert_eq!(
        compute_pts_us(Some(&LocTiming { timestamp: Some(u64::MAX), timescale: Some(1) })),
        Some(i64::MAX)
    );
    assert_eq!(compute_pts_us(Some(&LocTiming { timestamp: Some(48_000), timescale: Some(48_000) })), Some(1_000_000));
}

#[test]
fn copy_plane_stops_at_short_row() {
    let src = [1u8, 2, 9, 3];
    assert_eq!(copy_plane(&src, 3, 2, 2), vec![1, 2, 0, 0]);
}

fn video(codec: &str) -> VideoTrackInfo {
    VideoTrackInfo { track_name: b"video".to_vec(), codec: codec.to_owned(), width: 640, height: 480, framerate: 30 }
}

#[test]
fn subscription_checks() {
    assert!(check_subscription(Some(&video("avc1.42E01E")), false, true).is_ok());
    assert!(check_subscription(None, true, false).is_ok());
    assert_eq!(
        check_subscription(None, false, true).unwrap_err().to_string(),
        "catalog error: catalog has no usable track"
    );
    assert_eq!(
        check_subscription(Some(&video("hvc1.1")), true, true).unwrap_err().to_string(),
        "media error: unsupported video codec: hvc1.1"
    );
    assert_eq!(
        check_subscription(Some(&video("avc3.64")), true, false).unwrap_err().to_string(),
        "config error: subscribing video requires '--openh264' to load the OpenH264 library"
    );
}

#[test]
fn streams_are_routed_by_kind() {
    assert_eq!(route_stream(Some(DataStreamKind::Subgroup), 4).unwrap(), StreamRoute::Subgroup);
    assert_eq!(route_stream(Some(DataStreamKind::Fetch), 5).unwrap(), StreamRoute::Drain);
    assert_eq!(route_stream(Some(DataStreamKind::Padding), 6).unwrap(), StreamRoute::Drain);
    assert_eq!(route_stream(None, 77).unwrap_err().to_string(), "MOQT session error: unexpected data stream type: 77");
    assert_eq!(route_catalog_stream(Some(DataStreamKind::Fetch)).unwrap(), StreamRoute::Subgroup);
    assert_eq!(route_catalog_stream(Some(DataStreamKind::Padding)).unwrap(), StreamRoute::Drain);
    assert_eq!(
        route_catalog_stream(Some(DataStreamKind::Subgroup)).unwrap_err().to_string(),
        "MOQT session error: unexpected data stream while waiting for the catalog: Some(Subgroup)"
    );
    assert_eq!(
        route_catalog_stream(None).unwrap_err().to_string(),
        "MOQT session error: unexpected data stream while waiting for the catalog: None"
    );
}

#[test]
fn subgroups_are_routed_by_track_and_backlog() {
    assert_eq!(route_subgroup(false, Some(TrackKind::Video), 0), SubgroupRoute::Drop);
    assert_eq!(route_subgroup(true, Some(TrackKind::Video), 20), SubgroupRoute::DecodeVideo);
    assert_eq!(route_subgroup(true, Some(TrackKind::Video), 21), SubgroupRoute::Drop);
    assert_eq!(route_subgroup(true, Some(TrackKind::Audio), 100), SubgroupRoute::DecodeAudio);
    assert_eq!(route_subgroup(true, None, 0), SubgroupRoute::Drop);
}

fn record() -> Vec<u8> {
    momo::moq::h264::build_avc_decoder_config_record(
        &[vec![0x67, 0x42, 0xC0, 0x1F]],
        &[vec![0x68, 0xCE]],
    )
    .unwrap()
}

fn object(payload: Vec<u8>, timing: Option<LocTiming>, config: Option<Vec<u8>>, marking: Option<Vec<u8>>) -> VideoObject {
    VideoObject { accepted: true, has_status: false, payload, timing, video_config: config, frame_marking: marking }
}

#[test]
fn video_objects_wait_for_config_then_decode() {
    let mut state = VideoStreamState::new();
    let payload = vec![0, 0, 0, 2, 0x65, 0x88];
    let before = object(payload.clone(), Some(LocTiming { timestamp: Some(90_000), timescale: Some(90_000) }), None, Some(vec![0xE0]));
    assert_eq!(state.take_object(&before, true).unwrap(), None);
    assert_eq!(state.last_pts_us, 1_000_000);

    let key = object(payload.clone(), None, Some(record()), Some(vec![0xE0]));
    let (bytes, pts) = state.take_object(&key, true).unwrap().unwrap();
    assert_eq!(pts, 1_000_000 + DEFAULT_VIDEO_FRAME_INTERVAL_US);
    assert_eq!(bytes, vec![0, 0, 0, 1, 0x67, 0x42, 0xC0, 0x1F, 0, 0, 0, 1, 0x68, 0xCE, 0, 0, 0, 1, 0x65, 0x88]);
    assert_eq!(state.last_pts_us, 1_000_000);

    let delta = object(vec![0, 0, 0, 1, 0x41], Some(LocTiming { timestamp: Some(2_000_000), timescale: None }), None, Some(vec![0xC0]));
    let (bytes, pts) = state.take_object(&delta, true).unwrap().unwrap();
    assert_eq!(bytes, vec![0, 0, 0, 1, 0x41]);
    assert_eq!(pts, 2_000_000);

    assert_eq!(state.take_object(&delta, false).unwrap(), None);
}

#[test]
fn video_objects_passed_over_or_refused() {
    let mut state = VideoStreamState::new();
    let mut empty = object(vec![], None, Some(vec![9]), None);
    assert_eq!(state.take_object(&empty, true).unwrap(), None);
    empty.payload = vec![1];
    empty.accepted = false;
    assert_eq!(state.take_object(&empty, true).unwrap(), None);
    assert!(state.parameter_sets.is_none());

    let bad_config = object(vec![1], None, Some(vec![1, 2]), None);
    assert_eq!(
        state.take_object(&bad_config, true).unwrap_err().to_string(),
        "media error: AVCDecoderConfigurationRecord is too short: 2"
    );

    let truncated = object(vec![0, 0, 0, 9, 1], None, Some(record()), None);
    assert_eq!(
        state.take_object(&truncated, true).unwrap_err().to_string(),
        "media error: length-prefixed H.264 payload is truncated in a NAL"
    );
    let short_length = object(vec![0, 0, 0, 1, 0x41, 0, 0], None, None, None);
    assert_eq!(
        state.take_object(&short_length, true).unwrap_err().to_string(),
        "media error: length-prefixed H.264 payload is truncated in a length field"
    );
}

#[test]
fn audio_objects_keep_last_pts_and_check_config_once() {
    let mut state = AudioStreamState::new();
    assert_eq!(state.take_object(true, false, 0, None, true), None);
    let plan = state.take_object(true, false, 10, Some(LocTiming { timestamp: Some(48_000), timescale: Some(48_000) }), true).unwrap();
    assert!(plan.check_config);
    assert_eq!(plan.pts_us, 1_000_000);
    let plan = state.take_object(true, false, 10, None, true).unwrap();
    assert!(!plan.check_config);
    assert_eq!(plan.pts_us, 1_000_000);
    assert_eq!(state.take_object(false, false, 10, None, true), None);
}
