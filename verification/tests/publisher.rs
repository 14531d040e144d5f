use momo::moq::publisher::check_publish_media;
use momo::moq::error::MoqError;
use momo::moq::publisher::{
    frame_marking, next_audio_frame, reply_to_request, to_stereo, PeerRequest, RequestErrorCode,
    RequestReply, SubgroupEnd, SubgroupState, TimestampConverter, VideoGroups, VideoObjectPlan,
    AUDIO_TRACK_ALIAS, VIDEO_TIMESCALE, VIDEO_TRACK_ALIAS,
};

#[test]
fn test_timestamp_converter_keeps_increasing() {
    let mut converter = TimestampConverter::new(VIDEO_TIMESCALE);
    let first = converter.convert(1_000_000);
    assert_eq!(first, VIDEO_TIMESCALE);
    let second = converter.convert(1_000_001);
    assert_eq!(second, first + 1);
    let third = converter.convert(2_000_000);
    assert_eq!(third, VIDEO_TIMESCALE * 2);
}

#[test]
fn test_timestamp_converter_handles_negative() {
    let mut converter = TimestampConverter::new(48_000);
    assert_eq!(converter.convert(-1), 0);
}

#[test]
fn test_timestamp_converter_advance() {
    let mut converter = TimestampConverter::new(48_000);
    converter.convert(0);
    assert_eq!(converter.advance(960), 960);
    assert_eq!(converter.advance(960), 1920);
}

// Own cases.

#[test]
fn timestamp_converter_starts_once() {
    let mut converter = TimestampConverter::new(48_000);
    converter.start_at(1_000_000);
    converter.start_at(5_000_000);
    assert_eq!(converter.advance(960), 48_000 + 960);
}

#[test]
fn advance_without_start_begins_at_zero() {
    let mut converter = TimestampConverter::new(48_000);
    assert_eq!(converter.advance(960), 0);
    assert_eq!(converter.advance(960), 960);
}

#[test]
fn subgroup_object_ids_and_deltas() {
    let mut state = SubgroupState::new();
    assert_eq!(state.next_object(), (0, 0));
    assert_eq!(state.on_sent(), Some(true));
    assert_eq!(state.next_object(), (1, 0));
    state.on_skipped();
    state.on_skipped();
    assert_eq!(state.next_object(), (3, 2));
    assert_eq!(state.on_sent(), None);
    assert_eq!(state.closing(), SubgroupEnd::Reset);
}

#[test]
fn subgroup_closing_depends_on_what_went_out() {
    let state = SubgroupState::new();
    assert_eq!(state.closing(), SubgroupEnd::Reset);
    let mut state = SubgroupState::new();
    state.on_sent();
    state.on_sent();
    assert_eq!(state.closing(), SubgroupEnd::Fin);
    let mut state = SubgroupState::new();
    state.on_skipped();
    assert_eq!(state.next_object(), (1, 1));
    assert_eq!(state.on_sent(), Some(false));
    assert_eq!(state.closing(), SubgroupEnd::Reset);
}

#[test]
fn mono_is_duplicated_to_stereo() {
    assert_eq!(to_stereo(&[1, -2, 3], 1), Some(vec![1, 1, -2, -2, 3, 3]));
    assert_eq!(to_stereo(&[1, 2], 2), Some(vec![1, 2]));
    assert_eq!(to_stereo(&[1, 2, 3], 6), None);
    assert_eq!(to_stereo(&[], 1), Some(vec![]));
}

#[test]
fn audio_frames_are_cut_from_the_buffer() {
    let mut buffer = vec![1, 2, 3, 4, 5];
    assert_eq!(next_audio_frame(&mut buffer, 2), Some(vec![1, 2]));
    assert_eq!(buffer, vec![3, 4, 5]);
    assert_eq!(next_audio_frame(&mut buffer, 3), Some(vec![3, 4, 5]));
    assert!(buffer.is_empty());
    let mut short = vec![7];
    assert_eq!(next_audio_frame(&mut short, 2), None);
    assert_eq!(short, vec![7]);
}

#[test]
fn frame_marking_sets_i_bit_on_keyframes() {
    assert_eq!(frame_marking(true), 0xE0);
    assert_eq!(frame_marking(false), 0xC0);
}

#[test]
fn video_groups_start_at_keyframes() {
    let mut groups = VideoGroups::new();
    let plan = groups.plan(false, true).unwrap();
    assert_eq!(plan, VideoObjectPlan { finish_open_group: false, new_group: None, write: false });
    let plan = groups.plan(true, true).unwrap();
    assert_eq!(plan, VideoObjectPlan { finish_open_group: false, new_group: Some(0), write: true });
    let plan = groups.plan(false, true).unwrap();
    assert_eq!(plan, VideoObjectPlan { finish_open_group: false, new_group: None, write: true });
    let plan = groups.plan(true, true).unwrap();
    assert_eq!(plan, VideoObjectPlan { finish_open_group: true, new_group: Some(1), write: true });
    assert_eq!(groups.next_group_id, 2);
}

#[test]
fn keyframe_of_unpublished_track_is_an_error() {
    let mut groups = VideoGroups::new();
    match groups.plan(true, false) {
        Err(MoqError::Session(m)) => assert_eq!(m, "video track is not published"),
        other => panic!("unexpected: {other:?}"),
    }
    assert!(!groups.open);
}

#[test]
fn requests_of_the_relay_are_answered() {
    let catalog = b"catalog".to_vec();
    let reply = reply_to_request(&PeerRequest::Subscribe { track_name: b"video".to_vec() }, true, true, true, &catalog);
    assert!(matches!(reply, RequestReply::SubscribeOk { track_alias } if track_alias == VIDEO_TRACK_ALIAS));
    let reply = reply_to_request(&PeerRequest::Subscribe { track_name: b"audio".to_vec() }, true, true, true, &catalog);
    assert!(matches!(reply, RequestReply::SubscribeOk { track_alias } if track_alias == AUDIO_TRACK_ALIAS));
    let reply = reply_to_request(&PeerRequest::Subscribe { track_name: b"audio".to_vec() }, true, false, true, &catalog);
    assert!(matches!(reply, RequestReply::Error { code: RequestErrorCode::DoesNotExist, ref reason } if reason == "unknown track"));
    let reply = reply_to_request(&PeerRequest::Fetch { track_name: catalog.clone() }, true, true, true, &catalog);
    assert!(matches!(reply, RequestReply::ServeCatalog));
    let reply = reply_to_request(&PeerRequest::Fetch { track_name: catalog.clone() }, true, true, false, &catalog);
    assert!(matches!(reply, RequestReply::Error { code: RequestErrorCode::DoesNotExist, ref reason } if reason == "catalog is not ready"));
    let reply = reply_to_request(&PeerRequest::Fetch { track_name: b"video".to_vec() }, true, true, true, &catalog);
    assert!(matches!(reply, RequestReply::Error { code: RequestErrorCode::DoesNotExist, ref reason } if reason == "unknown track"));
    let reply = reply_to_request(&PeerRequest::Other, true, true, true, &catalog);
    assert!(matches!(reply, RequestReply::Error { code: RequestErrorCode::NotSupported, ref reason } if reason == "unsupported request"));
}

#[test]
fn publish_media_needs_openh264_and_an_even_size() {
    assert!(check_publish_media(false, false, -1, 3).is_ok());
    assert!(check_publish_media(true, true, 640, 480).is_ok());
    assert_eq!(
        check_publish_media(true, false, 640, 480).unwrap_err().to_string(),
        "config error: publishing video requires '--openh264' to load the OpenH264 library"
    );
    assert_eq!(
        check_publish_media(true, true, 641, 480).unwrap_err().to_string(),
        "config error: video size must be a positive even number: 641x480"
    );
    assert_eq!(
        check_publish_media(true, true, -2, 0).unwrap_err().to_string(),
        "config error: video size must be a positive even number: -2x0"
    );
}
