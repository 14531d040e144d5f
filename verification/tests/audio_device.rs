use momo::audio_device::{
    playout_buffer_len, playout_device_id, resolve_audio_device_in_list, resolve_listed_device, trim_played,
};

fn devices() -> Vec<(String, String)> {
    vec![
        ("Built-in Microphone".to_owned(), "mic-0".to_owned()),
        ("USB Audio".to_owned(), "usb-1".to_owned()),
    ]
}

#[test]
fn devices_resolve_by_index_name_or_id() {
    assert_eq!(resolve_audio_device_in_list("1", &devices()).unwrap(), "usb-1");
    assert_eq!(resolve_audio_device_in_list("USB Audio", &devices()).unwrap(), "usb-1");
    assert_eq!(resolve_audio_device_in_list("mic-0", &devices()).unwrap(), "mic-0");
    assert_eq!(
        resolve_audio_device_in_list("2", &devices()).unwrap_err(),
        "指定されたインデックスは存在しません: 2"
    );
    assert_eq!(
        resolve_audio_device_in_list("Speaker", &devices()).unwrap_err(),
        "音声デバイスが見つかりませんでした: 'Speaker'"
    );
}

#[test]
fn listed_device_errors_point_to_list_devices() {
    assert_eq!(
        resolve_listed_device("Speaker", &devices()).unwrap_err(),
        "音声デバイスが見つかりませんでした: 'Speaker' (`--list-devices` で確認してください)"
    );
    assert_eq!(resolve_listed_device("0", &devices()).unwrap(), "mic-0");
}

#[test]
fn playout_device_falls_back_to_default() {
    assert_eq!(playout_device_id(None, &devices()), None);
    assert_eq!(playout_device_id(Some("usb-1"), &devices()), Some("usb-1".to_owned()));
    assert_eq!(playout_device_id(Some("nope"), &devices()), None);
}

#[test]
fn playout_buffers() {
    assert_eq!(playout_buffer_len(480, 2), Some(1920));
    assert_eq!(playout_buffer_len(usize::MAX, 2), None);
    let mut buffer = vec![1u8; 480 * 2 * 2];
    assert_eq!(trim_played(&mut buffer, 480, 100, 2), 100);
    assert_eq!(buffer.len(), 400);
    let mut buffer = vec![1u8; 8];
    assert_eq!(trim_played(&mut buffer, 2, 5, 2), 2);
    assert_eq!(buffer.len(), 8);
}
