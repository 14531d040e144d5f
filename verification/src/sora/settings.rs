//! The decisions of the Sora mode around the SDK: the media settings sent on connect,
//! which local media a connection opens, and the reconnection interval.

use vstd::prelude::*;

use crate::text::str_eq;
use crate::video_codec_factory::{CodecDirection, VideoCodecType};

verus! {

/// Base of the reconnection interval (seconds): momo retries after `5 * (2 * retry + 1)`
/// seconds (5, 15, 25, ...).
pub const RECONNECT_BASE_SECONDS: u64 = 5;

/// Seconds to wait before reconnection attempt `retry`.
pub open spec fn spec_sora_reconnect_wait(retry: u32) -> int {
    RECONNECT_BASE_SECONDS * (2 * retry + 1)
}

/// After a connection has ended: the seconds to wait and the retry count of the next
/// attempt. A connection that was established counts from 0 again.
pub fn after_connection(was_connected: bool, retry: u32) -> (r: (u64, u32))
    ensures
        r.0 == spec_sora_reconnect_wait(if was_connected { 0 } else { retry }),
        r.1 == (if was_connected { 1 } else if retry == u32::MAX { u32::MAX as int } else { retry + 1 }),
{
    let retry = if was_connected { 0 } else { retry };
    let wait_seconds = RECONNECT_BASE_SECONDS * (2 * (retry as u64) + 1);
    (wait_seconds, retry.saturating_add(1))
}

/// The video setting sent on connect.
#[derive(Debug, Clone, Copy, PartialEq, Eq, Structural)]
pub enum VideoSetting {
    /// `video: false`.
    Disabled,
    /// `video: true`, codec left to the server.
    Enabled,
    Vp8 { bit_rate: Option<u32> },
    Vp9 { bit_rate: Option<u32> },
    Av1 { bit_rate: Option<u32> },
    H264 { bit_rate: Option<u32> },
    H265 { bit_rate: Option<u32> },
}

/// The audio setting sent on connect.
#[derive(Debug, Clone, Copy, PartialEq, Eq, Structural)]
pub enum AudioSetting {
    /// `audio: false`.
    Disabled,
    /// `audio: true`, codec left to the server.
    Enabled,
    Opus { bit_rate: Option<u32> },
}

/// A bit rate option: 0 means unset.
pub open spec fn bit_rate_of(bit_rate: u32) -> Option<u32> {
    if bit_rate > 0 { Some(bit_rate) } else { None }
}

/// The video setting for `--video`, `--video-codec-type` and `--video-bit-rate`, or the
/// message refusing an unknown codec type.
pub open spec fn spec_video_setting(enabled: bool, codec_type: Option<Seq<char>>, bit_rate: u32) -> Result<VideoSetting, Seq<char>> {
    let br = bit_rate_of(bit_rate);
    if !enabled {
        Ok(VideoSetting::Disabled)
    } else {
        match codec_type {
            None => Ok(VideoSetting::Enabled),
            Some(c) => if c == "VP8"@ {
                Ok(VideoSetting::Vp8 { bit_rate: br })
            } else if c == "VP9"@ {
                Ok(VideoSetting::Vp9 { bit_rate: br })
            } else if c == "AV1"@ {
                Ok(VideoSetting::Av1 { bit_rate: br })
            } else if c == "H264"@ {
                Ok(VideoSetting::H264 { bit_rate: br })
            } else if c == "H265"@ {
                Ok(VideoSetting::H265 { bit_rate: br })
            } else {
                Err("不正な video-codec-type: "@ + c + " (VP8, VP9, AV1, H264, H265 のいずれかを指定してください)"@)
            },
        }
    }
}

/// The audio setting for `--audio`, `--audio-codec-type` and `--audio-bit-rate`, or the
/// message refusing an unknown codec type.
pub open spec fn spec_audio_setting(enabled: bool, codec_type: Option<Seq<char>>, bit_rate: u32) -> Result<AudioSetting, Seq<char>> {
    if !enabled {
        Ok(AudioSetting::Disabled)
    } else {
        match codec_type {
            None => Ok(AudioSetting::Enabled),
            Some(c) => if c == "OPUS"@ {
                Ok(AudioSetting::Opus { bit_rate: bit_rate_of(bit_rate) })
            } else {
                Err("不正な audio-codec-type: "@ + c + " (OPUS のみ対応しています)"@)
            },
        }
    }
}

/// The view of an optional text.
pub open spec fn str_option_view(o: Option<&str>) -> Option<Seq<char>> {
    match o {
        Some(s) => Some(s@),
        None => None,
    }
}

/// The `--video-codec-type` name of the codec a video setting asks for, if it asks for one.
pub open spec fn video_codec_name(v: VideoSetting) -> Option<Seq<char>> {
    match v {
        VideoSetting::Vp8 { .. } => Some("VP8"@),
        VideoSetting::Vp9 { .. } => Some("VP9"@),
        VideoSetting::Av1 { .. } => Some("AV1"@),
        VideoSetting::H264 { .. } => Some("H264"@),
        VideoSetting::H265 { .. } => Some("H265"@),
        _ => None,
    }
}

/// The bit rate a video setting asks for, if any.
pub open spec fn video_bit_rate(v: VideoSetting) -> Option<u32> {
    match v {
        VideoSetting::Vp8 { bit_rate } => bit_rate,
        VideoSetting::Vp9 { bit_rate } => bit_rate,
        VideoSetting::Av1 { bit_rate } => bit_rate,
        VideoSetting::H264 { bit_rate } => bit_rate,
        VideoSetting::H265 { bit_rate } => bit_rate,
        _ => None,
    }
}

/// Each `--video-codec-type` name asks for that same codec, with the bit rate given (none
/// for 0): an accepted name is one of VP8, VP9, AV1, H264 and H265, the setting's codec is
/// the one named, and so two names give two different codecs. Without a name video is
/// just switched on; with video off nothing else counts.
pub proof fn lemma_video_codec_follows_name(enabled: bool, codec_type: Option<Seq<char>>, bit_rate: u32)
    ensures
        !enabled ==> spec_video_setting(enabled, codec_type, bit_rate) == Ok::<VideoSetting, Seq<char>>(VideoSetting::Disabled),
        enabled && codec_type is None ==> spec_video_setting(enabled, codec_type, bit_rate) == Ok::<VideoSetting, Seq<char>>(VideoSetting::Enabled),
        enabled ==> (codec_type matches Some(c) ==> match spec_video_setting(enabled, codec_type, bit_rate) {
            Ok(v) => video_codec_name(v) == Some(c)
                && video_bit_rate(v) == (if bit_rate == 0 { None::<u32> } else { Some(bit_rate) }),
            Err(_) => c != "VP8"@ && c != "VP9"@ && c != "AV1"@ && c != "H264"@ && c != "H265"@,
        }),
{
}

/// The `OPUS` name asks for Opus, with the bit rate given (none for 0); any other name is
/// refused, and without a name audio is just switched on.
pub proof fn lemma_audio_codec_follows_name(enabled: bool, codec_type: Option<Seq<char>>, bit_rate: u32)
    ensures
        !enabled ==> spec_audio_setting(enabled, codec_type, bit_rate) == Ok::<AudioSetting, Seq<char>>(AudioSetting::Disabled),
        enabled && codec_type is None ==> spec_audio_setting(enabled, codec_type, bit_rate) == Ok::<AudioSetting, Seq<char>>(AudioSetting::Enabled),
        enabled ==> (codec_type matches Some(c) ==> match spec_audio_setting(enabled, codec_type, bit_rate) {
            Ok(a) => c == "OPUS"@ && a == (AudioSetting::Opus { bit_rate: if bit_rate == 0 { None } else { Some(bit_rate) } }),
            Err(_) => c != "OPUS"@,
        }),
{
}

/// Builds the video setting sent on connect.
pub fn build_video(enabled: bool, codec_type: Option<&str>, bit_rate: u32) -> (r: Result<VideoSetting, String>)
    ensures
        enabled ==> (codec_type matches Some(c) ==> (r matches Ok(v) ==> video_codec_name(v) == Some(c@)
            && video_bit_rate(v) == (if bit_rate == 0 { None::<u32> } else { Some(bit_rate) }))),
        match spec_video_setting(enabled, str_option_view(codec_type), bit_rate) {
            Ok(v) => r == Ok::<VideoSetting, String>(v),
            Err(m) => r matches Err(e) && e@ == m,
        },
{
    if !enabled {
        return Ok(VideoSetting::Disabled);
    }
    let br = if bit_rate > 0 { Some(bit_rate) } else { None };
    match codec_type {
        None => Ok(VideoSetting::Enabled),
        Some(c) => {
            if str_eq(c, "VP8") {
                Ok(VideoSetting::Vp8 { bit_rate: br })
            } else if str_eq(c, "VP9") {
                Ok(VideoSetting::Vp9 { bit_rate: br })
            } else if str_eq(c, "AV1") {
                Ok(VideoSetting::Av1 { bit_rate: br })
            } else if str_eq(c, "H264") {
                Ok(VideoSetting::H264 { bit_rate: br })
            } else if str_eq(c, "H265") {
                Ok(VideoSetting::H265 { bit_rate: br })
            } else {
                let mut m = "不正な video-codec-type: ".to_owned();
                m.append(c);
                m.append(" (VP8, VP9, AV1, H264, H265 のいずれかを指定してください)");
                Err(m)
            }
        },
    }
}

/// Builds the audio setting sent on connect.
pub fn build_audio(enabled: bool, codec_type: Option<&str>, bit_rate: u32) -> (r: Result<AudioSetting, String>)
    ensures
        enabled ==> (codec_type matches Some(c) ==> (r matches Ok(a) ==> c@ == "OPUS"@
            && a == (AudioSetting::Opus { bit_rate: if bit_rate == 0 { None } else { Some(bit_rate) } }))),
        match spec_audio_setting(enabled, str_option_view(codec_type), bit_rate) {
            Ok(a) => r == Ok::<AudioSetting, String>(a),
            Err(m) => r matches Err(e) && e@ == m,
        },
{
    if !enabled {
        return Ok(AudioSetting::Disabled);
    }
    let br = if bit_rate > 0 { Some(bit_rate) } else { None };
    match codec_type {
        None => Ok(AudioSetting::Enabled),
        Some(c) => {
            if str_eq(c, "OPUS") {
                Ok(AudioSetting::Opus { bit_rate: br })
            } else {
                let mut m = "不正な audio-codec-type: ".to_owned();
                m.append(c);
                m.append(" (OPUS のみ対応しています)");
                Err(m)
            }
        },
    }
}

/// Whether an encoder / decoder option asks for VideoToolbox; on other than Apple
/// platforms that is refused.
pub fn video_toolbox_requested(value: Option<&str>, apple_platform: bool) -> (r: Result<bool, String>)
    ensures
        match value {
            Some(v) if v@ == "videotoolbox"@ => if apple_platform {
                r == Ok::<bool, String>(true)
            } else {
                r matches Err(e) && e@ == "videotoolbox is only available on Apple platforms"@
            },
            _ => r == Ok::<bool, String>(false),
        },
{
    match value {
        Some(v) => {
            if !str_eq(v, "videotoolbox") {
                Ok(false)
            } else if apple_platform {
                Ok(true)
            } else {
                Err("videotoolbox is only available on Apple platforms".to_owned())
            }
        },
        None => Ok(false),
    }
}

/// Where the video of a connection comes from.
#[derive(Debug, Clone, Copy, PartialEq, Eq, Structural)]
pub enum VideoSource {
    /// No video is sent.
    NoVideo,
    /// The libcamera capture.
    Libcamera,
    /// The generated test pattern (`--fake-capture-device`).
    Fake,
    /// A capture device.
    Device,
}

/// Where the audio device module of a connection comes from.
#[derive(Debug, Clone, Copy, PartialEq, Eq, Structural)]
pub enum AudioSource {
    /// No audio device (`--no-audio-device`).
    NoDevice,
    /// The generated beep, kept in step with the test pattern.
    Fake,
    /// The capture and playout devices.
    Device,
}

/// The local media of a connection.
#[derive(Debug, Clone, Copy, PartialEq, Eq, Structural)]
pub struct LocalMedia {
    pub video: VideoSource,
    pub audio: AudioSource,
    /// Whether an audio track is sent.
    pub audio_track: bool,
    /// Whether the test pattern and the beep share a trigger.
    pub beep: bool,
}

/// Decides the local media of a connection: video is sent when the role sends, video is
/// on and the video input device is not switched off, from libcamera, the test pattern or
/// a capture device in that order of preference; the audio track goes with the role and
/// `--audio`; the beep is used with the test pattern unless audio is switched off.
pub fn plan_local_media(
    role_sends: bool,
    video: bool,
    audio: bool,
    no_video_input_device: bool,
    no_audio_device: bool,
    use_libcamera: bool,
    fake_capture_device: bool,
) -> (r: LocalMedia)
    ensures
        r.video == (if !(role_sends && video && !no_video_input_device) {
            VideoSource::NoVideo
        } else if use_libcamera {
            VideoSource::Libcamera
        } else if fake_capture_device {
            VideoSource::Fake
        } else {
            VideoSource::Device
        }),
        r.beep == (fake_capture_device && !no_audio_device),
        r.audio == (if no_audio_device {
            AudioSource::NoDevice
        } else if fake_capture_device {
            AudioSource::Fake
        } else {
            AudioSource::Device
        }),
        r.audio_track == (role_sends && audio),
{
    let beep = fake_capture_device && !no_audio_device;
    let video_source = if !(role_sends && video && !no_video_input_device) {
        VideoSource::NoVideo
    } else if use_libcamera {
        VideoSource::Libcamera
    } else if fake_capture_device {
        VideoSource::Fake
    } else {
        VideoSource::Device
    };
    let audio_source = if no_audio_device {
        AudioSource::NoDevice
    } else if beep {
        AudioSource::Fake
    } else {
        AudioSource::Device
    };
    LocalMedia { video: video_source, audio: audio_source, audio_track: role_sends && audio, beep }
}

/// One entry of the video codec preference sent to the SDK: which implementation encodes or
/// decodes a codec.
#[derive(Debug, Clone)]
pub struct PreferenceEntry {
    pub direction: CodecDirection,
    pub codec_type: VideoCodecType,
    pub implementation_name: String,
    pub implementation_description: String,
}

/// The position of the first entry for `direction` and `codec_type`, if any.
pub open spec fn preference_position(entries: Seq<PreferenceEntry>, direction: CodecDirection, codec_type: VideoCodecType) -> Option<int>
    decreases entries.len(),
{
    if entries.len() == 0 {
        None
    } else {
        match preference_position(entries.drop_last(), direction, codec_type) {
            Some(i) => Some(i),
            None => if entries.last().direction == direction && entries.last().codec_type == codec_type {
                Some(entries.len() - 1)
            } else {
                None
            },
        }
    }
}

/// The name the SDK's `Debug` gives a direction.
pub open spec fn direction_name(d: CodecDirection) -> Seq<char> {
    match d {
        CodecDirection::Encoder => "Encoder"@,
        CodecDirection::Decoder => "Decoder"@,
    }
}

/// The name the SDK's `Debug` gives a codec type.
pub open spec fn codec_type_name(c: VideoCodecType) -> Seq<char> {
    match c {
        VideoCodecType::Vp8 => "Vp8"@,
        VideoCodecType::Vp9 => "Vp9"@,
        VideoCodecType::Av1 => "Av1"@,
        VideoCodecType::H264 => "H264"@,
        VideoCodecType::H265 => "H265"@,
    }
}

/// The message for a preference without an entry for `direction` and `codec_type`.
pub open spec fn missing_preference_message(direction: CodecDirection, codec_type: VideoCodecType) -> Seq<char> {
    "video codec preference not found: direction="@ + direction_name(direction) + ", codec_type="@ + codec_type_name(codec_type)
}

fn direction_str(d: CodecDirection) -> (r: &'static str)
    ensures
        r@ == direction_name(d),
{
    proof {
        reveal_strlit("Encoder");
        reveal_strlit("Decoder");
    }
    match d {
        CodecDirection::Encoder => "Encoder",
        CodecDirection::Decoder => "Decoder",
    }
}

fn codec_type_str(c: VideoCodecType) -> (r: &'static str)
    ensures
        r@ == codec_type_name(c),
{
    proof {
        reveal_strlit("Vp8");
        reveal_strlit("Vp9");
        reveal_strlit("Av1");
        reveal_strlit("H264");
        reveal_strlit("H265");
    }
    match c {
        VideoCodecType::Vp8 => "Vp8",
        VideoCodecType::Vp9 => "Vp9",
        VideoCodecType::Av1 => "Av1",
        VideoCodecType::H264 => "H264",
        VideoCodecType::H265 => "H265",
    }
}

proof fn lemma_preference_position_prefix(entries: Seq<PreferenceEntry>, direction: CodecDirection, codec_type: VideoCodecType, k: nat)
    requires
        k <= entries.len(),
        preference_position(entries.take(k as int), direction, codec_type) is Some,
    ensures
        preference_position(entries, direction, codec_type) == preference_position(entries.take(k as int), direction, codec_type),
    decreases entries.len() - k,
{
    if k < entries.len() {
        assert(entries.take((k + 1) as int).drop_last() =~= entries.take(k as int));
        lemma_preference_position_prefix(entries, direction, codec_type, k + 1);
    } else {
        assert(entries.take(k as int) =~= entries);
    }
}

proof fn lemma_preference_position_bound(entries: Seq<PreferenceEntry>, direction: CodecDirection, codec_type: VideoCodecType)
    ensures
        preference_position(entries, direction, codec_type) matches Some(i) ==> 0 <= i < entries.len()
            && entries[i].direction == direction && entries[i].codec_type == codec_type,
    decreases entries.len(),
{
    if entries.len() > 0 {
        lemma_preference_position_bound(entries.drop_last(), direction, codec_type);
    }
}

fn find_preference(entries: &Vec<PreferenceEntry>, direction: CodecDirection, codec_type: VideoCodecType) -> (r: Option<usize>)
    ensures
        match preference_position(entries@, direction, codec_type) {
            Some(i) => r == Some(i as usize),
            None => r is None,
        },
{
    let mut i: usize = 0;
    while i < entries.len()
        invariant
            i <= entries@.len(),
            preference_position(entries@.take(i as int), direction, codec_type) is None,
        decreases entries@.len() - i,
    {
        proof {
            assert(entries@.take(i + 1).drop_last() =~= entries@.take(i as int));
        }
        if entries[i].direction == direction && entries[i].codec_type == codec_type {
            proof {
                lemma_preference_position_prefix(entries@, direction, codec_type, (i + 1) as nat);
            }
            return Some(i);
        }
        i = i + 1;
    }
    assert(entries@.take(i as int) =~= entries@);
    None
}

/// Sets the implementation of the first entry for `direction` and `codec_type`.
fn set_preference(
    entries: &mut Vec<PreferenceEntry>,
    direction: CodecDirection,
    codec_type: VideoCodecType,
    name: &str,
    description: &str,
) -> (r: Result<(), String>)
    ensures
        match preference_position(old(entries)@, direction, codec_type) {
            Some(i) => r is Ok && final(entries)@.len() == old(entries)@.len()
                && (forall|j: int| 0 <= j < old(entries)@.len() && j != i ==> #[trigger] final(entries)@[j] == old(entries)@[j])
                && final(entries)@[i].direction == direction && final(entries)@[i].codec_type == codec_type
                && final(entries)@[i].implementation_name@ == name@
                && final(entries)@[i].implementation_description@ == description@,
            None => *final(entries) == *old(entries)
                && (r matches Err(e) && e@ == missing_preference_message(direction, codec_type)),
        },
{
    proof {
        lemma_preference_position_bound(old(entries)@, direction, codec_type);
    }
    match find_preference(entries, direction, codec_type) {
        Some(i) => {
            let entry = PreferenceEntry {
                direction,
                codec_type,
                implementation_name: name.to_owned(),
                implementation_description: description.to_owned(),
            };
            entries.set(i, entry);
            Ok(())
        },
        None => {
            let mut m = "video codec preference not found: direction=".to_owned();
            m.append(direction_str(direction));
            m.append(", codec_type=");
            m.append(codec_type_str(codec_type));
            Err(m)
        },
    }
}

/// Applies an encoder / decoder option to the preference: when the option names `target`,
/// the first entry for `direction` and `codec_type` gets the implementation `name` /
/// `description`; when there is no such entry that is refused. Other values leave the
/// preference as it is.
pub fn apply_codec_preference(
    entries: &mut Vec<PreferenceEntry>,
    direction: CodecDirection,
    codec_type: VideoCodecType,
    value: Option<&str>,
    target: &str,
    name: &str,
    description: &str,
) -> (r: Result<(), String>)
    ensures
        !(value matches Some(v) && v@ == target@) ==> r is Ok && *final(entries) == *old(entries),
        (value matches Some(v) && v@ == target@) ==> match preference_position(old(entries)@, direction, codec_type) {
            Some(i) => r is Ok && final(entries)@.len() == old(entries)@.len()
                && (forall|j: int| 0 <= j < old(entries)@.len() && j != i ==> #[trigger] final(entries)@[j] == old(entries)@[j])
                && final(entries)@[i].implementation_name@ == name@
                && final(entries)@[i].implementation_description@ == description@,
            None => *final(entries) == *old(entries)
                && (r matches Err(e) && e@ == missing_preference_message(direction, codec_type)),
        },
{
    match value {
        Some(v) => {
            if !str_eq(v, target) {
                return Ok(());
            }
            set_preference(entries, direction, codec_type, name, description)
        },
        None => Ok(()),
    }
}

/// Applies an encoder / decoder option asking for VideoToolbox: on Apple platforms the
/// entry gets WebRTC's built-in hardware implementation (`internal-hwa`); elsewhere the
/// option is refused. Other values leave the preference as it is.
pub fn apply_video_toolbox_preference(
    entries: &mut Vec<PreferenceEntry>,
    direction: CodecDirection,
    codec_type: VideoCodecType,
    value: Option<&str>,
    apple_platform: bool,
) -> (r: Result<(), String>)
    ensures
        !(value matches Some(v) && v@ == "videotoolbox"@) ==> r is Ok && *final(entries) == *old(entries),
        (value matches Some(v) && v@ == "videotoolbox"@) && !apple_platform ==> *final(entries) == *old(entries)
            && (r matches Err(e) && e@ == "videotoolbox is only available on Apple platforms"@),
        (value matches Some(v) && v@ == "videotoolbox"@) && apple_platform ==> match preference_position(old(entries)@, direction, codec_type) {
            Some(i) => r is Ok && final(entries)@.len() == old(entries)@.len()
                && (forall|j: int| 0 <= j < old(entries)@.len() && j != i ==> #[trigger] final(entries)@[j] == old(entries)@[j])
                && final(entries)@[i].implementation_name@ == "internal-hwa"@
                && final(entries)@[i].implementation_description@ == "WebRTC ObjC default VideoCodecFactory"@,
            None => *final(entries) == *old(entries)
                && (r matches Err(e) && e@ == missing_preference_message(direction, codec_type)),
        },
{
    if !video_toolbox_requested(value, apple_platform)? {
        return Ok(());
    }
    set_preference(entries, direction, codec_type, "internal-hwa", "WebRTC ObjC default VideoCodecFactory")
}

} // verus!
