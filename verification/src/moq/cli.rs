//! Building the settings of `momo sora-moq publish` / `momo sora-moq subscribe` from the
//! option values given on the command line.

use vstd::prelude::*;

use crate::moq::config::{settings_error, MoqConfig, MoqRole, DEFAULT_VIDEO_KEYFRAME_INTERVAL};
use crate::text::{parse_unsigned, spec_parse_unsigned};

verus! {

/// The value of a numeric option: none when the option is absent; the message refusing
/// a value that is not a `u32` (as Rust's `str::parse` reads one).
pub open spec fn spec_parse_u32(value: Option<Seq<char>>, name: Seq<char>) -> Result<Option<u32>, Seq<char>> {
    match value {
        None => Ok(None),
        Some(v) => match spec_parse_unsigned(v, u32::MAX as nat) {
            Some(n) => Ok(Some(n as u32)),
            None => Err("invalid value for '--"@ + name + "': "@ + v),
        },
    }
}

/// Parses a numeric option.
pub fn parse_u32(value: Option<String>, name: &str) -> (r: Result<Option<u32>, String>)
    ensures
        match spec_parse_u32(match value { Some(v) => Some(v@), None => None }, name@) {
            Ok(n) => r == Ok::<Option<u32>, String>(n),
            Err(m) => r matches Err(e) && e@ == m,
        },
{
    match value {
        None => Ok(None),
        Some(value) => match parse_unsigned(value.as_str(), 0xFFFF_FFFF) {
            Some(n) => Ok(Some(n as u32)),
            None => {
                let mut m = "invalid value for '--".to_owned();
                m.append(name);
                m.append("': ");
                m.append(value.as_str());
                Err(m)
            },
        },
    }
}

/// Validates the settings (see `MoqConfig::validate`).
pub fn validate(config: &MoqConfig) -> (r: Result<(), String>)
    ensures
        match config.spec_validate() {
            Some(m) => r matches Err(e) && e@ == m,
            None => r is Ok,
        },
{
    config.validate()
}

/// The view of an optional string.
pub open spec fn option_view(o: Option<String>) -> Option<Seq<char>> {
    match o {
        Some(s) => Some(s@),
        None => None,
    }
}

/// The text of an optional string, empty when it is absent.
pub open spec fn or_empty(o: Option<String>) -> Seq<char> {
    match o {
        Some(s) => s@,
        None => Seq::empty(),
    }
}

/// Builds and validates the settings of `momo sora-moq publish`: a track is published
/// unless its device is switched off; the keyframe interval defaults to 60 frames. The
/// numeric options are read in the order video bit rate, audio bit rate, keyframe
/// interval, and the first value that does not parse is refused.
pub fn publish_config(
    url: Option<String>,
    namespace: Option<String>,
    no_video_input_device: bool,
    no_audio_device: bool,
    video_bit_rate: Option<String>,
    audio_bit_rate: Option<String>,
    video_keyframe_interval: Option<String>,
) -> (r: Result<MoqConfig, String>)
    ensures
        match spec_parse_u32(option_view(video_bit_rate), "video-bit-rate"@) {
            Err(m) => r matches Err(e) && e@ == m,
            Ok(vb) => match spec_parse_u32(option_view(audio_bit_rate), "audio-bit-rate"@) {
                Err(m) => r matches Err(e) && e@ == m,
                Ok(ab) => match spec_parse_u32(option_view(video_keyframe_interval), "video-keyframe-interval"@) {
                    Err(m) => r matches Err(e) && e@ == m,
                    Ok(ki) => {
                        let keyframe = match ki { Some(k) => k, None => DEFAULT_VIDEO_KEYFRAME_INTERVAL };
                        match settings_error(MoqRole::Publish, or_empty(url), or_empty(namespace),
                            !no_video_input_device, !no_audio_device, vb, ab, keyframe) {
                            Some(m) => r matches Err(e) && e@ == m,
                            None => r matches Ok(c) && c.role == MoqRole::Publish && c.url@ == or_empty(url)
                                && c.namespace@ == or_empty(namespace) && c.video == !no_video_input_device
                                && c.audio == !no_audio_device && c.video_bit_rate == vb
                                && c.audio_bit_rate == ab && c.video_keyframe_interval == keyframe,
                        }
                    },
                },
            },
        },
{
    let video_bit_rate = parse_u32(video_bit_rate, "video-bit-rate")?;
    let audio_bit_rate = parse_u32(audio_bit_rate, "audio-bit-rate")?;
    let video_keyframe_interval = match parse_u32(video_keyframe_interval, "video-keyframe-interval")? {
        Some(k) => k,
        None => DEFAULT_VIDEO_KEYFRAME_INTERVAL,
    };
    let config = MoqConfig {
        role: MoqRole::Publish,
        url: match url { Some(u) => u, None => String::new() },
        namespace: match namespace { Some(n) => n, None => String::new() },
        video: !no_video_input_device,
        audio: !no_audio_device,
        video_bit_rate,
        audio_bit_rate,
        video_keyframe_interval,
    };
    validate(&config)?;
    Ok(config)
}

/// Builds and validates the settings of `momo sora-moq subscribe`: both tracks of the
/// catalog are subscribed, with no bit rate and the default keyframe interval.
pub fn subscribe_config(url: Option<String>, namespace: Option<String>) -> (r: Result<MoqConfig, String>)
    ensures
        match settings_error(MoqRole::Subscribe, or_empty(url), or_empty(namespace), true, true, None, None,
            DEFAULT_VIDEO_KEYFRAME_INTERVAL) {
            Some(m) => r matches Err(e) && e@ == m,
            None => r matches Ok(c) && c.role == MoqRole::Subscribe && c.url@ == or_empty(url)
                && c.namespace@ == or_empty(namespace) && c.video && c.audio
                && c.video_bit_rate is None && c.audio_bit_rate is None
                && c.video_keyframe_interval == DEFAULT_VIDEO_KEYFRAME_INTERVAL,
        },
{
    let config = MoqConfig {
        role: MoqRole::Subscribe,
        url: match url { Some(u) => u, None => String::new() },
        namespace: match namespace { Some(n) => n, None => String::new() },
        video: true,
        audio: true,
        video_bit_rate: None,
        audio_bit_rate: None,
        video_keyframe_interval: DEFAULT_VIDEO_KEYFRAME_INTERVAL,
    };
    validate(&config)?;
    Ok(config)
}

} // verus!
