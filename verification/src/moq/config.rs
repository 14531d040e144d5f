//! Settings of the MOQT mode and the validation of its arguments.
//!
//! Holds the settings of `momo sora-moq publish` / `momo sora-moq subscribe` and checks
//! the ranges of the values given at start-up.

use vstd::prelude::*;

use crate::text::{dec, with_decimal};

verus! {

/// Lower bound of the video bit rate (kbps); 0 means "unset" in Sora mode and is refused here.
pub const MIN_VIDEO_BIT_RATE: u32 = 1;
/// Upper bound of the video bit rate (kbps).
pub const MAX_VIDEO_BIT_RATE: u32 = 30000;
/// Lower bound of the audio bit rate (kbps).
pub const MIN_AUDIO_BIT_RATE: u32 = 1;
/// Upper bound of the audio bit rate (kbps).
pub const MAX_AUDIO_BIT_RATE: u32 = 510;
/// Default keyframe interval (frames).
pub const DEFAULT_VIDEO_KEYFRAME_INTERVAL: u32 = 60;
/// Lower bound of the keyframe interval (frames).
pub const MIN_VIDEO_KEYFRAME_INTERVAL: u32 = 1;
/// Upper bound of the keyframe interval (frames): one hour at 120 fps.
pub const MAX_VIDEO_KEYFRAME_INTERVAL: u32 = 432000;

/// The role in MOQT mode.
#[derive(Debug, Clone, Copy, PartialEq, Eq, Structural)]
pub enum MoqRole {
    /// Publishes tracks.
    Publish,
    /// Subscribes to tracks.
    Subscribe,
}

/// The settings built from the arguments of `momo sora-moq`.
#[derive(Debug, Clone)]
pub struct MoqConfig {
    /// Role.
    pub role: MoqRole,
    /// Server URL (`moqt://host:port/path`).
    pub url: String,
    /// Track Namespace.
    pub namespace: String,
    /// Whether a video track is published (used by `Publish` only).
    pub video: bool,
    /// Whether an audio track is published (used by `Publish` only).
    pub audio: bool,
    /// Video bit rate (kbps); unused when video is off.
    pub video_bit_rate: Option<u32>,
    /// Audio bit rate (kbps); unused when audio is off.
    pub audio_bit_rate: Option<u32>,
    /// Keyframe interval (frames).
    pub video_keyframe_interval: u32,
}

/// The message refusing a bit rate of a track, if it is refused.
pub open spec fn bit_rate_error(enabled: bool, rate: Option<u32>, name: Seq<char>, max: u32) -> Option<Seq<char>> {
    if !enabled {
        None
    } else {
        match rate {
            Some(r) => if 1 <= r && r <= max {
                None
            } else {
                Some("--"@ + name + " must be in 1-"@ + dec(max as nat) + " kbps, but "@ + dec(r as nat))
            },
            None => Some("missing '--"@ + name + "' option"@),
        }
    }
}

/// The message with which settings are refused, if they are: `--url` and `--namespace`
/// must be given, the keyframe interval must be in range, and, when publishing, at least
/// one of video and audio must be on and each track that is on needs a bit rate in range.
pub open spec fn settings_error(
    role: MoqRole,
    url: Seq<char>,
    namespace: Seq<char>,
    video: bool,
    audio: bool,
    video_bit_rate: Option<u32>,
    audio_bit_rate: Option<u32>,
    video_keyframe_interval: u32,
) -> Option<Seq<char>> {
    if url.len() == 0 {
        Some("missing '--url' option"@)
    } else if namespace.len() == 0 {
        Some("missing '--namespace' option"@)
    } else if !(MIN_VIDEO_KEYFRAME_INTERVAL <= video_keyframe_interval
        && video_keyframe_interval <= MAX_VIDEO_KEYFRAME_INTERVAL) {
        Some("--video-keyframe-interval must be in 1-432000 frames, but "@
            + dec(video_keyframe_interval as nat))
    } else if role != MoqRole::Publish {
        None
    } else if !video && !audio {
        Some("--no-video-input-device and --no-audio-device cannot be used at the same time"@)
    } else if bit_rate_error(video, video_bit_rate, "video-bit-rate"@, MAX_VIDEO_BIT_RATE) is Some {
        bit_rate_error(video, video_bit_rate, "video-bit-rate"@, MAX_VIDEO_BIT_RATE)
    } else {
        bit_rate_error(audio, audio_bit_rate, "audio-bit-rate"@, MAX_AUDIO_BIT_RATE)
    }
}

impl MoqConfig {
    /// The message with which the settings are refused, if they are.
    pub open spec fn spec_validate(&self) -> Option<Seq<char>> {
        settings_error(self.role, self.url@, self.namespace@, self.video, self.audio,
            self.video_bit_rate, self.audio_bit_rate, self.video_keyframe_interval)
    }

    /// Validates the settings.
    ///
    /// Refuses them unless `--url` and `--namespace` are given, the keyframe interval is in
    /// range, and, when publishing, at least one of video and audio is on and each track
    /// that is on has a bit rate in range.
    pub fn validate(&self) -> (r: Result<(), String>)
        ensures
            match self.spec_validate() {
                Some(m) => r matches Err(e) && e@ == m,
                None => r is Ok,
            },
    {
        proof {
            reveal_strlit("--");
            reveal_strlit(" must be in 1-");
            reveal_strlit(" kbps, but ");
            reveal_strlit("missing '--");
            reveal_strlit("' option");
            reveal_strlit("video-bit-rate");
            reveal_strlit("audio-bit-rate");
            reveal_strlit("--video-bit-rate must be in 1-30000 kbps, but ");
            reveal_strlit("--audio-bit-rate must be in 1-510 kbps, but ");
            reveal_strlit("missing '--video-bit-rate' option");
            reveal_strlit("missing '--audio-bit-rate' option");
            reveal_with_fuel(dec, 6);
        }
        if self.url.as_str().unicode_len() == 0 {
            return Err("missing '--url' option".to_owned());
        }
        if self.namespace.as_str().unicode_len() == 0 {
            return Err("missing '--namespace' option".to_owned());
        }
        if !(MIN_VIDEO_KEYFRAME_INTERVAL <= self.video_keyframe_interval
            && self.video_keyframe_interval <= MAX_VIDEO_KEYFRAME_INTERVAL) {
            return Err(with_decimal(
                "--video-keyframe-interval must be in 1-432000 frames, but ",
                self.video_keyframe_interval as u64,
            ));
        }
        if self.role != MoqRole::Publish {
            return Ok(());
        }
        if !self.video && !self.audio {
            return Err(
                "--no-video-input-device and --no-audio-device cannot be used at the same time".to_owned(),
            );
        }
        if self.video {
            match self.video_bit_rate {
                Some(rate) => {
                    if !(MIN_VIDEO_BIT_RATE <= rate && rate <= MAX_VIDEO_BIT_RATE) {
                        let r = with_decimal("--video-bit-rate must be in 1-30000 kbps, but ", rate as u64);
                        assert(r@ =~= "--"@ + "video-bit-rate"@ + " must be in 1-"@ + dec(MAX_VIDEO_BIT_RATE as nat) + " kbps, but "@ + dec(rate as nat));
                        return Err(r);
                    }
                },
                None => {
                    let r = "missing '--video-bit-rate' option".to_owned();
                    assert(r@ =~= "missing '--"@ + "video-bit-rate"@ + "' option"@);
                    return Err(r);
                },
            }
        }
        if self.audio {
            match self.audio_bit_rate {
                Some(rate) => {
                    if !(MIN_AUDIO_BIT_RATE <= rate && rate <= MAX_AUDIO_BIT_RATE) {
                        let r = with_decimal("--audio-bit-rate must be in 1-510 kbps, but ", rate as u64);
                        assert(r@ =~= "--"@ + "audio-bit-rate"@ + " must be in 1-"@ + dec(MAX_AUDIO_BIT_RATE as nat) + " kbps, but "@ + dec(rate as nat));
                        return Err(r);
                    }
                },
                None => {
                    let r = "missing '--audio-bit-rate' option".to_owned();
                    assert(r@ =~= "missing '--"@ + "audio-bit-rate"@ + "' option"@);
                    return Err(r);
                },
            }
        }
        Ok(())
    }
}

} // verus!
