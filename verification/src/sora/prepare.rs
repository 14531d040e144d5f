//! Checking and converting the Sora settings once, before any device is opened: a value
//! refused after the devices were opened would look to the user like a connection that
//! dropped at once.

use vstd::prelude::*;

use crate::sora::connect_options::{
    build_data_channels, first_label_error, json_parse, json_parse_failure, opaque_id_error,
    parse_forwarding_filters, spec_parse_forwarding_filters, string_views, is_default_channel,
    filter_views, validate_opaque_id, ConnectDataChannel, ForwardingFilter,
};
use crate::sora::settings::{
    build_audio, build_video, spec_audio_setting, str_option_view, spec_video_setting, AudioSetting, VideoSetting,
};

verus! {

/// The settings that are checked and converted before connecting.
#[derive(Debug, Clone)]
pub struct SoraOptions {
    pub client_id: Option<String>,
    pub bundle_id: Option<String>,
    /// `--use-libcamera`.
    pub use_libcamera: bool,
    /// Whether this build can use libcamera (the `raspberrypi` feature).
    pub libcamera_supported: bool,
    pub video: bool,
    pub audio: bool,
    pub video_codec_type: Option<String>,
    pub audio_codec_type: Option<String>,
    pub video_bit_rate: u32,
    pub audio_bit_rate: u32,
    /// `--metadata` (JSON text).
    pub metadata: Option<String>,
    /// `--signaling-notify-metadata` (JSON text).
    pub signaling_notify_metadata: Option<String>,
    pub data_channel_labels: Vec<String>,
    /// `--forwarding-filter` (JSON text).
    pub forwarding_filters: Option<String>,
}

/// The checked settings, the same for every reconnection.
#[derive(Debug, Clone)]
pub struct Prepared {
    pub video: VideoSetting,
    pub audio: AudioSetting,
    /// Checked JSON text.
    pub metadata: Option<String>,
    /// Checked JSON text.
    pub signaling_notify_metadata: Option<String>,
    pub data_channels: Vec<ConnectDataChannel>,
    pub forwarding_filters: Vec<ForwardingFilter>,
}

/// The view of an optional string.
pub open spec fn opt_view(o: Option<String>) -> Option<Seq<char>> {
    match o {
        Some(s) => Some(s@),
        None => None,
    }
}

/// The message refusing the JSON text `t`, if nojson refuses it.
pub open spec fn json_text_error(t: Seq<char>) -> Option<Seq<char>> {
    match json_parse_failure(t) {
        Some(f) => Some("JSON のパースに失敗: JSON エラー: "@ + f.detail),
        None => None,
    }
}

/// The message refusing an optional JSON text, if it is refused.
pub open spec fn opt_json_error(t: Option<Seq<char>>) -> Option<Seq<char>> {
    match t {
        Some(t) => json_text_error(t),
        None => None,
    }
}

/// The message refusing an optional client or bundle ID, if it is refused.
pub open spec fn opt_id_error(v: Option<Seq<char>>, name: Seq<char>) -> Option<Seq<char>> {
    match v {
        Some(v) => opaque_id_error(v, name),
        None => None,
    }
}

/// The message refusing the forwarding filters, if given and refused.
pub open spec fn opt_filters_error(t: Option<Seq<char>>) -> Option<Seq<char>> {
    match t {
        Some(t) => match spec_parse_forwarding_filters(t) {
            Err(m) => Some(m),
            Ok(_) => None,
        },
        None => None,
    }
}

/// The first refusal of the settings, in the order: client ID, bundle ID, libcamera, video,
/// audio, metadata, signaling notify metadata, DataChannel labels, forwarding filters.
pub open spec fn prepare_error(o: SoraOptions) -> Option<Seq<char>> {
    if opt_id_error(opt_view(o.client_id), "--client-id"@) is Some {
        opt_id_error(opt_view(o.client_id), "--client-id"@)
    } else if opt_id_error(opt_view(o.bundle_id), "--bundle-id"@) is Some {
        opt_id_error(opt_view(o.bundle_id), "--bundle-id"@)
    } else if o.use_libcamera && !o.libcamera_supported {
        Some("--use-libcamera は raspberrypi feature が有効な場合のみ使用できます"@)
    } else if spec_video_setting(o.video, opt_view(o.video_codec_type), o.video_bit_rate) is Err {
        Some(spec_video_setting(o.video, opt_view(o.video_codec_type), o.video_bit_rate)->Err_0)
    } else if spec_audio_setting(o.audio, opt_view(o.audio_codec_type), o.audio_bit_rate) is Err {
        Some(spec_audio_setting(o.audio, opt_view(o.audio_codec_type), o.audio_bit_rate)->Err_0)
    } else if opt_json_error(opt_view(o.metadata)) is Some {
        opt_json_error(opt_view(o.metadata))
    } else if opt_json_error(opt_view(o.signaling_notify_metadata)) is Some {
        opt_json_error(opt_view(o.signaling_notify_metadata))
    } else if first_label_error(string_views(o.data_channel_labels@)) is Some {
        first_label_error(string_views(o.data_channel_labels@))
    } else {
        opt_filters_error(opt_view(o.forwarding_filters))
    }
}

/// Whether `p` is what the accepted settings `o` convert to.
pub open spec fn prepared_from(p: Prepared, o: SoraOptions) -> bool {
    &&& spec_video_setting(o.video, opt_view(o.video_codec_type), o.video_bit_rate) == Ok::<VideoSetting, Seq<char>>(p.video)
    &&& spec_audio_setting(o.audio, opt_view(o.audio_codec_type), o.audio_bit_rate) == Ok::<AudioSetting, Seq<char>>(p.audio)
    &&& opt_view(p.metadata) == opt_view(o.metadata)
    &&& opt_view(p.signaling_notify_metadata) == opt_view(o.signaling_notify_metadata)
    &&& p.data_channels@.len() == o.data_channel_labels@.len()
    &&& forall|i: int| 0 <= i < o.data_channel_labels@.len()
        ==> is_default_channel(#[trigger] p.data_channels@[i], o.data_channel_labels@[i]@)
    &&& match o.forwarding_filters {
        Some(t) => spec_parse_forwarding_filters(t@) == Ok::<_, Seq<char>>(filter_views(p.forwarding_filters@)),
        None => p.forwarding_filters@.len() == 0,
    }
}

fn check_json_text(text: &Option<String>) -> (r: Result<Option<String>, String>)
    ensures
        match opt_json_error(opt_view(*text)) {
            Some(m) => r matches Err(e) && e@ == m,
            None => r matches Ok(t) && opt_view(t) == opt_view(*text),
        },
{
    match text {
        None => Ok(None),
        Some(t) => match json_parse(t.as_str()) {
            Ok(_) => Ok(Some(t.clone())),
            Err(f) => {
                let mut m = "JSON のパースに失敗: JSON エラー: ".to_owned();
                m.append(f.detail.as_str());
                Err(m)
            },
        },
    }
}

fn as_str_option(o: &Option<String>) -> (r: Option<&str>)
    ensures
        str_option_view(r) == opt_view(*o),
{
    match o {
        Some(s) => Some(s.as_str()),
        None => None,
    }
}

fn check_id(value: &Option<String>, name: &str) -> (r: Result<(), String>)
    ensures
        match opt_id_error(opt_view(*value), name@) {
            Some(m) => r matches Err(e) && e@ == m,
            None => r is Ok,
        },
{
    match value {
        Some(v) => validate_opaque_id(v.as_str(), name),
        None => Ok(()),
    }
}

/// Checks the settings and converts them for connecting; the first refusal is returned as
/// a message.
pub fn prepare(o: &SoraOptions) -> (r: Result<Prepared, String>)
    ensures
        match prepare_error(*o) {
            Some(m) => r matches Err(e) && e@ == m,
            None => r matches Ok(p) && prepared_from(p, *o),
        },
{
    check_id(&o.client_id, "--client-id")?;
    check_id(&o.bundle_id, "--bundle-id")?;
    if o.use_libcamera && !o.libcamera_supported {
        return Err("--use-libcamera は raspberrypi feature が有効な場合のみ使用できます".to_owned());
    }
    let video = build_video(o.video, as_str_option(&o.video_codec_type), o.video_bit_rate)?;
    let audio = build_audio(o.audio, as_str_option(&o.audio_codec_type), o.audio_bit_rate)?;
    let metadata = check_json_text(&o.metadata)?;
    let signaling_notify_metadata = check_json_text(&o.signaling_notify_metadata)?;
    let data_channels = build_data_channels(o.data_channel_labels.as_slice())?;
    let forwarding_filters = match &o.forwarding_filters {
        Some(text) => parse_forwarding_filters(text.as_str())?,
        None => Vec::new(),
    };
    Ok(Prepared { video, audio, metadata, signaling_notify_metadata, data_channels, forwarding_filters })
}

} // verus!
