//! Reading the MSF catalog (draft-ietf-moq-msf-01).
//!
//! The subscriber finds the video and audio tracks in the catalog that the publisher
//! sends on the `catalog` track.

use vstd::prelude::*;

use crate::moq::error::{MoqError, MoqErrorKind};
use crate::text::{dec, push_decimal, with_decimal};

verus! {

/// What the lookup reads of one catalog track.
#[derive(Debug, Clone)]
pub struct CatalogTrack {
    /// Track name.
    pub name: String,
    /// RFC 6381 codec string.
    pub codec: Option<String>,
    /// Width (px).
    pub width: Option<u64>,
    /// Height (px).
    pub height: Option<u64>,
    /// Frame rate rounded to the nearest integer and at least 1.
    pub framerate: Option<u32>,
    /// Sampling rate (Hz).
    pub samplerate: Option<u64>,
    /// Channel configuration (`"2"` is stereo).
    pub channel_config: Option<String>,
}

/// The tracks of a catalog.
#[derive(Debug, Clone)]
pub struct Catalog {
    /// Tracks in the order the catalog lists them.
    pub tracks: Vec<CatalogTrack>,
}

/// The description of the audio track that a publisher announces.
#[derive(Debug, Clone)]
pub struct AudioTrackSpec {
    /// RFC 6381 codec string (`opus`).
    pub codec: String,
    /// Sampling rate (Hz).
    pub samplerate: u64,
    /// Channel configuration (`"2"` is stereo).
    pub channel_config: String,
    /// Maximum bit rate (kbps).
    pub bitrate_kbps: u32,
}

/// A video track found in the catalog.
#[derive(Debug, Clone)]
pub struct VideoTrackInfo {
    /// Track name.
    pub track_name: Vec<u8>,
    /// Codec string.
    pub codec: String,
    /// Width (px).
    pub width: u32,
    /// Height (px).
    pub height: u32,
    /// Frame rate (fps).
    pub framerate: u32,
}

/// An audio track found in the catalog.
#[derive(Debug, Clone)]
pub struct AudioTrackInfo {
    /// Track name.
    pub track_name: Vec<u8>,
    /// Codec string.
    pub codec: String,
    /// Sampling rate (Hz).
    pub samplerate: u32,
    /// Number of channels.
    pub channels: u8,
}

/// Whether `s` begins with `prefix`.
pub open spec fn starts_with(s: Seq<char>, prefix: Seq<char>) -> bool {
    s.len() >= prefix.len() && s.subrange(0, prefix.len() as int) == prefix
}

/// Whether a codec string names a video codec: its sample entry is avc1, avc3, hvc1,
/// hev1 or av01 (draft-ietf-moq-msf-01 §5.2.18).
pub open spec fn spec_is_video_codec(codec: Seq<char>) -> bool {
    starts_with(codec, "avc1"@) || starts_with(codec, "avc3"@) || starts_with(codec, "hvc1"@)
        || starts_with(codec, "hev1"@) || starts_with(codec, "av01"@)
}

/// Whether a codec string names an audio codec (opus).
pub open spec fn spec_is_audio_codec(codec: Seq<char>) -> bool {
    starts_with(codec, "opus"@)
}

/// Whether a track has a codec and it is a video (`video`) or audio (`!video`) codec.
pub open spec fn track_has_kind(t: CatalogTrack, video: bool) -> bool {
    match t.codec {
        Some(c) => if video { spec_is_video_codec(c@) } else { spec_is_audio_codec(c@) },
        None => false,
    }
}

/// The index of the first track of the given kind.
pub open spec fn first_track_of_kind(tracks: Seq<CatalogTrack>, video: bool) -> Option<int>
    decreases tracks.len(),
{
    if tracks.len() == 0 {
        None
    } else if track_has_kind(tracks[0], video) {
        Some(0)
    } else {
        match first_track_of_kind(tracks.drop_first(), video) {
            Some(i) => Some(i + 1),
            None => None,
        }
    }
}

/// What looking up the video track gives: the track's name, codec, width, height and
/// frame rate (30 when absent), or the message of the error.
pub open spec fn spec_find_video_track(tracks: Seq<CatalogTrack>) -> Result<(Seq<u8>, Seq<char>, u32, u32, u32), Seq<char>> {
    match first_track_of_kind(tracks, true) {
        None => Err("catalog has no video track"@),
        Some(i) => {
            let t = tracks[i];
            match (t.width, t.height) {
                (None, _) => Err("video track has no width"@),
                (Some(_), None) => Err("video track has no height"@),
                (Some(w), Some(h)) => if w == 0 || h == 0 || w > u32::MAX || h > u32::MAX {
                    Err("video track has an invalid size: "@ + dec(w as nat) + "x"@ + dec(h as nat))
                } else {
                    Ok((vstd::utf8::encode_utf8(t.name@), t.codec.unwrap()@, w as u32, h as u32,
                        match t.framerate { Some(f) => f, None => 30u32 }))
                },
            }
        },
    }
}

/// What parsing a channel configuration gives: the number of channels, or the message of
/// the error. Only the default forms `"1"` and `"2"` are handled (draft-ietf-moq-msf-01 §5.2.29).
pub open spec fn spec_parse_channel_config(c: Seq<char>) -> Result<u8, Seq<char>> {
    if c == "1"@ {
        Ok(1)
    } else if c == "2"@ {
        Ok(2)
    } else {
        Err("unsupported channelConfig: "@ + c)
    }
}

/// What looking up the audio track gives: the track's name, codec, sampling rate and
/// number of channels, or the message of the error.
pub open spec fn spec_find_audio_track(tracks: Seq<CatalogTrack>) -> Result<(Seq<u8>, Seq<char>, u32, u8), Seq<char>> {
    match first_track_of_kind(tracks, false) {
        None => Err("catalog has no audio track"@),
        Some(i) => {
            let t = tracks[i];
            match t.samplerate {
                None => Err("audio track has no samplerate"@),
                Some(s) => if s == 0 || s > u32::MAX {
                    Err("audio track has an invalid samplerate: "@ + dec(s as nat))
                } else {
                    match t.channel_config {
                        None => Err("audio track has no channelConfig"@),
                        Some(cc) => match spec_parse_channel_config(cc@) {
                            Err(m) => Err(m),
                            Ok(ch) => Ok((vstd::utf8::encode_utf8(t.name@), t.codec.unwrap()@, s as u32, ch)),
                        },
                    }
                },
            }
        },
    }
}

/// Whether `s` begins with `prefix`.
pub fn str_starts_with(s: &str, prefix: &str) -> (r: bool)
    ensures
        r == starts_with(s@, prefix@),
{
    let n = s.unicode_len();
    let m = prefix.unicode_len();
    if n < m {
        return false;
    }
    let mut i: usize = 0;
    while i < m
        invariant
            m <= n,
            n == s@.len(),
            m == prefix@.len(),
            i <= m,
            forall|j: int| 0 <= j < i ==> s@[j] == prefix@[j],
        decreases m - i,
    {
        if s.get_char(i) != prefix.get_char(i) {
            proof {
                assert(s@.subrange(0, m as int)[i as int] == s@[i as int]);
            }
            return false;
        }
        i = i + 1;
    }
    assert(s@.subrange(0, m as int) =~= prefix@);
    true
}

/// Whether a codec string names a video codec.
///
/// The codec of draft-ietf-moq-msf-01 §5.2.18 is in RFC 6381 form and begins with the
/// sample entry name.
pub fn is_video_codec(codec: &str) -> (r: bool)
    ensures
        r == spec_is_video_codec(codec@),
{
    str_starts_with(codec, "avc1") || str_starts_with(codec, "avc3") || str_starts_with(codec, "hvc1")
        || str_starts_with(codec, "hev1") || str_starts_with(codec, "av01")
}

/// Whether a codec string names an audio codec.
pub fn is_audio_codec(codec: &str) -> (r: bool)
    ensures
        r == spec_is_audio_codec(codec@),
{
    str_starts_with(codec, "opus")
}

proof fn lemma_first_track_of_kind(tracks: Seq<CatalogTrack>, video: bool)
    ensures
        first_track_of_kind(tracks, video) matches Some(i)
            ==> 0 <= i < tracks.len() && track_has_kind(tracks[i], video),
    decreases tracks.len(),
{
    if tracks.len() > 0 && !track_has_kind(tracks[0], video) {
        lemma_first_track_of_kind(tracks.drop_first(), video);
    }
}

fn track_is_kind(t: &CatalogTrack, video: bool) -> (r: bool)
    ensures
        r == track_has_kind(*t, video),
{
    match &t.codec {
        Some(c) => if video { is_video_codec(c.as_str()) } else { is_audio_codec(c.as_str()) },
        None => false,
    }
}

fn find_track_of_kind(tracks: &Vec<CatalogTrack>, video: bool) -> (r: Option<usize>)
    ensures
        r matches Some(i) ==> first_track_of_kind(tracks@, video) == Some(i as int) && i < tracks@.len(),
        r is None ==> first_track_of_kind(tracks@, video) is None,
{
    let mut i: usize = 0;
    assert(tracks@.skip(0) =~= tracks@);
    while i < tracks.len()
        invariant
            i <= tracks@.len(),
            first_track_of_kind(tracks@, video) == match first_track_of_kind(tracks@.skip(i as int), video) {
                Some(j) => Some(j + i),
                None => None,
            },
        decreases tracks@.len() - i,
    {
        assert(tracks@.skip(i as int).drop_first() =~= tracks@.skip(i + 1));
        assert(tracks@.skip(i as int)[0] == tracks@[i as int]);
        if track_is_kind(&tracks[i], video) {
            return Some(i);
        }
        i = i + 1;
    }
    None
}

fn name_bytes(name: &String) -> (r: Vec<u8>)
    ensures
        r@ == vstd::utf8::encode_utf8(name@),
{
    let b = name.as_str().as_bytes();
    crate::bytes::copy_range(b, 0, b.len())
}

/// Finds the video track of a catalog: the first track whose codec is a video codec.
/// A missing frame rate counts as 30 fps.
pub fn find_video_track(catalog: &Catalog) -> (r: Result<VideoTrackInfo, MoqError>)
    ensures
        match spec_find_video_track(catalog.tracks@) {
            Ok((name, codec, w, h, f)) => r matches Ok(info) && info.track_name@ == name
                && info.codec@ == codec && info.width == w && info.height == h && info.framerate == f,
            Err(m) => r matches Err(e) && e is Catalog && e.spec_message() == m,
        },
{
    let i = match find_track_of_kind(&catalog.tracks, true) {
        Some(i) => i,
        None => return Err(MoqError::Catalog("catalog has no video track".to_owned())),
    };
    let track = &catalog.tracks[i];
    proof {
        lemma_first_track_of_kind(catalog.tracks@, true);
        lemma_first_track_of_kind(catalog.tracks@, false);
    }
    let codec = match &track.codec {
        Some(c) => c.clone(),
        None => return Err(MoqError::Catalog("video track has no codec".to_owned())),
    };
    let width = match track.width {
        Some(w) => w,
        None => return Err(MoqError::Catalog("video track has no width".to_owned())),
    };
    let height = match track.height {
        Some(h) => h,
        None => return Err(MoqError::Catalog("video track has no height".to_owned())),
    };
    if width == 0 || height == 0 || width > u32::MAX as u64 || height > u32::MAX as u64 {
        let mut message = with_decimal("video track has an invalid size: ", width);
        message.append("x");
        push_decimal(&mut message, height);
        return Err(MoqError::Catalog(message));
    }
    let framerate = match track.framerate {
        Some(f) => f,
        None => 30,
    };
    Ok(VideoTrackInfo {
        track_name: name_bytes(&track.name),
        codec,
        width: width as u32,
        height: height as u32,
        framerate,
    })
}

/// Converts an MSF channel configuration to a number of channels.
///
/// Only the default forms `"1"` and `"2"` of draft-ietf-moq-msf-01 §5.2.29 are handled.
pub fn parse_channel_config(channel_config: &str) -> (r: Result<u8, MoqError>)
    ensures
        match spec_parse_channel_config(channel_config@) {
            Ok(n) => r == Ok::<u8, MoqError>(n),
            Err(m) => r matches Err(e) && e is Catalog && e.spec_message() == m,
        },
{
    proof {
        reveal_strlit("1");
        reveal_strlit("2");
    }
    let is_one_char = channel_config.unicode_len() == 1;
    if is_one_char && channel_config.get_char(0) == '1' {
        assert(channel_config@ =~= "1"@);
        Ok(1)
    } else if is_one_char && channel_config.get_char(0) == '2' {
        assert(channel_config@ =~= "2"@);
        Ok(2)
    } else {
        proof {
            if channel_config@ == "1"@ || channel_config@ == "2"@ {
                assert(channel_config@.len() == 1);
                assert(channel_config@[0] == "1"@[0] || channel_config@[0] == "2"@[0]);
            }
        }
        let mut message = "unsupported channelConfig: ".to_owned();
        message.append(channel_config);
        Err(MoqError::Catalog(message))
    }
}

/// Finds the audio track of a catalog: the first track whose codec is an audio codec.
pub fn find_audio_track(catalog: &Catalog) -> (r: Result<AudioTrackInfo, MoqError>)
    ensures
        match spec_find_audio_track(catalog.tracks@) {
            Ok((name, codec, s, ch)) => r matches Ok(info) && info.track_name@ == name
                && info.codec@ == codec && info.samplerate == s && info.channels == ch,
            Err(m) => r matches Err(e) && e is Catalog && e.spec_message() == m,
        },
{
    let i = match find_track_of_kind(&catalog.tracks, false) {
        Some(i) => i,
        None => return Err(MoqError::Catalog("catalog has no audio track".to_owned())),
    };
    let track = &catalog.tracks[i];
    proof {
        lemma_first_track_of_kind(catalog.tracks@, true);
        lemma_first_track_of_kind(catalog.tracks@, false);
    }
    let codec = match &track.codec {
        Some(c) => c.clone(),
        None => return Err(MoqError::Catalog("audio track has no codec".to_owned())),
    };
    let samplerate = match track.samplerate {
        Some(s) => s,
        None => return Err(MoqError::Catalog("audio track has no samplerate".to_owned())),
    };
    if samplerate == 0 || samplerate > u32::MAX as u64 {
        return Err(MoqError::Catalog(with_decimal("audio track has an invalid samplerate: ", samplerate)));
    }
    let channel_config = match &track.channel_config {
        Some(c) => c,
        None => return Err(MoqError::Catalog("audio track has no channelConfig".to_owned())),
    };
    let channels = match parse_channel_config(channel_config.as_str()) {
        Ok(c) => c,
        Err(e) => return Err(e),
    };
    Ok(AudioTrackInfo {
        track_name: name_bytes(&track.name),
        codec,
        samplerate: samplerate as u32,
        channels,
    })
}

/// What the catalog announces of the video track, but its frame rate (which the catalog
/// carries as a floating-point number and which is filled in where the catalog is encoded).
#[derive(Debug, Clone)]
pub struct VideoTrackParams {
    /// RFC 6381 codec string (`avc1.PPCCLL`).
    pub codec: String,
    /// Encoded width (px).
    pub width: u64,
    /// Encoded height (px).
    pub height: u64,
    /// Maximum bit rate (kbps).
    pub bitrate_kbps: u32,
    /// LOC timescale.
    pub timescale: u64,
    /// Longest GOP (ms).
    pub max_gop_duration_ms: u64,
}

/// One track of the catalog a publisher announces (LOC packaging, live).
#[derive(Debug, Clone)]
pub struct CatalogEntry {
    /// Track name: `video` or `audio`.
    pub name: String,
    pub namespace: String,
    /// `video` or `audio`.
    pub role: String,
    pub codec: String,
    pub width: Option<u64>,
    pub height: Option<u64>,
    /// Maximum bit rate (bps).
    pub bitrate: u64,
    pub timescale: Option<u64>,
    pub max_gop_duration: Option<u64>,
    pub samplerate: Option<u64>,
    pub channel_config: Option<String>,
}

/// Whether `e` announces the video track `v` in `namespace`.
pub open spec fn is_video_entry(e: CatalogEntry, namespace: Seq<char>, v: VideoTrackParams) -> bool {
    &&& e.name@ == "video"@
    &&& e.namespace@ == namespace
    &&& e.role@ == "video"@
    &&& e.codec@ == v.codec@
    &&& e.width == Some(v.width)
    &&& e.height == Some(v.height)
    &&& e.bitrate == v.bitrate_kbps * 1000
    &&& e.timescale == Some(v.timescale)
    &&& e.max_gop_duration == Some(v.max_gop_duration_ms)
    &&& e.samplerate is None
    &&& e.channel_config is None
}

/// Whether `e` announces the audio track `a` in `namespace`.
pub open spec fn is_audio_entry(e: CatalogEntry, namespace: Seq<char>, a: AudioTrackSpec) -> bool {
    &&& e.name@ == "audio"@
    &&& e.namespace@ == namespace
    &&& e.role@ == "audio"@
    &&& e.codec@ == a.codec@
    &&& e.width is None
    &&& e.height is None
    &&& e.bitrate == a.bitrate_kbps * 1000
    &&& e.timescale is None
    &&& e.max_gop_duration is None
    &&& e.samplerate == Some(a.samplerate)
    &&& e.channel_config matches Some(c) && c@ == a.channel_config@
}

/// The tracks of the catalog a publisher announces: the video track first, then the audio
/// track, of those it publishes. A catalog without any track is refused.
pub fn catalog_entries(namespace: &str, video: Option<&VideoTrackParams>, audio: Option<&AudioTrackSpec>) -> (r: Result<Vec<CatalogEntry>, MoqError>)
    ensures
        (video is None && audio is None) <==> r is Err,
        r matches Err(e) ==> e.spec_kind() == MoqErrorKind::Catalog && e.spec_message() == "catalog requires at least one track"@,
        r matches Ok(entries) ==> {
            &&& entries@.len() == (if video is Some { 1int } else { 0 }) + (if audio is Some { 1int } else { 0 })
            &&& video matches Some(v) ==> is_video_entry(entries@[0], namespace@, *v)
            &&& audio matches Some(a) ==> is_audio_entry(entries@[entries@.len() - 1], namespace@, *a)
        },
{
    proof {
        reveal_strlit("video");
        reveal_strlit("audio");
    }
    let mut entries: Vec<CatalogEntry> = Vec::new();
    if let Some(v) = video {
        entries.push(CatalogEntry {
            name: "video".to_owned(),
            namespace: namespace.to_owned(),
            role: "video".to_owned(),
            codec: v.codec.clone(),
            width: Some(v.width),
            height: Some(v.height),
            bitrate: v.bitrate_kbps as u64 * 1000,
            timescale: Some(v.timescale),
            max_gop_duration: Some(v.max_gop_duration_ms),
            samplerate: None,
            channel_config: None,
        });
    }
    if let Some(a) = audio {
        entries.push(CatalogEntry {
            name: "audio".to_owned(),
            namespace: namespace.to_owned(),
            role: "audio".to_owned(),
            codec: a.codec.clone(),
            width: None,
            height: None,
            bitrate: a.bitrate_kbps as u64 * 1000,
            timescale: None,
            max_gop_duration: None,
            samplerate: Some(a.samplerate),
            channel_config: Some(a.channel_config.clone()),
        });
    }
    if entries.len() == 0 {
        return Err(MoqError::Catalog("catalog requires at least one track".to_owned()));
    }
    Ok(entries)
}

} // verus!
