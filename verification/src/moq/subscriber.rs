//! Decisions and conversions of the sora-moq subscriber that do not touch the network.

use vstd::prelude::*;

use crate::bytes::byte_seqs;
use crate::moq::catalog::{starts_with, VideoTrackInfo};
use crate::moq::error::{MoqError, MoqErrorKind};
use crate::moq::h264::{
    annex_b_bytes, length_prefixed_to_annex_b, nals_to_annex_b, parse_avc_decoder_config_record,
    spec_length_prefixed_to_annex_b, spec_parse_avc_record, LENGTH_SIZE,
};
use crate::text::{dec, push_decimal};

verus! {

/// A decoded video frame (I420).
#[derive(Debug, Clone)]
pub struct DecodedVideoFrame {
    /// Y plane.
    pub y: Vec<u8>,
    /// U plane.
    pub u: Vec<u8>,
    /// V plane.
    pub v: Vec<u8>,
    /// Width (px).
    pub width: i32,
    /// Height (px).
    pub height: i32,
    /// Presentation time (microseconds).
    pub pts_us: i64,
}

/// A decoded audio frame (interleaved S16).
#[derive(Debug, Clone)]
pub struct DecodedAudioFrame {
    /// PCM samples.
    pub pcm: Vec<i16>,
    /// Sampling rate (Hz).
    pub sample_rate: u32,
    /// Number of channels.
    pub channels: u8,
    /// Playback time (microseconds).
    pub pts_us: i64,
}

/// The LOC Timestamp and Timescale properties of an object (draft-ietf-moq-loc-04 §2.3.1).
#[derive(Debug, Clone, Copy, PartialEq, Eq, Structural)]
pub struct LocTiming {
    /// The Timestamp property, if present.
    pub timestamp: Option<u64>,
    /// The Timescale property, if present.
    pub timescale: Option<u64>,
}

/// The presentation time in microseconds of LOC timing properties: none without a
/// Timestamp or with a zero Timescale; a missing Timescale means microseconds; the value
/// is capped at `i64::MAX`.
pub open spec fn spec_pts_us(properties: Option<LocTiming>) -> Option<i64> {
    match properties {
        None => None,
        Some(p) => match p.timestamp {
            None => None,
            Some(ts) => {
                let scale: nat = match p.timescale { Some(s) => s as nat, None => 1_000_000 };
                if scale == 0 {
                    None
                } else {
                    let pts = (ts as nat * 1_000_000) / scale;
                    Some(if pts > i64::MAX { i64::MAX } else { pts as i64 })
                }
            },
        },
    }
}

/// Computes the presentation time (microseconds) from the LOC Timestamp and Timescale.
///
/// Without a Timescale the Timestamp is taken to be in microseconds
/// (draft-ietf-moq-loc-04 §2.3.1.1).
pub fn compute_pts_us(properties: Option<&LocTiming>) -> (r: Option<i64>)
    ensures
        r == spec_pts_us(match properties { Some(p) => Some(*p), None => None }),
{
    let properties = match properties {
        Some(p) => p,
        None => return None,
    };
    let timestamp = match properties.timestamp {
        Some(t) => t,
        None => return None,
    };
    let timescale: u64 = match properties.timescale {
        Some(s) => s,
        None => 1_000_000,
    };
    if timescale == 0 {
        return None;
    }
    assert(timestamp as u128 * 1_000_000u128 <= 0xFFFF_FFFF_FFFF_FFFFu128 * 1_000_000u128) by (nonlinear_arith);
    let pts: u128 = timestamp as u128 * 1_000_000u128 / timescale as u128;
    if pts > i64::MAX as u128 {
        Some(i64::MAX)
    } else {
        Some(pts as i64)
    }
}

/// Whether row `row` of a plane with `stride`-byte rows of `width` bytes lies in `len` bytes.
pub open spec fn row_present(len: nat, stride: nat, width: nat, row: nat) -> bool {
    row * stride + width <= len
}

proof fn lemma_row_present_monotone(len: nat, stride: nat, width: nat, a: nat, b: nat)
    requires
        a <= b,
        row_present(len, stride, width, b),
    ensures
        row_present(len, stride, width, a),
{
    assert(a * stride <= b * stride) by (nonlinear_arith)
        requires a <= b;
}

/// The value at `(row, col)` of the packed copy of a plane with `stride`-byte rows.
pub open spec fn packed_pixel(src: Seq<u8>, stride: nat, width: nat, row: int, col: int) -> u8 {
    if row_present(src.len(), stride, width, row as nat) {
        src[row * stride + col]
    } else {
        0u8
    }
}

/// Copies a plane with `stride`-byte rows into a packed `width` x `height` plane. Copying
/// stops at the first row that does not lie wholly in `src`; what is not copied stays 0.
pub fn copy_plane(src: &[u8], stride: usize, width: usize, height: usize) -> (r: Vec<u8>)
    requires
        width * height <= usize::MAX,
    ensures
        r@.len() == width * height,
        forall|row: int, col: int| 0 <= row < height && 0 <= col < width ==>
            #[trigger] r@[row * width + col] == packed_pixel(src@, stride as nat, width as nat, row, col),
{
    let mut out: Vec<u8> = vec![0u8; width * height];
    let ghost total = width * height;
    assert(total == height * width) by (nonlinear_arith)
        requires total == width * height;
    let mut row: usize = 0;
    while row < height
        invariant_except_break
            row <= height,
            out@.len() == total,
            total == width * height,
            total == height * width,
            width * height <= usize::MAX,
            forall|i: int| 0 <= i < row * width ==>
                #[trigger] out@[i] == packed_pixel(src@, stride as nat, width as nat, i / width as int, i % width as int),
            forall|i: int| row * width <= i < total ==> #[trigger] out@[i] == 0u8,
        ensures
            out@.len() == total,
            forall|i: int| 0 <= i < total ==>
                #[trigger] out@[i] == packed_pixel(src@, stride as nat, width as nat, i / width as int, i % width as int),
        decreases height - row,
    {
        let src_start = crate::bytes::saturating_mul(row, stride);
        assert(row * width + width <= width * height) by (nonlinear_arith)
            requires row < height;
        let dst_start = row * width;
        if src_start > src.len() || width > src.len() - src_start {
            proof {
                assert(!row_present(src@.len(), stride as nat, width as nat, row as nat));
                assert forall|i: int| row * width <= i < total implies
                    #[trigger] out@[i] == packed_pixel(src@, stride as nat, width as nat, i / width as int, i % width as int) by {
                    let r = i / width as int;
                    assert(r >= row) by (nonlinear_arith)
                        requires row * width <= i, width > 0, r == i / width as int;
                    if row_present(src@.len(), stride as nat, width as nat, r as nat) {
                        lemma_row_present_monotone(src@.len(), stride as nat, width as nat, row as nat, r as nat);
                    }
                }
            }
            break;
        }
        let mut col: usize = 0;
        while col < width
            invariant
                row < height,
                dst_start == row * width,
                dst_start + width <= total,
                width > 0 ==> src_start == row * stride,
                src_start + width <= src@.len(),
                src@.len() == src.len(),
                total <= usize::MAX,
                out@.len() == total,
                col <= width,
                forall|i: int| 0 <= i < dst_start + col ==>
                    #[trigger] out@[i] == packed_pixel(src@, stride as nat, width as nat, i / width as int, i % width as int),
                forall|i: int| dst_start + col <= i < total ==> #[trigger] out@[i] == 0u8,
            decreases width - col,
        {
            proof {
                crate::bytes::lemma_row_index(row as int, col as int, width as int);
            }
            assert(src_start == row * stride);
            out.set(dst_start + col, src[src_start + col]);
            col = col + 1;
        }
        assert((row + 1) * width == row * width + width) by (nonlinear_arith);
        row = row + 1;
    }
    proof {
        assert forall|r: int, c: int| 0 <= r < height && 0 <= c < width implies
            #[trigger] out@[r * width + c] == packed_pixel(src@, stride as nat, width as nat, r, c) by {
            crate::bytes::lemma_row_index(r, c, width as int);
            assert(r * width + c < width * height) by (nonlinear_arith)
                requires r < height, c < width;
        }
    }
    out
}

/// The little-endian bytes of interleaved S16 samples.
pub open spec fn spec_pcm_bytes(pcm: Seq<i16>) -> Seq<u8>
    decreases pcm.len(),
{
    if pcm.len() == 0 {
        seq![]
    } else {
        spec_pcm_bytes(pcm.drop_last()) + seq![((pcm.last() as u16) % 256) as u8, ((pcm.last() as u16) / 256) as u8]
    }
}

/// Converts `&[i16]` to little-endian bytes.
pub fn pcm_i16_to_bytes(pcm: &[i16]) -> (r: Vec<u8>)
    ensures
        r@ == spec_pcm_bytes(pcm@),
{
    let mut buf: Vec<u8> = Vec::new();
    let mut i: usize = 0;
    while i < pcm.len()
        invariant
            i <= pcm@.len(),
            buf@ == spec_pcm_bytes(pcm@.take(i as int)),
        decreases pcm@.len() - i,
    {
        let sample = pcm[i] as u16;
        buf.push((sample % 256) as u8);
        buf.push((sample / 256) as u8);
        proof {
            assert(pcm@.take(i + 1).drop_last() =~= pcm@.take(i as int));
            assert(pcm@.take(i + 1).last() == pcm@[i as int]);
        }
        i = i + 1;
        assert(buf@ =~= spec_pcm_bytes(pcm@.take(i as int)));
    }
    assert(pcm@.take(i as int) =~= pcm@);
    buf
}

// ─── Subscribing ────────────────────────────────────────────────────────────

/// The error that stops subscribing to what the catalog offers, if any: no usable track at
/// all, a video codec other than H.264 (`avc1` / `avc3`), or video without the OpenH264
/// library.
pub open spec fn subscription_error(video_codec: Option<Seq<char>>, audio_found: bool, openh264_loaded: bool) -> Option<(MoqErrorKind, Seq<char>)> {
    match video_codec {
        None => if audio_found { None } else { Some((MoqErrorKind::Catalog, "catalog has no usable track"@)) },
        Some(codec) => if !(starts_with(codec, "avc1"@) || starts_with(codec, "avc3"@)) {
            Some((MoqErrorKind::Media, "unsupported video codec: "@ + codec))
        } else if !openh264_loaded {
            Some((MoqErrorKind::Config, "subscribing video requires '--openh264' to load the OpenH264 library"@))
        } else {
            None
        },
    }
}

/// Checks what the catalog offers before subscribing (the video track found, whether an
/// audio track was found, and whether the OpenH264 library is loaded).
pub fn check_subscription(video: Option<&VideoTrackInfo>, audio_found: bool, openh264_loaded: bool) -> (r: Result<(), MoqError>)
    ensures
        match subscription_error(match video { Some(v) => Some(v.codec@), None => None }, audio_found, openh264_loaded) {
            None => r is Ok,
            Some((kind, message)) => r matches Err(e) && e.spec_kind() == kind && e.spec_message() == message,
        },
{
    proof {
        reveal_strlit("avc1");
        reveal_strlit("avc3");
    }
    match video {
        None => {
            if audio_found {
                Ok(())
            } else {
                Err(MoqError::Catalog("catalog has no usable track".to_owned()))
            }
        },
        Some(video) => {
            let codec = video.codec.as_str();
            if !(crate::moq::catalog::str_starts_with(codec, "avc1") || crate::moq::catalog::str_starts_with(codec, "avc3")) {
                let mut m = "unsupported video codec: ".to_owned();
                m.append(codec);
                return Err(MoqError::Media(m));
            }
            if !openh264_loaded {
                return Err(MoqError::Config(
                    "subscribing video requires '--openh264' to load the OpenH264 library".to_owned(),
                ));
            }
            Ok(())
        },
    }
}

// ─── Data streams ───────────────────────────────────────────────────────────

/// Cap on video frames waiting to be shown; beyond it whole groups are dropped, since
/// dropping single frames would lose reference frames.
pub const MAX_DISPLAY_BACKLOG: i64 = 20;
/// Frame interval assumed for video objects without a timestamp (30 fps, microseconds).
pub const DEFAULT_VIDEO_FRAME_INTERVAL_US: i64 = 33_333;

/// The kinds of data stream (draft-ietf-moq-transport-21 §10.4).
#[derive(Debug, Clone, Copy, PartialEq, Eq, Structural)]
pub enum DataStreamKind {
    Subgroup,
    Fetch,
    Padding,
}

/// What to do with an incoming data stream.
#[derive(Debug, Clone, Copy, PartialEq, Eq, Structural)]
pub enum StreamRoute {
    /// Read it as a subgroup.
    Subgroup,
    /// Read it to its end and discard it.
    Drain,
}

/// Routes a data stream by its kind: subgroups are read; FETCH responses (only the catalog
/// is fetched, and not here) and padding are discarded; an unknown type is an error.
pub fn route_stream(kind: Option<DataStreamKind>, stream_type_id: u64) -> (r: Result<StreamRoute, MoqError>)
    ensures
        match kind {
            Some(DataStreamKind::Subgroup) => r == Ok::<StreamRoute, MoqError>(StreamRoute::Subgroup),
            Some(_) => r == Ok::<StreamRoute, MoqError>(StreamRoute::Drain),
            None => r matches Err(e) && e is Session
                && e.spec_message() == "unexpected data stream type: "@ + dec(stream_type_id as nat),
        },
{
    match kind {
        Some(DataStreamKind::Subgroup) => Ok(StreamRoute::Subgroup),
        Some(_) => Ok(StreamRoute::Drain),
        None => {
            let mut m = "unexpected data stream type: ".to_owned();
            push_decimal(&mut m, stream_type_id);
            Err(MoqError::Session(m))
        },
    }
}

/// The name `{:?}` gives a stream kind that may be missing.
pub open spec fn kind_debug(kind: Option<DataStreamKind>) -> Seq<char> {
    match kind {
        Some(DataStreamKind::Subgroup) => "Some(Subgroup)"@,
        Some(DataStreamKind::Fetch) => "Some(Fetch)"@,
        Some(DataStreamKind::Padding) => "Some(Padding)"@,
        None => "None"@,
    }
}

/// Routes a data stream that arrives while waiting for the catalog: the FETCH response is
/// read (`Subgroup`), padding is discarded (`Drain`), anything else is an error (after the
/// stream is discarded).
pub fn route_catalog_stream(kind: Option<DataStreamKind>) -> (r: Result<StreamRoute, MoqError>)
    ensures
        match kind {
            Some(DataStreamKind::Fetch) => r == Ok::<StreamRoute, MoqError>(StreamRoute::Subgroup),
            Some(DataStreamKind::Padding) => r == Ok::<StreamRoute, MoqError>(StreamRoute::Drain),
            _ => r matches Err(e) && e is Session
                && e.spec_message() == "unexpected data stream while waiting for the catalog: "@ + kind_debug(kind),
        },
{
    let name = match kind {
        Some(DataStreamKind::Fetch) => return Ok(StreamRoute::Subgroup),
        Some(DataStreamKind::Padding) => return Ok(StreamRoute::Drain),
        Some(DataStreamKind::Subgroup) => "Some(Subgroup)",
        None => "None",
    };
    let mut m = "unexpected data stream while waiting for the catalog: ".to_owned();
    m.append(name);
    Err(MoqError::Session(m))
}

/// The kind of a subscribed track.
#[derive(Debug, Clone, Copy, PartialEq, Eq, Structural)]
pub enum TrackKind {
    Video,
    Audio,
}

/// What to do with a subgroup stream.
#[derive(Debug, Clone, Copy, PartialEq, Eq, Structural)]
pub enum SubgroupRoute {
    DecodeVideo,
    DecodeAudio,
    /// Ask the sender to stop and discard the stream.
    Drop,
}

/// Routes a subgroup stream: one the session did not accept, one of an unknown track, or a
/// video group while more than `MAX_DISPLAY_BACKLOG` frames wait to be shown is dropped.
pub fn route_subgroup(accepted: bool, kind: Option<TrackKind>, backlog: i64) -> (r: SubgroupRoute)
    ensures
        r == (if !accepted {
            SubgroupRoute::Drop
        } else {
            match kind {
                Some(TrackKind::Video) => if backlog > MAX_DISPLAY_BACKLOG { SubgroupRoute::Drop } else { SubgroupRoute::DecodeVideo },
                Some(TrackKind::Audio) => SubgroupRoute::DecodeAudio,
                None => SubgroupRoute::Drop,
            }
        }),
{
    if !accepted {
        return SubgroupRoute::Drop;
    }
    match kind {
        Some(TrackKind::Video) => if backlog > MAX_DISPLAY_BACKLOG { SubgroupRoute::Drop } else { SubgroupRoute::DecodeVideo },
        Some(TrackKind::Audio) => SubgroupRoute::DecodeAudio,
        None => SubgroupRoute::Drop,
    }
}

// ─── Video objects ──────────────────────────────────────────────────────────

/// A received video object, as far as decoding reads it.
#[derive(Debug, Clone)]
pub struct VideoObject {
    /// Whether the session accepted the object.
    pub accepted: bool,
    /// Whether the object carries a status instead of data.
    pub has_status: bool,
    /// The payload (length-prefixed H.264).
    pub payload: Vec<u8>,
    /// The LOC Timestamp and Timescale, when the object has properties.
    pub timing: Option<LocTiming>,
    /// The LOC Video Config (an AVCDecoderConfigurationRecord), if present.
    pub video_config: Option<Vec<u8>>,
    /// The LOC Video Frame Marking, if present.
    pub frame_marking: Option<Vec<u8>>,
}

/// What decoding a video subgroup remembers between objects.
#[derive(Debug, Clone)]
pub struct VideoStreamState {
    /// SPS then PPS of the last Video Config.
    pub parameter_sets: Option<Vec<Vec<u8>>>,
    /// The last presentation time given by a timestamp (microseconds).
    pub last_pts_us: i64,
}

/// The view of optional parameter sets.
pub open spec fn sets_view(s: Option<Vec<Vec<u8>>>) -> Option<Seq<Seq<u8>>> {
    match s {
        Some(v) => Some(byte_seqs(v@)),
        None => None,
    }
}

/// Whether an object is passed over without a look: not accepted, a status, or empty.
pub open spec fn passed_over(o: VideoObject) -> bool {
    !o.accepted || o.has_status || o.payload@.len() == 0
}

/// Whether the Video Frame Marking marks a keyframe (the I bit, 0x20, of its first byte).
pub open spec fn marks_keyframe(marking: Option<Vec<u8>>) -> bool {
    marking matches Some(m) && m@.len() > 0 && (m@[0] & 0x20u8) != 0
}

/// The parameter sets after an object: those of its Video Config, or the message of the
/// Video Config that does not parse.
pub open spec fn sets_after(o: VideoObject, sets: Option<Seq<Seq<u8>>>) -> Result<Option<Seq<Seq<u8>>>, Seq<char>> {
    match o.video_config {
        None => Ok(sets),
        Some(c) => match spec_parse_avc_record(c@) {
            Ok((sps, pps, _)) => Ok(Some(sps + pps)),
            Err(m) => Err(m),
        },
    }
}

impl VideoStreamState {
    /// A video subgroup before its first object.
    pub fn new() -> (r: Self)
        ensures
            r.parameter_sets is None,
            r.last_pts_us == 0,
    {
        VideoStreamState { parameter_sets: None, last_pts_us: 0 }
    }

    /// Takes in a video object. Returns the Annex B bytes to decode and their presentation
    /// time, `None` when there is nothing to decode, or the error that ends the stream.
    ///
    /// An object without a timestamp is shown one frame interval after the last timestamp.
    /// Nothing is decoded before a Video Config (whose SPS / PPS then go in front of each
    /// keyframe) or without a decoder.
    pub fn take_object(&mut self, object: &VideoObject, decoder_available: bool) -> (r: Result<Option<(Vec<u8>, i64)>, MoqError>)
        requires
            !passed_over(*object) && spec_pts_us(object.timing) is None
                ==> old(self).last_pts_us + DEFAULT_VIDEO_FRAME_INTERVAL_US <= i64::MAX,
        ensures
            passed_over(*object) ==> r == Ok::<Option<(Vec<u8>, i64)>, MoqError>(None)
                && final(self).last_pts_us == old(self).last_pts_us
                && sets_view(final(self).parameter_sets) == sets_view(old(self).parameter_sets),
            !passed_over(*object) ==> {
                let pts = match spec_pts_us(object.timing) {
                    Some(p) => p as int,
                    None => old(self).last_pts_us + DEFAULT_VIDEO_FRAME_INTERVAL_US,
                };
                &&& final(self).last_pts_us == match spec_pts_us(object.timing) {
                    Some(p) => p,
                    None => old(self).last_pts_us,
                }
                &&& match sets_after(*object, sets_view(old(self).parameter_sets)) {
                    Err(m) => r matches Err(e) && e is Media && e.spec_message() == m
                        && sets_view(final(self).parameter_sets) == sets_view(old(self).parameter_sets),
                    Ok(sets) => {
                        &&& sets_view(final(self).parameter_sets) == sets
                        &&& if sets is None || !decoder_available {
                            r == Ok::<Option<(Vec<u8>, i64)>, MoqError>(None)
                        } else {
                            match spec_length_prefixed_to_annex_b(object.payload@, LENGTH_SIZE as nat, 0) {
                                Ok(out) => r matches Ok(Some((bytes, t))) && t == pts && bytes@ == (
                                    if marks_keyframe(object.frame_marking) { annex_b_bytes(sets.unwrap()) + out } else { out }),
                                Err(true) => r matches Err(e) && e is Media && e.spec_message()
                                    == "length-prefixed H.264 payload is truncated in a length field"@,
                                Err(false) => r matches Err(e) && e is Media && e.spec_message()
                                    == "length-prefixed H.264 payload is truncated in a NAL"@,
                            }
                        }
                    },
                }
            },
    {
        if !object.accepted || object.has_status || object.payload.len() == 0 {
            return Ok(None);
        }
        let pts_us = match compute_pts_us(object.timing.as_ref()) {
            Some(pts) => {
                self.last_pts_us = pts;
                pts
            },
            None => self.last_pts_us + DEFAULT_VIDEO_FRAME_INTERVAL_US,
        };
        if let Some(config) = &object.video_config {
            let parsed = parse_avc_decoder_config_record(config.as_slice())?;
            let mut sets = parsed.sps;
            let mut pps = parsed.pps;
            let ghost sps_view = byte_seqs(sets@);
            let ghost pps_view = byte_seqs(pps@);
            sets.append(&mut pps);
            assert(byte_seqs(sets@) =~= sps_view + pps_view);
            self.parameter_sets = Some(sets);
        }
        let is_keyframe = match &object.frame_marking {
            Some(marking) => marking.len() > 0 && (marking[0] & 0x20u8) != 0,
            None => false,
        };
        let sets = match &self.parameter_sets {
            Some(sets) => sets,
            None => return Ok(None),
        };
        if !decoder_available {
            return Ok(None);
        }
        let annex_b = length_prefixed_to_annex_b(object.payload.as_slice(), LENGTH_SIZE)?;
        if is_keyframe {
            let mut with_sets = nals_to_annex_b(sets.as_slice());
            let mut rest = annex_b;
            with_sets.append(&mut rest);
            Ok(Some((with_sets, pts_us)))
        } else {
            Ok(Some((annex_b, pts_us)))
        }
    }
}

// ─── Audio objects ──────────────────────────────────────────────────────────

/// What decoding an audio subgroup remembers between objects.
#[derive(Debug, Clone, Copy)]
pub struct AudioStreamState {
    /// Whether the Audio Config was checked (it is checked once).
    pub config_checked: bool,
    /// The last presentation time given by a timestamp (microseconds).
    pub last_pts_us: i64,
}

/// What to do with a received audio object.
#[derive(Debug, Clone, Copy, PartialEq, Eq, Structural)]
pub struct AudioObjectPlan {
    /// Check the object's Audio Config against the decoder first.
    pub check_config: bool,
    /// The presentation time of the decoded samples (microseconds).
    pub pts_us: i64,
}

impl AudioStreamState {
    /// An audio subgroup before its first object.
    pub fn new() -> (r: Self)
        ensures
            !r.config_checked,
            r.last_pts_us == 0,
    {
        AudioStreamState { config_checked: false, last_pts_us: 0 }
    }

    /// Takes in an audio object: `None` when it is passed over (not accepted, a status, or
    /// empty); otherwise its presentation time (the last one when it has no timestamp) and
    /// whether its Audio Config is the first one to check.
    pub fn take_object(&mut self, accepted: bool, has_status: bool, payload_len: usize, timing: Option<LocTiming>, has_config: bool)
        -> (r: Option<AudioObjectPlan>)
        ensures
            !accepted || has_status || payload_len == 0 ==> r is None && *final(self) == *old(self),
            accepted && !has_status && payload_len > 0 ==> {
                let pts = match spec_pts_us(timing) {
                    Some(p) => p,
                    None => old(self).last_pts_us,
                };
                &&& r == Some(AudioObjectPlan { check_config: !old(self).config_checked && has_config, pts_us: pts })
                &&& final(self).last_pts_us == pts
                &&& final(self).config_checked == (old(self).config_checked || has_config)
            },
    {
        if !accepted || has_status || payload_len == 0 {
            return None;
        }
        let pts_us = match compute_pts_us(timing.as_ref()) {
            Some(pts) => {
                self.last_pts_us = pts;
                pts
            },
            None => self.last_pts_us,
        };
        let check_config = !self.config_checked && has_config;
        if check_config {
            self.config_checked = true;
        }
        Some(AudioObjectPlan { check_config, pts_us })
    }
}

} // verus!
