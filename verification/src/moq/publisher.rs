//! Decisions of the sora-moq publisher that do not touch the network.

use vstd::prelude::*;

use crate::bytes::bytes_eq;
use crate::moq::error::MoqError;
use crate::text::{push_signed_decimal, signed_dec};

verus! {

/// Timescale of the video track (draft-ietf-moq-loc-04 §2.3.1.2 gives 90000 as example).
pub const VIDEO_TIMESCALE: u64 = 90_000;
/// Track Alias of the video track.
pub const VIDEO_TRACK_ALIAS: u64 = 1;
/// Track Alias of the audio track.
pub const AUDIO_TRACK_ALIAS: u64 = 2;
/// Track Alias of the catalog track.
pub const CATALOG_TRACK_ALIAS: u64 = 0;

/// Converts capture times to timescale units.
///
/// So that rounding never repeats a value, a result that is not above the previous one
/// becomes the previous one plus 1.
#[derive(Debug)]
pub struct TimestampConverter {
    /// Units per second.
    timescale: u64,
    /// The previous value.
    last: Option<u64>,
}

/// What a converter holds: its timescale and the value it gave last.
pub struct TimestampConverterView {
    pub timescale: u64,
    pub last: Option<u64>,
}

impl View for TimestampConverter {
    type V = TimestampConverterView;

    closed spec fn view(&self) -> TimestampConverterView {
        TimestampConverterView { timescale: self.timescale, last: self.last }
    }
}

/// A capture time in microseconds expressed in `timescale` units: 0 for times not after
/// the epoch, otherwise the quotient truncated to 64 bits.
pub open spec fn spec_scaled(timestamp_us: i64, timescale: u64) -> u64 {
    if timestamp_us <= 0 {
        0
    } else {
        ((timestamp_us as int * timescale as int) / 1_000_000) as u64
    }
}

impl TimestampConverter {
    /// A converter for `timescale` units per second that has given no value yet.
    pub fn new(timescale: u64) -> (r: Self)
        ensures
            r@.timescale == timescale,
            r@.last is None,
    {
        TimestampConverter { timescale, last: None }
    }

    /// Converts a capture time (microseconds). The result is the scaled time, or the
    /// previous result plus 1 when the scaled time is not above it; the results thus
    /// strictly increase.
    pub fn convert(&mut self, timestamp_us: i64) -> (r: u64)
        requires
            old(self)@.last != Some(u64::MAX),
        ensures
            final(self)@.timescale == old(self)@.timescale,
            final(self)@.last == Some(r),
            r == match old(self)@.last {
                Some(last) => if spec_scaled(timestamp_us, old(self)@.timescale) <= last {
                    (last + 1) as u64
                } else {
                    spec_scaled(timestamp_us, old(self)@.timescale)
                },
                None => spec_scaled(timestamp_us, old(self)@.timescale),
            },
            old(self)@.last matches Some(last) ==> r > last,
    {
        let converted: u64 = if timestamp_us <= 0 {
            0
        } else {
            assert(timestamp_us as u128 * self.timescale as u128 <= 0xFFFF_FFFF_FFFF_FFFFu128 * 0xFFFF_FFFF_FFFF_FFFFu128) by (nonlinear_arith)
                requires timestamp_us > 0;
            ((timestamp_us as u128 * self.timescale as u128) / 1_000_000u128) as u64
        };
        let value = match self.last {
            Some(last) => if converted <= last { last + 1 } else { converted },
            None => converted,
        };
        self.last = Some(value);
        value
    }

    /// Starts the timestamps at a first capture time: converts it when no value was given
    /// yet, and otherwise leaves the converter as it is.
    pub fn start_at(&mut self, timestamp_us: i64)
        ensures
            final(self)@.timescale == old(self)@.timescale,
            final(self)@.last == match old(self)@.last {
                Some(last) => Some(last),
                None => Some(spec_scaled(timestamp_us, old(self)@.timescale)),
            },
    {
        if self.last.is_none() {
            self.convert(timestamp_us);
        }
    }

    /// Advances the previous value by `delta` (the first value is 0) and returns it.
    pub fn advance(&mut self, delta: u64) -> (r: u64)
        requires
            old(self)@.last matches Some(last) ==> last + delta <= u64::MAX,
        ensures
            final(self)@.timescale == old(self)@.timescale,
            final(self)@.last == Some(r),
            r == match old(self)@.last {
                Some(last) => (last + delta) as u64,
                None => 0,
            },
    {
        let value = match self.last {
            Some(last) => last + delta,
            None => 0,
        };
        self.last = Some(value);
        value
    }
}

// ─── Subgroup streams ───────────────────────────────────────────────────────

/// How a subgroup stream is closed.
#[derive(Debug, Clone, Copy, PartialEq, Eq, Structural)]
pub enum SubgroupEnd {
    /// FIN: the group went out whole.
    Fin,
    /// RESET: the group is incomplete.
    Reset,
}

/// What the writer of one subgroup stream remembers of the objects it has handled.
#[derive(Debug, Clone, Copy)]
pub struct SubgroupState {
    next_object_id: u64,
    previous_object_id: Option<u64>,
    header_sent: bool,
    skipped: bool,
}

/// The view of a subgroup state.
pub struct SubgroupStateView {
    /// The Object ID of the next object.
    pub next_object_id: u64,
    /// The Object ID of the last object sent.
    pub previous_object_id: Option<u64>,
    /// Whether the Subgroup Header was written.
    pub header_sent: bool,
    /// Whether the filters made the writer skip an object.
    pub skipped: bool,
}

impl View for SubgroupState {
    type V = SubgroupStateView;

    closed spec fn view(&self) -> SubgroupStateView {
        SubgroupStateView {
            next_object_id: self.next_object_id,
            previous_object_id: self.previous_object_id,
            header_sent: self.header_sent,
            skipped: self.skipped,
        }
    }
}

/// The Object ID Delta of object `object_id` after the object `previous` last sent
/// (draft-ietf-moq-transport-21 §10.4.2): the number of Object IDs skipped in between.
pub open spec fn object_id_delta(object_id: u64, previous: Option<u64>) -> int {
    match previous {
        None => object_id as int,
        Some(p) => object_id - p - 1,
    }
}

impl SubgroupState {
    #[verifier::type_invariant]
    spec fn ids_ordered(&self) -> bool {
        &&& self.previous_object_id matches Some(p) ==> p < self.next_object_id
        &&& self.header_sent == (self.previous_object_id is Some)
    }

    /// A subgroup with no object yet.
    pub fn new() -> (r: Self)
        ensures
            r@.next_object_id == 0,
            r@.previous_object_id is None,
            !r@.header_sent,
            !r@.skipped,
    {
        SubgroupState { next_object_id: 0, previous_object_id: None, header_sent: false, skipped: false }
    }

    /// The Object ID of the next object and its Object ID Delta.
    pub fn next_object(&self) -> (r: (u64, u64))
        ensures
            r.0 == self@.next_object_id,
            r.1 == object_id_delta(self@.next_object_id, self@.previous_object_id),
            self@.previous_object_id matches Some(p) ==> p < self@.next_object_id,
    {
        proof {
            use_type_invariant(self);
        }
        let object_id = self.next_object_id;
        let delta = match self.previous_object_id {
            None => object_id,
            Some(previous) => object_id - previous - 1,
        };
        (object_id, delta)
    }

    /// Records that the filters skipped the next object: its Object ID is used up and the
    /// group is now incomplete.
    pub fn on_skipped(&mut self)
        requires
            old(self)@.next_object_id < u64::MAX,
        ensures
            final(self)@.next_object_id == old(self)@.next_object_id + 1,
            final(self)@.previous_object_id == old(self)@.previous_object_id,
            final(self)@.header_sent == old(self)@.header_sent,
            final(self)@.skipped,
    {
        proof {
            use_type_invariant(&*self);
        }
        self.next_object_id = self.next_object_id + 1;
        self.skipped = true;
    }

    /// Records that the next object is sent. Returns, when the Subgroup Header has to be
    /// written before it, whether the object is the group's first (Object ID 0).
    pub fn on_sent(&mut self) -> (r: Option<bool>)
        requires
            old(self)@.next_object_id < u64::MAX,
        ensures
            r == (if old(self)@.header_sent { None } else { Some(old(self)@.next_object_id == 0) }),
            final(self)@.next_object_id == old(self)@.next_object_id + 1,
            final(self)@.previous_object_id == Some(old(self)@.next_object_id),
            final(self)@.header_sent,
            final(self)@.skipped == old(self)@.skipped,
    {
        proof {
            use_type_invariant(&*self);
        }
        let object_id = self.next_object_id;
        let header = if self.header_sent { None } else { Some(object_id == 0) };
        *self = SubgroupState {
            next_object_id: object_id + 1,
            previous_object_id: Some(object_id),
            header_sent: true,
            skipped: self.skipped,
        };
        header
    }

    /// How the stream is closed: RESET when no object went out or one was skipped, since
    /// the group is then incomplete (draft-ietf-moq-transport-21 §11.3.2); FIN otherwise.
    pub fn closing(&self) -> (r: SubgroupEnd)
        ensures
            r == (if !self@.header_sent || self@.skipped { SubgroupEnd::Reset } else { SubgroupEnd::Fin }),
    {
        if !self.header_sent || self.skipped { SubgroupEnd::Reset } else { SubgroupEnd::Fin }
    }
}

/// The Object ID Delta tells the receiver how many objects were skipped: sending after
/// skipping `k` objects gives a delta of `k` and moves the previous id to the object sent.
pub proof fn lemma_delta_counts_skipped(previous: u64, k: u64)
    requires
        previous + k + 1 <= u64::MAX,
    ensures
        object_id_delta((previous + k + 1) as u64, Some(previous)) == k,
{
}

// ─── Audio ──────────────────────────────────────────────────────────────────

/// Interleaved stereo samples from a capture of `channels` channels: mono samples are
/// doubled, stereo is kept, other channel counts are refused.
pub open spec fn spec_to_stereo(pcm: Seq<i16>, channels: u8) -> Option<Seq<i16>> {
    if channels == 1 {
        Some(Seq::new(2 * pcm.len(), |i: int| pcm[i / 2]))
    } else if channels == 2 {
        Some(pcm)
    } else {
        None
    }
}

/// Brings captured PCM to interleaved stereo (mono is duplicated); `None` for other
/// channel counts.
pub fn to_stereo(pcm: &[i16], channels: u8) -> (r: Option<Vec<i16>>)
    requires
        channels == 1 ==> 2 * pcm@.len() <= usize::MAX,
    ensures
        match spec_to_stereo(pcm@, channels) {
            Some(s) => r matches Some(v) && v@ == s,
            None => r is None,
        },
{
    if channels == 1 {
        let mut out: Vec<i16> = Vec::new();
        let mut i: usize = 0;
        while i < pcm.len()
            invariant
                i <= pcm@.len(),
                out@.len() == 2 * i,
                forall|j: int| 0 <= j < 2 * i ==> #[trigger] out@[j] == pcm@[j / 2],
            decreases pcm@.len() - i,
        {
            out.push(pcm[i]);
            out.push(pcm[i]);
            i = i + 1;
        }
        assert(out@ =~= Seq::new(2 * pcm@.len(), |j: int| pcm@[j / 2]));
        Some(out)
    } else if channels == 2 {
        Some(crate::bytes::i16_vec(pcm))
    } else {
        None
    }
}

/// Takes the next frame of `frame_samples` samples off the front of the PCM waiting to be
/// encoded, when that much is waiting.
pub fn next_audio_frame(buffer: &mut Vec<i16>, frame_samples: usize) -> (r: Option<Vec<i16>>)
    requires
        frame_samples > 0,
    ensures
        if old(buffer)@.len() >= frame_samples {
            &&& r matches Some(f) && f@ == old(buffer)@.take(frame_samples as int)
            &&& final(buffer)@ == old(buffer)@.skip(frame_samples as int)
        } else {
            r is None && final(buffer)@ == old(buffer)@
        },
{
    if buffer.len() < frame_samples {
        return None;
    }
    let mut frame: Vec<i16> = Vec::new();
    let mut rest: Vec<i16> = Vec::new();
    let mut i: usize = 0;
    while i < buffer.len()
        invariant
            i <= buffer@.len(),
            frame_samples <= buffer@.len(),
            frame@ == buffer@.take(if i < frame_samples { i as int } else { frame_samples as int }),
            rest@ == buffer@.subrange(if i < frame_samples { i as int } else { frame_samples as int }, i as int),
        decreases buffer@.len() - i,
    {
        if i < frame_samples {
            frame.push(buffer[i]);
        } else {
            rest.push(buffer[i]);
        }
        i = i + 1;
        proof {
            assert(frame@ =~= buffer@.take(if i < frame_samples { i as int } else { frame_samples as int }));
            assert(rest@ =~= buffer@.subrange(if i < frame_samples { i as int } else { frame_samples as int }, i as int));
        }
    }
    assert(rest@ =~= buffer@.skip(frame_samples as int));
    *buffer = rest;
    Some(frame)
}

// ─── Video ──────────────────────────────────────────────────────────────────

/// The Video Frame Marking byte of a frame (draft-ietf-moq-loc-04 §2.3.2.2, RFC 9626):
/// one object is one frame, so S and E are always set; I (0x20) only on keyframes.
pub fn frame_marking(is_keyframe: bool) -> (r: u8)
    ensures
        r == (if is_keyframe { 0xE0u8 } else { 0xC0u8 }),
{
    if is_keyframe { 0xE0 } else { 0xC0 }
}

/// What to do with an encoded video frame.
#[derive(Debug, Clone, Copy, PartialEq, Eq, Structural)]
pub struct VideoObjectPlan {
    /// Close the subgroup of the group open so far.
    pub finish_open_group: bool,
    /// Open a subgroup for a new group with this Group ID first.
    pub new_group: Option<u64>,
    /// Write the frame as the next object of the open group.
    pub write: bool,
}

/// The groups of the video track: each keyframe starts a new group (one subgroup stream).
#[derive(Debug, Clone, Copy)]
pub struct VideoGroups {
    /// Whether a group is open.
    pub open: bool,
    /// The Group ID of the next group.
    pub next_group_id: u64,
}

impl VideoGroups {
    /// No group yet; the first will be group 0.
    pub fn new() -> (r: Self)
        ensures
            !r.open,
            r.next_group_id == 0,
    {
        VideoGroups { open: false, next_group_id: 0 }
    }

    /// Plans the sending of a frame. A keyframe closes the open group and opens the next
    /// one (the track must have been published); other frames go into the open group, and
    /// are dropped before the first keyframe since they have no group.
    pub fn plan(&mut self, is_keyframe: bool, published: bool) -> (r: Result<VideoObjectPlan, MoqError>)
        requires
            is_keyframe ==> old(self).next_group_id < u64::MAX,
        ensures
            is_keyframe && !published ==> {
                &&& r matches Err(e) && e matches MoqError::Session(m) && m@ == "video track is not published"@
                &&& !final(self).open && final(self).next_group_id == old(self).next_group_id
            },
            is_keyframe && published ==> {
                &&& r == Ok::<VideoObjectPlan, MoqError>(VideoObjectPlan {
                    finish_open_group: old(self).open, new_group: Some(old(self).next_group_id), write: true })
                &&& final(self).open && final(self).next_group_id == old(self).next_group_id + 1
            },
            !is_keyframe ==> {
                &&& r == Ok::<VideoObjectPlan, MoqError>(VideoObjectPlan {
                    finish_open_group: false, new_group: None, write: old(self).open })
                &&& *final(self) == *old(self)
            },
    {
        if !is_keyframe {
            return Ok(VideoObjectPlan { finish_open_group: false, new_group: None, write: self.open });
        }
        let finish_open_group = self.open;
        self.open = false;
        if !published {
            return Err(MoqError::Session("video track is not published".to_owned()));
        }
        let group_id = self.next_group_id;
        self.next_group_id = group_id + 1;
        self.open = true;
        Ok(VideoObjectPlan { finish_open_group, new_group: Some(group_id), write: true })
    }
}

// ─── Requests from the relay ────────────────────────────────────────────────

/// A request of the relay, as far as the publisher reads it.
#[derive(Debug, Clone)]
pub enum PeerRequest {
    Subscribe { track_name: Vec<u8> },
    Fetch { track_name: Vec<u8> },
    Other,
}

/// The error codes the publisher answers with.
#[derive(Debug, Clone, Copy, PartialEq, Eq, Structural)]
pub enum RequestErrorCode {
    /// REQUEST_DOES_NOT_EXIST.
    DoesNotExist,
    /// REQUEST_NOT_SUPPORTED.
    NotSupported,
}

/// The answer to a request of the relay.
#[derive(Debug, Clone)]
pub enum RequestReply {
    /// SUBSCRIBE_OK with this Track Alias.
    SubscribeOk { track_alias: u64 },
    /// FETCH_OK, then the catalog as object 0 of group 0.
    ServeCatalog,
    /// REQUEST_ERROR.
    Error { code: RequestErrorCode, reason: String },
}

/// Whether `r` is a REQUEST_ERROR with `code` and `reason`.
pub open spec fn is_error_reply(r: RequestReply, code: RequestErrorCode, reason: Seq<char>) -> bool {
    r matches RequestReply::Error { code: c, reason: m } && c == code && m@ == reason
}

/// The answer to a request of the relay: a SUBSCRIBE to the published `video` or `audio`
/// track is accepted with its alias; a FETCH of the catalog is served once the catalog
/// exists; other tracks do not exist, and other requests are not supported.
pub open spec fn spec_reply(
    request: PeerRequest,
    video_published: bool,
    audio_published: bool,
    catalog_ready: bool,
    catalog_track_name: Seq<u8>,
    r: RequestReply,
) -> bool {
    match request {
        PeerRequest::Subscribe { track_name } =>
            if track_name@ == "video"@.map_values(|c: char| c as u8) && video_published {
                r matches RequestReply::SubscribeOk { track_alias } && track_alias == VIDEO_TRACK_ALIAS
            } else if track_name@ == "audio"@.map_values(|c: char| c as u8) && audio_published {
                r matches RequestReply::SubscribeOk { track_alias } && track_alias == AUDIO_TRACK_ALIAS
            } else {
                is_error_reply(r, RequestErrorCode::DoesNotExist, "unknown track"@)
            },
        PeerRequest::Fetch { track_name } =>
            if track_name@ == catalog_track_name {
                if catalog_ready {
                    r is ServeCatalog
                } else {
                    is_error_reply(r, RequestErrorCode::DoesNotExist, "catalog is not ready"@)
                }
            } else {
                is_error_reply(r, RequestErrorCode::DoesNotExist, "unknown track"@)
            },
        PeerRequest::Other => is_error_reply(r, RequestErrorCode::NotSupported, "unsupported request"@),
    }
}

fn error_reply(code: RequestErrorCode, reason: &str) -> (r: RequestReply)
    ensures
        is_error_reply(r, code, reason@),
{
    RequestReply::Error { code, reason: reason.to_owned() }
}

/// Decides the answer to a request of the relay. `catalog_track_name` is the MSF catalog
/// track name.
pub fn reply_to_request(
    request: &PeerRequest,
    video_published: bool,
    audio_published: bool,
    catalog_ready: bool,
    catalog_track_name: &[u8],
) -> (r: RequestReply)
    ensures
        spec_reply(*request, video_published, audio_published, catalog_ready, catalog_track_name@, r),
{
    let video_name: [u8; 5] = [0x76, 0x69, 0x64, 0x65, 0x6F];
    let audio_name: [u8; 5] = [0x61, 0x75, 0x64, 0x69, 0x6F];
    proof {
        reveal_strlit("video");
        reveal_strlit("audio");
        assert(video_name@ =~= "video"@.map_values(|c: char| c as u8));
        assert(audio_name@ =~= "audio"@.map_values(|c: char| c as u8));
    }
    match request {
        PeerRequest::Subscribe { track_name } => {
            if bytes_eq(track_name.as_slice(), &video_name) && video_published {
                RequestReply::SubscribeOk { track_alias: VIDEO_TRACK_ALIAS }
            } else if bytes_eq(track_name.as_slice(), &audio_name) && audio_published {
                RequestReply::SubscribeOk { track_alias: AUDIO_TRACK_ALIAS }
            } else {
                error_reply(RequestErrorCode::DoesNotExist, "unknown track")
            }
        },
        PeerRequest::Fetch { track_name } => {
            if bytes_eq(track_name.as_slice(), catalog_track_name) {
                if catalog_ready {
                    RequestReply::ServeCatalog
                } else {
                    error_reply(RequestErrorCode::DoesNotExist, "catalog is not ready")
                }
            } else {
                error_reply(RequestErrorCode::DoesNotExist, "unknown track")
            }
        },
        PeerRequest::Other => error_reply(RequestErrorCode::NotSupported, "unsupported request"),
    }
}

/// The message refusing a video size.
pub open spec fn video_size_message(width: i32, height: i32) -> Seq<char> {
    "video size must be a positive even number: "@ + signed_dec(width as int) + "x"@ + signed_dec(height as int)
}

/// Checks, before connecting, what publishing needs: video is encoded with OpenH264, so the
/// library must be loaded, and I420 needs a positive, even width and height. Without video
/// nothing is required.
pub fn check_publish_media(video: bool, openh264_loaded: bool, width: i32, height: i32) -> (r: Result<(), MoqError>)
    ensures
        r is Ok <==> (!video || (openh264_loaded && width > 0 && height > 0 && width % 2 == 0 && height % 2 == 0)),
        video && !openh264_loaded ==> (r matches Err(MoqError::Config(m))
            && m@ == "publishing video requires '--openh264' to load the OpenH264 library"@),
        video && openh264_loaded && !(width > 0 && height > 0 && width % 2 == 0 && height % 2 == 0)
            ==> (r matches Err(MoqError::Config(m)) && m@ == video_size_message(width, height)),
{
    if video {
        if !openh264_loaded {
            return Err(MoqError::Config("publishing video requires '--openh264' to load the OpenH264 library".to_owned()));
        }
        if width <= 0 || height <= 0 || width % 2 != 0 || height % 2 != 0 {
            let mut m = "video size must be a positive even number: ".to_owned();
            push_signed_decimal(&mut m, width);
            m.append("x");
            push_signed_decimal(&mut m, height);
            return Err(MoqError::Config(m));
        }
    }
    Ok(())
}

} // verus!
