//! Choosing the video encoder and decoder implementations of the P2P / Ayame modes.
//!
//! `--{codec}-encoder` / `--{codec}-decoder` name an implementation (`default` /
//! `software` / `nvidia` / `vpl` / `amf` / `videotoolbox`); each one given is resolved
//! here against the codec capabilities the build registered.

use vstd::prelude::*;

use crate::text::str_eq;

verus! {

/// The encoder / decoder implementation chosen per codec. `None` means the built-in
/// (software) implementation.
#[derive(Debug, Default, Clone)]
pub struct CodecSelection {
    pub vp8_encoder: Option<String>,
    pub vp8_decoder: Option<String>,
    pub vp9_encoder: Option<String>,
    pub vp9_decoder: Option<String>,
    pub av1_encoder: Option<String>,
    pub av1_decoder: Option<String>,
    pub h264_encoder: Option<String>,
    pub h264_decoder: Option<String>,
    pub h265_encoder: Option<String>,
    pub h265_decoder: Option<String>,
}

impl CodecSelection {
    /// Whether no option was given.
    pub fn is_empty(&self) -> (r: bool)
        ensures
            r == (self.vp8_encoder is None && self.vp8_decoder is None && self.vp9_encoder is None
                && self.vp9_decoder is None && self.av1_encoder is None && self.av1_decoder is None
                && self.h264_encoder is None && self.h264_decoder is None && self.h265_encoder is None
                && self.h265_decoder is None),
    {
        self.vp8_encoder.is_none()
            && self.vp8_decoder.is_none()
            && self.vp9_encoder.is_none()
            && self.vp9_decoder.is_none()
            && self.av1_encoder.is_none()
            && self.av1_decoder.is_none()
            && self.h264_encoder.is_none()
            && self.h264_decoder.is_none()
            && self.h265_encoder.is_none()
            && self.h265_decoder.is_none()
    }
}

/// The capability implementation name that a command-line value selects.
pub open spec fn spec_implementation_name(value: Seq<char>) -> Option<Seq<char>> {
    if value == "default"@ || value == "software"@ {
        Some("internal"@)
    } else if value == "nvidia"@ {
        Some("nvcodec"@)
    } else if value == "vpl"@ {
        Some("vpl"@)
    } else if value == "amf"@ {
        Some("amf"@)
    } else if value == "videotoolbox"@ {
        Some("internal-apple"@)
    } else {
        None
    }
}

/// Converts a command-line value to the name of the capability implementation it selects.
pub fn implementation_name(value: &str) -> (r: Option<&'static str>)
    ensures
        match spec_implementation_name(value@) {
            Some(name) => r matches Some(n) && n@ == name,
            None => r is None,
        },
{
    if str_eq(value, "default") || str_eq(value, "software") {
        Some("internal")
    } else if str_eq(value, "nvidia") {
        Some("nvcodec")
    } else if str_eq(value, "vpl") {
        Some("vpl")
    } else if str_eq(value, "amf") {
        Some("amf")
    } else if str_eq(value, "videotoolbox") {
        Some("internal-apple")
    } else {
        None
    }
}

/// Encoder or decoder.
#[derive(Debug, Clone, Copy, PartialEq, Eq, Structural)]
pub enum CodecDirection {
    Encoder,
    Decoder,
}

/// The video codecs that can be selected.
#[derive(Debug, Clone, Copy, PartialEq, Eq, Structural)]
pub enum VideoCodecType {
    Vp8,
    Vp9,
    Av1,
    H264,
    H265,
}

/// What the selection reads of a registered codec capability: its implementation name and
/// the (direction, codec) pairs it supports.
#[derive(Debug, Clone)]
pub struct CodecCapability {
    pub implementation_name: String,
    pub supported: Vec<(CodecDirection, VideoCodecType)>,
}

/// One resolved option: the capability (by its index among those registered) to use for a
/// codec in a direction.
#[derive(Debug, Clone, Copy, PartialEq, Eq, Structural)]
pub struct CodecChoice {
    pub direction: CodecDirection,
    pub codec_type: VideoCodecType,
    pub capability: usize,
}

/// The view of an optional string.
pub open spec fn opt_view(o: Option<String>) -> Option<Seq<char>> {
    match o {
        Some(s) => Some(s@),
        None => None,
    }
}

/// The options of a selection in the order they are applied: direction, codec, the label
/// used in messages, and the value given.
pub open spec fn selection_entries(sel: CodecSelection) -> Seq<(CodecDirection, VideoCodecType, Seq<char>, Option<Seq<char>>)> {
    seq![
        (CodecDirection::Encoder, VideoCodecType::Vp8, "VP8 encoder"@, opt_view(sel.vp8_encoder)),
        (CodecDirection::Decoder, VideoCodecType::Vp8, "VP8 decoder"@, opt_view(sel.vp8_decoder)),
        (CodecDirection::Encoder, VideoCodecType::Vp9, "VP9 encoder"@, opt_view(sel.vp9_encoder)),
        (CodecDirection::Decoder, VideoCodecType::Vp9, "VP9 decoder"@, opt_view(sel.vp9_decoder)),
        (CodecDirection::Encoder, VideoCodecType::Av1, "AV1 encoder"@, opt_view(sel.av1_encoder)),
        (CodecDirection::Decoder, VideoCodecType::Av1, "AV1 decoder"@, opt_view(sel.av1_decoder)),
        (CodecDirection::Encoder, VideoCodecType::H264, "H.264 encoder"@, opt_view(sel.h264_encoder)),
        (CodecDirection::Decoder, VideoCodecType::H264, "H.264 decoder"@, opt_view(sel.h264_decoder)),
        (CodecDirection::Encoder, VideoCodecType::H265, "H.265 encoder"@, opt_view(sel.h265_encoder)),
        (CodecDirection::Decoder, VideoCodecType::H265, "H.265 decoder"@, opt_view(sel.h265_decoder)),
    ]
}

/// The index of the first capability whose implementation is named `name`.
pub open spec fn first_capability(caps: Seq<CodecCapability>, name: Seq<char>) -> Option<int>
    decreases caps.len(),
{
    if caps.len() == 0 {
        None
    } else {
        match first_capability(caps.drop_last(), name) {
            Some(i) => Some(i),
            None => if caps.last().implementation_name@ == name { Some(caps.len() - 1) } else { None },
        }
    }
}

/// What one given option resolves to: the chosen capability, or the message refusing it
/// (an unknown value, an implementation this build did not register, or one that does not
/// support the codec in that direction).
pub open spec fn entry_choice(
    caps: Seq<CodecCapability>,
    direction: CodecDirection,
    codec_type: VideoCodecType,
    label: Seq<char>,
    value: Seq<char>,
) -> Result<CodecChoice, Seq<char>> {
    match spec_implementation_name(value) {
        None => Err("unsupported "@ + label + " engine: "@ + value),
        Some(name) => match first_capability(caps, name) {
            None => Err(label + " engine is not available in this build: "@ + value),
            Some(i) => if !caps[i].supported@.contains((direction, codec_type)) {
                Err(label + " is not supported by "@ + value)
            } else {
                Ok(CodecChoice { direction, codec_type, capability: i as usize })
            },
        },
    }
}

/// The choices made by the options `entries` in order, or the message refusing the first
/// option that is refused.
pub open spec fn selection_outcome(
    caps: Seq<CodecCapability>,
    entries: Seq<(CodecDirection, VideoCodecType, Seq<char>, Option<Seq<char>>)>,
) -> Result<Seq<CodecChoice>, Seq<char>>
    decreases entries.len(),
{
    if entries.len() == 0 {
        Ok(seq![])
    } else {
        match selection_outcome(caps, entries.drop_last()) {
            Err(e) => Err(e),
            Ok(prev) => {
                let (direction, codec_type, label, value) = entries.last();
                match value {
                    None => Ok(prev),
                    Some(v) => match entry_choice(caps, direction, codec_type, label, v) {
                        Err(e) => Err(e),
                        Ok(c) => Ok(prev.push(c)),
                    },
                }
            },
        }
    }
}

fn selection_entry<'a>(sel: &'a CodecSelection, k: usize) -> (r: (CodecDirection, VideoCodecType, &'static str, &'a Option<String>))
    requires
        k < 10,
    ensures
        (r.0, r.1, r.2@, opt_view(*r.3)) == selection_entries(*sel)[k as int],
{
    match k {
        0 => (CodecDirection::Encoder, VideoCodecType::Vp8, "VP8 encoder", &sel.vp8_encoder),
        1 => (CodecDirection::Decoder, VideoCodecType::Vp8, "VP8 decoder", &sel.vp8_decoder),
        2 => (CodecDirection::Encoder, VideoCodecType::Vp9, "VP9 encoder", &sel.vp9_encoder),
        3 => (CodecDirection::Decoder, VideoCodecType::Vp9, "VP9 decoder", &sel.vp9_decoder),
        4 => (CodecDirection::Encoder, VideoCodecType::Av1, "AV1 encoder", &sel.av1_encoder),
        5 => (CodecDirection::Decoder, VideoCodecType::Av1, "AV1 decoder", &sel.av1_decoder),
        6 => (CodecDirection::Encoder, VideoCodecType::H264, "H.264 encoder", &sel.h264_encoder),
        7 => (CodecDirection::Decoder, VideoCodecType::H264, "H.264 decoder", &sel.h264_decoder),
        8 => (CodecDirection::Encoder, VideoCodecType::H265, "H.265 encoder", &sel.h265_encoder),
        _ => (CodecDirection::Decoder, VideoCodecType::H265, "H.265 decoder", &sel.h265_decoder),
    }
}

fn find_capability(caps: &[CodecCapability], name: &str) -> (r: Option<usize>)
    ensures
        match first_capability(caps@, name@) {
            Some(i) => 0 <= i < caps@.len() && r == Some(i as usize),
            None => r is None,
        },
{
    let mut i: usize = 0;
    while i < caps.len()
        invariant
            i <= caps@.len(),
            first_capability(caps@.take(i as int), name@) is None,
        decreases caps@.len() - i,
    {
        proof {
            assert(caps@.take(i + 1).drop_last() =~= caps@.take(i as int));
        }
        if str_eq(caps[i].implementation_name.as_str(), name) {
            proof {
                lemma_first_capability_prefix(caps@, name@, (i + 1) as nat);
            }
            return Some(i);
        }
        i = i + 1;
    }
    assert(caps@.take(i as int) =~= caps@);
    None
}

proof fn lemma_first_capability_prefix(caps: Seq<CodecCapability>, name: Seq<char>, k: nat)
    requires
        k <= caps.len(),
        first_capability(caps.take(k as int), name) is Some,
    ensures
        first_capability(caps, name) == first_capability(caps.take(k as int), name),
    decreases caps.len() - k,
{
    if k < caps.len() {
        assert(caps.take((k + 1) as int).drop_last() =~= caps.take(k as int));
        lemma_first_capability_prefix(caps, name, k + 1);
    } else {
        assert(caps.take(k as int) =~= caps);
    }
}

fn supports(cap: &CodecCapability, direction: CodecDirection, codec_type: VideoCodecType) -> (r: bool)
    ensures
        r == cap.supported@.contains((direction, codec_type)),
{
    let mut i: usize = 0;
    while i < cap.supported.len()
        invariant
            i <= cap.supported@.len(),
            forall|j: int| 0 <= j < i ==> cap.supported@[j] != (direction, codec_type),
        decreases cap.supported@.len() - i,
    {
        let pair = cap.supported[i];
        if pair.0 == direction && pair.1 == codec_type {
            assert(cap.supported@[i as int] == (direction, codec_type));
            return true;
        }
        i = i + 1;
    }
    false
}

fn message2(label: &str, middle: &str, value: &str) -> (r: String)
    ensures
        r@ == label@ + middle@ + value@,
{
    let mut m = label.to_owned();
    m.append(middle);
    m.append(value);
    m
}

/// Resolves the options of `selection` against the registered capabilities `caps`.
///
/// Each given option, in the order VP8 / VP9 / AV1 / H.264 / H.265 and encoder before
/// decoder, names an implementation; the result lists, for each, the capability to set for
/// that codec and direction. The first option naming an unknown implementation, one not
/// registered in this build, or one that does not support the codec in that direction is
/// refused with its message.
pub fn apply_selection(caps: &[CodecCapability], selection: &CodecSelection) -> (r: Result<Vec<CodecChoice>, String>)
    ensures
        match selection_outcome(caps@, selection_entries(*selection)) {
            Ok(choices) => r matches Ok(v) && v@ == choices,
            Err(m) => r matches Err(e) && e@ == m,
        },
{
    let ghost entries = selection_entries(*selection);
    let mut choices: Vec<CodecChoice> = Vec::new();
    let mut k: usize = 0;
    assert(entries.len() == 10);
    while k < 10
        invariant
            k <= 10,
            entries == selection_entries(*selection),
            entries.len() == 10,
            selection_outcome(caps@, entries.take(k as int)) == Ok::<Seq<CodecChoice>, Seq<char>>(choices@),
        decreases 10 - k,
    {
        let (direction, codec_type, label, value) = selection_entry(selection, k);
        proof {
            assert(entries.take((k + 1) as int).drop_last() =~= entries.take(k as int));
            assert(entries.take(k + 1).last() == entries[k as int]);
        }
        if let Some(value) = value {
            let value = value.as_str();
            match implementation_name(value) {
                None => {
                    let mut m = "unsupported ".to_owned();
                    m.append(label);
                    m.append(" engine: ");
                    m.append(value);
                    proof {
                        lemma_selection_outcome_err(caps@, entries, (k + 1) as nat);
                    }
                    return Err(m);
                },
                Some(name) => match find_capability(caps, name) {
                    None => {
                        let m = message2(label, " engine is not available in this build: ", value);
                        proof {
                            lemma_selection_outcome_err(caps@, entries, (k + 1) as nat);
                        }
                        return Err(m);
                    },
                    Some(index) => {
                        if !supports(&caps[index], direction, codec_type) {
                            let m = message2(label, " is not supported by ", value);
                            proof {
                                lemma_selection_outcome_err(caps@, entries, (k + 1) as nat);
                            }
                            return Err(m);
                        }
                        let ghost prev = choices@;
                        choices.push(CodecChoice { direction, codec_type, capability: index });
                        assert(entry_choice(caps@, direction, codec_type, label@, value@)
                            == Ok::<CodecChoice, Seq<char>>(CodecChoice { direction, codec_type, capability: index }));
                        assert(choices@ == prev.push(CodecChoice { direction, codec_type, capability: index }));
                    },
                },
            }
        }
        k = k + 1;
    }
    assert(entries.take(10) =~= entries);
    Ok(choices)
}

proof fn lemma_selection_outcome_err(
    caps: Seq<CodecCapability>,
    entries: Seq<(CodecDirection, VideoCodecType, Seq<char>, Option<Seq<char>>)>,
    k: nat,
)
    requires
        k <= entries.len(),
        selection_outcome(caps, entries.take(k as int)) is Err,
    ensures
        selection_outcome(caps, entries) == selection_outcome(caps, entries.take(k as int)),
    decreases entries.len() - k,
{
    if k < entries.len() {
        assert(entries.take((k + 1) as int).drop_last() =~= entries.take(k as int));
        lemma_selection_outcome_err(caps, entries, k + 1);
    } else {
        assert(entries.take(k as int) =~= entries);
    }
}

} // verus!
