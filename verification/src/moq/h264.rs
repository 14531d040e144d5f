//! H.264 NAL conversion and the AVCDecoderConfigurationRecord.
//!
//! The MOQT video track carries avc1: each payload is in the four-byte length-prefixed
//! form, and the parameter sets travel as an AVCDecoderConfigurationRecord
//! (ISO/IEC 14496-15 §5.2.4.1.1). The encoder and the decoder use Annex B, so the
//! two forms are converted at the boundary.

use vstd::prelude::*;

use crate::bytes::{append_all, append_range, byte_seqs, copy_range, push_bytes};
use crate::moq::error::MoqError;
use crate::text::{dec, hex2, push_decimal, push_hex2, with_decimal};

verus! {

/// Size of the length prefix (lengthSizeMinusOne + 1 of the record).
pub const LENGTH_SIZE: usize = 4;

/// The contents of an AVCDecoderConfigurationRecord.
#[derive(Debug, Clone, PartialEq, Eq)]
pub struct AvcDecoderConfig {
    /// SPS NAL bodies (without start codes).
    pub sps: Vec<Vec<u8>>,
    /// PPS NAL bodies (without start codes).
    pub pps: Vec<Vec<u8>>,
    /// Number of bytes of each length prefix.
    pub length_size: usize,
}

// ─── specification ───────────────────────────────────────────────────────────

/// Big-endian encoding of a 16-bit value.
pub open spec fn be16(n: nat) -> Seq<u8> {
    seq![(n / 256) as u8, (n % 256) as u8]
}

/// Big-endian encoding of a 32-bit value.
pub open spec fn be32(n: nat) -> Seq<u8> {
    seq![(n / 16777216) as u8, ((n / 65536) % 256) as u8, ((n / 256) % 256) as u8, (n % 256) as u8]
}

/// The big-endian value of a byte sequence.
pub open spec fn be_value(s: Seq<u8>) -> nat
    decreases s.len(),
{
    if s.len() == 0 {
        0
    } else {
        be_value(s.drop_last()) * 256 + s.last() as nat
    }
}

/// Parameter sets as the record lists them: each one preceded by its 16-bit length.
pub open spec fn param_sets_bytes(l: Seq<Seq<u8>>) -> Seq<u8>
    decreases l.len(),
{
    if l.len() == 0 {
        seq![]
    } else {
        be16(l[0].len()) + l[0] + param_sets_bytes(l.drop_first())
    }
}

/// The length of the first element of `l` that is longer than `max`, if any.
pub open spec fn first_longer(l: Seq<Seq<u8>>, max: nat) -> Option<nat>
    decreases l.len(),
{
    if l.len() == 0 {
        None
    } else if l[0].len() > max {
        Some(l[0].len())
    } else {
        first_longer(l.drop_first(), max)
    }
}

/// Profiles (High, High 10, High 4:2:2, High 4:4:4) whose record carries the chroma extension.
pub open spec fn is_high_profile(profile_idc: u8) -> bool {
    profile_idc == 100 || profile_idc == 110 || profile_idc == 122 || profile_idc == 144
}

/// The message with which building a record from `sps` and `pps` is refused, if it is.
pub open spec fn build_record_error(sps: Seq<Seq<u8>>, pps: Seq<Seq<u8>>) -> Option<Seq<char>> {
    if sps.len() == 0 {
        Some("AVCDecoderConfigurationRecord requires an SPS"@)
    } else if sps[0].len() < 4 {
        Some("H.264 SPS is too short to read profile/level"@)
    } else if sps.len() > 0x1F {
        Some("too many SPS NAL units: "@ + dec(sps.len()))
    } else if pps.len() > 0xFF {
        Some("too many PPS NAL units: "@ + dec(pps.len()))
    } else if let Some(len) = first_longer(sps + pps, 0xFFFF) {
        Some("H.264 parameter set NAL is too long: "@ + dec(len))
    } else {
        None
    }
}

/// The AVCDecoderConfigurationRecord built from `sps` and `pps`
/// (profile, compatibility and level from the first SPS; 4-byte length prefixes;
/// for High profiles a 4:2:0, 8-bit extension without SPS extensions).
pub open spec fn spec_avc_record(sps: Seq<Seq<u8>>, pps: Seq<Seq<u8>>) -> Seq<u8> {
    seq![1u8, sps[0][1], sps[0][2], sps[0][3], 0xFFu8, (0xE0u8 | (sps.len() as u8))]
        + param_sets_bytes(sps) + seq![pps.len() as u8] + param_sets_bytes(pps)
        + if is_high_profile(sps[0][1]) { seq![0xFDu8, 0xF8u8, 0xF8u8, 0x00u8] } else { seq![] }
}

/// The codec string `avc1.PPCCLL` of an SPS NAL unit.
pub open spec fn spec_avc_codec_string(sps: Seq<u8>) -> Seq<char> {
    "avc1."@ + hex2(sps[1]) + hex2(sps[2]) + hex2(sps[3])
}

/// NAL units in Annex B form, each preceded by a four-byte start code.
pub open spec fn annex_b_bytes(nals: Seq<Seq<u8>>) -> Seq<u8>
    decreases nals.len(),
{
    if nals.len() == 0 {
        seq![]
    } else {
        seq![0u8, 0u8, 0u8, 1u8] + nals[0] + annex_b_bytes(nals.drop_first())
    }
}

/// Reads `n` length-prefixed parameter sets starting at `off`: the sets and the offset
/// after them, or `Err(true)` when a length field is cut off and `Err(false)` when a set is.
pub open spec fn parse_param_sets(d: Seq<u8>, off: int, n: nat) -> Result<(Seq<Seq<u8>>, int), bool>
    decreases n,
{
    if n == 0 {
        Ok((seq![], off))
    } else if off + 2 > d.len() {
        Err(true)
    } else {
        let len = d[off] as int * 256 + d[off + 1] as int;
        if off + 2 + len > d.len() {
            Err(false)
        } else {
            match parse_param_sets(d, off + 2 + len, (n - 1) as nat) {
                Ok((rest, end)) => Ok((seq![d.subrange(off + 2, off + 2 + len)] + rest, end)),
                Err(in_list) => Err(in_list),
            }
        }
    }
}

/// `r` with `acc` put in front of the sets it read.
pub open spec fn prepend_sets(acc: Seq<Seq<u8>>, r: Result<(Seq<Seq<u8>>, int), bool>) -> Result<(Seq<Seq<u8>>, int), bool> {
    match r {
        Ok((rest, end)) => Ok((acc + rest, end)),
        Err(in_list) => Err(in_list),
    }
}

/// The message for a record cut off in the SPS or PPS part.
pub open spec fn truncated_message(kind: Seq<char>, in_list: bool) -> Seq<char> {
    "AVCDecoderConfigurationRecord is truncated in "@ + kind
        + if in_list { " list"@ } else { Seq::<char>::empty() }
}

/// What parsing an AVCDecoderConfigurationRecord gives: the SPS list, the PPS list and the
/// length size, or the message of the error. Bytes after the PPS list are ignored.
pub open spec fn spec_parse_avc_record(d: Seq<u8>) -> Result<(Seq<Seq<u8>>, Seq<Seq<u8>>, nat), Seq<char>> {
    if d.len() < 7 {
        Err("AVCDecoderConfigurationRecord is too short: "@ + dec(d.len()))
    } else if d[0] != 1 {
        Err("unsupported AVCDecoderConfigurationRecord version: "@ + dec(d[0] as nat))
    } else {
        let length_size = (d[4] & 3u8) as nat + 1;
        match parse_param_sets(d, 6, (d[5] & 0x1Fu8) as nat) {
            Err(in_list) => Err(truncated_message("SPS"@, in_list)),
            Ok((sps, off)) => if off >= d.len() {
                Err("AVCDecoderConfigurationRecord has no PPS count"@)
            } else {
                match parse_param_sets(d, off + 1, d[off] as nat) {
                    Err(in_list) => Err(truncated_message("PPS"@, in_list)),
                    Ok((pps, _)) => Ok((sps, pps, length_size)),
                }
            },
        }
    }
}

/// Length of the Annex B start code at `i`: 3 for `00 00 01`, 4 for `00 00 00 01`, else 0.
pub open spec fn start_code_len(d: Seq<u8>, i: int) -> int {
    if i + 3 <= d.len() && d[i] == 0 && d[i + 1] == 0 && d[i + 2] == 1 {
        3
    } else if i + 4 <= d.len() && d[i] == 0 && d[i + 1] == 0 && d[i + 2] == 0 && d[i + 3] == 1 {
        4
    } else {
        0
    }
}

/// `s` without its trailing zero bytes (trailing_zero_8bits, ISO/IEC 14496-10 Annex B).
pub open spec fn trim_trailing_zeros(s: Seq<u8>) -> Seq<u8>
    decreases s.len(),
{
    if s.len() == 0 {
        s
    } else if s.last() == 0 {
        trim_trailing_zeros(s.drop_last())
    } else {
        s
    }
}

/// `nals` with `nal` added once its trailing zeros are removed, unless nothing remains.
pub open spec fn add_nal(nals: Seq<Seq<u8>>, nal: Seq<u8>) -> Seq<Seq<u8>> {
    if trim_trailing_zeros(nal).len() == 0 {
        nals
    } else {
        nals.push(trim_trailing_zeros(nal))
    }
}

/// Scans Annex B bytes from `i`: `current` is where the NAL being read began, `nals` the
/// NAL units found so far. Each start code ends the current NAL and begins the next one.
pub open spec fn scan_annex_b(d: Seq<u8>, i: int, current: Option<int>, nals: Seq<Seq<u8>>) -> Seq<Seq<u8>>
    decreases d.len() - i,
{
    if i >= d.len() || i < 0 {
        match current {
            Some(start) => add_nal(nals, d.subrange(start, d.len() as int)),
            None => nals,
        }
    } else {
        let k = start_code_len(d, i);
        if k > 0 {
            let found = match current {
                Some(start) => add_nal(nals, d.subrange(start, i)),
                None => nals,
            };
            scan_annex_b(d, i + k, Some(i + k), found)
        } else {
            scan_annex_b(d, i + 1, current, nals)
        }
    }
}

/// The NAL units of Annex B bytes: what lies between start codes (and after the last one),
/// without trailing zeros, empty ones dropped. Bytes before the first start code are ignored.
pub open spec fn spec_split_annex_b(d: Seq<u8>) -> Seq<Seq<u8>> {
    scan_annex_b(d, 0, None, Seq::empty())
}

/// NAL units in the length-prefixed form with four-byte big-endian lengths.
pub open spec fn length_prefixed_bytes(nals: Seq<Seq<u8>>) -> Seq<u8>
    decreases nals.len(),
{
    if nals.len() == 0 {
        seq![]
    } else {
        be32(nals[0].len()) + nals[0] + length_prefixed_bytes(nals.drop_first())
    }
}

/// Converts length-prefixed bytes from `off` on with `size`-byte lengths to Annex B:
/// `Err(true)` when a length field is cut off, `Err(false)` when a NAL unit is.
pub open spec fn spec_length_prefixed_to_annex_b(d: Seq<u8>, size: nat, off: int) -> Result<Seq<u8>, bool>
    decreases d.len() - off,
{
    if off >= d.len() || off < 0 || size == 0 {
        Ok(seq![])
    } else if off + size > d.len() {
        Err(true)
    } else {
        let len = be_value(d.subrange(off, off + size));
        if off + size + len > d.len() {
            Err(false)
        } else {
            match spec_length_prefixed_to_annex_b(d, size, off + size + len) {
                Ok(rest) => Ok(seq![0u8, 0u8, 0u8, 1u8] + d.subrange(off + size, off + size + len) + rest),
                Err(in_length) => Err(in_length),
            }
        }
    }
}

// ─── lemmas on the list encodings ────────────────────────────────────────────

proof fn lemma_param_sets_bytes_push(l: Seq<Seq<u8>>, x: Seq<u8>)
    ensures
        param_sets_bytes(l.push(x)) == param_sets_bytes(l) + be16(x.len()) + x,
    decreases l.len(),
{
    if l.len() == 0 {
        assert(l.push(x).drop_first() =~= Seq::<Seq<u8>>::empty());
        assert(l.push(x)[0] == x);
        assert(param_sets_bytes(l.push(x).drop_first()) == Seq::<u8>::empty());
        assert(param_sets_bytes(l) == Seq::<u8>::empty());
        assert(param_sets_bytes(l.push(x)) == be16(x.len()) + x + Seq::<u8>::empty());
        assert(param_sets_bytes(l.push(x)) =~= param_sets_bytes(l) + be16(x.len()) + x);
    } else {
        lemma_param_sets_bytes_push(l.drop_first(), x);
        assert(l.push(x).drop_first() =~= l.drop_first().push(x));
        assert(l.push(x)[0] == l[0]);
        assert(param_sets_bytes(l.push(x)) == be16(l[0].len()) + l[0]
            + param_sets_bytes(l.drop_first().push(x)));
        assert(param_sets_bytes(l.push(x)) =~= param_sets_bytes(l) + be16(x.len()) + x);
    }
}

proof fn lemma_annex_b_bytes_push(l: Seq<Seq<u8>>, x: Seq<u8>)
    ensures
        annex_b_bytes(l.push(x)) == annex_b_bytes(l) + seq![0u8, 0u8, 0u8, 1u8] + x,
    decreases l.len(),
{
    if l.len() == 0 {
        assert(l.push(x).drop_first() =~= Seq::<Seq<u8>>::empty());
        assert(l.push(x)[0] == x);
        assert(annex_b_bytes(l.push(x).drop_first()) == Seq::<u8>::empty());
        assert(annex_b_bytes(l) == Seq::<u8>::empty());
        assert(annex_b_bytes(l.push(x)) =~= annex_b_bytes(l) + seq![0u8, 0u8, 0u8, 1u8] + x);
    } else {
        lemma_annex_b_bytes_push(l.drop_first(), x);
        assert(l.push(x).drop_first() =~= l.drop_first().push(x));
        assert(l.push(x)[0] == l[0]);
        assert(annex_b_bytes(l.push(x)) == seq![0u8, 0u8, 0u8, 1u8] + l[0]
            + annex_b_bytes(l.drop_first().push(x)));
        assert(annex_b_bytes(l.push(x)) =~= annex_b_bytes(l) + seq![0u8, 0u8, 0u8, 1u8] + x);
    }
}

proof fn lemma_first_longer_push(l: Seq<Seq<u8>>, x: Seq<u8>, max: nat)
    requires
        first_longer(l, max) is None,
    ensures
        first_longer(l.push(x), max) == (if x.len() > max { Some(x.len()) } else { None::<nat> }),
    decreases l.len(),
{
    if l.len() == 0 {
        assert(l.push(x).drop_first() =~= Seq::<Seq<u8>>::empty());
        assert(l.push(x)[0] == x);
        assert(first_longer(l.push(x).drop_first(), max) is None);
    } else {
        lemma_first_longer_push(l.drop_first(), x, max);
        assert(l.push(x).drop_first() =~= l.drop_first().push(x));
        assert(l.push(x)[0] == l[0]);
    }
}

// ─── building ────────────────────────────────────────────────────────────────

fn push_be16(buf: &mut Vec<u8>, n: usize)
    requires
        n <= 0xFFFF,
    ensures
        final(buf)@ == old(buf)@ + be16(n as nat),
{
    buf.push((n / 256) as u8);
    buf.push((n % 256) as u8);
    assert(buf@ =~= old(buf)@ + be16(n as nat));
}

fn push_be32(buf: &mut Vec<u8>, n: usize)
    requires
        n <= 0xFFFF_FFFF,
    ensures
        final(buf)@ == old(buf)@ + be32(n as nat),
{
    buf.push((n / 16777216) as u8);
    buf.push(((n / 65536) % 256) as u8);
    buf.push(((n / 256) % 256) as u8);
    buf.push((n % 256) as u8);
    assert(buf@ =~= old(buf)@ + be32(n as nat));
}

/// Appends the length-prefixed parameter sets of `list` to `buf`.
fn push_param_sets(buf: &mut Vec<u8>, list: &[Vec<u8>])
    requires
        first_longer(byte_seqs(list@), 0xFFFF) is None,
    ensures
        final(buf)@ == old(buf)@ + param_sets_bytes(byte_seqs(list@)),
{
    let mut i: usize = 0;
    while i < list.len()
        invariant
            i <= list@.len(),
            first_longer(byte_seqs(list@), 0xFFFF) is None,
            buf@ == old(buf)@ + param_sets_bytes(byte_seqs(list@).take(i as int)),
        decreases list@.len() - i,
    {
        proof {
            lemma_first_longer_element(byte_seqs(list@), i as int, 0xFFFF);
            lemma_param_sets_bytes_push(byte_seqs(list@).take(i as int), list@[i as int]@);
            assert(byte_seqs(list@).take(i + 1) =~= byte_seqs(list@).take(i as int).push(list@[i as int]@));
        }
        let nal = &list[i];
        push_be16(buf, nal.len());
        append_all(buf, nal.as_slice());
        i = i + 1;
        assert(buf@ =~= old(buf)@ + param_sets_bytes(byte_seqs(list@).take(i as int)));
    }
    assert(byte_seqs(list@).take(i as int) =~= byte_seqs(list@));
}

proof fn lemma_first_longer_element(l: Seq<Seq<u8>>, i: int, max: nat)
    requires
        first_longer(l, max) is None,
        0 <= i < l.len(),
    ensures
        l[i].len() <= max,
    decreases l.len(),
{
    if i > 0 {
        lemma_first_longer_element(l.drop_first(), i - 1, max);
    }
}

/// Scans `list` and gives the length of its first element longer than 0xFFFF, if any.
fn find_first_longer(list: &[Vec<u8>], prefix: Ghost<Seq<Seq<u8>>>) -> (r: Option<usize>)
    requires
        first_longer(prefix@, 0xFFFF) is None,
    ensures
        r matches Some(n) ==> first_longer(prefix@ + byte_seqs(list@), 0xFFFF) == Some(n as nat),
        r is None ==> first_longer(prefix@ + byte_seqs(list@), 0xFFFF) is None,
{
    let mut i: usize = 0;
    while i < list.len()
        invariant
            i <= list@.len(),
            first_longer(prefix@ + byte_seqs(list@).take(i as int), 0xFFFF) is None,
        decreases list@.len() - i,
    {
        let ghost before = prefix@ + byte_seqs(list@).take(i as int);
        proof {
            lemma_first_longer_push(before, list@[i as int]@, 0xFFFF);
            assert(prefix@ + byte_seqs(list@).take(i + 1) =~= before.push(list@[i as int]@));
        }
        if list[i].len() > 0xFFFF {
            proof {
                lemma_first_longer_split(before.push(list@[i as int]@),
                    byte_seqs(list@).skip(i + 1), 0xFFFF);
                assert(before.push(list@[i as int]@) + byte_seqs(list@).skip(i + 1)
                    =~= prefix@ + byte_seqs(list@));
            }
            return Some(list[i].len());
        }
        i = i + 1;
    }
    assert(byte_seqs(list@).take(i as int) =~= byte_seqs(list@));
    None
}

proof fn lemma_first_longer_split(a: Seq<Seq<u8>>, b: Seq<Seq<u8>>, max: nat)
    ensures
        first_longer(a, max) is Some ==> first_longer(a + b, max) == first_longer(a, max),
        first_longer(a, max) is None ==> first_longer(a + b, max) == first_longer(b, max),
    decreases a.len(),
{
    if a.len() == 0 {
        assert(a + b =~= b);
    } else {
        lemma_first_longer_split(a.drop_first(), b, max);
        assert((a + b).drop_first() =~= a.drop_first() + b);
        assert((a + b)[0] == a[0]);
    }
}

/// Builds an AVCDecoderConfigurationRecord from SPS and PPS NAL units.
///
/// Profile, compatibility and level come from the first SPS; High profiles get the
/// chroma-format and bit-depth extension (ISO/IEC 14496-15 §5.2.4.1.1).
pub fn build_avc_decoder_config_record(
    sps_list: &[Vec<u8>],
    pps_list: &[Vec<u8>],
) -> (r: Result<Vec<u8>, MoqError>)
    ensures
        match build_record_error(byte_seqs(sps_list@), byte_seqs(pps_list@)) {
            Some(message) => r matches Err(e) && e is Media && e.spec_message() == message,
            None => r matches Ok(record)
                && record@ == spec_avc_record(byte_seqs(sps_list@), byte_seqs(pps_list@)),
        },
        r matches Ok(record) ==> {
            &&& record@.len() >= 6
            &&& record@[0] == 1u8
            &&& record@[1] == sps_list@[0]@[1]
            &&& record@[2] == sps_list@[0]@[2]
            &&& record@[3] == sps_list@[0]@[3]
            &&& record@[4] == 0xFFu8
        },
{
    proof {
        if build_record_error(byte_seqs(sps_list@), byte_seqs(pps_list@)) is None {
            lemma_avc_record_announces_sps(byte_seqs(sps_list@), byte_seqs(pps_list@));
        }
    }
    let ghost sps_v = byte_seqs(sps_list@);
    let ghost pps_v = byte_seqs(pps_list@);
    if sps_list.len() == 0 {
        return Err(MoqError::Media("AVCDecoderConfigurationRecord requires an SPS".to_owned()));
    }
    let sps = &sps_list[0];
    if sps.len() < 4 {
        return Err(MoqError::Media("H.264 SPS is too short to read profile/level".to_owned()));
    }
    if sps_list.len() > 0x1F {
        return Err(MoqError::Media(with_decimal("too many SPS NAL units: ", sps_list.len() as u64)));
    }
    if pps_list.len() > 0xFF {
        return Err(MoqError::Media(with_decimal("too many PPS NAL units: ", pps_list.len() as u64)));
    }
    let too_long = match find_first_longer(sps_list, Ghost(Seq::empty())) {
        Some(n) => Some(n),
        None => find_first_longer(pps_list, Ghost(sps_v)),
    };
    proof {
        assert(Seq::<Seq<u8>>::empty() + sps_v =~= sps_v);
        lemma_first_longer_split(sps_v, pps_v, 0xFFFF);
    }
    if let Some(n) = too_long {
        return Err(MoqError::Media(with_decimal("H.264 parameter set NAL is too long: ", n as u64)));
    }
    proof {
        lemma_first_longer_split(sps_v, pps_v, 0xFFFF);
        if first_longer(pps_v, 0xFFFF) is Some {
            assert(first_longer(sps_v + pps_v, 0xFFFF) is Some);
        }
    }

    let profile_idc = sps[1];
    let profile_compatibility = sps[2];
    let level_idc = sps[3];

    let mut buf: Vec<u8> = Vec::new();
    buf.push(1);
    buf.push(profile_idc);
    buf.push(profile_compatibility);
    buf.push(level_idc);
    buf.push(0xFCu8 | ((LENGTH_SIZE as u8) - 1));
    buf.push(0xE0u8 | (sps_list.len() as u8));
    assert(0xFCu8 | 3u8 == 0xFFu8) by (bit_vector);
    let ghost header = buf@;
    push_param_sets(&mut buf, sps_list);
    buf.push(pps_list.len() as u8);
    push_param_sets(&mut buf, pps_list);
    let ghost body = buf@;
    if profile_idc == 100 || profile_idc == 110 || profile_idc == 122 || profile_idc == 144 {
        buf.push(0xFCu8 | 0x01u8);
        buf.push(0xF8);
        buf.push(0xF8);
        buf.push(0x00);
        assert(0xFCu8 | 0x01u8 == 0xFDu8) by (bit_vector);
        assert(buf@ =~= body + seq![0xFDu8, 0xF8u8, 0xF8u8, 0x00u8]);
    }
    assert(buf@ =~= spec_avc_record(sps_v, pps_v));
    Ok(buf)
}

/// Builds the codec string `avc1.PPCCLL` from the first three bytes after the NAL header
/// of an SPS (profile_idc, constraint flags, level_idc; ISO/IEC 14496-10 §7.3.2.1).
pub fn avc_codec_string_from_sps(sps: &[u8]) -> (r: Result<String, MoqError>)
    ensures
        sps@.len() < 4 ==> (r matches Err(e) && e is Media
            && e.spec_message() == "H.264 SPS is too short to build a codec string"@),
        sps@.len() >= 4 ==> (r matches Ok(s) && s@ == spec_avc_codec_string(sps@)),
{
    if sps.len() < 4 {
        return Err(MoqError::Media("H.264 SPS is too short to build a codec string".to_owned()));
    }
    let mut out = "avc1.".to_owned();
    push_hex2(&mut out, sps[1]);
    push_hex2(&mut out, sps[2]);
    push_hex2(&mut out, sps[3]);
    Ok(out)
}

/// Converts a list of NAL units to Annex B, each preceded by a four-byte start code.
///
/// Used to put the SPS and PPS of the video config in front of a payload.
pub fn nals_to_annex_b(nals: &[Vec<u8>]) -> (r: Vec<u8>)
    ensures
        r@ == annex_b_bytes(byte_seqs(nals@)),
{
    let mut buf: Vec<u8> = Vec::new();
    let mut i: usize = 0;
    while i < nals.len()
        invariant
            i <= nals@.len(),
            buf@ == annex_b_bytes(byte_seqs(nals@).take(i as int)),
        decreases nals@.len() - i,
    {
        proof {
            lemma_annex_b_bytes_push(byte_seqs(nals@).take(i as int), nals@[i as int]@);
            assert(byte_seqs(nals@).take(i + 1) =~= byte_seqs(nals@).take(i as int).push(nals@[i as int]@));
        }
        buf.push(0);
        buf.push(0);
        buf.push(0);
        buf.push(1);
        append_all(&mut buf, nals[i].as_slice());
        i = i + 1;
        assert(buf@ =~= annex_b_bytes(byte_seqs(nals@).take(i as int)));
    }
    assert(byte_seqs(nals@).take(i as int) =~= byte_seqs(nals@));
    buf
}


// ─── parsing ─────────────────────────────────────────────────────────────────

/// Reads `n` length-prefixed parameter sets from `data` starting at `start`.
fn read_param_sets(data: &[u8], start: usize, n: usize, kind: &str) -> (r: Result<(Vec<Vec<u8>>, usize), MoqError>)
    requires
        start <= data@.len(),
    ensures
        match parse_param_sets(data@, start as int, n as nat) {
            Ok((sets, end)) => r matches Ok((v, e)) && byte_seqs(v@) == sets && e as int == end,
            Err(in_list) => r matches Err(err) && err is Media
                && err.spec_message() == truncated_message(kind@, in_list),
        },
{
    let mut sets: Vec<Vec<u8>> = Vec::new();
    let mut offset = start;
    let mut i: usize = 0;
    while i < n
        invariant
            start <= offset <= data@.len(),
            i <= n,
            parse_param_sets(data@, start as int, n as nat)
                == prepend_sets(byte_seqs(sets@), parse_param_sets(data@, offset as int, (n - i) as nat)),
        decreases n - i,
    {
        if data.len() - offset < 2 {
            let mut message = "AVCDecoderConfigurationRecord is truncated in ".to_owned();
            message.append(kind);
            message.append(" list");
            proof {
                reveal_strlit(" list");
                assert(message@ =~= truncated_message(kind@, true));
            }
            return Err(MoqError::Media(message));
        }
        let length = (data[offset] as usize) * 256 + (data[offset + 1] as usize);
        if length > data.len() - offset - 2 {
            let mut message = "AVCDecoderConfigurationRecord is truncated in ".to_owned();
            message.append(kind);
            proof {
                assert(message@ =~= truncated_message(kind@, false));
            }
            return Err(MoqError::Media(message));
        }
        let body = copy_range(data, offset + 2, offset + 2 + length);
        proof {
            let next = parse_param_sets(data@, (offset + 2 + length) as int, (n - i - 1) as nat);
            let item = data@.subrange(offset + 2, offset + 2 + length);
            assert(parse_param_sets(data@, offset as int, (n - i) as nat) == match next {
                Ok((rest, end)) => Ok((seq![item] + rest, end)),
                Err(b) => Err(b),
            });
            match next {
                Ok((rest, end)) => {
                    assert(byte_seqs(sets@) + (seq![item] + rest) =~= byte_seqs(sets@).push(item) + rest);
                }
                Err(_) => {}
            }
        }
        push_bytes(&mut sets, body);
        offset = offset + 2 + length;
        i = i + 1;
    }
    proof {
        assert(byte_seqs(sets@) + Seq::<Seq<u8>>::empty() =~= byte_seqs(sets@));
    }
    Ok((sets, offset))
}

/// Parses an AVCDecoderConfigurationRecord (ISO/IEC 14496-15 §5.2.4.1.1).
pub fn parse_avc_decoder_config_record(data: &[u8]) -> (r: Result<AvcDecoderConfig, MoqError>)
    ensures
        match spec_parse_avc_record(data@) {
            Ok((sps, pps, length_size)) => r matches Ok(config) && byte_seqs(config.sps@) == sps
                && byte_seqs(config.pps@) == pps && config.length_size as nat == length_size,
            Err(message) => r matches Err(e) && e is Media && e.spec_message() == message,
        },
{
    if data.len() < 7 {
        return Err(MoqError::Media(with_decimal("AVCDecoderConfigurationRecord is too short: ", data.len() as u64)));
    }
    if data[0] != 1 {
        return Err(MoqError::Media(with_decimal("unsupported AVCDecoderConfigurationRecord version: ", data[0] as u64)));
    }
    let length_size = ((data[4] & 0x03) as usize) + 1;
    let num_sps = (data[5] & 0x1F) as usize;
    let (sps, offset) = match read_param_sets(data, 6, num_sps, "SPS") {
        Ok(v) => v,
        Err(e) => return Err(e),
    };
    if offset >= data.len() {
        return Err(MoqError::Media("AVCDecoderConfigurationRecord has no PPS count".to_owned()));
    }
    let num_pps = data[offset] as usize;
    let (pps, _) = match read_param_sets(data, offset + 1, num_pps, "PPS") {
        Ok(v) => v,
        Err(e) => return Err(e),
    };
    Ok(AvcDecoderConfig { sps, pps, length_size })
}

// ─── Annex B and length-prefixed conversion ─────────────────────────────────

/// Adds the NAL body `nal` to `nals`, leaving out its trailing zero bytes
/// (trailing_zero_8bits may follow a NAL unit in Annex B). An empty NAL is ignored.
fn push_nal(nals: &mut Vec<Vec<u8>>, nal: &[u8])
    ensures
        byte_seqs(final(nals)@) == add_nal(byte_seqs(old(nals)@), nal@),
{
    let mut end = nal.len();
    assert(nal@.subrange(0, end as int) =~= nal@);
    while end > 0 && nal[end - 1] == 0
        invariant
            end <= nal@.len(),
            trim_trailing_zeros(nal@) == trim_trailing_zeros(nal@.subrange(0, end as int)),
        decreases end,
    {
        proof {
            let t = nal@.subrange(0, end as int);
            assert(t.drop_last() =~= nal@.subrange(0, end - 1));
        }
        end = end - 1;
    }
    proof {
        let t = nal@.subrange(0, end as int);
        if end == 0 {
            assert(trim_trailing_zeros(t) == t);
        } else {
            assert(t.last() != 0);
        }
        assert(nal@.subrange(0, nal@.len() as int) =~= nal@);
    }
    if end == 0 {
        return;
    }
    let body = copy_range(nal, 0, end);
    push_bytes(nals, body);
}

fn start_code_at(data: &[u8], i: usize) -> (k: usize)
    requires
        i < data@.len(),
    ensures
        k as int == start_code_len(data@, i as int),
{
    let n = data.len();
    if n - i >= 3 && data[i] == 0 && data[i + 1] == 0 && data[i + 2] == 1 {
        3
    } else if n - i >= 4 && data[i] == 0 && data[i + 1] == 0 && data[i + 2] == 0 && data[i + 3] == 1 {
        4
    } else {
        0
    }
}

/// Splits Annex B bytes into NAL bodies.
///
/// Handles both the three-byte (`00 00 01`) and the four-byte (`00 00 00 01`) start codes;
/// trailing zero bytes are not part of a NAL.
pub fn split_annex_b(data: &[u8]) -> (r: Vec<Vec<u8>>)
    ensures
        byte_seqs(r@) == spec_split_annex_b(data@),
{
    let mut nals: Vec<Vec<u8>> = Vec::new();
    let mut current: Option<usize> = None;
    let mut index: usize = 0;
    assert(byte_seqs(nals@) =~= Seq::<Seq<u8>>::empty());
    while index < data.len()
        invariant
            index <= data@.len(),
            current matches Some(c) ==> c <= index,
            spec_split_annex_b(data@) == scan_annex_b(data@, index as int,
                match current { Some(c) => Some(c as int), None => None }, byte_seqs(nals@)),
        decreases data@.len() - index,
    {
        let k = start_code_at(data, index);
        if k > 0 {
            if let Some(start) = current {
                push_nal(&mut nals, vstd::slice::slice_subrange(data, start, index));
            }
            index = index + k;
            current = Some(index);
        } else {
            index = index + 1;
        }
    }
    if let Some(start) = current {
        push_nal(&mut nals, vstd::slice::slice_subrange(data, start, data.len()));
    }
    nals
}

/// Converts Annex B to the length-prefixed form with [`LENGTH_SIZE`]-byte lengths.
/// Gives an empty payload when there is no NAL unit.
pub fn annex_b_to_length_prefixed(data: &[u8]) -> (r: Result<Vec<u8>, MoqError>)
    ensures
        match first_longer(spec_split_annex_b(data@), 0xFFFF_FFFF) {
            Some(len) => r matches Err(e) && e is Media
                && e.spec_message() == "H.264 NAL is too long: "@ + dec(len),
            None => r matches Ok(out) && out@ == length_prefixed_bytes(spec_split_annex_b(data@)),
        },
{
    let nals = split_annex_b(data);
    let ghost all = byte_seqs(nals@);
    let mut buf: Vec<u8> = Vec::new();
    let mut i: usize = 0;
    while i < nals.len()
        invariant
            i <= nals@.len(),
            all == byte_seqs(nals@),
            all == spec_split_annex_b(data@),
            first_longer(all.take(i as int), 0xFFFF_FFFF) is None,
            buf@ == length_prefixed_bytes(all.take(i as int)),
        decreases nals@.len() - i,
    {
        let nal = &nals[i];
        proof {
            lemma_first_longer_push(all.take(i as int), nal@, 0xFFFF_FFFF);
            lemma_length_prefixed_bytes_push(all.take(i as int), nal@);
            assert(all.take(i + 1) =~= all.take(i as int).push(nal@));
        }
        if nal.len() > 0xFFFF_FFFF {
            proof {
                assert(all[i as int] == nal@);
                assert(first_longer(all.take(i + 1), 0xFFFF_FFFF) == Some(nal@.len()));
                lemma_first_longer_split(all.take(i + 1), all.skip(i + 1), 0xFFFF_FFFF);
                assert(all.take(i + 1) + all.skip(i + 1) =~= all);
                assert((nal.len() as u64) as nat == nal@.len());
            }
            return Err(MoqError::Media(with_decimal("H.264 NAL is too long: ", nal.len() as u64)));
        }
        push_be32(&mut buf, nal.len());
        append_all(&mut buf, nal.as_slice());
        i = i + 1;
        assert(buf@ =~= length_prefixed_bytes(all.take(i as int)));
    }
    assert(all.take(i as int) =~= all);
    Ok(buf)
}

proof fn lemma_length_prefixed_bytes_push(l: Seq<Seq<u8>>, x: Seq<u8>)
    ensures
        length_prefixed_bytes(l.push(x)) == length_prefixed_bytes(l) + be32(x.len()) + x,
    decreases l.len(),
{
    if l.len() == 0 {
        assert(l.push(x).drop_first() =~= Seq::<Seq<u8>>::empty());
        assert(l.push(x)[0] == x);
        assert(length_prefixed_bytes(l.push(x).drop_first()) == Seq::<u8>::empty());
        assert(length_prefixed_bytes(l) == Seq::<u8>::empty());
        assert(length_prefixed_bytes(l.push(x)) =~= length_prefixed_bytes(l) + be32(x.len()) + x);
    } else {
        lemma_length_prefixed_bytes_push(l.drop_first(), x);
        assert(l.push(x).drop_first() =~= l.drop_first().push(x));
        assert(l.push(x)[0] == l[0]);
        assert(length_prefixed_bytes(l.push(x)) == be32(l[0].len()) + l[0]
            + length_prefixed_bytes(l.drop_first().push(x)));
        assert(length_prefixed_bytes(l.push(x)) =~= length_prefixed_bytes(l) + be32(x.len()) + x);
    }
}

/// Converts the length-prefixed form with `length_size`-byte lengths (1 to 4) to Annex B.
pub fn length_prefixed_to_annex_b(data: &[u8], length_size: usize) -> (r: Result<Vec<u8>, MoqError>)
    ensures
        !(1 <= length_size <= 4) ==> (r matches Err(e) && e is Media
            && e.spec_message() == "invalid NAL length size: "@ + dec(length_size as nat)),
        1 <= length_size <= 4 ==> match spec_length_prefixed_to_annex_b(data@, length_size as nat, 0) {
            Ok(out) => r matches Ok(v) && v@ == out,
            Err(true) => r matches Err(e) && e is Media && e.spec_message()
                == "length-prefixed H.264 payload is truncated in a length field"@,
            Err(false) => r matches Err(e) && e is Media && e.spec_message()
                == "length-prefixed H.264 payload is truncated in a NAL"@,
        },
{
    if !(1 <= length_size && length_size <= 4) {
        return Err(MoqError::Media(with_decimal("invalid NAL length size: ", length_size as u64)));
    }
    let mut buf: Vec<u8> = Vec::new();
    let mut offset: usize = 0;
    while offset < data.len()
        invariant
            1 <= length_size <= 4,
            offset <= data@.len(),
            spec_length_prefixed_to_annex_b(data@, length_size as nat, 0) == match spec_length_prefixed_to_annex_b(data@, length_size as nat, offset as int) {
                Ok(rest) => Ok(buf@ + rest),
                Err(b) => Err(b),
            },
        decreases data@.len() - offset,
    {
        if length_size > data.len() - offset {
            return Err(MoqError::Media("length-prefixed H.264 payload is truncated in a length field".to_owned()));
        }
        let mut length: u64 = 0;
        let mut j: usize = 0;
        while j < length_size
            invariant
                j <= length_size <= 4,
                offset + length_size <= data@.len(),
                data@.len() == data.len(),
                length as nat == be_value(data@.subrange(offset as int, offset + j)),
                length < pow256(j as nat),
            decreases length_size - j,
        {
            proof {
                assert(data@.subrange(offset as int, offset + j + 1).drop_last()
                    =~= data@.subrange(offset as int, offset + j));
                lemma_pow256_bound(j as nat);
                assert(length < 16777216);
                assert(length * 256 + 255 < 0x1_0000_0000);
            }
            let byte = data[offset + j] as u64;
            let shifted = length * 256;
            length = shifted + byte;
            j = j + 1;
        }
        offset = offset + length_size;
        if length > (data.len() - offset) as u64 {
            return Err(MoqError::Media("length-prefixed H.264 payload is truncated in a NAL".to_owned()));
        }
        let end = offset + length as usize;
        let ghost start = (offset - length_size) as int;
        proof {
            assert(be_value(data@.subrange(start, start + length_size)) == length as nat);
            let next = spec_length_prefixed_to_annex_b(data@, length_size as nat, end as int);
            assert(spec_length_prefixed_to_annex_b(data@, length_size as nat, start) == match next {
                Ok(rest) => Ok(seq![0u8, 0u8, 0u8, 1u8] + data@.subrange(offset as int, end as int) + rest),
                Err(b) => Err(b),
            });
        }
        let ghost before = buf@;
        buf.push(0);
        buf.push(0);
        buf.push(0);
        buf.push(1);
        append_range(&mut buf, data, offset, end);
        proof {
            let next = spec_length_prefixed_to_annex_b(data@, length_size as nat, end as int);
            match next {
                Ok(rest) => {
                    assert(before + (seq![0u8, 0u8, 0u8, 1u8] + data@.subrange(offset as int, end as int) + rest)
                        =~= buf@ + rest);
                }
                Err(_) => {}
            }
        }
        offset = end;
    }
    proof {
        assert(buf@ + Seq::<u8>::empty() =~= buf@);
    }
    Ok(buf)
}

/// 256 to the power `n`.
pub open spec fn pow256(n: nat) -> nat
    decreases n,
{
    if n == 0 { 1 } else { 256 * pow256((n - 1) as nat) }
}

proof fn lemma_pow256_bound(n: nat)
    requires
        n <= 3,
    ensures
        pow256(n) <= 16777216,
        pow256(n + 1) == 256 * pow256(n),
{
    reveal_with_fuel(pow256, 4);
}

// ─── laws ────────────────────────────────────────────────────────────────────

#[verifier::spinoff_prover]
#[verifier::rlimit(40)]
proof fn lemma_parse_param_sets_bytes(p: Seq<u8>, l: Seq<Seq<u8>>, s: Seq<u8>)
    requires
        first_longer(l, 0xFFFF) is None,
    ensures
        parse_param_sets(p + param_sets_bytes(l) + s, p.len() as int, l.len())
            == Ok::<(Seq<Seq<u8>>, int), bool>((l, (p.len() + param_sets_bytes(l).len()) as int)),
    decreases l.len(),
{
    let d = p + param_sets_bytes(l) + s;
    if l.len() == 0 {
        assert(param_sets_bytes(l) == Seq::<u8>::empty());
        assert(l =~= Seq::<Seq<u8>>::empty());
    } else {
        let x = l[0];
        let rest = l.drop_first();
        let n = x.len();
        assert(n <= 0xFFFF);
        let p2 = p + be16(n) + x;
        assert(first_longer(rest, 0xFFFF) is None);
        lemma_parse_param_sets_bytes(p2, rest, s);
        assert(d =~= p2 + param_sets_bytes(rest) + s);
        let off = p.len() as int;
        assert(d[off] == (n / 256) as u8);
        assert(d[off + 1] == (n % 256) as u8);
        assert(d[off] as int * 256 + d[off + 1] as int == n);
        assert(d.subrange(off + 2, off + 2 + n) =~= x);
        assert(seq![x] + rest =~= l);
    }
}

/// Parsing a record that `build_avc_decoder_config_record` built gives back the SPS list,
/// the PPS list and the four-byte length size it was built with.
pub proof fn lemma_avc_record_round_trip(sps: Seq<Seq<u8>>, pps: Seq<Seq<u8>>)
    requires
        build_record_error(sps, pps) is None,
    ensures
        spec_parse_avc_record(spec_avc_record(sps, pps)) == Ok::<(Seq<Seq<u8>>, Seq<Seq<u8>>, nat), Seq<char>>((sps, pps, LENGTH_SIZE as nat)),
{
    lemma_first_longer_split(sps, pps, 0xFFFF);
    if first_longer(pps, 0xFFFF) is Some {
        assert(first_longer(sps + pps, 0xFFFF) is Some);
    }
    let d = spec_avc_record(sps, pps);
    let n_sps = sps.len() as u8;
    let header = seq![1u8, sps[0][1], sps[0][2], sps[0][3], 0xFFu8, (0xE0u8 | n_sps)];
    let ext: Seq<u8> = if is_high_profile(sps[0][1]) { seq![0xFDu8, 0xF8u8, 0xF8u8, 0x00u8] } else { seq![] };
    let tail = seq![pps.len() as u8] + param_sets_bytes(pps) + ext;
    assert(d =~= header + param_sets_bytes(sps) + tail);
    lemma_parse_param_sets_bytes(header, sps, tail);
    assert((0xE0u8 | n_sps) & 0x1Fu8 == n_sps) by (bit_vector)
        requires n_sps < 32;
    assert(0xFFu8 & 3u8 == 3u8) by (bit_vector);
    let off = 6 + param_sets_bytes(sps).len();
    let p2 = header + param_sets_bytes(sps) + seq![pps.len() as u8];
    assert(d =~= p2 + param_sets_bytes(pps) + ext);
    lemma_parse_param_sets_bytes(p2, pps, ext);
    assert(d[off as int] == pps.len() as u8);
    assert(d.len() >= 7);
}

proof fn lemma_be_value_be32(n: nat)
    requires
        n <= 0xFFFF_FFFF,
    ensures
        be_value(be32(n)) == n,
{
    reveal_with_fuel(be_value, 5);
    let v: u32 = n as u32;
    assert(((((v / 16777216) * 256 + (v / 65536) % 256) * 256 + (v / 256) % 256) * 256 + v % 256) == v) by (bit_vector);
    let b = be32(n);
    assert(b.drop_last().drop_last().drop_last().drop_last() =~= Seq::<u8>::empty());
    assert(b.drop_last().drop_last().drop_last() =~= seq![(n / 16777216) as u8]);
    assert(b.drop_last().drop_last() =~= seq![(n / 16777216) as u8, ((n / 65536) % 256) as u8]);
    assert(b.drop_last() =~= seq![(n / 16777216) as u8, ((n / 65536) % 256) as u8, ((n / 256) % 256) as u8]);
}

proof fn lemma_length_prefixed_round_trip_from(p: Seq<u8>, nals: Seq<Seq<u8>>)
    requires
        first_longer(nals, 0xFFFF_FFFF) is None,
    ensures
        spec_length_prefixed_to_annex_b(p + length_prefixed_bytes(nals), 4, p.len() as int)
            == Ok::<Seq<u8>, bool>(annex_b_bytes(nals)),
    decreases nals.len(),
{
    let d = p + length_prefixed_bytes(nals);
    if nals.len() == 0 {
        assert(length_prefixed_bytes(nals) == Seq::<u8>::empty());
        assert(annex_b_bytes(nals) == Seq::<u8>::empty());
        assert(d =~= p);
    } else {
        let x = nals[0];
        let rest = nals.drop_first();
        let n = x.len();
        let off = p.len() as int;
        let p2 = p + be32(n) + x;
        assert(first_longer(rest, 0xFFFF_FFFF) is None);
        lemma_length_prefixed_round_trip_from(p2, rest);
        assert(d =~= p2 + length_prefixed_bytes(rest));
        assert(d.subrange(off, off + 4) =~= be32(n));
        lemma_be_value_be32(n);
        assert(d.subrange(off + 4, off + 4 + n) =~= x);
        assert(annex_b_bytes(nals) == seq![0u8, 0u8, 0u8, 1u8] + x + annex_b_bytes(rest));
    }
}

/// Converting NAL units to the length-prefixed form and back to Annex B gives the NAL
/// units in Annex B form, each behind a four-byte start code.
pub proof fn lemma_length_prefixed_round_trip(nals: Seq<Seq<u8>>)
    requires
        first_longer(nals, 0xFFFF_FFFF) is None,
    ensures
        spec_length_prefixed_to_annex_b(length_prefixed_bytes(nals), LENGTH_SIZE as nat, 0)
            == Ok::<Seq<u8>, bool>(annex_b_bytes(nals)),
{
    lemma_length_prefixed_round_trip_from(Seq::empty(), nals);
    assert(Seq::<u8>::empty() + length_prefixed_bytes(nals) =~= length_prefixed_bytes(nals));
}

// ─── Annex B round trip ─────────────────────────────────────────────────────

/// Whether a NAL unit survives the Annex B framing as it is: it is not empty, does not end
/// with a zero byte, and holds no `00 00 01` (emulation prevention keeps it out of NAL
/// units, ISO/IEC 14496-10 §7.4.1).
pub open spec fn clean_nal(n: Seq<u8>) -> bool {
    &&& n.len() > 0
    &&& n.last() != 0
    &&& forall|i: int| 0 <= i && i + 3 <= n.len() ==> !(#[trigger] n[i] == 0 && n[i + 1] == 0 && n[i + 2] == 1)
}

/// Whether every NAL unit of a list is clean.
pub open spec fn clean_nals(nals: Seq<Seq<u8>>) -> bool {
    forall|k: int| 0 <= k < nals.len() ==> clean_nal(#[trigger] nals[k])
}

proof fn lemma_trim_clean(n: Seq<u8>)
    requires
        clean_nal(n),
    ensures
        trim_trailing_zeros(n) == n,
{
}

proof fn lemma_no_start_code_in_body(d: Seq<u8>, s: int, n: Seq<u8>, j: int)
    requires
        0 <= s,
        s + n.len() <= d.len(),
        d.subrange(s, s + n.len()) == n,
        clean_nal(n),
        s <= j < s + n.len(),
    ensures
        start_code_len(d, j) == 0,
{
    let e = s + n.len();
    assert(d[e - 1] == n[n.len() - 1]);
    if j + 2 < e {
        assert(d[j] == n[j - s] && d[j + 1] == n[j - s + 1] && d[j + 2] == n[j - s + 2]);
        assert(!(n[j - s] == 0 && n[j - s + 1] == 0 && n[j - s + 2] == 1));
        if j + 3 < e {
            assert(d[j + 3] == n[j - s + 3]);
            assert(!(n[j - s + 1] == 0 && n[j - s + 2] == 0 && n[j - s + 3] == 1));
        }
    } else if j + 2 == e {
        assert(d[j] == n[j - s]);
    }
}

proof fn lemma_scan_body(d: Seq<u8>, s: int, n: Seq<u8>, j: int, acc: Seq<Seq<u8>>)
    requires
        0 <= s <= j <= s + n.len(),
        s + n.len() <= d.len(),
        d.subrange(s, s + n.len()) == n,
        clean_nal(n),
    ensures
        scan_annex_b(d, j, Some(s), acc) == scan_annex_b(d, s + n.len(), Some(s), acc),
    decreases s + n.len() - j,
{
    if j < s + n.len() {
        lemma_no_start_code_in_body(d, s, n, j);
        lemma_scan_body(d, s, n, j + 1, acc);
    }
}

proof fn lemma_scan_nals(p: Seq<u8>, nals: Seq<Seq<u8>>, cur: Option<int>, acc: Seq<Seq<u8>>)
    requires
        clean_nals(nals),
        cur matches Some(st) ==> 0 <= st <= p.len(),
    ensures
        scan_annex_b(p + annex_b_bytes(nals), p.len() as int, cur, acc) == (match cur {
            Some(st) => add_nal(acc, p.subrange(st, p.len() as int)),
            None => acc,
        }) + nals,
    decreases nals.len(),
{
    let d = p + annex_b_bytes(nals);
    let i = p.len() as int;
    let done = match cur {
        Some(st) => add_nal(acc, p.subrange(st, i)),
        None => acc,
    };
    if nals.len() == 0 {
        assert(annex_b_bytes(nals) =~= Seq::<u8>::empty());
        assert(d =~= p);
        if let Some(st) = cur {
            assert(d.subrange(st, d.len() as int) =~= p.subrange(st, i));
        }
        assert(done + nals =~= done);
    } else {
        let n = nals[0];
        let rest = nals.drop_first();
        assert(annex_b_bytes(nals) == seq![0u8, 0u8, 0u8, 1u8] + n + annex_b_bytes(rest));
        let p2 = p + seq![0u8, 0u8, 0u8, 1u8] + n;
        assert(d =~= p2 + annex_b_bytes(rest));
        assert(d[i] == 0 && d[i + 1] == 0 && d[i + 2] == 0 && d[i + 3] == 1);
        assert(start_code_len(d, i) == 4);
        if let Some(st) = cur {
            assert(d.subrange(st, i) =~= p.subrange(st, i));
        }
        let s = i + 4;
        assert(clean_nal(nals[0]));
        assert(d.subrange(s, s + n.len()) =~= n);
        lemma_scan_body(d, s, n, s, done);
        assert(p2.len() == s + n.len());
        assert forall|k: int| 0 <= k < rest.len() implies clean_nal(#[trigger] rest[k]) by {
            assert(rest[k] == nals[k + 1]);
        }
        lemma_scan_nals(p2, rest, Some(s), done);
        assert(p2.subrange(s, s + n.len()) =~= n);
        lemma_trim_clean(n);
        assert(add_nal(done, n) == done.push(n));
        assert(done.push(n) + rest =~= done + nals);
    }
}

/// Splitting the Annex B form of clean NAL units gives the NAL units back.
pub proof fn lemma_split_annex_b_round_trip(nals: Seq<Seq<u8>>)
    requires
        clean_nals(nals),
    ensures
        spec_split_annex_b(annex_b_bytes(nals)) == nals,
{
    lemma_scan_nals(Seq::empty(), nals, None, Seq::empty());
    assert(Seq::<u8>::empty() + annex_b_bytes(nals) =~= annex_b_bytes(nals));
    assert(Seq::<Seq<u8>>::empty() + nals =~= nals);
}

/// Annex B bytes made of clean NAL units (each behind a four-byte start code, each shorter
/// than 4 GiB) come back unchanged from the length-prefixed form: converting to it does
/// not fail, and converting back restores every byte.
pub proof fn lemma_annex_b_round_trip(nals: Seq<Seq<u8>>)
    requires
        clean_nals(nals),
        first_longer(nals, 0xFFFF_FFFF) is None,
    ensures
        first_longer(spec_split_annex_b(annex_b_bytes(nals)), 0xFFFF_FFFF) is None,
        spec_length_prefixed_to_annex_b(length_prefixed_bytes(spec_split_annex_b(annex_b_bytes(nals))), LENGTH_SIZE as nat, 0)
            == Ok::<Seq<u8>, bool>(annex_b_bytes(nals)),
{
    lemma_split_annex_b_round_trip(nals);
    lemma_length_prefixed_round_trip(nals);
}

/// The record announces the first SPS: it is version 1, its bytes 1, 2 and 3 are the SPS's
/// profile_idc, constraint flags (profile compatibility) and level_idc, in that order, byte
/// 4 gives four-byte lengths, and the `avc1.PPCCLL` codec string read from the record is
/// the one of the SPS.
pub proof fn lemma_avc_record_announces_sps(sps: Seq<Seq<u8>>, pps: Seq<Seq<u8>>)
    requires
        build_record_error(sps, pps) is None,
    ensures
        spec_avc_record(sps, pps).len() >= 6,
        spec_avc_record(sps, pps)[0] == 1u8,
        spec_avc_record(sps, pps)[1] == sps[0][1],
        spec_avc_record(sps, pps)[2] == sps[0][2],
        spec_avc_record(sps, pps)[3] == sps[0][3],
        spec_avc_record(sps, pps)[4] == 0xFFu8,
        spec_avc_codec_string(spec_avc_record(sps, pps)) == spec_avc_codec_string(sps[0]),
{
    let d = spec_avc_record(sps, pps);
    let header = seq![1u8, sps[0][1], sps[0][2], sps[0][3], 0xFFu8, (0xE0u8 | (sps.len() as u8))];
    let rest = param_sets_bytes(sps) + seq![pps.len() as u8] + param_sets_bytes(pps)
        + if is_high_profile(sps[0][1]) { seq![0xFDu8, 0xF8u8, 0xF8u8, 0x00u8] } else { seq![] };
    assert(d =~= header + rest);
    assert(d[0] == header[0] && d[1] == header[1] && d[2] == header[2] && d[3] == header[3] && d[4] == header[4]);
}

} // verus!
