//! Resolving an audio device given on the command line.
//!
//! The device given by `--audio-input-device` / `--audio-output-device` is matched against
//! the device list that `--list-devices` shows and resolved to the device's unique_id.

use vstd::prelude::*;

use crate::text::{dec, parse_unsigned, spec_parse_unsigned, str_eq, with_decimal};

verus! {

/// The index of the first device whose name or unique_id is `spec`.
pub open spec fn first_matching_device(spec: Seq<char>, devices: Seq<(String, String)>) -> Option<int>
    decreases devices.len(),
{
    if devices.len() == 0 {
        None
    } else if devices[0].0@ == spec || devices[0].1@ == spec {
        Some(0)
    } else {
        match first_matching_device(spec, devices.drop_first()) {
            Some(i) => Some(i + 1),
            None => None,
        }
    }
}

/// What resolving `spec` against `(name, unique_id)` pairs gives: a decimal index picks
/// the device at that index; otherwise the first device whose name or unique_id equals
/// `spec` is taken. The result is the unique_id, or the message of the error.
pub open spec fn spec_resolve_audio_device(spec: Seq<char>, devices: Seq<(String, String)>) -> Result<Seq<char>, Seq<char>> {
    match spec_parse_unsigned(spec, usize::MAX as nat) {
        Some(index) => if index < devices.len() {
            Ok(devices[index as int].1@)
        } else {
            Err("指定されたインデックスは存在しません: "@ + dec(index))
        },
        None => match first_matching_device(spec, devices) {
            Some(i) => Ok(devices[i].1@),
            None => Err("音声デバイスが見つかりませんでした: '"@ + spec + "'"@),
        },
    }
}

proof fn lemma_first_matching_device(spec: Seq<char>, devices: Seq<(String, String)>)
    ensures
        first_matching_device(spec, devices) matches Some(i) ==> 0 <= i < devices.len(),
    decreases devices.len(),
{
    if devices.len() > 0 && !(devices[0].0@ == spec || devices[0].1@ == spec) {
        lemma_first_matching_device(spec, devices.drop_first());
    }
}

/// Resolves a device given by its index in the list, its name or its unique_id to the
/// unique_id, using the given `(name, unique_id)` pairs.
pub fn resolve_audio_device_in_list(spec: &str, devices: &[(String, String)]) -> (r: Result<String, String>)
    ensures
        match spec_resolve_audio_device(spec@, devices@) {
            Ok(id) => r matches Ok(s) && s@ == id,
            Err(m) => r matches Err(e) && e@ == m,
        },
{
    if let Some(index) = parse_unsigned(spec, usize::MAX as u64) {
        let index = index as usize;
        if index < devices.len() {
            return Ok(devices[index].1.clone());
        }
        return Err(with_decimal("指定されたインデックスは存在しません: ", index as u64));
    }
    let mut i: usize = 0;
    assert(devices@.skip(0) =~= devices@);
    while i < devices.len()
        invariant
            i <= devices@.len(),
            spec_parse_unsigned(spec@, usize::MAX as nat) is None,
            first_matching_device(spec@, devices@) == match first_matching_device(spec@, devices@.skip(i as int)) {
                Some(j) => Some(j + i),
                None => None,
            },
        decreases devices@.len() - i,
    {
        assert(devices@.skip(i as int).drop_first() =~= devices@.skip(i + 1));
        assert(devices@.skip(i as int)[0] == devices@[i as int]);
        let (name, unique_id) = &devices[i];
        if str_eq(name.as_str(), spec) || str_eq(unique_id.as_str(), spec) {
            return Ok(unique_id.clone());
        }
        i = i + 1;
    }
    let mut message = "音声デバイスが見つかりませんでした: '".to_owned();
    message.append(spec);
    message.append("'");
    Err(message)
}

/// Resolves a device given on the command line against the enumerated devices. A device
/// that cannot be resolved is an error (passing the text on would silently pick the
/// default device), with a hint to `--list-devices`.
pub fn resolve_listed_device(spec: &str, devices: &[(String, String)]) -> (r: Result<String, String>)
    ensures
        match spec_resolve_audio_device(spec@, devices@) {
            Ok(id) => r matches Ok(s) && s@ == id,
            Err(m) => r matches Err(e) && e@ == m + " (`--list-devices` で確認してください)"@,
        },
{
    match resolve_audio_device_in_list(spec, devices) {
        Ok(unique_id) => Ok(unique_id),
        Err(e) => {
            let mut message = e;
            message.append(" (`--list-devices` で確認してください)");
            Err(message)
        },
    }
}

/// The output device to play on: none given means the default device; a device that
/// cannot be resolved also falls back to the default device, so that playing back does
/// not stop the rest of the connection.
pub fn playout_device_id(spec: Option<&str>, devices: &[(String, String)]) -> (r: Option<String>)
    ensures
        match spec {
            None => r is None,
            Some(s) => match spec_resolve_audio_device(s@, devices@) {
                Ok(id) => r matches Some(v) && v@ == id,
                Err(_) => r is None,
            },
        },
{
    match spec {
        None => None,
        Some(spec) => match resolve_audio_device_in_list(spec, devices) {
            Ok(unique_id) => Some(unique_id),
            Err(_) => None,
        },
    }
}

/// Bytes of an S16 playout buffer of `frames` frames of `channels` channels, or `None`
/// when that does not fit.
pub fn playout_buffer_len(frames: usize, channels: usize) -> (r: Option<usize>)
    ensures
        match r {
            Some(n) => n == frames * channels * 2,
            None => frames * channels * 2 > usize::MAX,
        },
{
    match frames.checked_mul(channels) {
        Some(samples) => samples.checked_mul(2),
        None => {
            assert(frames * channels * 2 >= frames * channels) by (nonlinear_arith);
            None
        },
    }
}

/// Trims a playout buffer to the frames the transport wrote: at most `frames` of them.
/// Returns the number of frames that are played.
pub fn trim_played(buffer: &mut Vec<u8>, frames: usize, frames_written: usize, channels: usize) -> (r: usize)
    requires
        old(buffer)@.len() == frames * channels * 2,
    ensures
        r == (if frames_written < frames { frames_written } else { frames }),
        final(buffer)@ == old(buffer)@.take(r * channels * 2),
{
    let frames_out = if frames_written < frames { frames_written } else { frames };
    if frames_out < frames {
        assert(buffer.len() == frames * channels * 2);
        assert(frames_out * channels <= frames * channels) by (nonlinear_arith)
            requires frames_out < frames;
        buffer.truncate(frames_out * channels * 2);
    } else {
        assert(old(buffer)@.take(frames_out * channels * 2) =~= old(buffer)@);
    }
    frames_out
}

} // verus!
