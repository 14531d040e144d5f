//! The OpusHead identification header (RFC 7845 §5.1) carried in the audio config.

use vstd::prelude::*;

use crate::moq::error::MoqError;
use crate::text::{dec, with_decimal};

verus! {

/// Audio sampling rate (Hz).
pub const SAMPLE_RATE: u32 = 48_000;
/// Number of audio channels (stereo).
pub const CHANNELS: u8 = 2;

/// The magic signature `OpusHead`.
pub open spec fn opus_magic() -> Seq<u8> {
    seq![0x4Fu8, 0x70u8, 0x75u8, 0x73u8, 0x48u8, 0x65u8, 0x61u8, 0x64u8]
}

/// Little-endian encoding of a 32-bit value.
pub open spec fn le32(n: u32) -> Seq<u8> {
    seq![(n % 256) as u8, ((n / 256) % 256) as u8, ((n / 65536) % 256) as u8, (n / 16777216) as u8]
}

/// The value of four little-endian bytes.
pub open spec fn le32_value(b0: u8, b1: u8, b2: u8, b3: u8) -> u32 {
    (b0 as nat + b1 as nat * 256 + b2 as nat * 65536 + b3 as nat * 16777216) as u32
}

/// The 19-byte OpusHead: version 1, the channel count, pre-skip 0, the input sample rate,
/// output gain 0 and channel mapping family 0 (mono or stereo).
pub open spec fn spec_opus_head(sample_rate: u32, channels: u8) -> Seq<u8> {
    opus_magic() + seq![1u8, channels, 0u8, 0u8] + le32(sample_rate) + seq![0u8, 0u8, 0u8]
}

/// A parsed OpusHead.
#[derive(Debug, Clone, Copy, PartialEq, Eq, Structural)]
pub struct OpusHead {
    /// Number of channels.
    pub channel_count: u8,
    /// Input sample rate; 0 means unspecified.
    pub input_sample_rate: u32,
}

/// What parsing an OpusHead gives: the header, or the message of the error.
pub open spec fn spec_parse_opus_head(b: Seq<u8>) -> Result<OpusHead, Seq<char>> {
    if b.len() < 19 || b.subrange(0, 8) != opus_magic() {
        Err("invalid OpusHead magic"@)
    } else if b[8] != 1 {
        Err("unsupported OpusHead version: "@ + dec(b[8] as nat))
    } else if b[9] == 0 {
        Err("OpusHead channel count is 0"@)
    } else {
        Ok(OpusHead { channel_count: b[9], input_sample_rate: le32_value(b[12], b[13], b[14], b[15]) })
    }
}

fn push_le32(buf: &mut Vec<u8>, n: u32)
    ensures
        final(buf)@ == old(buf)@ + le32(n),
{
    buf.push((n % 256) as u8);
    buf.push(((n / 256) % 256) as u8);
    buf.push(((n / 65536) % 256) as u8);
    buf.push((n / 16777216) as u8);
    assert(buf@ =~= old(buf)@ + le32(n));
}

/// Builds an OpusHead (RFC 7845 §5.1) with pre-skip 0, output gain 0 and channel
/// mapping family 0.
pub fn build_opus_head(sample_rate: u32, channels: u8) -> (r: Vec<u8>)
    ensures
        r@ == spec_opus_head(sample_rate, channels),
{
    let mut head: Vec<u8> = Vec::new();
    head.push(0x4F);
    head.push(0x70);
    head.push(0x75);
    head.push(0x73);
    head.push(0x48);
    head.push(0x65);
    head.push(0x61);
    head.push(0x64);
    head.push(1);
    head.push(channels);
    head.push(0);
    head.push(0);
    push_le32(&mut head, sample_rate);
    head.push(0);
    head.push(0);
    head.push(0);
    assert(head@ =~= spec_opus_head(sample_rate, channels));
    head
}

/// Parses an OpusHead (RFC 7845 §5.1).
pub fn parse_opus_head(bytes: &[u8]) -> (r: Result<OpusHead, MoqError>)
    ensures
        match spec_parse_opus_head(bytes@) {
            Ok(head) => r == Ok::<OpusHead, MoqError>(head),
            Err(message) => r matches Err(e) && e is Media && e.spec_message() == message,
        },
{
    let magic_ok = bytes.len() >= 19 && bytes[0] == 0x4F && bytes[1] == 0x70 && bytes[2] == 0x75
        && bytes[3] == 0x73 && bytes[4] == 0x48 && bytes[5] == 0x65 && bytes[6] == 0x61
        && bytes[7] == 0x64;
    proof {
        if bytes@.len() >= 19 {
            if magic_ok {
                assert(bytes@.subrange(0, 8) =~= opus_magic());
            } else {
                assert(bytes@.subrange(0, 8) != opus_magic()) by {
                    if bytes@.subrange(0, 8) == opus_magic() {
                        assert(bytes@.subrange(0, 8)[0] == bytes@[0]);
                        assert(bytes@.subrange(0, 8)[1] == bytes@[1]);
                        assert(bytes@.subrange(0, 8)[2] == bytes@[2]);
                        assert(bytes@.subrange(0, 8)[3] == bytes@[3]);
                        assert(bytes@.subrange(0, 8)[4] == bytes@[4]);
                        assert(bytes@.subrange(0, 8)[5] == bytes@[5]);
                        assert(bytes@.subrange(0, 8)[6] == bytes@[6]);
                        assert(bytes@.subrange(0, 8)[7] == bytes@[7]);
                    }
                }
            }
        }
    }
    if !magic_ok {
        return Err(MoqError::Media("invalid OpusHead magic".to_owned()));
    }
    if bytes[8] != 1 {
        return Err(MoqError::Media(with_decimal("unsupported OpusHead version: ", bytes[8] as u64)));
    }
    let channel_count = bytes[9];
    if channel_count == 0 {
        return Err(MoqError::Media("OpusHead channel count is 0".to_owned()));
    }
    let input_sample_rate = (bytes[12] as u32) + (bytes[13] as u32) * 256
        + (bytes[14] as u32) * 65536 + (bytes[15] as u32) * 16777216;
    Ok(OpusHead { channel_count, input_sample_rate })
}

/// Parsing an OpusHead that `build_opus_head` built gives back its channel count and
/// sample rate, whenever the channel count is not 0.
pub proof fn lemma_opus_head_round_trip(sample_rate: u32, channels: u8)
    requires
        channels != 0,
    ensures
        spec_parse_opus_head(spec_opus_head(sample_rate, channels))
            == Ok::<OpusHead, Seq<char>>(OpusHead { channel_count: channels, input_sample_rate: sample_rate }),
{
    let b = spec_opus_head(sample_rate, channels);
    assert(b.subrange(0, 8) =~= opus_magic());
    let v = sample_rate;
    assert(((v % 256) + ((v / 256) % 256) * 256 + ((v / 65536) % 256) * 65536 + (v / 16777216) * 16777216) == v) by (bit_vector);
}

} // verus!
