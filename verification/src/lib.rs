//! Verified core of the Momo WebRTC native client: H.264 and Opus framing, MOQT URL and
//! configuration handling, MSF catalog lookup, pixel-format conversion, and the decisions
//! of the signaling and playback loops.

pub mod bytes;
pub mod text;
pub mod moq;
pub mod ayame;
pub mod audio_device;
pub mod sora;
pub mod video_codec_factory;
pub mod display;
