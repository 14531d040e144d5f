[package]
name = "momo"
version = "0.1.0"
edition = "2021"
publish = false

[dependencies]
shiguredo_opus = "=2026.4.0"
shiguredo_openh264 = "=2026.2.0"
shiguredo_audio_device = "=2026.3.0"
shiguredo_video_device = "=2026.3.0"
shiguredo_webrtc = "=0.156.0"
sora_sdk = "=2026.3.0"
raw_player = "=2026.3.0"
raden = "=2026.2.0"
nojson = "=0.3.15"
noargs = "=0.4.3"
bytes = "=1.12.1"
tracing = "=0.1.44"
tokio = { version = "=1.54.1", features = ["rt-multi-thread", "macros", "sync", "time", "net"] }
s2n-quic = { version = "=1.91.0", features = ["provider-tls-rustls", "unstable-provider-datagram"] }
rustls = "=0.23.46"
rustls-pki-types = "=1.15.1"
rustls-platform-verifier = "=0.7.1"
aws-lc-rs = "=1.19.0"
