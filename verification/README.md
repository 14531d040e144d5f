# momo

The logic of a WebRTC / MOQT native client, verified with Verus.

- `src/` — the verified library:
  - `moq/` — the MOQT mode: H.264 Annex B / AVC record handling, the Opus header, the
    server URL, the settings and command line values, the MSF catalog, the publisher's
    groups, subgroups and timestamps, the subscriber's stream routing and timing, the
    client's request bookkeeping, the pixel-format conversions of captured frames, and the
    QUIC set-up decisions.
  - `sora/` — the Sora mode: the checked connect settings (DataChannels, client IDs,
    forwarding filters read from JSON with `nojson`), the media settings, the tracks of the
    event handler and the reconnection interval.
  - `ayame.rs` — the Ayame mode: the signaling decisions, the watchdog, the reconnection
    interval and the client ID.
  - `display.rs`, `audio_device.rs`, `video_codec_factory.rs` — the display's cells and
    frames, the audio device choice and playout buffer, and the codec selection.
- `tests/` — tests of the library.
- `app/` — what stays outside the verified library: clocks, async loops, the QUIC/TLS
  set-up with `s2n-quic` and `rustls`, the command line with `noargs`, and the
  floating-point parts (fake sources, display layout, PCM conversion).

## Not included

- The MOQT session engine, `shiguredo_moqt`, is not available from the crate registry
  this project is built against. The MOQT session, publisher and subscriber loops that
  drive it (opening the session, publishing and subscribing tracks, reading and writing
  data streams) are therefore not part of this repository; the decisions they make stand
  verified in `src/moq/` (`dispatch`, `publisher`, `subscriber`, `catalog`, `client`).
- Likewise, the code that calls libwebrtc (`shiguredo_webrtc`), `sora_sdk`, the audio and
  video device crates, the Opus and OpenH264 bindings and the SDL player (`raw_player`)
  is not included: those crates do not build with this project's toolchain. Their
  decisions stand verified in `src/` as well.
