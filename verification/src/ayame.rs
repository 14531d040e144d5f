//! Decisions of the Ayame mode: the signaling watchdog and the reconnection interval.

use vstd::prelude::*;

use crate::text::{lower_hex2, push_lower_hex2};

verus! {

/// Watchdog deadline while connecting (seconds).
pub const INITIAL_WATCHDOG_SECONDS: u64 = 30;
/// Watchdog deadline once the peer connection is established (seconds).
pub const CONNECTED_WATCHDOG_SECONDS: u64 = 60;
/// Step of the reconnection interval (seconds).
pub const RECONNECT_INTERVAL_STEP_SECONDS: u64 = 10;
/// Upper bound of the reconnection interval (seconds).
pub const RECONNECT_INTERVAL_MAX_SECONDS: u64 = 30;
/// Lower bound of the reconnection interval (seconds), so that fast connect-and-close
/// cycles do not spin.
pub const MIN_RECONNECT_SECONDS: u64 = 1;

/// Direction of the media of an Ayame connection.
#[derive(Debug, Clone, Copy, PartialEq, Eq, Structural)]
pub enum Direction {
    SendRecv,
    SendOnly,
    RecvOnly,
}

/// Seconds to wait before reconnection attempt `retry` (counted from 0 after a
/// connection whose WebSocket was established): `retry * 10`, kept within 1 to 30.
pub open spec fn spec_reconnect_wait_seconds(retry: u32) -> u64 {
    let w = retry as int * RECONNECT_INTERVAL_STEP_SECONDS as int;
    if w < MIN_RECONNECT_SECONDS {
        MIN_RECONNECT_SECONDS
    } else if w > RECONNECT_INTERVAL_MAX_SECONDS {
        RECONNECT_INTERVAL_MAX_SECONDS
    } else {
        w as u64
    }
}

/// Seconds to wait before reconnection attempt `retry`.
pub fn reconnect_wait_seconds(retry: u32) -> (r: u64)
    ensures
        r == spec_reconnect_wait_seconds(retry),
        MIN_RECONNECT_SECONDS <= r <= RECONNECT_INTERVAL_MAX_SECONDS,
{
    if retry >= 3 {
        RECONNECT_INTERVAL_MAX_SECONDS
    } else {
        let w = retry as u64 * RECONNECT_INTERVAL_STEP_SECONDS;
        if w < MIN_RECONNECT_SECONDS { MIN_RECONNECT_SECONDS } else { w }
    }
}

/// Liveness watchdog of the signaling connection.
///
/// As in momo, the deadline is 30 seconds while connecting and 60 seconds once the peer
/// connection is established; only a `ping` from the signaling server extends it. Past the
/// deadline the connection is closed and reconnected.
#[derive(Debug, Clone, Copy)]
pub struct Watchdog {
    /// The current deadline length (seconds).
    interval_seconds: u64,
    /// When the deadline passes (unix milliseconds).
    deadline_millis: u64,
}

/// What a watchdog holds: the deadline length and when the deadline passes.
pub struct WatchdogView {
    pub interval_seconds: u64,
    pub deadline_millis: u64,
}

impl View for Watchdog {
    type V = WatchdogView;

    closed spec fn view(&self) -> WatchdogView {
        WatchdogView { interval_seconds: self.interval_seconds, deadline_millis: self.deadline_millis }
    }
}

/// The deadline `interval_seconds` after `now_ms`, or `u64::MAX` when that does not fit.
pub open spec fn spec_deadline(now_ms: u64, interval_seconds: u64) -> u64 {
    let d = now_ms as int + interval_seconds as int * 1000;
    if d > u64::MAX { u64::MAX } else { d as u64 }
}

impl Watchdog {
    #[verifier::type_invariant]
    spec fn interval_is_known(&self) -> bool {
        self.interval_seconds == INITIAL_WATCHDOG_SECONDS || self.interval_seconds == CONNECTED_WATCHDOG_SECONDS
    }

    /// Starts watching at `now_ms` (unix milliseconds) with the 30-second deadline.
    pub fn new(now_ms: u64) -> (r: Self)
        ensures
            r@.interval_seconds == INITIAL_WATCHDOG_SECONDS,
            r@.deadline_millis == spec_deadline(now_ms, INITIAL_WATCHDOG_SECONDS),
    {
        let mut watchdog = Watchdog { interval_seconds: INITIAL_WATCHDOG_SECONDS, deadline_millis: 0 };
        watchdog.arm(now_ms);
        watchdog
    }

    /// Re-arms the watchdog at `now_ms` with its current deadline length.
    pub fn arm(&mut self, now_ms: u64)
        ensures
            final(self)@.interval_seconds == old(self)@.interval_seconds,
            final(self)@.deadline_millis == spec_deadline(now_ms, old(self)@.interval_seconds),
    {
        proof {
            use_type_invariant(&*self);
        }
        let length = self.interval_seconds * 1000;
        self.deadline_millis = now_ms.saturating_add(length);
    }

    /// Switches to the 60-second deadline once the peer connection is established, and
    /// re-arms at `now_ms`.
    pub fn on_connected(&mut self, now_ms: u64)
        ensures
            final(self)@.interval_seconds == CONNECTED_WATCHDOG_SECONDS,
            final(self)@.deadline_millis == spec_deadline(now_ms, CONNECTED_WATCHDOG_SECONDS),
    {
        self.interval_seconds = CONNECTED_WATCHDOG_SECONDS;
        self.arm(now_ms);
    }

    /// Whether the deadline has passed at `now_ms`.
    pub fn expired(&self, now_ms: u64) -> (r: bool)
        ensures
            r == (now_ms >= self@.deadline_millis),
    {
        now_ms >= self.deadline_millis
    }

    /// The current deadline length (seconds).
    pub fn interval_seconds(&self) -> (r: u64)
        ensures
            r == self@.interval_seconds,
    {
        self.interval_seconds
    }

    /// When the deadline passes (unix milliseconds).
    pub fn deadline_millis(&self) -> (r: u64)
        ensures
            r == self@.deadline_millis,
    {
        self.deadline_millis
    }
}

/// A watchdog armed at `now_ms` has not expired at `now_ms`: its deadline lies after
/// the moment it was armed (for any deadline length, and any time but the very last
/// representable millisecond).
pub proof fn lemma_armed_watchdog_not_expired(now_ms: u64, interval_seconds: u64)
    requires
        interval_seconds > 0,
        now_ms < u64::MAX,
    ensures
        spec_deadline(now_ms, interval_seconds) > now_ms,
{
}

// ─── Connection attempts ────────────────────────────────────────────────────

/// How one connection attempt ended.
#[derive(Debug, Clone)]
pub enum Attempt {
    /// The WebSocket was established and the connection has ended: reconnect at once.
    ReconnectNow,
    /// The WebSocket could not be established (or the room refused us): retry after a wait.
    ReconnectLater(String),
}

/// The retry count after an attempt ends: an attempt whose WebSocket was established
/// counts from 0 again.
pub open spec fn retry_after(attempt: Attempt, retry: u32) -> u32 {
    match attempt {
        Attempt::ReconnectNow => 0,
        Attempt::ReconnectLater(_) => retry,
    }
}

/// After an attempt has ended with `retry` failed attempts counted before it: the seconds
/// to wait before the next attempt, and the retry count the next attempt starts with.
pub fn after_attempt(attempt: &Attempt, retry: u32) -> (r: (u64, u32))
    ensures
        r.0 == spec_reconnect_wait_seconds(retry_after(*attempt, retry)),
        r.1 == (if retry_after(*attempt, retry) == u32::MAX { u32::MAX as int } else { retry_after(*attempt, retry) + 1 }),
{
    let retry = match attempt {
        Attempt::ReconnectNow => 0,
        Attempt::ReconnectLater(_) => retry,
    };
    let wait_seconds = reconnect_wait_seconds(retry);
    (wait_seconds, retry.saturating_add(1))
}

/// Where a connection attempt stands.
#[derive(Debug, Clone, Copy, PartialEq, Eq, Structural)]
pub enum AyamePhase {
    /// Waiting for the WebSocket to open.
    WaitConnected,
    /// `register` sent; waiting for `accept` or `reject`.
    WaitAccept,
    /// Accepted: the peer connection exists and signaling messages are exchanged.
    InSession,
    /// The attempt has ended.
    Done,
}

/// A message of the Ayame signaling server, as far as the decisions read it.
#[derive(Debug, Clone)]
pub enum AyameMessage {
    Accept { is_exist_user: bool },
    Reject { reason: String },
    Offer,
    Answer,
    Candidate,
    Ping,
    Bye,
    Other,
}

/// What happened: a notification of the signaling task, or the failure of an action.
#[derive(Debug, Clone)]
pub enum AyameEvent {
    /// The WebSocket opened.
    Connected,
    /// The signaling task failed.
    Error(String),
    /// The WebSocket closed.
    Closed,
    /// The signaling task ended without a word.
    ChannelEnded,
    /// A message arrived.
    Message(AyameMessage),
    /// Sending `register` failed.
    RegisterFailed,
    /// Creating the peer connection, or the offer, failed.
    PeerFailed,
    /// Handling an offer or an answer failed.
    SdpFailed,
}

/// What to do next.
#[derive(Debug, Clone)]
pub enum AyameAction {
    /// Send `register`.
    SendRegister,
    /// Create the peer connection; send an offer when another user is already in the room.
    CreatePeer { send_offer: bool },
    /// Apply the received offer and answer it.
    HandleOffer,
    /// Apply the received answer.
    HandleAnswer,
    /// Add the received ICE candidate.
    AddCandidate,
    /// Re-arm the watchdog and answer `pong`.
    ArmWatchdogAndPong,
    /// Keep waiting.
    Wait,
    /// End the attempt; close the signaling connection first when `close_signaling`.
    Finish { attempt: Attempt, close_signaling: bool },
}

/// Whether `a` ends the attempt with `ReconnectNow`.
pub open spec fn finishes_now(a: AyameAction, close_signaling: bool) -> bool {
    a matches AyameAction::Finish { attempt: Attempt::ReconnectNow, close_signaling: c } && c == close_signaling
}

/// Whether `a` ends the attempt with `ReconnectLater(message)`, without closing.
pub open spec fn finishes_later(a: AyameAction, message: Seq<char>) -> bool {
    a matches AyameAction::Finish { attempt: Attempt::ReconnectLater(m), close_signaling: false } && m@ == message
}

/// The decisions of one Ayame connection attempt (as in momo): the phase after `event`
/// and the action it calls for.
///
/// Before the WebSocket opens every other notification ends the attempt with a retry after
/// a wait. Once it is open, `register` is sent; a `reject` also ends with a wait, while
/// the connection closing ends with an immediate reconnection. After `accept` the peer
/// connection is created, and in the session offers, answers, candidates and pings are
/// handled; `bye`, an error or the close end the attempt (closing the signaling connection
/// first) and so does a failed action.
pub open spec fn ayame_step_ok(phase: AyamePhase, event: AyameEvent, next: AyamePhase, a: AyameAction) -> bool {
    match phase {
        AyamePhase::WaitConnected => match event {
            AyameEvent::Connected => next == AyamePhase::WaitAccept && a is SendRegister,
            AyameEvent::Error(e) => next == AyamePhase::Done && finishes_later(a, e@),
            AyameEvent::Closed => next == AyamePhase::Done && finishes_later(a, "ハンドシェイク前に接続が閉じました"@),
            _ => next == AyamePhase::Done && finishes_later(a, "予期しない通知を受信しました"@),
        },
        AyamePhase::WaitAccept => match event {
            AyameEvent::Message(AyameMessage::Accept { is_exist_user }) =>
                next == AyamePhase::InSession && a == (AyameAction::CreatePeer { send_offer: is_exist_user }),
            AyameEvent::Message(AyameMessage::Reject { reason }) =>
                next == AyamePhase::Done && finishes_later(a, "reject: "@ + reason@),
            AyameEvent::Error(e) => next == AyamePhase::Done && finishes_later(a, e@),
            AyameEvent::Closed | AyameEvent::ChannelEnded | AyameEvent::RegisterFailed =>
                next == AyamePhase::Done && finishes_now(a, false),
            _ => next == AyamePhase::WaitAccept && a is Wait,
        },
        AyamePhase::InSession => match event {
            AyameEvent::Message(AyameMessage::Offer) => next == AyamePhase::InSession && a is HandleOffer,
            AyameEvent::Message(AyameMessage::Answer) => next == AyamePhase::InSession && a is HandleAnswer,
            AyameEvent::Message(AyameMessage::Candidate) => next == AyamePhase::InSession && a is AddCandidate,
            AyameEvent::Message(AyameMessage::Ping) => next == AyamePhase::InSession && a is ArmWatchdogAndPong,
            AyameEvent::Message(AyameMessage::Bye) | AyameEvent::Error(_) | AyameEvent::Closed | AyameEvent::ChannelEnded =>
                next == AyamePhase::Done && finishes_now(a, true),
            AyameEvent::PeerFailed | AyameEvent::SdpFailed => next == AyamePhase::Done && finishes_now(a, false),
            _ => next == AyamePhase::InSession && a is Wait,
        },
        AyamePhase::Done => next == AyamePhase::Done && a is Wait,
    }
}

fn later(message: &str) -> (a: AyameAction)
    ensures
        finishes_later(a, message@),
{
    AyameAction::Finish { attempt: Attempt::ReconnectLater(message.to_owned()), close_signaling: false }
}

/// Decides the next phase and action of an Ayame connection attempt on `event`.
pub fn ayame_step(phase: AyamePhase, event: AyameEvent) -> (r: (AyamePhase, AyameAction))
    ensures
        phase == AyamePhase::WaitAccept ==> (event matches AyameEvent::Message(AyameMessage::Accept { is_exist_user })
            ==> (r.1 matches AyameAction::CreatePeer { send_offer } && send_offer == is_exist_user)),
        ayame_step_ok(phase, event, r.0, r.1),
{
    match phase {
        AyamePhase::WaitConnected => match event {
            AyameEvent::Connected => (AyamePhase::WaitAccept, AyameAction::SendRegister),
            AyameEvent::Error(e) => (AyamePhase::Done, later(e.as_str())),
            AyameEvent::Closed => (AyamePhase::Done, later("ハンドシェイク前に接続が閉じました")),
            _ => (AyamePhase::Done, later("予期しない通知を受信しました")),
        },
        AyamePhase::WaitAccept => match event {
            AyameEvent::Message(AyameMessage::Accept { is_exist_user }) =>
                (AyamePhase::InSession, AyameAction::CreatePeer { send_offer: is_exist_user }),
            AyameEvent::Message(AyameMessage::Reject { reason }) => {
                let mut m = "reject: ".to_owned();
                m.append(reason.as_str());
                (AyamePhase::Done, AyameAction::Finish { attempt: Attempt::ReconnectLater(m), close_signaling: false })
            },
            AyameEvent::Error(e) => (AyamePhase::Done, later(e.as_str())),
            AyameEvent::Closed | AyameEvent::ChannelEnded | AyameEvent::RegisterFailed =>
                (AyamePhase::Done, AyameAction::Finish { attempt: Attempt::ReconnectNow, close_signaling: false }),
            _ => (AyamePhase::WaitAccept, AyameAction::Wait),
        },
        AyamePhase::InSession => match event {
            AyameEvent::Message(AyameMessage::Offer) => (AyamePhase::InSession, AyameAction::HandleOffer),
            AyameEvent::Message(AyameMessage::Answer) => (AyamePhase::InSession, AyameAction::HandleAnswer),
            AyameEvent::Message(AyameMessage::Candidate) => (AyamePhase::InSession, AyameAction::AddCandidate),
            AyameEvent::Message(AyameMessage::Ping) => (AyamePhase::InSession, AyameAction::ArmWatchdogAndPong),
            AyameEvent::Message(AyameMessage::Bye) | AyameEvent::Error(_) | AyameEvent::Closed | AyameEvent::ChannelEnded =>
                (AyamePhase::Done, AyameAction::Finish { attempt: Attempt::ReconnectNow, close_signaling: true }),
            AyameEvent::PeerFailed | AyameEvent::SdpFailed =>
                (AyamePhase::Done, AyameAction::Finish { attempt: Attempt::ReconnectNow, close_signaling: false }),
            _ => (AyamePhase::InSession, AyameAction::Wait),
        },
        AyamePhase::Done => (AyamePhase::Done, AyameAction::Wait),
    }
}

/// An attempt whose WebSocket was established is followed at once (after the 1-second
/// floor) by the next one, whatever failures were counted before; the count restarts.
pub proof fn lemma_established_attempt_reconnects_at_once(retry: u32)
    ensures
        spec_reconnect_wait_seconds(retry_after(Attempt::ReconnectNow, retry)) == MIN_RECONNECT_SECONDS,
{
}

/// The wait before a retry never shrinks as failed attempts accumulate, and stays within
/// 1 to 30 seconds.
pub proof fn lemma_reconnect_wait_grows_to_cap(retry: u32)
    requires
        retry < u32::MAX,
    ensures
        spec_reconnect_wait_seconds(retry) <= spec_reconnect_wait_seconds((retry + 1) as u32),
        MIN_RECONNECT_SECONDS <= spec_reconnect_wait_seconds(retry) <= RECONNECT_INTERVAL_MAX_SECONDS,
        retry >= 3 ==> spec_reconnect_wait_seconds(retry) == RECONNECT_INTERVAL_MAX_SECONDS,
{
}

/// An attempt whose WebSocket never opened ends with a retry after a wait: from
/// `WaitConnected` the only step that does not end the attempt this way is the opening,
/// which sends `register`.
pub proof fn lemma_unopened_attempt_waits(event: AyameEvent, next: AyamePhase, a: AyameAction)
    requires
        ayame_step_ok(AyamePhase::WaitConnected, event, next, a),
    ensures
        (next == AyamePhase::WaitAccept && a is SendRegister)
            || (next == AyamePhase::Done && a matches AyameAction::Finish { attempt: Attempt::ReconnectLater(_), close_signaling: false }),
{
}

/// The lower-case hexadecimal text of `bytes`, two digits per byte.
pub open spec fn hex_string(bytes: Seq<u8>) -> Seq<char>
    decreases bytes.len(),
{
    if bytes.len() == 0 {
        Seq::empty()
    } else {
        hex_string(bytes.drop_last()) + lower_hex2(bytes.last())
    }
}

/// The lower-case hexadecimal text of `bytes`, two digits per byte.
pub fn hex_client_id(bytes: &[u8]) -> (r: String)
    ensures
        r@ == hex_string(bytes@),
{
    proof {
        reveal_strlit("");
    }
    let mut out = "".to_owned();
    let mut i: usize = 0;
    while i < bytes.len()
        invariant
            i <= bytes@.len(),
            out@ == hex_string(bytes@.take(i as int)),
        decreases bytes@.len() - i,
    {
        proof {
            assert(bytes@.take(i + 1).drop_last() =~= bytes@.take(i as int));
            if i == 0 {
                assert(bytes@.take(0) =~= Seq::<u8>::empty());
            }
        }
        push_lower_hex2(&mut out, bytes[i]);
        i = i + 1;
    }
    assert(bytes@.take(i as int) =~= bytes@);
    out
}

/// Eight random bytes from `aws_lc_rs::rand::fill`, or `None` when the generator fails.
/// What the bytes are is left open.
#[verifier::external_body]
fn random_bytes() -> (r: Option<[u8; 8]>) {
    let mut bytes = [0u8; 8];
    aws_lc_rs::rand::fill(&mut bytes).ok().map(|_| bytes)
}

/// The message for a failed random generator.
pub open spec fn random_failure_message() -> Seq<char> {
    "BUG: 乱数生成に失敗しました"@
}

/// The client ID to register with: the configured one, or else 8 random bytes as 16
/// lower-case hexadecimal digits.
pub fn resolve_client_id(configured: Option<String>) -> (r: Result<String, String>)
    ensures
        configured matches Some(c) ==> r matches Ok(id) && id@ == c@,
        configured is None ==> match r {
            Ok(id) => exists|bytes: Seq<u8>| bytes.len() == 8 && #[trigger] hex_string(bytes) == id@,
            Err(e) => e@ == random_failure_message(),
        },
{
    match configured {
        Some(c) => Ok(c),
        None => match random_bytes() {
            Some(bytes) => {
                let id = hex_client_id(&bytes);
                assert(bytes@.len() == 8);
                Ok(id)
            },
            None => Err("BUG: 乱数生成に失敗しました".to_owned()),
        },
    }
}

/// Who offers: once the room accepts us, the peer connection is created, and an offer is
/// sent exactly when the server reports another user already in the room; the first user
/// waits for the other's offer.
pub proof fn lemma_offer_only_to_existing_user(is_exist_user: bool, next: AyamePhase, a: AyameAction)
    requires
        ayame_step_ok(AyamePhase::WaitAccept, AyameEvent::Message(AyameMessage::Accept { is_exist_user }), next, a),
    ensures
        next == AyamePhase::InSession,
        a matches AyameAction::CreatePeer { send_offer } && send_offer == is_exist_user,
{
}

} // verus!
