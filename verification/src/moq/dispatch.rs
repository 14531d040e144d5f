//! The MOQT client's bookkeeping around the session engine: which request streams have an
//! open send half or a receive task, which are waiting to be cleaned up, and which updates,
//! requests and notable events wait for the application; and, for each event of the engine,
//! the I/O it calls for.

use std::collections::{HashSet, VecDeque};

use vstd::prelude::*;

use crate::moq::client::close_session_error;
use crate::moq::error::MoqError;
use crate::text::{dec, lower_hex, push_decimal};

verus! {

broadcast use vstd::std_specs::hash::group_hash_axioms;

/// An event of the session engine, as far as the bookkeeping reads it.
#[derive(Debug, Clone)]
pub enum SessionEventKind {
    /// A control message to send.
    SendControl,
    /// A request of ours to send on a new bidirectional stream.
    SendRequest { request_id: u64 },
    /// A message to send on a request stream, then finish the stream when `fin`.
    SendOnStream { request_id: u64, fin: bool },
    /// Finish the send half of a request stream.
    FinishRequestStream { request_id: u64 },
    /// Reset the send half of a request stream.
    ResetRequestStream { request_id: u64, error_code: u64 },
    /// Ask the peer to stop sending on a request stream.
    StopSendingRequestStream { request_id: u64, error_code: u64 },
    /// The session is closed.
    CloseSession { code: u64, reason: String },
    /// A REQUEST_UPDATE arrived.
    RequestUpdateReceived { request_id: u64 },
    /// A GOAWAY arrived.
    GoawayReceived,
    /// A PUBLISH_DONE arrived.
    PublishDoneReceived { request_id: u64 },
    /// Any other event: answers are judged by the state of the subscription or fetch.
    Other,
}

/// An event the application observes.
#[derive(Debug, Clone, Copy, PartialEq, Eq, Structural)]
pub enum NotableEvent {
    Goaway,
    PublishDone { request_id: u64 },
}

/// The I/O an event calls for.
#[derive(Debug, Clone)]
pub enum DrainAction {
    /// Encode the message and send it on the control stream.
    SendControl,
    /// Open a bidirectional stream, send the request, and start its receive task.
    OpenRequestStream { request_id: u64 },
    /// Send the message on the request stream, and finish it when `finish`.
    SendOnStream { request_id: u64, finish: bool },
    /// The send half is gone: drop the message (with a warning).
    DropResponse { request_id: u64 },
    /// Finish the send half.
    FinishStream { request_id: u64 },
    /// Reset the send half with `error_code`.
    ResetStream { request_id: u64, error_code: u64 },
    /// Have the receive task send STOP_SENDING with `error_code`.
    StopSending { request_id: u64, error_code: u64 },
    /// There is no receive task to stop (a warning).
    NoReceiveTask { request_id: u64 },
    /// Close the connection; when `error` is given the session ended with it, otherwise we
    /// closed it ourselves.
    Close { code: u64, reason: String, error: Option<MoqError> },
    /// Nothing to do.
    Nothing,
}

/// What the application gets next.
#[derive(Debug, Clone, Copy, PartialEq, Eq, Structural)]
pub enum ReadyEvent {
    RequestUpdate { request_id: u64 },
    Request { request_id: u64 },
    Notable(NotableEvent),
}

/// The client's bookkeeping.
#[derive(Debug)]
pub struct RequestBook {
    open_sends: HashSet<u64>,
    receivers: HashSet<u64>,
    closed: HashSet<u64>,
    updates: VecDeque<u64>,
    requests: VecDeque<u64>,
    notable: VecDeque<NotableEvent>,
    closing: bool,
}

/// The view of the bookkeeping.
pub struct RequestBookView {
    /// Request streams whose send half is open.
    pub open_sends: Set<u64>,
    /// Request streams with a receive task.
    pub receivers: Set<u64>,
    /// Request streams closed and waiting to be cleaned up.
    pub closed: Set<u64>,
    /// REQUEST_UPDATEs not yet handed out, oldest first.
    pub updates: Seq<u64>,
    /// Peer requests not yet handed out, oldest first.
    pub requests: Seq<u64>,
    /// Notable events not yet handed out, oldest first.
    pub notable: Seq<NotableEvent>,
    /// Whether we started closing the session.
    pub closing: bool,
}

impl View for RequestBook {
    type V = RequestBookView;

    closed spec fn view(&self) -> RequestBookView {
        RequestBookView {
            open_sends: self.open_sends@,
            receivers: self.receivers@,
            closed: self.closed@,
            updates: self.updates@,
            requests: self.requests@,
            notable: self.notable@,
            closing: self.closing,
        }
    }
}

/// The message of a session closed by the peer.
pub open spec fn close_text(code: u64, reason: Seq<char>) -> Seq<char> {
    "session closed: code=0x"@ + lower_hex(code as nat) + " reason="@ + reason
}

/// The bookkeeping `b` with other sets of open send halves and receive tasks.
pub open spec fn with_streams(b: RequestBookView, open_sends: Set<u64>, receivers: Set<u64>) -> RequestBookView {
    RequestBookView {
        open_sends,
        receivers,
        closed: b.closed,
        updates: b.updates,
        requests: b.requests,
        notable: b.notable,
        closing: b.closing,
    }
}

/// What handling `event` does, from the bookkeeping `b` to `after`, and the I/O `a` it calls
/// for: a send half is used only while it is open, and a response for a stream whose send
/// half is gone is dropped; STOP_SENDING marks the stream for cleanup and goes through its
/// receive task, if there is one; a closed session is an error unless we closed it.
pub open spec fn event_outcome(b: RequestBookView, event: SessionEventKind, after: RequestBookView, a: DrainAction) -> bool {
    match event {
        SessionEventKind::SendControl => after == b && a is SendControl,
        SessionEventKind::SendRequest { request_id } =>
            after == with_streams(b, b.open_sends.insert(request_id), b.receivers.insert(request_id))
            && a == (DrainAction::OpenRequestStream { request_id }),
        SessionEventKind::SendOnStream { request_id, fin } =>
            if b.open_sends.contains(request_id) {
                &&& a == (DrainAction::SendOnStream { request_id, finish: fin })
                &&& after == with_streams(b, if fin { b.open_sends.remove(request_id) } else { b.open_sends }, b.receivers)
            } else {
                a == (DrainAction::DropResponse { request_id }) && after == b
            },
        SessionEventKind::FinishRequestStream { request_id } =>
            if b.open_sends.contains(request_id) {
                a == (DrainAction::FinishStream { request_id })
                && after == with_streams(b, b.open_sends.remove(request_id), b.receivers)
            } else {
                a is Nothing && after == b
            },
        SessionEventKind::ResetRequestStream { request_id, error_code } =>
            if b.open_sends.contains(request_id) {
                a == (DrainAction::ResetStream { request_id, error_code })
                && after == with_streams(b, b.open_sends.remove(request_id), b.receivers)
            } else {
                a is Nothing && after == b
            },
        SessionEventKind::StopSendingRequestStream { request_id, error_code } => {
            &&& after.closed == b.closed.insert(request_id)
            &&& after.open_sends == b.open_sends
            &&& after.updates == b.updates
            &&& after.requests == b.requests
            &&& after.notable == b.notable
            &&& after.closing == b.closing
            &&& if b.receivers.contains(request_id) {
                a == (DrainAction::StopSending { request_id, error_code })
                && after.receivers == b.receivers.remove(request_id)
            } else {
                a == (DrainAction::NoReceiveTask { request_id }) && after.receivers == b.receivers
            }
        },
        SessionEventKind::CloseSession { code, reason } => {
            &&& after == b
            &&& a matches DrainAction::Close { code: c, reason: r, error } && c == code && r@ == reason@
                && (if b.closing { error is None } else {
                    error matches Some(e) && e matches MoqError::Session(m) && m@ == close_text(code, reason@)
                })
        },
        SessionEventKind::RequestUpdateReceived { request_id } =>
            a is Nothing && after == RequestBookView { updates: b.updates.push(request_id), ..b },
        SessionEventKind::GoawayReceived =>
            a is Nothing && after == RequestBookView { notable: b.notable.push(NotableEvent::Goaway), ..b },
        SessionEventKind::PublishDoneReceived { request_id } =>
            a is Nothing && after == RequestBookView { notable: b.notable.push(NotableEvent::PublishDone { request_id }), ..b },
        SessionEventKind::Other => a is Nothing && after == b,
    }
}

impl RequestBook {
    /// Empty bookkeeping of a new session.
    pub fn new() -> (r: Self)
        ensures
            r@.open_sends == Set::<u64>::empty(),
            r@.receivers == Set::<u64>::empty(),
            r@.closed == Set::<u64>::empty(),
            r@.updates == Seq::<u64>::empty(),
            r@.requests == Seq::<u64>::empty(),
            r@.notable == Seq::<NotableEvent>::empty(),
            !r@.closing,
    {
        let r = RequestBook {
            open_sends: HashSet::new(),
            receivers: HashSet::new(),
            closed: HashSet::new(),
            updates: VecDeque::new(),
            requests: VecDeque::new(),
            notable: VecDeque::new(),
            closing: false,
        };
        r
    }

    /// A request of the peer arrived on a new stream: its send half and receive task are
    /// kept, and the request waits for the application.
    pub fn on_peer_request(&mut self, request_id: u64)
        ensures
            final(self)@ == (RequestBookView {
                open_sends: old(self)@.open_sends.insert(request_id),
                receivers: old(self)@.receivers.insert(request_id),
                requests: old(self)@.requests.push(request_id),
                ..old(self)@
            }),
    {
        self.open_sends.insert(request_id);
        self.receivers.insert(request_id);
        self.requests.push_back(request_id);
    }

    /// The peer closed a request stream; the stream is marked for cleanup when the session
    /// still knows its subscription or fetch (`known`).
    pub fn on_request_stream_closed(&mut self, request_id: u64, known: bool)
        ensures
            final(self)@ == (RequestBookView {
                closed: if known { old(self)@.closed.insert(request_id) } else { old(self)@.closed },
                ..old(self)@
            }),
    {
        if known {
            self.closed.insert(request_id);
        }
    }

    /// We start closing the session: the close it causes is no error.
    pub fn begin_close(&mut self)
        ensures
            final(self)@ == (RequestBookView { closing: true, ..old(self)@ }),
    {
        self.closing = true;
    }

    /// Handles an event of the session engine: updates the bookkeeping and says what I/O it
    /// calls for.
    pub fn on_session_event(&mut self, event: SessionEventKind) -> (a: DrainAction)
        ensures
            event_outcome(old(self)@, event, final(self)@, a),
    {
        match event {
            SessionEventKind::SendControl => DrainAction::SendControl,
            SessionEventKind::SendRequest { request_id } => {
                self.open_sends.insert(request_id);
                self.receivers.insert(request_id);
                DrainAction::OpenRequestStream { request_id }
            },
            SessionEventKind::SendOnStream { request_id, fin } => {
                if self.open_sends.contains(&request_id) {
                    if fin {
                        self.open_sends.remove(&request_id);
                    }
                    DrainAction::SendOnStream { request_id, finish: fin }
                } else {
                    DrainAction::DropResponse { request_id }
                }
            },
            SessionEventKind::FinishRequestStream { request_id } => {
                if self.open_sends.contains(&request_id) {
                    self.open_sends.remove(&request_id);
                    DrainAction::FinishStream { request_id }
                } else {
                    DrainAction::Nothing
                }
            },
            SessionEventKind::ResetRequestStream { request_id, error_code } => {
                if self.open_sends.contains(&request_id) {
                    self.open_sends.remove(&request_id);
                    DrainAction::ResetStream { request_id, error_code }
                } else {
                    DrainAction::Nothing
                }
            },
            SessionEventKind::StopSendingRequestStream { request_id, error_code } => {
                self.closed.insert(request_id);
                if self.receivers.contains(&request_id) {
                    self.receivers.remove(&request_id);
                    DrainAction::StopSending { request_id, error_code }
                } else {
                    DrainAction::NoReceiveTask { request_id }
                }
            },
            SessionEventKind::CloseSession { code, reason } => {
                let error = if self.closing {
                    None
                } else {
                    Some(close_session_error(code, reason.as_str()))
                };
                DrainAction::Close { code, reason, error }
            },
            SessionEventKind::RequestUpdateReceived { request_id } => {
                self.updates.push_back(request_id);
                DrainAction::Nothing
            },
            SessionEventKind::GoawayReceived => {
                self.notable.push_back(NotableEvent::Goaway);
                DrainAction::Nothing
            },
            SessionEventKind::PublishDoneReceived { request_id } => {
                self.notable.push_back(NotableEvent::PublishDone { request_id });
                DrainAction::Nothing
            },
            SessionEventKind::Other => DrainAction::Nothing,
        }
    }

    /// What the application gets next: REQUEST_UPDATEs first (holding one back risks the
    /// peer's CONTROL_MESSAGE_TIMEOUT), then requests, then notable events, each oldest
    /// first; `None` when nothing waits.
    pub fn next_ready(&mut self) -> (r: Option<ReadyEvent>)
        ensures
            old(self)@.updates.len() > 0 ==> r == Some(ReadyEvent::RequestUpdate { request_id: old(self)@.updates[0] })
                && final(self)@ == (RequestBookView { updates: old(self)@.updates.drop_first(), ..old(self)@ }),
            old(self)@.updates.len() == 0 && old(self)@.requests.len() > 0
                ==> r == Some(ReadyEvent::Request { request_id: old(self)@.requests[0] })
                && final(self)@ == (RequestBookView { requests: old(self)@.requests.drop_first(), ..old(self)@ }),
            old(self)@.updates.len() == 0 && old(self)@.requests.len() == 0 && old(self)@.notable.len() > 0
                ==> r == Some(ReadyEvent::Notable(old(self)@.notable[0]))
                && final(self)@ == (RequestBookView { notable: old(self)@.notable.drop_first(), ..old(self)@ }),
            old(self)@.updates.len() == 0 && old(self)@.requests.len() == 0 && old(self)@.notable.len() == 0
                ==> (r is None) && final(self)@ == old(self)@,
    {
        if self.updates.len() > 0 {
            let request_id = match self.updates.pop_front() {
                Some(x) => x,
                None => return None,
            };
            assert(self.updates@ =~= old(self)@.updates.drop_first());
            return Some(ReadyEvent::RequestUpdate { request_id });
        }
        if self.requests.len() > 0 {
            let request_id = match self.requests.pop_front() {
                Some(x) => x,
                None => return None,
            };
            assert(self.requests@ =~= old(self)@.requests.drop_first());
            return Some(ReadyEvent::Request { request_id });
        }
        if self.notable.len() > 0 {
            let event = match self.notable.pop_front() {
                Some(x) => x,
                None => return None,
            };
            assert(self.notable@ =~= old(self)@.notable.drop_first());
            return Some(ReadyEvent::Notable(event));
        }
        None
    }

    /// The request streams waiting to be cleaned up.
    pub fn cleanup_candidates(&self) -> (r: &HashSet<u64>)
        ensures
            r@ == self@.closed,
    {
        &self.closed
    }

    /// The session forgot the subscription or fetch of `request_id`: the stream is no
    /// longer tracked. Returns whether its send half was still open (and is to be finished).
    pub fn forget(&mut self, request_id: u64) -> (had_send: bool)
        ensures
            had_send == old(self)@.open_sends.contains(request_id),
            final(self)@ == (RequestBookView {
                open_sends: old(self)@.open_sends.remove(request_id),
                receivers: old(self)@.receivers.remove(request_id),
                closed: old(self)@.closed.remove(request_id),
                ..old(self)@
            }),
    {
        self.closed.remove(&request_id);
        self.receivers.remove(&request_id);
        let had_send = self.open_sends.contains(&request_id);
        self.open_sends.remove(&request_id);
        had_send
    }
}

/// Once the send half of a request stream has been finished or reset, a later response on
/// that stream is dropped, not sent.
pub proof fn lemma_closed_send_half_drops_responses(
    b: RequestBookView,
    closing_event: SessionEventKind,
    after: RequestBookView,
    a: DrainAction,
    fin: bool,
    after2: RequestBookView,
    a2: DrainAction,
)
    requires
        closing_event is FinishRequestStream || closing_event is ResetRequestStream
            || (closing_event matches SessionEventKind::SendOnStream { fin: true, .. }),
        event_outcome(b, closing_event, after, a),
        event_outcome(after, SessionEventKind::SendOnStream { request_id: stream_of(closing_event), fin }, after2, a2),
    ensures
        a2 == (DrainAction::DropResponse { request_id: stream_of(closing_event) }),
        after2 == after,
{
}

/// The request stream an event is about (0 for the others).
pub open spec fn stream_of(e: SessionEventKind) -> u64 {
    match e {
        SessionEventKind::SendRequest { request_id } => request_id,
        SessionEventKind::SendOnStream { request_id, .. } => request_id,
        SessionEventKind::FinishRequestStream { request_id } => request_id,
        SessionEventKind::ResetRequestStream { request_id, .. } => request_id,
        SessionEventKind::StopSendingRequestStream { request_id, .. } => request_id,
        SessionEventKind::RequestUpdateReceived { request_id } => request_id,
        SessionEventKind::PublishDoneReceived { request_id } => request_id,
        _ => 0,
    }
}

/// After we start closing the session, the close of the session is not an error; before,
/// it is the error of a session closed by the peer.
pub proof fn lemma_own_close_is_no_error(b: RequestBookView, code: u64, reason: String, after: RequestBookView, a: DrainAction)
    requires
        event_outcome(b, SessionEventKind::CloseSession { code, reason }, after, a),
    ensures
        b.closing ==> (a matches DrainAction::Close { error: None, .. }),
        !b.closing ==> (a matches DrainAction::Close { error: Some(MoqError::Session(m)), .. } && m@ == close_text(code, reason@)),
{
}

/// The state of a subscription or fetch in the session engine.
#[derive(Debug, Clone, Copy, PartialEq, Eq, Structural)]
pub enum RequestState {
    /// Waiting for the answer.
    Pending,
    /// Accepted.
    Established,
    /// Refused or ended.
    Terminated,
}

/// Whether waiting for our SUBSCRIBE (`fetch` false) or FETCH (`fetch` true) is over, and
/// with what: `None` while the answer is outstanding (or the request is unknown), `Ok` once
/// it is established, the refusal once it is terminated.
pub fn resolution(state: Option<RequestState>, request_id: u64, fetch: bool) -> (r: Option<Result<(), MoqError>>)
    ensures
        state == Some(RequestState::Established) ==> r == Some(Ok::<(), MoqError>(())),
        state == Some(RequestState::Terminated) ==> (r matches Some(Err(MoqError::Session(m))) && m@ == (if fetch {
            "FETCH was rejected (request_id="@ + dec(request_id as nat) + ")"@
        } else {
            "request "@ + dec(request_id as nat) + " was rejected"@
        })),
        state == Some(RequestState::Pending) || state is None ==> r is None,
{
    match state {
        Some(RequestState::Established) => Some(Ok(())),
        Some(RequestState::Terminated) => {
            let m = if fetch {
                let mut m = "FETCH was rejected (request_id=".to_owned();
                push_decimal(&mut m, request_id);
                m.append(")");
                m
            } else {
                let mut m = "request ".to_owned();
                push_decimal(&mut m, request_id);
                m.append(" was rejected");
                m
            };
            Some(Err(MoqError::Session(m)))
        },
        _ => None,
    }
}

} // verus!
