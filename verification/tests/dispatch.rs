use momo::moq::dispatch::{resolution, DrainAction, NotableEvent, ReadyEvent, RequestBook, RequestState, SessionEventKind};
use momo::moq::error::MoqError;

#[test]
fn responses_on_finished_streams_are_dropped() {
    let mut book = RequestBook::new();
    assert!(matches!(
        book.on_session_event(SessionEventKind::SendRequest { request_id: 4 }),
        DrainAction::OpenRequestStream { request_id: 4 }
    ));
    assert!(matches!(
        book.on_session_event(SessionEventKind::SendOnStream { request_id: 4, fin: false }),
        DrainAction::SendOnStream { request_id: 4, finish: false }
    ));
    assert!(matches!(
        book.on_session_event(SessionEventKind::SendOnStream { request_id: 4, fin: true }),
        DrainAction::SendOnStream { request_id: 4, finish: true }
    ));
    assert!(matches!(
        book.on_session_event(SessionEventKind::SendOnStream { request_id: 4, fin: false }),
        DrainAction::DropResponse { request_id: 4 }
    ));
    assert!(matches!(
        book.on_session_event(SessionEventKind::FinishRequestStream { request_id: 4 }),
        DrainAction::Nothing
    ));
    book.on_peer_request(6);
    assert!(matches!(
        book.on_session_event(SessionEventKind::ResetRequestStream { request_id: 6, error_code: 3 }),
        DrainAction::ResetStream { request_id: 6, error_code: 3 }
    ));
    assert!(matches!(
        book.on_session_event(SessionEventKind::SendOnStream { request_id: 6, fin: true }),
        DrainAction::DropResponse { request_id: 6 }
    ));
}

#[test]
fn stop_sending_goes_through_the_receive_task_once() {
    let mut book = RequestBook::new();
    book.on_peer_request(2);
    assert!(matches!(
        book.on_session_event(SessionEventKind::StopSendingRequestStream { request_id: 2, error_code: 9 }),
        DrainAction::StopSending { request_id: 2, error_code: 9 }
    ));
    assert!(matches!(
        book.on_session_event(SessionEventKind::StopSendingRequestStream { request_id: 2, error_code: 9 }),
        DrainAction::NoReceiveTask { request_id: 2 }
    ));
    assert_eq!(book.cleanup_candidates().len(), 1);
    assert!(book.cleanup_candidates().contains(&2));
    assert!(book.forget(2), "the send half of a peer request is still open");
    assert!(book.cleanup_candidates().is_empty());
    assert!(!book.forget(2));
}

#[test]
fn updates_come_before_requests_and_notable_events() {
    let mut book = RequestBook::new();
    book.on_session_event(SessionEventKind::GoawayReceived);
    book.on_peer_request(10);
    book.on_session_event(SessionEventKind::RequestUpdateReceived { request_id: 3 });
    book.on_session_event(SessionEventKind::PublishDoneReceived { request_id: 5 });
    book.on_session_event(SessionEventKind::RequestUpdateReceived { request_id: 1 });
    assert_eq!(book.next_ready(), Some(ReadyEvent::RequestUpdate { request_id: 3 }));
    assert_eq!(book.next_ready(), Some(ReadyEvent::RequestUpdate { request_id: 1 }));
    assert_eq!(book.next_ready(), Some(ReadyEvent::Request { request_id: 10 }));
    assert_eq!(book.next_ready(), Some(ReadyEvent::Notable(NotableEvent::Goaway)));
    assert_eq!(book.next_ready(), Some(ReadyEvent::Notable(NotableEvent::PublishDone { request_id: 5 })));
    assert_eq!(book.next_ready(), None);
}

#[test]
fn closing_ourselves_is_no_error() {
    let mut book = RequestBook::new();
    match book.on_session_event(SessionEventKind::CloseSession { code: 0x10, reason: "bye".to_string() }) {
        DrainAction::Close { code, reason, error: Some(e) } => {
            assert_eq!(code, 0x10);
            assert_eq!(reason, "bye");
            assert_eq!(e.to_string(), "MOQT session error: session closed: code=0x10 reason=bye");
        }
        other => panic!("unexpected {other:?}"),
    }
    book.begin_close();
    assert!(matches!(
        book.on_session_event(SessionEventKind::CloseSession { code: 0, reason: String::new() }),
        DrainAction::Close { code: 0, error: None, .. }
    ));
    assert!(matches!(book.on_session_event(SessionEventKind::SendControl), DrainAction::SendControl));
    assert!(matches!(book.on_session_event(SessionEventKind::Other), DrainAction::Nothing));
}

#[test]
fn request_resolution_messages() {
    assert!(resolution(None, 1, false).is_none());
    assert!(resolution(Some(RequestState::Pending), 1, true).is_none());
    assert!(matches!(resolution(Some(RequestState::Established), 1, false), Some(Ok(()))));
    match resolution(Some(RequestState::Terminated), 12, false) {
        Some(Err(MoqError::Session(m))) => assert_eq!(m, "request 12 was rejected"),
        other => panic!("unexpected {other:?}"),
    }
    match resolution(Some(RequestState::Terminated), 7, true) {
        Some(Err(MoqError::Session(m))) => assert_eq!(m, "FETCH was rejected (request_id=7)"),
        other => panic!("unexpected {other:?}"),
    }
}
