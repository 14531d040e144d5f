use momo::ayame::{
    after_attempt, ayame_step, hex_client_id, reconnect_wait_seconds, resolve_client_id, Attempt, AyameAction, AyameEvent, AyameMessage,
    AyamePhase, Watchdog, CONNECTED_WATCHDOG_SECONDS, INITIAL_WATCHDOG_SECONDS,
};

fn unix_millis() -> u64 {
    std::time::SystemTime::now()
        .duration_since(std::time::UNIX_EPOCH)
        .unwrap_or_default()
        .as_millis() as u64
}

#[test]
fn watchdog_starts_with_initial_deadline() {
    let watchdog = Watchdog::new(unix_millis());
    let remaining = watchdog.deadline_millis().saturating_sub(unix_millis());

    assert!(
        (INITIAL_WATCHDOG_SECONDS * 1000 - 2_000..=INITIAL_WATCHDOG_SECONDS * 1000).contains(&remaining),
        "開始時の残り期限は約 30 秒のはず: {remaining} ミリ秒"
    );
    assert!(!watchdog.expired(unix_millis()), "開始直後は期限前のはず");
}

#[test]
fn watchdog_switches_to_connected_deadline() {
    let mut watchdog = Watchdog::new(unix_millis());
    watchdog.on_connected(unix_millis());

    assert_eq!(
        watchdog.interval_seconds(),
        CONNECTED_WATCHDOG_SECONDS,
        "接続確立後は期限が 60 秒に切り替わるはず"
    );
    assert!(
        watchdog.deadline_millis() > unix_millis() + 50_000,
        "接続直後の残りは 50 秒を超えているはず (実測で ayame-labo の ping は約 5 秒間隔)"
    );
    assert!(!watchdog.expired(unix_millis()), "接続直後は期限前のはず");
}

#[test]
fn watchdog_detects_silence_and_recovers_on_arm() {
    // Armed long enough ago that its deadline passed a millisecond ago.
    let mut watchdog = Watchdog::new(unix_millis() - INITIAL_WATCHDOG_SECONDS * 1000 - 1);
    assert!(watchdog.expired(unix_millis()), "期限を過ぎれば再接続対象になるはず");

    watchdog.arm(unix_millis());
    assert!(!watchdog.expired(unix_millis()), "arm 後は現在の期限で受け直すはず");

    watchdog.on_connected(unix_millis());
    watchdog.arm(unix_millis());
    assert!(
        watchdog.deadline_millis() > unix_millis() + 50_000,
        "接続確立後の arm は 60 秒で受け直されるはず"
    );
}

// Own cases.

#[test]
fn watchdog_deadlines_are_exact() {
    let mut watchdog = Watchdog::new(1_000);
    assert_eq!(watchdog.deadline_millis(), 31_000);
    assert!(!watchdog.expired(30_999));
    assert!(watchdog.expired(31_000));
    watchdog.arm(5_000);
    assert_eq!(watchdog.deadline_millis(), 35_000);
    watchdog.on_connected(10_000);
    assert_eq!(watchdog.deadline_millis(), 70_000);
    watchdog.arm(u64::MAX - 5);
    assert_eq!(watchdog.deadline_millis(), u64::MAX);
}

#[test]
fn reconnect_waits_grow_to_thirty_seconds() {
    assert_eq!(reconnect_wait_seconds(0), 1);
    assert_eq!(reconnect_wait_seconds(1), 10);
    assert_eq!(reconnect_wait_seconds(2), 20);
    assert_eq!(reconnect_wait_seconds(3), 30);
    assert_eq!(reconnect_wait_seconds(u32::MAX), 30);
    assert_eq!(after_attempt(&Attempt::ReconnectNow, 7), (1, 1));
    assert_eq!(after_attempt(&Attempt::ReconnectLater("x".to_owned()), 2), (20, 3));
    assert_eq!(after_attempt(&Attempt::ReconnectLater("x".to_owned()), u32::MAX), (30, u32::MAX));
}

fn later_message(action: &AyameAction) -> Option<&str> {
    match action {
        AyameAction::Finish { attempt: Attempt::ReconnectLater(m), close_signaling: false } => Some(m.as_str()),
        _ => None,
    }
}

#[test]
fn ayame_connection_flow() {
    let (phase, action) = ayame_step(AyamePhase::WaitConnected, AyameEvent::Connected);
    assert_eq!(phase, AyamePhase::WaitAccept);
    assert!(matches!(action, AyameAction::SendRegister));

    let (phase, action) = ayame_step(phase, AyameEvent::Message(AyameMessage::Ping));
    assert_eq!(phase, AyamePhase::WaitAccept);
    assert!(matches!(action, AyameAction::Wait));

    let (phase, action) = ayame_step(phase, AyameEvent::Message(AyameMessage::Accept { is_exist_user: true }));
    assert_eq!(phase, AyamePhase::InSession);
    assert!(matches!(action, AyameAction::CreatePeer { send_offer: true }));

    let (_, action) = ayame_step(phase, AyameEvent::Message(AyameMessage::Offer));
    assert!(matches!(action, AyameAction::HandleOffer));
    let (_, action) = ayame_step(phase, AyameEvent::Message(AyameMessage::Answer));
    assert!(matches!(action, AyameAction::HandleAnswer));
    let (_, action) = ayame_step(phase, AyameEvent::Message(AyameMessage::Candidate));
    assert!(matches!(action, AyameAction::AddCandidate));
    let (_, action) = ayame_step(phase, AyameEvent::Message(AyameMessage::Ping));
    assert!(matches!(action, AyameAction::ArmWatchdogAndPong));

    let (phase, action) = ayame_step(AyamePhase::InSession, AyameEvent::Message(AyameMessage::Bye));
    assert_eq!(phase, AyamePhase::Done);
    assert!(matches!(action, AyameAction::Finish { attempt: Attempt::ReconnectNow, close_signaling: true }));

    let (_, action) = ayame_step(AyamePhase::InSession, AyameEvent::SdpFailed);
    assert!(matches!(action, AyameAction::Finish { attempt: Attempt::ReconnectNow, close_signaling: false }));
}

#[test]
fn ayame_failures_before_the_session() {
    let (_, action) = ayame_step(AyamePhase::WaitConnected, AyameEvent::Closed);
    assert_eq!(later_message(&action), Some("ハンドシェイク前に接続が閉じました"));
    let (_, action) = ayame_step(AyamePhase::WaitConnected, AyameEvent::ChannelEnded);
    assert_eq!(later_message(&action), Some("予期しない通知を受信しました"));
    let (_, action) = ayame_step(AyamePhase::WaitConnected, AyameEvent::Error("boom".to_owned()));
    assert_eq!(later_message(&action), Some("boom"));
    let (_, action) = ayame_step(
        AyamePhase::WaitAccept,
        AyameEvent::Message(AyameMessage::Reject { reason: "full".to_owned() }),
    );
    assert_eq!(later_message(&action), Some("reject: full"));
    let (_, action) = ayame_step(AyamePhase::WaitAccept, AyameEvent::Closed);
    assert!(matches!(action, AyameAction::Finish { attempt: Attempt::ReconnectNow, close_signaling: false }));
    let (_, action) = ayame_step(AyamePhase::WaitAccept, AyameEvent::RegisterFailed);
    assert!(matches!(action, AyameAction::Finish { attempt: Attempt::ReconnectNow, close_signaling: false }));
}

#[test]
fn client_id_is_lower_hex_of_bytes() {
    assert_eq!(hex_client_id(&[0x00, 0x0f, 0xab, 0xff, 0x10, 0x9a, 0x01, 0xc3]), "000fabff109a01c3");
    assert_eq!(hex_client_id(&[]), "");
}

#[test]
fn client_id_is_configured_or_random() {
    assert_eq!(resolve_client_id(Some("momo".to_string())).unwrap(), "momo");
    let a = resolve_client_id(None).expect("乱数は生成できるはず");
    let b = resolve_client_id(None).expect("乱数は生成できるはず");
    assert_eq!(a.len(), 16);
    assert!(a.chars().all(|c| c.is_ascii_digit() || ('a'..='f').contains(&c)));
    assert_ne!(a, b, "乱数から作る ID は毎回異なるはず");
}
