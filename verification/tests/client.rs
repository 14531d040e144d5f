use momo::moq::client::{close_session_error, setup_options, SetupOptionKind};
use momo::moq::url::ServerUrl;

#[test]
fn setup_options_carry_authority_path_and_name() {
    let server = ServerUrl::parse("moqt://relay.example:4433/live").unwrap();
    let options = setup_options(&server);
    assert_eq!(
        options,
        vec![
            (SetupOptionKind::Authority, b"relay.example:4433".to_vec()),
            (SetupOptionKind::Path, b"/live".to_vec()),
            (SetupOptionKind::MoqtImplementation, b"momo-rs".to_vec()),
        ]
    );
    let server = ServerUrl::parse("moqt://relay.example").unwrap();
    let options = setup_options(&server);
    assert_eq!(options.len(), 2);
    assert_eq!(options[0], (SetupOptionKind::Authority, b"relay.example:4433".to_vec()));
}

#[test]
fn closed_session_becomes_an_error() {
    assert_eq!(
        close_session_error(0x1a, "bye").to_string(),
        "MOQT session error: session closed: code=0x1a reason=bye"
    );
    assert_eq!(close_session_error(0, "").to_string(), "MOQT session error: session closed: code=0x0 reason=");
}
