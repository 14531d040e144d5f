use momo::moq::url::{ServerUrl, DEFAULT_PORT};

#[test]
fn test_parse_host_with_port() {
    let server = ServerUrl::parse("moqt://example.com:4443/live").expect("パースに成功すること");
    assert_eq!(server.host(), "example.com");
    assert_eq!(server.port(), 4443);
    assert_eq!(server.authority(), "example.com:4443");
    assert_eq!(server.path_option(), Some("/live"));
}

#[test]
fn test_parse_default_port() {
    let server = ServerUrl::parse("moqt://example.com").expect("パースに成功すること");
    assert_eq!(server.port(), DEFAULT_PORT);
    assert_eq!(server.path_option(), None);
    assert_eq!(server.authority(), "example.com:4433");
}

#[test]
fn test_parse_ipv6_literal() {
    let server = ServerUrl::parse("moqt://[::1]:4443/live").expect("パースに成功すること");
    assert_eq!(server.host(), "::1");
    assert_eq!(server.port(), 4443);
    assert_eq!(server.authority(), "[::1]:4443");
    assert_eq!(server.path_option(), Some("/live"));
}

#[test]
fn test_parse_root_path_is_omitted() {
    let server = ServerUrl::parse("moqt://example.com:4443/").expect("パースに成功すること");
    assert_eq!(server.path_option(), None);
}

#[test]
fn test_parse_rejects_other_scheme() {
    assert!(ServerUrl::parse("https://example.com/live").is_err());
}

#[test]
fn test_parse_rejects_invalid_port() {
    assert!(ServerUrl::parse("moqt://example.com:not-a-port/live").is_err());
}

// Own cases.

#[test]
fn url_errors_carry_their_messages() {
    assert_eq!(
        ServerUrl::parse("https://example.com/live").unwrap_err().to_string(),
        "URL error: URL must start with 'moqt://': https://example.com/live"
    );
    assert_eq!(
        ServerUrl::parse("moqt:///live").unwrap_err().to_string(),
        "URL error: authority is empty: moqt:///live"
    );
    assert_eq!(
        ServerUrl::parse("moqt://:4433/live").unwrap_err().to_string(),
        "URL error: host is empty: moqt://:4433/live"
    );
    assert_eq!(
        ServerUrl::parse("moqt://example.com:99999").unwrap_err().to_string(),
        "URL error: invalid port '99999': moqt://example.com:99999"
    );
}

#[test]
fn ipv6_literal_without_port_uses_default() {
    let server = ServerUrl::parse("moqt://[2001:db8::1]/x?y=1").unwrap();
    assert_eq!(server.host(), "2001:db8::1");
    assert_eq!(server.port(), DEFAULT_PORT);
    assert_eq!(server.authority(), "[2001:db8::1]:4433");
    assert_eq!(server.path_option(), Some("/x?y=1"));
}

#[test]
fn invalid_ipv6_literal_is_refused() {
    assert_eq!(
        ServerUrl::parse("moqt://::1]:4433").unwrap_err().to_string(),
        "URL error: invalid IPv6 literal: ::1]:4433"
    );
}

#[test]
fn authority_is_host_and_parsed_port() {
    let server = ServerUrl::parse("moqt://relay.example:0443/x").unwrap();
    assert_eq!(server.authority(), "relay.example:443");
}
