use at_gateway::error::ProtocolError;
use at_gateway::gateway::{
    auth_fail_envelope, auth_matches, auth_ok_envelope, error_envelope, json_escape,
    response_envelope, success_envelope, urc_envelope, GatewaySession, SessionAction, SessionEvent,
};

#[test]
fn json_escape_passes_plain_text() {
    assert_eq!(json_escape(b"hello +CSQ: 1"), b"hello +CSQ: 1".to_vec());
}

#[test]
fn json_escape_quotes_and_backslashes() {
    assert_eq!(json_escape(b"a\"b\\c"), b"a\\\"b\\\\c".to_vec());
}

#[test]
fn json_escape_line_breaks_and_controls() {
    assert_eq!(json_escape(b"a\r\nb\tc"), b"a\\r\\nb\\tc".to_vec());
    assert_eq!(json_escape(&[0x01u8, 0x1f]), b"\\u0001\\u001f".to_vec());
}

#[test]
fn json_escape_agrees_with_the_json_serializer() {
    let samples: Vec<&str> = vec!["plain", "with \"quotes\"", "line\r\nbreaks", "tab\there", "back\\slash"];
    for s in samples {
        let value = serde_json::Value::String(s.to_string());
        let serialized = serde_json::to_string(&value).unwrap();
        // the serializer wraps the escaped text in one pair of quotes
        let inner = &serialized[1..serialized.len() - 1];
        assert_eq!(json_escape(s.as_bytes()), inner.as_bytes().to_vec());
    }
}

#[test]
fn success_envelope_shape() {
    assert_eq!(
        String::from_utf8(success_envelope(b"+CFUN: 1\r\n\r\nOK")).unwrap(),
        "{\"success\":true,\"data\":\"+CFUN: 1\\r\\n\\r\\nOK\",\"error\":null}"
    );
}

#[test]
fn error_envelope_shape() {
    assert_eq!(
        String::from_utf8(error_envelope(b"TIMEOUT")).unwrap(),
        "{\"success\":false,\"data\":null,\"error\":\"TIMEOUT\"}"
    );
}

#[test]
fn urc_envelope_shape() {
    assert_eq!(
        String::from_utf8(urc_envelope(b"+CMTI: \"SM\",1")).unwrap(),
        "{\"type\":\"raw_data\",\"data\":\"+CMTI: \\\"SM\\\",1\"}"
    );
}

#[test]
fn envelopes_parse_back_as_json() {
    let texts = vec![
        success_envelope(b"+CSQ: 21,99\r\n\r\nOK"),
        error_envelope(b"ERROR"),
        urc_envelope(b"^BOOT: 123"),
        auth_ok_envelope(),
        auth_fail_envelope(),
    ];
    for t in texts {
        let s = String::from_utf8(t).unwrap();
        let v: serde_json::Value = serde_json::from_str(&s).unwrap();
        assert!(v.is_object());
    }
}

#[test]
fn response_envelope_covers_both_outcomes() {
    let ok: Result<Vec<u8>, ProtocolError> = Ok(b"OK".to_vec());
    assert_eq!(
        String::from_utf8(response_envelope(&ok)).unwrap(),
        "{\"success\":true,\"data\":\"OK\",\"error\":null}"
    );
    let err: Result<Vec<u8>, ProtocolError> = Err(ProtocolError::Timeout);
    assert_eq!(
        String::from_utf8(response_envelope(&err)).unwrap(),
        "{\"success\":false,\"data\":null,\"error\":\"TIMEOUT\"}"
    );
}

#[test]
fn auth_accepts_exactly_the_configured_key() {
    let key = "s3cret".to_string();
    assert!(auth_matches("{\"auth_key\": \"s3cret\"}", &key));
    assert!(!auth_matches("{\"auth_key\": \"wrong\"}", &key));
    assert!(!auth_matches("{\"other\": \"s3cret\"}", &key));
    assert!(!auth_matches("not json at all", &key));
    assert!(!auth_matches("{\"auth_key\": 42}", &key));
}

#[test]
fn session_without_key_is_active_at_once() {
    let mut s = GatewaySession::new(String::new());
    assert!(!s.awaiting_auth());
    match s.on_event(SessionEvent::Text("AT+CSQ".to_string())) {
        SessionAction::Forward(cmd) => assert_eq!(cmd, "AT+CSQ"),
        _ => panic!("an active session forwards text frames"),
    }
}

#[test]
fn session_with_key_acknowledges_a_matching_auth_message() {
    let mut s = GatewaySession::new("k1".to_string());
    assert!(s.awaiting_auth());
    match s.on_event(SessionEvent::Text("{\"auth_key\":\"k1\"}".to_string())) {
        SessionAction::Send(env) => assert_eq!(env, auth_ok_envelope()),
        _ => panic!("a matching key is acknowledged"),
    }
    assert!(!s.awaiting_auth());
    assert!(!s.closed());
}

#[test]
fn session_rejects_a_wrong_key_and_closes() {
    let mut s = GatewaySession::new("k1".to_string());
    match s.on_event(SessionEvent::Text("{\"auth_key\":\"k2\"}".to_string())) {
        SessionAction::SendAndClose(env) => assert_eq!(env, auth_fail_envelope()),
        _ => panic!("a mismatch is refused"),
    }
    assert!(s.closed());
}

#[test]
fn unauthenticated_command_never_reaches_the_engine() {
    // a command-looking frame sent before authentication is treated as a
    // failed authentication message, never forwarded
    let mut s = GatewaySession::new("k1".to_string());
    let action = s.on_event(SessionEvent::Text("AT+CFUN=0".to_string()));
    assert!(matches!(action, SessionAction::SendAndClose(_)));
    assert!(s.closed());
    // once closed, nothing is forwarded either
    let later = s.on_event(SessionEvent::Text("AT+CSQ".to_string()));
    assert!(matches!(later, SessionAction::Ignore));
}

#[test]
fn auth_window_expiry_closes_with_a_failure_envelope() {
    let mut s = GatewaySession::new("k1".to_string());
    match s.on_event(SessionEvent::AuthExpired) {
        SessionAction::SendAndClose(env) => assert_eq!(env, auth_fail_envelope()),
        _ => panic!("expiry is refused like a mismatch"),
    }
    assert!(s.closed());
}

#[test]
fn active_session_wraps_notifications() {
    let mut s = GatewaySession::new(String::new());
    match s.on_event(SessionEvent::Urc(b"+CMTI: \"SM\",2".to_vec())) {
        SessionAction::Send(env) => assert_eq!(env, urc_envelope(b"+CMTI: \"SM\",2")),
        _ => panic!("notifications go out in the raw-data envelope"),
    }
}

#[test]
fn notification_before_auth_is_not_forwarded() {
    let mut s = GatewaySession::new("k1".to_string());
    assert!(matches!(s.on_event(SessionEvent::Urc(b"+X".to_vec())), SessionAction::Ignore));
    assert!(s.awaiting_auth());
}

#[test]
fn non_text_frame_closes_an_active_session() {
    let mut s = GatewaySession::new(String::new());
    assert!(matches!(s.on_event(SessionEvent::OtherFrame), SessionAction::Close));
    assert!(s.closed());
}

#[test]
fn send_failure_closes_an_active_session() {
    let mut s = GatewaySession::new(String::new());
    assert!(matches!(s.on_event(SessionEvent::SendFailed), SessionAction::Close));
    assert!(s.closed());
}
