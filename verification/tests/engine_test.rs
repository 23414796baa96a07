use at_gateway::engine::{
    clean_response, init_module_commands, keep_alive_probe, normalize_command, CommandExchange,
    WriteLog, DRAIN_TIMEOUT_MS, POLL_INTERVAL_MS, RESPONSE_WINDOW_MS,
};
use at_gateway::engine::run_commands;
use at_gateway::error::ProtocolError;

#[test]
fn normalize_appends_terminator() {
    assert_eq!(normalize_command(b"AT"), b"AT\r\n".to_vec());
}

#[test]
fn normalize_keeps_existing_terminator() {
    assert_eq!(normalize_command(b"AT+CFUN?\r\n"), b"AT+CFUN?\r\n".to_vec());
}

#[test]
fn normalize_trims_trailing_whitespace_first() {
    assert_eq!(normalize_command(b"AT+CSQ  \t"), b"AT+CSQ\r\n".to_vec());
}

#[test]
fn clean_strips_echo_noise_and_terminator_padding() {
    // the echoed command, one keep-alive token, then the success terminator
    let cleaned = clean_response(b"AT+X\r\npingOK\r\n", b"AT+X");
    assert_eq!(cleaned, b"OK".to_vec());
}

#[test]
fn clean_without_echo_keeps_body() {
    let cleaned = clean_response(b"\r\n+CSQ: 21,99\r\n\r\nOK\r\n", b"AT+CSQ");
    assert_eq!(cleaned, b"+CSQ: 21,99\r\n\r\nOK".to_vec());
}

#[test]
fn command_reply_across_two_reads_is_reassembled_and_echo_stripped() {
    // command sent while the transport yields the echo and the body in two
    // chunks: the cleaned result keeps the body and drops the echoed line
    let mut ex = CommandExchange::new(b"AT+CFUN?");
    assert!(ex.keep_polling());
    ex.on_data(b"AT+CFUN?\r\n\r\n+CFUN: 1\r\n");
    assert!(ex.keep_polling());
    ex.on_tick(10);
    ex.on_data(b"\r\nOK\r\n");
    assert!(!ex.keep_polling());
    match ex.finish() {
        Ok(text) => assert_eq!(text, b"+CFUN: 1\r\n\r\nOK".to_vec()),
        Err(_) => panic!("expected a successful classification"),
    }
}

#[test]
fn error_marker_classifies_as_remote_error() {
    let mut ex = CommandExchange::new(b"AT+BOGUS");
    ex.on_data(b"ERROR\r\n");
    assert!(!ex.keep_polling());
    match ex.finish() {
        Err(ProtocolError::Remote(m)) => {
            let text = String::from_utf8(m).unwrap();
            assert!(text.contains("ERROR"));
        }
        _ => panic!("expected a remote error"),
    }
}

#[test]
fn error_marker_wins_over_preceding_ok_text() {
    let mut ex = CommandExchange::new(b"AT+BOGUS");
    ex.on_data(b"\r\nOK-like noise\r\nERROR\r\n");
    assert!(matches!(ex.finish(), Err(ProtocolError::Remote(_))));
}

#[test]
fn silence_times_out_at_the_window_not_before() {
    let mut ex = CommandExchange::new(b"AT");
    let mut waited = 0u64;
    while waited < RESPONSE_WINDOW_MS {
        assert!(ex.keep_polling());
        ex.on_tick(POLL_INTERVAL_MS);
        waited += POLL_INTERVAL_MS;
    }
    assert!(!ex.keep_polling());
    assert!(matches!(ex.finish(), Err(ProtocolError::Timeout)));
}

#[test]
fn keep_alive_noise_alone_still_times_out() {
    let mut ex = CommandExchange::new(b"AT");
    ex.on_data(b"ping\r\n");
    ex.on_tick(RESPONSE_WINDOW_MS);
    assert!(matches!(ex.finish(), Err(ProtocolError::Timeout)));
}

#[test]
fn incomplete_reply_before_window_is_not_a_timeout() {
    let mut ex = CommandExchange::new(b"AT");
    ex.on_data(b"partial");
    ex.on_tick(RESPONSE_WINDOW_MS);
    match ex.finish() {
        Ok(text) => assert_eq!(text, b"partial".to_vec()),
        Err(_) => panic!("a non-empty cleaned reply is a success"),
    }
}

#[test]
fn wire_form_is_the_normalized_command() {
    let ex = CommandExchange::new(b"AT+CSQ");
    assert_eq!(ex.wire_bytes().as_slice(), b"AT+CSQ\r\n");
}

#[test]
fn serialized_commands_write_whole_and_in_order() {
    // mutual exclusion at the transport: one whole write per command
    let cmds = vec![b"AT+CFUN?".to_vec(), b"AT+CSQ\r\n".to_vec(), b"ATE0  ".to_vec()];
    let mut log = WriteLog { writes: Vec::new() };
    let exchanges = run_commands(&cmds, &mut log);
    assert_eq!(exchanges.len(), 3);
    assert_eq!(log.writes.len(), 3);
    assert_eq!(log.writes[0], b"AT+CFUN?\r\n".to_vec());
    assert_eq!(log.writes[1], b"AT+CSQ\r\n".to_vec());
    assert_eq!(log.writes[2], b"ATE0\r\n".to_vec());
}

#[test]
fn init_module_sequence_is_the_four_warmup_commands() {
    let cmds = init_module_commands();
    let texts: Vec<&[u8]> = cmds.iter().map(|c| c.as_slice()).collect();
    assert_eq!(
        texts,
        vec![
            b"ATE0".as_slice(),
            b"AT+CNMI=2,1,0,2,0".as_slice(),
            b"AT+CMGF=0".as_slice(),
            b"AT+CLIP=1".as_slice(),
        ]
    );
}

#[test]
fn keep_alive_probe_is_the_ping_line() {
    assert_eq!(keep_alive_probe(), b"ping\r\n".to_vec());
}

#[test]
fn timing_constants_match_the_protocol() {
    assert_eq!(RESPONSE_WINDOW_MS, 1000);
    assert_eq!(POLL_INTERVAL_MS, 10);
    assert_eq!(DRAIN_TIMEOUT_MS, 10);
}

#[test]
fn protocol_error_messages() {
    assert_eq!(ProtocolError::Timeout.message_bytes(), b"TIMEOUT".to_vec());
    assert_eq!(ProtocolError::Disconnected.message_bytes(), b"Disconnected".to_vec());
    assert_eq!(
        ProtocolError::HelperFailed(b"exit 1".to_vec()).message_bytes(),
        b"exit 1".to_vec()
    );
    assert_eq!(
        ProtocolError::Io(b"read failed".to_vec()).message_bytes(),
        b"read failed".to_vec()
    );
    assert_eq!(
        ProtocolError::Remote(b"+CME ERROR: 10".to_vec()).message_bytes(),
        b"+CME ERROR: 10".to_vec()
    );
    assert_eq!(
        ProtocolError::AuthenticationFailed.message_bytes(),
        b"Authentication failed".to_vec()
    );
}
