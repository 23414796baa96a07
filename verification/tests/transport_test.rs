use at_gateway::config::default_config;
use at_gateway::error::{ProtocolError, StringError};
use at_gateway::net::{ipv6_host_is_wildcard, BindPlan, BindStep};
use at_gateway::transport::{
    select_transport, HelperOutcome, TomModemATConn, TransportKind, URC_CHANNEL_CAPACITY,
};

#[test]
fn network_type_selects_the_tcp_stream() {
    let c = default_config();
    assert!(matches!(select_transport(&c.at_config), TransportKind::Network));
}

#[test]
fn serial_type_with_helper_method_selects_the_subprocess() {
    let mut c = default_config();
    c.at_config.conn_type = "SERIAL".to_string();
    assert!(matches!(select_transport(&c.at_config), TransportKind::TomModem));
    c.at_config.serial.method = "DIRECT".to_string();
    assert!(matches!(select_transport(&c.at_config), TransportKind::Serial));
}

#[test]
fn helper_send_is_refused_until_connected() {
    let conn = TomModemATConn::new("/dev/ttyUSB0".to_string(), 30, "UBUS".to_string());
    assert!(!conn.is_connected());
    assert!(matches!(conn.send_prepare(b"AT"), Err(ProtocolError::Disconnected)));
}

#[test]
fn helper_invocation_carries_device_trimmed_command_and_flag() {
    let mut conn = TomModemATConn::new("/dev/ttyUSB0".to_string(), 30, "UBUS".to_string());
    conn.connect().unwrap();
    assert!(conn.is_connected());
    let inv = conn.send_prepare(b"AT+CSQ\r\n").unwrap();
    assert_eq!(inv.port, "/dev/ttyUSB0");
    assert_eq!(inv.command, b"AT+CSQ".to_vec());
    assert_eq!(inv.flag, Some("-UBUS".to_string()));
    assert_eq!(inv.timeout, 30);
}

#[test]
fn empty_or_none_feature_adds_no_flag() {
    let mut a = TomModemATConn::new("p".to_string(), 5, String::new());
    a.connect().unwrap();
    assert_eq!(a.send_prepare(b"AT").unwrap().flag, None);
    let mut b = TomModemATConn::new("p".to_string(), 5, "NONE".to_string());
    b.connect().unwrap();
    assert_eq!(b.send_prepare(b"AT").unwrap().flag, None);
}

#[test]
fn helper_success_buffers_one_synthetic_reply() {
    let mut conn = TomModemATConn::new("p".to_string(), 5, String::new());
    conn.connect().unwrap();
    let n = conn
        .send_finish(4, HelperOutcome::Success(b"+CSQ: 20,99\r\nOK\r\n".to_vec()))
        .unwrap();
    assert_eq!(n, 4);
    assert_eq!(conn.receive().unwrap(), b"+CSQ: 20,99\r\nOK\r\n".to_vec());
    // the reply drains once; afterwards the buffer is empty
    assert_eq!(conn.receive().unwrap(), Vec::<u8>::new());
}

#[test]
fn helper_failure_surfaces_its_diagnostic_output() {
    let mut conn = TomModemATConn::new("p".to_string(), 5, String::new());
    conn.connect().unwrap();
    match conn.send_finish(2, HelperOutcome::Failure(b"device busy".to_vec())) {
        Err(ProtocolError::HelperFailed(diag)) => assert_eq!(diag, b"device busy".to_vec()),
        _ => panic!("a nonzero exit is a helper failure"),
    }
    assert_eq!(conn.receive().unwrap(), Vec::<u8>::new());
}

#[test]
fn bind_plan_falls_back_to_ipv4_without_aborting() {
    // startup on a host without IPv6 support: the dual-stack attempt fails,
    // the IPv4 attempt succeeds, and the procedure ends bound
    let mut plan = BindPlan::new();
    assert!(matches!(plan.next_attempt(), BindStep::TryDualStack));
    plan.on_outcome(false);
    assert!(matches!(plan.next_attempt(), BindStep::TryIpv4));
    plan.on_outcome(true);
    assert!(matches!(plan.next_attempt(), BindStep::Done));
}

#[test]
fn bind_plan_succeeds_directly_on_dual_stack() {
    let mut plan = BindPlan::new();
    plan.on_outcome(true);
    assert!(matches!(plan.next_attempt(), BindStep::Done));
}

#[test]
fn bind_plan_fails_only_after_both_attempts() {
    let mut plan = BindPlan::new();
    plan.on_outcome(false);
    plan.on_outcome(false);
    assert!(matches!(plan.next_attempt(), BindStep::Failed));
}

#[test]
fn wildcard_host_is_recognized_without_parsing() {
    assert!(ipv6_host_is_wildcard("::"));
    assert!(!ipv6_host_is_wildcard("::1"));
    assert!(!ipv6_host_is_wildcard("0.0.0.0"));
}

#[test]
fn broadcast_capacity_matches_the_channel() {
    assert_eq!(URC_CHANNEL_CAPACITY, 1024);
}

#[test]
fn string_error_carries_its_message() {
    let e = StringError("helper missing".to_string());
    assert_eq!(e.message().as_str(), "helper missing");
}
