use at_gateway::config::{config_from_uci_output, default_config, lookup, parse_uci_pairs};
use at_gateway::text::parse_uint_text;

#[test]
fn defaults_match_the_embedded_document() {
    let c = default_config();
    assert_eq!(c.at_config.conn_type, "NETWORK");
    assert_eq!(c.at_config.network.host, "192.168.8.1");
    assert_eq!(c.at_config.network.port, 20249);
    assert_eq!(c.at_config.network.timeout, 30);
    assert_eq!(c.at_config.serial.port, "COM6");
    assert_eq!(c.at_config.serial.baudrate, 115200);
    assert_eq!(c.at_config.serial.method, "TOM_MODEM");
    assert_eq!(c.at_config.serial.feature, "UBUS");
    assert_eq!(c.websocket_config.ipv4.host, "0.0.0.0");
    assert_eq!(c.websocket_config.ipv4.port, 8765);
    assert_eq!(c.websocket_config.ipv6.host, "::");
    assert_eq!(c.websocket_config.auth_key, "");
    assert!(c.notification_config.notification_types.sms);
    assert!(c.notification_config.notification_types.call);
    assert!(c.notification_config.notification_types.memory_full);
    assert!(c.notification_config.notification_types.signal);
    assert!(!c.auto_airplane.enabled);
    assert_eq!(c.auto_airplane.action_time, "8:00");
}

#[test]
fn pairs_keep_only_prefixed_keys_and_unquote_values() {
    let out = "at-webserver.config.network_host='10.0.0.9'\n\
               at-webserver=at-webserver\n\
               at-webserver.config.network_port=\"20000\"\n\
               noise without equals\n";
    let pairs = parse_uci_pairs(out);
    assert_eq!(pairs.len(), 2);
    assert_eq!(pairs[0].0, "network_host");
    assert_eq!(pairs[0].1, "10.0.0.9");
    assert_eq!(pairs[1].0, "network_port");
    assert_eq!(pairs[1].1, "20000");
}

#[test]
fn lookup_takes_the_last_occurrence() {
    let out = "at-webserver.config.k='a'\nat-webserver.config.k='b'\n";
    let pairs = parse_uci_pairs(out);
    assert_eq!(lookup(&pairs, "k"), Some("b".to_string()));
    assert_eq!(lookup(&pairs, "missing"), None);
}

#[test]
fn network_branch_reads_host_port_timeout() {
    let out = "at-webserver.config.connection_type='NETWORK'\n\
               at-webserver.config.network_host='192.168.1.5'\n\
               at-webserver.config.network_port='20555'\n\
               at-webserver.config.network_timeout='7'\n";
    let c = config_from_uci_output(out);
    assert_eq!(c.at_config.conn_type, "NETWORK");
    assert_eq!(c.at_config.network.host, "192.168.1.5");
    assert_eq!(c.at_config.network.port, 20555);
    assert_eq!(c.at_config.network.timeout, 7);
    // the serial section keeps its defaults
    assert_eq!(c.at_config.serial.port, "COM6");
}

#[test]
fn network_defaults_fill_missing_keys() {
    let c = config_from_uci_output("at-webserver.config.connection_type='NETWORK'\n");
    assert_eq!(c.at_config.network.host, "192.168.8.1");
    assert_eq!(c.at_config.network.port, 20249);
    assert_eq!(c.at_config.network.timeout, 10);
}

#[test]
fn serial_branch_reads_the_serial_keys() {
    let out = "at-webserver.config.connection_type='SERIAL'\n\
               at-webserver.config.serial_port='/dev/ttyUSB3'\n\
               at-webserver.config.serial_baudrate='9600'\n\
               at-webserver.config.serial_timeout='12'\n\
               at-webserver.config.serial_method='DIRECT'\n\
               at-webserver.config.serial_feature='NONE'\n";
    let c = config_from_uci_output(out);
    assert_eq!(c.at_config.conn_type, "SERIAL");
    assert_eq!(c.at_config.serial.port, "/dev/ttyUSB3");
    assert_eq!(c.at_config.serial.baudrate, 9600);
    assert_eq!(c.at_config.serial.timeout, 12);
    assert_eq!(c.at_config.serial.method, "DIRECT");
    assert_eq!(c.at_config.serial.feature, "NONE");
    // the network section keeps its defaults
    assert_eq!(c.at_config.network.port, 20249);
}

#[test]
fn custom_serial_port_reads_the_custom_path() {
    let out = "at-webserver.config.connection_type='SERIAL'\n\
               at-webserver.config.serial_port='custom'\n\
               at-webserver.config.serial_port_custom='/dev/ttyACM7'\n";
    let c = config_from_uci_output(out);
    assert_eq!(c.at_config.serial.port, "/dev/ttyACM7");
}

#[test]
fn websocket_port_applies_to_both_stacks_and_hosts_are_fixed() {
    let out = "at-webserver.config.websocket_port='9001'\n\
               at-webserver.config.websocket_auth_key='SECRET-REDACTED'\n";
    let c = config_from_uci_output(out);
    assert_eq!(c.websocket_config.ipv4.port, 9001);
    assert_eq!(c.websocket_config.ipv6.port, 9001);
    assert_eq!(c.websocket_config.ipv4.host, "0.0.0.0");
    assert_eq!(c.websocket_config.ipv6.host, "::");
    assert_eq!(c.websocket_config.auth_key, "SECRET-REDACTED");
}

#[test]
fn unparsable_numbers_fall_back_to_defaults() {
    let out = "at-webserver.config.websocket_port='not-a-number'\n";
    let c = config_from_uci_output(out);
    assert_eq!(c.websocket_config.ipv4.port, 8765);
    let out2 = "at-webserver.config.websocket_port='70000'\n";
    let c2 = config_from_uci_output(out2);
    assert_eq!(c2.websocket_config.ipv4.port, 8765);
}

#[test]
fn notification_switches_read_one_and_zero() {
    let out = "at-webserver.config.notify_sms='0'\n\
               at-webserver.config.notify_call='1'\n\
               at-webserver.config.wechat_webhook='https://example.invalid/hook'\n\
               at-webserver.config.log_file='/tmp/at.log'\n";
    let c = config_from_uci_output(out);
    assert!(!c.notification_config.notification_types.sms);
    assert!(c.notification_config.notification_types.call);
    assert!(c.notification_config.notification_types.memory_full);
    assert_eq!(c.notification_config.wechat_webhook, "https://example.invalid/hook");
    assert_eq!(c.notification_config.log_file, "/tmp/at.log");
}

#[test]
fn airplane_schedule_is_read_only_when_the_enable_key_exists() {
    let on = "at-webserver.config.schedule_auto_airplane_enable='1'\n\
              at-webserver.config.schedule_airplane_time='23:30'\n";
    let c = config_from_uci_output(on);
    assert!(c.auto_airplane.enabled);
    assert_eq!(c.auto_airplane.action_time, "23:30");

    let off = "at-webserver.config.schedule_auto_airplane_enable='0'\n";
    let c2 = config_from_uci_output(off);
    assert!(!c2.auto_airplane.enabled);
    assert_eq!(c2.auto_airplane.action_time, "8:00");

    let absent = "at-webserver.config.schedule_airplane_time='23:30'\n";
    let c3 = config_from_uci_output(absent);
    assert!(!c3.auto_airplane.enabled);
    assert_eq!(c3.auto_airplane.action_time, "8:00");
}

#[test]
fn uint_parsing_follows_the_standard_parser() {
    assert_eq!(parse_uint_text("123", u16::MAX as u64), Some(123));
    assert_eq!(parse_uint_text("+123", u16::MAX as u64), Some(123));
    assert_eq!(parse_uint_text("65535", u16::MAX as u64), Some(65535));
    assert_eq!(parse_uint_text("65536", u16::MAX as u64), None);
    assert_eq!(parse_uint_text("", u16::MAX as u64), None);
    assert_eq!(parse_uint_text("+", u16::MAX as u64), None);
    assert_eq!(parse_uint_text("12a", u16::MAX as u64), None);
    assert_eq!(parse_uint_text("-3", u16::MAX as u64), None);
    assert_eq!(parse_uint_text(" 3", u16::MAX as u64), None);
}
