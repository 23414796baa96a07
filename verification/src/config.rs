//! The configuration the gateway is constructed from, its built-in defaults,
//! and the parser for the system configuration tool's `key=value` output.

use vstd::prelude::*;
use vstd::string::StrSliceExecFns;
use vstd::string::StringExecFns;

use crate::text::find_char;
use crate::text::find_char_spec;
use crate::text::parse_uint_chars;
use crate::text::parse_uint_text;
use crate::text::remove_tok_chars;
use crate::text::remove_token_text;
use crate::text::split_lines_chars;
use crate::text::split_lines_text;
use crate::text::starts_with_chars;
use crate::text::starts_with_text;
use crate::text::trim_chars;
use crate::text::trim_text;
use crate::text::unquote_chars;
use crate::text::unquote_text;

verus! {

/// The whole configuration, read once at construction.
pub struct Config {
    pub at_config: AtConfig,
    pub websocket_config: WsConfig,
    pub notification_config: NotificationConfig,
    pub auto_airplane: AutoAirPlane,
}

/// Which transport carries the AT commands, and how to open it.
pub struct AtConfig {
    pub conn_type: String,
    pub network: NetworkConfig,
    pub serial: SerialConfig,
}

pub struct NetworkConfig {
    pub host: String,
    pub port: u16,
    pub timeout: u64,
}

pub struct SerialConfig {
    pub port: String,
    pub baudrate: u32,
    pub timeout: u64,
    pub method: String,
    pub feature: String,
}

pub struct WsConfig {
    pub ipv4: WsEndpoint,
    pub ipv6: WsEndpoint,
    pub auth_key: String,
}

pub struct WsEndpoint {
    pub host: String,
    pub port: u16,
}

pub struct NotificationConfig {
    pub wechat_webhook: String,
    pub log_file: String,
    pub notification_types: NotificationTypes,
}

pub struct NotificationTypes {
    pub sms: bool,
    pub call: bool,
    pub memory_full: bool,
    pub signal: bool,
}

/// The scheduled airplane-mode toggle: whether it runs, and at what time of
/// day (`HH:MM`).
pub struct AutoAirPlane {
    pub enabled: bool,
    pub action_time: String,
}

/// The built-in defaults, used where the configuration tool supplies nothing.
pub fn default_config() -> (c: Config)
    ensures
        c.at_config.conn_type@ == "NETWORK"@,
        c.at_config.network.host@ == "192.168.8.1"@,
        c.at_config.network.port == 20249,
        c.at_config.network.timeout == 30,
        c.at_config.serial.port@ == "COM6"@,
        c.at_config.serial.baudrate == 115200,
        c.at_config.serial.timeout == 30,
        c.at_config.serial.method@ == "TOM_MODEM"@,
        c.at_config.serial.feature@ == "UBUS"@,
        c.websocket_config.ipv4.host@ == "0.0.0.0"@,
        c.websocket_config.ipv4.port == 8765,
        c.websocket_config.ipv6.host@ == "::"@,
        c.websocket_config.ipv6.port == 8765,
        c.websocket_config.auth_key@ == ""@,
        c.notification_config.wechat_webhook@ == ""@,
        c.notification_config.log_file@ == ""@,
        c.notification_config.notification_types.sms,
        c.notification_config.notification_types.call,
        c.notification_config.notification_types.memory_full,
        c.notification_config.notification_types.signal,
        !c.auto_airplane.enabled,
        c.auto_airplane.action_time@ == "8:00"@,
{
    Config {
        at_config: AtConfig {
            conn_type: String::from_str("NETWORK"),
            network: NetworkConfig {
                host: String::from_str("192.168.8.1"),
                port: 20249,
                timeout: 30,
            },
            serial: SerialConfig {
                port: String::from_str("COM6"),
                baudrate: 115200,
                timeout: 30,
                method: String::from_str("TOM_MODEM"),
                feature: String::from_str("UBUS"),
            },
        },
        websocket_config: WsConfig {
            ipv4: WsEndpoint { host: String::from_str("0.0.0.0"), port: 8765 },
            ipv6: WsEndpoint { host: String::from_str("::"), port: 8765 },
            auth_key: String::from_str(""),
        },
        notification_config: NotificationConfig {
            wechat_webhook: String::from_str(""),
            log_file: String::from_str(""),
            notification_types: NotificationTypes {
                sms: true,
                call: true,
                memory_full: true,
                signal: true,
            },
        },
        auto_airplane: AutoAirPlane { enabled: false, action_time: String::from_str("8:00") },
    }
}

/// The section prefix configuration keys are filed under.
pub open spec fn uci_prefix() -> Seq<char> {
    "at-webserver.config."@
}

/// A `key=value` line reduced: the value unquoted, the key's section prefix
/// removed; nothing when the line carries no `=` or the key is not under the
/// prefix.
pub open spec fn uci_pair_spec(line: Seq<char>) -> Option<(Seq<char>, Seq<char>)> {
    match find_char_spec(line, '=') {
        Some(p) => {
            let key = line.take(p);
            let value = unquote_chars(line.skip(p + 1));
            if starts_with_chars(key, uci_prefix()) {
                Some((remove_tok_chars(key, uci_prefix()), value))
            } else {
                None
            }
        },
        None => None,
    }
}

pub open spec fn pairs_of_lines(lines: Seq<Seq<char>>) -> Seq<(Seq<char>, Seq<char>)>
    decreases lines.len(),
{
    if lines.len() == 0 {
        Seq::empty()
    } else {
        pairs_of_lines(lines.drop_last()) + (match uci_pair_spec(lines.last()) {
            Some(kv) => seq![kv],
            None => Seq::empty(),
        })
    }
}

/// The pairs harvested from the configuration tool's output: the text
/// trimmed and split into lines, each `key=value` line under the section
/// prefix kept, in order.
pub open spec fn uci_pairs_spec(out: Seq<char>) -> Seq<(Seq<char>, Seq<char>)> {
    pairs_of_lines(split_lines_chars(trim_chars(out)))
}

/// The pairs a vector of owned strings stands for.
pub open spec fn pairs_view(pairs: Seq<(String, String)>) -> Seq<(Seq<char>, Seq<char>)> {
    pairs.map_values(|kv: (String, String)| (kv.0@, kv.1@))
}

fn uci_pair(line: &str) -> (r: Option<(String, String)>)
    ensures
        match r {
            Some(kv) => uci_pair_spec(line@) == Some((kv.0@, kv.1@)),
            None => uci_pair_spec(line@) is None,
        },
{
    let n = line.unicode_len();
    match find_char(line, '=') {
        Some(p) => {
            let key = line.substring_char(0, p);
            let value = unquote_text(line.substring_char(p + 1, n));
            proof {
                assert(key@ =~= line@.take(p as int));
                assert(line@.subrange(p + 1, n as int) =~= line@.skip(p + 1));
            }
            if starts_with_text(key, "at-webserver.config.") {
                proof {
                    reveal_strlit("at-webserver.config.");
                }
                let short = remove_token_text(key, "at-webserver.config.");
                Some((short, value))
            } else {
                None
            }
        },
        None => None,
    }
}

/// The configuration tool's output parsed into ordered `key=value` pairs.
pub fn parse_uci_pairs(out: &str) -> (r: Vec<(String, String)>)
    ensures
        pairs_view(r@) == uci_pairs_spec(out@),
{
    let trimmed = trim_text(out);
    let lines = split_lines_text(trimmed.as_str());
    let mut r: Vec<(String, String)> = Vec::new();
    let mut i: usize = 0;
    proof {
        assert(lines.deep_view().take(0) =~= Seq::<Seq<char>>::empty());
        assert(pairs_view(r@) =~= Seq::<(Seq<char>, Seq<char>)>::empty());
    }
    while i < lines.len()
        invariant
            0 <= i <= lines@.len(),
            pairs_view(r@) =~~= pairs_of_lines(lines.deep_view().take(i as int)),
        decreases lines@.len() - i,
    {
        let ghost prev = r@;
        proof {
            assert(lines.deep_view().take(i + 1).drop_last() =~= lines.deep_view().take(i as int));
            assert(lines.deep_view().take(i + 1).last() == lines@[i as int]@);
        }
        match uci_pair(lines[i].as_str()) {
            Some(kv) => {
                r.push(kv);
                proof {
                    assert(pairs_view(r@) =~~= pairs_view(prev).push((kv.0@, kv.1@)));
                    assert(pairs_view(prev).push((kv.0@, kv.1@)) =~~= pairs_view(prev) + seq![
                        (kv.0@, kv.1@),
                    ]);
                }
            },
            None => {
                proof {
                    assert(pairs_of_lines(lines.deep_view().take(i + 1)) =~~= pairs_of_lines(
                        lines.deep_view().take(i as int),
                    ));
                }
            },
        }
        i = i + 1;
    }
    proof {
        assert(lines.deep_view().take(i as int) =~= lines.deep_view());
    }
    r
}

/// The value of the last pair carrying the key, as repeated insertion into a
/// map would leave it.
pub open spec fn lookup_spec(pairs: Seq<(Seq<char>, Seq<char>)>, key: Seq<char>) -> Option<
    Seq<char>,
>
    decreases pairs.len(),
{
    if pairs.len() == 0 {
        None
    } else if pairs.last().0 == key {
        Some(pairs.last().1)
    } else {
        lookup_spec(pairs.drop_last(), key)
    }
}

pub fn lookup(pairs: &Vec<(String, String)>, key: &str) -> (r: Option<String>)
    ensures
        match r {
            Some(v) => lookup_spec(pairs_view(pairs@), key@) == Some(v@),
            None => lookup_spec(pairs_view(pairs@), key@) is None,
        },
{
    let k = String::from_str(key);
    let mut i: usize = pairs.len();
    proof {
        assert(pairs_view(pairs@).take(pairs@.len() as int) =~= pairs_view(pairs@));
    }
    while i > 0
        invariant
            0 <= i <= pairs@.len(),
            k@ == key@,
            lookup_spec(pairs_view(pairs@), key@) == lookup_spec(
                pairs_view(pairs@).take(i as int),
                key@,
            ),
        decreases i,
    {
        i = i - 1;
        proof {
            assert(pairs_view(pairs@).take(i + 1).last() == (pairs@[i as int].0@,
            pairs@[i as int].1@));
            assert(pairs_view(pairs@).take(i + 1).drop_last() =~= pairs_view(pairs@).take(
                i as int,
            ));
        }
        if pairs[i].0 == k {
            let v = pairs[i].1.clone();
            return Some(v);
        }
    }
    proof {
        assert(pairs_view(pairs@).take(0) =~= Seq::<(Seq<char>, Seq<char>)>::empty());
    }
    None
}

/// The configured value under the key, or the fallback.
pub open spec fn val_or_spec(
    pairs: Seq<(Seq<char>, Seq<char>)>,
    key: Seq<char>,
    dflt: Seq<char>,
) -> Seq<char> {
    match lookup_spec(pairs, key) {
        Some(v) => v,
        None => dflt,
    }
}

fn text_or(pairs: &Vec<(String, String)>, key: &str, dflt: &str) -> (r: String)
    ensures
        r@ == val_or_spec(pairs_view(pairs@), key@, dflt@),
{
    match lookup(pairs, key) {
        Some(v) => v,
        None => String::from_str(dflt),
    }
}

/// The configured number under the key, or the fallback — also when the
/// value does not parse or does not fit.
pub open spec fn num_or_spec(
    pairs: Seq<(Seq<char>, Seq<char>)>,
    key: Seq<char>,
    max: int,
    dflt: int,
) -> int {
    match lookup_spec(pairs, key) {
        Some(v) => match parse_uint_chars(v, max) {
            Some(n) => n,
            None => dflt,
        },
        None => dflt,
    }
}

fn num_or(pairs: &Vec<(String, String)>, key: &str, max: u64, dflt: u64) -> (r: u64)
    requires
        dflt <= max,
    ensures
        r <= max,
        r as int == num_or_spec(pairs_view(pairs@), key@, max as int, dflt as int),
{
    match lookup(pairs, key) {
        Some(v) => match parse_uint_text(v.as_str(), max) {
            Some(n) => n,
            None => dflt,
        },
        None => dflt,
    }
}

/// The configured switch under the key: `"1"` turns it on, any other value
/// off; absent, the fallback stands.
pub open spec fn flag_or_spec(
    pairs: Seq<(Seq<char>, Seq<char>)>,
    key: Seq<char>,
    dflt: bool,
) -> bool {
    match lookup_spec(pairs, key) {
        Some(v) => v == "1"@,
        None => dflt,
    }
}

fn flag_or(pairs: &Vec<(String, String)>, key: &str, dflt: bool) -> (r: bool)
    ensures
        r == flag_or_spec(pairs_view(pairs@), key@, dflt),
{
    match lookup(pairs, key) {
        Some(v) => {
            let one = String::from_str("1");
            v == one
        },
        None => dflt,
    }
}

/// The configured serial device: the named one, or the custom path when the
/// selection reads `custom`.
pub open spec fn serial_port_spec(pairs: Seq<(Seq<char>, Seq<char>)>) -> Seq<char> {
    let p = val_or_spec(pairs, "serial_port"@, "/dev/ttyUSB0"@);
    if p == "custom"@ {
        val_or_spec(pairs, "serial_port_custom"@, "/dev/ttyUSB0"@)
    } else {
        p
    }
}

/// The configuration read from the tool's output text: the defaults, with
/// every key the output carries applied over them. Of the transport section
/// only the branch the connection type selects is applied; the other branch
/// keeps its defaults.
pub fn config_from_uci_output(out: &str) -> (c: Config)
    ensures
        ({
            let pairs = uci_pairs_spec(out@);
            let conn = val_or_spec(pairs, "connection_type"@, "NETWORK"@);
            &&& c.at_config.conn_type@ == conn
            &&& (conn == "NETWORK"@ ==> {
                &&& c.at_config.network.host@ == val_or_spec(pairs, "network_host"@, "192.168.8.1"@)
                &&& c.at_config.network.port as int == num_or_spec(pairs, "network_port"@, u16::MAX as int, 20249)
                &&& c.at_config.network.timeout as int == num_or_spec(pairs, "network_timeout"@, u64::MAX as int, 10)
                &&& c.at_config.serial.port@ == "COM6"@
                &&& c.at_config.serial.baudrate == 115200
                &&& c.at_config.serial.timeout == 30
                &&& c.at_config.serial.method@ == "TOM_MODEM"@
                &&& c.at_config.serial.feature@ == "UBUS"@
            })
            &&& (conn != "NETWORK"@ ==> {
                &&& c.at_config.serial.port@ == serial_port_spec(pairs)
                &&& c.at_config.serial.baudrate as int == num_or_spec(pairs, "serial_baudrate"@, u32::MAX as int, 115200)
                &&& c.at_config.serial.timeout as int == num_or_spec(pairs, "serial_timeout"@, u64::MAX as int, 10)
                &&& c.at_config.serial.method@ == val_or_spec(pairs, "serial_method"@, "TOM_MODEM"@)
                &&& c.at_config.serial.feature@ == val_or_spec(pairs, "serial_feature"@, "UBUS"@)
                &&& c.at_config.network.host@ == "192.168.8.1"@
                &&& c.at_config.network.port == 20249
                &&& c.at_config.network.timeout == 30
            })
            &&& c.websocket_config.ipv4.host@ == "0.0.0.0"@
            &&& c.websocket_config.ipv6.host@ == "::"@
            &&& c.websocket_config.ipv4.port as int == num_or_spec(pairs, "websocket_port"@, u16::MAX as int, 8765)
            &&& c.websocket_config.ipv6.port == c.websocket_config.ipv4.port
            &&& c.websocket_config.auth_key@ == val_or_spec(pairs, "websocket_auth_key"@, ""@)
            &&& c.notification_config.wechat_webhook@ == val_or_spec(pairs, "wechat_webhook"@, ""@)
            &&& c.notification_config.log_file@ == val_or_spec(pairs, "log_file"@, ""@)
            &&& c.notification_config.notification_types.sms == flag_or_spec(pairs, "notify_sms"@, true)
            &&& c.notification_config.notification_types.call == flag_or_spec(pairs, "notify_call"@, true)
            &&& c.notification_config.notification_types.memory_full == flag_or_spec(pairs, "notify_memory_full"@, true)
            &&& c.notification_config.notification_types.signal == flag_or_spec(pairs, "notify_signal"@, true)
            &&& (lookup_spec(pairs, "schedule_auto_airplane_enable"@) matches Some(v) ==> {
                &&& c.auto_airplane.enabled == (v == "1"@)
                &&& c.auto_airplane.action_time@ == val_or_spec(pairs, "schedule_airplane_time"@, "8:00"@)
            })
            &&& (lookup_spec(pairs, "schedule_auto_airplane_enable"@) is None ==> {
                &&& !c.auto_airplane.enabled
                &&& c.auto_airplane.action_time@ == "8:00"@
            })
        }),
{
    let pairs = parse_uci_pairs(out);
    let mut config = default_config();

    let conn_type = text_or(&pairs, "connection_type", "NETWORK");
    let network_selected = {
        let network = String::from_str("NETWORK");
        conn_type == network
    };
    config.at_config.conn_type = conn_type;

    if network_selected {
        config.at_config.network.host = text_or(&pairs, "network_host", "192.168.8.1");
        config.at_config.network.port = num_or(&pairs, "network_port", u16::MAX as u64, 20249)
            as u16;
        config.at_config.network.timeout = num_or(&pairs, "network_timeout", u64::MAX, 10);
    } else {
        let mut port = text_or(&pairs, "serial_port", "/dev/ttyUSB0");
        let custom = String::from_str("custom");
        if port == custom {
            port = text_or(&pairs, "serial_port_custom", "/dev/ttyUSB0");
        }
        config.at_config.serial.port = port;
        config.at_config.serial.baudrate = num_or(
            &pairs,
            "serial_baudrate",
            u32::MAX as u64,
            115200,
        ) as u32;
        config.at_config.serial.timeout = num_or(&pairs, "serial_timeout", u64::MAX, 10);
        config.at_config.serial.method = text_or(&pairs, "serial_method", "TOM_MODEM");
        config.at_config.serial.feature = text_or(&pairs, "serial_feature", "UBUS");
    }

    let ws_port = num_or(&pairs, "websocket_port", u16::MAX as u64, 8765) as u16;
    config.websocket_config.ipv4.port = ws_port;
    config.websocket_config.ipv6.port = ws_port;
    config.websocket_config.ipv4.host = String::from_str("0.0.0.0");
    config.websocket_config.ipv6.host = String::from_str("::");
    config.websocket_config.auth_key = text_or(&pairs, "websocket_auth_key", "");

    config.notification_config.wechat_webhook = text_or(&pairs, "wechat_webhook", "");
    config.notification_config.log_file = text_or(&pairs, "log_file", "");
    config.notification_config.notification_types.sms = flag_or(&pairs, "notify_sms", true);
    config.notification_config.notification_types.call = flag_or(&pairs, "notify_call", true);
    config.notification_config.notification_types.memory_full = flag_or(
        &pairs,
        "notify_memory_full",
        true,
    );
    config.notification_config.notification_types.signal = flag_or(&pairs, "notify_signal", true);

    match lookup(&pairs, "schedule_auto_airplane_enable") {
        Some(v) => {
            let one = String::from_str("1");
            config.auto_airplane.enabled = v == one;
            config.auto_airplane.action_time = text_or(&pairs, "schedule_airplane_time", "8:00");
        },
        None => {},
    }

    config
}

} // verus!
