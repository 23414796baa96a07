//! The scheduled airplane-mode toggle's decisions: the configured `HH:MM`
//! time of day parsed and compared against the clock, and the command pair
//! the restart issues. The clock itself, the sleeps and the command sends are
//! the runner's.

use vstd::prelude::*;
use vstd::string::StrSliceExecFns;
use vstd::string::StringSliceAdditionalSpecFns;

use crate::config::Config;
use crate::scan::str_bytes;
use crate::text::find_char;
use crate::text::find_char_spec;
use crate::text::parse_uint_chars;
use crate::text::parse_uint_text;

verus! {

/// Why a configured action time is unusable.
#[derive(Debug, PartialEq, Eq)]
pub enum ActionTimeError {
    /// Not exactly two `:`-separated fields.
    Format,
    /// The hour field is not an unsigned number.
    Hour,
    /// The minute field is not an unsigned number.
    Minute,
    /// The hour is not below 24 or the minute not below 60.
    Range,
}

/// The `HH:MM` text parsed: exactly one separator, two unsigned fields, the
/// hour below 24 and the minute below 60.
pub open spec fn parse_action_time_spec(t: Seq<char>) -> Result<(int, int), ActionTimeError> {
    match find_char_spec(t, ':') {
        None => Err(ActionTimeError::Format),
        Some(p) => {
            let hour_text = t.take(p);
            let minute_text = t.skip(p + 1);
            if find_char_spec(minute_text, ':') is Some {
                Err(ActionTimeError::Format)
            } else {
                match parse_uint_chars(hour_text, u32::MAX as int) {
                    None => Err(ActionTimeError::Hour),
                    Some(h) => match parse_uint_chars(minute_text, u32::MAX as int) {
                        None => Err(ActionTimeError::Minute),
                        Some(m) => if h >= 24 || m >= 60 {
                            Err(ActionTimeError::Range)
                        } else {
                            Ok((h, m))
                        },
                    },
                }
            }
        },
    }
}

/// The scheduled toggle: whether it runs, and at which time of day.
pub struct AutoAirPlaneMode {
    enabled: bool,
    action_time: String,
}

impl AutoAirPlaneMode {
    pub closed spec fn enabled(&self) -> bool {
        self.enabled
    }

    pub closed spec fn time_view(&self) -> Seq<char> {
        self.action_time@
    }

    pub fn new(config: &Config) -> (r: Self)
        ensures
            r.enabled() == config.auto_airplane.enabled,
            r.time_view() == config.auto_airplane.action_time@,
    {
        AutoAirPlaneMode {
            enabled: config.auto_airplane.enabled,
            action_time: config.auto_airplane.action_time.clone(),
        }
    }

    /// Whether the feature is switched on.
    pub fn is_enbale(&self) -> (r: bool)
        ensures
            r == self.enabled(),
    {
        if self.enabled {
            true
        } else {
            false
        }
    }

    /// The configured time of day, parsed.
    pub fn parse_action_time(&self) -> (r: Result<(u32, u32), ActionTimeError>)
        ensures
            match r {
                Ok(hm) => parse_action_time_spec(self.time_view()) == Ok::<
                    (int, int),
                    ActionTimeError,
                >((hm.0 as int, hm.1 as int)),
                Err(e) => parse_action_time_spec(self.time_view()) == Err::<
                    (int, int),
                    ActionTimeError,
                >(e),
            },
    {
        let t = self.action_time.as_str();
        let n = t.unicode_len();
        match find_char(t, ':') {
            None => Err(ActionTimeError::Format),
            Some(p) => {
                let hour_text = t.substring_char(0, p);
                let minute_text = t.substring_char(p + 1, n);
                proof {
                    assert(hour_text@ =~= t@.take(p as int));
                    assert(minute_text@ =~= t@.skip(p + 1));
                }
                if find_char(minute_text, ':').is_some() {
                    return Err(ActionTimeError::Format);
                }
                match parse_uint_text(hour_text, u32::MAX as u64) {
                    None => Err(ActionTimeError::Hour),
                    Some(h) => match parse_uint_text(minute_text, u32::MAX as u64) {
                        None => Err(ActionTimeError::Minute),
                        Some(m) => if h >= 24 || m >= 60 {
                            Err(ActionTimeError::Range)
                        } else {
                            Ok((h as u32, m as u32))
                        },
                    },
                }
            },
        }
    }

    /// Whether the given clock reading (hour and minute of the day) is the
    /// configured moment; an unparsable configuration never matches.
    pub fn is_action_time(&self, hour: u32, minute: u32) -> (r: bool)
        ensures
            r == match parse_action_time_spec(self.time_view()) {
                Ok(hm) => hm == (hour as int, minute as int),
                Err(_) => false,
            },
    {
        match self.parse_action_time() {
            Ok(hm) => hm.0 == hour && hm.1 == minute,
            Err(_) => false,
        }
    }

    /// The monitor's per-minute decision: restart exactly when the feature is
    /// on and the clock reads the configured moment.
    pub fn should_restart(&self, hour: u32, minute: u32) -> (r: bool)
        ensures
            r == (self.enabled() && match parse_action_time_spec(self.time_view()) {
                Ok(hm) => hm == (hour as int, minute as int),
                Err(_) => false,
            }),
    {
        self.enabled && self.is_action_time(hour, minute)
    }
}

/// The two commands a scheduled restart issues, in order: airplane mode on,
/// then — after the pause — airplane mode off. Each is sent best-effort.
pub fn restart_commands() -> (r: Vec<Vec<u8>>)
    ensures
        r@.len() == 2,
        r@[0]@ == "AT+CFUN=0".spec_bytes(),
        r@[1]@ == "AT+CFUN=1".spec_bytes(),
{
    let mut v: Vec<Vec<u8>> = Vec::new();
    v.push(str_bytes("AT+CFUN=0"));
    v.push(str_bytes("AT+CFUN=1"));
    v
}

/// Seconds between the two restart commands.
pub const RESTART_PAUSE_S: u64 = 5;

/// Seconds between two looks at the clock.
pub const MONITOR_PERIOD_S: u64 = 60;

} // verus!
