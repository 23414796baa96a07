use at_gateway::airplane::{
    restart_commands, ActionTimeError, AutoAirPlaneMode, MONITOR_PERIOD_S, RESTART_PAUSE_S,
};
use at_gateway::config::default_config;

fn mode_with(enabled: bool, time: &str) -> AutoAirPlaneMode {
    let mut c = default_config();
    c.auto_airplane.enabled = enabled;
    c.auto_airplane.action_time = time.to_string();
    AutoAirPlaneMode::new(&c)
}

#[test]
fn construction_reads_the_schedule_section() {
    let m = mode_with(true, "23:30");
    assert!(m.is_enbale());
    let off = mode_with(false, "8:00");
    assert!(!off.is_enbale());
}

#[test]
fn well_formed_times_parse() {
    assert_eq!(mode_with(true, "8:00").parse_action_time(), Ok((8, 0)));
    assert_eq!(mode_with(true, "23:59").parse_action_time(), Ok((23, 59)));
    assert_eq!(mode_with(true, "0:0").parse_action_time(), Ok((0, 0)));
}

#[test]
fn each_malformed_time_gets_its_own_error() {
    assert_eq!(mode_with(true, "800").parse_action_time(), Err(ActionTimeError::Format));
    assert_eq!(mode_with(true, "8:00:00").parse_action_time(), Err(ActionTimeError::Format));
    assert_eq!(mode_with(true, "x:00").parse_action_time(), Err(ActionTimeError::Hour));
    assert_eq!(mode_with(true, "8:y").parse_action_time(), Err(ActionTimeError::Minute));
    assert_eq!(mode_with(true, "24:00").parse_action_time(), Err(ActionTimeError::Range));
    assert_eq!(mode_with(true, "8:60").parse_action_time(), Err(ActionTimeError::Range));
}

#[test]
fn the_clock_matches_only_the_configured_minute() {
    let m = mode_with(true, "8:00");
    assert!(m.is_action_time(8, 0));
    assert!(!m.is_action_time(8, 1));
    assert!(!m.is_action_time(9, 0));
}

#[test]
fn an_unparsable_time_never_matches() {
    let m = mode_with(true, "nonsense");
    assert!(!m.is_action_time(0, 0));
}

#[test]
fn restart_fires_only_when_enabled_and_due() {
    assert!(mode_with(true, "6:30").should_restart(6, 30));
    assert!(!mode_with(true, "6:30").should_restart(6, 31));
    assert!(!mode_with(false, "6:30").should_restart(6, 30));
}

#[test]
fn restart_issues_the_toggle_pair() {
    let cmds = restart_commands();
    assert_eq!(cmds, vec![b"AT+CFUN=0".to_vec(), b"AT+CFUN=1".to_vec()]);
    assert_eq!(RESTART_PAUSE_S, 5);
    assert_eq!(MONITOR_PERIOD_S, 60);
}
