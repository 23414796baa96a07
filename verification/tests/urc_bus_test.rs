use at_gateway::bus::{RecvOutcome, UrcBus};
use at_gateway::urc::{is_urc_line, reader_turn, split_lines, urc_lines, ReaderTurn};

#[test]
fn lines_split_at_line_feeds_and_drop_one_carriage_return() {
    let lines = split_lines(b"first\r\nsecond\nthird");
    assert_eq!(lines, vec![b"first".to_vec(), b"second".to_vec(), b"third".to_vec()]);
}

#[test]
fn a_trailing_line_feed_adds_no_empty_line() {
    assert_eq!(split_lines(b"only\r\n"), vec![b"only".to_vec()]);
    assert_eq!(split_lines(b""), Vec::<Vec<u8>>::new());
}

#[test]
fn interior_empty_lines_are_kept() {
    assert_eq!(
        split_lines(b"a\r\n\r\nb"),
        vec![b"a".to_vec(), b"".to_vec(), b"b".to_vec()]
    );
}

#[test]
fn notification_lines_carry_a_marker_and_no_keep_alive() {
    assert!(is_urc_line(b"+CMTI: \"SM\",1"));
    assert!(is_urc_line(b"^BOOT: 12345"));
    assert!(is_urc_line(b"  +CRING: VOICE \r"));
    assert!(!is_urc_line(b"OK"));
    assert!(!is_urc_line(b""));
    assert!(!is_urc_line(b"   "));
    assert!(!is_urc_line(b"ping"));
    // the keep-alive test is case-blind and wins over a marker
    assert!(!is_urc_line(b"PING +reply"));
}

#[test]
fn chunk_is_filtered_line_by_line_in_order() {
    let chunk = b"ping\r\n+CMTI: \"SM\",7\r\nOK\r\n^HCSQ: 1,2\r\n";
    let got = urc_lines(chunk);
    assert_eq!(got, vec![b"+CMTI: \"SM\",7".to_vec(), b"^HCSQ: 1,2".to_vec()]);
}

#[test]
fn reader_turn_follows_connectivity() {
    assert!(matches!(reader_turn(false), ReaderTurn::Reconnect));
    assert!(matches!(reader_turn(true), ReaderTurn::Drain));
}

#[test]
fn every_subscriber_receives_each_message_once_in_order() {
    let mut bus = UrcBus::new(16);
    let mut a = bus.subscribe();
    let mut b = bus.subscribe();
    bus.publish(b"+ONE".to_vec());
    bus.publish(b"+TWO".to_vec());
    let mut c = bus.subscribe();
    bus.publish(b"+THREE".to_vec());

    // both early subscribers see all three, in publication order
    assert_eq!(
        a.drain(&bus),
        vec![b"+ONE".to_vec(), b"+TWO".to_vec(), b"+THREE".to_vec()]
    );
    assert_eq!(
        b.drain(&bus),
        vec![b"+ONE".to_vec(), b"+TWO".to_vec(), b"+THREE".to_vec()]
    );
    // and nothing twice
    assert_eq!(a.drain(&bus), Vec::<Vec<u8>>::new());

    // the late subscriber never receives what was published before it
    assert_eq!(c.drain(&bus), vec![b"+THREE".to_vec()]);
}

#[test]
fn recv_reports_one_message_at_a_time() {
    let mut bus = UrcBus::new(4);
    let mut s = bus.subscribe();
    assert!(matches!(s.recv(&bus), RecvOutcome::Empty));
    bus.publish(b"+A".to_vec());
    match s.recv(&bus) {
        RecvOutcome::Message(m) => assert_eq!(m, b"+A".to_vec()),
        _ => panic!("one message was pending"),
    }
    assert!(matches!(s.recv(&bus), RecvOutcome::Empty));
}

#[test]
fn a_lagging_subscriber_loses_the_oldest_messages_and_is_told() {
    let mut bus = UrcBus::new(2);
    let mut s = bus.subscribe();
    bus.publish(b"+1".to_vec());
    bus.publish(b"+2".to_vec());
    bus.publish(b"+3".to_vec());
    bus.publish(b"+4".to_vec());
    // the window holds the last two; the first two are gone
    match s.recv(&bus) {
        RecvOutcome::Lagged(n) => assert_eq!(n, 2),
        _ => panic!("the subscriber fell behind"),
    }
    match s.recv(&bus) {
        RecvOutcome::Message(m) => assert_eq!(m, b"+3".to_vec()),
        _ => panic!("the oldest retained message comes first"),
    }
    match s.recv(&bus) {
        RecvOutcome::Message(m) => assert_eq!(m, b"+4".to_vec()),
        _ => panic!("order is kept after a lag"),
    }
    assert!(matches!(s.recv(&bus), RecvOutcome::Empty));
}
