use voop::bike_computer::logger as simple;
use voop::mcu::logger::{cut, init, packetize, Error, Logger, LoggerRunner};

fn bytes(n: usize) -> Vec<u8> {
    (0..n).map(|i| i as u8).collect()
}

fn pieces(list: &[&str]) -> Vec<String> {
    list.iter().map(|s| s.to_string()).collect()
}

#[test]
fn a_message_is_cut_into_packets() {
    for n in [0, 1, 63, 64, 65, 127, 128, 129, 200] {
        let msg = bytes(n);
        let packets = packetize(&msg);
        assert_eq!(packets.concat(), msg);
        for p in packets.iter().rev().skip(1) {
            assert_eq!(p.len(), 64);
        }
        match packets.last() {
            Some(p) => assert!(p.len() < 64),
            None => assert_eq!(n, 0),
        }
        assert_eq!(cut(&msg).len(), n.div_ceil(64));
    }
    assert_eq!(packetize(&bytes(128)).len(), 3);
    assert_eq!(packetize(&bytes(127)).len(), 2);
}

#[test]
fn a_line_names_its_level() {
    assert!(Logger.enabled());
    let line = Logger.compose("INFO", &pieces(&["[GPS] ", "wake"]));
    assert_eq!(line, "[INFO] [GPS] wake\r\n");
    assert_eq!(Logger.compose("WARN", &vec![]), "[WARN] \r\n");
}

#[test]
fn the_piece_that_does_not_fit_ends_the_line() {
    let long = "x".repeat(119);
    assert_eq!(Logger.compose("INFO", &pieces(&[&long])).len(), 128);
    let longer = "x".repeat(120);
    assert_eq!(Logger.compose("INFO", &pieces(&[&longer])).len(), 127);
    let line = Logger.compose("INFO", &pieces(&["a", &"y".repeat(130), "b"]));
    assert_eq!(line, "[INFO] a");
    // The limit counts bytes, not characters.
    let wide = "é".repeat(61);
    assert_eq!(Logger.compose("INFO", &pieces(&[&wide])), "[INFO] ");
    assert_eq!(simple::Logger.compose("INFO", &pieces(&["a", &"y".repeat(130)])), "[INFO] a");
    assert!(simple::Logger.enabled());
}

fn started() -> LoggerRunner {
    let mut runner = init(true).ok().expect("installed");
    assert!(!runner.connected());
    runner.on_connection();
    runner
}

#[test]
fn a_line_is_sent_packet_by_packet() {
    let mut runner = started();
    runner.on_message(&bytes(128));
    let mut sent = vec![];
    while let Some(p) = runner.next_packet() {
        sent.push(p.to_vec());
        runner.on_written(true);
    }
    assert_eq!(sent, vec![bytes(128)[..64].to_vec(), bytes(128)[64..].to_vec(), vec![]]);
    assert!(runner.connected());
}

#[test]
fn a_dead_port_drops_the_line_and_waits() {
    let mut runner = started();
    runner.on_message(&bytes(100));
    runner.on_written(false);
    assert!(!runner.connected());
    assert!(runner.next_packet().is_none());
}

#[test]
fn a_failed_empty_packet_does_not_matter() {
    let mut runner = started();
    runner.on_message(&bytes(64));
    runner.on_written(true);
    assert_eq!(runner.next_packet(), Some(&[][..]));
    runner.on_written(false);
    assert!(runner.connected());
    assert!(runner.next_packet().is_none());
}

#[test]
fn a_second_logger_is_refused() {
    assert_eq!(init(false).err(), Some(Error::SetLoggerError));
    assert_eq!(Error::SetLoggerError.message(), "failed to set logger");
}

#[test]
fn the_simple_logger_sends_no_empty_packet() {
    let mut sending = simple::send(&bytes(128));
    for _ in 0..2 {
        assert_eq!(sending.next_packet().map(|p| p.len()), Some(64));
        sending.on_written(true);
    }
    assert!(sending.next_packet().is_none());
    let mut sending = simple::send(&bytes(200));
    sending.on_written(false);
    assert!(sending.next_packet().is_none());
}

#[test]
fn the_simple_logger_reports_how_it_started() {
    assert!(simple::init(Ok(()), true).is_ok());
    let e = simple::init(Ok(()), false).err().unwrap();
    assert_eq!(e.message(), "failed to set logger");
    let e = simple::init(Err("Busy".to_string()), true).err().unwrap();
    assert_eq!(e.message(), "failed to spawn logger task: Busy");
}
