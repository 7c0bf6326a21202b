use voop::mcu::power::{
    Gates, PowerEvent, PowerPolicy, DEGRADED_SCAN_BURST_SECS, DEGRADED_SCAN_PERIOD_SECS,
    GPS_HOLD_SECS, SCAN_HOLD_SECS,
};
use voop::ticks::TICK_HZ;

fn at(secs: u64) -> u64 {
    secs * TICK_HZ
}

#[test]
fn motion_opens_both_gates_and_the_holds_close_them() {
    let mut p = PowerPolicy::new(0);
    let c = p.step(0);
    assert_eq!((c.scan, c.gps, c.wake_at), (None, None, None));
    p.apply(PowerEvent::Moving(true), at(1));
    let c = p.step(at(1));
    assert_eq!((c.scan, c.gps, c.wake_at), (Some(true), Some(true), None));
    p.apply(PowerEvent::Moving(false), at(10));
    let c = p.step(at(10));
    assert_eq!((c.scan, c.gps), (None, None));
    assert_eq!(c.wake_at, Some(at(10 + SCAN_HOLD_SECS)));
    let c = p.step(at(10 + SCAN_HOLD_SECS));
    assert_eq!((c.scan, c.gps), (Some(false), None));
    assert_eq!(c.wake_at, Some(at(10 + GPS_HOLD_SECS)));
    let c = p.step(at(10 + GPS_HOLD_SECS) - 1);
    assert_eq!(c.gps, None);
    let c = p.step(at(10 + GPS_HOLD_SECS));
    assert_eq!((c.gps, c.wake_at), (Some(false), None));
}

#[test]
fn cadence_sustains_the_gps() {
    let mut p = PowerPolicy::new(0);
    p.apply(PowerEvent::Moving(true), at(0));
    p.apply(PowerEvent::Moving(false), at(1));
    p.apply(PowerEvent::Crank, at(200));
    let (gates, wake) = p.evaluate(at(200));
    assert_eq!(gates, Gates { scan: false, gps: true });
    assert_eq!(wake, Some(at(200 + GPS_HOLD_SECS)));
}

#[test]
fn a_still_bike_that_never_moved_stays_dark() {
    let mut p = PowerPolicy::new(at(5));
    p.apply(PowerEvent::Moving(false), at(6));
    p.apply(PowerEvent::Timer, at(7));
    assert_eq!(p.evaluate(at(8)), (Gates { scan: false, gps: false }, None));
}

#[test]
fn without_the_accelerometer_the_scan_is_duty_cycled() {
    let mut p = PowerPolicy::new(at(100));
    p.apply(PowerEvent::ImuHealthy(false), at(100));
    for cycle in 0..3u64 {
        let start = 100 + cycle * DEGRADED_SCAN_PERIOD_SECS;
        let (gates, wake) = p.evaluate(at(start));
        assert_eq!(gates, Gates { scan: true, gps: false });
        assert_eq!(wake, Some(at(start + DEGRADED_SCAN_BURST_SECS)));
        let (gates, wake) = p.evaluate(at(start + DEGRADED_SCAN_BURST_SECS));
        assert_eq!(gates, Gates { scan: false, gps: false });
        assert_eq!(wake, Some(at(start + DEGRADED_SCAN_PERIOD_SECS)));
    }
}

#[test]
fn without_the_accelerometer_a_connected_sensor_holds_the_gps() {
    let mut p = PowerPolicy::new(0);
    p.apply(PowerEvent::ImuHealthy(false), 0);
    p.apply(PowerEvent::SensorConnected(true), at(3));
    assert_eq!(p.evaluate(at(1000)), (Gates { scan: false, gps: true }, None));
    p.apply(PowerEvent::SensorConnected(false), at(1000));
    let (gates, _) = p.evaluate(at(1000 + GPS_HOLD_SECS) - 1);
    assert!(gates.gps);
    let (gates, _) = p.evaluate(at(1000 + GPS_HOLD_SECS));
    assert!(!gates.gps);
    // Recovery brings the normal rules back.
    p.apply(PowerEvent::ImuHealthy(true), at(1001));
    assert_eq!(p.evaluate(at(1001)).0, Gates { scan: false, gps: false });
}

#[test]
fn nothing_changes_before_the_wake_time() {
    let mut p = PowerPolicy::new(0);
    p.apply(PowerEvent::Moving(true), at(0));
    p.apply(PowerEvent::Moving(false), at(2));
    let (gates, wake) = p.evaluate(at(2));
    let wake = wake.unwrap();
    assert_eq!(p.evaluate(wake - 1).0, gates);
    assert_ne!(p.evaluate(wake).0, gates);
}
