use voop::mcu::battery::{percent_from_mv, voltage_mv, Battery, CURVE};
use voop::protocol::{BatteryState, BatteryStatus};

#[test]
fn the_charge_follows_the_curve() {
    for (mv, pct) in CURVE {
        assert_eq!(percent_from_mv(mv), pct);
    }
    assert_eq!(percent_from_mv(0), 0);
    assert_eq!(percent_from_mv(3299), 0);
    assert_eq!(percent_from_mv(4201), 100);
    assert_eq!(percent_from_mv(u16::MAX), 100);
    assert_eq!(percent_from_mv(4130), 95);
    assert_eq!(percent_from_mv(3490), 10);
    assert_eq!(percent_from_mv(3319), 1);
    assert_eq!(percent_from_mv(3318), 0);
}

#[test]
fn the_charge_rises_with_the_voltage() {
    let mut last = 0;
    for mv in 0..=5000u16 {
        let pct = percent_from_mv(mv);
        assert!(last <= pct && pct <= 100);
        last = pct;
    }
}

#[test]
fn the_voltage_is_scaled_from_the_mean() {
    assert_eq!(voltage_mv(&[0, 0, 0, 0]), 0);
    assert_eq!(voltage_mv(&[-5, -1, i16::MIN, 3]), 0);
    assert_eq!(voltage_mv(&[1600, 1600, 1600, 1600]), 4163);
    assert_eq!(voltage_mv(&[1600, 1600, 1600, 1603]), 4163);
    assert_eq!(voltage_mv(&[1600, 1600, 1600, 1604]), 4166);
    assert_eq!(voltage_mv(&[4095, 4095, 4095, 4095]), 10656);
    // Beyond sixteen bits the value wraps.
    assert_eq!(voltage_mv(&[i16::MAX; 4]), (32767u64 * 3600 * 1510 / 510 / 4096) as u16);
}

#[test]
fn only_changes_are_published() {
    let mut battery = Battery::new();
    let full = BatteryStatus { percent: 97, state: BatteryState::Charging };
    assert_eq!(battery.sample(&[1600; 4], true), Some(full));
    assert_eq!(battery.sample(&[1600; 4], true), None);
    assert_eq!(battery.sample(&[1601; 4], true), None);
    let unplugged = BatteryStatus { percent: 97, state: BatteryState::Discharging };
    assert_eq!(battery.sample(&[1600; 4], false), Some(unplugged));
    assert_eq!(battery.last, Some(unplugged));
    let empty = BatteryStatus { percent: 0, state: BatteryState::Discharging };
    assert_eq!(battery.sample(&[0; 4], false), Some(empty));
}
