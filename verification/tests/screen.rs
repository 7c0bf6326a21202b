use voop::mcu::ble::central::CrankSample;
use voop::mcu::gps::GpsState;
use voop::mcu::screen::{time_of_day, InternalError, ScreenEvent, ScreenState};
use voop::protocol::{BatteryState, BatteryStatus};

fn shown(state: &ScreenState) -> Vec<(String, i32)> {
    state.lines().into_iter().map(|l| (l.text, l.y)).collect()
}

fn rows(texts: [&str; 6]) -> Vec<(String, i32)> {
    let y = [0, 11, 22, 33, 44, 54];
    texts.iter().zip(y).map(|(t, y)| (t.to_string(), y)).collect()
}

#[test]
fn at_boot_nothing_is_known() {
    let state = ScreenState::new();
    assert_eq!(
        shown(&state),
        rows(["GPS: ---", "CRK: ---", "MCU: ---", "SNS: ---", "iOS:N CAD:N MOV:?", "--:--"])
    );
}

#[test]
fn every_source_has_its_place() {
    let mut state = ScreenState::new();
    state.apply(ScreenEvent::Gps(Some(GpsState {
        lat_microdeg: 57_705_670,
        lon_microdeg: -11_940_034,
    })));
    state.apply(ScreenEvent::Crank(CrankSample { revs: 65_535, event_time: 3 }));
    state.apply(ScreenEvent::McuBattery(BatteryStatus {
        percent: 100,
        state: BatteryState::Charging,
    }));
    state.apply(ScreenEvent::SensorConnected(true));
    assert_eq!(shown(&state)[3].0, "SNS: OK");
    state.apply(ScreenEvent::SensorBattery(9));
    state.apply(ScreenEvent::IosConnected(true));
    state.apply(ScreenEvent::Moving(false));
    state.apply(ScreenEvent::Clock(Some(1_782_218_119_000)));
    assert_eq!(
        shown(&state),
        rows([
            "GPS:57.71/-11.94",
            "CRK: 65535",
            "MCU: 100% CHG",
            "SNS: 9%",
            "iOS:Y CAD:Y MOV:N",
            "12:35"
        ])
    );
    state.apply(ScreenEvent::McuBattery(BatteryStatus {
        percent: 7,
        state: BatteryState::Discharging,
    }));
    state.apply(ScreenEvent::Moving(true));
    state.apply(ScreenEvent::SensorConnected(false));
    state.apply(ScreenEvent::Gps(None));
    // Without the time the clock stays as it was.
    state.apply(ScreenEvent::Clock(None));
    assert_eq!(
        shown(&state),
        rows(["GPS: ---", "CRK: 65535", "MCU: 7%", "SNS: ---", "iOS:Y CAD:N MOV:Y", "12:35"])
    );
}

#[test]
fn any_position_fits_its_line() {
    for k in [0, -1, 4_999, 5_000, -180_000_000, i32::MIN, i32::MAX] {
        let mut state = ScreenState::new();
        state.apply(ScreenEvent::Gps(Some(GpsState { lat_microdeg: k, lon_microdeg: k })));
        let degrees = format!("{:.2}", k as f64 / 1_000_000.0);
        assert_eq!(shown(&state)[0].0, format!("GPS:{}/{}", degrees, degrees));
    }
}

#[test]
fn display_errors_are_worded() {
    assert_eq!(InternalError::RenderError.message(), "render failed");
    assert_eq!(
        InternalError::InitError("BusWriteError".to_string()).message(),
        "init failed: BusWriteError"
    );
}

#[test]
fn the_time_of_day_is_in_utc() {
    assert_eq!(time_of_day(0), (0, 0));
    assert_eq!(time_of_day(59_999), (0, 0));
    assert_eq!(time_of_day(60_000), (0, 1));
    assert_eq!(time_of_day(86_399_999), (23, 59));
    assert_eq!(time_of_day(86_400_000 + 3_600_000), (1, 0));
    let mut state = ScreenState::new();
    state.apply(ScreenEvent::Clock(Some(3_660_000)));
    assert_eq!(shown(&state)[5].0, "01:01");
}
