use voop::advert::{ad_has_uuid16, is_first_sensor, CSC_SERVICE};
use voop::mcu::ble::central::{
    parse_measurement, Central, CentralEvent, CentralReport, CrankSample, Error, Step,
};

#[test]
fn listed_services_are_found() {
    // Flags, then a complete list of two services.
    let data = [0x02, 0x01, 0x06, 0x05, 0x03, 0x0F, 0x18, 0x16, 0x18];
    assert!(ad_has_uuid16(&data, CSC_SERVICE));
    assert!(ad_has_uuid16(&data, 0x180F));
    assert!(!ad_has_uuid16(&data, 0x1618));
    // The incomplete list counts too, a list of another type does not.
    assert!(ad_has_uuid16(&[0x03, 0x02, 0x16, 0x18], CSC_SERVICE));
    assert!(!ad_has_uuid16(&[0x03, 0x04, 0x16, 0x18], CSC_SERVICE));
}

#[test]
fn broken_advertising_data_ends_the_search() {
    assert!(!ad_has_uuid16(&[], CSC_SERVICE));
    assert!(!ad_has_uuid16(&[0x00, 0x03, 0x03, 0x16, 0x18], CSC_SERVICE));
    assert!(!ad_has_uuid16(&[0x04, 0x03, 0x16, 0x18], CSC_SERVICE));
    // An odd byte at the end of a list is no entry.
    assert!(!ad_has_uuid16(&[0x04, 0x03, 0x00, 0x16, 0x18], CSC_SERVICE));
    assert!(!ad_has_uuid16(&[0x01, 0x03], CSC_SERVICE));
}

#[test]
fn only_the_first_sensor_counts() {
    let data = [0x03, 0x03, 0x16, 0x18];
    assert!(is_first_sensor(false, &data));
    assert!(!is_first_sensor(true, &data));
    assert!(!is_first_sensor(false, &data[1..]));
}

#[test]
fn crank_data_is_read_behind_the_wheel_data() {
    let crank = Some(CrankSample { revs: 0x0201, event_time: 0x0403 });
    assert_eq!(parse_measurement(&[2, 1, 2, 3, 4]), crank);
    assert_eq!(parse_measurement(&[2, 1, 2, 3, 4, 9, 9]), crank);
    assert_eq!(parse_measurement(&[3, 9, 9, 9, 9, 9, 9, 1, 2, 3, 4]), crank);
    assert_eq!(parse_measurement(&[0xFE, 1, 2, 3, 4]), crank);
    assert_eq!(parse_measurement(&[]), None);
    assert_eq!(parse_measurement(&[2, 1, 2, 3]), None);
    assert_eq!(parse_measurement(&[3, 9, 9, 9, 9, 9, 9, 1, 2, 3]), None);
    assert_eq!(parse_measurement(&[1, 9, 9, 9, 9, 9, 9]), None);
}

/// Goes through the steps up to `until` without a failure.
fn reach(until: Step) -> Central {
    let mut central = Central::new();
    let script = [
        CentralEvent::Elapsed,
        CentralEvent::ScanStarted(true),
        CentralEvent::SensorFound,
        CentralEvent::ConnectEnded(true),
        CentralEvent::ClientOpened(true),
        CentralEvent::ServicesListed(Some(1)),
        CentralEvent::CharacteristicFound(true),
        CentralEvent::Subscribed(true),
        CentralEvent::ServicesListed(Some(2)),
        CentralEvent::CharacteristicFound(true),
        CentralEvent::Subscribed(true),
        CentralEvent::LevelRead(Some(1), 90),
    ];
    for event in script {
        if central.step == until {
            return central;
        }
        central.on_event(event);
    }
    assert_eq!(central.step, until);
    central
}

#[test]
fn the_link_is_built_step_by_step() {
    let mut central = Central::new();
    assert_eq!(central.step, Step::Rest { wait: false });
    let start = central.on_event(CentralEvent::Elapsed);
    assert_eq!(
        start,
        CentralReport { connected: Some(false), battery: None, forget_address: true }
    );
    let mut central = reach(Step::Connect);
    assert_eq!(central.on_event(CentralEvent::ConnectEnded(true)).connected, Some(true));
    let mut central = reach(Step::ReadLevel);
    let report = central.on_event(CentralEvent::LevelRead(Some(1), 77));
    assert_eq!(report.battery, Some(77));
    assert_eq!(central.step, Step::Stream { battery: true });
}

#[test]
fn failures_before_the_measurements_start_over() {
    let retry = Step::Rest { wait: true };
    for (step, event) in [
        (Step::Scan, CentralEvent::ScanStarted(false)),
        (Step::AwaitSensor, CentralEvent::GateClosed),
        (Step::Connect, CentralEvent::ConnectEnded(false)),
        (Step::OpenClient, CentralEvent::ClientOpened(false)),
        (Step::DiscoverCsc, CentralEvent::ServicesListed(None)),
        (Step::DiscoverCsc, CentralEvent::ServicesListed(Some(0))),
        (Step::FindMeasurement, CentralEvent::CharacteristicFound(false)),
        (Step::SubscribeMeasurement, CentralEvent::Subscribed(false)),
        (Step::DiscoverCsc, CentralEvent::LinkLost),
        (Step::ReadLevel, CentralEvent::LinkLost),
        (Step::Stream { battery: true }, CentralEvent::LinkLost),
    ] {
        let mut central = reach(step);
        let report = central.on_event(event);
        assert_eq!(central.step, retry);
        assert_eq!(report.connected, None);
        assert_eq!(central.on_event(CentralEvent::Elapsed).connected, Some(false));
        assert_eq!(central.step, Step::Scan);
    }
}

#[test]
fn each_step_has_its_limit() {
    assert_eq!(Step::Rest { wait: true }.limit_secs(), Some(1));
    assert_eq!(Step::Rest { wait: false }.limit_secs(), Some(0));
    assert_eq!(Step::Connect.limit_secs(), Some(10));
    for step in [Step::Scan, Step::AwaitSensor, Step::ReadLevel, Step::Stream { battery: true }] {
        assert_eq!(step.limit_secs(), None);
        let mut central = reach(step);
        central.on_event(CentralEvent::Elapsed);
        assert_eq!(central.step, step);
    }
}

#[test]
fn a_closing_gate_leaves_a_link_alone() {
    for step in [Step::Connect, Step::DiscoverCsc, Step::Stream { battery: true }] {
        let mut central = reach(step);
        central.on_event(CentralEvent::GateClosed);
        assert_eq!(central.step, step);
    }
}

#[test]
fn the_battery_is_optional() {
    for (step, event) in [
        (Step::DiscoverBattery, CentralEvent::ServicesListed(None)),
        (Step::DiscoverBattery, CentralEvent::ServicesListed(Some(0))),
        (Step::FindLevel, CentralEvent::CharacteristicFound(false)),
        (Step::SubscribeLevel, CentralEvent::Subscribed(false)),
    ] {
        let mut central = reach(step);
        central.on_event(event);
        assert_eq!(central.step, Step::Stream { battery: false });
    }
    for read in [CentralEvent::LevelRead(None, 5), CentralEvent::LevelRead(Some(0), 5)] {
        let mut central = reach(Step::ReadLevel);
        assert_eq!(central.on_event(read).battery, None);
        assert_eq!(central.step, Step::Stream { battery: true });
    }
}

#[test]
fn readings_are_published_when_the_crank_turns() {
    let mut central = reach(Step::Stream { battery: true });
    let first = CrankSample { revs: 7, event_time: 1 };
    assert_eq!(central.on_measurement(&[2, 7, 0, 1, 0]), Some(first));
    assert_eq!(central.on_measurement(&[2, 7, 0, 2, 0]), None);
    assert_eq!(central.on_measurement(&[0, 8, 0, 2, 0]), None);
    assert_eq!(
        central.on_measurement(&[2, 8, 0, 2, 0]),
        Some(CrankSample { revs: 8, event_time: 2 })
    );
    assert_eq!(central.on_level(&[55, 1]), Some(55));
    assert_eq!(central.on_level(&[]), None);
}

#[test]
fn a_new_subscription_publishes_anew() {
    let mut central = reach(Step::SubscribeMeasurement);
    central.last_revs = Some(7);
    central.on_event(CentralEvent::Subscribed(true));
    assert_eq!(central.last_revs, None);
    assert!(central.on_measurement(&[2, 7, 0, 1, 0]).is_some());
}

#[test]
fn errors_are_worded() {
    assert_eq!(Error::SpawnFailed.message(), "spawn failed");
    assert_eq!(Error::MpslInitFailed.message(), "MPSL init failed");
    assert_eq!(Error::SdcInitFailed.message(), "SDC init failed");
    assert_eq!(Error::HfclkFailed.message(), "HFCLK request failed");
    assert_eq!(Error::RunnerCrashed.message(), "BLE runner crashed");
}
