use voop::mcu::ble::peripheral::{Feed, PeripheralEvent, Stage, ADV_DATA, DEVICE_NAME};
use voop::mcu::store::{DataPoint, Store};

fn point(ms: u32) -> DataPoint {
    DataPoint {
        monotonic_ms: ms,
        crank_revs: Some(1),
        lat: None,
        lon: None,
        fix_quality: None,
        gps_unix_time: None,
        sensor_battery: None,
    }
}

fn serving() -> Stage {
    let mut stage = Stage::Advertise;
    stage.on_event(PeripheralEvent::Advertised(true));
    assert_eq!(stage, Stage::Accept);
    stage.on_event(PeripheralEvent::Accepted(true));
    assert_eq!(stage, Stage::Attach);
    stage.on_event(PeripheralEvent::Attached(true));
    assert_eq!(stage, Stage::Serve { connected: true, feed: Feed::Replay });
    stage
}

#[test]
fn the_buffer_is_replayed_newest_first_and_then_streamed() {
    let mut store = Store::new();
    for ms in 1..=3 {
        store.push(point(ms));
    }
    let mut stage = serving();
    for ms in [3, 2, 1] {
        let sent = stage.next_notification(&mut store).expect("a point");
        assert_eq!(sent, point(ms).pack());
        stage.on_event(PeripheralEvent::Notified(true));
    }
    assert!(stage.next_notification(&mut store).is_none());
    assert_eq!(stage, Stage::Serve { connected: true, feed: Feed::Live });
    store.push(point(4));
    for _ in 0..2 {
        assert_eq!(stage.next_notification(&mut store), Some(point(4).pack()));
    }
    assert_eq!(store.peek_latest(), Some(point(4)));
}

#[test]
fn a_failed_notification_stops_the_feed() {
    let mut store = Store::new();
    store.push(point(1));
    store.push(point(2));
    let mut stage = serving();
    stage.next_notification(&mut store);
    stage.on_event(PeripheralEvent::Notified(false));
    assert_eq!(stage, Stage::Serve { connected: true, feed: Feed::Stopped });
    assert!(stage.next_notification(&mut store).is_none());
    assert_eq!(store.peek_latest(), Some(point(1)));
    stage.on_event(PeripheralEvent::Disconnected);
    assert_eq!(stage, Stage::Advertise);
}

#[test]
fn serving_ends_when_both_sides_have() {
    let mut stage = serving();
    stage.on_event(PeripheralEvent::Disconnected);
    assert_eq!(stage, Stage::Serve { connected: false, feed: Feed::Replay });
    stage.on_event(PeripheralEvent::Notified(false));
    assert_eq!(stage, Stage::Advertise);
    let mut stage = Stage::Serve { connected: false, feed: Feed::Live };
    stage.on_event(PeripheralEvent::NoUpdates);
    assert_eq!(stage, Stage::Advertise);
}

#[test]
fn failures_before_serving_advertise_again() {
    for (stage, event) in [
        (Stage::Advertise, PeripheralEvent::Advertised(false)),
        (Stage::Accept, PeripheralEvent::Accepted(false)),
        (Stage::Attach, PeripheralEvent::Attached(false)),
    ] {
        let mut stage = stage;
        stage.on_event(event);
        assert_eq!(stage, Stage::Advertise);
    }
}

#[test]
fn the_advertisement_ends_in_the_name() {
    assert_eq!(ADV_DATA.len(), 35);
    assert_eq!(&ADV_DATA[23..], DEVICE_NAME.as_bytes());
    let mut at = 0;
    let mut types = vec![];
    while at < ADV_DATA.len() {
        types.push(ADV_DATA[at + 1]);
        at += 1 + ADV_DATA[at] as usize;
    }
    assert_eq!((at, types), (35, vec![0x01, 0x07, 0x09]));
}
