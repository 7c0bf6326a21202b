use voop::mcu::store::{DataPoint, FixQuality, Recorder, Store, StoreEvent, CAPACITY};
use voop::ticks::{uptime_ms, TICK_HZ};

fn point(ms: u32) -> DataPoint {
    DataPoint {
        monotonic_ms: ms,
        crank_revs: None,
        lat: None,
        lon: None,
        fix_quality: None,
        gps_unix_time: None,
        sensor_battery: None,
    }
}

#[test]
fn a_bare_point_packs_to_nine_bytes() {
    let packed = point(0x0102_0304).pack();
    assert_eq!(packed[..], [0x04, 0x03, 0x02, 0x01, 0, 0, 0, 0, 0]);
}

#[test]
fn a_full_point_packs_to_twenty_four_bytes() {
    let p = DataPoint {
        monotonic_ms: 1,
        crank_revs: Some(0x3132),
        lat: Some(0x2122_2324),
        lon: Some(-2),
        fix_quality: Some(FixQuality::Differential),
        gps_unix_time: Some(0x5152_5354),
        sensor_battery: Some(72),
    };
    let expected: [u8; 24] = [
        1, 0, 0, 0, 0, 0, 0, 0, 0x1F, 0x32, 0x31, 0x24, 0x23, 0x22, 0x21, 0xFE, 0xFF, 0xFF, 0xFF,
        0x54, 0x53, 0x52, 0x51, 72,
    ];
    assert_eq!(p.pack()[..], expected);
}

#[test]
fn a_missing_longitude_is_sent_as_zero() {
    let p = DataPoint { lat: Some(5), fix_quality: Some(FixQuality::Autonomous), ..point(0) };
    assert_eq!(p.pack()[..], [0, 0, 0, 0, 0, 0, 0, 0, 0x02, 5, 0, 0, 0, 0, 0, 0, 0]);
    // A longitude alone is not sent.
    let p = DataPoint { lon: Some(5), ..point(0) };
    assert_eq!(p.pack().len(), 9);
}

#[test]
fn points_leave_newest_first() {
    let mut store = Store::new();
    assert_eq!(store.peek_latest(), None);
    assert_eq!(store.pop_newest(), None);
    for ms in 0..5 {
        store.push(point(ms));
    }
    assert_eq!(store.peek_latest(), Some(point(4)));
    for ms in (0..5).rev() {
        assert_eq!(store.pop_newest(), Some(point(ms)));
    }
    assert_eq!(store.pop_newest(), None);
}

#[test]
fn a_full_store_drops_its_oldest() {
    let mut store = Store::new();
    let count = CAPACITY as u32 + 3;
    for ms in 0..count {
        store.push(point(ms));
    }
    let mut left = 0u32;
    let mut last = None;
    while let Some(p) = store.pop_newest() {
        assert_eq!(p.monotonic_ms, count - 1 - left);
        left += 1;
        last = Some(p.monotonic_ms);
    }
    assert_eq!(left, CAPACITY as u32);
    assert_eq!(last, Some(3));
}

#[test]
fn a_crank_event_stores_the_latest_readings() {
    let mut store = Store::new();
    let mut recorder = Recorder::new();
    assert!(recorder.on_event(StoreEvent::Crank(1), TICK_HZ, &mut store));
    assert_eq!(
        store.peek_latest(),
        Some(DataPoint { crank_revs: Some(1), ..point(1000) })
    );
    assert!(!recorder.on_event(StoreEvent::Battery(80), TICK_HZ, &mut store));
    assert!(!recorder.on_event(StoreEvent::Time(77), TICK_HZ, &mut store));
    let place = StoreEvent::Location { lat: 1, lon: 2, fix_quality: FixQuality::Autonomous };
    assert!(!recorder.on_event(place, TICK_HZ, &mut store));
    assert!(recorder.on_event(StoreEvent::Crank(2), 3 * TICK_HZ, &mut store));
    assert_eq!(
        store.pop_newest(),
        Some(DataPoint {
            monotonic_ms: 3000,
            crank_revs: Some(2),
            lat: Some(1),
            lon: Some(2),
            fix_quality: Some(FixQuality::Autonomous),
            gps_unix_time: Some(77),
            sensor_battery: Some(80),
        })
    );
}

#[test]
fn a_lost_fix_leaves_no_stale_position() {
    let mut store = Store::new();
    let mut recorder = Recorder::new();
    let place = StoreEvent::Location { lat: 1, lon: 2, fix_quality: FixQuality::Differential };
    recorder.on_event(place, 0, &mut store);
    recorder.on_event(StoreEvent::Time(77), 0, &mut store);
    recorder.on_event(StoreEvent::Crank(1), 0, &mut store);
    assert_eq!(store.peek_latest().unwrap().lat, Some(1));
    // Only a crank event looks at the clock.
    assert!(!recorder.on_event(StoreEvent::LocationLost, u64::MAX, &mut store));
    recorder.on_event(StoreEvent::Battery(50), u64::MAX, &mut store);
    recorder.on_event(StoreEvent::Crank(2), 0, &mut store);
    assert_eq!(
        store.peek_latest(),
        Some(DataPoint {
            crank_revs: Some(2),
            gps_unix_time: Some(77),
            sensor_battery: Some(50),
            ..point(0)
        })
    );
    recorder.on_event(place, 0, &mut store);
    recorder.on_event(StoreEvent::Crank(3), 0, &mut store);
    assert_eq!(store.peek_latest().unwrap().lon, Some(2));
}

#[test]
fn the_uptime_on_the_wire_wraps() {
    assert_eq!(uptime_ms(0), 0);
    assert_eq!(uptime_ms(TICK_HZ + TICK_HZ / 2), 1500);
    // 2^32 ms are 4294967.296 s.
    assert_eq!(uptime_ms(4_294_967 * TICK_HZ), 4_294_967_000);
    assert_eq!(uptime_ms(4_294_968 * TICK_HZ), 704);
}
