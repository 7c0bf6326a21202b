use voop::protocol::{
    protocol_version, service_uuid, status_char_uuid, stream_char_uuid, time_sync_char_uuid,
    unpack_data_point, unpack_device_status, BatteryState, BatteryStatus, DataPoint, DeviceStatus,
    COORD_NONE, PROTOCOL_VERSION,
};

fn assert_eq_point(a: DataPoint, b: DataPoint) {
    assert_eq!(a.uptime_ms, b.uptime_ms);
    assert_eq!(a.unix_millis, b.unix_millis);
    assert_eq!(a.lat_microdeg, b.lat_microdeg);
    assert_eq!(a.lon_microdeg, b.lon_microdeg);
    assert_eq!(a.crank_revs, b.crank_revs);
    assert_eq!(a.crank_event_time, b.crank_event_time);
}

#[test]
fn roundtrips_anchored_point_with_coords() {
    let dp = DataPoint {
        uptime_ms: 1_805_000,
        unix_millis: Some(1_782_714_859_321),
        lat_microdeg: Some(57_705_670),
        lon_microdeg: Some(11_940_034),
        crank_revs: 42,
        crank_event_time: 50_123,
    };
    assert_eq!(dp.pack().len(), 25);
    assert_eq!(dp.pack()[0], PROTOCOL_VERSION);
    assert_eq_point(dp, DataPoint::unpack(&dp.pack()).expect("unpack"));
}

#[test]
fn roundtrips_pre_sync_point_without_unix_or_coords() {
    // Before any time sync and before a GPS fix: only the raw uptime + crank fields.
    let dp = DataPoint {
        uptime_ms: 32_832,
        unix_millis: None,
        lat_microdeg: None,
        lon_microdeg: None,
        crank_revs: 7,
        crank_event_time: 9_001,
    };
    let packed = dp.pack();
    assert_eq!(u64::from_le_bytes(packed[5..13].try_into().unwrap()), 0); // unix sentinel
    assert_eq!(i32::from_le_bytes(packed[13..17].try_into().unwrap()), i32::MIN); // lat sentinel
    assert_eq_point(dp, DataPoint::unpack(&packed).expect("unpack"));
}

#[test]
fn unpack_rejects_short_buffers() {
    assert!(DataPoint::unpack(&[0u8; 24]).is_none());
}

#[test]
fn unpack_rejects_mismatched_version() {
    let dp = DataPoint {
        uptime_ms: 1,
        unix_millis: None,
        lat_microdeg: None,
        lon_microdeg: None,
        crank_revs: 0,
        crank_event_time: 0,
    };
    let mut packed = dp.pack();
    packed[0] = PROTOCOL_VERSION.wrapping_add(1); // a different protocol revision
    assert!(DataPoint::unpack(&packed).is_none());
}

// The golden tests pin the exact wire bytes. If one fails, the layout changed: bump
// PROTOCOL_VERSION and update the bytes here; never ship a layout change without a bump.
#[test]
fn data_point_golden_bytes() {
    let dp = DataPoint {
        uptime_ms: 0x0102_0304,
        unix_millis: Some(0x1112_1314_1516_1718),
        lat_microdeg: Some(0x2122_2324),
        lon_microdeg: Some(-2),
        crank_revs: 0x3132,
        crank_event_time: 0x4142,
    };
    let expected: [u8; 25] = [
        1, // version
        0x04, 0x03, 0x02, 0x01, // uptime_ms LE
        0x18, 0x17, 0x16, 0x15, 0x14, 0x13, 0x12, 0x11, // unix_millis LE
        0x24, 0x23, 0x22, 0x21, // lat LE
        0xFE, 0xFF, 0xFF, 0xFF, // lon = -2 LE
        0x32, 0x31, // crank_revs LE
        0x42, 0x41, // crank_event_time LE
    ];
    assert_eq!(dp.pack(), expected);
}

#[test]
fn device_status_golden_bytes() {
    let ds = DeviceStatus {
        mcu_battery: BatteryStatus { percent: 85, state: BatteryState::Discharging },
        sensor_connected: true,
        sensor_battery: Some(72),
    };
    assert_eq!(ds.pack(), [1, 85, 1, 0x03, 72]);
}

#[test]
fn device_status_roundtrips() {
    let ds = DeviceStatus {
        mcu_battery: BatteryStatus { percent: 42, state: BatteryState::Charging },
        sensor_connected: false,
        sensor_battery: None,
    };
    let back = DeviceStatus::unpack(&ds.pack()).expect("unpack");
    assert_eq!(back.mcu_battery, ds.mcu_battery);
    assert_eq!(back.sensor_connected, ds.sensor_connected);
    assert_eq!(back.sensor_battery, ds.sensor_battery);
}

#[test]
fn device_status_rejects_mismatched_version_and_short_buffers() {
    let ds = DeviceStatus {
        mcu_battery: BatteryStatus { percent: 1, state: BatteryState::Discharging },
        sensor_connected: true,
        sensor_battery: Some(9),
    };
    let mut packed = ds.pack();
    packed[0] = PROTOCOL_VERSION.wrapping_add(1);
    assert!(DeviceStatus::unpack(&packed).is_none());
    assert!(DeviceStatus::unpack(&ds.pack()[..4]).is_none());
}

#[test]
fn sentinels_come_back_as_nothing() {
    let dp = DataPoint {
        uptime_ms: u32::MAX,
        unix_millis: Some(0),
        lat_microdeg: Some(COORD_NONE),
        lon_microdeg: Some(-180_000_000),
        crank_revs: u16::MAX,
        crank_event_time: u16::MAX,
    };
    let back = DataPoint::unpack(&dp.pack()).expect("unpack");
    assert_eq!(back.unix_millis, None);
    assert_eq!(back.lat_microdeg, None);
    assert_eq!(back.lon_microdeg, Some(-180_000_000));
    assert_eq!(back.uptime_ms, u32::MAX);
}

#[test]
fn accepted_points_repack_to_their_first_bytes() {
    let mut buf: Vec<u8> = (0..40u8).map(|i| i.wrapping_mul(37)).collect();
    buf[0] = PROTOCOL_VERSION;
    let point = unpack_data_point(buf.clone()).expect("unpack");
    assert_eq!(point.pack()[..], buf[..25]);
    assert_eq!(unpack_data_point(buf[..25].to_vec()), Some(point));
}

#[test]
fn unknown_battery_state_is_rejected() {
    assert!(unpack_device_status(vec![1, 50, 2, 0, 0xFF]).is_none());
    assert!(unpack_device_status(vec![1, 50, 0, 0, 0xFF]).is_some());
}

#[test]
fn spare_status_bits_are_ignored() {
    let a = DeviceStatus::unpack(&[1, 50, 1, 0xFD, 33, 9, 9]).expect("unpack");
    assert!(a.sensor_connected);
    assert_eq!(a.sensor_battery, None);
    assert_eq!(a.pack(), [1, 50, 1, 0x01, 0xFF]);
}

#[test]
fn identifiers_share_a_base() {
    assert_eq!(protocol_version(), 1);
    for uuid in [service_uuid(), stream_char_uuid(), status_char_uuid(), time_sync_char_uuid()] {
        assert_eq!(uuid.len(), 36);
        assert!(uuid.ends_with("-ede4-4b59-8c60-1ee44d963a05"), "{}", uuid);
    }
    assert!(service_uuid().starts_with("bece0001"));
    assert_ne!(stream_char_uuid(), status_char_uuid());
    assert_ne!(status_char_uuid(), time_sync_char_uuid());
}
