//! The wire format shared by the recorder and the phone app.
use crate::bytes;
use vstd::prelude::*;

verus! {

pub const SERVICE_UUID: &'static str = "bece0001-ede4-4b59-8c60-1ee44d963a05";

/// Notify: streams data points during a ride.
pub const STREAM_CHAR_UUID: &'static str = "bece0002-ede4-4b59-8c60-1ee44d963a05";

/// Read: current device and sensor status snapshot.
pub const STATUS_CHAR_UUID: &'static str = "bece0003-ede4-4b59-8c60-1ee44d963a05";

/// Write: the phone sends the current unix time.
pub const TIME_SYNC_CHAR_UUID: &'static str = "bece0004-ede4-4b59-8c60-1ee44d963a05";

/// Wire-format version, byte 0 of every packed `DataPoint` and `DeviceStatus`. It is bumped on
/// any incompatible change of a layout; unpacking rejects a buffer with another version, so a
/// firmware and an app built from different revisions fail closed instead of misreading bytes.
pub const PROTOCOL_VERSION: u8 = 1;

/// What stands for a missing coordinate.
pub const COORD_NONE: i32 = i32::MIN;

#[derive(Clone, Copy, Debug, PartialEq, Eq, Structural)]
pub enum BatteryState {
    Charging,
    Discharging,
}

#[derive(Clone, Copy, Debug, PartialEq, Eq, Structural)]
pub struct BatteryStatus {
    pub percent: u8,
    pub state: BatteryState,
}

/// Snapshot of the device, read by the phone.
///
/// Wire format (5 bytes, fixed):
///   `[version u8][mcu_percent u8][mcu_state u8][flags u8][sensor_battery u8]`
///   flags: bit 0 = sensor_connected, bit 1 = sensor_battery present
#[derive(Clone, Copy, Debug, PartialEq, Eq, Structural)]
pub struct DeviceStatus {
    pub mcu_battery: BatteryStatus,
    pub sensor_connected: bool,
    /// Sensor battery percent. None if the sensor is not connected or the level unknown.
    pub sensor_battery: Option<u8>,
}

/// A single telemetry sample: a raw event, with no interpretation on the device.
///
/// Wire format (little-endian, fixed 25 bytes):
///   `[version u8][uptime_ms u32][unix_millis u64][lat i32][lon i32][crank_revs u16]
///   [crank_event_time u16]`
/// Sentinels for the optionals: unix_millis == 0 means None; lat/lon == `i32::MIN` means None.
#[derive(Clone, Copy, Debug, PartialEq, Eq, Structural)]
pub struct DataPoint {
    /// Monotonic clock at capture (ms since boot). Wraps as a u32 (about 49.7 days).
    pub uptime_ms: u32,
    /// The wall-clock estimate, once the device has an anchor.
    pub unix_millis: Option<u64>,
    pub lat_microdeg: Option<i32>,
    pub lon_microdeg: Option<i32>,
    /// Cumulative crank revolutions.
    pub crank_revs: u16,
    /// The sensor's own timestamp of the last crank revolution, 1/1024 s, wraps every 64 s.
    pub crank_event_time: u16,
}

impl BatteryState {
    /// The state's byte on the wire.
    pub open spec fn code(self) -> u8 {
        match self {
            BatteryState::Charging => 0,
            BatteryState::Discharging => 1,
        }
    }
}

impl DeviceStatus {
    /// The flags byte.
    pub open spec fn flags(self) -> u8 {
        match (self.sensor_connected, self.sensor_battery is Some) {
            (false, false) => 0,
            (true, false) => 1,
            (false, true) => 2,
            (true, true) => 3,
        }
    }

    /// The packed status.
    pub open spec fn wire(self) -> Seq<u8> {
        seq![
            PROTOCOL_VERSION,
            self.mcu_battery.percent,
            self.mcu_battery.state.code(),
            self.flags(),
            match self.sensor_battery {
                Some(level) => level,
                None => 0xFF,
            },
        ]
    }

    /// The status that a buffer stands for, if it stands for one. The flag bits other than the
    /// two in use, the level byte of an absent level, and bytes past the fifth are not looked at.
    pub open spec fn parse(b: Seq<u8>) -> Option<DeviceStatus> {
        if b.len() < 5 || b[0] != PROTOCOL_VERSION || b[2] > 1 {
            None
        } else {
            Some(
                DeviceStatus {
                    mcu_battery: BatteryStatus {
                        percent: b[1],
                        state: if b[2] == 0 {
                            BatteryState::Charging
                        } else {
                            BatteryState::Discharging
                        },
                    },
                    sensor_connected: b[3] % 2 == 1,
                    sensor_battery: if b[3] / 2 % 2 == 1 {
                        Some(b[4])
                    } else {
                        None
                    },
                },
            )
        }
    }

    pub fn pack(&self) -> (r: [u8; 5])
        ensures
            r@ == self.wire(),
    {
        let mut flags: u8 = 0;
        if self.sensor_connected {
            flags = flags + 0x01;
        }
        if self.sensor_battery.is_some() {
            flags = flags + 0x02;
        }
        let state: u8 = match self.mcu_battery.state {
            BatteryState::Charging => 0,
            BatteryState::Discharging => 1,
        };
        let level: u8 = match self.sensor_battery {
            Some(level) => level,
            None => 0xFF,
        };
        let r: [u8; 5] = [PROTOCOL_VERSION, self.mcu_battery.percent, state, flags, level];
        assert(r@ =~= self.wire());
        r
    }

    pub fn unpack(bytes: &[u8]) -> (r: Option<DeviceStatus>)
        ensures
            r == DeviceStatus::parse(bytes@),
    {
        if bytes.len() < 5 || bytes[0] != PROTOCOL_VERSION {
            return None;
        }
        let state = match bytes[2] {
            0 => BatteryState::Charging,
            1 => BatteryState::Discharging,
            _ => return None,
        };
        let flags = bytes[3];
        proof {
            assert(flags & 0x01 == flags % 2) by (bit_vector);
            assert(flags & 0x02 == 2 * (flags / 2 % 2)) by (bit_vector);
        }
        Some(
            DeviceStatus {
                mcu_battery: BatteryStatus { percent: bytes[1], state },
                sensor_connected: flags & 0x01 != 0,
                sensor_battery: if flags & 0x02 != 0 {
                    Some(bytes[4])
                } else {
                    None
                },
            },
        )
    }
}

/// The number that stands for an optional coordinate.
pub open spec fn coord(c: Option<i32>) -> int {
    match c {
        Some(x) => x as int,
        None => COORD_NONE as int,
    }
}

/// The coordinate that a number stands for.
pub open spec fn coord_from(x: int) -> Option<i32> {
    if x == COORD_NONE {
        None
    } else {
        Some(x as i32)
    }
}

/// The number that stands for an optional wall-clock time.
pub open spec fn unix(t: Option<u64>) -> nat {
    match t {
        Some(ms) => ms as nat,
        None => 0,
    }
}

/// The wall-clock time that a number stands for.
pub open spec fn unix_from(x: nat) -> Option<u64> {
    if x == 0 {
        None
    } else {
        Some(x as u64)
    }
}

impl DataPoint {
    /// The packed point.
    pub open spec fn wire(self) -> Seq<u8> {
        seq![PROTOCOL_VERSION] + bytes::le(self.uptime_ms as nat, 4) + bytes::le(
            unix(self.unix_millis),
            8,
        ) + bytes::le(bytes::twos32(coord(self.lat_microdeg)), 4) + bytes::le(
            bytes::twos32(coord(self.lon_microdeg)),
            4,
        ) + bytes::le(self.crank_revs as nat, 2) + bytes::le(self.crank_event_time as nat, 2)
    }

    /// The point that a buffer stands for, if it stands for one. Bytes past the 25th are not
    /// looked at.
    pub open spec fn parse(b: Seq<u8>) -> Option<DataPoint> {
        if b.len() < 25 || b[0] != PROTOCOL_VERSION {
            None
        } else {
            Some(
                DataPoint {
                    uptime_ms: bytes::le_value(b.subrange(1, 5)) as u32,
                    unix_millis: unix_from(bytes::le_value(b.subrange(5, 13))),
                    lat_microdeg: coord_from(
                        bytes::signed32(bytes::le_value(b.subrange(13, 17))),
                    ),
                    lon_microdeg: coord_from(
                        bytes::signed32(bytes::le_value(b.subrange(17, 21))),
                    ),
                    crank_revs: bytes::le_value(b.subrange(21, 23)) as u16,
                    crank_event_time: bytes::le_value(b.subrange(23, 25)) as u16,
                },
            )
        }
    }

    pub fn pack(&self) -> (r: [u8; 25])
        ensures
            r@ == self.wire(),
    {
        let up = bytes::le32(self.uptime_ms);
        let unix = bytes::le64(
            match self.unix_millis {
                Some(ms) => ms,
                None => 0,
            },
        );
        let lat = bytes::le32(
            bytes::to_twos32(
                match self.lat_microdeg {
                    Some(lat) => lat,
                    None => COORD_NONE,
                },
            ),
        );
        let lon = bytes::le32(
            bytes::to_twos32(
                match self.lon_microdeg {
                    Some(lon) => lon,
                    None => COORD_NONE,
                },
            ),
        );
        let revs = bytes::le16(self.crank_revs);
        let event = bytes::le16(self.crank_event_time);
        let r: [u8; 25] = [
            PROTOCOL_VERSION,
            up[0],
            up[1],
            up[2],
            up[3],
            unix[0],
            unix[1],
            unix[2],
            unix[3],
            unix[4],
            unix[5],
            unix[6],
            unix[7],
            lat[0],
            lat[1],
            lat[2],
            lat[3],
            lon[0],
            lon[1],
            lon[2],
            lon[3],
            revs[0],
            revs[1],
            event[0],
            event[1],
        ];
        assert(r@ =~= self.wire());
        r
    }

    pub fn unpack(bytes: &[u8]) -> (r: Option<DataPoint>)
        ensures
            r == DataPoint::parse(bytes@),
    {
        if bytes.len() < 25 || bytes[0] != PROTOCOL_VERSION {
            return None;
        }
        let unix = bytes::read64(bytes, 5);
        let lat = bytes::from_twos32(bytes::read32(bytes, 13));
        let lon = bytes::from_twos32(bytes::read32(bytes, 17));
        proof {
            assert(bytes@.subrange(21, 23) =~= seq![bytes@[21], bytes@[22]]);
            assert(bytes@.subrange(23, 25) =~= seq![bytes@[23], bytes@[24]]);
        }
        Some(
            DataPoint {
                uptime_ms: bytes::read32(bytes, 1),
                unix_millis: if unix != 0 {
                    Some(unix)
                } else {
                    None
                },
                lat_microdeg: if lat != COORD_NONE {
                    Some(lat)
                } else {
                    None
                },
                lon_microdeg: if lon != COORD_NONE {
                    Some(lon)
                } else {
                    None
                },
                crank_revs: bytes::read16(bytes[21], bytes[22]),
                crank_event_time: bytes::read16(bytes[23], bytes[24]),
            },
        )
    }
}

/// Where each field of a packed point stands.
proof fn lemma_wire_fields(p: DataPoint)
    ensures
        ({
            let w = p.wire();
            &&& w.len() == 25
            &&& w[0] == PROTOCOL_VERSION
            &&& w.subrange(1, 5) == bytes::le(p.uptime_ms as nat, 4)
            &&& w.subrange(5, 13) == bytes::le(unix(p.unix_millis), 8)
            &&& w.subrange(13, 17) == bytes::le(bytes::twos32(coord(p.lat_microdeg)), 4)
            &&& w.subrange(17, 21) == bytes::le(bytes::twos32(coord(p.lon_microdeg)), 4)
            &&& w.subrange(21, 23) == bytes::le(p.crank_revs as nat, 2)
            &&& w.subrange(23, 25) == bytes::le(p.crank_event_time as nat, 2)
        }),
{
    let w = p.wire();
    bytes::lemma_le_len(p.uptime_ms as nat, 4);
    bytes::lemma_le_len(unix(p.unix_millis), 8);
    bytes::lemma_le_len(bytes::twos32(coord(p.lat_microdeg)), 4);
    bytes::lemma_le_len(bytes::twos32(coord(p.lon_microdeg)), 4);
    bytes::lemma_le_len(p.crank_revs as nat, 2);
    bytes::lemma_le_len(p.crank_event_time as nat, 2);
    assert(w.subrange(1, 5) =~= bytes::le(p.uptime_ms as nat, 4));
    assert(w.subrange(5, 13) =~= bytes::le(unix(p.unix_millis), 8));
    assert(w.subrange(13, 17) =~= bytes::le(bytes::twos32(coord(p.lat_microdeg)), 4));
    assert(w.subrange(17, 21) =~= bytes::le(bytes::twos32(coord(p.lon_microdeg)), 4));
    assert(w.subrange(21, 23) =~= bytes::le(p.crank_revs as nat, 2));
    assert(w.subrange(23, 25) =~= bytes::le(p.crank_event_time as nat, 2));
}

/// Unpacking a packed point gives the point back, for every point whose fields do not carry a
/// sentinel as a value. A field that does comes back as None.
pub proof fn law_data_point_roundtrip(p: DataPoint)
    ensures
        DataPoint::parse(p.wire()) == Some(
            DataPoint {
                unix_millis: unix_from(unix(p.unix_millis)),
                lat_microdeg: coord_from(coord(p.lat_microdeg)),
                lon_microdeg: coord_from(coord(p.lon_microdeg)),
                ..p
            },
        ),
        p.unix_millis != Some(0u64) && p.lat_microdeg != Some(COORD_NONE) && p.lon_microdeg != Some(
            COORD_NONE,
        ) ==> DataPoint::parse(p.wire()) == Some(p),
{
    lemma_wire_fields(p);
    bytes::lemma_byte_ranges();
    bytes::law_le_roundtrip(p.uptime_ms as nat, 4);
    bytes::law_le_roundtrip(unix(p.unix_millis), 8);
    bytes::law_le_roundtrip(bytes::twos32(coord(p.lat_microdeg)), 4);
    bytes::law_le_roundtrip(bytes::twos32(coord(p.lon_microdeg)), 4);
    bytes::law_le_roundtrip(p.crank_revs as nat, 2);
    bytes::law_le_roundtrip(p.crank_event_time as nat, 2);
}

/// Packing an unpacked point gives the buffer's first 25 bytes back, for every buffer that is
/// accepted: no two layouts stand for the same point.
pub proof fn law_data_point_bytes_roundtrip(b: Seq<u8>)
    requires
        DataPoint::parse(b) is Some,
    ensures
        DataPoint::parse(b)->0.wire() == b.take(25),
{
    let p = DataPoint::parse(b)->0;
    bytes::lemma_byte_ranges();
    bytes::law_le_value_roundtrip(b.subrange(1, 5));
    bytes::law_le_value_roundtrip(b.subrange(5, 13));
    bytes::law_le_value_roundtrip(b.subrange(13, 17));
    bytes::law_le_value_roundtrip(b.subrange(17, 21));
    bytes::law_le_value_roundtrip(b.subrange(21, 23));
    bytes::law_le_value_roundtrip(b.subrange(23, 25));
    assert(p.wire() =~= b.take(25));
}

/// Only the first 25 bytes of a buffer count.
pub proof fn law_data_point_ignores_the_rest(b: Seq<u8>, rest: Seq<u8>)
    requires
        b.len() >= 25,
    ensures
        DataPoint::parse(b + rest) == DataPoint::parse(b),
{
    let c = b + rest;
    assert(c.subrange(1, 5) =~= b.subrange(1, 5));
    assert(c.subrange(5, 13) =~= b.subrange(5, 13));
    assert(c.subrange(13, 17) =~= b.subrange(13, 17));
    assert(c.subrange(17, 21) =~= b.subrange(17, 21));
    assert(c.subrange(21, 23) =~= b.subrange(21, 23));
    assert(c.subrange(23, 25) =~= b.subrange(23, 25));
}

/// Fail closed: a buffer whose version byte is another revision's, or that is too short, stands
/// for nothing; every other buffer of 25 bytes stands for a point.
pub proof fn law_data_point_fails_closed(b: Seq<u8>)
    ensures
        DataPoint::parse(b) is None <==> b.len() < 25 || b[0] != PROTOCOL_VERSION,
{
}

/// Unpacking a packed status gives the status back, whatever it holds.
pub proof fn law_device_status_roundtrip(s: DeviceStatus)
    ensures
        DeviceStatus::parse(s.wire()) == Some(s),
{
}

/// Packing an unpacked status gives the buffer back where its spare bits are as `pack` leaves
/// them: the six unused flags are zero, and the level byte of an absent level is 0xFF.
pub proof fn law_device_status_bytes_roundtrip(b: Seq<u8>)
    requires
        DeviceStatus::parse(b) is Some,
        b[3] < 4,
        b[3] < 2 ==> b[4] == 0xFF,
    ensures
        DeviceStatus::parse(b)->0.wire() == b.take(5),
{
    assert(DeviceStatus::parse(b)->0.wire() =~= b.take(5));
}

/// Only the first five bytes of a buffer count.
pub proof fn law_device_status_ignores_the_rest(b: Seq<u8>, rest: Seq<u8>)
    requires
        b.len() >= 5,
    ensures
        DeviceStatus::parse(b + rest) == DeviceStatus::parse(b),
{
}

/// Fail closed: a buffer that is too short, that is another revision's or whose battery state is
/// unknown stands for nothing; every other one stands for a status.
pub proof fn law_device_status_fails_closed(b: Seq<u8>)
    ensures
        DeviceStatus::parse(b) is None <==> b.len() < 5 || b[0] != PROTOCOL_VERSION || b[2] > 1,
{
}

/// The protocol revision, for the phone.
pub fn protocol_version() -> (r: u8)
    ensures
        r == PROTOCOL_VERSION,
{
    PROTOCOL_VERSION
}

pub fn service_uuid() -> (r: String)
    ensures
        r@ == SERVICE_UUID@,
{
    SERVICE_UUID.to_string()
}

pub fn stream_char_uuid() -> (r: String)
    ensures
        r@ == STREAM_CHAR_UUID@,
{
    STREAM_CHAR_UUID.to_string()
}

pub fn status_char_uuid() -> (r: String)
    ensures
        r@ == STATUS_CHAR_UUID@,
{
    STATUS_CHAR_UUID.to_string()
}

pub fn time_sync_char_uuid() -> (r: String)
    ensures
        r@ == TIME_SYNC_CHAR_UUID@,
{
    TIME_SYNC_CHAR_UUID.to_string()
}

pub fn unpack_data_point(bytes: Vec<u8>) -> (r: Option<DataPoint>)
    ensures
        r == DataPoint::parse(bytes@),
{
    DataPoint::unpack(bytes.as_slice())
}

pub fn unpack_device_status(bytes: Vec<u8>) -> (r: Option<DeviceStatus>)
    ensures
        r == DeviceStatus::parse(bytes@),
{
    DeviceStatus::unpack(bytes.as_slice())
}

/// Where every byte of a packed point comes from: the version, then the uptime, the wall-clock
/// time, the two coordinates in two's complement, the revolutions and their time, each low byte
/// first. A missing time is sent as zero and a missing coordinate as the smallest number.
pub proof fn law_data_point_layout(p: DataPoint)
    ensures
        ({
            let w = p.wire();
            let coordinate = |c: Option<i32>| match c {
                Some(x) => if x < 0 { x + 0x1_0000_0000 } else { x as int },
                None => 0x8000_0000,
            };
            &&& w.len() == 25
            &&& w[0] == 1
            &&& bytes::word32(w, 1) == p.uptime_ms
            &&& bytes::word32(w, 5) + 0x1_0000_0000 * bytes::word32(w, 9) == (match p.unix_millis {
                Some(ms) => ms as int,
                None => 0,
            })
            &&& bytes::word32(w, 13) == coordinate(p.lat_microdeg)
            &&& bytes::word32(w, 17) == coordinate(p.lon_microdeg)
            &&& bytes::word16(w, 21) == p.crank_revs
            &&& bytes::word16(w, 23) == p.crank_event_time
        }),
{
    let w = p.wire();
    lemma_wire_fields(p);
    bytes::lemma_byte_ranges();
    bytes::law_le_roundtrip(p.uptime_ms as nat, 4);
    bytes::law_le_roundtrip(unix(p.unix_millis), 8);
    bytes::law_le_roundtrip(bytes::twos32(coord(p.lat_microdeg)), 4);
    bytes::law_le_roundtrip(bytes::twos32(coord(p.lon_microdeg)), 4);
    bytes::law_le_roundtrip(p.crank_revs as nat, 2);
    bytes::law_le_roundtrip(p.crank_event_time as nat, 2);
    bytes::lemma_words(w, 1);
    bytes::lemma_words(w, 5);
    bytes::lemma_words(w, 13);
    bytes::lemma_words(w, 17);
    bytes::lemma_words(w, 21);
    bytes::lemma_words(w, 23);
}

/// What the phone reads off a buffer: each field is the number that its own bytes weigh, a time of
/// zero and a coordinate of 0x8000_0000 are none, and a coordinate from there on is negative.
pub proof fn law_data_point_is_read_off(b: Seq<u8>)
    ensures
        DataPoint::parse(b) is Some <==> b.len() >= 25 && b[0] == 1,
        DataPoint::parse(b) matches Some(p) ==> {
            let ms = bytes::word32(b, 5) + 0x1_0000_0000 * bytes::word32(b, 9);
            let reads = |c: Option<i32>, u: int| match c {
                None => u == 0x8000_0000,
                Some(x) => x == (if u < 0x8000_0000 { u } else { u - 0x1_0000_0000 }) && u
                    != 0x8000_0000,
            };
            &&& p.uptime_ms == bytes::word32(b, 1)
            &&& p.unix_millis is None <==> ms == 0
            &&& p.unix_millis matches Some(t) ==> t == ms
            &&& reads(p.lat_microdeg, bytes::word32(b, 13))
            &&& reads(p.lon_microdeg, bytes::word32(b, 17))
            &&& p.crank_revs == bytes::word16(b, 21)
            &&& p.crank_event_time == bytes::word16(b, 23)
        },
{
    bytes::lemma_words(b, 1);
    bytes::lemma_words(b, 5);
    bytes::lemma_words(b, 13);
    bytes::lemma_words(b, 17);
    bytes::lemma_words(b, 21);
    bytes::lemma_words(b, 23);
}

/// The five bytes of a status: the version, the percent as it is, the state with charging as zero,
/// a bit for the connection and one for the level, and the level or 255.
pub proof fn law_device_status_layout(s: DeviceStatus)
    ensures
        ({
            let w = s.wire();
            &&& w.len() == 5
            &&& w[0] == 1
            &&& w[1] == s.mcu_battery.percent
            &&& w[2] == 0 <==> s.mcu_battery.state == BatteryState::Charging
            &&& w[2] == 1 <==> s.mcu_battery.state == BatteryState::Discharging
            &&& w[3] == (if s.sensor_connected { 1int } else { 0 }) + (if s.sensor_battery is Some {
                2int
            } else {
                0
            })
            &&& s.sensor_battery matches Some(level) ==> w[4] == level
            &&& s.sensor_battery is None ==> w[4] == 255
        }),
{
}

/// What the phone reads off a status: the percent as it is, the state that the third byte tells,
/// and the connection and the level by their bits, whatever the other bits of the flags are.
pub proof fn law_device_status_is_read_off(b: Seq<u8>)
    ensures
        DeviceStatus::parse(b) is Some <==> b.len() >= 5 && b[0] == 1 && (b[2] == 0 || b[2] == 1),
        DeviceStatus::parse(b) matches Some(s) ==> {
            &&& s.mcu_battery.percent == b[1]
            &&& s.mcu_battery.state == BatteryState::Charging <==> b[2] == 0
            &&& s.sensor_connected <==> b[3] % 2 == 1
            &&& s.sensor_battery == (if b[3] % 4 >= 2 { Some(b[4]) } else { None })
        },
{
}

/// The service and its characteristics are numbered: their UUIDs are one text but for its eighth
/// character, which counts from the service on.
pub proof fn law_uuids_are_numbered()
    ensures
        SERVICE_UUID@ == "bece0001-ede4-4b59-8c60-1ee44d963a05"@,
        STREAM_CHAR_UUID@ == SERVICE_UUID@.update(7, '2'),
        STATUS_CHAR_UUID@ == SERVICE_UUID@.update(7, '3'),
        TIME_SYNC_CHAR_UUID@ == SERVICE_UUID@.update(7, '4'),
        SERVICE_UUID@.len() == 36,
        SERVICE_UUID@[7] == '1',
{
    reveal_strlit("bece0001-ede4-4b59-8c60-1ee44d963a05");
    reveal_strlit("bece0002-ede4-4b59-8c60-1ee44d963a05");
    reveal_strlit("bece0003-ede4-4b59-8c60-1ee44d963a05");
    reveal_strlit("bece0004-ede4-4b59-8c60-1ee44d963a05");
    assert(STREAM_CHAR_UUID@ =~= SERVICE_UUID@.update(7, '2'));
    assert(STATUS_CHAR_UUID@ =~= SERVICE_UUID@.update(7, '3'));
    assert(TIME_SYNC_CHAR_UUID@ =~= SERVICE_UUID@.update(7, '4'));
}

} // verus!
