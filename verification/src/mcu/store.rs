//! The ring buffer of data points, and the packing of a point for a BLE notification.
use crate::bytes;
use crate::ticks;
use vstd::prelude::*;

verus! {

/// How many points the ring buffer holds.
pub const CAPACITY: usize = 4096;

/// The most bytes that a packed point takes.
pub const PACKET_MAX: usize = 24;

#[derive(Clone, Copy, Debug, PartialEq, Eq, Structural)]
pub enum FixQuality {
    Autonomous,
    Differential,
}

/// One sample of a ride.
#[derive(Clone, Copy, Debug, PartialEq, Eq, Structural)]
pub struct DataPoint {
    pub monotonic_ms: u32,
    pub crank_revs: Option<u16>,
    /// Microdegrees (divide by 1_000_000 for degrees).
    pub lat: Option<i32>,
    /// Microdegrees.
    pub lon: Option<i32>,
    pub fix_quality: Option<FixQuality>,
    /// Seconds since the epoch; set only when the GPS provides it.
    pub gps_unix_time: Option<u32>,
    /// Sensor battery, percent.
    pub sensor_battery: Option<u8>,
}

/// `heapless::Vec`, the packet under construction. Opaque; what it holds is named by `packet`.
#[verifier::external_type_specification]
#[verifier::external_body]
#[verifier::reject_recursive_types(T)]
pub struct ExHeaplessVec<T, const N: usize>(heapless::Vec<T, N>);

/// `heapless::Deque`, the ring buffer. Opaque; what it holds is named by `points`.
#[verifier::external_type_specification]
#[verifier::external_body]
#[verifier::reject_recursive_types(T)]
pub struct ExHeaplessDeque<T, const N: usize>(heapless::Deque<T, N>);

/// The bytes that a packet holds, in order.
pub uninterp spec fn packet(buf: heapless::Vec<u8, 24>) -> Seq<u8>;

/// The points that a ring buffer holds, oldest first.
pub uninterp spec fn points(buf: heapless::Deque<DataPoint, 4096>) -> Seq<DataPoint>;

/// `heapless::Vec::new`: an empty packet.
#[verifier::external_body]
fn packet_new() -> (r: heapless::Vec<u8, 24>)
    ensures
        packet(r) == Seq::<u8>::empty(),
{
    heapless::Vec::new()
}

/// `heapless::Vec::extend_from_slice`: appends all of `bytes`, or, where they do not all fit,
/// leaves the packet as it is and fails.
#[verifier::external_body]
fn packet_extend(buf: &mut heapless::Vec<u8, 24>, bytes: &[u8]) -> (r: bool)
    ensures
        r == (packet(*old(buf)).len() + bytes@.len() <= 24),
        packet(*final(buf)) == (if r { packet(*old(buf)) + bytes@ } else { packet(*old(buf)) }),
{
    buf.extend_from_slice(bytes).is_ok()
}

/// `heapless::Vec::push`: appends `byte`, or, where the packet is full, leaves it as it is and
/// fails.
#[verifier::external_body]
fn packet_push(buf: &mut heapless::Vec<u8, 24>, byte: u8) -> (r: bool)
    ensures
        r == (packet(*old(buf)).len() < 24),
        packet(*final(buf)) == (if r { packet(*old(buf)).push(byte) } else { packet(*old(buf)) }),
{
    buf.push(byte).is_ok()
}

/// `heapless::Deque::new`: an empty ring buffer.
#[verifier::external_body]
fn ring_new() -> (r: heapless::Deque<DataPoint, 4096>)
    ensures
        points(r) == Seq::<DataPoint>::empty(),
{
    heapless::Deque::new()
}

/// `heapless::Deque::is_full`: whether it holds as many points as it has room for. It never holds
/// more.
#[verifier::external_body]
fn ring_is_full(buf: &heapless::Deque<DataPoint, 4096>) -> (r: bool)
    ensures
        r == (points(*buf).len() == 4096),
        !r ==> points(*buf).len() < 4096,
{
    buf.is_full()
}

/// `heapless::Deque::pop_front`: takes the oldest point out, where there is one.
#[verifier::external_body]
fn ring_pop_front(buf: &mut heapless::Deque<DataPoint, 4096>) -> (r: Option<DataPoint>)
    ensures
        r is Some <==> points(*old(buf)).len() > 0,
        r matches Some(p) ==> p == points(*old(buf)).first(),
        points(*final(buf)) == (if r is Some {
            points(*old(buf)).drop_first()
        } else {
            points(*old(buf))
        }),
{
    buf.pop_front()
}

/// `heapless::Deque::push_back`: adds a newest point, or, where the buffer is full, leaves it as
/// it is and fails.
#[verifier::external_body]
fn ring_push_back(buf: &mut heapless::Deque<DataPoint, 4096>, point: DataPoint) -> (r: bool)
    ensures
        r == (points(*old(buf)).len() < 4096),
        points(*final(buf)) == (if r {
            points(*old(buf)).push(point)
        } else {
            points(*old(buf))
        }),
{
    buf.push_back(point).is_ok()
}

/// `heapless::Deque::back`: the newest point, where there is one.
#[verifier::external_body]
fn ring_back(buf: &heapless::Deque<DataPoint, 4096>) -> (r: Option<DataPoint>)
    ensures
        r is Some <==> points(*buf).len() > 0,
        r matches Some(p) ==> p == points(*buf).last(),
{
    buf.back().copied()
}

/// `heapless::Deque::pop_back`: takes the newest point out, where there is one.
#[verifier::external_body]
fn ring_pop_back(buf: &mut heapless::Deque<DataPoint, 4096>) -> (r: Option<DataPoint>)
    ensures
        r is Some <==> points(*old(buf)).len() > 0,
        r matches Some(p) ==> p == points(*old(buf)).last(),
        points(*final(buf)) == (if r is Some {
            points(*old(buf)).drop_last()
        } else {
            points(*old(buf))
        }),
{
    buf.pop_back()
}

/// What stands for an optional field: its bytes, or nothing.
pub open spec fn optional(present: bool, bytes: Seq<u8>) -> Seq<u8> {
    if present {
        bytes
    } else {
        Seq::empty()
    }
}

pub open spec fn bit(set: bool, value: u8) -> int {
    if set {
        value as int
    } else {
        0
    }
}

impl DataPoint {
    /// The flags byte: 0x01 = crank, 0x02 = lat and lon, 0x04 = GPS time, 0x08 = battery,
    /// 0x10 = differential fix.
    pub open spec fn flags(self) -> int {
        bit(self.crank_revs is Some, 0x01) + bit(self.lat is Some, 0x02) + bit(
            self.gps_unix_time is Some,
            0x04,
        ) + bit(self.sensor_battery is Some, 0x08) + bit(
            self.fix_quality == Some(FixQuality::Differential),
            0x10,
        )
    }

    /// The longitude that goes with a latitude on the wire.
    pub open spec fn wire_lon(self) -> int {
        match self.lon {
            Some(lon) => lon as int,
            None => 0,
        }
    }

    /// The packed point:
    /// `[monotonic_ms u64][flags u8][crank_revs u16?][lat i32?][lon i32?][gps_unix_time u32?]
    /// [sensor_battery u8?]`, integers little-endian.
    pub open spec fn wire(self) -> Seq<u8> {
        bytes::le(self.monotonic_ms as nat, 8) + seq![self.flags() as u8] + optional(
            self.crank_revs is Some,
            bytes::le(self.crank_revs->0 as nat, 2),
        ) + optional(
            self.lat is Some,
            bytes::le(bytes::twos32(self.lat->0 as int), 4) + bytes::le(bytes::twos32(self.wire_lon()), 4),
        ) + optional(self.gps_unix_time is Some, bytes::le(self.gps_unix_time->0 as nat, 4)) + optional(
            self.sensor_battery is Some,
            seq![self.sensor_battery->0],
        )
    }

    /// Packs the point for a BLE notification (at most `PACKET_MAX` bytes).
    pub fn pack(&self) -> (r: heapless::Vec<u8, 24>)
        ensures
            packet(r) == self.wire(),
            packet(r).len() <= PACKET_MAX,
    {
        let mut buf = packet_new();
        let clock = bytes::le64(self.monotonic_ms as u64);
        let _ = packet_extend(&mut buf, clock.as_slice());

        let mut flags: u8 = 0;
        if self.crank_revs.is_some() {
            flags = flags + 0x01;
        }
        if self.lat.is_some() {
            flags = flags + 0x02;
        }
        if self.gps_unix_time.is_some() {
            flags = flags + 0x04;
        }
        if self.sensor_battery.is_some() {
            flags = flags + 0x08;
        }
        if let Some(FixQuality::Differential) = self.fix_quality {
            flags = flags + 0x10;
        }
        let _ = packet_push(&mut buf, flags);

        if let Some(revs) = self.crank_revs {
            let b = bytes::le16(revs);
            let _ = packet_extend(&mut buf, b.as_slice());
        }
        if let Some(lat) = self.lat {
            let b = bytes::le32(bytes::to_twos32(lat));
            let _ = packet_extend(&mut buf, b.as_slice());
            let lon = match self.lon {
                Some(lon) => lon,
                None => 0,
            };
            let b = bytes::le32(bytes::to_twos32(lon));
            let _ = packet_extend(&mut buf, b.as_slice());
        }
        if let Some(t) = self.gps_unix_time {
            let b = bytes::le32(t);
            let _ = packet_extend(&mut buf, b.as_slice());
        }
        if let Some(bat) = self.sensor_battery {
            let _ = packet_push(&mut buf, bat);
        }
        assert(packet(buf) =~= self.wire());
        buf
    }
}

/// Equal little-endian strings stand for equal numbers.
proof fn lemma_le_injective(x: nat, y: nat, n: nat)
    requires
        x < bytes::byte_range(n),
        y < bytes::byte_range(n),
        bytes::le(x, n) == bytes::le(y, n),
    ensures
        x == y,
{
    bytes::law_le_roundtrip(x, n);
    bytes::law_le_roundtrip(y, n);
}

/// The packed bytes tell the points apart: two points that pack alike agree on the clock, on the
/// crank count, on the position (where the longitude goes with a latitude), on the GPS time, on
/// the battery and on whether the fix is differential.
pub proof fn law_wire_is_unambiguous(a: DataPoint, b: DataPoint)
    requires
        a.wire() == b.wire(),
    ensures
        a.monotonic_ms == b.monotonic_ms,
        a.crank_revs == b.crank_revs,
        a.lat == b.lat,
        a.lat is Some ==> a.wire_lon() == b.wire_lon(),
        a.gps_unix_time == b.gps_unix_time,
        a.sensor_battery == b.sensor_battery,
        a.fix_quality == Some(FixQuality::Differential) <==> b.fix_quality == Some(
            FixQuality::Differential,
        ),
{
    bytes::lemma_byte_ranges();
    lemma_wire_fields(a);
    lemma_wire_fields(b);
    lemma_le_injective(a.monotonic_ms as nat, b.monotonic_ms as nat, 8);
    assert(a.flags() == b.flags());
    if a.crank_revs is Some {
        lemma_le_injective(a.crank_revs->0 as nat, b.crank_revs->0 as nat, 2);
    }
    if a.lat is Some {
        lemma_le_injective(bytes::twos32(a.lat->0 as int), bytes::twos32(b.lat->0 as int), 4);
        lemma_le_injective(bytes::twos32(a.wire_lon()), bytes::twos32(b.wire_lon()), 4);
    }
    if a.gps_unix_time is Some {
        lemma_le_injective(a.gps_unix_time->0 as nat, b.gps_unix_time->0 as nat, 4);
    }
}

/// Where every byte of a packed point comes from. The clock takes the first eight, low byte
/// first, and the ninth says which of the fields follow: the revolutions, the position as two
/// numbers in two's complement, the time and the battery, in this order and with nothing between
/// them. A position without a longitude is sent with a longitude of zero.
pub proof fn law_packed_layout(p: DataPoint)
    ensures
        ({
            let w = p.wire();
            let signed = |x: int| if x < 0 { x + 0x1_0000_0000 } else { x };
            let at_lat = if p.crank_revs is Some { 11int } else { 9 };
            let at_time = if p.lat is Some { at_lat + 8 } else { at_lat };
            let at_battery = if p.gps_unix_time is Some { at_time + 4 } else { at_time };
            &&& bytes::word32(w, 0) == p.monotonic_ms && bytes::word32(w, 4) == 0
            &&& w[8] == (if p.crank_revs is Some { 1int } else { 0 }) + (if p.lat is Some {
                2int
            } else {
                0
            }) + (if p.gps_unix_time is Some { 4int } else { 0 }) + (if p.sensor_battery is Some {
                8int
            } else {
                0
            }) + (if p.fix_quality == Some(FixQuality::Differential) { 16int } else { 0 })
            &&& p.crank_revs matches Some(revs) ==> bytes::word16(w, 9) == revs
            &&& p.lat matches Some(lat) ==> bytes::word32(w, at_lat) == signed(lat as int)
            &&& p.lat is Some ==> bytes::word32(w, at_lat + 4) == (match p.lon {
                Some(lon) => signed(lon as int),
                None => 0,
            })
            &&& p.gps_unix_time matches Some(t) ==> bytes::word32(w, at_time) == t
            &&& p.sensor_battery matches Some(bat) ==> w[at_battery] == bat
            &&& w.len() == (if p.sensor_battery is Some { at_battery + 1 } else { at_battery })
        }),
{
    let w = p.wire();
    let at_lat = if p.crank_revs is Some { 11int } else { 9 };
    let at_time = if p.lat is Some { at_lat + 8 } else { at_lat };
    bytes::lemma_byte_ranges();
    lemma_wire_fields(p);
    bytes::law_le_roundtrip(p.monotonic_ms as nat, 8);
    bytes::lemma_words(w, 0);
    if let Some(revs) = p.crank_revs {
        bytes::law_le_roundtrip(revs as nat, 2);
        bytes::lemma_words(w, 9);
    }
    if let Some(lat) = p.lat {
        bytes::law_le_roundtrip(bytes::twos32(lat as int), 4);
        bytes::law_le_roundtrip(bytes::twos32(p.wire_lon()), 4);
        bytes::lemma_words(w, at_lat);
        bytes::lemma_words(w, at_lat + 4);
    }
    if let Some(t) = p.gps_unix_time {
        bytes::law_le_roundtrip(t as nat, 4);
        bytes::lemma_words(w, at_time);
    }
}

/// Where each field of a packed point stands.
proof fn lemma_wire_fields(p: DataPoint)
    ensures
        ({
            let w = p.wire();
            let at_lat = 9 + if p.crank_revs is Some { 2int } else { 0 };
            let at_time = at_lat + if p.lat is Some { 8int } else { 0 };
            let at_battery = at_time + if p.gps_unix_time is Some { 4int } else { 0 };
            &&& w.subrange(0, 8) == bytes::le(p.monotonic_ms as nat, 8)
            &&& w[8] == p.flags() as u8
            &&& p.crank_revs matches Some(revs) ==> w.subrange(9, 11) == bytes::le(revs as nat, 2)
            &&& p.lat matches Some(lat) ==> {
                &&& w.subrange(at_lat, at_lat + 4) == bytes::le(bytes::twos32(lat as int), 4)
                &&& w.subrange(at_lat + 4, at_lat + 8) == bytes::le(
                    bytes::twos32(p.wire_lon()),
                    4,
                )
            }
            &&& p.gps_unix_time matches Some(t) ==> w.subrange(at_time, at_time + 4) == bytes::le(
                t as nat,
                4,
            )
            &&& p.sensor_battery matches Some(bat) ==> w[at_battery] == bat
            &&& w.len() == at_battery + if p.sensor_battery is Some { 1int } else { 0 }
        }),
{
    let w = p.wire();
    let at_lat = 9 + if p.crank_revs is Some { 2int } else { 0 };
    let at_time = at_lat + if p.lat is Some { 8int } else { 0 };
    bytes::lemma_le_len(p.monotonic_ms as nat, 8);
    assert(w.subrange(0, 8) =~= bytes::le(p.monotonic_ms as nat, 8));
    if let Some(revs) = p.crank_revs {
        bytes::lemma_le_len(revs as nat, 2);
        assert(w.subrange(9, 11) =~= bytes::le(revs as nat, 2));
    }
    if let Some(lat) = p.lat {
        bytes::lemma_le_len(bytes::twos32(lat as int), 4);
        bytes::lemma_le_len(bytes::twos32(p.wire_lon()), 4);
        assert(w.subrange(at_lat, at_lat + 4) =~= bytes::le(bytes::twos32(lat as int), 4));
        assert(w.subrange(at_lat + 4, at_lat + 8) =~= bytes::le(bytes::twos32(p.wire_lon()), 4));
    }
    if let Some(t) = p.gps_unix_time {
        bytes::lemma_le_len(t as nat, 4);
        assert(w.subrange(at_time, at_time + 4) =~= bytes::le(t as nat, 4));
    }
}

/// A ring buffer of the newest points.
pub struct Store {
    buf: heapless::Deque<DataPoint, 4096>,
}

/// The last `n` items of a sequence, or all of them where there are fewer.
pub open spec fn newest<T>(s: Seq<T>, n: nat) -> Seq<T> {
    if s.len() <= n {
        s
    } else {
        s.skip(s.len() - n)
    }
}

impl Store {
    /// The stored points, oldest first.
    pub closed spec fn view(&self) -> Seq<DataPoint> {
        points(self.buf)
    }

    /// An empty store.
    pub fn new() -> (r: Store)
        ensures
            r@ == Seq::<DataPoint>::empty(),
    {
        Store { buf: ring_new() }
    }

    /// Adds a newest point; where the store is full, the oldest one makes room.
    pub fn push(&mut self, point: DataPoint)
        ensures
            final(self)@ == newest(old(self)@.push(point), CAPACITY as nat),
            final(self)@.len() <= CAPACITY,
            final(self)@.last() == point,
            old(self)@.len() < 4096 ==> final(self)@.drop_last() == old(self)@,
            old(self)@.len() >= 4096 ==> final(self)@.drop_last() == old(self)@.drop_first(),
    {
        if ring_is_full(&self.buf) {
            let _ = ring_pop_front(&mut self.buf);
        }
        let _ = ring_push_back(&mut self.buf, point);
        assert(self@ =~= newest(old(self)@.push(point), CAPACITY as nat));
        assert(self@.drop_last() =~= (if old(self)@.len() < 4096 {
            old(self)@
        } else {
            old(self)@.drop_first()
        }));
    }

    /// The newest point, which stays in the store.
    pub fn peek_latest(&self) -> (r: Option<DataPoint>)
        ensures
            r == (if self@.len() > 0 {
                Some(self@.last())
            } else {
                None
            }),
    {
        ring_back(&self.buf)
    }

    /// The newest point, which leaves the store.
    pub fn pop_newest(&mut self) -> (r: Option<DataPoint>)
        ensures
            r == (if old(self)@.len() > 0 {
                Some(old(self)@.last())
            } else {
                None
            }),
            final(self)@ == (if old(self)@.len() > 0 {
                old(self)@.drop_last()
            } else {
                old(self)@
            }),
    {
        ring_pop_back(&mut self.buf)
    }
}

/// What the recorder can be told.
#[derive(Clone, Copy, Debug, PartialEq, Eq, Structural)]
pub enum StoreEvent {
    /// The sensor counted this many crank revolutions.
    Crank(u16),
    /// The sensor's battery, percent.
    Battery(u8),
    /// A GPS fix, in microdegrees.
    Location { lat: i32, lon: i32, fix_quality: FixQuality },
    /// The GPS lost its fix, so that the last position is stale.
    LocationLost,
    /// The GPS's time, seconds since the epoch.
    Time(u32),
}

/// The latest reading of each source. A crank event makes a data point of them.
#[derive(Clone, Copy, Debug, PartialEq, Eq, Structural)]
pub struct Recorder {
    pub lat: Option<i32>,
    pub lon: Option<i32>,
    pub fix_quality: Option<FixQuality>,
    pub gps_time: Option<u32>,
    pub battery: Option<u8>,
}

impl Recorder {
    /// The readings after an event.
    pub open spec fn after(self, event: StoreEvent) -> Recorder {
        match event {
            StoreEvent::Crank(_) => self,
            StoreEvent::Battery(bat) => Recorder { battery: Some(bat), ..self },
            StoreEvent::Location { lat, lon, fix_quality } => Recorder {
                lat: Some(lat),
                lon: Some(lon),
                fix_quality: Some(fix_quality),
                ..self
            },
            StoreEvent::LocationLost => Recorder { lat: None, lon: None, fix_quality: None, ..self },
            StoreEvent::Time(t) => Recorder { gps_time: Some(t), ..self },
        }
    }

    /// The point that a crank event at `now` makes.
    pub open spec fn point(self, revs: u16, now: u64) -> DataPoint {
        DataPoint {
            monotonic_ms: (ticks::millis(now as int) % 0x1_0000_0000) as u32,
            crank_revs: Some(revs),
            lat: self.lat,
            lon: self.lon,
            fix_quality: self.fix_quality,
            gps_unix_time: self.gps_time,
            sensor_battery: self.battery,
        }
    }

    /// A recorder that has seen nothing.
    pub fn new() -> (r: Recorder)
        ensures
            r == (Recorder { lat: None, lon: None, fix_quality: None, gps_time: None, battery: None }),
    {
        Recorder { lat: None, lon: None, fix_quality: None, gps_time: None, battery: None }
    }

    /// Takes an event in. A crank event stores a point; the result says whether one was stored.
    /// Only a crank event looks at the clock.
    pub fn on_event(&mut self, event: StoreEvent, now: u64, store: &mut Store) -> (r: bool)
        requires
            event is Crank ==> now <= ticks::LAST_TICK,
        ensures
            *final(self) == old(self).after(event),
            r <==> event is Crank,
            final(store)@ == (match event {
                StoreEvent::Crank(revs) => newest(
                    old(store)@.push(old(self).point(revs, now)),
                    CAPACITY as nat,
                ),
                _ => old(store)@,
            }),
            event is Crank ==> final(store)@.len() > 0 && final(store)@.last().crank_revs == Some(
                event->Crank_0,
            ),
            event is Crank ==> final(store)@.last().gps_unix_time == old(self).gps_time,
            event is Crank ==> final(store)@.last().sensor_battery == old(self).battery,
            event is Crank ==> final(store)@.last().lat == old(self).lat,
            event is Crank ==> final(store)@.last().lon == old(self).lon,
            event is Crank ==> final(store)@.last().fix_quality == old(self).fix_quality,
    {
        match event {
            StoreEvent::Crank(revs) => {
                let point = DataPoint {
                    monotonic_ms: ticks::uptime_ms(now),
                    crank_revs: Some(revs),
                    lat: self.lat,
                    lon: self.lon,
                    fix_quality: self.fix_quality,
                    gps_unix_time: self.gps_time,
                    sensor_battery: self.battery,
                };
                store.push(point);
                true
            },
            StoreEvent::Battery(bat) => {
                self.battery = Some(bat);
                false
            },
            StoreEvent::Location { lat, lon, fix_quality } => {
                self.lat = Some(lat);
                self.lon = Some(lon);
                self.fix_quality = Some(fix_quality);
                false
            },
            StoreEvent::LocationLost => {
                self.lat = None;
                self.lon = None;
                self.fix_quality = None;
                false
            },
            StoreEvent::Time(t) => {
                self.gps_time = Some(t);
                false
            },
        }
    }
}

/// The readings after a run of events.
pub open spec fn after_events(recorder: Recorder, events: Seq<StoreEvent>) -> Recorder
    decreases events.len(),
{
    if events.len() == 0 {
        recorder
    } else {
        after_events(recorder, events.drop_last()).after(events.last())
    }
}

/// No stale position is stamped: from the loss of the fix on, whatever else comes in, points carry
/// neither a position nor a fix quality until there is a fix again.
pub proof fn law_no_stale_position(
    recorder: Recorder,
    events: Seq<StoreEvent>,
    revs: u16,
    now: u64,
)
    requires
        forall|i: int| 0 <= i < events.len() ==> !(#[trigger] events[i] is Location),
    ensures
        ({
            let r = after_events(recorder.after(StoreEvent::LocationLost), events);
            let p = r.point(revs, now);
            p.lat is None && p.lon is None && p.fix_quality is None
        }),
    decreases events.len(),
{
    if events.len() > 0 {
        law_no_stale_position(recorder, events.drop_last(), revs, now);
        assert(!(events[events.len() - 1] is Location));
    }
}

/// The position of the last fix is stamped as long as it is not lost: other readings leave it
/// alone.
pub proof fn law_position_is_kept(
    recorder: Recorder,
    lat: i32,
    lon: i32,
    fix_quality: FixQuality,
    events: Seq<StoreEvent>,
    revs: u16,
    now: u64,
)
    requires
        forall|i: int|
            0 <= i < events.len() ==> !(#[trigger] events[i] is Location) && !(
            events[i] is LocationLost),
    ensures
        ({
            let fixed = recorder.after(StoreEvent::Location { lat, lon, fix_quality });
            let p = after_events(fixed, events).point(revs, now);
            p.lat == Some(lat) && p.lon == Some(lon) && p.fix_quality == Some(fix_quality)
        }),
    decreases events.len(),
{
    if events.len() > 0 {
        law_position_is_kept(recorder, lat, lon, fix_quality, events.drop_last(), revs, now);
        assert(!(events[events.len() - 1] is Location));
    }
}

/// The store after points came in one by one.
pub open spec fn after_pushes(stored: Seq<DataPoint>, pushed: Seq<DataPoint>) -> Seq<DataPoint>
    decreases pushed.len(),
{
    if pushed.len() == 0 {
        stored
    } else {
        newest(after_pushes(stored, pushed.drop_last()).push(pushed.last()), CAPACITY as nat)
    }
}

/// However many points come in, the store holds the newest `CAPACITY` of them, in order.
pub proof fn law_keeps_the_newest(stored: Seq<DataPoint>, pushed: Seq<DataPoint>)
    requires
        stored.len() <= CAPACITY,
    ensures
        after_pushes(stored, pushed) == newest(stored + pushed, CAPACITY as nat),
    decreases pushed.len(),
{
    if pushed.len() == 0 {
        assert(stored + pushed =~= stored);
    } else {
        let init = pushed.drop_last();
        law_keeps_the_newest(stored, init);
        assert(newest(newest(stored + init, CAPACITY as nat).push(pushed.last()), CAPACITY as nat)
            =~= newest(stored + pushed, CAPACITY as nat));
    }
}

/// The point pushed last is the one that `peek_latest` shows and `pop_newest` takes; after that
/// pop a store that was not full is as it was before the push.
pub proof fn law_pop_undoes_push(stored: Seq<DataPoint>, point: DataPoint)
    ensures
        newest(stored.push(point), CAPACITY as nat).last() == point,
        stored.len() < CAPACITY ==> newest(stored.push(point), CAPACITY as nat).drop_last()
            == stored,
{
    assert(stored.push(point).drop_last() =~= stored);
}

/// The store after `k` pops.
pub open spec fn after_pops(stored: Seq<DataPoint>, k: nat) -> Seq<DataPoint>
    decreases k,
{
    if k == 0 {
        stored
    } else {
        let before = after_pops(stored, (k - 1) as nat);
        if before.len() > 0 {
            before.drop_last()
        } else {
            before
        }
    }
}

/// Draining the store hands the points out newest first: pop number `k` gives the `k`-th newest
/// point, and after as many pops as there were points the store is empty.
pub proof fn law_drains_newest_first(stored: Seq<DataPoint>, k: nat)
    requires
        k <= stored.len(),
    ensures
        after_pops(stored, k) == stored.take(stored.len() - k),
        k < stored.len() ==> after_pops(stored, k).last() == stored[stored.len() - 1 - k],
    decreases k,
{
    if k == 0 {
        assert(stored.take(stored.len() as int) =~= stored);
    } else {
        law_drains_newest_first(stored, (k - 1) as nat);
        assert(stored.take(stored.len() - (k - 1)).drop_last() =~= stored.take(stored.len() - k));
    }
}

/// The latest time is the one that is stamped: after the GPS gave the time, and until it gives
/// another, points carry it, whatever time was known before and whatever else comes in.
pub proof fn law_latest_time_is_stamped(
    recorder: Recorder,
    t: u32,
    events: Seq<StoreEvent>,
    revs: u16,
    now: u64,
)
    requires
        forall|i: int| 0 <= i < events.len() ==> !(#[trigger] events[i] is Time),
    ensures
        after_events(recorder.after(StoreEvent::Time(t)), events).point(revs, now).gps_unix_time
            == Some(t),
    decreases events.len(),
{
    if events.len() > 0 {
        law_latest_time_is_stamped(recorder, t, events.drop_last(), revs, now);
        assert(!(events[events.len() - 1] is Time));
    }
}

/// The latest battery level is the one that is stamped: after the sensor gave it, and until it
/// gives another, points carry it, whatever level was known before and whatever else comes in.
pub proof fn law_latest_battery_is_stamped(
    recorder: Recorder,
    battery: u8,
    events: Seq<StoreEvent>,
    revs: u16,
    now: u64,
)
    requires
        forall|i: int| 0 <= i < events.len() ==> !(#[trigger] events[i] is Battery),
    ensures
        after_events(recorder.after(StoreEvent::Battery(battery)), events).point(
            revs,
            now,
        ).sensor_battery == Some(battery),
    decreases events.len(),
{
    if events.len() > 0 {
        law_latest_battery_is_stamped(recorder, battery, events.drop_last(), revs, now);
        assert(!(events[events.len() - 1] is Battery));
    }
}

/// A point is of its moment: it carries the revolutions of the crank event that made it, and the
/// milliseconds since boot at which the event came, as far as 32 bits can count them.
pub proof fn law_points_are_of_their_moment(recorder: Recorder, revs: u16, now: u64)
    ensures
        recorder.point(revs, now).crank_revs == Some(revs),
        ({
            let ms = recorder.point(revs, now).monotonic_ms;
            exists|wraps: int|
                #![trigger wraps * 0x1_0000_0000]
                0 <= wraps && (ms + wraps * 0x1_0000_0000) * 32_768 <= now * 1000 < (ms + 1 + wraps
                    * 0x1_0000_0000) * 32_768
        }),
{
    let all = ticks::millis(now as int);
    ticks::law_millis_are_whole(now as int);
    let wraps = all / 0x1_0000_0000;
    assert(all == wraps * 0x1_0000_0000 + all % 0x1_0000_0000);
}

/// What no source has given is not stamped: with a recorder that starts out knowing nothing,
/// points carry a time, a battery level or a position only once one has come in.
pub proof fn law_nothing_unseen_is_stamped(
    recorder: Recorder,
    events: Seq<StoreEvent>,
    revs: u16,
    now: u64,
)
    requires
        recorder.lat is None && recorder.lon is None && recorder.fix_quality is None,
        recorder.gps_time is None && recorder.battery is None,
    ensures
        ({
            let p = after_events(recorder, events).point(revs, now);
            &&& p.gps_unix_time matches Some(t) ==> events.contains(StoreEvent::Time(t))
            &&& p.sensor_battery matches Some(bat) ==> events.contains(StoreEvent::Battery(bat))
            &&& p.lat is Some <==> p.lon is Some && p.fix_quality is Some
            &&& p.lat is Some ==> events.contains(
                StoreEvent::Location {
                    lat: p.lat->0,
                    lon: p.lon->0,
                    fix_quality: p.fix_quality->0,
                },
            )
        }),
    decreases events.len(),
{
    if events.len() > 0 {
        let init = events.drop_last();
        law_nothing_unseen_is_stamped(recorder, init, revs, now);
        assert(events[events.len() - 1] == events.last());
        assert forall|e: StoreEvent| init.contains(e) implies events.contains(e) by {
            let i = choose|i: int| 0 <= i < init.len() && init[i] == e;
            assert(events[i] == e);
        }
    }
}

/// A crank event changes no reading: it leaves the next points as they would have been.
pub proof fn law_crank_changes_no_reading(recorder: Recorder, revs: u16)
    ensures
        recorder.after(StoreEvent::Crank(revs)) == recorder,
{
}

/// The store is a window on what came in: it holds all of it up to 4096 points, and from there on
/// the 4096 that came last, in the order in which they came.
pub proof fn law_store_is_a_window(stored: Seq<DataPoint>, pushed: Seq<DataPoint>)
    requires
        stored.len() <= 4096,
    ensures
        ({
            let all = stored + pushed;
            let kept = after_pushes(stored, pushed);
            &&& kept.len() == (if all.len() < 4096 { all.len() } else { 4096 })
            &&& forall|i: int|
                0 <= i < kept.len() ==> #[trigger] kept[kept.len() - 1 - i] == all[all.len() - 1
                    - i]
        }),
{
    law_keeps_the_newest(stored, pushed);
}

} // verus!
