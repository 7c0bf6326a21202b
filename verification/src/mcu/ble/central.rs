//! The link to the cadence sensor: finding it, connecting, and reading its notifications.
use crate::bytes;
use crate::bytes::read16;
use vstd::prelude::*;

verus! {

/// The measurement characteristic of the cycling speed and cadence service.
pub const CSC_MEASUREMENT: u16 = 0x2A5B;

/// The battery service, and its level characteristic.
pub const BATTERY_SERVICE: u16 = 0x180F;

pub const BATTERY_LEVEL: u16 = 0x2A19;

/// Seconds before every attempt but the first, so that a sensor that connects and then fails does
/// not make the radio spin.
pub const BACKOFF_SECS: u64 = 1;

/// Seconds that connecting may take. A sensor that vanished after it was seen would otherwise hold
/// the task for good.
pub const CONNECT_TIMEOUT_SECS: u64 = 10;

pub const SCAN_INTERVAL_MS: u64 = 200;

pub const SCAN_WINDOW_MS: u64 = 50;

/// One crank reading: the cumulative revolutions, and the sensor's time of the last one in 1/1024
/// of a second.
#[derive(Clone, Copy, Debug, PartialEq, Eq, Structural)]
pub struct CrankSample {
    pub revs: u16,
    pub event_time: u16,
}

/// Where the crank data of a measurement starts: behind the flags, and behind the wheel data
/// where the first flag says that there is some.
pub open spec fn crank_offset(data: Seq<u8>) -> int {
    if data[0] % 2 == 1 {
        7
    } else {
        1
    }
}

/// The crank reading that a measurement carries: there is one where the second flag says so and
/// the bytes are all there.
pub open spec fn crank_of(data: Seq<u8>) -> Option<CrankSample> {
    if data.len() > 0 && data[0] / 2 % 2 == 1 && data.len() >= crank_offset(data) + 4 {
        let at = crank_offset(data);
        Some(
            CrankSample {
                revs: bytes::le_value(data.subrange(at, at + 2)) as u16,
                event_time: bytes::le_value(data.subrange(at + 2, at + 4)) as u16,
            },
        )
    } else {
        None
    }
}

pub fn parse_measurement(data: &[u8]) -> (r: Option<CrankSample>)
    ensures
        r == crank_of(data@),
{
    let flags: u8 = if data.len() > 0 {
        data[0]
    } else {
        0
    };
    assert(flags & 0x01 == flags % 2) by (bit_vector);
    assert((flags & 0x02 != 0) == (flags / 2 % 2 == 1)) by (bit_vector);
    let off: usize = if flags & 0x01 != 0 {
        7
    } else {
        1
    };
    if flags & 0x02 != 0 && data.len() >= off + 4 {
        let revs = read16(data[off], data[off + 1]);
        let event_time = read16(data[off + 2], data[off + 3]);
        proof {
            let at = off as int;
            assert(data@.subrange(at, at + 2) =~= seq![data@[at], data@[at + 1]]);
            assert(data@.subrange(at + 2, at + 4) =~= seq![data@[at + 2], data@[at + 3]]);
        }
        Some(CrankSample { revs, event_time })
    } else {
        None
    }
}

/// The level that a notification of the battery carries.
pub open spec fn level_of(data: Seq<u8>) -> Option<u8> {
    if data.len() > 0 {
        Some(data[0])
    } else {
        None
    }
}

/// What the task is about to do. Each step is one operation, which ends in one event.
#[derive(Clone, Copy, Debug, PartialEq, Eq, Structural)]
pub enum Step {
    /// Wait `BACKOFF_SECS`, or not at all the first time.
    Rest { wait: bool },
    /// Wait until the scan gate is open, then start scanning.
    Scan,
    /// Wait for the address of a sensor, or until the scan gate closes; then stop scanning.
    AwaitSensor,
    /// Connect to it, for `CONNECT_TIMEOUT_SECS` at most.
    Connect,
    /// Open a GATT client on the connection.
    OpenClient,
    /// List the cycling speed and cadence services.
    DiscoverCsc,
    /// Look up the measurement characteristic of the first.
    FindMeasurement,
    SubscribeMeasurement,
    /// List the battery services.
    DiscoverBattery,
    /// Look up the level characteristic of the first.
    FindLevel,
    SubscribeLevel,
    /// Read the level, which the sensor does not send by itself.
    ReadLevel,
    /// Follow the notifications: those of the crank, and of the battery where it could be
    /// subscribed to.
    Stream { battery: bool },
}

#[derive(Clone, Copy, Debug, PartialEq, Eq, Structural)]
pub enum CentralEvent {
    Elapsed,
    ScanStarted(bool),
    SensorFound,
    /// The scan gate closed before a sensor was found.
    GateClosed,
    /// Connected; or not, because of an error or the timeout.
    ConnectEnded(bool),
    ClientOpened(bool),
    /// How many services there are; nothing on an error.
    ServicesListed(Option<usize>),
    CharacteristicFound(bool),
    Subscribed(bool),
    /// How many bytes were read, nothing on an error, and the first.
    LevelRead(Option<usize>, u8),
    /// The connection is gone, or the client's task ended.
    LinkLost,
}

/// What there is to publish.
#[derive(Clone, Copy, Debug, PartialEq, Eq, Structural)]
pub struct CentralReport {
    pub connected: Option<bool>,
    pub battery: Option<u8>,
    /// An address that was signalled earlier is to be forgotten.
    pub forget_address: bool,
}

#[derive(Clone, Copy, Debug, PartialEq, Eq, Structural)]
pub struct Central {
    pub step: Step,
    /// The revolutions that were last published on this subscription.
    pub last_revs: Option<u16>,
}

impl Step {
    /// How long the step may last, in seconds; nothing where it does not go by the clock.
    pub open spec fn limit(self) -> Option<u64> {
        match self {
            Step::Rest { wait } => if wait {
                Some(BACKOFF_SECS)
            } else {
                Some(0)
            },
            Step::Connect => Some(CONNECT_TIMEOUT_SECS),
            _ => None,
        }
    }

    /// How long the step may last, in seconds. A rest lasts just that long, one second or not at
    /// all, and then `CentralEvent::Elapsed` is due. Connecting lasts ten seconds at most, and then
    /// `CentralEvent::ConnectEnded(false)` is due.
    pub fn limit_secs(&self) -> (r: Option<u64>)
        ensures
            r == self.limit(),
            *self == (Step::Rest { wait: true }) ==> r == Some(1u64),
            *self == (Step::Rest { wait: false }) ==> r == Some(0u64),
            *self is Connect ==> r == Some(10u64),
            r is None <==> !(*self is Rest || *self is Connect),
    {
        match self {
            Step::Rest { wait } => if *wait {
                Some(BACKOFF_SECS)
            } else {
                Some(0)
            },
            Step::Connect => Some(CONNECT_TIMEOUT_SECS),
            _ => None,
        }
    }

    /// Whether there is a client on a connection, whose loss ends the step.
    pub open spec fn on_link(self) -> bool {
        match self {
            Step::Rest { .. } | Step::Scan | Step::AwaitSensor | Step::Connect
            | Step::OpenClient => false,
            _ => true,
        }
    }

    /// The step after an event. What fails on the way to the measurements starts all over; what
    /// fails on the way to the battery does without it. An event that does not end the step
    /// changes nothing.
    pub open spec fn after(self, event: CentralEvent) -> Step {
        let retry = Step::Rest { wait: true };
        match (self, event) {
            (Step::Rest { .. }, CentralEvent::Elapsed) => Step::Scan,
            (Step::Scan, CentralEvent::ScanStarted(ok)) => if ok {
                Step::AwaitSensor
            } else {
                retry
            },
            (Step::AwaitSensor, CentralEvent::SensorFound) => Step::Connect,
            (Step::AwaitSensor, CentralEvent::GateClosed) => retry,
            (Step::Connect, CentralEvent::ConnectEnded(ok)) => if ok {
                Step::OpenClient
            } else {
                retry
            },
            (Step::OpenClient, CentralEvent::ClientOpened(ok)) => if ok {
                Step::DiscoverCsc
            } else {
                retry
            },
            (Step::DiscoverCsc, CentralEvent::ServicesListed(n)) => if n matches Some(k) && k > 0 {
                Step::FindMeasurement
            } else {
                retry
            },
            (Step::FindMeasurement, CentralEvent::CharacteristicFound(ok)) => if ok {
                Step::SubscribeMeasurement
            } else {
                retry
            },
            (Step::SubscribeMeasurement, CentralEvent::Subscribed(ok)) => if ok {
                Step::DiscoverBattery
            } else {
                retry
            },
            (Step::DiscoverBattery, CentralEvent::ServicesListed(n)) => if n matches Some(k) && k
                > 0 {
                Step::FindLevel
            } else {
                Step::Stream { battery: false }
            },
            (Step::FindLevel, CentralEvent::CharacteristicFound(ok)) => if ok {
                Step::SubscribeLevel
            } else {
                Step::Stream { battery: false }
            },
            (Step::SubscribeLevel, CentralEvent::Subscribed(ok)) => if ok {
                Step::ReadLevel
            } else {
                Step::Stream { battery: false }
            },
            (Step::ReadLevel, CentralEvent::LevelRead(..)) => Step::Stream { battery: true },
            (_, CentralEvent::LinkLost) => if self.on_link() {
                retry
            } else {
                self
            },
            _ => self,
        }
    }

    /// What an event leads to: "disconnected" before every scan, "connected" once there is a
    /// connection, and the level that was read.
    pub open spec fn report(self, event: CentralEvent) -> CentralReport {
        CentralReport {
            connected: match (self, event) {
                (Step::Rest { .. }, CentralEvent::Elapsed) => Some(false),
                (Step::Connect, CentralEvent::ConnectEnded(true)) => Some(true),
                _ => None,
            },
            battery: match (self, event) {
                (Step::ReadLevel, CentralEvent::LevelRead(Some(n), level)) => if n > 0 {
                    Some(level)
                } else {
                    None
                },
                _ => None,
            },
            forget_address: self is Rest && event is Elapsed,
        }
    }

    fn advance(&self, event: CentralEvent) -> (r: Step)
        ensures
            r == self.after(event),
    {
        let retry = Step::Rest { wait: true };
        let ok = match event {
            CentralEvent::ScanStarted(ok) => ok,
            CentralEvent::ConnectEnded(ok) => ok,
            CentralEvent::ClientOpened(ok) => ok,
            CentralEvent::CharacteristicFound(ok) => ok,
            CentralEvent::Subscribed(ok) => ok,
            CentralEvent::ServicesListed(Some(n)) => n > 0,
            _ => false,
        };
        let (good, bad) = match (*self, event) {
            (Step::Rest { .. }, CentralEvent::Elapsed) => (Step::Scan, Step::Scan),
            (Step::Scan, CentralEvent::ScanStarted(_)) => (Step::AwaitSensor, retry),
            (Step::AwaitSensor, CentralEvent::SensorFound) => (Step::Connect, Step::Connect),
            (Step::AwaitSensor, CentralEvent::GateClosed) => (retry, retry),
            (Step::Connect, CentralEvent::ConnectEnded(_)) => (Step::OpenClient, retry),
            (Step::OpenClient, CentralEvent::ClientOpened(_)) => (Step::DiscoverCsc, retry),
            (Step::DiscoverCsc, CentralEvent::ServicesListed(_)) => (Step::FindMeasurement, retry),
            (Step::FindMeasurement, CentralEvent::CharacteristicFound(_)) => (
                Step::SubscribeMeasurement,
                retry,
            ),
            (Step::SubscribeMeasurement, CentralEvent::Subscribed(_)) => (
                Step::DiscoverBattery,
                retry,
            ),
            (Step::DiscoverBattery, CentralEvent::ServicesListed(_)) => (
                Step::FindLevel,
                Step::Stream { battery: false },
            ),
            (Step::FindLevel, CentralEvent::CharacteristicFound(_)) => (
                Step::SubscribeLevel,
                Step::Stream { battery: false },
            ),
            (Step::SubscribeLevel, CentralEvent::Subscribed(_)) => (
                Step::ReadLevel,
                Step::Stream { battery: false },
            ),
            (Step::ReadLevel, CentralEvent::LevelRead(_, _)) => (
                Step::Stream { battery: true },
                Step::Stream { battery: true },
            ),
            (Step::Rest { .. }, CentralEvent::LinkLost) => (*self, *self),
            (Step::Scan, CentralEvent::LinkLost) => (*self, *self),
            (Step::AwaitSensor, CentralEvent::LinkLost) => (*self, *self),
            (Step::Connect, CentralEvent::LinkLost) => (*self, *self),
            (Step::OpenClient, CentralEvent::LinkLost) => (*self, *self),
            (_, CentralEvent::LinkLost) => (retry, retry),
            _ => (*self, *self),
        };
        if ok {
            good
        } else {
            bad
        }
    }
}

impl Central {
    pub fn new() -> (r: Central)
        ensures
            r == (Central { step: Step::Rest { wait: false }, last_revs: None }),
    {
        Central { step: Step::Rest { wait: false }, last_revs: None }
    }

    /// The state after an event. Each subscription starts with no revolutions published.
    pub open spec fn after(self, event: CentralEvent) -> Central {
        Central {
            step: self.step.after(event),
            last_revs: if self.step is SubscribeMeasurement {
                None
            } else {
                self.last_revs
            },
        }
    }

    pub fn on_event(&mut self, event: CentralEvent) -> (r: CentralReport)
        ensures
            *final(self) == old(self).after(event),
            r == old(self).step.report(event),
    {
        let connected = match (self.step, event) {
            (Step::Rest { .. }, CentralEvent::Elapsed) => Some(false),
            (Step::Connect, CentralEvent::ConnectEnded(ok)) => if ok {
                Some(true)
            } else {
                None
            },
            _ => None,
        };
        let battery = match (self.step, event) {
            (Step::ReadLevel, CentralEvent::LevelRead(Some(n), level)) => if n > 0 {
                Some(level)
            } else {
                None
            },
            _ => None,
        };
        let forget_address = match (self.step, event) {
            (Step::Rest { .. }, CentralEvent::Elapsed) => true,
            _ => false,
        };
        match self.step {
            Step::SubscribeMeasurement => {
                self.last_revs = None;
            },
            _ => {},
        }
        self.step = self.step.advance(event);
        CentralReport { connected, battery, forget_address }
    }

    /// What is published of a crank reading: only one whose revolutions are new.
    pub open spec fn publishes(self, sample: Option<CrankSample>) -> Option<CrankSample> {
        match sample {
            Some(s) => if self.last_revs == Some(s.revs) {
                None
            } else {
                Some(s)
            },
            None => None,
        }
    }

    /// The state after a crank reading.
    pub open spec fn after_sample(self, sample: Option<CrankSample>) -> Central {
        match sample {
            Some(s) => Central { last_revs: Some(s.revs), ..self },
            None => self,
        }
    }

    /// A measurement was notified.
    pub fn on_measurement(&mut self, data: &[u8]) -> (r: Option<CrankSample>)
        ensures
            *final(self) == old(self).after_sample(crank_of(data@)),
            r == old(self).publishes(crank_of(data@)),
    {
        match parse_measurement(data) {
            Some(sample) => {
                let known = match self.last_revs {
                    Some(revs) => revs == sample.revs,
                    None => false,
                };
                self.last_revs = Some(sample.revs);
                if known {
                    None
                } else {
                    Some(sample)
                }
            },
            None => None,
        }
    }

    /// A battery level was notified: its first byte, where there is one.
    pub fn on_level(&self, data: &[u8]) -> (r: Option<u8>)
        ensures
            r == level_of(data@),
            r == (if data@.len() > 0 {
                Some(data@[0])
            } else {
                None
            }),
    {
        if data.len() > 0 {
            Some(data[0])
        } else {
            None
        }
    }
}

/// Why Bluetooth did not start, or stopped.
#[derive(Clone, Copy, Debug, PartialEq, Eq, Structural)]
pub enum Error {
    SpawnFailed,
    MpslInitFailed,
    SdcInitFailed,
    HfclkFailed,
    RunnerCrashed,
}

impl Error {
    pub open spec fn text(self) -> Seq<char> {
        match self {
            Error::SpawnFailed => "spawn failed"@,
            Error::MpslInitFailed => "MPSL init failed"@,
            Error::SdcInitFailed => "SDC init failed"@,
            Error::HfclkFailed => "HFCLK request failed"@,
            Error::RunnerCrashed => "BLE runner crashed"@,
        }
    }

    pub fn message(&self) -> (r: &'static str)
        ensures
            r@ == self.text(),
    {
        match self {
            Error::SpawnFailed => "spawn failed",
            Error::MpslInitFailed => "MPSL init failed",
            Error::SdcInitFailed => "SDC init failed",
            Error::HfclkFailed => "HFCLK request failed",
            Error::RunnerCrashed => "BLE runner crashed",
        }
    }
}

/// The wheel data of a combined speed and cadence sensor is skipped: the reading is the one that
/// the same sensor would send without it.
pub proof fn law_wheel_data_is_skipped(wheel: Seq<u8>, crank: Seq<u8>)
    requires
        wheel.len() == 6,
    ensures
        crank_of(seq![3u8] + wheel + crank) == crank_of(seq![2u8] + crank),
{
    let a = seq![3u8] + wheel + crank;
    let b = seq![2u8] + crank;
    if crank.len() >= 4 {
        assert(a.subrange(7, 9) =~= b.subrange(1, 3));
        assert(a.subrange(9, 11) =~= b.subrange(3, 5));
    }
}

/// A reading that is packed as the sensor does is read back.
pub proof fn law_measurement_roundtrip(sample: CrankSample)
    ensures
        crank_of(
            seq![2u8] + bytes::le(sample.revs as nat, 2) + bytes::le(sample.event_time as nat, 2),
        ) == Some(sample),
{
    let revs = bytes::le(sample.revs as nat, 2);
    let time = bytes::le(sample.event_time as nat, 2);
    let data = seq![2u8] + revs + time;
    bytes::lemma_byte_ranges();
    bytes::lemma_le_len(sample.revs as nat, 2);
    bytes::lemma_le_len(sample.event_time as nat, 2);
    bytes::law_le_roundtrip(sample.revs as nat, 2);
    bytes::law_le_roundtrip(sample.event_time as nat, 2);
    assert(data.subrange(1, 3) =~= revs);
    assert(data.subrange(3, 5) =~= time);
}

/// Every attempt but the first waits: a scan is only started after a rest, and no event leads
/// back to the rest that does not wait.
pub proof fn law_every_retry_waits(step: Step, event: CentralEvent)
    ensures
        step.after(event) is Scan && !(step is Scan) ==> step is Rest && event is Elapsed,
        step.after(event) == (Step::Rest { wait: false }) ==> step == (Step::Rest { wait: false }),
{
}

/// The clock ends exactly the steps that have a length: when it is up a rest is followed by a scan
/// and a connection that did not come about by another attempt, which waits; other steps go on.
pub proof fn law_time_limits(step: Step)
    ensures
        step is Rest ==> step.limit() is Some && step.after(CentralEvent::Elapsed) == Step::Scan,
        step is Connect ==> step.limit() is Some && step.after(CentralEvent::ConnectEnded(false))
            == (Step::Rest { wait: true }),
        step.limit() is None ==> step.after(CentralEvent::Elapsed) == step && step.after(
            CentralEvent::ConnectEnded(false),
        ) == step,
        (Step::Rest { wait: true }).limit() == Some(BACKOFF_SECS),
{
}

/// Losing the link, or failing to reach the measurements, ends in a new attempt; failing to reach
/// the battery does not.
pub proof fn law_failures_start_over(step: Step)
    ensures
        step.on_link() ==> step.after(CentralEvent::LinkLost) == (Step::Rest { wait: true }),
        step is DiscoverBattery ==> step.after(CentralEvent::ServicesListed(None)) == (
        Step::Stream { battery: false }),
        step is FindLevel ==> step.after(CentralEvent::CharacteristicFound(false)) == (
        Step::Stream { battery: false }),
        step is SubscribeLevel ==> step.after(CentralEvent::Subscribed(false)) == (
        Step::Stream { battery: false }),
{
}

/// A closing scan gate ends the scan, and leaves a link alone.
pub proof fn law_gate_ends_the_scan(step: Step)
    ensures
        step.after(CentralEvent::GateClosed) == (if step is AwaitSensor {
            Step::Rest { wait: true }
        } else {
            step
        }),
{
}

/// "Connected" and "disconnected" are told apart by the steps: a scan begins disconnected, and
/// there is a link only after "connected" was published.
pub proof fn law_connection_is_announced(step: Step, event: CentralEvent)
    ensures
        step.report(event).connected == Some(false) <==> step.after(event) is Scan && !(
        step is Scan),
        step.report(event).connected == Some(true) <==> step.after(event) is OpenClient && !(
        step is OpenClient),
        step.after(event).on_link() && !step.on_link() ==> step is OpenClient,
{
}

/// What is published of a run of crank readings.
pub open spec fn published(central: Central, run: Seq<CrankSample>) -> Seq<CrankSample>
    decreases run.len(),
{
    if run.len() == 0 {
        seq![]
    } else {
        let rest = published(central.after_sample(Some(run[0])), run.skip(1));
        match central.publishes(Some(run[0])) {
            Some(s) => seq![s] + rest,
            None => rest,
        }
    }
}

/// Crank readings are published only when the revolutions change, which is while the bike moves,
/// and every change is: no two in a row have the same revolutions, and the newest revolutions are
/// always the ones that were published last.
pub proof fn law_only_turns_are_published(central: Central, run: Seq<CrankSample>)
    ensures
        ({
            let p = published(central, run);
            &&& forall|i: int| 0 <= i < p.len() - 1 ==> (#[trigger] p[i]).revs != p[i + 1].revs
            &&& p.len() > 0 ==> central.last_revs != Some(p[0].revs)
            &&& run.len() > 0 ==> Some(run.last().revs) == (if p.len() > 0 {
                Some(p.last().revs)
            } else {
                central.last_revs
            })
        }),
    decreases run.len(),
{
    if run.len() > 0 {
        let now = central.after_sample(Some(run[0]));
        let rest = run.skip(1);
        law_only_turns_are_published(now, rest);
        let q = published(now, rest);
        let p = published(central, run);
        if central.publishes(Some(run[0])) is Some {
            assert(p =~= seq![run[0]] + q);
            assert forall|i: int| 0 <= i < p.len() - 1 implies (#[trigger] p[i]).revs != p[i
                + 1].revs by {
                if i > 0 {
                    assert(q[i - 1].revs != q[i].revs);
                }
            }
        }
        if rest.len() == 0 {
            assert(q =~= seq![]);
        }
    }
}

/// The reading in full: there is one exactly where the second flag is set and all its bytes are
/// there, right behind the flags or, where the first flag is set, behind six bytes of wheel data;
/// it is two numbers, low byte first. The other flags, and what follows, are not looked at.
pub proof fn law_crank_reading(data: Seq<u8>)
    ensures
        crank_of(data) is Some <==> data.len() >= 5 && data[0] / 2 % 2 == 1 && (data[0] % 2 == 1
            ==> data.len() >= 11),
        crank_of(data) matches Some(c) ==> data[0] % 2 == 0 ==> c.revs == bytes::word16(data, 1)
            && c.event_time == bytes::word16(data, 3),
        crank_of(data) matches Some(c) ==> data[0] % 2 == 1 ==> c.revs == bytes::word16(data, 7)
            && c.event_time == bytes::word16(data, 9),
{
    bytes::lemma_words(data, 1);
    bytes::lemma_words(data, 3);
    bytes::lemma_words(data, 7);
    bytes::lemma_words(data, 9);
}

/// One service is enough: a listing leads on where there is at least one service, however many,
/// and nowhere else. On the way to the measurements the alternative is a new attempt, on the way
/// to the battery it is a stream without it.
pub proof fn law_one_service_is_enough(listed: Option<usize>)
    ensures
        ({
            let some = listed is Some && listed->0 >= 1;
            let csc = Step::DiscoverCsc.after(CentralEvent::ServicesListed(listed));
            let battery = Step::DiscoverBattery.after(CentralEvent::ServicesListed(listed));
            &&& some ==> csc == Step::FindMeasurement && battery == Step::FindLevel
            &&& !some ==> csc == (Step::Rest { wait: true }) && battery == (Step::Stream {
                battery: false,
            })
        }),
{
}

/// Each step of the way succeeds on its success, whatever else the event says.
pub proof fn law_every_success_leads_on(wait: bool, n: usize, read: Option<usize>, level: u8)
    requires
        n >= 1,
    ensures
        (Step::Rest { wait }).after(CentralEvent::Elapsed) == Step::Scan,
        Step::Scan.after(CentralEvent::ScanStarted(true)) == Step::AwaitSensor,
        Step::AwaitSensor.after(CentralEvent::SensorFound) == Step::Connect,
        Step::Connect.after(CentralEvent::ConnectEnded(true)) == Step::OpenClient,
        Step::OpenClient.after(CentralEvent::ClientOpened(true)) == Step::DiscoverCsc,
        Step::DiscoverCsc.after(CentralEvent::ServicesListed(Some(n))) == Step::FindMeasurement,
        Step::FindMeasurement.after(CentralEvent::CharacteristicFound(true))
            == Step::SubscribeMeasurement,
        Step::SubscribeMeasurement.after(CentralEvent::Subscribed(true)) == Step::DiscoverBattery,
        Step::DiscoverBattery.after(CentralEvent::ServicesListed(Some(n))) == Step::FindLevel,
        Step::FindLevel.after(CentralEvent::CharacteristicFound(true)) == Step::SubscribeLevel,
        Step::SubscribeLevel.after(CentralEvent::Subscribed(true)) == Step::ReadLevel,
        Step::ReadLevel.after(CentralEvent::LevelRead(read, level)) == (Step::Stream {
            battery: true,
        }),
{
}

/// Each step on the way to the measurements that fails is followed by a rest that waits.
pub proof fn law_every_failure_rests()
    ensures
        Step::Scan.after(CentralEvent::ScanStarted(false)) == (Step::Rest { wait: true }),
        Step::AwaitSensor.after(CentralEvent::GateClosed) == (Step::Rest { wait: true }),
        Step::Connect.after(CentralEvent::ConnectEnded(false)) == (Step::Rest { wait: true }),
        Step::OpenClient.after(CentralEvent::ClientOpened(false)) == (Step::Rest { wait: true }),
        Step::FindMeasurement.after(CentralEvent::CharacteristicFound(false)) == (Step::Rest {
            wait: true,
        }),
        Step::SubscribeMeasurement.after(CentralEvent::Subscribed(false)) == (Step::Rest {
            wait: true,
        }),
{
}

/// A step is left only by the event that ends it, and a client's step by the loss of the link
/// besides: whatever else comes in, the step goes on.
pub proof fn law_steps_end_by_their_own_event(step: Step, event: CentralEvent)
    ensures
        step.after(event) != step ==> match step {
            Step::Rest { .. } => event is Elapsed,
            Step::Scan => event is ScanStarted,
            Step::AwaitSensor => event is SensorFound || event is GateClosed,
            Step::Connect => event is ConnectEnded,
            Step::OpenClient => event is ClientOpened,
            Step::DiscoverCsc | Step::DiscoverBattery => event is ServicesListed || event
                is LinkLost,
            Step::FindMeasurement | Step::FindLevel => event is CharacteristicFound || event
                is LinkLost,
            Step::SubscribeMeasurement | Step::SubscribeLevel => event is Subscribed || event
                is LinkLost,
            Step::ReadLevel => event is LevelRead || event is LinkLost,
            Step::Stream { .. } => event is LinkLost,
        },
{
}

/// The link is there from the client on, and its loss is always noticed: each step behind
/// `OpenClient` ends in a rest that waits, and each step up to it takes no notice.
pub proof fn law_link_loss_is_noticed(step: Step)
    ensures
        match step {
            Step::Rest { .. } | Step::Scan | Step::AwaitSensor | Step::Connect | Step::OpenClient => {
                step.after(CentralEvent::LinkLost) == step && !step.on_link()
            },
            _ => step.after(CentralEvent::LinkLost) == (Step::Rest { wait: true })
                && step.on_link(),
        },
{
}

/// How long things last: a retry waits one second and the first attempt none, connecting gets ten,
/// and nothing else goes by the clock.
pub proof fn law_lengths(step: Step)
    ensures
        (Step::Rest { wait: true }).limit() == Some(1u64),
        (Step::Rest { wait: false }).limit() == Some(0u64),
        Step::Connect.limit() == Some(10u64),
        !(step is Rest) && !(step is Connect) ==> step.limit() is None,
{
}

/// What is reported, in full: the end of a rest says "disconnected" and has the address forgotten,
/// a connection that comes about says "connected", a level of which at least one byte was read is
/// passed on as it is, and nothing else says anything.
pub proof fn law_reports(step: Step, event: CentralEvent)
    ensures
        ({
            let r = step.report(event);
            let rested = step is Rest && event is Elapsed;
            let joined = step is Connect && event == CentralEvent::ConnectEnded(true);
            &&& r.forget_address <==> rested
            &&& r.connected == Some(false) <==> rested
            &&& r.connected == Some(true) <==> joined
            &&& match event {
                CentralEvent::LevelRead(Some(n), level) => r.battery == (if step is ReadLevel && n
                    >= 1 {
                    Some(level)
                } else {
                    None
                }),
                _ => r.battery is None,
            }
        }),
{
}

/// Each subscription starts afresh: the first reading on it is published, whatever revolutions
/// were published before. Nothing else that happens to the link makes a reading new or old.
pub proof fn law_each_subscription_starts_afresh(
    central: Central,
    event: CentralEvent,
    sample: CrankSample,
)
    ensures
        central.step is SubscribeMeasurement ==> central.after(event).publishes(Some(sample))
            == Some(sample),
        !(central.step is SubscribeMeasurement) ==> central.after(event).last_revs
            == central.last_revs,
        central.after(event).step == central.step.after(event),
{
}

/// A reading is published exactly where its revolutions are not those of the reading before it,
/// whatever its time; and it is then passed on as it was read. No reading moves the link.
pub proof fn law_turns_are_told_by_the_revolutions(
    central: Central,
    first: CrankSample,
    second: CrankSample,
)
    ensures
        ({
            let then = central.after_sample(Some(first));
            &&& then.publishes(Some(second)) == (if first.revs == second.revs {
                None
            } else {
                Some(second)
            })
            &&& then.step == central.step
            &&& then.publishes(None) is None
            &&& central.after_sample(None) == central
            &&& central.last_revs is None ==> central.publishes(Some(first)) == Some(first)
        }),
{
}

/// A level is passed on whatever it is and whatever follows it; without a byte there is none.
pub proof fn law_level_is_the_first_byte(level: u8, rest: Seq<u8>)
    ensures
        level_of(seq![level] + rest) == Some(level),
        level_of(Seq::empty()) is None,
{
}

/// The step after a run of events.
pub open spec fn after_events(step: Step, events: Seq<CentralEvent>) -> Step
    decreases events.len(),
{
    if events.len() == 0 {
        step
    } else {
        after_events(step.after(events[0]), events.skip(1))
    }
}

/// A sensor that answers is followed: from any rest the run of successes leads to its measurements,
/// with the battery where the sensor has one and without it where it has none, however many
/// services it lists and whatever its level reads.
pub proof fn law_a_sensor_that_answers_is_followed(
    wait: bool,
    csc: usize,
    batteries: usize,
    read: Option<usize>,
    level: u8,
)
    requires
        csc >= 1,
    ensures
        ({
            let way = seq![
                CentralEvent::Elapsed,
                CentralEvent::ScanStarted(true),
                CentralEvent::SensorFound,
                CentralEvent::ConnectEnded(true),
                CentralEvent::ClientOpened(true),
                CentralEvent::ServicesListed(Some(csc)),
                CentralEvent::CharacteristicFound(true),
                CentralEvent::Subscribed(true),
                CentralEvent::ServicesListed(Some(batteries)),
                CentralEvent::CharacteristicFound(true),
                CentralEvent::Subscribed(true),
                CentralEvent::LevelRead(read, level),
            ];
            after_events(Step::Rest { wait }, way) == (Step::Stream { battery: batteries >= 1 })
        }),
{
    reveal_with_fuel(after_events, 13);
}

} // verus!
