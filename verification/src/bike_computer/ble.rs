//! The link to the cadence sensor.
use crate::bytes;
use crate::bytes::read16;
use crate::text;
use vstd::prelude::*;
use vstd::string::*;

verus! {

/// The measurement characteristic of the cycling speed and cadence service.
pub const CSC_MEASUREMENT: u16 = 0x2A5B;

#[derive(Clone, Copy, Debug, PartialEq, Eq, Structural)]
pub struct State {
    pub cumulative_crank_revs: Option<u16>,
    /// In 1/1024 of a second.
    pub last_crank_event_time: Option<u16>,
}

pub enum Error {
    /// A task could not be spawned; with the executor's own words.
    SpawnError(String),
    /// The controller did not start; with its own words.
    SdcError(String),
    /// The radio's service layer did not start; with its own words.
    MpslError(String),
}

impl Error {
    pub open spec fn text(self) -> Seq<char> {
        match self {
            Error::SpawnError(detail) => "spawn error: "@ + detail@,
            Error::SdcError(detail) => "SDC error: "@ + detail@,
            Error::MpslError(detail) => "MPSL error: "@ + detail@,
        }
    }

    pub fn message(&self) -> (r: String)
        ensures
            r@ == self.text(),
    {
        match self {
            Error::SpawnError(detail) => String::from_str("spawn error: ").concat(detail.as_str()),
            Error::SdcError(detail) => String::from_str("SDC error: ").concat(detail.as_str()),
            Error::MpslError(detail) => String::from_str("MPSL error: ").concat(detail.as_str()),
        }
    }
}

/// What a measurement says of the crank: five bytes at least, and the second flag set. The sensor
/// measures nothing else, so the crank's data stands right behind the flags.
pub open spec fn crank_of(data: Seq<u8>) -> Option<State> {
    if data.len() >= 5 && data[0] / 2 % 2 == 1 {
        Some(
            State {
                cumulative_crank_revs: Some(bytes::le_value(data.subrange(1, 3)) as u16),
                last_crank_event_time: Some(bytes::le_value(data.subrange(3, 5)) as u16),
            },
        )
    } else {
        None
    }
}

/// What the task is about to do. Each step is one operation, which ends in one event. From
/// `DiscoverCsc` on, the client's own task runs beside it.
#[derive(Clone, Copy, Debug, PartialEq, Eq, Structural)]
pub enum Step {
    /// Start scanning.
    Scan,
    /// Wait for the address of a sensor, then stop scanning.
    AwaitSensor,
    Connect,
    /// Open a GATT client on the connection.
    OpenClient,
    /// List the cycling speed and cadence services.
    DiscoverCsc,
    /// Look up the measurement characteristic of the first.
    FindMeasurement,
    Subscribe,
    /// Follow the notifications, for good.
    Stream,
    /// Wait for the client's task to end.
    Linger,
}

#[derive(Clone, Copy, Debug, PartialEq, Eq, Structural)]
pub enum CadenceEvent {
    ScanStarted(bool),
    SensorFound,
    Connected(bool),
    ClientOpened(bool),
    /// How many services there are; nothing on an error.
    ServicesListed(Option<usize>),
    CharacteristicFound(bool),
    Subscribed(bool),
    /// The client's task ended.
    ClientEnded,
}

#[derive(Clone, Copy, Debug, PartialEq, Eq, Structural)]
pub struct Cadence {
    pub step: Step,
    /// Whether the client's task has ended before the step has.
    pub client_ended: bool,
    /// What the sensor said last; nothing while it is away.
    pub state: Option<State>,
}

impl Cadence {
    /// A connection is over, and the next scan begins.
    pub open spec fn restarted(self) -> Cadence {
        Cadence { step: Step::Scan, client_ended: false, state: None }
    }

    /// There is nothing to follow on this connection.
    pub open spec fn given_up(self) -> Cadence {
        if self.client_ended {
            self.restarted()
        } else {
            Cadence { step: Step::Linger, ..self }
        }
    }

    /// The state after an event. A connection is over when there is nothing more to follow on it
    /// and the client's task has ended. An event that does not end the step changes nothing.
    pub open spec fn after(self, event: CadenceEvent) -> Cadence {
        match (self.step, event) {
            (Step::Scan, CadenceEvent::ScanStarted(true)) => Cadence {
                step: Step::AwaitSensor,
                ..self
            },
            (Step::AwaitSensor, CadenceEvent::SensorFound) => Cadence {
                step: Step::Connect,
                ..self
            },
            (Step::Connect, CadenceEvent::Connected(ok)) => Cadence {
                step: if ok {
                    Step::OpenClient
                } else {
                    Step::Scan
                },
                ..self
            },
            (Step::OpenClient, CadenceEvent::ClientOpened(ok)) => Cadence {
                step: if ok {
                    Step::DiscoverCsc
                } else {
                    Step::Scan
                },
                client_ended: false,
                ..self
            },
            (Step::DiscoverCsc, CadenceEvent::ServicesListed(n)) => if n matches Some(k) && k > 0 {
                Cadence { step: Step::FindMeasurement, ..self }
            } else {
                self.given_up()
            },
            (Step::FindMeasurement, CadenceEvent::CharacteristicFound(ok)) => if ok {
                Cadence { step: Step::Subscribe, ..self }
            } else {
                self.given_up()
            },
            (Step::Subscribe, CadenceEvent::Subscribed(ok)) => if ok {
                Cadence { step: Step::Stream, ..self }
            } else {
                self.given_up()
            },
            (Step::Linger, CadenceEvent::ClientEnded) => self.restarted(),
            (Step::DiscoverCsc, CadenceEvent::ClientEnded)
            | (Step::FindMeasurement, CadenceEvent::ClientEnded)
            | (Step::Subscribe, CadenceEvent::ClientEnded)
            | (Step::Stream, CadenceEvent::ClientEnded) => Cadence { client_ended: true, ..self },
            _ => self,
        }
    }

    pub fn new() -> (r: Cadence)
        ensures
            r == (Cadence { step: Step::Scan, client_ended: false, state: None }),
    {
        Cadence { step: Step::Scan, client_ended: false, state: None }
    }

    pub fn read(&self) -> (r: Result<Option<State>, Error>)
        ensures
            r == Ok::<Option<State>, Error>(self.state),
    {
        Ok(self.state)
    }

    fn restart(&mut self)
        ensures
            *final(self) == old(self).restarted(),
    {
        self.step = Step::Scan;
        self.client_ended = false;
        self.state = None;
    }

    fn give_up(&mut self)
        ensures
            *final(self) == old(self).given_up(),
    {
        if self.client_ended {
            self.restart();
        } else {
            self.step = Step::Linger;
        }
    }

    pub fn on_event(&mut self, event: CadenceEvent)
        ensures
            *final(self) == old(self).after(event),
    {
        match (self.step, event) {
            (Step::Scan, CadenceEvent::ScanStarted(ok)) => {
                if ok {
                    self.step = Step::AwaitSensor;
                }
            },
            (Step::AwaitSensor, CadenceEvent::SensorFound) => {
                self.step = Step::Connect;
            },
            (Step::Connect, CadenceEvent::Connected(ok)) => {
                self.step = if ok {
                    Step::OpenClient
                } else {
                    Step::Scan
                };
            },
            (Step::OpenClient, CadenceEvent::ClientOpened(ok)) => {
                self.step = if ok {
                    Step::DiscoverCsc
                } else {
                    Step::Scan
                };
                self.client_ended = false;
            },
            (Step::DiscoverCsc, CadenceEvent::ServicesListed(n)) => {
                let found = match n {
                    Some(k) => k > 0,
                    None => false,
                };
                if found {
                    self.step = Step::FindMeasurement;
                } else {
                    self.give_up();
                }
            },
            (Step::FindMeasurement, CadenceEvent::CharacteristicFound(ok)) => {
                if ok {
                    self.step = Step::Subscribe;
                } else {
                    self.give_up();
                }
            },
            (Step::Subscribe, CadenceEvent::Subscribed(ok)) => {
                if ok {
                    self.step = Step::Stream;
                } else {
                    self.give_up();
                }
            },
            (Step::Linger, CadenceEvent::ClientEnded) => {
                self.restart();
            },
            (Step::DiscoverCsc, CadenceEvent::ClientEnded) => {
                self.client_ended = true;
            },
            (Step::FindMeasurement, CadenceEvent::ClientEnded) => {
                self.client_ended = true;
            },
            (Step::Subscribe, CadenceEvent::ClientEnded) => {
                self.client_ended = true;
            },
            (Step::Stream, CadenceEvent::ClientEnded) => {
                self.client_ended = true;
            },
            _ => {},
        }
    }

    /// A measurement was notified. One that says nothing of the crank changes nothing.
    pub fn on_measurement(&mut self, data: &[u8])
        ensures
            *final(self) == (match crank_of(data@) {
                Some(state) => Cadence { state: Some(state), ..*old(self) },
                None => *old(self),
            }),
            final(self).step == old(self).step,
            final(self).client_ended == old(self).client_ended,
            final(self).state == (if crank_of(data@) is Some {
                crank_of(data@)
            } else {
                old(self).state
            }),
    {
        if data.len() < 5 {
            return;
        }
        let flags = data[0];
        assert((flags & 0x02 != 0) == (flags / 2 % 2 == 1)) by (bit_vector);
        if flags & 0x02 != 0 {
            let revs = read16(data[1], data[2]);
            let event_time = read16(data[3], data[4]);
            proof {
                assert(data@.subrange(1, 3) =~= seq![data@[1], data@[2]]);
                assert(data@.subrange(3, 5) =~= seq![data@[3], data@[4]]);
            }
            self.state = Some(
                State {
                    cumulative_crank_revs: Some(revs),
                    last_crank_event_time: Some(event_time),
                },
            );
        }
    }
}

/// A connection that is over leaves no reading behind: where one ends, the state is empty.
pub proof fn law_no_reading_outlives_its_connection(c: Cadence, event: CadenceEvent)
    requires
        c.step is DiscoverCsc || c.step is FindMeasurement || c.step is Subscribe || c.step is Stream
            || c.step is Linger,
    ensures
        c.after(event).step is Scan ==> c.after(event).state is None,
{
}

/// Both must end: the client's task ending, and there being nothing to follow, lead to the next
/// scan in either order.
pub proof fn law_both_sides_must_end(c: Cadence)
    requires
        c.step is DiscoverCsc,
        !c.client_ended,
    ensures
        c.after(CadenceEvent::ClientEnded).after(CadenceEvent::ServicesListed(None)).step is Scan,
        c.after(CadenceEvent::ServicesListed(None)).after(CadenceEvent::ClientEnded).step is Scan,
        !(c.after(CadenceEvent::ClientEnded).step is Scan),
        !(c.after(CadenceEvent::ServicesListed(None)).step is Scan),
{
}

/// The reading in full: there is one exactly where five bytes are there and the second flag is set,
/// and it is the two numbers behind the flags, low byte first. The other flags, and what follows,
/// are not looked at.
pub proof fn law_crank_reading(data: Seq<u8>)
    ensures
        crank_of(data) is Some <==> data.len() >= 5 && data[0] / 2 % 2 == 1,
        crank_of(data) matches Some(s) ==> {
            &&& s.cumulative_crank_revs is Some && s.last_crank_event_time is Some
            &&& s.cumulative_crank_revs->0 == bytes::word16(data, 1)
            &&& s.last_crank_event_time->0 == bytes::word16(data, 3)
        },
{
    bytes::lemma_words(data, 1);
    bytes::lemma_words(data, 3);
}

/// Each step of the way succeeds on its success, however many services there are, and the client's
/// end on the way is not forgotten. A scan that did not start is started again, and a connection
/// that did not come about is followed by another scan.
pub proof fn law_every_success_leads_on(c: Cadence, n: usize)
    requires
        n >= 1,
    ensures
        c.step is Scan ==> c.after(CadenceEvent::ScanStarted(true)) == (Cadence {
            step: Step::AwaitSensor,
            ..c
        }) && c.after(CadenceEvent::ScanStarted(false)) == c,
        c.step is AwaitSensor ==> c.after(CadenceEvent::SensorFound) == (Cadence {
            step: Step::Connect,
            ..c
        }),
        c.step is Connect ==> c.after(CadenceEvent::Connected(true)) == (Cadence {
            step: Step::OpenClient,
            ..c
        }) && c.after(CadenceEvent::Connected(false)) == (Cadence { step: Step::Scan, ..c }),
        c.step is OpenClient ==> c.after(CadenceEvent::ClientOpened(true)) == (Cadence {
            step: Step::DiscoverCsc,
            client_ended: false,
            state: c.state,
        }) && c.after(CadenceEvent::ClientOpened(false)).step == Step::Scan,
        c.step is DiscoverCsc ==> c.after(CadenceEvent::ServicesListed(Some(n))) == (Cadence {
            step: Step::FindMeasurement,
            ..c
        }),
        c.step is FindMeasurement ==> c.after(CadenceEvent::CharacteristicFound(true)) == (Cadence {
            step: Step::Subscribe,
            ..c
        }),
        c.step is Subscribe ==> c.after(CadenceEvent::Subscribed(true)) == (Cadence {
            step: Step::Stream,
            ..c
        }),
{
}

/// What fails on a connection leaves nothing to follow on it: where the client's task has ended,
/// the next scan begins, with no reading; where it has not, the task waits for it.
pub proof fn law_failures_wait_for_the_client(c: Cadence, event: CadenceEvent)
    requires
        match event {
            CadenceEvent::ServicesListed(n) => c.step is DiscoverCsc && (n is None || n->0 == 0),
            CadenceEvent::CharacteristicFound(ok) => c.step is FindMeasurement && !ok,
            CadenceEvent::Subscribed(ok) => c.step is Subscribe && !ok,
            _ => false,
        },
    ensures
        c.client_ended ==> c.after(event) == (Cadence {
            step: Step::Scan,
            client_ended: false,
            state: None,
        }),
        !c.client_ended ==> c.after(event) == (Cadence { step: Step::Linger, ..c }),
{
}

/// The client's end is noticed on every step of a connection and on no other: it is remembered on
/// the way and while the notifications are followed, which go on, and it ends a task that waits for
/// it.
pub proof fn law_client_end_is_noticed(c: Cadence)
    ensures
        c.after(CadenceEvent::ClientEnded) == (match c.step {
            Step::DiscoverCsc | Step::FindMeasurement | Step::Subscribe | Step::Stream => Cadence {
                client_ended: true,
                ..c
            },
            Step::Linger => Cadence { step: Step::Scan, client_ended: false, state: None },
            _ => c,
        }),
{
}

/// A step is left only by the event that ends it, and following the notifications is never left:
/// whatever else comes in, nothing changes.
pub proof fn law_steps_end_by_their_own_event(c: Cadence, event: CadenceEvent)
    requires
        !(event is ClientEnded),
    ensures
        c.after(event) != c ==> match c.step {
            Step::Scan => event is ScanStarted,
            Step::AwaitSensor => event is SensorFound,
            Step::Connect => event is Connected,
            Step::OpenClient => event is ClientOpened,
            Step::DiscoverCsc => event is ServicesListed,
            Step::FindMeasurement => event is CharacteristicFound,
            Step::Subscribe => event is Subscribed,
            Step::Stream | Step::Linger => false,
        },
{
}

/// A reading is forgotten only with its connection: whatever else happens to the link, the last
/// one is kept.
pub proof fn law_reading_is_kept(c: Cadence, event: CadenceEvent)
    ensures
        c.after(event).state == c.state || (c.after(event).state is None && c.after(
            event,
        ).step is Scan),
        c.step is Stream ==> c.after(event).state == c.state,
{
}

/// A message says what failed and, behind it, all of the other side's own words.
pub proof fn law_messages_carry_the_detail(detail: String)
    ensures
        text::says(Error::SpawnError(detail).text(), "spawn error: "@, detail@),
        text::says(Error::SdcError(detail).text(), "SDC error: "@, detail@),
        text::says(Error::MpslError(detail).text(), "MPSL error: "@, detail@),
{
    text::lemma_says("spawn error: "@, detail@);
    text::lemma_says("SDC error: "@, detail@);
    text::lemma_says("MPSL error: "@, detail@);
}

} // verus!
