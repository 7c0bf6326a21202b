//! The status screen: what it knows, and the six lines that it shows of it.
use crate::fixed;
use crate::fixed::push_degrees;
use crate::mcu::ble::central::CrankSample;
use crate::mcu::gps::GpsState;
use crate::protocol::{BatteryState, BatteryStatus};
use crate::text;
use crate::text::{fit, push_decimal, push_two_digits};
use vstd::prelude::*;
use vstd::string::*;
use vstd::utf8;

verus! {

/// Where each line starts, in pixels from the top.
pub const LINE_Y: [i32; 6] = [0, 11, 22, 33, 44, 54];

/// Seconds between two attempts to start the display.
pub const RETRY_SECS: u64 = 5;

/// Seconds between two looks at the clock.
pub const CLOCK_PERIOD_SECS: u64 = 1;

pub enum InternalError {
    /// The display did not start; with the display's own words.
    InitError(String),
    RenderError,
}

impl InternalError {
    pub open spec fn text(self) -> Seq<char> {
        match self {
            InternalError::InitError(detail) => "init failed: "@ + detail@,
            InternalError::RenderError => "render failed"@,
        }
    }

    pub fn message(&self) -> (r: String)
        ensures
            r@ == self.text(),
    {
        match self {
            InternalError::InitError(detail) => String::from_str("init failed: ").concat(
                detail.as_str(),
            ),
            InternalError::RenderError => String::from_str("render failed"),
        }
    }
}

#[derive(Clone, Copy, Debug, PartialEq, Eq)]
pub struct ScreenState {
    pub gps: Option<GpsState>,
    pub crank_revs: Option<u16>,
    pub mcu_battery: Option<BatteryStatus>,
    pub sensor_connected: bool,
    pub sensor_battery: Option<u8>,
    pub ios_connected: bool,
    pub moving: Option<bool>,
    /// Hours and minutes, UTC.
    pub time: Option<(u8, u8)>,
}

#[derive(Clone, Copy, Debug, PartialEq, Eq, Structural)]
pub enum ScreenEvent {
    Gps(Option<GpsState>),
    Crank(CrankSample),
    SensorConnected(bool),
    SensorBattery(u8),
    IosConnected(bool),
    Moving(bool),
    McuBattery(BatteryStatus),
    /// A look at the clock: milliseconds since the epoch, once they are known.
    Clock(Option<u64>),
}

/// One line of the screen.
pub struct Line {
    pub text: String,
    pub y: i32,
}

/// The time of day, UTC, in hours and minutes.
pub open spec fn hours_and_minutes(millis: nat) -> (u8, u8) {
    let minutes = millis / 60_000;
    ((minutes / 60 % 24) as u8, (minutes % 60) as u8)
}

pub fn time_of_day(millis: u64) -> (r: (u8, u8))
    ensures
        r == hours_and_minutes(millis as nat),
        r.0 < 24,
        r.1 < 60,
{
    let seconds = millis / 1000;
    ((seconds / 3600 % 24) as u8, (seconds / 60 % 60) as u8)
}

/// `yes` in a letter.
pub open spec fn letter(yes: bool) -> Seq<char> {
    if yes {
        "Y"@
    } else {
        "N"@
    }
}

fn yes_no(yes: bool) -> (r: &'static str)
    ensures
        r@ == letter(yes),
{
    if yes {
        "Y"
    } else {
        "N"
    }
}

impl ScreenState {
    /// Nothing is known yet.
    pub fn new() -> (r: ScreenState)
        ensures
            r == (ScreenState {
                gps: None,
                crank_revs: None,
                mcu_battery: None,
                sensor_connected: false,
                sensor_battery: None,
                ios_connected: false,
                moving: None,
                time: None,
            }),
    {
        ScreenState {
            gps: None,
            crank_revs: None,
            mcu_battery: None,
            sensor_connected: false,
            sensor_battery: None,
            ios_connected: false,
            moving: None,
            time: None,
        }
    }

    pub open spec fn after(self, event: ScreenEvent) -> ScreenState {
        match event {
            ScreenEvent::Gps(gps) => ScreenState { gps, ..self },
            ScreenEvent::Crank(sample) => ScreenState { crank_revs: Some(sample.revs), ..self },
            ScreenEvent::SensorConnected(c) => ScreenState { sensor_connected: c, ..self },
            ScreenEvent::SensorBattery(b) => ScreenState { sensor_battery: Some(b), ..self },
            ScreenEvent::IosConnected(c) => ScreenState { ios_connected: c, ..self },
            ScreenEvent::Moving(m) => ScreenState { moving: Some(m), ..self },
            ScreenEvent::McuBattery(b) => ScreenState { mcu_battery: Some(b), ..self },
            ScreenEvent::Clock(Some(millis)) => ScreenState {
                time: Some(hours_and_minutes(millis as nat)),
                ..self
            },
            ScreenEvent::Clock(None) => self,
        }
    }

    pub fn apply(&mut self, event: ScreenEvent)
        ensures
            *final(self) == old(self).after(event),
    {
        match event {
            ScreenEvent::Gps(gps) => {
                self.gps = gps;
            },
            ScreenEvent::Crank(sample) => {
                self.crank_revs = Some(sample.revs);
            },
            ScreenEvent::SensorConnected(c) => {
                self.sensor_connected = c;
            },
            ScreenEvent::SensorBattery(b) => {
                self.sensor_battery = Some(b);
            },
            ScreenEvent::IosConnected(c) => {
                self.ios_connected = c;
            },
            ScreenEvent::Moving(m) => {
                self.moving = Some(m);
            },
            ScreenEvent::McuBattery(b) => {
                self.mcu_battery = Some(b);
            },
            ScreenEvent::Clock(millis) => match millis {
                Some(millis) => {
                    self.time = Some(time_of_day(millis));
                },
                None => {},
            },
        }
    }

    /// The position, in degrees with two decimals.
    pub open spec fn gps_text(self) -> Seq<char> {
        match self.gps {
            None => "GPS: ---"@,
            Some(g) => "GPS:"@ + fixed::degrees_text(g.lat_microdeg as int) + "/"@
                + fixed::degrees_text(g.lon_microdeg as int),
        }
    }

    pub open spec fn crank_text(self) -> Seq<char> {
        match self.crank_revs {
            None => "CRK: ---"@,
            Some(revs) => "CRK: "@ + text::decimal(revs as nat),
        }
    }

    pub open spec fn mcu_text(self) -> Seq<char> {
        match self.mcu_battery {
            None => "MCU: ---"@,
            Some(b) => "MCU: "@ + text::decimal(b.percent as nat) + "%"@ + (if b.state
                == BatteryState::Charging {
                " CHG"@
            } else {
                ""@
            }),
        }
    }

    pub open spec fn sensor_text(self) -> Seq<char> {
        if !self.sensor_connected {
            "SNS: ---"@
        } else {
            match self.sensor_battery {
                None => "SNS: OK"@,
                Some(b) => "SNS: "@ + text::decimal(b as nat) + "%"@,
            }
        }
    }

    pub open spec fn links_text(self) -> Seq<char> {
        "iOS:"@ + letter(self.ios_connected) + " CAD:"@ + letter(self.sensor_connected) + " MOV:"@
            + (match self.moving {
            None => "?"@,
            Some(m) => letter(m),
        })
    }

    pub open spec fn time_text(self) -> Seq<char> {
        match self.time {
            None => "--:--"@,
            Some((h, m)) => text::two_digits(h as nat) + ":"@ + text::two_digits(m as nat),
        }
    }

    /// The six lines, top down.
    pub open spec fn texts(self) -> Seq<Seq<char>> {
        seq![
            self.gps_text(),
            self.crank_text(),
            self.mcu_text(),
            self.sensor_text(),
            self.links_text(),
            self.time_text(),
        ]
    }

    fn gps_line(&self) -> (r: String)
        ensures
            r@ == self.gps_text(),
    {
        match self.gps {
            None => String::from_str("GPS: ---"),
            Some(g) => {
                let mut line = String::from_str("GPS:");
                push_degrees(&mut line, g.lat_microdeg);
                line.append("/");
                push_degrees(&mut line, g.lon_microdeg);
                line
            },
        }
    }

    fn crank_line(&self) -> (r: String)
        ensures
            r@ == self.crank_text(),
    {
        match self.crank_revs {
            None => String::from_str("CRK: ---"),
            Some(revs) => {
                let mut line = String::from_str("CRK: ");
                push_decimal(&mut line, revs as u128);
                line
            },
        }
    }

    fn mcu_line(&self) -> (r: String)
        ensures
            r@ == self.mcu_text(),
    {
        match self.mcu_battery {
            None => String::from_str("MCU: ---"),
            Some(b) => {
                let mut line = String::from_str("MCU: ");
                push_decimal(&mut line, b.percent as u128);
                line.append("%");
                line.append(
                    if b.state == BatteryState::Charging {
                        " CHG"
                    } else {
                        ""
                    },
                );
                line
            },
        }
    }

    fn sensor_line(&self) -> (r: String)
        ensures
            r@ == self.sensor_text(),
    {
        if !self.sensor_connected {
            String::from_str("SNS: ---")
        } else {
            match self.sensor_battery {
                None => String::from_str("SNS: OK"),
                Some(b) => {
                    let mut line = String::from_str("SNS: ");
                    push_decimal(&mut line, b as u128);
                    line.append("%");
                    line
                },
            }
        }
    }

    fn links_line(&self) -> (r: String)
        ensures
            r@ == self.links_text(),
    {
        let mut line = String::from_str("iOS:");
        line.append(yes_no(self.ios_connected));
        line.append(" CAD:");
        line.append(yes_no(self.sensor_connected));
        line.append(" MOV:");
        line.append(
            match self.moving {
                None => "?",
                Some(m) => yes_no(m),
            },
        );
        line
    }

    fn time_line(&self) -> (r: String)
        ensures
            r@ == self.time_text(),
    {
        match self.time {
            None => String::from_str("--:--"),
            Some((h, m)) => {
                let mut line = String::new();
                push_two_digits(&mut line, h as u64);
                line.append(":");
                push_two_digits(&mut line, m as u64);
                assert(Seq::<char>::empty() + text::two_digits(h as nat) =~= text::two_digits(
                    h as nat,
                ));
                line
            },
        }
    }

    /// The lines to draw.
    pub fn lines(&self) -> (r: Vec<Line>)
        ensures
            r@.len() == 6,
            forall|i: int|
                0 <= i < 6 ==> (#[trigger] r@[i]).text@ == self.texts()[i] && r@[i].y == LINE_Y[i],
    {
        proof {
            law_lines_fit(*self);
        }
        let gps = fit::<32>(self.gps_line().as_str()).unwrap();
        let crank = fit::<16>(self.crank_line().as_str()).unwrap();
        let mcu = fit::<16>(self.mcu_line().as_str()).unwrap();
        let sensor = fit::<16>(self.sensor_line().as_str()).unwrap();
        let links = fit::<24>(self.links_line().as_str()).unwrap();
        let time = fit::<8>(self.time_line().as_str()).unwrap();
        let mut lines: Vec<Line> = Vec::new();
        lines.push(Line { text: gps, y: LINE_Y[0] });
        lines.push(Line { text: crank, y: LINE_Y[1] });
        lines.push(Line { text: mcu, y: LINE_Y[2] });
        lines.push(Line { text: sensor, y: LINE_Y[3] });
        lines.push(Line { text: links, y: LINE_Y[4] });
        lines.push(Line { text: time, y: LINE_Y[5] });
        lines
    }
}

/// Every line fits its buffer, whatever there is to show.
pub proof fn law_lines_fit(state: ScreenState)
    ensures
        text::byte_len(state.gps_text()) <= 32,
        text::byte_len(state.crank_text()) <= 16,
        text::byte_len(state.mcu_text()) <= 16,
        text::byte_len(state.sensor_text()) <= 16,
        text::byte_len(state.links_text()) <= 24,
        text::byte_len(state.time_text()) <= 8,
{
    assert(utf8::is_ascii_chars(state.gps_text()) && state.gps_text().len() <= 32) by {
        reveal_strlit("GPS: ---");
        reveal_strlit("GPS:");
        reveal_strlit("/");
        if let Some(g) = state.gps {
            fixed::lemma_degrees_len(g.lat_microdeg as int);
            fixed::lemma_degrees_len(g.lon_microdeg as int);
        }
    }
    text::lemma_ascii_len(state.gps_text());
    assert(utf8::is_ascii_chars(state.crank_text()) && state.crank_text().len() <= 16) by {
        reveal_strlit("CRK: ---");
        reveal_strlit("CRK: ");
        if let Some(revs) = state.crank_revs {
            text::lemma_decimal_len(revs as nat);
        }
    }
    text::lemma_ascii_len(state.crank_text());
    assert(utf8::is_ascii_chars(state.mcu_text()) && state.mcu_text().len() <= 16) by {
        reveal_strlit("MCU: ---");
        reveal_strlit("MCU: ");
        reveal_strlit("%");
        reveal_strlit(" CHG");
        reveal_strlit("");
        if let Some(b) = state.mcu_battery {
            text::lemma_decimal_len(b.percent as nat);
        }
    }
    text::lemma_ascii_len(state.mcu_text());
    assert(utf8::is_ascii_chars(state.sensor_text()) && state.sensor_text().len() <= 16) by {
        reveal_strlit("SNS: ---");
        reveal_strlit("SNS: OK");
        reveal_strlit("SNS: ");
        reveal_strlit("%");
        if let Some(b) = state.sensor_battery {
            text::lemma_decimal_len(b as nat);
        }
    }
    text::lemma_ascii_len(state.sensor_text());
    assert(utf8::is_ascii_chars(state.links_text()) && state.links_text().len() <= 24) by {
        reveal_strlit("iOS:");
        reveal_strlit(" CAD:");
        reveal_strlit(" MOV:");
        reveal_strlit("Y");
        reveal_strlit("N");
        reveal_strlit("?");
    }
    text::lemma_ascii_len(state.links_text());
    assert(utf8::is_ascii_chars(state.time_text()) && state.time_text().len() <= 8) by {
        reveal_strlit("--:--");
        reveal_strlit(":");
        if let Some((h, m)) = state.time {
            text::lemma_decimal_len(h as nat);
            text::lemma_decimal_len(m as nat);
        }
    }
    text::lemma_ascii_len(state.time_text());
}

/// Each event is shown as it came, whatever was known before: it sets what it is about and leaves
/// the rest alone. A look at a clock that is not set changes nothing.
pub proof fn law_events_are_taken_over(state: ScreenState, event: ScreenEvent)
    ensures
        ({
            let s = state.after(event);
            &&& s.gps == (match event {
                ScreenEvent::Gps(gps) => gps,
                _ => state.gps,
            })
            &&& s.crank_revs == (match event {
                ScreenEvent::Crank(sample) => Some(sample.revs),
                _ => state.crank_revs,
            })
            &&& s.mcu_battery == (match event {
                ScreenEvent::McuBattery(b) => Some(b),
                _ => state.mcu_battery,
            })
            &&& s.sensor_connected == (match event {
                ScreenEvent::SensorConnected(c) => c,
                _ => state.sensor_connected,
            })
            &&& s.sensor_battery == (match event {
                ScreenEvent::SensorBattery(b) => Some(b),
                _ => state.sensor_battery,
            })
            &&& s.ios_connected == (match event {
                ScreenEvent::IosConnected(c) => c,
                _ => state.ios_connected,
            })
            &&& s.moving == (match event {
                ScreenEvent::Moving(m) => Some(m),
                _ => state.moving,
            })
            &&& !(event is Clock) ==> s.time == state.time
            &&& event == ScreenEvent::Clock(None) ==> s.time == state.time
        }),
{
}

/// The clock shows the hour and the minute of the day: `hour` hours and `minute` minutes into any
/// day since the epoch, and for as long as that minute lasts.
pub proof fn law_time_of_day_is_shown(
    state: ScreenState,
    day: nat,
    hour: u8,
    minute: u8,
    rest: nat,
    millis: u64,
)
    requires
        hour < 24,
        minute < 60,
        rest < 60_000,
        millis == day * 86_400_000 + hour * 3_600_000 + minute * 60_000 + rest,
    ensures
        state.after(ScreenEvent::Clock(Some(millis))).time == Some((hour, minute)),
{
    let minutes = millis as nat / 60_000;
    assert(minutes == day * 1440 + hour * 60 + minute);
    assert(minutes % 60 == minute);
    assert(minutes / 60 == day * 24 + hour);
    assert((day * 24 + hour) as nat % 24 == hour);
}

/// A line changes only with what it shows.
pub proof fn law_lines_are_independent(state: ScreenState, event: ScreenEvent)
    ensures
        ({
            let (a, b) = (state.texts(), state.after(event).texts());
            &&& a.len() == 6 && b.len() == 6
            &&& event is Gps || b[0] == a[0]
            &&& event is Crank || b[1] == a[1]
            &&& event is McuBattery || b[2] == a[2]
            &&& event is SensorConnected || event is SensorBattery || b[3] == a[3]
            &&& event is SensorConnected || event is IosConnected || event is Moving || b[4] == a[4]
            &&& event is Clock || b[5] == a[5]
        }),
{
}

/// The first line shows the position that was last published, latitude first, or that there is
/// none.
pub proof fn law_position_is_shown(state: ScreenState, gps: Option<GpsState>)
    ensures
        ({
            let line = state.after(ScreenEvent::Gps(gps)).texts()[0];
            match gps {
                None => line == seq!['G', 'P', 'S', ':', ' ', '-', '-', '-'],
                Some(g) => line == seq!['G', 'P', 'S', ':'] + fixed::degrees_text(
                    g.lat_microdeg as int,
                ) + seq!['/'] + fixed::degrees_text(g.lon_microdeg as int),
            }
        }),
{
    reveal_strlit("GPS: ---");
    reveal_strlit("GPS:");
    reveal_strlit("/");
    assert("GPS: ---"@ =~= seq!['G', 'P', 'S', ':', ' ', '-', '-', '-']);
    assert("GPS:"@ =~= seq!['G', 'P', 'S', ':']);
    assert("/"@ =~= seq!['/']);
}

/// The second line shows the revolutions that were last counted: what stands behind its head is
/// the number, in digits.
pub proof fn law_revolutions_are_shown(state: ScreenState, sample: CrankSample)
    ensures
        ({
            let line = state.after(ScreenEvent::Crank(sample)).texts()[1];
            &&& line.len() > 5
            &&& line.take(5) == seq!['C', 'R', 'K', ':', ' ']
            &&& text::value(line.skip(5)) == sample.revs
            &&& forall|i: int| 5 <= i < line.len() ==> '0' <= #[trigger] line[i] <= '9'
        }),
        state.crank_revs is None ==> state.texts()[1] == seq!['C', 'R', 'K', ':', ' ', '-', '-', '-'],
{
    reveal_strlit("CRK: ");
    reveal_strlit("CRK: ---");
    assert("CRK: ---"@ =~= seq!['C', 'R', 'K', ':', ' ', '-', '-', '-']);
    let line = state.after(ScreenEvent::Crank(sample)).texts()[1];
    let digits = text::decimal(sample.revs as nat);
    text::law_decimal_roundtrip(sample.revs as nat);
    text::law_decimal_is_canonical(sample.revs as nat);
    assert(line.take(5) =~= seq!['C', 'R', 'K', ':', ' ']);
    assert(line.skip(5) =~= digits);
    assert forall|i: int| 5 <= i < line.len() implies '0' <= #[trigger] line[i] <= '9' by {
        assert(line[i] == digits[i - 5]);
    }
}

/// The third line shows the battery's charge, whatever it is, and marks it exactly while it
/// charges.
pub proof fn law_battery_is_shown(state: ScreenState, battery: BatteryStatus)
    ensures
        ({
            let line = state.after(ScreenEvent::McuBattery(battery)).texts()[2];
            let charging = battery.state == BatteryState::Charging;
            let end = if charging { line.len() - 4 } else { line.len() as int };
            &&& end > 6
            &&& line.take(5) == seq!['M', 'C', 'U', ':', ' ']
            &&& text::value(line.subrange(5, end - 1)) == battery.percent
            &&& line[end - 1] == '%'
            &&& charging ==> line.skip(end) == seq![' ', 'C', 'H', 'G']
        }),
        state.mcu_battery is None ==> state.texts()[2] == seq!['M', 'C', 'U', ':', ' ', '-', '-', '-'],
{
    reveal_strlit("MCU: ");
    reveal_strlit("MCU: ---");
    reveal_strlit("%");
    reveal_strlit(" CHG");
    reveal_strlit("");
    assert("MCU: ---"@ =~= seq!['M', 'C', 'U', ':', ' ', '-', '-', '-']);
    let line = state.after(ScreenEvent::McuBattery(battery)).texts()[2];
    let charging = battery.state == BatteryState::Charging;
    let end = if charging { line.len() - 4 } else { line.len() as int };
    text::law_decimal_roundtrip(battery.percent as nat);
    text::law_decimal_is_canonical(battery.percent as nat);
    assert(line.take(5) =~= seq!['M', 'C', 'U', ':', ' ']);
    assert(line.subrange(5, end - 1) =~= text::decimal(battery.percent as nat));
    if charging {
        assert(line.skip(end) =~= seq![' ', 'C', 'H', 'G']);
    }
}

/// The fourth line shows the sensor: nothing while it is away, whatever its level was; and while it
/// is there its level, or that it is there where the level is not known.
pub proof fn law_sensor_is_shown(state: ScreenState)
    ensures
        ({
            let line = state.texts()[3];
            &&& line.len() >= 7 && line.take(5) == seq!['S', 'N', 'S', ':', ' ']
            &&& !state.sensor_connected ==> line.skip(5) == seq!['-', '-', '-']
            &&& state.sensor_connected && state.sensor_battery is None ==> line.skip(5) == seq![
                'O',
                'K',
            ]
            &&& state.sensor_connected && state.sensor_battery is Some ==> line.last() == '%'
                && text::value(line.subrange(5, line.len() - 1)) == state.sensor_battery->0
        }),
{
    reveal_strlit("SNS: ---");
    reveal_strlit("SNS: OK");
    reveal_strlit("SNS: ");
    reveal_strlit("%");
    let line = state.texts()[3];
    if let Some(b) = state.sensor_battery {
        text::law_decimal_roundtrip(b as nat);
        text::law_decimal_is_canonical(b as nat);
        if state.sensor_connected {
            assert(line.subrange(5, line.len() - 1) =~= text::decimal(b as nat));
        }
    }
    assert(line.take(5) =~= seq!['S', 'N', 'S', ':', ' ']);
    if !state.sensor_connected {
        assert(line.skip(5) =~= seq!['-', '-', '-']);
    } else if state.sensor_battery is None {
        assert(line.skip(5) =~= seq!['O', 'K']);
    }
}

/// The fifth line shows the three links, each in its own place: the phone, the sensor, and motion,
/// which is not known at first.
pub proof fn law_links_are_shown(state: ScreenState)
    ensures
        ({
            let line = state.texts()[4];
            let yes = |b: bool| if b { 'Y' } else { 'N' };
            line == seq!['i', 'O', 'S', ':', yes(state.ios_connected), ' ', 'C', 'A', 'D', ':', yes(
                state.sensor_connected,
            ), ' ', 'M', 'O', 'V', ':', match state.moving {
                Some(m) => yes(m),
                None => '?',
            }]
        }),
{
    reveal_strlit("iOS:");
    reveal_strlit(" CAD:");
    reveal_strlit(" MOV:");
    reveal_strlit("Y");
    reveal_strlit("N");
    reveal_strlit("?");
    let yes = |b: bool| if b { 'Y' } else { 'N' };
    assert(state.texts()[4] =~= seq!['i', 'O', 'S', ':', yes(state.ios_connected), ' ', 'C', 'A', 'D', ':', yes(
        state.sensor_connected,
    ), ' ', 'M', 'O', 'V', ':', match state.moving {
        Some(m) => yes(m),
        None => '?',
    }]);
}

/// The sixth line shows the time in two digits, a colon and two digits, or dashes while it is not
/// known.
pub proof fn law_time_is_shown(state: ScreenState)
    requires
        state.time matches Some((h, m)) ==> h < 24 && m < 60,
    ensures
        ({
            let line = state.texts()[5];
            &&& line.len() == 5 && line[2] == ':'
            &&& state.time matches Some((h, m)) ==> text::value(line.take(2)) == h && text::value(
                line.skip(3),
            ) == m
            &&& state.time is None ==> line == seq!['-', '-', ':', '-', '-']
        }),
{
    reveal_strlit("--:--");
    reveal_strlit(":");
    let line = state.texts()[5];
    if let Some((h, m)) = state.time {
        text::law_two_digits_roundtrip(h as nat);
        text::law_two_digits_roundtrip(m as nat);
        assert(line.take(2) =~= text::two_digits(h as nat));
        assert(line.skip(3) =~= text::two_digits(m as nat));
    } else {
        assert(line =~= seq!['-', '-', ':', '-', '-']);
    }
}

/// A message says what failed and, behind it, all of the other side's own words.
pub proof fn law_messages_carry_the_detail(detail: String)
    ensures
        text::says(InternalError::InitError(detail).text(), "init failed: "@, detail@),
        InternalError::RenderError.text() == "render failed"@,
{
    text::lemma_says("init failed: "@, detail@);
}

} // verus!
