//! The GPS receiver: when it sleeps, when it is restarted, and what is made of its sentences.
use crate::calendar;
use crate::ieee;
use crate::mcu::store::FixQuality;
use crate::sentence;
use crate::sentence::{line_end, read_line, FixStatus, Reading, Rmc};
use vstd::prelude::*;
use vstd::slice::slice_subrange;

verus! {

/// A position, in microdegrees.
#[derive(Clone, Copy, Debug, PartialEq, Eq, Structural)]
pub struct GpsState {
    pub lat_microdeg: i32,
    pub lon_microdeg: i32,
}

/// A position, and what the fix that it comes from is worth.
#[derive(Clone, Copy, Debug, PartialEq, Eq, Structural)]
pub struct Fix {
    pub state: GpsState,
    pub quality: FixQuality,
}

/// After this many seconds without a byte the receiver counts as silent.
pub const GPS_SILENCE_TIMEOUT_SECS: u64 = 5;

/// After this many silent windows in a row, and after each further as many, the receiver is
/// restarted: most likely its standby ignored the wake bytes.
pub const SILENT_WINDOWS_BEFORE_RESTART: u32 = 3;

/// What is written to the receiver.
#[derive(Clone, Copy, Debug, PartialEq, Eq, Structural)]
pub enum Command {
    /// Enter standby. RAM stays powered, so the next fix is a hot start.
    Standby,
    /// Any traffic releases the standby.
    Wake,
    /// Restart with the ephemeris kept.
    HotRestart,
}

/// What the GPS task does in answer to an event.
#[derive(Clone, Copy, Debug, PartialEq, Eq, Structural)]
pub enum Action {
    /// Publish the position, or that there is none.
    Publish(Option<Fix>),
    /// Write a command to the receiver.
    Write(Command),
    /// Anchor the wall clock at this many seconds since the epoch.
    Anchor(u32),
}

impl Command {
    /// The command on the line.
    pub open spec fn line(self) -> Seq<char> {
        match self {
            Command::Standby => "$PGKC051,0*37\r\n"@,
            Command::Wake => "\r\n"@,
            Command::HotRestart => "$PGKC030,1,1*2C\r\n"@,
        }
    }

    pub fn text(&self) -> (r: &'static str)
        ensures
            r@ == self.line(),
    {
        match self {
            Command::Standby => "$PGKC051,0*37\r\n",
            Command::Wake => "\r\n",
            Command::HotRestart => "$PGKC030,1,1*2C\r\n",
        }
    }
}

/// What a fix is worth; nothing where the receiver calls it invalid.
pub open spec fn quality(status: FixStatus) -> Option<FixQuality> {
    match status {
        FixStatus::Autonomous => Some(FixQuality::Autonomous),
        FixStatus::Differential => Some(FixQuality::Differential),
        FixStatus::Invalid => None,
    }
}

pub fn fix_quality(status: FixStatus) -> (r: Option<FixQuality>)
    ensures
        r == quality(status),
{
    match status {
        FixStatus::Autonomous => Some(FixQuality::Autonomous),
        FixStatus::Differential => Some(FixQuality::Differential),
        FixStatus::Invalid => None,
    }
}

/// The position that a sentence gives: none without a valid fix, without both coordinates, or
/// with one that lies off the globe.
pub open spec fn position(rmc: Rmc) -> Option<Fix> {
    match (rmc.lat, rmc.lon) {
        (Some(lat), Some(lon)) => if quality(rmc.status) is Some && ieee::magnitude(lat)
            <= ieee::NINETY && ieee::magnitude(lon) <= ieee::ONE_EIGHTY {
            Some(
                Fix {
                    state: GpsState {
                        lat_microdeg: ieee::millionths(lat) as i32,
                        lon_microdeg: ieee::millionths(lon) as i32,
                    },
                    quality: quality(rmc.status)->0,
                },
            )
        } else {
            None
        },
        _ => None,
    }
}

/// The time that a sentence gives: none without a valid fix, since a receiver without one sends
/// the date and time of a clock that was never set.
pub open spec fn wall_clock(rmc: Rmc) -> Option<int> {
    match (rmc.date, rmc.time) {
        (Some(d), Some(t)) => if quality(rmc.status) is Some {
            Some(
                calendar::seconds_since_epoch(
                    d.year as int,
                    d.month as int,
                    d.day as int,
                    t.hour as int,
                    t.minute as int,
                    t.second as int,
                ),
            )
        } else {
            None
        },
        _ => None,
    }
}

/// Whether there is a fix after a reading. Only an RMC sentence can change it.
pub open spec fn fix_after(had_fix: bool, reading: Reading) -> bool {
    match reading {
        Reading::Rmc(rmc) => position(rmc) is Some,
        _ => had_fix,
    }
}

/// What a reading leads to: a position is published; the loss of the fix is published once; and
/// the wall clock is anchored.
pub open spec fn reading_actions(had_fix: bool, reading: Reading) -> Seq<Action> {
    match reading {
        Reading::Rmc(rmc) => {
            let published = if position(rmc) is Some || had_fix {
                seq![Action::Publish(position(rmc))]
            } else {
                seq![]
            };
            let anchored = match wall_clock(rmc) {
                Some(secs) => seq![Action::Anchor(secs as u32)],
                None => seq![],
            };
            published + anchored
        },
        _ => seq![],
    }
}

/// Whether there is a fix after a run of lines. An empty line counts for nothing.
pub open spec fn fix_after_lines(had_fix: bool, lines: Seq<Seq<u8>>) -> bool
    decreases lines.len(),
{
    if lines.len() == 0 {
        had_fix
    } else if lines[0].len() == 0 {
        fix_after_lines(had_fix, lines.skip(1))
    } else {
        fix_after_lines(fix_after(had_fix, sentence::nmea_reading(lines[0])), lines.skip(1))
    }
}

/// What a run of lines leads to, line by line.
pub open spec fn line_actions(had_fix: bool, lines: Seq<Seq<u8>>) -> Seq<Action>
    decreases lines.len(),
{
    if lines.len() == 0 {
        seq![]
    } else if lines[0].len() == 0 {
        line_actions(had_fix, lines.skip(1))
    } else {
        reading_actions(had_fix, sentence::nmea_reading(lines[0])) + line_actions(
            fix_after(had_fix, sentence::nmea_reading(lines[0])),
            lines.skip(1),
        )
    }
}

/// Whether the time lies between the epoch and the last second that 32 bits can count.
pub open spec fn countable(year: int, month: int, day: int, hour: int, minute: int, second: int) -> bool {
    calendar::days_since_epoch(year, month, day) >= 0 && calendar::seconds_since_epoch(
        year,
        month,
        day,
        hour,
        minute,
        second,
    ) <= u32::MAX
}

/// Seconds since the epoch of a date and time of day (days in eras of 400 years that begin in
/// March). Every time of the years up to 2104 can be counted.
pub fn to_unix_epoch(year: i32, month: u8, day: u8, hour: u8, minute: u8, second: u8) -> (r: u32)
    requires
        1 <= month <= 12,
        day >= 1,
        1970 <= year <= 2104 || countable(
            year as int,
            month as int,
            day as int,
            hour as int,
            minute as int,
            second as int,
        ),
    ensures
        r == calendar::seconds_since_epoch(
            year as int,
            month as int,
            day as int,
            hour as int,
            minute as int,
            second as int,
        ),
{
    proof {
        calendar::lemma_days_before_year(year as int);
        calendar::lemma_days_before_month(year as int, month as int);
        calendar::lemma_leaps(year as int);
        calendar::lemma_year_bounds(year as int, month as int, day as int);
    }
    let y: u32 = if month <= 2 {
        year as u32 - 1
    } else {
        year as u32
    };
    let era = y / 400;
    let yoe = y % 400;
    let m = month as u32;
    let from_march = if m > 2 {
        m - 3
    } else {
        m + 9
    };
    let doy = (153 * from_march + 2) / 5 + day as u32 - 1;
    proof {
        calendar::lemma_eras(y as int);
    }
    let doe = yoe * 365 + yoe / 4 - yoe / 100 + doy;
    let days = era * 146097 + doe - 719468;
    days * 86400 + hour as u32 * 3600 + minute as u32 * 60 + second as u32
}

/// Readings that agree lead to the same: what is not a number lies off the globe, whichever of its
/// bits are set.
proof fn lemma_same_reading(had_fix: bool, a: Reading, b: Reading)
    requires
        a.same_as(b),
    ensures
        reading_actions(had_fix, a) == reading_actions(had_fix, b),
        fix_after(had_fix, a) == fix_after(had_fix, b),
{
}

/// The GPS task between two events.
#[derive(Clone, Copy, Debug, PartialEq, Eq, Structural)]
pub struct Gps {
    pub asleep: bool,
    pub had_fix: bool,
    pub silent_windows: u32,
}

impl Gps {
    /// A sleeping receiver has no fix.
    pub open spec fn wf(self) -> bool {
        self.asleep ==> !self.had_fix
    }

    /// At boot the receiver is awake and looks for a fix.
    pub fn new() -> (r: Gps)
        ensures
            r == (Gps { asleep: false, had_fix: false, silent_windows: 0 }),
            r.wf(),
    {
        Gps { asleep: false, had_fix: false, silent_windows: 0 }
    }

    /// The state once the power gate has been looked at.
    pub open spec fn after_gate(self, open: bool) -> Gps {
        if !self.asleep && !open {
            Gps { asleep: true, had_fix: false, ..self }
        } else if self.asleep && open {
            Gps { asleep: false, silent_windows: 0, ..self }
        } else {
            self
        }
    }

    /// What the power gate leads to: the receiver is put to sleep or woken.
    pub open spec fn gate_actions(self, open: bool) -> Seq<Action> {
        if !self.asleep && !open {
            seq![Action::Publish(None), Action::Write(Command::Standby)]
        } else if self.asleep && open {
            seq![Action::Write(Command::Wake)]
        } else {
            seq![]
        }
    }

    /// The power gate is open, or closed.
    pub fn on_gate(&mut self, open: bool) -> (r: Vec<Action>)
        requires
            old(self).wf(),
        ensures
            *final(self) == old(self).after_gate(open),
            final(self).wf(),
            r@ == old(self).gate_actions(open),
    {
        let mut actions: Vec<Action> = Vec::new();
        if !self.asleep && !open {
            actions.push(Action::Publish(None));
            actions.push(Action::Write(Command::Standby));
            self.asleep = true;
            self.had_fix = false;
        } else if self.asleep && open {
            actions.push(Action::Write(Command::Wake));
            self.asleep = false;
            self.silent_windows = 0;
        }
        actions
    }

    /// The state after a silent window.
    pub open spec fn after_silence(self) -> Gps {
        Gps {
            asleep: self.asleep,
            had_fix: false,
            silent_windows: (self.silent_windows + 1) as u32,
        }
    }

    /// What a silent window leads to.
    pub open spec fn silence_actions(self) -> Seq<Action> {
        let lost = if self.had_fix {
            seq![Action::Publish(None)]
        } else {
            seq![]
        };
        let restart = if (self.silent_windows + 1) % (SILENT_WINDOWS_BEFORE_RESTART as int) == 0 {
            seq![Action::Write(Command::HotRestart)]
        } else {
            seq![]
        };
        lost + restart
    }

    /// No byte came for a whole window.
    pub fn on_silence(&mut self) -> (r: Vec<Action>)
        requires
            old(self).wf(),
            old(self).silent_windows < u32::MAX,
        ensures
            *final(self) == old(self).after_silence(),
            final(self).wf(),
            r@ == old(self).silence_actions(),
    {
        let mut actions: Vec<Action> = Vec::new();
        if self.had_fix {
            actions.push(Action::Publish(None));
            self.had_fix = false;
        }
        self.silent_windows = self.silent_windows + 1;
        if self.silent_windows % SILENT_WINDOWS_BEFORE_RESTART == 0 {
            actions.push(Action::Write(Command::HotRestart));
        }
        assert(actions@ =~= old(self).silence_actions());
        actions
    }

    /// A line was read.
    pub fn on_reading(&mut self, reading: Reading) -> (r: Vec<Action>)
        requires
            old(self).wf(),
            !old(self).asleep,
            reading.wf(),
        ensures
            *final(self) == (Gps { had_fix: fix_after(old(self).had_fix, reading), ..*old(self) }),
            final(self).wf(),
            r@ == reading_actions(old(self).had_fix, reading),
    {
        let mut actions: Vec<Action> = Vec::new();
        match reading {
            Reading::Rmc(rmc) => {
                let fix = fix_quality(rmc.status);
                let mut place: Option<Fix> = None;
                match (fix, rmc.lat, rmc.lon) {
                    (Some(quality), Some(lat), Some(lon)) => {
                        if ieee::within(lat, ieee::NINETY) && ieee::within(lon, ieee::ONE_EIGHTY) {
                            let state = GpsState {
                                lat_microdeg: ieee::to_millionths(lat),
                                lon_microdeg: ieee::to_millionths(lon),
                            };
                            place = Some(Fix { state, quality });
                        }
                    },
                    _ => {},
                }
                assert(place == position(rmc));
                if place.is_some() || self.had_fix {
                    actions.push(Action::Publish(place));
                }
                self.had_fix = place.is_some();
                if fix.is_some() {
                    match (rmc.date, rmc.time) {
                        (Some(date), Some(time)) => {
                            let epoch = to_unix_epoch(
                                date.year,
                                date.month as u8,
                                date.day as u8,
                                time.hour as u8,
                                time.minute as u8,
                                time.second as u8,
                            );
                            actions.push(Action::Anchor(epoch));
                        },
                        _ => {},
                    }
                }
                assert(actions@ =~= reading_actions(old(self).had_fix, reading));
            },
            _ => {},
        }
        actions
    }

    /// The state after a read: whatever the bytes are, the receiver is not silent.
    pub open spec fn after_bytes(self, data: Seq<u8>) -> Gps {
        Gps {
            had_fix: fix_after_lines(self.had_fix, sentence::lines(data)),
            silent_windows: 0,
            ..self
        }
    }

    /// The receiver sent these bytes.
    pub fn on_bytes(&mut self, data: &[u8]) -> (r: Vec<Action>)
        requires
            old(self).wf(),
            !old(self).asleep,
        ensures
            *final(self) == (Gps {
                asleep: false,
                had_fix: fix_after_lines(old(self).had_fix, sentence::lines(data@)),
                silent_windows: 0,
            }),
            *final(self) == old(self).after_bytes(data@),
            final(self).wf(),
            r@ == line_actions(old(self).had_fix, sentence::lines(data@)),
    {
        let mut actions: Vec<Action> = Vec::new();
        self.silent_windows = 0;
        let mut start: usize = 0;
        let ghost had_fix = self.had_fix;
        let ghost all = sentence::lines(data@);
        assert(data@.skip(0) =~= data@);
        loop
            invariant_except_break
                fix_after_lines(had_fix, all) == fix_after_lines(
                    self.had_fix,
                    sentence::lines(data@.skip(start as int)),
                ),
                line_actions(had_fix, all) == actions@ + line_actions(
                    self.had_fix,
                    sentence::lines(data@.skip(start as int)),
                ),
            invariant
                start <= data.len(),
                !self.asleep,
                self.silent_windows == 0,
            ensures
                self.had_fix == fix_after_lines(had_fix, all),
                actions@ == line_actions(had_fix, all),
            decreases data.len() - start,
        {
            let end = line_end(data, start);
            let line = slice_subrange(data, start, end);
            let ghost rest = data@.skip(start as int);
            let ghost before = actions@;
            if line.len() > 0 {
                let reading = read_line(line);
                proof {
                    lemma_same_reading(self.had_fix, reading, sentence::nmea_reading(line@));
                }
                let mut more = self.on_reading(reading);
                actions.append(&mut more);
            }
            proof {
                let lines = sentence::lines(rest);
                assert(rest.take(sentence::line_len(rest) as int) =~= line@);
                assert(lines[0] == line@);
                if end == data.len() {
                    assert(rest =~= line@);
                    assert(lines.skip(1) =~= seq![]);
                    reveal_with_fuel(fix_after_lines, 2);
                    reveal_with_fuel(line_actions, 2);
                } else {
                    let next = data@.skip(end as int + 1);
                    assert(rest.skip(sentence::line_len(rest) as int + 1) =~= next);
                    assert(lines.skip(1) =~= sentence::lines(next));
                }
            }
            if end == data.len() {
                break;
            }
            start = end + 1;
        }
        actions
    }
}

/// What is published, in order, among a run of actions.
pub open spec fn published(actions: Seq<Action>) -> Seq<Option<Fix>>
    decreases actions.len(),
{
    if actions.len() == 0 {
        seq![]
    } else {
        match actions[0] {
            Action::Publish(place) => seq![place] + published(actions.skip(1)),
            _ => published(actions.skip(1)),
        }
    }
}

proof fn lemma_published_joins(a: Seq<Action>, b: Seq<Action>)
    ensures
        published(a + b) == published(a) + published(b),
    decreases a.len(),
{
    if a.len() == 0 {
        assert(a + b =~= b);
        assert(published(a) + published(b) =~= published(b));
    } else {
        lemma_published_joins(a.skip(1), b);
        assert((a + b).skip(1) =~= a.skip(1) + b);
        assert((a + b)[0] == a[0]);
        assert(published(a + b) =~= published(a) + published(b));
    }
}

proof fn lemma_reading_publishes(had_fix: bool, reading: Reading)
    ensures
        ({
            let p = published(reading_actions(had_fix, reading));
            match reading {
                Reading::Rmc(rmc) => p == (if position(rmc) is Some || had_fix {
                    seq![position(rmc)]
                } else {
                    seq![]
                }),
                _ => p == Seq::<Option<Fix>>::empty(),
            }
        }),
{
    reveal_with_fuel(published, 3);
    match reading {
        Reading::Rmc(rmc) => {
            let a = if position(rmc) is Some || had_fix {
                seq![Action::Publish(position(rmc))]
            } else {
                seq![]
            };
            let b = match wall_clock(rmc) {
                Some(secs) => seq![Action::Anchor(secs as u32)],
                None => seq![],
            };
            lemma_published_joins(a, b);
            assert(published(b) =~= seq![]);
            if a.len() > 0 {
                assert(a.skip(1) =~= seq![]);
                assert(published(a) =~= seq![position(rmc)]);
            }
            assert(published(a + b) =~= published(a));
        },
        _ => {},
    }
}

/// A loss is reported once, on the transition: whatever lines are read, two reports of a loss have
/// a position between them, and without a fix at the start a position comes first. After the
/// lines there is a fix exactly if the last thing published was a position.
pub proof fn law_one_loss_per_transition(had_fix: bool, lines: Seq<Seq<u8>>)
    ensures
        ({
            let p = published(line_actions(had_fix, lines));
            &&& forall|i: int|
                0 <= i < p.len() - 1 ==> (#[trigger] p[i]) is Some || p[i + 1] is Some
            &&& p.len() > 0 && !had_fix ==> p[0] is Some
            &&& fix_after_lines(had_fix, lines) == (if p.len() > 0 {
                p.last() is Some
            } else {
                had_fix
            })
        }),
    decreases lines.len(),
{
    if lines.len() > 0 {
        let rest = lines.skip(1);
        if lines[0].len() == 0 {
            law_one_loss_per_transition(had_fix, rest);
        } else {
            let reading = sentence::nmea_reading(lines[0]);
            let now = fix_after(had_fix, reading);
            law_one_loss_per_transition(now, rest);
            lemma_reading_publishes(had_fix, reading);
            let a = reading_actions(had_fix, reading);
            let b = line_actions(now, rest);
            lemma_published_joins(a, b);
            let p = published(line_actions(had_fix, lines));
            assert(p =~= published(a) + published(b));
            assert forall|i: int| 0 <= i < p.len() - 1 implies (#[trigger] p[i]) is Some || p[i
                + 1] is Some by {
                let k = published(a).len();
                if i >= k {
                    assert(p[i] == published(b)[i - k]);
                    assert(p[i + 1] == published(b)[i - k + 1]);
                }
            }
        }
    }
}

/// Lines are taken one after the other: a run of them leads to what its first part leads to, and
/// then to what the rest leads to from there.
pub proof fn law_lines_are_taken_in_turn(had_fix: bool, first: Seq<Seq<u8>>, rest: Seq<Seq<u8>>)
    ensures
        fix_after_lines(had_fix, first + rest) == fix_after_lines(
            fix_after_lines(had_fix, first),
            rest,
        ),
        line_actions(had_fix, first + rest) == line_actions(had_fix, first) + line_actions(
            fix_after_lines(had_fix, first),
            rest,
        ),
    decreases first.len(),
{
    let all = first + rest;
    if first.len() == 0 {
        assert(all =~= rest);
        assert(line_actions(had_fix, first) + line_actions(had_fix, rest) =~= line_actions(
            had_fix,
            rest,
        ));
    } else {
        assert(all.skip(1) =~= first.skip(1) + rest);
        assert(all[0] == first[0]);
        if first[0].len() == 0 {
            law_lines_are_taken_in_turn(had_fix, first.skip(1), rest);
        } else {
            let reading = sentence::nmea_reading(first[0]);
            let now = fix_after(had_fix, reading);
            law_lines_are_taken_in_turn(now, first.skip(1), rest);
            assert(line_actions(had_fix, all) =~= line_actions(had_fix, first) + line_actions(
                fix_after_lines(had_fix, first),
                rest,
            ));
        }
    }
}

/// A read that was cancelled in the middle of a sentence does no harm: whatever the first part of
/// a read holds, the sentences after the next newline lead to what they lead to by themselves.
pub proof fn law_reading_resyncs_at_a_newline(had_fix: bool, before: Seq<u8>, after: Seq<u8>)
    ensures
        ({
            let read = sentence::lines(before.push(sentence::NEWLINE) + after);
            let then = fix_after_lines(had_fix, sentence::lines(before));
            &&& fix_after_lines(had_fix, read) == fix_after_lines(then, sentence::lines(after))
            &&& line_actions(had_fix, read) == line_actions(had_fix, sentence::lines(before))
                + line_actions(then, sentence::lines(after))
        }),
{
    sentence::law_newline_starts_afresh(before, after);
    law_lines_are_taken_in_turn(had_fix, sentence::lines(before), sentence::lines(after));
}

/// Without a valid fix the wall clock is left alone, whatever date and time the sentence carries.
pub proof fn law_no_anchor_without_a_fix(had_fix: bool, rmc: Rmc)
    requires
        rmc.status == FixStatus::Invalid,
    ensures
        forall|i: int|
            0 <= i < reading_actions(had_fix, Reading::Rmc(rmc)).len() ==> !(#[trigger] reading_actions(
                had_fix,
                Reading::Rmc(rmc),
            )[i] is Anchor),
{
}

/// A position and a time that are published are the ones that were read: they fit their types.
pub proof fn law_nothing_is_cut_off(rmc: Rmc)
    requires
        rmc.wf(),
    ensures
        position(rmc) matches Some(p) ==> p.state.lat_microdeg == ieee::millionths(rmc.lat->0)
            && p.state.lon_microdeg == ieee::millionths(rmc.lon->0),
        wall_clock(rmc) matches Some(secs) ==> 0 <= secs <= u32::MAX,
{
    if position(rmc) is Some {
        ieee::lemma_millionths_fit(rmc.lat->0);
        ieee::lemma_millionths_fit(rmc.lon->0);
    }
    if wall_clock(rmc) is Some {
        let d = rmc.date->0;
        calendar::lemma_days_before_year(d.year as int);
        calendar::lemma_days_before_month(d.year as int, d.month as int);
    }
}

/// The state after `n` silent windows in a row.
pub open spec fn after_silences(gps: Gps, n: nat) -> Gps
    decreases n,
{
    if n == 0 {
        gps
    } else {
        after_silences(gps, (n - 1) as nat).after_silence()
    }
}

/// While the receiver stays silent, every third window restarts it and no other does, counted
/// from when it was last heard or woken; the loss is reported in the first window if at all.
pub proof fn law_restart_every_third_window(gps: Gps, n: nat)
    requires
        gps.silent_windows == 0,
        1 <= n <= u32::MAX,
    ensures
        after_silences(gps, n) == (Gps { had_fix: false, silent_windows: n as u32, ..gps }),
        ({
            let a = after_silences(gps, (n - 1) as nat).silence_actions();
            &&& a.contains(Action::Write(Command::HotRestart)) <==> n % 3 == 0
            &&& a.contains(Action::Publish(None)) <==> n == 1 && gps.had_fix
        }),
    decreases n,
{
    reveal_with_fuel(after_silences, 2);
    if n > 1 {
        law_restart_every_third_window(gps, (n - 1) as nat);
    }
    let before = after_silences(gps, (n - 1) as nat);
    let a = before.silence_actions();
    if before.had_fix {
        assert(a[0] == Action::Publish(None));
    }
    if n % 3 == 0 {
        assert(a.last() == Action::Write(Command::HotRestart));
    }
}

/// A gate that is looked at again without having moved leads to nothing.
pub proof fn law_gate_is_idempotent(gps: Gps, open: bool)
    ensures
        gps.after_gate(open).after_gate(open) == gps.after_gate(open),
        gps.after_gate(open).gate_actions(open) == Seq::<Action>::empty(),
{
}

/// The clock is anchored at the time that was read, and at no other: a sentence with a valid fix,
/// a date and a time ends in one anchor, whose seconds hold the hour, the minute and the second of
/// the sentence and, divided by the 86,400 of a day, the days from 1970 to its date. Any other
/// reading leaves the clock alone.
pub proof fn law_anchor_is_the_time_read(had_fix: bool, reading: Reading)
    requires
        reading.wf(),
    ensures
        ({
            let a = reading_actions(had_fix, reading);
            let timed = match reading {
                Reading::Rmc(rmc) => rmc.status != FixStatus::Invalid && rmc.date is Some
                    && rmc.time is Some,
                _ => false,
            };
            &&& forall|i: int| 0 <= i < a.len() - 1 ==> !(#[trigger] a[i] is Anchor)
            &&& a.len() > 0 ==> (a.last() is Anchor <==> timed)
            &&& timed ==> a.len() > 0 && {
                let d = reading->Rmc_0.date->0;
                let t = reading->Rmc_0.time->0;
                let s = a.last()->Anchor_0 as int;
                &&& s % 86_400 == 3_600 * t.hour + 60 * t.minute + t.second
                &&& s / 86_400 == calendar::days_since_epoch(
                    d.year as int,
                    d.month as int,
                    d.day as int,
                )
            }
        }),
{
    if let Reading::Rmc(rmc) = reading {
        law_nothing_is_cut_off(rmc);
        let a = reading_actions(had_fix, reading);
        if wall_clock(rmc) is Some {
            assert(a.last() == Action::Anchor(wall_clock(rmc)->0 as u32));
        }
    }
}

/// Two sentences whose times lie so many seconds apart anchor the clock so many seconds apart, on
/// one day and over midnight.
pub proof fn law_anchors_are_as_far_apart_as_the_times(a: Rmc, b: Rmc, had_fix: bool)
    requires
        a.wf(),
        b.wf(),
        a.status != FixStatus::Invalid,
        b.status != FixStatus::Invalid,
        a.date is Some && a.time is Some,
        b.date is Some && b.time is Some,
        a.date->0.year == b.date->0.year,
        a.date->0.month == b.date->0.month,
    ensures
        reading_actions(had_fix, Reading::Rmc(b)).last()->Anchor_0 - reading_actions(
            had_fix,
            Reading::Rmc(a),
        ).last()->Anchor_0 == 86_400 * (b.date->0.day - a.date->0.day) + 3_600 * (b.time->0.hour
            - a.time->0.hour) + 60 * (b.time->0.minute - a.time->0.minute) + (b.time->0.second
            - a.time->0.second),
{
    law_anchor_is_the_time_read(had_fix, Reading::Rmc(a));
    law_anchor_is_the_time_read(had_fix, Reading::Rmc(b));
}

/// Whether a sentence gives a position: the fix is valid, and both coordinates are there and are
/// numbers of at most 90 and 180 degrees.
pub open spec fn locates(rmc: Rmc) -> bool {
    &&& rmc.status != FixStatus::Invalid
    &&& rmc.lat is Some && rmc.lat->0 % 0x8000_0000_0000_0000 <= 0x4056_8000_0000_0000
    &&& rmc.lon is Some && rmc.lon->0 % 0x8000_0000_0000_0000 <= 0x4066_8000_0000_0000
}

/// What is published of a reading, in full: each position once, first of all, with its own
/// latitude, longitude and quality; a loss where there was a fix; and nothing otherwise. There is
/// a fix afterwards exactly where the last RMC sentence gave a position.
pub proof fn law_positions_are_published(had_fix: bool, reading: Reading)
    ensures
        ({
            let a = reading_actions(had_fix, reading);
            match reading {
                Reading::Rmc(rmc) => {
                    &&& fix_after(had_fix, reading) == locates(rmc)
                    &&& forall|i: int| 1 <= i < a.len() ==> !(#[trigger] a[i] is Publish)
                    &&& a.len() > 0 && a[0] is Publish <==> locates(rmc) || had_fix
                    &&& !locates(rmc) && had_fix ==> a[0] == Action::Publish(None)
                    &&& locates(rmc) ==> a[0] == Action::Publish(
                        Some(
                            Fix {
                                state: GpsState {
                                    lat_microdeg: ieee::millionths(rmc.lat->0) as i32,
                                    lon_microdeg: ieee::millionths(rmc.lon->0) as i32,
                                },
                                quality: match rmc.status {
                                    FixStatus::Differential => FixQuality::Differential,
                                    _ => FixQuality::Autonomous,
                                },
                            },
                        ),
                    )
                },
                _ => a.len() == 0 && fix_after(had_fix, reading) == had_fix,
            }
        }),
{
}

/// A reading writes nothing to the receiver.
pub proof fn law_readings_write_nothing(had_fix: bool, reading: Reading)
    ensures
        forall|i: int|
            0 <= i < reading_actions(had_fix, reading).len() ==> !(#[trigger] reading_actions(
                had_fix,
                reading,
            )[i] is Write),
{
}

/// A published position lies where the sentence says: each coordinate, in microdegrees, is within
/// one microdegree, and one part in 2^53, of the sentence's degrees, and has their sign.
pub proof fn law_published_position_is_near(had_fix: bool, rmc: Rmc)
    requires
        locates(rmc),
    ensures
        ({
            let place = reading_actions(had_fix, Reading::Rmc(rmc))[0]->Publish_0->0.state;
            let near = |bits: u64, microdeg: int| {
                let exact = ieee::significand(bits) * 1_000_000;
                let unit = ieee::unit(bits);
                let size = if bits >= 0x8000_0000_0000_0000 {
                    -microdeg
                } else {
                    microdeg
                };
                exact - unit - 0x8_0000 < size * unit <= exact + 0x8_0000
            };
            &&& near(rmc.lat->0, place.lat_microdeg as int)
            &&& near(rmc.lon->0, place.lon_microdeg as int)
        }),
{
    law_positions_are_published(had_fix, Reading::Rmc(rmc));
    ieee::lemma_millionths_fit(rmc.lat->0);
    ieee::lemma_millionths_fit(rmc.lon->0);
    ieee::law_millionths_are_near(rmc.lat->0);
    ieee::law_millionths_are_near(rmc.lon->0);
}

/// A line by itself leads to what its sentence leads to, and an empty line to nothing; so, lines
/// being taken in turn, this says what any read leads to.
pub proof fn law_lines_are_sentences(had_fix: bool, line: Seq<u8>)
    ensures
        line_actions(had_fix, seq![line]) == (if line.len() == 0 {
            seq![]
        } else {
            reading_actions(had_fix, sentence::nmea_reading(line))
        }),
        fix_after_lines(had_fix, seq![line]) == (if line.len() == 0 {
            had_fix
        } else {
            fix_after(had_fix, sentence::nmea_reading(line))
        }),
        line_actions(had_fix, seq![]) == Seq::<Action>::empty(),
        fix_after_lines(had_fix, seq![]) == had_fix,
{
    reveal_with_fuel(line_actions, 2);
    reveal_with_fuel(fix_after_lines, 2);
    let one = seq![line];
    assert(one.skip(1) =~= seq![]);
    assert(reading_actions(had_fix, sentence::nmea_reading(line)) + Seq::<Action>::empty()
        =~= reading_actions(had_fix, sentence::nmea_reading(line)));
}

/// What the power gate does to the receiver: a closed one puts it to sleep and an open one wakes
/// it. Falling asleep gives up the fix, says so and writes the standby command, in this order;
/// waking writes the wake command and counts silent windows anew; nothing else is done or changed.
pub proof fn law_gate_moves_the_receiver(gps: Gps, open: bool)
    ensures
        ({
            let then = gps.after_gate(open);
            let a = gps.gate_actions(open);
            let falls = !gps.asleep && !open;
            let wakes = gps.asleep && open;
            &&& then.asleep == !open
            &&& then.had_fix == (gps.had_fix && !falls)
            &&& then.silent_windows == (if wakes { 0 } else { gps.silent_windows })
            &&& a.len() == (if falls { 2int } else if wakes { 1 } else { 0 })
            &&& falls ==> a[0] == Action::Publish(None) && a[1] == Action::Write(Command::Standby)
            &&& wakes ==> a[0] == Action::Write(Command::Wake)
        }),
{
}

/// A silent window, in full: it is counted, and there is no fix after it. A fix that there was is
/// reported lost, once, and the receiver is restarted with every third window that is counted.
pub proof fn law_silence_is_counted(gps: Gps)
    requires
        gps.silent_windows < u32::MAX,
    ensures
        ({
            let then = gps.after_silence();
            let a = gps.silence_actions();
            let restarts = (gps.silent_windows + 1) % 3 == 0;
            &&& then.silent_windows == gps.silent_windows + 1
            &&& !then.had_fix
            &&& then.asleep == gps.asleep
            &&& a.len() == (if gps.had_fix { 1int } else { 0 }) + (if restarts { 1int } else { 0 })
            &&& gps.had_fix ==> a[0] == Action::Publish(None)
            &&& restarts ==> a.last() == Action::Write(Command::HotRestart)
        }),
{
}

/// What the commands are on the line: standby and restart are sentences of their own whose
/// checksum is the two hexadecimal digits behind the asterisk, and the wake-up is an empty line.
pub proof fn law_commands_are_lines(command: Command)
    ensures
        ({
            let line = command.line();
            &&& line.len() >= 2 && line[line.len() - 2] == '\r' && line.last() == '\n'
            &&& command is Wake <==> line.len() == 2
            &&& command is Standby ==> line.take(13) == "$PGKC051,0*37"@ && line.len() == 15
            &&& command is HotRestart ==> line.take(15) == "$PGKC030,1,1*2C"@ && line.len() == 17
        }),
{
    reveal_strlit("$PGKC051,0*37\r\n");
    reveal_strlit("\r\n");
    reveal_strlit("$PGKC030,1,1*2C\r\n");
    reveal_strlit("$PGKC051,0*37");
    reveal_strlit("$PGKC030,1,1*2C");
}

/// Any byte ends the silence: after a read, whatever it holds and however long the receiver was
/// silent before, it takes three silent windows to restart the receiver, and a read that holds no
/// line leaves the fix as it was.
pub proof fn law_any_byte_ends_the_silence(gps: Gps, data: Seq<u8>, n: nat)
    requires
        1 <= n <= u32::MAX,
    ensures
        after_silences(gps.after_bytes(data), (n - 1) as nat).silence_actions().contains(
            Action::Write(Command::HotRestart),
        ) <==> n % 3 == 0,
        gps.after_bytes(data).asleep == gps.asleep,
        gps.after_bytes(seq![10u8]).had_fix == gps.had_fix,
{
    law_restart_every_third_window(gps.after_bytes(data), n);
    sentence::law_newline_starts_afresh(seq![], seq![]);
    let read = seq![10u8];
    assert(Seq::<u8>::empty().push(sentence::NEWLINE) + Seq::<u8>::empty() =~= read);
    assert(sentence::lines(seq![]) =~= seq![Seq::<u8>::empty()]);
    law_lines_are_taken_in_turn(gps.had_fix, sentence::lines(seq![]), sentence::lines(seq![]));
    law_lines_are_sentences(gps.had_fix, seq![]);
}

} // verus!
