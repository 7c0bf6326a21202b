//! The last word of the GPS receiver.
use crate::sentence;
use crate::sentence::{line_end, read_line, FixStatus, Reading, Rmc};
use crate::text;
use vstd::prelude::*;
use vstd::slice::slice_subrange;
use vstd::string::*;

verus! {

pub enum Error {
    /// The task could not be spawned; with the executor's own words.
    SpawnError(String),
    /// The port failed; with the driver's own words.
    ReadError(String),
    ParseError,
}

impl Error {
    pub open spec fn text(self) -> Seq<char> {
        match self {
            Error::SpawnError(detail) => "failed to spawn GPS task: "@ + detail@,
            Error::ReadError(detail) => "failed to read from GPS: "@ + detail@,
            Error::ParseError => "failed to parse GPS data"@,
        }
    }

    pub fn message(&self) -> (r: String)
        ensures
            r@ == self.text(),
    {
        match self {
            Error::SpawnError(detail) => String::from_str("failed to spawn GPS task: ").concat(
                detail.as_str(),
            ),
            Error::ReadError(detail) => String::from_str("failed to read from GPS: ").concat(
                detail.as_str(),
            ),
            Error::ParseError => String::from_str("failed to parse GPS data"),
        }
    }

    fn copy(&self) -> (r: Error)
        ensures
            r == *self,
    {
        match self {
            Error::SpawnError(detail) => Error::SpawnError(detail.clone()),
            Error::ReadError(detail) => Error::ReadError(detail.clone()),
            Error::ParseError => Error::ParseError,
        }
    }
}

#[derive(Clone, Copy, Debug, PartialEq, Eq, Structural)]
pub enum Status {
    Autonomous,
    Differential,
    Invalid,
}

/// What the last RMC sentence said. Degrees and knots are held as the bits of IEEE 754 numbers,
/// double for degrees and single for knots.
#[derive(Clone, Copy, Debug, PartialEq, Eq, Structural)]
pub struct State {
    pub lat: Option<u64>,
    pub lon: Option<u64>,
    pub speed_knots: Option<u32>,
    pub status: Option<Status>,
}

impl State {
    /// Whether two states agree. The bits of a number that is not a number may differ.
    pub open spec fn same_as(self, other: State) -> bool {
        &&& sentence::same64(self.lat, other.lat)
        &&& sentence::same64(self.lon, other.lon)
        &&& sentence::same32(self.speed_knots, other.speed_knots)
        &&& self.status == other.status
    }
}

pub open spec fn same(a: Result<State, Error>, b: Result<State, Error>) -> bool {
    match (a, b) {
        (Ok(x), Ok(y)) => x.same_as(y),
        _ => a == b,
    }
}

pub open spec fn state_of(rmc: Rmc) -> State {
    State {
        lat: rmc.lat,
        lon: rmc.lon,
        speed_knots: rmc.speed_knots,
        status: Some(
            match rmc.status {
                FixStatus::Autonomous => Status::Autonomous,
                FixStatus::Differential => Status::Differential,
                FixStatus::Invalid => Status::Invalid,
            },
        ),
    }
}

/// The last word after a reading: an RMC sentence replaces it, what cannot be read is an error,
/// and other sentences do not count.
pub open spec fn after_reading(last: Result<State, Error>, reading: Reading) -> Result<
    State,
    Error,
> {
    match reading {
        Reading::Rmc(rmc) => Ok(state_of(rmc)),
        Reading::Other => last,
        Reading::Unreadable => Err(Error::ParseError),
    }
}

/// The last word after a run of lines. An empty line counts for nothing.
pub open spec fn after_lines(last: Result<State, Error>, lines: Seq<Seq<u8>>) -> Result<
    State,
    Error,
>
    decreases lines.len(),
{
    if lines.len() == 0 {
        last
    } else if lines[0].len() == 0 {
        after_lines(last, lines.skip(1))
    } else {
        after_lines(after_reading(last, sentence::nmea_reading(lines[0])), lines.skip(1))
    }
}

/// The GPS task: its last word.
pub struct Gps {
    pub last: Result<State, Error>,
}

impl Gps {
    /// Nothing is known yet.
    pub fn new() -> (r: Gps)
        ensures
            r.last == Ok::<State, Error>(
                State { lat: None, lon: None, speed_knots: None, status: None },
            ),
    {
        Gps { last: Ok(State { lat: None, lon: None, speed_knots: None, status: None }) }
    }

    pub fn read(&self) -> (r: Result<State, Error>)
        ensures
            r == self.last,
    {
        match &self.last {
            Ok(state) => Ok(*state),
            Err(e) => Err(e.copy()),
        }
    }

    /// The port failed.
    pub fn on_read_error(&mut self, detail: String)
        ensures
            final(self).last == Err::<State, Error>(Error::ReadError(detail)),
    {
        self.last = Err(Error::ReadError(detail));
    }

    /// A line was read.
    pub fn on_reading(&mut self, reading: Reading)
        ensures
            final(self).last == after_reading(old(self).last, reading),
    {
        match reading {
            Reading::Rmc(rmc) => {
                let status = match rmc.status {
                    FixStatus::Autonomous => Status::Autonomous,
                    FixStatus::Differential => Status::Differential,
                    FixStatus::Invalid => Status::Invalid,
                };
                self.last = Ok(
                    State {
                        lat: rmc.lat,
                        lon: rmc.lon,
                        speed_knots: rmc.speed_knots,
                        status: Some(status),
                    },
                );
            },
            Reading::Other => {},
            Reading::Unreadable => {
                self.last = Err(Error::ParseError);
            },
        }
    }

    /// The receiver sent these bytes. The outcome is a function of the bytes and the last word,
    /// but for the bits of a number that is not a number.
    pub fn on_bytes(&mut self, data: &[u8])
        ensures
            same(final(self).last, after_lines(old(self).last, sentence::lines(data@))),
    {
        let mut start: usize = 0;
        let ghost mut exact = self.last;
        let ghost end_state = after_lines(self.last, sentence::lines(data@));
        assert(data@.skip(0) =~= data@);
        loop
            invariant_except_break
                end_state == after_lines(exact, sentence::lines(data@.skip(start as int))),
            invariant
                start <= data.len(),
                same(self.last, exact),
            ensures
                exact == end_state,
            decreases data.len() - start,
        {
            let end = line_end(data, start);
            let line = slice_subrange(data, start, end);
            let ghost rest = data@.skip(start as int);
            if line.len() > 0 {
                let reading = read_line(line);
                self.on_reading(reading);
                proof {
                    exact = after_reading(exact, sentence::nmea_reading(line@));
                }
            }
            proof {
                let lines = sentence::lines(rest);
                assert(rest.take(sentence::line_len(rest) as int) =~= line@);
                assert(lines[0] == line@);
                if end == data.len() {
                    assert(rest =~= line@);
                    assert(lines.skip(1) =~= seq![]);
                    reveal_with_fuel(after_lines, 2);
                } else {
                    let next = data@.skip(end as int + 1);
                    assert(rest.skip(sentence::line_len(rest) as int + 1) =~= next);
                    assert(lines.skip(1) =~= sentence::lines(next));
                }
            }
            if end == data.len() {
                break;
            }
            start = end + 1;
        }
    }
}

/// The last line that counts decides: whatever came before a readable RMC sentence, the last word
/// is that sentence's.
pub proof fn law_last_sentence_decides(
    last: Result<State, Error>,
    lines: Seq<Seq<u8>>,
    line: Seq<u8>,
)
    requires
        line.len() > 0,
        !(sentence::nmea_reading(line) is Other),
    ensures
        after_lines(last, lines.push(line)) == after_reading(last, sentence::nmea_reading(line)),
    decreases lines.len(),
{
    let all = lines.push(line);
    if lines.len() == 0 {
        assert(all.skip(1) =~= seq![]);
        reveal_with_fuel(after_lines, 2);
    } else {
        let rest = lines.skip(1);
        assert(all.skip(1) =~= rest.push(line));
        let next = if lines[0].len() == 0 {
            last
        } else {
            after_reading(last, sentence::nmea_reading(lines[0]))
        };
        law_last_sentence_decides(next, rest, line);
    }
}

/// An RMC sentence is taken over field by field, whatever the last word was: each coordinate, the
/// speed and the status are the sentence's own, present exactly where they are in it.
pub proof fn law_sentence_is_taken_over(last: Result<State, Error>, rmc: Rmc)
    ensures
        after_reading(last, Reading::Rmc(rmc)) is Ok,
        ({
            let s = after_reading(last, Reading::Rmc(rmc))->Ok_0;
            &&& s.lat == rmc.lat
            &&& s.lon == rmc.lon
            &&& s.speed_knots == rmc.speed_knots
            &&& s.status is Some
            &&& s.status->0 == Status::Autonomous <==> rmc.status == FixStatus::Autonomous
            &&& s.status->0 == Status::Differential <==> rmc.status == FixStatus::Differential
            &&& s.status->0 == Status::Invalid <==> rmc.status == FixStatus::Invalid
        }),
{
}

/// What cannot be read is an error, whatever the last word was, and a sentence of another type
/// leaves it as it was.
pub proof fn law_other_readings(last: Result<State, Error>)
    ensures
        after_reading(last, Reading::Unreadable) == Err::<State, Error>(Error::ParseError),
        after_reading(last, Reading::Other) == last,
{
}

/// Lines are taken one after the other, and each by its own reading; an empty one counts for
/// nothing.
pub proof fn law_lines_are_taken_in_turn(
    last: Result<State, Error>,
    lines: Seq<Seq<u8>>,
    line: Seq<u8>,
)
    ensures
        after_lines(last, lines.push(line)) == (if line.len() == 0 {
            after_lines(last, lines)
        } else {
            after_reading(after_lines(last, lines), sentence::nmea_reading(line))
        }),
        after_lines(last, seq![]) == last,
    decreases lines.len(),
{
    let all = lines.push(line);
    if lines.len() == 0 {
        assert(all.skip(1) =~= seq![]);
        reveal_with_fuel(after_lines, 2);
    } else {
        let rest = lines.skip(1);
        assert(all.skip(1) =~= rest.push(line));
        let next = if lines[0].len() == 0 {
            last
        } else {
            after_reading(last, sentence::nmea_reading(lines[0]))
        };
        law_lines_are_taken_in_turn(next, rest, line);
    }
}

/// A message says what failed and, behind it, all of the other side's own words.
pub proof fn law_messages_carry_the_detail(detail: String)
    ensures
        text::says(Error::SpawnError(detail).text(), "failed to spawn GPS task: "@, detail@),
        text::says(Error::ReadError(detail).text(), "failed to read from GPS: "@, detail@),
        Error::ParseError.text() == "failed to parse GPS data"@,
{
    text::lemma_says("failed to spawn GPS task: "@, detail@);
    text::lemma_says("failed to read from GPS: "@, detail@);
}

} // verus!
