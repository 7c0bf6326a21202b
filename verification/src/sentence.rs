//! NMEA sentences: cutting a UART read into lines, and what a line says.
use chrono::{Datelike, Timelike};
use nmea::sentences::rmc::RmcStatusOfFix::{Autonomous, Differential, Invalid};
use nmea::{parse_bytes, ParseResult};
use vstd::prelude::*;

verus! {

/// The byte that ends a line.
pub const NEWLINE: u8 = 10;

/// The receiver's own word on its fix.
#[derive(Clone, Copy, Debug, PartialEq, Eq, Structural)]
pub enum FixStatus {
    Autonomous,
    Differential,
    Invalid,
}

#[derive(Clone, Copy, Debug, PartialEq, Eq, Structural)]
pub struct Date {
    pub year: i32,
    pub month: u32,
    pub day: u32,
}

#[derive(Clone, Copy, Debug, PartialEq, Eq, Structural)]
pub struct TimeOfDay {
    pub hour: u32,
    pub minute: u32,
    pub second: u32,
}

/// What the recorder reads of an RMC sentence. Degrees and knots are held as the bits of the
/// IEEE 754 number that the sentence was parsed into, double for degrees and single for knots.
#[derive(Clone, Copy, Debug, PartialEq, Eq, Structural)]
pub struct Rmc {
    pub status: FixStatus,
    pub lat: Option<u64>,
    pub lon: Option<u64>,
    pub speed_knots: Option<u32>,
    pub date: Option<Date>,
    pub time: Option<TimeOfDay>,
}

#[derive(Clone, Copy, Debug, PartialEq, Eq, Structural)]
pub enum Reading {
    Rmc(Rmc),
    /// A sentence of another type.
    Other,
    /// No sentence: cut short, garbled or unknown.
    Unreadable,
}

/// Whether the bits are those of a double that is not a number.
pub open spec fn is_nan64(bits: u64) -> bool {
    bits % 0x8000_0000_0000_0000 > 0x7FF0_0000_0000_0000
}

/// Whether the bits are those of a single that is not a number.
pub open spec fn is_nan32(bits: u32) -> bool {
    bits % 0x8000_0000 > 0x7F80_0000
}

/// The same double, where all that are not a number count as one.
pub open spec fn same64(a: Option<u64>, b: Option<u64>) -> bool {
    a == b || (a is Some && b is Some && is_nan64(a->0) && is_nan64(b->0))
}

/// The same single, where all that are not a number count as one.
pub open spec fn same32(a: Option<u32>, b: Option<u32>) -> bool {
    a == b || (a is Some && b is Some && is_nan32(a->0) && is_nan32(b->0))
}

impl Rmc {
    /// Whether two readings agree. The bits of a number that is not a number may differ.
    pub open spec fn same_as(self, other: Rmc) -> bool {
        &&& self.status == other.status
        &&& same64(self.lat, other.lat)
        &&& same64(self.lon, other.lon)
        &&& same32(self.speed_knots, other.speed_knots)
        &&& self.date == other.date
        &&& self.time == other.time
    }

    /// The date and the time are such as a clock can show, and the year is one that two digits
    /// can stand for.
    pub open spec fn wf(self) -> bool {
        &&& self.date matches Some(d) ==> {
            1983 <= d.year <= 2082 && 1 <= d.month <= 12 && 1 <= d.day <= 31
        }
        &&& self.time matches Some(t) ==> t.hour < 24 && t.minute < 60 && t.second < 60
    }
}

impl Reading {
    pub open spec fn same_as(self, other: Reading) -> bool {
        match (self, other) {
            (Reading::Rmc(a), Reading::Rmc(b)) => a.same_as(b),
            _ => self == other,
        }
    }

    pub open spec fn wf(self) -> bool {
        self matches Reading::Rmc(r) ==> r.wf()
    }
}

/// What `nmea::parse_bytes` makes of a line.
pub uninterp spec fn nmea_reading(line: Seq<u8>) -> Reading;

/// Reads a line with `nmea::parse_bytes`, and takes over the fields of an RMC sentence that the
/// recorder uses. The outcome is a function of the line, but for the bits of a coordinate or
/// speed that is not a number. A two-digit year from 83 on lies in the 1900s and any other in the
/// 2000s; dates and times are checked before they are returned.
#[verifier::external_body]
pub(crate) fn read_line(line: &[u8]) -> (r: Reading)
    ensures
        r.same_as(nmea_reading(line@)),
        r.wf(),
{
    match parse_bytes(line) {
        Ok(ParseResult::RMC(d)) => Reading::Rmc(Rmc {
            status: match d.status_of_fix {
                Autonomous => FixStatus::Autonomous,
                Differential => FixStatus::Differential,
                Invalid => FixStatus::Invalid },
            lat: d.lat.map(|x| x.to_bits()), lon: d.lon.map(|x| x.to_bits()),
            speed_knots: d.speed_over_ground.map(|x| x.to_bits()),
            date: d.fix_date.map(|x| Date { year: x.year(), month: x.month(), day: x.day() }),
            time: d.fix_time.map(|x| TimeOfDay { hour: x.hour(), minute: x.minute(), second: x.second() }) }),
        Ok(_) => Reading::Other,
        Err(_) => Reading::Unreadable
    }
}

/// How many bytes stand before the first newline, or in all where there is none.
pub open spec fn line_len(b: Seq<u8>) -> nat
    decreases b.len(),
{
    if b.len() == 0 || b[0] == NEWLINE {
        0
    } else {
        1 + line_len(b.skip(1))
    }
}

/// The lines of a read: what stands between newlines, the stretches before the first and after
/// the last included. A line may be empty.
pub open spec fn lines(b: Seq<u8>) -> Seq<Seq<u8>>
    decreases b.len(),
{
    if line_len(b) >= b.len() {
        seq![b]
    } else {
        seq![b.take(line_len(b) as int)] + lines(b.skip(line_len(b) as int + 1))
    }
}

/// The lines with a newline between each two.
pub open spec fn joined(l: Seq<Seq<u8>>) -> Seq<u8>
    decreases l.len(),
{
    if l.len() == 0 {
        Seq::empty()
    } else if l.len() == 1 {
        l[0]
    } else {
        l[0].push(NEWLINE) + joined(l.skip(1))
    }
}

proof fn lemma_line_len(b: Seq<u8>)
    ensures
        line_len(b) <= b.len(),
        line_len(b) < b.len() ==> b[line_len(b) as int] == NEWLINE,
        forall|i: int| 0 <= i < line_len(b) ==> b[i] != NEWLINE,
    decreases b.len(),
{
    if b.len() > 0 && b[0] != NEWLINE {
        let rest = b.skip(1);
        lemma_line_len(rest);
        assert forall|i: int| 0 <= i < line_len(b) implies b[i] != NEWLINE by {
            if i > 0 {
                assert(b[i] == rest[i - 1]);
            }
        }
    }
}

/// The first newline, or the end, is where `line_len` says.
proof fn lemma_line_len_is(b: Seq<u8>, n: int)
    requires
        0 <= n <= b.len(),
        n < b.len() ==> b[n] == NEWLINE,
        forall|i: int| 0 <= i < n ==> b[i] != NEWLINE,
    ensures
        line_len(b) == n,
{
    lemma_line_len(b);
    let m = line_len(b) as int;
    if m < n {
        assert(b[m] == NEWLINE);
    }
    if n < m {
        assert(b[n] == NEWLINE);
    }
}

/// Cutting loses nothing: the lines, joined, are the bytes that were read, and no line holds a
/// newline.
pub proof fn law_lines_rejoin(b: Seq<u8>)
    ensures
        lines(b).len() >= 1,
        joined(lines(b)) == b,
        forall|k: int, i: int|
            0 <= k < lines(b).len() && 0 <= i < lines(b)[k].len() ==> #[trigger] lines(b)[k][i]
                != NEWLINE,
    decreases b.len(),
{
    lemma_line_len(b);
    let n = line_len(b) as int;
    if n < b.len() {
        let rest = b.skip(n + 1);
        law_lines_rejoin(rest);
        let l = lines(b);
        assert(l.skip(1) =~= lines(rest));
        assert(joined(l) == l[0].push(NEWLINE) + joined(l.skip(1)));
        assert(b.take(n).push(NEWLINE) + rest =~= b);
        assert forall|k: int, i: int| 0 <= k < l.len() && 0 <= i < l[k].len() implies #[trigger] l[k][i]
            != NEWLINE by {
            if k > 0 {
                assert(l[k] == lines(rest)[k - 1]);
                assert(lines(rest)[k - 1][i] != NEWLINE);
            }
        }
    } else {
        assert(joined(lines(b)) == b);
    }
}

/// A newline starts afresh: whatever came before it, even a sentence that was cut short, the lines
/// after it are those of what follows.
pub proof fn law_newline_starts_afresh(before: Seq<u8>, after: Seq<u8>)
    ensures
        lines(before.push(NEWLINE) + after) == lines(before) + lines(after),
    decreases before.len(),
{
    let b = before.push(NEWLINE) + after;
    lemma_line_len(before);
    let n = line_len(before) as int;
    assert forall|i: int| 0 <= i < n implies b[i] != NEWLINE by {
        assert(b[i] == before[i]);
    }
    if n == before.len() {
        assert(b[n] == NEWLINE);
        lemma_line_len_is(b, n);
        assert(b.take(n) =~= before);
        assert(b.skip(n + 1) =~= after);
        assert(lines(before) =~= seq![before]);
    } else {
        assert(b[n] == before[n]);
        lemma_line_len_is(b, n);
        let rest = before.skip(n + 1);
        law_newline_starts_afresh(rest, after);
        assert(b.take(n) =~= before.take(n));
        assert(b.skip(n + 1) =~= rest.push(NEWLINE) + after);
        assert(lines(b) =~= lines(before) + lines(after));
    }
}

/// Where the line that starts at `start` ends.
pub(crate) fn line_end(data: &[u8], start: usize) -> (r: usize)
    requires
        start <= data.len(),
    ensures
        start <= r <= data.len(),
        r - start == line_len(data@.skip(start as int)),
{
    let mut i: usize = start;
    while i < data.len() && data[i] != NEWLINE
        invariant
            start <= i <= data.len(),
            forall|j: int| start <= j < i ==> data@[j] != NEWLINE,
        decreases data.len() - i,
    {
        i += 1;
    }
    proof {
        lemma_line_len_is(data@.skip(start as int), i - start);
    }
    i
}

} // verus!
