//! The two lines of the screen.
use crate::bike_computer::ble;
use crate::bike_computer::gps::{State, Status};
use crate::fixed;
use crate::fixed::push_double;
use crate::ieee;
use crate::text;
use crate::text::fit;
use vstd::prelude::*;
use vstd::string::*;
use vstd::utf8;

verus! {

/// Where each line starts, in pixels from the top.
pub const LINE_Y: [i32; 2] = [0, 12];

/// The most bytes that a line takes.
pub const LINE_LEN: usize = 32;

pub enum Error {
    /// The display did not start; with the display's own words.
    InitError(String),
    PrintError,
}

impl Error {
    pub open spec fn text(self) -> Seq<char> {
        match self {
            Error::InitError(detail) => "screen init failed: "@ + detail@,
            Error::PrintError => "screen print failed"@,
        }
    }

    pub fn message(&self) -> (r: String)
        ensures
            r@ == self.text(),
    {
        match self {
            Error::InitError(detail) => String::from_str("screen init failed: ").concat(
                detail.as_str(),
            ),
            Error::PrintError => String::from_str("screen print failed"),
        }
    }
}

/// One line of the screen.
pub struct Line {
    pub text: String,
    pub y: i32,
}

pub open spec fn gps_word(state: State) -> Seq<char> {
    match state.status {
        Some(Status::Autonomous) => "FIX"@,
        Some(Status::Differential) => "DIF"@,
        Some(Status::Invalid) => "INV"@,
        None => "---"@,
    }
}

pub open spec fn ble_word(ble: Result<Option<ble::State>, ble::Error>) -> Seq<char> {
    match ble {
        Err(_) => "ERR"@,
        Ok(None) => "---"@,
        Ok(Some(_)) => "CON"@,
    }
}

/// The first line: the fix, and the sensor link.
pub open spec fn status_text(state: State, ble: Result<Option<ble::State>, ble::Error>) -> Seq<
    char,
> {
    "GPS:"@ + gps_word(state) + " BLE:"@ + ble_word(ble)
}

/// A coordinate in degrees with four decimals, or that there is none.
pub open spec fn degrees(coordinate: Option<u64>) -> Seq<char> {
    match coordinate {
        Some(bits) => fixed::double_text(bits),
        None => "N/A"@,
    }
}

/// The second line: the position.
pub open spec fn position_text(state: State) -> Seq<char> {
    degrees(state.lat) + "/"@ + degrees(state.lon)
}

/// Whether the position fits its line.
pub open spec fn fits(state: State) -> bool {
    text::byte_len(position_text(state)) <= LINE_LEN
}

/// Whether these are the lines that stand for the readings.
pub open spec fn shows(
    lines: Seq<Line>,
    state: State,
    ble: Result<Option<ble::State>, ble::Error>,
) -> bool {
    &&& fits(state)
    &&& lines.len() == 2
    &&& lines[0].text@ == status_text(state, ble) && lines[0].y == LINE_Y[0]
    &&& lines[1].text@ == position_text(state) && lines[1].y == LINE_Y[1]
}

/// The first line always fits.
proof fn lemma_status_fits(state: State, ble: Result<Option<ble::State>, ble::Error>)
    ensures
        text::byte_len(status_text(state, ble)) <= LINE_LEN,
{
    let s = status_text(state, ble);
    assert(utf8::is_ascii_chars(s) && s.len() == 15) by {
        reveal_strlit("GPS:");
        reveal_strlit(" BLE:");
        reveal_strlit("FIX");
        reveal_strlit("DIF");
        reveal_strlit("INV");
        reveal_strlit("---");
        reveal_strlit("ERR");
        reveal_strlit("CON");
    }
    text::lemma_ascii_len(s);
}

/// A text whose characters are more than fit takes too many bytes.
proof fn lemma_long_is_too_long(a: Seq<char>, b: Seq<char>, c: Seq<char>)
    requires
        a.len() > LINE_LEN || c.len() > LINE_LEN,
    ensures
        text::byte_len(a + b + c) > LINE_LEN,
{
    text::lemma_byte_len_joins(a + b, c);
    text::lemma_byte_len_joins(a, b);
    text::lemma_byte_len_is_at_least(a);
    text::lemma_byte_len_is_at_least(c);
}

/// Writes a coordinate, unless it is too long for any line.
fn push_coordinate(line: &mut String, coordinate: Option<u64>) -> (r: bool)
    ensures
        r ==> final(line)@ == old(line)@ + degrees(coordinate),
        !r ==> degrees(coordinate).len() > LINE_LEN,
{
    match coordinate {
        Some(bits) => push_double(line, bits),
        None => {
            line.append("N/A");
            true
        },
    }
}

/// The lines to draw. Fails where the position does not fit its line.
pub fn print(state: &State, ble: &Result<Option<ble::State>, ble::Error>) -> (r: Result<
    Vec<Line>,
    Error,
>)
    ensures
        match r {
            Ok(lines) => shows(lines@, *state, *ble),
            Err(e) => e == Error::PrintError && !fits(*state),
        },
{
    proof {
        lemma_status_fits(*state, *ble);
        if degrees(state.lat).len() > LINE_LEN || degrees(state.lon).len() > LINE_LEN {
            lemma_long_is_too_long(degrees(state.lat), "/"@, degrees(state.lon));
        }
    }
    let gps_status = match &state.status {
        Some(Status::Autonomous) => "FIX",
        Some(Status::Differential) => "DIF",
        Some(Status::Invalid) => "INV",
        None => "---",
    };
    let ble_status = match ble {
        Err(_) => "ERR",
        Ok(None) => "---",
        Ok(Some(_)) => "CON",
    };
    let status = String::from_str("GPS:").concat(gps_status).concat(" BLE:").concat(ble_status);
    let mut position = String::new();
    if !push_coordinate(&mut position, state.lat) {
        return Err(Error::PrintError);
    }
    position.append("/");
    if !push_coordinate(&mut position, state.lon) {
        return Err(Error::PrintError);
    }
    assert(position@ =~= position_text(*state));
    match (fit::<32>(status.as_str()), fit::<32>(position.as_str())) {
        (Some(status), Some(position)) => {
            let mut lines: Vec<Line> = Vec::new();
            lines.push(Line { text: status, y: LINE_Y[0] });
            lines.push(Line { text: position, y: LINE_Y[1] });
            Ok(lines)
        },
        _ => Err(Error::PrintError),
    }
}

/// The first line in full: a word for the fix and one for the sensor link, each in its own place.
pub proof fn law_status_line(state: State, ble: Result<Option<ble::State>, ble::Error>)
    ensures
        ({
            let line = status_text(state, ble);
            &&& line.len() == 15
            &&& line.take(4) == seq!['G', 'P', 'S', ':']
            &&& line.subrange(4, 7) == (match state.status {
                Some(Status::Autonomous) => seq!['F', 'I', 'X'],
                Some(Status::Differential) => seq!['D', 'I', 'F'],
                Some(Status::Invalid) => seq!['I', 'N', 'V'],
                None => seq!['-', '-', '-'],
            })
            &&& line.subrange(7, 12) == seq![' ', 'B', 'L', 'E', ':']
            &&& line.skip(12) == (match ble {
                Err(_) => seq!['E', 'R', 'R'],
                Ok(None) => seq!['-', '-', '-'],
                Ok(Some(_)) => seq!['C', 'O', 'N'],
            })
        }),
{
    reveal_strlit("GPS:");
    reveal_strlit(" BLE:");
    reveal_strlit("FIX");
    reveal_strlit("DIF");
    reveal_strlit("INV");
    reveal_strlit("---");
    reveal_strlit("ERR");
    reveal_strlit("CON");
    let line = status_text(state, ble);
    assert(line.take(4) =~= seq!['G', 'P', 'S', ':']);
    assert(line.subrange(7, 12) =~= seq![' ', 'B', 'L', 'E', ':']);
    match state.status {
        Some(Status::Autonomous) => {
            assert(line.subrange(4, 7) =~= seq!['F', 'I', 'X']);
        },
        Some(Status::Differential) => {
            assert(line.subrange(4, 7) =~= seq!['D', 'I', 'F']);
        },
        Some(Status::Invalid) => {
            assert(line.subrange(4, 7) =~= seq!['I', 'N', 'V']);
        },
        None => {
            assert(line.subrange(4, 7) =~= seq!['-', '-', '-']);
        },
    }
    match ble {
        Err(_) => {
            assert(line.skip(12) =~= seq!['E', 'R', 'R']);
        },
        Ok(None) => {
            assert(line.skip(12) =~= seq!['-', '-', '-']);
        },
        Ok(Some(_)) => {
            assert(line.skip(12) =~= seq!['C', 'O', 'N']);
        },
    }
}

/// The second line in full: the latitude, a slash and the longitude, each with four decimals or as
/// not available, independently of the other. It is shown where it takes at most 32 bytes.
pub proof fn law_position_line(state: State)
    ensures
        ({
            let shown = |c: Option<u64>| match c {
                Some(bits) => fixed::double_text(bits),
                None => seq!['N', '/', 'A'],
            };
            let line = shown(state.lat) + seq!['/'] + shown(state.lon);
            &&& position_text(state) == line
            &&& fits(state) <==> text::byte_len(line) <= 32
        }),
{
    reveal_strlit("N/A");
    reveal_strlit("/");
    assert("N/A"@ =~= seq!['N', '/', 'A']);
    assert("/"@ =~= seq!['/']);
}

/// Every position on the globe can be shown, and so can one that is not known: degrees of at most
/// 180 take nine characters each.
pub proof fn law_positions_on_the_globe_fit(state: State)
    requires
        state.lat matches Some(bits) ==> ieee::magnitude(bits) <= ieee::ONE_EIGHTY,
        state.lon matches Some(bits) ==> ieee::magnitude(bits) <= ieee::ONE_EIGHTY,
    ensures
        fits(state),
{
    let (a, b) = (degrees(state.lat), degrees(state.lon));
    assert(utf8::is_ascii_chars(a) && a.len() <= 9) by {
        reveal_strlit("N/A");
        if let Some(bits) = state.lat {
            fixed::lemma_double_len(bits);
        }
    }
    assert(utf8::is_ascii_chars(b) && b.len() <= 9) by {
        reveal_strlit("N/A");
        if let Some(bits) = state.lon {
            fixed::lemma_double_len(bits);
        }
    }
    reveal_strlit("/");
    text::lemma_ascii_len(position_text(state));
}

/// A message says what failed and, behind it, all of the other side's own words.
pub proof fn law_messages_carry_the_detail(detail: String)
    ensures
        text::says(Error::InitError(detail).text(), "screen init failed: "@, detail@),
        Error::PrintError.text() == "screen print failed"@,
{
    text::lemma_says("screen init failed: "@, detail@);
}

} // verus!
