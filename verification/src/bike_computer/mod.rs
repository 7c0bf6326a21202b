//! The bike computer: a board with a screen that shows the GPS position and the sensor link.
use crate::bike_computer::gps::State;
use crate::text;
use vstd::prelude::*;
use vstd::string::*;

pub mod ble;
pub mod gps;
pub mod logger;
pub mod screen;
pub mod usb;

verus! {

/// Seconds between two looks at the readings.
pub const FRAME_PERIOD_SECS: u64 = 2;

/// What ends the bike computer.
pub enum Error {
    UsbError(usb::Error),
    LoggerError(logger::Error),
    ScreenError(screen::Error),
    GpsError(gps::Error),
    BleError(ble::Error),
}

impl Error {
    pub open spec fn text(self) -> Seq<char> {
        match self {
            Error::UsbError(e) => "USB: "@ + e.text(),
            Error::LoggerError(e) => "Logger: "@ + e.text(),
            Error::ScreenError(e) => "Screen: "@ + e.text(),
            Error::GpsError(e) => "GPS: "@ + e.text(),
            Error::BleError(e) => "BLE: "@ + e.text(),
        }
    }

    pub fn message(&self) -> (r: String)
        ensures
            r@ == self.text(),
    {
        match self {
            Error::UsbError(e) => String::from_str("USB: ").concat(e.message().as_str()),
            Error::LoggerError(e) => String::from_str("Logger: ").concat(e.message().as_str()),
            Error::ScreenError(e) => String::from_str("Screen: ").concat(e.message().as_str()),
            Error::GpsError(e) => String::from_str("GPS: ").concat(e.message().as_str()),
            Error::BleError(e) => String::from_str("BLE: ").concat(e.message().as_str()),
        }
    }
}

/// What to show of the readings. A GPS that failed ends the bike computer, and so does a position
/// that cannot be shown; a sensor link that failed is shown.
pub fn frame(
    gps: Result<State, gps::Error>,
    ble: Result<Option<ble::State>, ble::Error>,
) -> (r: Result<Vec<screen::Line>, Error>)
    ensures
        match gps {
            Err(e) => r == Err::<Vec<screen::Line>, Error>(Error::GpsError(e)),
            Ok(state) => match r {
                Ok(lines) => screen::shows(lines@, state, ble),
                Err(e) => e == Error::ScreenError(screen::Error::PrintError)
                    && !screen::fits(state),
            },
        },
        r is Ok <==> gps is Ok && screen::fits(gps->Ok_0),
{
    match gps {
        Err(e) => Err(Error::GpsError(e)),
        Ok(state) => match screen::print(&state, &ble) {
            Ok(lines) => Ok(lines),
            Err(e) => Err(Error::ScreenError(e)),
        },
    }
}

/// A message names the part that failed and, behind it, says all that the part says.
pub proof fn law_messages_name_the_part(
    usb: usb::Error,
    logger: logger::Error,
    screen: screen::Error,
    gps: gps::Error,
    ble: ble::Error,
)
    ensures
        text::says(Error::UsbError(usb).text(), "USB: "@, usb.text()),
        text::says(Error::LoggerError(logger).text(), "Logger: "@, logger.text()),
        text::says(Error::ScreenError(screen).text(), "Screen: "@, screen.text()),
        text::says(Error::GpsError(gps).text(), "GPS: "@, gps.text()),
        text::says(Error::BleError(ble).text(), "BLE: "@, ble.text()),
{
    text::lemma_says("USB: "@, usb.text());
    text::lemma_says("Logger: "@, logger.text());
    text::lemma_says("Screen: "@, screen.text());
    text::lemma_says("GPS: "@, gps.text());
    text::lemma_says("BLE: "@, ble.text());
}

} // verus!
