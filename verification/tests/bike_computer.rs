use voop::bike_computer::ble::{Cadence, CadenceEvent, Error as BleError, State as BleState, Step};
use voop::bike_computer::gps::{Error as GpsError, Gps, State, Status};
use voop::bike_computer::logger::Error as LoggerError;
use voop::bike_computer::screen::{print, Error as ScreenError};
use voop::bike_computer::usb::Error as UsbError;
use voop::bike_computer::{frame, Error};
use voop::sentence::Reading;

/// The sentence with its checksum.
fn sentence(body: &str) -> String {
    let sum = body.bytes().fold(0u8, |c, b| c ^ b);
    format!("${}*{:02X}", body, sum)
}

const FIX: &str = "GPRMC,123519.00,D,5742.3402,N,01156.4020,W,022.4,084.4,230626,003.1,W";
const EMPTY: State = State { lat: None, lon: None, speed_knots: None, status: None };

fn word(gps: &Gps) -> State {
    gps.read().ok().expect("a state")
}

#[test]
fn an_rmc_sentence_is_the_last_word() {
    let mut gps = Gps::new();
    assert_eq!(word(&gps), EMPTY);
    gps.on_bytes(format!("{}\r\n", sentence(FIX)).as_bytes());
    let state = word(&gps);
    assert_eq!(state.lat, Some((57.0 + 42.3402 / 60.0f64).to_bits()));
    assert_eq!(state.lon, Some((-(11.0 + 56.4020 / 60.0f64)).to_bits()));
    assert_eq!(state.speed_knots, Some(22.4f32.to_bits()));
    assert_eq!(state.status, Some(Status::Differential));
}

#[test]
fn other_sentences_do_not_count_and_noise_is_an_error() {
    let mut gps = Gps::new();
    gps.on_bytes(sentence(FIX).as_bytes());
    let before = word(&gps);
    let other = sentence("GPGGA,123519,4807.038,N,01131.000,E,1,08,0.9,545.4,M,46.9,M,,");
    gps.on_bytes(format!("\n{}\n", other).as_bytes());
    assert_eq!(word(&gps), before);
    gps.on_bytes(b"noise");
    assert_eq!(gps.read().err().unwrap().message(), "failed to parse GPS data");
    gps.on_reading(Reading::Other);
    assert!(gps.read().is_err());
    gps.on_bytes(sentence(FIX).as_bytes());
    assert_eq!(word(&gps), before);
    gps.on_read_error("Overrun".to_string());
    assert_eq!(gps.read().err().unwrap().message(), "failed to read from GPS: Overrun");
    gps.on_bytes(sentence("GPRMC,,V,,,,,,,,,").as_bytes());
    assert_eq!(word(&gps), State { status: Some(Status::Invalid), ..EMPTY });
    gps.on_bytes(sentence("GPRMC,,A,,,,,,,,,").as_bytes());
    assert_eq!(word(&gps).status, Some(Status::Autonomous));
}

#[test]
fn the_sensor_is_followed_until_its_client_ends() {
    let mut c = Cadence::new();
    for event in [
        CadenceEvent::ScanStarted(false),
        CadenceEvent::ScanStarted(true),
        CadenceEvent::SensorFound,
        CadenceEvent::Connected(true),
        CadenceEvent::ClientOpened(true),
        CadenceEvent::ServicesListed(Some(1)),
        CadenceEvent::CharacteristicFound(true),
        CadenceEvent::Subscribed(true),
    ] {
        c.on_event(event);
    }
    assert_eq!(c.step, Step::Stream);
    assert!(matches!(c.read(), Ok(None)));
    c.on_measurement(&[2, 1, 2, 3, 4]);
    let state =
        BleState { cumulative_crank_revs: Some(0x0201), last_crank_event_time: Some(0x0403) };
    assert_eq!(c.state, Some(state));
    for ignored in [&[][..], &[2, 1, 2, 3], &[1, 9, 9, 9, 9]] {
        c.on_measurement(ignored);
        assert_eq!(c.state, Some(state));
    }
    c.on_event(CadenceEvent::ClientEnded);
    assert_eq!((c.step, c.client_ended), (Step::Stream, true));
}

#[test]
fn a_sensor_without_the_service_is_left() {
    let mut c = Cadence { step: Step::DiscoverCsc, ..Cadence::new() };
    c.on_event(CadenceEvent::ServicesListed(Some(0)));
    assert_eq!(c.step, Step::Linger);
    c.on_event(CadenceEvent::ClientEnded);
    assert_eq!(c, Cadence::new());
    let mut c = Cadence { step: Step::FindMeasurement, ..Cadence::new() };
    c.on_event(CadenceEvent::ClientEnded);
    c.on_event(CadenceEvent::CharacteristicFound(false));
    assert_eq!(c, Cadence::new());
    let mut c = Cadence { step: Step::Subscribe, ..Cadence::new() };
    c.on_event(CadenceEvent::Subscribed(false));
    assert_eq!(c.step, Step::Linger);
    for (step, event) in [
        (Step::Connect, CadenceEvent::Connected(false)),
        (Step::OpenClient, CadenceEvent::ClientOpened(false)),
    ] {
        let mut c = Cadence { step, ..Cadence::new() };
        c.on_event(event);
        assert_eq!(c.step, Step::Scan);
    }
}

fn printed(state: State, ble: Result<Option<BleState>, BleError>) -> (String, String) {
    let lines = print(&state, &ble).ok().expect("fits");
    assert_eq!((lines[0].y, lines[1].y), (0, 12));
    (lines[0].text.clone(), lines[1].text.clone())
}

#[test]
fn two_lines_show_the_fix_the_link_and_the_position() {
    let crank = BleState { cumulative_crank_revs: None, last_crank_event_time: None };
    let here = State {
        lat: Some(37.1234f64.to_bits()),
        lon: Some((-122.1234f64).to_bits()),
        ..EMPTY
    };
    let (a, b) = printed(State { status: Some(Status::Autonomous), ..here }, Ok(Some(crank)));
    assert_eq!((a.as_str(), b.as_str()), ("GPS:FIX BLE:CON", "37.1234/-122.1234"));
    let (a, b) = printed(EMPTY, Ok(None));
    assert_eq!((a.as_str(), b.as_str()), ("GPS:--- BLE:---", "N/A/N/A"));
    let dif = State { status: Some(Status::Differential), lat: None, ..here };
    let (a, b) = printed(dif, Err(BleError::SdcError("x".to_string())));
    assert_eq!((a.as_str(), b.as_str()), ("GPS:DIF BLE:ERR", "N/A/-122.1234"));
    let inv = State { status: Some(Status::Invalid), lon: None, ..here };
    let (a, b) = printed(inv, Ok(None));
    assert_eq!((a.as_str(), b.as_str()), ("GPS:INV BLE:---", "37.1234/N/A"));
}

#[test]
fn a_failed_gps_ends_the_bike_computer_and_a_failed_link_does_not() {
    let e = frame(Err(GpsError::ParseError), Ok(None)).err().unwrap();
    assert_eq!(e.message(), "GPS: failed to parse GPS data");
    let ble = Err(BleError::MpslError("x".to_string()));
    assert_eq!(frame(Ok(EMPTY), ble).ok().unwrap()[0].text, "GPS:--- BLE:ERR");
    let at = |lat: f64, lon: f64| State {
        lat: Some(lat.to_bits()),
        lon: Some(lon.to_bits()),
        ..EMPTY
    };
    for (lat, lon) in [
        (1e10, 1e10),
        (1e11, 1e10),
        (-1e10, 1e10),
        (-1e10, -1e10),
        (1e22, f64::INFINITY),
        (f64::NAN, f64::NEG_INFINITY),
        (1e34, 0.0),
        (0.0, f64::MAX),
        (-0.0, 1e-300),
    ] {
        let expected = format!("{:.4}/{:.4}", lat, lon);
        match frame(Ok(at(lat, lon)), Ok(None)) {
            Ok(lines) => {
                assert_eq!(lines[1].text, expected);
                assert!(expected.len() <= 32);
            }
            Err(e) => {
                assert_eq!(e.message(), "Screen: screen print failed");
                assert!(expected.len() > 32, "{}", expected);
            }
        }
    }
}

#[test]
fn every_error_is_worded() {
    let busy = || "Busy".to_string();
    for (error, text) in [
        (Error::UsbError(UsbError::SpawnError(busy())), "USB: failed to spawn USB task: Busy"),
        (
            Error::LoggerError(LoggerError::SpawnError(busy())),
            "Logger: failed to spawn logger task: Busy",
        ),
        (Error::LoggerError(LoggerError::SetLoggerError), "Logger: failed to set logger"),
        (Error::ScreenError(ScreenError::InitError(busy())), "Screen: screen init failed: Busy"),
        (Error::GpsError(GpsError::SpawnError(busy())), "GPS: failed to spawn GPS task: Busy"),
        (Error::BleError(BleError::SpawnError(busy())), "BLE: spawn error: Busy"),
        (Error::BleError(BleError::SdcError(busy())), "BLE: SDC error: Busy"),
        (Error::BleError(BleError::MpslError(busy())), "BLE: MPSL error: Busy"),
    ] {
        assert_eq!(error.message(), text);
    }
}
