use voop::mcu::gps::{
    fix_quality, to_unix_epoch, Action, Command, Fix, Gps, GpsState, SILENT_WINDOWS_BEFORE_RESTART,
};
use voop::mcu::store::FixQuality;
use voop::sentence::{Date, FixStatus, Reading, Rmc, TimeOfDay};

/// The sentence with its checksum.
fn sentence(body: &str) -> String {
    let sum = body.bytes().fold(0u8, |c, b| c ^ b);
    format!("${}*{:02X}", body, sum)
}

fn micro(degrees: f64) -> i32 {
    (degrees * 1_000_000.0) as i32
}

const FIX: &str = "GPRMC,123519.00,A,5742.3402,N,01156.4020,E,022.4,084.4,230626,003.1,W";
const LOST: &str = "GPRMC,123520.00,V,,,,,,,230626,,";

fn autonomous(state: GpsState) -> Action {
    Action::Publish(Some(Fix { state, quality: FixQuality::Autonomous }))
}

fn fix_state() -> GpsState {
    GpsState {
        lat_microdeg: micro(57.0 + 42.3402 / 60.0),
        lon_microdeg: micro(11.0 + 56.4020 / 60.0),
    }
}

#[test]
fn a_fix_is_published_and_anchors_the_clock() {
    let mut gps = Gps::new();
    let data = format!("{}\r\n", sentence(FIX));
    let actions = gps.on_bytes(data.as_bytes());
    assert_eq!(
        actions,
        vec![autonomous(fix_state()), Action::Anchor(1_782_218_119)]
    );
    assert!(gps.had_fix);
    assert_eq!(fix_state().lat_microdeg, 57_705_670);
}

#[test]
fn the_loss_of_a_fix_is_published_once() {
    let mut gps = Gps::new();
    let data = format!("{}\r\n{}\r\n{}\r\n", sentence(FIX), sentence(LOST), sentence(LOST));
    let actions = gps.on_bytes(data.as_bytes());
    assert_eq!(
        actions,
        vec![
            autonomous(fix_state()),
            Action::Anchor(1_782_218_119),
            Action::Publish(None)
        ]
    );
    assert!(!gps.had_fix);
    // The time of a sentence without a fix is not trusted.
    assert_eq!(gps.on_bytes(sentence(LOST).as_bytes()), vec![]);
}

#[test]
fn lines_that_are_no_rmc_sentence_change_nothing() {
    let mut gps = Gps::new();
    gps.on_bytes(sentence(FIX).as_bytes());
    let other = sentence("GPGGA,123519,4807.038,N,01131.000,E,1,08,0.9,545.4,M,46.9,M,,");
    let broken = "$GPRMC,123519.00,A,5742.3402,N*00";
    let data = format!("\n\n{}\r\n{}\r\nnoise\n", other, broken);
    assert_eq!(gps.on_bytes(data.as_bytes()), vec![]);
    assert!(gps.had_fix);
    assert_eq!(gps.on_bytes(&[0xFF, 0xFE, 0x0A, 0x24]), vec![]);
}

#[test]
fn coordinates_off_the_globe_are_no_fix() {
    let base = Rmc {
        status: FixStatus::Autonomous,
        lat: Some(10.0f64.to_bits()),
        lon: Some(20.0f64.to_bits()),
        speed_knots: None,
        date: None,
        time: None,
    };
    let mut gps = Gps::new();
    for (lat, lon) in [
        (90.000001f64, 20.0f64),
        (-90.000001, 20.0),
        (10.0, 180.00001),
        (10.0, -180.00001),
        (f64::NAN, 20.0),
        (-f64::NAN, 20.0),
        (10.0, f64::INFINITY),
        (10.0, f64::NEG_INFINITY),
    ] {
        let rmc = Rmc { lat: Some(lat.to_bits()), lon: Some(lon.to_bits()), ..base };
        assert_eq!(gps.on_reading(Reading::Rmc(rmc)), vec![]);
    }
    for (lat, lon) in [(90.0f64, 180.0f64), (-90.0, -180.0), (0.0, -0.0), (1e-300, -1e-7)] {
        let rmc = Rmc { lat: Some(lat.to_bits()), lon: Some(lon.to_bits()), ..base };
        assert_eq!(
            gps.on_reading(Reading::Rmc(rmc)),
            vec![autonomous(GpsState { lat_microdeg: micro(lat), lon_microdeg: micro(lon) })]
        );
    }
    let differential = Rmc { status: FixStatus::Differential, ..base };
    let state = GpsState { lat_microdeg: 10_000_000, lon_microdeg: 20_000_000 };
    assert_eq!(
        gps.on_reading(Reading::Rmc(differential)),
        vec![Action::Publish(Some(Fix { state, quality: FixQuality::Differential }))]
    );
    let half = Rmc { lon: None, ..base };
    assert_eq!(gps.on_reading(Reading::Rmc(half)), vec![Action::Publish(None)]);
}

#[test]
fn a_fix_without_coordinates_still_anchors() {
    let mut gps = Gps::new();
    let rmc = Rmc {
        status: FixStatus::Differential,
        lat: None,
        lon: None,
        speed_knots: None,
        date: Some(Date { year: 2000, month: 3, day: 1 }),
        time: Some(TimeOfDay { hour: 0, minute: 0, second: 1 }),
    };
    assert_eq!(gps.on_reading(Reading::Rmc(rmc)), vec![Action::Anchor(951_868_801)]);
    let invalid = Rmc { status: FixStatus::Invalid, ..rmc };
    assert_eq!(gps.on_reading(Reading::Rmc(invalid)), vec![]);
    assert_eq!(gps.on_reading(Reading::Other), vec![]);
    assert_eq!(gps.on_reading(Reading::Unreadable), vec![]);
}

#[test]
fn fix_quality_follows_the_status() {
    assert_eq!(fix_quality(FixStatus::Autonomous), Some(FixQuality::Autonomous));
    assert_eq!(fix_quality(FixStatus::Differential), Some(FixQuality::Differential));
    assert_eq!(fix_quality(FixStatus::Invalid), None);
}

#[test]
fn every_third_silent_window_restarts() {
    let mut gps = Gps::new();
    gps.on_bytes(sentence(FIX).as_bytes());
    assert_eq!(gps.on_silence(), vec![Action::Publish(None)]);
    for n in 2..=12u32 {
        let expected = if n % SILENT_WINDOWS_BEFORE_RESTART == 0 {
            vec![Action::Write(Command::HotRestart)]
        } else {
            vec![]
        };
        assert_eq!(gps.on_silence(), expected);
    }
    gps.on_bytes(b"\n");
    assert_eq!(gps.silent_windows, 0);
}

#[test]
fn the_gate_puts_the_receiver_to_sleep_and_wakes_it() {
    let mut gps = Gps::new();
    gps.on_bytes(sentence(FIX).as_bytes());
    gps.on_silence();
    assert_eq!(
        gps.on_gate(false),
        vec![Action::Publish(None), Action::Write(Command::Standby)]
    );
    assert!(gps.asleep && !gps.had_fix);
    assert_eq!(gps.on_gate(false), vec![]);
    assert_eq!(gps.on_gate(true), vec![Action::Write(Command::Wake)]);
    assert_eq!(gps.silent_windows, 0);
    assert_eq!(gps.on_gate(true), vec![]);
    // Loss is published on closing even without a fix.
    assert_eq!(
        gps.on_gate(false),
        vec![Action::Publish(None), Action::Write(Command::Standby)]
    );
}

#[test]
fn commands_carry_their_checksum() {
    for command in [Command::Standby, Command::HotRestart] {
        let line = command.text();
        let body = line.strip_prefix('$').unwrap().split('*').next().unwrap();
        assert_eq!(format!("{}\r\n", sentence(body)), line);
    }
    assert_eq!(Command::Standby.text(), "$PGKC051,0*37\r\n");
    assert_eq!(Command::HotRestart.text(), "$PGKC030,1,1*2C\r\n");
    assert_eq!(Command::Wake.text(), "\r\n");
}

#[test]
fn epochs_of_known_dates() {
    assert_eq!(to_unix_epoch(1970, 1, 1, 0, 0, 0), 0);
    assert_eq!(to_unix_epoch(1970, 12, 31, 23, 59, 59), 31_535_999);
    assert_eq!(to_unix_epoch(2000, 2, 29, 12, 0, 0), 951_825_600);
    assert_eq!(to_unix_epoch(2001, 9, 9, 1, 46, 40), 1_000_000_000);
    assert_eq!(to_unix_epoch(2024, 2, 29, 0, 0, 0), 1_709_164_800);
    assert_eq!(to_unix_epoch(2024, 3, 1, 0, 0, 0), 1_709_251_200);
    assert_eq!(to_unix_epoch(2038, 1, 19, 3, 14, 8), 2_147_483_648);
    assert_eq!(to_unix_epoch(2100, 3, 1, 0, 0, 0), 4_107_542_400);
    assert_eq!(to_unix_epoch(2106, 2, 7, 6, 28, 15), u32::MAX);
    // A day beyond its month counts on.
    assert_eq!(to_unix_epoch(2023, 2, 29, 0, 0, 0), to_unix_epoch(2023, 3, 1, 0, 0, 0));
}

#[test]
fn two_digit_years_span_a_century() {
    for (digits, year) in [("83", 1983), ("99", 1999), ("00", 2000), ("82", 2082)] {
        let body = format!("GPRMC,000000.00,A,0000.0,N,00000.0,E,,,0101{},,", digits);
        let mut gps = Gps::new();
        let actions = gps.on_bytes(sentence(&body).as_bytes());
        assert_eq!(actions[1], Action::Anchor(to_unix_epoch(year, 1, 1, 0, 0, 0)));
    }
}
