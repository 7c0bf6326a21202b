use voop::mcu::imu::{
    Imu, ImuEvent, ImuReport, Phase, ATTEMPTS_BEFORE_UNHEALTHY, SETUP, WHO_AM_I_LSM6DS3TR_C,
};

const QUIET: ImuReport = ImuReport { moving: None, healthy: None };

fn armed() -> Imu {
    let mut imu = Imu::new();
    assert_eq!(imu.on_event(ImuEvent::Identity(Some(WHO_AM_I_LSM6DS3TR_C))), QUIET);
    for i in 0..SETUP.len() {
        assert_eq!(imu.phase, Phase::Arm(i));
        assert_eq!(imu.on_event(ImuEvent::Written(true)), QUIET);
    }
    assert_eq!(imu.phase, Phase::Settle);
    imu.on_event(ImuEvent::Elapsed);
    assert_eq!(imu.phase, Phase::Discard);
    assert_eq!(imu.on_event(ImuEvent::Cleared).moving, Some(false));
    assert_eq!(imu.phase, Phase::Parked);
    imu
}

#[test]
fn the_setup_is_written_in_order() {
    assert_eq!(
        SETUP,
        [
            [0x12, 0x44], [0x15, 0x10], [0x10, 0x30], [0x5B, 0x08], [0x5C, 0x00], [0x58, 0x81],
            [0x5E, 0x20],
        ]
    );
    armed();
}

#[test]
fn motion_is_held_past_the_last_jolt() {
    let mut imu = armed();
    assert_eq!(imu.on_event(ImuEvent::Raised).moving, Some(true));
    for _ in 0..3 {
        assert_eq!(imu.phase, Phase::Clear);
        assert_eq!(imu.on_event(ImuEvent::Cleared), QUIET);
        assert_eq!(imu.phase, Phase::Holding);
        assert_eq!(imu.on_event(ImuEvent::Raised), QUIET);
    }
    imu.on_event(ImuEvent::Cleared);
    assert_eq!(imu.on_event(ImuEvent::Elapsed).moving, Some(false));
    assert_eq!(imu.phase, Phase::Parked);
}

#[test]
fn a_wrong_or_silent_chip_is_tried_again() {
    for who in [None, Some(0x69), Some(0)] {
        let mut imu = Imu::new();
        imu.on_event(ImuEvent::Identity(who));
        assert_eq!((imu.phase, imu.attempts), (Phase::Backoff, 1));
        imu.on_event(ImuEvent::Elapsed);
        assert_eq!(imu.phase, Phase::Identify);
    }
    let mut imu = Imu::new();
    imu.on_event(ImuEvent::Identity(Some(0x6A)));
    imu.on_event(ImuEvent::Written(true));
    imu.on_event(ImuEvent::Written(false));
    assert_eq!((imu.phase, imu.attempts), (Phase::Backoff, 1));
}

#[test]
fn health_is_published_when_it_changes() {
    let mut imu = Imu::new();
    for attempt in 1..=10 {
        let report = imu.on_event(ImuEvent::Identity(None));
        let expected = if attempt == ATTEMPTS_BEFORE_UNHEALTHY { Some(false) } else { None };
        assert_eq!(report.healthy, expected);
        imu.on_event(ImuEvent::Elapsed);
    }
    imu.on_event(ImuEvent::Identity(Some(0x6A)));
    for _ in 0..7 {
        imu.on_event(ImuEvent::Written(true));
    }
    imu.on_event(ImuEvent::Elapsed);
    let report = imu.on_event(ImuEvent::Cleared);
    assert_eq!(report, ImuReport { moving: Some(false), healthy: Some(true) });
    assert_eq!(imu.attempts, 0);
}

#[test]
fn each_wait_has_its_length() {
    assert_eq!(Phase::Settle.wait_ms(), Some(100));
    assert_eq!(Phase::Backoff.wait_ms(), Some(5_000));
    assert_eq!(Phase::Holding.wait_ms(), Some(3_000));
    for phase in
        [Phase::Identify, Phase::Arm(0), Phase::Discard, Phase::Parked, Phase::Clear]
    {
        assert_eq!(phase.wait_ms(), None);
        let mut imu = Imu { phase, ..Imu::new() };
        imu.on_event(ImuEvent::Elapsed);
        assert_eq!(imu.phase, phase);
    }
    // The chip counts as unavailable after half a minute of failed attempts.
    let wait = Phase::Backoff.wait_ms().unwrap();
    assert_eq!(ATTEMPTS_BEFORE_UNHEALTHY as u64 * wait, 30_000);
}

#[test]
fn events_out_of_turn_change_nothing() {
    let mut imu = Imu::new();
    for event in [ImuEvent::Raised, ImuEvent::Cleared, ImuEvent::Written(true), ImuEvent::Elapsed] {
        assert_eq!(imu.on_event(event), QUIET);
        assert_eq!(imu, Imu::new());
    }
}
