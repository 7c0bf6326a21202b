use voop::mcu::clock::{Clock, RESYNC_THRESHOLD_MS};
use voop::ticks::TICK_HZ;

#[test]
fn before_a_sync_only_the_uptime_is_known() {
    let clock = Clock::new();
    let r = clock.now(2 * TICK_HZ);
    assert_eq!((r.uptime_ms, r.unix_millis), (2000, None));
}

#[test]
fn a_sync_is_extrapolated_in_milliseconds() {
    let mut clock = Clock::new();
    clock.set(10 * TICK_HZ, 1_700_000_000);
    assert_eq!(clock.now(10 * TICK_HZ).unix_millis, Some(1_700_000_000_000));
    assert_eq!(clock.now(10 * TICK_HZ + TICK_HZ / 4).unix_millis, Some(1_700_000_000_250));
    // An instant before the anchor shows the anchor's time.
    assert_eq!(clock.now(9 * TICK_HZ).unix_millis, Some(1_700_000_000_000));
}

#[test]
fn small_disagreements_leave_the_anchor() {
    let mut clock = Clock::new();
    clock.set(0, 1_000_000);
    let before = clock;
    let threshold = (RESYNC_THRESHOLD_MS / 1000) as u32;
    clock.set(0, 1_000_000 + threshold);
    assert_eq!(clock, before);
    clock.set(0, 1_000_000 - threshold);
    assert_eq!(clock, before);
    clock.set(TICK_HZ / 2, 1_000_000);
    assert_eq!(clock, before);
}

#[test]
fn large_disagreements_move_the_anchor() {
    let mut clock = Clock::new();
    clock.set(0, 1_000_000);
    clock.set(0, 1_000_003);
    assert_eq!(clock.now(0).unix_millis, Some(1_000_003_000));
    clock.set(TICK_HZ, 999_999);
    assert_eq!(clock.now(TICK_HZ).unix_millis, Some(999_999_000));
    // 2001 ms apart: two seconds and one millisecond.
    let mut clock = Clock::new();
    clock.set(0, 1_000_000);
    let late = TICK_HZ * 2001 / 1000 + 1;
    clock.set(late, 1_000_000);
    assert_eq!(clock.now(late).unix_millis, Some(1_000_000_000));
}

#[test]
fn syncing_twice_is_syncing_once() {
    let mut clock = Clock::new();
    clock.set(5, 42);
    let once = clock;
    clock.set(5, 42);
    assert_eq!(clock, once);
}

#[test]
fn the_wrap_of_the_uptime_does_not_show_in_the_time() {
    let mut clock = Clock::new();
    clock.set(0, 1_700_000_000);
    let fifty_days = 50 * 86_400 * TICK_HZ;
    let r = clock.now(fifty_days);
    assert_eq!(r.unix_millis, Some((1_700_000_000 + 50 * 86_400) * 1000));
    assert_eq!(r.uptime_ms as u64, 50 * 86_400_000 % (1 << 32));
}
