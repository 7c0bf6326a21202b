//! The monotonic clock, counted in ticks since boot.
use vstd::prelude::*;

verus! {

/// Ticks per second. `embassy_time` is built with this tick rate, the one of the nRF52 RTC.
pub const TICK_HZ: u64 = 32_768;

/// The length of `secs` seconds in ticks: `embassy_time::Duration::from_secs`, read with
/// `as_ticks`. It multiplies by the tick rate, which this crate's manifest sets to 32768 Hz;
/// a product over `u64` is left out.
#[verifier::external_body]
pub(crate) fn ticks_from_secs(secs: u64) -> (r: u64)
    requires
        secs * TICK_HZ <= u64::MAX,
    ensures
        r == secs * TICK_HZ,
{
    embassy_time::Duration::from_secs(secs).as_ticks()
}

/// The last instant whose distance from boot `embassy_time` turns into milliseconds without
/// overflow: it multiplies by 125 before it divides.
pub const LAST_TICK: u64 = 147_573_952_589_676_412;

/// `ticks` in whole milliseconds.
pub open spec fn millis(ticks: int) -> int {
    ticks * 1000 / (TICK_HZ as int)
}

/// A duration of `ticks` in milliseconds, rounded down: `embassy_time::Duration::as_millis`, of
/// `Duration::from_ticks`. `Instant::as_millis` computes the same of an instant.
#[verifier::external_body]
pub(crate) fn millis_from_ticks(ticks: u64) -> (r: u64)
    requires
        ticks <= LAST_TICK,
    ensures
        r == millis(ticks as int),
{
    embassy_time::Duration::from_ticks(ticks).as_millis()
}

/// Time between two instants, zero where `earlier` is the later one:
/// `embassy_time::Instant::saturating_duration_since`, on instants made with `from_ticks` and read
/// with `as_ticks`.
#[verifier::external_body]
pub(crate) fn ticks_since(now: u64, earlier: u64) -> (r: u64)
    ensures
        r == (if now < earlier { 0 } else { now - earlier }),
{
    let earlier = embassy_time::Instant::from_ticks(earlier);
    embassy_time::Instant::from_ticks(now).saturating_duration_since(earlier).as_ticks()
}

/// The uptime on the wire: milliseconds since boot, wrapping after 2^32 of them.
pub fn uptime_ms(now: u64) -> (r: u32)
    requires
        now <= LAST_TICK,
    ensures
        r == millis(now as int) % 0x1_0000_0000,
{
    (millis_from_ticks(now) % 0x1_0000_0000) as u32
}

/// Milliseconds are the whole thousandths of a second of 32,768 ticks: a count of them lasts no
/// longer than the ticks do, and one more would last longer.
pub proof fn law_millis_are_whole(ticks: int)
    ensures
        millis(ticks) * 32_768 <= ticks * 1000 < (millis(ticks) + 1) * 32_768,
{
}

/// A second lasts a thousand milliseconds, from whatever instant it is counted.
pub proof fn law_seconds_last_a_thousand(ticks: int, secs: int)
    ensures
        millis(ticks + secs * 32_768) == millis(ticks) + secs * 1000,
{
}

} // verus!
