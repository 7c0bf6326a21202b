//! Wall-clock time, extrapolated from the last synchronisation by the monotonic clock.
use crate::ticks;
use crate::ticks::{millis_from_ticks, ticks_since, uptime_ms, LAST_TICK};
use vstd::prelude::*;

verus! {

/// The clock at one instant: the uptime, which is always known, and the wall-clock time once an
/// anchor has been set. Stamped onto every data point, so that the phone can lay the points out in
/// time itself.
#[derive(Clone, Copy, Debug, PartialEq, Eq, Structural)]
pub struct ClockReading {
    pub uptime_ms: u32,
    pub unix_millis: Option<u64>,
}

/// A monotonic instant, in ticks, and the wall-clock time at it. The instant has 64 bits, so what
/// is extrapolated from it stays right when the uptime on the wire wraps.
#[derive(Clone, Copy, Debug, PartialEq, Eq, Structural)]
pub struct Anchor {
    pub mono: u64,
    pub unix_ms: u64,
}

/// A synchronisation that disagrees with the estimate by no more than this leaves the anchor
/// alone.
pub const RESYNC_THRESHOLD_MS: u64 = 2000;

#[derive(Clone, Copy, Debug, PartialEq, Eq, Structural)]
pub struct Clock {
    pub anchor: Option<Anchor>,
}

impl Anchor {
    /// Anchors are set in whole seconds that fit in 32 bits.
    pub open spec fn wf(self) -> bool {
        self.unix_ms <= u32::MAX * 1000
    }

    /// The wall-clock time at the instant `now`.
    pub open spec fn time_at(self, now: u64) -> int {
        self.unix_ms + ticks::millis(
            if now < self.mono {
                0
            } else {
                now - self.mono
            },
        )
    }

    fn estimate(&self, now: u64) -> (r: u64)
        requires
            self.wf(),
            now <= LAST_TICK,
        ensures
            r == self.time_at(now),
    {
        self.unix_ms + millis_from_ticks(ticks_since(now, self.mono))
    }
}

/// How far apart two times are.
pub open spec fn apart(a: int, b: int) -> int {
    if a < b {
        b - a
    } else {
        a - b
    }
}

impl Clock {
    pub open spec fn wf(self) -> bool {
        self.anchor matches Some(a) ==> a.wf()
    }

    pub open spec fn wf_at(self, now: u64) -> bool {
        self.wf() && (self.anchor matches Some(a) ==> a.mono <= now)
    }

    /// The wall-clock time at the instant `now`, once it is known.
    pub open spec fn time_at(self, now: u64) -> Option<int> {
        match self.anchor {
            Some(a) => Some(a.time_at(now)),
            None => None,
        }
    }

    /// Whether a synchronisation at `now` moves the anchor.
    pub open spec fn resyncs(self, now: u64, unix_seconds: u32) -> bool {
        match self.time_at(now) {
            None => true,
            Some(t) => apart(t, unix_seconds * 1000) > RESYNC_THRESHOLD_MS,
        }
    }

    /// The clock after a synchronisation.
    pub open spec fn after(self, now: u64, unix_seconds: u32) -> Clock {
        if self.resyncs(now, unix_seconds) {
            Clock { anchor: Some(Anchor { mono: now, unix_ms: (unix_seconds * 1000) as u64 }) }
        } else {
            self
        }
    }

    /// At boot only the uptime is known.
    pub fn new() -> (r: Clock)
        ensures
            r.anchor is None,
            r.wf(),
    {
        Clock { anchor: None }
    }

    /// Takes a wall-clock time in seconds, from the phone or from a GPS fix. Does nothing where the
    /// estimate is within `RESYNC_THRESHOLD_MS` of it.
    pub fn set(&mut self, now: u64, unix_seconds: u32)
        requires
            old(self).wf(),
            now <= LAST_TICK,
        ensures
            *final(self) == old(self).after(now, unix_seconds),
            final(self).wf(),
    {
        let unix_ms = unix_seconds as u64 * 1000;
        let resync = match self.anchor {
            None => true,
            Some(a) => {
                let estimate = a.estimate(now);
                let off = if estimate < unix_ms {
                    unix_ms - estimate
                } else {
                    estimate - unix_ms
                };
                off > RESYNC_THRESHOLD_MS
            },
        };
        if resync {
            self.anchor = Some(Anchor { mono: now, unix_ms });
        }
    }

    /// The reading at the instant `now`. The anchor is only good to a second; the milliseconds
    /// come from the monotonic clock.
    pub fn now(&self, now: u64) -> (r: ClockReading)
        requires
            self.wf(),
            now <= LAST_TICK,
        ensures
            r.uptime_ms == ticks::millis(now as int) % 0x1_0000_0000,
            match r.unix_millis {
                Some(t) => self.time_at(now) == Some(t as int),
                None => self.time_at(now) is None,
            },
            r.unix_millis is Some <==> self.anchor is Some,
            self.anchor matches Some(a) ==> now >= a.mono ==> r.unix_millis->0 == a.unix_ms + (now
                - a.mono) * 1000 / 32_768,
    {
        let unix_millis = match self.anchor {
            Some(a) => Some(a.estimate(now)),
            None => None,
        };
        ClockReading { uptime_ms: uptime_ms(now), unix_millis }
    }
}

/// A synchronisation that was taken at an instant no later than the present keeps its place there.
pub proof fn law_wf_is_kept(c: Clock, now: u64, unix_seconds: u32, later: u64)
    requires
        c.wf_at(now),
        now <= later,
    ensures
        c.after(now, unix_seconds).wf_at(later),
{
}

/// After a synchronisation the clock shows a time within the threshold of it.
pub proof fn law_set_is_close(c: Clock, now: u64, unix_seconds: u32)
    ensures
        c.after(now, unix_seconds).time_at(now) matches Some(t) && apart(t, unix_seconds * 1000)
            <= RESYNC_THRESHOLD_MS,
{
}

/// The first synchronisation, and one that moves the anchor, is shown exactly.
pub proof fn law_resync_is_exact(c: Clock, now: u64, unix_seconds: u32)
    requires
        c.resyncs(now, unix_seconds),
    ensures
        c.after(now, unix_seconds).time_at(now) == Some(unix_seconds * 1000),
{
}

/// A second synchronisation with the same time at the same instant changes nothing.
pub proof fn law_set_is_idempotent(c: Clock, now: u64, unix_seconds: u32)
    ensures
        c.after(now, unix_seconds).after(now, unix_seconds) == c.after(now, unix_seconds),
{
}

/// A synchronisation within the threshold leaves every later reading as it was.
pub proof fn law_small_corrections_are_ignored(c: Clock, now: u64, unix_seconds: u32, later: u64)
    requires
        c.time_at(now) matches Some(t) && apart(t, unix_seconds * 1000) <= RESYNC_THRESHOLD_MS,
    ensures
        c.after(now, unix_seconds).time_at(later) == c.time_at(later),
{
}

/// Between synchronisations, and across those within the threshold, the wall clock does not run
/// backwards.
pub proof fn law_time_does_not_run_backwards(c: Clock, now: u64, unix_seconds: u32, later: u64)
    requires
        now <= later,
        c.anchor is Some,
        !c.resyncs(now, unix_seconds),
    ensures
        c.time_at(now)->0 <= c.after(now, unix_seconds).time_at(later)->0,
{
    let mono = c.anchor->0.mono;
    let a: int = if now < mono { 0 } else { now - mono };
    let b: int = if later < mono { 0 } else { later - mono };
    assert(ticks::millis(a) <= ticks::millis(b));
}

/// A run of the clock lasts as long as the ticks that passed, whatever the uptime on the wire has
/// wrapped to: the wall-clock times of two instants differ by the milliseconds between them, give
/// or take the one that rounding takes.
pub proof fn law_time_advances_with_the_ticks(c: Clock, earlier: u64, later: u64)
    requires
        c.anchor is Some,
        c.wf_at(earlier),
        earlier <= later,
    ensures
        ticks::millis(later - earlier) <= c.time_at(later)->0 - c.time_at(earlier)->0
            <= ticks::millis(later - earlier) + 1,
{
}

/// What a synchronisation does, in full: where no time is known, or the time shown is off by more
/// than 2000 milliseconds, early or late, the clock runs on from the given second at that instant;
/// otherwise nothing changes, now or later.
pub proof fn law_sync_in_full(c: Clock, now: u64, unix_seconds: u32, later: u64)
    requires
        now <= later,
    ensures
        ({
            let then = c.after(now, unix_seconds);
            let off = match c.time_at(now) {
                Some(t) => t - 1000 * unix_seconds,
                None => 2001,
            };
            if -2000 <= off <= 2000 {
                then == c
            } else {
                &&& then.time_at(now) == Some(1000 * unix_seconds)
                &&& then.time_at(later) == Some(1000 * unix_seconds + (later - now) * 1000 / 32_768)
                &&& then.anchor == Some(Anchor { mono: now, unix_ms: (1000 * unix_seconds) as u64 })
            }
        }),
{
}

/// The time shown is the anchor's and the whole milliseconds since: from the anchored instant on it
/// runs with the ticks, 32,768 of them to the second, and before that instant it stands still.
pub proof fn law_time_runs_from_the_anchor(a: Anchor, now: u64)
    ensures
        now <= a.mono ==> a.time_at(now) == a.unix_ms,
        now >= a.mono ==> (a.time_at(now) - a.unix_ms) * 32_768 <= (now - a.mono) * 1000 < (
        a.time_at(now) - a.unix_ms + 1) * 32_768,
{
}

/// A clock that was never set shows no time, and one that was always shows one.
pub proof fn law_time_is_known_once_set(c: Clock, now: u64, unix_seconds: u32, later: u64)
    ensures
        c.time_at(later) is None <==> c.anchor is None,
        c.after(now, unix_seconds).time_at(later) is Some,
{
}

} // verus!
