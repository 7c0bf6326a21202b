//! Ride-state power policy: one place decides what deserves power, from the activity signals
//! that the device has. Consumers obey their gate; hold times and interactions live here.
//!
//! Normal mode (IMU healthy): motion is the master signal.
//!   - Sensor scan: open while moving, held `SCAN_HOLD_SECS` past the last motion.
//!   - GPS: opened by motion or cadence, released `GPS_HOLD_SECS` after the last of either.
//!
//! Degraded mode (IMU unavailable): the cadence sensor itself is the motion detector.
//!   - Sensor scan: duty-cycled while disconnected, closed while connected.
//!   - GPS: on while the sensor is connected, held past the last cadence event or disconnect.
use crate::ticks::{ticks_from_secs, TICK_HZ};
use vstd::prelude::*;

verus! {

/// The scan gate stays open this long past the last motion.
pub const SCAN_HOLD_SECS: u64 = 30;

/// The GPS survives this long with no activity.
pub const GPS_HOLD_SECS: u64 = 300;

/// In degraded mode, how long each scan burst lasts.
pub const DEGRADED_SCAN_BURST_SECS: u64 = 10;

/// In degraded mode, how often a scan burst starts.
pub const DEGRADED_SCAN_PERIOD_SECS: u64 = 60;

/// `secs` seconds in ticks.
pub open spec fn secs(s: u64) -> int {
    s * TICK_HZ
}

/// The two power gates.
#[derive(Clone, Copy, Debug, PartialEq, Eq, Structural)]
pub struct Gates {
    /// Whether the central should be scanning for the cadence sensor.
    pub scan: bool,
    /// Whether the GPS should be tracking.
    pub gps: bool,
}

/// What the policy can be told.
#[derive(Clone, Copy, Debug, PartialEq, Eq, Structural)]
pub enum PowerEvent {
    /// The accelerometer's moving flag.
    Moving(bool),
    /// A crank event.
    Crank,
    /// Whether the accelerometer works.
    ImuHealthy(bool),
    /// Whether the cadence sensor is connected.
    SensorConnected(bool),
    /// The wake timer fired.
    Timer,
}

/// What has to be done after an evaluation.
#[derive(Clone, Copy, Debug, PartialEq, Eq, Structural)]
pub struct Commands {
    /// The scan gate's new position, if it moves.
    pub scan: Option<bool>,
    /// The GPS gate's new position, if it moves.
    pub gps: Option<bool>,
    /// When to evaluate again if nothing happens before.
    pub wake_at: Option<u64>,
}

/// The policy's memory.
#[derive(Clone, Copy, Debug)]
pub struct PowerPolicy {
    pub moving: bool,
    pub imu_healthy: bool,
    pub sensor_connected: bool,
    /// When motion last ended.
    pub last_still: Option<u64>,
    /// When the crank last turned.
    pub last_crank: Option<u64>,
    /// When the sensor last disconnected.
    pub last_disconnect: Option<u64>,
    /// Phase anchor of the degraded duty cycle.
    pub cycle_start: u64,
    /// Where the gates stand.
    pub gates: Gates,
}

/// Whether `now` lies less than `hold` ticks past the anchor.
pub open spec fn held(anchor: Option<u64>, hold: int, now: int) -> bool {
    anchor matches Some(t) && now < t + hold
}

pub open spec fn not_after(anchor: Option<u64>, now: int) -> bool {
    anchor matches Some(t) ==> t <= now
}

impl PowerPolicy {
    /// Everything remembered lies in the past, and the holds still fit the clock.
    pub open spec fn wf_at(self, now: int) -> bool {
        &&& not_after(self.last_still, now)
        &&& not_after(self.last_crank, now)
        &&& not_after(self.last_disconnect, now)
        &&& self.cycle_start <= now
        &&& now + secs(GPS_HOLD_SECS) <= u64::MAX
    }

    /// Whether the degraded duty cycle is in its burst.
    pub open spec fn bursting(self, now: int) -> bool {
        (now - self.cycle_start) % secs(DEGRADED_SCAN_PERIOD_SECS) < secs(DEGRADED_SCAN_BURST_SECS)
    }

    /// Where the gates belong at `now`, going by what was seen so far.
    pub open spec fn wanted(self, now: int) -> Gates {
        if self.imu_healthy {
            Gates {
                scan: self.moving || held(self.last_still, secs(SCAN_HOLD_SECS), now),
                gps: self.moving || held(self.last_still, secs(GPS_HOLD_SECS), now) || held(
                    self.last_crank,
                    secs(GPS_HOLD_SECS),
                    now,
                ),
            }
        } else {
            Gates {
                scan: !self.sensor_connected && self.bursting(now),
                gps: self.sensor_connected || held(self.last_crank, secs(GPS_HOLD_SECS), now)
                    || held(self.last_disconnect, secs(GPS_HOLD_SECS), now),
            }
        }
    }

    /// No event coming in, the gates first want to move at `wake_at`, or never.
    pub open spec fn first_change(self, now: int, wake_at: Option<u64>) -> bool {
        match wake_at {
            Some(d) => {
                &&& now < d
                &&& self.wanted(d as int) != self.wanted(now)
                &&& forall|t: int| now <= t < d ==> #[trigger] self.wanted(t) == self.wanted(now)
            },
            None => forall|t: int| now <= t ==> #[trigger] self.wanted(t) == self.wanted(now),
        }
    }

    /// The memory after an event at `now`. While motion (or the connection) lasts its gates are
    /// open anyway, so only the falling edge is remembered.
    pub open spec fn after(self, event: PowerEvent, now: u64) -> PowerPolicy {
        match event {
            PowerEvent::Moving(m) => PowerPolicy {
                last_still: if self.moving && !m {
                    Some(now)
                } else {
                    self.last_still
                },
                moving: m,
                ..self
            },
            PowerEvent::Crank => PowerPolicy { last_crank: Some(now), ..self },
            PowerEvent::ImuHealthy(h) => PowerPolicy { imu_healthy: h, ..self },
            PowerEvent::SensorConnected(c) => PowerPolicy {
                last_disconnect: if self.sensor_connected && !c {
                    Some(now)
                } else {
                    self.last_disconnect
                },
                sensor_connected: c,
                ..self
            },
            PowerEvent::Timer => self,
        }
    }

    /// A policy at boot: optimistic about the IMU, gates closed.
    pub fn new(now: u64) -> (r: PowerPolicy)
        ensures
            !r.moving && r.imu_healthy && !r.sensor_connected,
            r.last_still is None && r.last_crank is None && r.last_disconnect is None,
            r.cycle_start == now,
            r.gates == (Gates { scan: false, gps: false }),
    {
        PowerPolicy {
            moving: false,
            imu_healthy: true,
            sensor_connected: false,
            last_still: None,
            last_crank: None,
            last_disconnect: None,
            cycle_start: now,
            gates: Gates { scan: false, gps: false },
        }
    }

    /// Where the gates belong now, and when that changes next if nothing happens.
    pub fn evaluate(&self, now: u64) -> (r: (Gates, Option<u64>))
        requires
            self.wf_at(now as int),
        ensures
            r.0 == self.wanted(now as int),
            self.first_change(now as int, r.1),
    {
        let gps_hold = ticks_from_secs(GPS_HOLD_SECS);
        if self.imu_healthy {
            let scan_expiry = expiry(self.last_still, ticks_from_secs(SCAN_HOLD_SECS));
            let gps_expiry = later(expiry(self.last_still, gps_hold), expiry(self.last_crank, gps_hold));
            if self.moving {
                return (Gates { scan: true, gps: true }, None);
            }
            let scan_end = pending(scan_expiry, now);
            let gps_end = pending(gps_expiry, now);
            let gates = Gates { scan: scan_end.is_some(), gps: gps_end.is_some() };
            (gates, sooner(scan_end, gps_end))
        } else {
            let gps_expiry = later(
                expiry(self.last_crank, gps_hold),
                expiry(self.last_disconnect, gps_hold),
            );
            if self.sensor_connected {
                return (Gates { scan: false, gps: true }, None);
            }
            let period = ticks_from_secs(DEGRADED_SCAN_PERIOD_SECS);
            let burst = ticks_from_secs(DEGRADED_SCAN_BURST_SECS);
            let in_cycle = (now - self.cycle_start) % period;
            let bursting = in_cycle < burst;
            let to_boundary = if bursting {
                burst - in_cycle
            } else {
                period - in_cycle
            };
            let gps_end = pending(gps_expiry, now);
            let gates = Gates { scan: bursting, gps: gps_end.is_some() };
            (gates, sooner(Some(now + to_boundary), gps_end))
        }
    }

    /// Moves the gates to where they belong, and says which of them moved and when to look again.
    pub fn step(&mut self, now: u64) -> (r: Commands)
        requires
            old(self).wf_at(now as int),
        ensures
            *final(self) == (PowerPolicy { gates: old(self).wanted(now as int), ..*old(self) }),
            r.scan == (if final(self).gates.scan != old(self).gates.scan {
                Some(final(self).gates.scan)
            } else {
                None
            }),
            r.gps == (if final(self).gates.gps != old(self).gates.gps {
                Some(final(self).gates.gps)
            } else {
                None
            }),
            old(self).first_change(now as int, r.wake_at),
            r.scan != Some(old(self).gates.scan) && r.gps != Some(old(self).gates.gps),
            old(self).wanted(now as int).scan == (match r.scan {
                Some(open) => open,
                None => old(self).gates.scan,
            }),
            old(self).wanted(now as int).gps == (match r.gps {
                Some(open) => open,
                None => old(self).gates.gps,
            }),
    {
        let (gates, wake_at) = self.evaluate(now);
        let scan = if gates.scan != self.gates.scan {
            Some(gates.scan)
        } else {
            None
        };
        let gps = if gates.gps != self.gates.gps {
            Some(gates.gps)
        } else {
            None
        };
        self.gates = gates;
        Commands { scan, gps, wake_at }
    }

    /// Takes an event in.
    pub fn apply(&mut self, event: PowerEvent, now: u64)
        ensures
            *final(self) == old(self).after(event, now),
    {
        match event {
            PowerEvent::Moving(m) => {
                if self.moving && !m {
                    self.last_still = Some(now);
                }
                self.moving = m;
            },
            PowerEvent::Crank => {
                self.last_crank = Some(now);
            },
            PowerEvent::ImuHealthy(h) => {
                self.imu_healthy = h;
            },
            PowerEvent::SensorConnected(c) => {
                if self.sensor_connected && !c {
                    self.last_disconnect = Some(now);
                }
                self.sensor_connected = c;
            },
            PowerEvent::Timer => {},
        }
    }
}

/// Events leave the memory well formed, at the event and at any later instant that still fits
/// the clock.
pub proof fn law_wf_is_kept(p: PowerPolicy, event: PowerEvent, now: u64, later_on: int)
    requires
        p.wf_at(now as int),
        now <= later_on,
        later_on + secs(GPS_HOLD_SECS) <= u64::MAX,
    ensures
        p.after(event, now).wf_at(later_on),
{
}

/// Normal mode: while the bike moves both gates are open, and the wake timer rests.
pub proof fn law_motion_opens_both_gates(p: PowerPolicy, now: int)
    requires
        p.imu_healthy,
        p.moving,
    ensures
        p.wanted(now) == (Gates { scan: true, gps: true }),
        p.first_change(now, None),
{
}

/// Normal mode: when motion ends, the scan gate stays open for exactly `SCAN_HOLD_SECS` and the
/// GPS gate, no crank event coming in, for exactly `GPS_HOLD_SECS` past the last activity.
pub proof fn law_normal_holds(p: PowerPolicy, stop: u64, now: int)
    requires
        p.wf_at(stop as int),
        p.imu_healthy,
        p.moving,
        stop <= now,
    ensures
        ({
            let still = p.after(PowerEvent::Moving(false), stop);
            &&& still.wanted(now).scan <==> now < stop + secs(SCAN_HOLD_SECS)
            &&& still.wanted(now).gps <==> now < stop + secs(GPS_HOLD_SECS)
        }),
{
}

/// Normal mode: a crank event keeps the GPS on for `GPS_HOLD_SECS`, and does nothing to the scan
/// gate.
pub proof fn law_cadence_sustains_gps(p: PowerPolicy, turn: u64, now: int)
    requires
        p.imu_healthy,
        turn <= now < turn + secs(GPS_HOLD_SECS),
    ensures
        p.after(PowerEvent::Crank, turn).wanted(now).gps,
        p.after(PowerEvent::Crank, turn).wanted(now).scan == p.wanted(now).scan,
{
}

/// Normal mode: `GPS_HOLD_SECS` with neither motion nor cadence closes both gates for good,
/// until something happens.
pub proof fn law_idle_closes_both_gates(p: PowerPolicy, now: int)
    requires
        p.imu_healthy,
        !p.moving,
        p.last_still matches Some(t) ==> t + secs(GPS_HOLD_SECS) <= now,
        p.last_crank matches Some(t) ==> t + secs(GPS_HOLD_SECS) <= now,
    ensures
        p.wanted(now) == (Gates { scan: false, gps: false }),
        p.first_change(now, None),
{
}

/// Degraded mode: while the sensor is connected the GPS is on and the scan gate rests closed.
pub proof fn law_degraded_connected(p: PowerPolicy, now: int)
    requires
        !p.imu_healthy,
        p.sensor_connected,
    ensures
        p.wanted(now) == (Gates { scan: false, gps: true }),
        p.first_change(now, None),
{
}

/// Degraded mode: after a disconnect the GPS is held for exactly `GPS_HOLD_SECS` past the later
/// of the disconnect and the last cadence event.
pub proof fn law_degraded_gps_hold(p: PowerPolicy, lost: u64, now: int)
    requires
        p.wf_at(lost as int),
        !p.imu_healthy,
        p.sensor_connected,
        lost <= now,
    ensures
        p.after(PowerEvent::SensorConnected(false), lost).wanted(now).gps <==> now < lost + secs(
            GPS_HOLD_SECS,
        ),
{
}

/// Degraded mode: while disconnected, the scan gate is open for the first
/// `DEGRADED_SCAN_BURST_SECS` of every `DEGRADED_SCAN_PERIOD_SECS`, and closed for the rest.
pub proof fn law_degraded_duty_cycle(p: PowerPolicy, cycle: nat, offset: int)
    requires
        !p.imu_healthy,
        !p.sensor_connected,
        0 <= offset < secs(DEGRADED_SCAN_PERIOD_SECS),
    ensures
        p.wanted(p.cycle_start + cycle * secs(DEGRADED_SCAN_PERIOD_SECS) + offset).scan <==> offset
            < secs(DEGRADED_SCAN_BURST_SECS),
{
    let period = secs(DEGRADED_SCAN_PERIOD_SECS);
    assert((cycle * period + offset) % period == offset) by {
        vstd::arithmetic::div_mod::lemma_mod_multiples_vanish(cycle as int, offset, period);
        vstd::arithmetic::div_mod::lemma_small_mod(offset as nat, period as nat);
        assert(cycle * period == period * cycle) by (nonlinear_arith);
    }
}

/// Degraded mode: from any instant on, a disconnected device scans within one period, so a ride
/// is picked up within one period of the first pedal stroke.
pub proof fn law_degraded_scans_within_a_period(p: PowerPolicy, now: int) -> (t: int)
    requires
        !p.imu_healthy,
        !p.sensor_connected,
    ensures
        now <= t < now + secs(DEGRADED_SCAN_PERIOD_SECS),
        p.wanted(t).scan,
{
    let period = secs(DEGRADED_SCAN_PERIOD_SECS);
    let in_cycle = (now - p.cycle_start) % period;
    if in_cycle < secs(DEGRADED_SCAN_BURST_SECS) {
        now
    } else {
        let t = now + (period - in_cycle);
        assert((t - p.cycle_start) % period == 0) by {
            let n = now - p.cycle_start;
            assert(n == period * (n / period) + n % period);
            assert(t - p.cycle_start == period * (n / period + 1));
            vstd::arithmetic::div_mod::lemma_mod_multiples_basic(n / period + 1, period);
        }
        t
    }
}

/// Once the gates stand where they belong, evaluating again before the wake time moves nothing.
pub proof fn law_quiet_until_wake(p: PowerPolicy, now: int, wake_at: Option<u64>, t: int)
    requires
        p.first_change(now, wake_at),
        p.gates == p.wanted(now),
        now <= t,
        wake_at matches Some(d) ==> t < d,
    ensures
        p.wanted(t) == p.gates,
{
}

/// The memory after a run of events, each with its instant.
pub open spec fn after_events(p: PowerPolicy, events: Seq<(PowerEvent, u64)>) -> PowerPolicy
    decreases events.len(),
{
    if events.len() == 0 {
        p
    } else {
        after_events(p, events.drop_last()).after(events.last().0, events.last().1)
    }
}

/// Every signal is believed as it comes, whatever is remembered: after an event the policy holds
/// what that event said.
pub proof fn law_events_are_believed(p: PowerPolicy, event: PowerEvent, now: u64)
    ensures
        event matches PowerEvent::Moving(m) ==> p.after(event, now).moving == m,
        event matches PowerEvent::ImuHealthy(h) ==> p.after(event, now).imu_healthy == h,
        event matches PowerEvent::SensorConnected(c) ==> p.after(event, now).sensor_connected == c,
        event is Crank ==> p.after(event, now).last_crank == Some(now),
{
}

/// The instants of the edges: the end of motion and the end of the connection are remembered each
/// time they come, and a flag that rises or stays as it is keeps the instant of its last end.
pub proof fn law_falling_edges_are_remembered(p: PowerPolicy, flag: bool, now: u64)
    ensures
        p.moving ==> p.after(PowerEvent::Moving(false), now).last_still == Some(now),
        flag || !p.moving ==> p.after(PowerEvent::Moving(flag), now).last_still == p.last_still,
        p.sensor_connected ==> p.after(PowerEvent::SensorConnected(false), now).last_disconnect
            == Some(now),
        flag || !p.sensor_connected ==> p.after(
            PowerEvent::SensorConnected(flag),
            now,
        ).last_disconnect == p.last_disconnect,
{
}

/// An event touches only what it is about: each thing that is remembered is changed by one signal
/// alone, and the phase of the duty cycle and the gates by none.
pub proof fn law_events_do_not_interfere(p: PowerPolicy, event: PowerEvent, now: u64)
    ensures
        ({
            let q = p.after(event, now);
            &&& event is Moving || (q.moving == p.moving && q.last_still == p.last_still)
            &&& event is Crank || q.last_crank == p.last_crank
            &&& event is ImuHealthy || q.imu_healthy == p.imu_healthy
            &&& event is SensorConnected || (q.sensor_connected == p.sensor_connected
                && q.last_disconnect == p.last_disconnect)
            &&& q.cycle_start == p.cycle_start
            &&& q.gates == p.gates
        }),
{
}

/// A ride keeps both gates open: from the report of motion on, whatever was remembered before and
/// whatever else comes in, both belong open at every instant until motion is reported to have
/// ended or the accelerometer to have failed.
pub proof fn law_ride_keeps_both_gates_open(
    p: PowerPolicy,
    start: u64,
    events: Seq<(PowerEvent, u64)>,
    now: int,
)
    requires
        p.imu_healthy,
        forall|i: int|
            0 <= i < events.len() ==> (#[trigger] events[i]).0 != PowerEvent::Moving(false)
                && events[i].0 != PowerEvent::ImuHealthy(false),
    ensures
        ({
            let riding = after_events(p.after(PowerEvent::Moving(true), start), events);
            &&& riding.moving && riding.imu_healthy
            &&& riding.wanted(now) == (Gates { scan: true, gps: true })
        }),
    decreases events.len(),
{
    if events.len() > 0 {
        law_ride_keeps_both_gates_open(p, start, events.drop_last(), now);
        assert(events[events.len() - 1].0 != PowerEvent::Moving(false));
    }
}

/// Every ride ends in the same holds, the second like the first: once motion that was reported
/// has ended, and until it is reported again, the scan gate stays open for 30 seconds of 32,768
/// ticks, whatever else comes in.
pub proof fn law_every_ride_ends_in_the_hold(
    p: PowerPolicy,
    start: u64,
    stop: u64,
    events: Seq<(PowerEvent, u64)>,
    now: int,
)
    requires
        p.imu_healthy,
        forall|i: int|
            0 <= i < events.len() ==> !((#[trigger] events[i]).0 is Moving) && events[i].0
                != PowerEvent::ImuHealthy(false),
    ensures
        ({
            let still = after_events(
                p.after(PowerEvent::Moving(true), start).after(PowerEvent::Moving(false), stop),
                events,
            );
            &&& !still.moving && still.imu_healthy && still.last_still == Some(stop)
            &&& still.wanted(now).scan <==> now - stop < 30 * 32_768
            &&& now - stop < 300 * 32_768 ==> still.wanted(now).gps
        }),
    decreases events.len(),
{
    if events.len() > 0 {
        law_every_ride_ends_in_the_hold(p, start, stop, events.drop_last(), now);
        assert(!(events[events.len() - 1].0 is Moving));
    }
}

/// While the accelerometer works the cadence sensor's connection is not looked at, and while it
/// does not its flag is not: nothing that comes in of the one moves a gate of the other's mode.
pub proof fn law_modes_are_kept_apart(p: PowerPolicy, event: PowerEvent, at: u64, now: int)
    ensures
        p.imu_healthy && event is SensorConnected ==> p.after(event, at).wanted(now) == p.wanted(
            now,
        ),
        !p.imu_healthy && event is Moving ==> p.after(event, at).wanted(now) == p.wanted(now),
        event is Timer ==> p.after(event, at) == p,
{
}

/// Normal mode, in full: the scan gate belongs open while the bike moves and for 30 seconds past
/// the end of motion, the GPS gate while it moves and for 300 seconds past the end of motion and
/// past the last crank event, and neither at any other instant.
pub proof fn law_normal_mode(p: PowerPolicy, now: int)
    requires
        p.imu_healthy,
    ensures
        p.wanted(now).scan <==> p.moving || (p.last_still is Some && now - p.last_still->0 < 30
            * 32_768),
        p.wanted(now).gps <==> p.moving || (p.last_still is Some && now - p.last_still->0 < 300
            * 32_768) || (p.last_crank is Some && now - p.last_crank->0 < 300 * 32_768),
{
}

/// Degraded mode, in full: the scan gate belongs open for the first 10 of every 60 seconds while
/// the sensor is not connected, the GPS gate while it is and for 300 seconds past the last crank
/// event and past the last disconnect, and neither at any other instant.
pub proof fn law_degraded_mode(p: PowerPolicy, now: int)
    requires
        !p.imu_healthy,
    ensures
        p.wanted(now).scan <==> !p.sensor_connected && (now - p.cycle_start) % (60int * 32_768) < 10
            * 32_768,
        p.wanted(now).gps <==> p.sensor_connected || (p.last_crank is Some && now - p.last_crank->0
            < 300 * 32_768) || (p.last_disconnect is Some && now - p.last_disconnect->0 < 300
            * 32_768),
{
}

/// The wake time is the one instant to wake at: nothing changes before it, something does at it,
/// and no other answer is right. Where there is none, nothing ever changes by itself.
pub proof fn law_wake_time_is_exact(p: PowerPolicy, now: int, a: Option<u64>, b: Option<u64>)
    requires
        p.first_change(now, a),
        p.first_change(now, b),
    ensures
        a == b,
        a matches Some(d) ==> now < d && p.wanted(d as int) != p.wanted(now),
        forall|t: int|
            now <= t && (a matches Some(d) ==> t < d) ==> #[trigger] p.wanted(t) == p.wanted(now),
{
    if let Some(d) = a {
        assert(p.wanted(d as int) != p.wanted(now));
    }
    if let Some(d) = b {
        assert(p.wanted(d as int) != p.wanted(now));
    }
}

/// When a hold from `anchor` ends.
fn expiry(anchor: Option<u64>, hold: u64) -> (r: Option<u64>)
    requires
        anchor matches Some(t) ==> t + hold <= u64::MAX,
    ensures
        r is Some <==> anchor is Some,
        anchor matches Some(t) ==> r == Some((t + hold) as u64),
{
    match anchor {
        Some(t) => Some(t + hold),
        None => None,
    }
}

/// The later of two instants, where there is one.
fn later(a: Option<u64>, b: Option<u64>) -> (r: Option<u64>)
    ensures
        r is None <==> a is None && b is None,
        r is Some ==> r == a || r == b,
        a matches Some(x) ==> x <= r->0,
        b matches Some(y) ==> y <= r->0,
{
    match (a, b) {
        (Some(x), Some(y)) => Some(if x < y { y } else { x }),
        (Some(x), None) => Some(x),
        (None, y) => y,
    }
}

/// The sooner of two instants, where there is one.
fn sooner(a: Option<u64>, b: Option<u64>) -> (r: Option<u64>)
    ensures
        r is None <==> a is None && b is None,
        r is Some ==> r == a || r == b,
        a matches Some(x) ==> r->0 <= x,
        b matches Some(y) ==> r->0 <= y,
{
    match (a, b) {
        (Some(x), Some(y)) => Some(if x < y { x } else { y }),
        (Some(x), None) => Some(x),
        (None, y) => y,
    }
}

/// An instant, if it is still to come.
fn pending(e: Option<u64>, now: u64) -> (r: Option<u64>)
    ensures
        r == (if e matches Some(x) && now < x { e } else { None }),
{
    match e {
        Some(x) => if now < x {
            Some(x)
        } else {
            None
        },
        None => None,
    }
}

} // verus!
