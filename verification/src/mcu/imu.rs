//! The accelerometer: arming its wake-on-motion engine, and holding "moving" past the last jolt.
//!
//! The chip runs its wake-up engine by itself and raises its interrupt line when the acceleration
//! changes by more than a threshold. The line is latched: it stays high until the wake-up source
//! register is read. So the task sleeps until the line is high, and never polls.
use vstd::prelude::*;

verus! {

/// The chip's address on the internal sensor bus.
pub const ADDR: u8 = 0x6A;

pub const REG_WHO_AM_I: u8 = 0x0F;

pub const WHO_AM_I_LSM6DS3TR_C: u8 = 0x6A;

pub const REG_CTRL1_XL: u8 = 0x10;

pub const REG_CTRL3_C: u8 = 0x12;

pub const REG_CTRL6_C: u8 = 0x15;

pub const REG_WAKE_UP_SRC: u8 = 0x1B;

pub const REG_WAKE_UP_DUR: u8 = 0x5C;

pub const REG_WK_THS: u8 = 0x5B;

pub const REG_TAP_CFG: u8 = 0x58;

pub const REG_MD1_CFG: u8 = 0x5E;

/// 52 Hz, full scale 2 g.
pub const CTRL1_XL_52HZ_2G: u8 = 0x30;

/// Block data update, and register addresses that increment.
pub const CTRL3_C_BDU_IFINC: u8 = 0x44;

/// The accelerometer's low-power mode.
pub const CTRL6_C_XL_LOW_POWER: u8 = 0x10;

/// The interrupt block, latched.
pub const TAP_CFG_ENABLE_INTS: u8 = 0x81;

/// The wake-up event on the first interrupt line.
pub const MD1_CFG_INT1_WU: u8 = 0x20;

/// Fire on the first sample over the threshold.
pub const WAKE_UP_DUR_IMMEDIATE: u8 = 0x00;

/// The wake-up threshold: 8 steps of 31.25 mg.
pub const WK_THS: u8 = 0x08;

/// How long the chip takes to boot once it is powered, in milliseconds.
pub const BOOT_MS: u64 = 50;

/// "Moving" is held this many seconds past the last jolt.
pub const MOTION_HOLD_SECS: u64 = 3;

/// Seconds between two attempts to bring the chip up.
pub const RETRY_SECS: u64 = 5;

/// How long the accelerometer takes to settle, in milliseconds.
pub const SETTLE_MS: u64 = 100;

/// After this many failed attempts, about thirty seconds, the chip counts as unavailable.
pub const ATTEMPTS_BEFORE_UNHEALTHY: u32 = 6;

/// The registers that arm the wake-up engine, and their values, in the order in which they are
/// written.
pub const SETUP: [[u8; 2]; 7] = [
    [REG_CTRL3_C, CTRL3_C_BDU_IFINC],
    [REG_CTRL6_C, CTRL6_C_XL_LOW_POWER],
    [REG_CTRL1_XL, CTRL1_XL_52HZ_2G],
    [REG_WK_THS, WK_THS],
    [REG_WAKE_UP_DUR, WAKE_UP_DUR_IMMEDIATE],
    [REG_TAP_CFG, TAP_CFG_ENABLE_INTS],
    [REG_MD1_CFG, MD1_CFG_INT1_WU],
];

/// What the task is about to do. Each phase is one operation, which ends in one event.
#[derive(Clone, Copy, Debug, PartialEq, Eq, Structural)]
pub enum Phase {
    /// Read `REG_WHO_AM_I`.
    Identify,
    /// Write `SETUP` at this index.
    Arm(usize),
    /// Wait `SETTLE_MS`.
    Settle,
    /// Read `REG_WAKE_UP_SRC`, to discard what the engine saw while it settled.
    Discard,
    /// Wait `RETRY_SECS`, then try again.
    Backoff,
    /// Wait until the interrupt line is high.
    Parked,
    /// Read `REG_WAKE_UP_SRC`, to clear the latch.
    Clear,
    /// Wait until the interrupt line is high, for `MOTION_HOLD_SECS` at most.
    Holding,
}

impl Phase {
    /// How long the phase waits, in milliseconds; nothing where it does not go by the clock.
    pub open spec fn wait(self) -> Option<u64> {
        match self {
            Phase::Settle => Some(SETTLE_MS),
            Phase::Backoff => Some((RETRY_SECS * 1000) as u64),
            Phase::Holding => Some((MOTION_HOLD_SECS * 1000) as u64),
            _ => None,
        }
    }

    /// How long to wait in this phase before `ImuEvent::Elapsed`, in milliseconds: 100 to settle,
    /// 5000 before another attempt, and 3000 without a jolt before the device counts as still.
    pub fn wait_ms(&self) -> (r: Option<u64>)
        ensures
            r == self.wait(),
            *self is Settle ==> r == Some(100u64),
            *self is Backoff ==> r == Some(5000u64),
            *self is Holding ==> r == Some(3000u64),
            r is None <==> !(*self is Settle || *self is Backoff || *self is Holding),
    {
        match self {
            Phase::Settle => Some(SETTLE_MS),
            Phase::Backoff => Some(RETRY_SECS * 1000),
            Phase::Holding => Some(MOTION_HOLD_SECS * 1000),
            _ => None,
        }
    }
}

#[derive(Clone, Copy, Debug, PartialEq, Eq, Structural)]
pub enum ImuEvent {
    /// What `REG_WHO_AM_I` holds; nothing where the bus failed.
    Identity(Option<u8>),
    /// A register was written, or could not be.
    Written(bool),
    /// `REG_WAKE_UP_SRC` was read; whether the read succeeded does not matter.
    Cleared,
    /// The interrupt line is high.
    Raised,
    /// The wait is over.
    Elapsed,
}

/// What there is to publish.
#[derive(Clone, Copy, Debug, PartialEq, Eq, Structural)]
pub struct ImuReport {
    pub moving: Option<bool>,
    pub healthy: Option<bool>,
}

#[derive(Clone, Copy, Debug, PartialEq, Eq, Structural)]
pub struct Imu {
    pub phase: Phase,
    /// Failed attempts to bring the chip up, in a row; stays at its largest value.
    pub attempts: u32,
    /// What was last published of the chip's health.
    pub healthy: bool,
}

impl Imu {
    pub open spec fn wf(self) -> bool {
        &&& self.phase matches Phase::Arm(i) ==> i < 7
        &&& self.healthy <==> self.attempts < ATTEMPTS_BEFORE_UNHEALTHY
    }

    /// The chip is taken to be there until it has failed for a while.
    pub fn new() -> (r: Imu)
        ensures
            r == (Imu { phase: Phase::Identify, attempts: 0, healthy: true }),
            r.wf(),
    {
        Imu { phase: Phase::Identify, attempts: 0, healthy: true }
    }

    /// Whether the device was last seen to move.
    pub open spec fn is_moving(self) -> bool {
        self.phase is Clear || self.phase is Holding
    }

    /// An attempt to bring the chip up failed.
    pub open spec fn failed(self) -> Imu {
        let attempts = if self.attempts == u32::MAX {
            u32::MAX
        } else {
            (self.attempts + 1) as u32
        };
        Imu {
            phase: Phase::Backoff,
            attempts,
            healthy: attempts < ATTEMPTS_BEFORE_UNHEALTHY,
        }
    }

    /// The state after an event. An event that does not end the phase's operation changes nothing.
    pub open spec fn after(self, event: ImuEvent) -> Imu {
        match (self.phase, event) {
            (Phase::Identify, ImuEvent::Identity(who)) => if who == Some(WHO_AM_I_LSM6DS3TR_C) {
                Imu { phase: Phase::Arm(0), ..self }
            } else {
                self.failed()
            },
            (Phase::Arm(i), ImuEvent::Written(ok)) => if !ok {
                self.failed()
            } else if i + 1 < 7 {
                Imu { phase: Phase::Arm((i + 1) as usize), ..self }
            } else {
                Imu { phase: Phase::Settle, ..self }
            },
            (Phase::Settle, ImuEvent::Elapsed) => Imu { phase: Phase::Discard, ..self },
            (Phase::Discard, ImuEvent::Cleared) => Imu {
                phase: Phase::Parked,
                attempts: 0,
                healthy: true,
            },
            (Phase::Backoff, ImuEvent::Elapsed) => Imu { phase: Phase::Identify, ..self },
            (Phase::Parked, ImuEvent::Raised) => Imu { phase: Phase::Clear, ..self },
            (Phase::Clear, ImuEvent::Cleared) => Imu { phase: Phase::Holding, ..self },
            (Phase::Holding, ImuEvent::Raised) => Imu { phase: Phase::Clear, ..self },
            (Phase::Holding, ImuEvent::Elapsed) => Imu { phase: Phase::Parked, ..self },
            _ => self,
        }
    }

    /// What an event leads to: "still" once the engine is armed, "moving" on the first jolt, and
    /// "still" after a quiet hold; and the chip's health when it changes.
    pub open spec fn report(self, event: ImuEvent) -> ImuReport {
        ImuReport {
            moving: match (self.phase, event) {
                (Phase::Discard, ImuEvent::Cleared) => Some(false),
                (Phase::Parked, ImuEvent::Raised) => Some(true),
                (Phase::Holding, ImuEvent::Elapsed) => Some(false),
                _ => None,
            },
            healthy: if self.after(event).healthy != self.healthy {
                Some(self.after(event).healthy)
            } else {
                None
            },
        }
    }

    fn fail(&mut self)
        ensures
            *final(self) == old(self).failed(),
    {
        if self.attempts < u32::MAX {
            self.attempts = self.attempts + 1;
        }
        self.phase = Phase::Backoff;
        self.healthy = self.attempts < ATTEMPTS_BEFORE_UNHEALTHY;
    }

    pub fn on_event(&mut self, event: ImuEvent) -> (r: ImuReport)
        requires
            old(self).wf(),
        ensures
            *final(self) == old(self).after(event),
            final(self).wf(),
            r == old(self).report(event),
    {
        let was_healthy = self.healthy;
        let mut moving: Option<bool> = None;
        match (self.phase, event) {
            (Phase::Identify, ImuEvent::Identity(who)) => {
                let known = match who {
                    Some(id) => id == WHO_AM_I_LSM6DS3TR_C,
                    None => false,
                };
                if known {
                    self.phase = Phase::Arm(0);
                } else {
                    self.fail();
                }
            },
            (Phase::Arm(i), ImuEvent::Written(ok)) => {
                if !ok {
                    self.fail();
                } else if i + 1 < 7 {
                    self.phase = Phase::Arm(i + 1);
                } else {
                    self.phase = Phase::Settle;
                }
            },
            (Phase::Settle, ImuEvent::Elapsed) => {
                self.phase = Phase::Discard;
            },
            (Phase::Discard, ImuEvent::Cleared) => {
                self.phase = Phase::Parked;
                self.attempts = 0;
                self.healthy = true;
                moving = Some(false);
            },
            (Phase::Backoff, ImuEvent::Elapsed) => {
                self.phase = Phase::Identify;
            },
            (Phase::Parked, ImuEvent::Raised) => {
                self.phase = Phase::Clear;
                moving = Some(true);
            },
            (Phase::Clear, ImuEvent::Cleared) => {
                self.phase = Phase::Holding;
            },
            (Phase::Holding, ImuEvent::Raised) => {
                self.phase = Phase::Clear;
            },
            (Phase::Holding, ImuEvent::Elapsed) => {
                self.phase = Phase::Parked;
                moving = Some(false);
            },
            _ => {},
        }
        let healthy = if self.healthy != was_healthy {
            Some(self.healthy)
        } else {
            None
        };
        ImuReport { moving, healthy }
    }
}

/// The state after a run of events.
pub open spec fn after_all(imu: Imu, events: Seq<ImuEvent>) -> Imu
    decreases events.len(),
{
    if events.len() == 0 {
        imu
    } else {
        after_all(imu.after(events[0]), events.skip(1))
    }
}

/// The outcomes of writing the setup registers, as events.
pub open spec fn written(outcomes: Seq<bool>) -> Seq<ImuEvent> {
    outcomes.map_values(|ok: bool| ImuEvent::Written(ok))
}

proof fn lemma_backoff_waits(imu: Imu, outcomes: Seq<bool>)
    requires
        imu.phase is Backoff,
    ensures
        after_all(imu, written(outcomes)) == imu,
    decreases outcomes.len(),
{
    if outcomes.len() > 0 {
        lemma_backoff_waits(imu, outcomes.skip(1));
        assert(written(outcomes).skip(1) =~= written(outcomes.skip(1)));
    }
}

proof fn lemma_arming(imu: Imu, outcomes: Seq<bool>)
    requires
        imu.wf(),
        imu.phase matches Phase::Arm(i) && i + outcomes.len() == 7,
    ensures
        (forall|k: int| 0 <= k < outcomes.len() ==> outcomes[k]) ==> after_all(
            imu,
            written(outcomes),
        ) == (Imu { phase: Phase::Settle, ..imu }),
        (exists|k: int| 0 <= k < outcomes.len() && !outcomes[k]) ==> after_all(
            imu,
            written(outcomes),
        ) == imu.failed(),
    decreases outcomes.len(),
{
    let rest = outcomes.skip(1);
    assert(written(outcomes).skip(1) =~= written(rest));
    let next = imu.after(ImuEvent::Written(outcomes[0]));
    assert(written(outcomes)[0] == ImuEvent::Written(outcomes[0]));
    if !outcomes[0] {
        lemma_backoff_waits(next, rest);
    } else if rest.len() == 0 {
        assert(written(rest).len() == 0);
        assert(after_all(next, written(rest)) == next);
    } else {
        lemma_arming(next, rest);
        if exists|k: int| 0 <= k < outcomes.len() && !outcomes[k] {
            let k = choose|k: int| 0 <= k < outcomes.len() && !outcomes[k];
            assert(!rest[k - 1]);
        }
        if forall|k: int| 0 <= k < outcomes.len() ==> outcomes[k] {
            assert forall|k: int| 0 <= k < rest.len() implies rest[k] by {
                assert(outcomes[k + 1]);
            }
        }
    }
}

/// An attempt to bring the chip up succeeds exactly if the chip says that it is the one expected
/// and every register of the setup is written; otherwise it is tried again after a while.
pub proof fn law_bring_up(imu: Imu, who: Option<u8>, outcomes: Seq<bool>)
    requires
        imu.wf(),
        imu.phase is Identify,
        outcomes.len() == 7,
    ensures
        ({
            let end = after_all(imu.after(ImuEvent::Identity(who)), written(outcomes));
            let good = who == Some(WHO_AM_I_LSM6DS3TR_C) && forall|k: int|
                0 <= k < 7 ==> outcomes[k];
            end == (if good {
                Imu { phase: Phase::Settle, ..imu }
            } else {
                imu.failed()
            })
        }),
{
    let armed = imu.after(ImuEvent::Identity(who));
    if who == Some(WHO_AM_I_LSM6DS3TR_C) {
        lemma_arming(armed, outcomes);
        if !(forall|k: int| 0 <= k < 7 ==> outcomes[k]) {
            assert(exists|k: int| 0 <= k < outcomes.len() && !outcomes[k]);
        }
    } else {
        lemma_backoff_waits(armed, outcomes);
    }
}

/// Once armed, "moving" is published exactly when it changes.
pub proof fn law_motion_is_published_on_change(imu: Imu, event: ImuEvent)
    requires
        imu.phase is Parked || imu.phase is Clear || imu.phase is Holding,
    ensures
        imu.report(event).moving == (if imu.after(event).is_moving() != imu.is_moving() {
            Some(imu.after(event).is_moving())
        } else {
            None
        }),
        imu.after(event).phase is Parked || imu.after(event).is_moving(),
{
}

/// Jolts during the hold only start it anew: however many come, the device goes on moving and
/// nothing is published, until a whole hold passes without one.
pub proof fn law_only_a_quiet_hold_ends_motion(imu: Imu, event: ImuEvent)
    requires
        imu.is_moving(),
    ensures
        imu.after(event).is_moving() <==> !(imu.phase is Holding && event is Elapsed),
        imu.report(event).moving is Some <==> imu.phase is Holding && event is Elapsed,
{
}

/// The chip's health is published on the attempt that makes it unavailable and on recovery, and
/// the invariant holds after every event.
pub proof fn law_health_is_published_on_change(imu: Imu, event: ImuEvent)
    requires
        imu.wf(),
    ensures
        imu.after(event).wf(),
        imu.report(event).healthy == Some(false) <==> imu.after(event) == imu.failed()
            && imu.attempts + 1 == ATTEMPTS_BEFORE_UNHEALTHY,
        imu.report(event).healthy == Some(true) <==> imu.phase is Discard && event is Cleared
            && imu.attempts >= ATTEMPTS_BEFORE_UNHEALTHY,
{
}

/// The clock ends exactly the phases that wait: those have a length, and in the others a wait that
/// is over changes nothing.
pub proof fn law_only_waits_elapse(imu: Imu)
    ensures
        imu.phase.wait() is Some <==> imu.after(ImuEvent::Elapsed) != imu,
{
}

/// The way up, step by step: the chip with the number 0x6A is armed register by register, all
/// seven, then settles, has its latch cleared once, and is watched. Each phase ends by its own event
/// alone, whatever came before.
pub proof fn law_bring_up_step_by_step(imu: Imu, event: ImuEvent)
    ensures
        ({
            let next = imu.after(event).phase;
            match imu.phase {
                Phase::Identify => match event {
                    ImuEvent::Identity(who) => next == (if who == Some(0x6Au8) {
                        Phase::Arm(0)
                    } else {
                        Phase::Backoff
                    }),
                    _ => next == imu.phase,
                },
                Phase::Arm(i) => match event {
                    ImuEvent::Written(ok) => next == (if !ok {
                        Phase::Backoff
                    } else if i < 6 {
                        Phase::Arm((i + 1) as usize)
                    } else {
                        Phase::Settle
                    }),
                    _ => next == imu.phase,
                },
                Phase::Settle => next == (if event is Elapsed {
                    Phase::Discard
                } else {
                    Phase::Settle
                }),
                Phase::Discard => next == (if event is Cleared {
                    Phase::Parked
                } else {
                    Phase::Discard
                }),
                Phase::Backoff => next == (if event is Elapsed {
                    Phase::Identify
                } else {
                    Phase::Backoff
                }),
                _ => next is Parked || next is Clear || next is Holding,
            }
        }),
{
}

/// The watch, step by step: a jolt is cleared and then held, a jolt during the hold is cleared and
/// held anew, and a hold without one ends it. Neither the count of failures nor the health moves.
pub proof fn law_watch_step_by_step(imu: Imu, event: ImuEvent)
    requires
        imu.phase is Parked || imu.phase is Clear || imu.phase is Holding,
    ensures
        imu.after(event).attempts == imu.attempts,
        imu.after(event).healthy == imu.healthy,
        imu.phase is Parked ==> imu.after(event).phase == (if event is Raised {
            Phase::Clear
        } else {
            Phase::Parked
        }),
        imu.phase is Clear ==> imu.after(event).phase == (if event is Cleared {
            Phase::Holding
        } else {
            Phase::Clear
        }),
        imu.phase is Holding ==> imu.after(event).phase == (if event is Raised {
            Phase::Clear
        } else if event is Elapsed {
            Phase::Parked
        } else {
            Phase::Holding
        }),
{
}

/// What is published of motion, in full: "moving" by the jolt that ends the quiet, "still" by the
/// end of a hold and once by a chip that has just been armed, and nothing by anything else.
pub proof fn law_motion_reports(imu: Imu, event: ImuEvent)
    ensures
        imu.report(event).moving == Some(true) <==> imu.phase is Parked && event is Raised,
        imu.report(event).moving == Some(false) <==> (imu.phase is Holding && event is Elapsed) || (
        imu.phase is Discard && event is Cleared),
{
}

/// Failures are counted one by one, up to what 32 bits can count, and forgotten when the chip is
/// up; nothing else moves the count. A failed attempt leaves the chip healthy while fewer than six
/// have failed in a row, and a chip that is up is healthy.
pub proof fn law_failures_are_counted(imu: Imu, event: ImuEvent)
    ensures
        ({
            let then = imu.after(event);
            let fails = match (imu.phase, event) {
                (Phase::Identify, ImuEvent::Identity(who)) => who != Some(0x6Au8),
                (Phase::Arm(_), ImuEvent::Written(ok)) => !ok,
                _ => false,
            };
            let up = imu.phase is Discard && event is Cleared;
            &&& fails ==> then.attempts == (if imu.attempts < 0xFFFF_FFFF {
                imu.attempts + 1
            } else {
                0xFFFF_FFFF
            })
            &&& fails ==> then.healthy == (then.attempts < 6)
            &&& up ==> then.attempts == 0 && then.healthy
            &&& !fails && !up ==> then.attempts == imu.attempts && then.healthy == imu.healthy
        }),
{
}

/// The state after this many attempts at which the chip did not answer, each with its wait.
pub open spec fn after_failures(imu: Imu, n: nat) -> Imu
    decreases n,
{
    if n == 0 {
        imu
    } else {
        after_failures(imu, (n - 1) as nat).after(ImuEvent::Identity(None)).after(
            ImuEvent::Elapsed,
        )
    }
}

/// A chip that never answers is tried for ever, and is reported unavailable once: by its sixth
/// failure.
pub proof fn law_sixth_failure_is_reported(imu: Imu, n: nat)
    requires
        imu == (Imu { phase: Phase::Identify, attempts: 0, healthy: true }),
        n < u32::MAX,
    ensures
        ({
            let before = after_failures(imu, n);
            &&& before == (Imu { phase: Phase::Identify, attempts: n as u32, healthy: n < 6 })
            &&& before.report(ImuEvent::Identity(None)).healthy == (if n == 5 {
                Some(false)
            } else {
                None
            })
        }),
    decreases n,
{
    if n > 0 {
        law_sixth_failure_is_reported(imu, (n - 1) as nat);
    }
}

/// The health that is published is the new one, and it is published exactly when it changes.
pub proof fn law_health_reports(imu: Imu, event: ImuEvent)
    ensures
        imu.report(event).healthy is None <==> imu.after(event).healthy == imu.healthy,
        imu.report(event).healthy matches Some(h) ==> h == imu.after(event).healthy,
{
}

/// How long the waits are: a tenth of a second to settle, five seconds between two attempts, and
/// three seconds without a jolt before the device counts as still.
pub proof fn law_waits_in_figures(phase: Phase)
    ensures
        phase.wait() == (match phase {
            Phase::Settle => Some(100u64),
            Phase::Backoff => Some(5_000u64),
            Phase::Holding => Some(3_000u64),
            _ => None,
        }),
{
}

/// The engine's registers and what they are set to, in order: block update, low power, 52 Hz at
/// 2 g, a threshold of eight steps, no delay, latched interrupts, and the wake-up on the first line.
pub proof fn law_setup_in_figures()
    ensures
        SETUP[0] == [0x12u8, 0x44],
        SETUP[1] == [0x15u8, 0x10],
        SETUP[2] == [0x10u8, 0x30],
        SETUP[3] == [0x5Bu8, 0x08],
        SETUP[4] == [0x5Cu8, 0x00],
        SETUP[5] == [0x58u8, 0x81],
        SETUP[6] == [0x5Eu8, 0x20],
{
}

} // verus!
