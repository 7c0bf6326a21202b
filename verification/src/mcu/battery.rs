//! The recorder's own battery: voltage, charge and when a change is published.
use crate::protocol::{BatteryState, BatteryStatus};
use vstd::arithmetic::div_mod;
use vstd::prelude::*;

verus! {

/// The divider between the battery and the converter, in kiloohms.
pub const DIVIDER_TOP_KOHM: u64 = 1000;

pub const DIVIDER_BOTTOM_KOHM: u64 = 510;

/// The converter's full scale in millivolts, reached at 4096.
pub const FULL_SCALE_MV: u64 = 3600;

/// Samples are taken this many seconds apart, and at once when the charger starts or stops.
pub const SAMPLE_PERIOD_SECS: u64 = 30;

/// Resting voltage of a single lithium-polymer cell in millivolts, and its charge in percent,
/// descending.
pub const CURVE: [(u16, u8); 10] = [
    (4200, 100),
    (4060, 90),
    (3980, 80),
    (3920, 70),
    (3870, 60),
    (3820, 50),
    (3790, 40),
    (3750, 30),
    (3680, 20),
    (3300, 0),
];

/// The charge on the line between the curve's points `i` and `i + 1`, rounded down.
pub open spec fn on_segment(i: int, mv: int) -> int {
    let (hi_mv, hi_pct) = CURVE[i];
    let (lo_mv, lo_pct) = CURVE[i + 1];
    lo_pct + (mv - lo_mv) * (hi_pct - lo_pct) / (hi_mv - lo_mv)
}

/// The charge at a voltage below that of the curve's point `i`.
pub open spec fn percent_below(i: int, mv: int) -> int
    decreases 9 - i,
{
    if i >= 9 {
        0
    } else if mv >= CURVE[i + 1].0 {
        on_segment(i, mv)
    } else {
        percent_below(i + 1, mv)
    }
}

/// The charge at a voltage: along the curve, and level beyond its ends.
pub open spec fn percent(mv: int) -> int {
    if mv >= CURVE[0].0 {
        CURVE[0].1 as int
    } else {
        percent_below(0, mv)
    }
}

/// The curve falls in both columns.
proof fn lemma_curve_falls(i: int)
    requires
        0 <= i < 9,
    ensures
        CURVE[i].0 > CURVE[i + 1].0,
        CURVE[i].0 - CURVE[i + 1].0 <= 400,
        CURVE[i].1 > CURVE[i + 1].1,
        CURVE[i].1 <= 100,
{
    assert(i == 0 || i == 1 || i == 2 || i == 3 || i == 4 || i == 5 || i == 6 || i == 7 || i == 8);
}

/// A segment stays between its ends, reaches both, and rises with the voltage.
proof fn lemma_segment(i: int, low: int, mv: int)
    requires
        0 <= i < 9,
        CURVE[i + 1].0 <= low <= mv <= CURVE[i].0,
    ensures
        0 <= (mv - CURVE[i + 1].0) * (CURVE[i].1 - CURVE[i + 1].1) <= 40_000,
        CURVE[i + 1].1 <= on_segment(i, low) <= on_segment(i, mv) <= CURVE[i].1,
        mv == CURVE[i].0 ==> on_segment(i, mv) == CURVE[i].1,
        low == CURVE[i + 1].0 ==> on_segment(i, low) == CURVE[i + 1].1,
{
    lemma_curve_falls(i);
    let c = low - CURVE[i + 1].0;
    let d = mv - CURVE[i + 1].0;
    let w = CURVE[i].0 - CURVE[i + 1].0;
    let p = CURVE[i].1 - CURVE[i + 1].1;
    assert(0 <= c * p <= d * p <= w * p <= 40_000) by (nonlinear_arith)
        requires
            0 <= c <= d <= w <= 400,
            0 <= p <= 100,
    ;
    assert(c == 0 ==> c * p == 0) by (nonlinear_arith);
    assert(w * p == p * w) by (nonlinear_arith);
    div_mod::lemma_div_multiples_vanish(p, w);
    div_mod::lemma_div_is_ordered(0, c * p, w);
    div_mod::lemma_div_is_ordered(c * p, d * p, w);
    div_mod::lemma_div_is_ordered(d * p, w * p, w);
}

/// Which segment a voltage within the curve lies on.
spec fn lies_on(i: int, mv: int) -> bool {
    0 <= i < 9 && CURVE[i + 1].0 <= mv < CURVE[i].0
}

proof fn lemma_percent_below(i: int, mv: int) -> (j: int)
    requires
        0 <= i <= 9,
        mv < CURVE[i].0,
    ensures
        mv < CURVE[9].0 ==> percent_below(i, mv) == 0,
        mv >= CURVE[9].0 ==> i <= j && lies_on(j, mv) && percent_below(i, mv) == on_segment(j, mv),
    decreases 9 - i,
{
    if i < 9 {
        lemma_curve_falls(i);
        if mv >= CURVE[i + 1].0 {
            lemma_curve_end(i + 1);
            i
        } else {
            lemma_percent_below(i + 1, mv)
        }
    } else {
        i
    }
}

proof fn lemma_curve_end(i: int)
    requires
        0 <= i <= 9,
    ensures
        CURVE[i].0 >= CURVE[9].0,
    decreases 9 - i,
{
    if i < 9 {
        lemma_curve_falls(i);
        lemma_curve_end(i + 1);
    }
}

proof fn lemma_curve_is_ordered(i: int, j: int)
    requires
        0 <= i <= j <= 9,
    ensures
        CURVE[i].0 >= CURVE[j].0,
        CURVE[i].1 >= CURVE[j].1,
    decreases j - i,
{
    if i < j {
        lemma_curve_falls(i);
        lemma_curve_is_ordered(i + 1, j);
    }
}

pub fn percent_from_mv(mv: u16) -> (r: u8)
    ensures
        r == percent(mv as int),
{
    if mv >= CURVE[0].0 {
        return CURVE[0].1;
    }
    let mut i: usize = 0;
    while i < 9
        invariant
            i <= 9,
            mv < CURVE[i as int].0,
            percent(mv as int) == percent_below(i as int, mv as int),
        decreases 9 - i,
    {
        let (hi_mv, hi_pct) = CURVE[i];
        let (lo_mv, lo_pct) = CURVE[i + 1];
        if mv >= lo_mv {
            proof {
                lemma_curve_falls(i as int);
                lemma_segment(i as int, mv as int, mv as int);
            }
            let span_mv = (hi_mv - lo_mv) as u32;
            let span_pct = (hi_pct - lo_pct) as u32;
            return lo_pct + ((mv - lo_mv) as u32 * span_pct / span_mv) as u8;
        }
        i += 1;
    }
    0
}

/// The charge never falls as the voltage rises.
pub proof fn law_percent_rises_with_voltage(low: int, high: int)
    requires
        low <= high,
    ensures
        percent(low) <= percent(high),
{
    law_percent_is_clamped(low);
    law_percent_is_clamped(high);
    if low >= CURVE[9].0 && high < CURVE[0].0 {
        let i = lemma_percent_below(0, low);
        let j = lemma_percent_below(0, high);
        if i == j {
            lemma_segment(i, low, high);
        } else if j < i {
            lemma_segment(i, low, low);
            lemma_segment(j, high, high);
            lemma_curve_is_ordered(j + 1, i);
        } else {
            lemma_curve_is_ordered(i + 1, j);
        }
    }
}

/// The charge is a percentage, full from the top of the curve on and empty below its end.
pub proof fn law_percent_is_clamped(mv: int)
    ensures
        0 <= percent(mv) <= 100,
        mv >= CURVE[0].0 ==> percent(mv) == 100,
        mv <= CURVE[9].0 ==> percent(mv) == 0,
{
    if mv < CURVE[0].0 {
        let i = lemma_percent_below(0, mv);
        if mv >= CURVE[9].0 {
            lemma_segment(i, mv, mv);
            lemma_curve_is_ordered(0, i);
            lemma_curve_is_ordered(i + 1, 9);
            if i + 1 < 9 {
                lemma_curve_falls(8);
                lemma_curve_is_ordered(i + 1, 8);
            }
        }
    }
}

/// At each point of the curve the charge is the one that the curve gives.
pub proof fn law_percent_follows_the_curve(i: int)
    requires
        0 <= i < 10,
    ensures
        percent(CURVE[i].0 as int) == CURVE[i].1,
{
    let mv = CURVE[i].0 as int;
    if i > 0 {
        lemma_curve_falls(i - 1);
        lemma_curve_is_ordered(0, i - 1);
        lemma_curve_is_ordered(i, 9);
        let j = lemma_percent_below(0, mv);
        if j < i - 1 {
            lemma_curve_is_ordered(j + 1, i - 1);
        } else if j >= i {
            lemma_curve_is_ordered(i, j);
        }
        lemma_segment(j, mv, mv);
    }
}

/// A conversion below zero, which noise near zero can give, counts as zero.
pub open spec fn floored(sample: i16) -> int {
    if sample < 0 {
        0
    } else {
        sample as int
    }
}

/// The battery's voltage in millivolts, from four conversions: their mean, scaled to the
/// converter's range and across the divider, in sixteen bits.
pub open spec fn voltage(samples: Seq<i16>) -> int {
    let mean = (floored(samples[0]) + floored(samples[1]) + floored(samples[2]) + floored(
        samples[3],
    )) / 4;
    mean * FULL_SCALE_MV * (DIVIDER_TOP_KOHM + DIVIDER_BOTTOM_KOHM) / (DIVIDER_BOTTOM_KOHM as int)
        / 4096 % 0x1_0000
}

pub fn voltage_mv(samples: &[i16; 4]) -> (r: u16)
    ensures
        r == voltage(samples@),
{
    let mut sum: i32 = 0;
    let mut i: usize = 0;
    while i < 4
        invariant
            i <= 4,
            sum == (if i > 0 { floored(samples@[0]) } else { 0 }) + (if i > 1 {
                floored(samples@[1])
            } else {
                0
            }) + (if i > 2 { floored(samples@[2]) } else { 0 }) + (if i > 3 {
                floored(samples@[3])
            } else {
                0
            }),
        decreases 4 - i,
    {
        if samples[i] > 0 {
            sum = sum + samples[i] as i32;
        }
        i += 1;
    }
    let raw = (sum / 4) as u64;
    assert(raw * FULL_SCALE_MV * (DIVIDER_TOP_KOHM + DIVIDER_BOTTOM_KOHM) <= u64::MAX)
        by (nonlinear_arith)
        requires
            raw <= 0x8000,
            FULL_SCALE_MV == 3600,
            DIVIDER_TOP_KOHM == 1000,
            DIVIDER_BOTTOM_KOHM == 510,
    ;
    let scaled = raw * FULL_SCALE_MV * (DIVIDER_TOP_KOHM + DIVIDER_BOTTOM_KOHM)
        / DIVIDER_BOTTOM_KOHM / 4096;
    (scaled % 0x1_0000) as u16
}

/// The status that four conversions and the charger's line stand for. The line is low while the
/// battery charges.
pub open spec fn status(samples: Seq<i16>, chg_low: bool) -> BatteryStatus {
    BatteryStatus {
        percent: percent(voltage(samples)) as u8,
        state: if chg_low {
            BatteryState::Charging
        } else {
            BatteryState::Discharging
        },
    }
}

/// The battery task: what it published last.
#[derive(Clone, Copy, Debug, PartialEq, Eq, Structural)]
pub struct Battery {
    pub last: Option<BatteryStatus>,
}

impl Battery {
    pub fn new() -> (r: Battery)
        ensures
            r.last is None,
    {
        Battery { last: None }
    }

    /// What is published of a status: only a change.
    pub open spec fn publishes(self, now: BatteryStatus) -> Option<BatteryStatus> {
        if self.last == Some(now) {
            None
        } else {
            Some(now)
        }
    }

    /// Takes four conversions and the charger's line, and tells what to publish.
    pub fn sample(&mut self, samples: &[i16; 4], chg_low: bool) -> (r: Option<BatteryStatus>)
        ensures
            final(self).last == Some(status(samples@, chg_low)),
            r == old(self).publishes(status(samples@, chg_low)),
    {
        let state = if chg_low {
            BatteryState::Charging
        } else {
            BatteryState::Discharging
        };
        let now = BatteryStatus { percent: percent_from_mv(voltage_mv(samples)), state };
        let known = match self.last {
            Some(last) => last == now,
            None => false,
        };
        self.last = Some(now);
        if known {
            None
        } else {
            Some(now)
        }
    }
}

/// What is published of a run of statuses.
pub open spec fn published(battery: Battery, run: Seq<BatteryStatus>) -> Seq<BatteryStatus>
    decreases run.len(),
{
    if run.len() == 0 {
        seq![]
    } else {
        let rest = published(Battery { last: Some(run[0]) }, run.skip(1));
        match battery.publishes(run[0]) {
            Some(s) => seq![s] + rest,
            None => rest,
        }
    }
}

/// Only changes are published, and every change is: no two publications in a row are alike, the
/// first differs from what was last published, and the newest status is always the one that was
/// published last.
pub proof fn law_only_changes_are_published(battery: Battery, run: Seq<BatteryStatus>)
    ensures
        ({
            let p = published(battery, run);
            &&& forall|i: int| 0 <= i < p.len() - 1 ==> #[trigger] p[i] != p[i + 1]
            &&& p.len() > 0 ==> battery.last != Some(p[0])
            &&& run.len() > 0 ==> Some(run.last()) == (if p.len() > 0 {
                Some(p.last())
            } else {
                battery.last
            })
        }),
    decreases run.len(),
{
    if run.len() > 0 {
        let now = Battery { last: Some(run[0]) };
        let rest = run.skip(1);
        law_only_changes_are_published(now, rest);
        let q = published(now, rest);
        let p = published(battery, run);
        if battery.publishes(run[0]) is Some {
            assert(p =~= seq![run[0]] + q);
            assert forall|i: int| 0 <= i < p.len() - 1 implies #[trigger] p[i] != p[i + 1] by {
                if i > 0 {
                    assert(q[i - 1] != q[i]);
                }
            }
        }
        if rest.len() == 0 {
            assert(q =~= seq![]);
        }
    }
}

/// The charge in figures: level beyond the ends of the curve, and on each of its nine stretches
/// the whole percent on the line between the stretch's ends.
pub proof fn law_percent_in_figures(mv: int)
    ensures
        mv >= 4200 ==> percent(mv) == 100,
        4060 <= mv < 4200 ==> percent(mv) == 90 + (mv - 4060) * 10 / 140,
        3980 <= mv < 4060 ==> percent(mv) == 80 + (mv - 3980) * 10 / 80,
        3920 <= mv < 3980 ==> percent(mv) == 70 + (mv - 3920) * 10 / 60,
        3870 <= mv < 3920 ==> percent(mv) == 60 + (mv - 3870) * 10 / 50,
        3820 <= mv < 3870 ==> percent(mv) == 50 + (mv - 3820) * 10 / 50,
        3790 <= mv < 3820 ==> percent(mv) == 40 + (mv - 3790) * 10 / 30,
        3750 <= mv < 3790 ==> percent(mv) == 30 + (mv - 3750) * 10 / 40,
        3680 <= mv < 3750 ==> percent(mv) == 20 + (mv - 3680) * 10 / 70,
        3300 <= mv < 3680 ==> percent(mv) == (mv - 3300) * 20 / 380,
        mv < 3300 ==> percent(mv) == 0,
{
    reveal_with_fuel(percent_below, 11);
}

/// The voltage in figures: `sum` being what the four conversions add up to, those below zero left
/// out, and `mean` the whole part of a quarter of it, the voltage is the whole number of millivolts
/// that `mean` 4096ths of 3600 millivolts stand for across 1510 over 510 kiloohms, as far as sixteen
/// bits can count them.
#[verifier::spinoff_prover]
pub proof fn law_voltage_in_figures(samples: Seq<i16>, sum: int, mean: int, whole: int)
    requires
        samples.len() == 4,
        sum == (if samples[0] > 0 { samples[0] as int } else { 0 }) + (if samples[1] > 0 {
            samples[1] as int
        } else {
            0
        }) + (if samples[2] > 0 { samples[2] as int } else { 0 }) + (if samples[3] > 0 {
            samples[3] as int
        } else {
            0
        }),
        4 * mean <= sum < 4 * mean + 4,
        whole * 4096 * 510 <= mean * 3600 * 1510 < (whole + 1) * 4096 * 510,
    ensures
        voltage(samples) == whole % 0x1_0000,
        0 <= mean <= 25_000 ==> voltage(samples) == whole,
{
    let product = mean * FULL_SCALE_MV * (DIVIDER_TOP_KOHM + DIVIDER_BOTTOM_KOHM);
    assert(product == mean * 5_436_000) by (nonlinear_arith)
        requires
            product == mean * FULL_SCALE_MV * (DIVIDER_TOP_KOHM + DIVIDER_BOTTOM_KOHM),
            FULL_SCALE_MV == 3600,
            DIVIDER_TOP_KOHM == 1000,
            DIVIDER_BOTTOM_KOHM == 510,
    ;
    div_mod::lemma_div_denominator(product, 510, 4096);
    div_mod::lemma_fundamental_div_mod(product, 2_088_960);
    assert(product / 2_088_960 == whole);
}

/// The order of the conversions does not matter, nor how far below zero one of them lies.
pub proof fn law_conversions_are_averaged(a: Seq<i16>, i: int, j: int, noise: i16)
    requires
        a.len() == 4,
        0 <= i < 4,
        0 <= j < 4,
        noise <= 0,
    ensures
        voltage(a.update(i, a[j]).update(j, a[i])) == voltage(a),
        a[i] <= 0 ==> voltage(a.update(i, noise)) == voltage(a),
{
}

/// The status is the charge and the charger's line, each by itself: the percent is the one of the
/// voltage, uncut, and the battery charges exactly while the line is low.
pub proof fn law_status_tells_both(samples: Seq<i16>, chg_low: bool)
    ensures
        status(samples, chg_low).percent == percent(voltage(samples)),
        status(samples, chg_low).percent <= 100,
        status(samples, chg_low).state == BatteryState::Charging <==> chg_low,
        status(samples, chg_low).percent == status(samples, !chg_low).percent,
{
    law_percent_is_clamped(voltage(samples));
}

/// A status is published as it is, and exactly where it is not the one that was published last.
pub proof fn law_change_is_published(battery: Battery, now: BatteryStatus)
    ensures
        battery.publishes(now) is None <==> battery.last == Some(now),
        battery.publishes(now) matches Some(s) ==> s == now,
{
}

} // verus!
