//! Randomized daily playback times: each sample comes from an equal-weight
//! mixture of two Gaussians, parameterized separately for weekdays and for
//! the three-day weekend, and is wrapped into [0, 24) hours.
//!
//! The standard-normal draws themselves are floating-point work and are
//! handed in by the caller as values in micros; everything from the draw to
//! the calendar entry is computed and verified here.

use vstd::prelude::*;
use crate::rng::rng_next;

verus! {

/// A full day, in micros of an hour.
pub const HOURS_MICROS: i64 = 24_000_000;

/// The mixture component's mean, in micros of an hour.
pub open spec fn spec_mean(weekend: bool, second: bool) -> int {
    if weekend {
        if second {
            20_000_000
        } else {
            12_500_000
        }
    } else {
        if second {
            18_500_000
        } else {
            11_500_000
        }
    }
}

/// The mixture component's standard deviation, in micros of an hour.
pub open spec fn spec_sd(weekend: bool, second: bool) -> int {
    if weekend {
        if second {
            2_700_000
        } else {
            2_600_000
        }
    } else {
        2_000_000
    }
}

/// A standard-normal draw (micros) scaled by a standard deviation (micros),
/// in micros: the product divided by one million, rounded toward zero.
pub open spec fn spec_scaled(sd: int, z: int) -> int {
    if z >= 0 {
        (sd * z) / 1_000_000
    } else {
        -((sd * (-z)) / 1_000_000)
    }
}

/// One sample of the bimodal distribution: component mean plus the scaled
/// draw, wrapped into the day.
pub open spec fn spec_bimodal(weekend: bool, second: bool, z: int) -> int {
    (spec_mean(weekend, second) + spec_scaled(spec_sd(weekend, second), z)) % (HOURS_MICROS as int)
}

/// Mean plus scaled draw for one mixture component, wrapped into [0, 24)
/// hours.
pub fn bimodal_time(weekend: bool, second: bool, z_micros: i64) -> (t: i64)
    ensures
        t == spec_bimodal(weekend, second, z_micros as int),
        0 <= t < HOURS_MICROS,
{
    let mean: i64 = if weekend {
        if second {
            20_000_000
        } else {
            12_500_000
        }
    } else {
        if second {
            18_500_000
        } else {
            11_500_000
        }
    };
    let sd: i64 = if weekend {
        if second {
            2_700_000
        } else {
            2_600_000
        }
    } else {
        2_000_000
    };
    let zw: i128 = z_micros as i128;
    let zm: u128 = if z_micros < 0 {
        (-zw) as u128
    } else {
        zw as u128
    };
    proof {
        assert(zm <= 0x8000_0000_0000_0000u128);
        assert((sd as u128) <= 2_700_000u128);
        assert(zm * (sd as u128) <= 0x8000_0000_0000_0000 * 2_700_000) by (nonlinear_arith)
            requires
                zm <= 0x8000_0000_0000_0000u128,
                (sd as u128) <= 2_700_000u128,
        ;
    }
    let sm: u128 = zm * (sd as u128) / 1_000_000;
    proof {
        vstd::arithmetic::div_mod::lemma_div_pos_is_pos((zm * (sd as u128)) as int, 1_000_000);
        vstd::arithmetic::div_mod::lemma_div_is_ordered(
            (zm * (sd as u128)) as int,
            0x8000_0000_0000_0000int * 2_700_000,
            1_000_000,
        );
        assert((sd as int) * (zm as int) == (zm as int) * (sd as int)) by (nonlinear_arith);
    }
    let v: i128 = if z_micros < 0 {
        (mean as i128) - (sm as i128)
    } else {
        (mean as i128) + (sm as i128)
    };
    proof {
        assert(v == spec_mean(weekend, second) + spec_scaled(spec_sd(weekend, second), z_micros as int));
    }
    let m: u128 = HOURS_MICROS as u128;
    let t: i64 = if v >= 0 {
        let w: u128 = (v as u128) % m;
        proof {
            let vi = v as int;
            let mi = m as int;
            vstd::arithmetic::div_mod::lemma_mod_division_less_than_divisor(vi, mi);
        }
        w as i64
    } else {
        let w: u128 = ((-v) as u128) % m;
        proof {
            let nvi = (-v) as int;
            let mi = m as int;
            vstd::arithmetic::div_mod::lemma_fundamental_div_mod(nvi, mi);
            vstd::arithmetic::div_mod::lemma_mod_division_less_than_divisor(nvi, mi);
            let q = nvi / mi;
            let wi = nvi % mi;
            if wi == 0 {
                assert(v as int == (-q) * mi + 0) by (nonlinear_arith)
                    requires
                        nvi == q * mi + wi,
                        wi == 0,
                        v as int == -nvi,
                ;
                vstd::arithmetic::div_mod::lemma_fundamental_div_mod_converse_mod(
                    v as int,
                    mi,
                    -q,
                    0,
                );
            } else {
                assert(v as int == (-q - 1) * mi + (mi - wi)) by (nonlinear_arith)
                    requires
                        nvi == q * mi + wi,
                        v as int == -nvi,
                ;
                vstd::arithmetic::div_mod::lemma_fundamental_div_mod_converse_mod(
                    v as int,
                    mi,
                    -q - 1,
                    mi - wi,
                );
            }
        }
        if w == 0 {
            0
        } else {
            (m - w) as i64
        }
    };
    t
}

/// One weekday sample: the chosen component's mean and deviation applied
/// to the given standard-normal draw.
pub fn get_weekday_time(second: bool, z_micros: i64) -> (t: i64)
    ensures
        t == spec_bimodal(false, second, z_micros as int),
        0 <= t < HOURS_MICROS,
{
    bimodal_time(false, second, z_micros)
}

/// One weekend sample, from the wider weekend distribution.
pub fn get_weekend_time(second: bool, z_micros: i64) -> (t: i64)
    ensures
        t == spec_bimodal(true, second, z_micros as int),
        0 <= t < HOURS_MICROS,
{
    bimodal_time(true, second, z_micros)
}

/// Fair coin for the mixture: false picks the first component, true the
/// second. Nothing is promised of the outcome.
pub fn pick_component(rng: &mut rand::rngs::StdRng) -> bool {
    rng_next(rng) % 1_000_000 < 500_000
}

/// Draws one playback time per standard-normal draw supplied. Every
/// returned time lies in [0, 24) hours (micros) and is a mixture sample
/// for the day type, whichever component the coin picked.
pub fn sample(weekend: bool, count: usize, z_draws: &Vec<i64>, rng: &mut rand::rngs::StdRng) -> (times: Vec<i64>)
    requires
        z_draws@.len() == count,
    ensures
        times@.len() == count,
        forall|i: int| 0 <= i < count ==> 0 <= #[trigger] times@[i] < HOURS_MICROS,
        forall|i: int|
            0 <= i < count ==> #[trigger] times@[i] == spec_bimodal(weekend, false, z_draws@[i] as int)
                || times@[i] == spec_bimodal(weekend, true, z_draws@[i] as int),
{
    let mut times: Vec<i64> = Vec::new();
    let mut i: usize = 0;
    while i < count
        invariant
            0 <= i <= count,
            z_draws@.len() == count,
            times@.len() == i,
            forall|j: int| 0 <= j < i ==> 0 <= #[trigger] times@[j] < HOURS_MICROS,
            forall|j: int|
                0 <= j < i ==> #[trigger] times@[j] == spec_bimodal(weekend, false, z_draws@[j] as int)
                    || times@[j] == spec_bimodal(weekend, true, z_draws@[j] as int),
        decreases count - i,
    {
        let second: bool = pick_component(rng);
        let t: i64 = bimodal_time(weekend, second, z_draws[i]);
        times.push(t);
        i += 1;
    }
    times
}

/// One calendar scheduling entry: minute and hour of a sampled time on a
/// given day and month. The caller renders these into whatever external
/// scheduling syntax it needs.
#[derive(Clone, Copy, Debug, PartialEq, Eq, Structural)]
pub struct CronEntry {
    pub min: u8,
    pub hour: u8,
    pub day: u8,
    pub month: u8,
}

/// The entry carries the hour and minute of the sampled time `t` (micros).
pub open spec fn spec_entry_matches(e: CronEntry, t: int) -> bool {
    e.hour == t / 1_000_000 && e.min == ((t % 1_000_000) * 60) / 1_000_000
}

/// Splits an hour-of-day in micros into a whole hour and minute on the
/// given calendar day.
pub fn time_to_cron(day: u8, month: u8, t_micros: i64) -> (e: CronEntry)
    requires
        0 <= t_micros < HOURS_MICROS,
    ensures
        e.day == day,
        e.month == month,
        e.hour == t_micros as int / 1_000_000,
        e.min == ((t_micros as int % 1_000_000) * 60) / 1_000_000,
        e.hour <= 23,
        e.min <= 59,
{
    let tu: u64 = t_micros as u64;
    let hour: u64 = tu / 1_000_000;
    let frac: u64 = tu % 1_000_000;
    let min: u64 = frac * 60 / 1_000_000;
    proof {
        vstd::arithmetic::div_mod::lemma_multiply_divide_lt(tu as int, 1_000_000, 24);
        vstd::arithmetic::div_mod::lemma_mod_division_less_than_divisor(tu as int, 1_000_000);
        vstd::arithmetic::div_mod::lemma_multiply_divide_lt((frac * 60) as int, 1_000_000, 60);
        vstd::arithmetic::div_mod::lemma_div_pos_is_pos(tu as int, 1_000_000);
        vstd::arithmetic::div_mod::lemma_div_pos_is_pos((frac * 60) as int, 1_000_000);
    }
    CronEntry { min: min as u8, hour: hour as u8, day, month }
}

/// Computes one day's schedule: one calendar entry per standard-normal
/// draw, on the given day and month, sampled from the day type's bimodal
/// distribution. The caller installs the entries in its scheduler.
pub fn schedule_cron(
    day: u8,
    month: u8,
    weekend: bool,
    z_draws: &Vec<i64>,
    rng: &mut rand::rngs::StdRng,
) -> (entries: Vec<CronEntry>)
    ensures
        entries@.len() == z_draws@.len(),
        forall|i: int|
            0 <= i < entries@.len() ==> (#[trigger] entries@[i]).day == day && entries@[i].month
                == month && entries@[i].hour <= 23 && entries@[i].min <= 59,
        forall|i: int|
            0 <= i < entries@.len() ==> spec_entry_matches(
                #[trigger] entries@[i],
                spec_bimodal(weekend, false, z_draws@[i] as int),
            ) || spec_entry_matches(entries@[i], spec_bimodal(weekend, true, z_draws@[i] as int)),
{
    let n: usize = z_draws.len();
    let times: Vec<i64> = sample(weekend, n, z_draws, rng);
    let mut entries: Vec<CronEntry> = Vec::new();
    let mut i: usize = 0;
    while i < n
        invariant
            0 <= i <= n,
            z_draws@.len() == n,
            times@.len() == n,
            forall|j: int| 0 <= j < n ==> 0 <= #[trigger] times@[j] < HOURS_MICROS,
            forall|j: int|
                0 <= j < n ==> #[trigger] times@[j] == spec_bimodal(weekend, false, z_draws@[j] as int)
                    || times@[j] == spec_bimodal(weekend, true, z_draws@[j] as int),
            entries@.len() == i,
            forall|j: int|
                0 <= j < i ==> (#[trigger] entries@[j]).day == day && entries@[j].month == month
                    && entries@[j].hour <= 23 && entries@[j].min <= 59,
            forall|j: int|
                0 <= j < i ==> (#[trigger] entries@[j]).hour == times@[j] as int / 1_000_000
                    && entries@[j].min == ((times@[j] as int % 1_000_000) * 60) / 1_000_000,
        decreases n - i,
    {
        let e: CronEntry = time_to_cron(day, month, times[i]);
        entries.push(e);
        i += 1;
    }
    entries
}

} // verus!
