//! External-factor snapshots and the fixed heuristic that turns them into
//! a normalized mood: weather, time of day, season, market movement and a
//! retrograde flag each contribute a sub-mood; the included sub-moods are
//! averaged and the result normalized.

use vstd::prelude::*;
use crate::clock::Time;
use crate::mood::MoodVector;
use crate::mood::SCALE;
use crate::mood::average_mood;
use crate::mood::normalize;
use crate::mood::sigmoid;
use crate::mood::spec_average;
use crate::mood::spec_normalize;
use crate::mood::spec_sigmoid;
use crate::mood::spec_sum_moods;
use crate::mood::sum_moods;
use crate::mood::lemma_sigmoid_neg;
use crate::text::contains_sub;
use crate::text::spec_contains;
use crate::text::str_eq;

verus! {

/// A weather snapshot: temperature in whole degrees, whether it is
/// daytime, precipitation probability in micros of one, and the short
/// forecast text.
pub struct Weather {
    pub is_daytime: bool,
    pub temperature: i16,
    pub probability_precipitation: i64,
    pub short_forecast: String,
}

impl Weather {
    /// The precipitation probability is a probability.
    pub open spec fn wf(self) -> bool {
        0 <= self.probability_precipitation <= SCALE
    }
}

/// A market snapshot: daily percentage change of a broad equity index and
/// of a crypto asset, each in micros of a percentage point.
pub struct Market {
    pub spy: i64,
    pub btc: i64,
}

/// Everything the mood heuristic reads, gathered fresh per selection.
pub struct ExternalFactors {
    pub weather: Weather,
    pub time: Time,
    pub market: Market,
    pub mercury_retrograde: bool,
}

impl ExternalFactors {
    pub open spec fn wf(self) -> bool {
        self.weather.wf()
    }
}

/// The sigmoid's argument for the temperature: `(t - 60) / 10` in micros.
pub open spec fn spec_temp_arg(temperature: i16) -> int {
    (temperature - 60) * 100_000
}

/// The forecast mentions clouds.
pub open spec fn spec_cloudy(w: Weather) -> bool {
    spec_contains(w.short_forecast@, "Cloudy"@)
}

/// The forecast mentions clear skies or sun (and not clouds).
pub open spec fn spec_sunny(w: Weather) -> bool {
    !spec_cloudy(w) && (spec_contains(w.short_forecast@, "Clear"@) || spec_contains(
        w.short_forecast@,
        "Sunny"@,
    ))
}

/// The weather sub-mood before normalization: warmth lifts `happy` and its
/// lack `nostalgic`; rain chance feeds `melancholic` and its complement
/// `relaxing`; daytime adds to `happy`/`hopeful`, night to
/// `mysterious`/`relaxing`; a cloudy forecast adds to
/// `nostalgic`/`melancholic`, a clear or sunny one to `happy`/`hopeful`.
pub open spec fn spec_weather_mood(w: Weather) -> MoodVector {
    let s = spec_sigmoid(spec_temp_arg(w.temperature));
    let day = if w.is_daytime {
        300_000int
    } else {
        0int
    };
    let night = if w.is_daytime {
        0int
    } else {
        300_000int
    };
    let cloud = if spec_cloudy(w) {
        200_000int
    } else {
        0int
    };
    let sun = if spec_sunny(w) {
        200_000int
    } else {
        0int
    };
    MoodVector {
        happy: (s + day + sun) as i64,
        melancholic: (w.probability_precipitation + cloud) as i64,
        hopeful: (day + sun) as i64,
        nostalgic: ((SCALE - s) + cloud) as i64,
        mysterious: night as i64,
        relaxing: ((SCALE - w.probability_precipitation) + night) as i64,
    }
}

/// The time-of-day sub-mood: five fixed buckets over the hour.
pub open spec fn spec_time_mood(hour: int) -> MoodVector {
    if 5 <= hour <= 11 {
        MoodVector {
            happy: 500_000,
            melancholic: 0,
            hopeful: 500_000,
            nostalgic: 0,
            mysterious: 0,
            relaxing: 0,
        }
    } else if 12 <= hour <= 14 {
        MoodVector {
            happy: 400_000,
            melancholic: 0,
            hopeful: 0,
            nostalgic: 0,
            mysterious: 0,
            relaxing: 600_000,
        }
    } else if 15 <= hour <= 17 {
        MoodVector {
            happy: 0,
            melancholic: 0,
            hopeful: 0,
            nostalgic: 500_000,
            mysterious: 0,
            relaxing: 500_000,
        }
    } else if 18 <= hour <= 21 {
        MoodVector {
            happy: 0,
            melancholic: 400_000,
            hopeful: 0,
            nostalgic: 0,
            mysterious: 0,
            relaxing: 600_000,
        }
    } else {
        MoodVector {
            happy: 0,
            melancholic: 300_000,
            hopeful: 0,
            nostalgic: 0,
            mysterious: 700_000,
            relaxing: 0,
        }
    }
}

/// The season sub-mood: an exact one-hot vector, or zero for an
/// unrecognized label.
pub open spec fn spec_season_mood(season: Seq<char>) -> MoodVector {
    if season == "winter"@ {
        MoodVector {
            happy: 0,
            melancholic: 0,
            hopeful: 0,
            nostalgic: SCALE,
            mysterious: 0,
            relaxing: 0,
        }
    } else if season == "spring"@ {
        MoodVector { happy: 0, melancholic: 0, hopeful: SCALE, nostalgic: 0, mysterious: 0, relaxing: 0 }
    } else if season == "summer"@ {
        MoodVector { happy: SCALE, melancholic: 0, hopeful: 0, nostalgic: 0, mysterious: 0, relaxing: 0 }
    } else if season == "fall"@ {
        MoodVector { happy: 0, melancholic: 0, hopeful: 0, nostalgic: 0, mysterious: 0, relaxing: SCALE }
    } else {
        MoodVector { happy: 0, melancholic: 0, hopeful: 0, nostalgic: 0, mysterious: 0, relaxing: 0 }
    }
}

/// The market sub-mood before normalization: equity gains feed `hopeful`
/// against `melancholic`; crypto gains feed `happy` against `mysterious`.
pub open spec fn spec_market_mood(m: Market) -> MoodVector {
    MoodVector {
        happy: spec_sigmoid(m.btc as int) as i64,
        melancholic: (SCALE - spec_sigmoid(m.spy as int)) as i64,
        hopeful: spec_sigmoid(m.spy as int) as i64,
        nostalgic: 0,
        mysterious: spec_sigmoid(-(m.btc as int)) as i64,
        relaxing: 0,
    }
}

/// The fixed retrograde sub-mood, included only when the flag is set.
pub open spec fn spec_retro_mood() -> MoodVector {
    MoodVector {
        happy: 0,
        melancholic: 300_000,
        hopeful: 0,
        nostalgic: 0,
        mysterious: 700_000,
        relaxing: 0,
    }
}

/// The number of sub-moods that contribute: four, or five with the
/// retrograde flag set.
pub open spec fn spec_factor_count(f: ExternalFactors) -> int {
    if f.mercury_retrograde {
        5
    } else {
        4
    }
}

/// The whole heuristic: normalized weather, time and market sub-moods and
/// the season one-hot summed, the retrograde sub-mood added when flagged,
/// the sum averaged over the number of contributions and normalized.
pub open spec fn spec_map_factors(f: ExternalFactors) -> MoodVector {
    let base = spec_sum_moods(
        spec_sum_moods(
            spec_sum_moods(
                spec_normalize(spec_weather_mood(f.weather)),
                spec_normalize(spec_time_mood(f.time.hour as int)),
            ),
            spec_season_mood(f.time.season@),
        ),
        spec_normalize(spec_market_mood(f.market)),
    );
    let combined = if f.mercury_retrograde {
        spec_sum_moods(base, spec_retro_mood())
    } else {
        base
    };
    spec_normalize(spec_average(combined, spec_factor_count(f)))
}

/// The weather sub-mood, exactly as `spec_weather_mood` states it; its
/// component sum is at least one (in micros), so normalizing it always
/// takes the scaling branch.
fn weather_mood(w: &Weather) -> (r: MoodVector)
    requires
        w.wf(),
    ensures
        r == spec_weather_mood(*w),
        r.wf_nonneg(),
        r.total() >= SCALE,
{
    let temp_arg: i64 = ((w.temperature as i64) - 60) * 100_000;
    let s: i64 = sigmoid(temp_arg);
    let day: i64 = if w.is_daytime {
        300_000
    } else {
        0
    };
    let night: i64 = if w.is_daytime {
        0
    } else {
        300_000
    };
    let forecast: &str = w.short_forecast.as_str();
    let cloudy: bool = contains_sub(forecast, "Cloudy");
    let sunny: bool = !cloudy && (contains_sub(forecast, "Clear") || contains_sub(
        forecast,
        "Sunny",
    ));
    let cloud: i64 = if cloudy {
        200_000
    } else {
        0
    };
    let sun: i64 = if sunny {
        200_000
    } else {
        0
    };
    MoodVector {
        happy: s + day + sun,
        melancholic: w.probability_precipitation + cloud,
        hopeful: day + sun,
        nostalgic: (SCALE - s) + cloud,
        mysterious: night,
        relaxing: (SCALE - w.probability_precipitation) + night,
    }
}

/// The time-of-day sub-mood; its components always sum to exactly one.
fn time_mood(hour: u8) -> (r: MoodVector)
    ensures
        r == spec_time_mood(hour as int),
        r.wf_nonneg(),
        r.total() == SCALE,
{
    if 5 <= hour && hour <= 11 {
        MoodVector { happy: 500_000, melancholic: 0, hopeful: 500_000, nostalgic: 0, mysterious: 0, relaxing: 0 }
    } else if 12 <= hour && hour <= 14 {
        MoodVector { happy: 400_000, melancholic: 0, hopeful: 0, nostalgic: 0, mysterious: 0, relaxing: 600_000 }
    } else if 15 <= hour && hour <= 17 {
        MoodVector { happy: 0, melancholic: 0, hopeful: 0, nostalgic: 500_000, mysterious: 0, relaxing: 500_000 }
    } else if 18 <= hour && hour <= 21 {
        MoodVector { happy: 0, melancholic: 400_000, hopeful: 0, nostalgic: 0, mysterious: 0, relaxing: 600_000 }
    } else {
        MoodVector { happy: 0, melancholic: 300_000, hopeful: 0, nostalgic: 0, mysterious: 700_000, relaxing: 0 }
    }
}

/// The season sub-mood: a one-hot vector for a recognized label, zero
/// otherwise; combined without normalization.
fn season_mood(season: &str) -> (r: MoodVector)
    ensures
        r == spec_season_mood(season@),
        r.wf_nonneg(),
        r.total() == SCALE || r.total() == 0,
{
    if str_eq(season, "winter") {
        MoodVector { happy: 0, melancholic: 0, hopeful: 0, nostalgic: SCALE, mysterious: 0, relaxing: 0 }
    } else if str_eq(season, "spring") {
        MoodVector { happy: 0, melancholic: 0, hopeful: SCALE, nostalgic: 0, mysterious: 0, relaxing: 0 }
    } else if str_eq(season, "summer") {
        MoodVector { happy: SCALE, melancholic: 0, hopeful: 0, nostalgic: 0, mysterious: 0, relaxing: 0 }
    } else if str_eq(season, "fall") {
        MoodVector { happy: 0, melancholic: 0, hopeful: 0, nostalgic: 0, mysterious: 0, relaxing: SCALE }
    } else {
        MoodVector { happy: 0, melancholic: 0, hopeful: 0, nostalgic: 0, mysterious: 0, relaxing: 0 }
    }
}

/// The market sub-mood; its components sum to exactly twice the scale.
fn market_mood(m: &Market) -> (r: MoodVector)
    ensures
        r == spec_market_mood(*m),
        r.wf_nonneg(),
        r.total() == 2 * SCALE,
{
    let sp: i64 = sigmoid(m.spy);
    let bc: i64 = sigmoid(m.btc);
    proof {
        lemma_sigmoid_neg(m.btc as int);
    }
    MoodVector { happy: bc, melancholic: SCALE - sp, hopeful: sp, nostalgic: 0, mysterious: SCALE - bc, relaxing: 0 }
}

/// Maps an external-factor snapshot to the current mood, exactly as
/// `spec_map_factors` states it. The result is normalized: its components
/// are nonnegative and sum to one within six micros.
#[verifier::rlimit(100)]
#[verifier::spinoff_prover]
pub fn map_factors_to_mood(factors: &ExternalFactors) -> (r: MoodVector)
    requires
        factors.wf(),
    ensures
        r == spec_map_factors(*factors),
        r.wf_nonneg(),
        SCALE - 6 < r.total() <= SCALE,
{
    let wn: MoodVector = normalize(weather_mood(&factors.weather));
    let tn: MoodVector = normalize(time_mood(factors.time.hour));
    let sm: MoodVector = season_mood(factors.time.season.as_str());
    let mn: MoodVector = normalize(market_mood(&factors.market));
    let base: MoodVector = sum_moods(sum_moods(sum_moods(wn, tn), sm), mn);
    let combined: MoodVector;
    let count: usize;
    if factors.mercury_retrograde {
        let retro = MoodVector {
            happy: 0,
            melancholic: 300_000,
            hopeful: 0,
            nostalgic: 0,
            mysterious: 700_000,
            relaxing: 0,
        };
        proof {
            assert(retro == spec_retro_mood());
        }
        combined = sum_moods(base, retro);
        count = 5;
    } else {
        combined = base;
        count = 4;
    }
    let avg: MoodVector = average_mood(combined, count);
    proof {
        assert(combined.total() >= 3 * (SCALE - 5));
        assert(avg.total() > 0) by (nonlinear_arith)
            requires
                combined.total() < (avg.total() + 6) * count,
                combined.total() >= 3 * (SCALE - 5),
                avg.total() >= 0,
                1 <= count <= 5,
        ;
    }
    normalize(avg)
}

/// Percentage change from `prev` to `cur`, in micros of a percentage
/// point: `(cur - prev) / prev * 100`, truncated toward zero.
pub open spec fn spec_pct_change(cur: int, prev: int) -> int {
    if cur >= prev {
        ((cur - prev) * 100_000_000) / prev
    } else {
        -(((prev - cur) * 100_000_000) / prev)
    }
}

/// The percentage change between two prices given in micros of a currency
/// unit, in micros of a percentage point.
pub fn pct_change(cur: i64, prev: i64) -> (r: i128)
    requires
        0 < prev,
        0 <= cur,
    ensures
        r == spec_pct_change(cur as int, prev as int),
{
    if cur >= prev {
        let diff: u128 = (cur - prev) as u128;
        proof {
            assert(diff <= 0x8000_0000_0000_0000u128);
            assert(diff * 100_000_000 <= 0x8000_0000_0000_0000 * 100_000_000)
                by (nonlinear_arith)
                requires
                    diff <= 0x8000_0000_0000_0000u128,
            ;
        }
        let q: u128 = diff * 100_000_000 / (prev as u128);
        proof {
            vstd::arithmetic::div_mod::lemma_div_pos_is_pos((diff * 100_000_000) as int,
                prev as int);
            vstd::arithmetic::div_mod::lemma_div_is_ordered(
                (diff * 100_000_000) as int,
                0x8000_0000_0000_0000int * 100_000_000,
                prev as int,
            );
        }
        q as i128
    } else {
        let diff: u128 = (prev - cur) as u128;
        proof {
            assert(diff <= 0x8000_0000_0000_0000u128);
            assert(diff * 100_000_000 <= 0x8000_0000_0000_0000 * 100_000_000)
                by (nonlinear_arith)
                requires
                    diff <= 0x8000_0000_0000_0000u128,
            ;
        }
        let q: u128 = diff * 100_000_000 / (prev as u128);
        proof {
            vstd::arithmetic::div_mod::lemma_div_pos_is_pos((diff * 100_000_000) as int,
                prev as int);
            vstd::arithmetic::div_mod::lemma_div_is_ordered(
                (diff * 100_000_000) as int,
                0x8000_0000_0000_0000int * 100_000_000,
                prev as int,
            );
        }
        -(q as i128)
    }
}

} // verus!
