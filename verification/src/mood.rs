//! The six-axis mood vector and its fixed-point arithmetic.

use vstd::prelude::*;

verus! {

/// Fixed-point scale: `SCALE` micros represent the real value `1.0`.
pub const SCALE: i64 = 1_000_000;

/// Largest magnitude a single mood component may carry (one million units).
/// Keeps every sum, product and squared distance inside `i64`/`i128` range.
pub const COMP_MAX: i64 = 1_000_000_000_000;

/// A mood as affinities along six fixed axes, each in micros.
#[derive(Clone, Copy, Debug, PartialEq, Eq, Structural)]
pub struct MoodVector {
    pub happy: i64,
    pub melancholic: i64,
    pub hopeful: i64,
    pub nostalgic: i64,
    pub mysterious: i64,
    pub relaxing: i64,
}

impl MoodVector {
    /// Every component within the magnitude bound.
    pub open spec fn wf(self) -> bool {
        &&& -COMP_MAX <= self.happy <= COMP_MAX
        &&& -COMP_MAX <= self.melancholic <= COMP_MAX
        &&& -COMP_MAX <= self.hopeful <= COMP_MAX
        &&& -COMP_MAX <= self.nostalgic <= COMP_MAX
        &&& -COMP_MAX <= self.mysterious <= COMP_MAX
        &&& -COMP_MAX <= self.relaxing <= COMP_MAX
    }

    /// Well-formed with no negative component, as every computed mood is.
    pub open spec fn wf_nonneg(self) -> bool {
        &&& self.wf()
        &&& self.happy >= 0
        &&& self.melancholic >= 0
        &&& self.hopeful >= 0
        &&& self.nostalgic >= 0
        &&& self.mysterious >= 0
        &&& self.relaxing >= 0
    }

    /// Mathematical sum of the six components.
    pub open spec fn total(self) -> int {
        self.happy + self.melancholic + self.hopeful + self.nostalgic
            + self.mysterious + self.relaxing
    }

}

/// Component-wise sum of two moods.
pub open spec fn spec_sum_moods(a: MoodVector, b: MoodVector) -> MoodVector {
    MoodVector {
        happy: (a.happy + b.happy) as i64,
        melancholic: (a.melancholic + b.melancholic) as i64,
        hopeful: (a.hopeful + b.hopeful) as i64,
        nostalgic: (a.nostalgic + b.nostalgic) as i64,
        mysterious: (a.mysterious + b.mysterious) as i64,
        relaxing: (a.relaxing + b.relaxing) as i64,
    }
}

pub fn sum_moods(a: MoodVector, b: MoodVector) -> (r: MoodVector)
    requires
        a.wf(),
        b.wf(),
        a.happy + b.happy <= COMP_MAX,
        a.melancholic + b.melancholic <= COMP_MAX,
        a.hopeful + b.hopeful <= COMP_MAX,
        a.nostalgic + b.nostalgic <= COMP_MAX,
        a.mysterious + b.mysterious <= COMP_MAX,
        a.relaxing + b.relaxing <= COMP_MAX,
    ensures
        r == spec_sum_moods(a, b),
{
    MoodVector {
        happy: a.happy + b.happy,
        melancholic: a.melancholic + b.melancholic,
        hopeful: a.hopeful + b.hopeful,
        nostalgic: a.nostalgic + b.nostalgic,
        mysterious: a.mysterious + b.mysterious,
        relaxing: a.relaxing + b.relaxing,
    }
}

/// Squared Euclidean distance between two moods, in squared micros.
/// Comparisons against a widened threshold are made on squared values,
/// which keeps them exact; the square root itself is never needed.
pub open spec fn spec_distance_sq(a: MoodVector, b: MoodVector) -> int {
    (a.happy - b.happy) * (a.happy - b.happy)
        + (a.melancholic - b.melancholic) * (a.melancholic - b.melancholic)
        + (a.hopeful - b.hopeful) * (a.hopeful - b.hopeful)
        + (a.nostalgic - b.nostalgic) * (a.nostalgic - b.nostalgic)
        + (a.mysterious - b.mysterious) * (a.mysterious - b.mysterious)
        + (a.relaxing - b.relaxing) * (a.relaxing - b.relaxing)
}

pub fn euclidean_distance_sq(a: &MoodVector, b: &MoodVector) -> (r: i128)
    requires
        a.wf(),
        b.wf(),
    ensures
        r == spec_distance_sq(*a, *b),
        0 <= r <= 24 * COMP_MAX * COMP_MAX,
{
    let dh: i128 = a.happy as i128 - b.happy as i128;
    let dm: i128 = a.melancholic as i128 - b.melancholic as i128;
    let dp: i128 = a.hopeful as i128 - b.hopeful as i128;
    let dn: i128 = a.nostalgic as i128 - b.nostalgic as i128;
    let dy: i128 = a.mysterious as i128 - b.mysterious as i128;
    let dr: i128 = a.relaxing as i128 - b.relaxing as i128;
    proof {
        assert(dh * dh >= 0 && dm * dm >= 0 && dp * dp >= 0 && dn * dn >= 0 && dy * dy >= 0
            && dr * dr >= 0) by (nonlinear_arith);
        assert(dh * dh <= COMP_MAX * 4 * COMP_MAX && dm * dm <= COMP_MAX * 4 * COMP_MAX && dp * dp
            <= COMP_MAX * 4 * COMP_MAX && dn * dn <= COMP_MAX * 4 * COMP_MAX && dy * dy <= COMP_MAX
            * 4 * COMP_MAX && dr * dr <= COMP_MAX * 4 * COMP_MAX) by (nonlinear_arith)
            requires
                -2 * COMP_MAX <= dh <= 2 * COMP_MAX,
                -2 * COMP_MAX <= dm <= 2 * COMP_MAX,
                -2 * COMP_MAX <= dp <= 2 * COMP_MAX,
                -2 * COMP_MAX <= dn <= 2 * COMP_MAX,
                -2 * COMP_MAX <= dy <= 2 * COMP_MAX,
                -2 * COMP_MAX <= dr <= 2 * COMP_MAX,
        ;
    }
    dh * dh + dm * dm + dp * dp + dn * dn + dy * dy + dr * dr
}

/// A mood is at distance zero from itself.
pub proof fn lemma_distance_self_zero(a: MoodVector)
    ensures
        spec_distance_sq(a, a) == 0,
{
}

/// Comparing two nonnegative fractions: if `a1/b1 <= a2/b2` holds of the
/// exact rationals, it holds of the floored quotients too.
proof fn lemma_frac_le(a1: int, b1: int, a2: int, b2: int)
    requires
        0 <= a1,
        0 < b1,
        0 <= a2,
        0 < b2,
        a1 * b2 <= a2 * b1,
    ensures
        a1 / b1 <= a2 / b2,
{
    let q1 = a1 / b1;
    let q2 = a2 / b2;
    vstd::arithmetic::div_mod::lemma_fundamental_div_mod(a1, b1);
    vstd::arithmetic::div_mod::lemma_fundamental_div_mod(a2, b2);
    vstd::arithmetic::div_mod::lemma_mod_division_less_than_divisor(a1, b1);
    vstd::arithmetic::div_mod::lemma_mod_division_less_than_divisor(a2, b2);
    assert(b1 * q1 <= a1);
    assert(q1 * b2 * b1 <= a2 * b1) by (nonlinear_arith)
        requires
            b1 * q1 <= a1,
            a1 * b2 <= a2 * b1,
            0 < b1,
            0 < b2,
    ;
    assert(q1 * b2 <= a2) by (nonlinear_arith)
        requires
            q1 * b2 * b1 <= a2 * b1,
            0 < b1,
    ;
    let m2 = a2 % b2;
    assert(a2 < b2 * (q2 + 1)) by (nonlinear_arith)
        requires
            a2 == b2 * q2 + m2,
            m2 < b2,
    ;
    assert(q1 < q2 + 1) by (nonlinear_arith)
        requires
            q1 * b2 <= a2,
            a2 < b2 * (q2 + 1),
            0 < b2,
    ;
}

/// Floored division distributed over a sum of six nonnegative terms loses
/// less than one divisor per term.
proof fn lemma_floor_sum6(a1: int, a2: int, a3: int, a4: int, a5: int, a6: int, d: int)
    requires
        0 < d,
        0 <= a1 && 0 <= a2 && 0 <= a3 && 0 <= a4 && 0 <= a5 && 0 <= a6,
    ensures
        d * (a1 / d + a2 / d + a3 / d + a4 / d + a5 / d + a6 / d) <= a1 + a2 + a3 + a4 + a5 + a6,
        a1 + a2 + a3 + a4 + a5 + a6 < d * (a1 / d + a2 / d + a3 / d + a4 / d + a5 / d + a6 / d) + 6
            * d,
{
    vstd::arithmetic::div_mod::lemma_fundamental_div_mod(a1, d);
    vstd::arithmetic::div_mod::lemma_fundamental_div_mod(a2, d);
    vstd::arithmetic::div_mod::lemma_fundamental_div_mod(a3, d);
    vstd::arithmetic::div_mod::lemma_fundamental_div_mod(a4, d);
    vstd::arithmetic::div_mod::lemma_fundamental_div_mod(a5, d);
    vstd::arithmetic::div_mod::lemma_fundamental_div_mod(a6, d);
    vstd::arithmetic::div_mod::lemma_mod_division_less_than_divisor(a1, d);
    vstd::arithmetic::div_mod::lemma_mod_division_less_than_divisor(a2, d);
    vstd::arithmetic::div_mod::lemma_mod_division_less_than_divisor(a3, d);
    vstd::arithmetic::div_mod::lemma_mod_division_less_than_divisor(a4, d);
    vstd::arithmetic::div_mod::lemma_mod_division_less_than_divisor(a5, d);
    vstd::arithmetic::div_mod::lemma_mod_division_less_than_divisor(a6, d);
    assert(d * (a1 / d + a2 / d + a3 / d + a4 / d + a5 / d + a6 / d) == d * (a1 / d) + d * (a2 / d)
        + d * (a3 / d) + d * (a4 / d) + d * (a5 / d) + d * (a6 / d)) by (nonlinear_arith);
}

/// Scaling to unit mass: every component becomes its share of the total,
/// in micros; the zero vector is left untouched.
pub open spec fn spec_normalize(v: MoodVector) -> MoodVector {
    let t = v.total();
    if t == 0 {
        v
    } else {
        MoodVector {
            happy: ((v.happy * SCALE) / t) as i64,
            melancholic: ((v.melancholic * SCALE) / t) as i64,
            hopeful: ((v.hopeful * SCALE) / t) as i64,
            nostalgic: ((v.nostalgic * SCALE) / t) as i64,
            mysterious: ((v.mysterious * SCALE) / t) as i64,
            relaxing: ((v.relaxing * SCALE) / t) as i64,
        }
    }
}

/// One normalized component: its value share of the total, in micros.
fn normalize_comp(c: i64, t: i64) -> (r: i64)
    requires
        0 < t,
        0 <= c <= t,
        t <= 6 * COMP_MAX,
    ensures
        r == (c * SCALE) / (t as int),
        0 <= r <= SCALE,
{
    let r: u128 = (c as u128) * (SCALE as u128) / (t as u128);
    proof {
        vstd::arithmetic::div_mod::lemma_div_pos_is_pos(c * SCALE, t as int);
        vstd::arithmetic::div_mod::lemma_multiply_divide_le(c * SCALE, t as int, SCALE as int);
        assert(c * SCALE <= t * SCALE) by (nonlinear_arith)
            requires
                0 <= c <= t,
        ;
    }
    r as i64
}

pub fn normalize(v: MoodVector) -> (r: MoodVector)
    requires
        v.wf_nonneg(),
    ensures
        r == spec_normalize(v),
        r.wf_nonneg(),
        v.total() == 0 ==> r == v,
        v.total() > 0 ==> SCALE - 6 < r.total() <= SCALE,
        v.total() > 0 ==> r.happy <= SCALE && r.melancholic <= SCALE && r.hopeful <= SCALE
            && r.nostalgic <= SCALE && r.mysterious <= SCALE && r.relaxing <= SCALE,
{
    let t: i64 = v.happy + v.melancholic + v.hopeful + v.nostalgic + v.mysterious + v.relaxing;
    if t == 0 {
        v
    } else {
        let r = MoodVector {
            happy: normalize_comp(v.happy, t),
            melancholic: normalize_comp(v.melancholic, t),
            hopeful: normalize_comp(v.hopeful, t),
            nostalgic: normalize_comp(v.nostalgic, t),
            mysterious: normalize_comp(v.mysterious, t),
            relaxing: normalize_comp(v.relaxing, t),
        };
        proof {
            let d = t as int;
            let q1 = (v.happy * SCALE) / d;
            let q2 = (v.melancholic * SCALE) / d;
            let q3 = (v.hopeful * SCALE) / d;
            let q4 = (v.nostalgic * SCALE) / d;
            let q5 = (v.mysterious * SCALE) / d;
            let q6 = (v.relaxing * SCALE) / d;
            lemma_floor_sum6(
                v.happy * SCALE,
                v.melancholic * SCALE,
                v.hopeful * SCALE,
                v.nostalgic * SCALE,
                v.mysterious * SCALE,
                v.relaxing * SCALE,
                d,
            );
            assert(v.happy * SCALE + v.melancholic * SCALE + v.hopeful * SCALE + v.nostalgic
                * SCALE + v.mysterious * SCALE + v.relaxing * SCALE == d * SCALE)
                by (nonlinear_arith)
                requires
                    d == v.happy + v.melancholic + v.hopeful + v.nostalgic + v.mysterious
                        + v.relaxing,
            ;
            let s = r.total();
            assert(s == q1 + q2 + q3 + q4 + q5 + q6);
            assert(d * s <= d * SCALE);
            assert(d * SCALE < d * s + 6 * d);
            assert(s <= SCALE) by (nonlinear_arith)
                requires
                    d * s <= d * SCALE,
                    0 < d,
            ;
            assert(SCALE < s + 6) by (nonlinear_arith)
                requires
                    d * SCALE < d * s + 6 * d,
                    0 < d,
            ;
        }
        r
    }
}

/// Component-wise floored division by the number of contributions.
pub open spec fn spec_average(v: MoodVector, count: int) -> MoodVector {
    MoodVector {
        happy: (v.happy as int / count) as i64,
        melancholic: (v.melancholic as int / count) as i64,
        hopeful: (v.hopeful as int / count) as i64,
        nostalgic: (v.nostalgic as int / count) as i64,
        mysterious: (v.mysterious as int / count) as i64,
        relaxing: (v.relaxing as int / count) as i64,
    }
}

/// One averaged component.
fn average_comp(c: i64, count: usize) -> (r: i64)
    requires
        0 < count,
        0 <= c,
    ensures
        r == c as int / count as int,
        0 <= r <= c,
{
    let r: u128 = (c as u128) / (count as u128);
    proof {
        vstd::arithmetic::div_mod::lemma_div_pos_is_pos(c as int, count as int);
        vstd::arithmetic::div_mod::lemma_div_nonincreasing(c as int, count as int);
    }
    r as i64
}

pub fn average_mood(v: MoodVector, count: usize) -> (r: MoodVector)
    requires
        v.wf_nonneg(),
        count > 0,
    ensures
        r == spec_average(v, count as int),
        r.wf_nonneg(),
        v.total() < (r.total() + 6) * count,
        r.total() * count <= v.total(),
{
    let r = MoodVector {
        happy: average_comp(v.happy, count),
        melancholic: average_comp(v.melancholic, count),
        hopeful: average_comp(v.hopeful, count),
        nostalgic: average_comp(v.nostalgic, count),
        mysterious: average_comp(v.mysterious, count),
        relaxing: average_comp(v.relaxing, count),
    };
    proof {
        let d = count as int;
        lemma_floor_sum6(
            v.happy as int,
            v.melancholic as int,
            v.hopeful as int,
            v.nostalgic as int,
            v.mysterious as int,
            v.relaxing as int,
            d,
        );
        let q1 = v.happy as int / d;
        let q2 = v.melancholic as int / d;
        let q3 = v.hopeful as int / d;
        let q4 = v.nostalgic as int / d;
        let q5 = v.mysterious as int / d;
        let q6 = v.relaxing as int / d;
        assert(r.total() == q1 + q2 + q3 + q4 + q5 + q6);
        assert(d * r.total() <= v.total());
        assert(v.total() < d * r.total() + 6 * d);
        assert(r.total() * count == d * r.total()) by (nonlinear_arith)
            requires
                d == count,
        ;
        assert((r.total() + 6) * count == d * r.total() + 6 * d) by (nonlinear_arith)
            requires
                d == count,
        ;
    }
    r
}

/// Half the scale: the sigmoid's value at zero.
pub const SIG_HALF: i64 = 500_000;

/// The sigmoid on a nonnegative argument (micros in, micros out):
/// `1/2 + x / (2 * (1 + x))`, an S-curve through one half that saturates
/// toward one. An integer logistic: exactly one half at zero, strictly
/// inside (0, 1), and monotone, which is everything the mood heuristic
/// relies on.
pub open spec fn spec_sig_pos(x: int) -> int {
    SIG_HALF + (x * SIG_HALF) / (x + SCALE)
}

/// The sigmoid over all of `int`, odd-symmetric about `(0, 1/2)`.
pub open spec fn spec_sigmoid(x: int) -> int {
    if x >= 0 {
        spec_sig_pos(x)
    } else {
        SCALE - spec_sig_pos(-x)
    }
}

/// On a nonnegative argument the sigmoid sits in `[1/2, 1)`.
proof fn lemma_sig_pos_bounds(x: int)
    requires
        x >= 0,
    ensures
        SIG_HALF <= spec_sig_pos(x) < SCALE,
{
    vstd::arithmetic::div_mod::lemma_div_pos_is_pos(x * SIG_HALF, x + SCALE);
    assert(x * SIG_HALF >= 0) by (nonlinear_arith)
        requires
            x >= 0,
    ;
    assert(x * SIG_HALF < (x + SCALE) * SIG_HALF) by (nonlinear_arith)
        requires
            x >= 0,
    ;
    vstd::arithmetic::div_mod::lemma_multiply_divide_lt(x * SIG_HALF, x + SCALE, SIG_HALF as int);
}

/// The sigmoid is strictly between zero and one, everywhere.
pub proof fn lemma_sigmoid_bounds(x: int)
    ensures
        0 < spec_sigmoid(x) < SCALE,
        x >= 0 ==> spec_sigmoid(x) >= SIG_HALF,
        x <= 0 ==> spec_sigmoid(x) <= SIG_HALF,
{
    if x >= 0 {
        lemma_sig_pos_bounds(x);
    } else {
        lemma_sig_pos_bounds(-x);
    }
}

/// The sigmoid of zero is exactly one half.
pub proof fn lemma_sigmoid_zero()
    ensures
        spec_sigmoid(0) == SIG_HALF,
{
    vstd::arithmetic::div_mod::lemma_div_of0(0 + SCALE as int);
    assert(0int * SIG_HALF == 0) by (nonlinear_arith);
}

/// Odd symmetry: `sigmoid(-x) == 1 - sigmoid(x)`.
pub proof fn lemma_sigmoid_neg(x: int)
    ensures
        spec_sigmoid(-x) == SCALE - spec_sigmoid(x),
{
}

/// The sigmoid is monotonically increasing.
pub proof fn lemma_sigmoid_monotone(a: int, b: int)
    requires
        a <= b,
    ensures
        spec_sigmoid(a) <= spec_sigmoid(b),
{
    if 0 <= a {
        assert((a * SIG_HALF) * (b + SCALE) <= (b * SIG_HALF) * (a + SCALE)) by (nonlinear_arith)
            requires
                0 <= a <= b,
        ;
        assert(a * SIG_HALF >= 0 && b * SIG_HALF >= 0) by (nonlinear_arith)
            requires
                0 <= a <= b,
        ;
        lemma_frac_le(a * SIG_HALF, a + SCALE, b * SIG_HALF, b + SCALE);
    } else if b < 0 {
        assert(((-b) * SIG_HALF) * ((-a) + SCALE) <= ((-a) * SIG_HALF) * ((-b) + SCALE))
            by (nonlinear_arith)
            requires
                a <= b < 0,
        ;
        assert((-a) * SIG_HALF >= 0 && (-b) * SIG_HALF >= 0) by (nonlinear_arith)
            requires
                a <= b < 0,
        ;
        lemma_frac_le((-b) * SIG_HALF, (-b) + SCALE, (-a) * SIG_HALF, (-a) + SCALE);
    } else {
        lemma_sig_pos_bounds(-a);
        lemma_sig_pos_bounds(b);
    }
}

/// The sigmoid, computed exactly as `spec_sigmoid` states it.
pub fn sigmoid(x: i64) -> (r: i64)
    ensures
        r == spec_sigmoid(x as int),
        0 < r < SCALE,
{
    let xw: i128 = x as i128;
    let m: u128 = if x < 0 {
        (-xw) as u128
    } else {
        xw as u128
    };
    proof {
        assert(m <= 0x8000_0000_0000_0000u128);
        assert(m * (SIG_HALF as u128) <= 0x8000_0000_0000_0000 * 500_000) by (nonlinear_arith)
            requires
                m <= 0x8000_0000_0000_0000u128,
        ;
    }
    let q: u128 = (m * (SIG_HALF as u128)) / (m + (SCALE as u128));
    proof {
        let mi = m as int;
        vstd::arithmetic::div_mod::lemma_div_pos_is_pos(mi * SIG_HALF, mi + SCALE);
        assert(mi * SIG_HALF >= 0) by (nonlinear_arith)
            requires
                mi >= 0,
        ;
        assert(mi * SIG_HALF < (mi + SCALE) * SIG_HALF) by (nonlinear_arith)
            requires
                mi >= 0,
        ;
        vstd::arithmetic::div_mod::lemma_multiply_divide_lt(
            mi * SIG_HALF,
            mi + SCALE,
            SIG_HALF as int,
        );
    }
    let qi: i64 = q as i64;
    if x < 0 {
        SIG_HALF - qi
    } else {
        SIG_HALF + qi
    }
}

} // verus!
