//! Decimal digit strings: the verified reading and writing of the
//! unsigned numbers that the recent-play store keeps on disk.

use vstd::prelude::*;

verus! {

/// Ten to the `n`.
pub open spec fn pow10(n: nat) -> int
    decreases n,
{
    if n == 0 {
        1
    } else {
        10 * pow10((n - 1) as nat)
    }
}

/// ASCII digit.
pub open spec fn is_digit(b: u8) -> bool {
    48 <= b <= 57
}

/// Every byte is an ASCII digit.
pub open spec fn all_digits(s: Seq<u8>) -> bool {
    forall|i: int| 0 <= i < s.len() ==> is_digit(#[trigger] s[i])
}

/// The number written by a digit string, most significant digit first.
pub open spec fn digits_val(s: Seq<u8>) -> int
    decreases s.len(),
{
    if s.len() == 0 {
        0
    } else {
        10 * digits_val(s.drop_last()) + (s.last() - 48)
    }
}

/// A number the store accepts: one to nineteen digits. Nineteen decimal
/// digits always fit in a `u64`, so no overflow case exists.
pub open spec fn valid_number(s: Seq<u8>) -> bool {
    1 <= s.len() <= 19 && all_digits(s)
}

/// Ten-to-the is monotone in the exponent.
pub proof fn lemma_pow10_mono(a: nat, b: nat)
    requires
        a <= b,
    ensures
        1 <= pow10(a) <= pow10(b),
    decreases b,
{
    if b > 0 {
        if a == b {
            lemma_pow10_mono((a - 1) as nat, (b - 1) as nat);
        } else {
            lemma_pow10_mono(a, (b - 1) as nat);
        }
    }
}

/// A digit string's value is below ten to its length.
pub proof fn lemma_digits_val_bound(s: Seq<u8>)
    requires
        all_digits(s),
    ensures
        0 <= digits_val(s) < pow10(s.len()),
    decreases s.len(),
{
    if s.len() > 0 {
        lemma_digits_val_bound(s.drop_last());
        assert(all_digits(s.drop_last())) by {
            assert(forall|i: int|
                0 <= i < s.len() - 1 ==> #[trigger] s.drop_last()[i] == s[i]);
        }
        assert(s.last() - 48 <= 9);
    }
}

/// Parses the digits of `s[from..to]` as a decimal number. Returns the
/// written value exactly when the range is a valid store number, and
/// nothing otherwise.
pub fn parse_number(s: &Vec<u8>, from: usize, to: usize) -> (r: Option<u64>)
    requires
        from <= to <= s@.len(),
    ensures
        valid_number(s@.subrange(from as int, to as int)) ==> r == Some(
            digits_val(s@.subrange(from as int, to as int)) as u64,
        ),
        !valid_number(s@.subrange(from as int, to as int)) ==> r.is_none(),
{
    let len: usize = to - from;
    if len < 1 || len > 19 {
        return None;
    }
    let mut acc: u64 = 0;
    let mut i: usize = 0;
    while i < len
        invariant
            0 <= i <= len,
            from <= to <= s@.len(),
            len == to - from,
            1 <= len <= 19,
            all_digits(s@.subrange(from as int, from + i)),
            acc == digits_val(s@.subrange(from as int, from + i)),
            acc < pow10(i as nat),
        decreases len - i,
    {
        let b: u8 = s[from + i];
        if b < 48 || b > 57 {
            proof {
                let whole = s@.subrange(from as int, to as int);
                assert(whole[i as int] == b);
                assert(!all_digits(whole));
            }
            return None;
        }
        proof {
            let pre = s@.subrange(from as int, from + i);
            let ext = s@.subrange(from as int, from + i + 1);
            assert(ext.drop_last() =~= pre);
            assert(ext.last() == b);
            lemma_pow10_mono(i as nat, 18);
            assert(pow10(18) == 1_000_000_000_000_000_000) by {
                reveal_with_fuel(pow10, 20);
            }
            assert(acc < 1_000_000_000_000_000_000);
            assert(pow10((i + 1) as nat) == 10 * pow10(i as nat));
        }
        acc = 10 * acc + ((b - 48) as u64);
        i += 1;
    }
    proof {
        assert(s@.subrange(from as int, from + len) =~= s@.subrange(from as int, to as int));
    }
    Some(acc)
}

/// The canonical digit string of `n`: no leading zeros, `"0"` for zero.
pub open spec fn spec_decimal(n: int) -> Seq<u8>
    decreases n,
{
    if n <= 0 {
        seq![48u8]
    } else if n < 10 {
        seq![(48 + n) as u8]
    } else {
        spec_decimal(n / 10).push((48 + n % 10) as u8)
    }
}

/// Renders `n` in decimal, exactly as `spec_decimal` states it.
pub fn render_number(n: u64) -> (r: Vec<u8>)
    ensures
        r@ == spec_decimal(n as int),
{
    if n == 0 {
        let mut v: Vec<u8> = Vec::new();
        v.push(48);
        proof {
            assert(v@ =~= spec_decimal(0));
        }
        return v;
    }
    let mut rev: Vec<u8> = Vec::new();
    let mut m: u64 = n;
    while m > 0
        invariant
            0 <= m <= n,
            m > 0 ==> spec_decimal(n as int) =~= spec_decimal(m as int) + rev@.reverse(),
            m == 0 ==> spec_decimal(n as int) =~= rev@.reverse(),
        decreases m,
    {
        let d: u8 = (m % 10) as u8;
        let ghost old_rev = rev@;
        let ghost old_m = m as int;
        rev.push(48 + d);
        m = m / 10;
        proof {
            assert(rev@ == old_rev.push((48 + old_m % 10) as u8));
            assert(rev@.reverse() =~= seq![(48 + old_m % 10) as u8] + old_rev.reverse());
            if old_m >= 10 {
                assert(spec_decimal(old_m) == spec_decimal(old_m / 10).push(
                    (48 + old_m % 10) as u8,
                ));
                assert(spec_decimal(old_m / 10).push((48 + old_m % 10) as u8) + old_rev.reverse()
                    =~= spec_decimal(old_m / 10) + (seq![(48 + old_m % 10) as u8]
                    + old_rev.reverse()));
                assert(spec_decimal(n as int) =~= spec_decimal(m as int) + rev@.reverse());
            } else {
                assert(old_m % 10 == old_m) by {
                    vstd::arithmetic::div_mod::lemma_small_mod(old_m as nat, 10);
                }
                assert(old_m / 10 == 0) by {
                    vstd::arithmetic::div_mod::lemma_basic_div(old_m, 10);
                }
                assert(m == 0);
                assert(spec_decimal(old_m) =~= seq![(48 + old_m) as u8]);
                assert(spec_decimal(n as int) =~= spec_decimal(old_m) + old_rev.reverse());
                assert(spec_decimal(n as int) =~= rev@.reverse());
            }
        }
    }
    let mut out: Vec<u8> = Vec::new();
    let mut i: usize = rev.len();
    while i > 0
        invariant
            0 <= i <= rev@.len(),
            out@.len() == rev@.len() - i,
            forall|j: int| 0 <= j < out@.len() ==> out@[j] == rev@[rev@.len() - 1 - j],
        decreases i,
    {
        i -= 1;
        out.push(rev[i]);
    }
    proof {
        assert(out@ =~= rev@.reverse());
        assert(spec_decimal(n as int) =~= rev@.reverse());
    }
    out
}

/// The canonical digit string of a number below ten-to-the-`bound` is a
/// valid digit string of at most `bound` digits, and writes the number
/// back.
pub proof fn lemma_decimal_digits(n: int, bound: nat)
    requires
        0 <= n < pow10(bound),
        1 <= bound,
    ensures
        all_digits(spec_decimal(n)),
        1 <= spec_decimal(n).len() <= bound,
        digits_val(spec_decimal(n)) == n,
    decreases bound,
{
    if n < 10 {
        let s = spec_decimal(n);
        assert(s.len() == 1);
        assert(is_digit(s[0]));
        assert(s.drop_last() =~= Seq::<u8>::empty());
        assert(digits_val(s) == 10 * digits_val(s.drop_last()) + (s.last() - 48));
    } else {
        assert(bound >= 2) by {
            if bound < 2 {
                assert(pow10(bound) == 10 * pow10((bound - 1) as nat));
                assert(pow10((bound - 1) as nat) == 1);
            }
        }
        assert(pow10(bound) == 10 * pow10((bound - 1) as nat));
        vstd::arithmetic::div_mod::lemma_multiply_divide_lt(n, 10, pow10((bound - 1) as nat));
        vstd::arithmetic::div_mod::lemma_div_pos_is_pos(n, 10);
        lemma_decimal_digits(n / 10, (bound - 1) as nat);
        let s = spec_decimal(n);
        let pre = spec_decimal(n / 10);
        assert(s == pre.push((48 + n % 10) as u8));
        assert(s.drop_last() =~= pre);
        vstd::arithmetic::div_mod::lemma_mod_division_less_than_divisor(n, 10);
        assert(s.last() == (48 + n % 10) as u8);
        assert(is_digit(s.last()));
        assert forall|i: int| 0 <= i < s.len() implies is_digit(#[trigger] s[i]) by {
            if i < s.len() - 1 {
                assert(s[i] == pre[i]);
            }
        }
        vstd::arithmetic::div_mod::lemma_fundamental_div_mod(n, 10);
        assert(digits_val(s) == 10 * digits_val(pre) + (s.last() - 48));
    }
}

} // verus!
