//! Durations as the user reads them.

use vstd::arithmetic::power2::{
    lemma2_to64, lemma2_to64_rest, lemma_pow2_pos, lemma_pow2_unfold, pow2,
};
use vstd::prelude::*;

use crate::strings::{decimal, digit, digit_char, push_decimal};

verus! {

/// `num / den` rounded to the nearest integer, a tie to the even one.
pub open spec fn round_half_even(num: nat, den: nat) -> nat {
    let q = num / den;
    let r = num % den;
    if 2 * r < den || (2 * r == den && q % 2 == 0) {
        q
    } else {
        q + 1
    }
}

/// The exponent of the greatest power of two that is at most `n`.
pub open spec fn exponent(n: nat) -> nat
    decreases n,
{
    if n < 2 {
        0
    } else {
        1 + exponent(n / 2)
    }
}

/// The double nearest to `n`: an integer of at most 53 significant bits.
pub open spec fn nearest_double(n: nat) -> nat {
    if n < pow2(53) {
        n
    } else {
        let unit = pow2((exponent(n) - 52) as nat);
        round_half_even(n, unit) * unit
    }
}

/// The double nearest to `ms / 1000`, in hundredths and rounded to an integer.
pub open spec fn hundredths(ms: nat) -> nat {
    let n = nearest_double(ms);
    let e = exponent(n / 1000);
    if e <= 52 {
        let unit = pow2((52 - e) as nat);
        round_half_even(100 * round_half_even(n * unit, 1000), unit)
    } else {
        let unit = pow2((e - 52) as nat);
        100 * (round_half_even(n, 1000 * unit) * unit)
    }
}

/// Milliseconds below one second as they are, longer durations in seconds with
/// two decimals.
pub open spec fn duration_text(ms: nat) -> Seq<char> {
    if ms < 1000 {
        decimal(ms) + " ms"@
    } else {
        let h = hundredths(ms);
        decimal(h / 100) + "."@ + seq![digit((h / 10) % 10), digit(h % 10)] + " s"@
    }
}

proof fn lemma_exponent_bound(n: nat, k: nat)
    requires
        n < pow2(k + 1),
    ensures
        exponent(n) <= k,
    decreases k,
{
    lemma_pow2_unfold(k + 1);
    if k == 0 {
        lemma2_to64();
    } else if n >= 2 {
        lemma_exponent_bound(n / 2, (k - 1) as nat);
    }
}

proof fn lemma_exponent_lower(n: nat, k: nat)
    requires
        n >= pow2(k),
    ensures
        exponent(n) >= k,
    decreases k,
{
    if k > 0 {
        lemma_pow2_unfold(k);
        lemma_pow2_pos((k - 1) as nat);
        lemma_exponent_lower(n / 2, (k - 1) as nat);
    }
}

/// `pow2(k)`.
fn power_of_two(k: u64) -> (r: u128)
    requires
        k <= 64,
    ensures
        r == pow2(k as nat),
        0 < r <= 0x1_0000_0000_0000_0000,
{
    let mut r: u128 = 1;
    let mut i: u64 = 0;
    proof {
        lemma2_to64();
    }
    while i < k
        invariant
            i <= k <= 64,
            r == pow2(i as nat),
            r <= 0x1_0000_0000_0000_0000,
        decreases k - i,
    {
        proof {
            lemma_pow2_unfold((i + 1) as nat);
            lemma_pow2_at_most(i as nat + 1);
        }
        r = r * 2;
        i += 1;
    }
    proof {
        lemma_pow2_pos(k as nat);
    }
    r
}

proof fn lemma_pow2_at_most(k: nat)
    requires
        k <= 64,
    ensures
        pow2(k) <= 0x1_0000_0000_0000_0000,
    decreases 64 - k,
{
    lemma2_to64();
    lemma2_to64_rest();
    if k < 64 {
        lemma_pow2_at_most(k + 1);
        lemma_pow2_unfold(k + 1);
    }
}

/// `exponent(n)`.
fn exponent_of(n: u128) -> (r: u64)
    requires
        n <= 0x1_0000_0000_0000_0000,
    ensures
        r == exponent(n as nat),
        r <= 64,
{
    let mut t: u128 = n;
    let mut r: u64 = 0;
    proof {
        lemma2_to64_rest();
        lemma_pow2_unfold(65);
        lemma_exponent_bound(n as nat, 64);
    }
    while t >= 2
        invariant
            r + exponent(t as nat) == exponent(n as nat),
            exponent(n as nat) <= 64,
        decreases t,
    {
        t = t / 2;
        r += 1;
    }
    r
}

/// `round_half_even(num, den)`.
fn rounded_quotient(num: u128, den: u128) -> (r: u128)
    requires
        0 < den <= 0x1_0000_0000_0000_0000_0000,
        num <= 0x100_0000_0000_0000_0000_0000_0000_0000,
    ensures
        r == round_half_even(num as nat, den as nat),
        r <= num / den + 1,
{
    let q: u128 = num / den;
    let rem: u128 = num % den;
    proof {
        assert(q <= num) by (nonlinear_arith)
            requires
                den > 0,
                q == num / den,
        ;
    }
    if 2 * rem < den || (2 * rem == den && q % 2 == 0) {
        q
    } else {
        q + 1
    }
}

/// `nearest_double(ms)`.
fn double_of(ms: u64) -> (r: u128)
    ensures
        r == nearest_double(ms as nat),
        r <= 0x2_0000_0000_0000_0000,
{
    proof {
        lemma2_to64_rest();
    }
    let n: u128 = ms as u128;
    if n < 0x20_0000_0000_0000 {
        n
    } else {
        proof {
            lemma_exponent_lower(n as nat, 53);
            lemma_exponent_bound(n as nat, 63);
        }
        let unit: u128 = power_of_two(exponent_of(n) - 52);
        let q: u128 = rounded_quotient(n, unit);
        assert(q * unit <= n + unit) by (nonlinear_arith)
            requires
                unit > 0,
                q <= n / unit + 1,
        ;
        assert(q * unit >= 0) by (nonlinear_arith);
        q * unit
    }
}

/// `hundredths(ms)`.
fn rounded_hundredths(ms: u64) -> (r: u128)
    ensures
        r == hundredths(ms as nat),
{
    let n: u128 = double_of(ms);
    let e: u64 = exponent_of(n / 1000);
    if e <= 52 {
        let unit: u128 = power_of_two(52 - e);
        proof {
            lemma2_to64();
            lemma2_to64_rest();
            lemma_pow2_monotonic((52 - e) as nat, 52);
            assert(n * unit <= 0x2_0000_0000_0000_0000 * 0x10_0000_0000_0000) by (nonlinear_arith)
                requires
                    n <= 0x2_0000_0000_0000_0000,
                    unit <= 0x10_0000_0000_0000,
            ;
            assert(n * unit >= 0) by (nonlinear_arith);
        }
        let m: u128 = rounded_quotient(n * unit, 1000);
        rounded_quotient(100 * m, unit)
    } else {
        proof {
            lemma2_to64();
            lemma2_to64_rest();
            lemma_exponent_bound((n / 1000) as nat, 55);
            lemma_pow2_monotonic((e - 52) as nat, 3);
        }
        let unit: u128 = power_of_two(e - 52);
        let q: u128 = rounded_quotient(n, 1000 * unit);
        assert(q * unit <= 0x2_0000_0000_0000_0001 * 8) by (nonlinear_arith)
            requires
                unit <= 8,
                q <= n / (1000 * unit) as u128 + 1,
                n / (1000 * unit) as u128 <= n,
                n <= 0x2_0000_0000_0000_0000,
        ;
        assert(q * unit >= 0) by (nonlinear_arith);
        100 * (q * unit)
    }
}

proof fn lemma_pow2_monotonic(a: nat, b: nat)
    requires
        a <= b,
    ensures
        pow2(a) <= pow2(b),
    decreases b - a,
{
    if a < b {
        lemma_pow2_monotonic(a, (b - 1) as nat);
        lemma_pow2_unfold(b);
    }
}

/// A duration given in milliseconds, for display: `"xxx ms"` below one second,
/// `"x.xx s"` from there on.
pub fn format_duration(ms: u64) -> (r: String)
    ensures
        r@ == duration_text(ms as nat),
{
    let mut s: String = String::new();
    if ms < 1000 {
        push_decimal(&mut s, ms as u128);
        s.append(" ms");
        assert(s@ =~= decimal(ms as nat) + " ms"@);
    } else {
        let h: u128 = rounded_hundredths(ms);
        push_decimal(&mut s, h / 100);
        s.append(".");
        s.push(digit_char((h / 10) % 10));
        s.push(digit_char(h % 10));
        s.append(" s");
        assert(s@ =~= duration_text(ms as nat));
    }
    s
}

// ---------------------------------------------------------------------------
// Laws
// ---------------------------------------------------------------------------

proof fn lemma_rounded(num: nat, den: nat)
    requires
        den > 0,
    ensures
        -(den as int) <= 2 * (den * round_half_even(num, den) - num) <= den,
{
    let q = num / den;
    let r = num % den;
    vstd::arithmetic::div_mod::lemma_fundamental_div_mod(num as int, den as int);
    assert(den * (q + 1) == den * q + den) by (nonlinear_arith);
}

/// Rounding gives one of the nearest integers: no other is nearer, and of two
/// that are equally near it is the even one.
pub proof fn law_rounding_is_to_the_nearest(num: nat, den: nat)
    requires
        den > 0,
    ensures
        ({
            let n = round_half_even(num, den);
            let off = den * n - num;
            &&& -(den as int) <= 2 * off <= den
            &&& 2 * off == den || 2 * off == -(den as int) ==> n % 2 == 0
        }),
{
    lemma_rounded(num, den);
    let q = num / den;
    let r = num % den;
    vstd::arithmetic::div_mod::lemma_fundamental_div_mod(num as int, den as int);
    assert(den * (q + 1) == den * q + den) by (nonlinear_arith);
}

/// A duration of a second or more is shown within five milliseconds of what it
/// is: in hundredths of a second, rounded.
pub proof fn law_duration_is_shown_to_the_hundredth(ms: nat)
    requires
        1000 <= ms < 0x4_0000_0000_0000,
    ensures
        ms - 5 <= 10 * hundredths(ms) <= ms + 5,
{
    lemma2_to64();
    lemma2_to64_rest();
    let e = exponent(ms / 1000);
    assert(ms / 1000 < 0x200_0000_0000) by (nonlinear_arith)
        requires
            ms < 0x4_0000_0000_0000,
    ;
    lemma_exponent_bound(ms / 1000, 40);
    let unit = pow2((52 - e) as nat);
    if 52 - e > 12 {
        vstd::arithmetic::power2::lemma_pow2_strictly_increases(12, (52 - e) as nat);
    }
    assert(unit >= 4096);
    let a = round_half_even(ms * unit, 1000);
    let h = round_half_even(100 * a, unit);
    lemma_rounded(ms * unit, 1000);
    lemma_rounded(100 * a, unit);
    assert(hundredths(ms) == h);
    assert(ms - 5 <= 10 * h <= ms + 5) by (nonlinear_arith)
        requires
            unit >= 4096,
            -1000 <= 2 * (1000 * a - ms * unit) <= 1000,
            -(unit as int) <= 2 * (unit * h - 100 * a) <= unit,
    ;
}

/// The hundredths shown are those nearest to a double that is itself nearest to
/// the seconds: a multiple of the unit that doubles of that size have. Ties go
/// to the even one, both times.
pub proof fn law_duration_is_rounded_from_a_double(ms: nat, e: nat)
    requires
        1000 <= ms < 0x4_0000_0000_0000,
        pow2(e) <= ms / 1000 < pow2(e + 1),
        e <= 52,
    ensures
        ({
            let unit = pow2((52 - e) as nat) as int;
            let h = hundredths(ms) as int;
            exists|d: int|
                {
                    let off = #[trigger] (1000 * d) - ms * unit;
                    let away = unit * h - 100 * d;
                    &&& -1000 <= 2 * off <= 1000
                    &&& (2 * off == 1000 || 2 * off == -1000) ==> d % 2 == 0
                    &&& -unit <= 2 * away <= unit
                    &&& (2 * away == unit || 2 * away == -unit) ==> h % 2 == 0
                }
        }),
{
    lemma2_to64_rest();
    lemma_exponent_bound(ms / 1000, e);
    lemma_exponent_lower(ms / 1000, e);
    let unit = pow2((52 - e) as nat);
    lemma_pow2_pos((52 - e) as nat);
    let d = round_half_even(ms * unit, 1000);
    law_rounding_is_to_the_nearest(ms * unit, 1000);
    law_rounding_is_to_the_nearest(100 * d, unit);
    assert(hundredths(ms) == round_half_even(100 * d, unit));
    let wit = 1000 * (d as int);
    assert(wit - ms * unit == 1000 * d - ms * unit);
}

/// Below a second the milliseconds are shown as they are; from there on the
/// seconds, a point and two digits of the hundredths.
pub proof fn law_duration_reads_as_it_is(ms: nat)
    ensures
        ms < 1000 ==> duration_text(ms) == decimal(ms) + " ms"@,
        ms >= 1000 ==> ({
            let seconds = hundredths(ms) / 100;
            let tenth = (hundredths(ms) / 10) % 10;
            let hundredth = hundredths(ms) % 10;
            &&& duration_text(ms) == decimal(seconds) + "."@ + decimal(tenth) + decimal(hundredth)
                + " s"@
            &&& 100 * seconds + 10 * tenth + hundredth == hundredths(ms)
        }),
{
    if ms >= 1000 {
        let h = hundredths(ms);
        let tenth = (h / 10) % 10;
        let hundredth = h % 10;
        assert(seq![digit(tenth), digit(hundredth)] =~= decimal(tenth) + decimal(hundredth));
        assert(duration_text(ms) =~= decimal(h / 100) + "."@ + decimal(tenth) + decimal(hundredth)
            + " s"@);
    }
}

} // verus!
