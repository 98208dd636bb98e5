//! Seconds with one decimal.
//!
//! A time is divided and written as a double is: read to 53 significant bits at
//! each step, and then to the nearest tenth, halves going to the even one. Off
//! the halves that is the nearest tenth of the time itself.

use crate::text::{self, decimal, Chars};
use vstd::prelude::*;

verus! {

/// One more than the largest number of 53 bits.
pub const TOP: u64 = 0x20_0000_0000_0000;

/// What a time is doubled up to before it is divided by four thousand, so that
/// the quotient has 53 bits.
pub const STRETCH: u128 = 36_028_797_018_963_968_000;

/// `n` over `d`, as the nearest whole number; halves go to the even one.
pub open spec fn rounded(n: nat, d: nat) -> nat {
    let q = n / d;
    let r = n % d;
    if 2 * r > d || (2 * r == d && q % 2 == 1) {
        q + 1
    } else {
        q
    }
}

/// The first of the powers of two from `unit` on of which `n` holds fewer than
/// 53 bits can count.
pub open spec fn unit_for(n: nat, unit: nat) -> nat
    decreases n - unit,
{
    if unit == 0 || n < unit * TOP {
        unit
    } else {
        unit_for(n, 2 * unit)
    }
}

/// `n` to 53 significant bits.
pub open spec fn as_double(n: nat) -> nat {
    let unit = unit_for(n, 1);
    rounded(n, unit) * unit
}

/// The last of the powers of two from `factor` on that keeps `n` below the
/// stretch.
pub open spec fn factor_for(n: nat, factor: nat) -> nat
    decreases STRETCH - n * factor,
{
    if n == 0 || factor == 0 || n * (2 * factor) >= STRETCH {
        factor
    } else {
        proof {
            assert(n * (2 * factor) == n * factor + n * factor) by (nonlinear_arith);
            assert(n * factor > 0) by (nonlinear_arith)
                requires
                    n > 0,
                    factor > 0,
            ;
        }
        factor_for(n, 2 * factor)
    }
}

/// A number of milliseconds in tenths of a second.
pub open spec fn tenths_of(ms: nat) -> nat {
    let n = as_double(ms);
    let factor = factor_for(n, 1);
    rounded(40 * rounded(n * factor, 4_000), factor)
}

/// A number of milliseconds in seconds with one decimal.
pub open spec fn seconds_text(ms: nat) -> Chars {
    text::dec(tenths_of(ms) / 10) + "."@ + text::dec(tenths_of(ms) % 10)
}

fn round_div(n: u128, d: u128) -> (r: u128)
    requires
        0 < d,
        n < 0x8000_0000_0000_0000_0000_0000_0000_0000,
    ensures
        r == rounded(n as nat, d as nat),
{
    let q: u128 = n / d;
    let rest: u128 = n % d;
    proof {
        assert(q <= n) by (nonlinear_arith)
            requires
                q == n / d,
                d > 0,
        ;
    }
    if rest > d - rest || (rest == d - rest && q % 2 == 1) {
        q + 1
    } else {
        q
    }
}

/// `n` to 53 significant bits.
fn double(n: u64) -> (r: u128)
    ensures
        r == as_double(n as nat),
        r <= 0x1_0000_0000_0000_1000,
{
    let mut unit: u128 = 1;
    while n as u128 >= unit * TOP as u128
        invariant
            1 <= unit <= 4_096,
            unit == 1 || unit * TOP <= 2 * n,
            unit_for(n as nat, 1) == unit_for(n as nat, unit as nat),
        decreases 8_192 - unit,
    {
        unit = 2 * unit;
    }
    let m: u128 = round_div(n as u128, unit);
    proof {
        lemma_rounded(n as nat, unit as nat);
    }
    m * unit
}

/// Milliseconds in tenths of a second.
fn tenths(ms: u64) -> (r: u64)
    ensures
        r == tenths_of(ms as nat),
{
    let n: u128 = double(ms);
    let mut factor: u128 = 1;
    let mut stretched: u128 = n;
    while n > 0 && 2 * stretched < STRETCH
        invariant
            stretched == n * factor,
            stretched < STRETCH,
            1 <= factor,
            n > 0 ==> factor <= stretched,
            n == 0 ==> factor == 1,
            factor_for(n as nat, 1) == factor_for(n as nat, factor as nat),
        decreases STRETCH - stretched,
    {
        proof {
            assert(n * (2 * factor) == 2 * (n * factor)) by (nonlinear_arith);
        }
        factor = 2 * factor;
        stretched = 2 * stretched;
    }
    proof {
        assert(n * (2 * factor) == 2 * (n * factor)) by (nonlinear_arith);
    }
    let m: u128 = round_div(stretched, 4_000);
    proof {
        lemma_rounded(stretched as nat, 4_000);
        lemma_rounded((40 * m) as nat, factor as nat);
    }
    let t: u128 = round_div(40 * m, factor);
    proof {
        lemma_close(n as int, factor as int, m as int, t as int);
    }
    t as u64
}

/// Milliseconds in seconds with one decimal.
pub fn seconds(ms: u64) -> (r: String)
    ensures
        r@ == seconds_text(ms as nat),
{
    let t: u64 = tenths(ms);
    let mut r: String = decimal(t / 10);
    r.append(".");
    r.append(decimal(t % 10).as_str());
    r
}

/// Rounding is off by no more than half.
proof fn lemma_rounded(n: nat, d: nat)
    requires
        d > 0,
    ensures
        2 * (rounded(n, d) * d) <= 2 * n + d,
        2 * n <= 2 * (rounded(n, d) * d) + d,
{
    let q = n / d;
    assert(n == q * d + n % d && 0 <= n % d < d) by (nonlinear_arith)
        requires
            d > 0,
            q == n / d,
    ;
    assert((q + 1) * d == q * d + d) by (nonlinear_arith);
}

/// The two roundings together: how far the tenths may lie from the time.
proof fn lemma_close(n: int, factor: int, m: int, t: int)
    requires
        n >= 0,
        factor >= 1,
        2 * (m * 4_000) <= 2 * (n * factor) + 4_000,
        2 * (n * factor) <= 2 * (m * 4_000) + 4_000,
        2 * (t * factor) <= 2 * (40 * m) + factor,
        2 * (40 * m) <= 2 * (t * factor) + factor,
    ensures
        100 * t <= n + 2_050,
        factor > 2_000 ==> -50 <= 100 * t - n <= 50,
{
    let d = 100 * t - n;
    assert(d * factor == 100 * (t * factor) - n * factor) by (nonlinear_arith)
        requires
            d == 100 * t - n,
    ;
    assert(-50 * factor - 2_000 <= d * factor <= 50 * factor + 2_000);
    assert(d <= 2_050) by (nonlinear_arith)
        requires
            d * factor <= 50 * factor + 2_000,
            factor >= 1,
    ;
    if factor > 2_000 {
        assert(-51 < d < 51) by (nonlinear_arith)
            requires
                -50 * factor - 2_000 <= d * factor <= 50 * factor + 2_000,
                factor > 2_000,
        ;
    }
}

/// Doubling ends just short of the stretch.
proof fn lemma_factor(n: nat, factor: nat)
    requires
        n > 0,
        factor > 0,
        n * factor < STRETCH,
    ensures
        factor_for(n, factor) >= 1,
        n * factor_for(n, factor) < STRETCH <= n * (2 * factor_for(n, factor)),
    decreases STRETCH - n * factor,
{
    if n * (2 * factor) < STRETCH {
        assert(n * (2 * factor) == n * factor + n * factor) by (nonlinear_arith);
        assert(n * factor > 0) by (nonlinear_arith)
            requires
                n > 0,
                factor > 0,
        ;
        lemma_factor(n, 2 * factor);
    }
}

/// A time that 53 bits can count, and that lies on no half, is written to its
/// nearest tenth of a second.
pub proof fn law_seconds_are_to_the_nearest_tenth(ms: nat)
    requires
        ms < TOP,
        ms % 100 != 50,
    ensures
        -50 < 100 * tenths_of(ms) - ms < 50,
{
    assert(unit_for(ms, 1) == 1);
    assert(rounded(ms, 1) == ms) by (nonlinear_arith);
    if ms > 0 {
        let factor = factor_for(ms, 1);
        lemma_factor(ms, 1);
        assert(factor > 2_000) by (nonlinear_arith)
            requires
                ms * (2 * factor) >= 36_028_797_018_963_968_000,
                ms < 0x20_0000_0000_0000,
                ms > 0,
        ;
        let m = rounded(ms * factor, 4_000);
        lemma_rounded(ms * factor, 4_000);
        lemma_rounded(40 * m, factor);
        lemma_close(ms as int, factor as int, m as int, tenths_of(ms) as int);
        let t = tenths_of(ms) as int;
        if 100 * t - ms == 50 {
            assert(ms == 100 * (t - 1) + 50);
        }
        if 100 * t - ms == -50 {
            assert(ms == 100 * t + 50);
        }
    } else {
        assert(factor_for(0, 1) == 1);
        assert(rounded(0, 4_000) == 0 && rounded(0, 1) == 0);
    }
}

/// A quotient is rounded to the nearest whole, and to the even one halfway.
pub proof fn law_a_quotient_is_rounded_to_the_nearest(n: nat, d: nat)
    requires
        d > 0,
    ensures
        2 * n <= 2 * rounded(n, d) * d + d,
        2 * rounded(n, d) * d <= 2 * n + d,
        2 * n == 2 * rounded(n, d) * d + d || 2 * rounded(n, d) * d == 2 * n + d ==> rounded(n, d) % 2
            == 0,
{
    let q = n / d;
    let rest = n % d;
    assert(n == q * d + rest && rest < d) by (nonlinear_arith)
        requires
            q == n / d,
            rest == n % d,
            d > 0,
    ;
    assert(2 * (q + 1) * d == 2 * (q * d) + 2 * d) by (nonlinear_arith);
    assert(2 * q * d == 2 * (q * d)) by (nonlinear_arith);
}

/// A time in tenths is written with one digit behind the point.
pub proof fn law_seconds_have_one_digit_behind_the_point(ms: u64, r: String)
    requires
        call_ensures(seconds, (ms,), r),
    ensures
        r@.len() >= 3,
        r@[r@.len() - 2] == '.',
        r@ == text::dec(tenths_of(ms as nat) / 10) + "."@ + text::dec(tenths_of(ms as nat) % 10),
{
    reveal_strlit(".");
    text::law_a_number_reads_back(tenths_of(ms as nat) % 10);
    text::law_a_number_reads_back(tenths_of(ms as nat) / 10);
}

} // verus!
