use vstd::prelude::*;

use vstd::arithmetic::div_mod::{lemma_fundamental_div_mod, lemma_mod_division_less_than_divisor};

verus! {

/// How a non-negative quotient brackets its dividend between two
/// neighbouring multiples of the divisor.
proof fn lemma_div_mul_bounds(a: int, g: int, q: int)
    requires
        g >= 1,
        a >= 0,
        q == a / g,
    ensures
        q * g <= a,
        (q + 1) * g > a,
{
    lemma_fundamental_div_mod(a, g);
    lemma_mod_division_less_than_divisor(a, g);
    let m = a % g;
    assert(q * g <= a && (q + 1) * g > a) by (nonlinear_arith)
        requires
            a == g * q + m,
            0 <= m < g,
    ;
}

/// The smallest multiple of `g` at or above `x`, as its factor: `r` is the
/// least number with `r * g >= x`.
pub fn ceil_div(x: i64, g: i64) -> (r: i64)
    requires
        1 <= g <= 100,
    ensures
        (r as int) * (g as int) >= x as int,
        ((r as int) - 1) * (g as int) < x as int,
{
    let gg = g as u64;
    if x > 0 {
        let a: u64 = (x - 1) as u64;
        let q: u64 = a / gg;
        proof {
            lemma_div_mul_bounds(a as int, g as int, q as int);
        }
        (q as i64) + 1
    } else {
        let m: u64 = (-(x as i128)) as u64;
        let q: u64 = m / gg;
        proof {
            lemma_div_mul_bounds(m as int, g as int, q as int);
        }
        let r: i64 = (-(q as i128)) as i64;
        proof {
            assert((r as int) * (g as int) == -((q as int) * (g as int))) by (nonlinear_arith)
                requires
                    r as int == -(q as int),
            ;
            assert(((r as int) - 1) * (g as int) == -((q as int + 1) * (g as int)))
                by (nonlinear_arith)
                requires
                    r as int == -(q as int),
            ;
        }
        r
    }
}

/// The largest multiple of `g` at or below `x`, as its factor: `r` is the
/// greatest number with `r * g <= x`.
pub fn floor_div(x: i64, g: i64) -> (r: i64)
    requires
        1 <= g <= 100,
    ensures
        (r as int) * (g as int) <= x as int,
        ((r as int) + 1) * (g as int) > x as int,
{
    let gg = g as u64;
    if x >= 0 {
        let a: u64 = x as u64;
        let q: u64 = a / gg;
        proof {
            lemma_div_mul_bounds(a as int, g as int, q as int);
        }
        q as i64
    } else {
        let m: u64 = ((-(x as i128)) - 1) as u64;
        let q: u64 = m / gg;
        proof {
            lemma_div_mul_bounds(m as int, g as int, q as int);
        }
        let r: i64 = ((-(q as i128)) - 1) as i64;
        proof {
            assert((r as int) * (g as int) <= x as int && ((r as int) + 1) * (g as int)
                > x as int) by (nonlinear_arith)
                requires
                    r as int == -(q as int) - 1,
                    m as int == -(x as int) - 1,
                    g as int >= 1,
                    q as int * (g as int) <= m as int,
                    (q as int + 1) * (g as int) > m as int,
            ;
        }
        r
    }
}

/// A range holds a multiple of `g` exactly when the least multiple at or
/// above its low end is still at or below its high end.
pub proof fn lemma_multiple_in_range(lo: int, hi: int, g: int, klo: int, khi: int)
    requires
        g >= 1,
        klo * g >= lo,
        (klo - 1) * g < lo,
        khi * g <= hi,
        (khi + 1) * g > hi,
        exists|k: int| lo <= #[trigger] (k * g) <= hi,
    ensures
        klo <= khi,
{
    let k = choose|k: int| lo <= #[trigger] (k * g) <= hi;
    assert(klo <= k && k <= khi) by (nonlinear_arith)
        requires
            g >= 1,
            (klo - 1) * g < lo,
            (khi + 1) * g > hi,
            lo <= k * g <= hi,
    ;
}

} // verus!
