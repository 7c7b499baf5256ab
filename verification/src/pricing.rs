//! The pricing engine: the repricing formula that moves a good's buy rate
//! with inventory pressure, the fixed buy-to-sell discount, and the quote
//! computation with its quantity-discount tiers. Everything is exact
//! fixed-point integer arithmetic over `SCALE`.

use vstd::prelude::*;
use vstd::arithmetic::div_mod::{
    lemma_div_is_ordered, lemma_div_multiples_vanish, lemma_multiply_divide_lt,
};
use vstd::arithmetic::mul::lemma_mul_inequality;
use crate::goods::{GoodKind, SCALE, spec_def_rate, spec_to_eur, def_rate};

verus! {

/// No buy rate ever exceeds this bound (the formula tops out at 1.4 times
/// a default rate, and every default rate is below `SCALE`).
pub const RATE_CAP: u64 = 2_000_000;

/// Buy to sell discount: the sell rate is 99% of the buy rate.
pub const SELL_RATE_NUM: u64 = 99;
/// Denominator of the buy-to-sell discount.
pub const SELL_RATE_DEN: u64 = 100;

/// The sell rate that goes with a buy rate.
pub open spec fn spec_sell_rate_of(buy: int) -> int {
    buy * 99 / 100
}

/// Numerator of the inflation increment: with the held quantity `q`, the
/// initial quantity `i0` and the mean `m` (all in EUR terms), the fraction
/// `(m - q) / (m - i0 / 4)` scaled by `SCALE`, written over the common
/// denominator `4 * m - i0`.
pub open spec fn spec_inflation_t(q: int, i0: int, m: int) -> int {
    4 * (SCALE as int) * (m - q) / (4 * m - i0)
}

/// The repriced buy rate of a non-EUR kind, as a function of its held
/// quantity, its initial quantity and the market's pricing mean (the held
/// and initial quantities in native units, the mean in EUR terms). Below
/// the mean the rate inflates by up to 10% of the default (more when the
/// quantity has been pushed under a quarter of the initial one); above the
/// mean it deflates in fixed tiers.
pub open spec fn spec_buy_rate(k: GoodKind, held: int, initial: int, mean: int) -> int {
    let d = spec_def_rate(k);
    let q = spec_to_eur(k, held);
    let i0 = spec_to_eur(k, initial);
    if q < mean {
        d * (10 * (SCALE as int) + spec_inflation_t(q, i0, mean)) / (10 * (SCALE as int))
    } else if 100 * q < 105 * mean {
        d
    } else if 100 * q < 110 * mean {
        d * 98 / 100
    } else if 100 * q < 130 * mean {
        d * 975 / 1000
    } else if 100 * q < 160 * mean {
        d * 97 / 100
    } else {
        d * 965 / 1000
    }
}

/// The quoted buy price: the rate applied to the quantity, with the
/// quantity discount keyed to the fraction of the available supply the
/// request represents.
pub open spec fn spec_buy_price(rate: int, qty: int, available: int) -> int {
    let base = rate * qty / (SCALE as int);
    if 100 * qty >= 25 * available {
        if 100 * qty < 30 * available {
            base * 99 / 100
        } else if 100 * qty < 40 * available {
            base * 985 / 1000
        } else if 100 * qty < 50 * available {
            base * 975 / 1000
        } else {
            base * 965 / 1000
        }
    } else {
        base
    }
}

/// The quoted sell price: the sell rate applied to the quantity.
pub open spec fn spec_sell_price(rate: int, qty: int) -> int {
    rate * qty / (SCALE as int)
}

/// `x * n / d` stays at or below `x` when the factor is at most one.
proof fn lemma_frac_le_self(x: int, n: int, d: int)
    requires
        0 <= x,
        0 < d,
        0 <= n <= d,
    ensures
        x * n / d <= x,
        0 <= x * n / d,
{
    lemma_mul_inequality(n, d, x);
    assert(x * n == n * x) by (nonlinear_arith);
    assert(x * d == d * x) by (nonlinear_arith);
    lemma_div_is_ordered(x * n, x * d, d);
    lemma_div_multiples_vanish(x, d);
    assert(x * n / d >= 0) by (nonlinear_arith)
        requires
            0 <= x,
            0 <= n,
            0 < d,
    ;
}

/// Widening multiplication: the product of two machine words always fits
/// the double-wide word.
pub fn wide_mul(a: u64, b: u64) -> (r: u128)
    ensures
        r == (a as int) * (b as int),
{
    proof {
        assert((a as int) * (b as int) <= (u64::MAX as int) * (u64::MAX as int))
            by (nonlinear_arith)
            requires
                a <= u64::MAX,
                b <= u64::MAX,
        ;
        assert((a as int) * (b as int) >= 0) by (nonlinear_arith)
            requires
                a >= 0,
                b >= 0,
        ;
    }
    (a as u128) * (b as u128)
}

/// A percentage of a non-negative quantity never exceeds the quantity.
pub proof fn lemma_cap_le_initial(x: int, n: int)
    requires
        0 <= x,
        0 <= n <= 100,
    ensures
        x * n / 100 <= x,
        0 <= x * n / 100,
{
    lemma_frac_le_self(x, n, 100);
}

/// The EUR value of an amount of one kind, at the default rate. Since
/// every default rate is at most `SCALE`, the value never exceeds the
/// amount.
pub fn to_eur_amount(k: GoodKind, amount: u64) -> (r: u64)
    ensures
        r == spec_to_eur(k, amount as int),
        r <= amount,
{
    let d: u64 = def_rate(k);
    let w: u128 = wide_mul(amount, d);
    proof {
        assert(d <= SCALE);
        assert((amount as int) * (d as int) <= (amount as int) * (SCALE as int))
            by (nonlinear_arith)
            requires
                d <= SCALE,
                amount >= 0,
        ;
        lemma_div_is_ordered(
            (amount as int) * (d as int),
            (amount as int) * (SCALE as int),
            SCALE as int,
        );
        assert((amount as int) * (SCALE as int) == (SCALE as int) * (amount as int))
            by (nonlinear_arith);
        lemma_div_multiples_vanish(amount as int, SCALE as int);
        assert((amount as int) * (d as int) / (SCALE as int) >= 0) by (nonlinear_arith)
            requires
                amount >= 0,
                d >= 0,
        ;
    }
    (w / (SCALE as u128)) as u64
}

/// The executable sell rate for a buy rate.
pub fn sell_rate_of(buy: u64) -> (r: u64)
    requires
        buy <= RATE_CAP,
    ensures
        r == spec_sell_rate_of(buy as int),
        r <= buy,
    {
    proof {
        lemma_frac_le_self(buy as int, 99, 100);
    }
    ((buy as u128) * 99 / 100) as u64
}

/// The executable repricing formula.
pub fn compute_buy_rate(k: GoodKind, held: u64, initial: u64, mean: u64) -> (r: u64)
    requires
        k != GoodKind::Eur,
        3 * mean >= spec_to_eur(k, initial as int),
    ensures
        r == spec_buy_rate(k, held as int, initial as int, mean as int),
        0 < r <= RATE_CAP,
{
    let d: u64 = def_rate(k);
    let q: u128 = wide_mul(held, d) / (SCALE as u128);
    let i0: u128 = wide_mul(initial, d) / (SCALE as u128);
    let m: u128 = mean as u128;
    proof {
        assert(d <= SCALE);
        assert(q == spec_to_eur(k, held as int));
        assert(i0 == spec_to_eur(k, initial as int));
        assert(q >= 0 && i0 >= 0) by (nonlinear_arith)
            requires
                q == (held as int) * (d as int) / (SCALE as int),
                i0 == (initial as int) * (d as int) / (SCALE as int),
                held >= 0,
                initial >= 0,
                d > 0,
        ;
    }
    if q < m {
        // Inflation branch: the denominator is positive because the mean
        // bound gives i0 <= 3 * m and the branch gives m >= 1.
        let denom: u128 = 4 * m - i0;
        let numer: u128 = 4 * (SCALE as u128) * (m - q);
        let t: u128 = numer / denom;
        proof {
            assert(denom >= m);
            assert(numer <= 4 * (SCALE as int) * denom) by (nonlinear_arith)
                requires
                    numer == 4 * (SCALE as int) * (m - q),
                    m - q <= denom,
                    denom > 0,
            ;
            lemma_div_is_ordered(numer as int, 4 * (SCALE as int) * (denom as int), denom as int);
            lemma_div_multiples_vanish(4 * (SCALE as int), denom as int);
            assert(t <= 4 * (SCALE as int));
            assert(t == spec_inflation_t(q as int, i0 as int, m as int));
        }
        let numer2: u128 = wide_mul(d, 10 * SCALE + (t as u64));
        let r: u128 = numer2 / (10 * (SCALE as u128));
        proof {
            let ten_s: int = 10 * (SCALE as int);
            assert(numer2 <= (d as int) * (14 * (SCALE as int))) by (nonlinear_arith)
                requires
                    numer2 == (d as int) * (ten_s + t),
                    t <= 4 * (SCALE as int),
                    ten_s == 10 * (SCALE as int),
                    d >= 0,
            ;
            assert((d as int) * (14 * (SCALE as int)) < (RATE_CAP as int) * ten_s)
                by (nonlinear_arith)
                requires
                    d <= SCALE,
                    SCALE == 1_000_000,
                    RATE_CAP == 2_000_000,
                    ten_s == 10 * (SCALE as int),
                    d >= 0,
            ;
            lemma_multiply_divide_lt(numer2 as int, ten_s, RATE_CAP as int);
            assert(numer2 >= (d as int) * ten_s) by (nonlinear_arith)
                requires
                    numer2 == (d as int) * (ten_s + t),
                    t >= 0,
                    d >= 0,
                    ten_s > 0,
            ;
            lemma_div_is_ordered((d as int) * ten_s, numer2 as int, ten_s);
            lemma_div_multiples_vanish(d as int, ten_s);
            assert(r >= d);
            assert(d >= 1);
        }
        r as u64
    } else if 100 * q < 105 * m {
        d
    } else if 100 * q < 110 * m {
        proof {
            lemma_frac_le_self(d as int, 98, 100);
            lemma_div_is_ordered(6963int * 98, (d as int) * 98, 100);
        }
        (((d as u128) * 98) / 100) as u64
    } else if 100 * q < 130 * m {
        proof {
            lemma_frac_le_self(d as int, 975, 1000);
            lemma_div_is_ordered(6963int * 975, (d as int) * 975, 1000);
        }
        (((d as u128) * 975) / 1000) as u64
    } else if 100 * q < 160 * m {
        proof {
            lemma_frac_le_self(d as int, 97, 100);
            lemma_div_is_ordered(6963int * 97, (d as int) * 97, 100);
        }
        (((d as u128) * 97) / 100) as u64
    } else {
        proof {
            lemma_frac_le_self(d as int, 965, 1000);
            lemma_div_is_ordered(6963int * 965, (d as int) * 965, 1000);
        }
        (((d as u128) * 965) / 1000) as u64
    }
}

/// The executable buy quote.
pub fn compute_buy_price(rate: u64, qty: u64, available: u64) -> (r: u64)
    requires
        rate <= RATE_CAP,
        qty <= i64::MAX,
    ensures
        r == spec_buy_price(rate as int, qty as int, available as int),
        r <= 2 * qty,
{
    let base: u128 = wide_mul(rate, qty) / (SCALE as u128);
    proof {
        assert((rate as int) * (qty as int) <= (2 * (SCALE as int)) * (qty as int))
            by (nonlinear_arith)
            requires
                rate <= 2 * (SCALE as int),
                qty >= 0,
        ;
        lemma_div_is_ordered(
            (rate as int) * (qty as int),
            (2 * (SCALE as int)) * (qty as int),
            SCALE as int,
        );
        assert((2 * (SCALE as int)) * (qty as int) == (SCALE as int) * (2 * (qty as int)))
            by (nonlinear_arith);
        lemma_div_multiples_vanish(2 * (qty as int), SCALE as int);
        assert(base <= 2 * (qty as int));
        assert(base >= 0) by (nonlinear_arith)
            requires
                base == (rate as int) * (qty as int) / (SCALE as int),
                rate >= 0,
                qty >= 0,
        ;
    }
    if 100 * (qty as u128) >= 25 * (available as u128) {
        if 100 * (qty as u128) < 30 * (available as u128) {
            proof {
                lemma_frac_le_self(base as int, 99, 100);
            }
            ((base * 99) / 100) as u64
        } else if 100 * (qty as u128) < 40 * (available as u128) {
            proof {
                lemma_frac_le_self(base as int, 985, 1000);
            }
            ((base * 985) / 1000) as u64
        } else if 100 * (qty as u128) < 50 * (available as u128) {
            proof {
                lemma_frac_le_self(base as int, 975, 1000);
            }
            ((base * 975) / 1000) as u64
        } else {
            proof {
                lemma_frac_le_self(base as int, 965, 1000);
            }
            ((base * 965) / 1000) as u64
        }
    } else {
        base as u64
    }
}

/// The executable sell quote.
pub fn compute_sell_price(rate: u64, qty: u64) -> (r: u64)
    requires
        rate <= RATE_CAP,
        qty <= i64::MAX,
    ensures
        r == spec_sell_price(rate as int, qty as int),
        r <= 2 * qty,
{
    let base: u128 = wide_mul(rate, qty) / (SCALE as u128);
    proof {
        assert((rate as int) * (qty as int) <= (2 * (SCALE as int)) * (qty as int))
            by (nonlinear_arith)
            requires
                rate <= 2 * (SCALE as int),
                qty >= 0,
        ;
        lemma_div_is_ordered(
            (rate as int) * (qty as int),
            (2 * (SCALE as int)) * (qty as int),
            SCALE as int,
        );
        assert((2 * (SCALE as int)) * (qty as int) == (SCALE as int) * (2 * (qty as int)))
            by (nonlinear_arith);
        lemma_div_multiples_vanish(2 * (qty as int), SCALE as int);
        assert(base >= 0) by (nonlinear_arith)
            requires
                base == (rate as int) * (qty as int) / (SCALE as int),
                rate >= 0,
                qty >= 0,
        ;
    }
    base as u64
}

} // verus!
