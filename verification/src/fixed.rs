use vstd::prelude::*;

verus! {

use crate::{BLEND_DEN, COORD_LIMIT, JITTER_DIV, SCALE};

/// `x` forced into the representable coordinate range.
pub open spec fn clamp_coord(x: int) -> int {
    if x < -(COORD_LIMIT as int) {
        -(COORD_LIMIT as int)
    } else if x > COORD_LIMIT as int {
        COORD_LIMIT as int
    } else {
        x
    }
}

/// `x` forced into the range of `i64`.
pub open spec fn clamp_i64(x: int) -> int {
    if x < i64::MIN as int {
        i64::MIN as int
    } else if x > i64::MAX as int {
        i64::MAX as int
    } else {
        x
    }
}

/// Integer division rounding toward zero, for a positive divisor.
pub open spec fn div_trunc(n: int, d: int) -> int
    recommends
        d > 0,
{
    if n >= 0 {
        n / d
    } else {
        -((-n) / d)
    }
}

/// The blended coordinate: weight `w` out of `BLEND_DEN` toward `a`, the
/// rest toward `b`, rounded down after shifting into nonnegative range.
pub open spec fn blend(w: int, a: int, b: int) -> int {
    (w * (a + COORD_LIMIT) + (BLEND_DEN - w) * (b + COORD_LIMIT)) / (BLEND_DEN as int)
        - COORD_LIMIT
}

/// How far a coordinate moves under jitter noise `z` (in `SCALE` units of
/// standard deviations times 300) over a box side of length `range`.
pub open spec fn delta_spec(range: int, z: int) -> int {
    div_trunc(range * z, JITTER_DIV as int)
}

/// Computes the blend of two in-range coordinates; the result stays
/// between them.
pub fn blend_coord(w: u64, a: i64, b: i64) -> (r: i64)
    requires
        w < BLEND_DEN,
        -COORD_LIMIT <= a <= COORD_LIMIT,
        -COORD_LIMIT <= b <= COORD_LIMIT,
    ensures
        r as int == blend(w as int, a as int, b as int),
        min_of(a as int, b as int) <= r as int <= max_of(a as int, b as int),
{
    let sa: u128 = (a + COORD_LIMIT) as u128;
    let sb: u128 = (b + COORD_LIMIT) as u128;
    let wu: u128 = w as u128;
    let du: u128 = BLEND_DEN as u128;
    proof {
        assert((wu as int) * (sa as int) <= (du as int) * (2 * COORD_LIMIT as int))
            by (nonlinear_arith)
            requires
                0 <= wu as int <= du as int,
                0 <= sa as int <= 2 * COORD_LIMIT as int,
        ;
        assert(((du - wu) as int) * (sb as int) <= (du as int) * (2 * COORD_LIMIT as int))
            by (nonlinear_arith)
            requires
                0 <= (du - wu) as int <= du as int,
                0 <= sb as int <= 2 * COORD_LIMIT as int,
        ;
    }
    let t: u128 = wu * sa + (du - wu) * sb;
    proof {
        let ww = w as int;
        let dd = BLEND_DEN as int;
        let av = a as int + COORD_LIMIT as int;
        let bv = b as int + COORD_LIMIT as int;
        let lov = min_of(a as int, b as int) + COORD_LIMIT as int;
        let hiv = max_of(a as int, b as int) + COORD_LIMIT as int;
        assert(t as int == ww * av + (dd - ww) * bv);
        assert(dd * lov <= ww * av + (dd - ww) * bv && ww * av + (dd - ww) * bv <= dd * hiv)
            by (nonlinear_arith)
            requires
                0 <= ww <= dd,
                0 <= lov <= av <= hiv,
                lov <= bv <= hiv,
        ;
        vstd::arithmetic::div_mod::lemma_div_is_ordered(dd * lov, t as int, dd);
        vstd::arithmetic::div_mod::lemma_div_is_ordered(t as int, dd * hiv, dd);
        vstd::arithmetic::div_mod::lemma_div_multiples_vanish(lov, dd);
        vstd::arithmetic::div_mod::lemma_div_multiples_vanish(hiv, dd);
        assert(lov <= t as int / dd <= hiv);
    }
    let q: u128 = t / du;
    let r: i64 = (q as i64) - COORD_LIMIT;
    r
}

pub open spec fn min_of(a: int, b: int) -> int {
    if a <= b {
        a
    } else {
        b
    }
}

pub open spec fn max_of(a: int, b: int) -> int {
    if a <= b {
        b
    } else {
        a
    }
}

/// Moves an in-range coordinate by the jitter amount and saturates at the
/// representable range.
pub fn jitter_coord(p: i64, lo: i64, hi: i64, z: i64) -> (r: i64)
    requires
        -COORD_LIMIT <= p <= COORD_LIMIT,
        -COORD_LIMIT <= lo < hi <= COORD_LIMIT,
    ensures
        r as int == clamp_coord(p + delta_spec(hi - lo, z as int)),
        -COORD_LIMIT <= r <= COORD_LIMIT,
{
    let range: u128 = (hi - lo) as u128;
    let zi: i128 = z as i128;
    let delta: i128 = if zi >= 0 {
        proof {
            assert((range as int) * (zi as int) <= (2 * COORD_LIMIT as int) * (i64::MAX as int)
                && (range as int) * (zi as int) >= 0) by (nonlinear_arith)
                requires
                    0 < range as int <= 2 * COORD_LIMIT as int,
                    0 <= zi as int <= i64::MAX as int,
            ;
        }
        let prod: u128 = range * (zi as u128);
        let mag: u128 = prod / (JITTER_DIV as u128);
        proof {
            vstd::arithmetic::div_mod::lemma_div_nonincreasing(prod as int, JITTER_DIV as int);
            assert((range as int) * (zi as int) == (hi - lo) * (z as int));
            assert(mag as int == div_trunc((hi - lo) * (z as int), JITTER_DIV as int));
        }
        mag as i128
    } else {
        let mz: u128 = (-zi) as u128;
        proof {
            assert((range as int) * (mz as int) <= (2 * COORD_LIMIT as int) * (
            9223372036854775808int) && (range as int) * (mz as int) > 0) by (nonlinear_arith)
                requires
                    0 < range as int <= 2 * COORD_LIMIT as int,
                    0 < mz as int <= 9223372036854775808int,
            ;
        }
        let prod: u128 = range * mz;
        let mag: u128 = prod / (JITTER_DIV as u128);
        proof {
            vstd::arithmetic::div_mod::lemma_div_nonincreasing(prod as int, JITTER_DIV as int);
            assert((range as int) * (mz as int) == -((hi - lo) * (z as int))) by (nonlinear_arith)
                requires
                    range as int == hi - lo,
                    mz as int == -(z as int),
            ;
            assert((hi - lo) * (z as int) < 0);
            assert(-(mag as int) == div_trunc((hi - lo) * (z as int), JITTER_DIV as int));
        }
        -(mag as i128)
    };
    let moved: i128 = (p as i128) + delta;
    let cl: i128 = COORD_LIMIT as i128;
    if moved < -cl {
        -COORD_LIMIT
    } else if moved > cl {
        COORD_LIMIT
    } else {
        moved as i64
    }
}

/// Saturates a mathematical value into `i64`, given as a 128-bit value.
pub fn clamp_to_i64(x: i128) -> (r: i64)
    ensures
        r as int == clamp_i64(x as int),
{
    if x < i64::MIN as i128 {
        i64::MIN
    } else if x > i64::MAX as i128 {
        i64::MAX
    } else {
        x as i64
    }
}

} // verus!
