use vstd::prelude::*;

verus! {

use crate::fixed::{clamp_i64, clamp_to_i64, div_trunc};
use crate::SCALE;

/// A scoring function over a point, written as data: objectives and
/// restrictions are arithmetic terms over the coordinates. All values are
/// fixed-point integers in `SCALE` units; every operation saturates at the
/// range of `i64`, and a product is rescaled by `SCALE`.
pub enum Formula {
    /// The coordinate with this index; a missing coordinate reads as zero.
    Coord(usize),
    /// A constant, in `SCALE` units.
    Lit(i64),
    Add(Box<Formula>, Box<Formula>),
    Sub(Box<Formula>, Box<Formula>),
    /// The rescaled product: `a * b / SCALE`, rounded toward zero.
    Mul(Box<Formula>, Box<Formula>),
    Neg(Box<Formula>),
    Abs(Box<Formula>),
    Max(Box<Formula>, Box<Formula>),
}

/// The value of a formula on a point.
pub open spec fn eval(f: Formula, p: Seq<i64>) -> int
    decreases f,
{
    match f {
        Formula::Coord(i) => if i < p.len() {
            p[i as int] as int
        } else {
            0
        },
        Formula::Lit(c) => c as int,
        Formula::Add(x, y) => clamp_i64(eval(*x, p) + eval(*y, p)),
        Formula::Sub(x, y) => clamp_i64(eval(*x, p) - eval(*y, p)),
        Formula::Mul(x, y) => clamp_i64(div_trunc(eval(*x, p) * eval(*y, p), SCALE as int)),
        Formula::Neg(x) => clamp_i64(-eval(*x, p)),
        Formula::Abs(x) => if eval(*x, p) < 0 {
            clamp_i64(-eval(*x, p))
        } else {
            eval(*x, p)
        },
        Formula::Max(x, y) => if eval(*x, p) >= eval(*y, p) {
            eval(*x, p)
        } else {
            eval(*y, p)
        },
    }
}

/// A formula's value always fits in `i64`.
pub proof fn lemma_eval_in_range(f: Formula, p: Seq<i64>)
    ensures
        i64::MIN as int <= eval(f, p) <= i64::MAX as int,
    decreases f,
{
    match f {
        Formula::Coord(i) => {
        },
        Formula::Lit(c) => {
        },
        Formula::Add(x, y) => {
        },
        Formula::Sub(x, y) => {
        },
        Formula::Mul(x, y) => {
        },
        Formula::Neg(x) => {
        },
        Formula::Abs(x) => {
            lemma_eval_in_range(*x, p);
        },
        Formula::Max(x, y) => {
            lemma_eval_in_range(*x, p);
            lemma_eval_in_range(*y, p);
        },
    }
}

/// Rounds a rescaled product toward zero.
pub(crate) fn div_by_scale(x: i128) -> (r: i128)
    requires
        i128::MIN < x,
    ensures
        r as int == div_trunc(x as int, SCALE as int),
        if x >= 0 {
            0 <= r <= x
        } else {
            x <= r <= 0
        },
{
    if x >= 0 {
        let m: u128 = (x as u128) / (SCALE as u128);
        proof {
            vstd::arithmetic::div_mod::lemma_div_nonincreasing(x as int, SCALE as int);
            vstd::arithmetic::div_mod::lemma_div_pos_is_pos(x as int, SCALE as int);
        }
        m as i128
    } else {
        let m: u128 = ((-x) as u128) / (SCALE as u128);
        proof {
            vstd::arithmetic::div_mod::lemma_div_nonincreasing(-(x as int), SCALE as int);
            vstd::arithmetic::div_mod::lemma_div_pos_is_pos(-(x as int), SCALE as int);
        }
        -(m as i128)
    }
}

/// Computes the value of a formula on a point.
pub fn eval_formula(f: &Formula, p: &Vec<i64>) -> (r: i64)
    ensures
        r as int == eval(*f, p@),
    decreases *f,
{
    match f {
        Formula::Coord(i) => if *i < p.len() {
            p[*i]
        } else {
            0
        },
        Formula::Lit(c) => *c,
        Formula::Add(x, y) => {
            let xv: i128 = eval_formula(x, p) as i128;
            let yv: i128 = eval_formula(y, p) as i128;
            clamp_to_i64(xv + yv)
        },
        Formula::Sub(x, y) => {
            let xv: i128 = eval_formula(x, p) as i128;
            let yv: i128 = eval_formula(y, p) as i128;
            clamp_to_i64(xv - yv)
        },
        Formula::Mul(x, y) => {
            let xv: i128 = eval_formula(x, p) as i128;
            let yv: i128 = eval_formula(y, p) as i128;
            proof {
                assert(-85070591730234615865843651857942052864int <= xv * yv
                    <= 85070591730234615865843651857942052864int) by (nonlinear_arith)
                    requires
                        -9223372036854775808int <= xv as int <= 9223372036854775807int,
                        -9223372036854775808int <= yv as int <= 9223372036854775807int,
                ;
            }
            let prod: i128 = xv * yv;
            let d: i128 = div_by_scale(prod);
            clamp_to_i64(d)
        },
        Formula::Neg(x) => {
            let xv: i128 = eval_formula(x, p) as i128;
            clamp_to_i64(-xv)
        },
        Formula::Abs(x) => {
            let xv: i64 = eval_formula(x, p);
            if xv < 0 {
                clamp_to_i64(-(xv as i128))
            } else {
                xv
            }
        },
        Formula::Max(x, y) => {
            let xv: i64 = eval_formula(x, p);
            let yv: i64 = eval_formula(y, p);
            if xv >= yv {
                xv
            } else {
                yv
            }
        },
    }
}

/// Copies a formula; the copy is equal to the original.
pub fn clone_formula(f: &Formula) -> (r: Formula)
    ensures
        r == *f,
    decreases *f,
{
    match f {
        Formula::Coord(i) => Formula::Coord(*i),
        Formula::Lit(c) => Formula::Lit(*c),
        Formula::Add(x, y) => Formula::Add(
            Box::new(clone_formula(x)),
            Box::new(clone_formula(y)),
        ),
        Formula::Sub(x, y) => Formula::Sub(
            Box::new(clone_formula(x)),
            Box::new(clone_formula(y)),
        ),
        Formula::Mul(x, y) => Formula::Mul(
            Box::new(clone_formula(x)),
            Box::new(clone_formula(y)),
        ),
        Formula::Neg(x) => Formula::Neg(Box::new(clone_formula(x))),
        Formula::Abs(x) => Formula::Abs(Box::new(clone_formula(x))),
        Formula::Max(x, y) => Formula::Max(
            Box::new(clone_formula(x)),
            Box::new(clone_formula(y)),
        ),
    }
}

impl Clone for Formula {
    /// A clone is equal to the original, field for field.
    fn clone(&self) -> (r: Self)
        ensures
            r == *self,
    {
        clone_formula(self)
    }
}

} // verus!
