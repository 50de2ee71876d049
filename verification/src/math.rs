use vstd::prelude::*;
use vstd::arithmetic::div_mod::{lemma_div_nonincreasing, lemma_div_pos_is_pos, lemma_fundamental_div_mod};

verus! {

/// Largest scalar magnitude that arithmetic may produce: results saturate
/// symmetrically at `±SAT_LIMIT` so that negation is always exact.
pub const SAT_LIMIT: i64 = 0x7fff_ffff_ffff_ffff;

/// Largest coordinate magnitude accepted for particle positions; keeps
/// squared distances exact (far below the saturation threshold).
pub const MAX_COORD: i64 = 1_000_000;

/// Symmetric saturation of a mathematical integer into `[-SAT_LIMIT, SAT_LIMIT]`.
pub open spec fn sat(v: int) -> int {
    if v > SAT_LIMIT as int {
        SAT_LIMIT as int
    } else if v < -(SAT_LIMIT as int) {
        -(SAT_LIMIT as int)
    } else {
        v
    }
}

/// Saturating sum: exact whenever the true sum has magnitude at most `SAT_LIMIT`.
pub open spec fn sat_add_spec(a: int, b: int) -> int {
    sat(a + b)
}

/// Saturating difference.
pub open spec fn sat_sub_spec(a: int, b: int) -> int {
    sat(a - b)
}

/// Saturating product.
pub open spec fn sat_mul_spec(a: int, b: int) -> int {
    sat(a * b)
}

/// Division truncated toward zero (the machine division), for a positive divisor.
pub open spec fn tdiv_spec(a: int, b: int) -> int {
    if a >= 0 {
        a / b
    } else {
        -((-a) / b)
    }
}

pub fn sat_add(a: i64, b: i64) -> (r: i64)
    ensures
        r as int == sat_add_spec(a as int, b as int),
{
    match a.checked_add(b) {
        Some(v) => {
            if v == i64::MIN {
                -SAT_LIMIT
            } else {
                v
            }
        },
        None => {
            if a > 0 {
                SAT_LIMIT
            } else {
                -SAT_LIMIT
            }
        },
    }
}

pub fn sat_sub(a: i64, b: i64) -> (r: i64)
    ensures
        r as int == sat_sub_spec(a as int, b as int),
{
    match a.checked_sub(b) {
        Some(v) => {
            if v == i64::MIN {
                -SAT_LIMIT
            } else {
                v
            }
        },
        None => {
            if a >= 0 {
                SAT_LIMIT
            } else {
                -SAT_LIMIT
            }
        },
    }
}

pub fn sat_mul(a: i64, b: i64) -> (r: i64)
    ensures
        r as int == sat_mul_spec(a as int, b as int),
{
    match a.checked_mul(b) {
        Some(v) => {
            if v == i64::MIN {
                -SAT_LIMIT
            } else {
                v
            }
        },
        None => {
            proof {
                assert((a as int * b as int) > (i64::MAX as int) || (a as int * b as int) < (i64::MIN as int));
                assert(((a < 0) == (b < 0)) ==> (a as int * b as int) >= 0) by (nonlinear_arith);
                assert(((a < 0) != (b < 0)) ==> (a as int * b as int) <= 0) by (nonlinear_arith);
            }
            if (a < 0) == (b < 0) {
                SAT_LIMIT
            } else {
                -SAT_LIMIT
            }
        },
    }
}

/// Machine (truncating) division by a positive divisor; never overflows.
pub fn tdiv(a: i64, b: i64) -> (r: i64)
    requires
        b >= 1,
    ensures
        r as int == tdiv_spec(a as int, b as int),
        a >= 0 ==> 0 <= r <= a,
        a < 0 ==> a <= r <= 0,
{
    proof {
        if a >= 0 {
            lemma_div_pos_is_pos(a as int, b as int);
            lemma_div_nonincreasing(a as int, b as int);
        } else {
            lemma_div_pos_is_pos(-(a as int), b as int);
            lemma_div_nonincreasing(-(a as int), b as int);
        }
    }
    match a.checked_div(b) {
        Some(v) => v,
        None => 0,
    }
}

/// Floor (Euclidean) division by a positive divisor; never overflows.
pub fn ediv(a: i64, b: i64) -> (r: i64)
    requires
        b >= 1,
    ensures
        r as int == a as int / b as int,
        a >= 0 ==> 0 <= r <= a,
        a < 0 ==> a <= r <= 0,
{
    proof {
        if a >= 0 {
            lemma_div_pos_is_pos(a as int, b as int);
            lemma_div_nonincreasing(a as int, b as int);
        } else {
            lemma_fundamental_div_mod(a as int, b as int);
            assert(a as int / b as int >= a as int && a as int / b as int <= 0) by (nonlinear_arith)
                requires
                    b >= 1,
                    a < 0,
                    a as int == (b as int) * (a as int / b as int) + (a as int % b as int),
                    0 <= (a as int % b as int) < (b as int),
            ;
        }
    }
    match a.checked_div_euclid(b) {
        Some(v) => v,
        None => 0,
    }
}

/// A two-dimensional vector of integer scalars.
#[derive(Clone, Copy, Debug, PartialEq, Eq, Structural)]
pub struct Vect {
    pub x: i64,
    pub y: i64,
}

/// Componentwise saturating vector sum.
pub open spec fn vadd_spec(a: Vect, b: Vect) -> Vect {
    Vect { x: sat_add_spec(a.x as int, b.x as int) as i64, y: sat_add_spec(a.y as int, b.y as int) as i64 }
}

/// Componentwise saturating vector difference.
pub open spec fn vsub_spec(a: Vect, b: Vect) -> Vect {
    Vect { x: sat_sub_spec(a.x as int, b.x as int) as i64, y: sat_sub_spec(a.y as int, b.y as int) as i64 }
}

/// Saturating dot product.
pub open spec fn dot_spec(a: Vect, b: Vect) -> int {
    sat_add_spec(sat_mul_spec(a.x as int, b.x as int), sat_mul_spec(a.y as int, b.y as int))
}

/// Saturating squared norm.
pub open spec fn norm_squared_spec(a: Vect) -> int {
    dot_spec(a, a)
}

/// Exact squared distance between two points, as a mathematical integer.
pub open spec fn true_dist2(a: Vect, b: Vect) -> int {
    (a.x - b.x) * (a.x - b.x) + (a.y - b.y) * (a.y - b.y)
}

/// Saturating squared distance, as computed by the contact detector.
pub open spec fn dist2_spec(a: Vect, b: Vect) -> int {
    norm_squared_spec(vsub_spec(a, b))
}

/// Componentwise saturating scaling of a vector.
pub open spec fn vscale_spec(a: Vect, s: int) -> Vect {
    Vect { x: sat_mul_spec(a.x as int, s) as i64, y: sat_mul_spec(a.y as int, s) as i64 }
}

/// The zero vector.
pub open spec fn vzero_spec() -> Vect {
    Vect { x: 0, y: 0 }
}

/// Both coordinates within `±m`.
pub open spec fn vect_bounded(a: Vect, m: int) -> bool {
    -m <= a.x as int <= m && -m <= a.y as int <= m
}

impl Vect {
    pub fn new(x: i64, y: i64) -> (r: Vect)
        ensures
            r == (Vect { x, y }),
    {
        Vect { x, y }
    }

    pub fn zero() -> (r: Vect)
        ensures
            r == vzero_spec(),
    {
        Vect { x: 0, y: 0 }
    }

    pub fn add(&self, o: &Vect) -> (r: Vect)
        ensures
            r == vadd_spec(*self, *o),
    {
        Vect { x: sat_add(self.x, o.x), y: sat_add(self.y, o.y) }
    }

    pub fn sub(&self, o: &Vect) -> (r: Vect)
        ensures
            r == vsub_spec(*self, *o),
    {
        Vect { x: sat_sub(self.x, o.x), y: sat_sub(self.y, o.y) }
    }

    pub fn dot(&self, o: &Vect) -> (r: i64)
        ensures
            r as int == dot_spec(*self, *o),
    {
        sat_add(sat_mul(self.x, o.x), sat_mul(self.y, o.y))
    }

    pub fn norm_squared(&self) -> (r: i64)
        ensures
            r as int == norm_squared_spec(*self),
    {
        self.dot(self)
    }

    pub fn scale(&self, s: i64) -> (r: Vect)
        ensures
            r == vscale_spec(*self, s as int),
    {
        Vect { x: sat_mul(self.x, s), y: sat_mul(self.y, s) }
    }
}

/// Saturation is an odd function: its bounds are symmetric.
pub proof fn lemma_sat_odd(v: int)
    ensures
        sat(-v) == -sat(v),
{
}

/// Largest coordinate magnitude a predicted (delta-shifted) position can have.
pub const MAX_EFF_COORD: i64 = 2_000_000;

/// Clamp of one coordinate into the world's coordinate range.
pub open spec fn clamp_coord_spec(v: int) -> int {
    if v > MAX_COORD as int {
        MAX_COORD as int
    } else if v < -(MAX_COORD as int) {
        -(MAX_COORD as int)
    } else {
        v
    }
}

/// Componentwise clamp of a vector into the world's coordinate range.
pub open spec fn vclamp_coord_spec(v: Vect) -> Vect {
    Vect { x: clamp_coord_spec(v.x as int) as i64, y: clamp_coord_spec(v.y as int) as i64 }
}

pub fn vclamp_coord(v: Vect) -> (r: Vect)
    ensures
        r == vclamp_coord_spec(v),
        vect_bounded(r, MAX_COORD as int),
{
    let x = if v.x > MAX_COORD {
        MAX_COORD
    } else if v.x < -MAX_COORD {
        -MAX_COORD
    } else {
        v.x
    };
    let y = if v.y > MAX_COORD {
        MAX_COORD
    } else if v.y < -MAX_COORD {
        -MAX_COORD
    } else {
        v.y
    };
    Vect { x, y }
}

/// Componentwise truncating division of a vector by a positive scalar.
pub open spec fn vtdiv_spec(v: Vect, s: int) -> Vect {
    Vect { x: tdiv_spec(v.x as int, s) as i64, y: tdiv_spec(v.y as int, s) as i64 }
}

pub fn vtdiv(v: Vect, s: i64) -> (r: Vect)
    requires
        s >= 1,
    ensures
        r == vtdiv_spec(v, s as int),
{
    Vect { x: tdiv(v.x, s), y: tdiv(v.y, s) }
}

/// When both points are in the predicted-coordinate range, the saturating
/// squared distance equals the exact one.
pub proof fn lemma_dist2_exact(a: Vect, b: Vect)
    requires
        vect_bounded(a, MAX_EFF_COORD as int),
        vect_bounded(b, MAX_EFF_COORD as int),
    ensures
        dist2_spec(a, b) == true_dist2(a, b),
{
    let dx = a.x - b.x;
    let dy = a.y - b.y;
    assert(-4_000_000 <= dx <= 4_000_000);
    assert(-4_000_000 <= dy <= 4_000_000);
    assert(dx * dx <= 16_000_000_000_000 && dx * dx >= 0) by (nonlinear_arith)
        requires
            -4_000_000 <= dx <= 4_000_000,
    ;
    assert(dy * dy <= 16_000_000_000_000 && dy * dy >= 0) by (nonlinear_arith)
        requires
            -4_000_000 <= dy <= 4_000_000,
    ;
}

} // verus!
