//! Fixed-point arithmetic shared by the simulation: clamping into the
//! representable world, division rounded toward zero, and integer square
//! roots.
use vstd::prelude::*;

verus! {

/// Fixed-point steps per unit of length or mass.
pub const SCALE: i64 = 1000;

/// Largest magnitude of a coordinate; positions saturate at this bound.
pub const COORD_LIMIT: i64 = 1_000_000_000_000_000_000;

/// Largest magnitude of a mass (radius) that a spawn may request.
pub const MASS_LIMIT: i64 = 1_000_000_000_000;

/// Saturates a coordinate into `[-COORD_LIMIT, COORD_LIMIT]`.
pub open spec fn clamp_coord(v: int) -> int {
    if v < -COORD_LIMIT {
        -COORD_LIMIT
    } else if v > COORD_LIMIT {
        COORD_LIMIT as int
    } else {
        v
    }
}

pub open spec fn coord_ok(v: i64) -> bool {
    -COORD_LIMIT <= v <= COORD_LIMIT
}

pub open spec fn abs(v: int) -> nat {
    if v >= 0 {
        v as nat
    } else {
        (-v) as nat
    }
}

/// Quotient rounded toward zero, as Rust's `/` rounds.
pub open spec fn div_toward_zero(a: int, b: int) -> int {
    let q = abs(a) / abs(b);
    if (a >= 0) == (b > 0) || q == 0 {
        q as int
    } else {
        -(q as int)
    }
}

/// `d` is the floor of the square root of `v`.
pub open spec fn is_floor_sqrt(d: int, v: int) -> bool {
    0 <= d && d * d <= v < (d + 1) * (d + 1)
}

pub open spec fn floor_sqrt(v: int) -> int {
    choose|d: int| is_floor_sqrt(d, v)
}

pub proof fn lemma_floor_sqrt_unique(d: int, v: int)
    requires
        is_floor_sqrt(d, v),
    ensures
        floor_sqrt(v) == d,
{
    let e = floor_sqrt(v);
    assert(is_floor_sqrt(e, v));
    if e < d {
        assert((e + 1) * (e + 1) <= d * d) by (nonlinear_arith)
            requires
                0 <= e,
                e + 1 <= d,
        ;
    } else if e > d {
        assert((d + 1) * (d + 1) <= e * e) by (nonlinear_arith)
            requires
                0 <= d,
                d + 1 <= e,
        ;
    }
}

/// Saturates a wide intermediate value into the world's coordinate range.
pub fn clamp_to_world(v: i128) -> (r: i64)
    ensures
        r == clamp_coord(v as int),
        coord_ok(r),
{
    if v < -(COORD_LIMIT as i128) {
        -COORD_LIMIT
    } else if v > COORD_LIMIT as i128 {
        COORD_LIMIT
    } else {
        v as i64
    }
}

/// `a / b` rounded toward zero, for operands whose magnitudes fit in 126 bits.
pub fn div_round_to_zero(a: i128, b: i128) -> (r: i128)
    requires
        b != 0,
        -0x3fff_ffff_ffff_ffff_ffff_ffff_ffff_ffff <= a <= 0x3fff_ffff_ffff_ffff_ffff_ffff_ffff_ffff,
        -0x3fff_ffff_ffff_ffff_ffff_ffff_ffff_ffff <= b <= 0x3fff_ffff_ffff_ffff_ffff_ffff_ffff_ffff,
    ensures
        r == div_toward_zero(a as int, b as int),
        abs(r as int) <= abs(a as int),
{
    let ua: u128 = if a >= 0 {
        a as u128
    } else {
        (-a) as u128
    };
    let ub: u128 = if b >= 0 {
        b as u128
    } else {
        (-b) as u128
    };
    let q: u128 = ua / ub;
    assert(q <= ua) by (nonlinear_arith)
        requires
            q == ua / ub,
            ub >= 1,
    ;
    if (a >= 0) == (b > 0) || q == 0 {
        q as i128
    } else {
        -(q as i128)
    }
}

/// Floor of the square root of `v`, for `v` below `bound * bound`.
pub fn floor_sqrt_below(v: u128, bound: u64) -> (d: u64)
    requires
        v < (bound as int) * (bound as int),
    ensures
        d == floor_sqrt(v as int),
        d < bound,
{
    let mut lo: u64 = 0;
    let mut hi: u64 = bound;
    while hi - lo > 1
        invariant
            lo < hi <= bound,
            (lo as int) * (lo as int) <= v,
            v < (hi as int) * (hi as int),
        decreases hi - lo,
    {
        let mid: u64 = lo + (hi - lo) / 2;
        assert(lo < mid < hi);
        assert((mid as int) * (mid as int) <= 0xffff_ffff_ffff_ffff * 0xffff_ffff_ffff_ffff)
            by (nonlinear_arith)
            requires
                mid <= 0xffff_ffff_ffff_ffffu64,
        ;
        let sq: u128 = (mid as u128) * (mid as u128);
        if sq <= v {
            lo = mid;
        } else {
            hi = mid;
        }
    }
    assert(hi == lo + 1);
    proof {
        lemma_floor_sqrt_unique(lo as int, v as int);
    }
    lo
}

} // verus!
