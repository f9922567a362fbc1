//! Fixed-point three-dimensional vectors.
//!
//! A point on the unit sphere is held as an integer vector whose components
//! are the real components multiplied by [`SCALE`] and rounded. All geometry
//! in this crate is done on such vectors with exact integer arithmetic.

use vstd::arithmetic::div_mod::lemma_fundamental_div_mod;
use vstd::prelude::*;

verus! {

/// The product of two values is bounded by the product of their bounds.
pub proof fn lemma_mul_bound(a: int, b: int, ca: int, cb: int)
    requires
        -ca <= a <= ca,
        -cb <= b <= cb,
    ensures
        -(ca * cb) <= a * b <= ca * cb,
{
    assert(-(ca * cb) <= a * b <= ca * cb) by (nonlinear_arith)
        requires
            -ca <= a <= ca,
            -cb <= b <= cb,
    ;
}

/// A square is never negative.
pub proof fn lemma_square_nonneg(a: int)
    ensures
        0 <= a * a,
{
    assert(0 <= a * a) by (nonlinear_arith);
}

/// Number of integer units that stand for 1.0 on the unit sphere.
pub const SCALE: i64 = 100_000_000;

/// Largest component magnitude admitted by the vector operations below.
/// Large enough for every vector this crate builds (components of cross
/// products of unit-scaled vectors stay under `2 * SCALE * SCALE`).
pub const COMP_BOUND: i64 = 1_000_000_000_000_000_000;

/// A three-dimensional vector with fixed-point components.
#[derive(Clone, Copy, PartialEq, Eq, Structural, Debug)]
pub struct IVec3 {
    pub x: i64,
    pub y: i64,
    pub z: i64,
}

/// All components of `v` are at most `b` in magnitude.
pub open spec fn bounded(v: IVec3, b: int) -> bool {
    -b <= v.x <= b && -b <= v.y <= b && -b <= v.z <= b
}

/// Squared Euclidean norm.
pub open spec fn norm_sq(v: IVec3) -> int {
    v.x * v.x + v.y * v.y + v.z * v.z
}

/// Dot product.
pub open spec fn spec_dot(a: IVec3, b: IVec3) -> int {
    a.x * b.x + a.y * b.y + a.z * b.z
}

/// Cross product (unscaled: the components are products of the inputs').
pub open spec fn spec_cross(a: IVec3, b: IVec3) -> (int, int, int) {
    (a.y * b.z - a.z * b.y, a.z * b.x - a.x * b.z, a.x * b.y - a.y * b.x)
}

impl IVec3 {
    /// Build a vector from its components.
    pub fn new(x: i64, y: i64, z: i64) -> (r: IVec3)
        ensures
            r == (IVec3 { x, y, z }),
    {
        IVec3 { x, y, z }
    }

    /// Dot product, exact in 128-bit arithmetic.
    pub fn dot(self, o: IVec3) -> (r: i128)
        requires
            bounded(self, COMP_BOUND as int),
            bounded(o, COMP_BOUND as int),
        ensures
            r as int == spec_dot(self, o),
    {
        proof {
            let cb = COMP_BOUND as int;
            lemma_mul_bound(self.x as int, o.x as int, cb, cb);
            lemma_mul_bound(self.y as int, o.y as int, cb, cb);
            lemma_mul_bound(self.z as int, o.z as int, cb, cb);
        }
        (self.x as i128) * (o.x as i128) + (self.y as i128) * (o.y as i128) + (self.z as i128)
            * (o.z as i128)
    }

    /// Cross product. The inputs must be small enough that every component
    /// product fits in 64 bits.
    pub fn cross(self, o: IVec3) -> (r: IVec3)
        requires
            bounded(self, 2_000_000_000),
            bounded(o, 2_000_000_000),
        ensures
            (r.x as int, r.y as int, r.z as int) == spec_cross(self, o),
            bounded(r, 8_000_000_000_000_000_000),
    {
        proof {
            let cb = 2_000_000_000int;
            lemma_mul_bound(self.y as int, o.z as int, cb, cb);
            lemma_mul_bound(self.z as int, o.y as int, cb, cb);
            lemma_mul_bound(self.z as int, o.x as int, cb, cb);
            lemma_mul_bound(self.x as int, o.z as int, cb, cb);
            lemma_mul_bound(self.x as int, o.y as int, cb, cb);
            lemma_mul_bound(self.y as int, o.x as int, cb, cb);
        }
        IVec3 {
            x: self.y * o.z - self.z * o.y,
            y: self.z * o.x - self.x * o.z,
            z: self.x * o.y - self.y * o.x,
        }
    }

    /// Euclidean norm, rounded down.
    pub fn norm(self) -> (r: i64)
        requires
            bounded(self, 2_000_000_000_000_000_000),
        ensures
            0 <= r,
            r * r <= norm_sq(self),
            norm_sq(self) < (r + 1) * (r + 1),
    {
        proof {
            let cb = 2_000_000_000_000_000_000int;
            lemma_mul_bound(self.x as int, self.x as int, cb, cb);
            lemma_mul_bound(self.y as int, self.y as int, cb, cb);
            lemma_mul_bound(self.z as int, self.z as int, cb, cb);
            lemma_square_nonneg(self.x as int);
            lemma_square_nonneg(self.y as int);
            lemma_square_nonneg(self.z as int);
        }
        let xx = (self.x as i128) * (self.x as i128);
        let yy = (self.y as i128) * (self.y as i128);
        let zz = (self.z as i128) * (self.z as i128);
        let s = (xx as u128) + (yy as u128) + (zz as u128);
        let r = isqrt(s);
        proof {
            assert(s as int == norm_sq(self));
            assert(norm_sq(self) <= 3 * (2_000_000_000_000_000_000 as int) * (
            2_000_000_000_000_000_000 as int)) by (nonlinear_arith)
                requires
                    bounded(self, 2_000_000_000_000_000_000),
            ;
            assert((r as int) * (r as int) < (4_000_000_000_000_000_000 as int) * (
            4_000_000_000_000_000_000 as int));
            assert(r < 4_000_000_000_000_000_000) by (nonlinear_arith)
                requires
                    (r as int) * (r as int) < (4_000_000_000_000_000_000 as int) * (
                    4_000_000_000_000_000_000 as int),
            ;
        }
        r as i64
    }
}

/// One more than the largest `u64` value, as a `u128`.
pub const TWO_POW_64: u128 = 18_446_744_073_709_551_616;

/// Integer square root, rounded down.
pub fn isqrt(s: u128) -> (r: u64)
    ensures
        (r as int) * (r as int) <= s as int,
        (s as int) < (r as int + 1) * (r as int + 1),
{
    if s == 0 {
        return 0;
    }
    let mut lo: u128 = 0;
    let mut hi: u128 = TWO_POW_64;
    // Invariant: lo * lo <= s < hi * hi.
    while hi - lo > 1
        invariant
            lo < hi <= TWO_POW_64,
            (lo as int) * (lo as int) <= s as int,
            (s as int) < (hi as int) * (hi as int),
        decreases hi - lo,
    {
        let mid = lo + (hi - lo) / 2;
        proof {
            assert((mid as int) * (mid as int) <= (TWO_POW_64 as int) * (TWO_POW_64 as int))
                by (nonlinear_arith)
                requires
                    0 <= mid <= TWO_POW_64,
            ;
        }
        if mid <= s / mid {
            proof {
                lemma_fundamental_div_mod(s as int, mid as int);
                assert((mid as int) * (mid as int) <= s as int) by (nonlinear_arith)
                    requires
                        mid as int <= (s as int) / (mid as int),
                        0 < mid as int,
                        s as int == (mid as int) * ((s as int) / (mid as int)) + (s as int) % (mid as int),
                        0 <= (s as int) % (mid as int),
                ;
            }
            lo = mid;
        } else {
            proof {
                lemma_fundamental_div_mod(s as int, mid as int);
                assert((s as int) < (mid as int) * (mid as int)) by (nonlinear_arith)
                    requires
                        (s as int) / (mid as int) < (mid as int),
                        0 < mid as int,
                        s as int == (mid as int) * ((s as int) / (mid as int)) + (s as int) % (mid as int),
                        (s as int) % (mid as int) < (mid as int),
                ;
            }
            hi = mid;
        }
    }
    lo as u64
}

} // verus!
