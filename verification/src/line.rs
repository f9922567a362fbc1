//! Minor arcs of great circles, their axis-aligned bounding envelopes in the
//! projected space, and a conservative point-to-arc distance for indexing
//! path segments.

use crate::earth::{
    arc_normal, arc_normal_of, cross_track_mm, project, project_of, vec_dist_mm, vdist_of,
    xtrack_of, Coord, MAX_GEODESIC_MM,
};
use crate::vect::{bounded, norm_sq, spec_cross, spec_dot, IVec3, SCALE};
use vstd::arithmetic::div_mod::{
    lemma_div_is_ordered, lemma_div_pos_is_pos, lemma_multiply_divide_lt,
};
use vstd::arithmetic::mul::{lemma_mul_inequality, lemma_mul_is_associative, lemma_mul_is_commutative};
use vstd::prelude::*;

verus! {

/// The Earth's mean radius in millimetres, as the geodesy library has it.
pub const EARTH_RADIUS_MM: u64 = 6_371_000_800;

/// Absolute values below this count as zero when the side indicators `ms`
/// and `me` are tested: the indicators carry three powers of [`SCALE`], and
/// this allows for the rounding of the projected vectors they are built from.
pub const SIDE_EPS: i128 = 100_000_000_000_000_000;

/// Rearranging a product of two products: swap the second factors.
proof fn lemma_mul_pair(p: int, q: int, r: int, t: int)
    ensures
        (p * q) * (r * t) == (p * t) * (r * q),
{
    lemma_mul_is_associative(p * q, r, t);
    lemma_mul_is_commutative(p * q, r);
    lemma_mul_is_associative(r, p, q);
    lemma_mul_is_associative(r * p, q, t);
    lemma_mul_is_associative(p * t, r, q);
    lemma_mul_is_commutative(p * t, r);
    lemma_mul_is_associative(r, p, t);
    lemma_mul_is_associative(r * p, t, q);
    lemma_mul_is_commutative(t, q);
}

/// The square of a product is the product of the squares.
proof fn lemma_sq_of_mul(p: int, q: int)
    ensures
        (p * q) * (p * q) == p * p * (q * q),
{
    lemma_mul_pair(p, q, q, p);
    lemma_mul_is_commutative(q, p);
    lemma_mul_is_commutative(p * p, q * q);
    lemma_mul_is_commutative(q * q, p * p);
}

/// Expanding the square of a difference.
proof fn lemma_sq_diff(x: int, y: int)
    ensures
        (x - y) * (x - y) == x * x - 2 * (x * y) + y * y,
{
    assert((x - y) * (x - y) == x * x - 2 * (x * y) + y * y) by (nonlinear_arith);
}

/// The square of one cross-product component.
proof fn lemma_cross_sq(u1: int, v1: int, u2: int, v2: int)
    ensures
        (u1 * v2 - u2 * v1) * (u1 * v2 - u2 * v1) == u1 * u1 * (v2 * v2) + u2 * u2 * (v1 * v1) - 2
            * ((u1 * v1) * (u2 * v2)),
{
    lemma_sq_diff(u1 * v2, u2 * v1);
    lemma_sq_of_mul(u1, v2);
    lemma_sq_of_mul(u2, v1);
    lemma_mul_pair(u1, v2, u2, v1);
}

/// Lagrange's identity in three dimensions: the product of squared norms
/// is the squared dot product plus the squared norm of the cross product.
proof fn lemma_lagrange(a: IVec3, b: IVec3)
    ensures
        norm_sq(a) * norm_sq(b) - spec_dot(a, b) * spec_dot(a, b) == ({
            let (c1, c2, c3) = spec_cross(a, b);
            c1 * c1 + c2 * c2 + c3 * c3
        }),
{
    let a1 = a.x as int;
    let a2 = a.y as int;
    let a3 = a.z as int;
    let b1 = b.x as int;
    let b2 = b.y as int;
    let b3 = b.z as int;
    let p1 = a1 * b1;
    let p2 = a2 * b2;
    let p3 = a3 * b3;
    // Squares of the cross product's components.
    lemma_cross_sq(a2, b2, a3, b3);
    lemma_cross_sq(a3, b3, a1, b1);
    lemma_cross_sq(a1, b1, a2, b2);
    assert((a3 * b3) * (a1 * b1) == (a1 * b1) * (a3 * b3)) by (nonlinear_arith);
    // Square of the dot product.
    assert((p1 + p2 + p3) * (p1 + p2 + p3) == p1 * p1 + p2 * p2 + p3 * p3 + 2 * (p1 * p2) + 2 * (p1
        * p3) + 2 * (p2 * p3)) by (nonlinear_arith);
    assert(p1 * p1 == a1 * a1 * (b1 * b1)) by (nonlinear_arith)
        requires
            p1 == a1 * b1,
    ;
    assert(p2 * p2 == a2 * a2 * (b2 * b2)) by (nonlinear_arith)
        requires
            p2 == a2 * b2,
    ;
    assert(p3 * p3 == a3 * a3 * (b3 * b3)) by (nonlinear_arith)
        requires
            p3 == a3 * b3,
    ;
    // The product of the squared norms, distributed.
    let bb = b1 * b1 + b2 * b2 + b3 * b3;
    assert((a1 * a1 + a2 * a2 + a3 * a3) * bb == a1 * a1 * bb + a2 * a2 * bb + a3 * a3 * bb)
        by (nonlinear_arith);
    assert(a1 * a1 * bb == a1 * a1 * (b1 * b1) + a1 * a1 * (b2 * b2) + a1 * a1 * (b3 * b3))
        by (nonlinear_arith)
        requires
            bb == b1 * b1 + b2 * b2 + b3 * b3,
    ;
    assert(a2 * a2 * bb == a2 * a2 * (b1 * b1) + a2 * a2 * (b2 * b2) + a2 * a2 * (b3 * b3))
        by (nonlinear_arith)
        requires
            bb == b1 * b1 + b2 * b2 + b3 * b3,
    ;
    assert(a3 * a3 * bb == a3 * a3 * (b1 * b1) + a3 * a3 * (b2 * b2) + a3 * a3 * (b3 * b3))
        by (nonlinear_arith)
        requires
            bb == b1 * b1 + b2 * b2 + b3 * b3,
    ;
}

/// The dot product of two vectors is at most the product of their norms.
pub proof fn lemma_cauchy_schwarz(a: IVec3, b: IVec3)
    ensures
        spec_dot(a, b) * spec_dot(a, b) <= norm_sq(a) * norm_sq(b),
{
    lemma_lagrange(a, b);
    let (c1, c2, c3) = spec_cross(a, b);
    assert(c1 * c1 >= 0) by (nonlinear_arith);
    assert(c2 * c2 >= 0) by (nonlinear_arith);
    assert(c3 * c3 >= 0) by (nonlinear_arith);
}

/// The squared norm of a cross product is at most the product of the squared
/// norms.
pub proof fn lemma_cross_norm_bound(a: IVec3, b: IVec3, c: IVec3)
    requires
        (c.x as int, c.y as int, c.z as int) == spec_cross(a, b),
    ensures
        norm_sq(c) <= norm_sq(a) * norm_sq(b),
{
    lemma_lagrange(a, b);
    let d = spec_dot(a, b);
    assert(d * d >= 0) by (nonlinear_arith);
}

/// Squared norms are never negative.
pub proof fn lemma_norm_sq_nonneg(v: IVec3)
    ensures
        0 <= norm_sq(v),
{
    assert((v.x as int) * (v.x as int) + (v.y as int) * (v.y as int) + (v.z as int) * (v.z as int)
        >= 0) by (nonlinear_arith);
}

/// Each component of a vector is bounded by a bound on its norm.
pub proof fn lemma_component_bound(v: IVec3, b: int)
    requires
        0 <= b,
        norm_sq(v) <= b * b,
    ensures
        bounded(v, b),
{
    assert(-b <= v.x <= b && -b <= v.y <= b && -b <= v.z <= b) by (nonlinear_arith)
        requires
            (v.x as int) * (v.x as int) + (v.y as int) * (v.y as int) + (v.z as int) * (
            v.z as int) <= b * b,
            0 <= b,
    ;
}

/// Dot product of a cross-product triple with a vector.
pub open spec fn tdot(a: (int, int, int), v: IVec3) -> int {
    a.0 * v.x + a.1 * v.y + a.2 * v.z
}

/// Squared norm of a cross-product triple.
pub open spec fn tnorm_sq(a: (int, int, int)) -> int {
    a.0 * a.0 + a.1 * a.1 + a.2 * a.2
}

/// Division of a signed value by [`SCALE`], toward zero.
pub open spec fn spec_tdiv_s(x: int) -> int {
    if x >= 0 {
        x / (SCALE as int)
    } else {
        -((-x) / (SCALE as int))
    }
}

/// Divide by [`SCALE`], rounding toward zero.
fn tdiv_s(x: i128) -> (r: i64)
    requires
        -100_000_000_000_000_000 <= x <= 100_000_000_000_000_000,
    ensures
        r as int == spec_tdiv_s(x as int),
{
    if x >= 0 {
        proof {
            lemma_div_pos_is_pos(x as int, SCALE as int);
            assert((x as int) < (SCALE as int) * 1_000_000_001) by (nonlinear_arith)
                requires
                    x as int <= 100_000_000_000_000_000,
            ;
            lemma_multiply_divide_lt(x as int, SCALE as int, 1_000_000_001);
        }
        ((x as u128) / (SCALE as u128)) as i64
    } else {
        let m = -x;
        proof {
            lemma_div_pos_is_pos(m as int, SCALE as int);
            assert((m as int) < (SCALE as int) * 1_000_000_001) by (nonlinear_arith)
                requires
                    m as int <= 100_000_000_000_000_000,
            ;
            lemma_multiply_divide_lt(m as int, SCALE as int, 1_000_000_001);
        }
        let q = ((m as u128) / (SCALE as u128)) as i64;
        -q
    }
}

/// A dot product of two unit-scaled vectors, divided back to one power of
/// [`SCALE`], stays within `[-SCALE, SCALE]`.
proof fn lemma_height_range(d: IVec3, v: IVec3)
    requires
        norm_sq(d) <= (SCALE as int) * (SCALE as int),
        norm_sq(v) <= (SCALE as int) * (SCALE as int) + 2 * (SCALE as int),
    ensures
        -(SCALE as int) <= spec_tdiv_s(spec_dot(d, v)) <= SCALE as int,
        -100_000_000_000_000_000 <= spec_dot(d, v) <= 100_000_000_000_000_000,
{
    let s = SCALE as int;
    lemma_cauchy_schwarz(d, v);
    lemma_norm_sq_nonneg(d);
    lemma_norm_sq_nonneg(v);
    assert(norm_sq(d) * norm_sq(v) <= (s * s) * (s * s + 2 * s)) by (nonlinear_arith)
        requires
            0 <= norm_sq(d) <= s * s,
            0 <= norm_sq(v) <= s * s + 2 * s,
            s == SCALE as int,
    ;
    assert((s * s) * (s * s + 2 * s) < (s * s + s) * (s * s + s)) by (nonlinear_arith)
        requires
            s == SCALE as int,
    ;
    let dd = spec_dot(d, v);
    assert(-(s * s + s) < dd < s * s + s) by (nonlinear_arith)
        requires
            dd * dd < (s * s + s) * (s * s + s),
            0 < s,
    ;
    let m = if dd >= 0 {
        dd
    } else {
        -dd
    };
    assert(m < s * (s + 1)) by (nonlinear_arith)
        requires
            m < s * s + s,
    ;
    lemma_multiply_divide_lt(m, s, s + 1);
    lemma_div_pos_is_pos(m, s);
}

/// What [`Line::extrema`] returns for a direction: `lo` and `hi` bound the
/// endpoint heights and stay within `[-SCALE, SCALE]`, and they follow the
/// exact policy. With m orthogonal to the plane normal and the direction,
/// ms and me tell on which side of the plane through m the endpoints lie.
/// Unless the arc strictly crosses that plane — opposite sides, clear of
/// the zero band — the extrema are the endpoint heights; otherwise the
/// extremum on the crossing side widens to the great circle's height, the
/// norm of direction x normal, rounded down.
pub open spec fn extrema_ok(l: Line, direction: IVec3, lo: int, hi: int) -> bool {
    let m = spec_cross(l.spec_normal(), direction);
    let ms = tdot(m, l.spec_start_vec());
    let me = tdot(m, l.spec_end_vec());
    let sh = spec_tdiv_s(spec_dot(direction, l.spec_start_vec()));
    let eh = spec_tdiv_s(spec_dot(direction, l.spec_end_vec()));
    let eps = SIDE_EPS as int;
    &&& -(SCALE as int) <= lo
    &&& hi <= SCALE as int
    &&& lo <= sh <= hi
    &&& lo <= eh <= hi
    &&& if (ms >= 0 && me >= 0) || (ms <= 0 && me <= 0) || (-eps <= ms && ms <= eps) || (-eps <= me
        && me <= eps) {
        lo == vstd::math::min(sh, eh) && hi == vstd::math::max(sh, eh)
    } else if ms < 0 {
        lo == vstd::math::min(sh, eh) && exists|hm: int|
            0 <= hm && #[trigger] (hm * hm) <= tnorm_sq(spec_cross(direction, l.spec_normal()))
                && tnorm_sq(spec_cross(direction, l.spec_normal())) < (hm + 1) * (hm + 1) && hi
                == vstd::math::max(vstd::math::max(sh, eh), hm / (SCALE as int))
    } else {
        hi == vstd::math::max(sh, eh) && exists|hm: int|
            0 <= hm && #[trigger] (hm * hm) <= tnorm_sq(spec_cross(direction, l.spec_normal()))
                && tnorm_sq(spec_cross(direction, l.spec_normal())) < (hm + 1) * (hm + 1) && lo
                == vstd::math::min(vstd::math::min(sh, eh), -(hm / (SCALE as int)))
    }
}

/// A minor arc: the shorter great-circle path between two coordinates,
/// carried with the scaled n-vectors of its endpoints and the scaled unit
/// normal of its plane.
pub struct Line {
    start: Coord,
    end: Coord,
    pa: IVec3,
    pb: IVec3,
    n: IVec3,
}

impl Line {
    /// The stored vectors are the endpoint projections, and the normal is at
    /// most unit length.
    pub closed spec fn wf(&self) -> bool {
        &&& (self.pa.x as int, self.pa.y as int, self.pa.z as int) == project_of(
            self.start.lat_e7 as int,
            self.start.lon_e7 as int,
        )
        &&& (self.pb.x as int, self.pb.y as int, self.pb.z as int) == project_of(
            self.end.lat_e7 as int,
            self.end.lon_e7 as int,
        )
        &&& bounded(self.pa, SCALE as int)
        &&& bounded(self.pb, SCALE as int)
        &&& norm_sq(self.pa) <= (SCALE as int) * (SCALE as int) + 2 * (SCALE as int)
        &&& norm_sq(self.pb) <= (SCALE as int) * (SCALE as int) + 2 * (SCALE as int)
        &&& bounded(self.n, SCALE as int)
        &&& norm_sq(self.n) <= (SCALE as int) * (SCALE as int) + 2 * (SCALE as int)
    }

    /// The start coordinate.
    pub closed spec fn spec_start(&self) -> Coord {
        self.start
    }

    /// The end coordinate.
    pub closed spec fn spec_end(&self) -> Coord {
        self.end
    }

    /// The projected start point, as seen by contracts.
    pub closed spec fn spec_start_vec(&self) -> IVec3 {
        self.pa
    }

    /// The scaled unit normal of the arc's plane, as seen by contracts.
    pub closed spec fn spec_normal(&self) -> IVec3 {
        self.n
    }

    /// The projected end point, as seen by contracts.
    pub closed spec fn spec_end_vec(&self) -> IVec3 {
        self.pb
    }

    /// The projected start point.
    pub fn start_vec(&self) -> (r: IVec3)
        ensures
            r == self.spec_start_vec(),
    {
        self.pa
    }

    /// The projected end point.
    pub fn end_vec(&self) -> (r: IVec3)
        ensures
            r == self.spec_end_vec(),
    {
        self.pb
    }

    /// Build the minor arc between two coordinates, keeping the projected
    /// endpoints and the unit normal of the arc's plane.
    pub fn new(start: Coord, end: Coord) -> (r: Line)
        ensures
            r.wf(),
            r.spec_start() == start,
            r.spec_end() == end,
            r.spec_start_vec().x as int == project_of(start.lat_e7 as int, start.lon_e7 as int).0,
            r.spec_start_vec().y as int == project_of(start.lat_e7 as int, start.lon_e7 as int).1,
            r.spec_start_vec().z as int == project_of(start.lat_e7 as int, start.lon_e7 as int).2,
            r.spec_end_vec().x as int == project_of(end.lat_e7 as int, end.lon_e7 as int).0,
            r.spec_end_vec().y as int == project_of(end.lat_e7 as int, end.lon_e7 as int).1,
            r.spec_end_vec().z as int == project_of(end.lat_e7 as int, end.lon_e7 as int).2,
            (r.spec_normal().x as int, r.spec_normal().y as int, r.spec_normal().z as int)
                == arc_normal_of(
                start.lat_e7 as int,
                start.lon_e7 as int,
                end.lat_e7 as int,
                end.lon_e7 as int,
            ),
    {
        let pa = project(start);
        let pb = project(end);
        let n = arc_normal(start, end);
        Line { start, end, pa, pb, n }
    }

    /// The minimum and maximum heights, along `direction`, of points on this
    /// arc. `direction` must be of at most unit length (scaled); the axis
    /// vectors [`unit_x`], [`unit_y`] and [`unit_z`] are exactly unit length.
    ///
    /// The arc's extreme heights occur at its endpoints unless its plane
    /// strictly crosses the plane through the centre with normal `direction`
    /// between them; in that case the extremum on the crossing side is
    /// widened to the height of the whole great circle, `|direction x n|`.
    /// Both results always cover the endpoint heights and stay within
    /// `[-SCALE, SCALE]`.
    pub fn extrema(&self, direction: IVec3) -> (r: (i64, i64))
        requires
            self.wf(),
            norm_sq(direction) <= (SCALE as int) * (SCALE as int),
        ensures
            r.0 <= r.1,
            extrema_ok(*self, direction, r.0 as int, r.1 as int),
    {
        proof {
            lemma_norm_sq_nonneg(self.n);
            lemma_norm_sq_nonneg(direction);
            assert((SCALE as int) * (SCALE as int) > 0) by (nonlinear_arith);
            lemma_component_bound(direction, SCALE as int);
            lemma_height_range(direction, self.pa);
            lemma_height_range(direction, self.pb);
        }
        // m is orthogonal to the normal and the direction.
        let m = self.n.cross(direction);
        proof {
            lemma_cross_component_bound(self.n, direction, m);
        }
        // ms and me tell on which side of the plane with normal m the start
        // and end points lie.
        let ms = m.dot(self.pa);
        let me = m.dot(self.pb);
        let start_height = tdiv_s(self.pa.dot(direction));
        let end_height = tdiv_s(self.pb.dot(direction));
        proof {
            assert(spec_dot(self.pa, direction) == spec_dot(direction, self.pa));
            assert(spec_dot(self.pb, direction) == spec_dot(direction, self.pb));
        }
        let (min_p, max_p) = if start_height < end_height {
            (start_height, end_height)
        } else {
            (end_height, start_height)
        };
        let same_side = (ms >= 0 && me >= 0) || (ms <= 0 && me <= 0);
        if same_side || (-SIDE_EPS <= ms && ms <= SIDE_EPS) || (-SIDE_EPS <= me && me <= SIDE_EPS) {
            (min_p, max_p)
        } else {
            // The arc crosses the bisecting plane strictly between its
            // endpoints: the extremum on the crossing side is the height of
            // the great circle itself.
            let dn = direction.cross(self.n);
            let hm = dn.norm();
            proof {
                let s = SCALE as int;
                lemma_cross_norm_bound(direction, self.n, dn);
                assert(norm_sq(direction) * norm_sq(self.n) <= (s * s) * (s * s + 2 * s))
                    by (nonlinear_arith)
                    requires
                        0 <= norm_sq(direction) <= s * s,
                        0 <= norm_sq(self.n) <= s * s + 2 * s,
                ;
                assert((s * s) * (s * s + 2 * s) < (s * s + s) * (s * s + s)) by (nonlinear_arith)
                    requires
                        s == SCALE as int,
                ;
                assert((hm as int) < s * s + s) by (nonlinear_arith)
                    requires
                        0 <= hm as int,
                        (hm as int) * (hm as int) < (s * s + s) * (s * s + s),
                        0 < s,
                ;
                assert((hm as int) < s * (s + 1)) by (nonlinear_arith)
                    requires
                        (hm as int) < s * s + s,
                ;
                lemma_multiply_divide_lt(hm as int, s, s + 1);
                lemma_div_pos_is_pos(hm as int, s);
            }
            let height = ((hm as u64) / (SCALE as u64)) as i64;
            if ms < 0 {
                let top = if height > max_p {
                    height
                } else {
                    max_p
                };
                (min_p, top)
            } else {
                let bottom = if -height < min_p {
                    -height
                } else {
                    min_p
                };
                (bottom, max_p)
            }
        }
    }

    /// The axis-aligned bounding envelope of this arc in the projected
    /// space: on each axis, exactly the extrema of the arc along that axis.
    pub fn envelope(&self) -> (r: Envelope)
        requires
            self.wf(),
        ensures
            bounded(r.min, SCALE as int),
            bounded(r.max, SCALE as int),
            r.min.x <= r.max.x && r.min.y <= r.max.y && r.min.z <= r.max.z,
            extrema_ok(
                *self,
                (IVec3 { x: SCALE as i64, y: 0i64, z: 0i64 }),
                r.min.x as int,
                r.max.x as int,
            ),
            extrema_ok(
                *self,
                (IVec3 { x: 0i64, y: SCALE as i64, z: 0i64 }),
                r.min.y as int,
                r.max.y as int,
            ),
            extrema_ok(
                *self,
                (IVec3 { x: 0i64, y: 0i64, z: SCALE as i64 }),
                r.min.z as int,
                r.max.z as int,
            ),
    {
        let (x_min, x_max) = self.extrema(unit_x());
        let (y_min, y_max) = self.extrema(unit_y());
        let (z_min, z_max) = self.extrema(unit_z());
        Envelope {
            min: IVec3 { x: x_min, y: y_min, z: z_min },
            max: IVec3 { x: x_max, y: y_max, z: z_max },
        }
    }

    /// A conservative squared distance from a projected query point to this
    /// arc, scaled like the point index's own squared distances: the least
    /// of the cross-track distance to the arc's great circle and the
    /// distances to its endpoints, divided by the Earth's radius and
    /// squared. A lower bound usable for index pruning, not for final
    /// ranking.
    #[verifier::spinoff_prover]
    pub fn distance_2(&self, point: IVec3) -> (r: u64)
        requires
            self.wf(),
        ensures
            r as int == chord_ratio_sq(
                min3(
                    xtrack_of(
                        point.x as int,
                        point.y as int,
                        point.z as int,
                        self.spec_start_vec().x as int,
                        self.spec_start_vec().y as int,
                        self.spec_start_vec().z as int,
                        self.spec_end_vec().x as int,
                        self.spec_end_vec().y as int,
                        self.spec_end_vec().z as int,
                    ),
                    vdist_of(
                        point.x as int,
                        point.y as int,
                        point.z as int,
                        self.spec_start_vec().x as int,
                        self.spec_start_vec().y as int,
                        self.spec_start_vec().z as int,
                    ),
                    vdist_of(
                        point.x as int,
                        point.y as int,
                        point.z as int,
                        self.spec_end_vec().x as int,
                        self.spec_end_vec().y as int,
                        self.spec_end_vec().z as int,
                    ),
                ),
            ),
    {
        let dt = cross_track_mm(point, self.pa, self.pb);
        let ds = vec_dist_mm(point, self.pa);
        let de = vec_dist_mm(point, self.pb);
        let mut d = dt;
        if ds < d {
            d = ds;
        }
        if de < d {
            d = de;
        }
        let num = (d as u128) * (SCALE as u128);
        let scaled = num / (EARTH_RADIUS_MM as u128);
        proof {
            let s = SCALE as int;
            let rad = EARTH_RADIUS_MM as int;
            lemma_mul_inequality(d as int, MAX_GEODESIC_MM as int, s);
            lemma_div_is_ordered(num as int, (MAX_GEODESIC_MM as int) * s, rad);
            assert((MAX_GEODESIC_MM as int) * s < rad * 400_000_000);
            lemma_multiply_divide_lt((MAX_GEODESIC_MM as int) * s, rad, 400_000_000);
            lemma_div_pos_is_pos(num as int, rad);
            assert((scaled as int) * (scaled as int) < 400_000_000int * 400_000_000int)
                by (nonlinear_arith)
                requires
                    0 <= scaled as int && (scaled as int) < 400_000_000,
            ;
        }
        ((scaled * scaled) as u64)
    }
}

/// The least of three distances.
pub open spec fn min3(a: int, b: int, c: int) -> int {
    if a <= b && a <= c {
        a
    } else if b <= c {
        b
    } else {
        c
    }
}

/// A millimetre distance divided by the Earth's radius, scaled by [`SCALE`]
/// and squared: the unit in which the spatial index compares distances.
pub open spec fn chord_ratio_sq(d_mm: int) -> int {
    let q = (d_mm * (SCALE as int)) / (EARTH_RADIUS_MM as int);
    q * q
}

/// An axis-aligned box in the projected space.
#[derive(Clone, Copy, PartialEq, Eq, Structural, Debug)]
pub struct Envelope {
    pub min: IVec3,
    pub max: IVec3,
}

/// The unit vector of the first axis.
pub fn unit_x() -> (r: IVec3)
    ensures
        r == (IVec3 { x: SCALE as i64, y: 0i64, z: 0i64 }),
        norm_sq(r) == (SCALE as int) * (SCALE as int),
{
    IVec3 { x: SCALE, y: 0, z: 0 }
}

/// The unit vector of the second axis.
pub fn unit_y() -> (r: IVec3)
    ensures
        r == (IVec3 { x: 0i64, y: SCALE as i64, z: 0i64 }),
        norm_sq(r) == (SCALE as int) * (SCALE as int),
{
    IVec3 { x: 0, y: SCALE, z: 0 }
}

/// The unit vector of the third axis.
pub fn unit_z() -> (r: IVec3)
    ensures
        r == (IVec3 { x: 0i64, y: 0i64, z: SCALE as i64 }),
        norm_sq(r) == (SCALE as int) * (SCALE as int),
{
    IVec3 { x: 0, y: 0, z: SCALE }
}


/// Components of a cross product of vectors bounded by [`SCALE`] fit well
/// under the dot product's bound.
proof fn lemma_cross_component_bound(a: IVec3, b: IVec3, c: IVec3)
    requires
        bounded(a, SCALE as int),
        bounded(b, SCALE as int),
        (c.x as int, c.y as int, c.z as int) == spec_cross(a, b),
    ensures
        bounded(c, 1_000_000_000_000_000_000),
{
    let s = SCALE as int;
    crate::vect::lemma_mul_bound(a.y as int, b.z as int, s, s);
    crate::vect::lemma_mul_bound(a.z as int, b.y as int, s, s);
    crate::vect::lemma_mul_bound(a.z as int, b.x as int, s, s);
    crate::vect::lemma_mul_bound(a.x as int, b.z as int, s, s);
    crate::vect::lemma_mul_bound(a.x as int, b.y as int, s, s);
    crate::vect::lemma_mul_bound(a.y as int, b.x as int, s, s);
}

} // verus!
