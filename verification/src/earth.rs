//! Coordinates on the Earth and the trusted bridge to the jord geodesy crate.
//!
//! The crate holds latitude and longitude in ten-millionths of a degree. What
//! only spherical trigonometry can compute — the unit n-vector of a
//! coordinate, the great-circle distance between two points, and the
//! cross-track distance to a great circle — is obtained from jord through the
//! trusted functions below; everything that reads those results is verified.

use crate::vect::{bounded, norm_sq, IVec3, SCALE};
use jord::spherical::{GreatCircle, MinorArc, Sphere};
use jord::{Angle, NVector, Vec3};
use vstd::prelude::*;

verus! {

/// Ten-millionths of a degree in one degree.
pub const E7: i64 = 10_000_000;

/// A pair of coordinates: latitude and longitude, both in ten-millionths of
/// a degree. Values outside the usual ranges are accepted and interpreted by
/// the underlying geodesy library (wrap-around).
#[derive(Clone, Copy, PartialEq, Eq, Structural, Debug)]
pub struct Coord {
    pub lat_e7: i64,
    pub lon_e7: i64,
}

impl Coord {
    /// Build a coordinate from latitude and longitude in ten-millionths of
    /// a degree.
    pub fn new(lat_e7: i64, lon_e7: i64) -> (r: Coord)
        ensures
            r == (Coord { lat_e7, lon_e7 }),
    {
        Coord { lat_e7, lon_e7 }
    }
}

/// Upper bound, in millimetres, of any great-circle distance on the Earth:
/// half the circumference, rounded up.
pub const MAX_GEODESIC_MM: u64 = 20_015_090_000;

/// The unit n-vector of a coordinate, scaled by [`SCALE`] and rounded:
/// the value that [`nvector_scaled`] returns.
pub uninterp spec fn project_of(lat_e7: int, lon_e7: int) -> (int, int, int);

/// The great-circle distance in millimetres between two coordinates:
/// the value that [`geodesic_mm`] returns.
pub uninterp spec fn geo_dist_of(a_lat: int, a_lon: int, b_lat: int, b_lon: int) -> int;

/// The great-circle distance in millimetres between the two points on the
/// Earth's surface nearest to the given scaled vectors: the value that
/// [`vec_dist_mm`] returns.
pub uninterp spec fn vdist_of(ax: int, ay: int, az: int, bx: int, by: int, bz: int) -> int;

/// The unit normal of the plane of the minor arc between two coordinates,
/// scaled by [`SCALE`] and rounded: the value that [`arc_normal`] returns.
pub uninterp spec fn arc_normal_of(a_lat: int, a_lon: int, b_lat: int, b_lon: int) -> (
    int,
    int,
    int,
);

/// The magnitude in millimetres of the cross-track distance from the surface
/// point nearest the scaled vector `q` to the great circle through the
/// surface points nearest the scaled vectors `a` and `b`: the value that
/// [`cross_track_mm`] returns.
pub uninterp spec fn xtrack_of(
    qx: int,
    qy: int,
    qz: int,
    ax: int,
    ay: int,
    az: int,
    bx: int,
    by: int,
    bz: int,
) -> int;

/// Relies on jord's `NVector::from_lat_long_degrees`: the unit-length
/// n-vector of the coordinate. Scaled by [`SCALE`] and rounded to the nearest
/// integer, so every component lies in `[-SCALE, SCALE]` and the squared norm
/// differs from `SCALE^2` by at most `2 * SCALE` in either direction.
#[verifier::external_body]
pub(crate) fn nvector_scaled(c: Coord) -> (r: IVec3)
    ensures
        (r.x as int, r.y as int, r.z as int) == project_of(c.lat_e7 as int, c.lon_e7 as int),
        bounded(r, SCALE as int),
        norm_sq(r) <= (SCALE as int) * (SCALE as int) + 2 * (SCALE as int),
        norm_sq(r) >= (SCALE as int) * (SCALE as int) - 2 * (SCALE as int),
{
    let lat = Angle::from_degrees(c.lat_e7 as _) / Angle::from_degrees(E7 as _);
    let lon = Angle::from_degrees(c.lon_e7 as _) / Angle::from_degrees(E7 as _);
    let v = NVector::from_lat_long_degrees(lat, lon).as_vec3();
    IVec3 {
        x: v.x().mul_add(SCALE as _, 0 as _).round() as i64,
        y: v.y().mul_add(SCALE as _, 0 as _).round() as i64,
        z: v.z().mul_add(SCALE as _, 0 as _).round() as i64,
    }
}

/// Relies on jord's `Sphere::distance` on `Sphere::EARTH`: the great-circle
/// distance between the two coordinates, which is the central angle (in
/// `[0, pi]`) times the Earth's radius; returned rounded to millimetres.
#[verifier::external_body]
pub(crate) fn geodesic_mm(a: Coord, b: Coord) -> (r: u64)
    ensures
        r as int == geo_dist_of(a.lat_e7 as int, a.lon_e7 as int, b.lat_e7 as int, b.lon_e7 as int),
        r <= MAX_GEODESIC_MM,
{
    let alat = Angle::from_degrees(a.lat_e7 as _) / Angle::from_degrees(E7 as _);
    let alon = Angle::from_degrees(a.lon_e7 as _) / Angle::from_degrees(E7 as _);
    let blat = Angle::from_degrees(b.lat_e7 as _) / Angle::from_degrees(E7 as _);
    let blon = Angle::from_degrees(b.lon_e7 as _) / Angle::from_degrees(E7 as _);
    let d = Sphere::EARTH.distance(
        NVector::from_lat_long_degrees(alat, alon),
        NVector::from_lat_long_degrees(blat, blon),
    );
    let metres = d / jord::Length::from_metres(1 as _);
    metres.mul_add(1000 as _, 0 as _).round() as u64
}

/// Relies on jord's `MinorArc::new` and `MinorArc::normal`: the unit-length
/// normal of the plane of the minor arc between the two coordinates — an
/// arbitrary orthogonal vector when they coincide or are antipodal. Scaled
/// by [`SCALE`] and rounded, so every component lies in `[-SCALE, SCALE]`
/// and the squared norm differs from `SCALE^2` by at most `2 * SCALE`.
#[verifier::external_body]
pub(crate) fn arc_normal(a: Coord, b: Coord) -> (r: IVec3)
    ensures
        (r.x as int, r.y as int, r.z as int) == arc_normal_of(
            a.lat_e7 as int,
            a.lon_e7 as int,
            b.lat_e7 as int,
            b.lon_e7 as int,
        ),
        bounded(r, SCALE as int),
        norm_sq(r) <= (SCALE as int) * (SCALE as int) + 2 * (SCALE as int),
{
    let e = Angle::from_degrees(E7 as _);
    let alat = Angle::from_degrees(a.lat_e7 as _) / e;
    let alon = Angle::from_degrees(a.lon_e7 as _) / e;
    let blat = Angle::from_degrees(b.lat_e7 as _) / e;
    let blon = Angle::from_degrees(b.lon_e7 as _) / e;
    let n = MinorArc::new(
        NVector::from_lat_long_degrees(alat, alon),
        NVector::from_lat_long_degrees(blat, blon),
    ).normal();
    IVec3 {
        x: n.x().mul_add(SCALE as _, 0 as _).round() as i64,
        y: n.y().mul_add(SCALE as _, 0 as _).round() as i64,
        z: n.z().mul_add(SCALE as _, 0 as _).round() as i64,
    }
}

/// Relies on jord's `Sphere::distance` on `Sphere::EARTH`, applied to the
/// unit vectors nearest the two given scaled vectors: a great-circle
/// distance, so at most half the Earth's circumference; in millimetres.
#[verifier::external_body]
pub(crate) fn vec_dist_mm(a: IVec3, b: IVec3) -> (r: u64)
    ensures
        r as int == vdist_of(a.x as int, a.y as int, a.z as int, b.x as int, b.y as int, b.z as int),
        r <= MAX_GEODESIC_MM,
{
    let na = NVector::new(Vec3::new(a.x as _, a.y as _, a.z as _).unit());
    let nb = NVector::new(Vec3::new(b.x as _, b.y as _, b.z as _).unit());
    let d = Sphere::EARTH.distance(na, nb);
    let metres = d / jord::Length::from_metres(1 as _);
    metres.mul_add(1000 as _, 0 as _).round() as u64
}

/// Relies on jord's `Sphere::cross_track_distance` on `Sphere::EARTH`: the
/// signed distance from a position to the great circle through two others,
/// whose magnitude is at most a quarter of the Earth's circumference;
/// returned as that magnitude rounded to millimetres.
#[verifier::external_body]
pub(crate) fn cross_track_mm(q: IVec3, a: IVec3, b: IVec3) -> (r: u64)
    ensures
        r as int == xtrack_of(
            q.x as int,
            q.y as int,
            q.z as int,
            a.x as int,
            a.y as int,
            a.z as int,
            b.x as int,
            b.y as int,
            b.z as int,
        ),
        r <= MAX_GEODESIC_MM,
{
    let na = NVector::new(Vec3::new(a.x as _, a.y as _, a.z as _).unit());
    let nb = NVector::new(Vec3::new(b.x as _, b.y as _, b.z as _).unit());
    let p = NVector::new(Vec3::new(q.x as _, q.y as _, q.z as _).unit());
    let d = Sphere::EARTH.cross_track_distance(p, GreatCircle::new(na, nb)).abs();
    let metres = d / jord::Length::from_metres(1 as _);
    metres.mul_add(1000 as _, 0 as _).round() as u64
}

/// The great-circle distance between two coordinates, in millimetres.
pub fn distance_mm(a: Coord, b: Coord) -> (r: u64)
    ensures
        r as int == geo_dist_of(a.lat_e7 as int, a.lon_e7 as int, b.lat_e7 as int, b.lon_e7 as int),
        r <= MAX_GEODESIC_MM,
{
    geodesic_mm(a, b)
}

/// The scaled unit n-vector of a coordinate: the embedding of the Earth's
/// surface into three-dimensional space under which straight-line distances
/// order points exactly as great-circle distances do.
pub fn project(c: Coord) -> (r: IVec3)
    ensures
        (r.x as int, r.y as int, r.z as int) == project_of(c.lat_e7 as int, c.lon_e7 as int),
        bounded(r, SCALE as int),
        norm_sq(r) <= (SCALE as int) * (SCALE as int) + 2 * (SCALE as int),
        norm_sq(r) >= (SCALE as int) * (SCALE as int) - 2 * (SCALE as int),
{
    nvector_scaled(c)
}

} // verus!
