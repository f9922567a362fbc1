use geoway::earth::Coord;
use geoway::line::{unit_x, unit_y, unit_z, Line};
use geoway::vect::{IVec3, SCALE};
use jord::spherical::Sphere;
use jord::Vec3;

/// Allowed slack, in scaled units, between the float heights of sampled arc
/// points and the integer envelope: a few units of the last place from the
/// rounding of projections and of the normalised plane normal.
const TOL: f64 = 10.0;

fn height_int(dir: &IVec3, v: &IVec3) -> i64 {
    let d = (dir.x as i128) * (v.x as i128) + (dir.y as i128) * (v.y as i128) + (dir.z as i128)
        * (v.z as i128);
    (d / (SCALE as i128)) as i64
}

fn nvec(lat_e7: i64, lon_e7: i64) -> jord::NVector {
    jord::NVector::from_lat_long_degrees(lat_e7 as f64 / 1e7, lon_e7 as f64 / 1e7)
}

fn fheight(dir: &IVec3, v: Vec3) -> f64 {
    dir.x as f64 * v.x() + dir.y as f64 * v.y() + dir.z as f64 * v.z()
}

#[test]
fn test_line_extrema() {
    let angles: [i64; 5] = [0, 900_000_000, 1_800_000_000, -1_800_000_000, -900_000_000];
    let directions = [unit_x(), unit_y(), unit_z()];
    let fractions = [0.0, 1.0 / 4.0, 1.0 / 3.0, 1.0 / 2.0, 1.0];
    for &lat_1 in &angles {
        for &lat_2 in &angles {
            for &long_1 in &angles {
                for &long_2 in &angles {
                    for direction in &directions {
                        let line = Line::new(Coord::new(lat_1, long_1), Coord::new(lat_2, long_2));
                        let (min, max) = line.extrema(*direction);
                        assert!(-SCALE <= min);
                        assert!(max <= SCALE);
                        assert!(min <= max);
                        let start_height = height_int(direction, &line.start_vec());
                        let end_height = height_int(direction, &line.end_vec());
                        let (min_p, max_p) = if start_height < end_height {
                            (start_height, end_height)
                        } else {
                            (end_height, start_height)
                        };
                        assert!(min <= min_p);
                        assert!(max_p <= max);
                        let p1 = nvec(lat_1, long_1);
                        let p2 = nvec(lat_2, long_2);
                        for &fraction in &fractions {
                            if let Some(point) = Sphere::interpolated_position(p1, p2, fraction) {
                                let height = fheight(direction, point.as_vec3());
                                assert!(
                                    height <= max as f64 + TOL,
                                    "height {height} above max {max}: {lat_1} {long_1} {lat_2} {long_2} dir {direction:?} f {fraction}"
                                );
                                assert!(
                                    height >= min as f64 - TOL,
                                    "height {height} below min {min}: {lat_1} {long_1} {lat_2} {long_2} dir {direction:?} f {fraction}"
                                );
                            }
                        }
                    }
                }
            }
        }
    }
}

#[test]
fn envelope_of_quarter_arc() {
    // From the equator at the prime meridian to the north pole: the arc
    // stays in the x-z plane, with x and z running from 0 to 1.
    let line = Line::new(Coord::new(0, 0), Coord::new(900_000_000, 0));
    let e = line.envelope();
    assert!(e.min.x <= 0 && e.max.x >= SCALE - 2);
    assert!(e.min.y.abs() <= 2 && e.max.y.abs() <= 2);
    assert!(e.min.z <= 0 && e.max.z >= SCALE - 2);
}

#[test]
fn envelope_interior_extremum() {
    // An arc crossing the prime meridian at the equator from 60 degrees west
    // to 60 degrees east: its x extent reaches 1 in the middle, above the
    // endpoint heights of cos(60 degrees) = 0.5.
    let line = Line::new(Coord::new(0, -600_000_000), Coord::new(0, 600_000_000));
    let (x_min, x_max) = line.extrema(unit_x());
    assert!((x_min - SCALE / 2).abs() <= 10, "x_min {x_min}");
    assert!(x_max >= SCALE - 10, "x_max {x_max}");
}

#[test]
fn line_distance_to_own_start_is_zero() {
    let line = Line::new(Coord::new(0, 0), Coord::new(0, 100_000_000));
    assert_eq!(line.distance_2(line.start_vec()), 0);
    assert_eq!(line.distance_2(line.end_vec()), 0);
}

#[test]
fn line_distance_far_point() {
    // The north pole is a quarter circumference from an equatorial arc:
    // the scaled squared ratio is about (pi/2)^2 in SCALE units.
    let line = Line::new(Coord::new(0, 0), Coord::new(0, 100_000_000));
    let pole = geoway::earth::project(Coord::new(900_000_000, 0));
    let d2 = line.distance_2(pole);
    let expect = (std::f64::consts::FRAC_PI_2 * SCALE as f64).powi(2);
    assert!((d2 as f64) > expect * 0.999 && (d2 as f64) < expect * 1.001, "d2 {d2}");
}
