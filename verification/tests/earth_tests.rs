use geoway::earth::{distance_mm, project, Coord};
use geoway::vect::SCALE;

/// The library's projection agrees with the mathematical unit n-vector.
#[test]
fn project_poles_and_equator() {
    let north = project(Coord::new(900_000_000, 0));
    assert_eq!(north.x, 0);
    assert_eq!(north.y, 0);
    assert_eq!(north.z, SCALE);

    let origin = project(Coord::new(0, 0));
    assert_eq!(origin.x, SCALE);
    assert_eq!(origin.y, 0);
    assert_eq!(origin.z, 0);

    let east = project(Coord::new(0, 900_000_000));
    assert_eq!(east.x, 0);
    assert_eq!(east.y, SCALE);
    assert_eq!(east.z, 0);
}

/// One degree of latitude along a meridian is about 111.2 km.
#[test]
fn distance_one_degree_latitude() {
    let d = distance_mm(Coord::new(0, 0), Coord::new(10_000_000, 0));
    assert!(d > 111_000_000, "distance {d}");
    assert!(d < 111_400_000, "distance {d}");
    // A distance from a coordinate to itself is zero.
    assert_eq!(distance_mm(Coord::new(123, 456), Coord::new(123, 456)), 0);
}

/// Ranking candidates by straight-line (chord) distance between projected
/// points gives the same order as ranking by true great-circle distance.
#[test]
fn chord_ranking_matches_geodesic_ranking() {
    let q = Coord::new(100_000_000, 100_000_000);
    let cands = [
        Coord::new(100_000_000, 300_000_000),
        Coord::new(-500_000_000, 100_000_000),
        Coord::new(150_000_000, 100_000_000),
        Coord::new(800_000_000, -1_200_000_000),
        Coord::new(-100_000_000, -1_700_000_000),
        Coord::new(120_000_000, 80_000_000),
    ];
    let qp = project(q);
    let chord2 = |c: &Coord| -> i128 {
        let p = project(*c);
        let dx = (p.x - qp.x) as i128;
        let dy = (p.y - qp.y) as i128;
        let dz = (p.z - qp.z) as i128;
        dx * dx + dy * dy + dz * dz
    };
    let mut by_geo: Vec<(u64, usize)> =
        cands.iter().enumerate().map(|(i, c)| (distance_mm(q, *c), i)).collect();
    by_geo.sort();
    let mut by_chord: Vec<(i128, usize)> =
        cands.iter().enumerate().map(|(i, c)| (chord2(c), i)).collect();
    by_chord.sort();
    for (g, c) in by_geo.iter().zip(by_chord.iter()) {
        assert_eq!(g.1, c.1);
    }
}

/// Antipodal points are half the circumference apart; the distance never
/// exceeds that bound.
#[test]
fn distance_antipodal_is_half_circumference() {
    let d = distance_mm(Coord::new(0, 0), Coord::new(0, 1_800_000_000));
    assert!(d > 20_015_086_000, "distance {d}");
    assert!(d <= 20_015_090_000, "distance {d}");
}
