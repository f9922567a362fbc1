use geoway::earth::{distance_mm, Coord};
use geoway::pos::{Position, PosWithTimestamp};
use geoway::way::{RecordedWay, Way};

fn pos(lat_e7: i64, lon_e7: i64, accuracy_mm: Option<u64>) -> Position {
    Position {
        coords: Coord::new(lat_e7, lon_e7),
        altitude: None,
        accuracy: accuracy_mm,
        altitude_accuracy: None,
    }
}

fn tpos(lat_e7: i64, lon_e7: i64, t_ms: i64) -> PosWithTimestamp {
    PosWithTimestamp { pos: pos(lat_e7, lon_e7, None), timestamp: t_ms }
}

/// The way's length always equals the sum of the pairwise distances of its
/// nodes, exactly as the distance function reports them.
#[test]
fn way_length_is_sum_of_distances() {
    let points = [
        Coord::new(0, 0),
        Coord::new(0, 10_000_000),
        Coord::new(10_000_000, 10_000_000),
        Coord::new(10_000_000, 20_000_000),
    ];
    let mut w: Way<Position> = Way::new();
    for c in &points {
        w.append(pos(c.lat_e7, c.lon_e7, None));
    }
    let mut expect: u128 = 0;
    for i in 1..points.len() {
        expect += distance_mm(points[i - 1], points[i]) as u128;
    }
    assert_eq!(w.length(), expect);
    // One degree along the equator or a meridian is about 111.2 km, so three
    // of them are about 333.6 km.
    assert!(w.length() > 333_000_000_000 / 1000);
    assert!(w.length() < 334_000_000_000 / 1000);

    // An interior insertion recomputes the length in full.
    w.insert(2, pos(0, 20_000_000, None));
    let mut nodes: Vec<Coord> = Vec::new();
    for n in w.nodes() {
        nodes.push(n.coords);
    }
    let mut expect2: u128 = 0;
    for i in 1..nodes.len() {
        expect2 += distance_mm(nodes[i - 1], nodes[i]) as u128;
    }
    assert_eq!(w.length(), expect2);

    // So does replacing a node.
    w.update(0, pos(-10_000_000, 0, None));
    let mut nodes3: Vec<Coord> = Vec::new();
    for n in w.nodes() {
        nodes3.push(n.coords);
    }
    let mut expect3: u128 = 0;
    for i in 1..nodes3.len() {
        expect3 += distance_mm(nodes3[i - 1], nodes3[i]) as u128;
    }
    assert_eq!(w.length(), expect3);
}

/// Accuracies come back sorted, with duplicates, through any mix of
/// mutations, whether the cache was materialised early or late.
#[test]
fn way_accuracies_sorted_multiset() {
    let accs = [Some(3000u64), Some(1000), None, Some(4000), Some(1000), Some(5000)];
    let mut w: Way<Position> = Way::new();
    // Materialise the cache early so every mutation maintains it.
    assert_eq!(w.accuracies(), Vec::<u64>::new());
    for (i, a) in accs.iter().enumerate() {
        w.append(pos(i as i64 * 1_000_000, 0, *a));
    }
    assert_eq!(w.accuracies(), vec![1000, 1000, 3000, 4000, 5000]);

    // Replacing a node swaps its accuracy out of the cache.
    w.update(0, pos(0, 0, Some(2000)));
    assert_eq!(w.accuracies(), vec![1000, 1000, 2000, 4000, 5000]);
    // Replacing with no accuracy removes one value.
    w.update(3, pos(3_000_000, 0, None));
    assert_eq!(w.accuracies(), vec![1000, 1000, 2000, 5000]);
    // An interior insertion adds one.
    w.insert(1, pos(500_000, 0, Some(1500)));
    assert_eq!(w.accuracies(), vec![1000, 1000, 1500, 2000, 5000]);
}

/// Scenario: a way with five nodes of accuracies 3, 1, 4, 1 and 5 metres
/// has the median accuracy 3 metres (the middle of 1, 1, 3, 4, 5).
#[test]
fn median_of_five_accuracies() {
    let accs = [3000u64, 1000, 4000, 1000, 5000];
    let mut w: Way<Position> = Way::new();
    for (i, a) in accs.iter().enumerate() {
        w.append(pos(i as i64 * 1_000_000, 0, Some(*a)));
    }
    assert_eq!(w.median_accuracy(), Some(3000));
}

/// With an even number of accuracies the median is the mean of the two
/// middle ones; with none there is no median.
#[test]
fn median_even_and_empty() {
    let mut w: Way<Position> = Way::new();
    assert_eq!(w.median_accuracy(), None);
    w.append(pos(0, 0, Some(1000)));
    w.append(pos(1_000_000, 0, Some(2000)));
    assert_eq!(w.median_accuracy(), Some(1500));
    // Nodes without an accuracy do not take part.
    w.append(pos(2_000_000, 0, None));
    assert_eq!(w.median_accuracy(), Some(1500));
}

/// Scenario: adding positions at t=10s, t=5s and t=10s again leaves two
/// nodes, ordered t=5s then t=10s, the latter carrying the second value.
#[test]
fn recorded_way_out_of_order_and_replacement() {
    let mut rec = RecordedWay::new();
    rec.add(&tpos(10_000_000, 0, 10_000));
    rec.add(&tpos(20_000_000, 0, 5_000));
    rec.add(&tpos(30_000_000, 0, 10_000));
    let nodes = rec.way().nodes();
    assert_eq!(nodes.len(), 2);
    assert_eq!(nodes[0].timestamp, 5_000);
    assert_eq!(nodes[0].pos.coords.lat_e7, 20_000_000);
    assert_eq!(nodes[1].timestamp, 10_000);
    assert_eq!(nodes[1].pos.coords.lat_e7, 30_000_000);
}

/// Timestamps stay strictly increasing whatever the arrival order, and the
/// length equals the pairwise sum over the reordered nodes.
#[test]
fn recorded_way_keeps_time_order() {
    let mut rec = RecordedWay::new();
    for &(lat, t) in &[(0i64, 40_000i64), (10_000_000, 20_000), (20_000_000, 30_000), (30_000_000, 10_000)] {
        rec.add(&tpos(lat, 0, t));
    }
    let nodes = rec.way().nodes().clone();
    assert_eq!(nodes.len(), 4);
    for i in 1..nodes.len() {
        assert!(nodes[i - 1].timestamp < nodes[i].timestamp);
    }
    let mut expect: u128 = 0;
    for i in 1..nodes.len() {
        expect += distance_mm(nodes[i - 1].pos.coords, nodes[i].pos.coords) as u128;
    }
    assert_eq!(rec.way().length(), expect);
}

/// Scenario: `get_since` on timestamps 1, 3, 5 and 7 asked from 4 returns
/// the suffix starting at 5.
#[test]
fn get_since_between_timestamps() {
    let mut rec = RecordedWay::new();
    for &t in &[1_000i64, 3_000, 5_000, 7_000] {
        rec.add(&tpos(t as i64, 0, t));
    }
    let since = rec.get_since(4_000);
    assert_eq!(since.len(), 2);
    assert_eq!(since[0].timestamp, 5_000);
    assert_eq!(since[1].timestamp, 7_000);

    // An exact match is included.
    let since_exact = rec.get_since(3_000);
    assert_eq!(since_exact.len(), 3);
    assert_eq!(since_exact[0].timestamp, 3_000);

    // Before all nodes: everything; after all nodes: nothing.
    assert_eq!(rec.get_since(0).len(), 4);
    assert_eq!(rec.get_since(8_000).len(), 0);
}
