use sandbox2d::geometry::{Bounds, Point};
use sandbox2d::quadtree::{IndexedPoint, SpatialNode};

fn ip(x: i64, y: i64, index: usize) -> IndexedPoint {
    IndexedPoint { pos: Point { x, y }, index }
}

fn sorted(mut v: Vec<IndexedPoint>) -> Vec<(i64, i64, usize)> {
    let mut out: Vec<(i64, i64, usize)> = v.drain(..).map(|p| (p.pos.x, p.pos.y, p.index)).collect();
    out.sort();
    out
}

#[test]
fn a_new_node_is_empty() {
    let b = Bounds::new(-10, -10, 10, 10);
    let t = SpatialNode::new(b, 4);
    assert_eq!(t.boundary(), b);
    assert_eq!(t.capacity(), 4);
    assert!(!t.is_split());
    assert!(t.query(&b).is_empty());
}

#[test]
fn points_outside_the_boundary_are_refused() {
    let b = Bounds::new(-10, -10, 10, 10);
    let mut t = SpatialNode::new(b, 4);
    assert!(!t.insert(ip(11, 0, 0)));
    assert!(!t.insert(ip(0, -11, 1)));
    assert!(t.insert(ip(10, 10, 2)));
    assert!(t.insert(ip(-10, -10, 3)));
    assert_eq!(sorted(t.query(&b)), vec![(-10, -10, 3), (10, 10, 2)]);
}

#[test]
fn a_node_splits_on_the_first_overflow() {
    let b = Bounds::new(-10, -10, 10, 10);
    let mut t = SpatialNode::new(b, 2);
    assert!(t.insert(ip(1, 1, 0)));
    assert!(!t.is_split());
    assert!(t.insert(ip(-1, -1, 1)));
    assert!(!t.is_split());
    assert!(t.insert(ip(5, -5, 2)));
    assert!(t.is_split());
    assert_eq!(t.query(&b).len(), 3);
}

#[test]
fn a_refused_point_does_not_split_a_full_node() {
    let b = Bounds::new(-10, -10, 10, 10);
    let mut t = SpatialNode::new(b, 1);
    assert!(t.insert(ip(1, 1, 0)));
    assert!(!t.insert(ip(100, 1, 1)));
    assert!(!t.is_split());
}

#[test]
fn five_points_in_a_node_of_capacity_one() {
    let b = Bounds::new(-10_000_000, -10_000_000, 10_000_000, 10_000_000);
    let mut t = SpatialNode::new(b, 1);
    let pts = [
        ip(-5_000_000, -5_000_000, 0),
        ip(5_000_000, -5_000_000, 1),
        ip(-5_000_000, 5_000_000, 2),
        ip(5_000_000, 5_000_000, 3),
        ip(1, 1, 4),
    ];
    for p in pts {
        assert!(t.insert(p));
    }
    assert!(t.is_split());
    let found = t.query(&b);
    assert_eq!(found.len(), 5);
    assert_eq!(sorted(found), sorted(pts.to_vec()));
}

#[test]
fn a_search_reports_in_quadrant_order() {
    let b = Bounds::new(-10, -10, 10, 10);
    let mut t = SpatialNode::new(b, 1);
    t.insert(ip(5, 5, 0));
    t.insert(ip(-5, 5, 1));
    t.insert(ip(5, -5, 2));
    t.insert(ip(-5, -5, 3));
    let found: Vec<usize> = t.query(&b).iter().map(|p| p.index).collect();
    assert_eq!(found, vec![3, 2, 1, 0]);
}

#[test]
fn a_leaf_reports_in_insertion_order() {
    let b = Bounds::new(-10, -10, 10, 10);
    let mut t = SpatialNode::new(b, 8);
    t.insert(ip(5, 5, 0));
    t.insert(ip(-5, 5, 1));
    t.insert(ip(5, -5, 2));
    let found: Vec<usize> = t.query(&b).iter().map(|p| p.index).collect();
    assert_eq!(found, vec![0, 1, 2]);
}

#[test]
fn equal_points_are_all_kept() {
    let b = Bounds::new(-10, -10, 10, 10);
    let mut t = SpatialNode::new(b, 1);
    for i in 0..7 {
        assert!(t.insert(ip(3, 3, i)));
    }
    let found = t.query(&b);
    assert_eq!(found.len(), 7);
    let idx: Vec<usize> = found.iter().map(|p| p.index).collect();
    assert_eq!(idx, vec![0, 1, 2, 3, 4, 5, 6]);
    assert_eq!(t.query(&Bounds::new(3, 3, 3, 3)).len(), 7);
    assert!(t.query(&Bounds::new(4, 3, 10, 10)).is_empty());
}

#[test]
fn a_search_reports_exactly_the_points_in_the_range() {
    let b = Bounds::new(-50, -50, 50, 50);
    let mut t = SpatialNode::new(b, 3);
    let mut all = Vec::new();
    let mut i = 0usize;
    for x in (-50i64..=50).step_by(7) {
        for y in (-50i64..=50).step_by(11) {
            let p = ip(x, y, i);
            assert!(t.insert(p));
            all.push(p);
            i += 1;
        }
    }
    for range in [
        Bounds::new(-50, -50, 50, 50),
        Bounds::new(-10, -10, 10, 10),
        Bounds::new(0, 0, 0, 0),
        Bounds::new(13, -49, 14, 49),
        Bounds::new(-100, -100, -51, 100),
        Bounds::new(20, 20, 10, 10),
        Bounds::new(-1_000, -1_000, 1_000, 1_000),
    ] {
        let expected: Vec<IndexedPoint> =
            all.iter().copied().filter(|p| range.contains(p.pos)).collect();
        assert_eq!(sorted(t.query(&range)), sorted(expected));
    }
}

#[test]
fn a_search_away_from_all_points_finds_nothing() {
    let b = Bounds::new(-50, -50, 50, 50);
    let mut t = SpatialNode::new(b, 1);
    t.insert(ip(-40, -40, 0));
    t.insert(ip(-30, -45, 1));
    t.insert(ip(-45, -30, 2));
    assert!(t.query(&Bounds::new(0, 0, 50, 50)).is_empty());
    assert!(t.query(&Bounds::new(-29, -29, 50, 50)).is_empty());
    assert!(t.query(&Bounds::new(60, 60, 70, 70)).is_empty());
}

#[test]
fn clearing_keeps_region_and_capacity() {
    let b = Bounds::new(-10, -10, 10, 10);
    let mut t = SpatialNode::new(b, 1);
    t.insert(ip(5, 5, 0));
    t.insert(ip(-5, 5, 1));
    assert!(t.is_split());
    t.clear();
    assert!(!t.is_split());
    assert!(t.query(&b).is_empty());
    assert_eq!(t.boundary(), b);
    assert_eq!(t.capacity(), 1);
    assert!(t.insert(ip(1, 1, 9)));
    assert_eq!(t.query(&b).len(), 1);
}

#[test]
fn a_single_point_region_holds_any_number_of_points() {
    let b = Bounds::new(7, 7, 7, 7);
    let mut t = SpatialNode::new(b, 1);
    for i in 0..5 {
        assert!(t.insert(ip(7, 7, i)));
    }
    assert!(!t.insert(ip(7, 8, 9)));
    assert!(!t.is_split());
    assert_eq!(t.query(&b).len(), 5);
}

#[test]
fn the_whole_coordinate_range_can_be_indexed() {
    let b = Bounds::new(i64::MIN, i64::MIN, i64::MAX, i64::MAX);
    let mut t = SpatialNode::new(b, 1);
    assert!(t.insert(ip(i64::MIN, i64::MIN, 0)));
    assert!(t.insert(ip(i64::MAX, i64::MAX, 1)));
    assert!(t.insert(ip(i64::MAX, i64::MAX - 1, 2)));
    assert!(t.insert(ip(0, 0, 3)));
    assert_eq!(t.query(&b).len(), 4);
    assert_eq!(t.query(&Bounds::new(i64::MAX, i64::MAX, i64::MAX, i64::MAX)).len(), 1);
}
