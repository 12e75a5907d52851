use sandbox2d::geometry::{Bounds, Point};
use sandbox2d::objects::{Object, PhysicsType};
use sandbox2d::quadtree::SpatialNode;
use sandbox2d::shapes::{Circle, Colour, Rectangle, Shape};
use sandbox2d::world::{
    integrate_all, pick, rebuild_index, remove_deleted, resolve_collisions, resolve_pair,
    search_bounds, step,
};

fn pt(x: i64, y: i64) -> Point {
    Point { x, y }
}

fn ball(x: i64, y: i64, r: u32, role: PhysicsType) -> Object {
    let shape = Shape::Circle(Circle::new(pt(x, y), r, Colour::white()).unwrap());
    Object::create(shape, 1_000_000, role).unwrap()
}

fn block(x: i64, y: i64, w: u32, h: u32, role: PhysicsType) -> Object {
    let shape = Shape::Rectangle(Rectangle::new(pt(x, y), w, h, Colour::white()).unwrap());
    Object::create(shape, 1_000_000, role).unwrap()
}

fn world() -> SpatialNode {
    SpatialNode::new(Bounds::new(-100_000_000, -100_000_000, 100_000_000, 100_000_000), 4)
}

#[test]
fn search_area_reaches_twice_the_extent() {
    let c = Shape::Circle(Circle::new(pt(10, 20), 3, Colour::white()).unwrap());
    assert_eq!(search_bounds(&c), Bounds::new(4, 14, 16, 26));
    let r = Shape::Rectangle(Rectangle::new(pt(10, 20), 3, 5, Colour::white()).unwrap());
    assert_eq!(search_bounds(&r), Bounds::new(0, 10, 20, 30));
    let big = Shape::Circle(Circle::new(pt(i64::MAX, 0), u32::MAX, Colour::white()).unwrap());
    assert_eq!(
        search_bounds(&big),
        Bounds::new(i64::MAX - 2 * u32::MAX as i64, -2 * (u32::MAX as i64), i64::MAX, 2 * u32::MAX as i64)
    );
}

#[test]
fn a_pair_is_resolved_by_role() {
    let mut a = ball(0, 0, 1_000_000, PhysicsType::Dynamic);
    let mut b = ball(1_500_000, 0, 1_000_000, PhysicsType::Kinematic);
    assert!(resolve_pair(&mut a, &mut b));
    assert_eq!(a.shape.get_position(), pt(-250_000, 0));
    assert_eq!(b.shape.get_position(), pt(1_750_000, 0));
    let mut a = ball(0, 0, 1_000_000, PhysicsType::Static);
    let mut b = ball(1_500_000, 0, 1_000_000, PhysicsType::Kinematic);
    assert!(resolve_pair(&mut a, &mut b));
    assert_eq!(a.shape.get_position(), pt(0, 0));
    assert_eq!(b.shape.get_position(), pt(2_000_000, 0));
    assert_eq!(a.shape.get_colour(), Colour::highlight());
    let mut a = ball(0, 0, 1_000_000, PhysicsType::Dynamic);
    let mut b = ball(5_000_000, 0, 1_000_000, PhysicsType::Dynamic);
    assert!(!resolve_pair(&mut a, &mut b));
    assert_eq!(a, ball(0, 0, 1_000_000, PhysicsType::Dynamic));
    assert_eq!(b, ball(5_000_000, 0, 1_000_000, PhysicsType::Dynamic));
}

#[test]
fn resolving_a_pair_touches_nothing_but_the_shapes() {
    let mut a = ball(0, 0, 1_000_000, PhysicsType::Dynamic);
    let mut b = block(500_000, -1_000_000, 2_000_000, 2_000_000, PhysicsType::Dynamic);
    a.set_velocity((1, 2));
    b.set_velocity((3, 4));
    let (a0, b0) = (a, b);
    assert!(resolve_pair(&mut a, &mut b));
    assert_eq!(a.get_velocity(), (1, 2));
    assert_eq!(b.get_velocity(), (3, 4));
    assert_eq!(a.material, a0.material);
    assert_eq!(b.material, b0.material);
    assert_eq!(a.shape.get_measurements(), a0.shape.get_measurements());
    assert_eq!(b.shape.get_measurements(), b0.shape.get_measurements());
}

#[test]
fn integration_of_all_bodies() {
    let mut objects = vec![
        ball(0, 0, 1_000_000, PhysicsType::Static),
        ball(0, 0, 1_000_000, PhysicsType::Kinematic),
        ball(0, 0, 1_000_000, PhysicsType::Dynamic),
    ];
    for o in objects.iter_mut() {
        o.set_velocity((1_000_000, 0));
        o.air_resistance = false;
    }
    integrate_all(&mut objects, 500_000);
    assert_eq!(objects[0].shape.get_position(), pt(0, 0));
    assert_eq!(objects[1].shape.get_position(), pt(500_000, 0));
    assert_eq!(objects[2].shape.get_position(), pt(500_000, 2_452_500));
    assert_eq!(objects[2].get_velocity(), (1_000_000, 4_905_000));
}

#[test]
fn the_index_holds_the_live_bodies_inside_its_region() {
    let mut objects = vec![
        ball(0, 0, 1_000_000, PhysicsType::Dynamic),
        ball(200_000_000, 0, 1_000_000, PhysicsType::Dynamic),
        ball(5_000_000, 5_000_000, 1_000_000, PhysicsType::Dynamic),
        block(-7_000_000, 3_000_000, 1_000_000, 1_000_000, PhysicsType::Static),
    ];
    objects[2].to_be_deleted = true;
    let mut index = world();
    index.insert(sandbox2d::quadtree::IndexedPoint { pos: pt(1, 1), index: 77 });
    rebuild_index(&objects, &mut index);
    let found: Vec<(usize, Point)> =
        index.query(&index.boundary()).iter().map(|p| (p.index, p.pos)).collect();
    assert_eq!(found, vec![(0, pt(0, 0)), (3, pt(-7_000_000, 3_000_000))]);
    assert_eq!(index.capacity(), 4);
}

#[test]
fn one_pass_separates_two_overlapping_balls() {
    let mut objects = vec![
        ball(0, 0, 1_000_000, PhysicsType::Dynamic),
        ball(1_500_000, 0, 1_000_000, PhysicsType::Dynamic),
    ];
    let mut index = world();
    rebuild_index(&objects, &mut index);
    resolve_collisions(&mut objects, &index);
    assert_eq!(objects[0].shape.get_position(), pt(-250_000, 0));
    assert_eq!(objects[1].shape.get_position(), pt(1_750_000, 0));
    assert_eq!(objects[0].shape.get_colour(), Colour::highlight());
    assert_eq!(objects[1].shape.get_colour(), Colour::highlight());
}

#[test]
fn bodies_marked_for_deletion_take_no_part() {
    let mut objects = vec![
        ball(0, 0, 1_000_000, PhysicsType::Dynamic),
        ball(1_500_000, 0, 1_000_000, PhysicsType::Dynamic),
    ];
    let mut index = world();
    rebuild_index(&objects, &mut index);
    objects[1].to_be_deleted = true;
    let before = objects.clone();
    resolve_collisions(&mut objects, &index);
    assert_eq!(objects, before);
    objects[1].to_be_deleted = false;
    objects[0].to_be_deleted = true;
    let before = objects.clone();
    resolve_collisions(&mut objects, &index);
    assert_eq!(objects, before);
}

#[test]
fn a_stale_index_is_harmless() {
    let mut objects = vec![ball(0, 0, 1_000_000, PhysicsType::Dynamic)];
    let mut index = world();
    index.insert(sandbox2d::quadtree::IndexedPoint { pos: pt(1, 1), index: 5 });
    index.insert(sandbox2d::quadtree::IndexedPoint { pos: pt(2, 2), index: 0 });
    let before = objects.clone();
    resolve_collisions(&mut objects, &index);
    assert_eq!(objects, before);
}

#[test]
fn bodies_outside_the_index_do_not_collide() {
    let mut objects = vec![
        ball(300_000_000, 0, 1_000_000, PhysicsType::Dynamic),
        ball(300_500_000, 0, 1_000_000, PhysicsType::Dynamic),
    ];
    let mut index = world();
    let before = objects.clone();
    for o in objects.iter_mut() {
        o.phys_type = PhysicsType::Kinematic;
    }
    step(&mut objects, &mut index, 16_667);
    assert_eq!(objects[0].shape, before[0].shape);
    assert_eq!(objects[1].shape, before[1].shape);
}

#[test]
fn a_static_body_never_moves() {
    let mut objects = vec![
        block(-5_000_000, 3_000_000, 10_000_000, 1_000_000, PhysicsType::Static),
        ball(0, 0, 1_000_000, PhysicsType::Dynamic),
        ball(500_000, -3_000_000, 1_000_000, PhysicsType::Dynamic),
        ball(-500_000, 2_900_000, 1_000_000, PhysicsType::Kinematic),
    ];
    let mut index = world();
    let floor_before = objects[0];
    for _ in 0..240 {
        step(&mut objects, &mut index, 16_667);
        assert_eq!(objects[0].shape.get_position(), floor_before.shape.get_position());
        assert_eq!(objects[0].shape.get_measurements(), floor_before.shape.get_measurements());
        assert_eq!(objects[0].get_velocity(), (0, 0));
        assert_eq!(objects[0].phys_type, PhysicsType::Static);
    }
    assert_eq!(objects[0].shape.get_colour(), Colour::highlight());
    assert!(objects[1].shape.get_position().y < 3_000_000);
    assert_eq!(objects.len(), 4);
}

#[test]
fn a_step_integrates_then_resolves() {
    let mut objects = vec![
        ball(0, 0, 1_000_000, PhysicsType::Kinematic),
        ball(3_000_000, 0, 1_000_000, PhysicsType::Kinematic),
    ];
    objects[0].set_velocity((1_000_000, 0));
    let mut index = world();
    step(&mut objects, &mut index, 500_000);
    assert_eq!(objects[0].shape.get_position(), pt(500_000, 0));
    assert_eq!(objects[1].shape.get_position(), pt(3_000_000, 0));
    assert_eq!(objects[0].shape.get_colour(), Colour::white());
    step(&mut objects, &mut index, 1_000_000);
    assert_eq!(objects[0].shape.get_position(), pt(1_250_000, 0));
    assert_eq!(objects[1].shape.get_position(), pt(3_250_000, 0));
    assert_eq!(objects[0].get_velocity(), (1_000_000, 0));
    assert_eq!(objects[1].get_velocity(), (0, 0));
    assert_eq!(objects[0].shape.get_colour(), Colour::highlight());
    let found: Vec<(usize, Point)> =
        index.query(&index.boundary()).iter().map(|p| (p.index, p.pos)).collect();
    assert_eq!(found, vec![(0, pt(1_500_000, 0)), (1, pt(3_000_000, 0))]);
}

#[test]
fn a_step_of_no_bodies() {
    let mut objects: Vec<Object> = Vec::new();
    let mut index = world();
    step(&mut objects, &mut index, 16_667);
    assert!(objects.is_empty());
    assert!(index.query(&index.boundary()).is_empty());
}

#[test]
fn marked_bodies_are_removed_in_order() {
    let mut objects = vec![
        ball(0, 0, 1_000, PhysicsType::Dynamic),
        ball(1, 0, 1_000, PhysicsType::Dynamic),
        ball(2, 0, 1_000, PhysicsType::Dynamic),
        ball(3, 0, 1_000, PhysicsType::Dynamic),
        ball(4, 0, 1_000, PhysicsType::Dynamic),
    ];
    objects[1].to_be_deleted = true;
    objects[2].to_be_deleted = true;
    objects[4].to_be_deleted = true;
    let kept = vec![objects[0], objects[3]];
    assert_eq!(remove_deleted(&mut objects, Some(3)), Some(1));
    assert_eq!(objects, kept);
    assert_eq!(remove_deleted(&mut objects, Some(1)), Some(1));
    assert_eq!(objects, kept);
}

#[test]
fn a_removed_selection_is_dropped() {
    let make = || {
        let mut v = vec![
            ball(0, 0, 1_000, PhysicsType::Dynamic),
            ball(1, 0, 1_000, PhysicsType::Dynamic),
            ball(2, 0, 1_000, PhysicsType::Dynamic),
        ];
        v[1].to_be_deleted = true;
        v
    };
    let mut objects = make();
    assert_eq!(remove_deleted(&mut objects, Some(1)), None);
    let mut objects = make();
    assert_eq!(remove_deleted(&mut objects, Some(0)), Some(0));
    let mut objects = make();
    assert_eq!(remove_deleted(&mut objects, Some(2)), Some(1));
    let mut objects = make();
    assert_eq!(remove_deleted(&mut objects, Some(3)), None);
    let mut objects = make();
    assert_eq!(remove_deleted(&mut objects, None), None);
    assert_eq!(objects.len(), 2);
}

#[test]
fn a_click_picks_the_last_body_under_it() {
    let objects = vec![
        ball(0, 0, 10_000, PhysicsType::Dynamic),
        block(-5_000, -5_000, 10_000, 10_000, PhysicsType::Dynamic),
        ball(100_000, 100_000, 10_000, PhysicsType::Dynamic),
    ];
    assert_eq!(pick(&objects, pt(0, 0)), Some(1));
    assert_eq!(pick(&objects, pt(8_000, 0)), Some(0));
    assert_eq!(pick(&objects, pt(100_000, 105_000)), Some(2));
    assert_eq!(pick(&objects, pt(50_000, 50_000)), None);
    assert_eq!(pick(&Vec::new(), pt(0, 0)), None);
}
