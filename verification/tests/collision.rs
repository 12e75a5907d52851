use sandbox2d::collision::{
    circle_rectangle_collide, circles_collide, rectangles_collide, resolve_circle_rectangle,
    resolve_circles, resolve_rectangles, resolve_shapes, shapes_collide,
};
use sandbox2d::geometry::Point;
use sandbox2d::shapes::{Circle, Colour, Rectangle, Shape};

fn pt(x: i64, y: i64) -> Point {
    Point { x, y }
}

fn circle(x: i64, y: i64, r: u32) -> Circle {
    Circle::new(pt(x, y), r, Colour::white()).unwrap()
}

fn rect(x: i64, y: i64, w: u32, h: u32) -> Rectangle {
    Rectangle::new(pt(x, y), w, h, Colour::white()).unwrap()
}

fn dist2(a: Point, b: Point) -> i128 {
    let dx = b.x as i128 - a.x as i128;
    let dy = b.y as i128 - a.y as i128;
    dx * dx + dy * dy
}

#[test]
fn circles_collide_up_to_touching() {
    assert!(circles_collide(&circle(0, 0, 3), &circle(3, 4, 2)));
    assert!(!circles_collide(&circle(0, 0, 3), &circle(3, 4, 1)));
    assert!(circles_collide(&circle(0, 0, 3), &circle(0, 0, 1)));
    assert!(circles_collide(&circle(0, 0, 1), &circle(2, 0, 1)));
    assert!(!circles_collide(&circle(0, 0, 1), &circle(3, 0, 1)));
    assert!(!circles_collide(&circle(i64::MIN, i64::MIN, u32::MAX), &circle(i64::MAX, i64::MAX, u32::MAX)));
}

#[test]
fn circle_test_agrees_with_the_distance_everywhere_nearby() {
    for r1 in 1u32..4 {
        for r2 in 1u32..4 {
            for x in -8i64..9 {
                for y in -8i64..9 {
                    let reach = (r1 + r2) as i64;
                    let expected = x * x + y * y <= reach * reach;
                    assert_eq!(circles_collide(&circle(0, 0, r1), &circle(x, y, r2)), expected);
                }
            }
        }
    }
}

#[test]
fn two_moving_circles_share_the_correction() {
    let mut a = circle(0, 0, 1_000_000);
    let mut b = circle(1_500_000, 0, 1_000_000);
    assert!(resolve_circles(&mut a, false, &mut b, false));
    assert_eq!(a.pos, pt(-250_000, 0));
    assert_eq!(b.pos, pt(1_750_000, 0));
    assert_eq!(a.colour, Colour::highlight());
    assert_eq!(b.colour, Colour::highlight());
    assert_eq!(a.radius.get(), 1_000_000);
}

#[test]
fn circles_apart_are_left_alone() {
    let mut a = circle(0, 0, 1_000_000);
    let mut b = circle(2_000_001, 0, 1_000_000);
    assert!(!resolve_circles(&mut a, false, &mut b, false));
    assert_eq!(a, circle(0, 0, 1_000_000));
    assert_eq!(b, circle(2_000_001, 0, 1_000_000));
}

#[test]
fn a_fixed_circle_leaves_the_whole_correction_to_the_other() {
    let mut a = circle(0, 0, 1_000_000);
    let mut b = circle(1_500_000, 0, 1_000_000);
    assert!(resolve_circles(&mut a, true, &mut b, false));
    assert_eq!(a.pos, pt(0, 0));
    assert_eq!(b.pos, pt(2_000_000, 0));
    let mut a = circle(0, 0, 1_000_000);
    let mut b = circle(1_500_000, 0, 1_000_000);
    assert!(resolve_circles(&mut a, false, &mut b, true));
    assert_eq!(a.pos, pt(-500_000, 0));
    assert_eq!(b.pos, pt(1_500_000, 0));
}

#[test]
fn two_fixed_circles_are_marked_but_not_moved() {
    let mut a = circle(0, 0, 1_000_000);
    let mut b = circle(1_500_000, 0, 1_000_000);
    assert!(resolve_circles(&mut a, true, &mut b, true));
    assert_eq!(a.pos, pt(0, 0));
    assert_eq!(b.pos, pt(1_500_000, 0));
    assert_eq!(a.colour, Colour::highlight());
    assert_eq!(b.colour, Colour::highlight());
}

#[test]
fn circles_separate_along_the_line_of_centres() {
    let mut a = circle(0, 0, 3);
    let mut b = circle(3, 4, 4);
    assert!(resolve_circles(&mut a, false, &mut b, false));
    assert_eq!(a.pos, pt(-1, -1));
    assert_eq!(b.pos, pt(4, 5));
    let mut a = circle(0, 0, 3);
    let mut b = circle(-3, 4, 4);
    assert!(resolve_circles(&mut a, true, &mut b, false));
    assert_eq!(b.pos, pt(-5, 6));
}

#[test]
fn diagonal_circles_round_away_from_each_other() {
    let mut a = circle(0, 0, 1_000_000);
    let mut b = circle(1_000_000, 1_000_000, 1_000_000);
    assert!(resolve_circles(&mut a, false, &mut b, false));
    assert_eq!(a.pos, pt(-207_107, -207_107));
    assert_eq!(b.pos, pt(1_207_107, 1_207_107));
    assert!(dist2(a.pos, b.pos) >= 2_000_000i128 * 2_000_000);
}

#[test]
fn coincident_circles_separate_along_x() {
    let mut a = circle(5, 5, 10);
    let mut b = circle(5, 5, 11);
    assert!(resolve_circles(&mut a, false, &mut b, false));
    assert_eq!(a.pos, pt(-6, 5));
    assert_eq!(b.pos, pt(16, 5));
    let mut a = circle(5, 5, 10);
    let mut b = circle(5, 5, 11);
    assert!(resolve_circles(&mut a, false, &mut b, true));
    assert_eq!(a.pos, pt(-16, 5));
    assert_eq!(b.pos, pt(5, 5));
}

#[test]
fn resolved_circles_no_longer_penetrate() {
    for x in -6i64..7 {
        for y in -6i64..7 {
            for (fa, fb) in [(false, false), (true, false), (false, true)] {
                let mut a = circle(0, 0, 3);
                let mut b = circle(x, y, 4);
                if resolve_circles(&mut a, fa, &mut b, fb) {
                    assert!(dist2(a.pos, b.pos) >= 49, "{} {} {} {}", x, y, fa, fb);
                }
            }
        }
    }
}

#[test]
fn resolved_circles_end_up_touching() {
    let reach = 3_000_000i128;
    for x in (-3_000_000i64..=3_000_000).step_by(250_001) {
        for y in (-3_000_000i64..=3_000_000).step_by(333_337) {
            for (fa, fb) in [(false, false), (true, false), (false, true)] {
                let mut a = circle(0, 0, 1_000_000);
                let mut b = circle(x, y, 2_000_000);
                if resolve_circles(&mut a, fa, &mut b, fb) {
                    let d2 = dist2(a.pos, b.pos);
                    assert!(d2 >= reach * reach);
                    assert!(d2 <= (reach + 4) * (reach + 4), "{} {} {}", x, y, d2);
                }
            }
        }
    }
}

#[test]
fn nearly_coincident_circles_end_up_touching_too() {
    let reach = 3_000_000i128;
    for x in -40i64..41 {
        for y in (-40i64..41).step_by(3) {
            let mut a = circle(0, 0, 1_000_000);
            let mut b = circle(x, y, 2_000_000);
            assert!(resolve_circles(&mut a, false, &mut b, false));
            let d2 = dist2(a.pos, b.pos);
            assert!(d2 >= reach * reach);
            assert!(d2 <= (reach + 4) * (reach + 4), "{} {} {}", x, y, d2);
        }
    }
}

#[test]
fn a_circle_at_the_end_of_the_range_stops_there() {
    let mut a = circle(i64::MIN + 1, 0, 10);
    let mut b = circle(i64::MIN + 5, 0, 10);
    assert!(resolve_circles(&mut a, false, &mut b, true));
    assert_eq!(a.pos, pt(i64::MIN, 0));
    assert_eq!(b.pos, pt(i64::MIN + 5, 0));
}

#[test]
fn rectangles_overlap_only_with_positive_extent_on_both_axes() {
    assert!(rectangles_collide(&rect(0, 0, 2, 2), &rect(1, 1, 2, 2)));
    assert!(!rectangles_collide(&rect(0, 0, 2, 2), &rect(2, 0, 2, 2)));
    assert!(!rectangles_collide(&rect(0, 0, 2, 2), &rect(0, 2, 2, 2)));
    assert!(!rectangles_collide(&rect(0, 0, 2, 2), &rect(5, 5, 2, 2)));
    assert!(rectangles_collide(&rect(0, 0, 10, 10), &rect(3, 3, 1, 1)));
    assert!(rectangles_collide(&rect(i64::MAX - 1, 0, 5, 5), &rect(i64::MAX, 1, 5, 5)));
}

#[test]
fn rectangle_test_agrees_with_the_interval_test() {
    for x in -6i64..7 {
        for y in -6i64..7 {
            for w in 1u32..4 {
                let a = rect(0, 0, 3, 2);
                let b = rect(x, y, w, 2);
                let expected = x < 3 && 0 < x + w as i64 && y < 2 && 0 < y + 2;
                assert_eq!(rectangles_collide(&a, &b), expected);
                assert_eq!(rectangles_collide(&b, &a), expected);
            }
        }
    }
}

#[test]
fn rectangles_separate_along_the_axis_of_least_overlap() {
    let mut a = rect(0, 0, 10, 10);
    let mut b = rect(8, 3, 10, 10);
    assert!(resolve_rectangles(&mut a, false, &mut b, false));
    assert_eq!(a.pos, pt(-1, 0));
    assert_eq!(b.pos, pt(9, 3));
    let mut a = rect(0, 0, 10, 10);
    let mut b = rect(3, 7, 10, 10);
    assert!(resolve_rectangles(&mut a, false, &mut b, false));
    assert_eq!(a.pos, pt(0, -1));
    assert_eq!(b.pos, pt(3, 9));
    assert_eq!(a.colour, Colour::highlight());
    assert_eq!(b.colour, Colour::highlight());
}

#[test]
fn an_odd_overlap_is_split_without_loss() {
    let mut a = rect(0, 0, 10, 10);
    let mut b = rect(7, 0, 10, 10);
    assert!(resolve_rectangles(&mut a, false, &mut b, false));
    assert_eq!(a.pos, pt(-1, 0));
    assert_eq!(b.pos, pt(9, 0));
    assert!(!rectangles_collide(&a, &b));
}

#[test]
fn the_rectangle_on_the_far_side_moves_the_far_way() {
    let mut a = rect(8, 3, 10, 10);
    let mut b = rect(0, 0, 10, 10);
    assert!(resolve_rectangles(&mut a, false, &mut b, false));
    assert_eq!(a.pos, pt(9, 3));
    assert_eq!(b.pos, pt(-1, 0));
    let mut a = rect(8, 3, 10, 10);
    let mut b = rect(0, 0, 10, 10);
    assert!(resolve_rectangles(&mut a, true, &mut b, false));
    assert_eq!(a.pos, pt(8, 3));
    assert_eq!(b.pos, pt(-2, 0));
}

#[test]
fn a_fixed_rectangle_leaves_the_whole_overlap_to_the_other() {
    let mut a = rect(0, 0, 2_000_000, 2_000_000);
    let mut b = rect(1_000_000, 1_000_000, 2_000_000, 2_000_000);
    assert!(resolve_rectangles(&mut a, false, &mut b, true));
    assert_eq!(a.pos, pt(-1_000_000, 0));
    assert_eq!(b.pos, pt(1_000_000, 1_000_000));
    let mut a = rect(0, 0, 2_000_000, 2_000_000);
    let mut b = rect(1_000_000, 1_500_000, 2_000_000, 2_000_000);
    assert!(resolve_rectangles(&mut a, false, &mut b, true));
    assert_eq!(a.pos, pt(0, -500_000));
    let mut a = rect(0, 0, 2_000_000, 2_000_000);
    let mut b = rect(1_000_000, 1_500_000, 2_000_000, 2_000_000);
    assert!(resolve_rectangles(&mut a, true, &mut b, true));
    assert_eq!(a.pos, pt(0, 0));
    assert_eq!(b.pos, pt(1_000_000, 1_500_000));
    assert_eq!(b.colour, Colour::highlight());
}

#[test]
fn rectangles_apart_are_left_alone() {
    let mut a = rect(0, 0, 2, 2);
    let mut b = rect(2, 0, 2, 2);
    assert!(!resolve_rectangles(&mut a, false, &mut b, false));
    assert_eq!(a, rect(0, 0, 2, 2));
    assert_eq!(b, rect(2, 0, 2, 2));
}

#[test]
fn resolving_rectangles_moves_along_one_axis_only() {
    for x in -4i64..5 {
        for y in -4i64..5 {
            let mut a = rect(0, 0, 3, 4);
            let mut b = rect(x, y, 4, 3);
            if resolve_rectangles(&mut a, false, &mut b, false) {
                let moved_x = a.pos.x != 0 || b.pos.x != x;
                let moved_y = a.pos.y != 0 || b.pos.y != y;
                assert!(moved_x != moved_y);
            }
        }
    }
}

#[test]
fn circle_and_rectangle_overlap_strictly_inside_the_radius() {
    let r = rect(3, 4, 10, 10);
    assert!(!circle_rectangle_collide(&circle(0, 0, 5), &r));
    assert!(circle_rectangle_collide(&circle(0, 0, 6), &r));
    assert!(circle_rectangle_collide(&circle(5, 5, 1), &r));
    assert!(!circle_rectangle_collide(&circle(5, 0, 4), &r));
    assert!(circle_rectangle_collide(&circle(5, 0, 5), &r));
    assert!(!circle_rectangle_collide(&circle(i64::MIN, i64::MIN, u32::MAX), &r));
}

#[test]
fn a_circle_is_pushed_off_the_side_of_a_rectangle() {
    let mut c = circle(0, 0, 1_000_000);
    let mut r = rect(500_000, -1_000_000, 2_000_000, 2_000_000);
    assert!(resolve_circle_rectangle(&mut c, false, &mut r, false));
    assert_eq!(c.pos, pt(-250_000, 0));
    assert_eq!(r.pos, pt(750_000, -1_000_000));
    assert_eq!(c.colour, Colour::highlight());
    assert_eq!(r.colour, Colour::highlight());
    let mut c = circle(0, 0, 1_000_000);
    let mut r = rect(500_000, -1_000_000, 2_000_000, 2_000_000);
    assert!(resolve_circle_rectangle(&mut c, false, &mut r, true));
    assert_eq!(c.pos, pt(-500_000, 0));
    assert_eq!(r.pos, pt(500_000, -1_000_000));
    let mut c = circle(0, 0, 1_000_000);
    let mut r = rect(500_000, -1_000_000, 2_000_000, 2_000_000);
    assert!(resolve_circle_rectangle(&mut c, true, &mut r, false));
    assert_eq!(c.pos, pt(0, 0));
    assert_eq!(r.pos, pt(1_000_000, -1_000_000));
}

#[test]
fn a_circle_is_pushed_off_the_corner_of_a_rectangle() {
    let mut c = circle(0, 0, 6);
    let mut r = rect(3, 4, 10, 10);
    assert!(resolve_circle_rectangle(&mut c, false, &mut r, false));
    assert_eq!(c.pos, pt(-1, -1));
    assert_eq!(r.pos, pt(4, 5));
}

#[test]
fn a_circle_centred_inside_a_rectangle_separates_along_x() {
    let mut c = circle(1_000_000, 1_000_000, 500_000);
    let mut r = rect(0, 0, 2_000_000, 2_000_000);
    assert!(resolve_circle_rectangle(&mut c, false, &mut r, false));
    assert_eq!(c.pos, pt(750_000, 1_000_000));
    assert_eq!(r.pos, pt(250_000, 0));
    let mut c = circle(1_000_000, 1_000_000, 500_000);
    let mut r = rect(0, 0, 2_000_000, 2_000_000);
    assert!(resolve_circle_rectangle(&mut c, false, &mut r, true));
    assert_eq!(c.pos, pt(500_000, 1_000_000));
}

#[test]
fn a_circle_apart_from_a_rectangle_is_left_alone() {
    let mut c = circle(0, 0, 5);
    let mut r = rect(3, 4, 10, 10);
    assert!(!resolve_circle_rectangle(&mut c, false, &mut r, false));
    assert_eq!(c, circle(0, 0, 5));
    assert_eq!(r, rect(3, 4, 10, 10));
}

#[test]
fn shapes_dispatch_on_both_kinds() {
    let c = Shape::Circle(circle(0, 0, 6));
    let d = Shape::Circle(circle(5, 0, 1));
    let r = Shape::Rectangle(rect(3, 4, 10, 10));
    let s = Shape::Rectangle(rect(12, 13, 2, 2));
    assert!(shapes_collide(&c, &d));
    assert!(shapes_collide(&c, &r));
    assert!(shapes_collide(&r, &c));
    assert!(shapes_collide(&r, &s));
    assert!(!shapes_collide(&c, &s));
    assert!(!shapes_collide(&s, &d));
}

#[test]
fn shape_resolution_in_either_order_moves_each_shape_alike() {
    let mut c = Shape::Circle(circle(0, 0, 6));
    let mut r = Shape::Rectangle(rect(3, 4, 10, 10));
    assert!(resolve_shapes(&mut c, false, &mut r, false));
    assert_eq!(c.get_position(), pt(-1, -1));
    assert_eq!(r.get_position(), pt(4, 5));
    let mut c = Shape::Circle(circle(0, 0, 6));
    let mut r = Shape::Rectangle(rect(3, 4, 10, 10));
    assert!(resolve_shapes(&mut r, false, &mut c, false));
    assert_eq!(c.get_position(), pt(-1, -1));
    assert_eq!(r.get_position(), pt(4, 5));
    let mut c = Shape::Circle(circle(0, 0, 6));
    let mut r = Shape::Rectangle(rect(3, 4, 10, 10));
    assert!(resolve_shapes(&mut r, true, &mut c, false));
    assert_eq!(c.get_position(), pt(-1, -1));
    assert_eq!(r.get_position(), pt(3, 4));
    assert_eq!(c.get_colour(), Colour::highlight());
    assert_eq!(r.get_colour(), Colour::highlight());
}

#[test]
fn shape_resolution_of_like_kinds() {
    let mut a = Shape::Circle(circle(0, 0, 1_000_000));
    let mut b = Shape::Circle(circle(1_500_000, 0, 1_000_000));
    assert!(resolve_shapes(&mut a, false, &mut b, false));
    assert_eq!(a.get_position(), pt(-250_000, 0));
    assert_eq!(b.get_position(), pt(1_750_000, 0));
    let mut a = Shape::Rectangle(rect(0, 0, 10, 10));
    let mut b = Shape::Rectangle(rect(8, 3, 10, 10));
    assert!(resolve_shapes(&mut a, false, &mut b, false));
    assert_eq!(a.get_position(), pt(-1, 0));
    assert_eq!(b.get_position(), pt(9, 3));
    let mut a = Shape::Rectangle(rect(0, 0, 10, 10));
    let mut b = Shape::Circle(circle(100, 100, 1));
    assert!(!resolve_shapes(&mut a, false, &mut b, false));
    assert_eq!(a, Shape::Rectangle(rect(0, 0, 10, 10)));
    assert_eq!(b, Shape::Circle(circle(100, 100, 1)));
}
