use sandbox2d::create_objects::{
    create_ball, create_ball_render, create_rectangle, create_rectangle_render, create_square,
    create_square_render, draw_preview, draw_process, draw_process_ball, draw_process_rectangle,
    draw_process_square, MouseMode,
};
use sandbox2d::geometry::Point;
use sandbox2d::objects::{PhysicsType, DEFAULT_GRAVITY};
use sandbox2d::shapes::{Circle, Colour, Rectangle, SandboxError, Shape};

fn pt(x: i64, y: i64) -> Point {
    Point { x, y }
}

fn grey() -> Colour {
    Colour { r: 9, g: 8, b: 7, a: 6 }
}

#[test]
fn a_square_opens_toward_the_second_point() {
    let r = create_square_render(pt(10, 10), pt(14, 17), grey()).unwrap();
    assert_eq!(r, Rectangle::new(pt(10, 10), 7, 7, grey()).unwrap());
    let r = create_square_render(pt(10, 10), pt(6, 17), grey()).unwrap();
    assert_eq!(r, Rectangle::new(pt(3, 10), 7, 7, grey()).unwrap());
    let r = create_square_render(pt(10, 10), pt(14, 3), grey()).unwrap();
    assert_eq!(r, Rectangle::new(pt(10, 3), 7, 7, grey()).unwrap());
    let r = create_square_render(pt(10, 10), pt(1, 9), grey()).unwrap();
    assert_eq!(r, Rectangle::new(pt(1, 1), 9, 9, grey()).unwrap());
    let r = create_square_render(pt(10, 10), pt(10, 12), grey()).unwrap();
    assert_eq!(r, Rectangle::new(pt(10, 10), 2, 2, grey()).unwrap());
}

#[test]
fn a_rectangle_spans_the_two_points() {
    let r = create_rectangle_render(pt(10, 10), pt(14, 17), grey()).unwrap();
    assert_eq!(r, Rectangle::new(pt(10, 10), 4, 7, grey()).unwrap());
    let r = create_rectangle_render(pt(10, 10), pt(6, 3), grey()).unwrap();
    assert_eq!(r, Rectangle::new(pt(6, 3), 4, 7, grey()).unwrap());
    let r = create_rectangle_render(pt(-10, 10), pt(6, -3), grey()).unwrap();
    assert_eq!(r, Rectangle::new(pt(-10, -3), 16, 13, grey()).unwrap());
}

#[test]
fn a_ball_is_centred_on_the_first_point() {
    let c = create_ball_render(pt(10, 10), pt(14, 17), grey()).unwrap();
    assert_eq!(c, Circle::new(pt(10, 10), 7, grey()).unwrap());
    let c = create_ball_render(pt(10, 10), pt(1, 17), grey()).unwrap();
    assert_eq!(c, Circle::new(pt(10, 10), 9, grey()).unwrap());
}

#[test]
fn a_drag_that_goes_nowhere_draws_nothing() {
    assert_eq!(create_square_render(pt(3, 3), pt(3, 3), grey()), Err(SandboxError::ZeroSize));
    assert_eq!(create_rectangle_render(pt(3, 3), pt(3, 3), grey()), Err(SandboxError::ZeroSize));
    assert_eq!(create_rectangle_render(pt(3, 3), pt(9, 3), grey()), Err(SandboxError::ZeroSize));
    assert_eq!(create_rectangle_render(pt(3, 3), pt(3, 9), grey()), Err(SandboxError::ZeroSize));
    assert_eq!(create_ball_render(pt(3, 3), pt(3, 3), grey()), Err(SandboxError::ZeroSize));
}

#[test]
fn a_drag_that_is_too_long_draws_nothing() {
    let far = u32::MAX as i64 + 1;
    assert_eq!(create_square_render(pt(0, 0), pt(far, 1), grey()), Err(SandboxError::TooLarge));
    assert_eq!(create_rectangle_render(pt(0, 0), pt(1, -far), grey()), Err(SandboxError::TooLarge));
    assert_eq!(create_ball_render(pt(0, 0), pt(-far, 0), grey()), Err(SandboxError::TooLarge));
    assert_eq!(
        create_ball_render(pt(i64::MIN, i64::MIN), pt(i64::MAX, i64::MAX), grey()),
        Err(SandboxError::TooLarge)
    );
    let ok = create_ball_render(pt(0, 0), pt(far - 1, 0), grey()).unwrap();
    assert_eq!(ok.radius.get(), u32::MAX);
}

#[test]
fn a_square_that_would_leave_the_range_is_not_drawn() {
    assert_eq!(
        create_square_render(pt(i64::MIN + 1, 0), pt(i64::MIN, 1_000), grey()),
        Err(SandboxError::OutOfRange)
    );
    let r = create_square_render(pt(i64::MIN + 1_000, 0), pt(i64::MIN, 1_000), grey()).unwrap();
    assert_eq!(r.pos, pt(i64::MIN, 0));
}

#[test]
fn drawn_bodies_are_static_white_and_have_a_default_mass() {
    let o = create_square(pt(0, 0), pt(2_000_000, 1_000_000)).unwrap();
    assert_eq!(o.shape, Shape::Rectangle(Rectangle::new(pt(0, 0), 2_000_000, 2_000_000, Colour::white()).unwrap()));
    assert_eq!(o.phys_type, PhysicsType::Static);
    assert_eq!(o.material.area(), 4_000_000);
    assert_eq!(o.material.mass(), 3_920_000);
    assert_eq!(o.material.density(), 980_000);
    assert_eq!((o.dx, o.dy, o.gravity, o.air_resistance, o.to_be_deleted), (0, 0, DEFAULT_GRAVITY, true, false));

    let o = create_rectangle(pt(2_000_000, 3_000_000), pt(0, 0)).unwrap();
    assert_eq!(o.shape, Shape::Rectangle(Rectangle::new(pt(0, 0), 2_000_000, 3_000_000, Colour::white()).unwrap()));
    assert_eq!(o.material.area(), 6_000_000);
    assert_eq!(o.material.mass(), 5_340_000);
    assert_eq!(o.phys_type, PhysicsType::Static);

    let o = create_ball(pt(5, 5), pt(5, 1_000_005)).unwrap();
    assert_eq!(o.shape, Shape::Circle(Circle::new(pt(5, 5), 1_000_000, Colour::white()).unwrap()));
    assert_eq!(o.material.area(), 3_141_592);
    assert_eq!(o.material.mass(), 3_078_760);
    assert_eq!(o.material.density(), 979_999);
    assert_eq!(o.phys_type, PhysicsType::Static);
}

#[test]
fn bodies_too_small_to_have_an_area_are_not_drawn() {
    assert_eq!(create_square(pt(0, 0), pt(999, 0)), Err(SandboxError::ZeroArea));
    assert_eq!(create_rectangle(pt(0, 0), pt(999, 1_000)), Err(SandboxError::ZeroArea));
    assert_eq!(create_ball(pt(0, 0), pt(564, 0)), Err(SandboxError::ZeroArea));
    assert_eq!(create_square(pt(0, 0), pt(0, 0)), Err(SandboxError::ZeroSize));
    assert_eq!(create_rectangle(pt(0, 0), pt(5_000_000_000, 5)), Err(SandboxError::TooLarge));
    assert_eq!(create_ball(pt(0, 0), pt(0, 0)), Err(SandboxError::ZeroSize));
    assert!(create_square(pt(0, 0), pt(1_000, 0)).is_ok());
    assert!(create_ball(pt(0, 0), pt(565, 0)).is_ok());
}

#[test]
fn a_gesture_remembers_where_it_began() {
    for mode in [MouseMode::DrawSquare, MouseMode::DrawRectangle, MouseMode::DrawBall] {
        let mut first = None;
        assert!(!draw_process(mode, &mut first, false, pt(1, 1)));
        assert_eq!(first, None);
        assert!(!draw_process(mode, &mut first, true, pt(2, 2)));
        assert_eq!(first, Some(pt(2, 2)));
        assert!(!draw_process(mode, &mut first, true, pt(3, 3)));
        assert_eq!(first, Some(pt(2, 2)));
        assert!(draw_process(mode, &mut first, false, pt(4, 4)));
        assert_eq!(first, Some(pt(2, 2)));
    }
}

#[test]
fn dragging_is_no_gesture() {
    let mut first = None;
    assert!(!draw_process(MouseMode::Drag, &mut first, true, pt(2, 2)));
    assert_eq!(first, None);
    let mut first = Some(pt(1, 1));
    assert!(!draw_process(MouseMode::Drag, &mut first, false, pt(2, 2)));
    assert_eq!(first, Some(pt(1, 1)));
    assert_eq!(draw_preview(MouseMode::Drag, &Some(pt(1, 1)), true, pt(5, 5)), None);
}

#[test]
fn the_preview_follows_the_cursor() {
    let first = Some(pt(10, 10));
    assert_eq!(
        draw_preview(MouseMode::DrawSquare, &first, true, pt(14, 17)),
        Some(Shape::Rectangle(Rectangle::new(pt(10, 10), 7, 7, Colour::purple()).unwrap()))
    );
    assert_eq!(
        draw_preview(MouseMode::DrawRectangle, &first, true, pt(14, 17)),
        Some(Shape::Rectangle(Rectangle::new(pt(10, 10), 4, 7, Colour::purple()).unwrap()))
    );
    assert_eq!(
        draw_preview(MouseMode::DrawBall, &first, true, pt(14, 17)),
        Some(Shape::Circle(Circle::new(pt(10, 10), 7, Colour::purple()).unwrap()))
    );
    assert_eq!(draw_preview(MouseMode::DrawBall, &first, true, pt(10, 10)), None);
    assert_eq!(draw_preview(MouseMode::DrawBall, &first, false, pt(14, 17)), None);
    assert_eq!(draw_preview(MouseMode::DrawBall, &None, true, pt(14, 17)), None);
}

#[test]
fn a_finished_gesture_yields_a_body_once() {
    let mut first = None;
    assert_eq!(draw_process_square(&mut first, true, pt(0, 0)), None);
    assert_eq!(first, Some(pt(0, 0)));
    assert_eq!(draw_process_square(&mut first, true, pt(1_000_000, 500_000)), None);
    assert_eq!(first, Some(pt(0, 0)));
    let body = draw_process_square(&mut first, false, pt(2_000_000, 1_000_000));
    assert_eq!(body, Some(create_square(pt(0, 0), pt(2_000_000, 1_000_000)).unwrap()));
    assert_eq!(first, None);
    assert_eq!(draw_process_square(&mut first, false, pt(2_000_000, 1_000_000)), None);
    assert_eq!(first, None);
}

#[test]
fn a_finished_gesture_in_each_mode() {
    let mut first = Some(pt(2_000_000, 3_000_000));
    let body = draw_process_rectangle(&mut first, false, pt(0, 0));
    assert_eq!(body, Some(create_rectangle(pt(2_000_000, 3_000_000), pt(0, 0)).unwrap()));
    assert_eq!(first, None);
    let mut first = Some(pt(5, 5));
    let body = draw_process_ball(&mut first, false, pt(5, 1_000_005));
    assert_eq!(body, Some(create_ball(pt(5, 5), pt(5, 1_000_005)).unwrap()));
    assert_eq!(first, None);
    let mut first = None;
    assert_eq!(draw_process_ball(&mut first, true, pt(7, 7)), None);
    assert_eq!(first, Some(pt(7, 7)));
    let mut first = None;
    assert_eq!(draw_process_rectangle(&mut first, true, pt(8, 8)), None);
    assert_eq!(first, Some(pt(8, 8)));
}

#[test]
fn a_gesture_that_draws_nothing_is_forgotten() {
    let mut first = Some(pt(5, 5));
    assert_eq!(draw_process_ball(&mut first, false, pt(5, 5)), None);
    assert_eq!(first, None);
    let mut first = Some(pt(5, 5));
    assert_eq!(draw_process_square(&mut first, false, pt(6, 5)), None);
    assert_eq!(first, None);
    let mut first = Some(pt(5, 5));
    assert_eq!(draw_process_rectangle(&mut first, false, pt(5_000_000, 5)), None);
    assert_eq!(first, None);
}

#[test]
fn a_mode_button_switches_its_mode_on_and_off() {
    assert_eq!(MouseMode::Drag.toggled(MouseMode::DrawBall), MouseMode::DrawBall);
    assert_eq!(MouseMode::DrawBall.toggled(MouseMode::DrawBall), MouseMode::Drag);
    assert_eq!(MouseMode::DrawBall.toggled(MouseMode::DrawSquare), MouseMode::DrawSquare);
    assert_eq!(MouseMode::DrawSquare.toggled(MouseMode::DrawRectangle), MouseMode::DrawRectangle);
    assert_eq!(MouseMode::Drag.toggled(MouseMode::Drag), MouseMode::Drag);
}
