//! Drawing bodies: from the two points of a drag gesture to a shape, and
//! from the state of the pointer to the progress of the gesture.

use vstd::prelude::*;
use crate::geometry::Point;
use crate::objects::{Object, PhysicsType};
use crate::shapes::{lemma_length_range, Circle, Colour, Length, Rectangle, SandboxError, Shape};
use crate::units::{gap, magnitude};

verus! {

/// What the pointer is used for.
#[derive(Clone, Copy, Debug, PartialEq, Eq, Structural)]
pub enum MouseMode {
    Drag,
    DrawSquare,
    DrawRectangle,
    DrawBall,
}

impl MouseMode {
    /// The mode after the button of mode `pressed` has been pressed: that
    /// mode, or dragging if that mode was already on.
    pub open spec fn spec_toggled(self, pressed: MouseMode) -> MouseMode {
        if self == pressed {
            MouseMode::Drag
        } else {
            pressed
        }
    }

    #[verifier::when_used_as_spec(spec_toggled)]
    pub fn toggled(self, pressed: MouseMode) -> (mode: MouseMode)
        ensures
            mode == self.spec_toggled(pressed),
    {
        if self == pressed {
            MouseMode::Drag
        } else {
            pressed
        }
    }
}

/// The larger of the distances of two points along x and along y.
pub open spec fn reach(pos1: Point, pos2: Point) -> int {
    vstd::math::max(magnitude(pos2.x - pos1.x), magnitude(pos2.y - pos1.y))
}

/// Where a box of the given extent that is anchored at `from` and opens
/// toward `to` begins, along one axis.
pub open spec fn box_start(from: int, to: int, extent: int) -> int {
    if to >= from {
        from
    } else {
        from - extent
    }
}

/// Why no shape can be drawn with the given extents and corner, if none
/// can.
pub open spec fn box_fault(x: int, y: int, width: int, height: int) -> Option<SandboxError> {
    if width == 0 || height == 0 {
        Some(SandboxError::ZeroSize)
    } else if width > u32::MAX || height > u32::MAX {
        Some(SandboxError::TooLarge)
    } else if x < i64::MIN || y < i64::MIN {
        Some(SandboxError::OutOfRange)
    } else {
        None
    }
}

/// The rectangle with the given corner, extents and colour, or the fault
/// that stands in its way.
pub open spec fn boxed(x: int, y: int, width: int, height: int, colour: Colour) -> Result<
    Rectangle,
    SandboxError,
> {
    match box_fault(x, y, width, height) {
        Some(e) => Err(e),
        None => Ok(
            Rectangle {
                pos: Point { x: x as i64, y: y as i64 },
                width: Length::of(width),
                height: Length::of(height),
                colour,
            },
        ),
    }
}

/// Computes [`box_start`], or nothing if it lies below the coordinate
/// range.
fn start_of(from: i64, to: i64, extent: u64) -> (s: Option<i64>)
    requires
        extent <= u32::MAX,
    ensures
        box_start(from as int, to as int, extent as int) < i64::MIN ==> s is None,
        box_start(from as int, to as int, extent as int) >= i64::MIN ==> s == Some(
            box_start(from as int, to as int, extent as int) as i64,
        ),
{
    if to >= from {
        Some(from)
    } else {
        let start: i128 = from as i128 - extent as i128;
        if start < i64::MIN as i128 {
            None
        } else {
            Some(start as i64)
        }
    }
}

/// Builds the rectangle with the given extents that is anchored at `pos1`
/// and opens toward `pos2`.
fn make_box(pos1: Point, pos2: Point, width: u64, height: u64, colour: Colour) -> (r: Result<
    Rectangle,
    SandboxError,
>)
    ensures
        r == boxed(
            box_start(pos1.x as int, pos2.x as int, width as int),
            box_start(pos1.y as int, pos2.y as int, height as int),
            width as int,
            height as int,
            colour,
        ),
{
    if width == 0 || height == 0 {
        return Err(SandboxError::ZeroSize);
    }
    if width > u32::MAX as u64 || height > u32::MAX as u64 {
        return Err(SandboxError::TooLarge);
    }
    match (start_of(pos1.x, pos2.x, width), start_of(pos1.y, pos2.y, height)) {
        (Some(x), Some(y)) => {
            let r = Rectangle::new(Point { x, y }, width as u32, height as u32, colour);
            proof {
                if let Ok(rect) = r {
                    lemma_length_range(rect.width);
                    lemma_length_range(rect.height);
                }
            }
            r
        },
        _ => Err(SandboxError::OutOfRange),
    }
}

/// The square that a drag from `pos1` to `pos2` draws: one corner at
/// `pos1`, opening toward `pos2`, its side the larger of the two distances
/// along the axes.  A drag that goes nowhere draws nothing; neither does
/// one whose square would not fit.
pub open spec fn square_render(pos1: Point, pos2: Point, colour: Colour) -> Result<
    Rectangle,
    SandboxError,
> {
    boxed(
        box_start(pos1.x as int, pos2.x as int, reach(pos1, pos2)),
        box_start(pos1.y as int, pos2.y as int, reach(pos1, pos2)),
        reach(pos1, pos2),
        reach(pos1, pos2),
        colour,
    )
}

/// The rectangle that a drag from `pos1` to `pos2` draws: the one with
/// these two corners.  A drag along one axis only draws nothing.
pub open spec fn rectangle_render(pos1: Point, pos2: Point, colour: Colour) -> Result<
    Rectangle,
    SandboxError,
> {
    boxed(
        vstd::math::min(pos1.x as int, pos2.x as int),
        vstd::math::min(pos1.y as int, pos2.y as int),
        magnitude(pos2.x - pos1.x),
        magnitude(pos2.y - pos1.y),
        colour,
    )
}

/// The circle that a drag from `pos1` to `pos2` draws: centred on `pos1`,
/// its radius the larger of the two distances along the axes.
pub open spec fn ball_render(pos1: Point, pos2: Point, colour: Colour) -> Result<
    Circle,
    SandboxError,
> {
    if reach(pos1, pos2) == 0 {
        Err(SandboxError::ZeroSize)
    } else if reach(pos1, pos2) > u32::MAX {
        Err(SandboxError::TooLarge)
    } else {
        Ok(Circle { pos: pos1, radius: Length::of(reach(pos1, pos2)), colour })
    }
}

/// Computes [`square_render`].
pub fn create_square_render(pos1: Point, pos2: Point, colour: Colour) -> (r: Result<
    Rectangle,
    SandboxError,
>)
    ensures
        r == square_render(pos1, pos2, colour),
        r matches Ok(rect) ==> rect.well_formed(),
{
    let dx = gap(pos2.x, pos1.x);
    let dy = gap(pos2.y, pos1.y);
    let side = if dx >= dy {
        dx
    } else {
        dy
    };
    make_box(pos1, pos2, side, side, colour)
}

/// Computes [`rectangle_render`].
pub fn create_rectangle_render(pos1: Point, pos2: Point, colour: Colour) -> (r: Result<
    Rectangle,
    SandboxError,
>)
    ensures
        r == rectangle_render(pos1, pos2, colour),
        r matches Ok(rect) ==> rect.well_formed(),
{
    make_box(pos1, pos2, gap(pos2.x, pos1.x), gap(pos2.y, pos1.y), colour)
}

/// Computes [`ball_render`].
pub fn create_ball_render(pos1: Point, pos2: Point, colour: Colour) -> (r: Result<
    Circle,
    SandboxError,
>)
    ensures
        r == ball_render(pos1, pos2, colour),
        r matches Ok(c) ==> c.well_formed(),
{
    let dx = gap(pos2.x, pos1.x);
    let dy = gap(pos2.y, pos1.y);
    let radius = if dx >= dy {
        dx
    } else {
        dy
    };
    if radius > u32::MAX as u64 {
        Err(SandboxError::TooLarge)
    } else {
        let r = Circle::new(pos1, radius as u32, colour);
        proof {
            if let Ok(c) = r {
                lemma_length_range(c.radius);
            }
        }
        r
    }
}

/// The mass of a newly drawn body of the given area: `percent` hundredths
/// of a mass unit per square unit.
pub open spec fn default_mass(area: int, percent: int) -> int {
    (area * percent) / 100
}

/// The static body of the given shape and default mass, or the fault that
/// stands in its way.
pub open spec fn drawn(shape: Result<Shape, SandboxError>, percent: int) -> Result<
    Object,
    SandboxError,
> {
    match shape {
        Err(e) => Err(e),
        Ok(s) => Object::spec_create(s, default_mass(s.area(), percent), PhysicsType::Static),
    }
}

/// Gives a shape its default material and makes it a static body.
fn embody(shape: Shape, percent: u64) -> (r: Result<Object, SandboxError>)
    requires
        percent <= 100,
    ensures
        r == drawn(Ok(shape), percent as int),
{
    let area = shape.get_area();
    proof {
        crate::units::lemma_product_bound(
            area as int,
            percent as int,
            crate::shapes::MAX_AREA as int,
            100,
        );
    }
    Object::create(shape, (area * percent) / 100, PhysicsType::Static)
}

/// [`Shape::Rectangle`] under a `Result`.
pub open spec fn as_rectangle(r: Result<Rectangle, SandboxError>) -> Result<Shape, SandboxError> {
    match r {
        Ok(rect) => Ok(Shape::Rectangle(rect)),
        Err(e) => Err(e),
    }
}

/// [`Shape::Circle`] under a `Result`.
pub open spec fn as_circle(r: Result<Circle, SandboxError>) -> Result<Shape, SandboxError> {
    match r {
        Ok(c) => Ok(Shape::Circle(c)),
        Err(e) => Err(e),
    }
}

/// The body that a drag draws in square mode: a static square in white, of
/// mass 0.98 per unit of area.
pub open spec fn square_object(pos_1: Point, pos_2: Point) -> Result<Object, SandboxError> {
    drawn(as_rectangle(square_render(pos_1, pos_2, Colour::spec_white())), 98)
}

/// The body that a drag draws in rectangle mode: a static rectangle in
/// white, of mass 0.89 per unit of area.
pub open spec fn rectangle_object(pos1: Point, pos2: Point) -> Result<Object, SandboxError> {
    drawn(as_rectangle(rectangle_render(pos1, pos2, Colour::spec_white())), 89)
}

/// The body that a drag draws in ball mode: a static circle in white, of
/// mass 0.98 per unit of area.
pub open spec fn ball_object(pos1: Point, pos2: Point) -> Result<Object, SandboxError> {
    drawn(as_circle(ball_render(pos1, pos2, Colour::spec_white())), 98)
}

/// Computes [`square_object`].
pub fn create_square(pos_1: Point, pos_2: Point) -> (r: Result<Object, SandboxError>)
    ensures
        r == square_object(pos_1, pos_2),
{
    match create_square_render(pos_1, pos_2, Colour::white()) {
        Ok(square) => embody(Shape::Rectangle(square), 98),
        Err(e) => Err(e),
    }
}

/// Computes [`rectangle_object`].
pub fn create_rectangle(pos1: Point, pos2: Point) -> (r: Result<Object, SandboxError>)
    ensures
        r == rectangle_object(pos1, pos2),
{
    match create_rectangle_render(pos1, pos2, Colour::white()) {
        Ok(rect) => embody(Shape::Rectangle(rect), 89),
        Err(e) => Err(e),
    }
}

/// Computes [`ball_object`].
pub fn create_ball(pos1: Point, pos2: Point) -> (r: Result<Object, SandboxError>)
    ensures
        r == ball_object(pos1, pos2),
{
    match create_ball_render(pos1, pos2, Colour::white()) {
        Ok(circle) => embody(Shape::Circle(circle), 98),
        Err(e) => Err(e),
    }
}

/// What is to be shown of a gesture in progress.
pub open spec fn preview_of(mouse_mode: MouseMode, pos1: Point, pos2: Point) -> Option<Shape> {
    match mouse_mode {
        MouseMode::Drag => None,
        MouseMode::DrawSquare => match square_render(pos1, pos2, Colour::spec_purple()) {
            Ok(r) => Some(Shape::Rectangle(r)),
            Err(_) => None,
        },
        MouseMode::DrawRectangle => match rectangle_render(pos1, pos2, Colour::spec_purple()) {
            Ok(r) => Some(Shape::Rectangle(r)),
            Err(_) => None,
        },
        MouseMode::DrawBall => match ball_render(pos1, pos2, Colour::spec_purple()) {
            Ok(c) => Some(Shape::Circle(c)),
            Err(_) => None,
        },
    }
}

/// The shape to show while a gesture is in progress: the shape that the
/// gesture would draw if it ended at `cursor`, in the preview colour.
/// Nothing is to be shown outside a gesture, that is unless the button is
/// down and a first point is remembered, nor when the shape cannot be
/// built.
pub fn draw_preview(
    mouse_mode: MouseMode,
    first_mouse_pos: &Option<Point>,
    button_down: bool,
    cursor: Point,
) -> (shape: Option<Shape>)
    ensures
        shape == (if button_down && first_mouse_pos is Some {
            preview_of(mouse_mode, first_mouse_pos->0, cursor)
        } else {
            None
        }),
{
    if !button_down {
        return None;
    }
    match first_mouse_pos {
        None => None,
        Some(pos1) => match mouse_mode {
            MouseMode::Drag => None,
            MouseMode::DrawSquare => match create_square_render(*pos1, cursor, Colour::purple()) {
                Ok(r) => Some(Shape::Rectangle(r)),
                Err(_) => None,
            },
            MouseMode::DrawRectangle => match create_rectangle_render(
                *pos1,
                cursor,
                Colour::purple(),
            ) {
                Ok(r) => Some(Shape::Rectangle(r)),
                Err(_) => None,
            },
            MouseMode::DrawBall => match create_ball_render(*pos1, cursor, Colour::purple()) {
                Ok(c) => Some(Shape::Circle(c)),
                Err(_) => None,
            },
        },
    }
}

/// The first point of the gesture after the pointer has been looked at: in
/// a drawing mode, the place where the button went down is remembered
/// until the gesture is taken up, and nothing is remembered between
/// gestures.
pub open spec fn remembered(
    mouse_mode: MouseMode,
    first: Option<Point>,
    button_down: bool,
    cursor: Point,
) -> Option<Point> {
    if mouse_mode is Drag {
        first
    } else if button_down {
        if first is Some {
            first
        } else {
            Some(cursor)
        }
    } else {
        first
    }
}

/// Follows a drawing gesture.  While the button is down the gesture is in
/// progress: its first point is remembered when the button goes down.  The
/// result is `true` when the button is up and a first point is remembered:
/// the gesture is complete, and the caller builds the body and forgets the
/// point.  In drag mode nothing happens.
pub fn draw_process(
    mouse_mode: MouseMode,
    first_mouse_pos: &mut Option<Point>,
    button_down: bool,
    cursor: Point,
) -> (complete: bool)
    ensures
        *final(first_mouse_pos) == remembered(
            mouse_mode,
            *old(first_mouse_pos),
            button_down,
            cursor,
        ),
        complete == (!(mouse_mode is Drag) && !button_down && *old(first_mouse_pos) is Some),
{
    match mouse_mode {
        MouseMode::Drag => false,
        _ => {
            if button_down {
                if first_mouse_pos.is_none() {
                    *first_mouse_pos = Some(cursor);
                }
                false
            } else {
                first_mouse_pos.is_some()
            }
        },
    }
}

/// Follows a gesture in square mode and, when it is complete, builds the
/// body from the remembered point and `cursor` and forgets the point.
/// Nothing is returned while the gesture is in progress, nor for a gesture
/// that draws no body.
pub fn draw_process_square(first_mouse_pos: &mut Option<Point>, button_down: bool, cursor: Point)
    -> (body: Option<Object>)
    ensures
        !button_down ==> *final(first_mouse_pos) == None::<Point>,
        button_down ==> *final(first_mouse_pos) == remembered(
            MouseMode::DrawSquare,
            *old(first_mouse_pos),
            button_down,
            cursor,
        ),
        body == (if !button_down && *old(first_mouse_pos) is Some {
            ok_of(square_object(old(first_mouse_pos)->0, cursor))
        } else {
            None
        }),
{
    if draw_process(MouseMode::DrawSquare, first_mouse_pos, button_down, cursor) {
        if let Some(pos1) = *first_mouse_pos {
            let square = create_square(pos1, cursor);
            *first_mouse_pos = None;
            return keep_ok(square);
        }
    }
    None
}

/// Follows a gesture in rectangle mode; see [`draw_process_square`].
pub fn draw_process_rectangle(
    first_mouse_pos: &mut Option<Point>,
    button_down: bool,
    cursor: Point,
) -> (body: Option<Object>)
    ensures
        !button_down ==> *final(first_mouse_pos) == None::<Point>,
        button_down ==> *final(first_mouse_pos) == remembered(
            MouseMode::DrawRectangle,
            *old(first_mouse_pos),
            button_down,
            cursor,
        ),
        body == (if !button_down && *old(first_mouse_pos) is Some {
            ok_of(rectangle_object(old(first_mouse_pos)->0, cursor))
        } else {
            None
        }),
{
    if draw_process(MouseMode::DrawRectangle, first_mouse_pos, button_down, cursor) {
        if let Some(pos1) = *first_mouse_pos {
            let rectangle = create_rectangle(pos1, cursor);
            *first_mouse_pos = None;
            return keep_ok(rectangle);
        }
    }
    None
}

/// Follows a gesture in ball mode; see [`draw_process_square`].
pub fn draw_process_ball(first_mouse_pos: &mut Option<Point>, button_down: bool, cursor: Point)
    -> (body: Option<Object>)
    ensures
        !button_down ==> *final(first_mouse_pos) == None::<Point>,
        button_down ==> *final(first_mouse_pos) == remembered(
            MouseMode::DrawBall,
            *old(first_mouse_pos),
            button_down,
            cursor,
        ),
        body == (if !button_down && *old(first_mouse_pos) is Some {
            ok_of(ball_object(old(first_mouse_pos)->0, cursor))
        } else {
            None
        }),
{
    if draw_process(MouseMode::DrawBall, first_mouse_pos, button_down, cursor) {
        if let Some(pos1) = *first_mouse_pos {
            let ball = create_ball(pos1, cursor);
            *first_mouse_pos = None;
            return keep_ok(ball);
        }
    }
    None
}

/// The body of a `Result`, if it holds one.
pub open spec fn ok_of(r: Result<Object, SandboxError>) -> Option<Object> {
    match r {
        Ok(o) => Some(o),
        Err(_) => None,
    }
}

/// Computes [`ok_of`].
fn keep_ok(r: Result<Object, SandboxError>) -> (o: Option<Object>)
    ensures
        o == ok_of(r),
{
    match r {
        Ok(o) => Some(o),
        Err(_) => None,
    }
}

} // verus!
