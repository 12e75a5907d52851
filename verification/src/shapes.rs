//! The shapes a body can have: circles and axis-aligned rectangles.
//!
//! A circle is placed by its centre, a rectangle or square by its corner of
//! least `x` and `y`.  Every size is a [`Length`], a strictly positive
//! number of raw units, so a shape without extent cannot be built.

use vstd::prelude::*;
use crate::geometry::Point;
use crate::units::{SCALE, lemma_product_bound};

verus! {

/// Why a value was refused.
#[derive(Clone, Copy, Debug, PartialEq, Eq, Structural)]
pub enum SandboxError {
    /// A radius, width or height of zero.
    ZeroSize,
    /// A size that does not fit the range of a [`Length`].
    TooLarge,
    /// An area that is zero once rounded down to raw units.
    ZeroArea,
    /// A quantity that the material cannot represent.
    OutOfRange,
}

/// A colour: red, green, blue and opacity, each from 0 to 255.
#[derive(Clone, Copy, Debug, PartialEq, Eq, Structural)]
pub struct Colour {
    pub r: u8,
    pub g: u8,
    pub b: u8,
    pub a: u8,
}

impl Colour {
    pub open spec fn spec_white() -> Colour {
        Colour { r: 255, g: 255, b: 255, a: 255 }
    }

    pub open spec fn spec_purple() -> Colour {
        Colour { r: 200, g: 122, b: 255, a: 255 }
    }

    pub open spec fn spec_highlight() -> Colour {
        Colour { r: 230, g: 41, b: 55, a: 255 }
    }

    /// The colour of the outline of a shape filled with this colour: black,
    /// as opaque as the fill.
    pub open spec fn spec_outline(&self) -> Colour {
        Colour { r: 0, g: 0, b: 0, a: self.a }
    }

    #[verifier::when_used_as_spec(spec_outline)]
    pub fn outline(&self) -> (c: Colour)
        ensures
            c == self.spec_outline(),
    {
        Colour { r: 0, g: 0, b: 0, a: self.a }
    }

    /// The colour of a newly drawn body.
    #[verifier::when_used_as_spec(spec_white)]
    pub fn white() -> (c: Colour)
        ensures
            c == Colour::spec_white(),
    {
        Colour { r: 255, g: 255, b: 255, a: 255 }
    }

    /// The colour of the preview shown while a body is being drawn.
    #[verifier::when_used_as_spec(spec_purple)]
    pub fn purple() -> (c: Colour)
        ensures
            c == Colour::spec_purple(),
    {
        Colour { r: 200, g: 122, b: 255, a: 255 }
    }

    /// The colour that marks a body as having collided.
    #[verifier::when_used_as_spec(spec_highlight)]
    pub fn highlight() -> (c: Colour)
        ensures
            c == Colour::spec_highlight(),
    {
        Colour { r: 230, g: 41, b: 55, a: 255 }
    }
}

/// A strictly positive length in raw units.
#[derive(Clone, Copy, Debug, PartialEq, Eq, Structural)]
pub struct Length {
    pub(crate) raw: u32,
}

impl Length {
    /// The length as a number.
    pub open(crate) spec fn value(&self) -> int {
        self.raw as int
    }

    #[verifier::type_invariant]
    pub open(crate) spec fn well_formed(&self) -> bool {
        self.raw > 0
    }

    /// The length of `v` raw units, for `v` from one to the largest `u32`.
    pub open(crate) spec fn of(v: int) -> Length {
        Length { raw: v as u32 }
    }

    /// The length of `raw` units, or nothing for zero.
    pub fn new(raw: u32) -> (r: Option<Length>)
        ensures
            r is Some <==> raw > 0,
            r matches Some(l) ==> l == Length::of(raw as int) && l.value() == raw
                && l.well_formed(),
    {
        if raw == 0 {
            None
        } else {
            Some(Length { raw })
        }
    }

    pub fn get(&self) -> (raw: u32)
        ensures
            raw == self.value(),
            raw > 0,
    {
        proof {
            use_type_invariant(self);
        }
        self.raw
    }
}

/// Every length lies between one raw unit and the largest `u32`.
pub proof fn lemma_length_range(l: Length)
    ensures
        l.value() <= u32::MAX,
        l.well_formed() <==> l.value() > 0,
        l == Length::of(l.value()),
{
}

/// A number between one and the largest `u32` is the value of the length
/// made of it.
pub proof fn lemma_length_of(v: int)
    requires
        0 < v <= u32::MAX,
    ensures
        Length::of(v).value() == v,
        Length::of(v).well_formed(),
{
}

/// The kind of a shape: the tag by which the collision resolver dispatches.
#[derive(Clone, Copy, Debug, PartialEq, Eq, Structural)]
pub enum ShapeKind {
    Circle,
    Rectangle,
    Square,
}

/// Drag coefficient of a circle, in hundredths.
pub const CIRCLE_DRAG: u32 = 47;

/// Drag coefficient of a rectangle or square, in hundredths.
pub const RECTANGLE_DRAG: u32 = 105;

/// The circle constant times ten to the ninth, rounded to nearest.
pub const PI_BILLIONTHS: u64 = 3_141_592_654;

/// No shape has a larger area than this, in raw units.
pub const MAX_AREA: u64 = 57_952_155_645_197;

/// Area of a circle of radius `r`, in raw units, rounded down.
pub open spec fn circle_area(r: int) -> int {
    (r * r * PI_BILLIONTHS) / 1_000_000_000_000_000
}

/// Area of a `w` by `h` rectangle, in raw units, rounded down.
pub open spec fn rectangle_area(w: int, h: int) -> int {
    (w * h) / (SCALE as int)
}

/// The area of a shape whose sizes fit a [`Length`] is at most
/// [`MAX_AREA`] and not negative.
pub proof fn lemma_areas_bounded(w: int, h: int)
    requires
        0 <= w <= u32::MAX,
        0 <= h <= u32::MAX,
    ensures
        0 <= circle_area(w) <= MAX_AREA,
        0 <= rectangle_area(w, h) <= MAX_AREA,
{
    lemma_product_bound(w, w, 0xffff_ffff, 0xffff_ffff);
    lemma_product_bound(w, h, 0xffff_ffff, 0xffff_ffff);
    lemma_product_bound(w * w, PI_BILLIONTHS as int, 0xffff_ffffint * 0xffff_ffffint, 3_141_592_654);
    vstd::arithmetic::div_mod::lemma_div_is_ordered(
        w * w * PI_BILLIONTHS,
        0xffff_ffffint * 0xffff_ffffint * 3_141_592_654,
        1_000_000_000_000_000,
    );
    vstd::arithmetic::div_mod::lemma_div_is_ordered(
        w * h,
        0xffff_ffffint * 0xffff_ffffint,
        1_000_000,
    );
    vstd::arithmetic::div_mod::lemma_div_pos_is_pos(w * w * PI_BILLIONTHS, 1_000_000_000_000_000);
    vstd::arithmetic::div_mod::lemma_div_pos_is_pos(w * h, 1_000_000);
}

/// A circle.
#[derive(Clone, Copy, Debug, PartialEq, Eq, Structural)]
pub struct Circle {
    /// The centre.
    pub pos: Point,
    pub radius: Length,
    pub colour: Colour,
}

/// An axis-aligned rectangle.
#[derive(Clone, Copy, Debug, PartialEq, Eq, Structural)]
pub struct Rectangle {
    /// The corner of least `x` and `y`.
    pub pos: Point,
    pub width: Length,
    pub height: Length,
    pub colour: Colour,
}

/// An axis-aligned square.
#[derive(Clone, Copy, Debug, PartialEq, Eq, Structural)]
pub struct Square {
    /// The corner of least `x` and `y`.
    pub pos: Point,
    pub size: Length,
    pub colour: Colour,
}

/// Computes the area of a circle of radius `r`.
fn area_of_circle(r: u32) -> (a: u64)
    ensures
        a == circle_area(r as int),
        a <= MAX_AREA,
{
    proof {
        lemma_areas_bounded(r as int, r as int);
        lemma_product_bound(r as int, r as int, 0xffff_ffff, 0xffff_ffff);
        lemma_product_bound(
            r * r,
            PI_BILLIONTHS as int,
            0xffff_ffffint * 0xffff_ffffint,
            3_141_592_654,
        );
    }
    let rr: u128 = (r as u128) * (r as u128);
    let scaled: u128 = rr * (PI_BILLIONTHS as u128);
    (scaled / 1_000_000_000_000_000) as u64
}

/// Computes the area of a `w` by `h` rectangle.
fn area_of_rectangle(w: u32, h: u32) -> (a: u64)
    ensures
        a == rectangle_area(w as int, h as int),
        a <= MAX_AREA,
{
    proof {
        lemma_areas_bounded(w as int, h as int);
        lemma_product_bound(w as int, h as int, 0xffff_ffff, 0xffff_ffff);
    }
    let wh: u64 = (w as u64) * (h as u64);
    wh / SCALE
}

/// Whether `p` is no further than `r` from `c`.
fn within_radius(c: Point, r: u32, p: Point) -> (b: bool)
    ensures
        b == (crate::geometry::dist2(c, p) <= r * r),
{
    let dx: u128 = crate::units::gap(p.x, c.x) as u128;
    let dy: u128 = crate::units::gap(p.y, c.y) as u128;
    let r: u128 = r as u128;
    proof {
        assert((p.x - c.x) * (p.x - c.x) == dx * dx) by (nonlinear_arith)
            requires
                dx == p.x - c.x || dx == c.x - p.x,
        ;
        assert((p.y - c.y) * (p.y - c.y) == dy * dy) by (nonlinear_arith)
            requires
                dy == p.y - c.y || dy == c.y - p.y,
        ;
        assert(dy * dy >= 0) by (nonlinear_arith);
        assert(dx * dx >= 0) by (nonlinear_arith);
        assert(dx > r ==> dx * dx > r * r) by (nonlinear_arith)
            requires
                0 <= r,
        ;
        assert(dy > r ==> dy * dy > r * r) by (nonlinear_arith)
            requires
                0 <= r,
        ;
        assert(dx <= r ==> dx * dx <= 0xffff_ffff * 0xffff_ffff) by (nonlinear_arith)
            requires
                0 <= dx,
                r <= 0xffff_ffff,
        ;
        assert(dy <= r ==> dy * dy <= 0xffff_ffff * 0xffff_ffff) by (nonlinear_arith)
            requires
                0 <= dy,
                r <= 0xffff_ffff,
        ;
        assert(r * r <= 0xffff_ffff * 0xffff_ffff) by (nonlinear_arith)
            requires
                0 <= r <= 0xffff_ffff,
        ;
    }
    if dx > r || dy > r {
        false
    } else {
        dx * dx + dy * dy <= r * r
    }
}

/// Whether `p` lies in the closed box with corner `pos` and the given
/// extents.
fn within_box(pos: Point, w: u32, h: u32, p: Point) -> (b: bool)
    ensures
        b == (pos.x <= p.x <= pos.x + w && pos.y <= p.y <= pos.y + h),
{
    pos.x <= p.x && (p.x as i128) <= (pos.x as i128) + (w as i128) && pos.y <= p.y && (p.y as i128)
        <= (pos.y as i128) + (h as i128)
}

impl Circle {
    /// The radius as a number.
    pub open spec fn r(&self) -> int {
        self.radius.value()
    }

    pub open spec fn well_formed(&self) -> bool {
        self.radius.well_formed()
    }

    pub open spec fn area(&self) -> int {
        circle_area(self.r())
    }

    /// Whether `p` lies in the closed disc.
    pub open spec fn covers(&self, p: Point) -> bool {
        crate::geometry::dist2(self.pos, p) <= self.r() * self.r()
    }

    /// A circle, unless the radius is zero.
    pub fn new(pos: Point, radius: u32, colour: Colour) -> (r: Result<Circle, SandboxError>)
        ensures
            radius == 0 ==> r == Err::<Circle, SandboxError>(SandboxError::ZeroSize),
            radius > 0 ==> (r matches Ok(c) && c.pos == pos && c.r() == radius && c.colour
                == colour && c.well_formed()),
    {
        match Length::new(radius) {
            Some(radius) => Ok(Circle { pos, radius, colour }),
            None => Err(SandboxError::ZeroSize),
        }
    }

    pub fn get_area(&self) -> (a: u64)
        ensures
            a == self.area(),
            a <= MAX_AREA,
    {
        area_of_circle(self.radius.get())
    }

    /// The centre, for reading and for moving the circle.
    pub fn get_pos(&mut self) -> (p: &mut Point)
        ensures
            *p == old(self).pos,
            *final(self) == (Circle { pos: *final(p), ..*old(self) }),
    {
        &mut self.pos
    }

    pub fn get_drag_coefficient(&self) -> (c: u32)
        ensures
            c == CIRCLE_DRAG,
    {
        CIRCLE_DRAG
    }

    pub fn get_colour(&self) -> (c: Colour)
        ensures
            c == self.colour,
    {
        self.colour
    }

    pub fn set_colour(&mut self, colour: Colour)
        ensures
            *final(self) == (Circle { colour, ..*old(self) }),
    {
        self.colour = colour;
    }

    /// The colour in which the outline is drawn.
    pub fn get_outline_colour(&self) -> (c: Colour)
        ensures
            c == self.colour.spec_outline(),
    {
        self.colour.outline()
    }

    /// Hit test: whether `mouse_pos` lies on the circle.
    pub fn mouse_in_area(&self, mouse_pos: Point) -> (hit: bool)
        ensures
            hit == self.covers(mouse_pos),
    {
        within_radius(self.pos, self.radius.get(), mouse_pos)
    }

    pub fn get_id(&self) -> (k: ShapeKind)
        ensures
            k == ShapeKind::Circle,
    {
        ShapeKind::Circle
    }

    /// The radius; the second component is zero, as a circle has no second
    /// measurement.
    pub fn get_measurements(&self) -> (m: (u32, u32))
        ensures
            m.0 == self.r(),
            m.1 == 0,
    {
        (self.radius.get(), 0)
    }

    /// Sets the radius to `measurements.0`.  A radius of zero is refused
    /// and leaves the circle as it was.
    pub fn set_measurements(&mut self, measurements: (u32, u32)) -> (r: Result<(), SandboxError>)
        ensures
            measurements.0 == 0 ==> r == Err::<(), SandboxError>(SandboxError::ZeroSize)
                && *final(self) == *old(self),
            measurements.0 > 0 ==> r == Ok::<(), SandboxError>(()) && final(self).r()
                == measurements.0 && final(self).pos == old(self).pos && final(self).colour
                == old(self).colour && final(self).well_formed(),
    {
        match Length::new(measurements.0) {
            Some(radius) => {
                self.radius = radius;
                Ok(())
            },
            None => Err(SandboxError::ZeroSize),
        }
    }
}

impl Rectangle {
    /// The width as a number.
    pub open spec fn w(&self) -> int {
        self.width.value()
    }

    /// The height as a number.
    pub open spec fn h(&self) -> int {
        self.height.value()
    }

    pub open spec fn well_formed(&self) -> bool {
        self.width.well_formed() && self.height.well_formed()
    }

    pub open spec fn area(&self) -> int {
        rectangle_area(self.w(), self.h())
    }

    /// Whether `p` lies in the closed rectangle.
    pub open spec fn covers(&self, p: Point) -> bool {
        self.pos.x <= p.x <= self.pos.x + self.w() && self.pos.y <= p.y <= self.pos.y + self.h()
    }

    /// A rectangle, unless a side is zero.
    pub fn new(pos: Point, width: u32, height: u32, colour: Colour) -> (r: Result<
        Rectangle,
        SandboxError,
    >)
        ensures
            (width == 0 || height == 0) ==> r == Err::<Rectangle, SandboxError>(
                SandboxError::ZeroSize,
            ),
            (width > 0 && height > 0) ==> (r matches Ok(rect) && rect.pos == pos && rect.w()
                == width && rect.h() == height && rect.colour == colour && rect.well_formed()),
    {
        match (Length::new(width), Length::new(height)) {
            (Some(width), Some(height)) => Ok(Rectangle { pos, width, height, colour }),
            _ => Err(SandboxError::ZeroSize),
        }
    }

    pub fn get_area(&self) -> (a: u64)
        ensures
            a == self.area(),
            a <= MAX_AREA,
    {
        area_of_rectangle(self.width.get(), self.height.get())
    }

    /// The corner of least `x` and `y`, for reading and for moving the
    /// rectangle.
    pub fn get_pos(&mut self) -> (p: &mut Point)
        ensures
            *p == old(self).pos,
            *final(self) == (Rectangle { pos: *final(p), ..*old(self) }),
    {
        &mut self.pos
    }

    pub fn get_drag_coefficient(&self) -> (c: u32)
        ensures
            c == RECTANGLE_DRAG,
    {
        RECTANGLE_DRAG
    }

    pub fn get_colour(&self) -> (c: Colour)
        ensures
            c == self.colour,
    {
        self.colour
    }

    pub fn set_colour(&mut self, colour: Colour)
        ensures
            *final(self) == (Rectangle { colour, ..*old(self) }),
    {
        self.colour = colour;
    }

    /// The colour in which the outline is drawn.
    pub fn get_outline_colour(&self) -> (c: Colour)
        ensures
            c == self.colour.spec_outline(),
    {
        self.colour.outline()
    }

    /// Hit test: whether `mouse_pos` lies on the rectangle.
    pub fn mouse_in_area(&self, mouse_pos: Point) -> (hit: bool)
        ensures
            hit == self.covers(mouse_pos),
    {
        within_box(self.pos, self.width.get(), self.height.get(), mouse_pos)
    }

    pub fn get_id(&self) -> (k: ShapeKind)
        ensures
            k == ShapeKind::Rectangle,
    {
        ShapeKind::Rectangle
    }

    /// Width and height.
    pub fn get_measurements(&self) -> (m: (u32, u32))
        ensures
            m.0 == self.w(),
            m.1 == self.h(),
    {
        (self.width.get(), self.height.get())
    }

    /// Sets width and height.  A side of zero is refused and leaves the
    /// rectangle as it was.
    pub fn set_measurements(&mut self, measurements: (u32, u32)) -> (r: Result<(), SandboxError>)
        ensures
            (measurements.0 == 0 || measurements.1 == 0) ==> r == Err::<(), SandboxError>(
                SandboxError::ZeroSize,
            ) && *final(self) == *old(self),
            (measurements.0 > 0 && measurements.1 > 0) ==> r == Ok::<(), SandboxError>(())
                && final(self).w() == measurements.0 && final(self).h() == measurements.1
                && final(self).pos == old(self).pos && final(self).colour == old(self).colour
                && final(self).well_formed(),
    {
        match (Length::new(measurements.0), Length::new(measurements.1)) {
            (Some(width), Some(height)) => {
                self.width = width;
                self.height = height;
                Ok(())
            },
            _ => Err(SandboxError::ZeroSize),
        }
    }
}

impl Square {
    /// The side as a number.
    pub open spec fn side(&self) -> int {
        self.size.value()
    }

    pub open spec fn well_formed(&self) -> bool {
        self.size.well_formed()
    }

    pub open spec fn area(&self) -> int {
        rectangle_area(self.side(), self.side())
    }

    /// Whether `p` lies in the closed square.
    pub open spec fn covers(&self, p: Point) -> bool {
        self.pos.x <= p.x <= self.pos.x + self.side() && self.pos.y <= p.y <= self.pos.y
            + self.side()
    }

    /// The rectangle with the same corner, colour and four sides.
    pub open spec fn spec_to_rectangle(&self) -> Rectangle {
        Rectangle { pos: self.pos, width: self.size, height: self.size, colour: self.colour }
    }

    /// A square, unless the side is zero.
    pub fn new(pos: Point, size: u32, colour: Colour) -> (r: Result<Square, SandboxError>)
        ensures
            size == 0 ==> r == Err::<Square, SandboxError>(SandboxError::ZeroSize),
            size > 0 ==> (r matches Ok(sq) && sq.pos == pos && sq.side() == size && sq.colour
                == colour && sq.well_formed()),
    {
        match Length::new(size) {
            Some(size) => Ok(Square { pos, size, colour }),
            None => Err(SandboxError::ZeroSize),
        }
    }

    /// The square as the equal-sided rectangle it is.
    #[verifier::when_used_as_spec(spec_to_rectangle)]
    pub fn to_rectangle(&self) -> (r: Rectangle)
        ensures
            r == self.spec_to_rectangle(),
    {
        Rectangle { pos: self.pos, width: self.size, height: self.size, colour: self.colour }
    }

    pub fn get_area(&self) -> (a: u64)
        ensures
            a == self.area(),
            a <= MAX_AREA,
    {
        area_of_rectangle(self.size.get(), self.size.get())
    }

    /// The corner of least `x` and `y`, for reading and for moving the
    /// square.
    pub fn get_pos(&mut self) -> (p: &mut Point)
        ensures
            *p == old(self).pos,
            *final(self) == (Square { pos: *final(p), ..*old(self) }),
    {
        &mut self.pos
    }

    pub fn get_drag_coefficient(&self) -> (c: u32)
        ensures
            c == RECTANGLE_DRAG,
    {
        RECTANGLE_DRAG
    }

    pub fn get_colour(&self) -> (c: Colour)
        ensures
            c == self.colour,
    {
        self.colour
    }

    pub fn set_colour(&mut self, colour: Colour)
        ensures
            *final(self) == (Square { colour, ..*old(self) }),
    {
        self.colour = colour;
    }

    /// The colour in which the outline is drawn.
    pub fn get_outline_colour(&self) -> (c: Colour)
        ensures
            c == self.colour.spec_outline(),
    {
        self.colour.outline()
    }

    /// Hit test: whether `mouse_pos` lies on the square.
    pub fn mouse_in_area(&self, mouse_pos: Point) -> (hit: bool)
        ensures
            hit == self.covers(mouse_pos),
    {
        within_box(self.pos, self.size.get(), self.size.get(), mouse_pos)
    }

    pub fn get_id(&self) -> (k: ShapeKind)
        ensures
            k == ShapeKind::Square,
    {
        ShapeKind::Square
    }

    /// The side; the second component is zero, as a square has no second
    /// measurement.
    pub fn get_measurements(&self) -> (m: (u32, u32))
        ensures
            m.0 == self.side(),
            m.1 == 0,
    {
        (self.size.get(), 0)
    }

    /// Sets the side to `measurements.0`.  A side of zero is refused and
    /// leaves the square as it was.
    pub fn set_measurements(&mut self, measurements: (u32, u32)) -> (r: Result<(), SandboxError>)
        ensures
            measurements.0 == 0 ==> r == Err::<(), SandboxError>(SandboxError::ZeroSize)
                && *final(self) == *old(self),
            measurements.0 > 0 ==> r == Ok::<(), SandboxError>(()) && final(self).side()
                == measurements.0 && final(self).pos == old(self).pos && final(self).colour
                == old(self).colour && final(self).well_formed(),
    {
        match Length::new(measurements.0) {
            Some(size) => {
                self.size = size;
                Ok(())
            },
            None => Err(SandboxError::ZeroSize),
        }
    }
}

/// The shape of a body.
#[derive(Clone, Copy, Debug, PartialEq, Eq, Structural)]
pub enum Shape {
    Circle(Circle),
    Rectangle(Rectangle),
}

impl Shape {
    pub open spec fn well_formed(&self) -> bool {
        match self {
            Shape::Circle(c) => c.well_formed(),
            Shape::Rectangle(r) => r.well_formed(),
        }
    }

    /// The point that places the shape: a circle's centre, a rectangle's
    /// corner of least `x` and `y`.
    pub open spec fn pos(&self) -> Point {
        match self {
            Shape::Circle(c) => c.pos,
            Shape::Rectangle(r) => r.pos,
        }
    }

    /// The same shape placed at `p`.
    pub open spec fn at(&self, p: Point) -> Shape {
        match self {
            Shape::Circle(c) => Shape::Circle(Circle { pos: p, ..*c }),
            Shape::Rectangle(r) => Shape::Rectangle(Rectangle { pos: p, ..*r }),
        }
    }

    pub open spec fn colour(&self) -> Colour {
        match self {
            Shape::Circle(c) => c.colour,
            Shape::Rectangle(r) => r.colour,
        }
    }

    /// The same shape in colour `colour`.
    pub open spec fn painted(&self, colour: Colour) -> Shape {
        match self {
            Shape::Circle(c) => Shape::Circle(Circle { colour, ..*c }),
            Shape::Rectangle(r) => Shape::Rectangle(Rectangle { colour, ..*r }),
        }
    }

    pub open spec fn area(&self) -> int {
        match self {
            Shape::Circle(c) => c.area(),
            Shape::Rectangle(r) => r.area(),
        }
    }

    pub open spec fn covers(&self, p: Point) -> bool {
        match self {
            Shape::Circle(c) => c.covers(p),
            Shape::Rectangle(r) => r.covers(p),
        }
    }

    pub open spec fn kind(&self) -> ShapeKind {
        match self {
            Shape::Circle(_) => ShapeKind::Circle,
            Shape::Rectangle(_) => ShapeKind::Rectangle,
        }
    }

    /// Drag coefficient in hundredths.
    pub open spec fn drag_coefficient(&self) -> int {
        match self {
            Shape::Circle(_) => CIRCLE_DRAG as int,
            Shape::Rectangle(_) => RECTANGLE_DRAG as int,
        }
    }

    /// The measurements as [`Shape::get_measurements`] reports them.
    pub open spec fn measurements(&self) -> (int, int) {
        match self {
            Shape::Circle(c) => (c.r(), 0),
            Shape::Rectangle(r) => (r.w(), r.h()),
        }
    }

    /// The largest measurement of the shape.
    pub open spec fn extent(&self) -> int {
        match self {
            Shape::Circle(c) => c.r(),
            Shape::Rectangle(r) => if r.w() >= r.h() {
                r.w()
            } else {
                r.h()
            },
        }
    }

    /// The shape a square is treated as.
    pub fn from_square(square: Square) -> (s: Shape)
        ensures
            s == Shape::Rectangle(square.spec_to_rectangle()),
    {
        Shape::Rectangle(square.to_rectangle())
    }

    pub fn get_area(&self) -> (a: u64)
        ensures
            a == self.area(),
            a <= MAX_AREA,
    {
        match self {
            Shape::Circle(c) => c.get_area(),
            Shape::Rectangle(r) => r.get_area(),
        }
    }

    /// The placing point.
    #[verifier::when_used_as_spec(pos)]
    pub fn get_position(&self) -> (p: Point)
        ensures
            p == self.pos(),
    {
        match self {
            Shape::Circle(c) => c.pos,
            Shape::Rectangle(r) => r.pos,
        }
    }

    /// The placing point, for reading and for moving the shape.
    pub fn get_pos(&mut self) -> (p: &mut Point)
        ensures
            *p == old(self).pos(),
            *final(self) == old(self).at(*final(p)),
    {
        match self {
            Shape::Circle(c) => &mut c.pos,
            Shape::Rectangle(r) => &mut r.pos,
        }
    }

    /// Drag coefficient in hundredths: 47 for a circle, 105 for a
    /// rectangle.
    pub fn get_drag_coefficient(&self) -> (c: u32)
        ensures
            c == self.drag_coefficient(),
    {
        match self {
            Shape::Circle(c) => c.get_drag_coefficient(),
            Shape::Rectangle(r) => r.get_drag_coefficient(),
        }
    }

    pub fn get_colour(&self) -> (c: Colour)
        ensures
            c == self.colour(),
    {
        match self {
            Shape::Circle(c) => c.colour,
            Shape::Rectangle(r) => r.colour,
        }
    }

    /// The colour in which the outline is drawn.
    pub fn get_outline_colour(&self) -> (c: Colour)
        ensures
            c == self.colour().spec_outline(),
    {
        self.get_colour().outline()
    }

    pub fn set_colour(&mut self, colour: Colour)
        ensures
            *final(self) == old(self).painted(colour),
    {
        match self {
            Shape::Circle(c) => {
                c.colour = colour;
            },
            Shape::Rectangle(r) => {
                r.colour = colour;
            },
        }
    }

    /// Hit test: whether `mouse_pos` lies on the shape.
    pub fn mouse_in_area(&self, mouse_pos: Point) -> (hit: bool)
        ensures
            hit == self.covers(mouse_pos),
    {
        match self {
            Shape::Circle(c) => c.mouse_in_area(mouse_pos),
            Shape::Rectangle(r) => r.mouse_in_area(mouse_pos),
        }
    }

    pub fn get_id(&self) -> (k: ShapeKind)
        ensures
            k == self.kind(),
    {
        match self {
            Shape::Circle(_) => ShapeKind::Circle,
            Shape::Rectangle(_) => ShapeKind::Rectangle,
        }
    }

    /// Radius and zero for a circle, width and height for a rectangle.
    pub fn get_measurements(&self) -> (m: (u32, u32))
        ensures
            m.0 == self.measurements().0,
            m.1 == self.measurements().1,
    {
        match self {
            Shape::Circle(c) => c.get_measurements(),
            Shape::Rectangle(r) => r.get_measurements(),
        }
    }

    /// Resizes the shape: a circle takes `measurements.0` as its radius, a
    /// rectangle takes both as width and height.  A size of zero is refused
    /// and leaves the shape as it was.  Position and colour stay.
    pub fn set_measurements(&mut self, measurements: (u32, u32)) -> (r: Result<(), SandboxError>)
        ensures
            final(self).kind() == old(self).kind(),
            final(self).pos() == old(self).pos(),
            final(self).colour() == old(self).colour(),
            r is Err <==> (measurements.0 == 0 || (*old(self) is Rectangle && measurements.1 == 0)),
            r is Err ==> r == Err::<(), SandboxError>(SandboxError::ZeroSize) && *final(self)
                == *old(self),
            r is Ok ==> final(self).well_formed() && final(self).measurements().0
                == measurements.0 && (*final(self) is Rectangle ==> final(self).measurements().1
                == measurements.1),
    {
        match self {
            Shape::Circle(c) => c.set_measurements(measurements),
            Shape::Rectangle(r) => r.set_measurements(measurements),
        }
    }
}

} // verus!
