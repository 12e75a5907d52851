//! The narrow phase: exact overlap tests between two shapes and the
//! displacements that push an overlapping pair apart.
//!
//! A pair is corrected by moving positions only.  A body that is held fixed
//! never moves; if exactly one of the two is fixed the other takes the whole
//! correction, and if neither is they share it.  Positions that would leave
//! the coordinate range stop at its end.

use vstd::prelude::*;
use crate::geometry::{Point, dist2};
use crate::shapes::{Circle, Colour, Rectangle, Shape};
use crate::units::{
    clamp_to,
    div_ceil,
    floor_sqrt,
    gap,
    isqrt,
    lemma_floor_sqrt_bounds,
    lemma_floor_sqrt_exists,
    lemma_product_bound,
    lemma_square_monotone,
    lemma_square_of_magnitude,
    magnitude,
    sat_i64,
    saturate_i64,
    signum,
};

verus! {

/// A displacement in raw units.
pub struct Nudge {
    pub dx: int,
    pub dy: int,
}

/// The displacements of the two bodies of a pair.
pub struct Correction {
    pub first: Nudge,
    pub second: Nudge,
}

impl Nudge {
    pub open spec fn zero() -> Nudge {
        Nudge { dx: 0, dy: 0 }
    }

    pub open spec fn reversed(self) -> Nudge {
        Nudge { dx: -self.dx, dy: -self.dy }
    }
}

impl Correction {
    /// The same correction with the roles of the two bodies exchanged.
    pub open spec fn swapped(self) -> Correction {
        Correction { first: self.second, second: self.first }
    }

    /// Whether both bodies can be displaced as the correction says without
    /// leaving the coordinate range.
    pub open spec fn fits(self, first: Point, second: Point) -> bool {
        &&& i64::MIN <= first.x + self.first.dx <= i64::MAX
        &&& i64::MIN <= first.y + self.first.dy <= i64::MAX
        &&& i64::MIN <= second.x + self.second.dx <= i64::MAX
        &&& i64::MIN <= second.y + self.second.dy <= i64::MAX
    }
}

/// The point `p` displaced by `n`, stopped at the ends of the coordinate
/// range.
pub open spec fn moved(p: Point, n: Nudge) -> Point {
    Point { x: sat_i64(p.x + n.dx) as i64, y: sat_i64(p.y + n.dy) as i64 }
}

/// Among how many bodies the correction is shared: two if both can move,
/// otherwise one.
pub open spec fn sharers(first_fixed: bool, second_fixed: bool) -> int {
    if first_fixed || second_fixed {
        1
    } else {
        2
    }
}

/// Parts into which a raw unit is divided where the length of a direction
/// is measured, so that a short direction is normalised as well as a long
/// one.
pub const FINENESS: u64 = 1_000_000;

/// The length of the direction `(dx, dy)` in parts of a raw unit, rounded
/// down.
pub open spec fn direction_length(dx: int, dy: int) -> int {
    floor_sqrt((dx * dx + dy * dy) * (FINENESS * FINENESS))
}

/// The displacement of one body that separates a pair along the direction
/// `(dx, dy)` by `depth`, when `parts` bodies share the work: `depth / parts`
/// along the normalised direction, each component rounded away from zero.
/// For a direction of length zero the pair separates along the positive
/// x-axis.
pub open spec fn push_along(dx: int, dy: int, depth: int, parts: int) -> Nudge {
    let length = direction_length(dx, dy);
    if length == 0 {
        Nudge { dx: div_ceil(depth, parts), dy: 0 }
    } else {
        Nudge {
            dx: signum(dx) * div_ceil(magnitude(dx) * FINENESS * depth, parts * length),
            dy: signum(dy) * div_ceil(magnitude(dy) * FINENESS * depth, parts * length),
        }
    }
}

/// The correction in which the second body is displaced by `push` and the
/// first by its reverse, except that a fixed body is not displaced.
pub open spec fn opposed(push: Nudge, first_fixed: bool, second_fixed: bool) -> Correction {
    Correction {
        first: if first_fixed {
            Nudge::zero()
        } else {
            push.reversed()
        },
        second: if second_fixed {
            Nudge::zero()
        } else {
            push
        },
    }
}

/// Two circles overlap when their centres are no further apart than the sum
/// of their radii.
pub open spec fn circles_overlap(a: Circle, b: Circle) -> bool {
    dist2(a.pos, b.pos) <= (a.r() + b.r()) * (a.r() + b.r())
}

/// By how much two circles penetrate: the sum of the radii less the
/// distance of the centres, the distance rounded down.
pub open spec fn circles_depth(a: Circle, b: Circle) -> int {
    a.r() + b.r() - floor_sqrt(dist2(a.pos, b.pos))
}

/// The correction for two overlapping circles: apart along the line of
/// centres.
pub open spec fn circles_correction(a: Circle, b: Circle, a_fixed: bool, b_fixed: bool)
    -> Correction {
    opposed(
        push_along(
            b.pos.x - a.pos.x,
            b.pos.y - a.pos.y,
            circles_depth(a, b),
            sharers(a_fixed, b_fixed),
        ),
        a_fixed,
        b_fixed,
    )
}

/// Extent of the overlap of two rectangles along x; positive when their
/// projections on the x-axis overlap.
pub open spec fn overlap_x(a: Rectangle, b: Rectangle) -> int {
    vstd::math::min(a.pos.x + a.w(), b.pos.x + b.w()) - vstd::math::max(
        a.pos.x as int,
        b.pos.x as int,
    )
}

/// Extent of the overlap of two rectangles along y.
pub open spec fn overlap_y(a: Rectangle, b: Rectangle) -> int {
    vstd::math::min(a.pos.y + a.h(), b.pos.y + b.h()) - vstd::math::max(
        a.pos.y as int,
        b.pos.y as int,
    )
}

/// Two rectangles overlap when their overlap is positive on both axes.
pub open spec fn rectangles_overlap(a: Rectangle, b: Rectangle) -> bool {
    overlap_x(a, b) > 0 && overlap_y(a, b) > 0
}

/// Whether two overlapping rectangles are separated along x: the axis of
/// the smaller overlap, and x when both are equal.
pub open spec fn separates_along_x(a: Rectangle, b: Rectangle) -> bool {
    overlap_x(a, b) <= overlap_y(a, b)
}

/// The displacements of two bodies along one axis that undo an overlap of
/// `depth`, the first body moving by a negative and the second by a
/// positive amount.
pub open spec fn split_depth(depth: int, first_fixed: bool, second_fixed: bool) -> (int, int) {
    if first_fixed && second_fixed {
        (0, 0)
    } else if first_fixed {
        (0, depth)
    } else if second_fixed {
        (-depth, 0)
    } else {
        (-(depth / 2), depth - depth / 2)
    }
}

/// The correction for two overlapping rectangles: apart along one axis
/// only, by the overlap on that axis, the rectangle whose centre has the
/// lesser coordinate on that axis moving to the negative side (the first
/// one when the centres agree).
pub open spec fn rectangles_correction(a: Rectangle, b: Rectangle, a_fixed: bool, b_fixed: bool)
    -> Correction {
    if separates_along_x(a, b) {
        if 2 * a.pos.x + a.w() <= 2 * b.pos.x + b.w() {
            let (first, second) = split_depth(overlap_x(a, b), a_fixed, b_fixed);
            Correction { first: Nudge { dx: first, dy: 0 }, second: Nudge { dx: second, dy: 0 } }
        } else {
            let (second, first) = split_depth(overlap_x(a, b), b_fixed, a_fixed);
            Correction { first: Nudge { dx: first, dy: 0 }, second: Nudge { dx: second, dy: 0 } }
        }
    } else {
        if 2 * a.pos.y + a.h() <= 2 * b.pos.y + b.h() {
            let (first, second) = split_depth(overlap_y(a, b), a_fixed, b_fixed);
            Correction { first: Nudge { dx: 0, dy: first }, second: Nudge { dx: 0, dy: second } }
        } else {
            let (second, first) = split_depth(overlap_y(a, b), b_fixed, a_fixed);
            Correction { first: Nudge { dx: 0, dy: first }, second: Nudge { dx: 0, dy: second } }
        }
    }
}

/// The point of a rectangle nearest to `p`: `p` with each coordinate
/// clamped to the rectangle's range.
pub open spec fn nearest_x(r: Rectangle, p: Point) -> int {
    clamp_to(p.x as int, r.pos.x as int, r.pos.x + r.w())
}

pub open spec fn nearest_y(r: Rectangle, p: Point) -> int {
    clamp_to(p.y as int, r.pos.y as int, r.pos.y + r.h())
}

/// Squared distance from the centre of a circle to the nearest point of a
/// rectangle.
pub open spec fn clearance2(c: Circle, r: Rectangle) -> int {
    (nearest_x(r, c.pos) - c.pos.x) * (nearest_x(r, c.pos) - c.pos.x) + (nearest_y(r, c.pos)
        - c.pos.y) * (nearest_y(r, c.pos) - c.pos.y)
}

/// A circle and a rectangle overlap when the rectangle's nearest point is
/// closer to the centre than the radius.
pub open spec fn circle_rectangle_overlap(c: Circle, r: Rectangle) -> bool {
    clearance2(c, r) < c.r() * c.r()
}

/// The correction for an overlapping circle (first) and rectangle (second):
/// apart along the line from the centre to the rectangle's nearest point, by
/// the radius less their distance.
pub open spec fn circle_rectangle_correction(
    c: Circle,
    r: Rectangle,
    c_fixed: bool,
    r_fixed: bool,
) -> Correction {
    opposed(
        push_along(
            nearest_x(r, c.pos) - c.pos.x,
            nearest_y(r, c.pos) - c.pos.y,
            c.r() - floor_sqrt(clearance2(c, r)),
            sharers(c_fixed, r_fixed),
        ),
        c_fixed,
        r_fixed,
    )
}

/// Whether two shapes overlap.
pub open spec fn overlaps(a: Shape, b: Shape) -> bool {
    match (a, b) {
        (Shape::Circle(a), Shape::Circle(b)) => circles_overlap(a, b),
        (Shape::Rectangle(a), Shape::Rectangle(b)) => rectangles_overlap(a, b),
        (Shape::Circle(c), Shape::Rectangle(r)) => circle_rectangle_overlap(c, r),
        (Shape::Rectangle(r), Shape::Circle(c)) => circle_rectangle_overlap(c, r),
    }
}

/// The correction for two overlapping shapes.
pub open spec fn correction(a: Shape, b: Shape, a_fixed: bool, b_fixed: bool) -> Correction {
    match (a, b) {
        (Shape::Circle(a), Shape::Circle(b)) => circles_correction(a, b, a_fixed, b_fixed),
        (Shape::Rectangle(a), Shape::Rectangle(b)) => rectangles_correction(
            a,
            b,
            a_fixed,
            b_fixed,
        ),
        (Shape::Circle(c), Shape::Rectangle(r)) => circle_rectangle_correction(
            c,
            r,
            a_fixed,
            b_fixed,
        ),
        (Shape::Rectangle(r), Shape::Circle(c)) => circle_rectangle_correction(
            c,
            r,
            b_fixed,
            a_fixed,
        ).swapped(),
    }
}

/// The first shape of a pair after resolution: displaced and marked if the
/// pair overlaps, untouched otherwise.
pub open spec fn resolved_first(a: Shape, b: Shape, a_fixed: bool, b_fixed: bool) -> Shape {
    if overlaps(a, b) {
        a.at(moved(a.pos(), correction(a, b, a_fixed, b_fixed).first)).painted(
            Colour::spec_highlight(),
        )
    } else {
        a
    }
}

/// The second shape of a pair after resolution.
pub open spec fn resolved_second(a: Shape, b: Shape, a_fixed: bool, b_fixed: bool) -> Shape {
    if overlaps(a, b) {
        b.at(moved(b.pos(), correction(a, b, a_fixed, b_fixed).second)).painted(
            Colour::spec_highlight(),
        )
    } else {
        b
    }
}

/// A displacement as the executable code holds it.
struct Offset {
    dx: i128,
    dy: i128,
}

impl Offset {
    spec fn nudge(&self) -> Nudge {
        Nudge { dx: self.dx as int, dy: self.dy as int }
    }

    spec fn small(&self) -> bool {
        magnitude(self.dx as int) <= LIMIT * LIMIT * FINENESS && magnitude(self.dy as int)
            <= LIMIT * LIMIT * FINENESS
    }
}

/// Bound on the differences, depths and divisors that the narrow phase
/// handles: four times the largest length.
const LIMIT: u64 = 0x4_0000_0000;

/// Rounds a quotient up.
fn divide_up(a: u128, b: u128) -> (q: u128)
    requires
        b > 0,
        a + b <= u128::MAX,
    ensures
        q == div_ceil(a as int, b as int),
        q <= a,
{
    let q = (a + b - 1) / b;
    assert(q <= a) by (nonlinear_arith)
        requires
            q == (a + b - 1) / (b as int),
            b > 0,
            a >= 0,
    ;
    q
}

/// One signed component of a push.
fn push_component(delta: i128, depth: u64, divisor: u128) -> (s: i128)
    requires
        magnitude(delta as int) <= LIMIT,
        depth <= LIMIT,
        0 < divisor <= 4 * LIMIT * FINENESS,
    ensures
        s == signum(delta as int) * div_ceil(
            magnitude(delta as int) * FINENESS * depth,
            divisor as int,
        ),
        magnitude(s as int) <= LIMIT * LIMIT * FINENESS,
{
    let size: u128 = if delta < 0 {
        (-delta) as u128
    } else {
        delta as u128
    };
    proof {
        lemma_product_bound(size as int, FINENESS as int, LIMIT as int, FINENESS as int);
        lemma_product_bound(size * FINENESS, depth as int, LIMIT * FINENESS, LIMIT as int);
        lemma_wide_bounds();
    }
    let amount = divide_up(size * (FINENESS as u128) * (depth as u128), divisor);
    if delta < 0 {
        -(amount as i128)
    } else if delta > 0 {
        amount as i128
    } else {
        proof {
            assert(size * FINENESS * depth == 0) by (nonlinear_arith)
                requires
                    size == 0,
            ;
        }
        0
    }
}

/// The products of the bounds that the narrow phase works with, written
/// out.
proof fn lemma_wide_bounds()
    ensures
        LIMIT * FINENESS == 0x4_0000_0000 * 1_000_000,
        LIMIT * LIMIT == 0x10_0000_0000_0000_0000,
        LIMIT * FINENESS * LIMIT == 0x10_0000_0000_0000_0000 * 1_000_000,
        LIMIT * LIMIT * FINENESS == 0x10_0000_0000_0000_0000 * 1_000_000,
        FINENESS * FINENESS == 1_000_000_000_000,
        4 * LIMIT * FINENESS == 0x10_0000_0000 * 1_000_000,
{
    assert(LIMIT * LIMIT == 0x10_0000_0000_0000_0000) by (nonlinear_arith)
        requires
            LIMIT == 0x4_0000_0000,
    ;
}

/// Computes [`direction_length`] from the sum of the squares.
fn length_of(dx: i128, dy: i128, n: u128) -> (length: u64)
    requires
        n == dx * dx + dy * dy,
        n <= 2 * (LIMIT * LIMIT),
    ensures
        length == direction_length(dx as int, dy as int),
        length <= 2 * LIMIT * FINENESS,
        length >= FINENESS * floor_sqrt(n as int),
{
    proof {
        lemma_wide_bounds();
    }
    let fine: u128 = (FINENESS as u128) * (FINENESS as u128);
    let length = isqrt(n * fine);
    proof {
        let bound = 2 * LIMIT * FINENESS;
        assert(bound * bound >= n * fine) by (nonlinear_arith)
            requires
                bound == 2 * LIMIT * FINENESS,
                fine == FINENESS * FINENESS,
                0 <= n <= 2 * (LIMIT * LIMIT),
        ;
        lemma_floor_sqrt_bounds(n * fine, bound);
        lemma_fine_length(n as int);
    }
    length
}

/// The length of a direction in parts of a raw unit is at least its length
/// in raw units times the number of parts.
pub proof fn lemma_fine_length(n: int)
    requires
        n >= 0,
    ensures
        floor_sqrt(n * (FINENESS * FINENESS)) >= FINENESS * floor_sqrt(n),
        floor_sqrt(n * (FINENESS * FINENESS)) == 0 <==> n == 0,
{
    let fine = FINENESS * FINENESS;
    let coarse = floor_sqrt(n);
    let length = floor_sqrt(n * fine);
    lemma_floor_sqrt_exists(n);
    assert(n * fine >= 0) by (nonlinear_arith)
        requires
            n >= 0,
            fine >= 0,
    ;
    lemma_floor_sqrt_exists(n * fine);
    crate::units::lemma_square_of_product(FINENESS as int, coarse);
    assert((coarse * coarse) * fine <= n * fine) by (nonlinear_arith)
        requires
            coarse * coarse <= n,
            fine >= 0,
    ;
    assert((FINENESS * FINENESS) * (coarse * coarse) == (coarse * coarse) * fine)
        by (nonlinear_arith)
        requires
            fine == FINENESS * FINENESS,
    ;
    if length < FINENESS * coarse {
        lemma_square_monotone(length + 1, FINENESS * coarse);
    }
    if n == 0 {
        assert(n * fine == 0);
        if length > 0 {
            lemma_square_monotone(1, length);
        }
    } else {
        assert(n * fine >= 1) by (nonlinear_arith)
            requires
                n >= 1,
                fine == 1_000_000_000_000,
        {
        }
        if length == 0 {
            assert((length + 1) * (length + 1) == 1) by (nonlinear_arith)
                requires
                    length == 0,
            ;
        }
    }
}

/// Computes [`push_along`], given the length of the direction.
fn push(dx: i128, dy: i128, length: u64, depth: u64, parts: u64) -> (s: Offset)
    requires
        magnitude(dx as int) <= LIMIT,
        magnitude(dy as int) <= LIMIT,
        length == direction_length(dx as int, dy as int),
        length <= 2 * LIMIT * FINENESS,
        depth <= LIMIT,
        1 <= parts <= 2,
    ensures
        s.nudge() == push_along(dx as int, dy as int, depth as int, parts as int),
        s.small(),
{
    proof {
        lemma_wide_bounds();
    }
    if length == 0 {
        let amount = divide_up(depth as u128, parts as u128);
        Offset { dx: amount as i128, dy: 0 }
    } else {
        proof {
            assert(1 <= parts * length <= 4 * LIMIT * FINENESS) by (nonlinear_arith)
                requires
                    1 <= parts <= 2,
                    1 <= length <= 2 * LIMIT * FINENESS,
            ;
        }
        let divisor: u128 = (parts as u128) * (length as u128);
        Offset {
            dx: push_component(dx, depth, divisor),
            dy: push_component(dy, depth, divisor),
        }
    }
}

/// The sum of the squares of two bounded differences, with what the
/// callers need to know of it.
fn sum_of_squares(dx: i128, dy: i128) -> (n: u128)
    requires
        magnitude(dx as int) <= LIMIT,
        magnitude(dy as int) <= LIMIT,
    ensures
        n == dx * dx + dy * dy,
        n <= 2 * (LIMIT * LIMIT),
{
    proof {
        lemma_product_bound(magnitude(dx as int), magnitude(dx as int), LIMIT as int, LIMIT as int);
        lemma_product_bound(magnitude(dy as int), magnitude(dy as int), LIMIT as int, LIMIT as int);
        lemma_square_of_magnitude(dx as int);
        lemma_square_of_magnitude(dy as int);
    }
    (dx * dx + dy * dy) as u128
}

/// Displaces a point.
fn shift(p: Point, s: &Offset) -> (q: Point)
    requires
        s.small(),
    ensures
        q == moved(p, s.nudge()),
{
    proof {
        lemma_wide_bounds();
    }
    Point { x: saturate_i64(p.x as i128 + s.dx), y: saturate_i64(p.y as i128 + s.dy) }
}

/// Displaces a point the opposite way.
fn shift_back(p: Point, s: &Offset) -> (q: Point)
    requires
        s.small(),
    ensures
        q == moved(p, s.nudge().reversed()),
{
    proof {
        lemma_wide_bounds();
    }
    Point { x: saturate_i64(p.x as i128 - s.dx), y: saturate_i64(p.y as i128 - s.dy) }
}

/// How many bodies share a correction.
fn count_sharers(first_fixed: bool, second_fixed: bool) -> (n: u64)
    ensures
        n == sharers(first_fixed, second_fixed),
{
    if first_fixed || second_fixed {
        1
    } else {
        2
    }
}

/// Tests two circles for overlap.
pub fn circles_collide(a: &Circle, b: &Circle) -> (hit: bool)
    ensures
        hit == circles_overlap(*a, *b),
{
    let reach: u64 = a.radius.get() as u64 + b.radius.get() as u64;
    let gx = gap(b.pos.x, a.pos.x);
    let gy = gap(b.pos.y, a.pos.y);
    proof {
        lemma_square_of_magnitude(b.pos.x - a.pos.x);
        lemma_square_of_magnitude(b.pos.y - a.pos.y);
        lemma_square_monotone(reach as int, gx as int);
        lemma_square_monotone(reach as int, gy as int);
        lemma_square_monotone(gx as int, reach as int);
        lemma_square_monotone(gy as int, reach as int);
        lemma_product_bound(reach as int, reach as int, 0x1_ffff_fffe, 0x1_ffff_fffe);
    }
    if gx > reach || gy > reach {
        false
    } else {
        let gx = gx as u128;
        let gy = gy as u128;
        let reach = reach as u128;
        gx * gx + gy * gy <= reach * reach
    }
}

/// Pushes two circles apart if they overlap, and marks them.  Returns
/// whether they overlapped.
pub fn resolve_circles(a: &mut Circle, a_fixed: bool, b: &mut Circle, b_fixed: bool) -> (hit:
    bool)
    ensures
        hit == circles_overlap(*old(a), *old(b)),
        !hit ==> *final(a) == *old(a) && *final(b) == *old(b),
        hit ==> *final(a) == (Circle {
            pos: moved(old(a).pos, circles_correction(*old(a), *old(b), a_fixed, b_fixed).first),
            colour: Colour::spec_highlight(),
            ..*old(a)
        }),
        hit ==> *final(b) == (Circle {
            pos: moved(old(b).pos, circles_correction(*old(a), *old(b), a_fixed, b_fixed).second),
            colour: Colour::spec_highlight(),
            ..*old(b)
        }),
{
    if !circles_collide(a, b) {
        return false;
    }
    let reach: u64 = a.radius.get() as u64 + b.radius.get() as u64;
    let dx: i128 = b.pos.x as i128 - a.pos.x as i128;
    let dy: i128 = b.pos.y as i128 - a.pos.y as i128;
    proof {
        lemma_square_of_magnitude(dx as int);
        lemma_square_of_magnitude(dy as int);
        lemma_square_monotone(reach as int, magnitude(dx as int));
        lemma_square_monotone(reach as int, magnitude(dy as int));
    }
    let n = sum_of_squares(dx, dy);
    let d = isqrt(n);
    proof {
        lemma_square_monotone(reach as int, d as int);
    }
    let s = push(dx, dy, length_of(dx, dy, n), reach - d, count_sharers(a_fixed, b_fixed));
    if !a_fixed {
        a.pos = shift_back(a.pos, &s);
    }
    if !b_fixed {
        b.pos = shift(b.pos, &s);
    }
    proof {
        assert(moved(old(a).pos, Nudge::zero()) == old(a).pos);
        assert(moved(old(b).pos, Nudge::zero()) == old(b).pos);
    }
    a.colour = Colour::highlight();
    b.colour = Colour::highlight();
    true
}

/// The lesser of two wide values.
fn lesser(a: i128, b: i128) -> (m: i128)
    ensures
        m == vstd::math::min(a as int, b as int),
{
    if a <= b {
        a
    } else {
        b
    }
}

/// The greater of two wide values.
fn greater(a: i128, b: i128) -> (m: i128)
    ensures
        m == vstd::math::max(a as int, b as int),
{
    if a >= b {
        a
    } else {
        b
    }
}

/// Computes [`overlap_x`].
fn extent_x(a: &Rectangle, b: &Rectangle) -> (e: i128)
    ensures
        e == overlap_x(*a, *b),
        e <= a.w(),
        e <= b.w(),
{
    lesser(a.pos.x as i128 + a.width.get() as i128, b.pos.x as i128 + b.width.get() as i128)
        - greater(a.pos.x as i128, b.pos.x as i128)
}

/// Computes [`overlap_y`].
fn extent_y(a: &Rectangle, b: &Rectangle) -> (e: i128)
    ensures
        e == overlap_y(*a, *b),
        e <= a.h(),
        e <= b.h(),
{
    lesser(a.pos.y as i128 + a.height.get() as i128, b.pos.y as i128 + b.height.get() as i128)
        - greater(a.pos.y as i128, b.pos.y as i128)
}

/// Computes [`split_depth`].
fn split(depth: i128, first_fixed: bool, second_fixed: bool) -> (r: (i128, i128))
    requires
        0 < depth <= u32::MAX,
    ensures
        (r.0 as int, r.1 as int) == split_depth(depth as int, first_fixed, second_fixed),
        -depth <= r.0 <= 0 <= r.1 <= depth,
{
    if first_fixed && second_fixed {
        (0, 0)
    } else if first_fixed {
        (0, depth)
    } else if second_fixed {
        (-depth, 0)
    } else {
        let half: i128 = ((depth as u128) / 2) as i128;
        (-half, depth - half)
    }
}

/// Tests two rectangles for overlap.
pub fn rectangles_collide(a: &Rectangle, b: &Rectangle) -> (hit: bool)
    ensures
        hit == rectangles_overlap(*a, *b),
{
    extent_x(a, b) > 0 && extent_y(a, b) > 0
}

/// Pushes two rectangles apart if they overlap, and marks them.  Returns
/// whether they overlapped.
pub fn resolve_rectangles(a: &mut Rectangle, a_fixed: bool, b: &mut Rectangle, b_fixed: bool)
    -> (hit: bool)
    ensures
        hit == rectangles_overlap(*old(a), *old(b)),
        !hit ==> *final(a) == *old(a) && *final(b) == *old(b),
        hit ==> *final(a) == (Rectangle {
            pos: moved(
                old(a).pos,
                rectangles_correction(*old(a), *old(b), a_fixed, b_fixed).first,
            ),
            colour: Colour::spec_highlight(),
            ..*old(a)
        }),
        hit ==> *final(b) == (Rectangle {
            pos: moved(
                old(b).pos,
                rectangles_correction(*old(a), *old(b), a_fixed, b_fixed).second,
            ),
            colour: Colour::spec_highlight(),
            ..*old(b)
        }),
{
    let ex = extent_x(a, b);
    let ey = extent_y(a, b);
    if !(ex > 0 && ey > 0) {
        return false;
    }
    let first: Offset;
    let second: Offset;
    if ex <= ey {
        let a_centre: i128 = 2 * (a.pos.x as i128) + a.width.get() as i128;
        let b_centre: i128 = 2 * (b.pos.x as i128) + b.width.get() as i128;
        if a_centre <= b_centre {
            let (f, s) = split(ex, a_fixed, b_fixed);
            first = Offset { dx: f, dy: 0 };
            second = Offset { dx: s, dy: 0 };
        } else {
            let (s, f) = split(ex, b_fixed, a_fixed);
            first = Offset { dx: f, dy: 0 };
            second = Offset { dx: s, dy: 0 };
        }
    } else {
        let a_centre: i128 = 2 * (a.pos.y as i128) + a.height.get() as i128;
        let b_centre: i128 = 2 * (b.pos.y as i128) + b.height.get() as i128;
        if a_centre <= b_centre {
            let (f, s) = split(ey, a_fixed, b_fixed);
            first = Offset { dx: 0, dy: f };
            second = Offset { dx: 0, dy: s };
        } else {
            let (s, f) = split(ey, b_fixed, a_fixed);
            first = Offset { dx: 0, dy: f };
            second = Offset { dx: 0, dy: s };
        }
    }
    proof {
        lemma_wide_bounds();
    }
    a.pos = shift(a.pos, &first);
    b.pos = shift(b.pos, &second);
    a.colour = Colour::highlight();
    b.colour = Colour::highlight();
    true
}

/// Clamps a coordinate to a rectangle's range on one axis.
fn clamp_coordinate(p: i64, low: i64, extent: u32) -> (q: i128)
    ensures
        q == clamp_to(p as int, low as int, low + extent),
{
    let high: i128 = low as i128 + extent as i128;
    if p < low {
        low as i128
    } else if p as i128 > high {
        high
    } else {
        p as i128
    }
}

/// Tests a circle and a rectangle for overlap.
pub fn circle_rectangle_collide(c: &Circle, r: &Rectangle) -> (hit: bool)
    ensures
        hit == circle_rectangle_overlap(*c, *r),
{
    let radius = c.radius.get() as i128;
    let ex: i128 = clamp_coordinate(c.pos.x, r.pos.x, r.width.get()) - c.pos.x as i128;
    let ey: i128 = clamp_coordinate(c.pos.y, r.pos.y, r.height.get()) - c.pos.y as i128;
    proof {
        lemma_square_of_magnitude(ex as int);
        lemma_square_of_magnitude(ey as int);
        lemma_square_monotone(radius as int, magnitude(ex as int));
        lemma_square_monotone(radius as int, magnitude(ey as int));
    }
    if ex >= radius || ex <= -radius || ey >= radius || ey <= -radius {
        false
    } else {
        proof {
            lemma_product_bound(radius as int, radius as int, 0xffff_ffff, 0xffff_ffff);
        }
        sum_of_squares(ex, ey) < (radius * radius) as u128
    }
}

/// Pushes a circle and a rectangle apart if they overlap, and marks them.
/// Returns whether they overlapped.
pub fn resolve_circle_rectangle(
    c: &mut Circle,
    c_fixed: bool,
    r: &mut Rectangle,
    r_fixed: bool,
) -> (hit: bool)
    ensures
        hit == circle_rectangle_overlap(*old(c), *old(r)),
        !hit ==> *final(c) == *old(c) && *final(r) == *old(r),
        hit ==> *final(c) == (Circle {
            pos: moved(
                old(c).pos,
                circle_rectangle_correction(*old(c), *old(r), c_fixed, r_fixed).first,
            ),
            colour: Colour::spec_highlight(),
            ..*old(c)
        }),
        hit ==> *final(r) == (Rectangle {
            pos: moved(
                old(r).pos,
                circle_rectangle_correction(*old(c), *old(r), c_fixed, r_fixed).second,
            ),
            colour: Colour::spec_highlight(),
            ..*old(r)
        }),
{
    if !circle_rectangle_collide(c, r) {
        return false;
    }
    let radius = c.radius.get() as u64;
    let ex: i128 = clamp_coordinate(c.pos.x, r.pos.x, r.width.get()) - c.pos.x as i128;
    let ey: i128 = clamp_coordinate(c.pos.y, r.pos.y, r.height.get()) - c.pos.y as i128;
    proof {
        lemma_square_of_magnitude(ex as int);
        lemma_square_of_magnitude(ey as int);
        lemma_square_monotone(radius as int, magnitude(ex as int));
        lemma_square_monotone(radius as int, magnitude(ey as int));
    }
    let n = sum_of_squares(ex, ey);
    let d = isqrt(n);
    proof {
        lemma_square_monotone(radius as int, d as int);
    }
    let s = push(ex, ey, length_of(ex, ey, n), radius - d, count_sharers(c_fixed, r_fixed));
    if !c_fixed {
        c.pos = shift_back(c.pos, &s);
    }
    if !r_fixed {
        r.pos = shift(r.pos, &s);
    }
    proof {
        assert(moved(old(c).pos, Nudge::zero()) == old(c).pos);
        assert(moved(old(r).pos, Nudge::zero()) == old(r).pos);
    }
    c.colour = Colour::highlight();
    r.colour = Colour::highlight();
    true
}

/// Tests two shapes for overlap.
pub fn shapes_collide(a: &Shape, b: &Shape) -> (hit: bool)
    ensures
        hit == overlaps(*a, *b),
{
    match a {
        Shape::Circle(x) => match b {
            Shape::Circle(y) => circles_collide(x, y),
            Shape::Rectangle(y) => circle_rectangle_collide(x, y),
        },
        Shape::Rectangle(x) => match b {
            Shape::Circle(y) => circle_rectangle_collide(y, x),
            Shape::Rectangle(y) => rectangles_collide(x, y),
        },
    }
}

/// Pushes two shapes apart if they overlap, and marks them with the
/// highlight colour.  A fixed shape is marked but not moved.  Returns
/// whether the shapes overlapped.
pub fn resolve_shapes(a: &mut Shape, a_fixed: bool, b: &mut Shape, b_fixed: bool) -> (hit: bool)
    ensures
        hit == overlaps(*old(a), *old(b)),
        *final(a) == resolved_first(*old(a), *old(b), a_fixed, b_fixed),
        *final(b) == resolved_second(*old(a), *old(b), a_fixed, b_fixed),
{
    match a {
        Shape::Circle(x) => match b {
            Shape::Circle(y) => resolve_circles(x, a_fixed, y, b_fixed),
            Shape::Rectangle(y) => resolve_circle_rectangle(x, a_fixed, y, b_fixed),
        },
        Shape::Rectangle(x) => match b {
            Shape::Circle(y) => resolve_circle_rectangle(y, b_fixed, x, a_fixed),
            Shape::Rectangle(y) => resolve_rectangles(x, a_fixed, y, b_fixed),
        },
    }
}

} // verus!
