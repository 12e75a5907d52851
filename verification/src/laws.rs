//! What holds of the narrow phase for every pair of shapes.

use vstd::prelude::*;
use crate::collision::{
    circles_correction,
    circles_depth,
    circles_overlap,
    correction,
    direction_length,
    lemma_fine_length,
    moved,
    overlap_x,
    overlap_y,
    overlaps,
    push_along,
    rectangles_correction,
    rectangles_overlap,
    resolved_first,
    resolved_second,
    separates_along_x,
    sharers,
    Nudge,
    FINENESS,
};
use crate::geometry::dist2;
use crate::shapes::{Circle, Rectangle, Shape};
use crate::units::{
    div_ceil,
    floor_sqrt,
    lemma_div_ceil_bounds,
    lemma_floor_sqrt_bounds,
    lemma_floor_sqrt_exists,
    lemma_product_bound,
    lemma_square_monotone,
    lemma_square_of_magnitude,
    lemma_square_of_product,
    magnitude,
    signum,
};

verus! {

/// One component of a push, added `parts` times to the difference it was
/// computed from, lengthens that difference in the proportion of
/// `length + FINENESS * depth` to `length`, or more.
proof fn lemma_component_grows(delta: int, depth: int, length: int, parts: int)
    requires
        depth >= 0,
        length >= 1,
        parts >= 1,
    ensures
        ({
            let grown = delta + parts * (signum(delta) * div_ceil(
                magnitude(delta) * FINENESS * depth,
                parts * length,
            ));
            magnitude(grown) * length >= magnitude(delta) * (length + FINENESS * depth)
        }),
{
    let size = magnitude(delta);
    let work = size * FINENESS * depth;
    let step = div_ceil(work, parts * length);
    assert(work >= 0) by (nonlinear_arith)
        requires
            work == size * FINENESS * depth,
            size >= 0,
            depth >= 0,
    ;
    assert(parts * length >= 1) by (nonlinear_arith)
        requires
            parts >= 1,
            length >= 1,
    ;
    lemma_div_ceil_bounds(work, parts * length);
    let grown = delta + parts * (signum(delta) * step);
    if delta == 0 {
        assert(work == 0) by (nonlinear_arith)
            requires
                work == size * FINENESS * depth,
                size == 0,
        ;
        assert(step == 0) by (nonlinear_arith)
            requires
                0 <= (parts * length) * step < parts * length,
                step >= 0,
        ;
    }
    assert(magnitude(grown) == size + parts * step) by (nonlinear_arith)
        requires
            grown == delta + parts * (signum(delta) * step),
            size == magnitude(delta),
            step >= 0,
            parts >= 1,
            delta == 0 ==> step == 0,
    ;
    assert((size + parts * step) * length >= size * (length + FINENESS * depth))
        by (nonlinear_arith)
        requires
            (parts * length) * step >= size * FINENESS * depth,
    ;
}

/// Pushing a pair apart along the line that joins it, by the amount that
/// it falls short of `reach`, leaves it at least `reach` apart.
pub proof fn lemma_push_separates(dx: int, dy: int, reach: int, parts: int)
    requires
        1 <= parts <= 2,
        reach >= 0,
        dx * dx + dy * dy <= reach * reach,
    ensures
        ({
            let d = floor_sqrt(dx * dx + dy * dy);
            let p = push_along(dx, dy, reach - d, parts);
            let nx = dx + parts * p.dx;
            let ny = dy + parts * p.dy;
            nx * nx + ny * ny >= reach * reach
        }),
{
    let n = dx * dx + dy * dy;
    lemma_square_of_magnitude(dx);
    lemma_square_of_magnitude(dy);
    lemma_floor_sqrt_exists(n);
    lemma_floor_sqrt_bounds(n, reach);
    lemma_fine_length(n);
    let d = floor_sqrt(n);
    let depth = reach - d;
    let length = direction_length(dx, dy);
    let p = push_along(dx, dy, depth, parts);
    let nx = dx + parts * p.dx;
    let ny = dy + parts * p.dy;
    if length == 0 {
        assert(dx == 0 && dy == 0) by (nonlinear_arith)
            requires
                dx * dx + dy * dy == 0,
        ;
        lemma_div_ceil_bounds(depth, parts);
        assert(nx * nx + ny * ny >= reach * reach) by (nonlinear_arith)
            requires
                nx >= reach,
                reach >= 0,
                ny == 0,
        ;
    } else {
        let fine = FINENESS as int;
        let wide = fine * reach;
        lemma_component_grows(dx, depth, length, parts);
        lemma_component_grows(dy, depth, length, parts);
        let a = magnitude(nx);
        let b = magnitude(ny);
        let sx = magnitude(dx);
        let sy = magnitude(dy);
        assert(length + fine * depth >= wide) by (nonlinear_arith)
            requires
                length >= fine * d,
                depth == reach - d,
                wide == fine * reach,
        ;
        assert(a * length >= sx * wide) by (nonlinear_arith)
            requires
                a * length >= sx * (length + fine * depth),
                length + fine * depth >= wide,
                sx >= 0,
        ;
        assert(b * length >= sy * wide) by (nonlinear_arith)
            requires
                b * length >= sy * (length + fine * depth),
                length + fine * depth >= wide,
                sy >= 0,
        ;
        lemma_product_bound(0, 0, fine, reach);
        lemma_product_bound(0, 0, sx, wide);
        lemma_product_bound(0, 0, sy, wide);
        lemma_square_monotone(sx * wide, a * length);
        lemma_square_monotone(sy * wide, b * length);
        lemma_square_of_product(a, length);
        lemma_square_of_product(b, length);
        lemma_square_of_product(sx, wide);
        lemma_square_of_product(sy, wide);
        lemma_square_of_product(fine, reach);
        lemma_square_of_magnitude(nx);
        lemma_square_of_magnitude(ny);
        let aa = a * a;
        let bb = b * b;
        let ll = length * length;
        let ww = wide * wide;
        let rr = reach * reach;
        let ff = fine * fine;
        assert(n * ff >= ll) by {
            lemma_product_bound(0, 0, n, ff);
            lemma_floor_sqrt_exists(n * ff);
        }
        assert(aa * ll + bb * ll >= (sx * sx) * ww + (sy * sy) * ww);
        assert((aa + bb) * ll >= n * ww) by (nonlinear_arith)
            requires
                aa * ll + bb * ll >= (sx * sx) * ww + (sy * sy) * ww,
                sx * sx + sy * sy == n,
        ;
        assert(n * ww == (n * ff) * rr) by (nonlinear_arith)
            requires
                ww == ff * rr,
        ;
        assert(ll >= 1) by (nonlinear_arith)
            requires
                ll == length * length,
                length >= 1,
        ;
        assert(rr >= 0) by (nonlinear_arith)
            requires
                rr == reach * reach,
        ;
        assert(aa + bb >= rr) by (nonlinear_arith)
            requires
                (aa + bb) * ll >= (n * ff) * rr,
                n * ff >= ll,
                ll >= 1,
                rr >= 0,
        ;
    }
}

/// A push displaces no body by more than its share of the depth, rounded
/// up, along either axis.
pub proof fn lemma_push_bounded(dx: int, dy: int, depth: int, parts: int)
    requires
        depth >= 0,
        parts >= 1,
    ensures
        magnitude(push_along(dx, dy, depth, parts).dx) <= div_ceil(depth, parts),
        magnitude(push_along(dx, dy, depth, parts).dy) <= div_ceil(depth, parts),
{
    let n = dx * dx + dy * dy;
    lemma_square_of_magnitude(dx);
    lemma_square_of_magnitude(dy);
    lemma_floor_sqrt_exists(n);
    lemma_fine_length(n);
    lemma_div_ceil_bounds(depth, parts);
    let length = direction_length(dx, dy);
    if length > 0 {
        lemma_component_bounded(magnitude(dx), n, depth, parts);
        lemma_component_bounded(magnitude(dy), n, depth, parts);
        let cx = div_ceil(magnitude(dx) * FINENESS * depth, parts * length);
        let cy = div_ceil(magnitude(dy) * FINENESS * depth, parts * length);
        assert(magnitude(signum(dx) * cx) <= cx) by (nonlinear_arith)
            requires
                cx >= 0,
        ;
        assert(magnitude(signum(dy) * cy) <= cy) by (nonlinear_arith)
            requires
                cy >= 0,
        ;
    }
}

/// One component of a push is at most the share of the depth, rounded up.
proof fn lemma_component_bounded(size: int, n: int, depth: int, parts: int)
    requires
        depth >= 0,
        parts >= 1,
        size >= 0,
        size * size <= n,
        floor_sqrt(n * (FINENESS * FINENESS)) >= 1,
    ensures
        0 <= div_ceil(size * FINENESS * depth, parts * floor_sqrt(n * (FINENESS * FINENESS)))
            <= div_ceil(depth, parts),
{
    let fine = FINENESS as int;
    let length = floor_sqrt(n * (FINENESS * FINENESS));
    lemma_product_bound(0, 0, n, fine * fine);
    lemma_floor_sqrt_exists(n * (fine * fine));
    lemma_square_of_product(size, fine);
    assert((size * fine) * (size * fine) <= n * (fine * fine)) by (nonlinear_arith)
        requires
            (size * fine) * (size * fine) == (size * size) * (fine * fine),
            size * size <= n,
            fine * fine >= 0,
    ;
    lemma_product_bound(0, 0, size, fine);
    if size * fine > length {
        lemma_square_monotone(length + 1, size * fine);
    }
    let work = size * fine * depth;
    let divisor = parts * length;
    assert(0 <= work <= length * depth) by (nonlinear_arith)
        requires
            work == size * fine * depth,
            0 <= size * fine <= length,
            depth >= 0,
    ;
    assert(divisor >= 1) by (nonlinear_arith)
        requires
            divisor == parts * length,
            parts >= 1,
            length >= 1,
    ;
    lemma_div_ceil_bounds(work, divisor);
    lemma_div_ceil_bounds(depth, parts);
    let got = div_ceil(work, divisor);
    let share = div_ceil(depth, parts);
    if got > share {
        assert(divisor * got >= work + divisor) by (nonlinear_arith)
            requires
                got >= share + 1,
                divisor == parts * length,
                parts * share >= depth,
                work <= length * depth,
                length >= 1,
                parts >= 1,
        ;
    }
}

/// The distance of the centres of two circles, rounded down to a whole raw
/// unit, is at most the sum of the radii if the circles overlap and at
/// least that sum if they do not; so the depth of an overlap is never
/// negative.
pub proof fn lemma_circles_overlap_distance(a: Circle, b: Circle)
    ensures
        circles_overlap(a, b) ==> floor_sqrt(dist2(a.pos, b.pos)) <= a.r() + b.r(),
        !circles_overlap(a, b) ==> floor_sqrt(dist2(a.pos, b.pos)) >= a.r() + b.r(),
        circles_overlap(a, b) ==> circles_depth(a, b) >= 0,
{
    let n = dist2(a.pos, b.pos);
    let reach = a.r() + b.r();
    lemma_square_of_magnitude(b.pos.x - a.pos.x);
    lemma_square_of_magnitude(b.pos.y - a.pos.y);
    lemma_floor_sqrt_exists(n);
    if circles_overlap(a, b) {
        lemma_floor_sqrt_bounds(n, reach);
    } else {
        lemma_square_monotone(floor_sqrt(n) + 1, reach);
    }
}

/// Two overlapping circles of which at least one can move are, after
/// resolution, no closer than the sum of their radii, provided that the
/// correction does not push a centre out of the coordinate range.
pub proof fn lemma_circles_separated(a: Circle, b: Circle, a_fixed: bool, b_fixed: bool)
    requires
        a.well_formed(),
        b.well_formed(),
        circles_overlap(a, b),
        !(a_fixed && b_fixed),
        circles_correction(a, b, a_fixed, b_fixed).fits(a.pos, b.pos),
    ensures
        dist2(
            moved(a.pos, circles_correction(a, b, a_fixed, b_fixed).first),
            moved(b.pos, circles_correction(a, b, a_fixed, b_fixed).second),
        ) >= (a.r() + b.r()) * (a.r() + b.r()),
{
    let dx = b.pos.x - a.pos.x;
    let dy = b.pos.y - a.pos.y;
    let reach = a.r() + b.r();
    let parts = sharers(a_fixed, b_fixed);
    lemma_push_separates(dx, dy, reach, parts);
    let c = circles_correction(a, b, a_fixed, b_fixed);
    let na = moved(a.pos, c.first);
    let nb = moved(b.pos, c.second);
    let d = floor_sqrt(dx * dx + dy * dy);
    let p = push_along(dx, dy, reach - d, parts);
    assert(nb.x - na.x == dx + parts * p.dx);
    assert(nb.y - na.y == dy + parts * p.dy);
}

/// Two rectangles overlap exactly when each begins before the other ends,
/// on both axes.
pub proof fn lemma_rectangles_overlap_intervals(a: Rectangle, b: Rectangle)
    requires
        a.well_formed(),
        b.well_formed(),
    ensures
        rectangles_overlap(a, b) <==> (a.pos.x < b.pos.x + b.w() && b.pos.x < a.pos.x + a.w()
            && a.pos.y < b.pos.y + b.h() && b.pos.y < a.pos.y + a.h()),
{
}

/// Resolving two overlapping rectangles changes positions along one axis
/// only: the axis of the smaller overlap (x when the overlaps are equal).
/// Along that axis the two are displaced apart from each other by the
/// overlap in all, unless both are fixed.
pub proof fn lemma_rectangles_one_axis(a: Rectangle, b: Rectangle, a_fixed: bool, b_fixed: bool)
    requires
        rectangles_overlap(a, b),
    ensures
        ({
            let c = rectangles_correction(a, b, a_fixed, b_fixed);
            let along_x = overlap_x(a, b) <= overlap_y(a, b);
            let depth = if along_x {
                overlap_x(a, b)
            } else {
                overlap_y(a, b)
            };
            let moving = !(a_fixed && b_fixed);
            &&& along_x ==> c.first.dy == 0 && c.second.dy == 0
            &&& along_x ==> moved(a.pos, c.first).y == a.pos.y && moved(b.pos, c.second).y
                == b.pos.y
            &&& along_x && moving ==> magnitude(c.second.dx - c.first.dx) == depth
            &&& !along_x ==> c.first.dx == 0 && c.second.dx == 0
            &&& !along_x ==> moved(a.pos, c.first).x == a.pos.x && moved(b.pos, c.second).x
                == b.pos.x
            &&& !along_x && moving ==> magnitude(c.second.dy - c.first.dy) == depth
        }),
{
}

/// A fixed body is not moved by the resolution of any pair it is part of:
/// its displacement is zero and its position stays.
pub proof fn lemma_fixed_stays(a: Shape, b: Shape, a_fixed: bool, b_fixed: bool)
    ensures
        a_fixed ==> resolved_first(a, b, a_fixed, b_fixed).pos() == a.pos(),
        b_fixed ==> resolved_second(a, b, a_fixed, b_fixed).pos() == b.pos(),
        a_fixed ==> correction(a, b, a_fixed, b_fixed).first == Nudge::zero(),
        b_fixed ==> correction(a, b, a_fixed, b_fixed).second == Nudge::zero(),
{
}

/// Where exactly one of two overlapping rectangles is fixed, the other is
/// displaced by the whole overlap along the axis of separation, and not
/// at all along the other axis.
pub proof fn lemma_partner_takes_all(a: Rectangle, b: Rectangle, a_fixed: bool, b_fixed: bool)
    requires
        rectangles_overlap(a, b),
        a_fixed != b_fixed,
    ensures
        ({
            let c = rectangles_correction(a, b, a_fixed, b_fixed);
            let shift = if a_fixed {
                c.second
            } else {
                c.first
            };
            let rest = if a_fixed {
                c.first
            } else {
                c.second
            };
            &&& rest == Nudge::zero()
            &&& separates_along_x(a, b) ==> magnitude(shift.dx) == overlap_x(a, b) && shift.dy == 0
            &&& !separates_along_x(a, b) ==> magnitude(shift.dy) == overlap_y(a, b) && shift.dx
                == 0
        }),
{
}

} // verus!
