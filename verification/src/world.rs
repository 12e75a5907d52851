//! The frame step: integration, rebuilding the spatial index, and one pass
//! of collision resolution over the pairs that the index proposes.

use vstd::prelude::*;
use crate::collision::{
    nearest_x,
    nearest_y,
    overlaps,
    resolve_shapes,
    resolved_first,
    resolved_second,
};
use crate::geometry::{Bounds, Point};
use crate::objects::Object;
use crate::quadtree::{layout, within, IndexedPoint, SpatialNode};
use crate::shapes::Shape;
use crate::units::{lemma_square_monotone, lemma_square_of_magnitude, magnitude};

verus! {

/// The region in which a shape looks for partners: a square centred on the
/// point that places the shape, reaching twice the shape's largest
/// measurement to every side.
pub open spec fn search_area(s: Shape) -> Bounds {
    Bounds::spec_around(s.pos(), (2 * s.extent()) as u64)
}

/// Computes [`search_area`].
pub fn search_bounds(s: &Shape) -> (b: Bounds)
    ensures
        b == search_area(*s),
{
    let m = s.get_measurements();
    let extent: u64 = if m.0 >= m.1 {
        m.0 as u64
    } else {
        m.1 as u64
    };
    Bounds::around(s.get_position(), 2 * extent)
}

/// Of two overlapping shapes, the one whose extent is not the smaller has
/// the placing point of the other in its search area.
pub proof fn lemma_search_area_covers_partner(a: Shape, b: Shape)
    requires
        a.well_formed(),
        b.well_formed(),
        overlaps(a, b),
        a.extent() >= b.extent(),
    ensures
        search_area(a).spec_contains(b.pos()),
{
    let dx = b.pos().x - a.pos().x;
    let dy = b.pos().y - a.pos().y;
    lemma_square_of_magnitude(dx);
    lemma_square_of_magnitude(dy);
    match (a, b) {
        (Shape::Circle(x), Shape::Circle(y)) => {
            lemma_square_monotone(x.r() + y.r(), magnitude(dx));
            lemma_square_monotone(x.r() + y.r(), magnitude(dy));
        },
        (Shape::Rectangle(x), Shape::Rectangle(y)) => {},
        (Shape::Circle(c), Shape::Rectangle(r)) => {
            let ex = nearest_x(r, c.pos) - c.pos.x;
            let ey = nearest_y(r, c.pos) - c.pos.y;
            lemma_square_of_magnitude(ex);
            lemma_square_of_magnitude(ey);
            lemma_square_monotone(c.r(), magnitude(ex));
            lemma_square_monotone(c.r(), magnitude(ey));
        },
        (Shape::Rectangle(r), Shape::Circle(c)) => {
            let ex = nearest_x(r, c.pos) - c.pos.x;
            let ey = nearest_y(r, c.pos) - c.pos.y;
            lemma_square_of_magnitude(ex);
            lemma_square_of_magnitude(ey);
            lemma_square_monotone(c.r(), magnitude(ex));
            lemma_square_monotone(c.r(), magnitude(ey));
        },
    }
}

/// The pair `(a, b)` after resolution: shapes pushed apart and marked if
/// they overlap, everything else as it was.  A static body counts as fixed.
pub open spec fn resolved_pair(a: Object, b: Object) -> (Object, Object) {
    (
        Object { shape: resolved_first(a.shape, b.shape, a.is_fixed(), b.is_fixed()), ..a },
        Object { shape: resolved_second(a.shape, b.shape, a.is_fixed(), b.is_fixed()), ..b },
    )
}

/// Tests two bodies for overlap and, if they overlap, pushes them apart and
/// marks both with the highlight colour.  A static body is not moved; the
/// other body of the pair then takes the whole correction.
pub fn resolve_pair(a: &mut Object, b: &mut Object) -> (hit: bool)
    ensures
        hit == overlaps(old(a).shape, old(b).shape),
        *final(a) == resolved_pair(*old(a), *old(b)).0,
        *final(b) == resolved_pair(*old(a), *old(b)).1,
{
    let a_fixed = a.is_static();
    let b_fixed = b.is_static();
    resolve_shapes(&mut a.shape, a_fixed, &mut b.shape, b_fixed)
}

/// Every body after one integration step of length `dt`.
pub open spec fn integrated(objs: Seq<Object>, dt: int) -> Seq<Object> {
    Seq::new(objs.len(), |i: int| objs[i].stepped(dt))
}

/// Integrates every body over `dt` raw time units.
pub fn integrate_all(objects: &mut Vec<Object>, dt: u32)
    ensures
        final(objects)@ == integrated(old(objects)@, dt as int),
{
    let n = objects.len();
    let mut i: usize = 0;
    while i < n
        invariant
            i <= n,
            objects.len() == n,
            n == old(objects).len(),
            forall|k: int| 0 <= k < i ==> objects[k] == old(objects)[k].stepped(dt as int),
            forall|k: int| i <= k < n ==> objects[k] == old(objects)[k],
        decreases n - i,
    {
        let mut o = objects[i];
        o.physics_process(dt);
        objects.set(i, o);
        i = i + 1;
    }
    assert(objects@ =~= integrated(old(objects)@, dt as int));
}

/// The positions of all bodies, each tagged with the index of its body.
pub open spec fn positions(objs: Seq<Object>) -> Seq<IndexedPoint> {
    Seq::new(objs.len(), |i: int| IndexedPoint { pos: objs[i].shape.pos(), index: i as usize })
}

/// The predicate "stands for a body of `objs` that is not marked for
/// deletion and lies in `b`".
pub open spec fn indexable(objs: Seq<Object>, b: Bounds) -> spec_fn(IndexedPoint) -> bool {
    |p: IndexedPoint| 0 <= p.index < objs.len() && !objs[p.index as int].to_be_deleted
        && b.spec_contains(p.pos)
}

/// The points that a rebuilt index over region `b` holds: the positions of
/// the bodies that are not marked for deletion and lie in `b`, in the order
/// of the bodies.
pub open spec fn index_points(objs: Seq<Object>, b: Bounds) -> Seq<IndexedPoint> {
    positions(objs).filter(indexable(objs, b))
}

/// Empties the index and fills it with the position of every body that is
/// not marked for deletion.  A body outside the region of the index is left
/// out of it.
pub fn rebuild_index(objects: &Vec<Object>, index: &mut SpatialNode)
    requires
        old(index).well_formed(),
    ensures
        final(index).well_formed(),
        final(index).spec_boundary() == old(index).spec_boundary(),
        final(index).spec_capacity() == old(index).spec_capacity(),
        final(index)@ == index_points(objects@, old(index).spec_boundary()),
{
    index.clear();
    let ghost b = index.spec_boundary();
    let ghost all = positions(objects@);
    let ghost keep = indexable(objects@, b);
    let n = objects.len();
    let mut i: usize = 0;
    proof {
        assert(all.take(0) =~= Seq::<IndexedPoint>::empty());
        reveal(Seq::filter);
        assert(all.take(0).filter(keep) =~= Seq::<IndexedPoint>::empty());
    }
    while i < n
        invariant
            i <= n,
            n == objects.len(),
            all == positions(objects@),
            keep == indexable(objects@, b),
            index.well_formed(),
            index.spec_boundary() == b,
            index.spec_capacity() == old(index).spec_capacity(),
            index@ == all.take(i as int).filter(keep),
        decreases n - i,
    {
        let p = IndexedPoint { pos: objects[i].shape.get_position(), index: i };
        proof {
            let seen = all.take(i as int);
            assert(all.take(i as int + 1) =~= seen.push(p));
            seen.lemma_filter_push(p, keep);
        }
        if !objects[i].to_be_deleted {
            index.insert(p);
        }
        i = i + 1;
    }
    proof {
        assert(all.take(n as int) =~= all);
    }
}

/// Body `i` resolved against body `j`.  Nothing happens if `j` is `i`, is
/// no index of a body, or is marked for deletion.
pub open spec fn resolve_against(objs: Seq<Object>, i: int, j: int) -> Seq<Object> {
    if j != i && 0 <= i < objs.len() && 0 <= j < objs.len() && !objs[j].to_be_deleted {
        objs.update(i, resolved_pair(objs[i], objs[j]).0).update(
            j,
            resolved_pair(objs[i], objs[j]).1,
        )
    } else {
        objs
    }
}

/// Body `i` resolved against each of the candidates in turn.
pub open spec fn resolve_candidates(objs: Seq<Object>, i: int, candidates: Seq<IndexedPoint>)
    -> Seq<Object>
    decreases candidates.len(),
{
    if candidates.len() == 0 {
        objs
    } else {
        resolve_against(
            resolve_candidates(objs, i, candidates.drop_last()),
            i,
            candidates.last().index as int,
        )
    }
}

/// The bodies after the first `n` of them have each, in turn, been resolved
/// against the candidates that a search of `order` around them finds.  A
/// body that is marked for deletion is passed over.
pub open spec fn resolve_first(objs: Seq<Object>, order: Seq<IndexedPoint>, n: int) -> Seq<
    Object,
>
    decreases n,
{
    if n <= 0 {
        objs
    } else {
        let before = resolve_first(objs, order, n - 1);
        if before[n - 1].to_be_deleted {
            before
        } else {
            resolve_candidates(
                before,
                n - 1,
                order.filter(within(search_area(before[n - 1].shape))),
            )
        }
    }
}

/// What a pass of collision resolution can change: of each body only the
/// shape, of the shape only position and colour, and of a static body not
/// the position.  A well-formed body stays well-formed.
pub open spec fn only_corrected(before: Seq<Object>, after: Seq<Object>) -> bool {
    &&& after.len() == before.len()
    &&& forall|k: int|
        0 <= k < before.len() ==> {
            &&& #[trigger] after[k] == (Object { shape: after[k].shape, ..before[k] })
            &&& after[k].shape.kind() == before[k].shape.kind()
            &&& after[k].shape.measurements() == before[k].shape.measurements()
            &&& before[k].is_fixed() ==> after[k].shape.pos() == before[k].shape.pos()
            &&& before[k].well_formed() ==> after[k].well_formed()
        }
}

/// One candidate changes only what a pass can change.
proof fn lemma_resolve_against_corrects(objs: Seq<Object>, i: int, j: int)
    ensures
        only_corrected(objs, resolve_against(objs, i, j)),
{
}

/// A run of candidates changes only what a pass can change.
proof fn lemma_resolve_candidates_corrects(
    objs: Seq<Object>,
    i: int,
    candidates: Seq<IndexedPoint>,
)
    ensures
        only_corrected(objs, resolve_candidates(objs, i, candidates)),
    decreases candidates.len(),
{
    if candidates.len() > 0 {
        let mid = resolve_candidates(objs, i, candidates.drop_last());
        lemma_resolve_candidates_corrects(objs, i, candidates.drop_last());
        lemma_resolve_against_corrects(mid, i, candidates.last().index as int);
        let end = resolve_against(mid, i, candidates.last().index as int);
        assert forall|k: int| 0 <= k < objs.len() implies {
            &&& #[trigger] end[k] == (Object { shape: end[k].shape, ..objs[k] })
            &&& end[k].shape.kind() == objs[k].shape.kind()
            &&& end[k].shape.measurements() == objs[k].shape.measurements()
            &&& objs[k].is_fixed() ==> end[k].shape.pos() == objs[k].shape.pos()
            &&& objs[k].well_formed() ==> end[k].well_formed()
        } by {
            assert(mid[k] == (Object { shape: mid[k].shape, ..objs[k] }));
        }
    }
}

/// A pass of collision resolution changes of each body only the shape, of
/// the shape only position and colour, and of a static body not the
/// position.
pub proof fn lemma_resolve_first_corrects(objs: Seq<Object>, order: Seq<IndexedPoint>, n: int)
    ensures
        only_corrected(objs, resolve_first(objs, order, n)),
    decreases n,
{
    if n > 0 {
        let mid = resolve_first(objs, order, n - 1);
        lemma_resolve_first_corrects(objs, order, n - 1);
        if !mid[n - 1].to_be_deleted {
            let candidates = order.filter(within(search_area(mid[n - 1].shape)));
            lemma_resolve_candidates_corrects(mid, n - 1, candidates);
            let end = resolve_candidates(mid, n - 1, candidates);
            assert forall|k: int| 0 <= k < objs.len() implies {
                &&& #[trigger] end[k] == (Object { shape: end[k].shape, ..objs[k] })
                &&& end[k].shape.kind() == objs[k].shape.kind()
                &&& end[k].shape.measurements() == objs[k].shape.measurements()
                &&& objs[k].is_fixed() ==> end[k].shape.pos() == objs[k].shape.pos()
                &&& objs[k].well_formed() ==> end[k].well_formed()
            } by {
                assert(mid[k] == (Object { shape: mid[k].shape, ..objs[k] }));
            }
        }
    }
}

/// One pass of collision resolution: every body that is not marked for
/// deletion searches the index around itself and is resolved against each
/// body that the search reports, in the order of the report.  The index is
/// not updated during the pass.
pub fn resolve_collisions(objects: &mut Vec<Object>, index: &SpatialNode)
    requires
        index.well_formed(),
    ensures
        final(objects)@ == resolve_first(
            old(objects)@,
            index.ordered(),
            old(objects).len() as int,
        ),
        final(objects).len() == old(objects).len(),
{
    let n = objects.len();
    let mut i: usize = 0;
    while i < n
        invariant
            i <= n,
            n == old(objects).len(),
            objects.len() == n,
            index.well_formed(),
            objects@ == resolve_first(old(objects)@, index.ordered(), i as int),
        decreases n - i,
    {
        if !objects[i].to_be_deleted {
            let ghost before = objects@;
            let range = search_bounds(&objects[i].shape);
            let candidates = index.query(&range);
            let mut k: usize = 0;
            proof {
                assert(candidates@.take(0) =~= Seq::<IndexedPoint>::empty());
            }
            while k < candidates.len()
                invariant
                    k <= candidates.len(),
                    i < n,
                    objects.len() == n,
                    before.len() == n,
                    objects@ == resolve_candidates(before, i as int, candidates@.take(k as int)),
                decreases candidates.len() - k,
            {
                let j = candidates[k].index;
                proof {
                    let seen = candidates@.take(k as int);
                    let next = candidates@.take(k as int + 1);
                    assert(next.drop_last() =~= seen);
                    assert(next.last() == candidates@[k as int]);
                }
                if j != i && j < n && !objects[j].to_be_deleted {
                    let mut a = objects[i];
                    let mut b = objects[j];
                    resolve_pair(&mut a, &mut b);
                    objects.set(i, a);
                    objects.set(j, b);
                }
                k = k + 1;
            }
            proof {
                assert(candidates@.take(candidates@.len() as int) =~= candidates@);
            }
        }
        i = i + 1;
    }
}

/// The bodies after a whole frame step: integrated, then resolved in the
/// order of an index that was rebuilt over region `b` with capacity `cap`.
pub open spec fn after_step(objs: Seq<Object>, b: Bounds, cap: nat, dt: int) -> Seq<Object> {
    resolve_first(
        integrated(objs, dt),
        layout(b, cap, index_points(integrated(objs, dt), b)),
        objs.len() as int,
    )
}

/// One frame of the simulation, `dt` raw time units (microseconds) long:
/// integrates every body, rebuilds the index from the new positions, and
/// makes one pass of collision resolution.  The index is scratch space of
/// which only region and capacity matter.
pub fn step(objects: &mut Vec<Object>, index: &mut SpatialNode, dt: u32)
    requires
        old(index).well_formed(),
    ensures
        final(objects)@ == after_step(
            old(objects)@,
            old(index).spec_boundary(),
            old(index).spec_capacity() as nat,
            dt as int,
        ),
        final(objects).len() == old(objects).len(),
        final(index).well_formed(),
        final(index).spec_boundary() == old(index).spec_boundary(),
        final(index).spec_capacity() == old(index).spec_capacity(),
        final(index)@ == index_points(
            integrated(old(objects)@, dt as int),
            old(index).spec_boundary(),
        ),
        forall|k: int|
            0 <= k < old(objects).len() && #[trigger] old(objects)[k].is_fixed() ==> final(objects)[k].shape.pos() == old(objects)[k].shape.pos(),
{
    proof {
        assert forall|k: int|
            0 <= k < old(objects).len() && #[trigger] old(objects)[k].is_fixed() implies after_step(
            old(objects)@,
            index.spec_boundary(),
            index.spec_capacity() as nat,
            dt as int,
        )[k].shape.pos() == old(objects)[k].shape.pos() by {
            lemma_step_frame(
                old(objects)@,
                index.spec_boundary(),
                index.spec_capacity() as nat,
                dt as int,
                k,
            );
        }
    }
    integrate_all(objects, dt);
    rebuild_index(objects, index);
    resolve_collisions(objects, index);
}

/// The predicate "is not marked for deletion".
pub open spec fn live() -> spec_fn(Object) -> bool {
    |o: Object| !o.to_be_deleted
}

/// Where the body at index `selected` is found once the bodies that are
/// marked for deletion have been removed: nowhere if it is one of them or
/// if there is no such body.
pub open spec fn reselected(objs: Seq<Object>, selected: Option<usize>) -> Option<usize> {
    match selected {
        Some(s) => if s < objs.len() && !objs[s as int].to_be_deleted {
            Some(objs.take(s as int).filter(live()).len() as usize)
        } else {
            None
        },
        None => None,
    }
}

/// Removes the bodies that are marked for deletion, keeping the others in
/// order, and returns the new index of the selected body.  To be called
/// between frames.
pub fn remove_deleted(objects: &mut Vec<Object>, selected: Option<usize>) -> (now: Option<usize>)
    ensures
        final(objects)@ == old(objects)@.filter(live()),
        now == reselected(old(objects)@, selected),
{
    let n = objects.len();
    let mut kept: Vec<Object> = Vec::new();
    let mut now: Option<usize> = None;
    let mut i: usize = 0;
    proof {
        assert(objects@.take(0) =~= Seq::<Object>::empty());
        reveal(Seq::filter);
        assert(objects@.take(0).filter(live()) =~= Seq::<Object>::empty());
    }
    while i < n
        invariant
            i <= n,
            n == objects.len(),
            objects@ == old(objects)@,
            kept@ == objects@.take(i as int).filter(live()),
            kept.len() <= i,
            now == (match selected {
                Some(s) => if s < i {
                    reselected(objects@, selected)
                } else {
                    None
                },
                None => None,
            }),
        decreases n - i,
    {
        let o = objects[i];
        proof {
            let seen = objects@.take(i as int);
            assert(objects@.take(i as int + 1) =~= seen.push(o));
            seen.lemma_filter_push(o, live());
        }
        if !o.to_be_deleted {
            match selected {
                Some(s) => {
                    if s == i {
                        now = Some(kept.len());
                    }
                },
                None => {},
            }
            kept.push(o);
        }
        i = i + 1;
    }
    proof {
        assert(objects@.take(n as int) =~= objects@);
    }
    *objects = kept;
    now
}

/// The body that a click at `p` selects: the last of the bodies whose
/// shape covers `p`.
pub fn pick(objects: &Vec<Object>, p: Point) -> (hit: Option<usize>)
    ensures
        hit matches Some(i) ==> i < objects.len() && objects[i as int].shape.covers(p) && forall|
            j: int,
        |
            i < j < objects.len() ==> !(#[trigger] objects[j]).shape.covers(p),
        hit is None ==> forall|j: int|
            0 <= j < objects.len() ==> !(#[trigger] objects[j]).shape.covers(p),
{
    let mut i: usize = objects.len();
    while i > 0
        invariant
            i <= objects.len(),
            forall|j: int| i <= j < objects.len() ==> !(#[trigger] objects[j]).shape.covers(p),
        decreases i,
    {
        i = i - 1;
        if objects[i].shape.mouse_in_area(p) {
            return Some(i);
        }
    }
    None
}

/// The bodies after a run of frame steps, one for each entry of `dts`.
pub open spec fn after_steps(objs: Seq<Object>, b: Bounds, cap: nat, dts: Seq<int>) -> Seq<Object>
    decreases dts.len(),
{
    if dts.len() == 0 {
        objs
    } else {
        after_step(after_steps(objs, b, cap, dts.drop_last()), b, cap, dts.last())
    }
}

/// A frame step keeps the number of bodies; a body keeps its role, its
/// material, its gravity and its marks and stays well-formed; its velocity
/// is the one that integration gives; and a static body stays exactly as
/// it was but for the colour of its shape.
pub proof fn lemma_step_frame(objs: Seq<Object>, b: Bounds, cap: nat, dt: int, k: int)
    requires
        0 <= k < objs.len(),
    ensures
        after_step(objs, b, cap, dt).len() == objs.len(),
        after_step(objs, b, cap, dt)[k] == (Object {
            shape: after_step(objs, b, cap, dt)[k].shape,
            ..objs[k].stepped(dt)
        }),
        after_step(objs, b, cap, dt)[k].shape.kind() == objs[k].shape.kind(),
        after_step(objs, b, cap, dt)[k].shape.measurements() == objs[k].shape.measurements(),
        objs[k].is_fixed() ==> after_step(objs, b, cap, dt)[k].shape.pos() == objs[k].shape.pos(),
        objs[k].is_fixed() ==> after_step(objs, b, cap, dt)[k].is_fixed(),
        objs[k].well_formed() ==> after_step(objs, b, cap, dt)[k].well_formed(),
{
    let moved = integrated(objs, dt);
    let order = layout(b, cap, index_points(moved, b));
    lemma_resolve_first_corrects(moved, order, objs.len() as int);
    let end = after_step(objs, b, cap, dt);
    assert(end[k] == (Object { shape: end[k].shape, ..moved[k] }));
}

/// A static body is not moved by any number of frame steps, whatever
/// collides with it.
pub proof fn lemma_static_stays(objs: Seq<Object>, b: Bounds, cap: nat, dts: Seq<int>, k: int)
    requires
        0 <= k < objs.len(),
        objs[k].is_fixed(),
    ensures
        after_steps(objs, b, cap, dts).len() == objs.len(),
        after_steps(objs, b, cap, dts)[k].is_fixed(),
        after_steps(objs, b, cap, dts)[k].shape.pos() == objs[k].shape.pos(),
        after_steps(objs, b, cap, dts)[k].dx == objs[k].dx,
        after_steps(objs, b, cap, dts)[k].dy == objs[k].dy,
    decreases dts.len(),
{
    if dts.len() > 0 {
        lemma_static_stays(objs, b, cap, dts.drop_last(), k);
        lemma_step_frame(after_steps(objs, b, cap, dts.drop_last()), b, cap, dts.last(), k);
    }
}

} // verus!
