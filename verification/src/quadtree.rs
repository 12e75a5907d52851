//! The broad-phase spatial index: a point quadtree.
//!
//! A node holds the points it accepted in a list until the list would
//! exceed the node's capacity; it then splits into four quadrants, hands
//! every point to the one quadrant that contains it, and routes later
//! points the same way.  A node whose region is a single point cannot
//! split and keeps whatever it is given.
//!
//! The abstract state of a node is the sequence of points it has accepted,
//! in order of insertion.  The shape of the tree, and with it the order in
//! which a search reports its points, is a function of that sequence alone
//! ([`layout`]).

use vstd::prelude::*;
use crate::geometry::{Bounds, Point, lemma_quadrants_partition, lemma_quadrant_span, lemma_disjoint_regions};

verus! {

/// A position tagged with the index of the object that owns it.
#[derive(Clone, Copy, Debug, PartialEq, Eq, Structural)]
pub struct IndexedPoint {
    pub pos: Point,
    pub index: usize,
}

/// The predicate "lies in region `b`".
pub open spec fn within(b: Bounds) -> spec_fn(IndexedPoint) -> bool {
    |p: IndexedPoint| b.spec_contains(p.pos)
}

/// The order in which a node with region `b` and capacity `cap` holds the
/// points `pts` that were inserted into it in that order: as they came
/// while they fit in one list, and otherwise quadrant by quadrant, each
/// quadrant laid out in the same way.
pub open spec fn layout(b: Bounds, cap: nat, pts: Seq<IndexedPoint>) -> Seq<IndexedPoint>
    decreases b.span(),
{
    if pts.len() <= cap || !b.spec_can_split() {
        pts
    } else {
        layout(b.spec_quadrant(0), cap, pts.filter(within(b.spec_quadrant(0)))) + layout(
            b.spec_quadrant(1),
            cap,
            pts.filter(within(b.spec_quadrant(1))),
        ) + layout(b.spec_quadrant(2), cap, pts.filter(within(b.spec_quadrant(2)))) + layout(
            b.spec_quadrant(3),
            cap,
            pts.filter(within(b.spec_quadrant(3))),
        )
    }
}

struct Quadrants {
    nw: SpatialNode,
    ne: SpatialNode,
    sw: SpatialNode,
    se: SpatialNode,
}

/// A quadtree node; the root node stands for the whole index.
pub struct SpatialNode {
    boundary: Bounds,
    capacity: usize,
    points: Vec<IndexedPoint>,
    children: Option<Box<Quadrants>>,
    inserted: Ghost<Seq<IndexedPoint>>,
}

impl View for SpatialNode {
    type V = Seq<IndexedPoint>;

    /// The points accepted so far, in order of insertion.
    closed spec fn view(&self) -> Seq<IndexedPoint> {
        self.inserted@
    }
}

impl SpatialNode {
    /// The region the node covers.
    pub closed spec fn spec_boundary(&self) -> Bounds {
        self.boundary
    }

    /// The number of points the node holds before it splits.
    pub closed spec fn spec_capacity(&self) -> usize {
        self.capacity
    }

    /// Whether the node is the `k`-th quadrant of a node with region `b`,
    /// capacity `cap` and accepted points `pts`.
    spec fn is_quadrant(&self, b: Bounds, cap: usize, pts: Seq<IndexedPoint>, k: int) -> bool {
        &&& self.boundary == b.spec_quadrant(k)
        &&& self.capacity == cap
        &&& self.inserted@ == pts.filter(within(b.spec_quadrant(k)))
    }

    /// The representation invariant.
    pub closed spec fn well_formed(&self) -> bool
        decreases self,
    {
        &&& self.capacity >= 1
        &&& forall|i: int|
            0 <= i < self.inserted@.len() ==> self.boundary.spec_contains(
                #[trigger] self.inserted@[i].pos,
            )
        &&& match self.children {
            None => {
                &&& self.points@ == self.inserted@
                &&& (self.inserted@.len() <= self.capacity || !self.boundary.spec_can_split())
            },
            Some(q) => {
                &&& self.points@.len() == 0
                &&& self.inserted@.len() > self.capacity
                &&& self.boundary.spec_can_split()
                &&& q.nw.well_formed()
                &&& q.ne.well_formed()
                &&& q.sw.well_formed()
                &&& q.se.well_formed()
                &&& q.nw.is_quadrant(self.boundary, self.capacity, self.inserted@, 0)
                &&& q.ne.is_quadrant(self.boundary, self.capacity, self.inserted@, 1)
                &&& q.sw.is_quadrant(self.boundary, self.capacity, self.inserted@, 2)
                &&& q.se.is_quadrant(self.boundary, self.capacity, self.inserted@, 3)
            },
        }
    }

    /// The points of the node in the order in which a search visits them.
    pub open spec fn ordered(&self) -> Seq<IndexedPoint> {
        layout(self.spec_boundary(), self.spec_capacity() as nat, self@)
    }

    /// An empty node over `boundary` that splits once it is asked to hold
    /// more than `capacity` points.
    pub fn new(boundary: Bounds, capacity: usize) -> (node: SpatialNode)
        requires
            capacity >= 1,
        ensures
            node.well_formed(),
            node@ == Seq::<IndexedPoint>::empty(),
            node.spec_boundary() == boundary,
            node.spec_capacity() == capacity,
    {
        SpatialNode {
            boundary,
            capacity,
            points: Vec::new(),
            children: None,
            inserted: Ghost(Seq::empty()),
        }
    }

    #[verifier::when_used_as_spec(spec_boundary)]
    pub fn boundary(&self) -> (b: Bounds)
        ensures
            b == self.spec_boundary(),
    {
        self.boundary
    }

    #[verifier::when_used_as_spec(spec_capacity)]
    pub fn capacity(&self) -> (c: usize)
        ensures
            c == self.spec_capacity(),
    {
        self.capacity
    }

    /// Whether the node has split into quadrants.
    pub fn is_split(&self) -> (r: bool)
        requires
            self.well_formed(),
        ensures
            r == (self@.len() > self.spec_capacity() && self.spec_boundary().spec_can_split()),
    {
        self.children.is_some()
    }

    /// Forgets every point; region and capacity stay.
    pub fn clear(&mut self)
        requires
            old(self).well_formed(),
        ensures
            final(self).well_formed(),
            final(self)@ == Seq::<IndexedPoint>::empty(),
            final(self).spec_boundary() == old(self).spec_boundary(),
            final(self).spec_capacity() == old(self).spec_capacity(),
    {
        self.points = Vec::new();
        self.children = None;
        self.inserted = Ghost(Seq::empty());
    }

    /// Offers a point to the node.  A point outside the node's region is
    /// refused and leaves the node as it was; any other point is accepted.
    pub fn insert(&mut self, p: IndexedPoint) -> (accepted: bool)
        requires
            old(self).well_formed(),
        ensures
            final(self).well_formed(),
            final(self).spec_boundary() == old(self).spec_boundary(),
            final(self).spec_capacity() == old(self).spec_capacity(),
            accepted == old(self).spec_boundary().spec_contains(p.pos),
            final(self)@ == (if accepted {
                old(self)@.push(p)
            } else {
                old(self)@
            }),
        decreases old(self).spec_boundary().span(), 1nat,
    {
        if !self.boundary.contains(p.pos) {
            return false;
        }
        if self.children.is_none() {
            if self.points.len() < self.capacity || !self.boundary.can_split() {
                self.points.push(p);
                self.inserted = Ghost(self.inserted@.push(p));
                return true;
            }
            self.subdivide();
        }
        let ghost b = self.boundary;
        let ghost pts = self.inserted@;
        let mut quads = self.children.take().unwrap();
        proof {
            lemma_quadrant_span(b, 0);
            lemma_quadrant_span(b, 1);
            lemma_quadrant_span(b, 2);
            lemma_quadrant_span(b, 3);
            lemma_quadrants_partition(b, p.pos, 0);
            lemma_quadrants_partition(b, p.pos, 1);
            lemma_quadrants_partition(b, p.pos, 2);
            lemma_quadrants_partition(b, p.pos, 3);
            pts.lemma_filter_push(p, within(b.spec_quadrant(0)));
            pts.lemma_filter_push(p, within(b.spec_quadrant(1)));
            pts.lemma_filter_push(p, within(b.spec_quadrant(2)));
            pts.lemma_filter_push(p, within(b.spec_quadrant(3)));
        }
        if !quads.nw.insert(p) {
            if !quads.ne.insert(p) {
                if !quads.sw.insert(p) {
                    quads.se.insert(p);
                }
            }
        }
        self.children = Some(quads);
        self.inserted = Ghost(pts.push(p));
        true
    }

    /// Splits a full leaf: creates the four quadrants and hands every held
    /// point to the quadrant that contains it.
    fn subdivide(&mut self)
        requires
            old(self).well_formed(),
            old(self).children is None,
            old(self).boundary.spec_can_split(),
        ensures
            final(self).boundary == old(self).boundary,
            final(self).capacity == old(self).capacity,
            final(self).inserted@ == old(self).inserted@,
            final(self).points@.len() == 0,
            final(self).children matches Some(q) && {
                &&& q.nw.well_formed()
                &&& q.ne.well_formed()
                &&& q.sw.well_formed()
                &&& q.se.well_formed()
                &&& q.nw.is_quadrant(old(self).boundary, old(self).capacity, old(self).inserted@, 0)
                &&& q.ne.is_quadrant(old(self).boundary, old(self).capacity, old(self).inserted@, 1)
                &&& q.sw.is_quadrant(old(self).boundary, old(self).capacity, old(self).inserted@, 2)
                &&& q.se.is_quadrant(old(self).boundary, old(self).capacity, old(self).inserted@, 3)
            },
        decreases old(self).boundary.span(), 0nat,
    {
        let b = self.boundary;
        let cap = self.capacity;
        let mut nw = SpatialNode::new(b.quadrant(0), cap);
        let mut ne = SpatialNode::new(b.quadrant(1), cap);
        let mut sw = SpatialNode::new(b.quadrant(2), cap);
        let mut se = SpatialNode::new(b.quadrant(3), cap);
        let mut held: Vec<IndexedPoint> = Vec::new();
        core::mem::swap(&mut held, &mut self.points);
        proof {
            lemma_quadrant_span(b, 0);
            lemma_quadrant_span(b, 1);
            lemma_quadrant_span(b, 2);
            lemma_quadrant_span(b, 3);
            assert(held@.take(0) =~= Seq::<IndexedPoint>::empty());
            lemma_filter_none(held@.take(0), within(b.spec_quadrant(0)));
            lemma_filter_none(held@.take(0), within(b.spec_quadrant(1)));
            lemma_filter_none(held@.take(0), within(b.spec_quadrant(2)));
            lemma_filter_none(held@.take(0), within(b.spec_quadrant(3)));
        }
        let mut i: usize = 0;
        while i < held.len()
            invariant
                i <= held.len(),
                b == old(self).boundary,
                b.spec_can_split(),
                cap >= 1,
                forall|j: int| 0 <= j < held@.len() ==> b.spec_contains(#[trigger] held@[j].pos),
                nw.well_formed(),
                ne.well_formed(),
                sw.well_formed(),
                se.well_formed(),
                nw.is_quadrant(b, cap, held@.take(i as int), 0),
                ne.is_quadrant(b, cap, held@.take(i as int), 1),
                sw.is_quadrant(b, cap, held@.take(i as int), 2),
                se.is_quadrant(b, cap, held@.take(i as int), 3),
                b.spec_quadrant(0).span() < b.span(),
                b.spec_quadrant(1).span() < b.span(),
                b.spec_quadrant(2).span() < b.span(),
                b.spec_quadrant(3).span() < b.span(),
            decreases held.len() - i,
        {
            let p = held[i];
            proof {
                let seen = held@.take(i as int);
                assert(held@.take(i as int + 1) =~= seen.push(p));
                lemma_quadrants_partition(b, p.pos, 0);
                lemma_quadrants_partition(b, p.pos, 1);
                lemma_quadrants_partition(b, p.pos, 2);
                lemma_quadrants_partition(b, p.pos, 3);
                seen.lemma_filter_push(p, within(b.spec_quadrant(0)));
                seen.lemma_filter_push(p, within(b.spec_quadrant(1)));
                seen.lemma_filter_push(p, within(b.spec_quadrant(2)));
                seen.lemma_filter_push(p, within(b.spec_quadrant(3)));
            }
            if !nw.insert(p) {
                if !ne.insert(p) {
                    if !sw.insert(p) {
                        se.insert(p);
                    }
                }
            }
            i = i + 1;
        }
        proof {
            assert(held@.take(held@.len() as int) =~= held@);
        }
        self.children = Some(Box::new(Quadrants { nw, ne, sw, se }));
    }

    /// The accepted points that lie in `range`, in the node's order.
    pub fn query(&self, range: &Bounds) -> (found: Vec<IndexedPoint>)
        requires
            self.well_formed(),
        ensures
            found@ == self.ordered().filter(within(*range)),
    {
        let mut found: Vec<IndexedPoint> = Vec::new();
        self.collect(range, &mut found);
        assert(Seq::<IndexedPoint>::empty() + self.ordered().filter(within(*range))
            =~= self.ordered().filter(within(*range)));
        found
    }

    /// Appends to `found` what [`SpatialNode::query`] reports.  A quadrant
    /// whose region fails the overlap test against `range` is skipped.
    fn collect(&self, range: &Bounds, found: &mut Vec<IndexedPoint>)
        requires
            self.well_formed(),
        ensures
            final(found)@ == old(found)@ + self.ordered().filter(within(*range)),
        decreases self,
    {
        let ghost keep = within(*range);
        let ghost before = found@;
        match &self.children {
            None => {
                let mut i: usize = 0;
                proof {
                    assert(self.points@.take(0) =~= Seq::<IndexedPoint>::empty());
                    assert(self.points@.take(0).filter(keep) =~= Seq::<IndexedPoint>::empty());
                    assert(before + Seq::<IndexedPoint>::empty() =~= before);
                }
                while i < self.points.len()
                    invariant
                        i <= self.points.len(),
                        keep == within(*range),
                        found@ == before + self.points@.take(i as int).filter(keep),
                    decreases self.points.len() - i,
                {
                    let p = self.points[i];
                    proof {
                        let seen = self.points@.take(i as int);
                        assert(self.points@.take(i as int + 1) =~= seen.push(p));
                        seen.lemma_filter_push(p, keep);
                        assert(before + seen.filter(keep).push(p) =~= (before + seen.filter(
                            keep,
                        )).push(p));
                    }
                    if range.contains(p.pos) {
                        found.push(p);
                    }
                    i = i + 1;
                }
                proof {
                    assert(self.points@.take(self.points@.len() as int) =~= self.points@);
                }
            },
            Some(q) => {
                let ghost b = self.boundary;
                let ghost cap = self.capacity as nat;
                let ghost l0 = q.nw.ordered();
                let ghost l1 = q.ne.ordered();
                let ghost l2 = q.sw.ordered();
                let ghost l3 = q.se.ordered();
                proof {
                    assert(self.ordered() == l0 + l1 + l2 + l3);
                    Seq::filter_distributes_over_add(l0 + l1 + l2, l3, keep);
                    Seq::filter_distributes_over_add(l0 + l1, l2, keep);
                    Seq::filter_distributes_over_add(l0, l1, keep);
                    q.nw.lemma_search_misses(*range);
                    q.ne.lemma_search_misses(*range);
                    q.sw.lemma_search_misses(*range);
                    q.se.lemma_search_misses(*range);
                }
                if q.nw.boundary.intersects(range) {
                    q.nw.collect(range, found);
                }
                assert(found@ =~= before + l0.filter(keep));
                if q.ne.boundary.intersects(range) {
                    q.ne.collect(range, found);
                }
                assert(found@ =~= before + (l0.filter(keep) + l1.filter(keep)));
                if q.sw.boundary.intersects(range) {
                    q.sw.collect(range, found);
                }
                assert(found@ =~= before + (l0.filter(keep) + l1.filter(keep) + l2.filter(keep)));
                if q.se.boundary.intersects(range) {
                    q.se.collect(range, found);
                }
                assert(found@ =~= before + (l0.filter(keep) + l1.filter(keep) + l2.filter(keep)
                    + l3.filter(keep)));
            },
        }
    }

    /// A search over a range that fails the overlap test against the node's
    /// region finds nothing in the node.
    proof fn lemma_search_misses(&self, range: Bounds)
        requires
            self.well_formed(),
        ensures
            !self.boundary.spec_intersects(&range) ==> self.ordered().filter(within(range))
                =~= Seq::<IndexedPoint>::empty(),
    {
        if !self.boundary.spec_intersects(&range) {
            assert forall|i: int| 0 <= i < self@.len() implies !(#[trigger] within(range)(
                self@[i],
            )) by {
                lemma_disjoint_regions(self.boundary, range, self@[i].pos);
            }
            lemma_layout_filter_none(self.boundary, self.capacity as nat, self@, within(range));
        }
    }
}

/// Filtering by a predicate that no element satisfies leaves nothing.
proof fn lemma_filter_none(pts: Seq<IndexedPoint>, keep: spec_fn(IndexedPoint) -> bool)
    requires
        forall|i: int| 0 <= i < pts.len() ==> !(#[trigger] keep(pts[i])),
    ensures
        pts.filter(keep) =~= Seq::<IndexedPoint>::empty(),
    decreases pts.len(),
{
    reveal(Seq::filter);
    if pts.len() > 0 {
        lemma_filter_none(pts.drop_last(), keep);
    }
}

/// Filtering by a predicate that every element satisfies changes nothing.
proof fn lemma_filter_all(pts: Seq<IndexedPoint>, keep: spec_fn(IndexedPoint) -> bool)
    requires
        forall|i: int| 0 <= i < pts.len() ==> #[trigger] keep(pts[i]),
    ensures
        pts.filter(keep) =~= pts,
    decreases pts.len(),
{
    reveal(Seq::filter);
    if pts.len() > 0 {
        lemma_filter_all(pts.drop_last(), keep);
        assert(pts.drop_last().push(pts.last()) =~= pts);
    }
}

/// Every element of a filtered sequence is an element of the sequence.
proof fn lemma_filter_keeps_property(
    pts: Seq<IndexedPoint>,
    keep: spec_fn(IndexedPoint) -> bool,
    prop: spec_fn(IndexedPoint) -> bool,
)
    requires
        forall|i: int| 0 <= i < pts.len() ==> #[trigger] prop(pts[i]),
    ensures
        forall|i: int| 0 <= i < pts.filter(keep).len() ==> #[trigger] prop(pts.filter(keep)[i]),
    decreases pts.len(),
{
    reveal(Seq::filter);
    if pts.len() > 0 {
        let rest = pts.drop_last().filter(keep);
        lemma_filter_keeps_property(pts.drop_last(), keep, prop);
        assert forall|i: int| 0 <= i < pts.filter(keep).len() implies #[trigger] prop(
            pts.filter(keep)[i],
        ) by {
            if i < rest.len() {
                assert(pts.filter(keep)[i] == rest[i]);
            } else {
                assert(pts.filter(keep)[i] == pts.last());
                assert(prop(pts[pts.len() - 1]));
            }
        }
    }
}

/// The layout of points of which none satisfies `keep` holds none that does.
pub proof fn lemma_layout_filter_none(
    b: Bounds,
    cap: nat,
    pts: Seq<IndexedPoint>,
    keep: spec_fn(IndexedPoint) -> bool,
)
    requires
        forall|i: int| 0 <= i < pts.len() ==> !(#[trigger] keep(pts[i])),
    ensures
        layout(b, cap, pts).filter(keep) =~= Seq::<IndexedPoint>::empty(),
    decreases b.span(),
{
    if pts.len() <= cap || !b.spec_can_split() {
        lemma_filter_none(pts, keep);
    } else {
        let reject = |p: IndexedPoint| !keep(p);
        let s0 = pts.filter(within(b.spec_quadrant(0)));
        let s1 = pts.filter(within(b.spec_quadrant(1)));
        let s2 = pts.filter(within(b.spec_quadrant(2)));
        let s3 = pts.filter(within(b.spec_quadrant(3)));
        lemma_filter_keeps_property(pts, within(b.spec_quadrant(0)), reject);
        lemma_filter_keeps_property(pts, within(b.spec_quadrant(1)), reject);
        lemma_filter_keeps_property(pts, within(b.spec_quadrant(2)), reject);
        lemma_filter_keeps_property(pts, within(b.spec_quadrant(3)), reject);
        assert forall|i: int| 0 <= i < s0.len() implies !(#[trigger] keep(s0[i])) by {
            assert(reject(s0[i]));
        }
        assert forall|i: int| 0 <= i < s1.len() implies !(#[trigger] keep(s1[i])) by {
            assert(reject(s1[i]));
        }
        assert forall|i: int| 0 <= i < s2.len() implies !(#[trigger] keep(s2[i])) by {
            assert(reject(s2[i]));
        }
        assert forall|i: int| 0 <= i < s3.len() implies !(#[trigger] keep(s3[i])) by {
            assert(reject(s3[i]));
        }
        lemma_quadrant_span(b, 0);
        lemma_quadrant_span(b, 1);
        lemma_quadrant_span(b, 2);
        lemma_quadrant_span(b, 3);
        lemma_layout_filter_none(b.spec_quadrant(0), cap, s0, keep);
        lemma_layout_filter_none(b.spec_quadrant(1), cap, s1, keep);
        lemma_layout_filter_none(b.spec_quadrant(2), cap, s2, keep);
        lemma_layout_filter_none(b.spec_quadrant(3), cap, s3, keep);
        let l0 = layout(b.spec_quadrant(0), cap, s0);
        let l1 = layout(b.spec_quadrant(1), cap, s1);
        let l2 = layout(b.spec_quadrant(2), cap, s2);
        let l3 = layout(b.spec_quadrant(3), cap, s3);
        Seq::filter_distributes_over_add(l0 + l1 + l2, l3, keep);
        Seq::filter_distributes_over_add(l0 + l1, l2, keep);
        Seq::filter_distributes_over_add(l0, l1, keep);
    }
}

/// Sorting points of a splittable region into its quadrants loses and
/// repeats none: the four quadrant lists, each filtered by `keep`, together
/// hold what the whole list filtered by `keep` holds.
proof fn lemma_partition_filter(
    b: Bounds,
    pts: Seq<IndexedPoint>,
    keep: spec_fn(IndexedPoint) -> bool,
)
    requires
        b.spec_can_split(),
        forall|i: int| 0 <= i < pts.len() ==> b.spec_contains(#[trigger] pts[i].pos),
    ensures
        pts.filter(within(b.spec_quadrant(0))).filter(keep).to_multiset().add(
            pts.filter(within(b.spec_quadrant(1))).filter(keep).to_multiset(),
        ).add(pts.filter(within(b.spec_quadrant(2))).filter(keep).to_multiset()).add(
            pts.filter(within(b.spec_quadrant(3))).filter(keep).to_multiset(),
        ) =~= pts.filter(keep).to_multiset(),
    decreases pts.len(),
{
    broadcast use vstd::multiset::group_multiset_axioms;

    let w0 = within(b.spec_quadrant(0));
    let w1 = within(b.spec_quadrant(1));
    let w2 = within(b.spec_quadrant(2));
    let w3 = within(b.spec_quadrant(3));
    if pts.len() == 0 {
        lemma_filter_none(pts, w0);
        lemma_filter_none(pts, w1);
        lemma_filter_none(pts, w2);
        lemma_filter_none(pts, w3);
        lemma_filter_none(pts, keep);
        lemma_filter_none(pts.filter(w0), keep);
        lemma_filter_none(pts.filter(w1), keep);
        lemma_filter_none(pts.filter(w2), keep);
        lemma_filter_none(pts.filter(w3), keep);
        let none = Seq::<IndexedPoint>::empty();
        assert(pts.filter(keep) =~= none);
        assert(pts.filter(w0).filter(keep) =~= none);
        assert(pts.filter(w1).filter(keep) =~= none);
        assert(pts.filter(w2).filter(keep) =~= none);
        assert(pts.filter(w3).filter(keep) =~= none);
        vstd::seq_lib::to_multiset_len(none);
        assert(none.to_multiset() =~= vstd::multiset::Multiset::<IndexedPoint>::empty());
    } else {
        let rest = pts.drop_last();
        let x = pts.last();
        assert(rest.push(x) =~= pts);
        assert(b.spec_contains(pts[pts.len() - 1].pos));
        lemma_partition_filter(b, rest, keep);
        lemma_quadrants_partition(b, x.pos, 0);
        lemma_quadrants_partition(b, x.pos, 1);
        lemma_quadrants_partition(b, x.pos, 2);
        lemma_quadrants_partition(b, x.pos, 3);
        rest.lemma_filter_push(x, w0);
        rest.lemma_filter_push(x, w1);
        rest.lemma_filter_push(x, w2);
        rest.lemma_filter_push(x, w3);
        rest.lemma_filter_push(x, keep);
        let r0 = rest.filter(w0).filter(keep);
        let r1 = rest.filter(w1).filter(keep);
        let r2 = rest.filter(w2).filter(keep);
        let r3 = rest.filter(w3).filter(keep);
        let p0 = pts.filter(w0).filter(keep);
        let p1 = pts.filter(w1).filter(keep);
        let p2 = pts.filter(w2).filter(keep);
        let p3 = pts.filter(w3).filter(keep);
        rest.filter(w0).lemma_filter_push(x, keep);
        rest.filter(w1).lemma_filter_push(x, keep);
        rest.filter(w2).lemma_filter_push(x, keep);
        rest.filter(w3).lemma_filter_push(x, keep);
        assert(p0 == if w0(x) && keep(x) { r0.push(x) } else { r0 });
        assert(p1 == if w1(x) && keep(x) { r1.push(x) } else { r1 });
        assert(p2 == if w2(x) && keep(x) { r2.push(x) } else { r2 });
        assert(p3 == if w3(x) && keep(x) { r3.push(x) } else { r3 });
        vstd::seq_lib::to_multiset_build(rest.filter(keep), x);
        vstd::seq_lib::to_multiset_build(r0, x);
        vstd::seq_lib::to_multiset_build(r1, x);
        vstd::seq_lib::to_multiset_build(r2, x);
        vstd::seq_lib::to_multiset_build(r3, x);
        let k = b.quadrant_of(x.pos);
        assert(w0(x) == (k == 0));
        assert(w1(x) == (k == 1));
        assert(w2(x) == (k == 2));
        assert(w3(x) == (k == 3));
        let sum_rest = r0.to_multiset().add(r1.to_multiset()).add(r2.to_multiset()).add(
            r3.to_multiset(),
        );
        let sum_pts = p0.to_multiset().add(p1.to_multiset()).add(p2.to_multiset()).add(
            p3.to_multiset(),
        );
        if keep(x) {
            assert(sum_pts =~= sum_rest.insert(x));
        } else {
            assert(sum_pts =~= sum_rest);
        }
    }
}

/// Whatever the layout, filtering it finds the points that filtering the
/// inserted sequence finds, each as often.
pub proof fn lemma_layout_filter(
    b: Bounds,
    cap: nat,
    pts: Seq<IndexedPoint>,
    keep: spec_fn(IndexedPoint) -> bool,
)
    requires
        forall|i: int| 0 <= i < pts.len() ==> b.spec_contains(#[trigger] pts[i].pos),
    ensures
        layout(b, cap, pts).filter(keep).to_multiset() =~= pts.filter(keep).to_multiset(),
    decreases b.span(),
{
    if pts.len() <= cap || !b.spec_can_split() {
    } else {
        let q0 = b.spec_quadrant(0);
        let q1 = b.spec_quadrant(1);
        let q2 = b.spec_quadrant(2);
        let q3 = b.spec_quadrant(3);
        let s0 = pts.filter(within(q0));
        let s1 = pts.filter(within(q1));
        let s2 = pts.filter(within(q2));
        let s3 = pts.filter(within(q3));
        let l0 = layout(q0, cap, s0);
        let l1 = layout(q1, cap, s1);
        let l2 = layout(q2, cap, s2);
        let l3 = layout(q3, cap, s3);
        assert forall|i: int| 0 <= i < s0.len() implies q0.spec_contains(#[trigger] s0[i].pos) by {
            pts.lemma_filter_pred(within(q0), i);
        }
        assert forall|i: int| 0 <= i < s1.len() implies q1.spec_contains(#[trigger] s1[i].pos) by {
            pts.lemma_filter_pred(within(q1), i);
        }
        assert forall|i: int| 0 <= i < s2.len() implies q2.spec_contains(#[trigger] s2[i].pos) by {
            pts.lemma_filter_pred(within(q2), i);
        }
        assert forall|i: int| 0 <= i < s3.len() implies q3.spec_contains(#[trigger] s3[i].pos) by {
            pts.lemma_filter_pred(within(q3), i);
        }
        lemma_quadrant_span(b, 0);
        lemma_quadrant_span(b, 1);
        lemma_quadrant_span(b, 2);
        lemma_quadrant_span(b, 3);
        lemma_layout_filter(q0, cap, s0, keep);
        lemma_layout_filter(q1, cap, s1, keep);
        lemma_layout_filter(q2, cap, s2, keep);
        lemma_layout_filter(q3, cap, s3, keep);
        Seq::filter_distributes_over_add(l0 + l1 + l2, l3, keep);
        Seq::filter_distributes_over_add(l0 + l1, l2, keep);
        Seq::filter_distributes_over_add(l0, l1, keep);
        vstd::seq_lib::lemma_multiset_commutative(
            l0.filter(keep) + l1.filter(keep) + l2.filter(keep),
            l3.filter(keep),
        );
        vstd::seq_lib::lemma_multiset_commutative(l0.filter(keep) + l1.filter(keep), l2.filter(keep));
        vstd::seq_lib::lemma_multiset_commutative(l0.filter(keep), l1.filter(keep));
        lemma_partition_filter(b, pts, keep);
    }
}

/// Every point that a well-formed node has accepted lies in its region.
pub proof fn lemma_accepted_in_boundary(node: SpatialNode, i: int)
    requires
        node.well_formed(),
        0 <= i < node@.len(),
    ensures
        node.spec_boundary().spec_contains(node@[i].pos),
{
}

/// A search reports exactly the accepted points that lie in the range:
/// none is missing, none is reported that lies outside, and each comes as
/// often as it was inserted.
pub proof fn lemma_query_exact(node: SpatialNode, range: Bounds)
    requires
        node.well_formed(),
    ensures
        node.ordered().filter(within(range)).to_multiset() =~= node@.filter(
            within(range),
        ).to_multiset(),
{
    lemma_layout_filter(node.boundary, node.capacity as nat, node@, within(range));
}

/// Completeness: a search over a range that covers every accepted point,
/// such as the node's own region, reports each of them exactly once per
/// insertion.
pub proof fn lemma_query_complete(node: SpatialNode, range: Bounds)
    requires
        node.well_formed(),
        range == node.spec_boundary() || forall|i: int|
            0 <= i < node@.len() ==> range.spec_contains(#[trigger] node@[i].pos),
    ensures
        node.ordered().filter(within(range)).to_multiset() =~= node@.to_multiset(),
{
    lemma_layout_filter(node.boundary, node.capacity as nat, node@, within(range));
    assert forall|i: int| 0 <= i < node@.len() implies #[trigger] within(range)(node@[i]) by {
        assert(range.spec_contains(node@[i].pos));
    }
    lemma_filter_all(node@, within(range));
}

/// Soundness: a search over a range that holds none of the accepted points
/// reports nothing.
pub proof fn lemma_query_sound(node: SpatialNode, range: Bounds)
    requires
        node.well_formed(),
        forall|i: int| 0 <= i < node@.len() ==> !range.spec_contains(#[trigger] node@[i].pos),
    ensures
        node.ordered().filter(within(range)) =~= Seq::<IndexedPoint>::empty(),
{
    assert forall|i: int| 0 <= i < node@.len() implies !(#[trigger] within(range)(node@[i])) by {
        assert(!range.spec_contains(node@[i].pos));
    }
    lemma_layout_filter_none(node.boundary, node.capacity as nat, node@, within(range));
}

} // verus!
