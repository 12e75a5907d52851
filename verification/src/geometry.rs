//! Points and axis-aligned regions of the plane.

use vstd::prelude::*;

verus! {

/// A position, in raw length units.
#[derive(Clone, Copy, Debug, PartialEq, Eq, Structural)]
pub struct Point {
    pub x: i64,
    pub y: i64,
}

/// Squared distance between two points.
pub open spec fn dist2(a: Point, b: Point) -> int {
    (b.x - a.x) * (b.x - a.x) + (b.y - a.y) * (b.y - a.y)
}

/// An axis-aligned region: the points `p` with `min_x <= p.x <= max_x` and
/// `min_y <= p.y <= max_y`.  A region whose minimum exceeds its maximum on
/// either axis holds no point.
#[derive(Clone, Copy, Debug, PartialEq, Eq, Structural)]
pub struct Bounds {
    pub min_x: i64,
    pub min_y: i64,
    pub max_x: i64,
    pub max_y: i64,
}

impl Bounds {
    /// Whether `p` lies in the region.
    pub open spec fn spec_contains(&self, p: Point) -> bool {
        self.min_x <= p.x <= self.max_x && self.min_y <= p.y <= self.max_y
    }

    /// The loose overlap test used to prune searches: it holds whenever the
    /// two regions share a point.
    pub open spec fn spec_intersects(&self, other: &Bounds) -> bool {
        self.min_x <= other.max_x && other.min_x <= self.max_x && self.min_y <= other.max_y
            && other.min_y <= self.max_y
    }

    /// Whether the region holds no point at all.
    pub open spec fn spec_is_empty(&self) -> bool {
        self.min_x > self.max_x || self.min_y > self.max_y
    }

    /// Whether the region holds at least two points, so that halving it
    /// makes progress.
    pub open spec fn spec_can_split(&self) -> bool {
        !self.spec_is_empty() && (self.min_x < self.max_x || self.min_y < self.max_y)
    }

    /// The last column of the western half.
    pub open spec fn mid_x(&self) -> int {
        self.min_x + (self.max_x - self.min_x) / 2
    }

    /// The last row of the northern half.
    pub open spec fn mid_y(&self) -> int {
        self.min_y + (self.max_y - self.min_y) / 2
    }

    /// The number of columns plus the number of rows: the measure that
    /// shrinks with every split.
    pub open spec fn span(&self) -> nat {
        let cols = self.max_x - self.min_x + 1;
        let rows = self.max_y - self.min_y + 1;
        ((if cols > 0 {
            cols
        } else {
            0
        }) + (if rows > 0 {
            rows
        } else {
            0
        })) as nat
    }

    /// The region without any point.
    pub open spec fn spec_empty() -> Bounds {
        Bounds { min_x: 1, min_y: 1, max_x: 0, max_y: 0 }
    }

    /// One quarter of a splittable region.  Quadrant 0 is the north-west
    /// (low x, low y), 1 the north-east, 2 the south-west, 3 the south-east.
    /// A quarter that would have no column or no row is the empty region.
    pub open spec fn spec_quadrant(&self, k: int) -> Bounds {
        let east = k == 1 || k == 3;
        let south = k == 2 || k == 3;
        if (east && self.mid_x() >= self.max_x) || (south && self.mid_y() >= self.max_y) {
            Bounds::spec_empty()
        } else {
            Bounds {
                min_x: if east {
                    (self.mid_x() + 1) as i64
                } else {
                    self.min_x
                },
                max_x: if east {
                    self.max_x
                } else {
                    self.mid_x() as i64
                },
                min_y: if south {
                    (self.mid_y() + 1) as i64
                } else {
                    self.min_y
                },
                max_y: if south {
                    self.max_y
                } else {
                    self.mid_y() as i64
                },
            }
        }
    }

    /// The index of the quadrant that holds `p`, for `p` inside a
    /// splittable region.
    pub open spec fn quadrant_of(&self, p: Point) -> int {
        (if p.x <= self.mid_x() {
            0int
        } else {
            1int
        }) + (if p.y <= self.mid_y() {
            0int
        } else {
            2int
        })
    }

    pub fn new(min_x: i64, min_y: i64, max_x: i64, max_y: i64) -> (b: Bounds)
        ensures
            b == (Bounds { min_x, min_y, max_x, max_y }),
    {
        Bounds { min_x, min_y, max_x, max_y }
    }

    #[verifier::when_used_as_spec(spec_empty)]
    pub fn empty() -> (b: Bounds)
        ensures
            b == Bounds::spec_empty(),
    {
        Bounds { min_x: 1, min_y: 1, max_x: 0, max_y: 0 }
    }

    /// The square region of half-width `half` centred on `center`, cut off
    /// at the ends of the coordinate range.
    pub open spec fn spec_around(center: Point, half: u64) -> Bounds {
        Bounds {
            min_x: crate::units::sat_i64(center.x - half) as i64,
            min_y: crate::units::sat_i64(center.y - half) as i64,
            max_x: crate::units::sat_i64(center.x + half) as i64,
            max_y: crate::units::sat_i64(center.y + half) as i64,
        }
    }

    #[verifier::when_used_as_spec(spec_around)]
    pub fn around(center: Point, half: u64) -> (b: Bounds)
        ensures
            b == Bounds::spec_around(center, half),
    {
        let h: i128 = half as i128;
        Bounds {
            min_x: crate::units::saturate_i64(center.x as i128 - h),
            min_y: crate::units::saturate_i64(center.y as i128 - h),
            max_x: crate::units::saturate_i64(center.x as i128 + h),
            max_y: crate::units::saturate_i64(center.y as i128 + h),
        }
    }

    #[verifier::when_used_as_spec(spec_contains)]
    pub fn contains(&self, p: Point) -> (r: bool)
        ensures
            r == self.spec_contains(p),
    {
        self.min_x <= p.x && p.x <= self.max_x && self.min_y <= p.y && p.y <= self.max_y
    }

    #[verifier::when_used_as_spec(spec_intersects)]
    pub fn intersects(&self, other: &Bounds) -> (r: bool)
        ensures
            r == self.spec_intersects(other),
    {
        self.min_x <= other.max_x && other.min_x <= self.max_x && self.min_y <= other.max_y
            && other.min_y <= self.max_y
    }

    #[verifier::when_used_as_spec(spec_is_empty)]
    pub fn is_empty(&self) -> (r: bool)
        ensures
            r == self.spec_is_empty(),
    {
        self.min_x > self.max_x || self.min_y > self.max_y
    }

    #[verifier::when_used_as_spec(spec_can_split)]
    pub fn can_split(&self) -> (r: bool)
        ensures
            r == self.spec_can_split(),
    {
        !self.is_empty() && (self.min_x < self.max_x || self.min_y < self.max_y)
    }

    /// Computes one quarter of the region; `k` selects it as in
    /// [`Bounds::spec_quadrant`], and any `k` above 3 selects the north-west.
    pub fn quadrant(&self, k: u8) -> (q: Bounds)
        ensures
            q == self.spec_quadrant(k as int),
    {
        let mx: i64 = midpoint(self.min_x, self.max_x);
        let my: i64 = midpoint(self.min_y, self.max_y);
        let east = k == 1 || k == 3;
        let south = k == 2 || k == 3;
        if (east && mx >= self.max_x) || (south && my >= self.max_y) {
            Bounds::empty()
        } else {
            Bounds {
                min_x: if east {
                    mx + 1
                } else {
                    self.min_x
                },
                max_x: if east {
                    self.max_x
                } else {
                    mx
                },
                min_y: if south {
                    my + 1
                } else {
                    self.min_y
                },
                max_y: if south {
                    self.max_y
                } else {
                    my
                },
            }
        }
    }

}

/// The point halfway from `lo` to `hi`, rounded down.
fn midpoint(lo: i64, hi: i64) -> (m: i64)
    ensures
        m == lo + (hi - lo) / 2,
{
    if lo <= hi {
        let width: u128 = (hi as i128 - lo as i128) as u128;
        let half: u128 = width / 2;
        (lo as i128 + half as i128) as i64
    } else {
        let width: u128 = (lo as i128 - hi as i128) as u128;
        let half: u128 = (width + 1) / 2;
        (lo as i128 - half as i128) as i64
    }
}

/// Two regions that fail the overlap test share no point.
pub proof fn lemma_disjoint_regions(a: Bounds, b: Bounds, p: Point)
    requires
        !a.spec_intersects(&b),
    ensures
        !(a.spec_contains(p) && b.spec_contains(p)),
{
}

/// The four quadrants of a splittable region partition it: each point of
/// the region lies in the quadrant that `quadrant_of` names and in no other,
/// and a quadrant holds no point from outside the region.
pub proof fn lemma_quadrants_partition(b: Bounds, p: Point, k: int)
    requires
        b.spec_can_split(),
        0 <= k < 4,
    ensures
        b.spec_quadrant(k).spec_contains(p) <==> (b.spec_contains(p) && b.quadrant_of(p) == k),
{
}

/// Every quadrant of a splittable region has a strictly smaller span.
pub proof fn lemma_quadrant_span(b: Bounds, k: int)
    requires
        b.spec_can_split(),
        0 <= k < 4,
    ensures
        b.spec_quadrant(k).span() < b.span(),
{
}

} // verus!
