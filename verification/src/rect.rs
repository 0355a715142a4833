use vstd::prelude::*;

verus! {

/// An axis-aligned rectangle, given by two opposite corners.
#[derive(PartialEq, Eq, Structural, Copy, Clone, Debug)]
pub struct Rect {
    pub x1: i32,
    pub x2: i32,
    pub y1: i32,
    pub y2: i32,
}

impl Rect {
    pub fn new(x: i32, y: i32, w: i32, h: i32) -> (r: Rect)
        requires
            i32::MIN <= x + w <= i32::MAX,
            i32::MIN <= y + h <= i32::MAX,
        ensures
            r.x1 == x,
            r.y1 == y,
            r.x2 == x + w,
            r.y2 == y + h,
    {
        Rect { x1: x, y1: y, x2: x + w, y2: y + h }
    }

    /// The two rectangles share at least one cell (edges included).
    pub open spec fn overlaps(&self, other: &Rect) -> bool {
        self.x1 <= other.x2 && self.x2 >= other.x1 && self.y1 <= other.y2 && self.y2 >= other.y1
    }

    /// The first corner is not past the second.
    pub open spec fn well_formed(&self) -> bool {
        self.x1 <= self.x2 && self.y1 <= self.y2
    }

    /// Cell `(x, y)` lies within the rectangle, its edges included.
    pub open spec fn covers(&self, x: int, y: int) -> bool {
        self.x1 <= x <= self.x2 && self.y1 <= y <= self.y2
    }

    /// Returns true if this overlaps with other.
    pub fn intersects(&self, other: &Rect) -> (b: bool)
        ensures
            b == self.overlaps(other),
            self.well_formed() && other.well_formed() ==> (b <==> exists|x: int, y: int|
                self.covers(x, y) && #[trigger] other.covers(x, y)),
    {
        proof {
            if self.well_formed() && other.well_formed() {
                lemma_overlaps_shares_a_cell(*self, *other);
            }
        }
        self.x1 <= other.x2 && self.x2 >= other.x1 && self.y1 <= other.y2 && self.y2 >= other.y1
    }

    /// The cell halfway between the corners, each coordinate rounded toward zero.
    pub fn center(&self) -> (c: (i32, i32))
        ensures
            c.0 == half_toward_zero(self.x1 + self.x2),
            c.1 == half_toward_zero(self.y1 + self.y2),
    {
        let cx: i64 = (self.x1 as i64 + self.x2 as i64) / 2;
        let cy: i64 = (self.y1 as i64 + self.y2 as i64) / 2;
        (cx as i32, cy as i32)
    }
}

/// Half of `v`, rounded toward zero as integer division does.
pub open spec fn half_toward_zero(v: int) -> int {
    if v >= 0 {
        v / 2
    } else {
        -((-v) / 2)
    }
}

/// Two rectangles overlap exactly when some cell lies in both, edges
/// included: rectangles that only share an edge overlap.
pub proof fn lemma_overlaps_shares_a_cell(a: Rect, b: Rect)
    requires
        a.well_formed(),
        b.well_formed(),
    ensures
        a.overlaps(&b) <==> exists|x: int, y: int| a.covers(x, y) && #[trigger] b.covers(x, y),
{
    if a.overlaps(&b) {
        let x = if a.x1 > b.x1 { a.x1 as int } else { b.x1 as int };
        let y = if a.y1 > b.y1 { a.y1 as int } else { b.y1 as int };
        assert(a.covers(x, y) && b.covers(x, y));
    }
}

/// Overlap does not depend on the order of the two rectangles.
pub proof fn lemma_overlaps_symmetric(a: Rect, b: Rect)
    ensures
        a.overlaps(&b) == b.overlaps(&a),
{
}

} // verus!
