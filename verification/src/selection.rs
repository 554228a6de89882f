//! Two-point anchored selection over `(row, column)` positions.
//!
//! A selection keeps the anchor where it was started and the point where it
//! currently ends.  The user may drag in either direction, so the anchors are
//! not ordered; `from` and `to` give them in document order.

use vstd::prelude::*;

verus! {

/// A position in the document: `y` is the row, `x` the column.
/// A coordinate of `-1` means "not set".
#[derive(Clone, Copy, Debug)]
pub struct Point {
    pub y: i32,
    pub x: i32,
}

impl Point {
    /// Document order: rows first, then columns.
    pub open spec fn before(self, other: Point) -> bool {
        self.y < other.y || (self.y == other.y && self.x < other.x)
    }

    /// Document order, or the same position.
    pub open spec fn before_or_at(self, other: Point) -> bool {
        self.y < other.y || (self.y == other.y && self.x <= other.x)
    }

    /// The point whose coordinates are not set.
    pub open spec fn nowhere() -> Point {
        Point { y: -1i32, x: -1i32 }
    }

    /// The point that a `(row, column)` pair of indices denotes.
    pub open spec fn at(y: usize, x: usize) -> Point {
        Point { y: y as i32, x: x as i32 }
    }

    /// The pair of indices that this point denotes.
    pub open spec fn indices(self) -> (usize, usize) {
        (self.y as usize, self.x as usize)
    }

    /// Whether this point lies behind `other`.
    pub fn greater_than(&self, other: &Self) -> (r: bool)
        ensures
            r == other.before(*self),
    {
        if self.y > other.y {
            return true;
        }
        self.y == other.y && self.x > other.x
    }

    /// Whether this point lies before `other`.
    pub fn less_than(&self, other: &Self) -> (r: bool)
        ensures
            r == self.before(*other),
    {
        if self.y < other.y {
            return true;
        }
        self.y == other.y && self.x < other.x
    }

    /// Whether this point lies at or behind `other`.
    pub fn greater_equal(&self, other: &Self) -> (r: bool)
        ensures
            r == other.before_or_at(*self),
    {
        if self.y > other.y {
            return true;
        }
        if self.y == other.y && self.x >= other.x {
            return true;
        }
        return false;
    }

    /// Whether the points are the same.
    pub fn equal(&self, other: &Self) -> (r: bool)
        ensures
            r == (self.y == other.y && self.x == other.x),
    {
        self.y == other.y && self.x == other.x
    }
}

/// A selection: the anchor where it started and the point where it ends,
/// whether it is active, and whether it is kept for one more action.
#[derive(Clone, Copy, Debug)]
pub struct Selection {
    pub start: Point,
    pub end: Point,
    pub active: bool,
    pub keep_once: bool,
}

impl Selection {
    /// Some coordinate of an anchor is not set.
    pub open spec fn unset(self) -> bool {
        self.start.x == -1 || self.start.y == -1 || self.end.x == -1 || self.end.y == -1
    }

    /// Nothing is selected: an anchor is not set, or both are the same point.
    pub open spec fn is_empty(self) -> bool {
        self.unset() || self.start == self.end
    }

    /// The earlier anchor in document order.
    pub open spec fn lower(self) -> Point {
        if self.end.before(self.start) {
            self.end
        } else {
            self.start
        }
    }

    /// The later anchor in document order.
    pub open spec fn upper(self) -> Point {
        if self.end.before(self.start) {
            self.start
        } else {
            self.end
        }
    }

    /// `p` lies in the half-open interval from `lower` to `upper`.
    pub open spec fn covers(self, p: Point) -> bool {
        !self.is_empty() && self.lower().before_or_at(p) && p.before(self.upper())
    }

    /// The selection is shown: it is active, or kept for one more action.
    pub open spec fn shown(self) -> bool {
        self.active || self.keep_once
    }

    /// A selection without anchors.
    pub fn new() -> (s: Self)
        ensures
            s.start == Point::nowhere(),
            s.end == Point::nowhere(),
            !s.active,
            !s.keep_once,
            s.is_empty(),
    {
        Self {
            start: Point { y: -1, x: -1 },
            end: Point { y: -1, x: -1 },
            active: false,
            keep_once: false,
        }
    }

    /// Drops the anchors and makes the selection inactive.
    pub fn clean(&mut self)
        ensures
            final(self).start == Point::nowhere(),
            final(self).end == Point::nowhere(),
            !final(self).active,
            final(self).keep_once == old(self).keep_once,
    {
        self.start.y = -1;
        self.start.x = -1;
        self.end.y = -1;
        self.end.x = -1;
        self.active = false;
    }

    /// Makes the selection active.
    pub fn activate(&mut self)
        ensures
            *final(self) == (Selection { active: true, ..*old(self) }),
    {
        self.active = true;
    }

    /// Whether nothing is selected.
    pub fn empty(&mut self) -> (r: bool)
        ensures
            *final(self) == *old(self),
            r == old(self).is_empty(),
    {
        if self.start.x == -1 || self.start.y == -1 || self.end.x == -1 || self.end.y == -1 {
            return true;
        }
        let equal = self.start.equal(&self.end);
        equal
    }

    /// Whether something is selected.
    pub fn non_empty(&mut self) -> (r: bool)
        ensures
            *final(self) == *old(self),
            r == !old(self).is_empty(),
    {
        if self.start.x == -1 || self.start.y == -1 || self.end.x == -1 || self.end.y == -1 {
            return false;
        }
        !self.start.equal(&self.end)
    }

    /// Whether something is selected and the selection is shown.
    pub fn non_empty_and_active(&mut self) -> (r: bool)
        ensures
            *final(self) == *old(self),
            r == (!old(self).is_empty() && old(self).shown()),
    {
        self.non_empty() && (self.active || self.keep_once)
    }

    /// Moves the start anchor to `(y, x)`.  Indices beyond `i32::MAX` wrap.
    pub fn set_start(&mut self, y: usize, x: usize)
        ensures
            *final(self) == (Selection { start: Point::at(y, x), ..*old(self) }),
    {
        self.start.x = #[verifier::truncate] (x as i32);
        self.start.y = #[verifier::truncate] (y as i32);
    }

    /// Moves the end anchor to `(y, x)`.  Indices beyond `i32::MAX` wrap.
    pub fn set_end(&mut self, y: usize, x: usize)
        ensures
            *final(self) == (Selection { end: Point::at(y, x), ..*old(self) }),
    {
        self.end.x = #[verifier::truncate] (x as i32);
        self.end.y = #[verifier::truncate] (y as i32);
    }

    /// Whether `(y, x)` lies between the anchors: at or behind the earlier
    /// one and before the later one.
    pub fn contains(&mut self, y: usize, x: usize) -> (r: bool)
        ensures
            *final(self) == *old(self),
            r == old(self).covers(Point::at(y, x)),
    {
        if self.empty() {
            return false;
        }
        let p = Point { x: #[verifier::truncate] (x as i32), y: #[verifier::truncate] (y as i32) };

        let result = if self.start.greater_than(&self.end) {
            p.greater_equal(&self.end) && p.less_than(&self.start)
        } else {
            p.greater_equal(&self.start) && p.less_than(&self.end)
        };

        result
    }

    /// Whether the cell at `(y, x)` is shown as selected.
    pub fn is_selected(&mut self, y: usize, x: usize) -> (r: bool)
        ensures
            *final(self) == *old(self),
            r == (old(self).shown() && old(self).covers(Point::at(y, x))),
    {
        let allowed = self.active || self.keep_once;
        let contains = self.contains(y, x);
        allowed && contains
    }

    /// The earlier anchor, as indices.  A coordinate that is not set wraps to
    /// a large index.
    pub fn from(&mut self) -> (r: (usize, usize))
        ensures
            *final(self) == *old(self),
            r == old(self).lower().indices(),
    {
        if self.start.greater_than(&self.end) {
            (#[verifier::truncate] (self.end.y as usize), #[verifier::truncate] (self.end.x as usize))
        } else {
            (
                #[verifier::truncate] (self.start.y as usize),
                #[verifier::truncate] (self.start.x as usize),
            )
        }
    }

    /// The later anchor, as indices.
    pub fn to(&mut self) -> (r: (usize, usize))
        ensures
            *final(self) == *old(self),
            r == old(self).upper().indices(),
    {
        if self.start.greater_than(&self.end) {
            (
                #[verifier::truncate] (self.start.y as usize),
                #[verifier::truncate] (self.start.x as usize),
            )
        } else {
            (#[verifier::truncate] (self.end.y as usize), #[verifier::truncate] (self.end.x as usize))
        }
    }

    /// Orders the anchors: afterwards `start` is the earlier one.
    pub fn swap(&mut self)
        ensures
            final(self).start == old(self).lower(),
            final(self).end == old(self).upper(),
            final(self).active == old(self).active,
            final(self).keep_once == old(self).keep_once,
    {
        if self.start.greater_than(&self.end) {
            let s = self.start;
            self.start = self.end;
            self.end = s;
        }
    }
}

/// Lexicographic order on index pairs.
pub open spec fn pair_le(a: (usize, usize), b: (usize, usize)) -> bool {
    a.0 < b.0 || (a.0 == b.0 && a.1 <= b.1)
}

/// Lexicographic strict order on index pairs.
pub open spec fn pair_lt(a: (usize, usize), b: (usize, usize)) -> bool {
    a.0 < b.0 || (a.0 == b.0 && a.1 < b.1)
}

/// Whatever the drag direction, the earlier anchor never lies after the later
/// one.
pub proof fn lemma_lower_not_after_upper(s: Selection)
    ensures
        s.lower().before_or_at(s.upper()),
        s.lower() == s.start && s.upper() == s.end || s.lower() == s.end && s.upper() == s.start,
{
}

/// With both anchors at non-negative coordinates, what `from` returns is at or
/// before what `to` returns, in the order of index pairs.
pub proof fn lemma_from_le_to(s: Selection)
    requires
        s.start.y >= 0,
        s.start.x >= 0,
        s.end.y >= 0,
        s.end.x >= 0,
    ensures
        pair_le(s.lower().indices(), s.upper().indices()),
{
}

/// Dragging backwards selects the same interval as dragging forwards.
pub proof fn lemma_direction_irrelevant(s: Selection, p: Point)
    ensures
        s.covers(p) == (Selection { start: s.end, end: s.start, ..s }).covers(p),
{
}

/// For a selection whose anchors are set and a position that fits the
/// coordinates, a cell is selected exactly when the selection is shown and the
/// position lies in `[from, to)`.
pub proof fn lemma_selected_iff_in_interval(s: Selection, y: usize, x: usize)
    requires
        s.start.y >= 0,
        s.start.x >= 0,
        s.end.y >= 0,
        s.end.x >= 0,
        y <= i32::MAX,
        x <= i32::MAX,
    ensures
        (s.shown() && s.covers(Point::at(y, x))) <==> (s.shown() && pair_le(
            s.lower().indices(),
            (y, x),
        ) && pair_lt((y, x), s.upper().indices())),
{
}

} // verus!
