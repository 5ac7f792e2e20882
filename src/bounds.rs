use vstd::prelude::*;

verus! {

/// The mathematical model of a rectangle: four edges in pixel space.
pub struct Rect {
    pub top: int,
    pub left: int,
    pub right: int,
    pub bottom: int,
}

pub open spec fn min_int(a: int, b: int) -> int {
    if a <= b { a } else { b }
}

pub open spec fn max_int(a: int, b: int) -> int {
    if a >= b { a } else { b }
}

impl Rect {
    pub open spec fn width(self) -> int {
        self.right - self.left
    }

    pub open spec fn height(self) -> int {
        self.bottom - self.top
    }

    /// Edges ordered and within the range of a pixel coordinate.
    pub open spec fn wf(self) -> bool {
        0 <= self.left <= self.right <= u32::MAX && 0 <= self.top <= self.bottom <= u32::MAX
    }

    /// Inset by four margins; each pair of opposite edges collapses onto one
    /// line instead of crossing over.
    pub open spec fn shrink(self, top: int, right: int, bottom: int, left: int) -> Rect {
        let l = min_int(self.left + left, self.right);
        let t = min_int(self.top + top, self.bottom);
        Rect {
            top: t,
            left: l,
            right: max_int(l, self.right - right),
            bottom: max_int(t, self.bottom - bottom),
        }
    }

    /// `other` lies inside `self`.
    pub open spec fn contains(self, other: Rect) -> bool {
        self.left <= other.left && other.right <= self.right && self.top <= other.top
            && other.bottom <= self.bottom
    }
}

/// Shrinking a well-formed rectangle by non-negative margins leaves a
/// well-formed rectangle inside it whose width is the old width less both side
/// margins and whose height is the old height less both vertical margins, each
/// floored at zero.
pub proof fn lemma_shrink(b: Rect, top: int, right: int, bottom: int, left: int)
    requires
        b.wf(),
        top >= 0,
        right >= 0,
        bottom >= 0,
        left >= 0,
    ensures
        b.shrink(top, right, bottom, left).wf(),
        b.contains(b.shrink(top, right, bottom, left)),
        b.shrink(top, right, bottom, left).width() == max_int(0, b.width() - left - right),
        b.shrink(top, right, bottom, left).height() == max_int(0, b.height() - top - bottom),
{
}

/// An axis-aligned rectangle in pixel space. Its edges are always ordered:
/// `left_x <= right_x` and `top_y <= bottom_y`, so width and height are never
/// negative.
#[derive(Clone, Copy, Debug, PartialEq, Eq)]
pub struct Bounds {
    top_y: u32,
    left_x: u32,
    right_x: u32,
    bottom_y: u32,
}

impl View for Bounds {
    type V = Rect;

    closed spec fn view(&self) -> Rect {
        Rect {
            top: self.top_y as int,
            left: self.left_x as int,
            right: max_int(self.left_x as int, self.right_x as int),
            bottom: max_int(self.top_y as int, self.bottom_y as int),
        }
    }
}

impl Bounds {
    #[verifier::type_invariant]
    spec fn ordered(self) -> bool {
        self.left_x <= self.right_x && self.top_y <= self.bottom_y
    }

    /// Every value of this type is well formed.
    pub proof fn lemma_wf(&self)
        ensures
            self@.wf(),
    {
    }

    /// A rectangle at the origin of the given size.
    pub fn new(width: u32, height: u32) -> (r: Bounds)
        ensures
            r@ == (Rect { top: 0, left: 0, right: width as int, bottom: height as int }),
    {
        Bounds { top_y: 0, left_x: 0, right_x: width, bottom_y: height }
    }

    /// A rectangle from its edges; an edge that lies before its opposite one is
    /// moved onto it, giving zero width or height.
    pub fn from_points(left_x: u32, top_y: u32, right_x: u32, bottom_y: u32) -> (r: Bounds)
        ensures
            r@ == (Rect {
                top: top_y as int,
                left: left_x as int,
                right: max_int(left_x as int, right_x as int),
                bottom: max_int(top_y as int, bottom_y as int),
            }),
    {
        let right_x = if right_x >= left_x { right_x } else { left_x };
        let bottom_y = if bottom_y >= top_y { bottom_y } else { top_y };
        Bounds { top_y, left_x, right_x, bottom_y }
    }

    pub fn top_y(&self) -> (r: u32)
        ensures
            r == self@.top,
    {
        self.top_y
    }

    pub fn left_x(&self) -> (r: u32)
        ensures
            r == self@.left,
    {
        self.left_x
    }

    pub fn right_x(&self) -> (r: u32)
        ensures
            r == self@.right,
    {
        proof { use_type_invariant(self); }
        self.right_x
    }

    pub fn bottom_y(&self) -> (r: u32)
        ensures
            r == self@.bottom,
    {
        proof { use_type_invariant(self); }
        self.bottom_y
    }

    pub fn width(&self) -> (r: u32)
        ensures
            r == self@.width(),
    {
        proof { use_type_invariant(self); }
        self.right_x - self.left_x
    }

    pub fn height(&self) -> (r: u32)
        ensures
            r == self@.height(),
    {
        proof { use_type_invariant(self); }
        self.bottom_y - self.top_y
    }

    /// The horizontal centre, rounded towards the left edge.
    pub fn centre_x(&self) -> (r: u32)
        ensures
            r == self@.left + self@.width() / 2,
    {
        proof { use_type_invariant(self); }
        self.left_x + (self.right_x - self.left_x) / 2
    }

    /// The vertical centre, rounded towards the top edge.
    pub fn centre_y(&self) -> (r: u32)
        ensures
            r == self@.top + self@.height() / 2,
    {
        proof { use_type_invariant(self); }
        self.top_y + (self.bottom_y - self.top_y) / 2
    }

    /// Inset by four margins, clamped so that width and height never go
    /// negative.
    pub fn shrink(&self, top: u32, right: u32, bottom: u32, left: u32) -> (r: Bounds)
        ensures
            r@ == self@.shrink(top as int, right as int, bottom as int, left as int),
            r@.width() == max_int(0, self@.width() - left - right),
            r@.height() == max_int(0, self@.height() - top - bottom),
            self@.contains(r@),
    {
        proof {
            use_type_invariant(self);
            lemma_shrink(self@, top as int, right as int, bottom as int, left as int);
        }
        let l: u32 = if (self.left_x as u64) + (left as u64) <= self.right_x as u64 {
            self.left_x + left
        } else {
            self.right_x
        };
        let t: u32 = if (self.top_y as u64) + (top as u64) <= self.bottom_y as u64 {
            self.top_y + top
        } else {
            self.bottom_y
        };
        let r: u32 = if self.right_x >= right && self.right_x - right >= l {
            self.right_x - right
        } else {
            l
        };
        let b: u32 = if self.bottom_y >= bottom && self.bottom_y - bottom >= t {
            self.bottom_y - bottom
        } else {
            t
        };
        Bounds { top_y: t, left_x: l, right_x: r, bottom_y: b }
    }

    /// Splits at `offset` pixels below the top edge into an upper and a
    /// lower part; an offset past the bottom edge splits at the bottom edge.
    pub fn split_at_y(&self, offset: u32) -> (r: (Bounds, Bounds))
        ensures
            r.0@ == (Rect {
                top: self@.top,
                left: self@.left,
                right: self@.right,
                bottom: self@.top + min_int(offset as int, self@.height()),
            }),
            r.1@ == (Rect {
                top: self@.top + min_int(offset as int, self@.height()),
                left: self@.left,
                right: self@.right,
                bottom: self@.bottom,
            }),
    {
        proof { use_type_invariant(self); }
        let h = self.bottom_y - self.top_y;
        let d = if offset <= h { offset } else { h };
        let mid = self.top_y + d;
        (
            Bounds { top_y: self.top_y, left_x: self.left_x, right_x: self.right_x, bottom_y: mid },
            Bounds { top_y: mid, left_x: self.left_x, right_x: self.right_x, bottom_y: self.bottom_y },
        )
    }

    /// Splits at `offset` pixels right of the left edge into a left and a
    /// right part; an offset past the right edge splits at the right edge.
    pub fn split_at_x(&self, offset: u32) -> (r: (Bounds, Bounds))
        ensures
            r.0@ == (Rect {
                top: self@.top,
                left: self@.left,
                right: self@.left + min_int(offset as int, self@.width()),
                bottom: self@.bottom,
            }),
            r.1@ == (Rect {
                top: self@.top,
                left: self@.left + min_int(offset as int, self@.width()),
                right: self@.right,
                bottom: self@.bottom,
            }),
    {
        proof { use_type_invariant(self); }
        let w = self.right_x - self.left_x;
        let d = if offset <= w { offset } else { w };
        let mid = self.left_x + d;
        (
            Bounds { top_y: self.top_y, left_x: self.left_x, right_x: mid, bottom_y: self.bottom_y },
            Bounds { top_y: self.top_y, left_x: mid, right_x: self.right_x, bottom_y: self.bottom_y },
        )
    }
}

} // verus!
