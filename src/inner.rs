use crate::bounds::{max_int, min_int, Bounds, Rect};
use crate::edge::Edge;
use crate::rotated_label::Anchor;
use vstd::prelude::*;

verus! {

/// Margins `(before, after)` that place a length inside a span with `free`
/// pixels to spare, as the anchor says.
pub open spec fn aligned(free: int, anchor: Anchor) -> (int, int) {
    match anchor {
        Anchor::Start => (0, free),
        Anchor::Middle => (free / 2, free - free / 2),
        Anchor::End => (free, 0),
    }
}

/// The rectangle of an overlay of size `width` by `height` pinned to `edge` of
/// the plot area `inner` and aligned along that edge by `anchor`. An overlay
/// larger than the plot area is cut to it.
pub open spec fn inset_rect(inner: Rect, edge: Edge, anchor: Anchor, width: int, height: int) -> Rect {
    let free_x = max_int(0, inner.width() - width);
    let free_y = max_int(0, inner.height() - height);
    let (bx, ax) = aligned(free_x, anchor);
    let (by, ay) = aligned(free_y, anchor);
    match edge {
        Edge::Top => inner.shrink(0, ax, free_y, bx),
        Edge::Bottom => inner.shrink(free_y, ax, 0, bx),
        Edge::Left => inner.shrink(by, free_x, ay, 0),
        Edge::Right => inner.shrink(by, 0, ay, free_x),
    }
}

fn align(free: u32, anchor: Anchor) -> (r: (u32, u32))
    ensures
        (r.0 as int, r.1 as int) == aligned(free as int, anchor),
{
    match anchor {
        Anchor::Start => (0, free),
        Anchor::Middle => (free / 2, free - free / 2),
        Anchor::End => (free, 0),
    }
}

/// Places an overlay of the given size inside `inner`, on `edge`, aligned by
/// `anchor`. The result lies inside `inner` and is exactly the overlay's size
/// wherever the plot area has room for it.
pub fn inset_bounds(inner: Bounds, edge: Edge, anchor: Anchor, width: u32, height: u32) -> (r: Bounds)
    ensures
        r@ == inset_rect(inner@, edge, anchor, width as int, height as int),
        inner@.contains(r@),
        r@.width() == min_int(width as int, inner@.width()),
        r@.height() == min_int(height as int, inner@.height()),
{
    proof { inner.lemma_wf(); }
    let w = inner.width();
    let h = inner.height();
    let free_x: u32 = if w >= width { w - width } else { 0 };
    let free_y: u32 = if h >= height { h - height } else { 0 };
    let (bx, ax) = align(free_x, anchor);
    let (by, ay) = align(free_y, anchor);
    match edge {
        Edge::Top => inner.shrink(0, ax, free_y, bx),
        Edge::Bottom => inner.shrink(free_y, ax, 0, bx),
        Edge::Left => inner.shrink(by, free_x, ay, 0),
        Edge::Right => inner.shrink(by, 0, ay, free_x),
    }
}

/// A legend drawn inside the plot area, pinned to one of its edges.
#[derive(Clone, Copy, Debug, PartialEq, Eq)]
pub struct InsetLegend {
    pub edge: Edge,
    pub anchor: Anchor,
}

/// An inset legend together with its measured size.
#[derive(Clone, Copy, Debug, PartialEq, Eq)]
pub struct UseInsetLegend {
    pub edge: Edge,
    pub anchor: Anchor,
    pub width: u32,
    pub height: u32,
}

impl InsetLegend {
    fn new(edge: Edge, anchor: Anchor) -> (r: InsetLegend)
        ensures
            r == (InsetLegend { edge, anchor }),
    {
        InsetLegend { edge, anchor }
    }

    pub fn top_left() -> (r: InsetLegend)
        ensures
            r == (InsetLegend { edge: Edge::Top, anchor: Anchor::Start }),
    {
        InsetLegend::new(Edge::Top, Anchor::Start)
    }

    pub fn top() -> (r: InsetLegend)
        ensures
            r == (InsetLegend { edge: Edge::Top, anchor: Anchor::Middle }),
    {
        InsetLegend::new(Edge::Top, Anchor::Middle)
    }

    pub fn top_right() -> (r: InsetLegend)
        ensures
            r == (InsetLegend { edge: Edge::Top, anchor: Anchor::End }),
    {
        InsetLegend::new(Edge::Top, Anchor::End)
    }

    pub fn bottom_left() -> (r: InsetLegend)
        ensures
            r == (InsetLegend { edge: Edge::Bottom, anchor: Anchor::Start }),
    {
        InsetLegend::new(Edge::Bottom, Anchor::Start)
    }

    pub fn bottom() -> (r: InsetLegend)
        ensures
            r == (InsetLegend { edge: Edge::Bottom, anchor: Anchor::Middle }),
    {
        InsetLegend::new(Edge::Bottom, Anchor::Middle)
    }

    pub fn bottom_right() -> (r: InsetLegend)
        ensures
            r == (InsetLegend { edge: Edge::Bottom, anchor: Anchor::End }),
    {
        InsetLegend::new(Edge::Bottom, Anchor::End)
    }

    pub fn left() -> (r: InsetLegend)
        ensures
            r == (InsetLegend { edge: Edge::Left, anchor: Anchor::Middle }),
    {
        InsetLegend::new(Edge::Left, Anchor::Middle)
    }

    pub fn right() -> (r: InsetLegend)
        ensures
            r == (InsetLegend { edge: Edge::Right, anchor: Anchor::Middle }),
    {
        InsetLegend::new(Edge::Right, Anchor::Middle)
    }

    /// Binds the legend to its measured size.
    pub fn into_use(self, width: u32, height: u32) -> (r: UseInsetLegend)
        ensures
            r == (UseInsetLegend { edge: self.edge, anchor: self.anchor, width, height }),
    {
        UseInsetLegend { edge: self.edge, anchor: self.anchor, width, height }
    }
}

impl UseInsetLegend {
    /// The legend's rectangle inside the plot area `inner`.
    pub fn bounds(&self, inner: Bounds) -> (r: Bounds)
        ensures
            r@ == inset_rect(inner@, self.edge, self.anchor, self.width as int, self.height as int),
    {
        inset_bounds(inner, self.edge, self.anchor, self.width, self.height)
    }
}

} // verus!
