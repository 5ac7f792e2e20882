use crate::bounds::min_int;
use crate::edge::Edge;
use crate::projection::PositionRange;
use crate::rotated_label::{label_size, Font, Padding, UseRotatedLabel};
use crate::ticks::{label_len, max_label_chars};
use vstd::prelude::*;

verus! {

/// A component stacked on an edge, with its settings resolved.
#[derive(Clone, Debug, PartialEq, Eq)]
pub enum EdgeLayout {
    /// A rotated line of text.
    RotatedLabel(UseRotatedLabel),
    /// The tick labels of the axis that runs along the edge.
    TickLabels { font: Font, padding: Padding },
    /// A component whose thickness is already known, such as a measured
    /// legend.
    Fixed(u32),
}

/// The thickness of tick labels on `edge`: one line of text on a top or bottom
/// edge; on a left or right edge, the widest label of the y range, whose ends
/// have the longest labels of any value between them.
pub open spec fn tick_labels_size(edge: Edge, font: Font, padding: Padding, range: PositionRange) -> int {
    match edge {
        Edge::Top | Edge::Bottom => min_int(
            font.height + padding.top + padding.bottom,
            u32::MAX as int,
        ),
        Edge::Left | Edge::Right => min_int(
            max_label_chars(range.y_min as int, range.y_max as int) * font.width
                + padding.left + padding.right,
            u32::MAX as int,
        ),
    }
}

pub open spec fn component_size(c: EdgeLayout, edge: Edge, range: PositionRange) -> int {
    match c {
        EdgeLayout::RotatedLabel(l) => label_size(l.text@, l.font, l.padding),
        EdgeLayout::TickLabels { font, padding } => tick_labels_size(edge, font, padding, range),
        EdgeLayout::Fixed(t) => t as int,
    }
}

impl EdgeLayout {
    /// The component's thickness on `edge` for the data range `range`.
    pub fn thickness(&self, edge: Edge, range: PositionRange) -> (r: u32)
        ensures
            r == component_size(*self, edge, range),
    {
        match self {
            EdgeLayout::RotatedLabel(l) => l.size(),
            EdgeLayout::TickLabels { font, padding } => {
                let s: u128 = if edge.is_horizontal() {
                    font.height as u128 + padding.top as u128 + padding.bottom as u128
                } else {
                    let a = label_len(range.y_min);
                    let b = label_len(range.y_max);
                    let chars: u64 = if a >= b { a } else { b };
                    proof {
                        assert(chars * font.width <= 0x8000_0000_0000_0002 * 0xffff_ffff)
                            by (nonlinear_arith)
                            requires
                                chars <= 0x8000_0000_0000_0002,
                                font.width <= 0xffff_ffff,
                        ;
                    }
                    (chars as u128) * (font.width as u128) + padding.left as u128
                        + padding.right as u128
                };
                if s > u32::MAX as u128 {
                    u32::MAX
                } else {
                    s as u32
                }
            },
            EdgeLayout::Fixed(t) => *t,
        }
    }
}

/// The thickness of each component of one side, in order.
pub fn edge_thicknesses(items: &Vec<EdgeLayout>, edge: Edge, range: PositionRange) -> (r: Vec<u32>)
    ensures
        r.len() == items.len(),
        forall|i: int| 0 <= i < items.len() ==> #[trigger] r[i] == component_size(items[i], edge, range),
{
    let mut r: Vec<u32> = Vec::new();
    let mut i: usize = 0;
    while i < items.len()
        invariant
            i <= items.len(),
            r.len() == i,
            forall|j: int| 0 <= j < i ==> #[trigger] r[j] == component_size(items[j], edge, range),
        decreases items.len() - i,
    {
        let t = items[i].thickness(edge, range);
        r.push(t);
        i += 1;
    }
    r
}

} // verus!
