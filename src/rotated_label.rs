use crate::bounds::{min_int, Bounds, Rect};
use crate::edge::Edge;
use vstd::prelude::*;

verus! {

/// One-dimensional alignment: the near end, the centre or the far end.
#[derive(Clone, Copy, Debug, PartialEq, Eq, Structural)]
pub enum Anchor {
    Start,
    Middle,
    End,
}

impl Anchor {
    pub open spec fn pick(self, start: int, middle: int, end: int) -> int {
        match self {
            Anchor::Start => start,
            Anchor::Middle => middle,
            Anchor::End => end,
        }
    }

    /// The SVG `text-anchor` value.
    pub fn as_svg_attr(&self) -> (r: &'static str)
        ensures
            *self == Anchor::Start ==> r@ == "start"@,
            *self == Anchor::Middle ==> r@ == "middle"@,
            *self == Anchor::End ==> r@ == "end"@,
    {
        match self {
            Anchor::Start => "start",
            Anchor::Middle => "middle",
            Anchor::End => "end",
        }
    }

    /// Picks the point that this anchor names among three.
    pub fn map_points(&self, start: u32, middle: u32, end: u32) -> (r: u32)
        ensures
            r == self.pick(start as int, middle as int, end as int),
    {
        match self {
            Anchor::Start => start,
            Anchor::Middle => middle,
            Anchor::End => end,
        }
    }

    /// The CSS `justify-content` value.
    pub fn css_justify_content(&self) -> (r: &'static str)
        ensures
            *self == Anchor::Start ==> r@ == "flex-start"@,
            *self == Anchor::Middle ==> r@ == "center"@,
            *self == Anchor::End ==> r@ == "flex-end"@,
    {
        match self {
            Anchor::Start => "flex-start",
            Anchor::Middle => "center",
            Anchor::End => "flex-end",
        }
    }
}

/// Character metrics of a font, in pixels.
#[derive(Clone, Copy, Debug, PartialEq, Eq)]
pub struct Font {
    pub height: u32,
    pub width: u32,
}

/// Space kept clear around content, in pixels.
#[derive(Clone, Copy, Debug, PartialEq, Eq)]
pub struct Padding {
    pub top: u32,
    pub right: u32,
    pub bottom: u32,
    pub left: u32,
}

impl Padding {
    /// The same padding on every side.
    pub fn from(v: u32) -> (r: Padding)
        ensures
            r == (Padding { top: v, right: v, bottom: v, left: v }),
    {
        Padding { top: v, right: v, bottom: v, left: v }
    }

    /// The content area of `bounds` once this padding is taken off.
    pub fn apply(&self, bounds: Bounds) -> (r: Bounds)
        ensures
            r@ == bounds@.shrink(
                self.top as int,
                self.right as int,
                self.bottom as int,
                self.left as int,
            ),
    {
        bounds.shrink(self.top, self.right, self.bottom, self.left)
    }
}

/// Settings shared by every component of a chart, used where a component
/// sets none of its own.
#[derive(Clone, Copy, Debug, PartialEq, Eq)]
pub struct Attr {
    pub font: Font,
    pub padding: Padding,
    pub debug: bool,
}

/// A line of text along an edge, rotated to read along that edge.
#[derive(Clone, Debug, PartialEq, Eq)]
pub struct RotatedLabel {
    pub text: String,
    pub anchor: Anchor,
    pub font: Option<Font>,
    pub padding: Option<Padding>,
    pub debug: Option<bool>,
}

/// A rotated label with every setting resolved.
#[derive(Clone, Debug, PartialEq, Eq)]
pub struct UseRotatedLabel {
    pub text: String,
    pub anchor: Anchor,
    pub font: Font,
    pub padding: Padding,
    pub debug: bool,
}

pub open spec fn or_default<T>(o: Option<T>, d: T) -> T {
    match o {
        Some(v) => v,
        None => d,
    }
}

impl RotatedLabel {
    pub fn new(anchor: Anchor, text: String) -> (r: RotatedLabel)
        ensures
            r.anchor == anchor,
            r.text@ == text@,
            r.font.is_none(),
            r.padding.is_none(),
            r.debug.is_none(),
    {
        RotatedLabel { text, anchor, font: None, padding: None, debug: None }
    }

    pub fn start(text: String) -> (r: RotatedLabel)
        ensures
            r.anchor == Anchor::Start,
            r.text@ == text@,
            r.font.is_none(),
            r.padding.is_none(),
            r.debug.is_none(),
    {
        RotatedLabel::new(Anchor::Start, text)
    }

    pub fn middle(text: String) -> (r: RotatedLabel)
        ensures
            r.anchor == Anchor::Middle,
            r.text@ == text@,
            r.font.is_none(),
            r.padding.is_none(),
            r.debug.is_none(),
    {
        RotatedLabel::new(Anchor::Middle, text)
    }

    pub fn end(text: String) -> (r: RotatedLabel)
        ensures
            r.anchor == Anchor::End,
            r.text@ == text@,
            r.font.is_none(),
            r.padding.is_none(),
            r.debug.is_none(),
    {
        RotatedLabel::new(Anchor::End, text)
    }

    pub fn set_font(self, font: Font) -> (r: RotatedLabel)
        ensures
            r.font == Some(font),
            r.text@ == self.text@,
            r.anchor == self.anchor,
            r.padding == self.padding,
            r.debug == self.debug,
    {
        RotatedLabel { font: Some(font), ..self }
    }

    pub fn set_padding(self, padding: Padding) -> (r: RotatedLabel)
        ensures
            r.padding == Some(padding),
            r.text@ == self.text@,
            r.anchor == self.anchor,
            r.font == self.font,
            r.debug == self.debug,
    {
        RotatedLabel { padding: Some(padding), ..self }
    }

    pub fn set_debug(self, debug: bool) -> (r: RotatedLabel)
        ensures
            r.debug == Some(debug),
            r.text@ == self.text@,
            r.anchor == self.anchor,
            r.font == self.font,
            r.padding == self.padding,
    {
        RotatedLabel { debug: Some(debug), ..self }
    }

    /// Resolves the settings: the label's own where it has one, else the
    /// chart's.
    pub fn apply_attr(self, attr: &Attr) -> (r: UseRotatedLabel)
        ensures
            r.text@ == self.text@,
            r.anchor == self.anchor,
            r.font == or_default(self.font, attr.font),
            r.padding == or_default(self.padding, attr.padding),
            r.debug == or_default(self.debug, attr.debug),
    {
        let font = match self.font {
            Some(f) => f,
            None => attr.font,
        };
        let padding = match self.padding {
            Some(p) => p,
            None => attr.padding,
        };
        let debug = match self.debug {
            Some(d) => d,
            None => attr.debug,
        };
        UseRotatedLabel { text: self.text, anchor: self.anchor, font, padding, debug }
    }
}

/// The thickness a label takes on its edge: nothing for empty text, else one
/// line of the font with the vertical padding, capped at the largest pixel
/// coordinate.
pub open spec fn label_size(text: Seq<char>, font: Font, padding: Padding) -> int {
    if text.len() == 0 {
        0
    } else {
        min_int(font.height + padding.top + padding.bottom, u32::MAX as int)
    }
}

/// Rotation in degrees and the text's anchor point, for a label on `edge`
/// whose content area is `c`.
pub open spec fn label_position(edge: Edge, anchor: Anchor, c: Rect) -> (int, int, int) {
    let cx = c.left + c.width() / 2;
    let cy = c.top + c.height() / 2;
    match edge {
        Edge::Top | Edge::Bottom => (0, anchor.pick(c.left, cx, c.right), cy),
        Edge::Left => (270, cx, anchor.pick(c.bottom, cy, c.top)),
        Edge::Right => (90, cx, anchor.pick(c.top, cy, c.bottom)),
    }
}

impl UseRotatedLabel {
    /// The label's thickness on any edge.
    pub fn size(&self) -> (r: u32)
        ensures
            r == label_size(self.text@, self.font, self.padding),
    {
        if self.text.as_str().is_empty() {
            0
        } else {
            let s: u64 = self.font.height as u64 + self.padding.top as u64
                + self.padding.bottom as u64;
            if s > u32::MAX as u64 {
                u32::MAX
            } else {
                s as u32
            }
        }
    }

    /// Height on a top or bottom edge.
    pub fn height(&self) -> (r: u32)
        ensures
            r == label_size(self.text@, self.font, self.padding),
    {
        self.size()
    }

    /// Width on a left or right edge.
    pub fn width(&self) -> (r: u32)
        ensures
            r == label_size(self.text@, self.font, self.padding),
    {
        self.size()
    }

    /// Where the text goes within `bounds`: the rotation in degrees and the
    /// anchor point. Labels on the left read upwards, labels on the right read
    /// downwards, so the anchor's ends are swapped between the two.
    pub fn position(&self, edge: Edge, bounds: Bounds) -> (r: (u32, u32, u32))
        ensures
            (r.0 as int, r.1 as int, r.2 as int) == label_position(
                edge,
                self.anchor,
                bounds@.shrink(
                    self.padding.top as int,
                    self.padding.right as int,
                    self.padding.bottom as int,
                    self.padding.left as int,
                ),
            ),
    {
        let c = self.padding.apply(bounds);
        let (top, right, bottom, left) = (c.top_y(), c.right_x(), c.bottom_y(), c.left_x());
        let (cx, cy) = (c.centre_x(), c.centre_y());
        match edge {
            Edge::Top | Edge::Bottom => (0, self.anchor.map_points(left, cx, right), cy),
            Edge::Left => (270, cx, self.anchor.map_points(bottom, cy, top)),
            Edge::Right => (90, cx, self.anchor.map_points(top, cy, bottom)),
        }
    }
}

} // verus!
