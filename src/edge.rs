use vstd::prelude::*;

verus! {

/// The side of the outer rectangle that a component occupies.
#[derive(Clone, Copy, Debug, PartialEq, Eq, Structural)]
pub enum Edge {
    Top,
    Right,
    Bottom,
    Left,
}

impl Edge {
    /// Top and bottom components stack vertically and span horizontally.
    pub fn is_horizontal(&self) -> (r: bool)
        ensures
            r == (*self == Edge::Top || *self == Edge::Bottom),
    {
        match self {
            Edge::Top | Edge::Bottom => true,
            Edge::Left | Edge::Right => false,
        }
    }
}

} // verus!
