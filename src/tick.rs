use vstd::prelude::*;

verus! {

/// A value that can stand on an axis: it has an integer position along it.
pub trait Tick {
    spec fn spec_position(&self) -> int;

    fn position(&self) -> (r: i64)
        ensures
            r == self.spec_position(),
    ;
}

/// Integers stand at their own value.
impl Tick for i64 {
    open spec fn spec_position(&self) -> int {
        *self as int
    }

    fn position(&self) -> (r: i64) {
        *self
    }
}

/// An instant, as milliseconds since the Unix epoch with leap seconds not
/// counted.
#[derive(Clone, Copy, Debug, PartialEq, Eq, PartialOrd, Ord, Hash)]
pub struct Timestamp {
    pub millis: i64,
}

/// Instants stand at their millisecond.
impl Tick for Timestamp {
    open spec fn spec_position(&self) -> int {
        self.millis as int
    }

    fn position(&self) -> (r: i64) {
        self.millis
    }
}

} // verus!
