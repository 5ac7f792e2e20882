use crate::bounds::{min_int, Bounds, Rect};
use vstd::prelude::*;

verus! {

/// How the chart's outer size is chosen. A ratio is written
/// `ratio_width : ratio_height`.
#[derive(Clone, Copy, Debug, PartialEq, Eq)]
pub enum AspectRatio {
    /// The container's width is used; the height follows from the ratio.
    EnvWidth { ratio_width: u32, ratio_height: u32 },
    /// The container's height is used; the width follows from the ratio.
    EnvHeight { ratio_width: u32, ratio_height: u32 },
    /// The container's width and height are used as they are.
    Env,
    /// A fixed size, whatever the container measures.
    Outer { width: u32, height: u32 },
}

/// A resolved outer size in pixels.
#[derive(Clone, Copy, Debug, PartialEq, Eq)]
pub struct KnownAspectRatio {
    pub width: u32,
    pub height: u32,
}

/// The side that follows from a known side and a ratio `num : den`, rounded
/// down; a ratio with a zero term gives zero, and a side too long for a pixel
/// coordinate is cut to the largest one.
pub open spec fn derived_side(known: int, num: int, den: int) -> int {
    if den == 0 {
        0
    } else {
        min_int(known * num / den, u32::MAX as int)
    }
}

/// The outer size for a policy and the container's measured size, if the
/// policy can be resolved with what has been measured.
pub open spec fn resolved(p: AspectRatio, observed: Option<(u32, u32)>) -> Option<(int, int)> {
    match p {
        AspectRatio::Outer { width, height } => Some((width as int, height as int)),
        AspectRatio::Env => match observed {
            Some((w, h)) => Some((w as int, h as int)),
            None => None,
        },
        AspectRatio::EnvWidth { ratio_width, ratio_height } => match observed {
            Some((w, _h)) => Some(
                (w as int, derived_side(w as int, ratio_height as int, ratio_width as int)),
            ),
            None => None,
        },
        AspectRatio::EnvHeight { ratio_width, ratio_height } => match observed {
            Some((_w, h)) => Some(
                (derived_side(h as int, ratio_width as int, ratio_height as int), h as int),
            ),
            None => None,
        },
    }
}

fn derive_side(known: u32, num: u32, den: u32) -> (r: u32)
    ensures
        r == derived_side(known as int, num as int, den as int),
{
    if den == 0 {
        0
    } else {
        proof {
            assert((known as int) * (num as int) <= 0xffff_ffff * 0xffff_ffff) by (nonlinear_arith)
                requires
                    known <= 0xffff_ffff,
                    num <= 0xffff_ffff,
            ;
        }
        let v: u64 = (known as u64) * (num as u64) / (den as u64);
        if v > u32::MAX as u64 {
            u32::MAX
        } else {
            v as u32
        }
    }
}

impl AspectRatio {
    /// Resolves the policy against the container's measured width and height,
    /// `None` while the container is unmeasured. A fixed size needs no
    /// measurement.
    pub fn into_known(self, observed: Option<(u32, u32)>) -> (r: Option<KnownAspectRatio>)
        ensures
            r.is_some() <==> resolved(self, observed).is_some(),
            r.is_some() ==> resolved(self, observed) == Some(
                (r.unwrap().width as int, r.unwrap().height as int),
            ),
    {
        match self {
            AspectRatio::Outer { width, height } => Some(KnownAspectRatio { width, height }),
            AspectRatio::Env => match observed {
                Some((w, h)) => Some(KnownAspectRatio { width: w, height: h }),
                None => None,
            },
            AspectRatio::EnvWidth { ratio_width, ratio_height } => match observed {
                Some((w, _h)) => Some(
                    KnownAspectRatio { width: w, height: derive_side(w, ratio_height, ratio_width) },
                ),
                None => None,
            },
            AspectRatio::EnvHeight { ratio_width, ratio_height } => match observed {
                Some((_w, h)) => Some(
                    KnownAspectRatio { width: derive_side(h, ratio_width, ratio_height), height: h },
                ),
                None => None,
            },
        }
    }
}

impl KnownAspectRatio {
    /// The outer rectangle, at the origin.
    pub fn bounds(&self) -> (r: Bounds)
        ensures
            r@ == (Rect { top: 0, left: 0, right: self.width as int, bottom: self.height as int }),
    {
        Bounds::new(self.width, self.height)
    }
}

} // verus!
