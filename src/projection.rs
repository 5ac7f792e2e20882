use crate::bounds::Bounds;
use vstd::arithmetic::div_mod::{
    lemma_div_is_ordered, lemma_fundamental_div_mod, lemma_fundamental_div_mod_converse,
    lemma_mod_bound,
};
use vstd::prelude::*;

verus! {

/// The data-space extent of a chart: the smallest and largest position on
/// each axis.
#[derive(Clone, Copy, Debug, PartialEq, Eq)]
pub struct PositionRange {
    pub x_min: i64,
    pub x_max: i64,
    pub y_min: i64,
    pub y_max: i64,
}

/// Where data value `v` lands on a pixel span of `len` from `start`, for the
/// data range `[min, max]`. A range with no extent maps every value to the
/// middle of the span.
pub open spec fn project(v: int, min: int, max: int, start: int, len: int) -> int {
    if max <= min {
        start + len / 2
    } else {
        start + (v - min) * len / (max - min)
    }
}

/// The data value at pixel `p` of a span of `len` from `start`, for the data
/// range `[min, max]`. With no extent on either side every pixel maps to `min`.
pub open spec fn unproject(p: int, min: int, max: int, start: int, len: int) -> int {
    if max <= min || len <= 0 {
        min
    } else {
        min + (p - start) * (max - min) / len
    }
}

/// Floor division of `n` by a positive `d`.
pub(crate) fn floor_div(n: i128, d: i128) -> (r: i128)
    requires
        d > 0,
        -0x1_0000_0000_0000_0000_0000_0000_0000 < n < 0x1_0000_0000_0000_0000_0000_0000_0000,
        d < 0x1_0000_0000_0000_0000_0000_0000_0000,
    ensures
        r == n / d,
        n >= 0 ==> 0 <= r <= n,
        n < 0 ==> n <= r < 0,
{
    if n >= 0 {
        proof {
            assert(n / d <= n) by (nonlinear_arith)
                requires
                    n >= 0,
                    d >= 1,
            ;
            assert(n / d >= 0) by (nonlinear_arith)
                requires
                    n >= 0,
                    d >= 1,
            ;
        }
        n / d
    } else {
        let m: i128 = -n;
        let q: i128 = (m + d - 1) / d;
        proof {
            let x = m + d - 1;
            lemma_fundamental_div_mod(x as int, d as int);
            lemma_mod_bound(x as int, d as int);
            let rem = x % (d as int);
            assert(n == (-q) * d + (d - 1 - rem)) by (nonlinear_arith)
                requires
                    x == d * q + rem,
                    x == m + d - 1,
                    n == -m,
            ;
            lemma_fundamental_div_mod_converse(n as int, d as int, -q, d - 1 - rem);
            assert(n <= -q < 0) by (nonlinear_arith)
                requires
                    n == (-q) * d + (d - 1 - rem),
                    0 <= d - 1 - rem < d,
                    n < 0,
                    d >= 1,
            ;
        }
        -q
    }
}

proof fn lemma_product_bound(a: int, b: int, bound_a: int, bound_b: int)
    requires
        -bound_a <= a <= bound_a,
        0 <= b <= bound_b,
    ensures
        -(bound_a * bound_b) <= a * b <= bound_a * bound_b,
{
    assert(-(bound_a * bound_b) <= a * b <= bound_a * bound_b) by (nonlinear_arith)
        requires
            -bound_a <= a <= bound_a,
            0 <= b <= bound_b,
    ;
}

/// `(v - min) * len` divided by the range's extent, rounded down.
fn scale(off: i128, len: u32, extent: u64) -> (r: i128)
    requires
        extent > 0,
        -0x1_0000_0000_0000_0000 <= off <= 0x1_0000_0000_0000_0000,
    ensures
        r == (off as int) * (len as int) / (extent as int),
        -0x1_0000_0000_0000_0000_0000_0000 <= r <= 0x1_0000_0000_0000_0000_0000_0000,
{
    proof {
        lemma_product_bound(off as int, len as int, 0x1_0000_0000_0000_0000, 0x1_0000_0000);
    }
    let n: i128 = off * (len as i128);
    floor_div(n, extent as i128)
}

/// A mapping between data space and the pixels of the plot area. Data values
/// grow rightwards on the x axis and upwards on the y axis.
#[derive(Clone, Copy, Debug, PartialEq, Eq)]
pub struct Projection {
    pub inner: Bounds,
    pub range: PositionRange,
}

impl Projection {
    pub fn new(inner: Bounds, range: PositionRange) -> (r: Projection)
        ensures
            r.inner == inner,
            r.range == range,
    {
        Projection { inner, range }
    }

    /// The pixel column of data value `x`.
    pub fn to_pixel_x(&self, x: i64) -> (r: i128)
        ensures
            r == project(
                x as int,
                self.range.x_min as int,
                self.range.x_max as int,
                self.inner@.left,
                self.inner@.width(),
            ),
    {
        let left = self.inner.left_x();
        let width = self.inner.width();
        if self.range.x_max <= self.range.x_min {
            left as i128 + (width / 2) as i128
        } else {
            let extent = (self.range.x_max as i128 - self.range.x_min as i128) as u64;
            let off = x as i128 - self.range.x_min as i128;
            left as i128 + scale(off, width, extent)
        }
    }

    /// The pixel row of data value `y`: the bottom of the plot area less the
    /// value's offset along the span.
    pub fn to_pixel_y(&self, y: i64) -> (r: i128)
        ensures
            r == self.inner@.bottom - project(
                y as int,
                self.range.y_min as int,
                self.range.y_max as int,
                0,
                self.inner@.height(),
            ),
    {
        let bottom = self.inner.bottom_y();
        let height = self.inner.height();
        if self.range.y_max <= self.range.y_min {
            bottom as i128 - (height / 2) as i128
        } else {
            let extent = (self.range.y_max as i128 - self.range.y_min as i128) as u64;
            let off = y as i128 - self.range.y_min as i128;
            bottom as i128 - scale(off, height, extent)
        }
    }

    /// The data x value at pixel column `px`, rounded down.
    pub fn to_data_x(&self, px: u32) -> (r: i128)
        ensures
            r == unproject(
                px as int,
                self.range.x_min as int,
                self.range.x_max as int,
                self.inner@.left,
                self.inner@.width(),
            ),
    {
        let left = self.inner.left_x();
        let width = self.inner.width();
        if self.range.x_max <= self.range.x_min || width == 0 {
            self.range.x_min as i128
        } else {
            let extent = (self.range.x_max as i128 - self.range.x_min as i128) as u64;
            let off = px as i128 - left as i128;
            proof {
                lemma_product_bound(off as int, extent as int, 0x1_0000_0000, 0x1_0000_0000_0000_0000);
            }
            let n: i128 = off * (extent as i128);
            self.range.x_min as i128 + floor_div(n, width as i128)
        }
    }

    /// The data y value at pixel row `py`, rounded down.
    pub fn to_data_y(&self, py: u32) -> (r: i128)
        ensures
            r == unproject(
                self.inner@.bottom - py,
                self.range.y_min as int,
                self.range.y_max as int,
                0,
                self.inner@.height(),
            ),
    {
        let bottom = self.inner.bottom_y();
        let height = self.inner.height();
        if self.range.y_max <= self.range.y_min || height == 0 {
            self.range.y_min as i128
        } else {
            let extent = (self.range.y_max as i128 - self.range.y_min as i128) as u64;
            let off = bottom as i128 - py as i128;
            proof {
                lemma_product_bound(off as int, extent as int, 0x1_0000_0000, 0x1_0000_0000_0000_0000);
            }
            let n: i128 = off * (extent as i128);
            self.range.y_min as i128 + floor_div(n, height as i128)
        }
    }
}

/// A data range with no extent maps every value to the middle of the span,
/// whatever the value.
pub proof fn lemma_degenerate_range_is_constant(v: int, w: int, m: int, start: int, len: int)
    ensures
        project(v, m, m, start, len) == start + len / 2,
        project(v, m, m, start, len) == project(w, m, m, start, len),
{
}

/// Projection never reverses order: a larger data value lands at the same or
/// a later pixel.
pub proof fn lemma_project_monotonic(v: int, w: int, min: int, max: int, start: int, len: int)
    requires
        v <= w,
        len >= 0,
    ensures
        project(v, min, max, start, len) <= project(w, min, max, start, len),
{
    if max > min {
        assert((v - min) * len <= (w - min) * len) by (nonlinear_arith)
            requires
                v <= w,
                len >= 0,
        ;
        lemma_div_is_ordered((v - min) * len, (w - min) * len, max - min);
    }
}

/// A value inside the data range lands inside the pixel span.
pub proof fn lemma_project_in_span(v: int, min: int, max: int, start: int, len: int)
    requires
        min <= v <= max,
        len >= 0,
    ensures
        start <= project(v, min, max, start, len) <= start + len,
{
    if max > min {
        if len > 0 {
            lemma_round_trip(v, min, max, start, len);
        } else {
            assert((v - min) * len == 0) by (nonlinear_arith)
                requires
                    len == 0,
            ;
        }
    }
}

/// Round trip: for a value inside a non-degenerate data range and a span of
/// positive length, projecting to a pixel and back lands within the span, and
/// gives back the value itself or a value below it by less than one pixel's
/// worth of data, `(max - min) / len`, plus one.
pub proof fn lemma_round_trip(v: int, min: int, max: int, start: int, len: int)
    requires
        min <= v <= max,
        min < max,
        len > 0,
    ensures
        start <= project(v, min, max, start, len) <= start + len,
        unproject(project(v, min, max, start, len), min, max, start, len) <= v,
        (v - unproject(project(v, min, max, start, len), min, max, start, len)) * len < (max
            - min) + len,
{
    let d = max - min;
    let o = v - min;
    let q = o * len / d;
    let w = q * d / len;
    lemma_fundamental_div_mod(o * len, d);
    lemma_mod_bound(o * len, d);
    lemma_fundamental_div_mod(q * d, len);
    lemma_mod_bound(q * d, len);
    let r1 = (o * len) % d;
    let r2 = (q * d) % len;
    assert(0 <= q <= len) by (nonlinear_arith)
        requires
            o * len == d * q + r1,
            0 <= r1 < d,
            0 <= o <= d,
            len > 0,
            d > 0,
    ;
    assert(w <= o && (o - w) * len < d + len) by (nonlinear_arith)
        requires
            o * len == d * q + r1,
            q * d == len * w + r2,
            0 <= r1 < d,
            0 <= r2 < len,
            len > 0,
            d > 0,
    ;
    assert(project(v, min, max, start, len) == start + q);
    assert(unproject(start + q, min, max, start, len) == min + w);
}

} // verus!
