use crate::bounds::{max_int, min_int, Bounds, Rect};
use vstd::prelude::*;

verus! {

/// Sum of the first `n` thicknesses.
pub open spec fn sum_to(s: Seq<u32>, n: int) -> int
    decreases n,
{
    if n <= 0 || n > s.len() {
        0
    } else {
        sum_to(s, n - 1) + s[n - 1]
    }
}

/// Sum of all thicknesses on one side.
pub open spec fn total(s: Seq<u32>) -> int {
    sum_to(s, s.len() as int)
}

/// The position reached after stacking the first `i` thicknesses from
/// `start`, stopping at `limit`.
pub open spec fn stacked(start: int, limit: int, s: Seq<u32>, i: int) -> int {
    min_int(start + sum_to(s, i), limit)
}

/// The position reached after taking the first `i` thicknesses off `start`,
/// stopping at `limit`.
pub open spec fn unstacked(start: int, limit: int, s: Seq<u32>, i: int) -> int {
    max_int(start - sum_to(s, i), limit)
}

/// The plot area left once every side's components are taken off `outer`.
pub open spec fn composed_inner(
    outer: Rect,
    top: Seq<u32>,
    right: Seq<u32>,
    bottom: Seq<u32>,
    left: Seq<u32>,
) -> Rect {
    outer.shrink(total(top), total(right), total(bottom), total(left))
}

/// Slice `i` of a horizontal stack: rows from `start` towards `limit`, spanning
/// the inner rectangle horizontally.
pub open spec fn row_slice(inner: Rect, start: int, limit: int, s: Seq<u32>, i: int) -> Rect {
    Rect {
        top: stacked(start, limit, s, i),
        bottom: stacked(start, limit, s, i + 1),
        left: inner.left,
        right: inner.right,
    }
}

/// Slice `i` of a vertical stack: columns from `start` towards `limit`,
/// spanning the inner rectangle vertically.
pub open spec fn column_slice(inner: Rect, start: int, limit: int, s: Seq<u32>, i: int) -> Rect {
    Rect {
        left: stacked(start, limit, s, i),
        right: stacked(start, limit, s, i + 1),
        top: inner.top,
        bottom: inner.bottom,
    }
}

/// Slice `i` of a horizontal stack built upwards: rows from `start` towards
/// `limit`, spanning the inner rectangle horizontally.
pub open spec fn row_slice_up(inner: Rect, start: int, limit: int, s: Seq<u32>, i: int) -> Rect {
    Rect {
        top: unstacked(start, limit, s, i + 1),
        bottom: unstacked(start, limit, s, i),
        left: inner.left,
        right: inner.right,
    }
}

/// Slice `i` of a vertical stack built leftwards: columns from `start`
/// towards `limit`, spanning the inner rectangle vertically.
pub open spec fn column_slice_left(inner: Rect, start: int, limit: int, s: Seq<u32>, i: int) -> Rect {
    Rect {
        left: unstacked(start, limit, s, i + 1),
        right: unstacked(start, limit, s, i),
        top: inner.top,
        bottom: inner.bottom,
    }
}

/// The rectangles that composition assigns: the plot area and one slice per
/// edge component, in the order the components were given.
#[derive(Clone, Debug, PartialEq, Eq)]
pub struct Layout {
    pub outer: Bounds,
    pub inner: Bounds,
    pub top: Vec<Bounds>,
    pub right: Vec<Bounds>,
    pub bottom: Vec<Bounds>,
    pub left: Vec<Bounds>,
}

/// `min(total(s), cap)`, summed without overflow.
fn clamped_total(s: &Vec<u32>, cap: u32) -> (r: u32)
    ensures
        r == min_int(total(s@), cap as int),
{
    let mut acc: u32 = 0;
    let mut i: usize = 0;
    while i < s.len()
        invariant
            i <= s.len(),
            acc == min_int(sum_to(s@, i as int), cap as int),
        decreases s.len() - i,
    {
        proof {
            assert(sum_to(s@, i + 1) == sum_to(s@, i as int) + s@[i as int]);
        }
        acc = if (acc as u64) + (s[i] as u64) <= cap as u64 {
            acc + s[i]
        } else {
            cap
        };
        i += 1;
    }
    acc
}

/// Rows stacked downwards from `start`, never past `limit`, spanning the
/// horizontal extent of `span`.
fn stack_rows(span: Bounds, start: u32, limit: u32, s: &Vec<u32>) -> (r: Vec<Bounds>)
    requires
        start <= limit,
    ensures
        r.len() == s.len(),
        forall|i: int|
            0 <= i < s.len() ==> #[trigger] r[i]@ == row_slice(span@, start as int, limit as int, s@, i),
{
    proof { span.lemma_wf(); }
    let mut r: Vec<Bounds> = Vec::new();
    let mut acc: u32 = start;
    let mut i: usize = 0;
    while i < s.len()
        invariant
            i <= s.len(),
            r.len() == i,
            span@.wf(),
            start <= acc <= limit,
            acc == stacked(start as int, limit as int, s@, i as int),
            forall|j: int|
                0 <= j < i ==> #[trigger] r[j]@ == row_slice(span@, start as int, limit as int, s@, j),
        decreases s.len() - i,
    {
        proof {
            assert(sum_to(s@, i + 1) == sum_to(s@, i as int) + s@[i as int]);
        }
        let next: u32 = if (acc as u64) + (s[i] as u64) <= limit as u64 {
            acc + s[i]
        } else {
            limit
        };
        let b = Bounds::from_points(span.left_x(), acc, span.right_x(), next);
        r.push(b);
        proof {
            assert(r[i as int]@ == b@);
        }
        acc = next;
        i += 1;
    }
    r
}

/// Columns stacked rightwards from `start`, never past `limit`, spanning the
/// vertical extent of `span`.
fn stack_columns(span: Bounds, start: u32, limit: u32, s: &Vec<u32>) -> (r: Vec<Bounds>)
    requires
        start <= limit,
    ensures
        r.len() == s.len(),
        forall|i: int|
            0 <= i < s.len() ==> #[trigger] r[i]@ == column_slice(span@, start as int, limit as int, s@, i),
{
    proof { span.lemma_wf(); }
    let mut r: Vec<Bounds> = Vec::new();
    let mut acc: u32 = start;
    let mut i: usize = 0;
    while i < s.len()
        invariant
            i <= s.len(),
            r.len() == i,
            span@.wf(),
            start <= acc <= limit,
            acc == stacked(start as int, limit as int, s@, i as int),
            forall|j: int|
                0 <= j < i ==> #[trigger] r[j]@ == column_slice(span@, start as int, limit as int, s@, j),
        decreases s.len() - i,
    {
        proof {
            assert(sum_to(s@, i + 1) == sum_to(s@, i as int) + s@[i as int]);
        }
        let next: u32 = if (acc as u64) + (s[i] as u64) <= limit as u64 {
            acc + s[i]
        } else {
            limit
        };
        let b = Bounds::from_points(acc, span.top_y(), next, span.bottom_y());
        r.push(b);
        proof {
            assert(r[i as int]@ == b@);
        }
        acc = next;
        i += 1;
    }
    r
}

/// Rows stacked upwards from `start`, never past `limit`, spanning the
/// horizontal extent of `span`.
fn stack_rows_up(span: Bounds, start: u32, limit: u32, s: &Vec<u32>) -> (r: Vec<Bounds>)
    requires
        limit <= start,
    ensures
        r.len() == s.len(),
        forall|i: int|
            0 <= i < s.len() ==> #[trigger] r[i]@ == row_slice_up(span@, start as int, limit as int, s@, i),
{
    proof { span.lemma_wf(); }
    let mut r: Vec<Bounds> = Vec::new();
    let mut acc: u32 = start;
    let mut i: usize = 0;
    while i < s.len()
        invariant
            i <= s.len(),
            r.len() == i,
            span@.wf(),
            limit <= acc <= start,
            acc == unstacked(start as int, limit as int, s@, i as int),
            forall|j: int|
                0 <= j < i ==> #[trigger] r[j]@ == row_slice_up(span@, start as int, limit as int, s@, j),
        decreases s.len() - i,
    {
        proof {
            assert(sum_to(s@, i + 1) == sum_to(s@, i as int) + s@[i as int]);
        }
        let next: u32 = if s[i] <= acc - limit {
            acc - s[i]
        } else {
            limit
        };
        let b = Bounds::from_points(span.left_x(), next, span.right_x(), acc);
        r.push(b);
        proof {
            assert(r[i as int]@ == b@);
        }
        acc = next;
        i += 1;
    }
    r
}

/// Columns stacked leftwards from `start`, never past `limit`, spanning the
/// vertical extent of `span`.
fn stack_columns_left(span: Bounds, start: u32, limit: u32, s: &Vec<u32>) -> (r: Vec<Bounds>)
    requires
        limit <= start,
    ensures
        r.len() == s.len(),
        forall|i: int|
            0 <= i < s.len() ==> #[trigger] r[i]@ == column_slice_left(span@, start as int, limit as int, s@, i),
{
    proof { span.lemma_wf(); }
    let mut r: Vec<Bounds> = Vec::new();
    let mut acc: u32 = start;
    let mut i: usize = 0;
    while i < s.len()
        invariant
            i <= s.len(),
            r.len() == i,
            span@.wf(),
            limit <= acc <= start,
            acc == unstacked(start as int, limit as int, s@, i as int),
            forall|j: int|
                0 <= j < i ==> #[trigger] r[j]@ == column_slice_left(span@, start as int, limit as int, s@, j),
        decreases s.len() - i,
    {
        proof {
            assert(sum_to(s@, i + 1) == sum_to(s@, i as int) + s@[i as int]);
        }
        let next: u32 = if s[i] <= acc - limit {
            acc - s[i]
        } else {
            limit
        };
        let b = Bounds::from_points(next, span.top_y(), acc, span.bottom_y());
        r.push(b);
        proof {
            assert(r[i as int]@ == b@);
        }
        acc = next;
        i += 1;
    }
    r
}

/// Taking margins off a rectangle gives the same result whether or not each
/// margin is first capped at the extent it is taken from.
proof fn lemma_shrink_capped(b: Rect, top: int, right: int, bottom: int, left: int)
    requires
        b.wf(),
        top >= 0,
        right >= 0,
        bottom >= 0,
        left >= 0,
    ensures
        b.shrink(
            min_int(top, b.height()),
            min_int(right, b.width()),
            min_int(bottom, b.height()),
            min_int(left, b.width()),
        ) == b.shrink(top, right, bottom, left),
{
}

/// Composes the edge components around `outer`.
///
/// Each list holds the thickness of one side's components, outermost first.
/// The plot area is `outer` less every side's total thickness. On every side
/// the first component touches the outer edge and each next one lies against
/// the previous one, towards the plot area. Every slice spans the plot area
/// along its side, and a side that runs out of room gives the remaining
/// components zero thickness.
pub fn compose(
    outer: Bounds,
    top: &Vec<u32>,
    right: &Vec<u32>,
    bottom: &Vec<u32>,
    left: &Vec<u32>,
) -> (r: Layout)
    ensures
        r.outer == outer,
        r.inner@ == composed_inner(outer@, top@, right@, bottom@, left@),
        r.top.len() == top.len(),
        r.right.len() == right.len(),
        r.bottom.len() == bottom.len(),
        r.left.len() == left.len(),
        forall|i: int|
            0 <= i < top.len() ==> #[trigger] r.top[i]@ == row_slice(
                r.inner@,
                outer@.top,
                r.inner@.top,
                top@,
                i,
            ),
        forall|i: int|
            0 <= i < bottom.len() ==> #[trigger] r.bottom[i]@ == row_slice_up(
                r.inner@,
                outer@.bottom,
                r.inner@.bottom,
                bottom@,
                i,
            ),
        forall|i: int|
            0 <= i < left.len() ==> #[trigger] r.left[i]@ == column_slice(
                r.inner@,
                outer@.left,
                r.inner@.left,
                left@,
                i,
            ),
        forall|i: int|
            0 <= i < right.len() ==> #[trigger] r.right[i]@ == column_slice_left(
                r.inner@,
                outer@.right,
                r.inner@.right,
                right@,
                i,
            ),
        top.len() > 0 ==> r.top[0]@.top == outer@.top,
        bottom.len() > 0 ==> r.bottom[0]@.bottom == outer@.bottom,
        left.len() > 0 ==> r.left[0]@.left == outer@.left,
        right.len() > 0 ==> r.right[0]@.right == outer@.right,
        forall|i: int| 0 < i < top.len() ==> #[trigger] r.top[i]@.top == r.top[i - 1]@.bottom,
        forall|i: int|
            0 < i < bottom.len() ==> #[trigger] r.bottom[i]@.bottom == r.bottom[i - 1]@.top,
        forall|i: int| 0 < i < left.len() ==> #[trigger] r.left[i]@.left == r.left[i - 1]@.right,
        forall|i: int| 0 < i < right.len() ==> #[trigger] r.right[i]@.right == r.right[i - 1]@.left,
{
    proof {
        outer.lemma_wf();
        lemma_total_nonneg(top@);
        lemma_total_nonneg(right@);
        lemma_total_nonneg(bottom@);
        lemma_total_nonneg(left@);
        lemma_shrink_capped(outer@, total(top@), total(right@), total(bottom@), total(left@));
    }
    let height = outer.height();
    let width = outer.width();
    let t = clamped_total(top, height);
    let rt = clamped_total(right, width);
    let b = clamped_total(bottom, height);
    let l = clamped_total(left, width);
    let inner = outer.shrink(t, rt, b, l);
    let top_slices = stack_rows(inner, outer.top_y(), inner.top_y(), top);
    let bottom_slices = stack_rows_up(inner, outer.bottom_y(), inner.bottom_y(), bottom);
    let left_slices = stack_columns(inner, outer.left_x(), inner.left_x(), left);
    let right_slices = stack_columns_left(inner, outer.right_x(), inner.right_x(), right);
    proof {
        inner.lemma_wf();
        assert(outer@.contains(inner@));
        assert(sum_to(top@, 0) == 0);
        assert(sum_to(bottom@, 0) == 0);
        assert(sum_to(left@, 0) == 0);
        assert(sum_to(right@, 0) == 0);
    }
    Layout {
        outer,
        inner,
        top: top_slices,
        right: right_slices,
        bottom: bottom_slices,
        left: left_slices,
    }
}

/// Every prefix sum of thicknesses is non-negative and at most the total.
pub proof fn lemma_sum_to_mono(s: Seq<u32>, i: int, j: int)
    requires
        0 <= i <= j <= s.len(),
    ensures
        0 <= sum_to(s, i) <= sum_to(s, j),
    decreases j - i,
{
    if i < j {
        lemma_sum_to_mono(s, i, j - 1);
    } else {
        lemma_sum_nonneg(s, i);
    }
}

proof fn lemma_sum_nonneg(s: Seq<u32>, n: int)
    ensures
        sum_to(s, n) >= 0,
    decreases n,
{
    if n > 0 && n <= s.len() {
        lemma_sum_nonneg(s, n - 1);
    }
}

proof fn lemma_total_nonneg(s: Seq<u32>)
    ensures
        total(s) >= 0,
{
    lemma_sum_nonneg(s, s.len() as int);
}

/// A side with no components takes nothing off the outer rectangle: the plot
/// area's edge on that side is the outer rectangle's edge.
pub proof fn lemma_empty_side_is_identity(
    outer: Rect,
    top: Seq<u32>,
    right: Seq<u32>,
    bottom: Seq<u32>,
    left: Seq<u32>,
)
    requires
        outer.wf(),
    ensures
        top.len() == 0 ==> composed_inner(outer, top, right, bottom, left).top == outer.top,
        right.len() == 0 ==> composed_inner(outer, top, right, bottom, left).right == outer.right,
        bottom.len() == 0 ==> composed_inner(outer, top, right, bottom, left).bottom
            == outer.bottom,
        left.len() == 0 ==> composed_inner(outer, top, right, bottom, left).left == outer.left,
{
    lemma_total_nonneg(top);
    lemma_total_nonneg(right);
    lemma_total_nonneg(bottom);
    lemma_total_nonneg(left);
}

/// Each slice is well formed, lies inside the outer rectangle, and stays on
/// its own side of the plot area: top slices above it, bottom slices below it,
/// left slices to its left and right slices to its right. Consecutive slices
/// on one side meet without overlapping, by the definition of a slice.
pub proof fn lemma_slices_placed(
    outer: Rect,
    top: Seq<u32>,
    right: Seq<u32>,
    bottom: Seq<u32>,
    left: Seq<u32>,
)
    requires
        outer.wf(),
    ensures
        ({
            let inner = composed_inner(outer, top, right, bottom, left);
            &&& outer.contains(inner)
            &&& forall|i: int|
                0 <= i < top.len() ==> {
                    let b = #[trigger] row_slice(inner, outer.top, inner.top, top, i);
                    b.wf() && outer.contains(b) && b.bottom <= inner.top
                }
            &&& forall|i: int|
                0 <= i < bottom.len() ==> {
                    let b = #[trigger] row_slice_up(inner, outer.bottom, inner.bottom, bottom, i);
                    b.wf() && outer.contains(b) && inner.bottom <= b.top
                }
            &&& forall|i: int|
                0 <= i < left.len() ==> {
                    let b = #[trigger] column_slice(inner, outer.left, inner.left, left, i);
                    b.wf() && outer.contains(b) && b.right <= inner.left
                }
            &&& forall|i: int|
                0 <= i < right.len() ==> {
                    let b = #[trigger] column_slice_left(inner, outer.right, inner.right, right, i);
                    b.wf() && outer.contains(b) && inner.right <= b.left
                }
        }),
{
    lemma_total_nonneg(top);
    lemma_total_nonneg(right);
    lemma_total_nonneg(bottom);
    lemma_total_nonneg(left);
    crate::bounds::lemma_shrink(outer, total(top), total(right), total(bottom), total(left));
    assert forall|i: int| 0 <= i < top.len() implies 0 <= #[trigger] sum_to(top, i) <= sum_to(top, i + 1) by {
        lemma_sum_to_mono(top, i, i + 1);
    }
    assert forall|i: int| 0 <= i < bottom.len() implies 0 <= #[trigger] sum_to(bottom, i) <= sum_to(
        bottom,
        i + 1,
    ) by {
        lemma_sum_to_mono(bottom, i, i + 1);
    }
    assert forall|i: int| 0 <= i < left.len() implies 0 <= #[trigger] sum_to(left, i) <= sum_to(left, i + 1) by {
        lemma_sum_to_mono(left, i, i + 1);
    }
    assert forall|i: int| 0 <= i < right.len() implies 0 <= #[trigger] sum_to(right, i) <= sum_to(
        right,
        i + 1,
    ) by {
        lemma_sum_to_mono(right, i, i + 1);
    }
}

/// The top and bottom lists decide only the plot area's vertical extent and
/// the left and right lists only its horizontal extent, so either pair can be
/// changed without moving the other pair's edges.
pub proof fn lemma_sides_independent(
    outer: Rect,
    top: Seq<u32>,
    right: Seq<u32>,
    bottom: Seq<u32>,
    left: Seq<u32>,
    top2: Seq<u32>,
    right2: Seq<u32>,
    bottom2: Seq<u32>,
    left2: Seq<u32>,
)
    ensures
        composed_inner(outer, top, right, bottom, left).left == composed_inner(
            outer,
            top2,
            right,
            bottom2,
            left,
        ).left,
        composed_inner(outer, top, right, bottom, left).right == composed_inner(
            outer,
            top2,
            right,
            bottom2,
            left,
        ).right,
        composed_inner(outer, top, right, bottom, left).top == composed_inner(
            outer,
            top,
            right2,
            bottom,
            left2,
        ).top,
        composed_inner(outer, top, right, bottom, left).bottom == composed_inner(
            outer,
            top,
            right2,
            bottom,
            left2,
        ).bottom,
{
}

} // verus!
