use crate::projection::PositionRange;
use vstd::prelude::*;

verus! {

/// `lo` and `hi` are the smallest and largest of `s`.
pub open spec fn is_extent(s: Seq<i64>, lo: i64, hi: i64) -> bool {
    &&& exists|i: int| 0 <= i < s.len() && s[i] == lo
    &&& exists|i: int| 0 <= i < s.len() && s[i] == hi
    &&& forall|i: int| 0 <= i < s.len() ==> lo <= #[trigger] s[i] <= hi
}

/// Some visible line has a value.
pub open spec fn any_visible_value(lines: Seq<Vec<i64>>, visible: Seq<bool>) -> bool {
    exists|j: int| 0 <= j < lines.len() && visible[j] && (#[trigger] lines[j])@.len() > 0
}

/// `lo` and `hi` are the smallest and largest values over the visible lines.
pub open spec fn is_visible_extent(lines: Seq<Vec<i64>>, visible: Seq<bool>, lo: i64, hi: i64) -> bool {
    &&& exists|j: int, k: int|
        0 <= j < lines.len() && visible[j] && 0 <= k < lines[j]@.len() && lines[j]@[k] == lo
    &&& exists|j: int, k: int|
        0 <= j < lines.len() && visible[j] && 0 <= k < lines[j]@.len() && lines[j]@[k] == hi
    &&& forall|j: int, k: int|
        0 <= j < lines.len() && visible[j] && 0 <= k < lines[j]@.len() ==> lo <= #[trigger] lines[j]@[k]
            <= hi
}

/// The smallest and largest value of `v`, if it has any.
pub fn extent(v: &Vec<i64>) -> (r: Option<(i64, i64)>)
    ensures
        r.is_some() <==> v.len() > 0,
        r.is_some() ==> is_extent(v@, r.unwrap().0, r.unwrap().1),
{
    if v.len() == 0 {
        return None;
    }
    let mut lo = v[0];
    let mut hi = v[0];
    let mut i: usize = 1;
    while i < v.len()
        invariant
            1 <= i <= v.len(),
            exists|k: int| 0 <= k < i && v@[k] == lo,
            exists|k: int| 0 <= k < i && v@[k] == hi,
            forall|k: int| 0 <= k < i ==> lo <= #[trigger] v@[k] <= hi,
        decreases v.len() - i,
    {
        if v[i] < lo {
            lo = v[i];
        }
        if v[i] > hi {
            hi = v[i];
        }
        i += 1;
    }
    Some((lo, hi))
}

/// The data range of a chart: x over every row, y over the values of the
/// visible lines. `None` while there are no rows or no visible values.
pub fn position_range(xs: &Vec<i64>, lines: &Vec<Vec<i64>>, visible: &Vec<bool>) -> (r: Option<
    PositionRange,
>)
    requires
        visible.len() == lines.len(),
    ensures
        r.is_some() <==> (xs.len() > 0 && any_visible_value(lines@, visible@)),
        r.is_some() ==> is_extent(xs@, r.unwrap().x_min, r.unwrap().x_max),
        r.is_some() ==> is_visible_extent(lines@, visible@, r.unwrap().y_min, r.unwrap().y_max),
{
    let mut ys: Option<(i64, i64)> = None;
    let ghost mut wlo: (int, int) = (0, 0);
    let ghost mut whi: (int, int) = (0, 0);
    let mut j: usize = 0;
    while j < lines.len()
        invariant
            j <= lines.len(),
            visible.len() == lines.len(),
            ys.is_some() <==> exists|a: int|
                0 <= a < j && visible@[a] && (#[trigger] lines@[a])@.len() > 0,
            ys.is_some() ==> {
                &&& 0 <= wlo.0 < j && visible@[wlo.0] && 0 <= wlo.1 < lines@[wlo.0]@.len()
                &&& lines@[wlo.0]@[wlo.1] == ys.unwrap().0
                &&& 0 <= whi.0 < j && visible@[whi.0] && 0 <= whi.1 < lines@[whi.0]@.len()
                &&& lines@[whi.0]@[whi.1] == ys.unwrap().1
                &&& forall|a: int, k: int|
                    0 <= a < j && visible@[a] && 0 <= k < lines@[a]@.len() ==> ys.unwrap().0
                        <= #[trigger] lines@[a]@[k] <= ys.unwrap().1
            },
        decreases lines.len() - j,
    {
        if visible[j] {
            match extent(&lines[j]) {
                Some((lo, hi)) => {
                    let ghost ilo = choose|k: int| 0 <= k < lines@[j as int]@.len() && lines@[j as int]@[k] == lo;
                    let ghost ihi = choose|k: int| 0 <= k < lines@[j as int]@.len() && lines@[j as int]@[k] == hi;
                    let merged = match ys {
                        Some((a, b)) => {
                            if lo < a {
                                proof { wlo = (j as int, ilo); }
                            }
                            if hi > b {
                                proof { whi = (j as int, ihi); }
                            }
                            (if lo < a { lo } else { a }, if hi > b { hi } else { b })
                        },
                        None => {
                            proof {
                                wlo = (j as int, ilo);
                                whi = (j as int, ihi);
                            }
                            (lo, hi)
                        },
                    };
                    ys = Some(merged);
                },
                None => {},
            }
        }
        j += 1;
    }
    match (extent(xs), ys) {
        (Some((x_min, x_max)), Some((y_min, y_max))) => Some(
            PositionRange { x_min, x_max, y_min, y_max },
        ),
        _ => None,
    }
}

} // verus!
