use crate::projection::{lemma_project_in_span, project, Projection};
use vstd::prelude::*;

verus! {

/// Number of decimal digits of a non-negative integer.
pub open spec fn digit_count(n: int) -> int
    decreases n,
{
    if n < 10 {
        1
    } else {
        1 + digit_count(n / 10)
    }
}

/// Characters in the decimal label of `v`: its digits and a leading minus sign
/// for a negative value.
pub open spec fn label_chars(v: int) -> int {
    if v < 0 {
        1 + digit_count(-v)
    } else {
        digit_count(v)
    }
}

proof fn lemma_digit_count_bound(n: int)
    requires
        0 <= n,
    ensures
        1 <= digit_count(n) <= n + 1,
    decreases n,
{
    if n >= 10 {
        lemma_digit_count_bound(n as int / 10);
    }
}

proof fn lemma_digit_count_monotonic(a: int, b: int)
    requires
        0 <= a <= b,
    ensures
        digit_count(a) <= digit_count(b),
    decreases b,
{
    if a >= 10 {
        vstd::arithmetic::div_mod::lemma_div_is_ordered(a, b, 10);
        lemma_digit_count_monotonic(a / 10, b / 10);
    } else if b >= 10 {
        lemma_digit_count_bound(b / 10);
    }
}

/// No value between two ends has a longer label than both ends.
pub proof fn lemma_end_labels_widest(v: int, min: int, max: int)
    requires
        min <= v <= max,
    ensures
        label_chars(v) <= max_label_chars(min, max),
{
    if v >= 0 {
        lemma_digit_count_monotonic(v, max);
    } else {
        lemma_digit_count_monotonic(-v, -min);
    }
}

pub open spec fn max_label_chars(min: int, max: int) -> int {
    if label_chars(min) >= label_chars(max) {
        label_chars(min)
    } else {
        label_chars(max)
    }
}

/// The number of characters of the decimal label of `v`.
pub fn label_len(v: i64) -> (r: u64)
    ensures
        r == label_chars(v as int),
        1 <= r <= 0x8000_0000_0000_0002,
{
    let neg = v < 0;
    let mut n: u128 = if neg { (-(v as i128)) as u128 } else { v as u128 };
    let ghost n0 = n as int;
    proof {
        lemma_digit_count_bound(n0);
    }
    let mut count: u64 = 1;
    while n >= 10
        invariant
            n0 <= 0x8000_0000_0000_0000,
            digit_count(n0) <= n0 + 1,
            1 <= count,
            count + digit_count(n as int) - 1 == digit_count(n0),
        decreases n,
    {
        proof {
            lemma_digit_count_bound(n as int / 10);
        }
        n = n / 10;
        count = count + 1;
    }
    if neg {
        count + 1
    } else {
        count
    }
}

} // verus!

verus! {

/// A tick on a horizontal axis: its data value, its pixel column, and the
/// columns its centred label covers.
#[derive(Clone, Copy, Debug, PartialEq, Eq)]
pub struct TickMark {
    pub value: i64,
    pub position: i128,
    pub label_start: i128,
    pub label_end: i128,
}

/// The tick sits where the projection puts its value, inside the data range,
/// with a label `label_chars(value)` characters wide centred on it.
pub open spec fn tick_placed(t: TickMark, proj: Projection, font_width: int) -> bool {
    &&& proj.range.x_min <= t.value <= proj.range.x_max
    &&& t.position == project(
        t.value as int,
        proj.range.x_min as int,
        proj.range.x_max as int,
        proj.inner@.left,
        proj.inner@.width(),
    )
    &&& t.label_start == t.position - (label_chars(t.value as int) * font_width) / 2
    &&& t.label_end == t.label_start + label_chars(t.value as int) * font_width
    &&& proj.inner@.left <= t.label_start
    &&& t.label_end <= proj.inner@.right
}

/// The label of value `v`, centred on its tick, lies inside the plot area's
/// horizontal span.
pub open spec fn label_fits_x(v: int, proj: Projection, font_width: int) -> bool {
    let pos = project(
        v,
        proj.range.x_min as int,
        proj.range.x_max as int,
        proj.inner@.left,
        proj.inner@.width(),
    );
    let w = label_chars(v) * font_width;
    proj.inner@.left <= pos - w / 2 && pos - w / 2 + w <= proj.inner@.right
}

/// Positions strictly increase and no label reaches into the next one.
pub open spec fn well_spaced(ts: Seq<TickMark>) -> bool {
    forall|i: int|
        0 <= i < ts.len() - 1 ==> (#[trigger] ts[i]).position < ts[i + 1].position
            && ts[i].label_end <= ts[i + 1].label_start
}

/// Ten to the power `k`.
pub open spec fn pow10(k: nat) -> int
    decreases k,
{
    if k == 0 {
        1
    } else {
        10 * pow10((k - 1) as nat)
    }
}

/// One, two or five times a power of ten.
pub open spec fn is_round(s: int) -> bool {
    exists|k: nat| s == #[trigger] pow10(k) || s == 2 * pow10(k) || s == 5 * pow10(k)
}

/// At step `s`, the `range / s + 1` labels of `label_width` pixels fit in
/// `len` pixels, or one step already covers the range.
pub open spec fn step_fits(range: int, len: int, label_width: int, s: int) -> bool {
    s >= range || (range / s + 1) * label_width <= len
}

/// Every round step below `r` fails `step_fits`.
pub open spec fn smaller_round_steps_fail(range: int, len: int, label_width: int, r: int) -> bool {
    forall|k: nat|
        {
            &&& #[trigger] pow10(k) < r ==> !step_fits(range, len, label_width, pow10(k))
            &&& 2 * pow10(k) < r ==> !step_fits(range, len, label_width, 2 * pow10(k))
            &&& 5 * pow10(k) < r ==> !step_fits(range, len, label_width, 5 * pow10(k))
        }
}

proof fn lemma_pow10_grows(a: nat, b: nat)
    requires
        a <= b,
    ensures
        1 <= pow10(a) <= pow10(b),
        a < b ==> 10 * pow10(a) <= pow10(b),
    decreases b,
{
    if b > 0 && a < b {
        lemma_pow10_grows(a, (b - 1) as nat);
    } else if a > 0 {
        lemma_pow10_grows((a - 1) as nat, (a - 1) as nat);
    }
}

/// A round step for a data range of extent `range` on `len` pixels with labels
/// `label_width` pixels wide: the smallest of 1, 2, 5, 10, 20, 50, ... at which the
/// labels fit, or at which one step covers the range.
pub fn nice_step(range: u64, len: u32, label_width: u64) -> (r: u128)
    ensures
        1 <= r <= 10 * (range as int) + 10,
        is_round(r as int),
        step_fits(range as int, len as int, label_width as int, r as int),
        smaller_round_steps_fail(range as int, len as int, label_width as int, r as int),
{
    let mut base: u128 = 1;
    let ghost mut e: nat = 0;
    while base <= range as u128
        invariant
            1 <= base <= 10 * (range as int) + 10,
            base == pow10(e),
            forall|k: nat|
                k < e ==> {
                    &&& !step_fits(range as int, len as int, label_width as int, #[trigger] pow10(k))
                    &&& !step_fits(range as int, len as int, label_width as int, 2 * pow10(k))
                    &&& !step_fits(range as int, len as int, label_width as int, 5 * pow10(k))
                },
        decreases 10 * (range as int) + 10 - base,
    {
        let mut k: usize = 0;
        while k < 3
            invariant
                1 <= base <= range as int,
                base == pow10(e),
                k <= 3,
                k >= 1 ==> !step_fits(range as int, len as int, label_width as int, base as int),
                k >= 2 ==> !step_fits(range as int, len as int, label_width as int, 2 * base),
                k >= 3 ==> !step_fits(range as int, len as int, label_width as int, 5 * base),
                forall|kk: nat|
                    kk < e ==> {
                        &&& !step_fits(range as int, len as int, label_width as int, #[trigger] pow10(kk))
                        &&& !step_fits(range as int, len as int, label_width as int, 2 * pow10(kk))
                        &&& !step_fits(range as int, len as int, label_width as int, 5 * pow10(kk))
                    },
            decreases 3 - k,
        {
            let m: u128 = if k == 0 {
                1
            } else if k == 1 {
                2
            } else {
                5
            };
            let s: u128 = base * m;
            let count: u128 = (range as u128) / s + 1;
            proof {
                assert(count <= 0x1_0000_0000_0000_0000) by (nonlinear_arith)
                    requires
                        count == range as int / (s as int) + 1,
                        s >= 1,
                        range <= 0xffff_ffff_ffff_ffff,
                ;
                assert(count * label_width <= 0x1_0000_0000_0000_0000 * 0xffff_ffff_ffff_ffff)
                    by (nonlinear_arith)
                    requires
                        0 <= count <= 0x1_0000_0000_0000_0000,
                        label_width <= 0xffff_ffff_ffff_ffff,
                ;
            }
            if s >= range as u128 || count * (label_width as u128) <= len as u128 {
                proof {
                    assert(s == pow10(e) || s == 2 * pow10(e) || s == 5 * pow10(e));
                    assert forall|kk: nat| #[trigger] pow10(kk) < s || true implies {
                        &&& pow10(kk) < s ==> !step_fits(range as int, len as int, label_width as int, pow10(kk))
                        &&& 2 * pow10(kk) < s ==> !step_fits(range as int, len as int, label_width as int, 2 * pow10(kk))
                        &&& 5 * pow10(kk) < s ==> !step_fits(range as int, len as int, label_width as int, 5 * pow10(kk))
                    } by {
                        if kk > e {
                            lemma_pow10_grows(e, kk);
                        } else if kk == e {
                        } else {
                        }
                    }
                }
                return s;
            }
            proof {
                assert(step_fits(range as int, len as int, label_width as int, s as int) == (s >= range
                    || (range as int / s as int + 1) * label_width <= len));
            }
            k += 1;
        }
        base = base * 10;
        proof {
            e = e + 1;
        }
    }
    proof {
        assert(base == pow10(e));
        assert forall|kk: nat| #[trigger] pow10(kk) < base || true implies {
            &&& pow10(kk) < base ==> !step_fits(range as int, len as int, label_width as int, pow10(kk))
            &&& 2 * pow10(kk) < base ==> !step_fits(range as int, len as int, label_width as int, 2 * pow10(kk))
            &&& 5 * pow10(kk) < base ==> !step_fits(range as int, len as int, label_width as int, 5 * pow10(kk))
        } by {
            if kk >= e {
                lemma_pow10_grows(e, kk);
            }
        }
    }
    base
}

/// The smallest multiple of `s` that is at least `a`.
pub open spec fn first_multiple(a: int, s: int) -> int {
    if a % s == 0 {
        a
    } else {
        a - a % s + s
    }
}

proof fn lemma_first_multiple(x: int, s: int, j: int)
    requires
        s > 0,
    ensures
        first_multiple(x, s) >= x,
        s * j >= x ==> s * j >= first_multiple(x, s),
        s * j < x ==> s * (j + 1) <= first_multiple(x, s),
{
    vstd::arithmetic::div_mod::lemma_fundamental_div_mod(x, s);
    vstd::arithmetic::div_mod::lemma_mod_bound(x, s);
    let q = x / s;
    let r = x % s;
    if r == 0 {
        assert(s * j >= x ==> s * j >= first_multiple(x, s));
        assert(s * j < x ==> s * (j + 1) <= first_multiple(x, s)) by (nonlinear_arith)
            requires
                x == s * q,
                s > 0,
                first_multiple(x, s) == x,
        ;
    } else {
        assert(first_multiple(x, s) == s * (q + 1)) by (nonlinear_arith)
            requires
                x == s * q + r,
                first_multiple(x, s) == x - r + s,
        ;
        assert(s * j >= x ==> s * j >= s * (q + 1)) by (nonlinear_arith)
            requires
                x == s * q + r,
                0 < r < s,
        ;
        assert(s * j < x ==> s * (j + 1) <= s * (q + 1)) by (nonlinear_arith)
            requires
                x == s * q + r,
                0 < r < s,
        ;
    }
}

/// Ticks at every multiple of `step` inside the data range, from the
/// smallest up, keeping each one only if its label lies inside the span, it
/// lies strictly after the last kept tick, and its label starts no earlier
/// than that tick's label ends.
pub fn generate_ticks(proj: &Projection, step: u128, font_width: u32) -> (r: Vec<TickMark>)
    requires
        1 <= step <= 0x10_0000_0000_0000_0000,
    ensures
        well_spaced(r@),
        forall|i: int| 0 <= i < r.len() ==> tick_placed(#[trigger] r[i], *proj, font_width as int),
        forall|i: int| 0 <= i < r.len() ==> (#[trigger] r[i]).value as int % step as int == 0,
        first_multiple(proj.range.x_min as int, step as int) <= proj.range.x_max && label_fits_x(
            first_multiple(proj.range.x_min as int, step as int),
            *proj,
            font_width as int,
        ) ==> r.len() > 0 && r[0].value == first_multiple(proj.range.x_min as int, step as int),
        proj.range.x_min <= 0 <= proj.range.x_max && label_fits_x(0, *proj, font_width as int)
            ==> r.len() > 0,
{
    let x_min = proj.range.x_min;
    let x_max = proj.range.x_max;
    let mut out: Vec<TickMark> = Vec::new();
    let ghost fm = first_multiple(x_min as int, step as int);
    let q = crate::projection::floor_div(x_min as i128, step as i128);
    proof {
        vstd::arithmetic::div_mod::lemma_fundamental_div_mod(x_min as int, step as int);
        vstd::arithmetic::div_mod::lemma_mod_bound(x_min as int, step as int);
        assert(x_min - step < q * step <= x_min) by (nonlinear_arith)
            requires
                x_min == step * q + (x_min as int) % (step as int),
                0 <= (x_min as int) % (step as int) < step,
        ;
    }
    let mut v: i128 = q * (step as i128);
    let ghost mut j: int = q as int;
    proof {
        lemma_first_multiple(x_min as int, step as int, j);
    }
    while v <= x_max as i128
        invariant
            v == step * j,
            fm == first_multiple(x_min as int, step as int),
            label_fits_x(fm, *proj, font_width as int) && out.len() == 0 ==> v <= fm,
            label_fits_x(fm, *proj, font_width as int) && out.len() > 0 ==> out[0].value == fm,
            x_min <= 0 && 0 < v && label_fits_x(0, *proj, font_width as int) ==> out.len() > 0,
            forall|i: int| 0 <= i < out.len() ==> (#[trigger] out[i]).value as int % step as int == 0,
            x_min == proj.range.x_min,
            x_max == proj.range.x_max,
            x_min - step < v,
            1 <= step <= 0x10_0000_0000_0000_0000,
            well_spaced(out@),
            forall|i: int|
                0 <= i < out.len() ==> tick_placed(#[trigger] out[i], *proj, font_width as int),
        decreases x_max + step - v,
    {
        proof {
            lemma_first_multiple(x_min as int, step as int, j);
            vstd::arithmetic::div_mod::lemma_mod_multiples_basic(j, step as int);
            assert(step * j == j * step) by (nonlinear_arith);
            assert(v < 0 ==> v + step <= 0) by (nonlinear_arith)
                requires
                    v == step * j,
                    step >= 1,
            ;
        }
        if v >= x_min as i128 {
            let value = v as i64;
            let pos = proj.to_pixel_x(value);
            proof {
                proj.inner.lemma_wf();
                lemma_project_in_span(
                    value as int,
                    x_min as int,
                    x_max as int,
                    proj.inner@.left,
                    proj.inner@.width(),
                );
                lemma_digit_count_bound(if value < 0 { -value } else { value as int });
                assert(label_chars(value as int) * font_width <= 0x8000_0000_0000_0002
                    * 0xffff_ffff) by (nonlinear_arith)
                    requires
                        1 <= label_chars(value as int) <= 0x8000_0000_0000_0002,
                        font_width <= 0xffff_ffff,
                ;
            }
            let w: i128 = (label_len(value) as i128) * (font_width as i128);
            let lo: i128 = pos - w / 2;
            let hi: i128 = lo + w;
            let t = TickMark { value, position: pos, label_start: lo, label_end: hi };
            let n = out.len();
            let fits = lo >= proj.inner.left_x() as i128 && hi <= proj.inner.right_x() as i128;
            if fits && (n == 0 || (pos > out[n - 1].position && lo >= out[n - 1].label_end)) {
                let ghost before = out@;
                out.push(t);
                proof {
                    assert(out@[n as int] == t);
                    assert(forall|i: int| 0 <= i < n ==> out@[i] == before[i]);
                }
            }
        }
        v = v + step as i128;
        proof {
            j = j + 1;
            assert(step * j == step * (j - 1) + step) by (nonlinear_arith);
        }
    }
    out
}

/// Ticks for the horizontal axis of `proj`, with labels of `font_width`
/// pixels per character: a round step chosen from the range, the span and the
/// widest end label, then spaced so that no two labels overlap and every
/// label lies inside the span. A range with
/// no extent or a span of no pixels gives at most one tick.
pub fn ticks(proj: &Projection, font_width: u32) -> (r: Vec<TickMark>)
    ensures
        well_spaced(r@),
        forall|i: int| 0 <= i < r.len() ==> tick_placed(#[trigger] r[i], *proj, font_width as int),
        proj.range.x_max <= proj.range.x_min || proj.inner@.width() == 0 ==> r.len() <= 1,
        proj.range.x_min <= 0 <= proj.range.x_max && label_fits_x(0, *proj, font_width as int)
            ==> r.len() > 0,
{
    let x_min = proj.range.x_min;
    let x_max = proj.range.x_max;
    let range: u64 = if x_max > x_min {
        (x_max as i128 - x_min as i128) as u64
    } else {
        0
    };
    let a = label_len(x_min);
    let b = label_len(x_max);
    let chars: u64 = if a >= b { a } else { b };
    proof {
        assert(chars * font_width <= 0x8000_0000_0000_0002 * 0xffff_ffff) by (nonlinear_arith)
            requires
                chars <= 0x8000_0000_0000_0002,
                font_width <= 0xffff_ffff,
        ;
    }
    let wide: u128 = (chars as u128) * (font_width as u128);
    let label_width: u64 = if wide > u64::MAX as u128 { u64::MAX } else { wide as u64 };
    let step = nice_step(range, proj.inner.width(), label_width);
    let r = generate_ticks(proj, step, font_width);
    proof {
        if r.len() >= 2 && (proj.range.x_max <= proj.range.x_min || proj.inner@.width() == 0) {
            let t0 = r[0];
            let t1 = r[1];
            assert(tick_placed(t0, *proj, font_width as int));
            assert(tick_placed(t1, *proj, font_width as int));
            if proj.range.x_max > proj.range.x_min {
                assert((t0.value - x_min) * 0 == 0);
                assert((t1.value - x_min) * 0 == 0);
            }
            assert(t0.position == t1.position);
            assert(false);
        }
    }
    r
}

} // verus!

verus! {

/// A tick on a vertical axis, with the rows its one-line label covers.
/// `tick_placed_y` says where it stands.
pub open spec fn tick_placed_y(t: TickMark, proj: Projection, font_height: int) -> bool {
    &&& proj.range.y_min <= t.value <= proj.range.y_max
    &&& t.position == proj.inner@.bottom - project(
        t.value as int,
        proj.range.y_min as int,
        proj.range.y_max as int,
        0,
        proj.inner@.height(),
    )
    &&& t.label_start == t.position - font_height / 2
    &&& t.label_end == t.label_start + font_height
    &&& proj.inner@.top <= t.label_start
    &&& t.label_end <= proj.inner@.bottom
}

/// The one-line label of value `v`, centred on its tick, lies inside the plot
/// area's vertical span.
pub open spec fn label_fits_y(v: int, proj: Projection, font_height: int) -> bool {
    let pos = proj.inner@.bottom - project(
        v,
        proj.range.y_min as int,
        proj.range.y_max as int,
        0,
        proj.inner@.height(),
    );
    proj.inner@.top <= pos - font_height / 2 && pos - font_height / 2 + font_height
        <= proj.inner@.bottom
}

/// The largest multiple of `s` that is at most `a`.
pub open spec fn last_multiple(a: int, s: int) -> int {
    a - a % s
}

/// Ticks for the vertical axis of `proj` at every multiple of `step` inside
/// the y range, from the largest down so that rows increase, keeping each one
/// only if its label, one line of `font_height` pixels, lies inside the span,
/// the tick lies strictly below the last kept tick, and its label starts no
/// earlier than that tick's label ends.
#[verifier::rlimit(60)]
pub fn generate_ticks_y(proj: &Projection, step: u128, font_height: u32) -> (r: Vec<TickMark>)
    requires
        1 <= step <= 0x10_0000_0000_0000_0000,
    ensures
        well_spaced(r@),
        forall|i: int| 0 <= i < r.len() ==> tick_placed_y(#[trigger] r[i], *proj, font_height as int),
        forall|i: int| 0 <= i < r.len() ==> (#[trigger] r[i]).value as int % step as int == 0,
        proj.range.y_min <= last_multiple(proj.range.y_max as int, step as int) && label_fits_y(
            last_multiple(proj.range.y_max as int, step as int),
            *proj,
            font_height as int,
        ) ==> r.len() > 0 && r[0].value == last_multiple(proj.range.y_max as int, step as int),
        proj.range.y_min <= 0 <= proj.range.y_max && label_fits_y(0, *proj, font_height as int)
            ==> r.len() > 0,
{
    let y_min = proj.range.y_min;
    let y_max = proj.range.y_max;
    let mut out: Vec<TickMark> = Vec::new();
    let q = crate::projection::floor_div(y_max as i128, step as i128);
    proof {
        vstd::arithmetic::div_mod::lemma_fundamental_div_mod(y_max as int, step as int);
        vstd::arithmetic::div_mod::lemma_mod_bound(y_max as int, step as int);
        assert(y_max - step < q * step <= y_max) by (nonlinear_arith)
            requires
                y_max == step * q + (y_max as int) % (step as int),
                0 <= (y_max as int) % (step as int) < step,
        ;
        assert(q * step == last_multiple(y_max as int, step as int));
    }
    let mut v: i128 = q * (step as i128);
    let ghost mut j: int = q as int;
    while v >= y_min as i128
        invariant
            y_min == proj.range.y_min,
            y_max == proj.range.y_max,
            v <= y_max,
            v == step * j,
            label_fits_y(last_multiple(y_max as int, step as int), *proj, font_height as int)
                && out.len() == 0 ==> v == last_multiple(y_max as int, step as int),
            label_fits_y(last_multiple(y_max as int, step as int), *proj, font_height as int)
                && out.len() > 0 ==> out[0].value == last_multiple(y_max as int, step as int),
            0 <= y_max && v < 0 && label_fits_y(0, *proj, font_height as int) ==> out.len() > 0,
            forall|i: int| 0 <= i < out.len() ==> (#[trigger] out[i]).value as int % step as int == 0,
            1 <= step <= 0x10_0000_0000_0000_0000,
            well_spaced(out@),
            forall|i: int|
                0 <= i < out.len() ==> tick_placed_y(#[trigger] out[i], *proj, font_height as int),
        decreases v - y_min + step,
    {
        proof {
            vstd::arithmetic::div_mod::lemma_mod_multiples_basic(j, step as int);
            assert(step * j == j * step) by (nonlinear_arith);
            assert(v > 0 ==> v - step >= 0) by (nonlinear_arith)
                requires
                    v == step * j,
                    step >= 1,
            ;
        }
        let value = v as i64;
        let pos = proj.to_pixel_y(value);
        proof {
            proj.inner.lemma_wf();
            lemma_project_in_span(
                value as int,
                y_min as int,
                y_max as int,
                0,
                proj.inner@.height(),
            );
        }
        let lo: i128 = pos - (font_height / 2) as i128;
        let hi: i128 = lo + font_height as i128;
        let t = TickMark { value, position: pos, label_start: lo, label_end: hi };
        let n = out.len();
        let fits = lo >= proj.inner.top_y() as i128 && hi <= proj.inner.bottom_y() as i128;
        if fits && (n == 0 || (pos > out[n - 1].position && lo >= out[n - 1].label_end)) {
            let ghost before = out@;
            out.push(t);
            proof {
                assert(out@[n as int] == t);
                assert(forall|i: int| 0 <= i < n ==> out@[i] == before[i]);
            }
        }
        v = v - step as i128;
        proof {
            j = j - 1;
            assert(step * j == step * (j + 1) - step) by (nonlinear_arith);
        }
    }
    out
}

/// Ticks for the vertical axis of `proj`, with one-line labels `font_height`
/// pixels high: a round step chosen from the range and the span, then spaced
/// so that no two labels overlap and every label lies inside the span. A range with no extent or a span of no
/// pixels gives at most one tick.
pub fn ticks_y(proj: &Projection, font_height: u32) -> (r: Vec<TickMark>)
    ensures
        well_spaced(r@),
        forall|i: int| 0 <= i < r.len() ==> tick_placed_y(#[trigger] r[i], *proj, font_height as int),
        proj.range.y_max <= proj.range.y_min || proj.inner@.height() == 0 ==> r.len() <= 1,
        proj.range.y_min <= 0 <= proj.range.y_max && label_fits_y(0, *proj, font_height as int)
            ==> r.len() > 0,
{
    let y_min = proj.range.y_min;
    let y_max = proj.range.y_max;
    let range: u64 = if y_max > y_min {
        (y_max as i128 - y_min as i128) as u64
    } else {
        0
    };
    let step = nice_step(range, proj.inner.height(), font_height as u64);
    let r = generate_ticks_y(proj, step, font_height);
    proof {
        if r.len() >= 2 && (proj.range.y_max <= proj.range.y_min || proj.inner@.height() == 0) {
            let t0 = r[0];
            let t1 = r[1];
            assert(tick_placed_y(t0, *proj, font_height as int));
            assert(tick_placed_y(t1, *proj, font_height as int));
            if proj.range.y_max > proj.range.y_min {
                assert((t0.value - y_min) * 0 == 0);
                assert((t1.value - y_min) * 0 == 0);
            }
            assert(t0.position == t1.position);
            assert(false);
        }
    }
    r
}

} // verus!
