//! Where the video stands on the terminal.

use crate::rounding::is_rounding;
use vstd::prelude::*;

verus! {

/// Placement of the video within the terminal.
/// All coordinates are 0-indexed terminal columns/rows.
#[derive(Debug, Clone, Copy, PartialEq, Eq, Structural)]
pub struct VideoLayout {
    /// Number of character-slot columns (draw_w * col_step = terminal columns used).
    pub draw_w: u16,
    /// Number of terminal rows used by the video.
    pub draw_h: u16,
    /// Leftmost terminal column of the video.
    pub offset_x: u16,
    /// Topmost terminal row of the video.
    pub offset_y: u16,
    /// The terminal row that the controls bar occupies (always the last row).
    pub bar_row: u16,
}

/// The two ways to scale the video, by its aspect ratio, to the area that it may fill.
#[derive(Debug, Clone, Copy, PartialEq, Eq, Structural)]
pub struct Fit {
    /// Rows that the video takes up at the full width.
    pub rows: u16,
    /// Character slots that the video takes up at the full height.
    pub chars: u16,
}

/// Rows that the video may use: all but the last, which the controls bar occupies.
pub open spec fn rows_above_bar(term_h: u16) -> u16 {
    if term_h > 0 {
        (term_h - 1) as u16
    } else {
        0
    }
}

/// Characters of `col_step` columns that stand side by side in the terminal.
pub open spec fn slots(term_w: u16, col_step: u16) -> u16 {
    if col_step > 0 {
        term_w / col_step
    } else {
        term_w
    }
}

/// `n`, and one at least, unless there is no room at all.
pub open spec fn at_least_one(n: u16, most: u16) -> u16 {
    if most == 0 {
        0
    } else if n > 0 {
        n
    } else {
        1
    }
}

/// The free room `total - used`, or none.
pub open spec fn room(total: int, used: int) -> int {
    if used < total {
        total - used
    } else {
        0
    }
}

/// Whether the full width would need more rows than there are.
pub open spec fn height_bound(term_h: u16, fit: Fit) -> bool {
    fit.rows > rows_above_bar(term_h)
}

/// Character slots across the video: none in a terminal narrower than a character.
pub open spec fn drawn_slots(term_w: u16, term_h: u16, fit: Fit, col_step: u16) -> u16 {
    at_least_one(
        if height_bound(term_h, fit) {
            fit.chars
        } else {
            slots(term_w, col_step)
        },
        slots(term_w, col_step),
    )
}

/// Rows of the video: none in a terminal that has no row but that of the bar.
pub open spec fn drawn_rows(term_h: u16, fit: Fit) -> u16 {
    at_least_one(
        if height_bound(term_h, fit) {
            rows_above_bar(term_h)
        } else {
            fit.rows
        },
        rows_above_bar(term_h),
    )
}

/// The layout: as wide as the terminal where the rows suffice, as high as the rows above the bar
/// otherwise, and in the middle of the free room.
pub open spec fn layout_of(term_w: u16, term_h: u16, fit: Fit, col_step: u16) -> VideoLayout {
    let draw_w = drawn_slots(term_w, term_h, fit, col_step);
    let draw_h = drawn_rows(term_h, fit);
    VideoLayout {
        draw_w,
        draw_h,
        offset_x: (room(term_w as int, draw_w * col_step) / 2 / (col_step as int) * col_step) as u16,
        offset_y: (room(rows_above_bar(term_h) as int, draw_h as int) / 2) as u16,
        bar_row: rows_above_bar(term_h),
    }
}

/// Whether the columns of the video can be counted in 16 bits.
pub open spec fn columns_countable(term_h: u16, fit: Fit, col_step: u16) -> bool {
    height_bound(term_h, fit) ==> fit.chars * col_step <= u16::MAX
}

/// Rows that the video may use: the last row is reserved for the controls bar.
pub fn video_rows(term_h: u16) -> (r: u16)
    ensures
        r == rows_above_bar(term_h),
        term_h > 0 ==> r == term_h - 1,
        term_h == 0 ==> r == 0,
{
    if term_h > 0 {
        term_h - 1
    } else {
        0
    }
}

/// Characters of `col_step` columns that fit side by side into the terminal.
pub fn max_chars(term_w: u16, col_step: u16) -> (r: u16)
    ensures
        r == slots(term_w, col_step),
        col_step > 0 ==> r * col_step <= term_w < r * col_step + col_step,
{
    proof {
        if col_step > 0 {
            lemma_aligned(term_w as int, col_step as int);
        }
    }
    if col_step > 0 {
        term_w / col_step
    } else {
        term_w
    }
}

/// How many times as tall as wide a character slot is: terminal cells are about twice as tall as
/// wide, so a character of one column is, and a wider one is not.
pub fn aspect_correction(col_step: u16) -> (r: u16)
    ensures
        r == if col_step == 1 {
            2u16
        } else {
            1u16
        },
{
    if col_step == 1 {
        2
    } else {
        1
    }
}

/// Compute how the video should be laid out in the terminal.
///
/// The last row is always reserved for the controls bar.
/// The video is scaled to fill as much of the remaining area as possible while
/// preserving aspect ratio, then centered.
pub fn compute_layout(term_w: u16, term_h: u16, fit: Fit, col_step: u16) -> (r: VideoLayout)
    requires
        col_step > 0,
        columns_countable(term_h, fit, col_step),
    ensures
        r == layout_of(term_w, term_h, fit, col_step),
        term_h > 0 ==> r.bar_row == term_h - 1,
        r.draw_w > 0 <==> term_w >= col_step,
        r.draw_h > 0 <==> term_h >= 2,
        term_w >= col_step && term_h >= 2 && fit.rows > term_h - 1 ==> {
            &&& r.draw_h == term_h - 1
            &&& fit.chars > 0 ==> r.draw_w == fit.chars
            &&& fit.chars == 0 ==> r.draw_w == 1
        },
        term_w >= col_step && term_h >= 2 && fit.rows <= term_h - 1 ==> {
            &&& r.draw_w * col_step <= term_w < r.draw_w * col_step + col_step
            &&& fit.rows > 0 ==> r.draw_h == fit.rows
            &&& fit.rows == 0 ==> r.draw_h == 1
        },
        r.draw_w * col_step <= term_w ==> 0 <= term_w - r.draw_w * col_step - 2 * r.offset_x < 2
            * col_step,
        r.draw_w * col_step > term_w ==> r.offset_x == 0,
        r.offset_x as int % col_step as int == 0,
        term_h > 0 ==> 0 <= (term_h - 1) - r.draw_h - 2 * r.offset_y <= 1,
{
    // Reserve the last terminal row for the controls bar.
    let bar_row = video_rows(term_h);
    let rows = bar_row;

    // Start by trying to fill the full width.
    let most = max_chars(term_w, col_step);
    let mut draw_w = most;
    let mut draw_h = fit.rows;

    // If that overflows the video rows, clamp to the available height instead.
    if draw_h > rows {
        draw_h = rows;
        draw_w = fit.chars;
    }
    // One slot and one row at least, unless that would leave the terminal or take the bar's row.
    if most == 0 {
        draw_w = 0;
    } else if draw_w == 0 {
        draw_w = 1;
    }
    if rows == 0 {
        draw_h = 0;
    } else if draw_h == 0 {
        draw_h = 1;
    }
    proof {
        lemma_columns(term_w, term_h, fit, col_step);
        lemma_layout_numbers(term_w, term_h, fit, col_step);
    }
    let draw_w_cols = draw_w * col_step;
    let free_cols: u16 = if draw_w_cols < term_w {
        term_w - draw_w_cols
    } else {
        0
    };
    proof {
        lemma_aligned((free_cols / 2) as int, col_step as int);
    }
    // Center horizontally; keep aligned to col_step boundaries for wide chars.
    let offset_x = (free_cols / 2 / col_step) * col_step;
    // Center vertically within the video area (rows 0..bar_row).
    let free_rows: u16 = if draw_h < rows {
        rows - draw_h
    } else {
        0
    };
    let offset_y = free_rows / 2;

    VideoLayout { draw_w, draw_h, offset_x, offset_y, bar_row }
}

proof fn lemma_aligned(n: int, step: int)
    requires
        n >= 0,
        step > 0,
    ensures
        0 <= n / step * step <= n,
        n - n / step * step < step,
        (n / step * step) % step == 0,
{
    vstd::arithmetic::div_mod::lemma_fundamental_div_mod(n, step);
    vstd::arithmetic::div_mod::lemma_div_pos_is_pos(n, step);
    vstd::arithmetic::mul::lemma_mul_is_commutative(n / step, step);
    vstd::arithmetic::mul::lemma_mul_nonnegative(n / step, step);
    vstd::arithmetic::div_mod::lemma_mod_multiples_basic(n / step, step);
}

proof fn lemma_columns(term_w: u16, term_h: u16, fit: Fit, col_step: u16)
    requires
        col_step > 0,
        columns_countable(term_h, fit, col_step),
    ensures
        0 <= drawn_slots(term_w, term_h, fit, col_step) * col_step <= u16::MAX,
{
    let drawn = drawn_slots(term_w, term_h, fit, col_step);
    lemma_aligned(term_w as int, col_step as int);
    vstd::arithmetic::mul::lemma_mul_nonnegative(drawn as int, col_step as int);
    vstd::arithmetic::mul::lemma_mul_basics(col_step as int);
}

/// Every column and row of the video can be counted in 16 bits. It has slots where the terminal is
/// as wide as one, and rows where there is one above the bar.
pub proof fn video_is_countable(term_w: u16, term_h: u16, fit: Fit, col_step: u16)
    requires
        col_step > 0,
        columns_countable(term_h, fit, col_step),
    ensures
        ({
            let l = layout_of(term_w, term_h, fit, col_step);
            &&& l.draw_w >= 1 <==> term_w >= col_step
            &&& l.draw_h >= 1 <==> term_h >= 2
            &&& l.offset_x + l.draw_w * col_step <= u16::MAX
            &&& l.offset_y + l.draw_h <= u16::MAX
        }),
{
    lemma_columns(term_w, term_h, fit, col_step);
    lemma_slots(term_w, col_step);
    let l = layout_of(term_w, term_h, fit, col_step);
    lemma_aligned(room(term_w as int, l.draw_w * col_step) / 2, col_step as int);
}

proof fn lemma_slots(term_w: u16, col_step: u16)
    requires
        col_step > 0,
    ensures
        slots(term_w, col_step) >= 1 <==> term_w >= col_step,
{
    if term_w >= col_step {
        vstd::arithmetic::div_mod::lemma_div_non_zero(term_w as int, col_step as int);
    } else {
        vstd::arithmetic::div_mod::lemma_basic_div(term_w as int, col_step as int);
    }
}

/// Whether at least one way of scaling fits: a video too tall at the full width is not too wide
/// at the full height.
pub open spec fn one_way_fits(term_w: u16, term_h: u16, fit: Fit, col_step: u16) -> bool {
    height_bound(term_h, fit) ==> fit.chars <= slots(term_w, col_step)
}

/// The video never spills into the bar row, and the bar row is the last row.
pub proof fn video_stays_above_bar(term_w: u16, term_h: u16, fit: Fit, col_step: u16)
    ensures
        ({
            let l = layout_of(term_w, term_h, fit, col_step);
            &&& l.offset_y + l.draw_h <= l.bar_row
            &&& term_h > 0 ==> l.bar_row == term_h - 1
        }),
{
}

/// The video stays within the terminal.
pub proof fn video_within_width(term_w: u16, term_h: u16, fit: Fit, col_step: u16)
    requires
        col_step > 0,
        one_way_fits(term_w, term_h, fit, col_step),
    ensures
        ({
            let l = layout_of(term_w, term_h, fit, col_step);
            l.offset_x + l.draw_w * col_step <= term_w
        }),
{
    lemma_within(term_w, term_h, fit, col_step);
    let l = layout_of(term_w, term_h, fit, col_step);
    lemma_aligned(room(term_w as int, l.draw_w * col_step) / 2, col_step as int);
}

proof fn lemma_within(term_w: u16, term_h: u16, fit: Fit, col_step: u16)
    requires
        col_step > 0,
        one_way_fits(term_w, term_h, fit, col_step),
    ensures
        0 <= drawn_slots(term_w, term_h, fit, col_step) * col_step <= term_w,
{
    let drawn = drawn_slots(term_w, term_h, fit, col_step) as int;
    let most = slots(term_w, col_step) as int;
    lemma_aligned(term_w as int, col_step as int);
    vstd::arithmetic::mul::lemma_mul_inequality(drawn, most, col_step as int);
    vstd::arithmetic::mul::lemma_mul_nonnegative(drawn, col_step as int);
}

/// The video fills the width of the terminal or all rows above the bar.
pub proof fn video_fills_width_or_height(term_w: u16, term_h: u16, fit: Fit, col_step: u16)
    ensures
        ({
            let l = layout_of(term_w, term_h, fit, col_step);
            l.draw_w == slots(term_w, col_step) || l.draw_h == l.bar_row
        }),
{
}

/// The video is centered: above and below it the free rows differ by one at most, and left and
/// right of it the free columns differ by less than two characters. Its left edge stands on a
/// character boundary.
pub proof fn video_is_centered(term_w: u16, term_h: u16, fit: Fit, col_step: u16)
    requires
        col_step > 0,
        one_way_fits(term_w, term_h, fit, col_step),
    ensures
        ({
            let l = layout_of(term_w, term_h, fit, col_step);
            let right = term_w - (l.offset_x + l.draw_w * col_step);
            let bottom = l.bar_row - (l.offset_y + l.draw_h);
            &&& 0 <= right - l.offset_x < 2 * col_step
            &&& 0 <= bottom - l.offset_y <= 1
            &&& l.offset_x % col_step == 0
        }),
{
    lemma_within(term_w, term_h, fit, col_step);
    let l = layout_of(term_w, term_h, fit, col_step);
    lemma_aligned(room(term_w as int, l.draw_w * col_step) / 2, col_step as int);
}

/// A taller terminal of the same width never shrinks the video: where the full width needs the
/// same rows in both, and the full height has room for no fewer slots in the taller.
pub proof fn taller_terminal_never_shrinks(
    term_w: u16,
    lower: u16,
    taller: u16,
    lower_fit: Fit,
    taller_fit: Fit,
    col_step: u16,
)
    requires
        lower <= taller,
        lower_fit.rows == taller_fit.rows,
        lower_fit.chars <= taller_fit.chars,
        one_way_fits(term_w, lower, lower_fit, col_step),
    ensures
        ({
            let a = layout_of(term_w, lower, lower_fit, col_step);
            let b = layout_of(term_w, taller, taller_fit, col_step);
            a.draw_w <= b.draw_w && a.draw_h <= b.draw_h
        }),
{
}

/// `a / b`, rounded to the nearest integer, halves up.
pub open spec fn rounded(a: int, b: int) -> int {
    (2 * a + b) / (2 * b)
}

/// `n`, or the greatest 16-bit number where it is beyond.
pub open spec fn saturated(n: int) -> int {
    if n <= u16::MAX {
        n
    } else {
        u16::MAX as int
    }
}

/// Whether `fit` is that of a video of `width` by `height` pixels, scaled without error but for
/// rounding. A slot is `tall` times as tall as wide.
pub open spec fn is_exact_fit(
    term_w: u16,
    term_h: u16,
    fit: Fit,
    col_step: u16,
    width: int,
    height: int,
    tall: int,
) -> bool {
    &&& fit.rows == saturated(rounded(slots(term_w, col_step) * height, width * tall))
    &&& fit.chars == saturated(rounded(rows_above_bar(term_h) * (width * tall), height))
}

proof fn lemma_rounded(a: int, b: int)
    requires
        b > 0,
    ensures
        -b <= 2 * (rounded(a, b) * b - a) <= b,
{
    let n = 2 * a + b;
    let d = 2 * b;
    vstd::arithmetic::div_mod::lemma_fundamental_div_mod(n, d);
    vstd::arithmetic::div_mod::lemma_mod_bound(n, d);
    let q = n / d;
    assert(d * q == 2 * (q * b)) by (nonlinear_arith)
        requires
            d == 2 * b,
    ;
}

/// Where the full width needs more rows than there are, the full height has room for no more slots
/// than the terminal, before any number is saturated.
proof fn lemma_exact_fit(
    term_w: u16,
    term_h: u16,
    fit: Fit,
    col_step: u16,
    width: int,
    height: int,
    tall: int,
)
    requires
        width > 0,
        height > 0,
        tall > 0,
        is_exact_fit(term_w, term_h, fit, col_step, width, height, tall),
        height_bound(term_h, fit),
    ensures
        rounded(rows_above_bar(term_h) * (width * tall), height) <= slots(term_w, col_step),
{
    let m = slots(term_w, col_step) as int;
    let v = rows_above_bar(term_h) as int;
    let wt = width * tall;
    lemma_positive(width, tall);
    lemma_rounded(m * height, wt);
    lemma_rounded(v * wt, height);
    let r = rounded(m * height, wt);
    let c = rounded(v * wt, height);
    // Rounded to v + 1 rows or more, the full width is above v rows and a half.
    assert(r * wt >= v * wt + wt) by (nonlinear_arith)
        requires
            r >= v + 1,
            wt > 0,
    ;
    assert(2 * (m * height) >= 2 * (v * wt) + wt);
    if c > m {
        assert(c * height >= m * height + height) by (nonlinear_arith)
            requires
                c >= m + 1,
                height > 0,
        ;
        assert(false);
    }
}

proof fn lemma_positive(a: int, b: int)
    by (nonlinear_arith)
    requires
        a > 0,
        b > 0,
    ensures
        a * b > 0,
{
}

/// Of an exact fit one way always fits.
pub proof fn exact_fit_fits(
    term_w: u16,
    term_h: u16,
    fit: Fit,
    col_step: u16,
    width: int,
    height: int,
    tall: int,
)
    requires
        width > 0,
        height > 0,
        tall > 0,
        is_exact_fit(term_w, term_h, fit, col_step, width, height, tall),
    ensures
        one_way_fits(term_w, term_h, fit, col_step),
{
    if height_bound(term_h, fit) {
        lemma_exact_fit(term_w, term_h, fit, col_step, width, height, tall);
    }
}

/// An exact fit keeps the aspect ratio: at the full width to half a row, unless the one row that a
/// video has at least is more than it would need; at the full height to half a character slot,
/// unless the one slot that it has at least is.
pub proof fn exact_fit_keeps_aspect(
    term_w: u16,
    term_h: u16,
    fit: Fit,
    col_step: u16,
    width: int,
    height: int,
    tall: int,
)
    requires
        width > 0,
        height > 0,
        tall > 0,
        is_exact_fit(term_w, term_h, fit, col_step, width, height, tall),
    ensures
        ({
            let l = layout_of(term_w, term_h, fit, col_step);
            let skew = 2 * (l.draw_w * height - l.draw_h * (width * tall));
            ||| l.draw_w == slots(term_w, col_step) && (l.draw_h == 1 && 2 * (l.draw_w * height)
                < width * tall || -(width * tall) <= skew <= width * tall)
            ||| l.draw_h == l.bar_row && (l.draw_w == 1 && 2 * (l.draw_h * (width * tall)) < height
                || -height <= skew <= height)
        }),
{
    let m = slots(term_w, col_step) as int;
    let v = rows_above_bar(term_h) as int;
    let wt = width * tall;
    lemma_positive(width, tall);
    lemma_rounded(m * height, wt);
    lemma_rounded(v * wt, height);
    lemma_rounds_to_zero(m * height, wt);
    lemma_rounds_to_zero(v * wt, height);
    if height_bound(term_h, fit) {
        lemma_exact_fit(term_w, term_h, fit, col_step, width, height, tall);
    }
}

/// A taller terminal of the same width never shrinks a video that is scaled without error but for
/// rounding.
pub proof fn exact_fit_never_shrinks(
    term_w: u16,
    lower: u16,
    taller: u16,
    lower_fit: Fit,
    taller_fit: Fit,
    col_step: u16,
    width: int,
    height: int,
    tall: int,
)
    requires
        lower <= taller,
        width > 0,
        height > 0,
        tall > 0,
        is_exact_fit(term_w, lower, lower_fit, col_step, width, height, tall),
        is_exact_fit(term_w, taller, taller_fit, col_step, width, height, tall),
    ensures
        ({
            let a = layout_of(term_w, lower, lower_fit, col_step);
            let b = layout_of(term_w, taller, taller_fit, col_step);
            a.draw_w <= b.draw_w && a.draw_h <= b.draw_h
        }),
{
    let wt = width * tall;
    let (v1, v2) = (rows_above_bar(lower) as int, rows_above_bar(taller) as int);
    lemma_positive(width, tall);
    vstd::arithmetic::mul::lemma_mul_inequality(v1, v2, wt);
    vstd::arithmetic::div_mod::lemma_div_is_ordered(
        2 * (v1 * wt) + height,
        2 * (v2 * wt) + height,
        2 * height,
    );
    exact_fit_fits(term_w, lower, lower_fit, col_step, width, height, tall);
    taller_terminal_never_shrinks(term_w, lower, taller, lower_fit, taller_fit, col_step);
}

/// Whether `fit` is that of a video of the given aspect ratio, scaled in single precision. Numbers
/// are counted in units of which `one` make up one: the aspect ratio, and the quotient of the slots
/// by it, which is off by no more than one part in two to the 24th. A slot is `tall` times as tall
/// as wide.
pub open spec fn is_rounded_fit(
    term_w: u16,
    term_h: u16,
    fit: Fit,
    col_step: u16,
    aspect: int,
    tall: int,
    quotient: int,
    one: int,
    round: spec_fn(int) -> int,
) -> bool {
    let exact = slots(term_w, col_step) * (one * one);
    &&& -exact <= (quotient * aspect - exact) * 0x100_0000 <= exact
    &&& fit.rows == saturated(rounded(quotient, tall * one))
    &&& fit.chars == saturated(rounded(round(rows_above_bar(term_h) * (tall * aspect)), one))
}

/// Also of a fit scaled in single precision one way always fits.
pub proof fn rounded_fit_fits(
    term_w: u16,
    term_h: u16,
    fit: Fit,
    col_step: u16,
    aspect: int,
    tall: int,
    quotient: int,
    one: int,
    round: spec_fn(int) -> int,
)
    requires
        aspect > 0,
        tall > 0,
        is_rounding(round, one),
        is_rounded_fit(term_w, term_h, fit, col_step, aspect, tall, quotient, one, round),
    ensures
        one_way_fits(term_w, term_h, fit, col_step),
{
    let m = slots(term_w, col_step) as int;
    let v = rows_above_bar(term_h) as int;
    let r = rounded(quotient, tall * one);
    let ta = tall * aspect;
    let c = round(v * ta);
    if height_bound(term_h, fit) {
        lemma_positive(tall, one);
        lemma_positive(tall, aspect);
        vstd::arithmetic::mul::lemma_mul_nonnegative(v, ta);
        // Rounded to v + 1 rows or more, the quotient is v rows and a half at least.
        lemma_rounded_up(quotient, tall * one, v);
        lemma_full_width(m, v, quotient, aspect, tall, one);
        lemma_full_height(m, v, ta, c, one);
        lemma_rounded_down(c, one, m);
    }
}

proof fn lemma_rounded_up(a: int, b: int, n: int)
    requires
        b > 0,
        rounded(a, b) > n,
    ensures
        2 * a >= (2 * n + 1) * b,
{
    let q = rounded(a, b);
    let d = 2 * b;
    vstd::arithmetic::div_mod::lemma_fundamental_div_mod(2 * a + b, d);
    vstd::arithmetic::div_mod::lemma_mod_bound(2 * a + b, d);
    assert(d * q >= 2 * (n + 1) * b) by (nonlinear_arith)
        requires
            d == 2 * b,
            q >= n + 1,
            b > 0,
    ;
    assert(2 * (n + 1) * b - b == (2 * n + 1) * b) by (nonlinear_arith);
}

proof fn lemma_rounded_down(a: int, b: int, n: int)
    requires
        b > 0,
        2 * a < (2 * n + 1) * b,
    ensures
        rounded(a, b) <= n,
{
    if rounded(a, b) > n {
        lemma_rounded_up(a, b, n);
    }
}

/// The slots of the full width, where the quotient is `v` rows and a half at least.
proof fn lemma_full_width(m: int, v: int, quotient: int, aspect: int, tall: int, one: int)
    requires
        aspect > 0,
        one > 0,
        2 * quotient >= (2 * v + 1) * (tall * one),
        (quotient * aspect - m * (one * one)) * 0x100_0000 <= m * (one * one),
    ensures
        (2 * v + 1) * (tall * aspect) * 0x100_0000 <= 2 * (m * one) * 0x100_0001,
{
    let left = (2 * v + 1) * (tall * aspect) * 0x100_0000;
    let right = 2 * (m * one) * 0x100_0001;
    assert((2 * quotient) * aspect >= (2 * v + 1) * (tall * one) * aspect) by (nonlinear_arith)
        requires
            aspect > 0,
            2 * quotient >= (2 * v + 1) * (tall * one),
    ;
    assert(left * one == (2 * v + 1) * (tall * one) * aspect * 0x100_0000) by (nonlinear_arith)
        requires
            left == (2 * v + 1) * (tall * aspect) * 0x100_0000,
    ;
    assert(right * one == 2 * (m * (one * one)) * 0x100_0001) by (nonlinear_arith)
        requires
            right == 2 * (m * one) * 0x100_0001,
    ;
    assert((2 * quotient) * aspect == 2 * (quotient * aspect)) by (nonlinear_arith);
    assert(left * one <= right * one);
    assert(left <= right) by (nonlinear_arith)
        requires
            left * one <= right * one,
            one > 0,
    ;
}

/// The slots `c` of the full height stay below those of the full width and a half: the two
/// roundings are off by less than the half row.
proof fn lemma_full_height(m: int, v: int, ta: int, c: int, one: int)
    requires
        0 <= m <= u16::MAX,
        0 <= v <= u16::MAX,
        ta > 0,
        one > 0,
        (c - v * ta) * 0x100_0000 <= v * ta,
        (2 * v + 1) * ta * 0x100_0000 <= 2 * (m * one) * 0x100_0001,
    ensures
        2 * c < (2 * m + 1) * one,
{
    let big = 0x100_0000int;
    let mo = m * one;
    let vta = v * ta;
    let k = 2 * v + 1;
    // c * big * big * k <= 2 * v * mo * (big + 1) * (big + 1)
    assert(k * ta * v == k * vta) by (nonlinear_arith)
        requires
            vta == v * ta,
    ;
    assert(k * vta * big <= 2 * (v * mo) * (big + 1)) by (nonlinear_arith)
        requires
            k * ta * big <= 2 * mo * (big + 1),
            k * ta * v == k * vta,
            v >= 0,
    ;
    assert(c * big <= vta * (big + 1));
    assert((c * k) * big <= (k * vta) * (big + 1)) by (nonlinear_arith)
        requires
            c * big <= vta * (big + 1),
            k > 0,
    ;
    let w = v * mo;
    assert((c * k) * big * big <= 2 * w * (big + 1) * (big + 1));
    // 4 * m * v * (big + 1)^2 < (2 * m + 1) * (2 * v + 1) * big^2, in units.
    assert(0 <= m * v <= 0xffff * v) by (nonlinear_arith)
        requires
            0 <= m <= 0xffff,
            v >= 0,
    ;
    let mv = m * v;
    assert((2 * m + 1) * k == 4 * mv + 2 * m + 2 * v + 1) by (nonlinear_arith)
        requires
            mv == m * v,
            k == 2 * v + 1,
    ;
    let lower = (2 * m + 1) * k;
    assert(4 * mv * (big + 1) * (big + 1) < lower * big * big);
    assert(w == mv * one) by (nonlinear_arith)
        requires
            w == v * mo,
            mo == m * one,
            mv == m * v,
    ;
    assert(4 * w * (big + 1) * (big + 1) < (lower * one) * big * big) by (nonlinear_arith)
        requires
            4 * mv * (big + 1) * (big + 1) < lower * big * big,
            w == mv * one,
            one > 0,
    ;
    assert(2 * (c * k) < lower * one);
    assert(lower * one == ((2 * m + 1) * one) * k) by (nonlinear_arith)
        requires
            lower == (2 * m + 1) * k,
    ;
    assert(2 * c < (2 * m + 1) * one) by (nonlinear_arith)
        requires
            2 * (c * k) < ((2 * m + 1) * one) * k,
            k > 0,
    ;
}

/// A taller terminal of the same width never shrinks a video that is scaled in single precision.
pub proof fn rounded_fit_never_shrinks(
    term_w: u16,
    lower: u16,
    taller: u16,
    lower_fit: Fit,
    taller_fit: Fit,
    col_step: u16,
    aspect: int,
    tall: int,
    quotient: int,
    one: int,
    round: spec_fn(int) -> int,
)
    requires
        lower <= taller,
        aspect > 0,
        tall > 0,
        is_rounding(round, one),
        is_rounded_fit(term_w, lower, lower_fit, col_step, aspect, tall, quotient, one, round),
        is_rounded_fit(term_w, taller, taller_fit, col_step, aspect, tall, quotient, one, round),
    ensures
        ({
            let a = layout_of(term_w, lower, lower_fit, col_step);
            let b = layout_of(term_w, taller, taller_fit, col_step);
            a.draw_w <= b.draw_w && a.draw_h <= b.draw_h
        }),
{
    let (v1, v2) = (rows_above_bar(lower) as int, rows_above_bar(taller) as int);
    let ta = tall * aspect;
    lemma_positive(tall, aspect);
    vstd::arithmetic::mul::lemma_mul_inequality(v1, v2, ta);
    assert(round(v1 * ta) <= round(v2 * ta));
    vstd::arithmetic::div_mod::lemma_div_is_ordered(
        2 * round(v1 * ta) + one,
        2 * round(v2 * ta) + one,
        2 * one,
    );
    rounded_fit_fits(term_w, lower, lower_fit, col_step, aspect, tall, quotient, one, round);
    taller_terminal_never_shrinks(term_w, lower, taller, lower_fit, taller_fit, col_step);
}

/// Where the video stands, by the numbers alone, in a terminal that holds a slot and a row above the
/// bar.
///
/// Where the rows at the full width are more than there are, the video takes all rows above the bar
/// and as many slots as the full height gives; otherwise it takes all slots and the rows at the full
/// width; and one of each at least. The free columns and rows are halved: to the left are whole slots,
/// less than one slot fewer than half of the free columns, and above half of the free rows, rounded
/// down. The bar stands on the last row.
pub proof fn video_takes_its_slots_and_rows(term_w: u16, term_h: u16, fit: Fit, col_step: u16)
    requires
        0 < col_step <= term_w,
        term_h >= 2,
    ensures
        ({
            let l = layout_of(term_w, term_h, fit, col_step);
            let used = l.draw_w * col_step;
            &&& l.bar_row == term_h - 1
            &&& fit.rows > term_h - 1 ==> l.draw_h == term_h - 1 && (fit.chars > 0 ==> l.draw_w
                == fit.chars) && (fit.chars == 0 ==> l.draw_w == 1)
            &&& fit.rows <= term_h - 1 ==> used <= term_w < used + col_step && (fit.rows > 0
                ==> l.draw_h == fit.rows) && (fit.rows == 0 ==> l.draw_h == 1)
            &&& used <= term_w ==> 0 <= term_w - used - 2 * l.offset_x < 2 * col_step
            &&& used > term_w ==> l.offset_x == 0
            &&& l.offset_x as int % col_step as int == 0
            &&& 0 <= (term_h - 1) - l.draw_h - 2 * l.offset_y <= 1
        }),
{
    lemma_layout_numbers(term_w, term_h, fit, col_step);
}

proof fn lemma_layout_numbers(term_w: u16, term_h: u16, fit: Fit, col_step: u16)
    requires
        col_step > 0,
    ensures
        ({
            let l = layout_of(term_w, term_h, fit, col_step);
            let m = slots(term_w, col_step);
            &&& m * col_step <= term_w < m * col_step + col_step
            &&& room(term_w as int, l.draw_w * col_step) - 2 * l.offset_x < 2 * col_step
            &&& 0 <= 2 * l.offset_x <= room(term_w as int, l.draw_w * col_step)
            &&& l.offset_x as int % col_step as int == 0
            &&& m > 0 <==> term_w >= col_step
        }),
{
    let l = layout_of(term_w, term_h, fit, col_step);
    lemma_slots(term_w, col_step);
    lemma_aligned(term_w as int, col_step as int);
    vstd::arithmetic::mul::lemma_mul_nonnegative(l.draw_w as int, col_step as int);
    lemma_aligned(room(term_w as int, l.draw_w * col_step) / 2, col_step as int);
}

/// In a terminal of one row, or narrower than a slot, there is no video: it would take the row of the
/// bar, or reach beyond the right edge. In all others there is one.
pub proof fn video_needs_room(term_w: u16, term_h: u16, fit: Fit, col_step: u16)
    requires
        col_step > 0,
    ensures
        ({
            let l = layout_of(term_w, term_h, fit, col_step);
            &&& l.draw_w == 0 <==> term_w < col_step
            &&& l.draw_h == 0 <==> term_h <= 1
            &&& term_w < col_step ==> l.offset_x == 0
            &&& term_h <= 1 ==> l.offset_y == 0 && l.bar_row == 0
        }),
{
    lemma_layout_numbers(term_w, term_h, fit, col_step);
    if term_w < col_step {
        let l = layout_of(term_w, term_h, fit, col_step);
        vstd::arithmetic::mul::lemma_mul_basics(col_step as int);
        vstd::arithmetic::div_mod::lemma_basic_div(term_w as int / 2, col_step as int);
    }
}

/// An exact fit keeps the aspect ratio to half a row at the full width, or to half a slot at the full
/// height, by the numbers alone. One row, or one slot, is too much only where the exact number of
/// them is below a half.
pub proof fn aspect_ratio_is_kept(
    term_w: u16,
    term_h: u16,
    fit: Fit,
    col_step: u16,
    width: int,
    height: int,
    tall: int,
)
    requires
        0 < col_step <= term_w,
        term_h >= 2,
        width > 0,
        height > 0,
        tall > 0,
        is_exact_fit(term_w, term_h, fit, col_step, width, height, tall),
    ensures
        ({
            let l = layout_of(term_w, term_h, fit, col_step);
            let used = l.draw_w * col_step;
            // Twice the height of the video at its width, and twice the rows that it takes.
            let (across, down) = (2 * (l.draw_w * height), 2 * (l.draw_h * (width * tall)));
            ||| {
                &&& used <= term_w < used + col_step
                &&& {
                    ||| -(width * tall) <= across - down <= width * tall
                    ||| l.draw_h == 1 && across < width * tall
                }
            }
            ||| {
                &&& l.draw_h == term_h - 1
                &&& {
                    ||| -height <= across - down <= height
                    ||| l.draw_w == 1 && down < height
                }
            }
        }),
{
    let m = slots(term_w, col_step) as int;
    let v = rows_above_bar(term_h) as int;
    let wt = width * tall;
    lemma_layout_numbers(term_w, term_h, fit, col_step);
    lemma_positive(width, tall);
    lemma_rounded(m * height, wt);
    lemma_rounded(v * wt, height);
    lemma_rounds_to_zero(m * height, wt);
    lemma_rounds_to_zero(v * wt, height);
    vstd::arithmetic::mul::lemma_mul_nonnegative(m, height);
    vstd::arithmetic::mul::lemma_mul_nonnegative(v, wt);
    if height_bound(term_h, fit) {
        lemma_exact_fit(term_w, term_h, fit, col_step, width, height, tall);
    }
}

proof fn lemma_rounds_to_zero(a: int, b: int)
    requires
        b > 0,
    ensures
        rounded(a, b) == 0 ==> 2 * a < b,
        a >= 0 ==> rounded(a, b) >= 0,
{
    vstd::arithmetic::div_mod::lemma_fundamental_div_mod(2 * a + b, 2 * b);
    vstd::arithmetic::div_mod::lemma_mod_bound(2 * a + b, 2 * b);
    if rounded(a, b) == 0 {
        vstd::arithmetic::mul::lemma_mul_basics(2 * b);
    }
    if a >= 0 {
        vstd::arithmetic::div_mod::lemma_div_pos_is_pos(2 * a + b, 2 * b);
    }
}

/// An exact fit is what the sizes give: the rows are the nearest number to the height of the video
/// at the full width, and the slots the nearest to its width at the full height.
pub proof fn exact_fit_is_nearest(
    term_w: u16,
    term_h: u16,
    fit: Fit,
    col_step: u16,
    width: int,
    height: int,
    tall: int,
)
    requires
        0 < col_step <= term_w,
        term_h >= 2,
        width > 0,
        height > 0,
        tall > 0,
        is_exact_fit(term_w, term_h, fit, col_step, width, height, tall),
    ensures
        exists|m: int|
            {
                &&& #[trigger] (m * col_step) <= term_w < m * col_step + col_step
                &&& fit.rows < u16::MAX ==> -(width * tall) <= 2 * (fit.rows * (width * tall) - m
                    * height) <= width * tall
            },
        fit.chars < u16::MAX ==> -height <= 2 * (fit.chars * height - (term_h - 1) * (width * tall))
            <= height,
{
    let m = slots(term_w, col_step) as int;
    let v = rows_above_bar(term_h) as int;
    lemma_positive(width, tall);
    lemma_layout_numbers(term_w, term_h, fit, col_step);
    lemma_rounded(m * height, width * tall);
    lemma_rounded(v * (width * tall), height);
    assert(m * col_step <= term_w < m * col_step + col_step);
}

} // verus!
