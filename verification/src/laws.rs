//! What a drawn screen shows, cell by cell.

use crate::charset::{
    builtin_modes, columns_or_one, widths_of, CharSet, RenderMode, MODE_COUNT,
};
use crate::layout::{layout_of, VideoLayout};
use crate::pixels::{
    channels_are_weighted, colors_are_bytes_of_the_frame, is_lit, rgb_at, toned,
    whole_frame_holds_pixels,
};
use crate::player::custom_label;
use crate::render::{
    bar_row_of, drawable, is_exact_sampling, paint_screen, state_char, step_of, Area, Bar, Picture,
    Sampling,
};
use crate::screen::{
    all_narrow, blank, buffer_cells, buffer_right, char_columns, holds_row, is_narrow, one_column_each,
    paint_grapheme, paint_graphemes, painted, CellColor, CellView, Cells, Grapheme, Paint, REVERSED,
};
use crate::text::{decimal, fitted, lemma_decimal_digits};
use ratatui::buffer::Buffer;
use vstd::prelude::*;

verus! {

/// Whether a cell is shown in reverse video.
pub open spec fn is_reversed(cell: CellView) -> bool {
    cell.modifier & REVERSED == REVERSED
}

/// Whether a cell belongs to the video.
pub open spec fn in_video(p: (u16, u16), l: VideoLayout, col_step: u16) -> bool {
    &&& l.offset_x <= p.0 < l.offset_x + l.draw_w * col_step
    &&& l.offset_y <= p.1 < l.offset_y + l.draw_h
}

proof fn lemma_no_bits(m: u16)
    ensures
        m | 0 == m,
        (m | REVERSED) & REVERSED == REVERSED,
        0u16 & REVERSED != REVERSED,
{
    assert(m | 0 == m) by (bit_vector);
    assert((m | 64) & 64 == 64) by (bit_vector);
    assert(0u16 & 64 != 64) by (bit_vector);
}

/// Painting changes no other row, and nothing to its left.
proof fn lemma_paint_elsewhere(
    cells: Cells,
    right: u16,
    x: int,
    y: u16,
    gs: Seq<Grapheme>,
    paint: Paint,
    p: (u16, u16),
)
    requires
        cells.contains_key(p),
        p.1 != y || p.0 < x,
    ensures
        paint_graphemes(cells, right, x, y, gs, paint).contains_key(p),
        paint_graphemes(cells, right, x, y, gs, paint)[p] == cells[p],
    decreases gs.len(),
{
    if gs.len() == 0 || x + gs[0].1 > right {
    } else {
        let next = paint_grapheme(cells, x, y, gs[0], paint);
        lemma_paint_elsewhere(next, right, x + gs[0].1, y, gs.drop_first(), paint, p);
    }
}

/// Painting without a modifier reverses no cell.
proof fn lemma_paint_reverses_nothing(
    cells: Cells,
    right: u16,
    x: int,
    y: u16,
    gs: Seq<Grapheme>,
    paint: Paint,
    p: (u16, u16),
)
    requires
        cells.contains_key(p),
        paint.modifier == 0,
        !is_reversed(cells[p]),
    ensures
        paint_graphemes(cells, right, x, y, gs, paint).contains_key(p),
        !is_reversed(paint_graphemes(cells, right, x, y, gs, paint)[p]),
    decreases gs.len(),
{
    if gs.len() == 0 || x + gs[0].1 > right {
    } else {
        let next = paint_grapheme(cells, x, y, gs[0], paint);
        lemma_no_bits(cells[p].modifier);
        lemma_paint_reverses_nothing(next, right, x + gs[0].1, y, gs.drop_first(), paint, p);
    }
}

/// Whether every grapheme that begins before column `right`, painted from column `x`, takes up one
/// column.
pub open spec fn one_column_up_to(gs: Seq<Grapheme>, x: int, right: u16) -> bool {
    forall|i: int| 0 <= i < gs.len() && x + i < right ==> (#[trigger] gs[i]).1 == 1
}

/// Graphemes of one column: the cells from column `x` on show them.
proof fn lemma_paint_narrow(
    cells: Cells,
    right: u16,
    x: int,
    y: u16,
    gs: Seq<Grapheme>,
    paint: Paint,
    p: (u16, u16),
)
    requires
        cells.contains_key(p),
        one_column_up_to(gs, x, right),
    ensures
        ({
            let after = paint_graphemes(cells, right, x, y, gs, paint);
            &&& after.contains_key(p)
            &&& p.0 < right ==> after[p] == if p.1 == y && x <= p.0 < x + gs.len() {
                painted(cells[p], gs[p.0 - x].0, paint)
            } else {
                cells[p]
            }
        }),
    decreases gs.len(),
{
    crate::screen::painting_keeps_cells(cells, right, x, y, gs, paint);
    if gs.len() > 0 && x < right {
        assert(gs[0].1 == 1);
        let next = paint_grapheme(cells, x, y, gs[0], paint);
        let rest = gs.drop_first();
        assert forall|i: int| 0 <= i < rest.len() && x + 1 + i < right implies (
        #[trigger] rest[i]).1 == 1 by {
            assert(rest[i] == gs[i + 1]);
        }
        if p.1 == y && p.0 == x {
            lemma_paint_elsewhere(next, right, x + 1, y, rest, paint, p);
        } else {
            lemma_paint_narrow(next, right, x + 1, y, rest, paint, p);
        }
    } else if p.0 < right && p.0 < x {
        lemma_paint_elsewhere(cells, right, x, y, gs, paint, p);
    }
}

/// One grapheme of at most `w` columns: it changes no cell further right.
proof fn lemma_paint_one(
    cells: Cells,
    right: u16,
    x: int,
    y: u16,
    gs: Seq<Grapheme>,
    paint: Paint,
    w: int,
    p: (u16, u16),
)
    requires
        cells.contains_key(p),
        w >= 1,
        gs.len() <= 1,
        gs.len() == 1 ==> gs[0].1 <= w,
    ensures
        ({
            let after = paint_graphemes(cells, right, x, y, gs, paint);
            &&& after.contains_key(p)
            &&& p.0 >= x + w ==> after[p] == cells[p]
            &&& p.0 == x && p.1 == y ==> after[p] == if gs.len() == 1 && x + gs[0].1 <= right {
                painted(cells[p], gs[0].0, paint)
            } else {
                cells[p]
            }
        }),
{
    reveal_with_fuel(paint_graphemes, 2);
}

proof fn lemma_slot_graphemes(picture: Picture, x: int, y: int)
    requires
        picture.render_mode.fits_slots(),
    ensures
        picture.slot_graphemes(x, y).len() <= 1,
        picture.slot_graphemes(x, y).len() == 1 ==> 0 < picture.slot_graphemes(x, y)[0].1
            <= step_of(picture.render_mode),
{
    if let RenderMode::Charset(cs) = picture.render_mode {
        let widths = widths_of(cs.empty, cs.top, cs.bottom, cs.full);
        assert(columns_or_one(widths[0]) <= cs.col_width);
        assert(columns_or_one(widths[1]) <= cs.col_width);
        assert(columns_or_one(widths[2]) <= cs.col_width);
        assert(columns_or_one(widths[3]) <= cs.col_width);
    }
}

/// A row of slots changes no other row, nothing to its left, and nothing right of its slots.
proof fn lemma_row_elsewhere(
    picture: Picture,
    cells: Cells,
    right: u16,
    l: VideoLayout,
    y: int,
    n: nat,
    p: (u16, u16),
)
    requires
        cells.contains_key(p),
        ({
            ||| p.1 != (l.offset_y + y) as u16
            ||| p.0 < l.offset_x
            ||| picture.render_mode.fits_slots() && p.0 >= l.offset_x + n * step_of(
                picture.render_mode,
            )
        }),
    ensures
        picture.paint_row(cells, right, l, y, n).contains_key(p),
        picture.paint_row(cells, right, l, y, n)[p] == cells[p],
    decreases n,
{
    if n > 0 {
        let step = step_of(picture.render_mode) as int;
        let x = n - 1;
        assert(n * step == x * step + step) by (nonlinear_arith)
            requires
                n == x + 1,
        ;
        assert(x * step >= 0) by (nonlinear_arith)
            requires
                x >= 0,
                step >= 0,
        ;
        lemma_row_elsewhere(picture, cells, right, l, y, x as nat, p);
        let before = picture.paint_row(cells, right, l, y, x as nat);
        let at = l.offset_x + x * step;
        let cy = (l.offset_y + y) as u16;
        let gs = picture.slot_graphemes(x, y);
        let paint = picture.slot_paint(x, y);
        if p.1 != cy || p.0 < l.offset_x {
            lemma_paint_elsewhere(before, right, at, cy, gs, paint, p);
        } else {
            lemma_slot_graphemes(picture, x, y);
            lemma_paint_one(before, right, at, cy, gs, paint, step, p);
        }
    }
}

/// The first cell of slot `k` after a row of `n` slots.
proof fn lemma_row_slot(
    picture: Picture,
    cells: Cells,
    right: u16,
    l: VideoLayout,
    y: int,
    n: nat,
    k: int,
    p: (u16, u16),
)
    requires
        cells.contains_key(p),
        picture.render_mode.fits_slots(),
        step_of(picture.render_mode) > 0,
        0 <= k < n,
        p.1 == (l.offset_y + y) as u16,
        p.0 == l.offset_x + k * step_of(picture.render_mode),
    ensures
        picture.paint_row(cells, right, l, y, n).contains_key(p),
        picture.paint_row(cells, right, l, y, n)[p] == shown(
            picture,
            cells[p],
            right,
            k,
            y,
            p.0 as int,
        ),
    decreases n,
{
    let step = step_of(picture.render_mode) as int;
    let x = n - 1;
    let before = picture.paint_row(cells, right, l, y, x as nat);
    let at = l.offset_x + x * step;
    let cy = (l.offset_y + y) as u16;
    let gs = picture.slot_graphemes(x, y);
    let paint = picture.slot_paint(x, y);
    lemma_slot_graphemes(picture, x, y);
    if k == x {
        lemma_row_elsewhere(picture, cells, right, l, y, x as nat, p);
        lemma_paint_one(before, right, at, cy, gs, paint, step, p);
    } else {
        assert(k * step < x * step) by (nonlinear_arith)
            requires
                k < x,
                step > 0,
        ;
        lemma_row_slot(picture, cells, right, l, y, x as nat, k, p);
        lemma_paint_elsewhere(before, right, at, cy, gs, paint, p);
    }
}

/// What the first cell of a slot at column `at` shows: the character of the slot, unless it takes
/// up no column or reaches beyond the screen.
pub open spec fn shown(
    picture: Picture,
    cell: CellView,
    right: u16,
    x: int,
    y: int,
    at: int,
) -> CellView {
    let gs = picture.slot_graphemes(x, y);
    if gs.len() == 1 && at + gs[0].1 <= right {
        painted(cell, gs[0].0, picture.slot_paint(x, y))
    } else {
        cell
    }
}

/// The rows of the video change nothing outside of it.
proof fn lemma_rows_elsewhere(
    picture: Picture,
    cells: Cells,
    right: u16,
    l: VideoLayout,
    n: nat,
    p: (u16, u16),
)
    requires
        cells.contains_key(p),
        n <= l.draw_h,
        l.offset_y + l.draw_h <= u16::MAX,
        ({
            ||| !(l.offset_y <= p.1 < l.offset_y + n)
            ||| p.0 < l.offset_x
            ||| picture.render_mode.fits_slots() && p.0 >= l.offset_x + l.draw_w * step_of(
                picture.render_mode,
            )
        }),
    ensures
        picture.paint_rows(cells, right, l, n).contains_key(p),
        picture.paint_rows(cells, right, l, n)[p] == cells[p],
    decreases n,
{
    if n > 0 {
        let m = (n - 1) as nat;
        lemma_rows_elsewhere(picture, cells, right, l, m, p);
        let before = picture.paint_rows(cells, right, l, m);
        lemma_row_elsewhere(picture, before, right, l, m as int, l.draw_w as nat, p);
    }
}

proof fn lemma_rows_slot(
    picture: Picture,
    cells: Cells,
    right: u16,
    l: VideoLayout,
    n: nat,
    x: int,
    y: int,
    p: (u16, u16),
)
    requires
        cells.contains_key(p),
        n <= l.draw_h,
        l.offset_y + l.draw_h <= u16::MAX,
        picture.render_mode.fits_slots(),
        step_of(picture.render_mode) > 0,
        0 <= x < l.draw_w,
        0 <= y < n,
        p.1 == l.offset_y + y,
        p.0 == l.offset_x + x * step_of(picture.render_mode),
    ensures
        picture.paint_rows(cells, right, l, n).contains_key(p),
        picture.paint_rows(cells, right, l, n)[p] == shown(
            picture,
            cells[p],
            right,
            x,
            y,
            p.0 as int,
        ),
    decreases n,
{
    let m = (n - 1) as nat;
    let before = picture.paint_rows(cells, right, l, m);
    if y == m {
        lemma_rows_elsewhere(picture, cells, right, l, m, p);
        lemma_row_slot(picture, before, right, l, y, l.draw_w as nat, x, p);
    } else {
        lemma_rows_slot(picture, cells, right, l, m, x, y, p);
        lemma_row_elsewhere(picture, before, right, l, m as int, l.draw_w as nat, p);
    }
}

proof fn lemma_row_reverses_nothing(
    picture: Picture,
    cells: Cells,
    right: u16,
    l: VideoLayout,
    y: int,
    n: nat,
    p: (u16, u16),
)
    requires
        cells.contains_key(p),
        !is_reversed(cells[p]),
    ensures
        picture.paint_row(cells, right, l, y, n).contains_key(p),
        !is_reversed(picture.paint_row(cells, right, l, y, n)[p]),
    decreases n,
{
    if n > 0 {
        let x = n - 1;
        lemma_row_reverses_nothing(picture, cells, right, l, y, x as nat, p);
        lemma_paint_reverses_nothing(
            picture.paint_row(cells, right, l, y, x as nat),
            right,
            l.offset_x + x * step_of(picture.render_mode),
            (l.offset_y + y) as u16,
            picture.slot_graphemes(x, y),
            picture.slot_paint(x, y),
            p,
        );
    }
}

proof fn lemma_rows_reverse_nothing(
    picture: Picture,
    cells: Cells,
    right: u16,
    l: VideoLayout,
    n: nat,
    p: (u16, u16),
)
    requires
        cells.contains_key(p),
        !is_reversed(cells[p]),
    ensures
        picture.paint_rows(cells, right, l, n).contains_key(p),
        !is_reversed(picture.paint_rows(cells, right, l, n)[p]),
    decreases n,
{
    if n > 0 {
        let m = (n - 1) as nat;
        lemma_rows_reverse_nothing(picture, cells, right, l, m, p);
        lemma_row_reverses_nothing(
            picture,
            picture.paint_rows(cells, right, l, m),
            right,
            l,
            m as int,
            l.draw_w as nat,
            p,
        );
    }
}

/// Whether a buffer holds exactly as many columns as the area, and every cell of it.
pub open spec fn covers(buf: Buffer, area: Area) -> bool {
    &&& buffer_right(buf) == area.width
    &&& forall|cx: u16, cy: u16|
        cx < area.width && cy < area.height ==> #[trigger] buffer_cells(buf).contains_key((cx, cy))
}

/// A whole frame can be drawn on a screen of one row or more, once a pixel is sampled for every
/// slot.
pub proof fn whole_frame_is_drawable(buf: Buffer, area: Area, picture: Picture)
    requires
        area.x == 0,
        area.y == 0,
        area.height > 0,
        covers(buf, area),
        picture_is_countable(area, picture),
        picture.frame_w > 0,
        picture.frame_h > 0,
        picture.frame_w * picture.frame_h * 3 <= picture.frame@.len(),
        picture.layout(area).draw_w <= picture.sampling.cols@.len(),
        picture.layout(area).draw_h <= picture.sampling.tops@.len(),
        picture.layout(area).draw_h <= picture.sampling.bottoms@.len(),
    ensures
        drawable(buf, area, picture),
{
    let l = picture.layout(area);
    let (len, w, h) = (picture.frame@.len() as int, picture.frame_w as int, picture.frame_h as int);
    let s = *picture.sampling;
    assert forall|x: int, y: int|
        #![trigger picture.sampling.cols@[x], picture.sampling.tops@[y]]
        0 <= x < l.draw_w && 0 <= y < l.draw_h implies picture.pixels_held(x, y) by {
        whole_frame_holds_pixels(len, s.cols@[x] as int, s.tops@[y] as int, w, h);
        whole_frame_holds_pixels(len, s.cols@[x] as int, s.bottoms@[y] as int, w, h);
    }
    assert forall|y: u16| l.offset_y <= y < l.offset_y + l.draw_h implies #[trigger] holds_row(
        buf,
        l.offset_x,
        y,
    ) by {
        assert(y < area.height);
    }
}

proof fn lemma_share(k: int, n: int, total: int)
    requires
        0 <= k < n,
        total > 0,
    ensures
        0 <= k * total / n < total,
{
    vstd::arithmetic::mul::lemma_mul_nonnegative(k, total);
    vstd::arithmetic::div_mod::lemma_div_pos_is_pos(k * total, n);
    assert(k * total < n * total) by (nonlinear_arith)
        requires
            k < n,
            total > 0,
    ;
    vstd::arithmetic::mul::lemma_mul_is_commutative(n, total);
    vstd::arithmetic::div_mod::lemma_multiply_divide_lt(k * total, n, total);
}

/// An exact sampling takes pixels of the frame alone, the lower of a slot no higher than the upper,
/// and those of slots further right and below no further left and above.
pub proof fn exact_sampling_stays_in_frame(
    s: Sampling,
    w: int,
    h: int,
    frame_w: int,
    frame_h: int,
    x: int,
    y: int,
)
    requires
        is_exact_sampling(s, w, h, frame_w, frame_h),
        frame_w > 0,
        frame_h > 0,
        0 <= x < w,
        0 <= y < h,
    ensures
        s.cols@[x] < frame_w,
        s.tops@[y] <= s.bottoms@[y] < frame_h,
        x + 1 < w ==> s.cols@[x] <= s.cols@[x + 1],
        y + 1 < h ==> s.bottoms@[y] <= s.tops@[y + 1],
{
    lemma_share(x, w, frame_w);
    lemma_share(2 * y + 1, 2 * h, frame_h);
    lemma_half_rows(y, h, frame_h);
    lemma_half_rows(y + 1, h, frame_h);
    vstd::arithmetic::mul::lemma_mul_inequality(x, x + 1, frame_w);
    vstd::arithmetic::div_mod::lemma_div_is_ordered(x * frame_w, (x + 1) * frame_w, w);
    vstd::arithmetic::mul::lemma_mul_inequality(2 * y, 2 * y + 1, frame_h);
    vstd::arithmetic::mul::lemma_mul_inequality(2 * y + 1, 2 * (y + 1), frame_h);
    vstd::arithmetic::div_mod::lemma_div_is_ordered(
        (2 * y) * frame_h,
        (2 * y + 1) * frame_h,
        2 * h,
    );
    vstd::arithmetic::div_mod::lemma_div_is_ordered(
        (2 * y + 1) * frame_h,
        (2 * (y + 1)) * frame_h,
        2 * h,
    );
}

proof fn lemma_half_rows(y: int, h: int, frame_h: int)
    requires
        h > 0,
        frame_h >= 0,
        y >= 0,
    ensures
        (2 * y) * frame_h / (2 * h) == y * frame_h / h,
{
    assert((2 * y) * frame_h == 2 * (y * frame_h)) by (nonlinear_arith);
    vstd::arithmetic::div_mod::lemma_div_denominator(2 * (y * frame_h), 2, h);
    vstd::arithmetic::div_mod::lemma_div_multiples_vanish(y * frame_h, 2);
}

/// Where the frame has two rows to each row of the video, an exact sampling shows both: a slot shows
/// the pixels of its column in the frame's rows `2 * y` and `2 * y + 1`.
pub proof fn exact_sampling_shows_every_row(area: Area, picture: Picture, x: int, y: int)
    requires
        ({
            let l = picture.layout(area);
            &&& is_exact_sampling(
                *picture.sampling,
                l.draw_w as int,
                l.draw_h as int,
                picture.frame_w as int,
                picture.frame_h as int,
            )
            &&& picture.frame_h == 2 * l.draw_h
            &&& 0 <= x < l.draw_w
            &&& 0 <= y < l.draw_h
        }),
    ensures
        ({
            let (w, h) = (picture.frame_w as int, picture.frame_h as int);
            let col = x * w / (picture.layout(area).draw_w as int);
            &&& picture.top_rgb(x, y) == rgb_at(picture.frame@, col, 2 * y, w, h)
            &&& picture.bottom_rgb(x, y) == rgb_at(picture.frame@, col, 2 * y + 1, w, h)
        }),
{
    let h = picture.layout(area).draw_h as int;
    assert(y * (2 * h) == (2 * y) * h) by (nonlinear_arith);
    vstd::arithmetic::div_mod::lemma_div_by_multiple(2 * y, h);
    vstd::arithmetic::div_mod::lemma_div_by_multiple(2 * y + 1, 2 * h);
    assert(picture.sampling.cols@[x] == x * (picture.frame_w as int) / (picture.layout(
        area,
    ).draw_w as int));
    assert(picture.sampling.tops@[y] == 2 * y);
    assert(picture.sampling.bottoms@[y] == 2 * y + 1);
}

/// On a screen without reverse video the controls bar is reversed from its first column to the
/// right edge, and nothing else is: where the graphemes of its text take up one column each and
/// reach the edge.
pub proof fn bar_is_exclusively_on_its_row(
    cells: Cells,
    right: u16,
    area: Area,
    picture: Picture,
    bar: Seq<Grapheme>,
    p: (u16, u16),
)
    requires
        bar_row_of(area) <= u16::MAX,
        one_column_up_to(bar, area.x as int, right),
        area.x + bar.len() >= right,
        cells.contains_key(p),
        p.0 < right,
        !is_reversed(cells[p]),
    ensures
        ({
            let after = paint_screen(cells, right, area, picture, bar);
            &&& after.contains_key(p)
            &&& is_reversed(after[p]) <==> p.1 == bar_row_of(area) && p.0 >= area.x
        }),
{
    let l = picture.layout(area);
    let paint = Paint { fg: None, bg: None, modifier: REVERSED };
    lemma_rows_reverse_nothing(picture, cells, right, l, l.draw_h as nat, p);
    let video = picture.paint_video(cells, right, l);
    lemma_paint_narrow(video, right, area.x as int, bar_row_of(area) as u16, bar, paint, p);
    lemma_no_bits(video[p].modifier);
}

/// The bar shows its text: where its graphemes take up one column each, every one of them stands
/// in the column of its position.
pub proof fn bar_shows_its_text(
    cells: Cells,
    right: u16,
    area: Area,
    picture: Picture,
    bar: Seq<Grapheme>,
    i: int,
    p: (u16, u16),
)
    requires
        bar_row_of(area) <= u16::MAX,
        one_column_up_to(bar, area.x as int, right),
        cells.contains_key(p),
        0 <= i < bar.len(),
        p.0 == area.x + i,
        p.0 < right,
        p.1 == bar_row_of(area),
    ensures
        paint_screen(cells, right, area, picture, bar).contains_key(p),
        paint_screen(cells, right, area, picture, bar)[p].symbol == bar[i].0,
{
    let l = picture.layout(area);
    let paint = Paint { fg: None, bg: None, modifier: REVERSED };
    lemma_rows_keep(picture, cells, right, l, l.draw_h as nat, p);
    let video = picture.paint_video(cells, right, l);
    lemma_paint_narrow(video, right, area.x as int, bar_row_of(area) as u16, bar, paint, p);
}

/// A bar of narrow characters is reversed on every column of the last row of a screen without
/// reverse video, and nothing else is. It shows its line, character by character, in the colors
/// that the row had.
pub proof fn narrow_bar_is_exclusively_on_last_row(
    cells: Cells,
    area: Area,
    picture: Picture,
    bar: Bar,
    p: (u16, u16),
)
    requires
        area.x == 0,
        area.y == 0,
        area.height > 0,
        all_narrow(bar.line(area.width, area.height)),
        cells.contains_key(p),
        p.0 < area.width,
        !is_reversed(cells[p]),
    ensures
        ({
            let line = bar.line(area.width, area.height);
            let after = paint_screen(cells, area.width, area, picture, one_column_each(line));
            &&& after.contains_key(p)
            &&& is_reversed(after[p]) <==> p.1 == area.height - 1
            &&& p.1 == area.height - 1 ==> {
                &&& after[p].symbol == seq![line[p.0 as int]]
                &&& after[p].fg == cells[p].fg
                &&& after[p].bg == cells[p].bg
            }
        }),
{
    let gs = one_column_each(bar.line(area.width, area.height));
    bar_is_exclusively_on_its_row(cells, area.width, area, picture, gs, p);
    if p.1 == area.height - 1 {
        bar_shows_its_text(cells, area.width, area, picture, gs, p.0 as int, p);
        let l = picture.layout(area);
        let paint = Paint { fg: None, bg: None, modifier: REVERSED };
        crate::layout::video_stays_above_bar(
            area.width,
            area.height,
            picture.fit,
            step_of(picture.render_mode),
        );
        lemma_rows_elsewhere(picture, cells, area.width, l, l.draw_h as nat, p);
        let video = picture.paint_video(cells, area.width, l);
        lemma_paint_narrow(video, area.width, 0, p.1, gs, paint, p);
    }
}

/// Outside of the video and the row of the bar every cell keeps what it showed.
pub proof fn letterbox_is_untouched(
    cells: Cells,
    right: u16,
    area: Area,
    picture: Picture,
    bar: Seq<Grapheme>,
    p: (u16, u16),
)
    requires
        picture_is_countable(area, picture),
        picture.render_mode.fits_slots(),
        bar_row_of(area) <= u16::MAX,
        cells.contains_key(p),
        p.1 != bar_row_of(area),
        !in_video(p, picture.layout(area), step_of(picture.render_mode)),
    ensures
        paint_screen(cells, right, area, picture, bar).contains_key(p),
        paint_screen(cells, right, area, picture, bar)[p] == cells[p],
{
    let l = picture.layout(area);
    lemma_countable(area, picture);
    lemma_rows_elsewhere(picture, cells, right, l, l.draw_h as nat, p);
    lemma_paint_elsewhere(
        picture.paint_video(cells, right, l),
        right,
        area.x as int,
        bar_row_of(area) as u16,
        bar,
        Paint { fg: None, bg: None, modifier: REVERSED },
        p,
    );
}

/// In full color each cell of the video shows the upper half block, with its upper pixel as
/// foreground and its lower pixel as background.
pub proof fn full_color_shows_both_pixels(
    cells: Cells,
    right: u16,
    area: Area,
    picture: Picture,
    bar: Seq<Grapheme>,
    x: int,
    y: int,
    p: (u16, u16),
)
    requires
        picture_is_countable(area, picture),
        picture.render_mode == RenderMode::FullColor,
        bar_row_of(area) <= u16::MAX,
        cells.contains_key(p),
        p.0 < right,
        p.1 != bar_row_of(area),
        0 <= x < picture.layout(area).draw_w,
        0 <= y < picture.layout(area).draw_h,
        p.0 == picture.layout(area).offset_x + x,
        p.1 == picture.layout(area).offset_y + y,
    ensures
        paint_screen(cells, right, area, picture, bar).contains_key(p),
        paint_screen(cells, right, area, picture, bar)[p] == (CellView {
            symbol: seq!['▀'],
            fg: CellColor::Rgb(toned(picture.top_rgb(x, y), *picture.tone)),
            bg: CellColor::Rgb(toned(picture.bottom_rgb(x, y), *picture.tone)),
            modifier: cells[p].modifier,
        }),
{
    let l = picture.layout(area);
    lemma_countable(area, picture);
    lemma_rows_slot(picture, cells, right, l, l.draw_h as nat, x, y, p);
    lemma_no_bits(cells[p].modifier);
    lemma_paint_elsewhere(
        picture.paint_video(cells, right, l),
        right,
        area.x as int,
        bar_row_of(area) as u16,
        bar,
        Paint { fg: None, bg: None, modifier: REVERSED },
        p,
    );
}

/// With a character set the first cell of each slot shows the character for its two pixels, lit
/// or not, in the color of the upper pixel where colors are on: where the character takes up
/// columns and does not reach beyond the screen. Where it takes up none the cell keeps what it
/// showed.
pub proof fn charset_shows_pixel_states(
    cells: Cells,
    right: u16,
    area: Area,
    picture: Picture,
    bar: Seq<Grapheme>,
    x: int,
    y: int,
    p: (u16, u16),
)
    requires
        picture_is_countable(area, picture),
        picture.render_mode is Charset,
        picture.render_mode.fits_slots(),
        bar_row_of(area) <= u16::MAX,
        cells.contains_key(p),
        p.0 + step_of(picture.render_mode) <= right,
        p.1 != bar_row_of(area),
        0 <= x < picture.layout(area).draw_w,
        0 <= y < picture.layout(area).draw_h,
        p.0 == picture.layout(area).offset_x + x * step_of(picture.render_mode),
        p.1 == picture.layout(area).offset_y + y,
    ensures
        ({
            let after = paint_screen(cells, right, area, picture, bar);
            let top = is_lit(picture.top_rgb(x, y), *picture.tone);
            let bottom = is_lit(picture.bottom_rgb(x, y), *picture.tone);
            let c = state_char(picture.render_mode->Charset_0, top, bottom);
            &&& after.contains_key(p)
            &&& after[p] == if char_columns(c) is Some && char_columns(c)->0 > 0 {
                CellView {
                    symbol: seq![c],
                    fg: if picture.colorize {
                        CellColor::Rgb(toned(picture.top_rgb(x, y), *picture.tone))
                    } else {
                        cells[p].fg
                    },
                    bg: cells[p].bg,
                    modifier: cells[p].modifier,
                }
            } else {
                cells[p]
            }
        }),
{
    let l = picture.layout(area);
    lemma_countable(area, picture);
    lemma_rows_slot(picture, cells, right, l, l.draw_h as nat, x, y, p);
    lemma_slot_graphemes(picture, x, y);
    lemma_no_bits(cells[p].modifier);
    lemma_paint_elsewhere(
        picture.paint_video(cells, right, l),
        right,
        area.x as int,
        bar_row_of(area) as u16,
        bar,
        Paint { fg: None, bg: None, modifier: REVERSED },
        p,
    );
}

/// The label of a custom character set is made of narrow characters, where its four are.
pub proof fn custom_label_is_narrow(prefix: Seq<char>, cs: CharSet)
    requires
        all_narrow(prefix),
        is_narrow(cs.empty),
        is_narrow(cs.top),
        is_narrow(cs.bottom),
        is_narrow(cs.full),
    ensures
        all_narrow(custom_label(prefix, cs)),
{
}

/// Whether a cell has the background of the terminal, and its foreground unless colors are on.
pub open spec fn in_default_colors(cell: CellView, colorize: bool) -> bool {
    cell.bg == CellColor::Reset && (colorize || cell.fg == CellColor::Reset)
}

proof fn lemma_paint_default_colors(
    cells: Cells,
    right: u16,
    x: int,
    y: u16,
    gs: Seq<Grapheme>,
    paint: Paint,
    colorize: bool,
    p: (u16, u16),
)
    requires
        cells.contains_key(p),
        in_default_colors(cells[p], colorize),
        paint.bg is None,
        colorize || paint.fg is None,
    ensures
        paint_graphemes(cells, right, x, y, gs, paint).contains_key(p),
        in_default_colors(paint_graphemes(cells, right, x, y, gs, paint)[p], colorize),
    decreases gs.len(),
{
    if gs.len() == 0 || x + gs[0].1 > right {
    } else {
        let next = paint_grapheme(cells, x, y, gs[0], paint);
        lemma_paint_default_colors(
            next,
            right,
            x + gs[0].1,
            y,
            gs.drop_first(),
            paint,
            colorize,
            p,
        );
    }
}

proof fn lemma_row_default_colors(
    picture: Picture,
    cells: Cells,
    right: u16,
    l: VideoLayout,
    y: int,
    n: nat,
    p: (u16, u16),
)
    requires
        picture.render_mode is Charset,
        cells.contains_key(p),
        in_default_colors(cells[p], picture.colorize),
    ensures
        picture.paint_row(cells, right, l, y, n).contains_key(p),
        in_default_colors(picture.paint_row(cells, right, l, y, n)[p], picture.colorize),
    decreases n,
{
    if n > 0 {
        let x = n - 1;
        lemma_row_default_colors(picture, cells, right, l, y, x as nat, p);
        lemma_paint_default_colors(
            picture.paint_row(cells, right, l, y, x as nat),
            right,
            l.offset_x + x * step_of(picture.render_mode),
            (l.offset_y + y) as u16,
            picture.slot_graphemes(x, y),
            picture.slot_paint(x, y),
            picture.colorize,
            p,
        );
    }
}

proof fn lemma_rows_default_colors(
    picture: Picture,
    cells: Cells,
    right: u16,
    l: VideoLayout,
    n: nat,
    p: (u16, u16),
)
    requires
        picture.render_mode is Charset,
        cells.contains_key(p),
        in_default_colors(cells[p], picture.colorize),
    ensures
        picture.paint_rows(cells, right, l, n).contains_key(p),
        in_default_colors(picture.paint_rows(cells, right, l, n)[p], picture.colorize),
    decreases n,
{
    if n > 0 {
        let m = (n - 1) as nat;
        lemma_rows_default_colors(picture, cells, right, l, m, p);
        lemma_row_default_colors(
            picture,
            picture.paint_rows(cells, right, l, m),
            right,
            l,
            m as int,
            l.draw_w as nat,
            p,
        );
    }
}

/// A character set leaves the background as the terminal's default everywhere, and without colors
/// the foreground too.
pub proof fn charset_leaves_default_colors(
    cells: Cells,
    right: u16,
    area: Area,
    picture: Picture,
    bar: Seq<Grapheme>,
    p: (u16, u16),
)
    requires
        picture.render_mode is Charset,
        cells.contains_key(p),
        in_default_colors(cells[p], picture.colorize),
    ensures
        paint_screen(cells, right, area, picture, bar).contains_key(p),
        in_default_colors(
            paint_screen(cells, right, area, picture, bar)[p],
            picture.colorize,
        ),
{
    let l = picture.layout(area);
    lemma_rows_default_colors(picture, cells, right, l, l.draw_h as nat, p);
    lemma_paint_default_colors(
        picture.paint_video(cells, right, l),
        right,
        area.x as int,
        bar_row_of(area) as u16,
        bar,
        Paint { fg: None, bg: None, modifier: REVERSED },
        picture.colorize,
        p,
    );
}

/// Whether the columns and rows of the video can be counted.
pub open spec fn picture_is_countable(area: Area, picture: Picture) -> bool {
    let step = step_of(picture.render_mode);
    step > 0 && crate::layout::columns_countable(area.height, picture.fit, step)
}

proof fn lemma_countable(area: Area, picture: Picture)
    requires
        picture_is_countable(area, picture),
    ensures
        ({
            let l = picture.layout(area);
            l.offset_y + l.draw_h <= u16::MAX
        }),
{
    crate::layout::video_is_countable(
        area.width,
        area.height,
        picture.fit,
        step_of(picture.render_mode),
    );
}

proof fn lemma_rows_keep(
    picture: Picture,
    cells: Cells,
    right: u16,
    l: VideoLayout,
    n: nat,
    p: (u16, u16),
)
    requires
        cells.contains_key(p),
    ensures
        picture.paint_rows(cells, right, l, n).contains_key(p),
    decreases n,
{
    if n > 0 {
        let m = (n - 1) as nat;
        lemma_rows_keep(picture, cells, right, l, m, p);
        lemma_row_keeps(
            picture,
            picture.paint_rows(cells, right, l, m),
            right,
            l,
            m as int,
            l.draw_w as nat,
            p,
        );
    }
}

proof fn lemma_row_keeps(
    picture: Picture,
    cells: Cells,
    right: u16,
    l: VideoLayout,
    y: int,
    n: nat,
    p: (u16, u16),
)
    requires
        cells.contains_key(p),
    ensures
        picture.paint_row(cells, right, l, y, n).contains_key(p),
    decreases n,
{
    if n > 0 {
        let x = n - 1;
        lemma_row_keeps(picture, cells, right, l, y, x as nat, p);
        crate::screen::painting_keeps_cells(
            picture.paint_row(cells, right, l, y, x as nat),
            right,
            l.offset_x + x * step_of(picture.render_mode),
            (l.offset_y + y) as u16,
            picture.slot_graphemes(x, y),
            picture.slot_paint(x, y),
        );
    }
}

proof fn lemma_narrow_concat(a: Seq<char>, b: Seq<char>)
    requires
        all_narrow(a),
        all_narrow(b),
    ensures
        all_narrow(a + b),
{
    assert forall|i: int| 0 <= i < (a + b).len() implies is_narrow(#[trigger] (a + b)[i]) by {
        if i < a.len() {
            assert((a + b)[i] == a[i]);
        } else {
            assert((a + b)[i] == b[i - a.len()]);
        }
    }
}

proof fn lemma_narrow_decimal(n: nat)
    ensures
        all_narrow(decimal(n)),
{
    lemma_decimal_digits(n);
}

/// Every character of the bar is narrow, where those of the label and of the two numbers are.
pub proof fn bar_is_narrow(bar: Bar, term_w: u16, term_h: u16)
    requires
        all_narrow(bar.mode_label@),
        all_narrow(bar.fps@),
        all_narrow(bar.brightness@),
    ensures
        all_narrow(bar.line(term_w, term_h)),
{
    reveal_strlit("fps  ");
    reveal_strlit("x");
    reveal_strlit("  [");
    reveal_strlit("]  [←/→] mode  [↑/↓] brt:");
    reveal_strlit("  [k] ");
    reveal_strlit("resume");
    reveal_strlit("pause");
    reveal_strlit("  [j] -10s  [l] +10s  [c] color  [q] quit  [h] hide");
    reveal_strlit(" [");
    reveal_strlit("]  [h] show controls");
    lemma_narrow_decimal(term_w as nat);
    lemma_narrow_decimal(term_h as nat);
    if bar.show_controls {
        let end = if bar.paused {
            "resume"@
        } else {
            "pause"@
        };
        let s1 = bar.fps@ + "fps  "@;
        let s2 = s1 + decimal(term_w as nat);
        let s3 = s2 + "x"@;
        let s4 = s3 + decimal(term_h as nat);
        let s5 = s4 + "  ["@;
        let s6 = s5 + bar.mode_label@;
        let s7 = s6 + "]  [←/→] mode  [↑/↓] brt:"@;
        let s8 = s7 + bar.brightness@;
        let s9 = s8 + "  [k] "@;
        let s10 = s9 + end;
        let s11 = s10 + "  [j] -10s  [l] +10s  [c] color  [q] quit  [h] hide"@;
        lemma_narrow_concat(bar.fps@, "fps  "@);
        lemma_narrow_concat(s1, decimal(term_w as nat));
        lemma_narrow_concat(s2, "x"@);
        lemma_narrow_concat(s3, decimal(term_h as nat));
        lemma_narrow_concat(s4, "  ["@);
        lemma_narrow_concat(s5, bar.mode_label@);
        lemma_narrow_concat(s6, "]  [←/→] mode  [↑/↓] brt:"@);
        lemma_narrow_concat(s7, bar.brightness@);
        lemma_narrow_concat(s8, "  [k] "@);
        lemma_narrow_concat(s9, end);
        lemma_narrow_concat(s10, "  [j] -10s  [l] +10s  [c] color  [q] quit  [h] hide"@);
        assert(bar.text(term_w, term_h) == s11);
    } else {
        lemma_narrow_concat(" ["@, bar.mode_label@);
        lemma_narrow_concat(" ["@ + bar.mode_label@, "]  [h] show controls"@);
    }
    let text = bar.text(term_w, term_h);
    let line = fitted(text, term_w as nat);
    assert forall|i: int| 0 <= i < line.len() implies is_narrow(#[trigger] line[i]) by {
        if i < text.len() {
            assert(line[i] == text[i]);
        }
    }
}

/// The names of the built-in modes are made of narrow characters.
pub proof fn builtin_names_are_narrow(i: int)
    requires
        0 <= i < MODE_COUNT,
    ensures
        all_narrow(builtin_modes()[i].0),
{
    reveal_strlit("full-color");
    reveal_strlit("ascii-color");
    reveal_strlit("ascii");
    reveal_strlit("braille");
    reveal_strlit("korean");
    reveal_strlit("shading");
}

/// What cell `k` of a slot shows: the first the character, those that it covers too are empty, and
/// the others keep what they had, as they all do where it is not painted.
spec fn slot_cell(
    picture: Picture,
    cell: CellView,
    right: u16,
    x: int,
    y: int,
    at: int,
    k: int,
) -> CellView {
    let gs = picture.slot_graphemes(x, y);
    if gs.len() == 1 && at + gs[0].1 <= right && k < gs[0].1 {
        if k == 0 {
            painted(cell, gs[0].0, picture.slot_paint(x, y))
        } else {
            blank()
        }
    } else {
        cell
    }
}

proof fn lemma_paint_cell(
    cells: Cells,
    right: u16,
    x: int,
    y: u16,
    gs: Seq<Grapheme>,
    paint: Paint,
    p: (u16, u16),
    k: int,
)
    requires
        cells.contains_key(p),
        gs.len() <= 1,
        gs.len() == 1 ==> gs[0].1 > 0,
        k >= 0,
        p.1 == y,
        p.0 == x + k,
    ensures
        paint_graphemes(cells, right, x, y, gs, paint).contains_key(p),
        paint_graphemes(cells, right, x, y, gs, paint)[p] == if gs.len() == 1 && x + gs[0].1 <= right
            && k < gs[0].1 {
            if k == 0 {
                painted(cells[p], gs[0].0, paint)
            } else {
                blank()
            }
        } else {
            cells[p]
        },
{
    reveal_with_fuel(paint_graphemes, 2);
}

proof fn lemma_row_cell(
    picture: Picture,
    cells: Cells,
    right: u16,
    l: VideoLayout,
    y: int,
    n: nat,
    x: int,
    k: int,
    p: (u16, u16),
)
    requires
        cells.contains_key(p),
        picture.render_mode.fits_slots(),
        0 <= x < n,
        0 <= k < step_of(picture.render_mode),
        p.1 == (l.offset_y + y) as u16,
        p.0 == l.offset_x + x * step_of(picture.render_mode) + k,
    ensures
        picture.paint_row(cells, right, l, y, n).contains_key(p),
        picture.paint_row(cells, right, l, y, n)[p] == slot_cell(
            picture,
            cells[p],
            right,
            x,
            y,
            p.0 - k,
            k,
        ),
    decreases n,
{
    let step = step_of(picture.render_mode) as int;
    let last = n - 1;
    let before = picture.paint_row(cells, right, l, y, last as nat);
    let at = l.offset_x + last * step;
    let cy = (l.offset_y + y) as u16;
    let gs = picture.slot_graphemes(last, y);
    let paint = picture.slot_paint(last, y);
    lemma_slot_graphemes(picture, last, y);
    if x == last {
        lemma_row_elsewhere(picture, cells, right, l, y, last as nat, p);
        lemma_paint_cell(before, right, at, cy, gs, paint, p, k);
    } else {
        assert(x * step + step <= last * step) by (nonlinear_arith)
            requires
                x + 1 <= last,
                step > 0,
        ;
        lemma_row_cell(picture, cells, right, l, y, last as nat, x, k, p);
        lemma_paint_elsewhere(before, right, at, cy, gs, paint, p);
    }
}

proof fn lemma_rows_cell(
    picture: Picture,
    cells: Cells,
    right: u16,
    l: VideoLayout,
    n: nat,
    x: int,
    y: int,
    k: int,
    p: (u16, u16),
)
    requires
        cells.contains_key(p),
        n <= l.draw_h,
        l.offset_y + l.draw_h <= u16::MAX,
        picture.render_mode.fits_slots(),
        0 <= x < l.draw_w,
        0 <= y < n,
        0 <= k < step_of(picture.render_mode),
        p.1 == l.offset_y + y,
        p.0 == l.offset_x + x * step_of(picture.render_mode) + k,
    ensures
        picture.paint_rows(cells, right, l, n).contains_key(p),
        picture.paint_rows(cells, right, l, n)[p] == slot_cell(
            picture,
            cells[p],
            right,
            x,
            y,
            p.0 - k,
            k,
        ),
    decreases n,
{
    let m = (n - 1) as nat;
    let before = picture.paint_rows(cells, right, l, m);
    if y == m {
        lemma_rows_elsewhere(picture, cells, right, l, m, p);
        lemma_row_cell(picture, before, right, l, y, l.draw_w as nat, x, k, p);
    } else {
        lemma_rows_cell(picture, cells, right, l, m, x, y, k, p);
        lemma_row_elsewhere(picture, before, right, l, m as int, l.draw_w as nat, p);
    }
}

/// In full color each cell of the video shows the upper half block in the bytes of the frame: its
/// foreground are the three bytes of the pixel sampled for its upper half, its background those of
/// the pixel sampled for its lower half, red, green and blue in this order, each as the brightness
/// shows it.
pub proof fn full_color_shows_the_bytes(
    cells: Cells,
    right: u16,
    area: Area,
    picture: Picture,
    bar: Seq<Grapheme>,
    x: int,
    y: int,
    p: (u16, u16),
)
    requires
        picture.render_mode == RenderMode::FullColor,
        area.y + area.height <= u16::MAX,
        cells.contains_key(p),
        p.0 < right,
        p.1 != area.y + area.height - 1,
        0 <= x < layout_of(area.width, area.height, picture.fit, 1).draw_w,
        0 <= y < layout_of(area.width, area.height, picture.fit, 1).draw_h,
        p.0 == layout_of(area.width, area.height, picture.fit, 1).offset_x + x,
        p.1 == layout_of(area.width, area.height, picture.fit, 1).offset_y + y,
        picture.sampling.cols@[x] < picture.frame_w,
        picture.sampling.tops@[y] < picture.frame_h,
        picture.sampling.bottoms@[y] < picture.frame_h,
    ensures
        ({
            let after = paint_screen(cells, right, area, picture, bar);
            let (f, table) = (picture.frame@, picture.tone.channel@);
            let upper = 3 * (picture.sampling.tops@[y] * picture.frame_w + picture.sampling.cols@[x]);
            let lower = 3 * (picture.sampling.bottoms@[y] * picture.frame_w
                + picture.sampling.cols@[x]);
            &&& after.contains_key(p)
            &&& after[p].symbol == seq!['▀']
            &&& after[p].fg == CellColor::Rgb(
                (table[f[upper] as int], table[f[upper + 1] as int], table[f[upper + 2] as int]),
            )
            &&& after[p].bg == CellColor::Rgb(
                (table[f[lower] as int], table[f[lower + 1] as int], table[f[lower + 2] as int]),
            )
            &&& after[p].modifier == cells[p].modifier
        }),
{
    crate::layout::video_needs_room(area.width, area.height, picture.fit, 1);
    bar_row_is_the_last(area);
    full_color_shows_both_pixels(cells, right, area, picture, bar, x, y, p);
    let (w, h) = (picture.frame_w as int, picture.frame_h as int);
    let col = picture.sampling.cols@[x] as int;
    colors_are_bytes_of_the_frame(picture.frame@, col, picture.sampling.tops@[y] as int, w, h);
    colors_are_bytes_of_the_frame(picture.frame@, col, picture.sampling.bottoms@[y] as int, w, h);
    channels_are_weighted(picture.top_rgb(x, y), *picture.tone);
    channels_are_weighted(picture.bottom_rgb(x, y), *picture.tone);
}

/// With a character set each slot of the video shows a character by the bytes of the frame: a pixel
/// is lit where its bytes, red by 299, green by 587 and blue by 114, reach the threshold, and the
/// character is that for the two pixels sampled for the slot. Where colors are on its foreground are
/// the bytes of the upper pixel, each as the brightness shows it. The further cells that the
/// character covers are empty, and those of the slot that it does not cover keep what they had, as
/// all do where it would reach beyond the right edge.
pub proof fn charset_shows_the_bytes(
    cells: Cells,
    right: u16,
    area: Area,
    picture: Picture,
    bar: Seq<Grapheme>,
    x: int,
    y: int,
    k: int,
    p: (u16, u16),
)
    requires
        picture.render_mode is Charset,
        picture.render_mode->Charset_0.fits_slots(),
        area.y + area.height <= u16::MAX,
        picture.fit.rows >= area.height ==> picture.fit.chars
            * picture.render_mode->Charset_0.col_width <= u16::MAX,
        cells.contains_key(p),
        p.1 != area.y + area.height - 1,
        ({
            let step = picture.render_mode->Charset_0.col_width;
            let l = layout_of(area.width, area.height, picture.fit, step);
            &&& 0 <= x < l.draw_w
            &&& 0 <= y < l.draw_h
            &&& 0 <= k < step
            &&& p.0 == l.offset_x + x * step + k
            &&& p.1 == l.offset_y + y
        }),
        picture.sampling.cols@[x] < picture.frame_w,
        picture.sampling.tops@[y] < picture.frame_h,
        picture.sampling.bottoms@[y] < picture.frame_h,
    ensures
        ({
            let after = paint_screen(cells, right, area, picture, bar);
            let cs = picture.render_mode->Charset_0;
            let (f, table) = (picture.frame@, picture.tone.channel@);
            let upper = 3 * (picture.sampling.tops@[y] * picture.frame_w + picture.sampling.cols@[x]);
            let lower = 3 * (picture.sampling.bottoms@[y] * picture.frame_w
                + picture.sampling.cols@[x]);
            let top = 299 * f[upper] + 587 * f[upper + 1] + 114 * f[upper + 2]
                >= picture.tone.lit_from;
            let bottom = 299 * f[lower] + 587 * f[lower + 1] + 114 * f[lower + 2]
                >= picture.tone.lit_from;
            let c = if top && bottom {
                cs.full
            } else if top {
                cs.top
            } else if bottom {
                cs.bottom
            } else {
                cs.empty
            };
            let n = if char_columns(c) is Some {
                char_columns(c)->0 as int
            } else {
                0
            };
            &&& after.contains_key(p)
            &&& k == 0 && n > 0 && p.0 + n <= right ==> {
                &&& after[p].symbol == seq![c]
                &&& picture.colorize ==> after[p].fg == CellColor::Rgb(
                    (table[f[upper] as int], table[f[upper + 1] as int], table[f[upper + 2] as int]),
                )
                &&& !picture.colorize ==> after[p].fg == cells[p].fg
                &&& after[p].bg == cells[p].bg
                &&& after[p].modifier == cells[p].modifier
            }
            &&& 0 < k < n && p.0 - k + n <= right ==> after[p].symbol == seq![' '] && after[p].fg == CellColor::Reset
                && after[p].bg == CellColor::Reset && after[p].modifier == 0
            &&& k >= n || p.0 - k + n > right ==> after[p] == cells[p]
        }),
{
    let cs = picture.render_mode->Charset_0;
    let l = picture.layout(area);
    crate::charset::fitting_is_taking_no_more_columns(cs);
    crate::layout::video_needs_room(area.width, area.height, picture.fit, cs.col_width);
    bar_row_is_the_last(area);
    lemma_countable(area, picture);
    lemma_rows_cell(picture, cells, right, l, l.draw_h as nat, x, y, k, p);
    lemma_slot_graphemes(picture, x, y);
    lemma_no_bits(cells[p].modifier);
    lemma_paint_elsewhere(
        picture.paint_video(cells, right, l),
        right,
        area.x as int,
        bar_row_of(area) as u16,
        bar,
        Paint { fg: None, bg: None, modifier: REVERSED },
        p,
    );
    let (w, h) = (picture.frame_w as int, picture.frame_h as int);
    let col = picture.sampling.cols@[x] as int;
    colors_are_bytes_of_the_frame(picture.frame@, col, picture.sampling.tops@[y] as int, w, h);
    colors_are_bytes_of_the_frame(picture.frame@, col, picture.sampling.bottoms@[y] as int, w, h);
    channels_are_weighted(picture.top_rgb(x, y), *picture.tone);
    channels_are_weighted(picture.bottom_rgb(x, y), *picture.tone);
}

/// The bar stands on the last row of the area.
pub proof fn bar_row_is_the_last(area: Area)
    ensures
        area.height > 0 ==> bar_row_of(area) == area.y + area.height - 1,
        area.height == 0 ==> bar_row_of(area) == area.y,
{
}

/// Every cell keeps what it had that is neither on the last row of the area nor among the columns and
/// rows of the video.
pub proof fn only_video_and_bar_are_drawn(
    cells: Cells,
    right: u16,
    area: Area,
    picture: Picture,
    bar: Seq<Grapheme>,
    p: (u16, u16),
)
    requires
        area.height > 0,
        area.y + area.height <= u16::MAX,
        picture.render_mode is Charset ==> {
            let cs = picture.render_mode->Charset_0;
            &&& cs.fits_slots()
            &&& picture.fit.rows >= area.height ==> picture.fit.chars * cs.col_width <= u16::MAX
        },
        cells.contains_key(p),
        p.1 != area.y + area.height - 1,
        ({
            let step = if picture.render_mode is Charset {
                picture.render_mode->Charset_0.col_width
            } else {
                1
            };
            let l = layout_of(area.width, area.height, picture.fit, step);
            ||| p.0 < l.offset_x
            ||| p.0 >= l.offset_x + l.draw_w * step
            ||| p.1 < l.offset_y
            ||| p.1 >= l.offset_y + l.draw_h
        }),
    ensures
        paint_screen(cells, right, area, picture, bar).contains_key(p),
        paint_screen(cells, right, area, picture, bar)[p] == cells[p],
{
    bar_row_is_the_last(area);
    if let RenderMode::Charset(cs) = picture.render_mode {
        crate::charset::fitting_is_taking_no_more_columns(cs);
    }
    letterbox_is_untouched(cells, right, area, picture, bar, p);
}

/// A whole frame can be drawn on every screen of one row or more that the area covers, in full color
/// always, and with a character set where the slots at the full height can be counted.
pub proof fn every_whole_frame_can_be_drawn(buf: Buffer, area: Area, picture: Picture)
    requires
        area.x == 0,
        area.y == 0,
        area.height > 0,
        buffer_right(buf) == area.width,
        forall|cx: u16, cy: u16|
            cx < area.width && cy < area.height ==> #[trigger] buffer_cells(buf).contains_key(
                (cx, cy),
            ),
        picture.frame_w > 0,
        picture.frame_h > 0,
        picture.frame_w * picture.frame_h * 3 <= picture.frame@.len(),
        ({
            let step = if picture.render_mode is Charset {
                picture.render_mode->Charset_0.col_width
            } else {
                1
            };
            let l = layout_of(area.width, area.height, picture.fit, step);
            &&& picture.sampling.cols@.len() >= l.draw_w
            &&& picture.sampling.tops@.len() >= l.draw_h
            &&& picture.sampling.bottoms@.len() >= l.draw_h
        }),
        picture.render_mode is Charset ==> {
            let cs = picture.render_mode->Charset_0;
            &&& cs.col_width > 0
            &&& picture.fit.rows >= area.height ==> picture.fit.chars * cs.col_width <= u16::MAX
        },
    ensures
        drawable(buf, area, picture),
{
    whole_frame_is_drawable(buf, area, picture);
}

/// The text of the bar: with the controls the numbers, the size, the label in brackets and the keys,
/// where the pausing key is named for what it does next; without them the label and the key that
/// shows them.
pub proof fn bar_tells_the_state(bar: Bar, term_w: u16, term_h: u16)
    ensures
        bar.text(term_w, term_h) == if !bar.show_controls {
            " ["@ + bar.mode_label@ + "]  [h] show controls"@
        } else {
            bar.fps@ + "fps  "@ + decimal(term_w as nat) + "x"@ + decimal(term_h as nat) + "  ["@
                + bar.mode_label@ + "]  [←/→] mode  [↑/↓] brt:"@ + bar.brightness@ + (
            "  [k] "@) + (if bar.paused {
                "resume"@
            } else {
                "pause"@
            }) + "  [j] -10s  [l] +10s  [c] color  [q] quit  [h] hide"@
        },
        bar.line(term_w, term_h).len() == term_w,
        forall|i: int|
            0 <= i < term_w ==> #[trigger] bar.line(term_w, term_h)[i] == if i < bar.text(
                term_w,
                term_h,
            ).len() {
                bar.text(term_w, term_h)[i]
            } else {
                ' '
            },
{
}

} // verus!
