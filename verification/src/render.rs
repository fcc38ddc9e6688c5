//! One picture of the player: the video, and the controls bar below it.

use crate::charset::{CharSet, RenderMode};
use crate::layout::{columns_countable, compute_layout, layout_of, Fit, VideoLayout};
use crate::layout::{video_is_countable, video_rows};
use crate::pixels::{adjust_rgb, get_pixel, get_rgb, has_pixel, is_lit, pixel_held, rgb_at, toned, Tone};
use crate::screen::{
    all_narrow, buffer_cells, buffer_right, holds_row, lone_char, one_column_each, paint_graphemes,
    painting_keeps_cells, row_is_held, set_string, visible_graphemes, Cells, Grapheme, Paint, Rgb, REVERSED,
};
use crate::text::{decimal, fit_text, fitted, push_decimal};
use ratatui::buffer::Buffer;
use vstd::prelude::*;
use vstd::string::StringExecFns;

verus! {

/// The part of the screen to draw on.
#[derive(Debug, Clone, Copy, PartialEq, Eq, Structural)]
pub struct Area {
    pub x: u16,
    pub y: u16,
    pub width: u16,
    pub height: u16,
}

/// Which pixels of the frame the slots of the video show.
pub struct Sampling {
    /// For each slot of a row the column of its pixels.
    pub cols: Vec<usize>,
    /// For each row of slots the row of the upper pixels.
    pub tops: Vec<usize>,
    /// For each row of slots the row of the lower pixels.
    pub bottoms: Vec<usize>,
}

/// A frame and how it is drawn.
pub struct Picture<'a> {
    pub frame: &'a [u8],
    pub frame_w: usize,
    pub frame_h: usize,
    pub render_mode: RenderMode,
    pub colorize: bool,
    pub tone: &'a Tone,
    pub fit: Fit,
    pub sampling: &'a Sampling,
}

/// What the controls bar tells.
pub struct Bar<'a> {
    pub mode_label: &'a str,
    pub show_controls: bool,
    pub paused: bool,
    /// Frames per second, as shown.
    pub fps: &'a str,
    /// Brightness, as shown.
    pub brightness: &'a str,
}

/// Whether a sampling of `w` slots by `h` rows takes, without error but for rounding down, the
/// pixels of a frame that stand where the slots do: the upper where the slot begins, the lower where
/// its lower half begins.
pub open spec fn is_exact_sampling(s: Sampling, w: int, h: int, frame_w: int, frame_h: int) -> bool {
    &&& s.cols@.len() >= w
    &&& s.tops@.len() >= h
    &&& s.bottoms@.len() >= h
    &&& forall|x: int| 0 <= x < w ==> #[trigger] s.cols@[x] == x * frame_w / w
    &&& forall|y: int| 0 <= y < h ==> #[trigger] s.tops@[y] == y * frame_h / h
    &&& forall|y: int| 0 <= y < h ==> #[trigger] s.bottoms@[y] == (2 * y + 1) * frame_h / (2 * h)
}

/// Terminal columns of a slot.
pub open spec fn step_of(mode: RenderMode) -> u16 {
    match mode {
        RenderMode::Charset(cs) => cs.col_width,
        RenderMode::FullColor => 1,
    }
}

/// The character for the state of the two pixels of a slot.
pub open spec fn state_char(cs: CharSet, top: bool, bottom: bool) -> char {
    if top {
        if bottom {
            cs.full
        } else {
            cs.top
        }
    } else {
        if bottom {
            cs.bottom
        } else {
            cs.empty
        }
    }
}

impl<'a> Picture<'a> {
    /// Where the video stands.
    pub open spec fn layout(self, area: Area) -> VideoLayout {
        layout_of(area.width, area.height, self.fit, step_of(self.render_mode))
    }

    /// The color of the upper pixel of a slot.
    pub open spec fn top_rgb(self, x: int, y: int) -> Rgb {
        rgb_at(
            self.frame@,
            self.sampling.cols@[x] as int,
            self.sampling.tops@[y] as int,
            self.frame_w as int,
            self.frame_h as int,
        )
    }

    /// The color of the lower pixel of a slot.
    pub open spec fn bottom_rgb(self, x: int, y: int) -> Rgb {
        rgb_at(
            self.frame@,
            self.sampling.cols@[x] as int,
            self.sampling.bottoms@[y] as int,
            self.frame_w as int,
            self.frame_h as int,
        )
    }

    /// The character of a slot.
    pub open spec fn slot_char(self, x: int, y: int) -> char {
        match self.render_mode {
            RenderMode::FullColor => '▀',
            RenderMode::Charset(cs) => state_char(
                cs,
                is_lit(self.top_rgb(x, y), *self.tone),
                is_lit(self.bottom_rgb(x, y), *self.tone),
            ),
        }
    }

    /// The character of a slot with its columns.
    pub open spec fn slot_graphemes(self, x: int, y: int) -> Seq<Grapheme> {
        match self.render_mode {
            RenderMode::FullColor => one_column_each(seq!['▀']),
            RenderMode::Charset(_) => lone_char(self.slot_char(x, y)),
        }
    }

    /// The colors of a slot.
    pub open spec fn slot_paint(self, x: int, y: int) -> Paint {
        match self.render_mode {
            RenderMode::FullColor => Paint {
                fg: Some(toned(self.top_rgb(x, y), *self.tone)),
                bg: Some(toned(self.bottom_rgb(x, y), *self.tone)),
                modifier: 0,
            },
            RenderMode::Charset(_) => Paint {
                fg: if self.colorize {
                    Some(toned(self.top_rgb(x, y), *self.tone))
                } else {
                    None
                },
                bg: None,
                modifier: 0,
            },
        }
    }

    /// Whether the sampling covers a video of `w` slots by `h` rows with pixels of the frame.
    pub open spec fn sampled(self, w: int, h: int) -> bool {
        &&& w <= self.sampling.cols@.len()
        &&& h <= self.sampling.tops@.len()
        &&& h <= self.sampling.bottoms@.len()
        &&& forall|x: int, y: int|
            #![trigger self.sampling.cols@[x], self.sampling.tops@[y]]
            0 <= x < w && 0 <= y < h ==> self.pixels_held(x, y)
    }

    /// Whether the frame holds the two pixels of a slot.
    pub open spec fn pixels_held(self, x: int, y: int) -> bool {
        let (len, w, h) = (self.frame@.len() as int, self.frame_w as int, self.frame_h as int);
        let col = self.sampling.cols@[x] as int;
        &&& pixel_held(len, col, self.sampling.tops@[y] as int, w, h)
        &&& pixel_held(len, col, self.sampling.bottoms@[y] as int, w, h)
    }

    /// Paints the first `n` slots of a row.
    pub open spec fn paint_row(
        self,
        cells: Cells,
        right: u16,
        l: VideoLayout,
        y: int,
        n: nat,
    ) -> Cells
        decreases n,
    {
        if n == 0 {
            cells
        } else {
            let x = n - 1;
            paint_graphemes(
                self.paint_row(cells, right, l, y, (n - 1) as nat),
                right,
                l.offset_x + x * step_of(self.render_mode),
                (l.offset_y + y) as u16,
                self.slot_graphemes(x, y),
                self.slot_paint(x, y),
            )
        }
    }

    /// Paints the first `n` rows of the video.
    pub open spec fn paint_rows(self, cells: Cells, right: u16, l: VideoLayout, n: nat) -> Cells
        decreases n,
    {
        if n == 0 {
            cells
        } else {
            self.paint_row(
                self.paint_rows(cells, right, l, (n - 1) as nat),
                right,
                l,
                n - 1,
                l.draw_w as nat,
            )
        }
    }

    /// Paints the video.
    pub open spec fn paint_video(self, cells: Cells, right: u16, l: VideoLayout) -> Cells {
        self.paint_rows(cells, right, l, l.draw_h as nat)
    }
}

impl<'a> Bar<'a> {
    /// The text of the bar in a terminal of the given size.
    pub open spec fn text(self, term_w: u16, term_h: u16) -> Seq<char> {
        if self.show_controls {
            self.fps@ + "fps  "@ + decimal(term_w as nat) + "x"@ + decimal(term_h as nat) + "  ["@
                + self.mode_label@ + "]  [←/→] mode  [↑/↓] brt:"@ + self.brightness@ + "  [k] "@
                + (if self.paused {
                "resume"@
            } else {
                "pause"@
            }) + "  [j] -10s  [l] +10s  [c] color  [q] quit  [h] hide"@
        } else {
            " ["@ + self.mode_label@ + "]  [h] show controls"@
        }
    }

    /// The bar: its text in exactly one terminal width.
    pub open spec fn line(self, term_w: u16, term_h: u16) -> Seq<char> {
        fitted(self.text(term_w, term_h), term_w as nat)
    }
}

/// The row of the controls bar.
pub open spec fn bar_row_of(area: Area) -> int {
    area.y + crate::layout::rows_above_bar(area.height)
}

/// Paints the picture, and over it the bar with the given graphemes.
pub open spec fn paint_screen(
    cells: Cells,
    right: u16,
    area: Area,
    picture: Picture,
    bar: Seq<Grapheme>,
) -> Cells {
    paint_graphemes(
        picture.paint_video(cells, right, picture.layout(area)),
        right,
        area.x as int,
        bar_row_of(area) as u16,
        bar,
        Paint { fg: None, bg: None, modifier: REVERSED },
    )
}

/// Whether the picture can be drawn on `area` of `buf`: its slots and rows can be counted, its
/// pixels are there, and the buffer has the rows of the video and of the bar.
pub open spec fn drawable(buf: Buffer, area: Area, picture: Picture) -> bool {
    let step = step_of(picture.render_mode);
    let l = picture.layout(area);
    &&& step > 0
    &&& columns_countable(area.height, picture.fit, step)
    &&& picture.sampled(l.draw_w as int, l.draw_h as int)
    &&& bar_row_of(area) <= u16::MAX
    &&& holds_row(buf, area.x, bar_row_of(area) as u16)
    &&& forall|y: u16|
        l.offset_y <= y < l.offset_y + l.draw_h ==> #[trigger] holds_row(buf, l.offset_x, y)
}

/// The text of the controls bar, in exactly one terminal width.
pub fn bar_line(bar: &Bar, term_w: u16, term_h: u16) -> (line: String)
    ensures
        line@ == bar.line(term_w, term_h),
        line@.len() == term_w,
        forall|i: int|
            0 <= i < term_w ==> #[trigger] line@[i] == {
                let text = (if bar.show_controls {
                        bar.fps@ + "fps  "@ + decimal(term_w as nat) + "x"@ + decimal(term_h as nat) + "  ["@
                            + bar.mode_label@ + "]  [←/→] mode  [↑/↓] brt:"@ + bar.brightness@ + "  [k] "@ + (
                        if bar.paused {
                            "resume"@
                        } else {
                            "pause"@
                        }) + "  [j] -10s  [l] +10s  [c] color  [q] quit  [h] hide"@
                    } else {
                        " ["@ + bar.mode_label@ + "]  [h] show controls"@
                    });
                if i < text.len() {
                    text[i]
                } else {
                    ' '
                }
            },
{
    let mut text = String::new();
    if bar.show_controls {
        text.append(bar.fps);
        text.append("fps  ");
        push_decimal(&mut text, term_w as usize);
        text.append("x");
        push_decimal(&mut text, term_h as usize);
        text.append("  [");
        text.append(bar.mode_label);
        text.append("]  [←/→] mode  [↑/↓] brt:");
        text.append(bar.brightness);
        text.append("  [k] ");
        if bar.paused {
            text.append("resume");
        } else {
            text.append("pause");
        }
        text.append("  [j] -10s  [l] +10s  [c] color  [q] quit  [h] hide");
    } else {
        text.append(" [");
        text.append(bar.mode_label);
        text.append("]  [h] show controls");
    }
    // Pad/truncate by char count (not bytes) so multi-byte chars like ← → don't misalign.
    assert(text@ =~= bar.text(term_w, term_h));
    fit_text(text.as_str(), term_w)
}

/// Draws one slot of the video at column `cell_x` of row `cell_y`.
fn draw_slot(buf: &mut Buffer, picture: &Picture, x: usize, y: usize, cell_x: u16, cell_y: u16)
    requires
        x < picture.sampling.cols@.len(),
        y < picture.sampling.tops@.len(),
        y < picture.sampling.bottoms@.len(),
        picture.pixels_held(x as int, y as int),
        holds_row(*old(buf), cell_x, cell_y),
    ensures
        buffer_right(*final(buf)) == buffer_right(*old(buf)),
        buffer_cells(*final(buf)) == paint_graphemes(
            buffer_cells(*old(buf)),
            buffer_right(*old(buf)),
            cell_x as int,
            cell_y,
            picture.slot_graphemes(x as int, y as int),
            picture.slot_paint(x as int, y as int),
        ),
{
    let (w, h) = (picture.frame_w, picture.frame_h);
    let src_x: usize = picture.sampling.cols[x];
    let src_y_top: usize = picture.sampling.tops[y];
    let src_y_bot: usize = picture.sampling.bottoms[y];
    let mut symbol = String::new();
    match picture.render_mode {
        RenderMode::FullColor => {
            let fg = adjust_rgb(get_rgb(picture.frame, src_x, src_y_top, w, h), picture.tone);
            let bg = adjust_rgb(get_rgb(picture.frame, src_x, src_y_bot, w, h), picture.tone);
            symbol.push('▀');
            let paint = Paint { fg: Some(fg), bg: Some(bg), modifier: 0 };
            assert(symbol@ =~= seq!['▀']);
            set_string(buf, cell_x, cell_y, symbol.as_str(), &paint);
        },
        RenderMode::Charset(cs) => {
            let top = get_pixel(picture.frame, src_x, src_y_top, w, h, picture.tone);
            let bottom = get_pixel(picture.frame, src_x, src_y_bot, w, h, picture.tone);
            let ch = match (top, bottom) {
                (false, false) => cs.empty,
                (true, false) => cs.top,
                (false, true) => cs.bottom,
                (true, true) => cs.full,
            };
            let fg = if picture.colorize {
                Some(adjust_rgb(get_rgb(picture.frame, src_x, src_y_top, w, h), picture.tone))
            } else {
                None
            };
            symbol.push(ch);
            let paint = Paint { fg, bg: None, modifier: 0 };
            assert(symbol@ =~= seq![ch]);
            set_string(buf, cell_x, cell_y, symbol.as_str(), &paint);
        },
    }
}

/// Draws one row of the video.
fn draw_row(buf: &mut Buffer, picture: &Picture, l: &VideoLayout, col_step: u16, y: u16)
    requires
        col_step == step_of(picture.render_mode),
        y < l.draw_h,
        l.offset_x + l.draw_w * col_step <= u16::MAX,
        l.offset_y + l.draw_h <= u16::MAX,
        picture.sampled(l.draw_w as int, l.draw_h as int),
        holds_row(*old(buf), l.offset_x, (l.offset_y + y) as u16),
    ensures
        buffer_right(*final(buf)) == buffer_right(*old(buf)),
        buffer_cells(*final(buf)) == picture.paint_row(
            buffer_cells(*old(buf)),
            buffer_right(*old(buf)),
            *l,
            y as int,
            l.draw_w as nat,
        ),
        buffer_cells(*final(buf)).dom() == buffer_cells(*old(buf)).dom(),
{
    let cell_y: u16 = l.offset_y + y;
    let mut x: u16 = 0;
    while x < l.draw_w
        invariant
            x <= l.draw_w,
            y < l.draw_h,
            cell_y == l.offset_y + y,
            col_step == step_of(picture.render_mode),
            l.offset_x + l.draw_w * col_step <= u16::MAX,
            picture.sampled(l.draw_w as int, l.draw_h as int),
            holds_row(*old(buf), l.offset_x, cell_y),
            buffer_right(*buf) == buffer_right(*old(buf)),
            buffer_cells(*buf) == picture.paint_row(
                buffer_cells(*old(buf)),
                buffer_right(*old(buf)),
                *l,
                y as int,
                x as nat,
            ),
            buffer_cells(*buf).dom() == buffer_cells(*old(buf)).dom(),
        decreases l.draw_w - x,
    {
        assert(0 <= x * col_step <= l.draw_w * col_step) by (nonlinear_arith)
            requires
                0 <= x <= l.draw_w,
                0 <= col_step,
        ;
        let cell_x: u16 = l.offset_x + x * col_step;
        proof {
            assert(picture.pixels_held(x as int, y as int)) by {
                let _ = picture.sampling.cols@[x as int];
                let _ = picture.sampling.tops@[y as int];
            }
            assert forall|cx: u16| cell_x <= cx < buffer_right(*buf) implies #[trigger] buffer_cells(
                *buf,
            ).contains_key((cx, cell_y)) by {
                assert(buffer_cells(*old(buf)).contains_key((cx, cell_y)));
            }
            painting_keeps_cells(
                buffer_cells(*buf),
                buffer_right(*buf),
                cell_x as int,
                cell_y,
                picture.slot_graphemes(x as int, y as int),
                picture.slot_paint(x as int, y as int),
            );
        }
        draw_slot(buf, picture, x as usize, y as usize, cell_x, cell_y);
        x = x + 1;
    }
}

/// Draws the video, and on the last row of `area` the controls bar.
///
/// Cells that neither the video nor the bar reaches keep what they had.
pub fn render_to_buf(buf: &mut Buffer, area: Area, picture: &Picture, bar: &Bar)
    requires
        drawable(*old(buf), area, *picture),
    ensures
        buffer_right(*final(buf)) == buffer_right(*old(buf)),
        buffer_cells(*final(buf)) == paint_screen(
            buffer_cells(*old(buf)),
            buffer_right(*old(buf)),
            area,
            *picture,
            visible_graphemes(bar.line(area.width, area.height)),
        ),
        all_narrow(bar.line(area.width, area.height)) ==> buffer_cells(*final(buf)) == paint_screen(
            buffer_cells(*old(buf)),
            buffer_right(*old(buf)),
            area,
            *picture,
            one_column_each(bar.line(area.width, area.height)),
        ),
{
    let col_step: u16 = match picture.render_mode {
        RenderMode::Charset(cs) => cs.col_width,
        RenderMode::FullColor => 1,
    };
    let l = compute_layout(area.width, area.height, picture.fit, col_step);
    proof {
        video_is_countable(area.width, area.height, picture.fit, col_step);
    }
    let mut y: u16 = 0;
    while y < l.draw_h
        invariant
            y <= l.draw_h,
            col_step == step_of(picture.render_mode),
            l == picture.layout(area),
            l.offset_x + l.draw_w * col_step <= u16::MAX,
            l.offset_y + l.draw_h <= u16::MAX,
            drawable(*old(buf), area, *picture),
            buffer_right(*buf) == buffer_right(*old(buf)),
            buffer_cells(*buf) == picture.paint_rows(
                buffer_cells(*old(buf)),
                buffer_right(*old(buf)),
                l,
                y as nat,
            ),
            buffer_cells(*buf).dom() == buffer_cells(*old(buf)).dom(),
        decreases l.draw_h - y,
    {
        proof {
            let cy = (l.offset_y + y) as u16;
            assert(holds_row(*old(buf), l.offset_x, cy));
            assert forall|cx: u16|
                l.offset_x <= cx < buffer_right(*buf) implies #[trigger] buffer_cells(
                *buf,
            ).contains_key((cx, cy)) by {
                assert(buffer_cells(*old(buf)).contains_key((cx, cy)));
            }
        }
        draw_row(buf, picture, &l, col_step, y);
        y = y + 1;
    }

    // Controls bar: full-width reverse-video strip on bar_row (the last terminal row).
    let line = bar_line(bar, area.width, area.height);
    let bar_y: u16 = area.y + l.bar_row;
    proof {
        assert forall|cx: u16| area.x <= cx < buffer_right(*buf) implies #[trigger] buffer_cells(
            *buf,
        ).contains_key((cx, bar_y)) by {
            assert(buffer_cells(*old(buf)).contains_key((cx, bar_y)));
        }
    }
    let paint = Paint { fg: None, bg: None, modifier: REVERSED };
    set_string(buf, area.x, bar_y, line.as_str(), &paint);
}

/// Whether the picture can be drawn on `area` of `buf`.
pub fn can_draw(buf: &Buffer, area: Area, picture: &Picture) -> (r: bool)
    ensures
        r == drawable(*buf, area, *picture),
{
    let col_step: u16 = match picture.render_mode {
        RenderMode::Charset(cs) => cs.col_width,
        RenderMode::FullColor => 1,
    };
    if col_step == 0 {
        return false;
    }
    if picture.fit.rows > video_rows(area.height) && picture.fit.chars.checked_mul(
        col_step,
    ).is_none() {
        return false;
    }
    let l = compute_layout(area.width, area.height, picture.fit, col_step);
    proof {
        video_is_countable(area.width, area.height, picture.fit, col_step);
    }
    if !has_samples(picture, l.draw_w as usize, l.draw_h as usize) {
        return false;
    }
    if area.y > 65535 - l.bar_row || !row_is_held(buf, area.x, area.y + l.bar_row) {
        return false;
    }
    let mut y: u16 = l.offset_y;
    while y < l.offset_y + l.draw_h
        invariant
            l.offset_y <= y,
            l.offset_y + l.draw_h <= u16::MAX,
            forall|cy: u16|
                l.offset_y <= cy < y ==> #[trigger] holds_row(*buf, l.offset_x, cy),
            l == picture.layout(area),
        ensures
            forall|cy: u16|
                l.offset_y <= cy < l.offset_y + l.draw_h ==> #[trigger] holds_row(
                    *buf,
                    l.offset_x,
                    cy,
                ),
        decreases l.offset_y + l.draw_h - y,
    {
        if !row_is_held(buf, l.offset_x, y) {
            return false;
        }
        y = y + 1;
    }
    true
}

/// Whether the sampling covers a video of `w` slots by `h` rows with pixels of the frame.
fn has_samples(picture: &Picture, w: usize, h: usize) -> (r: bool)
    ensures
        r == picture.sampled(w as int, h as int),
{
    let s = picture.sampling;
    if w > s.cols.len() || h > s.tops.len() || h > s.bottoms.len() {
        return false;
    }
    let len = picture.frame.len();
    let mut y: usize = 0;
    while y < h
        invariant
            y <= h,
            s == picture.sampling,
            len == picture.frame@.len(),
            w <= s.cols@.len(),
            h <= s.tops@.len(),
            h <= s.bottoms@.len(),
            forall|i: int, j: int|
                #![trigger picture.sampling.cols@[i], picture.sampling.tops@[j]]
                0 <= i < w && 0 <= j < y ==> picture.pixels_held(i, j),
        decreases h - y,
    {
        let mut x: usize = 0;
        while x < w
            invariant
                x <= w,
                y < h,
                s == picture.sampling,
                len == picture.frame@.len(),
                w <= s.cols@.len(),
                h <= s.tops@.len(),
                h <= s.bottoms@.len(),
                forall|i: int, j: int|
                    #![trigger picture.sampling.cols@[i], picture.sampling.tops@[j]]
                    0 <= i < w && 0 <= j < y ==> picture.pixels_held(i, j),
                forall|i: int|
                    #![trigger picture.sampling.cols@[i]]
                    0 <= i < x ==> picture.pixels_held(i, y as int),
            decreases w - x,
        {
            if !has_pixel(len, s.cols[x], s.tops[y], picture.frame_w, picture.frame_h)
                || !has_pixel(len, s.cols[x], s.bottoms[y], picture.frame_w, picture.frame_h) {
                assert(!picture.pixels_held(x as int, y as int));
                let ghost col = picture.sampling.cols@[x as int];
                let ghost top = picture.sampling.tops@[y as int];
                return false;
            }
            x = x + 1;
        }
        y = y + 1;
    }
    true
}

/// Draws like `render_to_buf` where the picture can be drawn, and nothing where it cannot.
pub fn try_render(buf: &mut Buffer, area: Area, picture: &Picture, bar: &Bar) -> (drawn: bool)
    ensures
        drawn == drawable(*old(buf), area, *picture),
        !drawn ==> *final(buf) == *old(buf),
        drawn ==> buffer_right(*final(buf)) == buffer_right(*old(buf)),
        drawn ==> buffer_cells(*final(buf)) == paint_screen(
            buffer_cells(*old(buf)),
            buffer_right(*old(buf)),
            area,
            *picture,
            visible_graphemes(bar.line(area.width, area.height)),
        ),
        drawn && all_narrow(bar.line(area.width, area.height)) ==> buffer_cells(*final(buf))
            == paint_screen(
            buffer_cells(*old(buf)),
            buffer_right(*old(buf)),
            area,
            *picture,
            one_column_each(bar.line(area.width, area.height)),
        ),
{
    if can_draw(buf, area, picture) {
        render_to_buf(buf, area, picture, bar);
        true
    } else {
        false
    }
}

} // verus!
