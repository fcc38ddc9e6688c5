use bad_apple::charset::{CharSet, RenderMode};
use bad_apple::layout::{
    aspect_correction, compute_layout, max_chars, video_rows, Fit, VideoLayout,
};
use bad_apple::meta::VideoMeta;
use bad_apple::pixels::Tone;
use bad_apple::render::{bar_line, can_draw, render_to_buf, try_render};
use bad_apple::render::{Area, Bar, Picture, Sampling};
use bad_apple::screen::{row_is_held, REVERSED};
use ratatui::buffer::Buffer;
use ratatui::layout::{Position, Rect};
use ratatui::style::{Color, Modifier};
use unicode_width::{UnicodeWidthChar, UnicodeWidthStr};

fn make_meta(orig_w: usize, orig_h: usize) -> VideoMeta {
    VideoMeta {
        orig_width: orig_w,
        orig_height: orig_h,
        frame_width: orig_w,
        frame_height: orig_h,
    }
}

fn fit(tw: u16, th: u16, aspect: f32, col_step: u16) -> Fit {
    let tall = aspect_correction(col_step) as f32;
    Fit {
        rows: (max_chars(tw, col_step) as f32 / aspect / tall).round() as u16,
        chars: (video_rows(th) as f32 * tall * aspect).round() as u16,
    }
}

fn layout(tw: u16, th: u16, aspect: f32, col_step: u16) -> VideoLayout {
    compute_layout(tw, th, fit(tw, th, aspect, col_step), col_step)
}

fn sampling(l: &VideoLayout, frame_w: usize, frame_h: usize) -> Sampling {
    Sampling {
        cols: (0..l.draw_w)
            .map(|x| ((x as f32 / l.draw_w as f32) * frame_w as f32) as usize)
            .collect(),
        tops: (0..l.draw_h)
            .map(|y| ((y as f32 / l.draw_h as f32) * frame_h as f32) as usize)
            .collect(),
        bottoms: (0..l.draw_h)
            .map(|y| (((y as f32 + 0.5) / l.draw_h as f32) * frame_h as f32) as usize)
            .collect(),
    }
}

fn tone(brightness: f32) -> Tone {
    let mut channel = [0u8; 256];
    for (c, shown) in channel.iter_mut().enumerate() {
        *shown = (c as f32 + brightness * 255.0).clamp(0.0, 255.0) as u8;
    }
    let lit = |luma: u32| luma as f32 + brightness * 128_000.0 > 128_000.0;
    Tone { channel, lit_from: (0..=255_000).filter(|l| !lit(*l)).count() as u32 }
}

fn solid_frame(w: usize, h: usize) -> Vec<u8> {
    // Non-black/non-default so FullColor video cells are identifiable.
    vec![128u8; w * h * 3]
}

fn whole(tw: u16, th: u16) -> Area {
    Area { x: 0, y: 0, width: tw, height: th }
}

struct Look<'a> {
    mode: RenderMode,
    colorize: bool,
    brightness: f32,
    label: &'a str,
    show_controls: bool,
    paused: bool,
}

fn full_color(show_controls: bool) -> Look<'static> {
    Look {
        mode: RenderMode::FullColor,
        colorize: false,
        brightness: 0.0,
        label: "full-color",
        show_controls,
        paused: false,
    }
}

fn draw(tw: u16, th: u16, meta: &VideoMeta, frame: &[u8], look: &Look) -> Buffer {
    let area = Rect::new(0, 0, tw, th);
    let mut buf = Buffer::empty(area);
    let step = match look.mode {
        RenderMode::Charset(cs) => cs.col_width,
        RenderMode::FullColor => 1,
    };
    let aspect = meta.orig_width as f32 / meta.orig_height as f32;
    let fit = fit(tw, th, aspect, step);
    let l = compute_layout(tw, th, fit, step);
    let sampling = sampling(&l, meta.frame_width, meta.frame_height);
    let tone = tone(look.brightness);
    let picture = Picture {
        frame,
        frame_w: meta.frame_width,
        frame_h: meta.frame_height,
        render_mode: look.mode,
        colorize: look.colorize,
        tone: &tone,
        fit,
        sampling: &sampling,
    };
    let brightness = format!("{:+.1}", look.brightness);
    let bar = Bar {
        mode_label: look.label,
        show_controls: look.show_controls,
        paused: look.paused,
        fps: "30.0",
        brightness: &brightness,
    };
    assert!(can_draw(&buf, whole(tw, th), &picture));
    render_to_buf(&mut buf, whole(tw, th), &picture, &bar);
    buf
}

fn render_test_buf(tw: u16, th: u16, meta: &VideoMeta, show_controls: bool) -> Buffer {
    let frame = solid_frame(meta.frame_width, meta.frame_height);
    draw(tw, th, meta, &frame, &full_color(show_controls))
}

fn row_text(buf: &Buffer, tw: u16, row: u16) -> String {
    (0..tw).map(|x| buf.cell(Position::new(x, row)).unwrap().symbol().to_string()).collect()
}

// ── layout invariants ──────────────────────────────────────────────────────

/// The video must never spill into the bar row.
#[test]
fn layout_video_stays_above_bar() {
    let cases = [
        (80u16, 24u16, 16.0_f32 / 9.0, 1u16),
        (160, 50, 16.0 / 9.0, 1),
        (120, 40, 4.0 / 3.0, 1),
        (80, 24, 4.0 / 3.0, 2), // wide chars
        (200, 60, 21.0 / 9.0, 1), // ultra-wide
        (80, 24, 1.0 / 3.0, 1),  // very tall video
    ];
    for (tw, th, aspect, col_step) in cases {
        let l = layout(tw, th, aspect, col_step);
        let last_video_row = l.offset_y + l.draw_h - 1;
        assert!(
            last_video_row < l.bar_row,
            "tw={tw} th={th}: video last row {last_video_row} >= bar row {}",
            l.bar_row
        );
    }
}

/// The bar row is always the last terminal row.
#[test]
fn layout_bar_row_is_last_row() {
    for th in [1u16, 2, 10, 24, 50, 100] {
        let l = layout(80, th, 16.0 / 9.0, 1);
        assert_eq!(l.bar_row, th - 1, "th={th}: bar_row should be {}", th - 1);
    }
}

/// The video should fill the full terminal width when the aspect ratio allows.
#[test]
fn layout_maximizes_width_for_wide_video() {
    // 16:9 at 160 wide: draw_h will be within video_h so width won't be clipped.
    let l = layout(160, 50, 16.0 / 9.0, 1);
    assert_eq!(l.draw_w, 160, "wide video should fill full width");
    assert_eq!(l.offset_x, 0);
}

/// The video should be horizontally centered (left/right padding equal ±1).
#[test]
fn layout_horizontal_centering() {
    // 4:3 in 160-wide terminal forces height clamping → narrower video → side padding.
    let l = layout(160, 50, 4.0 / 3.0, 1);
    let used_cols = l.draw_w * 1;
    let left = l.offset_x;
    let right = 160u16.saturating_sub(left + used_cols);
    assert!(
        (left as i32 - right as i32).abs() <= 1,
        "not centered: left={left} right={right}"
    );
}

/// The video should be vertically centered within the video area (±1 for rounding).
#[test]
fn layout_vertical_centering() {
    let l = layout(160, 50, 16.0 / 9.0, 1);
    let top = l.offset_y;
    // Space below video but above the bar row.
    let bottom = l.bar_row.saturating_sub(l.offset_y + l.draw_h);
    assert!(
        (top as i32 - bottom as i32).abs() <= 1,
        "not vertically centered: top={top} bottom={bottom} bar={}",
        l.bar_row
    );
}

/// Video must stay within terminal width.
#[test]
fn layout_video_within_width() {
    for col_step in [1u16, 2] {
        let l = layout(80, 24, 16.0 / 9.0, col_step);
        assert!(
            l.offset_x + l.draw_w * col_step <= 80,
            "video overflows terminal width (col_step={col_step})"
        );
    }
}

#[test]
fn layout_exact_values() {
    let l = layout(160, 50, 16.0 / 9.0, 1);
    assert_eq!(l, VideoLayout { draw_w: 160, draw_h: 45, offset_x: 0, offset_y: 2, bar_row: 49 });
    let l = layout(80, 24, 4.0 / 3.0, 2);
    assert_eq!(l, VideoLayout { draw_w: 31, draw_h: 23, offset_x: 8, offset_y: 0, bar_row: 23 });
}

#[test]
fn layout_of_tiny_terminals() {
    for (tw, th) in [(0u16, 0u16), (1, 1), (0, 5), (5, 0), (1, 2)] {
        for step in [1u16, 2] {
            let l = layout(tw, th, 16.0 / 9.0, step);
            assert_eq!(l.draw_w >= 1, tw >= step);
            assert_eq!(l.draw_h >= 1, th >= 2);
            assert_eq!(l.bar_row, th.saturating_sub(1));
        }
    }
}

#[test]
fn single_row_belongs_to_the_bar() {
    let l = layout(80, 1, 16.0 / 9.0, 1);
    assert_eq!((l.draw_h, l.offset_y, l.bar_row), (0, 0, 0));
    let buf = render_test_buf(80, 1, &make_meta(16, 9), true);
    for col in 0..80 {
        let cell = buf.cell(Position::new(col, 0)).unwrap();
        assert_eq!((cell.fg, cell.bg), (Color::Reset, Color::Reset));
        assert!(cell.modifier.contains(Modifier::REVERSED));
    }
}

#[test]
fn terminal_narrower_than_a_character_has_no_video() {
    let l = layout(1, 24, 4.0 / 3.0, 2);
    assert_eq!((l.draw_w, l.offset_x), (0, 0));
}

#[test]
fn taller_terminals_never_shrink_the_video() {
    for (aspect, step) in [(16.0 / 9.0, 1u16), (4.0 / 3.0, 2), (0.3, 1), (300.0, 1), (0.001, 2)] {
        for tw in [0u16, 1, 2, 37, 80, 543] {
            let mut before = layout(tw, 0, aspect, step);
            for th in 1u16..200 {
                let l = layout(tw, th, aspect, step);
                assert!(before.draw_w <= l.draw_w && before.draw_h <= l.draw_h);
                before = l;
            }
        }
    }
}

#[test]
fn brightness_from_black_to_white() {
    let steps: Vec<Tone> = (-10..=10).map(|i| tone(i as f32 / 10.0)).collect();
    for pair in steps.windows(2) {
        assert!(pair[0].lit_from >= pair[1].lit_from);
        assert!(pair[0].channel.iter().zip(&pair[1].channel).all(|(a, b)| a <= b));
    }
    let (black, none, white) = (&steps[0], &steps[10], &steps[20]);
    assert!(black.channel.iter().all(|c| *c == 0) && black.lit_from > 255_000);
    assert!(none.channel.iter().enumerate().all(|(i, c)| i == *c as usize));
    assert_eq!(none.lit_from, 128_001);
    assert!(white.channel.iter().all(|c| *c == 255));
    assert_eq!(white.lit_from, 1);
}

#[test]
fn character_sets_leave_default_colors() {
    let frame: Vec<u8> = (0..16 * 9 * 3).map(|i| (i * 7 % 256) as u8).collect();
    for colorize in [false, true] {
        for set in [CharSet::ascii(), CharSet::korean()] {
            let look = Look { mode: RenderMode::Charset(set), colorize, ..full_color(true) };
            let buf = draw(40, 12, &make_meta(16, 9), &frame, &look);
            assert!(buf.content().iter().all(|cell| cell.bg == Color::Reset));
            assert!(colorize || buf.content().iter().all(|cell| cell.fg == Color::Reset));
        }
    }
}

#[test]
fn layout_laws_hold_over_many_terminals() {
    for tw in 0u16..200 {
        for th in 0u16..60 {
            for (aspect, step) in [(16.0 / 9.0, 1u16), (4.0 / 3.0, 2), (0.3, 1), (5.0, 2)] {
                let f = fit(tw, th, aspect, step);
                let l = compute_layout(tw, th, f, step);
                let cols = l.draw_w * step;
                assert!(l.offset_x + cols <= tw);
                assert!(l.offset_y + l.draw_h <= l.bar_row);
                assert!(l.draw_w == tw / step || l.draw_h == l.bar_row);
                let right = tw - l.offset_x - cols;
                assert!(right >= l.offset_x && right - l.offset_x < 2 * step);
                let below = l.bar_row - l.offset_y - l.draw_h;
                assert!(below >= l.offset_y && below - l.offset_y <= 1);
                assert_eq!(l.offset_x % step, 0);
            }
        }
    }
}

// ── drawing invariants ─────────────────────────────────────────────────────

/// REVERSED must appear on EVERY column of the last row and NOWHERE ELSE.
/// If the bar is at the wrong row (e.g. row 0 instead of row th-1), this fails.
#[test]
fn bar_is_exclusively_on_last_row() {
    // Includes (543, 130) = the 4K terminal size (height-constrained path).
    for (tw, th) in [(80u16, 24u16), (160, 50), (120, 40), (40, 10), (543, 130)] {
        let meta = make_meta(16, 9);
        let buf = render_test_buf(tw, th, &meta, true);

        for row in 0..th {
            for col in 0..tw {
                let has_rev = buf
                    .cell(Position::new(col, row))
                    .unwrap()
                    .modifier
                    .contains(Modifier::REVERSED);
                if row == th - 1 {
                    assert!(
                        has_rev,
                        "tw={tw} th={th}: bar MISSING at row={row} col={col}"
                    );
                } else {
                    assert!(
                        !has_rev,
                        "tw={tw} th={th}: REVERSED spuriously at row={row} col={col} — bar should only be on row {}",
                        th - 1
                    );
                }
            }
        }
    }
}

/// Same contract when controls are hidden.
#[test]
fn bar_is_on_last_row_when_hidden() {
    let (tw, th) = (80u16, 24u16);
    let meta = make_meta(16, 9);
    let buf = render_test_buf(tw, th, &meta, false);

    for row in 0..th {
        for col in 0..tw {
            let has_rev = buf
                .cell(Position::new(col, row))
                .unwrap()
                .modifier
                .contains(Modifier::REVERSED);
            if row == th - 1 {
                assert!(has_rev, "hidden bar MISSING at row={row} col={col}");
            } else {
                assert!(!has_rev, "REVERSED spuriously at row={row} col={col}");
            }
        }
    }
}

/// Video cells and letterbox placement for a width-constrained terminal
/// (video fills full width, top/bottom letterbox present).
#[test]
fn video_placement_width_constrained() {
    // 16:9 at 160×50: draw_w=160, draw_h=45, offset_y=2 → rows 0-1 and 47-48 letterbox.
    let (tw, th) = (160u16, 50u16);
    let meta = make_meta(16, 9);
    let buf = render_test_buf(tw, th, &meta, true);
    let layout = layout(tw, th, 16.0 / 9.0, 1);

    assert!(layout.offset_y > 0, "expected top letterbox for this terminal");
    assert!(layout.offset_y + layout.draw_h < layout.bar_row, "expected bottom letterbox");

    check_video_and_letterbox(&buf, tw, th, &layout);
}

/// Video cells and letterbox placement for a height-constrained terminal
/// (video fills full height of video area, left/right letterbox present).
/// This is the 4K case: 543×130.
#[test]
fn video_placement_height_constrained_4k() {
    let (tw, th) = (543u16, 130u16);
    let meta = make_meta(16, 9);
    let buf = render_test_buf(tw, th, &meta, true);
    let layout = layout(tw, th, 16.0 / 9.0, 1);

    // Height-constrained: video fills all video_h rows, so no top/bottom letterbox.
    assert_eq!(layout.draw_h, th - 1, "video should fill full video height");
    assert_eq!(layout.offset_y, 0, "no top letterbox expected");
    // But there should be left/right letterbox.
    assert!(layout.offset_x > 0, "expected left/right letterbox for 16:9 in wide terminal");

    check_video_and_letterbox(&buf, tw, th, &layout);
}

/// Shared checker: scans every cell and asserts correct placement.
fn check_video_and_letterbox(buf: &Buffer, tw: u16, th: u16, layout: &VideoLayout) {
    let video_top = layout.offset_y;
    let video_bot = layout.offset_y + layout.draw_h; // exclusive
    let vid_left = layout.offset_x;
    let vid_right = layout.offset_x + layout.draw_w; // exclusive

    for row in 0..th {
        for col in 0..tw {
            let cell = buf.cell(Position::new(col, row)).unwrap();
            let is_video = cell.symbol() == "▀" && cell.fg != Color::Reset;
            let is_bar = cell.modifier.contains(Modifier::REVERSED);

            if row == layout.bar_row {
                assert!(is_bar, "row={row} col={col}: expected bar cell");
            } else if row >= video_top && row < video_bot && col >= vid_left && col < vid_right {
                assert!(
                    is_video,
                    "row={row} col={col}: expected ▀ inside video bounds"
                );
            } else {
                // Letterbox or out-of-video-bounds: must be empty.
                assert!(
                    !is_video && !is_bar,
                    "row={row} col={col}: expected empty cell in letterbox region"
                );
            }
        }
    }
}

/// A 2×2 frame: red and green above blue and white.
fn four_pixels() -> Vec<u8> {
    vec![255, 0, 0, 0, 255, 0, 0, 0, 255, 255, 255, 255]
}

#[test]
fn full_color_shows_upper_and_lower_pixel() {
    let meta = make_meta(2, 2);
    let buf = draw(2, 2, &meta, &four_pixels(), &full_color(true));
    let left = buf.cell(Position::new(0, 0)).unwrap();
    assert_eq!(left.symbol(), "▀");
    assert_eq!((left.fg, left.bg), (Color::Rgb(255, 0, 0), Color::Rgb(0, 0, 255)));
    let right = buf.cell(Position::new(1, 0)).unwrap();
    assert_eq!((right.fg, right.bg), (Color::Rgb(0, 255, 0), Color::Rgb(255, 255, 255)));
}

#[test]
fn charset_shows_lit_and_unlit_pixels() {
    let meta = make_meta(2, 2);
    let mut look = full_color(true);
    look.mode = RenderMode::Charset(CharSet::from_str("etbf").unwrap());
    // Red and blue are unlit, green and white are lit.
    let buf = draw(2, 2, &meta, &four_pixels(), &look);
    assert_eq!(row_text(&buf, 2, 0), "ef");
    let cell = buf.cell(Position::new(1, 0)).unwrap();
    assert_eq!((cell.fg, cell.bg), (Color::Reset, Color::Reset));

    look.colorize = true;
    let buf = draw(2, 2, &meta, &four_pixels(), &look);
    let cell = buf.cell(Position::new(1, 0)).unwrap();
    assert_eq!((cell.fg, cell.bg), (Color::Rgb(0, 255, 0), Color::Reset));

    let frame = vec![255, 255, 255, 0, 0, 0, 0, 0, 0, 255, 255, 255];
    let buf = draw(2, 2, &meta, &frame, &look);
    assert_eq!(row_text(&buf, 2, 0), "tb");
}

#[test]
fn brightness_changes_colors_and_lit_pixels() {
    let meta = make_meta(2, 2);
    let mut look = full_color(true);
    look.brightness = -1.0;
    let buf = draw(2, 2, &meta, &four_pixels(), &look);
    let cell = buf.cell(Position::new(1, 0)).unwrap();
    assert_eq!((cell.fg, cell.bg), (Color::Rgb(0, 0, 0), Color::Rgb(0, 0, 0)));
    look.brightness = 1.0;
    let buf = draw(2, 2, &meta, &four_pixels(), &look);
    let cell = buf.cell(Position::new(0, 0)).unwrap();
    assert_eq!((cell.fg, cell.bg), (Color::Rgb(255, 255, 255), Color::Rgb(255, 255, 255)));
    look.mode = RenderMode::Charset(CharSet::from_str("etbf").unwrap());
    let buf = draw(2, 2, &meta, &four_pixels(), &look);
    assert_eq!(row_text(&buf, 2, 0), "ff");
    look.brightness = -1.0;
    let buf = draw(2, 2, &meta, &four_pixels(), &look);
    assert_eq!(row_text(&buf, 2, 0), "ee");
}

#[test]
fn wide_characters_take_two_columns() {
    let meta = make_meta(2, 2);
    let mut look = full_color(true);
    look.mode = RenderMode::Charset(CharSet::korean());
    look.colorize = true;
    let frame = vec![255u8; 12];
    let buf = draw(8, 5, &meta, &frame, &look);
    // Four rows above the bar, four slots of two columns.
    for row in 0..4 {
        for slot in 0..4 {
            let first = buf.cell(Position::new(2 * slot, row)).unwrap();
            let second = buf.cell(Position::new(2 * slot + 1, row)).unwrap();
            assert_eq!(first.symbol(), "뾃");
            assert_eq!(first.fg, Color::Rgb(255, 255, 255));
            assert_eq!(second.symbol(), " ");
            assert_eq!(second.fg, Color::Reset);
        }
    }
}

#[test]
fn characters_without_columns_leave_cells_alone() {
    let meta = make_meta(2, 2);
    let mut look = full_color(true);
    look.colorize = true;
    for full in ['\u{301}', '\t', '\u{200b}'] {
        let mut chars = String::from("abc");
        chars.push(full);
        look.mode = RenderMode::Charset(CharSet::from_str(&chars).unwrap());
        let frame = vec![255u8; 12];
        let buf = draw(4, 3, &meta, &frame, &look);
        let cell = buf.cell(Position::new(1, 0)).unwrap();
        assert_eq!(cell.symbol(), " ");
        assert_eq!(cell.fg, Color::Reset);
    }
    look.mode = RenderMode::Charset(CharSet::from_str("abc\u{a0}").unwrap());
    let buf = draw(4, 3, &meta, &vec![255u8; 12], &look);
    assert_eq!(buf.cell(Position::new(1, 0)).unwrap().symbol(), "\u{a0}");
}

#[test]
fn bar_text_is_exact() {
    let bar = Bar {
        mode_label: "ascii",
        show_controls: true,
        paused: false,
        fps: "29.9",
        brightness: "+0.3",
    };
    let text = "29.9fps  200x50  [ascii]  [←/→] mode  [↑/↓] brt:+0.3  [k] pause  [j] -10s  [l] +10s  [c] color  [q] quit  [h] hide";
    assert_eq!(bar_line(&bar, 200, 50), format!("{:<200}", text));
    let cut: String = text.replace("200x50", "30x50").chars().take(30).collect();
    assert_eq!(bar_line(&bar, 30, 50), cut);
    let paused = Bar { paused: true, ..bar };
    assert!(bar_line(&paused, 200, 50).contains("  [k] resume  [j]"));
    let hidden = Bar { show_controls: false, ..paused };
    assert_eq!(bar_line(&hidden, 40, 50), format!("{:<40}", " [ascii]  [h] show controls"));
}

#[test]
fn bar_is_drawn_as_text() {
    let meta = make_meta(16, 9);
    let buf = render_test_buf(140, 24, &meta, true);
    let bar = Bar {
        mode_label: "full-color",
        show_controls: true,
        paused: false,
        fps: "30.0",
        brightness: "+0.0",
    };
    assert_eq!(row_text(&buf, 140, 23), bar_line(&bar, 140, 24));
    let cell = buf.cell(Position::new(3, 23)).unwrap();
    assert_eq!(cell.modifier.bits(), REVERSED);
    assert_eq!(Modifier::REVERSED.bits(), REVERSED);
}

/// A wide character in the label hides a column, which is then not reversed.
#[test]
fn wide_label_hides_columns() {
    let meta = make_meta(16, 9);
    let mut look = full_color(false);
    look.label = "custom 가";
    let frame = solid_frame(16, 9);
    let buf = draw(60, 24, &meta, &frame, &look);
    assert_eq!(buf.cell(Position::new(9, 23)).unwrap().symbol(), "가");
    assert!(!buf.cell(Position::new(10, 23)).unwrap().modifier.contains(Modifier::REVERSED));
    assert!(buf.cell(Position::new(11, 23)).unwrap().modifier.contains(Modifier::REVERSED));
}

#[test]
fn too_small_buffers_and_frames_are_not_drawn() {
    let tone = tone(0.0);
    let fit = fit(80, 24, 16.0 / 9.0, 1);
    let l = compute_layout(80, 24, fit, 1);
    let sampling = sampling(&l, 16, 9);
    let frame = solid_frame(16, 9);
    let bar = Bar {
        mode_label: "",
        show_controls: false,
        paused: false,
        fps: "",
        brightness: "",
    };
    let picture = Picture {
        frame: &frame,
        frame_w: 16,
        frame_h: 9,
        render_mode: RenderMode::FullColor,
        colorize: false,
        tone: &tone,
        fit,
        sampling: &sampling,
    };
    let mut buf = Buffer::empty(Rect::new(0, 0, 80, 23));
    assert!(!try_render(&mut buf, whole(80, 24), &picture, &bar));
    assert_eq!(buf, Buffer::empty(Rect::new(0, 0, 80, 23)));
    assert!(row_is_held(&buf, 0, 22));
    assert!(!row_is_held(&buf, 0, 23));

    let mut buf = Buffer::empty(Rect::new(0, 0, 80, 24));
    let short = Picture { frame: &frame[1..], ..picture };
    assert!(!try_render(&mut buf, whole(80, 24), &short, &bar));
    let empty = Picture { frame_w: 0, ..short };
    assert!(!try_render(&mut buf, whole(80, 24), &empty, &bar));
    let whole_picture = Picture { frame: &frame, frame_w: 16, ..empty };
    assert!(try_render(&mut buf, whole(80, 24), &whole_picture, &bar));
    assert_eq!(row_text(&buf, 80, 23), format!("{:<80}", " []  [h] show controls"));
    // A buffer narrower than the area cuts the picture off.
    let mut narrow = Buffer::empty(Rect::new(0, 0, 50, 24));
    assert!(try_render(&mut narrow, whole(80, 24), &whole_picture, &bar));
    assert!(narrow.cell(Position::new(49, 23)).unwrap().modifier.contains(Modifier::REVERSED));
}

/// A text of one character has the columns of the character, and narrow characters have one.
#[test]
fn columns_of_lone_and_narrow_characters() {
    for c in (0..=0x10ffff_u32).filter_map(char::from_u32) {
        match c.width() {
            Some(w) => {
                assert!(!c.is_control());
                assert!(w <= 3);
                assert_eq!(c.to_string().as_str().width(), w, "{c:?}");
            }
            None => assert!(c.is_control()),
        }
    }
    let narrow: Vec<char> = (' '..='~')
        .chain('\u{2190}'..='\u{2193}')
        .chain('\u{2580}'..='\u{259f}')
        .chain('\u{2800}'..='\u{28ff}')
        .collect();
    assert!(narrow.iter().all(|c| c.width() == Some(1)));
    // Every narrow character behind every other.
    for first in &narrow {
        let text: String = narrow.iter().flat_map(|c| [*first, *c]).collect();
        let n = 2 * narrow.len() as u16;
        let mut buf = Buffer::empty(Rect::new(0, 0, n, 1));
        buf.set_string(0, 0, &text, ratatui::style::Style::new());
        assert_eq!(row_text(&buf, n, 0), text);
    }
}

#[test]
fn bar_with_narrow_label_is_exclusively_on_last_row() {
    for label in ["gradient  ░▒█", "custom ⠁⠃⠧⠿"] {
        for show_controls in [true, false] {
            let look = Look { label, ..full_color(show_controls) };
            let buf = draw(60, 20, &make_meta(16, 9), &solid_frame(16, 9), &look);
            for row in 0..20 {
                for col in 0..60 {
                    let cell = buf.cell(Position::new(col, row)).unwrap();
                    assert_eq!(cell.modifier.contains(Modifier::REVERSED), row == 19);
                }
            }
            assert!(row_text(&buf, 60, 19).contains(label));
        }
    }
}

#[test]
fn sampling_takes_both_rows_of_a_slot() {
    let l = VideoLayout { draw_w: 16, draw_h: 8, offset_x: 0, offset_y: 0, bar_row: 8 };
    let s = sampling(&l, 32, 16);
    assert_eq!(s.cols, (0..16).map(|x| 2 * x).collect::<Vec<usize>>());
    assert_eq!(s.tops, (0..8).map(|y| 2 * y).collect::<Vec<usize>>());
    assert_eq!(s.bottoms, (0..8).map(|y| 2 * y + 1).collect::<Vec<usize>>());
}

#[test]
fn sampling_stays_in_the_frame() {
    for (draw_w, draw_h) in [(1u16, 1u16), (160, 45), (543, 129), (31, 23)] {
        let l = VideoLayout { draw_w, draw_h, offset_x: 0, offset_y: 0, bar_row: draw_h };
        let s = sampling(&l, 320, 180);
        assert!(s.cols.iter().all(|x| *x < 320) && s.bottoms.iter().all(|y| *y < 180));
        assert!(s.tops.iter().zip(&s.bottoms).all(|(top, bottom)| top <= bottom));
        assert!(s.cols.windows(2).all(|p| p[0] <= p[1]));
    }
}
