use bad_apple::pixels::{adjust_rgb, get_pixel, get_rgb, has_pixel, pack_pixels, Tone};

fn plain(lit_from: u32) -> Tone {
    let mut channel = [0u8; 256];
    for i in 0..256 {
        channel[i] = i as u8;
    }
    Tone { channel, lit_from }
}

#[test]
fn pixels_by_position() {
    let frame: Vec<u8> = (0..18).collect();
    assert_eq!(get_rgb(&frame, 0, 0, 3, 2), (0, 1, 2));
    assert_eq!(get_rgb(&frame, 2, 0, 3, 2), (6, 7, 8));
    assert_eq!(get_rgb(&frame, 1, 1, 3, 2), (12, 13, 14));
}

#[test]
fn pixels_beyond_the_frame_are_the_nearest() {
    let frame: Vec<u8> = (0..18).collect();
    assert_eq!(get_rgb(&frame, 3, 0, 3, 2), (6, 7, 8));
    assert_eq!(get_rgb(&frame, 0, 9, 3, 2), (9, 10, 11));
    assert_eq!(get_rgb(&frame, usize::MAX, usize::MAX, 3, 2), (15, 16, 17));
}

#[test]
fn frames_that_hold_a_pixel() {
    assert!(has_pixel(18, 2, 1, 3, 2));
    assert!(has_pixel(18, 9, 9, 3, 2));
    assert!(!has_pixel(17, 2, 1, 3, 2));
    assert!(has_pixel(15, 1, 1, 3, 2));
    assert!(!has_pixel(0, 0, 0, 3, 2));
    assert!(!has_pixel(2, 0, 0, 1, 1));
    assert!(has_pixel(3, 0, 0, 1, 1));
    assert!(!has_pixel(18, 0, 0, 0, 2));
    assert!(!has_pixel(18, 0, 0, 3, 0));
    assert!(!has_pixel(usize::MAX, 0, usize::MAX, usize::MAX, usize::MAX));
}

#[test]
fn colors_go_through_the_table() {
    let mut tone = plain(0);
    tone.channel[10] = 200;
    tone.channel[255] = 1;
    assert_eq!(adjust_rgb((10, 11, 255), &tone), (200, 11, 1));
}

#[test]
fn lit_by_weighted_sum() {
    let tone = plain(128_001);
    let lit = |rgb: [u8; 3]| get_pixel(&rgb, 0, 0, 1, 1, &tone);
    assert!(lit([255, 255, 255]));
    assert!(!lit([0, 0, 0]));
    assert!(!lit([128, 128, 128]));
    assert!(lit([129, 128, 128]));
    assert!(lit([0, 255, 0]));
    assert!(!lit([255, 0, 255]));
    // 299 * 1 + 587 * 2 + 114 * 3
    let exact = plain(1815);
    assert!(get_pixel(&[1, 2, 3], 0, 0, 1, 1, &exact));
    let above = plain(1816);
    assert!(!get_pixel(&[1, 2, 3], 0, 0, 1, 1, &above));
}

#[test]
fn lower_threshold_lights_more() {
    let dark = plain(200_000);
    let bright = plain(50_000);
    let rgb = [100u8, 150, 200];
    assert!(!get_pixel(&rgb, 0, 0, 1, 1, &dark));
    assert!(get_pixel(&rgb, 0, 0, 1, 1, &bright));
}

#[test]
fn brighter_colors_are_shown_no_darker() {
    for b in -10..=10 {
        for bb in b..=10 {
            let shown = |value: u8, brightness: i32| {
                (value as f32 + brightness as f32 / 10.0 * 255.0).clamp(0.0, 255.0) as u8
            };
            let (mut dark, mut bright) = (plain(0), plain(0));
            for v in 0..=255u8 {
                dark.channel[v as usize] = shown(v, b);
                bright.channel[v as usize] = shown(v, bb);
            }
            for v in (0..=250u8).step_by(5) {
                let low = adjust_rgb((v, 0, 250 - v), &dark);
                let high = adjust_rgb((v + 5, 0, 255 - v), &bright);
                assert!(low.0 <= high.0 && low.1 <= high.1 && low.2 <= high.2);
            }
        }
    }
}

#[test]
fn eight_pixels_make_a_byte() {
    assert_eq!(pack_pixels(&[255, 0, 129, 128, 0, 0, 0, 200]), vec![0b1010_0001]);
    assert_eq!(pack_pixels(&[200; 16]), vec![0xff, 0xff]);
    assert_eq!(pack_pixels(&[200; 10]), vec![0xff, 0b1100_0000]);
    assert_eq!(pack_pixels(&[]), Vec::<u8>::new());
    assert_eq!(pack_pixels(&[0; 160 * 120]).len(), 2400);
}
