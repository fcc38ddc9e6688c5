use bad_apple::meta::{
    dimensions_in, frame_size, get_video_dimensions, load_meta, meta_for, meta_text, VideoMeta,
};

fn meta(a: usize, b: usize, c: usize, d: usize) -> VideoMeta {
    VideoMeta { orig_width: a, orig_height: b, frame_width: c, frame_height: d }
}

#[test]
fn meta_is_read() {
    assert_eq!(load_meta("1920 1080 320 180"), Ok(meta(1920, 1080, 320, 180)));
    assert_eq!(load_meta("  1 2\n3\t4 5 rest\n"), Ok(meta(1, 2, 3, 4)));
}

#[test]
fn meta_with_too_few_parts() {
    let message = "Invalid meta.txt. Re-run: bad-apple --force <URL>".to_string();
    assert_eq!(load_meta(""), Err(message.clone()));
    assert_eq!(load_meta("1 2 3"), Err(message));
}

#[test]
fn meta_with_parts_that_are_no_numbers() {
    let error = |text: &str| load_meta(text).unwrap_err();
    assert_eq!(error("x 2 3 4"), "Invalid orig_width: invalid digit found in string");
    assert_eq!(error("1 -2 y 4"), "Invalid orig_height: invalid digit found in string");
    assert_eq!(
        error("1 2 99999999999999999999 4"),
        "Invalid frame_width: number too large to fit in target type"
    );
    assert_eq!(error("1 2 3 +"), "Invalid frame_height: invalid digit found in string");
}

#[test]
fn meta_reads_back_what_was_kept() {
    for m in [meta(0, 0, 0, 0), meta(1920, 1080, 320, 180), meta(usize::MAX, 1, 10, 100)] {
        let text = meta_text(&m);
        assert_eq!(
            text,
            format!("{} {} {} {}", m.orig_width, m.orig_height, m.frame_width, m.frame_height)
        );
        assert_eq!(load_meta(&text), Ok(m));
    }
}

#[test]
fn dimensions_are_the_first_two_numbers() {
    assert_eq!(get_video_dimensions(b"1920\n1080\n"), Ok((1920, 1080)));
    assert_eq!(dimensions_in("N/A 640 x 480 25"), Ok((640, 480)));
}

#[test]
fn dimensions_that_cannot_be_read() {
    assert_eq!(
        dimensions_in("1920 wide\n"),
        Err("Could not read video dimensions: 1920 wide\n".to_string())
    );
    assert_eq!(
        get_video_dimensions(b"\xff7"),
        Err("Could not read video dimensions: \u{fffd}7".to_string())
    );
}

#[test]
fn dimensions_between_bytes_that_are_no_text() {
    assert_eq!(get_video_dimensions(b"\xff 7 8"), Ok((7, 8)));
}

#[test]
fn measures_of_a_video_to_prepare() {
    assert_eq!(meta_for(1920, 1080, 320, 180), meta(1920, 1080, 320, 180));
    assert_eq!(meta_for(1920, 1, 3, 0), meta(1920, 1, 3, 1));
    assert_eq!(frame_size(&meta(0, 0, 320, 180)), 172_800);
}
