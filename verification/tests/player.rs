use bad_apple::charset::{CharSet, RenderMode};
use bad_apple::player::{chosen_mode, Due, Key, ModeFlags, Player, Response};

const NO_FLAGS: ModeFlags = ModeFlags {
    full_color: false,
    ascii_color: false,
    ascii: false,
    braille: false,
    korean: false,
    shading: false,
};

fn press(p: &mut Player, key: Key) -> Response {
    p.handle_key(key, false, true)
}

#[test]
fn flags_stand_for_modes() {
    assert_eq!(chosen_mode(&NO_FLAGS, "korean"), "korean");
    assert_eq!(chosen_mode(&ModeFlags { full_color: true, ..NO_FLAGS }, "x"), "full-color");
    assert_eq!(chosen_mode(&ModeFlags { ascii_color: true, ..NO_FLAGS }, "x"), "ascii-color");
    assert_eq!(chosen_mode(&ModeFlags { ascii: true, ..NO_FLAGS }, "x"), "ascii");
    assert_eq!(chosen_mode(&ModeFlags { braille: true, ..NO_FLAGS }, "x"), "braille");
    assert_eq!(chosen_mode(&ModeFlags { korean: true, ..NO_FLAGS }, "x"), "korean");
    assert_eq!(chosen_mode(&ModeFlags { shading: true, ..NO_FLAGS }, "x"), "shading");
}

#[test]
fn first_state() {
    let p = Player::new("ascii", None, None, false).unwrap();
    assert_eq!(p.mode_idx, 2);
    assert_eq!(p.render_mode, RenderMode::Charset(CharSet::ascii()));
    assert_eq!(p.mode_label, "ascii");
    assert!(!p.colorize && !p.monochrome && p.show_controls && !p.paused && !p.done);
    assert_eq!(p.current_frame, 0);
    assert!(Player::new("full-color", None, None, false).unwrap().colorize);
    assert!(!Player::new("full-color", None, None, true).unwrap().colorize);
}

#[test]
fn unknown_modes_are_shaded() {
    let p = Player::new("block", None, None, false).unwrap();
    assert_eq!((p.mode_idx, p.mode_label.as_str(), p.colorize), (0, "block", true));
    assert_eq!(p.render_mode, RenderMode::Charset(CharSet::shading()));
}

#[test]
fn custom_characters() {
    let p = Player::new("full-color", Some(" 가을뿔"), Some("ab"), false).unwrap();
    assert_eq!(p.render_mode, RenderMode::Charset(CharSet::from_str(" 가을뿔").unwrap()));
    assert_eq!(p.mode_label, "custom  가을뿔");
    let p = Player::new("ascii", None, Some(" .:-=+*#%@"), false).unwrap();
    assert_eq!(p.mode_label, "gradient  -*@");
    assert!(!p.colorize);
}

#[test]
fn custom_characters_that_make_no_set() {
    let error = |chars, gradient| match Player::new("ascii", chars, gradient, false) {
        Ok(_) => String::new(),
        Err(e) => e,
    };
    assert_eq!(error(Some("ab"), None), "--chars requires exactly 4 characters, got 2");
    assert_eq!(error(Some("ab"), Some("ab")), "--chars requires exactly 4 characters, got 2");
    assert_eq!(error(None, Some("a")), "--gradient requires at least 2 characters, got 1");
}

#[test]
fn keys_that_quit() {
    let mut p = Player::new("ascii", None, None, false).unwrap();
    assert_eq!(press(&mut p, Key::Char('q')), Response::Quit);
    assert_eq!(press(&mut p, Key::Esc), Response::Quit);
    assert_eq!(p.handle_key(Key::Char('c'), true, true), Response::Quit);
    assert!(!p.colorize);
}

#[test]
fn keys_that_toggle() {
    let mut p = Player::new("ascii", None, None, false).unwrap();
    assert_eq!(press(&mut p, Key::Char('c')), Response::Nothing);
    assert!(p.colorize);
    press(&mut p, Key::Char('c'));
    assert!(!p.colorize);
    assert_eq!(press(&mut p, Key::Char('h')), Response::Nothing);
    assert!(!p.show_controls);
    press(&mut p, Key::Char('h'));
    assert!(p.show_controls);
    assert_eq!(press(&mut p, Key::Char('k')), Response::Pause);
    assert!(p.paused);
    assert_eq!(press(&mut p, Key::Char(' ')), Response::Resume);
    assert!(!p.paused);
}

#[test]
fn keys_for_time_and_brightness() {
    let mut p = Player::new("ascii", None, None, false).unwrap();
    assert_eq!(press(&mut p, Key::Char('j')), Response::SeekBack);
    assert_eq!(press(&mut p, Key::Char('l')), Response::SeekForward);
    assert_eq!(press(&mut p, Key::Up), Response::Brighter);
    assert_eq!(press(&mut p, Key::Down), Response::Darker);
    assert_eq!(press(&mut p, Key::Char('x')), Response::Nothing);
    assert_eq!(press(&mut p, Key::Other), Response::Nothing);
}

#[test]
fn arrows_cycle_through_modes() {
    let mut p = Player::new("shading", None, None, false).unwrap();
    press(&mut p, Key::Right);
    assert_eq!((p.mode_idx, p.mode_label.as_str(), p.colorize), (0, "full-color", true));
    assert_eq!(p.render_mode, RenderMode::FullColor);
    press(&mut p, Key::Left);
    assert_eq!((p.mode_idx, p.mode_label.as_str(), p.colorize), (5, "shading", false));
    let mut labels = Vec::new();
    for _ in 0..6 {
        press(&mut p, Key::Left);
        labels.push(p.mode_label.clone());
    }
    assert_eq!(labels, ["korean", "braille", "ascii", "ascii-color", "full-color", "shading"]);
}

#[test]
fn monochrome_stays_off_when_modes_change() {
    let mut p = Player::new("full-color", None, None, true).unwrap();
    for _ in 0..6 {
        press(&mut p, Key::Right);
        assert!(!p.colorize);
    }
    press(&mut p, Key::Char('c'));
    press(&mut p, Key::Right);
    assert!(p.colorize);
}

#[test]
fn releases_and_repeats_do_nothing() {
    let mut p = Player::new("ascii", None, None, false).unwrap();
    for key in [Key::Char('q'), Key::Char('k'), Key::Char('h'), Key::Right, Key::Esc] {
        assert_eq!(p.handle_key(key, false, false), Response::Nothing);
    }
    assert!(!p.paused && p.show_controls);
    assert_eq!(p.mode_idx, 2);
}

#[test]
fn frames_become_due() {
    let mut p = Player::new("ascii", None, None, false).unwrap();
    assert_eq!(p.tick(0, 100), Due::Wait);
    assert_eq!(p.tick(1, 100), Due::ReadNext);
    p.frame_read(true);
    assert_eq!(p.current_frame, 1);
    assert_eq!(p.tick(1, 100), Due::Wait);
    assert_eq!(p.tick(7, 100), Due::SeekAndRead(700));
    assert_eq!(p.current_frame, 7);
    p.frame_read(true);
    assert_eq!(p.current_frame, 8);
    assert_eq!(p.tick(7, 100), Due::Wait);
    assert_eq!(p.tick(9, 100), Due::ReadNext);
    p.frame_read(false);
    assert!(p.done);
    assert_eq!(p.current_frame, 8);
}

#[test]
fn paused_player_reads_nothing() {
    let mut p = Player::new("ascii", None, None, false).unwrap();
    press(&mut p, Key::Char('k'));
    assert_eq!(p.tick(1000, 100), Due::Wait);
    assert_eq!(p.current_frame, 0);
}

#[test]
fn seeking_goes_to_a_frame() {
    let mut p = Player::new("ascii", None, None, false).unwrap();
    assert_eq!(p.seek(300, 172_800), 51_840_000);
    assert_eq!(p.current_frame, 300);
    p.seek_read(true);
    assert_eq!(p.current_frame, 301);
    p.seek_read(false);
    assert_eq!(p.current_frame, 301);
    assert!(!p.done);
}
