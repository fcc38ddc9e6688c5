use bad_apple::charset::{
    builtin_colorize, builtin_name, mode_index, render_mode_for_builtin, widest_of, CharSet,
    RenderMode, MODE_COUNT,
};

fn chars(cs: &CharSet) -> String {
    [cs.empty, cs.top, cs.bottom, cs.full].iter().collect()
}

#[test]
fn custom_chars_are_taken_in_order() {
    let cs = CharSet::from_str(" .':").unwrap();
    assert_eq!(chars(&cs), " .':");
    assert_eq!(cs.col_width, 1);
}

#[test]
fn wide_chars_widen_the_set() {
    let cs = CharSet::from_str(" 가을뿔").unwrap();
    assert_eq!(chars(&cs), " 가을뿔");
    assert_eq!(cs.col_width, 2);
}

#[test]
fn control_and_combining_chars_count_as_one_column() {
    assert_eq!(CharSet::from_str("\t\u{301}\u{200b}\n").unwrap().col_width, 1);
    // Khmer sign beyyal is three columns wide.
    assert_eq!(CharSet::from_str("abc\u{17d8}").unwrap().col_width, 3);
}

#[test]
fn custom_chars_must_be_four() {
    let message = |n| Err(format!("--chars requires exactly 4 characters, got {n}"));
    assert_eq!(CharSet::from_str(""), message(0));
    assert_eq!(CharSet::from_str("abc"), message(3));
    assert_eq!(CharSet::from_str("가나다라마바사아자차카타"), message(12));
}

#[test]
fn gradient_is_sampled_evenly() {
    assert_eq!(chars(&CharSet::from_gradient(" .:-=+*#%@").unwrap()), " -*@");
    assert_eq!(chars(&CharSet::from_gradient(" ░▒▓█").unwrap()), " ░▒█");
    assert_eq!(chars(&CharSet::from_gradient("ab").unwrap()), "aaab");
    assert_eq!(chars(&CharSet::from_gradient("abc").unwrap()), "aabc");
    assert_eq!(chars(&CharSet::from_gradient("abcd").unwrap()), "abcd");
    assert_eq!(CharSet::from_gradient(" 가나다").unwrap().col_width, 2);
    // Characters that are not sampled have no say in the width.
    assert_eq!(CharSet::from_gradient("a가b나c다d").unwrap().col_width, 1);
}

#[test]
fn gradient_must_be_two() {
    let message = |n| Err(format!("--gradient requires at least 2 characters, got {n}"));
    assert_eq!(CharSet::from_gradient(""), message(0));
    assert_eq!(CharSet::from_gradient("뿔"), message(1));
}

#[test]
fn builtin_sets() {
    assert_eq!(CharSet::from_gradient(".:-=+*#%@").unwrap(), CharSet::ascii());
    assert_eq!(CharSet::from_gradient("⠁⠃⠇⠧⠷⠿").unwrap(), CharSet::braille());
    assert_eq!(chars(&CharSet::ascii()), ".-*@");
    assert_eq!(chars(&CharSet::braille()), "⠁⠃⠧⠿");
    assert_eq!(CharSet::from_str(" ░▒█").unwrap(), CharSet::shading());
    assert_eq!(CharSet::from_str("시뽁늙뾃").unwrap(), CharSet::korean());
    assert_eq!(CharSet::korean().col_width, 2);
}

#[test]
fn narrow_characters_and_hangul() {
    let narrow = (' '..='~')
        .chain('\u{2190}'..='\u{2193}')
        .chain('\u{2580}'..='\u{259f}')
        .chain('\u{2800}'..='\u{28ff}');
    for c in narrow {
        assert_eq!(CharSet::from_gradient(&format!("{c}{c}")).unwrap().col_width, 1, "{c:?}");
    }
    for c in '\u{ac00}'..='\u{d7a3}' {
        assert_eq!(CharSet::from_gradient(&format!(" {c}")).unwrap().col_width, 2, "{c:?}");
    }
}

#[test]
fn widest_of_given_widths() {
    assert_eq!(widest_of(&vec![]), 1);
    assert_eq!(widest_of(&vec![Some(0), None]), 1);
    assert_eq!(widest_of(&vec![Some(1), Some(7), Some(2)]), 7);
    let cs = CharSet::with_widths('a', 'b', 'c', 'd', &vec![None, Some(2)]);
    assert_eq!((chars(&cs).as_str(), cs.col_width), ("abcd", 2));
}

#[test]
fn modes_by_name_and_index() {
    let names = ["full-color", "ascii-color", "ascii", "braille", "korean", "shading"];
    let colors = [true, true, false, true, true, false];
    assert_eq!(MODE_COUNT, names.len());
    for i in 0..MODE_COUNT {
        assert_eq!(builtin_name(i), names[i]);
        assert_eq!(builtin_colorize(i), colors[i]);
        assert_eq!(mode_index(names[i]), i);
    }
    assert_eq!(mode_index("no such mode"), 0);
}

#[test]
fn render_modes_by_name() {
    assert_eq!(render_mode_for_builtin("full-color"), RenderMode::FullColor);
    assert_eq!(render_mode_for_builtin("ascii-color"), RenderMode::Charset(CharSet::ascii()));
    assert_eq!(render_mode_for_builtin("ascii"), RenderMode::Charset(CharSet::ascii()));
    assert_eq!(render_mode_for_builtin("braille"), RenderMode::Charset(CharSet::braille()));
    assert_eq!(render_mode_for_builtin("korean"), RenderMode::Charset(CharSet::korean()));
    assert_eq!(render_mode_for_builtin("shading"), RenderMode::Charset(CharSet::shading()));
    assert_eq!(render_mode_for_builtin("other"), RenderMode::Charset(CharSet::shading()));
}
