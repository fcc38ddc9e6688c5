use bad_apple::text::{
    chars_of, fit_text, parse_number, push_decimal, push_hex, same_text, trimmed, white, words_of,
    NumberError,
};

#[test]
fn white_space_is_that_of_char() {
    for c in (0..=0x10ffff_u32).filter_map(char::from_u32) {
        assert_eq!(white(c), c.is_whitespace(), "{c:?}");
    }
}

#[test]
fn words_are_those_of_split_whitespace() {
    for text in ["", " ", "a", " a  b\tc\n", "é\u{3000}ü x\u{a0}", "one two three"] {
        let words: Vec<String> = words_of(text).iter().map(|w| w.iter().collect()).collect();
        let expected: Vec<&str> = text.split_whitespace().collect();
        assert_eq!(words, expected);
    }
}

#[test]
fn numbers_are_those_of_parse() {
    let texts = ["0", "7", "+7", "0042", "18446744073709551615", "", "+", "-1", "1a", "++1", " 1",
        "18446744073709551616", "99999999999999999999999", "1 2", "٣"];
    for text in texts {
        let ours = parse_number(&chars_of(text));
        assert_eq!(ours.ok(), text.parse::<usize>().ok(), "{text}");
    }
}

#[test]
fn number_errors() {
    assert_eq!(parse_number(&vec![]), Err(NumberError::Empty));
    assert_eq!(parse_number(&chars_of("-1")), Err(NumberError::InvalidDigit));
    assert_eq!(parse_number(&chars_of("+")), Err(NumberError::InvalidDigit));
    assert_eq!(
        parse_number(&chars_of("99999999999999999999")),
        Err(NumberError::TooLarge)
    );
    for text in ["", "-1", "+", "x", "99999999999999999999", "99999999999999999999x"] {
        let message = match parse_number(&chars_of(text)).unwrap_err() {
            NumberError::Empty => "cannot parse integer from empty string",
            NumberError::InvalidDigit => "invalid digit found in string",
            NumberError::TooLarge => "number too large to fit in target type",
        };
        assert_eq!(text.parse::<usize>().unwrap_err().to_string(), message);
    }
}

#[test]
fn decimal_and_hexadecimal() {
    for n in [0usize, 9, 10, 99, 100, 65535, usize::MAX] {
        let mut out = String::from("n=");
        push_decimal(&mut out, n);
        assert_eq!(out, format!("n={n}"));
        assert_eq!(parse_number(&chars_of(&out[2..])), Ok(n));
    }
    for n in [0u64, 15, 0xdead_beef, u64::MAX] {
        let mut out = String::new();
        push_hex(&mut out, n, 16);
        assert_eq!(out, format!("{n:016x}"));
    }
}

#[test]
fn trimming_is_that_of_trim() {
    for text in ["", "  ", "a", " a b ", "\n\tkey\r\n", "\u{3000}x\u{2003}"] {
        assert_eq!(trimmed(text), text.trim());
    }
}

#[test]
fn fitting_cuts_and_fills() {
    assert_eq!(fit_text("abc", 5), "abc  ");
    assert_eq!(fit_text("← → ↑", 3), "← →");
    assert_eq!(fit_text("abc", 3), "abc");
    assert_eq!(fit_text("abc", 0), "");
}

#[test]
fn equal_texts() {
    assert!(same_text("뿔", "뿔"));
    assert!(!same_text("a", "ab"));
    assert!(!same_text("a", "b"));
}
