//! Characters, decimal and hexadecimal numbers, and words of a text.

use vstd::prelude::*;

verus! {

/// `String::push`: appends one character.
pub assume_specification[ String::push ](s: &mut String, c: char)
    ensures
        final(s)@ == old(s)@.push(c),
;

/// The characters of a text, in order.
pub fn chars_of(text: &str) -> (out: Vec<char>)
    ensures
        out@ == text@,
{
    let mut out: Vec<char> = Vec::new();
    for c in it: text.chars()
        invariant
            it.seq() == text@,
            out@ == it.seq().take(it.index() as int),
    {
        out.push(c);
    }
    out
}

/// Whether two texts hold the same characters.
pub fn same_text(a: &str, b: &str) -> (r: bool)
    ensures
        r == (a@ == b@),
{
    let x = a.to_owned();
    let y = b.to_owned();
    x == y
}

/// The character of a decimal or hexadecimal digit.
pub open spec fn digit(d: nat) -> char {
    if d < 10 {
        (48 + d) as char
    } else {
        (87 + d) as char
    }
}

/// A number in decimal, without leading zeros.
pub open spec fn decimal(n: nat) -> Seq<char>
    decreases n,
{
    if n < 10 {
        seq![digit(n)]
    } else {
        decimal(n / 10).push(digit(n % 10))
    }
}

fn digit_char(d: u8) -> (c: char)
    requires
        d < 16,
    ensures
        c == digit(d as nat),
{
    if d < 10 {
        (48u8 + d) as char
    } else {
        (87u8 + d) as char
    }
}

/// Appends `n` in decimal.
pub fn push_decimal(out: &mut String, n: usize)
    ensures
        final(out)@ == old(out)@ + decimal(n as nat),
    decreases n,
{
    if n < 10 {
        out.push(digit_char(n as u8));
    } else {
        push_decimal(out, n / 10);
        out.push(digit_char((n % 10) as u8));
    }
}

/// The lowest `digits` hexadecimal digits of `n`, highest first.
pub open spec fn hex(n: nat, digits: nat) -> Seq<char>
    decreases digits,
{
    if digits == 0 {
        seq![]
    } else {
        hex(n / 16, (digits - 1) as nat).push(digit(n % 16))
    }
}

/// Appends the lowest `digits` hexadecimal digits of `n`.
pub fn push_hex(out: &mut String, n: u64, digits: usize)
    ensures
        final(out)@ == old(out)@ + hex(n as nat, digits as nat),
    decreases digits,
{
    if digits > 0 {
        push_hex(out, n / 16, digits - 1);
        out.push(digit_char((n % 16) as u8));
    }
}

/// Whether `c` is white space: the Unicode property `White_Space`.
pub open spec fn is_white(c: char) -> bool {
    ||| '\u{9}' <= c <= '\u{d}'
    ||| c == ' '
    ||| c == '\u{85}'
    ||| c == '\u{a0}'
    ||| c == '\u{1680}'
    ||| '\u{2000}' <= c <= '\u{200a}'
    ||| c == '\u{2028}'
    ||| c == '\u{2029}'
    ||| c == '\u{202f}'
    ||| c == '\u{205f}'
    ||| c == '\u{3000}'
}

/// Whether `c` is white space.
pub fn white(c: char) -> (r: bool)
    ensures
        r == is_white(c),
{
    ('\u{9}' <= c && c <= '\u{d}') || c == ' ' || c == '\u{85}' || c == '\u{a0}' || c == '\u{1680}'
        || ('\u{2000}' <= c && c <= '\u{200a}') || c == '\u{2028}' || c == '\u{2029}' || c
        == '\u{202f}' || c == '\u{205f}' || c == '\u{3000}'
}

/// How many characters stand before the first white space.
pub open spec fn word_len(s: Seq<char>) -> nat
    decreases s.len(),
{
    if s.len() == 0 || is_white(s[0]) {
        0
    } else {
        1 + word_len(s.drop_first())
    }
}

/// The words of a text: its longest runs of characters that are not white space, in order.
pub open spec fn words(s: Seq<char>) -> Seq<Seq<char>>
    decreases s.len(),
{
    if s.len() == 0 {
        seq![]
    } else if is_white(s[0]) {
        words(s.drop_first())
    } else {
        let n = word_len(s);
        if 0 < n <= s.len() {
            seq![s.take(n as int)] + words(s.skip(n as int))
        } else {
            seq![]
        }
    }
}

proof fn lemma_word_len(s: Seq<char>)
    ensures
        word_len(s) <= s.len(),
        s.len() > 0 && !is_white(s[0]) ==> word_len(s) > 0,
    decreases s.len(),
{
    if s.len() > 0 && !is_white(s[0]) {
        lemma_word_len(s.drop_first());
    }
}

/// The views of the words of a list.
pub open spec fn views(list: Seq<Vec<char>>) -> Seq<Seq<char>> {
    list.map_values(|v: Vec<char>| v@)
}

/// The words of a text.
pub fn words_of(text: &str) -> (out: Vec<Vec<char>>)
    ensures
        views(out@) == words(text@),
{
    let chars = chars_of(text);
    let mut out: Vec<Vec<char>> = Vec::new();
    let mut i: usize = 0;
    assert(chars@.skip(0) =~= chars@);
    assert(views(out@) =~= seq![]);
    while i < chars.len()
        invariant
            i <= chars@.len(),
            words(chars@) == views(out@) + words(chars@.skip(i as int)),
        decreases chars@.len() - i,
    {
        let ghost rest = chars@.skip(i as int);
        if white(chars[i]) {
            assert(rest.drop_first() =~= chars@.skip(i + 1));
            i = i + 1;
        } else {
            let start: usize = i;
            let mut word: Vec<char> = Vec::new();
            assert(chars@.skip(start as int) =~= rest);
            while i < chars.len() && !white(chars[i])
                invariant
                    start <= i <= chars@.len(),
                    rest == chars@.skip(start as int),
                    word@ == chars@.subrange(start as int, i as int),
                    word_len(rest) == (i - start) + word_len(chars@.skip(i as int)),
                decreases chars@.len() - i,
            {
                assert(chars@.skip(i as int).drop_first() =~= chars@.skip(i + 1));
                word.push(chars[i]);
                i = i + 1;
            }
            proof {
                lemma_word_len(rest);
                assert(word_len(chars@.skip(i as int)) == 0);
                assert(word@ =~= rest.take(i - start));
                assert(rest.skip(i - start) =~= chars@.skip(i as int));
                assert(views(out@.push(word)) =~= views(out@).push(word@));
                assert(views(out@).push(word@) + words(chars@.skip(i as int)) =~= views(out@) + (
                seq![word@] + words(chars@.skip(i as int))));
            }
            out.push(word);
        }
    }
    assert(words(chars@.skip(i as int)) =~= seq![]);
    out
}

/// Why a text is no number.
#[derive(Debug, Clone, Copy, PartialEq, Eq, Structural)]
pub enum NumberError {
    /// The text is empty.
    Empty,
    /// A character is no decimal digit.
    InvalidDigit,
    /// The number is above `usize::MAX`.
    TooLarge,
}

/// The value of a decimal digit.
pub open spec fn digit_value(c: char) -> Option<nat> {
    if '0' <= c <= '9' {
        Some((c as nat - 48) as nat)
    } else {
        None
    }
}

/// Reads further decimal digits behind those that make up `value`. The first character that is no
/// digit, or with which the number is above `max`, decides the error.
pub open spec fn read_digits(value: nat, s: Seq<char>, max: nat) -> Result<nat, NumberError>
    decreases s.len(),
{
    if s.len() == 0 {
        Ok(value)
    } else {
        match digit_value(s[0]) {
            None => Err(NumberError::InvalidDigit),
            Some(d) => if value * 10 + d > max {
                Err(NumberError::TooLarge)
            } else {
                read_digits(value * 10 + d, s.drop_first(), max)
            },
        }
    }
}

/// Reads a decimal number: one digit at least, behind an optional plus sign.
pub open spec fn read_number(s: Seq<char>) -> Result<nat, NumberError> {
    if s.len() == 0 {
        Err(NumberError::Empty)
    } else if s[0] == '+' && s.len() > 1 {
        read_digits(0, s.drop_first(), usize::MAX as nat)
    } else {
        read_digits(0, s, usize::MAX as nat)
    }
}

/// Reads a decimal number.
pub fn parse_number(s: &Vec<char>) -> (r: Result<usize, NumberError>)
    ensures
        match r {
            Ok(n) => read_number(s@) == Ok::<nat, NumberError>(n as nat),
            Err(e) => read_number(s@) == Err::<nat, NumberError>(e),
        },
{
    if s.len() == 0 {
        return Err(NumberError::Empty);
    }
    let start: usize = if s[0] == '+' && s.len() > 1 {
        1
    } else {
        0
    };
    let mut value: usize = 0;
    let mut i: usize = start;
    assert(s@.skip(0) =~= s@);
    assert(s@.drop_first() =~= s@.skip(1));
    while i < s.len()
        invariant
            i <= s@.len(),
            read_number(s@) == read_digits(value as nat, s@.skip(i as int), usize::MAX as nat),
        decreases s@.len() - i,
    {
        let c = s[i];
        if c < '0' || '9' < c {
            return Err(NumberError::InvalidDigit);
        }
        let d: usize = (c as u32 - 48) as usize;
        if value > (usize::MAX - d) / 10 {
            assert(value * 10 + d > usize::MAX);
            return Err(NumberError::TooLarge);
        }
        assert(s@.skip(i as int).drop_first() =~= s@.skip(i + 1));
        value = value * 10 + d;
        i = i + 1;
    }
    Ok(value)
}

/// A number in decimal has at least one digit, and nothing but digits.
pub proof fn lemma_decimal_digits(n: nat)
    ensures
        decimal(n).len() > 0,
        forall|i: int| 0 <= i < decimal(n).len() ==> '0' <= #[trigger] decimal(n)[i] <= '9',
    decreases n,
{
    if n >= 10 {
        lemma_decimal_digits(n / 10);
    }
}

proof fn lemma_read_decimal(n: nat, tail: Seq<char>, max: nat)
    requires
        n <= max,
    ensures
        read_digits(0, decimal(n) + tail, max) == read_digits(n, tail, max),
    decreases n,
{
    if n < 10 {
        let s = decimal(n) + tail;
        assert(s.drop_first() =~= tail);
    } else {
        let rest = seq![digit(n % 10)] + tail;
        lemma_read_decimal(n / 10, rest, max);
        assert(decimal(n) + tail =~= decimal(n / 10) + rest);
        assert(rest.drop_first() =~= tail);
    }
}

/// A number written in decimal reads back as itself.
pub proof fn decimal_reads_back(n: nat)
    requires
        n <= usize::MAX,
    ensures
        read_number(decimal(n)) == Ok::<nat, NumberError>(n),
{
    lemma_decimal_digits(n);
    lemma_read_decimal(n, seq![], usize::MAX as nat);
    assert(decimal(n) + seq![] =~= decimal(n));
    assert('0' <= decimal(n)[0] <= '9');
}

/// A text without the white space at its two ends.
pub open spec fn trim(s: Seq<char>) -> Seq<char>
    decreases s.len(),
{
    if s.len() == 0 {
        s
    } else if is_white(s[0]) {
        trim(s.drop_first())
    } else if is_white(s.last()) {
        trim(s.drop_last())
    } else {
        s
    }
}

/// A text without the white space at its two ends.
pub fn trimmed(text: &str) -> (out: String)
    ensures
        out@ == trim(text@),
{
    let chars = chars_of(text);
    let mut from: usize = 0;
    let mut to: usize = chars.len();
    assert(chars@.subrange(0, to as int) =~= chars@);
    while from < to && white(chars[from])
        invariant
            from <= to <= chars@.len(),
            trim(chars@) == trim(chars@.subrange(from as int, to as int)),
        decreases to - from,
    {
        assert(chars@.subrange(from as int, to as int).drop_first() =~= chars@.subrange(
            from + 1,
            to as int,
        ));
        from = from + 1;
    }
    while from < to && white(chars[to - 1])
        invariant
            from <= to <= chars@.len(),
            from < to ==> !is_white(chars@[from as int]),
            trim(chars@) == trim(chars@.subrange(from as int, to as int)),
        decreases to - from,
    {
        assert(chars@.subrange(from as int, to as int).drop_last() =~= chars@.subrange(
            from as int,
            to - 1,
        ));
        to = to - 1;
    }
    let mut out = String::new();
    let mut i: usize = from;
    while i < to
        invariant
            from <= i <= to <= chars@.len(),
            out@ == chars@.subrange(from as int, i as int),
        decreases to - i,
    {
        out.push(chars[i]);
        i = i + 1;
    }
    out
}

/// `text` in exactly `width` characters: cut off behind, or filled up with spaces.
pub open spec fn fitted(text: Seq<char>, width: nat) -> Seq<char> {
    Seq::new(
        width,
        |i: int|
            if i < text.len() {
                text[i]
            } else {
                ' '
            },
    )
}

/// `text` in exactly `width` characters: cut off behind, or filled up with spaces.
pub fn fit_text(text: &str, width: u16) -> (out: String)
    ensures
        out@ == fitted(text@, width as nat),
{
    let chars = chars_of(text);
    let mut out = String::new();
    let mut i: usize = 0;
    while i < width as usize
        invariant
            chars@ == text@,
            i <= width,
            out@ == fitted(text@, i as nat),
        decreases width - i,
    {
        out.push(
            if i < chars.len() {
                chars[i]
            } else {
                ' '
            },
        );
        assert(out@ =~= fitted(text@, (i + 1) as nat));
        i = i + 1;
    }
    out
}

/// Digits are those of ASCII, behind nine the letters from `a`.
pub proof fn digits_are_ascii(d: nat)
    ensures
        d < 10 ==> digit(d) as nat == '0' as nat + d,
        10 <= d < 16 ==> digit(d) as nat == 'a' as nat + (d - 10),
{
}

/// Decimal is positional: behind the digits of `n` a further digit makes ten times `n` and that
/// digit, and a number below ten is its digit alone.
pub proof fn decimal_is_positional(n: nat, d: nat)
    requires
        d < 10,
    ensures
        decimal(d).len() == 1,
        decimal(d)[0] as nat == '0' as nat + d,
        n > 0 ==> decimal(10 * n + d).len() == decimal(n).len() + 1,
        n > 0 ==> decimal(10 * n + d).drop_last() == decimal(n),
        n > 0 ==> decimal(10 * n + d).last() as nat == '0' as nat + d,
{
    assert((10 * n + d) / 10 == n && (10 * n + d) % 10 == d);
    if n > 0 {
        assert(decimal(10 * n + d).drop_last() =~= decimal(n));
    }
}

/// Hexadecimal is positional: behind the digits of `n` a further digit makes sixteen times `n` and
/// that digit.
pub proof fn hex_is_positional(n: nat, d: nat, digits: nat)
    requires
        d < 16,
    ensures
        hex(n, digits).len() == digits,
        hex(16 * n + d, digits + 1).drop_last() == hex(n, digits),
        d < 10 ==> hex(16 * n + d, digits + 1).last() as nat == '0' as nat + d,
        d >= 10 ==> hex(16 * n + d, digits + 1).last() as nat == 'a' as nat + (d - 10),
    decreases digits,
{
    assert((16 * n + d) / 16 == n && (16 * n + d) % 16 == d);
    if digits > 0 {
        hex_is_positional(n / 16, n % 16, (digits - 1) as nat);
    }
    assert(hex(16 * n + d, digits + 1).drop_last() =~= hex(n, digits));
}

/// What is left of a number without its lowest hexadecimal digits.
spec fn above_hex(n: nat, digits: nat) -> nat
    decreases digits,
{
    if digits == 0 {
        n
    } else {
        above_hex(n / 16, (digits - 1) as nat)
    }
}

proof fn lemma_hex_tells_apart(a: nat, b: nat, digits: nat)
    requires
        hex(a, digits) == hex(b, digits),
        above_hex(a, digits) == above_hex(b, digits),
    ensures
        a == b,
    decreases digits,
{
    if digits > 0 {
        let (p, q) = (hex(a / 16, (digits - 1) as nat), hex(b / 16, (digits - 1) as nat));
        assert(hex(a, digits).drop_last() =~= p);
        assert(hex(b, digits).drop_last() =~= q);
        assert(hex(a, digits).last() == digit(a % 16));
        assert(hex(b, digits).last() == digit(b % 16));
        lemma_hex_tells_apart(a / 16, b / 16, (digits - 1) as nat);
        digits_are_ascii(a % 16);
        digits_are_ascii(b % 16);
        assert(a % 16 == b % 16);
    }
}

/// Sixteen hexadecimal digits tell any two 64-bit numbers apart.
pub proof fn hex_tells_apart(a: u64, b: u64)
    requires
        hex(a as nat, 16) == hex(b as nat, 16),
    ensures
        a == b,
{
    reveal_with_fuel(above_hex, 17);
    lemma_hex_tells_apart(a as nat, b as nat, 16);
}

proof fn lemma_word_len_before(a: Seq<char>, c: char, b: Seq<char>)
    requires
        is_white(c),
    ensures
        word_len(a.push(c) + b) == word_len(a),
    decreases a.len(),
{
    let s = a.push(c) + b;
    if a.len() == 0 {
        assert(s[0] == c);
    } else {
        assert(s[0] == a[0]);
        if !is_white(a[0]) {
            lemma_word_len_before(a.drop_first(), c, b);
            assert(s.drop_first() =~= a.drop_first().push(c) + b);
        }
    }
}

/// White space divides words: those before it and those behind it are the words of the text.
pub proof fn white_space_divides_words(a: Seq<char>, c: char, b: Seq<char>)
    requires
        is_white(c),
    ensures
        words(a.push(c) + b) == words(a) + words(b),
    decreases a.len(),
{
    let s = a.push(c) + b;
    if a.len() == 0 {
        assert(s[0] == c);
        assert(s.drop_first() =~= b);
        assert(words(a) + words(b) =~= words(b));
    } else {
        assert(s[0] == a[0]);
        if is_white(a[0]) {
            white_space_divides_words(a.drop_first(), c, b);
            assert(s.drop_first() =~= a.drop_first().push(c) + b);
        } else {
            let n = word_len(a) as int;
            lemma_word_len(a);
            lemma_word_len_before(a, c, b);
            white_space_divides_words(a.skip(n), c, b);
            assert(s.take(n) =~= a.take(n));
            assert(s.skip(n) =~= a.skip(n).push(c) + b);
            assert(seq![a.take(n)] + (words(a.skip(n)) + words(b)) =~= (seq![a.take(n)] + words(
                a.skip(n),
            )) + words(b));
        }
    }
}

/// A text without white space is one word, and the empty text has none.
pub proof fn text_without_white_space_is_a_word(s: Seq<char>)
    requires
        forall|i: int| 0 <= i < s.len() ==> !is_white(#[trigger] s[i]),
    ensures
        words(s) == if s.len() == 0 {
            Seq::<Seq<char>>::empty()
        } else {
            seq![s]
        },
{
    if s.len() > 0 {
        lemma_whole_word(s);
        assert(s.take(s.len() as int) =~= s);
        assert(s.skip(s.len() as int) =~= Seq::<char>::empty());
        reveal_with_fuel(words, 2);
        assert(seq![s] + Seq::<Seq<char>>::empty() =~= seq![s]);
    }
}

proof fn lemma_whole_word(s: Seq<char>)
    requires
        forall|i: int| 0 <= i < s.len() ==> !is_white(#[trigger] s[i]),
    ensures
        word_len(s) == s.len(),
    decreases s.len(),
{
    if s.len() > 0 {
        lemma_whole_word(s.drop_first());
    }
}

/// The views of a list are those of its members, in order.
pub proof fn views_keep_order(list: Seq<Vec<char>>, i: int)
    requires
        0 <= i < list.len(),
    ensures
        views(list).len() == list.len(),
        views(list)[i] == list[i]@,
{
}

proof fn lemma_read_further(value: nat, s: Seq<char>, c: char, max: nat)
    ensures
        read_digits(value, s.push(c), max) == match read_digits(value, s, max) {
            Err(e) => Err::<nat, NumberError>(e),
            Ok(n) => read_digits(n, seq![c], max),
        },
    decreases s.len(),
{
    let t = s.push(c);
    if s.len() == 0 {
        assert(t =~= seq![c]);
    } else {
        assert(t[0] == s[0]);
        assert(t.drop_first() =~= s.drop_first().push(c));
        if let Some(d) = digit_value(s[0]) {
            lemma_read_further(value * 10 + d, s.drop_first(), c, max);
        }
    }
}

/// Numbers are read by their positions: behind a text that is a number a further digit makes ten
/// times that number and the digit, unless it does not fit; any other character is an error, and an
/// error stays what it was.
pub proof fn numbers_are_positional(s: Seq<char>, c: char)
    requires
        s.len() > 0,
        !(s.len() == 1 && s[0] == '+'),
    ensures
        read_number(s.push(c)) == match read_number(s) {
            Err(e) => Err::<nat, NumberError>(e),
            Ok(n) => if !('0' <= c <= '9') {
                Err(NumberError::InvalidDigit)
            } else if 10 * n + (c as nat - '0' as nat) > usize::MAX {
                Err(NumberError::TooLarge)
            } else {
                Ok((10 * n + (c as nat - '0' as nat)) as nat)
            },
        },
{
    let max = usize::MAX as nat;
    reveal_with_fuel(read_digits, 2);
    assert(seq![c].drop_first() =~= seq![]);
    if s[0] == '+' {
        assert(s.push(c).drop_first() =~= s.drop_first().push(c));
        lemma_read_further(0, s.drop_first(), c, max);
    } else {
        lemma_read_further(0, s, c, max);
    }
}

/// The shortest numbers: one digit, or one digit behind a plus sign. A plus sign alone is none.
pub proof fn one_digit_is_a_number(c: char)
    ensures
        read_number(seq![]) == Err::<nat, NumberError>(NumberError::Empty),
        '0' <= c <= '9' ==> read_number(seq![c]) == Ok::<nat, NumberError>(
            (c as nat - '0' as nat) as nat,
        ),
        '0' <= c <= '9' ==> read_number(seq!['+', c]) == Ok::<nat, NumberError>(
            (c as nat - '0' as nat) as nat,
        ),
        !('0' <= c <= '9') ==> read_number(seq![c]) == Err::<nat, NumberError>(
            NumberError::InvalidDigit,
        ),
        !('0' <= c <= '9') ==> read_number(seq!['+', c]) == Err::<nat, NumberError>(
            NumberError::InvalidDigit,
        ),
{
    reveal_with_fuel(read_digits, 2);
    assert(seq![c].drop_first() =~= seq![]);
    assert(seq!['+', c].drop_first() =~= seq![c]);
}

/// Trimming cuts off white space at the two ends, all of it and nothing else: it returns from where
/// to where the rest stood.
pub proof fn trimming_cuts_white_space(s: Seq<char>) -> (rest: (int, int))
    ensures
        0 <= rest.0 <= rest.1 <= s.len(),
        trim(s) == s.subrange(rest.0, rest.1),
        forall|i: int| 0 <= i < rest.0 ==> is_white(#[trigger] s[i]),
        forall|i: int| rest.1 <= i < s.len() ==> is_white(#[trigger] s[i]),
        rest.0 < rest.1 ==> !is_white(s[rest.0]) && !is_white(s[rest.1 - 1]),
    decreases s.len(),
{
    if s.len() == 0 {
        (0, 0)
    } else if is_white(s[0]) {
        let t = s.drop_first();
        let r = trimming_cuts_white_space(t);
        assert forall|i: int| 0 <= i < r.0 + 1 implies is_white(#[trigger] s[i]) by {
            if i > 0 {
                assert(t[i - 1] == s[i]);
            }
        }
        assert forall|i: int| r.1 + 1 <= i < s.len() implies is_white(#[trigger] s[i]) by {
            assert(t[i - 1] == s[i]);
        }
        assert(t.subrange(r.0, r.1) =~= s.subrange(r.0 + 1, r.1 + 1));
        (r.0 + 1, r.1 + 1)
    } else if is_white(s.last()) {
        let t = s.drop_last();
        let r = trimming_cuts_white_space(t);
        assert forall|i: int| 0 <= i < r.0 implies is_white(#[trigger] s[i]) by {
            assert(t[i] == s[i]);
        }
        assert forall|i: int| r.1 <= i < s.len() implies is_white(#[trigger] s[i]) by {
            if i < t.len() {
                assert(t[i] == s[i]);
            }
        }
        assert(t.subrange(r.0, r.1) =~= s.subrange(r.0, r.1));
        r
    } else {
        assert(s.subrange(0, s.len() as int) =~= s);
        (0, s.len() as int)
    }
}

/// A fitted text has the width, and keeps its characters in their places; behind them are spaces.
pub proof fn fitting_keeps_places(text: Seq<char>, width: nat, i: int)
    requires
        0 <= i < width,
    ensures
        fitted(text, width).len() == width,
        i < text.len() ==> fitted(text, width)[i] == text[i],
        i >= text.len() ==> fitted(text, width)[i] == ' ',
{
}

} // verus!
