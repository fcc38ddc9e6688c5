//! The characters that stand for lit and unlit pixels, and the render modes made of them.

use crate::screen::{char_columns, char_width, is_hangul, is_narrow};
use crate::text::{chars_of, decimal, push_decimal, same_text};
use vstd::prelude::*;

verus! {

/// The characters for the four states of a cell, whose upper and lower half show one pixel each.
#[derive(Debug, Clone, Copy, PartialEq, Eq, Structural)]
pub struct CharSet {
    pub empty: char,
    pub top: char,
    pub bottom: char,
    pub full: char,
    /// Terminal columns each character occupies (1 = narrow, 2 = wide)
    pub col_width: u16,
}

/// How the cells of the video are drawn.
#[derive(Debug, Clone, Copy, PartialEq, Eq, Structural)]
pub enum RenderMode {
    /// A character by the state of the two pixels.
    Charset(CharSet),
    /// The upper half block, with the two pixels as its colors.
    FullColor,
}

/// The columns of a character; one where it has none of its own.
pub open spec fn columns_or_one(width: Option<usize>) -> nat {
    match width {
        Some(w) => w as nat,
        None => 1,
    }
}

/// The widest of some characters, and one column at least.
pub open spec fn widest(widths: Seq<Option<usize>>) -> nat
    decreases widths.len(),
{
    if widths.len() == 0 {
        1
    } else {
        let before = widest(widths.drop_last());
        let w = columns_or_one(widths.last());
        if w > before {
            w
        } else {
            before
        }
    }
}

/// The columns of each of the four characters.
pub open spec fn widths_of(a: char, b: char, c: char, d: char) -> Seq<Option<usize>> {
    seq![char_columns(a), char_columns(b), char_columns(c), char_columns(d)]
}

/// Whether the columns of `c` are those of the kind of character that it is: one for a narrow one,
/// two for a Hangul syllable.
pub open spec fn columns_known(c: char) -> bool {
    &&& is_narrow(c) ==> char_columns(c) == Some(1usize)
    &&& is_hangul(c) ==> char_columns(c) == Some(2usize)
}

/// Whether all of the four characters are narrow ones or Hangul syllables.
pub open spec fn narrow_or_hangul(a: char, b: char, c: char, d: char) -> bool {
    &&& is_narrow(a) || is_hangul(a)
    &&& is_narrow(b) || is_hangul(b)
    &&& is_narrow(c) || is_hangul(c)
    &&& is_narrow(d) || is_hangul(d)
}

/// The columns of the widest of four characters that are narrow ones or Hangul syllables.
pub open spec fn one_or_two(a: char, b: char, c: char, d: char) -> u16 {
    if is_hangul(a) || is_hangul(b) || is_hangul(c) || is_hangul(d) {
        2
    } else {
        1
    }
}

/// The message for a `--chars` text of `n` characters.
pub open spec fn chars_message(n: nat) -> Seq<char> {
    "--chars requires exactly 4 characters, got "@ + decimal(n)
}

/// The message for a `--gradient` text of `n` characters.
pub open spec fn gradient_message(n: nat) -> Seq<char> {
    "--gradient requires at least 2 characters, got "@ + decimal(n)
}

/// The widest of some characters, and one column at least.
pub fn widest_of(widths: &Vec<Option<usize>>) -> (r: u16)
    requires
        forall|i: int|
            0 <= i < widths@.len() ==> columns_or_one(#[trigger] widths@[i]) <= u16::MAX,
    ensures
        r == widest(widths@),
        r >= 1,
        forall|i: int|
            0 <= i < widths@.len() && (#[trigger] widths@[i]) is Some ==> widths@[i]->0 <= r,
        r > 1 ==> exists|i: int|
            0 <= i < widths@.len() && (#[trigger] widths@[i]) is Some && widths@[i]->0 == r,
{
    proof {
        widest_is_reached(widths@);
    }
    let mut r: u16 = 1;
    let mut i: usize = 0;
    while i < widths.len()
        invariant
            i <= widths@.len(),
            forall|j: int|
                0 <= j < widths@.len() ==> columns_or_one(#[trigger] widths@[j]) <= u16::MAX,
            r == widest(widths@.take(i as int)),
        decreases widths@.len() - i,
    {
        assert(columns_or_one(widths@[i as int]) <= u16::MAX);
        assert(widths@.take(i + 1).drop_last() =~= widths@.take(i as int));
        let w: u16 = match widths[i] {
            Some(w) => w as u16,
            None => 1,
        };
        if w > r {
            r = w;
        }
        i = i + 1;
    }
    assert(widths@.take(i as int) =~= widths@);
    r
}

proof fn lemma_widest_bounds(widths: Seq<Option<usize>>)
    ensures
        widest(widths) >= 1,
        forall|i: int|
            0 <= i < widths.len() ==> columns_or_one(#[trigger] widths[i]) <= widest(widths),
    decreases widths.len(),
{
    if widths.len() > 0 {
        let rest = widths.drop_last();
        lemma_widest_bounds(rest);
        assert forall|i: int| 0 <= i < widths.len() implies columns_or_one(#[trigger] widths[i])
            <= widest(widths) by {
            if i < rest.len() {
                assert(rest[i] == widths[i]);
            }
        }
    }
}

proof fn lemma_widest_of_four(widths: Seq<Option<usize>>)
    requires
        widths.len() == 4,
    ensures
        widest(widths) == 1 || exists|i: int|
            0 <= i < 4 && widest(widths) == columns_or_one(#[trigger] widths[i]),
{
    reveal_with_fuel(widest, 5);
    let three = widths.drop_last();
    let two = three.drop_last();
    let one = two.drop_last();
    assert(three[2] == widths[2] && two[1] == widths[1] && one[0] == widths[0]);
}

impl RenderMode {
    /// Whether no character of the mode is wider than its slot.
    pub open spec fn fits_slots(self) -> bool {
        match self {
            RenderMode::Charset(cs) => cs.fits_slots(),
            RenderMode::FullColor => true,
        }
    }

    /// Whether the columns of its characters are those of their kind.
    pub open spec fn columns_known(self) -> bool {
        match self {
            RenderMode::Charset(cs) => cs.columns_known(),
            RenderMode::FullColor => true,
        }
    }
}

impl CharSet {
    /// Whether none of the characters is wider than its slot.
    pub open spec fn fits_slots(self) -> bool {
        let widths = widths_of(self.empty, self.top, self.bottom, self.full);
        &&& self.col_width >= 1
        &&& forall|i: int|
            0 <= i < widths.len() ==> columns_or_one(#[trigger] widths[i]) <= self.col_width
    }

    /// Whether the columns of the characters are those of their kind.
    pub open spec fn columns_known(self) -> bool {
        &&& columns_known(self.empty)
        &&& columns_known(self.top)
        &&& columns_known(self.bottom)
        &&& columns_known(self.full)
    }

    /// Four characters, in slots as wide as the widest of them.
    pub open spec fn of_chars(empty: char, top: char, bottom: char, full: char) -> CharSet {
        CharSet {
            empty,
            top,
            bottom,
            full,
            col_width: widest(widths_of(empty, top, bottom, full)) as u16,
        }
    }

    /// Four characters of a palette: the first, the last, and those at one and two thirds of the
    /// way, rounded down.
    pub open spec fn of_gradient(s: Seq<char>) -> CharSet {
        let last = s.len() - 1;
        CharSet::of_chars(s[0], s[last / 3], s[2 * last / 3], s[last])
    }

    /// Four characters, in slots as wide as the widest of the given widths.
    pub fn with_widths(
        empty: char,
        top: char,
        bottom: char,
        full: char,
        widths: &Vec<Option<usize>>,
    ) -> (r: Self)
        requires
            forall|i: int|
                0 <= i < widths@.len() ==> columns_or_one(#[trigger] widths@[i]) <= u16::MAX,
        ensures
            r == (CharSet { empty, top, bottom, full, col_width: widest(widths@) as u16 }),
            r.col_width == widest(widths@),
    {
        CharSet { empty, top, bottom, full, col_width: widest_of(widths) }
    }

    fn from_four(empty: char, top: char, bottom: char, full: char) -> (r: Self)
        ensures
            r == CharSet::of_chars(empty, top, bottom, full),
            r.empty == empty,
            r.top == top,
            r.bottom == bottom,
            r.full == full,
            is_widest(r.col_width as int, empty, top, bottom, full),
            r.fits_slots(),
            r.columns_known(),
            narrow_or_hangul(empty, top, bottom, full) ==> r.col_width == one_or_two(
                empty,
                top,
                bottom,
                full,
            ),
    {
        let mut widths: Vec<Option<usize>> = Vec::new();
        widths.push(char_width(empty));
        widths.push(char_width(top));
        widths.push(char_width(bottom));
        widths.push(char_width(full));
        proof {
            assert(widths@ =~= widths_of(empty, top, bottom, full));
            lemma_widest_bounds(widths@);
            lemma_widest_of_four(widths@);
            slots_are_as_wide_as_the_widest(empty, top, bottom, full);
        }
        CharSet::with_widths(empty, top, bottom, full, &widths)
    }

    /// Custom characters for the four pixel states, in order: empty top-only bottom-only full.
    /// Width (narrow/wide) is auto-detected from the characters.
    pub fn from_str(s: &str) -> (r: Result<Self, String>)
        ensures
            match r {
                Ok(cs) => {
                    &&& s@.len() == 4
                    &&& cs == CharSet::of_chars(s@[0], s@[1], s@[2], s@[3])
                    &&& cs.empty == s@[0]
                    &&& cs.top == s@[1]
                    &&& cs.bottom == s@[2]
                    &&& cs.full == s@[3]
                    &&& is_widest(cs.col_width as int, s@[0], s@[1], s@[2], s@[3])
                    &&& cs.fits_slots()
                    &&& cs.columns_known()
                    &&& narrow_or_hangul(s@[0], s@[1], s@[2], s@[3]) ==> cs.col_width == one_or_two(
                        s@[0],
                        s@[1],
                        s@[2],
                        s@[3],
                    )
                },
                Err(e) => s@.len() != 4 && e@ == chars_message(s@.len()) && e@
                    == "--chars requires exactly 4 characters, got "@ + decimal(s@.len()),
            },
    {
        let chars = chars_of(s);
        if chars.len() != 4 {
            let mut message = "--chars requires exactly 4 characters, got ".to_owned();
            push_decimal(&mut message, chars.len());
            return Err(message);
        }
        Ok(CharSet::from_four(chars[0], chars[1], chars[2], chars[3]))
    }

    /// Dots to at signs: `.:-=+*#%@` at its positions 0, 2, 5 and 8.
    pub fn ascii() -> (r: Self)
        ensures
            r == (CharSet { empty: '.', top: '-', bottom: '*', full: '@', col_width: 1 }),
            r.fits_slots(),
            r.columns_known(),
    {
        CharSet::from_four('.', '-', '*', '@')
    }

    /// Few dots to all: `⠁⠃⠇⠧⠷⠿` at its positions 0, 1, 3 and 5.
    pub fn braille() -> (r: Self)
        ensures
            r == (CharSet { empty: '⠁', top: '⠃', bottom: '⠧', full: '⠿', col_width: 1 }),
            r.fits_slots(),
            r.columns_known(),
    {
        CharSet::from_four('⠁', '⠃', '⠧', '⠿')
    }

    /// Gradient palette (2+ characters, darkest to brightest).
    /// Four characters are sampled evenly from it for the four pixel states.
    /// Width (narrow/wide) is auto-detected from the characters.
    pub fn from_gradient(s: &str) -> (r: Result<Self, String>)
        ensures
            match r {
                Ok(cs) => {
                    &&& s@.len() >= 2
                    &&& cs == CharSet::of_gradient(s@)
                    &&& cs.empty == s@[0]
                    &&& cs.top == s@[(s@.len() - 1) / 3]
                    &&& cs.bottom == s@[2 * (s@.len() - 1) / 3]
                    &&& cs.full == s@[s@.len() - 1]
                    &&& is_widest(cs.col_width as int, cs.empty, cs.top, cs.bottom, cs.full)
                    &&& cs.fits_slots()
                    &&& cs.columns_known()
                    &&& narrow_or_hangul(cs.empty, cs.top, cs.bottom, cs.full) ==> cs.col_width
                        == one_or_two(cs.empty, cs.top, cs.bottom, cs.full)
                },
                Err(e) => s@.len() < 2 && e@ == gradient_message(s@.len()) && e@
                    == "--gradient requires at least 2 characters, got "@ + decimal(s@.len()),
            },
    {
        let chars = chars_of(s);
        if chars.len() < 2 {
            let mut message = "--gradient requires at least 2 characters, got ".to_owned();
            push_decimal(&mut message, chars.len());
            return Err(message);
        }
        let last: usize = chars.len() - 1;
        let third: usize = last / 3;
        let two_thirds: usize = 2 * third + 2 * (last % 3) / 3;
        assert(two_thirds == 2 * (last as int) / 3);
        Ok(CharSet::from_four(chars[0], chars[third], chars[two_thirds], chars[last]))
    }

    /// Blank to full block.
    pub fn shading() -> (r: Self)
        ensures
            r == (CharSet { empty: ' ', top: '░', bottom: '▒', full: '█', col_width: 1 }),
            r.fits_slots(),
            r.columns_known(),
    {
        CharSet::from_four(' ', '░', '▒', '█')
    }

    /// Korean syllables of few strokes to many, each two columns wide.
    pub fn korean() -> (r: Self)
        ensures
            r == (CharSet { empty: '시', top: '뽁', bottom: '늙', full: '뾃', col_width: 2 }),
            r.fits_slots(),
            r.columns_known(),
    {
        CharSet::from_four('시', '뽁', '늙', '뾃')
    }
}

/// The built-in modes in the order in which the arrow keys cycle through them, each with its
/// default for color.
pub open spec fn builtin_modes() -> Seq<(Seq<char>, bool)> {
    seq![
        ("full-color"@, true),
        ("ascii-color"@, true),
        ("ascii"@, false),
        ("braille"@, true),
        ("korean"@, true),
        ("shading"@, false),
    ]
}

/// How many built-in modes there are.
pub const MODE_COUNT: usize = 6;

/// Whether some built-in mode has this name.
pub open spec fn is_builtin(mode: Seq<char>) -> bool {
    exists|i: int| 0 <= i < MODE_COUNT && #[trigger] builtin_modes()[i].0 == mode
}

/// The name of a built-in mode.
pub fn builtin_name(i: usize) -> (r: &'static str)
    requires
        i < MODE_COUNT,
    ensures
        r@ == builtin_modes()[i as int].0,
        i == 0 ==> r@ == "full-color"@,
        i == 1 ==> r@ == "ascii-color"@,
        i == 2 ==> r@ == "ascii"@,
        i == 3 ==> r@ == "braille"@,
        i == 4 ==> r@ == "korean"@,
        i == 5 ==> r@ == "shading"@,
{
    if i == 0 {
        "full-color"
    } else if i == 1 {
        "ascii-color"
    } else if i == 2 {
        "ascii"
    } else if i == 3 {
        "braille"
    } else if i == 4 {
        "korean"
    } else {
        "shading"
    }
}

/// Whether a built-in mode is colored by default.
pub fn builtin_colorize(i: usize) -> (r: bool)
    requires
        i < MODE_COUNT,
    ensures
        r == builtin_modes()[i as int].1,
        r == (i != 2 && i != 5),
{
    i != 2 && i != 5
}

proof fn lemma_names_differ()
    ensures
        "full-color"@.len() == 10,
        "ascii-color"@.len() == 11,
        "ascii"@.len() == 5,
        "braille"@.len() == 7,
        "braille"@[0] == 'b',
        "korean"@.len() == 6,
        "shading"@.len() == 7,
        "shading"@[0] == 's',
        builtin_modes()[0].0 == "full-color"@,
        builtin_modes()[1].0 == "ascii-color"@,
        builtin_modes()[2].0 == "ascii"@,
        builtin_modes()[3].0 == "braille"@,
        builtin_modes()[4].0 == "korean"@,
        builtin_modes()[5].0 == "shading"@,
{
    reveal_strlit("full-color");
    reveal_strlit("ascii-color");
    reveal_strlit("ascii");
    reveal_strlit("braille");
    reveal_strlit("korean");
    reveal_strlit("shading");
}

/// Whether `i` is the index of a built-in mode; the first mode stands for any other name.
pub open spec fn is_mode_index(i: usize, mode: Seq<char>) -> bool {
    &&& i < MODE_COUNT
    &&& is_builtin(mode) ==> builtin_modes()[i as int].0 == mode && forall|j: int|
        0 <= j < i ==> #[trigger] builtin_modes()[j].0 != mode
    &&& !is_builtin(mode) ==> i == 0
}

/// The index of a built-in mode; that of the first mode for any other name.
pub fn mode_index(mode: &str) -> (r: usize)
    ensures
        is_mode_index(r, mode@),
        r == 1 <==> mode@ == "ascii-color"@,
        r == 2 <==> mode@ == "ascii"@,
        r == 3 <==> mode@ == "braille"@,
        r == 4 <==> mode@ == "korean"@,
        r == 5 <==> mode@ == "shading"@,
        r < 6,
{
    let mut i: usize = 0;
    while i < MODE_COUNT
        invariant
            i <= MODE_COUNT,
            forall|j: int| 0 <= j < i ==> #[trigger] builtin_modes()[j].0 != mode@,
        decreases MODE_COUNT - i,
    {
        if same_text(builtin_name(i), mode) {
            assert(builtin_modes()[i as int].0 == mode@);
            proof {
                lemma_names_differ();
            }
            return i;
        }
        i = i + 1;
    }
    proof {
        lemma_names_differ();
    }
    0
}

/// The next built-in mode, behind the last the first.
pub open spec fn next_mode(i: usize) -> usize {
    if i + 1 < MODE_COUNT {
        (i + 1) as usize
    } else {
        0
    }
}

/// The previous built-in mode, before the first the last.
pub open spec fn previous_mode(i: usize) -> usize {
    if i > 0 {
        (i - 1) as usize
    } else {
        (MODE_COUNT - 1) as usize
    }
}

/// Cycling forward and backward undo each other.
pub proof fn cycling_is_undone(i: usize)
    requires
        i < MODE_COUNT,
    ensures
        previous_mode(next_mode(i)) == i,
        next_mode(previous_mode(i)) == i,
{
}

/// The render mode of a name.
pub open spec fn render_mode_of(mode: Seq<char>) -> RenderMode {
    if mode == "full-color"@ {
        RenderMode::FullColor
    } else if mode == "ascii-color"@ || mode == "ascii"@ {
        RenderMode::Charset(
            CharSet { empty: '.', top: '-', bottom: '*', full: '@', col_width: 1 },
        )
    } else if mode == "braille"@ {
        RenderMode::Charset(
            CharSet { empty: '⠁', top: '⠃', bottom: '⠧', full: '⠿', col_width: 1 },
        )
    } else if mode == "korean"@ {
        RenderMode::Charset(
            CharSet { empty: '시', top: '뽁', bottom: '늙', full: '뾃', col_width: 2 },
        )
    } else {
        RenderMode::Charset(
            CharSet { empty: ' ', top: '░', bottom: '▒', full: '█', col_width: 1 },
        )
    }
}

/// Every character of a mode that has a name fills its slot.
pub proof fn named_characters_fill_their_slots(mode: Seq<char>)
    requires
        render_mode_of(mode) is Charset,
        render_mode_of(mode).columns_known(),
    ensures
        ({
            let cs = render_mode_of(mode)->Charset_0;
            &&& char_columns(cs.empty) == Some(cs.col_width as usize)
            &&& char_columns(cs.top) == Some(cs.col_width as usize)
            &&& char_columns(cs.bottom) == Some(cs.col_width as usize)
            &&& char_columns(cs.full) == Some(cs.col_width as usize)
        }),
{
}

/// The render mode of a built-in mode's name, and shading for any other name.
pub fn render_mode_for_builtin(mode: &str) -> (r: RenderMode)
    ensures
        r == render_mode_of(mode@),
        r.fits_slots(),
        r.columns_known(),
        r == RenderMode::FullColor <==> mode@ == "full-color"@,
        mode@ == "ascii"@ || mode@ == "ascii-color"@ ==> r == RenderMode::Charset(
            CharSet { empty: '.', top: '-', bottom: '*', full: '@', col_width: 1 },
        ),
        mode@ == "braille"@ ==> r == RenderMode::Charset(
            CharSet { empty: '⠁', top: '⠃', bottom: '⠧', full: '⠿', col_width: 1 },
        ),
        mode@ == "korean"@ ==> r == RenderMode::Charset(
            CharSet { empty: '시', top: '뽁', bottom: '늙', full: '뾃', col_width: 2 },
        ),
        mode@ != "full-color"@ && mode@ != "ascii"@ && mode@ != "ascii-color"@ && mode@
            != "braille"@ && mode@ != "korean"@ ==> r == RenderMode::Charset(
            CharSet { empty: ' ', top: '░', bottom: '▒', full: '█', col_width: 1 },
        ),
{
    proof {
        lemma_names_differ();
    }
    if same_text(mode, "full-color") {
        RenderMode::FullColor
    } else if same_text(mode, "ascii-color") {
        RenderMode::Charset(CharSet::ascii())
    } else if same_text(mode, "ascii") {
        RenderMode::Charset(CharSet::ascii())
    } else if same_text(mode, "braille") {
        RenderMode::Charset(CharSet::braille())
    } else if same_text(mode, "korean") {
        RenderMode::Charset(CharSet::korean())
    } else {
        RenderMode::Charset(CharSet::shading())
    }
}

/// The widest is at least one column, as wide as every character, and no wider than one of them.
pub proof fn widest_is_reached(widths: Seq<Option<usize>>)
    ensures
        widest(widths) >= 1,
        forall|i: int|
            0 <= i < widths.len() && (#[trigger] widths[i]) is Some ==> widths[i]->0 <= widest(
                widths,
            ),
        widest(widths) > 1 ==> exists|i: int|
            0 <= i < widths.len() && (#[trigger] widths[i]) is Some && widths[i]->0 == widest(
                widths,
            ),
    decreases widths.len(),
{
    if widths.len() > 0 {
        let rest = widths.drop_last();
        widest_is_reached(rest);
        let last = widths.len() - 1;
        assert forall|i: int|
            0 <= i < widths.len() && (#[trigger] widths[i]) is Some implies widths[i]->0 <= widest(
            widths,
        ) by {
            if i < last {
                assert(rest[i] == widths[i]);
            }
        }
        if widest(widths) > 1 {
            if widest(widths) > widest(rest) {
                assert(widths[last] is Some && widths[last]->0 == widest(widths));
            } else {
                let i = choose|i: int|
                    0 <= i < rest.len() && (#[trigger] rest[i]) is Some && rest[i]->0 == widest(
                        rest,
                    );
                assert(widths[i] == rest[i]);
            }
        }
    }
}

/// Whether `n` columns are as wide as the widest of four characters: no character is wider, and where
/// it is more than one column some character is as wide.
pub open spec fn is_widest(n: int, a: char, b: char, c: char, d: char) -> bool {
    &&& n >= 1
    &&& char_columns(a) is Some ==> char_columns(a)->0 <= n
    &&& char_columns(b) is Some ==> char_columns(b)->0 <= n
    &&& char_columns(c) is Some ==> char_columns(c)->0 <= n
    &&& char_columns(d) is Some ==> char_columns(d)->0 <= n
    &&& n > 1 ==> {
        ||| char_columns(a) is Some && char_columns(a)->0 == n
        ||| char_columns(b) is Some && char_columns(b)->0 == n
        ||| char_columns(c) is Some && char_columns(c)->0 == n
        ||| char_columns(d) is Some && char_columns(d)->0 == n
    }
}

/// The slots of four characters are as wide as the widest of them.
pub proof fn slots_are_as_wide_as_the_widest(a: char, b: char, c: char, d: char)
    ensures
        is_widest(widest(widths_of(a, b, c, d)) as int, a, b, c, d),
        ({
            let n = widest(widths_of(a, b, c, d));
            &&& n >= 1
            &&& char_columns(a) is Some ==> char_columns(a)->0 <= n
            &&& char_columns(b) is Some ==> char_columns(b)->0 <= n
            &&& char_columns(c) is Some ==> char_columns(c)->0 <= n
            &&& char_columns(d) is Some ==> char_columns(d)->0 <= n
            &&& n == 1 || char_columns(a) == Some(n as usize) || char_columns(b) == Some(n as usize)
                || char_columns(c) == Some(n as usize) || char_columns(d) == Some(n as usize)
            &&& CharSet::of_chars(a, b, c, d) == CharSet {
                empty: a,
                top: b,
                bottom: c,
                full: d,
                col_width: n as u16,
            }
        }),
{
    let widths = widths_of(a, b, c, d);
    widest_is_reached(widths);
    assert(widths[0] == char_columns(a));
    assert(widths[1] == char_columns(b));
    assert(widths[2] == char_columns(c));
    assert(widths[3] == char_columns(d));
}

/// Four characters stay in their order; those of a palette are its first and last, and those at one
/// and two thirds of the way between, rounded down.
pub proof fn palette_is_sampled_evenly(s: Seq<char>)
    requires
        s.len() >= 2,
    ensures
        ({
            let cs = CharSet::of_gradient(s);
            let last = s.len() - 1;
            &&& cs.empty == s[0]
            &&& cs.full == s[s.len() - 1]
            &&& exists|i: int| 3 * i <= last < 3 * i + 3 && cs.top == #[trigger] s[i]
            &&& exists|i: int| 3 * i <= 2 * last < 3 * i + 3 && cs.bottom == #[trigger] s[i]
        }),
{
    let last = s.len() - 1;
    assert(CharSet::of_gradient(s).top == s[last / 3]);
    assert(CharSet::of_gradient(s).bottom == s[2 * last / 3]);
}

/// A character fits its slot where it takes up no more columns.
pub proof fn fitting_is_taking_no_more_columns(cs: CharSet)
    ensures
        cs.fits_slots() <==> {
            &&& cs.col_width >= 1
            &&& char_columns(cs.empty) is Some ==> char_columns(cs.empty)->0 <= cs.col_width
            &&& char_columns(cs.top) is Some ==> char_columns(cs.top)->0 <= cs.col_width
            &&& char_columns(cs.bottom) is Some ==> char_columns(cs.bottom)->0 <= cs.col_width
            &&& char_columns(cs.full) is Some ==> char_columns(cs.full)->0 <= cs.col_width
        },
{
    let widths = widths_of(cs.empty, cs.top, cs.bottom, cs.full);
    assert(widths[0] == char_columns(cs.empty));
    assert(widths[1] == char_columns(cs.top));
    assert(widths[2] == char_columns(cs.bottom));
    assert(widths[3] == char_columns(cs.full));
}

} // verus!
