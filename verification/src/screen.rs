//! The terminal screen: a grid of cells into which texts are painted.

use ratatui::buffer::Buffer;
use ratatui::style::{Color, Modifier, Style};
use unicode_width::UnicodeWidthChar;
use vstd::prelude::*;

verus! {

/// The screen buffer of ratatui: a rectangle of cells.
#[verifier::external_type_specification]
#[verifier::external_body]
pub struct ExBuffer(Buffer);

/// A 24-bit color: red, green, blue.
pub type Rgb = (u8, u8, u8);

/// The modifier bit that swaps foreground and background.
pub const REVERSED: u16 = 64;

/// A color of a cell.
pub enum CellColor {
    /// The default of the terminal.
    Reset,
    /// A 24-bit color.
    Rgb(Rgb),
    /// Any other: a named or indexed color.
    Other,
}

/// What one cell of the screen shows.
pub struct CellView {
    /// The characters drawn in the cell.
    pub symbol: Seq<char>,
    pub fg: CellColor,
    pub bg: CellColor,
    /// The modifier bits.
    pub modifier: u16,
}

/// How a text is painted: a color that is `None` and a modifier bit that is zero leave what the
/// cell had.
pub struct Paint {
    pub fg: Option<Rgb>,
    pub bg: Option<Rgb>,
    pub modifier: u16,
}

/// Cells by column and row.
pub type Cells = Map<(u16, u16), CellView>;

/// A grapheme and the columns that it takes up.
pub type Grapheme = (Seq<char>, u16);

/// The cells that a buffer holds, by column and row.
pub uninterp spec fn buffer_cells(buf: Buffer) -> Map<(u16, u16), CellView>;

/// The first column to the right of a buffer's area.
pub uninterp spec fn buffer_right(buf: Buffer) -> u16;

/// The columns that a character takes up on a terminal; `None` for a control character.
pub uninterp spec fn char_columns(c: char) -> Option<usize>;

/// The graphemes of a text that hold no control character and take up columns, in order, each
/// with its columns.
pub uninterp spec fn visible_graphemes(text: Seq<char>) -> Seq<(Seq<char>, u16)>;

/// Whether `c` is a control character, which no cell can show.
pub open spec fn is_control(c: char) -> bool {
    c < ' ' || '\u{7f}' <= c < '\u{a0}'
}

/// Whether `c` is one of the characters known to stand by themselves in one column: printable
/// ASCII, the arrows to the four sides, the block elements, and the braille patterns.
pub open spec fn is_narrow(c: char) -> bool {
    ||| ' ' <= c < '\u{7f}'
    ||| '\u{2190}' <= c <= '\u{2193}'
    ||| '\u{2580}' <= c <= '\u{259f}'
    ||| '\u{2800}' <= c <= '\u{28ff}'
}

/// Whether `c` is a Hangul syllable, which takes up two columns.
pub open spec fn is_hangul(c: char) -> bool {
    '\u{ac00}' <= c <= '\u{d7a3}'
}

/// Whether every character of `text` stands by itself in one column.
pub open spec fn all_narrow(text: Seq<char>) -> bool {
    forall|i: int| 0 <= i < text.len() ==> is_narrow(#[trigger] text[i])
}

/// The characters of a text, each a grapheme of one column.
pub open spec fn one_column_each(text: Seq<char>) -> Seq<Grapheme> {
    Seq::new(text.len(), |i: int| (seq![text[i]], 1u16))
}

/// One character as a text: nothing where it takes up no column.
pub open spec fn lone_char(c: char) -> Seq<Grapheme> {
    match char_columns(c) {
        Some(w) => if w > 0 {
            seq![(seq![c], w as u16)]
        } else {
            seq![]
        },
        None => seq![],
    }
}

/// An empty cell, in the colors of the terminal.
pub open spec fn blank() -> CellView {
    CellView { symbol: seq![' '], fg: CellColor::Reset, bg: CellColor::Reset, modifier: 0 }
}

/// The color of a cell once it has been painted.
pub open spec fn recolored(color: CellColor, paint: Option<Rgb>) -> CellColor {
    match paint {
        Some(rgb) => CellColor::Rgb(rgb),
        None => color,
    }
}

/// What a cell shows once `symbol` has been painted into it.
pub open spec fn painted(cell: CellView, symbol: Seq<char>, paint: Paint) -> CellView {
    CellView {
        symbol,
        fg: recolored(cell.fg, paint.fg),
        bg: recolored(cell.bg, paint.bg),
        modifier: cell.modifier | paint.modifier,
    }
}

/// Paints one grapheme at column `x` of row `y`, and blanks the further cells that it covers.
pub open spec fn paint_grapheme(cells: Cells, x: int, y: u16, g: Grapheme, paint: Paint) -> Cells {
    Map::new(
        |p: (u16, u16)| cells.contains_key(p),
        |p: (u16, u16)|
            if p.1 == y && p.0 == x {
                painted(cells[p], g.0, paint)
            } else if p.1 == y && x < p.0 < x + g.1 {
                blank()
            } else {
                cells[p]
            },
    )
}

/// Paints graphemes one after the other from column `x` of row `y`, up to the first that would
/// reach beyond column `right`.
pub open spec fn paint_graphemes(
    cells: Cells,
    right: u16,
    x: int,
    y: u16,
    gs: Seq<Grapheme>,
    paint: Paint,
) -> Cells
    decreases gs.len(),
{
    if gs.len() == 0 || x + gs[0].1 > right {
        cells
    } else {
        paint_graphemes(
            paint_grapheme(cells, x, y, gs[0], paint),
            right,
            x + gs[0].1,
            y,
            gs.drop_first(),
            paint,
        )
    }
}

/// Painting adds and removes no cell.
pub proof fn painting_keeps_cells(
    cells: Cells,
    right: u16,
    x: int,
    y: u16,
    gs: Seq<Grapheme>,
    paint: Paint,
)
    ensures
        paint_graphemes(cells, right, x, y, gs, paint).dom() == cells.dom(),
    decreases gs.len(),
{
    if gs.len() == 0 || x + gs[0].1 > right {
    } else {
        let next = paint_grapheme(cells, x, y, gs[0], paint);
        assert(next.dom() =~= cells.dom());
        painting_keeps_cells(next, right, x + gs[0].1, y, gs.drop_first(), paint);
    }
}

/// Whether `buf` holds every cell of row `y` from column `x` to its right edge.
pub open spec fn holds_row(buf: Buffer, x: u16, y: u16) -> bool {
    forall|cx: u16|
        x <= cx < buffer_right(buf) ==> #[trigger] buffer_cells(buf).contains_key((cx, y))
}

/// The columns of a character: `UnicodeWidthChar::width` of the unicode-width crate. It answers
/// `None` for control characters alone, and never more than three columns: one for the narrow
/// characters, two for Hangul syllables.
#[verifier::external_body]
pub(crate) fn char_width(c: char) -> (r: Option<usize>)
    ensures
        r == char_columns(c),
        r is None <==> is_control(c),
        is_narrow(c) ==> r == Some(1usize),
        is_hangul(c) ==> r == Some(2usize),
        r matches Some(w) ==> w <= 3,
{
    c.width()
}

/// Paints a text into one row: ratatui's `Buffer::set_string`. It paints the visible graphemes of
/// the text from left to right and stops at the right edge. A text of one character is one
/// grapheme, visible where the character takes up columns; in a text of narrow characters each is
/// a grapheme of one column.
#[verifier::external_body]
pub(crate) fn set_string(buf: &mut Buffer, x: u16, y: u16, text: &str, paint: &Paint)
    requires
        holds_row(*old(buf), x, y),
    ensures
        buffer_right(*final(buf)) == buffer_right(*old(buf)),
        buffer_cells(*final(buf)) == paint_graphemes(
            buffer_cells(*old(buf)),
            buffer_right(*old(buf)),
            x as int,
            y,
            visible_graphemes(text@),
            *paint,
        ),
        text@.len() == 1 ==> buffer_cells(*final(buf)) == paint_graphemes(
            buffer_cells(*old(buf)),
            buffer_right(*old(buf)),
            x as int,
            y,
            lone_char(text@[0]),
            *paint,
        ),
        all_narrow(text@) ==> buffer_cells(*final(buf)) == paint_graphemes(
            buffer_cells(*old(buf)),
            buffer_right(*old(buf)),
            x as int,
            y,
            one_column_each(text@),
            *paint,
        ),
{
    let mut style = Style::new();
    style.fg = paint.fg.map(|c| Color::Rgb(c.0, c.1, c.2));
    style.bg = paint.bg.map(|c| Color::Rgb(c.0, c.1, c.2));
    style.add_modifier = Modifier::from_bits_retain(paint.modifier);
    buf.set_string(x, y, text, style);
}

/// Whether a buffer holds a cell: ratatui's `Buffer::cell`, which answers `None` outside.
#[verifier::external_body]
pub(crate) fn has_cell(buf: &Buffer, x: u16, y: u16) -> (r: bool)
    ensures
        r == buffer_cells(*buf).contains_key((x, y)),
{
    buf.cell((x, y)).is_some()
}

/// The first column to the right of a buffer: `Rect::right` of ratatui's `Buffer::area`.
#[verifier::external_body]
pub(crate) fn right_of(buf: &Buffer) -> (r: u16)
    ensures
        r == buffer_right(*buf),
{
    buf.area().right()
}

/// Whether a buffer holds every cell of row `y` from column `x` to its right edge.
pub fn row_is_held(buf: &Buffer, x: u16, y: u16) -> (r: bool)
    ensures
        r == holds_row(*buf, x, y),
{
    let right = right_of(buf);
    let mut cx: u16 = x;
    while cx < right
        invariant
            right == buffer_right(*buf),
            x <= cx,
            forall|c: u16| x <= c < cx ==> #[trigger] buffer_cells(*buf).contains_key((c, y)),
        decreases right - cx,
    {
        if !has_cell(buf, cx, y) {
            return false;
        }
        cx = cx + 1;
    }
    true
}

/// A row is held from a column on where the buffer has every cell of it from there to its right edge.
pub proof fn held_rows_have_their_cells(buf: Buffer, x: u16, y: u16)
    ensures
        holds_row(buf, x, y) <==> forall|cx: u16|
            x <= cx && cx < buffer_right(buf) ==> #[trigger] buffer_cells(buf).dom().contains((cx, y)),
{
    if holds_row(buf, x, y) {
        assert forall|cx: u16| x <= cx && cx < buffer_right(buf) implies #[trigger] buffer_cells(
            buf,
        ).dom().contains((cx, y)) by {
            assert(buffer_cells(buf).contains_key((cx, y)));
        }
    }
    if forall|cx: u16|
        x <= cx && cx < buffer_right(buf) ==> #[trigger] buffer_cells(buf).dom().contains((cx, y)) {
        assert forall|cx: u16| x <= cx < buffer_right(buf) implies #[trigger] buffer_cells(
            buf,
        ).contains_key((cx, y)) by {
            assert(buffer_cells(buf).dom().contains((cx, y)));
        }
    }
}

/// Painting one character of `n` columns changes the cells that it covers and no other: the first
/// shows it, in the colors that are given and else in those it had, and the others are empty. One
/// that would reach beyond the right edge is not painted.
pub proof fn character_covers_its_columns(
    cells: Cells,
    right: u16,
    x: int,
    y: u16,
    c: char,
    paint: Paint,
    p: (u16, u16),
)
    requires
        cells.contains_key(p),
        char_columns(c) is Some,
        0 < char_columns(c)->0 <= u16::MAX,
    ensures
        ({
            let n = char_columns(c)->0;
            let after = paint_graphemes(cells, right, x, y, lone_char(c), paint);
            &&& after.contains_key(p)
            &&& x + n > right ==> after[p] == cells[p]
            &&& p.1 != y || p.0 < x || p.0 >= x + n ==> after[p] == cells[p]
            &&& x + n <= right && p.1 == y && p.0 == x ==> {
                &&& after[p].symbol == seq![c]
                &&& paint.fg is Some ==> after[p].fg == CellColor::Rgb(paint.fg->0)
                &&& paint.fg is None ==> after[p].fg == cells[p].fg
                &&& paint.bg is Some ==> after[p].bg == CellColor::Rgb(paint.bg->0)
                &&& paint.bg is None ==> after[p].bg == cells[p].bg
                &&& after[p].modifier == cells[p].modifier | paint.modifier
            }
            &&& x + n <= right && p.1 == y && x < p.0 < x + n ==> after[p] == (CellView {
                symbol: seq![' '],
                fg: CellColor::Reset,
                bg: CellColor::Reset,
                modifier: 0,
            })
        }),
{
    reveal_with_fuel(paint_graphemes, 2);
}

/// A character that takes up no column, or is a control character, changes no cell.
pub proof fn character_without_columns_is_not_painted(
    cells: Cells,
    right: u16,
    x: int,
    y: u16,
    c: char,
    paint: Paint,
)
    requires
        char_columns(c) is None || char_columns(c)->0 == 0,
    ensures
        paint_graphemes(cells, right, x, y, lone_char(c), paint) == cells,
{
}

} // verus!
