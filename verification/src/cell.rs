//! How a count is drawn: its intensity, and the glyph and colour of its cell.

use colored::Colorize;
use vstd::prelude::*;

verus! {

/// The intensity of a count, from 0 for none to 5 for twenty or more.
pub open spec fn classify_spec(count: int) -> int {
    if count <= 0 {
        0
    } else if count < 5 {
        1
    } else if count < 10 {
        2
    } else if count < 15 {
        3
    } else if count < 20 {
        4
    } else {
        5
    }
}

/// The intensity of a count.
pub fn classify(count: u32) -> (r: u8)
    ensures
        r as int == classify_spec(count as int),
        r <= 5,
{
    if count == 0 {
        0
    } else if count < 5 {
        1
    } else if count < 10 {
        2
    } else if count < 15 {
        3
    } else if count < 20 {
        4
    } else {
        5
    }
}

/// A larger count never has a smaller intensity, and every intensity is
/// between 0 and 5.
pub proof fn lemma_classify_monotonic(smaller: int, larger: int)
    requires
        0 <= smaller <= larger,
    ensures
        0 <= classify_spec(smaller) <= classify_spec(larger) <= 5,
{
}

/// How a grid is drawn.
#[derive(Clone, Copy, Debug, PartialEq, Eq, Structural)]
pub enum RenderMode {
    /// The count itself, in two columns.
    Numbers,
    /// A glyph for each intensity, in a colour of its own.
    Symbols,
    /// Two blanks on a red background that grows brighter with the intensity.
    DarkBlocks,
    /// Two blanks on a green background that grows darker with the intensity.
    LightBlocks,
}

/// The mode that the caller's switches select: numbers before symbols, and
/// symbols before coloured blocks.
pub open spec fn render_mode_spec(dark_mode: bool, use_symbols: bool, use_numbers: bool) -> RenderMode {
    if use_numbers {
        RenderMode::Numbers
    } else if use_symbols {
        RenderMode::Symbols
    } else if dark_mode {
        RenderMode::DarkBlocks
    } else {
        RenderMode::LightBlocks
    }
}

/// The mode that the caller's switches select.
pub fn render_mode(dark_mode: bool, use_symbols: bool, use_numbers: bool) -> (r: RenderMode)
    ensures
        r == render_mode_spec(dark_mode, use_symbols, use_numbers),
{
    if use_numbers {
        RenderMode::Numbers
    } else if use_symbols {
        RenderMode::Symbols
    } else if dark_mode {
        RenderMode::DarkBlocks
    } else {
        RenderMode::LightBlocks
    }
}

/// The colour of a cell.
#[derive(Clone, Copy, Debug, PartialEq, Eq, Structural)]
pub enum Paint {
    /// No colour at all.
    Plain,
    BrightBlack,
    Blue,
    Green,
    Yellow,
    Red,
    /// A background of the given red, green and blue.
    Background { red: u8, green: u8, blue: u8 },
}

/// A drawn cell: two characters and their colour.
#[derive(Clone, Copy, Debug)]
pub struct CellStyle {
    pub text: &'static str,
    pub paint: Paint,
}

/// The two characters that stand for an intensity in symbol mode.
pub open spec fn glyph_spec(intensity: int) -> Seq<char> {
    if intensity <= 0 {
        "  "@
    } else if intensity == 1 {
        ".."@
    } else if intensity == 2 {
        "--"@
    } else if intensity == 3 {
        "~~"@
    } else if intensity == 4 {
        "**"@
    } else {
        "##"@
    }
}

/// The foreground colour of an intensity in symbol mode.
pub open spec fn symbol_paint_spec(intensity: int) -> Paint {
    if intensity <= 0 {
        Paint::Plain
    } else if intensity == 1 {
        Paint::BrightBlack
    } else if intensity == 2 {
        Paint::Blue
    } else if intensity == 3 {
        Paint::Green
    } else if intensity == 4 {
        Paint::Yellow
    } else {
        Paint::Red
    }
}

/// The background of an intensity on the red ramp.
pub open spec fn dark_paint_spec(intensity: int) -> Paint {
    if intensity <= 0 {
        Paint::Plain
    } else if intensity == 1 {
        Paint::Background { red: 59, green: 0, blue: 0 }
    } else if intensity == 2 {
        Paint::Background { red: 102, green: 0, blue: 0 }
    } else if intensity == 3 {
        Paint::Background { red: 157, green: 0, blue: 0 }
    } else if intensity == 4 {
        Paint::Background { red: 204, green: 0, blue: 0 }
    } else {
        Paint::Background { red: 255, green: 0, blue: 0 }
    }
}

/// The background of an intensity on the green ramp.
pub open spec fn light_paint_spec(intensity: int) -> Paint {
    if intensity <= 0 {
        Paint::Plain
    } else if intensity == 1 {
        Paint::Background { red: 220, green: 247, blue: 220 }
    } else if intensity == 2 {
        Paint::Background { red: 153, green: 237, blue: 153 }
    } else if intensity == 3 {
        Paint::Background { red: 85, green: 219, blue: 85 }
    } else if intensity == 4 {
        Paint::Background { red: 44, green: 160, blue: 44 }
    } else {
        Paint::Background { red: 0, green: 109, blue: 0 }
    }
}

/// The characters of a count's cell: its glyph in symbol mode, else two blanks.
pub open spec fn cell_text_spec(count: int, use_symbols: bool) -> Seq<char> {
    if use_symbols {
        glyph_spec(classify_spec(count))
    } else {
        "  "@
    }
}

/// The colour of a count's cell: the glyph's colour in symbol mode, else a
/// background from the red ramp in dark mode and from the green ramp otherwise.
pub open spec fn cell_paint_spec(count: int, dark_mode: bool, use_symbols: bool) -> Paint {
    if use_symbols {
        symbol_paint_spec(classify_spec(count))
    } else if dark_mode {
        dark_paint_spec(classify_spec(count))
    } else {
        light_paint_spec(classify_spec(count))
    }
}

/// The cell of a count, as glyph or as coloured block.
pub fn format_cell(count: u32, dark_mode: bool, use_symbols: bool) -> (r: CellStyle)
    ensures
        r.text@ == cell_text_spec(count as int, use_symbols),
        r.paint == cell_paint_spec(count as int, dark_mode, use_symbols),
{
    let intensity = classify(count);
    let text = if use_symbols {
        match intensity {
            0 => "  ",
            1 => "..",
            2 => "--",
            3 => "~~",
            4 => "**",
            _ => "##",
        }
    } else {
        "  "
    };
    let paint = if use_symbols {
        match intensity {
            0 => Paint::Plain,
            1 => Paint::BrightBlack,
            2 => Paint::Blue,
            3 => Paint::Green,
            4 => Paint::Yellow,
            _ => Paint::Red,
        }
    } else if dark_mode {
        match intensity {
            0 => Paint::Plain,
            1 => Paint::Background { red: 59, green: 0, blue: 0 },
            2 => Paint::Background { red: 102, green: 0, blue: 0 },
            3 => Paint::Background { red: 157, green: 0, blue: 0 },
            4 => Paint::Background { red: 204, green: 0, blue: 0 },
            _ => Paint::Background { red: 255, green: 0, blue: 0 },
        }
    } else {
        match intensity {
            0 => Paint::Plain,
            1 => Paint::Background { red: 220, green: 247, blue: 220 },
            2 => Paint::Background { red: 153, green: 237, blue: 153 },
            3 => Paint::Background { red: 85, green: 219, blue: 85 },
            4 => Paint::Background { red: 44, green: 160, blue: 44 },
            _ => Paint::Background { red: 0, green: 109, blue: 0 },
        }
    };
    CellStyle { text, paint }
}

/// The number of columns of a cell.
pub const CELL_WIDTH: usize = 2;

/// The character of a decimal digit.
pub open spec fn digit_char(digit: int) -> char {
    if digit <= 0 {
        '0'
    } else if digit == 1 {
        '1'
    } else if digit == 2 {
        '2'
    } else if digit == 3 {
        '3'
    } else if digit == 4 {
        '4'
    } else if digit == 5 {
        '5'
    } else if digit == 6 {
        '6'
    } else if digit == 7 {
        '7'
    } else if digit == 8 {
        '8'
    } else {
        '9'
    }
}

/// A number in decimal digits, without zeros before them.
pub open spec fn decimal(number: nat) -> Seq<char>
    decreases number,
{
    if number < 10 {
        seq![digit_char(number as int)]
    } else {
        decimal(number / 10).push(digit_char((number % 10) as int))
    }
}

/// A number in decimal digits, with blanks before it where it has fewer
/// digits than the width.
pub open spec fn padded_decimal(number: int, width: int) -> Seq<char> {
    let digits = decimal(number as nat);
    if digits.len() >= width {
        digits
    } else {
        Seq::new((width - digits.len()) as nat, |i: int| ' ') + digits
    }
}

/// Calls std's `format` with a width. Trusted: a number is written in
/// decimal digits, to the right of the width, with blanks before it, and in
/// full where it is wider. The width is held to 16 bits: std panics on a
/// wider one.
#[verifier::external_body]
fn pad_decimal(number: u32, width: usize) -> (r: String)
    requires
        width <= u16::MAX,
    ensures
        r@ == padded_decimal(number as int, width as int),
{
    format!("{:width$}", number)
}

/// The cell of a count drawn as a number: its digits, to the right of the
/// cell's columns.
pub fn number_text(count: u32) -> (r: String)
    ensures
        r@ == padded_decimal(count as int, CELL_WIDTH as int),
{
    pad_decimal(count, CELL_WIDTH)
}

/// The sequence that ends a colour on a terminal.
pub open spec fn colour_reset() -> Seq<char> {
    "\x1B[0m"@
}

/// Whether a text holds no escape character, so that no sequence of the
/// terminal's begins in it.
pub open spec fn is_bare(text: Seq<char>) -> bool {
    !text.contains('\x1B')
}

/// Whether `out` is the text in a colour that begins with `lead`: the bare
/// text where colours are off, else the text between `lead` and the reset.
pub open spec fn in_colour(out: Seq<char>, text: Seq<char>, lead: Seq<char>) -> bool {
    out == text || out == lead + text + colour_reset()
}

/// Whether `out` is the text in some colour: the bare text where colours
/// are off, else the text between a sequence of the colour's and the reset.
pub open spec fn in_some_colour(out: Seq<char>, text: Seq<char>) -> bool {
    out == text || exists|lead: Seq<char>| out == #[trigger] (lead + text) + colour_reset()
}

/// The sequence that begins a foreground colour on a terminal; empty for
/// what is no foreground colour.
pub open spec fn foreground_lead(paint: Paint) -> Seq<char> {
    match paint {
        Paint::BrightBlack => "\x1B[90m"@,
        Paint::Blue => "\x1B[34m"@,
        Paint::Green => "\x1B[32m"@,
        Paint::Yellow => "\x1B[33m"@,
        Paint::Red => "\x1B[31m"@,
        _ => Seq::empty(),
    }
}

/// What the terminal may get for a text in a colour. Without colour it is
/// the text. In a foreground colour it is the text, bare where colours are
/// off and else between the colour's sequence and the reset. On a
/// background, whose sequence depends on what the terminal can show, it is
/// the text, bare or between some sequence and the reset.
pub open spec fn painted(out: Seq<char>, text: Seq<char>, paint: Paint) -> bool {
    match paint {
        Paint::Plain => out == text,
        Paint::Background { .. } => in_some_colour(out, text),
        _ => in_colour(out, text, foreground_lead(paint)),
    }
}

/// Calls colored's `Colorize::normal` and the `to_string` of what it
/// returns. Trusted: a string without colour or style is written as it is.
#[verifier::external_body]
fn colour_plain(text: &str) -> (r: String)
    ensures
        r@ == text@,
{
    text.normal().to_string()
}

/// Calls colored's `Colorize::bright_black` and the `to_string` of what it
/// returns. Trusted: where colours are off the text is written as it is,
/// else after the sequence of code 90 and before the reset. Whether colours
/// are on depends on the terminal and the environment. A text with a reset
/// in it is rewritten, so the claim is of bare texts.
#[verifier::external_body]
fn colour_bright_black(text: &str) -> (r: String)
    ensures
        is_bare(text@) ==> in_colour(r@, text@, "\x1B[90m"@),
{
    text.bright_black().to_string()
}

/// Calls colored's `Colorize::blue` and the `to_string` of what it returns.
/// Trusted: a bare text is written as it is where colours are off, else
/// after the sequence of code 34 and before the reset.
#[verifier::external_body]
fn colour_blue(text: &str) -> (r: String)
    ensures
        is_bare(text@) ==> in_colour(r@, text@, "\x1B[34m"@),
{
    text.blue().to_string()
}

/// Calls colored's `Colorize::green` and the `to_string` of what it returns.
/// Trusted: a bare text is written as it is where colours are off, else
/// after the sequence of code 32 and before the reset.
#[verifier::external_body]
fn colour_green(text: &str) -> (r: String)
    ensures
        is_bare(text@) ==> in_colour(r@, text@, "\x1B[32m"@),
{
    text.green().to_string()
}

/// Calls colored's `Colorize::yellow` and the `to_string` of what it
/// returns. Trusted: a bare text is written as it is where colours are off,
/// else after the sequence of code 33 and before the reset.
#[verifier::external_body]
fn colour_yellow(text: &str) -> (r: String)
    ensures
        is_bare(text@) ==> in_colour(r@, text@, "\x1B[33m"@),
{
    text.yellow().to_string()
}

/// Calls colored's `Colorize::red` and the `to_string` of what it returns.
/// Trusted: a bare text is written as it is where colours are off, else
/// after the sequence of code 31 and before the reset.
#[verifier::external_body]
fn colour_red(text: &str) -> (r: String)
    ensures
        is_bare(text@) ==> in_colour(r@, text@, "\x1B[31m"@),
{
    text.red().to_string()
}

/// Calls colored's `Colorize::on_truecolor` and the `to_string` of what it
/// returns. Trusted: a bare text is written as it is where colours are off,
/// else after a sequence and before the reset. Which sequence it is depends
/// on the environment: the colour itself where the terminal shows every
/// colour, else the nearest of sixteen.
#[verifier::external_body]
fn colour_background(text: &str, red: u8, green: u8, blue: u8) -> (r: String)
    ensures
        is_bare(text@) ==> in_some_colour(r@, text@),
{
    text.on_truecolor(red, green, blue).to_string()
}

/// The cell as the terminal is to get it: its characters, in its colour
/// where the terminal takes colours.
pub(crate) fn paint(cell: CellStyle) -> (r: String)
    ensures
        cell.paint == Paint::Plain || is_bare(cell.text@) ==> painted(r@, cell.text@, cell.paint),
{
    match cell.paint {
        Paint::Plain => colour_plain(cell.text),
        Paint::BrightBlack => colour_bright_black(cell.text),
        Paint::Blue => colour_blue(cell.text),
        Paint::Green => colour_green(cell.text),
        Paint::Yellow => colour_yellow(cell.text),
        Paint::Red => colour_red(cell.text),
        Paint::Background { red, green, blue } => colour_background(cell.text, red, green, blue),
    }
}

/// The characters of a cell hold no escape character, whatever the count.
pub proof fn lemma_cell_text_is_bare(count: int, use_symbols: bool)
    ensures
        is_bare(cell_text_spec(count, use_symbols)),
{
    reveal_strlit("  ");
    reveal_strlit("..");
    reveal_strlit("--");
    reveal_strlit("~~");
    reveal_strlit("**");
    reveal_strlit("##");
    let text = cell_text_spec(count, use_symbols);
    assert(text.len() == 2);
    assert(text[0] != '\x1B' && text[1] != '\x1B');
}

/// Whether `out` is the cell of a count as the terminal is to get it: in
/// number mode the count's number; in symbol mode the count's glyph in its
/// colour; else two blanks on the count's background, from the red ramp in
/// dark mode and from the green ramp in light mode.
pub open spec fn is_cell(out: Seq<char>, count: int, mode: RenderMode) -> bool {
    if mode == RenderMode::Numbers {
        out == padded_decimal(count, CELL_WIDTH as int)
    } else {
        painted(
            out,
            cell_text_spec(count, mode == RenderMode::Symbols),
            cell_paint_spec(count, mode == RenderMode::DarkBlocks, mode == RenderMode::Symbols),
        )
    }
}

/// The cell of a count as the terminal is to get it: the number in number
/// mode, else the painted glyph or block.
pub fn draw_cell(count: u32, mode: RenderMode) -> (r: String)
    ensures
        is_cell(r@, count as int, mode),
{
    proof {
        lemma_cell_text_is_bare(count as int, mode == RenderMode::Symbols);
    }
    match mode {
        RenderMode::Numbers => number_text(count),
        RenderMode::Symbols => paint(format_cell(count, false, true)),
        RenderMode::DarkBlocks => paint(format_cell(count, true, false)),
        RenderMode::LightBlocks => paint(format_cell(count, false, false)),
    }
}

/// The count that stands for an intensity in the key: four times the intensity.
pub open spec fn key_count_spec(intensity: int) -> int {
    4 * intensity
}

/// The key beneath the grid: one cell for each intensity, from none to the
/// highest. Numbers need no key.
pub fn key_cells(dark_mode: bool, use_symbols: bool, use_numbers: bool) -> (r: Vec<CellStyle>)
    ensures
        use_numbers ==> r@.len() == 0,
        !use_numbers ==> r@.len() == 6,
        forall|i: int|
            0 <= i < r@.len() ==> (#[trigger] r@[i]).text@ == cell_text_spec(
                key_count_spec(i),
                use_symbols,
            ) && r@[i].paint == cell_paint_spec(key_count_spec(i), dark_mode, use_symbols),
        forall|i: int| 0 <= i < r@.len() ==> classify_spec(key_count_spec(i)) == i,
{
    let mut key: Vec<CellStyle> = Vec::new();
    if use_numbers {
        return key;
    }
    let mut intensity: u32 = 0;
    while intensity < 6
        invariant
            intensity <= 6,
            key@.len() == intensity,
            forall|i: int|
                0 <= i < key@.len() ==> (#[trigger] key@[i]).text@ == cell_text_spec(
                    key_count_spec(i),
                    use_symbols,
                ) && key@[i].paint == cell_paint_spec(key_count_spec(i), dark_mode, use_symbols),
        decreases 6 - intensity,
    {
        key.push(format_cell(4 * intensity, dark_mode, use_symbols));
        intensity += 1;
    }
    key
}

} // verus!
