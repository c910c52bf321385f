//! What is drawn of a heat map: the line of month names, the borders, the
//! rows of counts and the key.

use crate::cell::{
    cell_paint_spec, cell_text_spec, draw_cell, is_bare, is_cell, key_cells, key_count_spec,
    lemma_cell_text_is_bare, paint, painted, render_mode, render_mode_spec, CellStyle, Paint,
    RenderMode,
};
use crate::date::{formatted_day_number, iso_format, month_name, month_name_spec, Day};
use crate::error::append;
use crate::heatmap::{border_width_of, is_rows, month_labels_of, Heatmap, MonthLabel};
use vstd::prelude::*;

verus! {

/// The number of columns that a month's name takes.
pub const NAME_WIDTH: usize = 3;

/// The column, counted from the grid's left edge, at which a label's name
/// is due: two columns for each week before it.
pub open spec fn label_column(label: MonthLabel) -> int {
    2 * label.position
}

/// The column behind the last name written, once the labels are laid out
/// from left to right. A label whose column is already taken is left out.
pub open spec fn header_cursor(labels: Seq<MonthLabel>) -> int
    decreases labels.len(),
{
    if labels.len() == 0 {
        0
    } else {
        let before = header_cursor(labels.drop_last());
        if label_column(labels.last()) >= before {
            label_column(labels.last()) + NAME_WIDTH
        } else {
            before
        }
    }
}

/// The number of blanks before the name of the label at a place, so that
/// the name begins at its column; nothing where the label is left out.
pub open spec fn label_gap(labels: Seq<MonthLabel>, place: int) -> Option<int> {
    let before = header_cursor(labels.take(place));
    if label_column(labels[place]) >= before {
        Some(label_column(labels[place]) - before)
    } else {
        None
    }
}

/// Lays the labels out from left to right: for each the blanks before its
/// name, or nothing where it is left out.
pub fn label_gaps(labels: &Vec<MonthLabel>) -> (gaps: Vec<Option<usize>>)
    requires
        forall|i: int|
            0 <= i < labels@.len() ==> 2 * (#[trigger] labels@[i]).position + NAME_WIDTH
                <= usize::MAX,
    ensures
        gaps@.len() == labels@.len(),
        forall|i: int|
            0 <= i < labels@.len() ==> (#[trigger] gaps@[i]) == (match label_gap(labels@, i) {
                Some(gap) => Some(gap as usize),
                None => None,
            }),
{
    let mut gaps: Vec<Option<usize>> = Vec::new();
    let mut cursor: usize = 0;
    let mut i: usize = 0;
    while i < labels.len()
        invariant
            i <= labels@.len(),
            gaps@.len() == i,
            cursor as int == header_cursor(labels@.take(i as int)),
            forall|k: int|
                0 <= k < labels@.len() ==> 2 * (#[trigger] labels@[k]).position + NAME_WIDTH
                    <= usize::MAX,
            forall|k: int|
                0 <= k < i ==> (#[trigger] gaps@[k]) == (match label_gap(labels@, k) {
                    Some(gap) => Some(gap as usize),
                    None => None,
                }),
        decreases labels@.len() - i,
    {
        proof {
            assert(labels@.take(i + 1).drop_last() =~= labels@.take(i as int));
        }
        let column: usize = 2 * labels[i].position;
        if column >= cursor {
            gaps.push(Some(column - cursor));
            cursor = column + NAME_WIDTH;
        } else {
            gaps.push(None);
        }
        i += 1;
    }
    gaps
}

/// A piece of text written a number of times, one after the other.
pub open spec fn repeated(piece: Seq<char>, times: nat) -> Seq<char>
    decreases times,
{
    if times == 0 {
        Seq::empty()
    } else {
        repeated(piece, (times - 1) as nat) + piece
    }
}

/// Writes a piece of text a number of times at the end of a line.
fn append_repeated(line: &mut String, piece: &str, times: usize)
    ensures
        final(line)@ == old(line)@ + repeated(piece@, times as nat),
{
    let ghost before = line@;
    let mut written: usize = 0;
    while written < times
        invariant
            written <= times,
            line@ == before + repeated(piece@, written as nat),
        decreases times - written,
    {
        append(line, piece);
        written += 1;
        proof {
            assert(line@ =~= before + repeated(piece@, written as nat));
        }
    }
}

/// The line of month names above the grid: four blanks where the rows have
/// their weekday, then each label that is not left out, after its blanks.
pub open spec fn header_text(labels: Seq<MonthLabel>) -> Seq<char>
    decreases labels.len(),
{
    if labels.len() == 0 {
        "    "@
    } else {
        let before = header_text(labels.drop_last());
        match label_gap(labels, labels.len() - 1) {
            Some(gap) => before + repeated(" "@, gap as nat) + month_name_spec(
                labels.last().month as int,
            ),
            None => before,
        }
    }
}

/// The line of month names above the grid.
pub fn header_line(labels: &Vec<MonthLabel>) -> (line: String)
    requires
        forall|i: int|
            0 <= i < labels@.len() ==> 2 * (#[trigger] labels@[i]).position + NAME_WIDTH
                <= usize::MAX,
    ensures
        line@ == header_text(labels@),
{
    let gaps = label_gaps(labels);
    let mut line = String::new();
    append(&mut line, "    ");
    let mut i: usize = 0;
    while i < labels.len()
        invariant
            i <= labels@.len(),
            gaps@.len() == labels@.len(),
            forall|k: int|
                0 <= k < labels@.len() ==> (#[trigger] gaps@[k]) == (match label_gap(labels@, k) {
                    Some(gap) => Some(gap as usize),
                    None => None,
                }),
            forall|k: int|
                0 <= k < labels@.len() ==> 2 * (#[trigger] labels@[k]).position + NAME_WIDTH
                    <= usize::MAX,
            line@ == header_text(labels@.take(i as int)),
        decreases labels@.len() - i,
    {
        proof {
            let part = labels@.take(i + 1);
            assert(part.drop_last() =~= labels@.take(i as int));
            assert(part.take(part.len() - 1) =~= labels@.take(i as int));
            assert(part.last() == labels@[i as int]);
            assert(label_gap(part, part.len() - 1) == label_gap(labels@, i as int));
            assert(gaps@[i as int] == (match label_gap(labels@, i as int) {
                Some(gap) => Some(gap as usize),
                None => None,
            }));
        }
        match gaps[i] {
            Some(gap) => {
                append_repeated(&mut line, " ", gap);
                append(&mut line, month_name(labels[i].month));
            },
            None => {},
        }
        i += 1;
    }
    proof {
        assert(labels@.take(i as int) =~= labels@);
    }
    line
}

/// A border line: the given number of `=`, then a message.
pub fn border_line(width: usize, message: &str) -> (line: String)
    ensures
        line@ == repeated("="@, width as nat) + message@,
{
    let mut line = String::new();
    append_repeated(&mut line, "=", width);
    append(&mut line, message);
    proof {
        assert(line@ =~= repeated("="@, width as nat) + message@);
    }
    line
}

/// The message beside the upper border: two blanks, then the first and the
/// last day of the range with a hyphen between them.
pub open spec fn range_text(start: Day, end: Day) -> Seq<char> {
    "  "@ + formatted_day_number(start.number as int, iso_format()) + "-"@ + formatted_day_number(
        end.number as int,
        iso_format(),
    )
}

/// The message beside the upper border.
pub fn range_message(start: Day, end: Day) -> (line: String)
    requires
        start.in_calendar(),
        end.in_calendar(),
    ensures
        line@ == range_text(start, end),
{
    let mut line = String::new();
    append(&mut line, "  ");
    append(&mut line, start.format().as_str());
    append(&mut line, "-");
    append(&mut line, end.format().as_str());
    proof {
        assert(line@ =~= range_text(start, end));
    }
    line
}

/// The label at the left of a weekday's row: the names of Monday, Wednesday
/// and Friday, and blanks for the other days.
pub open spec fn weekday_label_spec(row: int) -> Seq<char> {
    if row == 1 {
        "Mon "@
    } else if row == 3 {
        "Wed "@
    } else if row == 5 {
        "Fri "@
    } else {
        "    "@
    }
}

/// The label at the left of a weekday's row.
pub fn weekday_label(row: usize) -> (r: &'static str)
    ensures
        r@ == weekday_label_spec(row as int),
{
    if row == 1 {
        "Mon "
    } else if row == 3 {
        "Wed "
    } else if row == 5 {
        "Fri "
    } else {
        "    "
    }
}

/// The pieces written one after the other.
pub open spec fn concat(pieces: Seq<String>) -> Seq<char>
    decreases pieces.len(),
{
    if pieces.len() == 0 {
        Seq::empty()
    } else {
        concat(pieces.drop_last()) + pieces.last()@
    }
}

/// A line of cells: what leads it, the cells one after the other, and what
/// trails it.
pub fn line_of(lead: &str, cells: &Vec<String>, trail: &str) -> (line: String)
    ensures
        line@ == lead@ + concat(cells@) + trail@,
{
    let mut line = String::new();
    append(&mut line, lead);
    let mut i: usize = 0;
    while i < cells.len()
        invariant
            i <= cells@.len(),
            line@ == lead@ + concat(cells@.take(i as int)),
        decreases cells@.len() - i,
    {
        proof {
            assert(cells@.take(i + 1).drop_last() =~= cells@.take(i as int));
        }
        append(&mut line, cells[i].as_str());
        proof {
            assert(line@ =~= lead@ + concat(cells@.take(i + 1)));
        }
        i += 1;
    }
    proof {
        assert(cells@.take(i as int) =~= cells@);
    }
    append(&mut line, trail);
    line
}

/// Whether the cells are those of the counts: one for each count, each the
/// count's cell in the mode.
pub open spec fn is_drawn(cells: Seq<String>, counts: Seq<u32>, mode: RenderMode) -> bool {
    &&& cells.len() == counts.len()
    &&& forall|i: int|
        0 <= i < cells.len() ==> is_cell((#[trigger] cells[i])@, counts[i] as int, mode)
}

/// Whether the cells are the styles as the terminal is to get them: one for
/// each style, each the style's characters in its colour.
pub open spec fn is_painted(cells: Seq<String>, styles: Seq<CellStyle>) -> bool {
    &&& cells.len() == styles.len()
    &&& forall|i: int|
        0 <= i < cells.len() ==> painted((#[trigger] cells[i])@, styles[i].text@, styles[i].paint)
}

/// Whether each style is without colour or has characters that hold no
/// escape character.
pub open spec fn are_bare(styles: Seq<CellStyle>) -> bool {
    forall|i: int|
        0 <= i < styles.len() ==> (#[trigger] styles[i]).paint == Paint::Plain || is_bare(
            styles[i].text@,
        )
}

/// The cells of a row of counts as the terminal is to get them.
pub fn draw_cells(counts: &Vec<u32>, mode: RenderMode) -> (cells: Vec<String>)
    ensures
        is_drawn(cells@, counts@, mode),
{
    let mut cells: Vec<String> = Vec::new();
    let mut i: usize = 0;
    while i < counts.len()
        invariant
            i <= counts@.len(),
            is_drawn(cells@, counts@.take(i as int), mode),
        decreases counts@.len() - i,
    {
        cells.push(draw_cell(counts[i], mode));
        i += 1;
    }
    proof {
        assert(counts@.take(i as int) =~= counts@);
    }
    cells
}

/// The cells of the key as the terminal is to get them.
fn paint_cells(styles: &Vec<CellStyle>) -> (cells: Vec<String>)
    ensures
        cells@.len() == styles@.len(),
        are_bare(styles@) ==> is_painted(cells@, styles@),
{
    let mut cells: Vec<String> = Vec::new();
    let mut i: usize = 0;
    while i < styles.len()
        invariant
            i <= styles@.len(),
            cells@.len() == i,
            are_bare(styles@) ==> is_painted(cells@, styles@.take(i as int)),
        decreases styles@.len() - i,
    {
        cells.push(paint(styles[i]));
        i += 1;
    }
    proof {
        assert(styles@.take(i as int) =~= styles@);
    }
    cells
}

/// All that is drawn of a heat map, from top to bottom.
#[derive(Debug)]
pub struct Rendering {
    /// The months named above the grid.
    pub month_labels: Vec<MonthLabel>,
    /// The line that names them.
    pub header: String,
    /// The border above the grid, with the range of days beside it.
    pub top_border: String,
    /// The border below the grid.
    pub bottom_border: String,
    /// How the counts are drawn.
    pub mode: RenderMode,
    /// The counts, one row for each weekday from Sunday on.
    pub rows: Vec<Vec<u32>>,
    /// The cells of each row as the terminal is to get them.
    pub cells: Vec<Vec<String>>,
    /// The line of each row: the weekday's label, then the row's cells.
    pub lines: Vec<String>,
    /// The key beneath the grid, empty where numbers are drawn.
    pub key: Vec<CellStyle>,
    /// The cells of the key as the terminal is to get them.
    pub key_cells: Vec<String>,
    /// The line of the key, where there is a key.
    pub key_line: Option<String>,
}

impl Heatmap {
    /// Lays out all that is drawn of the heat map.
    pub fn render(&self, dark_mode: bool, use_symbols: bool, use_numbers: bool) -> (r: Rendering)
        requires
            self.wf(),
        ensures
            r.month_labels@ == month_labels_of(
                self.start_spec().number as int,
                self.end_spec().number as int,
            ),
            r.header@ == header_text(r.month_labels@),
            r.top_border@ == repeated(
                "="@,
                border_width_of(
                    self.start_spec().number as int,
                    self.end_spec().number as int,
                ) as nat,
            ) + range_text(self.start_spec(), self.end_spec()),
            r.bottom_border@ == repeated(
                "="@,
                border_width_of(
                    self.start_spec().number as int,
                    self.end_spec().number as int,
                ) as nat,
            ),
            r.mode == render_mode_spec(dark_mode, use_symbols, use_numbers),
            is_rows(
                r.rows@,
                self.records(),
                self.start_spec().number as int,
                self.end_spec().number as int,
            ),
            r.key@.len() == if use_numbers {
                0int
            } else {
                6int
            },
            forall|i: int|
                0 <= i < r.key@.len() ==> (#[trigger] r.key@[i]).text@ == cell_text_spec(
                    key_count_spec(i),
                    use_symbols,
                ) && r.key@[i].paint == cell_paint_spec(key_count_spec(i), dark_mode, use_symbols),
            r.cells@.len() == 7,
            r.lines@.len() == 7,
            forall|k: int|
                0 <= k < 7 ==> is_drawn((#[trigger] r.cells@[k])@, r.rows@[k]@, r.mode),
            forall|k: int|
                0 <= k < 7 ==> (#[trigger] r.lines@[k])@ == weekday_label_spec(k) + concat(
                    r.cells@[k]@,
                ),
            is_painted(r.key_cells@, r.key@),
            use_numbers ==> r.key_line is None,
            !use_numbers ==> (r.key_line matches Some(line) && line@ == "  Less "@ + concat(
                r.key_cells@,
            ) + " More"@),
    {
        let month_labels = self.month_labels();
        let header = header_line(&month_labels);
        let width = self.border_width();
        let message = range_message(self.start(), self.end());
        let top_border = border_line(width, message.as_str());
        let bottom_border = border_line(width, "");
        proof {
            reveal_strlit("");
            assert(bottom_border@ =~= repeated("="@, width as nat));
        }
        let mode = render_mode(dark_mode, use_symbols, use_numbers);
        let rows = self.counts_by_weekday();
        let mut cells: Vec<Vec<String>> = Vec::new();
        let mut lines: Vec<String> = Vec::new();
        let mut k: usize = 0;
        while k < 7
            invariant
                k <= 7,
                rows@.len() == 7,
                cells@.len() == k,
                lines@.len() == k,
                forall|j: int| 0 <= j < k ==> is_drawn((#[trigger] cells@[j])@, rows@[j]@, mode),
                forall|j: int|
                    0 <= j < k ==> (#[trigger] lines@[j])@ == weekday_label_spec(j) + concat(
                        cells@[j]@,
                    ),
            decreases 7 - k,
        {
            let drawn = draw_cells(&rows[k], mode);
            let line = line_of(weekday_label(k), &drawn, "");
            proof {
                reveal_strlit("");
                assert(line@ =~= weekday_label_spec(k as int) + concat(drawn@));
            }
            cells.push(drawn);
            lines.push(line);
            k += 1;
        }
        let key = key_cells(dark_mode, use_symbols, use_numbers);
        proof {
            assert forall|i: int| 0 <= i < key@.len() implies is_bare((#[trigger] key@[i]).text@) by {
                lemma_cell_text_is_bare(key_count_spec(i), use_symbols);
            }
        }
        let key_cells = paint_cells(&key);
        let key_line = if use_numbers {
            None
        } else {
            Some(line_of("  Less ", &key_cells, " More"))
        };
        Rendering {
            month_labels,
            header,
            top_border,
            bottom_border,
            mode,
            rows,
            cells,
            lines,
            key,
            key_cells,
            key_line,
        }
    }
}

} // verus!
