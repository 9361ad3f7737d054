//! What is painted of a terminal screen: colors, selections, and runs of equal cells.
use vstd::prelude::*;

use crate::screen::{Cell, CellAttrs, Color, Screen};
use crate::text::{push_decimal, str_eq};

verus! {

broadcast use vstd::string::group_string_axioms;

// ── Selection ────────────────────────────────────────────────────────────────

/// A text selection range in screen coordinates (row, col).
///
/// `start` is where the user began selecting, `end` is the current position.
/// They may be in any order.
#[derive(Debug, Clone, Copy, PartialEq, Eq, Structural)]
pub struct TextSelection {
    pub start_row: usize,
    pub start_col: usize,
    pub end_row: usize,
    pub end_col: usize,
}

/// Whether one cell comes before another in reading order, or is the same.
pub open spec fn reads_before(row: int, col: int, other_row: int, other_col: int) -> bool {
    row < other_row || (row == other_row && col <= other_col)
}

impl TextSelection {
    /// The row and column of the first cell and of the last, in reading order.
    pub open spec fn in_order(self) -> (usize, usize, usize, usize) {
        if reads_before(
            self.start_row as int,
            self.start_col as int,
            self.end_row as int,
            self.end_col as int,
        ) {
            (self.start_row, self.start_col, self.end_row, self.end_col)
        } else {
            (self.end_row, self.end_col, self.start_row, self.start_col)
        }
    }

    /// The same range, selected in the other direction.
    pub open spec fn reversed(self) -> TextSelection {
        TextSelection {
            start_row: self.end_row,
            start_col: self.end_col,
            end_row: self.start_row,
            end_col: self.start_col,
        }
    }

    /// Whether a cell is within the selection: it reads neither before the first nor behind the
    /// last.
    pub open spec fn covers(self, row: int, col: int) -> bool {
        let (sr, sc, er, ec) = self.in_order();
        reads_before(sr as int, sc as int, row, col) && reads_before(row, col, er as int, ec as int)
    }

    /// Return the selection normalised so that start <= end in reading order.
    pub fn normalised(&self) -> (r: (usize, usize, usize, usize))
        ensures
            r == self.in_order(),
            reads_before(r.0 as int, r.1 as int, r.2 as int, r.3 as int),
    {
        if self.start_row < self.end_row || (self.start_row == self.end_row && self.start_col
            <= self.end_col) {
            (self.start_row, self.start_col, self.end_row, self.end_col)
        } else {
            (self.end_row, self.end_col, self.start_row, self.start_col)
        }
    }

    /// Return true if the cell at (row, col) is within this selection.
    pub fn contains(&self, row: usize, col: usize) -> (r: bool)
        ensures
            r == self.covers(row as int, col as int),
    {
        let (sr, sc, er, ec) = self.normalised();
        if row < sr || row > er {
            return false;
        }
        if row == sr && row == er {
            return col >= sc && col <= ec;
        }
        if row == sr {
            return col >= sc;
        }
        if row == er {
            return col <= ec;
        }
        true
    }
}

// ── Colors ───────────────────────────────────────────────────────────────────

/// Red, green and blue.
pub type Rgb = (u8, u8, u8);

/// The color of text that has none of its own.
pub const DEFAULT_FG: (u8, u8, u8) = (204, 204, 204);

/// The color of the background where a cell has none of its own.
pub const DEFAULT_BG: (u8, u8, u8) = (26, 26, 38);

/// The standard 16-color palette.
pub open spec fn palette(i: int) -> Rgb {
    if i <= 0 {
        (0, 0, 0)
    } else if i == 1 {
        (170, 0, 0)
    } else if i == 2 {
        (0, 170, 0)
    } else if i == 3 {
        (170, 85, 0)
    } else if i == 4 {
        (0, 0, 170)
    } else if i == 5 {
        (170, 0, 170)
    } else if i == 6 {
        (0, 170, 170)
    } else if i == 7 {
        (170, 170, 170)
    } else if i == 8 {
        (85, 85, 85)
    } else if i == 9 {
        (255, 85, 85)
    } else if i == 10 {
        (85, 255, 85)
    } else if i == 11 {
        (255, 255, 85)
    } else if i == 12 {
        (85, 85, 255)
    } else if i == 13 {
        (255, 85, 255)
    } else if i == 14 {
        (85, 255, 255)
    } else {
        (255, 255, 255)
    }
}

/// The strength of one of the six levels of the color cube.
pub open spec fn cube_level(v: int) -> int {
    if v == 0 {
        0
    } else {
        55 + 40 * v
    }
}

/// The color with an index into the 256 colors: the palette, then a cube of six levels each of
/// red, green and blue, then a ramp of grays.
pub open spec fn indexed_rgb(idx: u8) -> Rgb {
    if idx < 16 {
        palette(idx as int)
    } else if idx < 232 {
        let n = idx - 16;
        (cube_level(n / 36) as u8, cube_level(n / 6 % 6) as u8, cube_level(n % 6) as u8)
    } else {
        let v = (8 + 10 * (idx - 232)) as u8;
        (v, v, v)
    }
}

/// The lesser of an index and seven.
pub open spec fn at_most_seven(idx: u8) -> int {
    if idx < 7 {
        idx as int
    } else {
        7
    }
}

/// What a color is painted as.
pub open spec fn rgb_of(color: Color, is_foreground: bool) -> Rgb {
    match color {
        Color::Default => if is_foreground {
            DEFAULT_FG
        } else {
            DEFAULT_BG
        },
        Color::Ansi(idx) => palette(at_most_seven(idx)),
        Color::AnsiBright(idx) => palette(at_most_seven(idx) + 8),
        Color::Indexed(idx) => indexed_rgb(idx),
        Color::Rgb(r, g, b) => (r, g, b),
    }
}

/// The foreground and background that a cell is painted with: inverse swaps them, and dim
/// halves the foreground that results.
pub open spec fn cell_colors(cell: Cell) -> (Rgb, Rgb) {
    let fg = rgb_of(cell.fg, true);
    let bg = rgb_of(cell.bg, false);
    let (fg, bg) = if cell.attrs.inverse {
        (bg, fg)
    } else {
        (fg, bg)
    };
    if cell.attrs.dim {
        ((fg.0 / 2, fg.1 / 2, fg.2 / 2), bg)
    } else {
        (fg, bg)
    }
}

/// A color of the palette.
fn palette_color(i: u8) -> (r: Rgb)
    ensures
        r == palette(i as int),
{
    match i {
        0 => (0, 0, 0),
        1 => (170, 0, 0),
        2 => (0, 170, 0),
        3 => (170, 85, 0),
        4 => (0, 0, 170),
        5 => (170, 0, 170),
        6 => (0, 170, 170),
        7 => (170, 170, 170),
        8 => (85, 85, 85),
        9 => (255, 85, 85),
        10 => (85, 255, 85),
        11 => (255, 255, 85),
        12 => (85, 85, 255),
        13 => (255, 85, 255),
        14 => (85, 255, 255),
        _ => (255, 255, 255),
    }
}

/// The strength of a level of the color cube.
fn cube_byte(v: u8) -> (r: u8)
    requires
        v < 6,
    ensures
        r == cube_level(v as int),
{
    if v == 0 {
        0
    } else {
        55 + 40 * v
    }
}

/// Convert a 256-color index to (r, g, b).
pub fn indexed_color(idx: u8) -> (r: Rgb)
    ensures
        r == indexed_rgb(idx),
{
    if idx < 16 {
        palette_color(idx)
    } else if idx < 232 {
        let n: u8 = idx - 16;
        (cube_byte(n / 36), cube_byte(n / 6 % 6), cube_byte(n % 6))
    } else {
        let v: u8 = 8 + 10 * (idx - 232);
        (v, v, v)
    }
}

/// Convert a terminal [`Color`] to an (r, g, b) triple.
pub fn color_to_rgb(color: &Color, is_foreground: bool) -> (r: Rgb)
    ensures
        r == rgb_of(*color, is_foreground),
{
    match *color {
        Color::Default => {
            if is_foreground {
                DEFAULT_FG
            } else {
                DEFAULT_BG
            }
        },
        Color::Ansi(idx) => palette_color(
            if idx < 7 {
                idx
            } else {
                7
            },
        ),
        Color::AnsiBright(idx) => palette_color(
            (if idx < 7 {
                idx
            } else {
                7
            }) + 8,
        ),
        Color::Indexed(idx) => indexed_color(idx),
        Color::Rgb(r, g, b) => (r, g, b),
    }
}

/// Resolve effective foreground and background colors for a cell.
pub fn resolve_cell_colors(cell: &Cell) -> (r: (Rgb, Rgb))
    ensures
        r == cell_colors(*cell),
{
    let fg = color_to_rgb(&cell.fg, true);
    let bg = color_to_rgb(&cell.bg, false);
    let (fg, bg) = if cell.attrs.inverse {
        (bg, fg)
    } else {
        (fg, bg)
    };
    if cell.attrs.dim {
        ((fg.0 / 2, fg.1 / 2, fg.2 / 2), bg)
    } else {
        (fg, bg)
    }
}

/// The number of columns that a cell takes.
pub open spec fn cell_width(cell: Cell) -> nat {
    if cell.attrs.wide {
        2
    } else {
        1
    }
}

/// The number of columns that a cell takes.
pub fn cell_display_cols(cell: &Cell) -> (r: usize)
    ensures
        r == cell_width(*cell),
{
    if cell.attrs.wide {
        2
    } else {
        1
    }
}

/// Whether two cells are written in the same font.
pub open spec fn same_font(a: CellAttrs, b: CellAttrs) -> bool {
    a.bold == b.bold && a.italic == b.italic
}

/// Whether two cells are written in the same font.
pub fn attrs_same_format(a: &CellAttrs, b: &CellAttrs) -> (r: bool)
    ensures
        r == same_font(*a, *b),
{
    a.bold == b.bold && a.italic == b.italic
}

// ── Backgrounds ──────────────────────────────────────────────────────────────

/// Neighboring cells of a row with one background color: columns `start..end`.
#[derive(Debug, Clone, Copy, PartialEq, Eq)]
pub struct BackgroundRun {
    pub start: usize,
    pub end: usize,
    pub color: (u8, u8, u8),
}

/// The background color of the cell in a column of a row, if there is a cell.
pub open spec fn background(screen: Screen, row: int, col: int) -> Option<Rgb> {
    if screen.has_cell(row, col) {
        Some(cell_colors(screen.cell(row, col)).1)
    } else {
        None
    }
}

/// Where a run of one background color ends that holds column `col - 1`.
pub open spec fn background_end(screen: Screen, row: int, cols: int, col: int, color: Rgb) -> int
    decreases cols - col,
{
    if col < cols && background(screen, row, col) == Some(color) {
        background_end(screen, row, cols, col + 1, color)
    } else {
        col
    }
}

/// The runs of backgrounds other than the default from column `col` on.
pub open spec fn background_runs_from(screen: Screen, row: int, cols: int, col: int) -> Seq<
    BackgroundRun,
>
    decreases cols - col,
{
    if col >= cols {
        Seq::empty()
    } else {
        match background(screen, row, col) {
            None => background_runs_from(screen, row, cols, col + 1),
            Some(color) => if color == DEFAULT_BG {
                background_runs_from(screen, row, cols, col + 1)
            } else {
                let end = background_end(screen, row, cols, col + 1, color);
                let run = BackgroundRun { start: col as usize, end: end as usize, color };
                if col < end <= cols {
                    seq![run] + background_runs_from(screen, row, cols, end)
                } else {
                    Seq::empty()
                }
            },
        }
    }
}

/// The background color of the cell in a column of a row.
fn background_at(screen: &Screen, row: usize, col: usize) -> (r: Option<Rgb>)
    ensures
        r == background(*screen, row as int, col as int),
{
    match screen.cell_at_virtual(row, col) {
        Some(cell) => Some(resolve_cell_colors(cell).1),
        None => None,
    }
}

/// The runs of cells in a row whose background is not the default, among the first `cols`
/// columns.
pub fn background_runs(screen: &Screen, row: usize, cols: usize) -> (r: Vec<BackgroundRun>)
    ensures
        r@ == background_runs_from(*screen, row as int, cols as int, 0),
{
    let mut runs: Vec<BackgroundRun> = Vec::new();
    let mut col: usize = 0;
    assert(runs@ + background_runs_from(*screen, row as int, cols as int, 0)
        =~= background_runs_from(*screen, row as int, cols as int, 0));
    while col < cols
        invariant
            col <= cols,
            runs@ + background_runs_from(*screen, row as int, cols as int, col as int)
                == background_runs_from(*screen, row as int, cols as int, 0),
        decreases cols - col,
    {
        let ghost before = runs@;
        let ghost first = col;
        match background_at(screen, row, col) {
            None => {
                col += 1;
            },
            Some(color) => {
                if color.0 == DEFAULT_BG.0 && color.1 == DEFAULT_BG.1 && color.2 == DEFAULT_BG.2 {
                    col += 1;
                } else {
                    let start: usize = col;
                    col += 1;
                    while col < cols && background_is(screen, row, col, color)
                        invariant
                            start < col <= cols,
                            background_end(
                                *screen,
                                row as int,
                                cols as int,
                                col as int,
                                color,
                            ) == background_end(
                                *screen,
                                row as int,
                                cols as int,
                                start + 1,
                                color,
                            ),
                        decreases cols - col,
                    {
                        col += 1;
                    }
                    runs.push(BackgroundRun { start, end: col, color });
                }
            },
        }
        assert(runs@ + background_runs_from(*screen, row as int, cols as int, col as int) =~= before
            + background_runs_from(*screen, row as int, cols as int, first as int));
    }
    assert(runs@ + background_runs_from(*screen, row as int, cols as int, col as int) =~= runs@);
    runs
}

/// Whether the cell in a column has the given background.
fn background_is(screen: &Screen, row: usize, col: usize, color: Rgb) -> (r: bool)
    ensures
        r == (background(*screen, row as int, col as int) == Some(color)),
{
    match background_at(screen, row, col) {
        Some(c) => c.0 == color.0 && c.1 == color.1 && c.2 == color.2,
        None => false,
    }
}

// ── Text ─────────────────────────────────────────────────────────────────────

/// Neighboring cells of a row that are written in one color and font. The lines through and
/// under the text are those of the first cell.
#[derive(Debug)]
pub struct TextRun {
    /// The first column.
    pub start: usize,
    /// The number of columns that the text takes.
    pub width: usize,
    pub text: String,
    pub color: (u8, u8, u8),
    pub bold: bool,
    pub italic: bool,
    pub underline: bool,
    pub strikethrough: bool,
}

/// The model of a [`TextRun`].
pub struct TextRunView {
    pub start: int,
    pub width: int,
    pub text: Seq<char>,
    pub color: Rgb,
    pub bold: bool,
    pub italic: bool,
    pub underline: bool,
    pub strikethrough: bool,
}

impl View for TextRun {
    type V = TextRunView;

    open spec fn view(&self) -> TextRunView {
        TextRunView {
            start: self.start as int,
            width: self.width as int,
            text: self.text@,
            color: self.color,
            bold: self.bold,
            italic: self.italic,
            underline: self.underline,
            strikethrough: self.strikethrough,
        }
    }
}

/// Whether a cell is written at all: the second half of a wide character is not, and neither
/// is a plain blank.
pub open spec fn is_written(cell: Cell) -> bool {
    !cell.attrs.wide_continuation && !(cell.text@ == " "@ && cell.attrs
        == crate::screen::plain_attrs())
}

/// Whether a cell joins a run that began with the cell `first`. The second half of a wide
/// character does, and adds nothing.
pub open spec fn joins(first: Cell, next: Cell) -> bool {
    next.attrs.wide_continuation || (cell_colors(next).0 == cell_colors(first).0 && same_font(
        first.attrs,
        next.attrs,
    ))
}

/// How a run that began with the cell `first` goes on from column `col`: where it ends, and the
/// text and width that it gains.
pub open spec fn run_rest(screen: Screen, row: int, cols: int, first: Cell, col: int) -> (
    int,
    Seq<char>,
    int,
)
    decreases cols - col,
{
    if col < cols && screen.has_cell(row, col) && joins(first, screen.cell(row, col)) {
        let cell = screen.cell(row, col);
        let (end, text, width) = run_rest(screen, row, cols, first, col + 1);
        if cell.attrs.wide_continuation {
            (end, text, width)
        } else {
            (end, cell.text@ + text, cell_width(cell) + width)
        }
    } else {
        (col, Seq::empty(), 0)
    }
}

/// The run that begins in column `col`.
pub open spec fn run_at(screen: Screen, row: int, cols: int, col: int) -> TextRunView {
    let first = screen.cell(row, col);
    let (_, text, width) = run_rest(screen, row, cols, first, col + 1);
    TextRunView {
        start: col,
        width: cell_width(first) + width,
        text: first.text@ + text,
        color: cell_colors(first).0,
        bold: first.attrs.bold,
        italic: first.attrs.italic,
        underline: first.attrs.underline,
        strikethrough: first.attrs.strikethrough,
    }
}

/// The runs of text from column `col` on.
pub open spec fn text_runs_from(screen: Screen, row: int, cols: int, col: int) -> Seq<TextRunView>
    decreases cols - col,
{
    if col >= cols {
        Seq::empty()
    } else if !screen.has_cell(row, col) || !is_written(screen.cell(row, col)) {
        text_runs_from(screen, row, cols, col + 1)
    } else {
        let end = run_rest(screen, row, cols, screen.cell(row, col), col + 1).0;
        if col < end <= cols {
            seq![run_at(screen, row, cols, col)] + text_runs_from(screen, row, cols, end)
        } else {
            Seq::empty()
        }
    }
}

/// A run goes on to the right, and gains at most two columns for each of its cells.
pub proof fn lemma_run_rest(screen: Screen, row: int, cols: int, first: Cell, col: int)
    requires
        col <= cols,
    ensures
        col <= run_rest(screen, row, cols, first, col).0 <= cols,
        0 <= run_rest(screen, row, cols, first, col).2 <= 2 * (run_rest(
            screen,
            row,
            cols,
            first,
            col,
        ).0 - col),
    decreases cols - col,
{
    if col < cols && screen.has_cell(row, col) && joins(first, screen.cell(row, col)) {
        lemma_run_rest(screen, row, cols, first, col + 1);
    }
}

/// Reads the run that begins in column `start`, which holds a cell. Also returns where it ends.
fn read_run(screen: &Screen, row: usize, cols: usize, start: usize) -> (r: (TextRun, usize))
    requires
        start < cols,
        screen.has_cell(row as int, start as int),
        2 * cols <= usize::MAX,
    ensures
        r.0@ == run_at(*screen, row as int, cols as int, start as int),
        r.1 == run_rest(
            *screen,
            row as int,
            cols as int,
            screen.cell(row as int, start as int),
            start + 1,
        ).0,
        start < r.1 <= cols,
{
    let first = &screen.lines[row][start];
    let (color, _) = resolve_cell_colors(first);
    let mut text = String::new();
    text.append(first.text.as_str());
    let mut width: usize = cell_display_cols(first);
    let mut col: usize = start + 1;
    let ghost rest = run_rest(*screen, row as int, cols as int, *first, start + 1);
    let ghost goal = run_at(*screen, row as int, cols as int, start as int);
    assert(first.text@ + rest.1 =~= text@ + rest.1);
    while col < cols
        invariant_except_break
            ({
                let now = run_rest(*screen, row as int, cols as int, *first, col as int);
                now.0 == rest.0 && text@ + now.1 == goal.text && width + now.2 == goal.width
            }),
        invariant
            start < col <= cols,
            width <= 2 * (col - start),
            2 * cols <= usize::MAX,
            color == cell_colors(*first).0,
            rest == run_rest(*screen, row as int, cols as int, *first, start + 1),
            goal == run_at(*screen, row as int, cols as int, start as int),
        ensures
            col == rest.0,
            text@ == goal.text,
            width == goal.width,
        decreases cols - col,
    {
        let ghost now = run_rest(*screen, row as int, cols as int, *first, col as int);
        let ghost before = text@;
        let joined = match screen.cell_at_virtual(row, col) {
            Some(next) => {
                if next.attrs.wide_continuation {
                    true
                } else {
                    let (next_color, _) = resolve_cell_colors(next);
                    if next_color.0 == color.0 && next_color.1 == color.1 && next_color.2 == color.2
                        && attrs_same_format(&first.attrs, &next.attrs) {
                        text.append(next.text.as_str());
                        width = width + cell_display_cols(next);
                        true
                    } else {
                        false
                    }
                }
            },
            None => false,
        };
        if !joined {
            assert(text@ + now.1 =~= text@);
            break;
        }
        col += 1;
        assert(text@ + run_rest(*screen, row as int, cols as int, *first, col as int).1 =~= before
            + now.1);
    }
    assert(col == cols ==> text@ + run_rest(
        *screen,
        row as int,
        cols as int,
        *first,
        col as int,
    ).1 =~= text@);
    let run = TextRun {
        start,
        width,
        text,
        color,
        bold: first.attrs.bold,
        italic: first.attrs.italic,
        underline: first.attrs.underline,
        strikethrough: first.attrs.strikethrough,
    };
    (run, col)
}

/// The runs of text in a row, among the first `cols` columns.
///
/// Adjacent cells with the same foreground color and font style are batched into one run.
pub fn text_runs(screen: &Screen, row: usize, cols: usize) -> (r: Vec<TextRun>)
    requires
        2 * cols <= usize::MAX,
    ensures
        r@.map_values(|t: TextRun| t@) == text_runs_from(*screen, row as int, cols as int, 0),
{
    let ghost f = |t: TextRun| t@;
    let mut runs: Vec<TextRun> = Vec::new();
    let mut col: usize = 0;
    assert(runs@.map_values(f) + text_runs_from(*screen, row as int, cols as int, 0)
        =~= text_runs_from(*screen, row as int, cols as int, 0));
    while col < cols
        invariant
            col <= cols,
            2 * cols <= usize::MAX,
            f == (|t: TextRun| t@),
            runs@.map_values(f) + text_runs_from(*screen, row as int, cols as int, col as int)
                == text_runs_from(*screen, row as int, cols as int, 0),
        decreases cols - col,
    {
        let ghost before = runs@.map_values(f);
        let ghost start = col;
        let written = match screen.cell_at_virtual(row, col) {
            Some(cell) => !cell.attrs.wide_continuation && !(str_eq(cell.text.as_str(), " ")
                && cell.attrs == CellAttrs::default()),
            None => false,
        };
        if !written {
            col += 1;
        } else {
            let (run, end) = read_run(screen, row, cols, col);
            let ghost view = run@;
            runs.push(run);
            col = end;
            assert(runs@.map_values(f) =~= before.push(view));
        }
        assert(runs@.map_values(f) + text_runs_from(*screen, row as int, cols as int, col as int)
            =~= before + text_runs_from(*screen, row as int, cols as int, start as int));
    }
    assert(runs@.map_values(f) + text_runs_from(*screen, row as int, cols as int, col as int)
        =~= runs@.map_values(f));
    runs
}

// ── Highlights ───────────────────────────────────────────────────────────────

/// A highlighted part of a row: columns `start..end`.
#[derive(Debug, Clone, Copy, PartialEq, Eq, Structural)]
pub struct Span {
    pub row: usize,
    pub start: usize,
    pub end: usize,
}

/// The columns of a row that a selection covers, among the first `cols`: the first and the end.
pub open spec fn covered_cols(n: (usize, usize, usize, usize), row: int, cols: int) -> (int, int) {
    crate::clipboard::selected_cols(n, row, cols)
}

/// The highlighted parts of the rows from `row` on. A row in which nothing is covered has none.
pub open spec fn spans_from(n: (usize, usize, usize, usize), rows: int, cols: int, row: int) -> Seq<
    Span,
>
    decreases n.2 + 1 - row,
{
    if row > n.2 || row >= rows {
        Seq::empty()
    } else {
        let (from, to) = covered_cols(n, row, cols);
        if from < to {
            seq![Span { row: row as usize, start: from as usize, end: to as usize }] + spans_from(
                n,
                rows,
                cols,
                row + 1,
            )
        } else {
            spans_from(n, rows, cols, row + 1)
        }
    }
}

/// The parts of the visible rows and columns to highlight for a selection.
pub fn selection_spans(sel: &TextSelection, visible_rows: usize, visible_cols: usize) -> (r: Vec<
    Span,
>)
    ensures
        r@ == spans_from(
            sel.in_order(),
            visible_rows as int,
            visible_cols as int,
            sel.in_order().0 as int,
        ),
{
    let (sr, sc, er, ec) = sel.normalised();
    let ghost n = sel.in_order();
    let mut spans: Vec<Span> = Vec::new();
    let mut row: usize = sr;
    assert(spans@ + spans_from(n, visible_rows as int, visible_cols as int, sr as int)
        =~= spans_from(n, visible_rows as int, visible_cols as int, sr as int));
    while row <= er && row < visible_rows
        invariant
            sr <= row,
            n == (sr, sc, er, ec),
            spans@ + spans_from(n, visible_rows as int, visible_cols as int, row as int)
                == spans_from(n, visible_rows as int, visible_cols as int, sr as int),
        decreases visible_rows - row,
    {
        let from: usize = if row == sr {
            sc
        } else {
            0
        };
        let to: usize = if row == er && ec < visible_cols {
            ec + 1
        } else {
            visible_cols
        };
        let ghost before = spans@;
        if from < to {
            spans.push(Span { row, start: from, end: to });
        }
        row += 1;
        assert(spans@ + spans_from(n, visible_rows as int, visible_cols as int, row as int)
            =~= before + spans_from(n, visible_rows as int, visible_cols as int, row - 1));
    }
    assert(spans@ + spans_from(n, visible_rows as int, visible_cols as int, row as int) =~= spans@);
    spans
}

/// Whether the cursor is painted in a viewport: only on the live screen, and only where it can
/// be seen.
pub fn cursor_is_painted(
    screen: &Screen,
    scrollback_offset: usize,
    visible_rows: usize,
    visible_cols: usize,
) -> (r: bool)
    ensures
        r == (scrollback_offset == 0 && screen.cursor_visible && screen.cursor_row < visible_rows
            && screen.cursor_col < visible_cols),
{
    scrollback_offset == 0 && screen.cursor_visible && screen.cursor_row < visible_rows
        && screen.cursor_col < visible_cols
}

// ── Failed pane messages ─────────────────────────────────────────────────────

/// Format a message for a pane whose session exited with a given exit code.
pub fn exited_pane_message(exit_code: u32) -> (r: String)
    ensures
        r@ == "Session exited (code "@ + crate::text::decimal(exit_code as nat) + ")"@,
{
    let mut s = "Session exited (code ".to_owned();
    push_decimal(&mut s, exit_code as u64);
    s.append(")");
    s
}

/// Format a message for a pane whose session failed to launch.
pub fn failed_pane_message(error: &str) -> (r: String)
    ensures
        r@ == "Session failed: "@ + error@,
{
    "Session failed: ".to_owned().concat(error)
}

/// The restart hint shown below the status message in failed/exited panes.
pub const RESTART_HINT: &'static str = "Press Enter to restart  \u{00B7}  Ctrl+B, r";

// ── Laws ─────────────────────────────────────────────────────────────────────

/// A selection covers the same cells in whichever direction it was made.
pub proof fn law_direction_does_not_matter(sel: TextSelection, row: int, col: int)
    ensures
        sel.reversed().in_order() == sel.in_order(),
        sel.reversed().covers(row, col) == sel.covers(row, col),
{
}

/// A selection covers its first and its last cell.
pub proof fn law_covers_its_ends(sel: TextSelection)
    ensures
        sel.covers(sel.start_row as int, sel.start_col as int),
        sel.covers(sel.end_row as int, sel.end_col as int),
{
}

/// A visible cell is highlighted exactly if the selection covers it.
pub proof fn law_highlight_is_selection(sel: TextSelection, rows: int, cols: int, row: int, col: int)
    requires
        0 <= row < rows <= usize::MAX,
        0 <= col < cols <= usize::MAX,
    ensures
        sel.covers(row, col) <==> exists|i: int|
            #![trigger spans_from(sel.in_order(), rows, cols, sel.in_order().0 as int)[i]]
            0 <= i < spans_from(sel.in_order(), rows, cols, sel.in_order().0 as int).len() && ({
                let s = spans_from(sel.in_order(), rows, cols, sel.in_order().0 as int)[i];
                s.row == row && s.start <= col < s.end
            }),
{
    lemma_spans(sel.in_order(), rows, cols, sel.in_order().0 as int, row, col);
    let n = sel.in_order();
    let (from, to) = covered_cols(n, row, cols);
    assert(sel.covers(row, col) <==> n.0 <= row <= n.2 && from <= col < to);
}

/// What is highlighted from row `from_row` on.
proof fn lemma_spans(
    n: (usize, usize, usize, usize),
    rows: int,
    cols: int,
    from_row: int,
    row: int,
    col: int,
)
    requires
        0 <= row < rows <= usize::MAX,
        0 <= col < cols <= usize::MAX,
        n.0 <= from_row,
    ensures
        (from_row <= row <= n.2 && covered_cols(n, row, cols).0 <= col < covered_cols(
            n,
            row,
            cols,
        ).1) <==> exists|i: int|
            #![trigger spans_from(n, rows, cols, from_row)[i]]
            0 <= i < spans_from(n, rows, cols, from_row).len() && ({
                let s = spans_from(n, rows, cols, from_row)[i];
                s.row == row && s.start <= col < s.end
            }),
    decreases n.2 + 1 - from_row,
{
    let all = spans_from(n, rows, cols, from_row);
    if from_row > n.2 || from_row >= rows {
    } else {
        let (from, to) = covered_cols(n, from_row, cols);
        let rest = spans_from(n, rows, cols, from_row + 1);
        lemma_spans(n, rows, cols, from_row + 1, row, col);
        if from < to {
            assert(all =~= seq![
                Span { row: from_row as usize, start: from as usize, end: to as usize },
            ] + rest);
            if exists|i: int|
                #![trigger rest[i]]
                0 <= i < rest.len() && rest[i].row == row && rest[i].start <= col < rest[i].end {
                let i = choose|i: int|
                    #![trigger rest[i]]
                    0 <= i < rest.len() && rest[i].row == row && rest[i].start <= col
                        < rest[i].end;
                assert(all[i + 1] == rest[i]);
            }
            if exists|i: int|
                #![trigger all[i]]
                0 <= i < all.len() && all[i].row == row && all[i].start <= col < all[i].end {
                let i = choose|i: int|
                    #![trigger all[i]]
                    0 <= i < all.len() && all[i].row == row && all[i].start <= col < all[i].end;
                if i > 0 {
                    assert(rest[i - 1] == all[i]);
                }
            }
            assert(all[0].row == from_row);
        } else {
            assert(all == rest);
        }
    }
}

/// A visible cell is painted with its own background: it lies in a run exactly if its
/// background is not the default, and that run has its color.
pub proof fn law_backgrounds_are_painted(
    screen: Screen,
    row: int,
    cols: int,
    from: int,
    col: int,
    i: int,
)
    requires
        0 <= from <= col < cols <= usize::MAX,
        0 <= i < background_runs_from(screen, row, cols, from).len(),
        background_runs_from(screen, row, cols, from)[i].start <= col < background_runs_from(
            screen,
            row,
            cols,
            from,
        )[i].end,
    ensures
        background(screen, row, col) == Some(background_runs_from(screen, row, cols, from)[i].color),
        background_runs_from(screen, row, cols, from)[i].color != DEFAULT_BG,
    decreases cols - from,
{
    let all = background_runs_from(screen, row, cols, from);
    match background(screen, row, from) {
        Some(color) if color != DEFAULT_BG => {
            let end = background_end(screen, row, cols, from + 1, color);
            lemma_background_end(screen, row, cols, from + 1, color, col);
            let rest = background_runs_from(screen, row, cols, end);
            if i > 0 {
                assert(all[i] == rest[i - 1]);
                lemma_runs_start_behind(screen, row, cols, end, i - 1);
                law_backgrounds_are_painted(screen, row, cols, end, col, i - 1);
            }
        },
        _ => {
            lemma_runs_start_behind(screen, row, cols, from + 1, i);
            law_backgrounds_are_painted(screen, row, cols, from + 1, col, i);
        },
    }
}

/// Every visible cell with a background of its own lies in a run.
pub proof fn law_backgrounds_are_complete(
    screen: Screen,
    row: int,
    cols: int,
    from: int,
    col: int,
) -> (i: int)
    requires
        0 <= from <= col < cols <= usize::MAX,
        background(screen, row, col) is Some,
        background(screen, row, col) != Some(DEFAULT_BG),
    ensures
        0 <= i < background_runs_from(screen, row, cols, from).len(),
        background_runs_from(screen, row, cols, from)[i].start <= col < background_runs_from(
            screen,
            row,
            cols,
            from,
        )[i].end,
    decreases cols - from,
{
    let all = background_runs_from(screen, row, cols, from);
    match background(screen, row, from) {
        Some(color) if color != DEFAULT_BG => {
            let end = background_end(screen, row, cols, from + 1, color);
            lemma_background_end(screen, row, cols, from + 1, color, col);
            if col < end {
                assert(all[0].start == from);
                0
            } else {
                let j = law_backgrounds_are_complete(screen, row, cols, end, col);
                assert(all[j + 1] == background_runs_from(screen, row, cols, end)[j]);
                j + 1
            }
        },
        _ => law_backgrounds_are_complete(screen, row, cols, from + 1, col),
    }
}

/// A run of one color ends at or behind its start, and every cell before its end has the color.
proof fn lemma_background_end(screen: Screen, row: int, cols: int, col: int, color: Rgb, c: int)
    requires
        col <= cols,
    ensures
        col <= background_end(screen, row, cols, col, color) <= cols,
        col <= c < background_end(screen, row, cols, col, color) ==> background(screen, row, c)
            == Some(color),
    decreases cols - col,
{
    if col < cols && background(screen, row, col) == Some(color) {
        lemma_background_end(screen, row, cols, col + 1, color, c);
    }
}

/// Runs start no further left than where they are looked for.
proof fn lemma_runs_start_behind(screen: Screen, row: int, cols: int, from: int, i: int)
    requires
        0 <= from <= cols <= usize::MAX,
        0 <= i < background_runs_from(screen, row, cols, from).len(),
    ensures
        from <= background_runs_from(screen, row, cols, from)[i].start,
    decreases cols - from,
{
    let all = background_runs_from(screen, row, cols, from);
    match background(screen, row, from) {
        Some(color) if color != DEFAULT_BG => {
            let end = background_end(screen, row, cols, from + 1, color);
            lemma_background_end(screen, row, cols, from + 1, color, from);
            if i > 0 {
                assert(all[i] == background_runs_from(screen, row, cols, end)[i - 1]);
                lemma_runs_start_behind(screen, row, cols, end, i - 1);
            }
        },
        _ => lemma_runs_start_behind(screen, row, cols, from + 1, i),
    }
}

/// Where the run ends that begins in a column.
pub open spec fn run_end(screen: Screen, row: int, cols: int, start: int) -> int {
    run_rest(screen, row, cols, screen.cell(row, start), start + 1).0
}

proof fn lemma_run_cells(screen: Screen, row: int, cols: int, first: Cell, col: int, c: int)
    requires
        col <= c < run_rest(screen, row, cols, first, col).0,
    ensures
        joins(first, screen.cell(row, c)),
    decreases cols - col,
{
    if col < c {
        lemma_run_cells(screen, row, cols, first, col + 1, c);
    }
}

/// Every cell that is to be written is in a run of its color and font. Returns the run.
pub proof fn law_text_is_complete(screen: Screen, row: int, cols: int, from: int, c: int) -> (i: int)
    requires
        0 <= from <= c < cols,
        screen.has_cell(row, c),
        is_written(screen.cell(row, c)),
    ensures
        ({
            let runs = text_runs_from(screen, row, cols, from);
            &&& 0 <= i < runs.len()
            &&& runs[i].start <= c < run_end(screen, row, cols, runs[i].start)
            &&& runs[i].color == cell_colors(screen.cell(row, c)).0
            &&& runs[i].bold == screen.cell(row, c).attrs.bold
            &&& runs[i].italic == screen.cell(row, c).attrs.italic
        }),
    decreases cols - from,
{
    if !screen.has_cell(row, from) || !is_written(screen.cell(row, from)) {
        law_text_is_complete(screen, row, cols, from + 1, c)
    } else {
        let first = screen.cell(row, from);
        lemma_run_rest(screen, row, cols, first, from + 1);
        let end = run_end(screen, row, cols, from);
        if c < end {
            if c > from {
                lemma_run_cells(screen, row, cols, first, from + 1, c);
            }
            0
        } else {
            let j = law_text_is_complete(screen, row, cols, end, c);
            j + 1
        }
    }
}

/// The first sixteen colors of the palette: red, green and blue are the bits of the index, dark ones
/// at 170, bright ones at 255 over 85; dark yellow is brown.
pub proof fn law_palette_is_built_from_bits(red: bool, green: bool, blue: bool)
    ensures
        ({
            let i: int = (if red { 1int } else { 0 }) + (if green { 2int } else { 0 }) + (if blue {
                4int
            } else {
                0
            });
            let dark = |on: bool| if on { 170u8 } else { 0u8 };
            let bright = |on: bool| if on { 255u8 } else { 85u8 };
            &&& red && green && !blue ==> palette(i) == (170u8, 85u8, 0u8)
            &&& !(red && green && !blue) ==> palette(i) == (dark(red), dark(green), dark(blue))
            &&& palette(i + 8) == (bright(red), bright(green), bright(blue))
        }),
{
}

/// An indexed color below 16 is one of the palette, from 16 on they are a cube with six levels of
/// red, green and blue, and from 232 on a ramp of grays.
pub proof fn law_indexed_colors(i: int, red: int, green: int, blue: int, gray: int)
    requires
        0 <= i < 16,
        0 <= red < 6,
        0 <= green < 6,
        0 <= blue < 6,
        0 <= gray < 24,
    ensures
        ({
            let level = |v: int| if v == 0 { 0u8 } else { (55 + 40 * v) as u8 };
            let v = (8 + 10 * gray) as u8;
            &&& indexed_rgb(i as u8) == palette(i)
            &&& indexed_rgb((16 + 36 * red + 6 * green + blue) as u8) == (
                level(red),
                level(green),
                level(blue),
            )
            &&& indexed_rgb((232 + gray) as u8) == (v, v, v)
        }),
{
    let n = 36 * red + 6 * green + blue;
    assert(n / 36 == red && n / 6 % 6 == green && n % 6 == blue);
}

/// The color of a cell: its own, or the default of text or background where it has none. The index
/// of a plain or bright color counts up to seven.
pub proof fn law_colors(is_foreground: bool, i: u8, r: u8, g: u8, b: u8)
    ensures
        rgb_of(Color::Default, true) == (204u8, 204u8, 204u8),
        rgb_of(Color::Default, false) == (26u8, 26u8, 38u8),
        rgb_of(Color::Rgb(r, g, b), is_foreground) == (r, g, b),
        i < 8 ==> rgb_of(Color::Ansi(i), is_foreground) == palette(i as int),
        i < 8 ==> rgb_of(Color::AnsiBright(i), is_foreground) == palette(i + 8),
        i >= 8 ==> rgb_of(Color::Ansi(i), is_foreground) == palette(7),
        i >= 8 ==> rgb_of(Color::AnsiBright(i), is_foreground) == palette(15),
        rgb_of(Color::Indexed(i), is_foreground) == indexed_rgb(i),
{
}

/// A plain cell is painted in its own colors, an inverse one with the two exchanged, and a dim one
/// with its text half as bright.
pub proof fn law_attributes_change_colors(cell: Cell)
    ensures
        ({
            let fg = rgb_of(cell.fg, true);
            let bg = rgb_of(cell.bg, false);
            let (text, back) = cell_colors(cell);
            &&& !cell.attrs.inverse && !cell.attrs.dim ==> text == fg && back == bg
            &&& cell.attrs.inverse && !cell.attrs.dim ==> text == bg && back == fg
            &&& cell.attrs.inverse ==> back == fg
            &&& !cell.attrs.inverse ==> back == bg
            &&& cell.attrs.dim && !cell.attrs.inverse ==> text == (fg.0 / 2, fg.1 / 2, fg.2 / 2)
            &&& cell.attrs.dim && cell.attrs.inverse ==> text == (bg.0 / 2, bg.1 / 2, bg.2 / 2)
        }),
{
}

/// A cell is written unless it continues a wide character or is a blank without attributes.
pub proof fn law_what_is_written(cell: Cell)
    ensures
        cell.attrs.wide_continuation ==> !is_written(cell),
        cell.text@ != " "@ && !cell.attrs.wide_continuation ==> is_written(cell),
        (cell.attrs.bold || cell.attrs.underline || cell.attrs.inverse || cell.attrs.strikethrough
            || cell.attrs.italic || cell.attrs.dim || cell.attrs.wide || cell.attrs.other)
            && !cell.attrs.wide_continuation ==> is_written(cell),
        cell.text@ == " "@ && cell.attrs == crate::screen::plain_attrs() ==> !is_written(cell),
        cell.attrs.wide ==> cell_width(cell) == 2,
        !cell.attrs.wide ==> cell_width(cell) == 1,
{
}

proof fn lemma_cells_from_front(screen: Screen, row: int, from: int, to: int)
    requires
        from < to,
    ensures
        crate::clipboard::cells_text(screen, row, from, to) == crate::clipboard::cells_text(
            screen,
            row,
            from,
            from + 1,
        ) + crate::clipboard::cells_text(screen, row, from + 1, to),
    decreases to - from,
{
    reveal_with_fuel(crate::clipboard::cells_text, 2);
    let one = crate::clipboard::cells_text(screen, row, from, from + 1);
    if to == from + 1 {
        assert(one + Seq::<char>::empty() =~= one);
    } else {
        lemma_cells_from_front(screen, row, from, to - 1);
        let last = if screen.has_cell(row, to - 1) && !screen.cell(
            row,
            to - 1,
        ).attrs.wide_continuation {
            screen.cell(row, to - 1).text@
        } else {
            Seq::empty()
        };
        let mid = crate::clipboard::cells_text(screen, row, from + 1, to - 1);
        assert((one + mid) + last =~= one + (mid + last));
    }
}

proof fn lemma_rest_text(screen: Screen, row: int, cols: int, first: Cell, col: int)
    requires
        0 <= col,
    ensures
        ({
            let (end, text, width) = run_rest(screen, row, cols, first, col);
            &&& text == crate::clipboard::cells_text(screen, row, col, end)
            &&& col <= end
            &&& end < cols && screen.has_cell(row, end) ==> !joins(first, screen.cell(row, end))
        }),
    decreases cols - col,
{
    if col < cols && screen.has_cell(row, col) && joins(first, screen.cell(row, col)) {
        lemma_rest_text(screen, row, cols, first, col + 1);
        let end = run_rest(screen, row, cols, first, col).0;
        lemma_cells_from_front(screen, row, col, end);
        reveal_with_fuel(crate::clipboard::cells_text, 2);
        let one = crate::clipboard::cells_text(screen, row, col, col + 1);
        if screen.cell(row, col).attrs.wide_continuation {
            assert(one =~= Seq::<char>::empty());
            assert(one + crate::clipboard::cells_text(screen, row, col + 1, end)
                =~= crate::clipboard::cells_text(screen, row, col + 1, end));
        } else {
            assert(one =~= screen.cell(row, col).text@);
        }
    }
}

/// Every run of text starts with a cell that is to be written and holds the text of its cells, as
/// selecting them would copy it; it has the color and the attributes of its first cell, and goes on
/// until a cell has another color or font.
pub proof fn law_runs_hold_the_text_of_their_cells(
    screen: Screen,
    row: int,
    cols: int,
    from: int,
    i: int,
)
    requires
        0 <= from,
        0 <= i < text_runs_from(screen, row, cols, from).len(),
    ensures
        ({
            let run = text_runs_from(screen, row, cols, from)[i];
            let first = screen.cell(row, run.start);
            let end = run_end(screen, row, cols, run.start);
            &&& from <= run.start < end <= cols
            &&& screen.has_cell(row, run.start)
            &&& is_written(first)
            &&& run.text == crate::clipboard::cells_text(screen, row, run.start, end)
            &&& run.color == cell_colors(first).0
            &&& run.bold == first.attrs.bold
            &&& run.italic == first.attrs.italic
            &&& run.underline == first.attrs.underline
            &&& run.strikethrough == first.attrs.strikethrough
            &&& end < cols && screen.has_cell(row, end) ==> {
                let next = screen.cell(row, end);
                !next.attrs.wide_continuation && (cell_colors(next).0 != run.color
                    || next.attrs.bold != run.bold || next.attrs.italic != run.italic)
            }
            &&& i + 1 < text_runs_from(screen, row, cols, from).len() ==> end <= text_runs_from(
                screen,
                row,
                cols,
                from,
            )[i + 1].start
        }),
    decreases cols - from,
{
    let all = text_runs_from(screen, row, cols, from);
    if !screen.has_cell(row, from) || !is_written(screen.cell(row, from)) {
        law_runs_hold_the_text_of_their_cells(screen, row, cols, from + 1, i);
    } else {
        let first = screen.cell(row, from);
        lemma_run_rest(screen, row, cols, first, from + 1);
        let end = run_end(screen, row, cols, from);
        let rest = text_runs_from(screen, row, cols, end);
        if i > 0 {
            law_runs_hold_the_text_of_their_cells(screen, row, cols, end, i - 1);
            assert(all[i] == rest[i - 1]);
            if i + 1 < all.len() {
                assert(all[i + 1] == rest[i]);
            }
        } else {
            lemma_rest_text(screen, row, cols, first, from + 1);
            lemma_cells_from_front(screen, row, from, end);
            reveal_with_fuel(crate::clipboard::cells_text, 2);
            let one = crate::clipboard::cells_text(screen, row, from, from + 1);
            assert(one =~= first.text@);
            if all.len() > 1 {
                law_runs_hold_the_text_of_their_cells(screen, row, cols, end, 0);
                assert(all[1] == rest[0]);
            }
        }
    }
}

/// A run is as wide as its cells: two columns for a wide character and one for any other, with
/// nothing for a cell that continues one.
pub proof fn law_runs_are_as_wide_as_their_cells(
    screen: Screen,
    row: int,
    cols: int,
    first: Cell,
    col: int,
)
    requires
        0 <= col < cols,
        screen.has_cell(row, col),
        joins(first, screen.cell(row, col)),
    ensures
        ({
            let cell = screen.cell(row, col);
            let here = run_rest(screen, row, cols, first, col).2;
            let rest = run_rest(screen, row, cols, first, col + 1).2;
            here - rest == (if cell.attrs.wide_continuation {
                0int
            } else if cell.attrs.wide {
                2
            } else {
                1
            })
        }),
{
}

} // verus!
