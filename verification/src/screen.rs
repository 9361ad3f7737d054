//! What the library reads of a terminal screen: its cells, its cursor and its modes.
use vstd::prelude::*;

verus! {

/// A color of a cell.
#[derive(Debug, Clone, Copy, PartialEq, Eq, Structural)]
pub enum Color {
    Default,
    Ansi(u8),
    AnsiBright(u8),
    Indexed(u8),
    Rgb(u8, u8, u8),
}

/// The attributes of a cell.
#[derive(Debug, Clone, Copy, PartialEq, Eq, Structural)]
pub struct CellAttrs {
    pub bold: bool,
    pub dim: bool,
    pub italic: bool,
    pub underline: bool,
    pub inverse: bool,
    pub strikethrough: bool,
    /// The cell is the first of a character that takes two cells.
    pub wide: bool,
    /// The cell is the second of a character that takes two cells.
    pub wide_continuation: bool,
    /// The cell has some attribute besides these.
    pub other: bool,
}

/// No attributes.
pub open spec fn plain_attrs() -> CellAttrs {
    CellAttrs {
        bold: false,
        dim: false,
        italic: false,
        underline: false,
        inverse: false,
        strikethrough: false,
        wide: false,
        wide_continuation: false,
        other: false,
    }
}

impl Default for CellAttrs {
    fn default() -> (r: CellAttrs)
        ensures
            r == plain_attrs(),
    {
        CellAttrs {
            bold: false,
            dim: false,
            italic: false,
            underline: false,
            inverse: false,
            strikethrough: false,
            wide: false,
            wide_continuation: false,
            other: false,
        }
    }
}

/// A cell of a screen.
#[derive(Debug)]
pub struct Cell {
    pub text: String,
    pub fg: Color,
    pub bg: Color,
    pub attrs: CellAttrs,
}

/// Which mouse events a session has asked for.
#[derive(Debug, Clone, Copy, PartialEq, Eq, Structural)]
pub enum MouseMode {
    /// None.
    Off,
    Normal,
    ButtonEvent,
    AnyEvent,
}

/// A terminal screen with its scrollback.
#[derive(Debug)]
pub struct Screen {
    /// The number of columns.
    pub cols: usize,
    /// The number of rows on the screen.
    pub rows: usize,
    /// All rows: first those scrolled off the top, oldest first, then those on the screen.
    pub lines: Vec<Vec<Cell>>,
    pub cursor_row: usize,
    pub cursor_col: usize,
    pub cursor_visible: bool,
    /// Whether the alternate screen is shown.
    pub alternate: bool,
    pub bracketed_paste: bool,
    pub mouse_mode: MouseMode,
    pub sgr_mouse: bool,
}

impl Screen {
    /// A screen has at least the rows that it shows.
    pub open spec fn wf(&self) -> bool {
        self.rows <= self.lines@.len()
    }

    /// The number of rows scrolled off the top.
    pub open spec fn scrollback(&self) -> int {
        self.lines@.len() - self.rows
    }

    /// Whether there is a cell at the given row, counted from the oldest, and column.
    pub open spec fn has_cell(&self, row: int, col: int) -> bool {
        0 <= row < self.lines@.len() && 0 <= col < self.lines@[row]@.len()
    }

    /// The cell at the given row and column.
    pub open spec fn cell(&self, row: int, col: int) -> Cell {
        self.lines@[row]@[col]
    }

    /// The number of rows scrolled off the top.
    pub fn scrollback_len(&self) -> (r: usize)
        requires
            self.wf(),
        ensures
            r == self.scrollback(),
    {
        self.lines.len() - self.rows
    }

    /// The number of all rows.
    pub fn total_rows(&self) -> (r: usize)
        ensures
            r == self.lines@.len(),
    {
        self.lines.len()
    }

    /// The cell at the given row, counted from the oldest, and column.
    pub fn cell_at_virtual(&self, row: usize, col: usize) -> (r: Option<&Cell>)
        ensures
            match r {
                Some(c) => self.has_cell(row as int, col as int) && *c == self.cell(
                    row as int,
                    col as int,
                ),
                None => !self.has_cell(row as int, col as int),
            },
    {
        if row < self.lines.len() {
            if col < self.lines[row].len() {
                return Some(&self.lines[row][col]);
            }
        }
        None
    }
}

} // verus!
