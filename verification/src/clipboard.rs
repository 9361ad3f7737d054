//! Clipboard text: extraction of selected text, VT stripping, and bracketed paste.
use vstd::prelude::*;
use vstd::utf8::*;

use crate::renderer::TextSelection;
use crate::screen::Screen;
use crate::text::{chars_of, trim_end};

verus! {

broadcast use vstd::string::group_string_axioms;

// ── Text extraction ─────────────────────────────────────────────────────────

/// The text of the cells `from..to` of a row. Cells that continue a wide character, and
/// columns without a cell, add nothing.
pub open spec fn cells_text(screen: Screen, row: int, from: int, to: int) -> Seq<char>
    decreases to - from,
{
    if from >= to {
        Seq::empty()
    } else {
        cells_text(screen, row, from, to - 1) + (if screen.has_cell(row, to - 1) && !screen.cell(
            row,
            to - 1,
        ).attrs.wide_continuation {
            screen.cell(row, to - 1).text@
        } else {
            Seq::empty()
        })
    }
}

/// The columns of a row that a selection covers on a screen: the first, and the end.
pub open spec fn selected_cols(n: (usize, usize, usize, usize), row: int, cols: int) -> (int, int) {
    let (sr, sc, er, ec) = n;
    let from = if row == sr {
        sc as int
    } else {
        0
    };
    let to = if row == er && ec < cols {
        ec + 1
    } else {
        cols
    };
    (from, to)
}

/// The selected text of the rows from `row` on, in a viewport whose first row is row `base`.
/// Rows below the screen are left out, and so is white space at the end of a row.
pub open spec fn rows_text(
    screen: Screen,
    n: (usize, usize, usize, usize),
    base: int,
    row: int,
) -> Seq<char>
    decreases n.2 + 1 - row,
{
    let er = n.2;
    if row > er || row >= screen.rows {
        Seq::empty()
    } else {
        let (from, to) = selected_cols(n, row, screen.cols as int);
        let line = crate::text::trimmed_end(cells_text(screen, base + row, from, to));
        if row < er {
            line.push('\n') + rows_text(screen, n, base, row + 1)
        } else {
            line
        }
    }
}

/// The first row of a viewport that is scrolled back by `offset` rows.
pub open spec fn viewport_base(screen: Screen, offset: int) -> int {
    if offset <= screen.scrollback() {
        screen.scrollback() - offset
    } else {
        0
    }
}

/// The text that a selection covers in a viewport that is scrolled back by `offset` rows.
pub open spec fn selected_text(screen: Screen, selection: TextSelection, offset: int) -> Seq<char> {
    let n = selection.in_order();
    rows_text(screen, n, viewport_base(screen, offset), n.0 as int)
}

/// Extract plain text from a selection range on the screen.
///
/// Characters are taken directly from parsed cells, so VT formatting is inherently stripped.
/// Wide-character continuation cells are skipped. Trailing whitespace on each line is trimmed.
pub fn extract_selection_text(screen: &Screen, selection: &TextSelection) -> (r: String)
    requires
        screen.wf(),
    ensures
        r@ == selected_text(*screen, *selection, 0),
{
    extract_selection_text_at_offset(screen, selection, 0)
}

/// The text of the cells `from..to` of a row.
fn row_text(screen: &Screen, row: usize, from: usize, to: usize) -> (r: String)
    ensures
        r@ == cells_text(*screen, row as int, from as int, to as int),
{
    let mut line = String::new();
    let mut col: usize = from;
    while col < to
        invariant
            from <= col,
            col <= to || col == from,
            line@ == cells_text(*screen, row as int, from as int, col as int),
        decreases to - col,
    {
        if let Some(cell) = screen.cell_at_virtual(row, col) {
            if !cell.attrs.wide_continuation {
                line.append(cell.text.as_str());
            }
        }
        col += 1;
        assert(line@ =~= cells_text(*screen, row as int, from as int, col as int));
    }
    line
}

/// Extract plain text from a selection range in a viewport scrolled back from the live screen
/// by `scrollback_offset` rows.
pub fn extract_selection_text_at_offset(
    screen: &Screen,
    selection: &TextSelection,
    scrollback_offset: usize,
) -> (r: String)
    requires
        screen.wf(),
    ensures
        r@ == selected_text(*screen, *selection, scrollback_offset as int),
{
    let (sr, sc, er, ec) = selection.normalised();
    let ghost n = selection.in_order();
    let rows: usize = screen.rows;
    let cols: usize = screen.cols;
    let total: usize = screen.total_rows();
    let base_row: usize = screen.scrollback_len().saturating_sub(scrollback_offset);
    let mut result = String::new();
    let mut row: usize = sr;
    assert(result@ + rows_text(*screen, n, base_row as int, sr as int) =~= rows_text(
        *screen,
        n,
        base_row as int,
        sr as int,
    ));
    while row <= er && row < rows
        invariant
            screen.wf(),
            sr <= row,
            rows == screen.rows,
            cols == screen.cols,
            total == screen.lines@.len(),
            base_row <= screen.scrollback(),
            n == (sr, sc, er, ec),
            result@ + rows_text(*screen, n, base_row as int, row as int) == rows_text(
                *screen,
                n,
                base_row as int,
                sr as int,
            ),
        decreases rows - row,
    {
        let from: usize = if row == sr {
            sc
        } else {
            0
        };
        let to: usize = if row == er && ec < cols {
            ec + 1
        } else {
            cols
        };
        let ghost before = result@;
        let line = row_text(screen, base_row + row, from, to);
        let line = trim_end(line.as_str());
        result.append(line.as_str());
        if row < er {
            result.push('\n');
        }
        row += 1;
        assert(result@ + rows_text(*screen, n, base_row as int, row as int) =~= before + rows_text(
            *screen,
            n,
            base_row as int,
            row - 1,
        ));
    }
    assert(result@ + rows_text(*screen, n, base_row as int, row as int) =~= result@);
    result
}

// ── VT stripping ────────────────────────────────────────────────────────────

/// Where a control sequence ends whose parameters start at `i`: behind its final character.
pub open spec fn csi_end(s: Seq<char>, i: int) -> int
    decreases s.len() - i,
{
    if i >= s.len() {
        s.len() as int
    } else if '@' <= s[i] <= '~' {
        i + 1
    } else {
        csi_end(s, i + 1)
    }
}

/// Where a system command ends whose text starts at `i`: behind BEL, or behind ESC and a
/// backslash if one follows it.
pub open spec fn osc_end(s: Seq<char>, i: int) -> int
    decreases s.len() - i,
{
    if i >= s.len() {
        s.len() as int
    } else if s[i] == '\x07' {
        i + 1
    } else if s[i] == '\x1b' {
        if i + 1 < s.len() && s[i + 1] == '\\' {
            i + 2
        } else {
            i + 1
        }
    } else {
        osc_end(s, i + 1)
    }
}

/// Where the escape sequence that starts at `i` ends.
pub open spec fn escape_end(s: Seq<char>, i: int) -> int {
    if i + 1 >= s.len() {
        i + 1
    } else if s[i + 1] == '[' {
        csi_end(s, i + 2)
    } else if s[i + 1] == ']' {
        osc_end(s, i + 2)
    } else {
        i + 2
    }
}

/// A control sequence ends behind its start.
pub proof fn lemma_csi_end(s: Seq<char>, i: int)
    requires
        i <= s.len(),
    ensures
        i <= csi_end(s, i) <= s.len(),
    decreases s.len() - i,
{
    if i < s.len() && !('@' <= s[i] <= '~') {
        lemma_csi_end(s, i + 1);
    }
}

/// A system command ends behind its start.
pub proof fn lemma_osc_end(s: Seq<char>, i: int)
    requires
        i <= s.len(),
    ensures
        i <= osc_end(s, i) <= s.len(),
    decreases s.len() - i,
{
    if i < s.len() && s[i] != '\x07' && s[i] != '\x1b' {
        lemma_osc_end(s, i + 1);
    }
}

/// An escape sequence ends behind its start.
pub proof fn lemma_escape_end(s: Seq<char>, i: int)
    requires
        0 <= i < s.len(),
    ensures
        i < escape_end(s, i) <= s.len(),
{
    if i + 1 < s.len() {
        lemma_csi_end(s, i + 2);
        lemma_osc_end(s, i + 2);
    }
}

/// The text from `i` on without its escape sequences.
pub open spec fn stripped_from(s: Seq<char>, i: int) -> Seq<char>
    decreases s.len() - i,
{
    if i < 0 || i >= s.len() {
        Seq::empty()
    } else if s[i] != '\x1b' {
        seq![s[i]] + stripped_from(s, i + 1)
    } else if i < escape_end(s, i) <= s.len() {
        stripped_from(s, escape_end(s, i))
    } else {
        Seq::empty()
    }
}

/// Text without its escape sequences.
pub open spec fn stripped(s: Seq<char>) -> Seq<char> {
    stripped_from(s, 0)
}

/// Where a control sequence ends.
fn skip_csi(chars: &Vec<char>, start: usize) -> (r: usize)
    requires
        start <= chars@.len(),
    ensures
        r == csi_end(chars@, start as int),
        start <= r <= chars@.len(),
{
    let mut i: usize = start;
    while i < chars.len()
        invariant
            start <= i <= chars@.len(),
            csi_end(chars@, i as int) == csi_end(chars@, start as int),
        decreases chars.len() - i,
    {
        let c = chars[i];
        i += 1;
        if '@' <= c && c <= '~' {
            return i;
        }
    }
    i
}

/// Where a system command ends.
fn skip_osc(chars: &Vec<char>, start: usize) -> (r: usize)
    requires
        start <= chars@.len(),
    ensures
        r == osc_end(chars@, start as int),
        start <= r <= chars@.len(),
{
    let mut i: usize = start;
    while i < chars.len()
        invariant
            start <= i <= chars@.len(),
            osc_end(chars@, i as int) == osc_end(chars@, start as int),
        decreases chars.len() - i,
    {
        let c = chars[i];
        i += 1;
        if c == '\x07' {
            return i;
        }
        if c == '\x1b' {
            if i < chars.len() && chars[i] == '\\' {
                return i + 1;
            }
            return i;
        }
    }
    i
}

/// Strip ANSI/VT escape sequences from text.
///
/// Screen cells hold parsed characters, so this is a safety measure for edge cases where
/// literal ESC characters appear.
pub fn strip_vt(text: &str) -> (r: String)
    ensures
        r@ == stripped(text@),
{
    let chars = chars_of(text);
    let mut result = String::new();
    let mut i: usize = 0;
    assert(result@ + stripped_from(chars@, 0) =~= stripped(text@));
    while i < chars.len()
        invariant
            i <= chars@.len(),
            chars@ == text@,
            result@ + stripped_from(chars@, i as int) == stripped(text@),
        decreases chars.len() - i,
    {
        let c = chars[i];
        if c == '\x1b' {
            proof {
                lemma_escape_end(chars@, i as int);
            }
            if i + 1 >= chars.len() {
                i = i + 1;
            } else if chars[i + 1] == '[' {
                i = skip_csi(&chars, i + 2);
            } else if chars[i + 1] == ']' {
                i = skip_osc(&chars, i + 2);
            } else {
                i = i + 2;
            }
        } else {
            let ghost before = result@;
            result.push(c);
            i += 1;
            assert(result@ + stripped_from(chars@, i as int) =~= before + stripped_from(
                chars@,
                i - 1,
            ));
        }
    }
    assert(result@ + stripped_from(chars@, i as int) =~= result@);
    result
}

// ── Bracketed paste ─────────────────────────────────────────────────────────

/// Bracketed paste start marker: `ESC [ 200 ~`
pub open spec fn paste_start() -> Seq<u8> {
    seq![0x1Bu8, 0x5B, 0x32, 0x30, 0x30, 0x7E]
}

/// Bracketed paste end marker: `ESC [ 201 ~`
pub open spec fn paste_end() -> Seq<u8> {
    seq![0x1Bu8, 0x5B, 0x32, 0x30, 0x31, 0x7E]
}

/// Bytes between bracketed-paste markers.
pub open spec fn bracketed(data: Seq<u8>) -> Seq<u8> {
    paste_start() + data + paste_end()
}

/// Wrap raw bytes in bracketed-paste markers.
pub fn wrap_bracketed_paste(data: &[u8]) -> (r: Vec<u8>)
    ensures
        r@ == bracketed(data@),
{
    let mut result: Vec<u8> = vec![0x1B, 0x5B, 0x32, 0x30, 0x30, 0x7E];
    result.extend_from_slice(data);
    let end: Vec<u8> = vec![0x1B, 0x5B, 0x32, 0x30, 0x31, 0x7E];
    result.extend_from_slice(end.as_slice());
    assert(result@ =~= bracketed(data@));
    result
}

/// The bytes that pasting a text sends to a session.
pub open spec fn paste_bytes(text: Seq<char>, bracketed_paste_active: bool) -> Seq<u8> {
    if bracketed_paste_active {
        bracketed(encode_utf8(text))
    } else {
        encode_utf8(text)
    }
}

/// Prepare paste data: encode as UTF-8 bytes, optionally wrapped in bracketed-paste markers if
/// the session has asked for them.
pub fn prepare_paste(text: &str, bracketed_paste_active: bool) -> (r: Vec<u8>)
    ensures
        r@ == paste_bytes(text@, bracketed_paste_active),
{
    let bytes = text.as_bytes();
    if bracketed_paste_active {
        wrap_bracketed_paste(bytes)
    } else {
        let mut v: Vec<u8> = Vec::new();
        v.extend_from_slice(bytes);
        assert(v@ =~= bytes@);
        v
    }
}

/// Why the clipboard could not be used.
#[derive(Debug, Clone, Copy, PartialEq, Eq, Structural)]
pub enum ClipboardError {
    Open,
    SetData,
    NoText,
    Alloc,
    Lock,
}

impl ClipboardError {
    /// The message of an error.
    pub open spec fn message(self) -> Seq<char> {
        match self {
            ClipboardError::Open => "failed to open clipboard"@,
            ClipboardError::SetData => "failed to set clipboard data"@,
            ClipboardError::NoText => "clipboard does not contain text"@,
            ClipboardError::Alloc => "failed to allocate global memory"@,
            ClipboardError::Lock => "failed to lock global memory"@,
        }
    }

    /// A one-line description of the error.
    pub fn to_string(&self) -> (r: String)
        ensures
            r@ == self.message(),
    {
        match self {
            ClipboardError::Open => "failed to open clipboard".to_owned(),
            ClipboardError::SetData => "failed to set clipboard data".to_owned(),
            ClipboardError::NoText => "clipboard does not contain text".to_owned(),
            ClipboardError::Alloc => "failed to allocate global memory".to_owned(),
            ClipboardError::Lock => "failed to lock global memory".to_owned(),
        }
    }
}

// ── Laws ─────────────────────────────────────────────────────────────────────

/// Stripped text holds no ESC.
pub proof fn law_stripped_has_no_escape(s: Seq<char>, i: int)
    ensures
        !stripped_from(s, i).contains('\x1b'),
    decreases s.len() - i,
{
    if 0 <= i < s.len() {
        if s[i] != '\x1b' {
            law_stripped_has_no_escape(s, i + 1);
            let rest = stripped_from(s, i + 1);
            let t = seq![s[i]] + rest;
            assert forall|j: int| 0 <= j < t.len() implies t[j] != '\x1b' by {
                if j > 0 {
                    assert(t[j] == rest[j - 1]);
                    assert(rest.contains(rest[j - 1]));
                }
            }
        } else if i < escape_end(s, i) <= s.len() {
            law_stripped_has_no_escape(s, escape_end(s, i));
        }
    }
}

/// Text without ESC is left as it is.
pub proof fn law_plain_text_is_kept(s: Seq<char>)
    requires
        !s.contains('\x1b'),
    ensures
        stripped(s) == s,
{
    lemma_plain_from(s, 0);
    assert(s.skip(0) =~= s);
}

proof fn lemma_plain_from(s: Seq<char>, i: int)
    requires
        !s.contains('\x1b'),
        0 <= i <= s.len(),
    ensures
        stripped_from(s, i) == s.skip(i),
    decreases s.len() - i,
{
    if i < s.len() {
        assert(s.contains(s[i]));
        lemma_plain_from(s, i + 1);
        assert(seq![s[i]] + s.skip(i + 1) =~= s.skip(i));
    } else {
        assert(s.skip(i) =~= Seq::empty());
    }
}

/// Stripping twice is stripping once.
pub proof fn law_strip_is_idempotent(s: Seq<char>)
    ensures
        stripped(stripped(s)) == stripped(s),
{
    law_stripped_has_no_escape(s, 0);
    law_plain_text_is_kept(stripped(s));
}

/// What is selected does not depend on the direction in which it was selected.
pub proof fn law_selection_direction_does_not_matter(
    screen: Screen,
    selection: TextSelection,
    offset: int,
)
    ensures
        selected_text(screen, selection, offset) == selected_text(
            screen,
            selection.reversed(),
            offset,
        ),
{
}

/// The text of the cells of a row that a selection covers, among the first `cols` columns. `line` is
/// the row on the screen and in its scrollback that row `row` of the view shows.
pub open spec fn covered_text(
    screen: Screen,
    selection: TextSelection,
    line: int,
    row: int,
    cols: int,
) -> Seq<char>
    decreases cols,
{
    if cols <= 0 {
        Seq::empty()
    } else {
        let c = cols - 1;
        let before = covered_text(screen, selection, line, row, c);
        if selection.covers(row, c) && screen.has_cell(line, c) && !screen.cell(
            line,
            c,
        ).attrs.wide_continuation {
            before + screen.cell(line, c).text@
        } else {
            before
        }
    }
}

/// The lines of a text from a row up to another, each without the white space at its end, with
/// line feeds between them.
pub open spec fn covered_lines(
    screen: Screen,
    selection: TextSelection,
    base: int,
    from: int,
    to: int,
) -> Seq<char>
    decreases to - from,
{
    if from > to {
        Seq::empty()
    } else if from == to {
        crate::text::trimmed_end(
            covered_text(screen, selection, base + to, to, screen.cols as int),
        )
    } else {
        covered_lines(screen, selection, base, from, to - 1) + seq!['\n']
            + crate::text::trimmed_end(
            covered_text(screen, selection, base + to, to, screen.cols as int),
        )
    }
}

proof fn lemma_covered_text(
    screen: Screen,
    selection: TextSelection,
    line: int,
    row: int,
    cols: int,
)
    requires
        selection.in_order().0 <= row <= selection.in_order().2,
        0 <= cols <= screen.cols,
    ensures
        ({
            let (from, to) = selected_cols(selection.in_order(), row, screen.cols as int);
            covered_text(screen, selection, line, row, cols) == cells_text(
                screen,
                line,
                from,
                if cols < to {
                    cols
                } else {
                    to
                },
            )
        }),
    decreases cols,
{
    let (from, to) = selected_cols(selection.in_order(), row, screen.cols as int);
    if cols > 0 {
        let c = cols - 1;
        lemma_covered_text(screen, selection, line, row, c);
        assert(selection.covers(row, c) <==> from <= c < to);
        let all = covered_text(screen, selection, line, row, cols);
        if from <= c < to {
            assert(all =~= cells_text(screen, line, from, cols));
        }
    }
}

proof fn lemma_rows_text(
    screen: Screen,
    selection: TextSelection,
    base: int,
    from: int,
    to: int,
)
    requires
        selection.in_order().0 <= from <= to < screen.rows,
        to <= selection.in_order().2,
    ensures
        rows_text(screen, selection.in_order(), base, from) == covered_lines(
            screen,
            selection,
            base,
            from,
            to,
        ) + (if to < selection.in_order().2 {
            seq!['\n'] + rows_text(screen, selection.in_order(), base, to + 1)
        } else {
            Seq::empty()
        }),
    decreases to - from,
{
    let n = selection.in_order();
    lemma_covered_text(screen, selection, base + to, to, screen.cols as int);
    let line = crate::text::trimmed_end(
        covered_text(screen, selection, base + to, to, screen.cols as int),
    );
    let (first, end) = selected_cols(n, to, screen.cols as int);
    assert(line == crate::text::trimmed_end(cells_text(screen, base + to, first, end)));
    let rest = rows_text(screen, n, base, to + 1);
    if to < n.2 {
        assert(rows_text(screen, n, base, to) =~= line + (seq!['\n'] + rest));
    } else {
        assert(rows_text(screen, n, base, to) =~= line + Seq::<char>::empty());
    }
    if from < to {
        lemma_rows_text(screen, selection, base, from, to - 1);
        let so_far = covered_lines(screen, selection, base, from, to - 1);
        let tail = if to < n.2 {
            seq!['\n'] + rest
        } else {
            Seq::empty()
        };
        assert(so_far + (seq!['\n'] + (line + tail)) =~= so_far + seq!['\n'] + line + tail);
    }
}

/// The line that the view shows in its first row: scrolled back by no row the first of the screen,
/// and by each row the one before, up to the oldest.
pub open spec fn first_line_shown(screen: Screen, offset: int) -> int {
    if screen.rows + offset <= screen.lines@.len() {
        screen.lines@.len() - screen.rows - offset
    } else {
        0
    }
}

/// What is copied is the text of exactly the cells that the selection covers, which are those that
/// are highlighted, row by row: where the selection ends on the screen, the rows from its first to
/// its last.
pub proof fn law_copied_text_is_what_is_covered(
    screen: Screen,
    selection: TextSelection,
    offset: int,
)
    requires
        screen.wf(),
        0 <= offset,
        selection.start_row < screen.rows,
        selection.end_row < screen.rows,
    ensures
        ({
            let (first, last) = if selection.start_row <= selection.end_row {
                (selection.start_row as int, selection.end_row as int)
            } else {
                (selection.end_row as int, selection.start_row as int)
            };
            selected_text(screen, selection, offset) == covered_lines(
                screen,
                selection,
                first_line_shown(screen, offset),
                first,
                last,
            )
        }),
{
    let n = selection.in_order();
    let base = first_line_shown(screen, offset);
    lemma_rows_text(screen, selection, base, n.0 as int, n.2 as int);
    let all = covered_lines(screen, selection, base, n.0 as int, n.2 as int);
    assert(all + Seq::<char>::empty() =~= all);
}

/// Of a selection that ends below the screen, the rows down to the last of the screen are copied,
/// and a line feed for the rows below.
pub proof fn law_rows_below_the_screen_are_not_copied(
    screen: Screen,
    selection: TextSelection,
    offset: int,
)
    requires
        screen.wf(),
        0 <= offset,
    ensures
        ({
            let (first, last) = if selection.start_row <= selection.end_row {
                (selection.start_row as int, selection.end_row as int)
            } else {
                (selection.end_row as int, selection.start_row as int)
            };
            &&& first < screen.rows <= last ==> selected_text(screen, selection, offset)
                == covered_lines(
                screen,
                selection,
                first_line_shown(screen, offset),
                first,
                screen.rows - 1,
            ) + seq!['\n']
            &&& screen.rows <= first ==> selected_text(screen, selection, offset).len() == 0
        }),
{
    let n = selection.in_order();
    let base = first_line_shown(screen, offset);
    if n.0 < screen.rows <= n.2 {
        lemma_rows_text(screen, selection, base, n.0 as int, screen.rows - 1);
        assert(rows_text(screen, n, base, screen.rows as int) =~= Seq::<char>::empty());
        assert(seq!['\n'] + Seq::<char>::empty() =~= seq!['\n']);
    }
}

/// A row strictly between the first and the last of a selection is covered as a whole, the first
/// from its column on, the last up to its column, and no other row at all.
pub proof fn law_rows_between_are_covered_whole(selection: TextSelection, row: int, col: int)
    requires
        selection.start_row < selection.end_row,
        col >= 0,
    ensures
        selection.start_row < row < selection.end_row ==> selection.covers(row, col),
        row == selection.start_row ==> (selection.covers(row, col) <==> selection.start_col <= col),
        row == selection.end_row ==> (selection.covers(row, col) <==> col <= selection.end_col),
        row < selection.start_row || selection.end_row < row ==> !selection.covers(row, col),
{
}

/// A selection within one row covers the columns from its one end to its other.
pub proof fn law_one_row_is_covered_between_its_ends(selection: TextSelection, row: int, col: int)
    requires
        selection.start_row == selection.end_row,
    ensures
        selection.covers(row, col) <==> row == selection.start_row && (selection.start_col <= col
            <= selection.end_col || selection.end_col <= col <= selection.start_col),
{
}

/// Pasted text arrives as it is, in UTF-8; between the markers ESC [ 200 ~ and ESC [ 201 ~ where the
/// session has asked for them.
pub proof fn law_pasted_text_arrives(text: Seq<char>)
    ensures
        paste_bytes(text, false) == encode_utf8(text),
        ({
            let sent = paste_bytes(text, true);
            let n = encode_utf8(text).len() as int;
            &&& sent.len() == n + 12
            &&& sent.take(6) == seq![0x1Bu8, 0x5B, 0x32, 0x30, 0x30, 0x7E]
            &&& sent.subrange(6, 6 + n) == encode_utf8(text)
            &&& sent.skip(6 + n) == seq![0x1Bu8, 0x5B, 0x32, 0x30, 0x31, 0x7E]
        }),
{
    let sent = paste_bytes(text, true);
    let n = encode_utf8(text).len() as int;
    assert(sent.take(6) =~= paste_start());
    assert(sent.subrange(6, 6 + n) =~= encode_utf8(text));
    assert(sent.skip(6 + n) =~= paste_end());
}

/// An escape sequence is taken out whole, and what stands around it is kept: a control sequence up
/// to its final character, a system command up to BEL or to ESC and a backslash, and any other
/// sequence with the one character behind its ESC.
pub proof fn law_sequences_are_taken_out(before: Seq<char>, body: Seq<char>, after: Seq<char>)
    requires
        !before.contains('\x1b'),
        ({
            let k = body.len() as int;
            ||| k >= 3 && body[0] == '\x1b' && body[1] == '[' && '@' <= body[k - 1] <= '~'
                && forall|j: int| 2 <= j < k - 1 ==> !('@' <= #[trigger] body[j] <= '~')
            ||| k >= 3 && body[0] == '\x1b' && body[1] == ']' && body[k - 1] == '\x07' && forall|
                j: int,
            |
                2 <= j < k - 1 ==> #[trigger] body[j] != '\x07' && body[j] != '\x1b'
            ||| k >= 4 && body[0] == '\x1b' && body[1] == ']' && body[k - 2] == '\x1b' && body[k - 1]
                == '\\' && forall|j: int|
                2 <= j < k - 2 ==> #[trigger] body[j] != '\x07' && body[j] != '\x1b'
            ||| k == 2 && body[0] == '\x1b' && body[1] != '[' && body[1] != ']'
        }),
    ensures
        stripped(before + body + after) == before + stripped(after),
{
    let s = before + body + after;
    let n = before.len() as int;
    let k = body.len() as int;
    assert forall|j: int| 0 <= j < k implies s[n + j] == #[trigger] body[j] by {}
    assert(s[n] == body[0] && s[n + 1] == body[1]);
    if body[1] == '[' {
        assert(s[n + k - 1] == body[k - 1]);
        lemma_csi_end_is(s, n + 2, n + k - 1);
    } else if body[1] == ']' {
        if body[k - 1] == '\x07' {
            assert(s[n + k - 1] == body[k - 1]);
            lemma_osc_end_is(s, n + 2, n + k - 1);
        } else {
            assert(s[n + k - 2] == body[k - 2] && s[n + k - 1] == body[k - 1]);
            lemma_osc_end_is(s, n + 2, n + k - 2);
        }
    }
    assert(escape_end(s, n) == n + k);
    lemma_stripped_tail(s, after, n + k, 0);
    lemma_stripped_prefix(s, before, 0);
    assert(before.skip(0) =~= before);
}

proof fn lemma_csi_end_is(s: Seq<char>, i: int, end: int)
    requires
        0 <= i <= end < s.len(),
        '@' <= s[end] <= '~',
        forall|j: int| i <= j < end ==> !('@' <= #[trigger] s[j] <= '~'),
    ensures
        csi_end(s, i) == end + 1,
    decreases end - i,
{
    if i < end {
        assert(!('@' <= s[i] <= '~'));
        lemma_csi_end_is(s, i + 1, end);
    }
}

proof fn lemma_osc_end_is(s: Seq<char>, i: int, end: int)
    requires
        0 <= i <= end < s.len(),
        s[end] == '\x07' || s[end] == '\x1b',
        forall|j: int| i <= j < end ==> #[trigger] s[j] != '\x07' && s[j] != '\x1b',
    ensures
        osc_end(s, i) == (if s[end] == '\x1b' && end + 1 < s.len() && s[end + 1] == '\\' {
            end + 2
        } else {
            end + 1
        }),
    decreases end - i,
{
    if i < end {
        assert(s[i] != '\x07' && s[i] != '\x1b');
        lemma_osc_end_is(s, i + 1, end);
    }
}

proof fn lemma_ends_shift(s: Seq<char>, t: Seq<char>, d: int, i: int)
    requires
        0 <= d,
        0 <= i <= t.len(),
        s.len() == d + t.len(),
        forall|j: int| 0 <= j < t.len() ==> s[d + j] == #[trigger] t[j],
    ensures
        csi_end(s, d + i) == d + csi_end(t, i),
        osc_end(s, d + i) == d + osc_end(t, i),
    decreases t.len() - i,
{
    if i < t.len() {
        assert(s[d + i] == t[i]);
        if i + 1 < t.len() {
            assert(s[d + (i + 1)] == t[i + 1]);
        }
        lemma_ends_shift(s, t, d, i + 1);
    }
}

proof fn lemma_stripped_tail(s: Seq<char>, t: Seq<char>, d: int, i: int)
    requires
        0 <= d,
        0 <= i <= t.len(),
        s.len() == d + t.len(),
        forall|j: int| 0 <= j < t.len() ==> s[d + j] == #[trigger] t[j],
    ensures
        stripped_from(s, d + i) == stripped_from(t, i),
    decreases t.len() - i,
{
    if i < t.len() {
        assert(s[d + i] == t[i]);
        if t[i] != '\x1b' {
            lemma_stripped_tail(s, t, d, i + 1);
        } else {
            if i + 1 < t.len() {
                assert(s[d + (i + 1)] == t[i + 1]);
                lemma_ends_shift(s, t, d, i + 2);
            }
            lemma_escape_end(t, i);
            assert(escape_end(s, d + i) == d + escape_end(t, i));
            lemma_stripped_tail(s, t, d, escape_end(t, i));
        }
    }
}

proof fn lemma_stripped_prefix(s: Seq<char>, before: Seq<char>, i: int)
    requires
        !before.contains('\x1b'),
        0 <= i <= before.len() <= s.len(),
        forall|j: int| 0 <= j < before.len() ==> s[j] == #[trigger] before[j],
        before.len() < s.len() ==> s[before.len() as int] == '\x1b' && before.len() < escape_end(
            s,
            before.len() as int,
        ) <= s.len(),
    ensures
        stripped_from(s, i) == before.skip(i) + (if before.len() < s.len() {
            stripped_from(s, escape_end(s, before.len() as int))
        } else {
            Seq::empty()
        }),
    decreases before.len() - i,
{
    let rest = if before.len() < s.len() {
        stripped_from(s, escape_end(s, before.len() as int))
    } else {
        Seq::empty()
    };
    if i < before.len() {
        assert(s[i] == before[i]);
        assert(before.contains(before[i]));
        lemma_stripped_prefix(s, before, i + 1);
        assert(seq![s[i]] + (before.skip(i + 1) + rest) =~= before.skip(i) + rest);
    } else {
        assert(before.skip(i) + rest =~= rest);
    }
}

/// A sequence that the text breaks off in is taken out to the end of the text, and so is an ESC that
/// ends it.
pub proof fn law_broken_sequences_are_taken_out(before: Seq<char>, body: Seq<char>)
    requires
        !before.contains('\x1b'),
        body.len() >= 1,
        body[0] == '\x1b',
        ({
            let k = body.len() as int;
            ||| k == 1
            ||| k >= 2 && body[1] == '[' && forall|j: int|
                2 <= j < k ==> !('@' <= #[trigger] body[j] <= '~')
            ||| k >= 2 && body[1] == ']' && forall|j: int|
                2 <= j < k ==> #[trigger] body[j] != '\x07' && body[j] != '\x1b'
        }),
    ensures
        stripped(before + body) == before,
{
    let s = before + body;
    let n = before.len() as int;
    let k = body.len() as int;
    assert forall|j: int| 0 <= j < k implies s[n + j] == #[trigger] body[j] by {}
    assert(s[n + 0] == body[0]);
    if k >= 2 {
        assert(s[n + 1] == body[1]);
        if body[1] == '[' {
            assert forall|j: int| n + 2 <= j < s.len() implies !('@' <= #[trigger] s[j] <= '~') by {
                assert(s[j] == body[j - n]);
            }
            lemma_csi_unended(s, n + 2);
        } else {
            assert forall|j: int| n + 2 <= j < s.len() implies #[trigger] s[j] != '\x07' && s[j]
                != '\x1b' by {
                assert(s[j] == body[j - n]);
            }
            lemma_osc_unended(s, n + 2);
        }
    }
    lemma_stripped_prefix(s, before, 0);
    assert(before.skip(0) =~= before);
    assert(before + Seq::<char>::empty() =~= before);
}

proof fn lemma_csi_unended(s: Seq<char>, i: int)
    requires
        0 <= i <= s.len(),
        forall|j: int| i <= j < s.len() ==> !('@' <= #[trigger] s[j] <= '~'),
    ensures
        csi_end(s, i) == s.len(),
    decreases s.len() - i,
{
    if i < s.len() {
        assert(!('@' <= s[i] <= '~'));
        lemma_csi_unended(s, i + 1);
    }
}

proof fn lemma_osc_unended(s: Seq<char>, i: int)
    requires
        0 <= i <= s.len(),
        forall|j: int| i <= j < s.len() ==> #[trigger] s[j] != '\x07' && s[j] != '\x1b',
    ensures
        osc_end(s, i) == s.len(),
    decreases s.len() - i,
{
    if i < s.len() {
        assert(s[i] != '\x07' && s[i] != '\x1b');
        lemma_osc_unended(s, i + 1);
    }
}

} // verus!
