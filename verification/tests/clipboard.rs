use wtd_ui::clipboard::{
    extract_selection_text, extract_selection_text_at_offset, prepare_paste, strip_vt,
    wrap_bracketed_paste, ClipboardError,
};
use wtd_ui::renderer::TextSelection;
use wtd_ui::screen::{Cell, CellAttrs, Color, MouseMode, Screen};

fn cell(c: char) -> Cell {
    Cell {
        text: c.to_string(),
        fg: Color::Default,
        bg: Color::Default,
        attrs: CellAttrs::default(),
    }
}

/// A screen on which lines were printed.
fn printed(cols: usize, rows: usize, texts: &[&str]) -> Screen {
    let mut lines: Vec<Vec<Cell>> = vec![];
    for i in 0..texts.len().max(rows) {
        let text = if i < texts.len() { texts[i] } else { "" };
        let mut cells: Vec<Cell> = text.chars().map(cell).collect();
        while cells.len() < cols {
            cells.push(cell(' '));
        }
        lines.push(cells);
    }
    Screen {
        cols,
        rows,
        lines,
        cursor_row: 0,
        cursor_col: 0,
        cursor_visible: true,
        alternate: false,
        bracketed_paste: false,
        mouse_mode: MouseMode::Off,
        sgr_mouse: false,
    }
}

// ── strip_vt ────────────────────────────────────────────────────────

#[test]
fn strip_vt_plain_text_unchanged() {
    assert_eq!(strip_vt("hello world"), "hello world");
}

#[test]
fn strip_vt_removes_csi_sgr() {
    // Bold red text: ESC[1;31m hello ESC[0m
    assert_eq!(strip_vt("\x1b[1;31mhello\x1b[0m"), "hello");
}

#[test]
fn strip_vt_removes_cursor_movement() {
    // CSI 5;10H (cursor position)
    assert_eq!(strip_vt("\x1b[5;10Hworld"), "world");
}

#[test]
fn strip_vt_removes_osc_bel() {
    // OSC 0 ; title BEL
    assert_eq!(strip_vt("\x1b]0;my title\x07rest"), "rest");
}

#[test]
fn strip_vt_removes_osc_st() {
    // OSC 2 ; title ST (ESC \)
    assert_eq!(strip_vt("\x1b]2;my title\x1b\\rest"), "rest");
}

#[test]
fn strip_vt_removes_simple_esc() {
    // DECSC = ESC 7
    assert_eq!(strip_vt("\x1b7hello"), "hello");
}

#[test]
fn strip_vt_mixed_sequences() {
    let input = "\x1b[1mBold\x1b[0m \x1b]0;title\x07normal \x1b[31mred\x1b[0m";
    assert_eq!(strip_vt(input), "Bold normal red");
}

#[test]
fn strip_vt_preserves_newlines() {
    assert_eq!(strip_vt("line1\nline2\n"), "line1\nline2\n");
}

#[test]
fn strip_vt_empty_string() {
    assert_eq!(strip_vt(""), "");
}

#[test]
fn strip_vt_trailing_esc() {
    // Lone ESC at end of string.
    assert_eq!(strip_vt("text\x1b"), "text");
}

// ── bracketed paste ─────────────────────────────────────────────────

#[test]
fn wrap_bracketed_paste_wraps_correctly() {
    let data = b"hello world";
    let result = wrap_bracketed_paste(data);
    assert_eq!(result, b"\x1b[200~hello world\x1b[201~");
}

#[test]
fn prepare_paste_without_bracketed() {
    let result = prepare_paste("hello", false);
    assert_eq!(result, b"hello");
}

#[test]
fn prepare_paste_with_bracketed() {
    let result = prepare_paste("hello", true);
    assert_eq!(result, b"\x1b[200~hello\x1b[201~");
}

#[test]
fn prepare_paste_empty_string() {
    let result = prepare_paste("", true);
    assert_eq!(result, b"\x1b[200~\x1b[201~");
}

// ── extract_selection_text ──────────────────────────────────────────

#[test]
fn extract_single_row_selection() {
    let screen = printed(20, 5, &["Hello, world!"]);
    let sel = TextSelection {
        start_row: 0,
        start_col: 0,
        end_row: 0,
        end_col: 4,
    };
    assert_eq!(extract_selection_text(&screen, &sel), "Hello");
}

#[test]
fn extract_multi_row_selection() {
    let screen = printed(10, 5, &["AAAAAAAAAA", "BBBBBBBBBB"]);
    let sel = TextSelection {
        start_row: 0,
        start_col: 3,
        end_row: 1,
        end_col: 2,
    };
    let text = extract_selection_text(&screen, &sel);
    assert_eq!(text, "AAAAAAA\nBBB");
}

#[test]
fn extract_trims_trailing_whitespace() {
    let screen = printed(20, 5, &["Hi"]);
    let sel = TextSelection {
        start_row: 0,
        start_col: 0,
        end_row: 0,
        end_col: 19,
    };
    assert_eq!(extract_selection_text(&screen, &sel), "Hi");
}

#[test]
fn extract_reversed_selection() {
    let screen = printed(20, 5, &["Hello, world!"]);
    // Selection is end-before-start; normalised() handles it.
    let sel = TextSelection {
        start_row: 0,
        start_col: 4,
        end_row: 0,
        end_col: 0,
    };
    assert_eq!(extract_selection_text(&screen, &sel), "Hello");
}

#[test]
fn extract_empty_screen() {
    let screen = printed(10, 5, &[]);
    let sel = TextSelection {
        start_row: 0,
        start_col: 0,
        end_row: 0,
        end_col: 9,
    };
    // All spaces, trimmed to empty.
    assert_eq!(extract_selection_text(&screen, &sel), "");
}

#[test]
fn extract_selection_past_screen_bounds() {
    let screen = printed(10, 3, &["ABC"]);
    let sel = TextSelection {
        start_row: 0,
        start_col: 0,
        end_row: 10, // way past the screen
        end_col: 5,
    };
    let text = extract_selection_text(&screen, &sel);
    // Should get row 0 (ABC), rows 1-2 (empty, trimmed), and stop at row 3.
    assert!(text.starts_with("ABC"));
}

#[test]
fn extract_selection_from_scrollback_offset() {
    let screen = printed(5, 2, &["11111", "22222", "33333", ""]);
    let sel = TextSelection {
        start_row: 0,
        start_col: 0,
        end_row: 1,
        end_col: 4,
    };
    assert_eq!(
        extract_selection_text_at_offset(&screen, &sel, 1),
        "22222\n33333"
    );
}

#[test]
fn extract_joins_the_halves_of_wide_characters() {
    let mut screen = printed(6, 1, &["漢 x"]);
    screen.lines[0][0].attrs.wide = true;
    screen.lines[0][1].attrs.wide_continuation = true;
    screen.lines[0][1].text = String::new();
    let sel = TextSelection { start_row: 0, start_col: 0, end_row: 0, end_col: 2 };
    assert_eq!(extract_selection_text(&screen, &sel), "漢x");
}

#[test]
fn stripping_twice_changes_nothing() {
    let once = strip_vt("\x1b[1ma\x1b]0;t\x07b\x1b7c");
    assert_eq!(once, "abc");
    assert_eq!(strip_vt(&once), once);
}

#[test]
fn clipboard_errors_say_what_failed() {
    assert_eq!(ClipboardError::Open.to_string(), "failed to open clipboard");
    assert_eq!(ClipboardError::SetData.to_string(), "failed to set clipboard data");
    assert_eq!(ClipboardError::NoText.to_string(), "clipboard does not contain text");
    assert_eq!(ClipboardError::Alloc.to_string(), "failed to allocate global memory");
    assert_eq!(ClipboardError::Lock.to_string(), "failed to lock global memory");
}
