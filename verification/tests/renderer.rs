use wtd_ui::renderer::{
    attrs_same_format, background_runs, cell_display_cols, color_to_rgb, cursor_is_painted,
    exited_pane_message, failed_pane_message, resolve_cell_colors, selection_spans, text_runs,
    BackgroundRun, Span, TextSelection, DEFAULT_BG, DEFAULT_FG, RESTART_HINT,
};
use wtd_ui::screen::{Cell, CellAttrs, Color, MouseMode, Screen};

#[test]
fn color_to_rgb_default_fg() {
    assert_eq!(color_to_rgb(&Color::Default, true), DEFAULT_FG);
}

#[test]
fn color_to_rgb_default_bg() {
    assert_eq!(color_to_rgb(&Color::Default, false), DEFAULT_BG);
}

#[test]
fn color_to_rgb_ansi() {
    // Red
    assert_eq!(color_to_rgb(&Color::Ansi(1), true), (170, 0, 0));
    // Green
    assert_eq!(color_to_rgb(&Color::Ansi(2), true), (0, 170, 0));
}

#[test]
fn color_to_rgb_ansi_bright() {
    // Bright red
    assert_eq!(color_to_rgb(&Color::AnsiBright(1), true), (255, 85, 85));
    // Bright white
    assert_eq!(color_to_rgb(&Color::AnsiBright(7), true), (255, 255, 255));
}

#[test]
fn color_to_rgb_indexed_palette() {
    // Index 0 = black
    assert_eq!(color_to_rgb(&Color::Indexed(0), true), (0, 0, 0));
    // Index 15 = bright white
    assert_eq!(color_to_rgb(&Color::Indexed(15), true), (255, 255, 255));
}

#[test]
fn color_to_rgb_indexed_cube() {
    // Index 16 = (0,0,0) in cube
    assert_eq!(color_to_rgb(&Color::Indexed(16), true), (0, 0, 0));
    // Index 196 = (5,0,0) = (255,0,0) in cube
    // 196 - 16 = 180 => r=180/36=5, g=0, b=0
    assert_eq!(color_to_rgb(&Color::Indexed(196), true), (255, 0, 0));
}

#[test]
fn color_to_rgb_indexed_grayscale() {
    // Index 232 = darkest gray
    assert_eq!(color_to_rgb(&Color::Indexed(232), true), (8, 8, 8));
    // Index 255 = lightest gray
    assert_eq!(color_to_rgb(&Color::Indexed(255), true), (238, 238, 238));
}

#[test]
fn color_to_rgb_truecolor() {
    assert_eq!(
        color_to_rgb(&Color::Rgb(42, 128, 255), true),
        (42, 128, 255)
    );
}

#[test]
fn resolve_colors_normal_cell() {
    let cell = Cell {
        text: "A".to_string(),
        fg: Color::Ansi(1),
        bg: Color::Default,
        attrs: CellAttrs::default(),
    };
    let (fg, bg) = resolve_cell_colors(&cell);
    assert_eq!(fg, (170, 0, 0));
    assert_eq!(bg, DEFAULT_BG);
}

#[test]
fn resolve_colors_inverse() {
    let mut attrs = CellAttrs::default();
    attrs.inverse = true;
    let cell = Cell {
        text: "A".to_string(),
        fg: Color::Ansi(1),
        bg: Color::Ansi(2),
        attrs,
    };
    let (fg, bg) = resolve_cell_colors(&cell);
    // Swapped
    assert_eq!(fg, (0, 170, 0)); // was bg
    assert_eq!(bg, (170, 0, 0)); // was fg
}

#[test]
fn resolve_colors_dim() {
    let mut attrs = CellAttrs::default();
    attrs.dim = true;
    let cell = Cell {
        text: "A".to_string(),
        fg: Color::Rgb(200, 100, 50),
        bg: Color::Default,
        attrs,
    };
    let (fg, _bg) = resolve_cell_colors(&cell);
    assert_eq!(fg, (100, 50, 25));
}

#[test]
fn exited_pane_message_format() {
    assert_eq!(exited_pane_message(0), "Session exited (code 0)");
    assert_eq!(exited_pane_message(1), "Session exited (code 1)");
    assert_eq!(exited_pane_message(255), "Session exited (code 255)");
}

#[test]
fn failed_pane_message_format() {
    assert_eq!(
        failed_pane_message("CreateProcess failed"),
        "Session failed: CreateProcess failed"
    );
    assert_eq!(
        failed_pane_message("profile not found"),
        "Session failed: profile not found"
    );
}

#[test]
fn restart_hint_contains_keybinding() {
    assert!(RESTART_HINT.contains("Enter"));
    assert!(RESTART_HINT.contains("Ctrl+B"));
}

// ── Runs ────────────────────────────────────────────────────────────────────

fn cell(text: &str) -> Cell {
    Cell {
        text: text.to_string(),
        fg: Color::Default,
        bg: Color::Default,
        attrs: CellAttrs::default(),
    }
}

fn one_row(cells: Vec<Cell>) -> Screen {
    Screen {
        cols: cells.len(),
        rows: 1,
        lines: vec![cells],
        cursor_row: 0,
        cursor_col: 0,
        cursor_visible: true,
        alternate: false,
        bracketed_paste: false,
        mouse_mode: MouseMode::Off,
        sgr_mouse: false,
    }
}

#[test]
fn backgrounds_are_painted_in_runs() {
    let mut cells: Vec<Cell> = (0..6).map(|_| cell(" ")).collect();
    cells[1].bg = Color::Ansi(1);
    cells[2].bg = Color::Ansi(1);
    cells[3].bg = Color::Ansi(2);
    let screen = one_row(cells);
    assert_eq!(
        background_runs(&screen, 0, 6),
        vec![
            BackgroundRun { start: 1, end: 3, color: (170, 0, 0) },
            BackgroundRun { start: 3, end: 4, color: (0, 170, 0) },
        ]
    );
    assert!(background_runs(&screen, 1, 6).is_empty());
}

#[test]
fn text_is_painted_in_runs_of_one_format() {
    let mut cells = vec![cell("a"), cell("b"), cell(" "), cell("c"), cell("漢"), cell("")];
    cells[3].attrs.bold = true;
    cells[4].attrs.bold = true;
    cells[4].attrs.wide = true;
    cells[5].attrs.wide_continuation = true;
    let runs = text_runs(&one_row(cells), 0, 6);
    assert_eq!(runs.len(), 2);
    assert_eq!((runs[0].start, runs[0].width, runs[0].text.as_str()), (0, 3, "ab "));
    assert!(!runs[0].bold);
    assert_eq!((runs[1].start, runs[1].width, runs[1].text.as_str()), (3, 3, "c漢"));
    assert!(runs[1].bold);
}

#[test]
fn wide_cells_take_two_columns() {
    let mut wide = cell("漢");
    wide.attrs.wide = true;
    assert_eq!(cell_display_cols(&wide), 2);
    assert_eq!(cell_display_cols(&cell("a")), 1);
}

#[test]
fn formats_differ_in_weight_and_slant_only() {
    let plain = CellAttrs::default();
    let dim = CellAttrs { dim: true, ..plain };
    let italic = CellAttrs { italic: true, ..plain };
    assert!(attrs_same_format(&plain, &dim));
    assert!(!attrs_same_format(&plain, &italic));
}

#[test]
fn selections_are_highlighted_row_by_row() {
    let sel = TextSelection { start_row: 2, start_col: 1, end_row: 0, end_col: 3 };
    assert_eq!(sel.normalised(), (0, 3, 2, 1));
    assert_eq!(
        selection_spans(&sel, 5, 8),
        vec![
            Span { row: 0, start: 3, end: 8 },
            Span { row: 1, start: 0, end: 8 },
            Span { row: 2, start: 0, end: 2 },
        ]
    );
    assert!(sel.contains(1, 0) && sel.contains(2, 1) && !sel.contains(2, 2) && !sel.contains(0, 2));
}

#[test]
fn the_cursor_is_painted_on_the_live_screen() {
    let mut screen = one_row(vec![cell("a"), cell("b")]);
    assert!(cursor_is_painted(&screen, 0, 1, 2));
    assert!(!cursor_is_painted(&screen, 1, 1, 2));
    screen.cursor_col = 2;
    assert!(!cursor_is_painted(&screen, 0, 1, 2));
}
