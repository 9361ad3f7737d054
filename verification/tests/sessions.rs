use wtd_ui::arguments::{parse_workspace_from_args, wtd_data_dir};
use wtd_ui::attention::{
    attention_count, clear_focused_attention, focus_attention_target, focus_aware_attention_state,
    focused_pane_attention, focused_pane_matches_host_id, focused_pane_title,
    next_attention_target, notification_center_label, pane_metadata_summary, pane_short_name,
    PaneListFilter,
};
use wtd_ui::bindings::{ActionReference, BindingsDefinition};
use wtd_ui::clipboard::extract_selection_text;
use wtd_ui::find::{
    apply_find_match, find_matches, navigate_find, next_find_index, occurrences, start_find,
    virtual_row_text, FindMatch, FindState,
};
use wtd_ui::host_events::{session_status_for, workspace_state_closes_ui};
use wtd_ui::input::{InputClassifier, KeyEvent, KeyName, Modifiers};
use wtd_ui::input_routing::bound_action_name;
use wtd_ui::mouse_handler::MouseHandler;
use wtd_ui::output::should_coalesce_primary_screen_output;
use wtd_ui::panes::{AttentionState, LiveTab, PaneId, PaneSession, ProgressInfo, ProgressState};
use wtd_ui::pass_through::{text_input_bytes, PassThroughNextKeyState};
use wtd_ui::profiles::{
    builtin_profile_entries, insert_profile_entry, profile_kind, should_prompt_for_profile,
    show_profile_selector_for_action, workspace_profile_entries, GlobalProfiles, ProfileType,
    WorkspaceProfiles,
};
use wtd_ui::renderer::TextSelection;
use wtd_ui::screen::{Cell, CellAttrs, Color, MouseMode, Screen};
use wtd_ui::selection::{
    activate_keyboard_mark_mode, clamp_selection_position, move_keyboard_selection,
    navigate_focused_scrollback, scrollback_navigation_for_action, select_all_focused_pane,
    KeyboardSelectionState, ScrollbackNavigation,
};
use wtd_ui::snapshot::TabLayout;
use wtd_ui::status_bar::{SessionStatus, StatusBar};
use wtd_ui::tab_strip::TabStrip;
use wtd_ui::tabs::{
    apply_tab_layout, compose_window_title, find_pane_for_session, focused_pane_name,
    pane_has_mouse_reporting, pane_host_target, pane_overlay_label, pane_resizes,
    pane_sessions_match_sizes,
    pane_target, paste_bytes_for_pane, prepare_pane_for_live_input, refresh_mouse_modes,
    sync_screen_buffers_to_sizes, sync_tab_progresses, tab_index_for_host_name, tab_progress,
    ScreenChange,
};

// ── Screens ─────────────────────────────────────────────────────────────────

fn cell(c: char) -> Cell {
    Cell {
        text: c.to_string(),
        fg: Color::Default,
        bg: Color::Default,
        attrs: CellAttrs::default(),
    }
}

fn line(cols: usize, text: &str) -> Vec<Cell> {
    let mut cells: Vec<Cell> = text.chars().map(cell).collect();
    while cells.len() < cols {
        cells.push(cell(' '));
    }
    cells
}

/// A screen on which lines were printed, with the cursor behind the last.
fn printed(cols: usize, rows: usize, lines: &[&str]) -> Screen {
    let mut all: Vec<Vec<Cell>> = lines.iter().map(|l| line(cols, l)).collect();
    let cursor_row = if all.len() < rows { all.len() - 1 } else { rows - 1 };
    while all.len() < rows {
        all.push(line(cols, ""));
    }
    Screen {
        cols,
        rows,
        lines: all,
        cursor_row,
        cursor_col: lines[lines.len() - 1].chars().count(),
        cursor_visible: true,
        alternate: false,
        bracketed_paste: false,
        mouse_mode: MouseMode::Off,
        sgr_mouse: false,
    }
}

const PANE: PaneId = PaneId(1);

fn tab_with(screen: Screen) -> LiveTab {
    LiveTab {
        focus: PANE,
        panes: vec![PANE],
        pane_sessions: vec![],
        screens: vec![(PANE, screen)],
    }
}

fn press(key: KeyName) -> KeyEvent {
    KeyEvent { key, modifiers: Modifiers::none(), character: None }
}

// ── Bindings ────────────────────────────────────────────────────────────────

#[test]
fn a_bound_key_has_the_name_of_its_action() {
    let bindings = BindingsDefinition {
        prefix: None,
        prefix_timeout: None,
        chords: None,
        keys: Some(vec![
            (
                "Ctrl+Shift+P".to_string(),
                ActionReference::Simple("toggle-command-palette".to_string()),
            ),
            (
                "Alt+Shift+K".to_string(),
                ActionReference::Simple("pass-through-next-key".to_string()),
            ),
        ]),
    };
    let classifier = InputClassifier::from_bindings(&bindings).unwrap();
    let event = |key, modifiers| KeyEvent { key, modifiers, character: None };
    assert_eq!(
        bound_action_name(
            &classifier,
            &event(KeyName::Char('P'), Modifiers::ctrl_key() | Modifiers::shift_key())
        )
        .as_deref(),
        Some("toggle-command-palette")
    );
    assert_eq!(
        bound_action_name(
            &classifier,
            &event(KeyName::Char('K'), Modifiers::alt_key() | Modifiers::shift_key())
        )
        .as_deref(),
        Some("pass-through-next-key")
    );
    assert_eq!(
        bound_action_name(
            &classifier,
            &event(KeyName::Space, Modifiers::ctrl_key() | Modifiers::shift_key())
        ),
        None
    );
}

// ── Workspace state ─────────────────────────────────────────────────────────

#[test]
fn workspace_state_closes_ui_for_terminal_states() {
    for state in [
        "closing",
        "closed",
        "stopping",
        "stopped",
        "exited",
        "terminating",
        "terminated",
        "CLOSING",
    ] {
        assert!(
            workspace_state_closes_ui(state),
            "expected terminal state '{state}' to close the UI"
        );
    }
}

#[test]
fn workspace_state_keeps_ui_open_for_non_terminal_states() {
    for state in ["active", "running", "failed", "restarting", "created"] {
        assert!(
            !workspace_state_closes_ui(state),
            "expected non-terminal state '{state}' to keep the UI open"
        );
    }
}

#[test]
fn session_states_have_a_status() {
    assert_eq!(session_status_for("running", None), SessionStatus::Running);
    assert_eq!(
        session_status_for("exited", Some(3)),
        SessionStatus::Exited { exit_code: 3 }
    );
    assert!(matches!(session_status_for("failed", None), SessionStatus::Failed { .. }));
}

// ── Arguments ───────────────────────────────────────────────────────────────

#[test]
fn parse_workspace_from_long_equals() {
    let args = vec![
        "wtd-ui".to_string(),
        "--workspace=test-workspace".to_string(),
    ];
    assert_eq!(
        parse_workspace_from_args(&args, Some("ignored".to_string())),
        Some("test-workspace".to_string())
    );
}

#[test]
fn parse_workspace_from_short_equals() {
    let args = vec!["wtd-ui".to_string(), "-w=test-workspace".to_string()];
    assert_eq!(
        parse_workspace_from_args(&args, Some("ignored".to_string())),
        Some("test-workspace".to_string())
    );
}

#[test]
fn parse_workspace_from_short_and_next() {
    let args = vec![
        "wtd-ui".to_string(),
        "-w".to_string(),
        "next-workspace".to_string(),
    ];
    assert_eq!(
        parse_workspace_from_args(&args, None),
        Some("next-workspace".to_string())
    );
}

#[test]
fn parse_workspace_from_positional_then_env() {
    let args = vec!["wtd-ui".to_string(), "positional-workspace".to_string()];
    assert_eq!(
        parse_workspace_from_args(&args, Some("env-workspace".to_string())),
        Some("positional-workspace".to_string())
    );
}

#[test]
fn parse_workspace_from_env_when_none() {
    let args = vec!["wtd-ui".to_string()];
    assert_eq!(
        parse_workspace_from_args(&args, Some("env-workspace".to_string())),
        Some("env-workspace".to_string())
    );
}

#[test]
fn no_workspace_is_named() {
    assert_eq!(parse_workspace_from_args(&vec!["wtd-ui".to_string()], None), None);
}

#[test]
fn settings_are_in_the_first_directory_that_is_known() {
    let some = |s: &str| Some(s.to_string());
    assert_eq!(
        wtd_data_dir(some("D:\\data"), some("A"), some("H")),
        ("D:\\data".to_string(), false)
    );
    assert_eq!(wtd_data_dir(None, some("A"), some("H")), ("A".to_string(), true));
    assert_eq!(
        wtd_data_dir(None, None, some("H")),
        ("H\\AppData\\Roaming".to_string(), true)
    );
    assert_eq!(
        wtd_data_dir(None, None, None),
        (".\\AppData\\Roaming".to_string(), true)
    );
}

// ── Output ──────────────────────────────────────────────────────────────────

#[test]
fn clear_heavy_primary_screen_output_is_coalesced() {
    assert!(should_coalesce_primary_screen_output(
        b"\x1B[2J\x1B[H\x1B[12;3Hhello"
    ));
}

#[test]
fn plain_shell_output_is_not_coalesced() {
    assert!(!should_coalesce_primary_screen_output(
        b"PS C:\\Users\\me> dir\r\n"
    ));
}

// ── Paste ───────────────────────────────────────────────────────────────────

#[test]
fn paste_bytes_for_pane_wraps_when_bracketed_paste_enabled() {
    let mut screen = printed(80, 24, &[""]);
    screen.bracketed_paste = true;
    let bytes = paste_bytes_for_pane(&tab_with(screen), PANE, "hello");
    assert_eq!(bytes, b"\x1b[200~hello\x1b[201~");
}

#[test]
fn paste_bytes_for_pane_is_plain_when_bracketed_paste_disabled() {
    let bytes = paste_bytes_for_pane(&tab_with(printed(80, 24, &[""])), PANE, "hello");
    assert_eq!(bytes, b"hello");
}

// ── Scrollback and selections ───────────────────────────────────────────────

/// A pane in which twenty lines were printed.
fn scrollback_test_tab(rows: usize) -> (LiveTab, PaneId) {
    let texts: Vec<String> = (0..20).map(|n| format!("line {n}")).collect();
    let mut lines: Vec<&str> = texts.iter().map(|s| s.as_str()).collect();
    lines.push("");
    (tab_with(printed(80, rows, &lines)), PANE)
}

#[test]
fn scrollback_navigation_moves_line_page_and_edges() {
    let (tab, pane_id) = scrollback_test_tab(5);
    let max_scrollback = tab.screen(pane_id).unwrap().scrollback_len() as i32;
    assert!(max_scrollback > 4);
    let mut mouse_handler = MouseHandler::new();

    assert!(navigate_focused_scrollback(
        &tab,
        &mut mouse_handler,
        ScrollbackNavigation::LineUp
    ));
    assert_eq!(mouse_handler.scroll_offset(&pane_id), 1);

    assert!(navigate_focused_scrollback(
        &tab,
        &mut mouse_handler,
        ScrollbackNavigation::PageUp
    ));
    assert_eq!(mouse_handler.scroll_offset(&pane_id), 5);

    assert!(navigate_focused_scrollback(
        &tab,
        &mut mouse_handler,
        ScrollbackNavigation::Top
    ));
    assert_eq!(mouse_handler.scroll_offset(&pane_id), max_scrollback);

    assert!(navigate_focused_scrollback(
        &tab,
        &mut mouse_handler,
        ScrollbackNavigation::PageDown
    ));
    assert_eq!(mouse_handler.scroll_offset(&pane_id), max_scrollback - 4);

    assert!(navigate_focused_scrollback(
        &tab,
        &mut mouse_handler,
        ScrollbackNavigation::LineDown
    ));
    assert_eq!(mouse_handler.scroll_offset(&pane_id), max_scrollback - 5);

    assert!(navigate_focused_scrollback(
        &tab,
        &mut mouse_handler,
        ScrollbackNavigation::Bottom
    ));
    assert_eq!(mouse_handler.scroll_offset(&pane_id), 0);
}

#[test]
fn scrollback_navigation_ignores_alternate_screen() {
    let (mut tab, pane_id) = scrollback_test_tab(5);
    tab.screens[0].1.alternate = true;
    let mut mouse_handler = MouseHandler::new();

    assert!(navigate_focused_scrollback(
        &tab,
        &mut mouse_handler,
        ScrollbackNavigation::Top
    ));
    assert_eq!(mouse_handler.scroll_offset(&pane_id), 0);
}

#[test]
fn scrollback_actions_are_known_by_name() {
    assert_eq!(
        scrollback_navigation_for_action("scrollback-page-up"),
        Some(ScrollbackNavigation::PageUp)
    );
    assert_eq!(
        scrollback_navigation_for_action("scrollback-bottom"),
        Some(ScrollbackNavigation::Bottom)
    );
    assert_eq!(scrollback_navigation_for_action("copy"), None);
}

#[test]
fn keyboard_mark_mode_moves_endpoint_and_switches_endpoint() {
    let (tab, pane_id) = scrollback_test_tab(5);
    let mut mouse_handler = MouseHandler::new();
    let mut keyboard_selection = KeyboardSelectionState::default();

    assert!(activate_keyboard_mark_mode(
        &tab,
        &mut mouse_handler,
        &mut keyboard_selection
    ));
    assert!(keyboard_selection.active);
    assert_eq!(
        mouse_handler.selection(&pane_id),
        Some(TextSelection {
            start_row: 4,
            start_col: 0,
            end_row: 4,
            end_col: 0,
        })
    );

    let right = press(KeyName::Right);
    assert!(move_keyboard_selection(
        &tab,
        &mut mouse_handler,
        &mut keyboard_selection,
        &right
    ));
    assert_eq!(
        mouse_handler.selection(&pane_id),
        Some(TextSelection {
            start_row: 4,
            start_col: 0,
            end_row: 4,
            end_col: 1,
        })
    );

    keyboard_selection.switch_endpoint();
    let up = press(KeyName::Up);
    assert!(move_keyboard_selection(
        &tab,
        &mut mouse_handler,
        &mut keyboard_selection,
        &up
    ));
    assert_eq!(
        mouse_handler.selection(&pane_id),
        Some(TextSelection {
            start_row: 3,
            start_col: 0,
            end_row: 4,
            end_col: 1,
        })
    );
}

#[test]
fn select_all_focused_pane_selects_viewport_and_copy_extracts_text() {
    let tab = tab_with(printed(8, 2, &["alpha", "beta"]));
    let mut mouse_handler = MouseHandler::new();
    let mut keyboard_selection = KeyboardSelectionState::default();

    assert!(select_all_focused_pane(
        &tab,
        &mut mouse_handler,
        &mut keyboard_selection
    ));
    let selection = mouse_handler.selection(&PANE).expect("selection");
    assert_eq!(
        selection,
        TextSelection {
            start_row: 0,
            start_col: 0,
            end_row: 1,
            end_col: 7,
        }
    );
    let text = extract_selection_text(tab.screen(PANE).unwrap(), &selection);
    assert!(text.contains("alpha"));
    assert!(text.contains("beta"));
}

#[test]
fn keyboard_selection_survives_scrollback_movement() {
    let (tab, pane_id) = scrollback_test_tab(5);
    let mut mouse_handler = MouseHandler::new();
    let mut keyboard_selection = KeyboardSelectionState::default();

    select_all_focused_pane(&tab, &mut mouse_handler, &mut keyboard_selection);
    let before = mouse_handler.selection(&pane_id);
    navigate_focused_scrollback(&tab, &mut mouse_handler, ScrollbackNavigation::PageUp);

    assert_eq!(mouse_handler.selection(&pane_id), before);
    assert!(mouse_handler.scroll_offset(&pane_id) > 0);
}

#[test]
fn keyboard_mark_mode_exits_on_escape_without_clearing_selection() {
    let (tab, pane_id) = scrollback_test_tab(5);
    let mut mouse_handler = MouseHandler::new();
    let mut keyboard_selection = KeyboardSelectionState::default();
    activate_keyboard_mark_mode(&tab, &mut mouse_handler, &mut keyboard_selection);

    let escape = press(KeyName::Escape);
    assert!(move_keyboard_selection(
        &tab,
        &mut mouse_handler,
        &mut keyboard_selection,
        &escape
    ));
    assert!(!keyboard_selection.active);
    assert!(mouse_handler.selection(&pane_id).is_some());
}

#[test]
fn selections_are_kept_on_the_screen() {
    let screen = printed(8, 2, &["alpha", "beta"]);
    assert_eq!(clamp_selection_position(9, 99, &screen), (1, 7));
    assert_eq!(clamp_selection_position(0, 3, &screen), (0, 3));
}

// ── Find ────────────────────────────────────────────────────────────────────

#[test]
fn find_matches_visible_and_scrollback_rows() {
    let screen = printed(20, 3, &["alpha", "needle old", "middle", "needle live", ""]);

    let matches = find_matches(&screen, "needle");
    assert_eq!(matches.len(), 2);
    assert!(matches[0].row < matches[1].row);
    assert_eq!(find_matches(&screen, "missing"), Vec::<FindMatch>::new());
}

#[test]
fn apply_find_match_scrolls_and_highlights_current_match() {
    let screen = printed(20, 3, &["alpha", "needle old", "middle", "tail", ""]);
    let first = find_matches(&screen, "needle")
        .into_iter()
        .next()
        .expect("match");
    let mut mouse_handler = MouseHandler::new();

    apply_find_match(&screen, PANE, &mut mouse_handler, &first);

    assert!(mouse_handler.scroll_offset(&PANE) > 0);
    assert_eq!(
        mouse_handler.selection(&PANE),
        Some(TextSelection {
            start_row: 0,
            start_col: first.col,
            end_row: 0,
            end_col: first.col + first.len - 1,
        })
    );
}

#[test]
fn next_find_index_wraps_forward_and_backward() {
    assert_eq!(next_find_index(0, 3, true), 1);
    assert_eq!(next_find_index(2, 3, true), 0);
    assert_eq!(next_find_index(0, 3, false), 2);
    assert_eq!(next_find_index(2, 3, false), 1);
    assert_eq!(next_find_index(0, 0, true), 0);
}

#[test]
fn find_does_not_mind_letter_case() {
    let screen = printed(20, 2, &["Straße ÄÖ", "ähnlich"]);
    assert_eq!(find_matches(&screen, "STRA"), vec![FindMatch { row: 0, col: 0, len: 4 }]);
    assert_eq!(find_matches(&screen, " Ähn "), vec![FindMatch { row: 1, col: 0, len: 3 }]);
    assert_eq!(find_matches(&screen, "  "), vec![]);
    assert_eq!(virtual_row_text(&screen, 1).trim_end(), "ähnlich");
}

#[test]
fn occurrences_do_not_overlap() {
    assert_eq!(occurrences(b"aaaa", b"aa"), vec![0, 2]);
    assert_eq!(occurrences(b"abc", b"bc"), vec![1]);
    assert_eq!(occurrences(b"", b"x"), Vec::<usize>::new());
}

#[test]
fn finding_steps_through_matches() {
    let tab = tab_with(printed(20, 3, &["x one", "x two", "none", "x three", ""]));
    let mut mouse_handler = MouseHandler::new();
    let mut find_state = FindState::new();
    let mut status_bar = StatusBar::new();
    assert!(start_find(&tab, &mut mouse_handler, &mut find_state, "x", &mut status_bar));
    assert_eq!(find_state.matches.len(), 3);
    assert_eq!(find_state.current_match(), Some(find_state.matches[0]));
    navigate_find(&tab, &mut mouse_handler, &mut find_state, &mut status_bar, true);
    assert_eq!(find_state.current, 1);
    navigate_find(&tab, &mut mouse_handler, &mut find_state, &mut status_bar, false);
    assert_eq!(find_state.current, 0);
    navigate_find(&tab, &mut mouse_handler, &mut find_state, &mut status_bar, false);
    assert_eq!(find_state.current, 2);
    find_state.clear();
    assert_eq!(find_state.current_match(), None);
}

// ── Attention ───────────────────────────────────────────────────────────────

fn session(name: &str) -> PaneSession {
    PaneSession::new(name.to_string(), format!("dev/main/{name}"), None)
}

/// Three panes, the third below the first.
fn attention_test_tab() -> LiveTab {
    let (first, second, third) = (PaneId(1), PaneId(2), PaneId(3));
    let mut two = session("two");
    two.attention = AttentionState::NeedsAttention;
    two.attention_message = Some("input requested".to_string());
    let mut three = session("three");
    three.attention = AttentionState::Error;
    LiveTab {
        focus: first,
        panes: vec![first, third, second],
        pane_sessions: vec![(first, session("one")), (second, two), (third, three)],
        screens: vec![],
    }
}

#[test]
fn attention_helpers_count_and_summarize_unread_panes() {
    let tabs = vec![attention_test_tab()];
    assert_eq!(attention_count(&tabs), 2);
    let label = notification_center_label(&tabs);
    assert!(label.contains("dev/main/two: input requested"));
    assert!(label.contains("dev/main/three"));
}

#[test]
fn focus_aware_attention_policy_suppresses_focused_needs_attention() {
    assert_eq!(
        focus_aware_attention_state(AttentionState::NeedsAttention, true),
        AttentionState::Active
    );
    assert_eq!(
        focus_aware_attention_state(AttentionState::NeedsAttention, false),
        AttentionState::NeedsAttention
    );
    assert_eq!(
        focus_aware_attention_state(AttentionState::Error, true),
        AttentionState::Error
    );

    let mut tab = attention_test_tab();
    tab.pane_sessions[0].1.host_pane_id = Some("host-focused".to_string());
    assert!(focused_pane_matches_host_id(&tab, "host-focused"));
    assert!(!focused_pane_matches_host_id(&tab, "other"));
}

#[test]
fn pane_metadata_summary_filters_status_and_attention() {
    let mut tab = attention_test_tab();
    let session = &mut tab.pane_sessions[1].1;
    session.phase = Some("working".to_string());
    session.status_text = Some("running tests".to_string());
    session.queue_pending = Some(2);
    session.health_state = Some("running".to_string());
    session.source = Some("codex".to_string());
    session.driver_profile = Some("pi".to_string());
    session.cwd = Some("C:/Work/WinTermDriver".to_string());
    session.branch = Some("main".to_string());

    let tabs = vec![tab];
    let status = pane_metadata_summary(&tabs, PaneListFilter::Status);
    assert!(status.contains("dev/main/two"));
    assert!(status.contains("phase=working"));
    assert!(status.contains("running tests"));
    assert!(status.contains("queue=2"));
    assert!(status.contains("health=running"));
    assert!(status.contains("source=codex"));
    assert!(status.contains("driver=pi"));
    assert!(status.contains("cwd=C:/Work/WinTermDriver"));
    assert!(status.contains("branch=main"));
    assert!(!status.contains("dev/main/one"));

    let attention = pane_metadata_summary(&tabs, PaneListFilter::Attention);
    assert!(attention.contains("dev/main/two"));
    assert!(attention.contains("dev/main/three"));
    assert!(!attention.contains("dev/main/one"));

    let driver = pane_metadata_summary(&tabs, PaneListFilter::DriverProfile);
    assert!(driver.contains("driver=pi"));
    assert!(!driver.contains("dev/main/one"));

    let cwd = pane_metadata_summary(&tabs, PaneListFilter::Cwd);
    assert!(cwd.contains("cwd=C:/Work/WinTermDriver"));
    assert!(!cwd.contains("dev/main/one"));

    let branch = pane_metadata_summary(&tabs, PaneListFilter::Branch);
    assert!(branch.contains("branch=main"));
    assert!(!branch.contains("dev/main/one"));
}

#[test]
fn attention_navigation_orders_and_wraps() {
    let tabs = vec![attention_test_tab()];
    let first = next_attention_target(&tabs, 0, true).expect("next attention");
    assert_eq!(first.0, 0);
    assert_eq!(
        tabs[0].session(first.1).unwrap().pane_path.as_str(),
        "dev/main/three"
    );
    let previous = next_attention_target(&tabs, 0, false).expect("previous attention");
    assert_eq!(
        tabs[0].session(previous.1).unwrap().pane_path.as_str(),
        "dev/main/two"
    );
}

#[test]
fn attention_moves_the_focus_and_is_cleared() {
    let mut tabs = vec![attention_test_tab()];
    let mut strip = TabStrip::new();
    strip.add_tab("main".to_string());
    let mut active = 0;
    focus_attention_target(&mut tabs, &mut strip, &mut active, (0, PaneId(2)));
    assert_eq!(tabs[0].focus, PaneId(2));
    assert_eq!(
        focused_pane_attention(&tabs[0]),
        (AttentionState::NeedsAttention, Some("input requested".to_string()))
    );
    let mut bar = StatusBar::new();
    assert_eq!(
        clear_focused_attention(&mut tabs, 0, &mut bar),
        Some("dev/main/two".to_string())
    );
    assert_eq!(attention_count(&tabs), 1);
    assert_eq!(focused_pane_attention(&tabs[0]).0, AttentionState::Active);
    assert_eq!(clear_focused_attention(&mut tabs, 7, &mut bar), None);
}

#[test]
fn pane_names_are_the_last_part_of_the_path() {
    assert_eq!(pane_short_name("dev/main/one"), "one");
    assert_eq!(pane_short_name("one"), "one");
    let mut tab = attention_test_tab();
    assert_eq!(focused_pane_name(&tab), "one");
    assert_eq!(focused_pane_title(&tab), None);
    tab.pane_sessions[0].1.title = Some("  vim  ".to_string());
    assert_eq!(focused_pane_title(&tab).as_deref(), Some("vim"));
}

// ── Text and keys passed through ────────────────────────────────────────────

#[test]
fn text_input_bytes_preserves_altgr_style_characters_as_utf8_text() {
    for text in ["@", "{", "}", "[", "]", "\\", "~", "|"] {
        assert_eq!(text_input_bytes(text), text.as_bytes());
    }
}

#[test]
fn text_input_bytes_preserves_composed_unicode_text_as_utf8() {
    for text in ["é", "ü", "ñ"] {
        assert_eq!(text_input_bytes(text), text.as_bytes());
    }
}

#[test]
fn text_input_bytes_preserves_cjk_text_as_utf8() {
    for text in ["漢字", "かな", "한글"] {
        assert_eq!(text_input_bytes(text), text.as_bytes());
    }
}

#[test]
fn pass_through_next_key_waits_for_text_when_key_event_has_no_bytes() {
    let mut state = PassThroughNextKeyState::default();
    state.arm();

    let event = press(KeyName::Char('A'));

    assert_eq!(state.process_key(&event), Some(Vec::new()));
    assert!(state.is_armed());
    assert_eq!(state.process_text("a"), Some(b"a".to_vec()));
    assert!(!state.is_armed());
}

#[test]
fn pass_through_next_key_sends_modified_special_key_once() {
    let mut state = PassThroughNextKeyState::default();
    state.arm();

    let event = KeyEvent {
        key: KeyName::Right,
        modifiers: Modifiers::alt_key(),
        character: None,
    };

    assert_eq!(state.process_key(&event), Some(b"\x1B[1;3C".to_vec()));
    assert!(!state.is_armed());
    assert_eq!(state.process_key(&event), None);
    assert_eq!(state.process_text("a"), None);
    assert_eq!(state.badge_label(), "SEND KEY");
}

// ── Profiles ────────────────────────────────────────────────────────────────

#[test]
fn profile_actions_prompt_when_connected_without_args() {
    assert!(should_prompt_for_profile("new-tab", &None, true, true));
    assert!(should_prompt_for_profile("split-right", &None, true, true));
    assert!(should_prompt_for_profile("split-down", &None, true, true));
    assert!(should_prompt_for_profile(
        "change-profile",
        &None,
        true,
        true
    ));
}

#[test]
fn profile_actions_do_not_prompt_with_args_or_without_host_connection() {
    let args = Some(vec![("profile".to_string(), "cmd".to_string())]);
    assert!(!should_prompt_for_profile("new-tab", &args, true, true));
    assert!(!should_prompt_for_profile("new-tab", &None, false, true));
    assert!(!should_prompt_for_profile("new-tab", &None, true, false));
    assert!(!should_prompt_for_profile("rename-pane", &None, true, true));
}

#[test]
fn built_in_profile_entries_are_available_for_profile_selectors() {
    let entries = builtin_profile_entries();
    let names = entries
        .iter()
        .map(|entry| entry.name.as_str())
        .collect::<Vec<_>>();
    assert_eq!(names, vec!["powershell", "cmd", "wsl", "ssh"]);
    assert!(entries
        .iter()
        .any(|entry| entry.description.contains("Command Prompt")));
}

#[test]
fn preferred_profiles_come_first_and_names_are_distinct() {
    let global = GlobalProfiles {
        default_profile: "cmd".to_string(),
        profiles: vec![("build".to_string(), ProfileType::Custom)],
    };
    let workspace = WorkspaceProfiles {
        default_profile: Some("build".to_string()),
        profiles: vec![("build".to_string(), ProfileType::Ssh)],
    };
    let names = |entries: Vec<wtd_ui::command_palette::PaletteEntry>| {
        entries.into_iter().map(|e| e.name).collect::<Vec<_>>()
    };
    let plain = names(workspace_profile_entries(&None, &None));
    assert_eq!(plain.len(), 4);
    let with_global = names(workspace_profile_entries(&Some(global), &None));
    assert_eq!(with_global[0], "cmd");
    assert_eq!(with_global.len(), 5);
    let with_workspace = names(workspace_profile_entries(&None, &Some(workspace)));
    assert_eq!(with_workspace[0], "build");
    assert_eq!(with_workspace.len(), 5);
}

#[test]
fn a_profile_is_listed_once() {
    let mut entries = builtin_profile_entries();
    insert_profile_entry(&mut entries, "cmd", "again".to_string());
    assert_eq!(entries.len(), 4);
    insert_profile_entry(&mut entries, "fish", "a shell".to_string());
    assert_eq!(entries.len(), 5);
    assert_eq!(profile_kind(ProfileType::Wsl), "WSL");
    assert_eq!(profile_kind(ProfileType::Powershell), "PowerShell");
}

#[test]
fn a_selector_is_shown_for_profile_actions_only() {
    let none = BindingsDefinition { prefix: None, prefix_timeout: None, chords: None, keys: None };
    let mut palette =
        wtd_ui::command_palette::CommandPalette::new(&none, builtin_profile_entries());
    assert!(!show_profile_selector_for_action(&mut palette, "copy"));
    assert!(!palette.is_visible());
    assert!(show_profile_selector_for_action(&mut palette, "split-down"));
    assert!(palette.is_visible());
    assert_eq!(palette.filtered_count(), 4);
}

// ── Tabs ────────────────────────────────────────────────────────────────────

#[test]
fn host_tabs_are_found_by_name() {
    let mut strip = TabStrip::new();
    strip.add_tab("one".to_string());
    strip.add_tab("two".to_string());
    assert_eq!(tab_index_for_host_name(&strip, "two", 0), Some(1));
}

#[test]
fn sessions_are_found_in_any_tab() {
    let tabs = vec![attention_test_tab()];
    assert_eq!(find_pane_for_session(&tabs, "three"), Some((0, PaneId(3))));
    assert_eq!(find_pane_for_session(&tabs, "four"), None);
}

#[test]
fn panes_are_called_by_path_or_number() {
    let tab = attention_test_tab();
    assert_eq!(pane_host_target(&tab, PaneId(2)), Some(&"dev/main/two".to_string()));
    assert_eq!(pane_target(&tab, PaneId(2)), "dev/main/two");
    assert_eq!(pane_host_target(&tab, PaneId(9)), None);
    assert_eq!(pane_target(&tab, PaneId(9)), "9");
    assert!(pane_overlay_label(&tab.pane_sessions[0].1).contains("one"));
}

#[test]
fn a_layout_keeps_the_panes_that_are_still_there() {
    let mut tab = attention_test_tab();
    let layout = TabLayout {
        panes: vec![("two".to_string(), PaneId(2)), ("new".to_string(), PaneId(8))],
        focus: PaneId(2),
    };
    let blank = apply_tab_layout(&mut tab, &layout);
    assert_eq!(tab.panes, vec![PaneId(2), PaneId(8)]);
    assert_eq!(tab.focus, PaneId(2));
    assert!(tab.session(PaneId(2)).is_some());
    assert!(tab.session(PaneId(1)).is_none());
    assert!(blank.contains(&PaneId(8)));
}

#[test]
fn screens_follow_the_sizes_of_their_panes() {
    let tab = tab_with(printed(8, 2, &["a"]));
    assert!(sync_screen_buffers_to_sizes(&tab, &vec![(PANE, 8, 2)]).is_empty());
    let changes = sync_screen_buffers_to_sizes(&tab, &vec![(PANE, 10, 4), (PaneId(5), 3, 3)]);
    assert_eq!(
        changes,
        vec![
            ScreenChange::Resize(PANE, 10, 4),
            ScreenChange::Create(PaneId(5), 3, 3),
        ]
    );
}

#[test]
fn the_host_is_told_the_sizes_of_panes_with_sessions() {
    let tab = attention_test_tab();
    assert_eq!(
        pane_resizes(&tab, &vec![(PaneId(2), 80, 24), (PaneId(9), 1, 1), (PaneId(3), 40, 12)]),
        vec![
            ("dev/main/two".to_string(), 80, 24),
            ("dev/main/three".to_string(), 40, 12),
        ]
    );
}

#[test]
fn sessions_match_when_all_sizes_do() {
    let mut tab = attention_test_tab();
    for row in tab.pane_sessions.iter_mut() {
        row.1.session_size = Some((80, 24));
    }
    let sizes = |cols| vec![(PaneId(1), cols, 24), (PaneId(2), cols, 24), (PaneId(3), cols, 24)];
    assert!(pane_sessions_match_sizes(&tab, &sizes(80)));
    assert!(!pane_sessions_match_sizes(&tab, &sizes(81)));
}

#[test]
fn strips_show_the_progress_of_the_focused_pane() {
    let mut tab = attention_test_tab();
    let progress = ProgressInfo { state: ProgressState::Normal, value: Some(40) };
    tab.pane_sessions[0].1.progress = Some(progress);
    assert_eq!(tab_progress(&tab), Some(progress));
    let mut strip = TabStrip::new();
    strip.add_tab("main".to_string());
    sync_tab_progresses(&mut strip, &vec![tab]);
    assert_eq!(strip.tabs()[0].progress, Some(progress));
}

#[test]
fn window_titles_name_the_pane() {
    let mut strip = TabStrip::new();
    strip.add_tab("main".to_string());
    let mut tab = attention_test_tab();
    tab.pane_sessions[0].1.title = Some("vim".to_string());
    let title = compose_window_title("dev", &strip, Some(&tab));
    assert!(title.contains("vim"));
}

#[test]
fn live_input_scrolls_to_the_end() {
    let (tab, pane) = scrollback_test_tab(5);
    let mut mouse_handler = MouseHandler::new();
    mouse_handler.set_scroll_offset(&pane, 3, 16);
    assert!(prepare_pane_for_live_input(&mut mouse_handler, &tab, pane, false));
    assert_eq!(mouse_handler.scroll_offset(&pane), 0);
    assert!(!prepare_pane_for_live_input(&mut mouse_handler, &tab, pane, false));
}

#[test]
fn mouse_reporting_follows_the_screens() {
    let mut tab = tab_with(printed(8, 2, &["a"]));
    assert!(!pane_has_mouse_reporting(&tab, PANE));
    tab.screens[0].1.mouse_mode = MouseMode::ButtonEvent;
    assert!(pane_has_mouse_reporting(&tab, PANE));
    assert_eq!(refresh_mouse_modes(&tab).get(&1), Some(&MouseMode::ButtonEvent));
}
