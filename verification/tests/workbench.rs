use wtd_ui::bindings::{ActionReference, BindingsDefinition};
use wtd_ui::command_palette::PaletteHit;
use wtd_ui::host_bridge::HostEvent;
use wtd_ui::input::{InputClassifier, KeyEvent, KeyName, Modifiers};
use wtd_ui::json::Json;
use wtd_ui::mouse_handler::{Area, MouseEventKind, MouseOutput, PanePointer, Pointer};
use wtd_ui::mouse_routing::{
    tab_menu_action, ScrollbarHit, ScrollbarInteractionState, TabContextMenuAction,
};
use wtd_ui::pane_layout::{PaneLayout, PaneLayoutAction, Rect, ResizeDirection};
use wtd_ui::painting::{border_color, demo_content};
use wtd_ui::panes::{AttentionState, LiveTab, PaneId, PaneSession, ProgressInfo, ProgressState};
use wtd_ui::prefix_state::PrefixStateMachine;
use wtd_ui::profiles::builtin_profile_entries;
use wtd_ui::renderer::TextSelection;
use wtd_ui::screen::{Cell, CellAttrs, Color, MouseMode, Screen};
use wtd_ui::snapshot::TabLayout;
use wtd_ui::status_bar::SessionStatus;
use wtd_ui::tab_strip::{StripHit, TabAction, WindowButtonKind};
use wtd_ui::time::Instant;
use wtd_ui::workbench::{action_args_to_value, ActionValue, Effect, Workbench};

fn bindings() -> BindingsDefinition {
    BindingsDefinition {
        prefix: Some("Ctrl+B".to_string()),
        prefix_timeout: Some(2000),
        chords: Some(vec![("c".to_string(), simple("copy"))]),
        keys: Some(vec![
            ("Ctrl+Shift+P".to_string(), simple("toggle-command-palette")),
            ("Ctrl+Shift+K".to_string(), simple("pass-through-next-key")),
        ]),
    }
}

fn simple(name: &str) -> ActionReference {
    ActionReference::Simple(name.to_string())
}

fn prefix() -> PrefixStateMachine {
    PrefixStateMachine::new(InputClassifier::from_bindings(&bindings()).unwrap())
}

fn now() -> Instant {
    Instant::from_nanos(1_000)
}

fn key(key: KeyName, modifiers: Modifiers, character: Option<char>) -> KeyEvent {
    KeyEvent { key, modifiers, character }
}

fn line(cols: usize, text: &str) -> Vec<Cell> {
    let mut chars: Vec<char> = text.chars().collect();
    chars.resize(cols, ' ');
    chars
        .into_iter()
        .map(|c| Cell {
            text: c.to_string(),
            fg: Color::Default,
            bg: Color::Default,
            attrs: CellAttrs::default(),
        })
        .collect()
}

fn screen(rows: usize, texts: &[&str]) -> Screen {
    Screen {
        cols: 20,
        rows,
        lines: texts.iter().map(|t| line(20, t)).collect(),
        cursor_row: 0,
        cursor_col: 0,
        cursor_visible: true,
        alternate: false,
        bracketed_paste: false,
        mouse_mode: MouseMode::Off,
        sgr_mouse: false,
    }
}

fn session(name: &str) -> PaneSession {
    PaneSession::new(format!("s-{name}"), format!("dev/main/{name}"), None)
}

fn two_pane_tab() -> LiveTab {
    LiveTab {
        focus: PaneId(1),
        panes: vec![PaneId(1), PaneId(2)],
        pane_sessions: vec![(PaneId(1), session("left")), (PaneId(2), session("right"))],
        screens: vec![
            (PaneId(1), screen(2, &["old one", "old two", "alpha", "beta"])),
            (PaneId(2), screen(2, &["x", "y"])),
        ],
    }
}

/// A workbench with two tabs, of which the first is active.
fn bench(has_bridge: bool) -> Workbench {
    let mut w = Workbench::new(&bindings(), builtin_profile_entries(), has_bridge);
    w.connected = has_bridge;
    for name in ["one", "two"] {
        w.tab_strip.add_tab(name.to_string());
        w.push_tab(two_pane_tab());
    }
    w.tab_strip.set_active(0);
    w
}

fn invoked(effects: &[Effect]) -> Vec<&str> {
    effects
        .iter()
        .filter_map(|e| match e {
            Effect::InvokeAction { action, .. } => Some(action.as_str()),
            _ => None,
        })
        .collect()
}

// ── Actions ─────────────────────────────────────────────────────────────────

#[test]
fn tabs_are_switched_here_without_a_host() {
    let mut w = bench(false);
    let (used, effects) = w.dispatch_action(&simple("next-tab"));
    assert!(used);
    assert!(invoked(&effects).is_empty());
    assert_eq!(w.tab_strip.active_index(), 1);
    w.dispatch_action(&simple("prev-tab"));
    assert_eq!(w.tab_strip.active_index(), 0);
}

#[test]
fn tabs_are_switched_by_the_host_if_there_is_one() {
    let mut w = bench(true);
    let (used, effects) = w.dispatch_action(&simple("next-tab"));
    assert!(used);
    assert_eq!(invoked(&effects), vec!["next-tab"]);
    assert!(effects.contains(&Effect::RefreshWorkspace));
    assert_eq!(w.tab_strip.active_index(), 0);
}

#[test]
fn the_palette_is_toggled() {
    let mut w = bench(true);
    w.dispatch_action(&simple("toggle-command-palette"));
    assert!(w.palette.is_visible());
}

#[test]
fn profile_actions_ask_for_a_profile() {
    let mut w = bench(true);
    let (_, effects) = w.dispatch_action(&simple("split-right"));
    assert!(effects.is_empty());
    assert!(w.palette.is_visible());
    let with_profile = ActionReference::WithArgs {
        action: "split-right".to_string(),
        args: Some(vec![("profile".to_string(), "cmd".to_string())]),
    };
    let mut w = bench(true);
    let (_, effects) = w.dispatch_action(&with_profile);
    assert_eq!(invoked(&effects), vec!["split-right"]);
    assert!(!w.palette.is_visible());
}

#[test]
fn other_actions_go_to_the_host_for_the_focused_pane() {
    let mut w = bench(true);
    let (_, effects) = w.dispatch_action(&simple("zoom-pane"));
    assert_eq!(
        effects[0],
        Effect::InvokeAction {
            action: "zoom-pane".to_string(),
            target: Some("dev/main/left".to_string()),
            args: ActionValue::Nothing,
        }
    );
    assert_eq!(effects[1], Effect::RefreshWorkspace);
    let mut w = bench(false);
    let (_, effects) = w.dispatch_action(&simple("zoom-pane"));
    assert!(invoked(&effects).is_empty());
}

#[test]
fn scrollback_actions_scroll_the_focused_pane() {
    let mut w = bench(true);
    w.dispatch_action(&simple("scrollback-top"));
    assert_eq!(w.mouse.scroll_offset(&PaneId(1)), 2);
    w.dispatch_action(&simple("scrollback-line-down"));
    assert_eq!(w.mouse.scroll_offset(&PaneId(1)), 1);
}

#[test]
fn copy_takes_the_selected_text() {
    let mut w = bench(false);
    let sel = TextSelection { start_row: 0, start_col: 0, end_row: 0, end_col: 4 };
    w.mouse.set_selection(&PaneId(1), Some(sel));
    let (_, effects) = w.dispatch_action(&simple("copy"));
    assert!(effects.contains(&Effect::CopyText("alpha".to_string())));
}

#[test]
fn arguments_become_values() {
    let args = Some(vec![("name".to_string(), "x".to_string())]);
    let value = action_args_to_value(&args);
    assert_eq!(value, ActionValue::Texts(vec![("name".to_string(), "x".to_string())]));
    assert_eq!(value.to_json().get_str("name"), Some(&"x".to_string()));
    assert_eq!(action_args_to_value(&None).to_json(), Json::Null);
    let index = ActionValue::Index(3).to_json();
    assert_eq!(index.get("index").and_then(|n| n.as_u64()), Some(3));
}

// ── Keys and text ───────────────────────────────────────────────────────────

#[test]
fn keys_go_to_the_focused_session() {
    let mut w = bench(true);
    let mut p = prefix();
    let outcome = w.on_key(&mut p, &key(KeyName::Up, Modifiers::none(), None), now());
    assert_eq!(
        outcome.effects,
        vec![Effect::SendInput { session_id: "s-left".to_string(), data: b"\x1b[A".to_vec() }]
    );
    let mut w = bench(false);
    let outcome = w.on_key(&mut p, &key(KeyName::Up, Modifiers::none(), None), now());
    assert!(outcome.effects.is_empty());
}

#[test]
fn an_open_palette_keeps_the_keys() {
    let mut w = bench(true);
    let mut p = prefix();
    let toggle =
        key(KeyName::Char('P'), Modifiers::ctrl_key() | Modifiers::shift_key(), None);
    w.on_key(&mut p, &toggle, now());
    assert!(w.palette.is_visible());
    let outcome = w.on_key(&mut p, &key(KeyName::Down, Modifiers::none(), None), now());
    assert!(outcome.effects.is_empty());
    assert_eq!(w.palette.selected_index(), 1);
    w.on_text(&mut p, "zo", now());
    assert_eq!(w.palette.query(), "zo");
}

#[test]
fn text_goes_to_the_focused_session() {
    let mut w = bench(true);
    let mut p = prefix();
    let outcome = w.on_text(&mut p, "\u{e9}", now());
    assert_eq!(
        outcome.effects,
        vec![Effect::SendInput { session_id: "s-left".to_string(), data: vec![0xC3, 0xA9] }]
    );
}

#[test]
fn a_key_is_passed_through_once() {
    let mut w = bench(true);
    let mut p = prefix();
    w.dispatch_action(&simple("pass-through-next-key"));
    assert!(w.pass_through.is_armed());
    let toggle =
        key(KeyName::Char('P'), Modifiers::ctrl_key() | Modifiers::shift_key(), None);
    let outcome = w.on_key(&mut p, &toggle, now());
    assert!(!w.palette.is_visible());
    assert_eq!(
        outcome.effects,
        vec![Effect::SendInput { session_id: "s-left".to_string(), data: vec![0x10] }]
    );
    w.on_key(&mut p, &toggle, now());
    assert!(w.palette.is_visible());
}

#[test]
fn the_indicator_shows_the_prefix() {
    let mut w = bench(true);
    let mut p = prefix();
    w.on_key(&mut p, &key(KeyName::Char('B'), Modifiers::ctrl_key(), None), now());
    w.update_indicator(&p);
    assert!(w.status_bar.is_prefix_active());
    assert_eq!(w.status_bar.prefix_label, "Ctrl+B");
}

#[test]
fn pasted_text_is_sent_to_its_pane() {
    let mut w = bench(true);
    let (effects, _) = w.paste_text(PaneId(2), "hi");
    assert_eq!(
        effects,
        vec![Effect::SendInput { session_id: "s-right".to_string(), data: b"hi".to_vec() }]
    );
}

#[test]
fn input_brings_a_scrolled_pane_back() {
    let mut w = bench(true);
    w.mouse.set_scroll_offset(&PaneId(1), 2, 2);
    w.send_to_focused(b"x".to_vec());
    assert_eq!(w.mouse.scroll_offset(&PaneId(1)), 0);
}

// ── Host events ─────────────────────────────────────────────────────────────

#[test]
fn session_states_are_shown() {
    let mut w = bench(true);
    let outcome = w.on_host_event(
        HostEvent::SessionStateChanged {
            session_id: "s-left".to_string(),
            new_state: "exited".to_string(),
            exit_code: Some(2),
        },
        &Some("dev".to_string()),
        &None,
    );
    assert!(!outcome.close);
    assert_eq!(w.status_bar.session_status(), &SessionStatus::Exited { exit_code: 2 });
}

#[test]
fn titles_and_progress_reach_their_session() {
    let mut w = bench(true);
    w.on_title("s-right", "vim");
    assert_eq!(w.tabs[0].session(PaneId(2)).unwrap().title.as_deref(), Some("vim"));
    let progress = ProgressInfo { state: ProgressState::Normal, value: Some(5) };
    w.on_progress("s-left", Some(progress));
    assert_eq!(w.tabs[0].session(PaneId(1)).unwrap().progress, Some(progress));
    assert_eq!(w.tab_strip.tabs()[0].progress, Some(progress));
}

#[test]
fn attention_is_counted() {
    let mut w = bench(true);
    for tab in w.tabs.iter_mut() {
        tab.pane_sessions[1].1.host_pane_id = Some("7".to_string());
    }
    w.on_host_event(
        HostEvent::AttentionChanged {
            pane_id: Some("7".to_string()),
            state: AttentionState::NeedsAttention,
            message: Some("look".to_string()),
        },
        &Some("dev".to_string()),
        &None,
    );
    assert_eq!(
        w.tabs[0].session(PaneId(2)).unwrap().attention,
        AttentionState::NeedsAttention
    );
    assert!(w.status_bar.attention_count >= 1);
}

#[test]
fn a_closed_workspace_closes_its_window() {
    let state = |name: &str| HostEvent::WorkspaceStateChanged {
        workspace: name.to_string(),
        new_state: "Closed".to_string(),
    };
    let mut w = bench(true);
    assert!(w.on_host_event(state("dev"), &Some("dev".to_string()), &None).close);
    assert!(!w.on_host_event(state("other"), &Some("dev".to_string()), &None).close);
}

#[test]
fn a_new_layout_replaces_the_panes() {
    let mut w = bench(true);
    let layout = TabLayout {
        panes: vec![("left".to_string(), PaneId(1)), ("third".to_string(), PaneId(3))],
        focus: PaneId(3),
    };
    let (effects, _) = w.on_layout("one", &Some(layout));
    assert_eq!(w.tabs[0].panes, vec![PaneId(1), PaneId(3)]);
    assert!(effects.contains(&Effect::CreateScreen(PaneId(3))));
}

#[test]
fn attaching_shows_the_tabs() {
    let mut w = bench(true);
    let effects = w.attach(
        "dev".to_string(),
        vec!["a".to_string(), "b".to_string(), "c".to_string()],
        1,
        vec![two_pane_tab(), two_pane_tab(), two_pane_tab()],
        false,
    );
    assert_eq!(
        effects,
        vec![
            Effect::ShowTitleOf("dev".to_string()),
            Effect::RefreshLayout,
            Effect::SendPaneSizes,
        ]
    );
    assert_eq!(w.tab_strip.tab_count(), 3);
    assert_eq!(w.tab_strip.active_index(), 1);
    assert_eq!(w.active_tab_index, 1);
    assert_eq!(w.status_bar.workspace_name(), "dev");
    assert_eq!(w.status_bar.pane_path(), "dev/main/left");
}

// ── Mouse ───────────────────────────────────────────────────────────────────

fn off_strip() -> StripHit {
    StripHit {
        inside: false,
        scroll_left: false,
        scroll_right: false,
        minimize: false,
        maximize: false,
        close_window: false,
        add: false,
        tabs: vec![],
        past_drag_threshold: false,
        drop_index: 0,
    }
}

fn on_left_pane() -> Pointer {
    Pointer {
        area: Area::Content,
        strip: off_strip(),
        splitter: None,
        dragged_cells: 0,
        dragged_forward: true,
        panes: vec![
            PanePointer { pane: PaneId(1), col: 1, row: 1, inside: true },
            PanePointer { pane: PaneId(2), col: 0, row: 1, inside: false },
        ],
    }
}

fn on_bare_strip() -> Pointer {
    Pointer {
        area: Area::TabStrip,
        strip: StripHit { inside: true, ..off_strip() },
        ..on_left_pane()
    }
}

fn layout() -> PaneLayout {
    let mut layout = PaneLayout::new();
    layout.update(vec![
        (PaneId(1), Rect { x: 0, y: 0, width: 20, height: 2 }),
        (PaneId(2), Rect { x: 20, y: 0, width: 20, height: 2 }),
    ]);
    layout
}

#[test]
fn a_click_focuses_a_pane() {
    let mut w = bench(true);
    let effects = w.on_mouse_output(MouseOutput::FocusPane(PaneId(2)));
    assert_eq!(effects, vec![Effect::RefreshTitle]);
    assert_eq!(w.tabs[0].focus, PaneId(2));
    assert_eq!(w.status_bar.pane_path(), "dev/main/right");
}

#[test]
fn outputs_become_effects() {
    let mut w = bench(true);
    let sel = TextSelection { start_row: 0, start_col: 0, end_row: 0, end_col: 4 };
    assert_eq!(
        w.on_mouse_output(MouseOutput::SelectionFinalized(PaneId(1), sel)),
        vec![Effect::CopyText("alpha".to_string())]
    );
    assert_eq!(
        w.on_mouse_output(MouseOutput::SendToSession(PaneId(2), vec![7])),
        vec![Effect::SendInput { session_id: "s-right".to_string(), data: vec![7] }]
    );
    assert_eq!(
        w.on_mouse_output(MouseOutput::PasteClipboard(PaneId(2))),
        vec![Effect::PasteInto(PaneId(2))]
    );
    let resize = PaneLayoutAction::Resize {
        pane_id: PaneId(1),
        direction: ResizeDirection::GrowRight,
        cells: 2,
    };
    assert_eq!(
        w.on_mouse_output(MouseOutput::PaneResize(resize)),
        vec![Effect::ResizePane {
            pane_id: PaneId(1),
            direction: ResizeDirection::GrowRight,
            cells: 2,
        }]
    );
    w.mouse.set_scroll_offset(&PaneId(1), 9, 9);
    assert!(w.on_mouse_output(MouseOutput::ScrollPane(PaneId(1), 9)).is_empty());
    assert_eq!(w.mouse.scroll_offset(&PaneId(1)), 2);
}

#[test]
fn the_strip_closes_and_switches_tabs_here_without_a_host() {
    let mut w = bench(false);
    let effects = w.on_tab_action(TabAction::SwitchTo(1));
    assert_eq!(effects, vec![Effect::RefreshLayout, Effect::RefreshTitle]);
    assert_eq!(w.active_tab_index, 1);
    let effects = w.on_tab_action(TabAction::Close(0));
    assert_eq!(effects, vec![Effect::RefreshLayout, Effect::RefreshTitle]);
    assert_eq!(w.tabs.len(), 1);
    assert_eq!(w.active_tab_index, 0);
    assert_eq!(w.tab_strip.tabs()[0].name, "two");
    // The last tab stays.
    assert_eq!(w.on_tab_action(TabAction::Close(0)), vec![Effect::RefreshTitle]);
    assert_eq!(w.tabs.len(), 1);
    let effects = w.on_tab_action(TabAction::Create);
    assert_eq!(effects, vec![Effect::OpenTab, Effect::RefreshTitle]);
    assert_eq!(w.tab_strip.tab_count(), 2);
}

#[test]
fn the_host_closes_and_switches_tabs() {
    let mut w = bench(true);
    let effects = w.on_tab_action(TabAction::Close(1));
    assert_eq!(invoked(&effects), vec!["goto-tab", "close-tab"]);
    let effects = w.on_tab_action(TabAction::Close(0));
    assert_eq!(invoked(&effects), vec!["close-tab"]);
    let effects = w.on_tab_action(TabAction::Create);
    assert_eq!(invoked(&effects), vec!["new-tab"]);
    assert_eq!(w.tabs.len(), 2);
    assert_eq!(
        w.on_tab_action(TabAction::WindowClose),
        vec![Effect::Disconnect, Effect::CloseWindow]
    );
}

#[test]
fn the_tab_menu_acts_on_its_tab() {
    assert_eq!(tab_menu_action(1, true), Some(TabContextMenuAction::NewTab));
    assert_eq!(tab_menu_action(2, true), Some(TabContextMenuAction::RenameTab));
    assert_eq!(tab_menu_action(3, true), Some(TabContextMenuAction::CloseTab));
    assert_eq!(tab_menu_action(3, false), None);
    assert_eq!(tab_menu_action(0, true), None);

    let mut w = bench(true);
    let effects = w.on_tab_menu(TabContextMenuAction::RenameTab, 1);
    assert_eq!(invoked(&effects), vec!["goto-tab"]);
    assert_eq!(w.palette.query(), "two");
    let mut w = bench(false);
    assert!(w.on_tab_menu(TabContextMenuAction::CloseTab, 1).is_empty());
    assert_eq!(w.tabs.len(), 1);
    assert_eq!(w.tab_strip.tab_count(), 1);
    w.on_tab_menu(TabContextMenuAction::NewTab, 0);
    assert_eq!(w.tab_strip.tab_count(), 2);
}

#[test]
fn scrollbars_are_dragged_within_the_scrollback() {
    let mut w = bench(true);
    let mut bars = ScrollbarInteractionState::new();
    let hit = Some(ScrollbarHit { pane: PaneId(1), max_scroll: 2, jump: Some(1) });
    assert_eq!(w.on_scrollbar(&mut bars, MouseEventKind::Move, hit, 0), (false, true));
    assert!(bars.is_expanded(PaneId(1)));
    assert_eq!(w.on_scrollbar(&mut bars, MouseEventKind::LeftDown, hit, 0), (true, true));
    assert_eq!(w.mouse.scroll_offset(&PaneId(1)), 1);
    assert_eq!(w.on_scrollbar(&mut bars, MouseEventKind::Move, None, 50), (true, true));
    assert_eq!(w.mouse.scroll_offset(&PaneId(1)), 2);
    assert!(bars.is_expanded(PaneId(1)));
    assert_eq!(w.on_scrollbar(&mut bars, MouseEventKind::LeftUp, None, 0), (true, true));
    assert!(!bars.is_expanded(PaneId(1)));
    assert_eq!(w.on_scrollbar(&mut bars, MouseEventKind::LeftDown, None, 0), (false, false));
}

#[test]
fn the_wheel_changes_the_font_unless_it_is_reported() {
    let mut w = bench(true);
    assert!(w.wheel_changes_font(None));
    w.tabs[0].screens[1].1.mouse_mode = MouseMode::Normal;
    assert!(w.wheel_changes_font(Some(PaneId(1))));
    assert!(!w.wheel_changes_font(Some(PaneId(2))));
    w.tabs[0].focus = PaneId(2);
    assert!(!w.wheel_changes_font(None));
}

#[test]
fn bare_strip_moves_the_window() {
    let mut w = bench(true);
    let mut l = layout();
    let step = w.on_panes_mouse(&mut l, MouseEventKind::LeftDown, &on_bare_strip());
    assert_eq!(step.effects, vec![Effect::DragWindow]);
    assert!(!step.repaint);
    let step = w.on_panes_mouse(&mut l, MouseEventKind::LeftDoubleDown, &on_bare_strip());
    assert_eq!(step.effects, vec![Effect::ToggleMaximizeWindow]);
    assert!(step.repaint);
}

#[test]
fn pane_clicks_come_out_as_outputs() {
    let mut w = bench(true);
    let mut l = layout();
    let step = w.on_panes_mouse(&mut l, MouseEventKind::LeftDown, &on_left_pane());
    assert_eq!(step.outputs[0], MouseOutput::FocusPane(PaneId(1)));
    assert!(step.effects.is_empty());
    assert!(step.repaint);
}

#[test]
fn an_open_palette_takes_the_mouse() {
    let mut w = bench(true);
    w.dispatch_action(&simple("toggle-command-palette"));
    let (effects, repaint) = w.on_palette_mouse(MouseEventKind::Wheel(-120), PaletteHit::Inside);
    assert!(effects.is_empty() && repaint);
    assert!(w.palette.selected_index() > 0);
    w.on_palette_mouse(MouseEventKind::LeftDown, PaletteHit::Outside);
    assert!(!w.palette.is_visible());
}

// ── Painting ────────────────────────────────────────────────────────────────

#[test]
fn panes_with_a_place_and_a_screen_are_painted() {
    let mut w = bench(true);
    w.mouse.set_scroll_offset(&PaneId(1), 2, 2);
    w.tabs[0].panes.push(PaneId(5));
    let bars = ScrollbarInteractionState { hovered_pane: Some(PaneId(2)), drag: None };
    let pictures = w.panes_to_paint(&layout(), &bars);
    assert_eq!(pictures.len(), 2);
    assert_eq!(pictures[0].pane, PaneId(1));
    assert_eq!(pictures[0].scrolled, 2);
    assert!(pictures[0].focused && !pictures[0].wide_scrollbar);
    assert_eq!(pictures[0].label.as_deref(), Some("left"));
    assert!(pictures[1].wide_scrollbar && !pictures[1].focused);
    assert!(w.panes_to_paint(&PaneLayout::new(), &bars).is_empty());
}

#[test]
fn hovered_parts_change_color() {
    let mut w = bench(true);
    assert_eq!(w.tab_strip.add_button_color(), (150, 150, 150));
    let mut hit = StripHit { inside: true, ..off_strip() };
    hit.add = true;
    w.tab_strip.on_mouse_move(&hit);
    assert_eq!(w.tab_strip.add_button_color(), (230, 230, 230));
    let mut hit = StripHit { inside: true, ..off_strip() };
    hit.close_window = true;
    w.tab_strip.on_mouse_move(&hit);
    assert_eq!(
        w.tab_strip.window_button_background(WindowButtonKind::Close),
        Some((196, 70, 70))
    );
    assert_eq!(w.tab_strip.window_button_background(WindowButtonKind::Minimize), None);
    let l = layout();
    assert_eq!(l.splitter_color(0), (60, 60, 75));
    assert_eq!(border_color(true), (78, 201, 176));
    assert_eq!(border_color(false), (45, 45, 58));
}

#[test]
fn demo_panes_say_which_they_are() {
    assert!(demo_content(PaneId(1)).starts_with("\x1b[1;44;37m Pane 1 \x1b[0m\r\n\r\n"));
    assert!(demo_content(PaneId(2)).contains("cargo build"));
    assert_eq!(
        demo_content(PaneId(12)),
        "\x1b[1;44;37m Pane 12 \x1b[0m\r\n\r\n  \x1b[36mReady.\x1b[0m\r\n"
    );
}

// ── Chrome ──────────────────────────────────────────────────────────────────

#[test]
fn new_chrome_shows_the_same_tabs() {
    let mut w = bench(true);
    let progress = ProgressInfo { state: ProgressState::Error, value: None };
    w.tab_strip.set_progress(1, Some(progress));
    w.tab_strip.set_active(1);
    w.status_bar.set_pane_path("dev/main/right".to_string());
    w.palette.show();
    w.rebuild_chrome(&bindings(), true);
    assert_eq!(w.tab_strip.tab_count(), 2);
    assert_eq!(w.tab_strip.active_index(), 1);
    assert_eq!(w.tab_strip.tabs()[1].name, "two");
    assert_eq!(w.tab_strip.tabs()[1].progress, Some(progress));
    assert!(w.tab_strip.window_maximized);
    assert_eq!(w.status_bar.pane_path(), "dev/main/right");
    assert!(w.palette.is_visible());
    assert_eq!(w.palette.profile_entries().len(), 4);
}

#[test]
fn the_only_tab_is_not_closed_here() {
    let mut w = Workbench::new(&bindings(), builtin_profile_entries(), false);
    w.tab_strip.add_tab("one".to_string());
    w.push_tab(two_pane_tab());
    w.tab_strip.add_tab("two".to_string());
    let effects = w.on_mouse_output(MouseOutput::Tab(TabAction::Close(1)));
    assert_eq!(effects, vec![Effect::RefreshTitle]);
    assert_eq!(w.tabs.len(), 1);
    assert_eq!(w.tab_strip.tab_count(), 2);
}
