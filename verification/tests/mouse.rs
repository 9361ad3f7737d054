use std::collections::HashMap;

use wtd_ui::mouse_encoding::{encode_mouse_event, encode_mouse_motion, MouseButton};
use wtd_ui::mouse_handler::{
    mouse_mode, Area, MouseEventKind, MouseHandler, MouseOutput, PaneMouseState, PanePointer,
    Pointer,
};
use wtd_ui::pane_layout::{CursorHint, PaneLayout, PaneLayoutAction, Rect, ResizeDirection};
use wtd_ui::panes::PaneId;
use wtd_ui::renderer::TextSelection;
use wtd_ui::screen::MouseMode;
use wtd_ui::tab_strip::{StripHit, TabAction, TabHit, TabStrip};

// ── VT encoding tests ───────────────────────────────────────────────

#[test]
fn sgr_left_press_at_origin() {
    let seq = encode_mouse_event(MouseButton::Left, true, 0, 0, 0, true);
    assert_eq!(seq, b"\x1b[<0;1;1M");
}

#[test]
fn sgr_left_release_at_origin() {
    let seq = encode_mouse_event(MouseButton::Left, false, 0, 0, 0, true);
    assert_eq!(seq, b"\x1b[<0;1;1m");
}

#[test]
fn sgr_right_press() {
    let seq = encode_mouse_event(MouseButton::Right, true, 5, 10, 0, true);
    assert_eq!(seq, b"\x1b[<2;6;11M");
}

#[test]
fn sgr_middle_press() {
    let seq = encode_mouse_event(MouseButton::Middle, true, 3, 7, 0, true);
    assert_eq!(seq, b"\x1b[<1;4;8M");
}

#[test]
fn sgr_wheel_up() {
    let seq = encode_mouse_event(MouseButton::WheelUp, true, 10, 20, 0, true);
    assert_eq!(seq, b"\x1b[<64;11;21M");
}

#[test]
fn sgr_wheel_down() {
    let seq = encode_mouse_event(MouseButton::WheelDown, true, 10, 20, 0, true);
    assert_eq!(seq, b"\x1b[<65;11;21M");
}

#[test]
fn sgr_with_ctrl_modifier() {
    let seq = encode_mouse_event(MouseButton::Left, true, 0, 0, 16, true);
    assert_eq!(seq, b"\x1b[<16;1;1M");
}

#[test]
fn sgr_with_shift_modifier() {
    let seq = encode_mouse_event(MouseButton::Left, true, 0, 0, 4, true);
    assert_eq!(seq, b"\x1b[<4;1;1M");
}

#[test]
fn sgr_with_alt_modifier() {
    let seq = encode_mouse_event(MouseButton::Left, true, 0, 0, 8, true);
    assert_eq!(seq, b"\x1b[<8;1;1M");
}

#[test]
fn sgr_motion_event() {
    let seq = encode_mouse_motion(MouseButton::Left, 5, 3, 0, true);
    // Motion flag adds 32 to button code: 0 + 32 = 32
    assert_eq!(seq, b"\x1b[<32;6;4M");
}

#[test]
fn sgr_motion_no_button() {
    let seq = encode_mouse_motion(MouseButton::NoButton, 5, 3, 0, true);
    // None=3, motion=32 → 35
    assert_eq!(seq, b"\x1b[<35;6;4M");
}

#[test]
fn legacy_left_press() {
    let seq = encode_mouse_event(MouseButton::Left, true, 0, 0, 0, false);
    // button 0 + 32 = 32, col 1+32=33, row 1+32=33
    assert_eq!(seq, vec![0x1b, b'[', b'M', 32, 33, 33]);
}

#[test]
fn legacy_left_release() {
    let seq = encode_mouse_event(MouseButton::Left, false, 0, 0, 0, false);
    // release is button 3 + 32 = 35
    assert_eq!(seq, vec![0x1b, b'[', b'M', 35, 33, 33]);
}

#[test]
fn legacy_right_press_at_offset() {
    let seq = encode_mouse_event(MouseButton::Right, true, 10, 5, 0, false);
    // button 2 + 32 = 34, col 11+32=43, row 6+32=38
    assert_eq!(seq, vec![0x1b, b'[', b'M', 34, 43, 38]);
}

#[test]
fn legacy_motion_event() {
    let seq = encode_mouse_motion(MouseButton::Left, 2, 4, 0, false);
    // button 0 | 32 (motion) = 32, +32 encoding = 64, col 3+32=35, row 5+32=37
    assert_eq!(seq, vec![0x1b, b'[', b'M', 64, 35, 37]);
}

// ── MouseHandler unit tests ─────────────────────────────────────────

#[test]
fn new_handler_has_no_state() {
    let handler = MouseHandler::new();
    let pane = PaneId(1);
    assert_eq!(handler.scroll_offset(&pane), 0);
    assert!(handler.selection(&pane).is_none());
}

#[test]
fn default_is_new() {
    let handler = MouseHandler::default();
    assert_eq!(handler.scroll_offset(&PaneId(1)), 0);
}

#[test]
fn clear_selection_no_panic_on_unknown_pane() {
    let mut handler = MouseHandler::new();
    handler.clear_selection(&PaneId(99));
}

#[test]
fn remove_pane_cleans_up() {
    let mut handler = MouseHandler::new();
    let pane = PaneId(1);
    handler.panes.insert(
        pane.0,
        PaneMouseState {
            scroll_offset: 5,
            selection: None,
        },
    );
    assert_eq!(handler.scroll_offset(&pane), 5);
    handler.remove_pane(&pane);
    assert_eq!(handler.scroll_offset(&pane), 0);
}

#[test]
fn reset_scroll_sets_zero() {
    let mut handler = MouseHandler::new();
    let pane = PaneId(1);
    handler.panes.insert(
        pane.0,
        PaneMouseState {
            scroll_offset: 10,
            selection: None,
        },
    );
    handler.reset_scroll(&pane);
    assert_eq!(handler.scroll_offset(&pane), 0);
}

#[test]
fn clamp_scroll_bounds() {
    let mut handler = MouseHandler::new();
    let pane = PaneId(1);
    handler.panes.insert(
        pane.0,
        PaneMouseState {
            scroll_offset: 100,
            selection: None,
        },
    );
    handler.clamp_scroll(&pane, 50);
    assert_eq!(handler.scroll_offset(&pane), 50);
}

#[test]
fn clamp_scroll_no_negative() {
    let mut handler = MouseHandler::new();
    let pane = PaneId(1);
    handler.panes.insert(
        pane.0,
        PaneMouseState {
            scroll_offset: -5,
            selection: None,
        },
    );
    handler.clamp_scroll(&pane, 50);
    assert_eq!(handler.scroll_offset(&pane), 0);
}

// ── Events ──────────────────────────────────────────────────────────────────

fn off_strip() -> StripHit {
    StripHit {
        inside: false,
        scroll_left: false,
        scroll_right: false,
        minimize: false,
        maximize: false,
        close_window: false,
        add: false,
        tabs: vec![],
        past_drag_threshold: false,
        drop_index: 0,
    }
}

fn on_strip() -> StripHit {
    StripHit { inside: true, ..off_strip() }
}

/// A pointer on the first of two panes, at the given cell.
fn at(col: usize, row: usize) -> Pointer {
    Pointer {
        area: Area::Content,
        strip: off_strip(),
        splitter: None,
        dragged_cells: 0,
        dragged_forward: true,
        panes: vec![
            PanePointer { pane: PaneId(1), col, row, inside: true },
            PanePointer { pane: PaneId(2), col: 0, row, inside: false },
        ],
    }
}

fn over_strip(strip: StripHit) -> Pointer {
    Pointer { area: Area::TabStrip, strip, panes: vec![], ..at(0, 0) }
}

fn two_panes() -> PaneLayout {
    let mut layout = PaneLayout::new();
    layout.update(vec![
        (PaneId(1), Rect { x: 0, y: 0, width: 40, height: 24 }),
        (PaneId(2), Rect { x: 40, y: 0, width: 40, height: 24 }),
    ]);
    layout
}

struct Desk {
    handler: MouseHandler,
    strip: TabStrip,
    layout: PaneLayout,
    modes: HashMap<u64, MouseMode>,
}

impl Desk {
    fn new() -> Desk {
        Desk {
            handler: MouseHandler::new(),
            strip: TabStrip::new(),
            layout: two_panes(),
            modes: HashMap::new(),
        }
    }

    fn event(&mut self, kind: MouseEventKind, ptr: Pointer) -> Vec<MouseOutput> {
        self.handler.handle_event(
            kind,
            &ptr,
            &mut self.strip,
            &mut self.layout,
            PaneId(1),
            &self.modes,
        )
    }
}

fn span(start_row: usize, start_col: usize, end_row: usize, end_col: usize) -> TextSelection {
    TextSelection { start_row, start_col, end_row, end_col }
}

#[test]
fn drag_over_a_pane_selects_text() {
    let mut desk = Desk::new();
    assert_eq!(
        desk.event(MouseEventKind::LeftDown, at(3, 2)),
        vec![
            MouseOutput::FocusPane(PaneId(1)),
            MouseOutput::SelectionChanged(PaneId(1), None),
        ]
    );
    let moved = desk.event(MouseEventKind::Move, at(9, 4));
    assert!(moved.contains(&MouseOutput::SelectionChanged(PaneId(1), Some(span(2, 3, 4, 9)))));
    assert_eq!(
        desk.event(MouseEventKind::LeftUp, at(9, 4)),
        vec![MouseOutput::SelectionChanged(PaneId(1), Some(span(2, 3, 4, 9)))]
    );
    assert_eq!(desk.handler.selection(&PaneId(1)), Some(span(2, 3, 4, 9)));
}

#[test]
fn click_without_drag_selects_nothing() {
    let mut desk = Desk::new();
    desk.event(MouseEventKind::LeftDown, at(3, 2));
    assert_eq!(
        desk.event(MouseEventKind::LeftUp, at(3, 2)),
        vec![MouseOutput::SelectionChanged(PaneId(1), None)]
    );
    assert_eq!(desk.handler.selection(&PaneId(1)), None);
}

#[test]
fn wheel_scrolls_three_lines_per_notch() {
    let mut desk = Desk::new();
    assert_eq!(
        desk.event(MouseEventKind::Wheel(240), at(0, 0)),
        vec![MouseOutput::ScrollPane(PaneId(1), 6)]
    );
    assert_eq!(desk.handler.scroll_offset(&PaneId(1)), 6);
    assert_eq!(
        desk.event(MouseEventKind::Wheel(120), at(0, 0)),
        vec![MouseOutput::ScrollPane(PaneId(1), 3)]
    );
    assert_eq!(desk.handler.scroll_offset(&PaneId(1)), 9);
    assert_eq!(
        desk.event(MouseEventKind::Wheel(-120), at(0, 0)),
        vec![MouseOutput::ScrollPane(PaneId(1), -3)]
    );
    // Not beyond live.
    assert_eq!(
        desk.event(MouseEventKind::Wheel(-360), at(0, 0)),
        vec![MouseOutput::ScrollPane(PaneId(1), -6)]
    );
    assert_eq!(desk.handler.scroll_offset(&PaneId(1)), 0);
}

#[test]
fn a_drag_selects_from_its_first_to_its_last_cell() {
    let mut desk = Desk::new();
    desk.event(MouseEventKind::LeftDown, at(9, 4));
    for (col, row) in [(12, 9), (0, 0), (3, 2)] {
        desk.event(MouseEventKind::Move, at(col, row));
    }
    // The release counts for nothing, wherever it is.
    assert_eq!(
        desk.event(MouseEventKind::LeftUp, at(30, 20)),
        vec![MouseOutput::SelectionChanged(PaneId(1), Some(span(4, 9, 2, 3)))]
    );
    assert_eq!(desk.handler.selection(&PaneId(1)), Some(span(4, 9, 2, 3)));

    desk.event(MouseEventKind::LeftDown, at(9, 4));
    desk.event(MouseEventKind::Move, at(1, 1));
    desk.event(MouseEventKind::Move, at(9, 4));
    assert_eq!(
        desk.event(MouseEventKind::LeftUp, at(9, 4)),
        vec![MouseOutput::SelectionChanged(PaneId(1), None)]
    );
    assert_eq!(desk.handler.selection(&PaneId(1)), None);
}

#[test]
fn a_release_ends_a_drag_of_a_splitter_that_is_gone() {
    let mut desk = Desk::new();
    desk.event(MouseEventKind::LeftDown, Pointer { splitter: Some(0), ..at(0, 0) });
    desk.layout.update(vec![(PaneId(1), Rect { x: 0, y: 0, width: 80, height: 24 })]);
    assert_eq!(desk.layout.splitter_count(), 0);
    assert!(desk.layout.is_dragging());
    assert_eq!(desk.event(MouseEventKind::LeftUp, at(0, 0)), vec![]);
    assert!(!desk.layout.is_dragging());
}

#[test]
fn buttons_are_reported_to_panes_that_ask() {
    let mut desk = Desk::new();
    desk.modes.insert(1, MouseMode::Normal);
    assert_eq!(
        desk.event(MouseEventKind::LeftDown, at(4, 6)),
        vec![
            MouseOutput::FocusPane(PaneId(1)),
            MouseOutput::SendToSession(PaneId(1), b"\x1b[<0;5;7M".to_vec()),
        ]
    );
    assert_eq!(
        desk.event(MouseEventKind::LeftUp, at(4, 6)),
        vec![MouseOutput::SendToSession(PaneId(1), b"\x1b[<0;5;7m".to_vec())]
    );
    assert_eq!(
        desk.event(MouseEventKind::RightDown, at(4, 6)),
        vec![MouseOutput::SendToSession(PaneId(1), b"\x1b[<2;5;7M".to_vec())]
    );
    assert_eq!(
        desk.event(MouseEventKind::Wheel(120), at(4, 6)),
        vec![MouseOutput::SendToSession(PaneId(1), b"\x1b[<64;5;7M".to_vec())]
    );
    assert_eq!(desk.handler.scroll_offset(&PaneId(1)), 0);
}

#[test]
fn motion_is_reported_by_mode() {
    let mut desk = Desk::new();
    desk.modes.insert(1, MouseMode::Normal);
    assert!(desk
        .event(MouseEventKind::Move, at(4, 6))
        .iter()
        .all(|o| !matches!(o, MouseOutput::SendToSession(_, _))));
    desk.modes.insert(1, MouseMode::AnyEvent);
    assert!(desk
        .event(MouseEventKind::Move, at(4, 6))
        .contains(&MouseOutput::SendToSession(PaneId(1), b"\x1b[<35;5;7M".to_vec())));
    desk.modes.insert(1, MouseMode::ButtonEvent);
    desk.event(MouseEventKind::LeftDown, at(4, 6));
    assert!(desk
        .event(MouseEventKind::Move, at(5, 6))
        .contains(&MouseOutput::SendToSession(PaneId(1), b"\x1b[<32;6;7M".to_vec())));
}

#[test]
fn right_button_pastes_unless_it_is_reported() {
    let mut desk = Desk::new();
    assert_eq!(
        desk.event(MouseEventKind::RightDown, at(0, 0)),
        vec![MouseOutput::PasteClipboard(PaneId(1))]
    );
    assert_eq!(desk.event(MouseEventKind::RightUp, at(0, 0)), vec![]);
    assert_eq!(desk.event(MouseEventKind::MiddleDown, at(0, 0)), vec![]);
    desk.modes.insert(1, MouseMode::Normal);
    assert_eq!(
        desk.event(MouseEventKind::MiddleDown, at(0, 0)),
        vec![MouseOutput::SendToSession(PaneId(1), b"\x1b[<1;1;1M".to_vec())]
    );
}

#[test]
fn splitter_drag_resizes_the_pane_before_it() {
    let mut desk = Desk::new();
    let on_splitter = || Pointer { splitter: Some(0), ..at(39, 5) };
    assert_eq!(desk.event(MouseEventKind::LeftDown, on_splitter()), vec![]);
    assert!(desk.layout.is_dragging());
    let dragged = Pointer { dragged_cells: 2, dragged_forward: false, ..at(37, 5) };
    let outputs = desk.event(MouseEventKind::Move, dragged);
    assert!(outputs.contains(&MouseOutput::PaneResize(PaneLayoutAction::Resize {
        pane_id: PaneId(1),
        direction: ResizeDirection::ShrinkRight,
        cells: 2,
    })));
    desk.event(MouseEventKind::LeftUp, at(37, 5));
    assert!(!desk.layout.is_dragging());
}

#[test]
fn cursor_shows_what_a_splitter_does() {
    let mut desk = Desk::new();
    let outputs = desk.event(MouseEventKind::Move, Pointer { splitter: Some(0), ..at(39, 5) });
    assert!(outputs.contains(&MouseOutput::SetCursor(CursorHint::ResizeHorizontal)));
    let outputs = desk.event(MouseEventKind::Move, at(10, 5));
    assert!(outputs.contains(&MouseOutput::SetCursor(CursorHint::Arrow)));
}

#[test]
fn strip_clicks_become_tab_actions() {
    let mut desk = Desk::new();
    desk.strip.add_tab("one".to_string());
    desk.strip.add_tab("two".to_string());
    let on_second = StripHit {
        tabs: vec![TabHit { body: false, close: false }, TabHit { body: true, close: false }],
        ..on_strip()
    };
    assert_eq!(
        desk.event(MouseEventKind::LeftDown, over_strip(on_second)),
        vec![MouseOutput::Tab(TabAction::SwitchTo(1))]
    );
    let on_add = StripHit { add: true, ..on_strip() };
    assert_eq!(
        desk.event(MouseEventKind::LeftDown, over_strip(on_add)),
        vec![MouseOutput::Tab(TabAction::Create)]
    );
}

#[test]
fn scrolling_is_kept_within_the_scrollback() {
    let mut handler = MouseHandler::new();
    let pane = PaneId(7);
    handler.scroll_by(&pane, 30, 20);
    assert_eq!(handler.scroll_offset(&pane), 20);
    handler.scroll_by(&pane, -5, 20);
    assert_eq!(handler.scroll_offset(&pane), 15);
    handler.set_scroll_offset(&pane, -3, 20);
    assert_eq!(handler.scroll_offset(&pane), 0);
    handler.scroll_to_top(&pane, 20);
    assert_eq!(handler.scroll_offset(&pane), 20);
}

#[test]
fn selection_ends_move_one_at_a_time() {
    let mut handler = MouseHandler::new();
    let pane = PaneId(7);
    handler.set_selection_endpoint(&pane, true, 9, 9);
    assert_eq!(handler.selection(&pane), None);
    handler.set_selection(&pane, Some(span(1, 2, 3, 4)));
    handler.set_selection_endpoint(&pane, true, 0, 5);
    assert_eq!(handler.selection(&pane), Some(span(0, 5, 3, 4)));
    handler.set_selection_endpoint(&pane, false, 6, 7);
    assert_eq!(handler.selection(&pane), Some(span(0, 5, 6, 7)));
    handler.clear_selection(&pane);
    assert_eq!(handler.selection(&pane), None);
}

#[test]
fn unknown_panes_ask_for_no_reports() {
    let mut modes = HashMap::new();
    modes.insert(3, MouseMode::AnyEvent);
    assert_eq!(mouse_mode(&modes, PaneId(3)), MouseMode::AnyEvent);
    assert_eq!(mouse_mode(&modes, PaneId(4)), MouseMode::Off);
}
