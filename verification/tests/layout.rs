use wtd_ui::pane_layout::{
    detect_splitters, CursorHint, LayoutHit, Orientation, PaneLayout, PaneLayoutAction, Rect,
    ResizeDirection, Splitter, SplitterGrab,
};
use wtd_ui::panes::PaneId;

fn rect(x: u16, y: u16, width: u16, height: u16) -> Rect {
    Rect { x, y, width, height }
}

fn nowhere() -> LayoutHit {
    LayoutHit { splitter: None, pane: None, dragged_cells: 0, dragged_forward: true }
}

fn on_splitter() -> LayoutHit {
    LayoutHit { splitter: Some(0), ..nowhere() }
}

fn on_pane(pane: u64) -> LayoutHit {
    LayoutHit { pane: Some(PaneId(pane)), ..nowhere() }
}

fn side_by_side() -> PaneLayout {
    let mut layout = PaneLayout::new();
    layout.update(vec![
        (PaneId(1), rect(0, 0, 40, 24)),
        (PaneId(2), rect(40, 0, 40, 24)),
    ]);
    layout
}

fn one_above_the_other() -> PaneLayout {
    let mut layout = PaneLayout::new();
    layout.update(vec![
        (PaneId(1), rect(0, 0, 80, 12)),
        (PaneId(2), rect(0, 12, 80, 12)),
    ]);
    layout
}

#[test]
fn single_pane_no_splitters() {
    let mut layout = PaneLayout::new();
    layout.update(vec![(PaneId(1), rect(0, 0, 80, 24))]);

    assert_eq!(layout.splitter_count(), 0);
    assert_eq!(layout.rects.len(), 1);
}

#[test]
fn horizontal_split_creates_vertical_splitter() {
    let layout = side_by_side();

    assert_eq!(layout.splitter_count(), 1);
    assert_eq!(layout.rects.len(), 2);

    // Splitter should be at column 40.
    let s = &layout.splitters[0];
    assert_eq!(s.orientation, Orientation::Horizontal);
    assert_eq!(s.position, 40);
}

#[test]
fn vertical_split_creates_horizontal_splitter() {
    let layout = one_above_the_other();

    assert_eq!(layout.splitter_count(), 1);

    let s = &layout.splitters[0];
    assert_eq!(s.orientation, Orientation::Vertical);
    assert_eq!(s.position, 12);
}

#[test]
fn four_pane_layout_splitters() {
    let mut layout = PaneLayout::new();
    layout.update(vec![
        (PaneId(1), rect(0, 0, 40, 12)),
        (PaneId(3), rect(0, 12, 40, 12)),
        (PaneId(2), rect(40, 0, 40, 24)),
    ]);

    // 3 panes, 2 splitters: one vertical (between left/right columns),
    // one horizontal (within left column between the first and the third).
    assert_eq!(layout.rects.len(), 3);
    assert_eq!(layout.splitter_count(), 2);
}

#[test]
fn click_inside_pane_returns_focus_action() {
    let mut layout = side_by_side();

    let action = layout.on_mouse_down(&on_pane(2));
    assert_eq!(action, Some(PaneLayoutAction::FocusPane(PaneId(2))));
}

#[test]
fn click_on_splitter_starts_drag() {
    let mut layout = side_by_side();

    let action = layout.on_mouse_down(&on_splitter());
    assert_eq!(action, None); // No action emitted, but drag started.
    assert!(layout.is_dragging());
}

#[test]
fn drag_splitter_produces_resize() {
    let mut layout = side_by_side();

    layout.on_mouse_down(&on_splitter());
    assert!(layout.is_dragging());

    // Move right by one cell width.
    let action = layout.on_mouse_move(&LayoutHit { dragged_cells: 1, ..nowhere() });
    assert!(action.is_some());
    if let Some(PaneLayoutAction::Resize {
        direction, cells, ..
    }) = action
    {
        assert_eq!(direction, ResizeDirection::GrowRight);
        assert_eq!(cells, 1);
    } else {
        panic!("expected Resize action");
    }
}

#[test]
fn mouse_up_ends_drag() {
    let mut layout = side_by_side();

    layout.on_mouse_down(&on_splitter());
    assert!(layout.is_dragging());

    layout.on_mouse_up();
    assert!(!layout.is_dragging());
}

#[test]
fn cursor_hint_on_splitter() {
    let layout = side_by_side();

    // On the vertical splitter.
    assert_eq!(
        layout.cursor_hint(&on_splitter()),
        CursorHint::ResizeHorizontal
    );
    // Away from splitter.
    assert_eq!(layout.cursor_hint(&on_pane(1)), CursorHint::Arrow);
}

#[test]
fn cursor_hint_on_horizontal_splitter() {
    let layout = one_above_the_other();

    assert_eq!(layout.cursor_hint(&on_splitter()), CursorHint::ResizeVertical);
}

#[test]
fn sub_cell_drag_accumulates() {
    let mut layout = side_by_side();

    // Start drag at splitter.
    layout.on_mouse_down(&on_splitter());
    let mut grab = SplitterGrab::new(320);

    // Move less than one cell: no action yet.
    let (dragged_cells, dragged_forward) = grab.advance(323, 8);
    let action =
        layout.on_mouse_move(&LayoutHit { dragged_cells, dragged_forward, ..nowhere() });
    assert_eq!(action, None);

    // Move more: now crosses cell boundary.
    let (dragged_cells, dragged_forward) = grab.advance(329, 8);
    let action =
        layout.on_mouse_move(&LayoutHit { dragged_cells, dragged_forward, ..nowhere() });
    assert!(action.is_some());
    assert_eq!((dragged_cells, dragged_forward), (1, true));
    assert_eq!(grab, SplitterGrab { last: 329, remainder: 1 });
}

#[test]
fn a_drag_back_and_forth_loses_nothing() {
    let mut grab = SplitterGrab::new(100);
    let mut cells: i64 = 0;
    for position in [103, 96, 91, 75, 90, 131, 128] {
        let (n, forward) = grab.advance(position, 8);
        cells += if forward { n as i64 } else { -(n as i64) };
        assert!(grab.remainder.abs() < 8);
    }
    assert_eq!(cells * 8 + grab.remainder, 28);
    assert_eq!(SplitterGrab::new(0).advance(i64::MAX, 1), (u16::MAX, true));
}

#[test]
fn leaving_ends_a_drag() {
    let mut layout = side_by_side();
    layout.on_mouse_down(&on_splitter());
    assert!(layout.is_dragging());
    layout.on_mouse_leave();
    assert!(!layout.is_dragging());
}

#[test]
fn zoomed_pane_single_rect() {
    let mut layout = side_by_side();
    layout.update(vec![(PaneId(1), rect(0, 0, 80, 24))]);

    // Zoomed: only one pane rect, no splitters.
    assert_eq!(layout.rects.len(), 1);
    assert_eq!(layout.splitter_count(), 0);
}

#[test]
fn drag_left_produces_shrink() {
    let mut layout = side_by_side();

    // Start drag at splitter.
    layout.on_mouse_down(&on_splitter());

    // Move left by one cell width.
    let back = LayoutHit { dragged_cells: 1, dragged_forward: false, ..nowhere() };
    let action = layout.on_mouse_move(&back);
    assert!(action.is_some());
    if let Some(PaneLayoutAction::Resize {
        direction, cells, ..
    }) = action
    {
        assert_eq!(direction, ResizeDirection::ShrinkRight);
        assert_eq!(cells, 1);
    } else {
        panic!("expected Resize action");
    }
}

#[test]
fn pieces_of_one_edge_are_joined() {
    // One pane on the left of two, whose edges make one bar.
    let splitters = detect_splitters(&vec![
        (PaneId(1), rect(0, 0, 40, 24)),
        (PaneId(2), rect(40, 0, 40, 12)),
        (PaneId(3), rect(40, 12, 40, 12)),
    ]);
    let bars: Vec<&Splitter> =
        splitters.iter().filter(|s| s.orientation == Orientation::Horizontal).collect();
    assert_eq!(bars.len(), 1);
    assert_eq!((bars[0].position, bars[0].start, bars[0].end), (40, 0, 24));
    assert_eq!(bars[0].pane_before, PaneId(1));
    assert_eq!(splitters.len(), 2);
}

#[test]
fn hovered_and_dragged_splitters_are_hot() {
    let mut layout = side_by_side();
    assert!(!layout.is_hot(0));
    layout.on_mouse_move(&on_splitter());
    assert!(layout.is_hot(0));
    layout.on_mouse_leave();
    assert!(!layout.is_hot(0));
}
