//! Mouse input handling: focus, selection, scroll, paste, and VT mouse reporting.
//!
//! [`MouseHandler`] is the central coordinator for all mouse interactions in the terminal UI. It
//! receives mouse events together with what the pointer hits, and produces [`MouseOutput`]
//! actions for the main loop.
use std::collections::HashMap;

use vstd::prelude::*;

use crate::mouse_encoding::{encode_mouse_event, encode_mouse_motion, MouseButton};
use crate::pane_layout::{CursorHint, LayoutHit, PaneLayout, PaneLayoutAction};
use crate::panes::PaneId;
use crate::renderer::TextSelection;
use crate::screen::MouseMode;
use crate::tab_strip::{StripHit, StripView, TabAction, TabStrip};

verus! {

broadcast use vstd::std_specs::hash::group_hash_axioms;

// ── Constants ────────────────────────────────────────────────────────────────

/// Number of scrollback lines per wheel notch.
pub const SCROLL_LINES_PER_NOTCH: i32 = 3;

/// The wheel movement of one notch.
pub const WHEEL_DELTA: i32 = 120;

// ── Events ───────────────────────────────────────────────────────────────────

/// The kind of a mouse event.
#[derive(Debug, Clone, Copy, PartialEq, Eq, Structural)]
pub enum MouseEventKind {
    LeftDown,
    LeftUp,
    /// The second press of a double click. It is a matter for the window, not for panes.
    LeftDoubleDown,
    RightDown,
    RightUp,
    MiddleDown,
    MiddleUp,
    Move,
    /// Positive away from the user.
    Wheel(i16),
}

/// The part of the window that the pointer is in.
#[derive(Debug, Clone, Copy, PartialEq, Eq, Structural)]
pub enum Area {
    TabStrip,
    Content,
    StatusBar,
}

/// The pointer in terms of one pane.
#[derive(Debug, Clone, Copy, PartialEq, Eq, Structural)]
pub struct PanePointer {
    pub pane: PaneId,
    /// The cell of the pane that is nearest to the pointer.
    pub col: usize,
    pub row: usize,
    /// Whether the pointer is on the pane.
    pub inside: bool,
}

/// Where the pointer is.
#[derive(Debug)]
pub struct Pointer {
    pub area: Area,
    /// What it hits of the tab strip.
    pub strip: StripHit,
    /// The splitter under it.
    pub splitter: Option<usize>,
    /// The whole cells by which it has dragged a splitter since the last resize.
    pub dragged_cells: u16,
    /// Whether it has dragged it to the right or down.
    pub dragged_forward: bool,
    /// For each pane that is laid out.
    pub panes: Vec<PanePointer>,
}

// ── Outputs ──────────────────────────────────────────────────────────────────

/// Action produced by mouse handling for the main loop to execute.
#[derive(Debug, PartialEq, Eq)]
pub enum MouseOutput {
    /// Focus a specific pane.
    FocusPane(PaneId),
    /// Update (or clear) the text selection for a pane.
    SelectionChanged(PaneId, Option<TextSelection>),
    /// A selection is finished and its text is to be copied.
    SelectionFinalized(PaneId, TextSelection),
    /// Splitter resize action (forwarded from the pane layout).
    PaneResize(PaneLayoutAction),
    /// Send raw bytes to a session (VT mouse sequences).
    SendToSession(PaneId, Vec<u8>),
    /// Scroll a pane's scrollback view by the given number of lines (positive = back in history,
    /// negative = towards live).
    ScrollPane(PaneId, i32),
    /// Paste clipboard contents into a pane.
    PasteClipboard(PaneId),
    /// Tab strip action.
    Tab(TabAction),
    /// Change the window cursor shape.
    SetCursor(CursorHint),
}

impl Clone for MouseOutput {
    fn clone(&self) -> (r: MouseOutput)
        ensures
            r@ == self@,
    {
        match self {
            MouseOutput::FocusPane(p) => MouseOutput::FocusPane(*p),
            MouseOutput::SelectionChanged(p, s) => MouseOutput::SelectionChanged(*p, *s),
            MouseOutput::SelectionFinalized(p, s) => MouseOutput::SelectionFinalized(*p, *s),
            MouseOutput::PaneResize(a) => MouseOutput::PaneResize(*a),
            MouseOutput::SendToSession(p, v) => {
                let mut bytes: Vec<u8> = Vec::new();
                bytes.extend_from_slice(v.as_slice());
                assert(bytes@ =~= v@);
                MouseOutput::SendToSession(*p, bytes)
            },
            MouseOutput::ScrollPane(p, n) => MouseOutput::ScrollPane(*p, *n),
            MouseOutput::PasteClipboard(p) => MouseOutput::PasteClipboard(*p),
            MouseOutput::Tab(a) => MouseOutput::Tab(*a),
            MouseOutput::SetCursor(c) => MouseOutput::SetCursor(*c),
        }
    }
}

/// The model of a [`MouseOutput`].
pub enum MouseOutputView {
    FocusPane(PaneId),
    SelectionChanged(PaneId, Option<TextSelection>),
    SelectionFinalized(PaneId, TextSelection),
    PaneResize(PaneLayoutAction),
    SendToSession(PaneId, Seq<u8>),
    ScrollPane(PaneId, i32),
    PasteClipboard(PaneId),
    Tab(TabAction),
    SetCursor(CursorHint),
}

impl View for MouseOutput {
    type V = MouseOutputView;

    open spec fn view(&self) -> MouseOutputView {
        match self {
            MouseOutput::FocusPane(p) => MouseOutputView::FocusPane(*p),
            MouseOutput::SelectionChanged(p, s) => MouseOutputView::SelectionChanged(*p, *s),
            MouseOutput::SelectionFinalized(p, s) => MouseOutputView::SelectionFinalized(*p, *s),
            MouseOutput::PaneResize(a) => MouseOutputView::PaneResize(*a),
            MouseOutput::SendToSession(p, v) => MouseOutputView::SendToSession(*p, v@),
            MouseOutput::ScrollPane(p, n) => MouseOutputView::ScrollPane(*p, *n),
            MouseOutput::PasteClipboard(p) => MouseOutputView::PasteClipboard(*p),
            MouseOutput::Tab(a) => MouseOutputView::Tab(*a),
            MouseOutput::SetCursor(c) => MouseOutputView::SetCursor(*c),
        }
    }
}

/// The models of outputs.
pub open spec fn output_views(v: Seq<MouseOutput>) -> Seq<MouseOutputView> {
    v.map_values(|o: MouseOutput| o@)
}

// ── State ────────────────────────────────────────────────────────────────────

/// What the mouse has done to a pane.
#[derive(Debug, Clone, Copy, PartialEq, Eq, Structural)]
pub struct PaneMouseState {
    /// Current scroll offset into scrollback (0 = live, positive = lines above live).
    pub scroll_offset: i32,
    /// Text selection, if any.
    pub selection: Option<TextSelection>,
}

/// Central mouse input handler coordinating focus, selection, scroll, paste, splitter drag, and
/// VT mouse reporting.
#[derive(Debug)]
pub struct MouseHandler {
    pub panes: HashMap<u64, PaneMouseState>,
    /// Which pane has an active selection drag (only one at a time).
    pub selecting: Option<PaneId>,
    /// Whether the left button is currently held down.
    pub left_down: bool,
    /// Whether a splitter is being dragged.
    pub splitter_dragging: bool,
}

/// The model of a [`MouseHandler`].
#[verifier::ext_equal]
pub struct MouseView {
    pub panes: Map<u64, PaneMouseState>,
    pub selecting: Option<PaneId>,
    pub left_down: bool,
    pub splitter_dragging: bool,
}

impl View for MouseHandler {
    type V = MouseView;

    open spec fn view(&self) -> MouseView {
        MouseView {
            panes: self.panes@,
            selecting: self.selecting,
            left_down: self.left_down,
            splitter_dragging: self.splitter_dragging,
        }
    }
}

/// The state of a pane that the mouse has done nothing to.
pub open spec fn fresh_pane() -> PaneMouseState {
    PaneMouseState { scroll_offset: 0, selection: None }
}

impl MouseView {
    /// The state of a pane.
    pub open spec fn pane(self, p: PaneId) -> PaneMouseState {
        if self.panes.dom().contains(p.0) {
            self.panes[p.0]
        } else {
            fresh_pane()
        }
    }

    /// The handler with another state for a pane.
    pub open spec fn with_pane(self, p: PaneId, s: PaneMouseState) -> MouseView {
        MouseView { panes: self.panes.insert(p.0, s), ..self }
    }

    /// No pane is scrolled to below live.
    pub open spec fn sound(self) -> bool {
        forall|k: u64|
            self.panes.dom().contains(k) ==> (#[trigger] self.panes[k]).scroll_offset >= 0
    }
}

/// A selection of one cell.
pub open spec fn point_selection(row: usize, col: usize) -> TextSelection {
    TextSelection { start_row: row, start_col: col, end_row: row, end_col: col }
}

/// A number kept between zero and a limit.
pub open spec fn clamped(n: int, max: int) -> int {
    if n < 0 {
        0
    } else if n > max {
        max
    } else {
        n
    }
}

// ── Reactions ────────────────────────────────────────────────────────────────

/// What a mouse event results in.
pub struct Reaction {
    pub outputs: Seq<MouseOutputView>,
    pub mouse: MouseView,
    pub strip: StripView,
    /// The splitter that the layout drags.
    pub drag: Option<usize>,
    /// The splitter that the layout hovers.
    pub hover: Option<usize>,
}

/// The pane under the pointer.
pub open spec fn pane_under(panes: Seq<PanePointer>) -> Option<PaneId> {
    let i = crate::seqs::first_where(0, panes.len() as int, |i: int| panes[i].inside);
    if i < panes.len() {
        Some(panes[i].pane)
    } else {
        None
    }
}

/// The pointer in terms of a pane, if the pane is laid out.
pub open spec fn pointer_in(panes: Seq<PanePointer>, p: PaneId) -> Option<PanePointer> {
    let i = crate::seqs::first_where(0, panes.len() as int, |i: int| panes[i].pane == p);
    if i < panes.len() {
        Some(panes[i])
    } else {
        None
    }
}

/// The mouse mode of a pane.
pub open spec fn mode_of(modes: Map<u64, MouseMode>, p: PaneId) -> MouseMode {
    if modes.dom().contains(p.0) {
        modes[p.0]
    } else {
        MouseMode::Off
    }
}

/// The layout's view of the pointer.
pub open spec fn layout_hit(ptr: Pointer) -> LayoutHit {
    LayoutHit {
        splitter: ptr.splitter,
        pane: pane_under(ptr.panes@),
        dragged_cells: ptr.dragged_cells,
        dragged_forward: ptr.dragged_forward,
    }
}

/// A report to the session of a pane that asked for mouse events and is under the pointer.
pub open spec fn button_report(
    modes: Map<u64, MouseMode>,
    ptr: Pointer,
    p: PaneId,
    button: MouseButton,
    press: bool,
) -> Seq<MouseOutputView> {
    match pointer_in(ptr.panes@, p) {
        Some(at) if mode_of(modes, p) != MouseMode::Off && at.inside => seq![
            MouseOutputView::SendToSession(
                p,
                crate::mouse_encoding::mouse_event_bytes(
                    button,
                    press,
                    at.col as nat,
                    at.row as nat,
                    0,
                    true,
                ),
            ),
        ],
        _ => Seq::empty(),
    }
}

/// The left button goes down.
pub open spec fn on_left_down(
    m: MouseView,
    strip: StripView,
    layout: PaneLayout,
    ptr: Pointer,
    modes: Map<u64, MouseMode>,
) -> Reaction {
    let m = MouseView { left_down: true, ..m };
    let quiet = Reaction {
        outputs: Seq::empty(),
        mouse: m,
        strip,
        drag: layout.drag,
        hover: layout.hover,
    };
    match ptr.area {
        Area::TabStrip => {
            let (action, strip) = crate::tab_strip::pressed(strip, ptr.strip);
            Reaction { outputs: tab_outputs(action), strip, ..quiet }
        },
        Area::StatusBar => quiet,
        Area::Content => if ptr.splitter is Some {
            Reaction {
                mouse: MouseView { splitter_dragging: true, ..m },
                drag: ptr.splitter,
                ..quiet
            }
        } else {
            match pane_under(ptr.panes@) {
                None => Reaction {
                    mouse: MouseView {
                        splitter_dragging: m.splitter_dragging || layout.drag is Some,
                        ..m
                    },
                    ..quiet
                },
                Some(p) => match pointer_in(ptr.panes@, p) {
                    None => Reaction { outputs: seq![MouseOutputView::FocusPane(p)], ..quiet },
                    Some(at) => if mode_of(modes, p) != MouseMode::Off {
                        Reaction {
                            outputs: seq![
                                MouseOutputView::FocusPane(p),
                                MouseOutputView::SendToSession(
                                    p,
                                    crate::mouse_encoding::mouse_event_bytes(
                                        MouseButton::Left,
                                        true,
                                        at.col as nat,
                                        at.row as nat,
                                        0,
                                        true,
                                    ),
                                ),
                            ],
                            ..quiet
                        }
                    } else {
                        Reaction {
                            outputs: seq![
                                MouseOutputView::FocusPane(p),
                                MouseOutputView::SelectionChanged(p, None),
                            ],
                            mouse: MouseView {
                                selecting: Some(p),
                                ..m.with_pane(
                                    p,
                                    PaneMouseState {
                                        scroll_offset: m.pane(p).scroll_offset,
                                        selection: Some(point_selection(at.row, at.col)),
                                    },
                                )
                            },
                            ..quiet
                        }
                    },
                },
            }
        },
    }
}

/// The output for an action of the tab strip, if there is one.
pub open spec fn tab_outputs(action: Option<TabAction>) -> Seq<MouseOutputView> {
    match action {
        Some(a) => seq![MouseOutputView::Tab(a)],
        None => Seq::empty(),
    }
}

/// What the end of a selection drag results in: a selection of one cell is none.
pub open spec fn finish_selection(m: MouseView) -> (Seq<MouseOutputView>, MouseView) {
    let rest = MouseView { selecting: None, ..m };
    match m.selecting {
        None => (Seq::empty(), m),
        Some(p) => match m.pane(p).selection {
            None => (Seq::empty(), rest),
            Some(sel) => if sel.start_row != sel.end_row || sel.start_col != sel.end_col {
                (seq![MouseOutputView::SelectionChanged(p, Some(sel))], rest)
            } else {
                (
                    seq![MouseOutputView::SelectionChanged(p, None)],
                    rest.with_pane(
                        p,
                        PaneMouseState { scroll_offset: m.pane(p).scroll_offset, selection: None },
                    ),
                )
            },
        },
    }
}

/// The left button goes up.
pub open spec fn on_left_up(
    m: MouseView,
    strip: StripView,
    layout: PaneLayout,
    ptr: Pointer,
    focused: PaneId,
    modes: Map<u64, MouseMode>,
) -> Reaction {
    let (action, after) = if ptr.area == Area::TabStrip {
        crate::tab_strip::released(strip, ptr.strip.drop_index)
    } else {
        (None, strip)
    };
    let m1 = MouseView { left_down: false, splitter_dragging: false, ..m };
    let (selection, m2) = finish_selection(m1);
    Reaction {
        outputs: tab_outputs(action) + selection + button_report(
            modes,
            ptr,
            focused,
            MouseButton::Left,
            false,
        ),
        mouse: m2,
        strip: after,
        drag: if m.splitter_dragging {
            None
        } else {
            layout.drag
        },
        hover: layout.hover,
    }
}

/// What a move of the pointer does to a selection that is being dragged.
pub open spec fn drag_selection(m: MouseView, ptr: Pointer) -> (Seq<MouseOutputView>, MouseView) {
    match m.selecting {
        Some(p) if m.left_down => match pointer_in(ptr.panes@, p) {
            Some(at) => match m.pane(p).selection {
                Some(sel) => {
                    let sel = TextSelection { end_row: at.row, end_col: at.col, ..sel };
                    (
                        seq![MouseOutputView::SelectionChanged(p, Some(sel))],
                        m.with_pane(
                            p,
                            PaneMouseState {
                                scroll_offset: m.pane(p).scroll_offset,
                                selection: Some(sel),
                            },
                        ),
                    )
                },
                None => (Seq::empty(), m),
            },
            None => (Seq::empty(), m),
        },
        _ => (Seq::empty(), m),
    }
}

/// Whether a session with the given mouse mode hears of a move of the pointer.
pub open spec fn hears_motion(mode: MouseMode, left_down: bool) -> bool {
    match mode {
        MouseMode::AnyEvent => true,
        MouseMode::ButtonEvent => left_down,
        _ => false,
    }
}

/// A report of a move to the session of the focused pane.
pub open spec fn motion_report(
    m: MouseView,
    ptr: Pointer,
    focused: PaneId,
    modes: Map<u64, MouseMode>,
) -> Seq<MouseOutputView> {
    match pointer_in(ptr.panes@, focused) {
        Some(at) if hears_motion(mode_of(modes, focused), m.left_down) && at.inside => seq![
            MouseOutputView::SendToSession(
                focused,
                crate::mouse_encoding::mouse_motion_bytes(
                    if m.left_down {
                        MouseButton::Left
                    } else {
                        MouseButton::NoButton
                    },
                    at.col as nat,
                    at.row as nat,
                    0,
                    true,
                ),
            ),
        ],
        _ => Seq::empty(),
    }
}

/// The cursor shape over the content.
pub open spec fn cursor_over(layout: PaneLayout, ptr: Pointer) -> CursorHint {
    match layout.drag {
        Some(i) => crate::pane_layout::resize_cursor(layout.splitters@[i as int].orientation),
        None => match ptr.splitter {
            Some(i) => crate::pane_layout::resize_cursor(layout.splitters@[i as int].orientation),
            None => CursorHint::Arrow,
        },
    }
}

/// The pointer moves.
pub open spec fn on_move(
    m: MouseView,
    strip: StripView,
    layout: PaneLayout,
    ptr: Pointer,
    focused: PaneId,
    modes: Map<u64, MouseMode>,
) -> Reaction {
    let strip = if ptr.area == Area::TabStrip {
        crate::tab_strip::pointed(strip, ptr.strip)
    } else {
        strip
    };
    if m.splitter_dragging {
        Reaction {
            outputs: match crate::pane_layout::move_action(layout, layout_hit(ptr)) {
                Some(a) => seq![MouseOutputView::PaneResize(a)],
                None => Seq::empty(),
            },
            mouse: m,
            strip,
            drag: layout.drag,
            hover: ptr.splitter,
        }
    } else {
        let (selection, m2) = drag_selection(m, ptr);
        Reaction {
            outputs: (if ptr.area == Area::Content {
                seq![MouseOutputView::SetCursor(cursor_over(layout, ptr))]
            } else {
                Seq::empty()
            }) + selection + motion_report(m2, ptr, focused, modes),
            mouse: m2,
            strip,
            drag: layout.drag,
            hover: if ptr.area == Area::Content {
                ptr.splitter
            } else {
                layout.hover
            },
        }
    }
}

/// The right or middle button goes down or up. A press of the right button pastes, unless the
/// session has asked for mouse events.
pub open spec fn on_other_button(
    ptr: Pointer,
    focused: PaneId,
    modes: Map<u64, MouseMode>,
    button: MouseButton,
    press: bool,
) -> Seq<MouseOutputView> {
    if ptr.area != Area::Content {
        Seq::empty()
    } else if mode_of(modes, focused) == MouseMode::Off && button == MouseButton::Right && press {
        seq![MouseOutputView::PasteClipboard(focused)]
    } else {
        button_report(modes, ptr, focused, button, press)
    }
}

/// The lines that the wheel scrolls: three for each whole notch.
pub open spec fn wheel_lines(delta: i16) -> int {
    if delta >= 0 {
        delta as int / 120 * 3
    } else {
        -((-delta) / 120 * 3)
    }
}

/// The notches that a session is told of: any part of a notch counts as one.
pub open spec fn wheel_notches(delta: i16) -> int {
    ((if delta >= 0 {
        delta as int
    } else {
        -delta
    }) + 119) / 120
}

/// The pane that the wheel is for: the one under the pointer, or else the focused one.
pub open spec fn wheel_pane(ptr: Pointer, focused: PaneId) -> PaneId {
    match pane_under(ptr.panes@) {
        Some(p) => p,
        None => focused,
    }
}

/// Whether an offset that the wheel leads to can be counted. The wheel scrolls over the content, in
/// a pane whose session has not asked for mouse events.
pub open spec fn wheel_fits(
    m: MouseView,
    ptr: Pointer,
    focused: PaneId,
    modes: Map<u64, MouseMode>,
    delta: i16,
) -> bool {
    let p = wheel_pane(ptr, focused);
    ptr.area == Area::Content && mode_of(modes, p) == MouseMode::Off ==> m.pane(p).scroll_offset
        + wheel_lines(delta) <= i32::MAX
}

/// The wheel turns. A pane is scrolled by the lines of the wheel, but not beyond live.
pub open spec fn on_wheel(
    m: MouseView,
    ptr: Pointer,
    focused: PaneId,
    modes: Map<u64, MouseMode>,
    delta: i16,
) -> (Seq<MouseOutputView>, MouseView) {
    let p = wheel_pane(ptr, focused);
    if ptr.area != Area::Content {
        (Seq::empty(), m)
    } else if mode_of(modes, p) != MouseMode::Off {
        match pointer_in(ptr.panes@, p) {
            None => (Seq::empty(), m),
            Some(at) => (
                Seq::new(
                    wheel_notches(delta) as nat,
                    |i: int|
                        MouseOutputView::SendToSession(
                            p,
                            crate::mouse_encoding::mouse_event_bytes(
                                if delta > 0 {
                                    MouseButton::WheelUp
                                } else {
                                    MouseButton::WheelDown
                                },
                                true,
                                at.col as nat,
                                at.row as nat,
                                0,
                                true,
                            ),
                        ),
                ),
                m,
            ),
        }
    } else {
        let before = m.pane(p).scroll_offset;
        let offset = (if before + wheel_lines(delta) < 0 {
            0
        } else {
            before + wheel_lines(delta)
        }) as i32;
        (
            seq![MouseOutputView::ScrollPane(p, (offset - before) as i32)],
            m.with_pane(
                p,
                PaneMouseState { scroll_offset: offset, selection: m.pane(p).selection },
            ),
        )
    }
}

/// What a mouse event results in.
pub open spec fn reaction(
    m: MouseView,
    strip: StripView,
    layout: PaneLayout,
    kind: MouseEventKind,
    ptr: Pointer,
    focused: PaneId,
    modes: Map<u64, MouseMode>,
) -> Reaction {
    let quiet = Reaction {
        outputs: Seq::empty(),
        mouse: m,
        strip,
        drag: layout.drag,
        hover: layout.hover,
    };
    match kind {
        MouseEventKind::LeftDown => on_left_down(m, strip, layout, ptr, modes),
        MouseEventKind::LeftUp => on_left_up(m, strip, layout, ptr, focused, modes),
        MouseEventKind::LeftDoubleDown => quiet,
        MouseEventKind::Move => on_move(m, strip, layout, ptr, focused, modes),
        MouseEventKind::RightDown => Reaction {
            outputs: on_other_button(ptr, focused, modes, MouseButton::Right, true),
            ..quiet
        },
        MouseEventKind::RightUp => Reaction {
            outputs: on_other_button(ptr, focused, modes, MouseButton::Right, false),
            ..quiet
        },
        MouseEventKind::MiddleDown => Reaction {
            outputs: on_other_button(ptr, focused, modes, MouseButton::Middle, true),
            ..quiet
        },
        MouseEventKind::MiddleUp => Reaction {
            outputs: on_other_button(ptr, focused, modes, MouseButton::Middle, false),
            ..quiet
        },
        MouseEventKind::Wheel(delta) => {
            let (outputs, mouse) = on_wheel(m, ptr, focused, modes, delta);
            Reaction { outputs, mouse, ..quiet }
        },
    }
}

/// Whether a pointer can be reported: no cell is at the end of the number range, and a splitter
/// that it is over exists.
pub open spec fn pointer_ok(ptr: Pointer, layout: PaneLayout) -> bool {
    &&& forall|i: int|
        0 <= i < ptr.panes@.len() ==> (#[trigger] ptr.panes@[i]).col < usize::MAX
            && ptr.panes@[i].row < usize::MAX
    &&& ptr.splitter matches Some(i) ==> i < layout.splitters@.len()
}

/// Finds the pane under the pointer.
fn find_under(panes: &Vec<PanePointer>) -> (r: Option<PaneId>)
    ensures
        r == pane_under(panes@),
{
    let ghost p = |i: int| panes@[i].inside;
    let mut i: usize = 0;
    while i < panes.len()
        invariant
            i <= panes@.len(),
            p == (|i: int| panes@[i].inside),
            forall|j: int| 0 <= j < i ==> !#[trigger] p(j),
        decreases panes.len() - i,
    {
        if panes[i].inside {
            proof {
                assert(p(i as int));
                crate::seqs::lemma_first_where_is(0, panes@.len() as int, p, i as int);
            }
            return Some(panes[i].pane);
        }
        assert(!p(i as int));
        i += 1;
    }
    proof {
        crate::seqs::lemma_first_where_is(0, panes@.len() as int, p, i as int);
    }
    None
}

/// Finds the pointer in terms of a pane.
fn find_pointer(panes: &Vec<PanePointer>, pane: PaneId) -> (r: Option<PanePointer>)
    ensures
        r == pointer_in(panes@, pane),
        r matches Some(at) ==> panes@.contains(at),
{
    let ghost p = |i: int| panes@[i].pane == pane;
    let mut i: usize = 0;
    while i < panes.len()
        invariant
            i <= panes@.len(),
            p == (|i: int| panes@[i].pane == pane),
            forall|j: int| 0 <= j < i ==> !#[trigger] p(j),
        decreases panes.len() - i,
    {
        if panes[i].pane == pane {
            proof {
                assert(p(i as int));
                crate::seqs::lemma_first_where_is(0, panes@.len() as int, p, i as int);
            }
            return Some(panes[i]);
        }
        assert(!p(i as int));
        i += 1;
    }
    proof {
        crate::seqs::lemma_first_where_is(0, panes@.len() as int, p, i as int);
    }
    None
}

/// Looks up the mouse mode of a pane.
pub fn mouse_mode(modes: &HashMap<u64, MouseMode>, pane: PaneId) -> (r: MouseMode)
    ensures
        r == mode_of(modes@, pane),
{
    match modes.get(&pane.0) {
        Some(m) => *m,
        None => MouseMode::Off,
    }
}

/// Appends the report of a button to the session of a pane.
fn push_button_report(
    outputs: &mut Vec<MouseOutput>,
    modes: &HashMap<u64, MouseMode>,
    ptr: &Pointer,
    pane: PaneId,
    button: MouseButton,
    press: bool,
)
    requires
        forall|i: int|
            0 <= i < ptr.panes@.len() ==> (#[trigger] ptr.panes@[i]).col < usize::MAX
                && ptr.panes@[i].row < usize::MAX,
    ensures
        output_views(final(outputs)@) == output_views(old(outputs)@) + button_report(
            modes@,
            *ptr,
            pane,
            button,
            press,
        ),
{
    if mouse_mode(modes, pane) != MouseMode::Off {
        if let Some(at) = find_pointer(&ptr.panes, pane) {
            if at.inside {
                let bytes = encode_mouse_event(button, press, at.col, at.row, 0, true);
                outputs.push(MouseOutput::SendToSession(pane, bytes));
            }
        }
    }
    assert(output_views(outputs@) =~= output_views(old(outputs)@) + button_report(
        modes@,
        *ptr,
        pane,
        button,
        press,
    ));
}

impl MouseHandler {
    /// A handler that has seen no events.
    pub fn new() -> (r: MouseHandler)
        ensures
            r@ == (MouseView {
                panes: Map::empty(),
                selecting: None,
                left_down: false,
                splitter_dragging: false,
            }),
            r@.sound(),
    {
        MouseHandler {
            panes: HashMap::new(),
            selecting: None,
            left_down: false,
            splitter_dragging: false,
        }
    }

    /// The state of a pane.
    fn pane_state(&self, pane: PaneId) -> (r: PaneMouseState)
        ensures
            r == self@.pane(pane),
    {
        match self.panes.get(&pane.0) {
            Some(s) => *s,
            None => PaneMouseState { scroll_offset: 0, selection: None },
        }
    }

    /// Current scroll offset for a pane (0 = live).
    pub fn scroll_offset(&self, pane_id: &PaneId) -> (r: i32)
        ensures
            r == self@.pane(*pane_id).scroll_offset,
    {
        self.pane_state(*pane_id).scroll_offset
    }

    /// Current text selection for a pane, if any.
    pub fn selection(&self, pane_id: &PaneId) -> (r: Option<TextSelection>)
        ensures
            r == self@.pane(*pane_id).selection,
    {
        self.pane_state(*pane_id).selection
    }

    /// Remove a pane from tracking (e.g., when closed).
    pub fn remove_pane(&mut self, pane_id: &PaneId)
        ensures
            final(self)@ == (MouseView {
                panes: old(self)@.panes.remove(pane_id.0),
                selecting: if old(self)@.selecting == Some(*pane_id) {
                    None
                } else {
                    old(self)@.selecting
                },
                ..old(self)@
            }),
            old(self)@.sound() ==> final(self)@.sound(),
    {
        self.panes.remove(&pane_id.0);
        if self.selecting == Some(*pane_id) {
            self.selecting = None;
        }
    }

    /// Clear selection for a pane (e.g., when new input arrives).
    pub fn clear_selection(&mut self, pane_id: &PaneId)
        ensures
            final(self)@ == without_selection(old(self)@, *pane_id),
            old(self)@.sound() ==> final(self)@.sound(),
    {
        let found = match self.panes.get(&pane_id.0) {
            Some(s) => Some(*s),
            None => None,
        };
        if let Some(s) = found {
            self.panes.insert(
                pane_id.0,
                PaneMouseState { scroll_offset: s.scroll_offset, selection: None },
            );
        }
        if self.selecting == Some(*pane_id) {
            self.selecting = None;
        }
    }

    /// Set or clear the selection of a pane.
    pub fn set_selection(&mut self, pane_id: &PaneId, selection: Option<TextSelection>)
        ensures
            final(self)@ == with_selection(old(self)@, *pane_id, selection),
            old(self)@.sound() ==> final(self)@.sound(),
    {
        let s = self.pane_state(*pane_id);
        self.panes.insert(
            pane_id.0,
            PaneMouseState { scroll_offset: s.scroll_offset, selection },
        );
    }

    /// Move one end of the selection of a pane, if it has one.
    pub fn set_selection_endpoint(
        &mut self,
        pane_id: &PaneId,
        move_start: bool,
        row: usize,
        col: usize,
    )
        ensures
            final(self)@ == with_endpoint(old(self)@, *pane_id, move_start, row, col),
            old(self)@.sound() ==> final(self)@.sound(),
    {
        let s = self.pane_state(*pane_id);
        if let Some(sel) = s.selection {
            let moved = if move_start {
                TextSelection {
                    start_row: row,
                    start_col: col,
                    end_row: sel.end_row,
                    end_col: sel.end_col,
                }
            } else {
                TextSelection {
                    start_row: sel.start_row,
                    start_col: sel.start_col,
                    end_row: row,
                    end_col: col,
                }
            };
            self.panes.insert(
                pane_id.0,
                PaneMouseState { scroll_offset: s.scroll_offset, selection: Some(moved) },
            );
        }
    }

    /// Reset scroll offset for a pane back to live (0).
    pub fn reset_scroll(&mut self, pane_id: &PaneId)
        ensures
            final(self)@ == if old(self)@.panes.dom().contains(pane_id.0) {
                with_offset(old(self)@, *pane_id, 0)
            } else {
                old(self)@
            },
            old(self)@.sound() ==> final(self)@.sound(),
    {
        let found = match self.panes.get(&pane_id.0) {
            Some(s) => Some(*s),
            None => None,
        };
        if let Some(s) = found {
            self.panes.insert(
                pane_id.0,
                PaneMouseState { scroll_offset: 0, selection: s.selection },
            );
        }
    }

    /// Clamp scroll offset to valid range given the pane's scrollback length.
    pub fn clamp_scroll(&mut self, pane_id: &PaneId, max_scrollback: i32)
        requires
            max_scrollback >= 0,
        ensures
            final(self)@ == if old(self)@.panes.dom().contains(pane_id.0) {
                with_offset(
                    old(self)@,
                    *pane_id,
                    clamped(
                        old(self)@.pane(*pane_id).scroll_offset as int,
                        max_scrollback as int,
                    ),
                )
            } else {
                old(self)@
            },
            old(self)@.sound() ==> final(self)@.sound(),
    {
        let found = match self.panes.get(&pane_id.0) {
            Some(s) => Some(*s),
            None => None,
        };
        if let Some(s) = found {
            self.panes.insert(
                pane_id.0,
                PaneMouseState {
                    scroll_offset: clamp(s.scroll_offset as i64, max_scrollback),
                    selection: s.selection,
                },
            );
        }
    }

    /// Scroll a pane to the given offset, kept within its scrollback.
    pub fn set_scroll_offset(&mut self, pane_id: &PaneId, offset: i32, max_scrollback: i32)
        requires
            max_scrollback >= 0,
        ensures
            final(self)@ == with_offset(
                old(self)@,
                *pane_id,
                clamped(offset as int, max_scrollback as int),
            ),
            old(self)@.sound() ==> final(self)@.sound(),
    {
        let s = self.pane_state(*pane_id);
        self.panes.insert(
            pane_id.0,
            PaneMouseState {
                scroll_offset: clamp(offset as i64, max_scrollback),
                selection: s.selection,
            },
        );
    }

    /// Scroll a pane by a number of lines (positive = back in history), kept within its
    /// scrollback.
    pub fn scroll_by(&mut self, pane_id: &PaneId, lines: i32, max_scrollback: i32)
        requires
            max_scrollback >= 0,
        ensures
            final(self)@ == with_offset(
                old(self)@,
                *pane_id,
                clamped(
                    old(self)@.pane(*pane_id).scroll_offset + lines,
                    max_scrollback as int,
                ),
            ),
            old(self)@.sound() ==> final(self)@.sound(),
    {
        let s = self.pane_state(*pane_id);
        self.panes.insert(
            pane_id.0,
            PaneMouseState {
                scroll_offset: clamp(s.scroll_offset as i64 + lines as i64, max_scrollback),
                selection: s.selection,
            },
        );
    }

    /// Scroll a pane to the oldest line of its scrollback.
    pub fn scroll_to_top(&mut self, pane_id: &PaneId, max_scrollback: i32)
        requires
            max_scrollback >= 0,
        ensures
            final(self)@ == with_offset(old(self)@, *pane_id, max_scrollback as int),
            old(self)@.sound() ==> final(self)@.sound(),
    {
        self.set_scroll_offset(pane_id, max_scrollback, max_scrollback);
    }

    /// Process a mouse event and return any actions the main loop should execute.
    pub fn handle_event(
        &mut self,
        kind: MouseEventKind,
        ptr: &Pointer,
        tab_strip: &mut TabStrip,
        pane_layout: &mut PaneLayout,
        focused_pane: PaneId,
        mouse_modes: &HashMap<u64, MouseMode>,
    ) -> (outputs: Vec<MouseOutput>)
        requires
            old(self)@.sound(),
            pointer_ok(*ptr, *old(pane_layout)),
            kind == MouseEventKind::Move ==> old(pane_layout).drag_in_range(),
            kind matches MouseEventKind::Wheel(delta) ==> wheel_fits(
                old(self)@,
                *ptr,
                focused_pane,
                mouse_modes@,
                delta,
            ),
        ensures
            ({
                let r = reaction(
                    old(self)@,
                    old(tab_strip)@,
                    *old(pane_layout),
                    kind,
                    *ptr,
                    focused_pane,
                    mouse_modes@,
                );
                &&& output_views(outputs@) == r.outputs
                &&& final(self)@ == r.mouse
                &&& final(tab_strip)@ == r.strip
                &&& final(pane_layout).drag == r.drag
                &&& final(pane_layout).hover == r.hover
                &&& final(pane_layout).rects == old(pane_layout).rects
                &&& final(pane_layout).splitters == old(pane_layout).splitters
            }),
            final(self)@.sound(),
            old(pane_layout).drag_in_range() ==> final(pane_layout).drag_in_range(),
    {
        match kind {
            MouseEventKind::LeftDown => self.left_button_down(
                ptr,
                tab_strip,
                pane_layout,
                mouse_modes,
            ),
            MouseEventKind::LeftUp => self.left_button_up(
                ptr,
                tab_strip,
                pane_layout,
                focused_pane,
                mouse_modes,
            ),
            MouseEventKind::Move => self.pointer_move(
                ptr,
                tab_strip,
                pane_layout,
                focused_pane,
                mouse_modes,
            ),
            MouseEventKind::LeftDoubleDown => {
                let outputs: Vec<MouseOutput> = Vec::new();
                assert(output_views(outputs@) =~= Seq::empty());
                outputs
            },
            MouseEventKind::RightDown => other_button(
                ptr,
                focused_pane,
                mouse_modes,
                MouseButton::Right,
                true,
            ),
            MouseEventKind::RightUp => other_button(
                ptr,
                focused_pane,
                mouse_modes,
                MouseButton::Right,
                false,
            ),
            MouseEventKind::MiddleDown => other_button(
                ptr,
                focused_pane,
                mouse_modes,
                MouseButton::Middle,
                true,
            ),
            MouseEventKind::MiddleUp => other_button(
                ptr,
                focused_pane,
                mouse_modes,
                MouseButton::Middle,
                false,
            ),
            MouseEventKind::Wheel(delta) => self.wheel(ptr, focused_pane, mouse_modes, delta),
        }
    }

    fn left_button_down(
        &mut self,
        ptr: &Pointer,
        tab_strip: &mut TabStrip,
        pane_layout: &mut PaneLayout,
        mouse_modes: &HashMap<u64, MouseMode>,
    ) -> (outputs: Vec<MouseOutput>)
        requires
            old(self)@.sound(),
            pointer_ok(*ptr, *old(pane_layout)),
        ensures
            ({
                let r = on_left_down(
                    old(self)@,
                    old(tab_strip)@,
                    *old(pane_layout),
                    *ptr,
                    mouse_modes@,
                );
                &&& output_views(outputs@) == r.outputs
                &&& final(self)@ == r.mouse
                &&& final(tab_strip)@ == r.strip
                &&& final(pane_layout).drag == r.drag
                &&& final(pane_layout).hover == r.hover
                &&& final(pane_layout).rects == old(pane_layout).rects
                &&& final(pane_layout).splitters == old(pane_layout).splitters
            }),
            final(self)@.sound(),
            old(pane_layout).drag_in_range() ==> final(pane_layout).drag_in_range(),
    {
        let ghost r = on_left_down(
            old(self)@,
            old(tab_strip)@,
            *old(pane_layout),
            *ptr,
            mouse_modes@,
        );
        let mut outputs: Vec<MouseOutput> = Vec::new();
        self.left_down = true;
        match ptr.area {
            Area::TabStrip => {
                if let Some(action) = tab_strip.on_mouse_down(&ptr.strip) {
                    outputs.push(MouseOutput::Tab(action));
                }
            },
            Area::StatusBar => {},
            Area::Content => {
                let hit = LayoutHit {
                    splitter: ptr.splitter,
                    pane: find_under(&ptr.panes),
                    dragged_cells: ptr.dragged_cells,
                    dragged_forward: ptr.dragged_forward,
                };
                match pane_layout.on_mouse_down(&hit) {
                    Some(PaneLayoutAction::FocusPane(pane_id)) => {
                        outputs.push(MouseOutput::FocusPane(pane_id));
                        if let Some(at) = find_pointer(&ptr.panes, pane_id) {
                            if mouse_mode(mouse_modes, pane_id) != MouseMode::Off {
                                let bytes = encode_mouse_event(
                                    MouseButton::Left,
                                    true,
                                    at.col,
                                    at.row,
                                    0,
                                    true,
                                );
                                outputs.push(MouseOutput::SendToSession(pane_id, bytes));
                            } else {
                                let s = self.pane_state(pane_id);
                                self.panes.insert(
                                    pane_id.0,
                                    PaneMouseState {
                                        scroll_offset: s.scroll_offset,
                                        selection: Some(
                                            TextSelection {
                                                start_row: at.row,
                                                start_col: at.col,
                                                end_row: at.row,
                                                end_col: at.col,
                                            },
                                        ),
                                    },
                                );
                                self.selecting = Some(pane_id);
                                // The first click clears any visible selection.
                                outputs.push(MouseOutput::SelectionChanged(pane_id, None));
                            }
                        }
                    },
                    Some(action) => {
                        self.splitter_dragging = true;
                        outputs.push(MouseOutput::PaneResize(action));
                    },
                    None => {
                        if pane_layout.is_dragging() {
                            self.splitter_dragging = true;
                        }
                    },
                }
            },
        }
        assert(output_views(outputs@) =~= r.outputs);
        assert(self@ =~= r.mouse);
        outputs
    }

    fn left_button_up(
        &mut self,
        ptr: &Pointer,
        tab_strip: &mut TabStrip,
        pane_layout: &mut PaneLayout,
        focused_pane: PaneId,
        mouse_modes: &HashMap<u64, MouseMode>,
    ) -> (outputs: Vec<MouseOutput>)
        requires
            old(self)@.sound(),
            pointer_ok(*ptr, *old(pane_layout)),
        ensures
            ({
                let r = on_left_up(
                    old(self)@,
                    old(tab_strip)@,
                    *old(pane_layout),
                    *ptr,
                    focused_pane,
                    mouse_modes@,
                );
                &&& output_views(outputs@) == r.outputs
                &&& final(self)@ == r.mouse
                &&& final(tab_strip)@ == r.strip
                &&& final(pane_layout).drag == r.drag
                &&& final(pane_layout).hover == r.hover
                &&& final(pane_layout).rects == old(pane_layout).rects
                &&& final(pane_layout).splitters == old(pane_layout).splitters
            }),
            final(self)@.sound(),
            old(pane_layout).drag_in_range() ==> final(pane_layout).drag_in_range(),
    {
        let ghost r = on_left_up(
            old(self)@,
            old(tab_strip)@,
            *old(pane_layout),
            *ptr,
            focused_pane,
            mouse_modes@,
        );
        let mut outputs: Vec<MouseOutput> = Vec::new();
        self.left_down = false;
        if ptr.area == Area::TabStrip {
            if let Some(action) = tab_strip.on_mouse_up(&ptr.strip) {
                outputs.push(MouseOutput::Tab(action));
            }
        }
        let ghost tab_part = output_views(outputs@);
        if self.splitter_dragging {
            pane_layout.on_mouse_up();
            self.splitter_dragging = false;
        }
        let ghost m1 = self@;
        assert(m1 =~= (MouseView { left_down: false, splitter_dragging: false, ..old(self)@ }));
        if let Some(pane_id) = self.selecting {
            self.selecting = None;
            let s = self.pane_state(pane_id);
            if let Some(sel) = s.selection {
                if sel.start_row != sel.end_row || sel.start_col != sel.end_col {
                    outputs.push(MouseOutput::SelectionChanged(pane_id, Some(sel)));
                } else {
                    self.panes.insert(
                        pane_id.0,
                        PaneMouseState { scroll_offset: s.scroll_offset, selection: None },
                    );
                    outputs.push(MouseOutput::SelectionChanged(pane_id, None));
                }
            }
        }
        assert(self@ =~= finish_selection(m1).1);
        assert(output_views(outputs@) =~= tab_part + finish_selection(m1).0);
        push_button_report(
            &mut outputs,
            mouse_modes,
            ptr,
            focused_pane,
            MouseButton::Left,
            false,
        );
        outputs
    }

    fn pointer_move(
        &mut self,
        ptr: &Pointer,
        tab_strip: &mut TabStrip,
        pane_layout: &mut PaneLayout,
        focused_pane: PaneId,
        mouse_modes: &HashMap<u64, MouseMode>,
    ) -> (outputs: Vec<MouseOutput>)
        requires
            old(self)@.sound(),
            old(pane_layout).drag_in_range(),
            pointer_ok(*ptr, *old(pane_layout)),
        ensures
            ({
                let r = on_move(
                    old(self)@,
                    old(tab_strip)@,
                    *old(pane_layout),
                    *ptr,
                    focused_pane,
                    mouse_modes@,
                );
                &&& output_views(outputs@) == r.outputs
                &&& final(self)@ == r.mouse
                &&& final(tab_strip)@ == r.strip
                &&& final(pane_layout).drag == r.drag
                &&& final(pane_layout).hover == r.hover
                &&& final(pane_layout).rects == old(pane_layout).rects
                &&& final(pane_layout).splitters == old(pane_layout).splitters
            }),
            final(self)@.sound(),
            old(pane_layout).drag_in_range() ==> final(pane_layout).drag_in_range(),
    {
        let mut outputs: Vec<MouseOutput> = Vec::new();
        if ptr.area == Area::TabStrip {
            tab_strip.on_mouse_move(&ptr.strip);
        }
        let hit = LayoutHit {
            splitter: ptr.splitter,
            pane: find_under(&ptr.panes),
            dragged_cells: ptr.dragged_cells,
            dragged_forward: ptr.dragged_forward,
        };
        if self.splitter_dragging {
            if let Some(action) = pane_layout.on_mouse_move(&hit) {
                outputs.push(MouseOutput::PaneResize(action));
            }
            assert(output_views(outputs@) =~= on_move(
                old(self)@,
                old(tab_strip)@,
                *old(pane_layout),
                *ptr,
                focused_pane,
                mouse_modes@,
            ).outputs);
            return outputs;
        }
        if ptr.area == Area::Content {
            let hint = pane_layout.cursor_hint(&hit);
            outputs.push(MouseOutput::SetCursor(hint));
            let _ = pane_layout.on_mouse_move(&hit);
        }
        let ghost cursor_part = output_views(outputs@);
        assert(cursor_part =~= (if ptr.area == Area::Content {
            seq![MouseOutputView::SetCursor(cursor_over(*old(pane_layout), *ptr))]
        } else {
            Seq::empty()
        }));
        if self.left_down {
            if let Some(pane_id) = self.selecting {
                if let Some(at) = find_pointer(&ptr.panes, pane_id) {
                    let s = self.pane_state(pane_id);
                    if let Some(sel) = s.selection {
                        let moved = TextSelection {
                            start_row: sel.start_row,
                            start_col: sel.start_col,
                            end_row: at.row,
                            end_col: at.col,
                        };
                        self.panes.insert(
                            pane_id.0,
                            PaneMouseState {
                                scroll_offset: s.scroll_offset,
                                selection: Some(moved),
                            },
                        );
                        outputs.push(MouseOutput::SelectionChanged(pane_id, Some(moved)));
                    }
                }
            }
        }
        assert(self@ =~= drag_selection(old(self)@, *ptr).1);
        assert(output_views(outputs@) =~= cursor_part + drag_selection(old(self)@, *ptr).0);
        let ghost so_far = output_views(outputs@);
        let report_motion = match mouse_mode(mouse_modes, focused_pane) {
            MouseMode::AnyEvent => true,
            MouseMode::ButtonEvent => self.left_down,
            _ => false,
        };
        if report_motion {
            if let Some(at) = find_pointer(&ptr.panes, focused_pane) {
                if at.inside {
                    let button = if self.left_down {
                        MouseButton::Left
                    } else {
                        MouseButton::NoButton
                    };
                    let bytes = encode_mouse_motion(button, at.col, at.row, 0, true);
                    outputs.push(MouseOutput::SendToSession(focused_pane, bytes));
                }
            }
        }
        assert(output_views(outputs@) =~= so_far + motion_report(
            self@,
            *ptr,
            focused_pane,
            mouse_modes@,
        ));
        outputs
    }

    fn wheel(
        &mut self,
        ptr: &Pointer,
        focused_pane: PaneId,
        mouse_modes: &HashMap<u64, MouseMode>,
        delta: i16,
    ) -> (outputs: Vec<MouseOutput>)
        requires
            old(self)@.sound(),
            forall|i: int|
                0 <= i < ptr.panes@.len() ==> (#[trigger] ptr.panes@[i]).col < usize::MAX
                    && ptr.panes@[i].row < usize::MAX,
            wheel_fits(old(self)@, *ptr, focused_pane, mouse_modes@, delta),
        ensures
            (output_views(outputs@), final(self)@) == on_wheel(
                old(self)@,
                *ptr,
                focused_pane,
                mouse_modes@,
                delta,
            ),
            final(self)@.sound(),
    {
        let mut outputs: Vec<MouseOutput> = Vec::new();
        if ptr.area != Area::Content {
            assert(output_views(outputs@) =~= Seq::empty());
            return outputs;
        }
        let target = match find_under(&ptr.panes) {
            Some(p) => p,
            None => focused_pane,
        };
        let size: i32 = if delta >= 0 {
            delta as i32
        } else {
            -(delta as i32)
        };
        if mouse_mode(mouse_modes, target) != MouseMode::Off {
            if let Some(at) = find_pointer(&ptr.panes, target) {
                let button = if delta > 0 {
                    MouseButton::WheelUp
                } else {
                    MouseButton::WheelDown
                };
                let notches: i32 = (size + WHEEL_DELTA - 1) / WHEEL_DELTA;
                let ghost one = MouseOutputView::SendToSession(
                    target,
                    crate::mouse_encoding::mouse_event_bytes(
                        button,
                        true,
                        at.col as nat,
                        at.row as nat,
                        0,
                        true,
                    ),
                );
                let mut n: i32 = 0;
                while n < notches
                    invariant
                        0 <= n <= notches,
                        at.col < usize::MAX,
                        at.row < usize::MAX,
                        output_views(outputs@) == Seq::new(n as nat, |i: int| one),
                        one == MouseOutputView::SendToSession(
                            target,
                            crate::mouse_encoding::mouse_event_bytes(
                                button,
                                true,
                                at.col as nat,
                                at.row as nat,
                                0,
                                true,
                            ),
                        ),
                    decreases notches - n,
                {
                    let ghost before = output_views(outputs@);
                    let bytes = encode_mouse_event(button, true, at.col, at.row, 0, true);
                    outputs.push(MouseOutput::SendToSession(target, bytes));
                    n += 1;
                    assert(output_views(outputs@) =~= before.push(one));
                }
            }
            assert(output_views(outputs@) =~= on_wheel(
                old(self)@,
                *ptr,
                focused_pane,
                mouse_modes@,
                delta,
            ).0);
        } else {
            let lines: i32 = if delta >= 0 {
                size / WHEEL_DELTA * SCROLL_LINES_PER_NOTCH
            } else {
                -(size / WHEEL_DELTA * SCROLL_LINES_PER_NOTCH)
            };
            let s = self.pane_state(target);
            let moved: i32 = s.scroll_offset + lines;
            let offset: i32 = if moved < 0 {
                0
            } else {
                moved
            };
            self.panes.insert(
                target.0,
                PaneMouseState { scroll_offset: offset, selection: s.selection },
            );
            outputs.push(MouseOutput::ScrollPane(target, offset - s.scroll_offset));
            assert(output_views(outputs@) =~= on_wheel(
                old(self)@,
                *ptr,
                focused_pane,
                mouse_modes@,
                delta,
            ).0);
        }
        outputs
    }
}

/// A press or release of the right or middle button.
fn other_button(
    ptr: &Pointer,
    focused_pane: PaneId,
    mouse_modes: &HashMap<u64, MouseMode>,
    button: MouseButton,
    press: bool,
) -> (outputs: Vec<MouseOutput>)
    requires
        forall|i: int|
            0 <= i < ptr.panes@.len() ==> (#[trigger] ptr.panes@[i]).col < usize::MAX
                && ptr.panes@[i].row < usize::MAX,
    ensures
        output_views(outputs@) == on_other_button(*ptr, focused_pane, mouse_modes@, button, press),
{
    let mut outputs: Vec<MouseOutput> = Vec::new();
    assert(output_views(outputs@) =~= Seq::empty());
    if ptr.area == Area::Content {
        if mouse_mode(mouse_modes, focused_pane) == MouseMode::Off && button == MouseButton::Right
            && press {
            outputs.push(MouseOutput::PasteClipboard(focused_pane));
        } else {
            push_button_report(&mut outputs, mouse_modes, ptr, focused_pane, button, press);
        }
    }
    assert(output_views(outputs@) =~= on_other_button(
        *ptr,
        focused_pane,
        mouse_modes@,
        button,
        press,
    ));
    outputs
}

/// Keeps a number between zero and a limit.
fn clamp(n: i64, max: i32) -> (r: i32)
    requires
        max >= 0,
    ensures
        r == clamped(n as int, max as int),
{
    if n < 0 {
        0
    } else if n > max as i64 {
        max
    } else {
        n as i32
    }
}

impl Default for MouseHandler {
    fn default() -> (r: MouseHandler)
        ensures
            r@ == (MouseView {
                panes: Map::empty(),
                selecting: None,
                left_down: false,
                splitter_dragging: false,
            }),
    {
        MouseHandler::new()
    }
}

/// The handler without a selection in a pane.
pub open spec fn without_selection(m: MouseView, p: PaneId) -> MouseView {
    MouseView {
        panes: if m.panes.dom().contains(p.0) {
            m.panes.insert(
                p.0,
                PaneMouseState { scroll_offset: m.pane(p).scroll_offset, selection: None },
            )
        } else {
            m.panes
        },
        selecting: if m.selecting == Some(p) {
            None
        } else {
            m.selecting
        },
        ..m
    }
}

/// The handler with another selection in a pane.
pub open spec fn with_selection(m: MouseView, p: PaneId, selection: Option<TextSelection>) -> MouseView {
    m.with_pane(p, PaneMouseState { scroll_offset: m.pane(p).scroll_offset, selection })
}

/// The handler with one end of the selection of a pane moved.
pub open spec fn with_endpoint(
    m: MouseView,
    p: PaneId,
    move_start: bool,
    row: usize,
    col: usize,
) -> MouseView {
    match m.pane(p).selection {
        None => m,
        Some(sel) => with_selection(
            m,
            p,
            Some(
                if move_start {
                    TextSelection { start_row: row, start_col: col, ..sel }
                } else {
                    TextSelection { end_row: row, end_col: col, ..sel }
                },
            ),
        ),
    }
}

/// The handler with a pane scrolled to an offset.
pub open spec fn with_offset(m: MouseView, p: PaneId, offset: int) -> MouseView {
    m.with_pane(
        p,
        PaneMouseState { scroll_offset: offset as i32, selection: m.pane(p).selection },
    )
}

// ── Laws ─────────────────────────────────────────────────────────────────────

/// Scrolling a pane leaves its selection and every other pane as they are.
pub proof fn law_scrolling_keeps_selections(m: MouseView, p: PaneId, offset: int, q: PaneId)
    ensures
        with_offset(m, p, offset).pane(q).selection == m.pane(q).selection,
        q != p ==> with_offset(m, p, offset).pane(q) == m.pane(q),
{
}

/// Selecting in a pane leaves its scroll offset and every other pane as they are.
pub proof fn law_selecting_keeps_offsets(
    m: MouseView,
    p: PaneId,
    selection: Option<TextSelection>,
    q: PaneId,
)
    ensures
        with_selection(m, p, selection).pane(q).scroll_offset == m.pane(q).scroll_offset,
        q != p ==> with_selection(m, p, selection).pane(q) == m.pane(q),
{
}

/// A click without a move selects nothing: after the button goes down in a pane without mouse
/// reporting and up again at the same place, the pane has no selection.
pub proof fn law_click_selects_nothing(
    m: MouseView,
    strip: StripView,
    layout: PaneLayout,
    ptr: Pointer,
    modes: Map<u64, MouseMode>,
    p: PaneId,
    focused: PaneId,
    later: StripView,
    after: PaneLayout,
)
    requires
        ptr.area == Area::Content,
        ptr.splitter is None,
        pane_under(ptr.panes@) == Some(p),
        pointer_in(ptr.panes@, p) is Some,
        mode_of(modes, p) == MouseMode::Off,
    ensures
        ({
            let down = on_left_down(m, strip, layout, ptr, modes).mouse;
            let up = on_left_up(down, later, after, ptr, focused, modes).mouse;
            up.pane(p).selection is None && up.selecting is None
        }),
{
}

/// The wheel says by how much it has scrolled a pane: the offset before and the lines that are
/// reported make the offset after.
pub proof fn law_wheel_reports_what_it_scrolled(
    m: MouseView,
    ptr: Pointer,
    focused: PaneId,
    modes: Map<u64, MouseMode>,
    delta: i16,
)
    requires
        m.sound(),
        wheel_fits(m, ptr, focused, modes, delta),
        ptr.area == Area::Content,
        mode_of(modes, wheel_pane(ptr, focused)) == MouseMode::Off,
    ensures
        ({
            let p = wheel_pane(ptr, focused);
            let (outputs, after) = on_wheel(m, ptr, focused, modes, delta);
            &&& outputs.len() == 1
            &&& outputs[0] matches MouseOutputView::ScrollPane(q, lines)
            &&& q == p
            &&& m.pane(p).scroll_offset + lines == after.pane(p).scroll_offset
            &&& wheel_lines(delta) >= 0 ==> lines == wheel_lines(delta)
        }),
{
}

/// A mouse event with what it meets: the strip, the layout, the focused pane and the mouse modes.
pub struct Moment {
    pub strip: StripView,
    pub layout: PaneLayout,
    pub ptr: Pointer,
    pub focused: PaneId,
    pub modes: Map<u64, MouseMode>,
}

/// What an event of the given kind results in at a moment.
pub open spec fn reaction_at(m: MouseView, kind: MouseEventKind, at: Moment) -> Reaction {
    reaction(m, at.strip, at.layout, kind, at.ptr, at.focused, at.modes)
}

/// The handler after the pointer has moved, once at each of the moments.
pub open spec fn after_moves(m: MouseView, moves: Seq<Moment>) -> MouseView
    decreases moves.len(),
{
    if moves.len() == 0 {
        m
    } else {
        reaction_at(after_moves(m, moves.drop_last()), MouseEventKind::Move, moves.last()).mouse
    }
}

/// The cell of a pane that a drag has come to: the last one that a move has reported, or else the
/// one where it began.
pub open spec fn dragged_to(p: PaneId, start: PanePointer, moves: Seq<Moment>) -> PanePointer
    decreases moves.len(),
{
    if moves.len() == 0 {
        start
    } else {
        match pointer_in(moves.last().ptr.panes@, p) {
            Some(at) => at,
            None => dragged_to(p, start, moves.drop_last()),
        }
    }
}

/// The selection from one cell to another.
pub open spec fn drawn_selection(from: PanePointer, to: PanePointer) -> TextSelection {
    TextSelection {
        start_row: from.row,
        start_col: from.col,
        end_row: to.row,
        end_col: to.col,
    }
}

proof fn lemma_moves_draw(
    m: MouseView,
    p: PaneId,
    start: PanePointer,
    moves: Seq<Moment>,
)
    requires
        m.left_down,
        !m.splitter_dragging,
        m.selecting == Some(p),
        m.pane(p).selection == Some(drawn_selection(start, start)),
    ensures
        ({
            let after = after_moves(m, moves);
            &&& after.left_down
            &&& !after.splitter_dragging
            &&& after.selecting == Some(p)
            &&& after.pane(p).selection == Some(
                drawn_selection(start, dragged_to(p, start, moves)),
            )
        }),
    decreases moves.len(),
{
    if moves.len() > 0 {
        lemma_moves_draw(m, p, start, moves.drop_last());
    }
}

/// A drag selects from the cell where the button went down to the last cell that the pointer came
/// to, in this order; and nothing if they are the same. This holds of a press in a pane without
/// mouse reporting, of any moves after it and of the release, wherever that is.
pub proof fn law_drag_selects(
    m: MouseView,
    down: Moment,
    moves: Seq<Moment>,
    up: Moment,
    p: PaneId,
)
    requires
        !m.splitter_dragging,
        down.ptr.area == Area::Content,
        down.ptr.splitter is None,
        pane_under(down.ptr.panes@) == Some(p),
        pointer_in(down.ptr.panes@, p) is Some,
        mode_of(down.modes, p) == MouseMode::Off,
    ensures
        ({
            let pressed = reaction_at(m, MouseEventKind::LeftDown, down).mouse;
            let r = reaction_at(after_moves(pressed, moves), MouseEventKind::LeftUp, up);
            let from = pointer_in(down.ptr.panes@, p)->0;
            let to = dragged_to(p, from, moves);
            let selected = if from.row == to.row && from.col == to.col {
                None
            } else {
                Some(drawn_selection(from, to))
            };
            &&& r.outputs.contains(MouseOutputView::SelectionChanged(p, selected))
            &&& r.mouse.pane(p).selection == selected
            &&& r.mouse.selecting is None
            &&& !r.mouse.left_down
        }),
{
    let pressed = reaction_at(m, MouseEventKind::LeftDown, down).mouse;
    let from = pointer_in(down.ptr.panes@, p)->0;
    lemma_moves_draw(pressed, p, from, moves);
    let dragged = after_moves(pressed, moves);
    let r = reaction_at(dragged, MouseEventKind::LeftUp, up);
    let m1 = MouseView { left_down: false, splitter_dragging: false, ..dragged };
    let first = if up.ptr.area == Area::TabStrip {
        tab_outputs(crate::tab_strip::released(up.strip, up.ptr.strip.drop_index).0)
    } else {
        Seq::empty()
    };
    assert(r.outputs[first.len() as int] == finish_selection(m1).0[0]);
}

/// A pane without mouse reporting is sent nothing by any mouse event.
pub proof fn law_no_reports_unless_asked(
    m: MouseView,
    strip: StripView,
    layout: PaneLayout,
    kind: MouseEventKind,
    ptr: Pointer,
    focused: PaneId,
    modes: Map<u64, MouseMode>,
    i: int,
)
    requires
        0 <= i < reaction(m, strip, layout, kind, ptr, focused, modes).outputs.len(),
    ensures
        reaction(m, strip, layout, kind, ptr, focused, modes).outputs[i] matches
            MouseOutputView::SendToSession(p, _) ==> mode_of(modes, p) != MouseMode::Off,
{
    match kind {
        MouseEventKind::LeftUp => {
            let m1 = MouseView { left_down: false, splitter_dragging: false, ..m };
            assert(finish_selection(m1).0.len() <= 1);
        },
        MouseEventKind::Move => {
            if !m.splitter_dragging {
                assert(drag_selection(m, ptr).0.len() <= 1);
                let m2 = drag_selection(m, ptr).1;
                assert(motion_report(m2, ptr, focused, modes).len() <= 1);
            }
        },
        _ => {},
    }
}

/// Whether a pane is the first that the pointer is inside of, at a given cell.
pub open spec fn points_at(ptr: Pointer, p: PaneId, row: usize, col: usize) -> bool {
    exists|i: int|
        0 <= i < ptr.panes@.len() && (#[trigger] ptr.panes@[i]) == (PanePointer {
            pane: p,
            inside: true,
            row,
            col,
        }) && forall|j: int|
            0 <= j < i ==> !(#[trigger] ptr.panes@[j]).inside && ptr.panes@[j].pane != p
}

/// Whether a pane has asked for mouse events.
pub open spec fn asks(modes: Map<u64, MouseMode>, p: PaneId) -> bool {
    modes.dom().contains(p.0) && modes[p.0] != MouseMode::Off
}

proof fn lemma_points_at(ptr: Pointer, p: PaneId, row: usize, col: usize)
    requires
        points_at(ptr, p, row, col),
    ensures
        pane_under(ptr.panes@) == Some(p),
        pointer_in(ptr.panes@, p) == Some(PanePointer { pane: p, inside: true, row, col }),
{
    let panes = ptr.panes@;
    let i = choose|i: int|
        0 <= i < panes.len() && (#[trigger] panes[i]) == (PanePointer {
            pane: p,
            inside: true,
            row,
            col,
        }) && forall|j: int| 0 <= j < i ==> !(#[trigger] panes[j]).inside && panes[j].pane != p;
    crate::seqs::lemma_first_where_is(0, panes.len() as int, |i: int| panes[i].inside, i);
    crate::seqs::lemma_first_where_is(0, panes.len() as int, |i: int| panes[i].pane == p, i);
}

/// A press of the left button in a pane focuses it. If the pane has asked for mouse events, it is
/// told of the press at its cell; or else a selection starts at the cell.
pub proof fn law_press_in_a_pane(
    m: MouseView,
    strip: StripView,
    layout: PaneLayout,
    ptr: Pointer,
    focused: PaneId,
    modes: Map<u64, MouseMode>,
    p: PaneId,
    row: usize,
    col: usize,
    q: PaneId,
)
    requires
        ptr.area == Area::Content,
        ptr.splitter is None,
        points_at(ptr, p, row, col),
        q != p,
    ensures
        ({
            let r = reaction(m, strip, layout, MouseEventKind::LeftDown, ptr, focused, modes);
            let sent = crate::mouse_encoding::mouse_event_bytes(
                MouseButton::Left,
                true,
                col as nat,
                row as nat,
                0,
                true,
            );
            let cell = TextSelection { start_row: row, start_col: col, end_row: row, end_col: col };
            &&& r.mouse.left_down
            &&& r.mouse.pane(q) == m.pane(q)
            &&& r.mouse.pane(p).scroll_offset == m.pane(p).scroll_offset
            &&& r.mouse.splitter_dragging == m.splitter_dragging
            &&& r.strip == strip && r.drag == layout.drag && r.hover == layout.hover
            &&& asks(modes, p) ==> r.outputs == seq![
                MouseOutputView::FocusPane(p),
                MouseOutputView::SendToSession(p, sent),
            ] && r.mouse.pane(p) == m.pane(p) && r.mouse.selecting == m.selecting
            &&& !asks(modes, p) ==> r.outputs == seq![
                MouseOutputView::FocusPane(p),
                MouseOutputView::SelectionChanged(p, None),
            ] && r.mouse.pane(p).selection == Some(cell) && r.mouse.selecting == Some(p)
        }),
{
    lemma_points_at(ptr, p, row, col);
}

/// A press on a splitter starts to drag it, a release ends that, and neither tells a pane of a
/// press or focuses one.
pub proof fn law_splitters_are_grabbed_and_let_go(
    m: MouseView,
    strip: StripView,
    layout: PaneLayout,
    ptr: Pointer,
    focused: PaneId,
    modes: Map<u64, MouseMode>,
    i: usize,
    later: Pointer,
)
    requires
        ptr.area == Area::Content,
        ptr.splitter == Some(i),
    ensures
        ({
            let down = reaction(m, strip, layout, MouseEventKind::LeftDown, ptr, focused, modes);
            let up = reaction(
                down.mouse,
                strip,
                PaneLayout { drag: down.drag, ..layout },
                MouseEventKind::LeftUp,
                later,
                focused,
                modes,
            );
            &&& down.outputs.len() == 0
            &&& down.drag == Some(i)
            &&& down.mouse.splitter_dragging
            &&& down.mouse.panes == m.panes
            &&& up.drag is None
            &&& !up.mouse.splitter_dragging
        }),
{
}

/// While a splitter is dragged, moving the pointer resizes panes and does nothing else: no selection
/// changes and no pane is told of it.
pub proof fn law_dragging_only_resizes(
    m: MouseView,
    strip: StripView,
    layout: PaneLayout,
    ptr: Pointer,
    focused: PaneId,
    modes: Map<u64, MouseMode>,
)
    requires
        m.splitter_dragging,
    ensures
        ({
            let r = reaction(m, strip, layout, MouseEventKind::Move, ptr, focused, modes);
            let hit = LayoutHit {
                splitter: ptr.splitter,
                pane: pane_under(ptr.panes@),
                dragged_cells: ptr.dragged_cells,
                dragged_forward: ptr.dragged_forward,
            };
            &&& r.mouse == m
            &&& r.drag == layout.drag
            &&& match crate::pane_layout::move_action(layout, hit) {
                Some(a) => r.outputs == seq![MouseOutputView::PaneResize(a)],
                None => r.outputs.len() == 0,
            }
        }),
{
}

/// The focused pane is told of the other buttons if it has asked for mouse events and the pointer
/// is inside of it. If it has not asked, a press of the right button pastes.
pub proof fn law_other_buttons(
    m: MouseView,
    strip: StripView,
    layout: PaneLayout,
    ptr: Pointer,
    modes: Map<u64, MouseMode>,
    p: PaneId,
    row: usize,
    col: usize,
)
    requires
        ptr.area == Area::Content,
        points_at(ptr, p, row, col),
    ensures
        ({
            let at = |kind: MouseEventKind|
                reaction(m, strip, layout, kind, ptr, p, modes).outputs;
            let told = |button: MouseButton, press: bool|
                seq![
                    MouseOutputView::SendToSession(
                        p,
                        crate::mouse_encoding::mouse_event_bytes(
                            button,
                            press,
                            col as nat,
                            row as nat,
                            0,
                            true,
                        ),
                    ),
                ];
            &&& asks(modes, p) ==> {
                &&& at(MouseEventKind::RightDown) == told(MouseButton::Right, true)
                &&& at(MouseEventKind::RightUp) == told(MouseButton::Right, false)
                &&& at(MouseEventKind::MiddleDown) == told(MouseButton::Middle, true)
                &&& at(MouseEventKind::MiddleUp) == told(MouseButton::Middle, false)
            }
            &&& !asks(modes, p) ==> {
                &&& at(MouseEventKind::RightDown) == seq![MouseOutputView::PasteClipboard(p)]
                &&& at(MouseEventKind::RightUp).len() == 0
                &&& at(MouseEventKind::MiddleDown).len() == 0
                &&& at(MouseEventKind::MiddleUp).len() == 0
            }
        }),
{
    lemma_points_at(ptr, p, row, col);
}

/// The other buttons and the wheel do nothing outside of the panes, a second press in quick
/// succession does nothing anywhere, and none of these but the wheel changes what is kept.
pub proof fn law_quiet_events(
    m: MouseView,
    strip: StripView,
    layout: PaneLayout,
    kind: MouseEventKind,
    ptr: Pointer,
    focused: PaneId,
    modes: Map<u64, MouseMode>,
)
    requires
        !(kind is LeftDown) && !(kind is LeftUp) && !(kind is Move),
    ensures
        ({
            let r = reaction(m, strip, layout, kind, ptr, focused, modes);
            &&& ptr.area != Area::Content || kind is LeftDoubleDown ==> r.outputs.len() == 0
                && r.mouse == m
            &&& !(kind is Wheel) ==> r.mouse == m
            &&& r.strip == strip && r.drag == layout.drag && r.hover == layout.hover
        }),
{
}

/// A release of the left button is told to the focused pane if that has asked for mouse events and
/// the pointer is inside of it; it is the last thing that happens.
pub proof fn law_release_is_told(
    m: MouseView,
    strip: StripView,
    layout: PaneLayout,
    ptr: Pointer,
    modes: Map<u64, MouseMode>,
    p: PaneId,
    row: usize,
    col: usize,
)
    requires
        points_at(ptr, p, row, col),
        asks(modes, p),
    ensures
        ({
            let r = reaction(m, strip, layout, MouseEventKind::LeftUp, ptr, p, modes);
            &&& r.outputs.len() > 0
            &&& r.outputs.last() == MouseOutputView::SendToSession(
                p,
                crate::mouse_encoding::mouse_event_bytes(
                    MouseButton::Left,
                    false,
                    col as nat,
                    row as nat,
                    0,
                    true,
                ),
            )
        }),
{
    lemma_points_at(ptr, p, row, col);
}

/// The focused pane is told of a motion inside of it if it has asked for all motions, or if it has
/// asked for those with a button down and the left button is down; and not otherwise.
pub proof fn law_motion_is_told(
    m: MouseView,
    strip: StripView,
    layout: PaneLayout,
    ptr: Pointer,
    modes: Map<u64, MouseMode>,
    p: PaneId,
    row: usize,
    col: usize,
)
    requires
        !m.splitter_dragging,
        points_at(ptr, p, row, col),
        modes.dom().contains(p.0),
    ensures
        ({
            let r = reaction(m, strip, layout, MouseEventKind::Move, ptr, p, modes);
            let sent = |button: MouseButton|
                MouseOutputView::SendToSession(
                    p,
                    crate::mouse_encoding::mouse_motion_bytes(
                        button,
                        col as nat,
                        row as nat,
                        0,
                        true,
                    ),
                );
            &&& modes[p.0] == MouseMode::AnyEvent && !m.left_down ==> r.outputs.len() > 0
                && r.outputs.last() == sent(MouseButton::NoButton)
            &&& (modes[p.0] == MouseMode::AnyEvent || modes[p.0] == MouseMode::ButtonEvent)
                && m.left_down ==> r.outputs.len() > 0 && r.outputs.last() == sent(
                MouseButton::Left,
            )
            &&& modes[p.0] == MouseMode::Off || modes[p.0] == MouseMode::Normal || (modes[p.0]
                == MouseMode::ButtonEvent && !m.left_down) ==> forall|i: int|
                0 <= i < r.outputs.len() ==> !((#[trigger] r.outputs[i]) is SendToSession)
        }),
{
    lemma_points_at(ptr, p, row, col);
    let m2 = drag_selection(m, ptr).1;
    assert(m2.left_down == m.left_down);
}

/// The wheel scrolls the pane under the pointer, three lines for each notch: back in history when
/// it is turned up, towards live when it is turned down, and not beyond live. Other panes and
/// selections stay as they are.
pub proof fn law_wheel_scrolls(
    m: MouseView,
    strip: StripView,
    layout: PaneLayout,
    ptr: Pointer,
    focused: PaneId,
    modes: Map<u64, MouseMode>,
    p: PaneId,
    row: usize,
    col: usize,
    notches: int,
    q: PaneId,
)
    requires
        ptr.area == Area::Content,
        points_at(ptr, p, row, col),
        !asks(modes, p),
        0 <= notches <= 273,
        0 <= m.pane(p).scroll_offset <= 1_000_000_000,
        q != p,
    ensures
        ({
            let up = reaction(
                m,
                strip,
                layout,
                MouseEventKind::Wheel((120 * notches) as i16),
                ptr,
                focused,
                modes,
            ).mouse;
            let down = reaction(
                m,
                strip,
                layout,
                MouseEventKind::Wheel((-120 * notches) as i16),
                ptr,
                focused,
                modes,
            ).mouse;
            let before = m.pane(p).scroll_offset;
            &&& up.pane(p).scroll_offset == before + 3 * notches
            &&& before >= 3 * notches ==> down.pane(p).scroll_offset == before - 3 * notches
            &&& before < 3 * notches ==> down.pane(p).scroll_offset == 0
            &&& up.pane(p).selection == m.pane(p).selection
            &&& down.pane(p).selection == m.pane(p).selection
            &&& up.pane(q) == m.pane(q) && down.pane(q) == m.pane(q)
        }),
{
    lemma_points_at(ptr, p, row, col);
    assert(wheel_lines((120 * notches) as i16) == 3 * notches);
    assert(wheel_lines((-120 * notches) as i16) == -3 * notches);
}

/// Less than a notch of the wheel scrolls nothing, and of what is more than whole notches only these
/// count.
pub proof fn law_only_whole_notches_scroll(delta: i16)
    ensures
        -120 < delta < 120 ==> wheel_lines(delta) == 0,
        delta >= 0 ==> 40 * wheel_lines(delta) <= delta < 40 * wheel_lines(delta) + 120,
        delta <= 0 ==> 40 * wheel_lines(delta) - 120 < delta <= 40 * wheel_lines(delta),
        wheel_lines(delta) % 3 == 0,
{
}

/// A pane that has asked for mouse events is told of the wheel instead, once for each notch that was
/// begun: button 64 when it is turned up, 65 when it is turned down.
pub proof fn law_wheel_is_told(
    m: MouseView,
    strip: StripView,
    layout: PaneLayout,
    ptr: Pointer,
    focused: PaneId,
    modes: Map<u64, MouseMode>,
    p: PaneId,
    row: usize,
    col: usize,
    delta: i16,
    i: int,
)
    requires
        ptr.area == Area::Content,
        points_at(ptr, p, row, col),
        asks(modes, p),
    ensures
        ({
            let r = reaction(
                m,
                strip,
                layout,
                MouseEventKind::Wheel(delta),
                ptr,
                focused,
                modes,
            );
            let turned: int = if delta >= 0 {
                delta as int
            } else {
                -(delta as int)
            };
            &&& r.mouse == m
            &&& 120 * r.outputs.len() >= turned && 120 * (r.outputs.len() - 1) < turned
            &&& 0 <= i < r.outputs.len() ==> r.outputs[i] == MouseOutputView::SendToSession(
                p,
                crate::mouse_encoding::mouse_event_bytes(
                    if delta > 0 {
                        MouseButton::WheelUp
                    } else {
                        MouseButton::WheelDown
                    },
                    true,
                    col as nat,
                    row as nat,
                    0,
                    true,
                ),
            )
        }),
{
    lemma_points_at(ptr, p, row, col);
}

/// Clearing the selection of a pane leaves how far it is scrolled and every other pane as they are,
/// and ends a selection that is being made in it.
pub proof fn law_clearing_a_selection(m: MouseView, p: PaneId, q: PaneId)
    requires
        q != p,
    ensures
        without_selection(m, p).pane(p).selection is None,
        without_selection(m, p).pane(p).scroll_offset == m.pane(p).scroll_offset,
        without_selection(m, p).pane(q) == m.pane(q),
        without_selection(m, p).selecting != Some(p),
        m.selecting != Some(p) ==> without_selection(m, p).selecting == m.selecting,
{
}

/// Moving one end of a selection leaves the other where it is.
pub proof fn law_one_end_moves(
    m: MouseView,
    p: PaneId,
    row: usize,
    col: usize,
    sel: TextSelection,
)
    requires
        m.pane(p).selection == Some(sel),
    ensures
        ({
            let start = with_endpoint(m, p, true, row, col).pane(p).selection->0;
            let end = with_endpoint(m, p, false, row, col).pane(p).selection->0;
            &&& with_endpoint(m, p, true, row, col).pane(p).selection is Some
            &&& with_endpoint(m, p, false, row, col).pane(p).selection is Some
            &&& (start.start_row, start.start_col) == (row, col)
            &&& (start.end_row, start.end_col) == (sel.end_row, sel.end_col)
            &&& (end.end_row, end.end_col) == (row, col)
            &&& (end.start_row, end.start_col) == (sel.start_row, sel.start_col)
        }),
{
}

/// Over a splitter the pointer shows which way it can be dragged: left and right where panes stand
/// side by side, up and down where one stands above the other. A splitter that is held decides.
pub proof fn law_cursor_shows_the_way(layout: PaneLayout, ptr: Pointer, i: usize)
    requires
        i < layout.splitters@.len(),
    ensures
        layout.drag == Some(i) || (layout.drag is None && ptr.splitter == Some(i)) ==> {
            &&& layout.splitters@[i as int].orientation is Horizontal ==> cursor_over(layout, ptr)
                == CursorHint::ResizeHorizontal
            &&& layout.splitters@[i as int].orientation is Vertical ==> cursor_over(layout, ptr)
                == CursorHint::ResizeVertical
        },
        layout.drag is None && ptr.splitter is None ==> cursor_over(layout, ptr)
            == CursorHint::Arrow,
{
}

/// A pane that nothing is known of is not scrolled and has no selection. How far a pane is scrolled is
/// kept between none and the most that there is.
pub proof fn law_unknown_panes_are_fresh(m: MouseView, p: PaneId, n: int, max: int)
    requires
        0 <= max,
    ensures
        !m.panes.dom().contains(p.0) ==> m.pane(p).scroll_offset == 0 && m.pane(
            p,
        ).selection is None,
        m.panes.dom().contains(p.0) ==> m.pane(p) == m.panes[p.0],
        0 <= n <= max ==> clamped(n, max) == n,
        n < 0 ==> clamped(n, max) == 0,
        n > max ==> clamped(n, max) == max,
{
}

/// A press on the tab strip is for the strip, one on the status bar for nothing; neither reaches a
/// pane.
pub proof fn law_presses_beside_the_panes(
    m: MouseView,
    strip: StripView,
    layout: PaneLayout,
    ptr: Pointer,
    focused: PaneId,
    modes: Map<u64, MouseMode>,
)
    requires
        ptr.area != Area::Content,
    ensures
        ({
            let r = reaction(m, strip, layout, MouseEventKind::LeftDown, ptr, focused, modes);
            let (action, after) = crate::tab_strip::pressed(strip, ptr.strip);
            &&& r.mouse.panes == m.panes && r.mouse.selecting == m.selecting && r.drag == layout.drag
            &&& ptr.area == Area::TabStrip ==> r.strip == after && r.outputs == (match action {
                Some(a) => seq![MouseOutputView::Tab(a)],
                None => Seq::empty(),
            })
            &&& ptr.area == Area::StatusBar ==> r.strip == strip && r.outputs.len() == 0
        }),
{
}

/// A release on the tab strip lets go of a tab there, and one elsewhere leaves the strip alone; the
/// pointer moving over the strip highlights what it is on.
pub proof fn law_strip_follows_the_pointer(
    m: MouseView,
    strip: StripView,
    layout: PaneLayout,
    ptr: Pointer,
    focused: PaneId,
    modes: Map<u64, MouseMode>,
)
    ensures
        ({
            let up = reaction(m, strip, layout, MouseEventKind::LeftUp, ptr, focused, modes);
            let over = reaction(m, strip, layout, MouseEventKind::Move, ptr, focused, modes);
            let (action, after) = crate::tab_strip::released(strip, ptr.strip.drop_index);
            &&& ptr.area == Area::TabStrip ==> up.strip == after && over.strip
                == crate::tab_strip::pointed(strip, ptr.strip)
            &&& ptr.area == Area::TabStrip && action is Some ==> up.outputs.len() > 0
                && up.outputs[0] == MouseOutputView::Tab(action->0)
            &&& ptr.area != Area::TabStrip ==> up.strip == strip && over.strip == strip
            &&& !up.mouse.left_down && up.mouse.selecting is None
            &&& over.mouse.left_down == m.left_down
        }),
{
}

/// Whether the pointer is inside of no pane.
pub open spec fn over_no_pane(ptr: Pointer) -> bool {
    forall|i: int| 0 <= i < ptr.panes@.len() ==> !(#[trigger] ptr.panes@[i]).inside
}

/// Over no pane the wheel scrolls the focused pane, and no button and no motion is told to any.
pub proof fn law_pointer_over_no_pane(
    m: MouseView,
    strip: StripView,
    layout: PaneLayout,
    kind: MouseEventKind,
    ptr: Pointer,
    focused: PaneId,
    modes: Map<u64, MouseMode>,
    i: int,
)
    requires
        over_no_pane(ptr),
        ptr.area == Area::Content,
    ensures
        ({
            let r = reaction(m, strip, layout, kind, ptr, focused, modes);
            &&& !(kind is Wheel) && 0 <= i < r.outputs.len() ==> !(r.outputs[i] is SendToSession)
                && !(r.outputs[i] is FocusPane)
            &&& kind is Wheel && !asks(modes, focused) ==> r.outputs.len() == 1
                && r.outputs[0] is ScrollPane && r.outputs[0]->ScrollPane_0 == focused
        }),
{
    let panes = ptr.panes@;
    let n = panes.len() as int;
    let inside = |i: int| panes[i].inside;
    assert forall|j: int| 0 <= j < n implies !#[trigger] inside(j) by {
        assert(!panes[j].inside);
    }
    crate::seqs::lemma_first_where_is(0, n, inside, n);
    assert(pane_under(panes) is None);
    let here = |i: int| panes[i].pane == focused;
    crate::seqs::lemma_first_where(0, n, here);
    match kind {
        MouseEventKind::LeftUp => {
            let m1 = MouseView { left_down: false, splitter_dragging: false, ..m };
            assert(finish_selection(m1).0.len() <= 1);
        },
        MouseEventKind::Move => {
            if !m.splitter_dragging {
                assert(drag_selection(m, ptr).0.len() <= 1);
            }
        },
        _ => {},
    }
}

/// While a selection is drawn, every move of the pointer moves its end to the cell that the pointer is
/// at and says so; its start stays, and so do all other panes.
pub proof fn law_moves_draw_the_selection(
    m: MouseView,
    strip: StripView,
    layout: PaneLayout,
    ptr: Pointer,
    focused: PaneId,
    modes: Map<u64, MouseMode>,
    p: PaneId,
    i: int,
    sel: TextSelection,
    q: PaneId,
)
    requires
        m.left_down,
        !m.splitter_dragging,
        m.selecting == Some(p),
        m.pane(p).selection == Some(sel),
        0 <= i < ptr.panes@.len(),
        ptr.panes@[i].pane == p,
        forall|j: int| 0 <= j < i ==> (#[trigger] ptr.panes@[j]).pane != p,
        q != p,
    ensures
        ({
            let r = reaction(m, strip, layout, MouseEventKind::Move, ptr, focused, modes);
            let at = ptr.panes@[i];
            let drawn = TextSelection {
                start_row: sel.start_row,
                start_col: sel.start_col,
                end_row: at.row,
                end_col: at.col,
            };
            &&& r.mouse.pane(p).selection == Some(drawn)
            &&& r.mouse.pane(p).scroll_offset == m.pane(p).scroll_offset
            &&& r.mouse.pane(q) == m.pane(q)
            &&& r.mouse.selecting == Some(p)
            &&& r.outputs.contains(MouseOutputView::SelectionChanged(p, Some(drawn)))
        }),
{
    let panes = ptr.panes@;
    crate::seqs::lemma_first_where_is(0, panes.len() as int, |i: int| panes[i].pane == p, i);
    assert(pointer_in(panes, p) == Some(panes[i]));
    let r = reaction(m, strip, layout, MouseEventKind::Move, ptr, focused, modes);
    let k: int = if ptr.area == Area::Content {
        1
    } else {
        0
    };
    assert(r.outputs[k] == drag_selection(m, ptr).0[0]);
}

} // verus!
