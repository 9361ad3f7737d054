//! What the mouse does to the workbench.
use vstd::prelude::*;

use crate::bindings::ActionArgs;
use crate::clipboard::extract_selection_text_at_offset;
use crate::command_palette::PaletteHit;
use crate::mouse_handler::{Area, MouseEventKind, MouseOutput, MouseOutputView, Pointer};
use crate::pane_layout::{PaneLayout, PaneLayoutAction};
use crate::panes::{LiveTab, LiveTabView, PaneId};
use crate::renderer::TextSelection;
use crate::screen::Screen;
use crate::tab_strip::{StripView, TabAction};
use crate::tabs::{
    pane_has_mouse_reporting, pane_number, refresh_mouse_modes, sync_tab_progresses,
};
use crate::text::chars_of;
use crate::workbench::{
    effect_views, no_effects, one_effect, send_workspace_action, ActionValue, ActionValueView,
    BenchView, Effect, EffectView, Workbench,
};

verus! {

broadcast use vstd::string::group_string_axioms;

// ── Scrollbars ───────────────────────────────────────────────────────────────

/// A scrollbar under the pointer.
#[derive(Debug, Clone, Copy, PartialEq, Eq, Structural)]
pub struct ScrollbarHit {
    pub pane: PaneId,
    /// How far the pane can be scrolled back.
    pub max_scroll: i32,
    /// Where a click scrolls to, unless it is on the thumb.
    pub jump: Option<i32>,
}

/// A scrollbar that is being dragged.
#[derive(Debug, Clone, Copy, PartialEq, Eq, Structural)]
pub struct ScrollbarDrag {
    pub pane: PaneId,
    pub max_scroll: i32,
}

/// The scrollbar that the pointer is on and the one that is being dragged.
#[derive(Debug, Clone, Copy, PartialEq, Eq, Structural)]
pub struct ScrollbarInteractionState {
    pub hovered_pane: Option<PaneId>,
    pub drag: Option<ScrollbarDrag>,
}

/// What the scrollbars make of a mouse event: the workbench, their state, whether the event is
/// used up, and whether the window is to be painted.
pub struct ScrollbarStep {
    pub bench: BenchView,
    pub bars: ScrollbarInteractionState,
    pub used: bool,
    pub repaint: bool,
}

/// The pane of a scrollbar.
pub open spec fn pane_of_hit(hit: Option<ScrollbarHit>) -> Option<PaneId> {
    match hit {
        Some(h) => Some(h.pane),
        None => None,
    }
}

/// The workbench with a pane scrolled.
pub open spec fn scrolled(w: BenchView, p: PaneId, offset: int, max: int) -> BenchView {
    BenchView {
        mouse: crate::mouse_handler::with_offset(
            w.mouse,
            p,
            crate::mouse_handler::clamped(offset, max),
        ),
        ..w
    }
}

/// What the scrollbars make of a mouse event. `dragged_to` is the offset that the pointer has
/// dragged to.
pub open spec fn scrollbar_step(
    w: BenchView,
    bars: ScrollbarInteractionState,
    kind: MouseEventKind,
    hit: Option<ScrollbarHit>,
    dragged_to: i32,
) -> ScrollbarStep {
    let quiet = ScrollbarStep { bench: w, bars, used: false, repaint: false };
    if w.active_tab() is None {
        quiet
    } else if kind == MouseEventKind::Move && bars.drag is Some {
        let d = bars.drag->0;
        ScrollbarStep {
            bench: scrolled(w, d.pane, dragged_to as int, d.max_scroll as int),
            bars: ScrollbarInteractionState { hovered_pane: Some(d.pane), ..bars },
            used: true,
            repaint: true,
        }
    } else if kind == MouseEventKind::LeftUp && bars.drag is Some {
        ScrollbarStep {
            bars: ScrollbarInteractionState { hovered_pane: pane_of_hit(hit), drag: None },
            used: true,
            repaint: true,
            ..quiet
        }
    } else if kind == MouseEventKind::Move {
        ScrollbarStep {
            bars: ScrollbarInteractionState { hovered_pane: pane_of_hit(hit), ..bars },
            repaint: pane_of_hit(hit) != bars.hovered_pane,
            ..quiet
        }
    } else if kind == MouseEventKind::LeftDown && hit is Some {
        let h = hit->0;
        let w1 = BenchView {
            tabs: w.tabs.update(
                w.active,
                crate::panes::with_focus(w.tabs[w.active], h.pane),
            ),
            ..w
        };
        ScrollbarStep {
            bench: match h.jump {
                Some(offset) => scrolled(w1, h.pane, offset as int, h.max_scroll as int),
                None => w1,
            },
            bars: ScrollbarInteractionState {
                hovered_pane: Some(h.pane),
                drag: Some(ScrollbarDrag { pane: h.pane, max_scroll: h.max_scroll }),
            },
            used: true,
            repaint: true,
        }
    } else {
        quiet
    }
}

impl ScrollbarInteractionState {
    /// The pointer is on no scrollbar.
    pub fn new() -> (r: ScrollbarInteractionState)
        ensures
            r.hovered_pane is None,
            r.drag is None,
    {
        ScrollbarInteractionState { hovered_pane: None, drag: None }
    }

    /// Whether the scrollbar of a pane is drawn wide.
    pub fn is_expanded(&self, p: PaneId) -> (r: bool)
        ensures
            r == (self.hovered_pane == Some(p) || (self.drag matches Some(d) && d.pane == p)),
    {
        let dragged = match self.drag {
            Some(d) => d.pane == p,
            None => false,
        };
        self.hovered_pane == Some(p) || dragged
    }
}

impl Workbench {
    /// Give a pane of the active tab the focus.
    fn focus_pane(&mut self, p: PaneId)
        requires
            old(self)@.wf(),
            old(self).active_tab_index < old(self).tabs@.len(),
        ensures
            final(self)@ == (BenchView {
                tabs: old(self)@.tabs.update(
                    old(self)@.active,
                    crate::panes::with_focus(old(self)@.tabs[old(self)@.active], p),
                ),
                ..old(self)@
            }),
            final(self)@.wf(),
            final(self).tabs@.len() == old(self).tabs@.len(),
    {
        let ghost tabs = self@.tabs;
        let i: usize = self.active_tab_index;
        assert(tabs[i as int] == self.tabs@[i as int]@);
        self.tabs[i].set_focus(p);
        proof {
            let tab = crate::panes::with_focus(tabs[i as int], p);
            assert(self@.tabs =~= tabs.update(i as int, tab));
            crate::workbench::lemma_update_ok(tabs, i as int, tab);
        }
    }

    /// Process a mouse event on a scrollbar. Says whether the event is used up and whether the
    /// window is to be painted.
    pub fn on_scrollbar(
        &mut self,
        bars: &mut ScrollbarInteractionState,
        kind: MouseEventKind,
        hit: Option<ScrollbarHit>,
        dragged_to: i32,
    ) -> (r: (bool, bool))
        requires
            old(self)@.wf(),
            hit matches Some(h) ==> h.max_scroll >= 0,
            old(bars).drag matches Some(d) ==> d.max_scroll >= 0,
        ensures
            scrollbar_step(old(self)@, *old(bars), kind, hit, dragged_to) == (ScrollbarStep {
                bench: final(self)@,
                bars: *final(bars),
                used: r.0,
                repaint: r.1,
            }),
            final(self)@.wf(),
            final(bars).drag matches Some(d) ==> d.max_scroll >= 0,
    {
        if self.active_tab_index >= self.tabs.len() {
            return (false, false);
        }
        let hit_pane = match hit {
            Some(h) => Some(h.pane),
            None => None,
        };
        if let Some(d) = bars.drag {
            if kind == MouseEventKind::Move {
                self.mouse.set_scroll_offset(&d.pane, dragged_to, d.max_scroll);
                bars.hovered_pane = Some(d.pane);
                return (true, true);
            }
            if kind == MouseEventKind::LeftUp {
                bars.drag = None;
                bars.hovered_pane = hit_pane;
                return (true, true);
            }
        }
        if kind == MouseEventKind::Move {
            let changed = hit_pane != bars.hovered_pane;
            bars.hovered_pane = hit_pane;
            return (false, changed);
        }
        if kind == MouseEventKind::LeftDown {
            if let Some(h) = hit {
                self.focus_pane(h.pane);
                if let Some(offset) = h.jump {
                    self.mouse.set_scroll_offset(&h.pane, offset, h.max_scroll);
                }
                bars.hovered_pane = Some(h.pane);
                bars.drag = Some(ScrollbarDrag { pane: h.pane, max_scroll: h.max_scroll });
                return (true, true);
            }
        }
        (false, false)
    }
}

// ── Tab menu ─────────────────────────────────────────────────────────────────

/// What was chosen from the menu of a tab.
#[derive(Debug, Clone, Copy, PartialEq, Eq, Structural)]
pub enum TabContextMenuAction {
    NewTab,
    RenameTab,
    CloseTab,
}

/// The action of a number of the menu.
pub fn tab_menu_action(command: u32, can_close: bool) -> (r: Option<TabContextMenuAction>)
    ensures
        r == if command == 1 {
            Some(TabContextMenuAction::NewTab)
        } else if command == 2 {
            Some(TabContextMenuAction::RenameTab)
        } else if command == 3 && can_close {
            Some(TabContextMenuAction::CloseTab)
        } else {
            None
        },
{
    if command == 1 {
        Some(TabContextMenuAction::NewTab)
    } else if command == 2 {
        Some(TabContextMenuAction::RenameTab)
    } else if command == 3 && can_close {
        Some(TabContextMenuAction::CloseTab)
    } else {
        None
    }
}

/// An empty set of arguments.
pub open spec fn empty_args() -> ActionValueView {
    ActionValueView::Texts(Seq::empty())
}

/// A request to the host to go to a tab, unless it is the active one.
pub open spec fn goto_request(w: BenchView, index: int) -> Seq<EffectView> {
    if index != w.active {
        crate::workbench::workspace_action("goto-tab"@, ActionValueView::Index(index))
    } else {
        Seq::empty()
    }
}

/// Requests to the host to close a tab.
pub open spec fn close_requests(w: BenchView, index: int) -> Seq<EffectView> {
    goto_request(w, index) + crate::workbench::workspace_action("close-tab"@, empty_args())
}

/// The active tab after a tab was closed: the one that the strip shows, or else the last.
pub open spec fn active_after_close(strip: StripView, count: int) -> int {
    if count == 0 {
        0
    } else if strip.active < count {
        strip.active
    } else {
        count - 1
    }
}

/// The workbench without a tab, on the strip and of the tabs.
pub open spec fn tab_closed(w: BenchView, index: int) -> BenchView {
    let strip = crate::tab_strip::without_tab(w.strip, index);
    if crate::tab_strip::close_action(w.strip, index) is Close {
        let tabs = w.tabs.remove(index);
        BenchView { strip, tabs, active: active_after_close(strip, tabs.len() as int), ..w }
    } else {
        BenchView { strip, ..w }
    }
}

/// The name of a tab on the strip.
pub open spec fn name_on_strip(s: StripView, index: int) -> Seq<char> {
    if index < s.tabs.len() {
        s.tabs[index].name
    } else {
        Seq::empty()
    }
}

/// What choosing from the menu of a tab leads to.
pub open spec fn menu_chosen(w: BenchView, action: TabContextMenuAction, index: int) -> (
    BenchView,
    Seq<EffectView>,
) {
    let none = Seq::<EffectView>::empty();
    match action {
        TabContextMenuAction::NewTab => if w.host() {
            (w, crate::workbench::workspace_action("new-tab"@, empty_args()))
        } else if w.has_bridge {
            (w, none)
        } else {
            (BenchView { strip: crate::workbench::with_new_tab(w.strip), ..w }, none)
        },
        TabContextMenuAction::RenameTab => {
            let w1 = if !w.has_bridge && index < w.strip.tabs.len() {
                BenchView {
                    strip: crate::tab_strip::with_active(w.strip, index),
                    active: index,
                    ..w
                }
            } else {
                w
            };
            (
                BenchView {
                    palette: crate::workbench::prompted(
                        w.palette,
                        "rename-tab"@,
                        "Rename the selected tab"@,
                        "Enter a new tab name"@,
                        name_on_strip(w.strip, index),
                    ),
                    ..w1
                },
                if w.host() {
                    goto_request(w, index)
                } else {
                    none
                },
            )
        },
        TabContextMenuAction::CloseTab => if w.host() {
            (w, close_requests(w, index))
        } else if w.has_bridge || w.strip.tabs.len() <= 1 {
            (w, none)
        } else if index < w.tabs.len() {
            (tab_closed(w, index), none)
        } else {
            (BenchView { strip: crate::tab_strip::without_tab(w.strip, index), ..w }, none)
        },
    }
}

fn nothing_given() -> (r: ActionValue)
    ensures
        r@ == empty_args(),
{
    let v: ActionArgs = Vec::new();
    assert(crate::bindings::args_seq(v@) =~= Seq::empty());
    ActionValue::Texts(v)
}

proof fn lemma_removed_ok(tabs: Seq<LiveTabView>, i: int)
    requires
        crate::workbench::tabs_ok(tabs),
        0 <= i < tabs.len(),
    ensures
        crate::workbench::tabs_ok(tabs.remove(i)),
{
    lemma_removed_total(tabs, i);
    let new = tabs.remove(i);
    assert forall|k: int| 0 <= k < new.len() implies (#[trigger] new[k]).screens_ok() by {
        let j = if k < i {
            k
        } else {
            k + 1
        };
        assert(tabs[j].screens_ok());
    }
    assert forall|k: int| 0 <= k < new.len() implies (#[trigger] new[k]).rows_ok() by {
        let j = if k < i {
            k
        } else {
            k + 1
        };
        assert(tabs[j].rows_ok());
    }
}

proof fn lemma_removed_total(tabs: Seq<LiveTabView>, i: int)
    requires
        0 <= i < tabs.len(),
    ensures
        crate::attention::session_total(tabs.remove(i)) <= crate::attention::session_total(tabs),
    decreases tabs.len(),
{
    let new = tabs.remove(i);
    if i == tabs.len() - 1 {
        assert(new =~= tabs.drop_last());
    } else {
        lemma_removed_total(tabs.drop_last(), i);
        assert(new.drop_last() =~= tabs.drop_last().remove(i));
    }
}

impl Workbench {
    /// Appends requests to the host to go to a tab, unless it is the active one.
    fn goto_tab(&self, index: usize) -> (r: Vec<Effect>)
        ensures
            effect_views(r@) == goto_request(self@, index as int),
    {
        if index != self.active_tab_index {
            send_workspace_action("goto-tab", ActionValue::Index(index))
        } else {
            no_effects()
        }
    }

    fn request_close(&self, index: usize) -> (r: Vec<Effect>)
        ensures
            effect_views(r@) == close_requests(self@, index as int),
    {
        let mut effects = self.goto_tab(index);
        let ghost first = effect_views(effects@);
        let mut more = send_workspace_action("close-tab", nothing_given());
        let ghost second = effect_views(more@);
        effects.append(&mut more);
        assert(effect_views(effects@) =~= first + second);
        effects
    }

    /// Closes a tab, on the strip and of the tabs.
    fn close_tab_here(&mut self, index: usize)
        requires
            old(self)@.wf(),
            index < old(self).tabs@.len(),
        ensures
            final(self)@ == tab_closed(old(self)@, index as int),
            final(self)@.wf(),
    {
        let ghost w = self@;
        proof {
            crate::tab_strip::law_closing_keeps_sound(w.strip, index as int);
        }
        let result = self.tab_strip.close_tab(index);
        if let TabAction::Close(_) = result {
            proof {
                lemma_removed_ok(w.tabs, index as int);
            }
            self.tabs.remove(index);
            assert(self@.tabs =~= w.tabs.remove(index as int));
            let count: usize = self.tabs.len();
            let active: usize = self.tab_strip.active_index();
            self.active_tab_index = if count == 0 {
                0
            } else if active < count {
                active
            } else {
                count - 1
            };
        }
    }

    /// Carry out what was chosen from the menu of a tab.
    pub fn on_tab_menu(&mut self, action: TabContextMenuAction, index: usize) -> (r: Vec<Effect>)
        requires
            old(self)@.wf(),
            crate::workbench::has_room(old(self)@.strip),
        ensures
            (final(self)@, effect_views(r@)) == menu_chosen(old(self)@, action, index as int),
            final(self)@.wf(),
    {
        let host = self.has_bridge && self.connected;
        match action {
            TabContextMenuAction::NewTab => {
                if host {
                    return send_workspace_action("new-tab", nothing_given());
                }
                if !self.has_bridge {
                    self.add_local_tab();
                }
                no_effects()
            },
            TabContextMenuAction::RenameTab => {
                let name = if index < self.tab_strip.tab_count() {
                    let tabs = self.tab_strip.tabs();
                    assert(tabs@[index as int]@ == self@.strip.tabs[index as int]);
                    tabs[index].name.clone()
                } else {
                    String::new()
                };
                let effects = if host {
                    self.goto_tab(index)
                } else {
                    no_effects()
                };
                if !self.has_bridge && index < self.tab_strip.tab_count() {
                    self.tab_strip.set_active(index);
                    self.active_tab_index = index;
                }
                self.palette.show_prompt(
                    "rename-tab".to_owned(),
                    "Rename the selected tab".to_owned(),
                    "Enter a new tab name".to_owned(),
                    name,
                );
                effects
            },
            TabContextMenuAction::CloseTab => {
                if host {
                    return self.request_close(index);
                }
                if !self.has_bridge && self.tab_strip.tab_count() > 1 {
                    if index < self.tabs.len() {
                        self.close_tab_here(index);
                    } else {
                        proof {
                            crate::tab_strip::law_closing_keeps_sound(self@.strip, index as int);
                        }
                        let _ = self.tab_strip.close_tab(index);
                    }
                }
                no_effects()
            },
        }
    }
}

// ── Outputs of the mouse handler ─────────────────────────────────────────────

/// Giving a pane the focus: the strip shows the progress of its session.
pub open spec fn pane_focused(w: BenchView, p: PaneId) -> BenchView {
    let tabs = if w.active_tab() is Some {
        w.tabs.update(w.active, crate::panes::with_focus(w.tabs[w.active], p))
    } else {
        w.tabs
    };
    BenchView {
        tabs,
        strip: crate::tabs::strip_progress(w.strip, tabs, tabs.len() as int),
        ..w
    }
}

/// Giving a pane the focus by a click: the status bar shows it too.
pub open spec fn pane_clicked(w: BenchView, p: PaneId) -> BenchView {
    let w1 = pane_focused(w, p);
    match w1.active_tab() {
        Some(tab) => BenchView {
            bar: crate::status_bar::with_path(w.bar, crate::tabs::host_target(tab, p)),
            ..w1
        },
        None => w1,
    }
}

/// The text that is selected in a pane.
pub open spec fn copied_from(w: BenchView, p: PaneId, sel: TextSelection) -> Seq<EffectView> {
    match w.active_tab() {
        Some(tab) => match tab.screen(p) {
            Some(screen) => {
                let offset = w.mouse.pane(p).scroll_offset;
                let text = crate::clipboard::selected_text(
                    screen,
                    sel,
                    if offset > 0 {
                        offset as int
                    } else {
                        0
                    },
                );
                if text.len() > 0 {
                    seq![EffectView::CopyText(text)]
                } else {
                    Seq::empty()
                }
            },
            None => Seq::empty(),
        },
        None => Seq::empty(),
    }
}

/// Keeping a pane within its scrollback.
pub open spec fn scroll_kept(w: BenchView, p: PaneId) -> BenchView {
    match w.active_tab() {
        Some(tab) => match tab.screen(p) {
            Some(screen) if w.mouse.panes.dom().contains(p.0) => scrolled(
                w,
                p,
                w.mouse.pane(p).scroll_offset as int,
                screen.scrollback(),
            ),
            _ => w,
        },
        None => w,
    }
}

/// What an action of the tab strip leads to.
pub open spec fn tab_action_done(w: BenchView, action: TabAction) -> (BenchView, Seq<EffectView>) {
    let title = seq![EffectView::RefreshTitle];
    match action {
        TabAction::WindowClose => (
            w,
            if w.has_bridge {
                seq![EffectView::Disconnect, EffectView::CloseWindow]
            } else {
                seq![EffectView::CloseWindow]
            },
        ),
        TabAction::Create => if w.host() {
            (w, crate::workbench::workspace_action("new-tab"@, empty_args()) + title)
        } else {
            let strip = crate::workbench::with_new_tab(w.strip);
            (
                BenchView { strip, active: strip.active, ..w },
                seq![EffectView::OpenTab] + title,
            )
        },
        TabAction::MinimizeWindow => (w, seq![EffectView::MinimizeWindow] + title),
        TabAction::ToggleMaximizeWindow => (w, seq![EffectView::ToggleMaximizeWindow] + title),
        TabAction::Close(index) => if w.tabs.len() <= 1 {
            (w, title)
        } else if w.host() {
            (w, close_requests(w, index as int) + title)
        } else {
            let w1 = tab_closed(w, index as int);
            if w1.tabs.len() < w.tabs.len() {
                (
                    crate::host_events::active_shown(w1),
                    seq![EffectView::RefreshLayout] + title,
                )
            } else {
                (w1, title)
            }
        },
        TabAction::Reorder { .. } => (w, title),
        TabAction::SwitchTo(index) => if index >= w.strip.tabs.len() {
            (w, title)
        } else if w.host() {
            (
                w,
                crate::workbench::workspace_action(
                    "goto-tab"@,
                    ActionValueView::Index(index as int),
                ) + title,
            )
        } else {
            let w1 = BenchView {
                strip: crate::tab_strip::with_active(w.strip, index as int),
                active: index as int,
                ..w
            };
            match w1.active_tab() {
                Some(tab) => (
                    BenchView {
                        bar: crate::status_bar::with_path(
                            w.bar,
                            crate::tabs::host_target(tab, tab.focus),
                        ),
                        ..w1
                    },
                    seq![EffectView::RefreshLayout] + title,
                ),
                None => (w1, title),
            }
        },
    }
}

/// What an output of the mouse handler leads to.
pub open spec fn output_done(w: BenchView, output: MouseOutputView) -> (BenchView, Seq<EffectView>) {
    let none = Seq::<EffectView>::empty();
    match output {
        MouseOutputView::FocusPane(p) => (pane_clicked(w, p), seq![EffectView::RefreshTitle]),
        MouseOutputView::SelectionChanged(_, _) => (w, none),
        MouseOutputView::SelectionFinalized(p, sel) => (w, copied_from(w, p, sel)),
        MouseOutputView::PaneResize(PaneLayoutAction::Resize { pane_id, direction, cells }) => (
            w,
            if w.active_tab() is Some {
                seq![EffectView::ResizePane { pane_id, direction, cells }]
            } else {
                none
            },
        ),
        MouseOutputView::PaneResize(PaneLayoutAction::FocusPane(p)) => (
            pane_focused(w, p),
            seq![EffectView::RefreshTitle],
        ),
        MouseOutputView::SendToSession(p, data) => match w.active_tab() {
            Some(tab) if w.host() => (
                crate::workbench::input_sent(w, tab, p, data, false).0,
                crate::workbench::input_sent(w, tab, p, data, false).1,
            ),
            _ => (w, none),
        },
        MouseOutputView::ScrollPane(p, _) => (scroll_kept(w, p), none),
        MouseOutputView::PasteClipboard(p) => (w, seq![EffectView::PasteInto(p)]),
        MouseOutputView::Tab(action) => tab_action_done(w, action),
        MouseOutputView::SetCursor(_) => (w, none),
    }
}

/// Whether an output can be carried out: a tab that is to be closed here is there, unless nothing is
/// closed since there is only one, and there is room for a tab that is to be opened here.
pub open spec fn output_ok(w: BenchView, output: MouseOutputView) -> bool {
    match output {
        MouseOutputView::Tab(TabAction::Close(index)) => w.host() || w.tabs.len() <= 1 || index
            < w.tabs.len(),
        MouseOutputView::Tab(TabAction::Create) => w.host() || crate::workbench::has_room(w.strip),
        _ => true,
    }
}

/// Appends an effect.
fn and_then_title(effects: &mut Vec<Effect>)
    ensures
        effect_views(final(effects)@) == effect_views(old(effects)@) + seq![
            EffectView::RefreshTitle,
        ],
{
    effects.push(Effect::RefreshTitle);
    assert(effect_views(effects@) =~= effect_views(old(effects)@) + seq![
        EffectView::RefreshTitle,
    ]);
}

impl Workbench {
    /// Gives a pane of the active tab the focus, if there is one, and shows its progress.
    fn focus_and_sync(&mut self, p: PaneId)
        requires
            old(self)@.wf(),
        ensures
            final(self)@ == pane_focused(old(self)@, p),
            final(self)@.wf(),
    {
        if self.active_tab_index < self.tabs.len() {
            self.focus_pane(p);
        }
        proof {
            crate::host_events::lemma_strip_progress_sound(
                self@.strip,
                self@.tabs,
                self@.tabs.len() as int,
            );
        }
        sync_tab_progresses(&mut self.tab_strip, &self.tabs);
    }

    fn click_pane(&mut self, p: PaneId)
        requires
            old(self)@.wf(),
        ensures
            final(self)@ == pane_clicked(old(self)@, p),
            final(self)@.wf(),
    {
        self.focus_and_sync(p);
        if self.active_tab_index < self.tabs.len() {
            let tab = &self.tabs[self.active_tab_index];
            assert(tab@ == self@.tabs[self.active_tab_index as int]);
            let path = match tab.session(p) {
                Some(s) => s.pane_path.clone(),
                None => pane_number(p),
            };
            self.status_bar.set_pane_path(path);
        }
    }

    fn copy_from(&self, p: PaneId, sel: &TextSelection) -> (r: Vec<Effect>)
        requires
            self@.wf(),
        ensures
            effect_views(r@) == copied_from(self@, p, *sel),
    {
        if self.active_tab_index < self.tabs.len() {
            let tab = &self.tabs[self.active_tab_index];
            assert(tab@ == self@.tabs[self.active_tab_index as int]);
            assert(tab@.screens_ok());
            if let Some(screen) = tab.screen(p) {
                let offset: i32 = self.mouse.scroll_offset(&p);
                let back: usize = if offset > 0 {
                    offset as usize
                } else {
                    0
                };
                let text = extract_selection_text_at_offset(screen, sel, back);
                if chars_of(text.as_str()).len() > 0 {
                    return one_effect(Effect::CopyText(text));
                }
            }
        }
        no_effects()
    }

    fn keep_scroll(&mut self, p: PaneId)
        requires
            old(self)@.wf(),
        ensures
            final(self)@ == scroll_kept(old(self)@, p),
            final(self)@.wf(),
    {
        if self.active_tab_index < self.tabs.len() {
            let tab = &self.tabs[self.active_tab_index];
            assert(tab@ == self@.tabs[self.active_tab_index as int]);
            assert(tab@.screens_ok());
            if let Some(screen) = tab.screen(p) {
                let max: i32 = screen.scrollback_len() as i32;
                self.mouse.clamp_scroll(&p, max);
            }
        }
    }

    fn switch_to(&mut self, index: usize) -> (r: Vec<Effect>)
        requires
            old(self)@.wf(),
        ensures
            (final(self)@, effect_views(r@)) == tab_action_done(
                old(self)@,
                TabAction::SwitchTo(index),
            ),
            final(self)@.wf(),
    {
        let mut effects = no_effects();
        if index < self.tab_strip.tab_count() {
            if self.has_bridge && self.connected {
                effects = send_workspace_action("goto-tab", ActionValue::Index(index));
            } else {
                self.tab_strip.set_active(index);
                self.active_tab_index = index;
                if index < self.tabs.len() {
                    let tab = &self.tabs[index];
                    assert(tab@ == self@.tabs[index as int]);
                    let path = crate::tabs::pane_target(tab, tab.focus);
                    self.status_bar.set_pane_path(path);
                    effects = one_effect(Effect::RefreshLayout);
                }
            }
        }
        let ghost before = effect_views(effects@);
        and_then_title(&mut effects);
        assert(Seq::<EffectView>::empty() + seq![EffectView::RefreshTitle] =~= seq![
            EffectView::RefreshTitle,
        ]);
        effects
    }

    fn close_tab(&mut self, index: usize) -> (r: Vec<Effect>)
        requires
            old(self)@.wf(),
            old(self)@.host() || old(self).tabs@.len() <= 1 || index < old(self).tabs@.len(),
        ensures
            (final(self)@, effect_views(r@)) == tab_action_done(
                old(self)@,
                TabAction::Close(index),
            ),
            final(self)@.wf(),
    {
        let mut effects = no_effects();
        if self.tabs.len() > 1 {
            if self.has_bridge && self.connected {
                effects = self.request_close(index);
            } else {
                let count: usize = self.tabs.len();
                self.close_tab_here(index);
                if self.tabs.len() < count {
                    self.show_active_tab();
                    effects = one_effect(Effect::RefreshLayout);
                }
            }
        }
        and_then_title(&mut effects);
        assert(Seq::<EffectView>::empty() + seq![EffectView::RefreshTitle] =~= seq![
            EffectView::RefreshTitle,
        ]);
        effects
    }

    fn create_tab(&mut self) -> (r: Vec<Effect>)
        requires
            old(self)@.wf(),
            old(self)@.host() || crate::workbench::has_room(old(self)@.strip),
        ensures
            (final(self)@, effect_views(r@)) == tab_action_done(old(self)@, TabAction::Create),
            final(self)@.wf(),
    {
        let mut effects = if self.has_bridge && self.connected {
            send_workspace_action("new-tab", nothing_given())
        } else {
            self.add_local_tab();
            self.active_tab_index = self.tab_strip.active_index();
            one_effect(Effect::OpenTab)
        };
        and_then_title(&mut effects);
        effects
    }

    /// Carry out an action of the tab strip.
    pub fn on_tab_action(&mut self, action: TabAction) -> (r: Vec<Effect>)
        requires
            old(self)@.wf(),
            output_ok(old(self)@, MouseOutputView::Tab(action)),
        ensures
            (final(self)@, effect_views(r@)) == tab_action_done(old(self)@, action),
            final(self)@.wf(),
    {
        match action {
            TabAction::WindowClose => {
                let mut effects: Vec<Effect> = Vec::new();
                if self.has_bridge {
                    effects.push(Effect::Disconnect);
                }
                effects.push(Effect::CloseWindow);
                assert(effect_views(effects@) =~= tab_action_done(self@, action).1);
                effects
            },
            TabAction::Create => self.create_tab(),
            TabAction::MinimizeWindow => {
                let mut effects = one_effect(Effect::MinimizeWindow);
                and_then_title(&mut effects);
                effects
            },
            TabAction::ToggleMaximizeWindow => {
                let mut effects = one_effect(Effect::ToggleMaximizeWindow);
                and_then_title(&mut effects);
                effects
            },
            TabAction::Close(index) => self.close_tab(index),
            TabAction::Reorder { .. } => one_effect(Effect::RefreshTitle),
            TabAction::SwitchTo(index) => self.switch_to(index),
        }
    }

    /// Carry out an output of the mouse handler.
    pub fn on_mouse_output(&mut self, output: MouseOutput) -> (r: Vec<Effect>)
        requires
            old(self)@.wf(),
            output_ok(old(self)@, output@),
        ensures
            (final(self)@, effect_views(r@)) == output_done(old(self)@, output@),
            final(self)@.wf(),
    {
        match output {
            MouseOutput::FocusPane(p) => {
                self.click_pane(p);
                one_effect(Effect::RefreshTitle)
            },
            MouseOutput::SelectionChanged(_, _) => no_effects(),
            MouseOutput::SelectionFinalized(p, sel) => self.copy_from(p, &sel),
            MouseOutput::PaneResize(PaneLayoutAction::Resize { pane_id, direction, cells }) => {
                if self.active_tab_index < self.tabs.len() {
                    one_effect(Effect::ResizePane { pane_id, direction, cells })
                } else {
                    no_effects()
                }
            },
            MouseOutput::PaneResize(PaneLayoutAction::FocusPane(p)) => {
                self.focus_and_sync(p);
                one_effect(Effect::RefreshTitle)
            },
            MouseOutput::SendToSession(p, data) => {
                if self.has_bridge && self.connected && self.active_tab_index < self.tabs.len() {
                    let (effects, _) = self.send_to_pane(p, data, false);
                    effects
                } else {
                    no_effects()
                }
            },
            MouseOutput::ScrollPane(p, _) => {
                self.keep_scroll(p);
                no_effects()
            },
            MouseOutput::PasteClipboard(p) => one_effect(Effect::PasteInto(p)),
            MouseOutput::Tab(action) => self.on_tab_action(action),
            MouseOutput::SetCursor(_) => no_effects(),
        }
    }

    /// Add the tab that was opened, as the last one.
    pub fn push_tab(&mut self, tab: LiveTab)
        requires
            old(self)@.wf(),
            tab@.screens_ok(),
            tab@.rows_ok(),
            crate::attention::session_total(old(self)@.tabs) + tab@.pane_sessions.len()
                <= usize::MAX,
        ensures
            final(self)@ == (BenchView { tabs: old(self)@.tabs.push(tab@), ..old(self)@ }),
            final(self)@.wf(),
    {
        let ghost t = tab@;
        let ghost tabs = self@.tabs;
        self.tabs.push(tab);
        proof {
            assert(self@.tabs =~= tabs.push(t));
            assert(tabs.push(t).drop_last() =~= tabs);
            assert forall|k: int| 0 <= k < self@.tabs.len() implies (
            #[trigger] self@.tabs[k]).screens_ok() by {
                if k < tabs.len() {
                    assert(tabs[k].screens_ok());
                }
            }
            assert forall|k: int| 0 <= k < self@.tabs.len() implies (
            #[trigger] self@.tabs[k]).rows_ok() by {
                if k < tabs.len() {
                    assert(tabs[k].rows_ok());
                }
            }
        }
    }
}

// ── Font size ────────────────────────────────────────────────────────────────

/// Whether the wheel changes the size of the font while Ctrl is down: it does unless the session
/// of the pane under the pointer, or else of the focused pane, has asked for mouse events.
pub open spec fn zooms(w: BenchView, under: Option<PaneId>) -> bool {
    match w.active_tab() {
        Some(tab) => !crate::tabs::reports_mouse(
            tab,
            match under {
                Some(p) => p,
                None => tab.focus,
            },
        ),
        None => true,
    }
}

impl Workbench {
    /// Whether the wheel changes the size of the font while Ctrl is down. `under` is the pane
    /// under the pointer.
    pub fn wheel_changes_font(&self, under: Option<PaneId>) -> (r: bool)
        ensures
            r == zooms(self@, under),
    {
        if self.active_tab_index < self.tabs.len() {
            let tab = &self.tabs[self.active_tab_index];
            assert(tab@ == self@.tabs[self.active_tab_index as int]);
            let p = match under {
                Some(p) => p,
                None => tab.focus,
            };
            return !pane_has_mouse_reporting(tab, p);
        }
        true
    }
}

// ── Mouse events ─────────────────────────────────────────────────────────────

/// What a mouse event leads to: the outputs that are to be carried out one by one, what else there
/// is to do, and whether the window is to be painted.
#[derive(Debug)]
pub struct MouseStep {
    pub outputs: Vec<MouseOutput>,
    pub effects: Vec<Effect>,
    pub repaint: bool,
}

/// The model of a [`MouseStep`] with the workbench and the layout after it.
pub struct MouseStepView {
    pub bench: BenchView,
    pub drag: Option<usize>,
    pub hover: Option<usize>,
    pub outputs: Seq<MouseOutputView>,
    pub effects: Seq<EffectView>,
    pub repaint: bool,
}

/// Whether the pointer is on the tab strip, and on nothing of it that reacts to it.
pub open spec fn on_bare_strip(ptr: Pointer) -> bool {
    ptr.area == Area::TabStrip && !crate::tab_strip::hits_something(ptr.strip)
}

/// What a mouse event leads to that neither the palette nor a scrollbar has used up.
pub open spec fn panes_step(
    w: BenchView,
    layout: PaneLayout,
    kind: MouseEventKind,
    ptr: Pointer,
) -> MouseStepView {
    match w.active_tab() {
        None => MouseStepView {
            bench: w,
            drag: layout.drag,
            hover: layout.hover,
            outputs: Seq::empty(),
            effects: Seq::empty(),
            repaint: false,
        },
        Some(tab) => {
            let r = crate::mouse_handler::reaction(
                w.mouse,
                w.strip,
                layout,
                kind,
                ptr,
                tab.focus,
                crate::tabs::modes_of(tab),
            );
            let after = MouseStepView {
                bench: BenchView { mouse: r.mouse, strip: r.strip, ..w },
                drag: r.drag,
                hover: r.hover,
                outputs: r.outputs,
                effects: Seq::empty(),
                repaint: r.outputs.len() > 0,
            };
            if kind == MouseEventKind::LeftDoubleDown && on_bare_strip(ptr) {
                MouseStepView {
                    outputs: Seq::empty(),
                    effects: seq![EffectView::ToggleMaximizeWindow],
                    repaint: true,
                    ..after
                }
            } else if kind == MouseEventKind::LeftDown && on_bare_strip(ptr) && r.outputs.len()
                == 0 {
                MouseStepView { effects: seq![EffectView::DragWindow], ..after }
            } else {
                after
            }
        },
    }
}

/// What a mouse event leads to while the palette is open.
pub open spec fn palette_step(w: BenchView, kind: MouseEventKind, hit: PaletteHit) -> (
    BenchView,
    Seq<EffectView>,
    bool,
) {
    match kind {
        MouseEventKind::LeftDown => crate::input_routing::click_routed(w, hit),
        MouseEventKind::Wheel(delta) => (
            BenchView {
                palette: crate::command_palette::after_wheel(
                    w.palette,
                    hit != PaletteHit::Outside,
                    delta,
                ),
                ..w
            },
            Seq::empty(),
            true,
        ),
        _ => (w, Seq::empty(), true),
    }
}

impl Workbench {
    /// Process a mouse event while the palette is open.
    pub fn on_palette_mouse(&mut self, kind: MouseEventKind, hit: PaletteHit) -> (r: (
        Vec<Effect>,
        bool,
    ))
        requires
            old(self)@.wf(),
            old(self)@.palette.visible,
            crate::workbench::has_room(old(self)@.strip),
        ensures
            (final(self)@, effect_views(r.0@), r.1) == palette_step(old(self)@, kind, hit),
            final(self)@.wf(),
    {
        match kind {
            MouseEventKind::LeftDown => {
                let outcome = self.on_palette_click(hit);
                (outcome.effects, outcome.repaint)
            },
            MouseEventKind::Wheel(delta) => {
                let _ = self.palette.on_wheel(hit != PaletteHit::Outside, delta);
                (no_effects(), true)
            },
            _ => (no_effects(), true),
        }
    }

    /// Process a mouse event that neither the palette nor a scrollbar has used up.
    pub fn on_panes_mouse(
        &mut self,
        layout: &mut PaneLayout,
        kind: MouseEventKind,
        ptr: &Pointer,
    ) -> (r: MouseStep)
        requires
            old(self)@.wf(),
            crate::mouse_handler::pointer_ok(*ptr, *old(layout)),
            kind == MouseEventKind::Move ==> old(layout).drag_in_range(),
            kind matches MouseEventKind::Wheel(delta) ==> (old(self)@.active_tab() matches Some(tab)
                ==> crate::mouse_handler::wheel_fits(
                old(self)@.mouse,
                *ptr,
                tab.focus,
                crate::tabs::modes_of(tab),
                delta,
            )),
        ensures
            panes_step(old(self)@, *old(layout), kind, *ptr) == (MouseStepView {
                bench: final(self)@,
                drag: final(layout).drag,
                hover: final(layout).hover,
                outputs: crate::mouse_handler::output_views(r.outputs@),
                effects: effect_views(r.effects@),
                repaint: r.repaint,
            }),
            final(layout).rects == old(layout).rects,
            final(layout).splitters == old(layout).splitters,
            old(layout).drag_in_range() ==> final(layout).drag_in_range(),
            final(self)@.wf(),
    {
        if self.active_tab_index >= self.tabs.len() {
            let outputs: Vec<MouseOutput> = Vec::new();
            assert(crate::mouse_handler::output_views(outputs@) =~= Seq::empty());
            return MouseStep { outputs, effects: no_effects(), repaint: false };
        }
        let tab = &self.tabs[self.active_tab_index];
        assert(tab@ == self@.tabs[self.active_tab_index as int]);
        let focused = tab.focus;
        let modes = refresh_mouse_modes(tab);
        let outputs = self.mouse.handle_event(
            kind,
            ptr,
            &mut self.tab_strip,
            layout,
            focused,
            &modes,
        );
        let n: usize = outputs.len();
        let bare = ptr.area == Area::TabStrip && !self.tab_strip.hits_interactive_target(&ptr.strip);
        if kind == MouseEventKind::LeftDoubleDown && bare {
            let nothing: Vec<MouseOutput> = Vec::new();
            assert(crate::mouse_handler::output_views(nothing@) =~= Seq::empty());
            return MouseStep {
                outputs: nothing,
                effects: one_effect(Effect::ToggleMaximizeWindow),
                repaint: true,
            };
        }
        if kind == MouseEventKind::LeftDown && bare && n == 0 {
            return MouseStep { outputs, effects: one_effect(Effect::DragWindow), repaint: false };
        }
        MouseStep { outputs, effects: no_effects(), repaint: n > 0 }
    }
}

// ── Laws ─────────────────────────────────────────────────────────────────────

/// A drag of a scrollbar never scrolls a pane out of its scrollback.
pub proof fn law_drag_stays_in_scrollback(
    w: BenchView,
    bars: ScrollbarInteractionState,
    hit: Option<ScrollbarHit>,
    dragged_to: i32,
    d: ScrollbarDrag,
)
    requires
        bars.drag == Some(d),
        d.max_scroll >= 0,
        w.active_tab() is Some,
    ensures
        0 <= scrollbar_step(
            w,
            bars,
            MouseEventKind::Move,
            hit,
            dragged_to,
        ).bench.mouse.pane(d.pane).scroll_offset <= d.max_scroll,
{
}

/// Letting the button go ends every drag of a scrollbar.
pub proof fn law_release_ends_drag(
    w: BenchView,
    bars: ScrollbarInteractionState,
    hit: Option<ScrollbarHit>,
    dragged_to: i32,
)
    requires
        w.active_tab() is Some,
    ensures
        scrollbar_step(w, bars, MouseEventKind::LeftUp, hit, dragged_to).bars.drag is None,
{
}

/// After a pane was scrolled with the wheel it is within its scrollback.
pub proof fn law_wheel_stays_in_scrollback(w: BenchView, p: PaneId)
    requires
        w.active_tab() matches Some(tab) && (tab.screen(p) matches Some(screen)
            && crate::panes::screen_ok(screen)),
        w.mouse.panes.dom().contains(p.0),
    ensures
        0 <= scroll_kept(w, p).mouse.pane(p).scroll_offset <= w.active_tab()->0.screen(
            p,
        )->0.scrollback(),
{
}

/// With a host, the tab strip closes, opens and switches nothing by itself.
pub proof fn law_host_owns_the_strip(w: BenchView, action: TabAction)
    requires
        w.host(),
    ensures
        tab_action_done(w, action).0 == w,
{
}

/// A press on a scrollbar focuses its pane and takes hold of the bar; beside the thumb the pane is
/// also scrolled there.
pub proof fn law_scrollbars_are_grabbed(
    w: BenchView,
    bars: ScrollbarInteractionState,
    h: ScrollbarHit,
    dragged_to: i32,
)
    requires
        w.active_tab() is Some,
        w.tabs[w.active].panes.contains(h.pane),
        h.max_scroll >= 0,
    ensures
        ({
            let r = scrollbar_step(w, bars, MouseEventKind::LeftDown, Some(h), dragged_to);
            &&& r.used && r.repaint
            &&& r.bench.tabs[w.active].focus == h.pane
            &&& r.bars.drag == Some(ScrollbarDrag { pane: h.pane, max_scroll: h.max_scroll })
            &&& r.bars.hovered_pane == Some(h.pane)
            &&& h.jump is None ==> r.bench.mouse == w.mouse
            &&& h.jump is Some && 0 <= h.jump->0 <= h.max_scroll ==> r.bench.mouse.pane(
                h.pane,
            ).scroll_offset == h.jump->0
        }),
{
}

/// A scrollbar that is held scrolls its pane to where it is dragged, within the scrollback, and no
/// other pane; a release lets it go where it is.
pub proof fn law_held_scrollbars_scroll(
    w: BenchView,
    bars: ScrollbarInteractionState,
    hit: Option<ScrollbarHit>,
    to: i32,
    d: ScrollbarDrag,
    q: PaneId,
)
    requires
        w.active_tab() is Some,
        bars.drag == Some(d),
        d.max_scroll >= 0,
        q != d.pane,
    ensures
        ({
            let r = scrollbar_step(w, bars, MouseEventKind::Move, hit, to);
            let up = scrollbar_step(w, bars, MouseEventKind::LeftUp, hit, to);
            let offset = r.bench.mouse.pane(d.pane).scroll_offset;
            &&& 0 <= to <= d.max_scroll ==> offset == to
            &&& to < 0 ==> offset == 0
            &&& to > d.max_scroll ==> offset == d.max_scroll
            &&& r.bench.mouse.pane(q) == w.mouse.pane(q)
            &&& r.bench.mouse.pane(d.pane).selection == w.mouse.pane(d.pane).selection
            &&& r.bars.drag == Some(d) && r.used
            &&& up.bench == w && up.used && up.bars.drag is None
        }),
{
}

/// Where no scrollbar is held, one that is not hit uses no event, and moving only shows which bar is
/// pointed at.
pub proof fn law_scrollbars_elsewhere(
    w: BenchView,
    bars: ScrollbarInteractionState,
    kind: MouseEventKind,
    hit: Option<ScrollbarHit>,
    to: i32,
)
    requires
        bars.drag is None,
    ensures
        hit is None || !(kind is LeftDown) || w.active_tab() is None ==> {
            let r = scrollbar_step(w, bars, kind, hit, to);
            &&& !r.used
            &&& r.bench == w
            &&& r.bars.drag is None
            &&& !(kind is Move) ==> r.bars == bars
        },
        kind is Move && w.active_tab() is Some && hit is Some ==> scrollbar_step(
            w,
            bars,
            kind,
            hit,
            to,
        ).bars.hovered_pane == Some(hit->0.pane),
        kind is Move && w.active_tab() is Some && hit is None ==> scrollbar_step(
            w,
            bars,
            kind,
            hit,
            to,
        ).bars.hovered_pane is None,
{
}

/// Closing a tab here takes it out of the strip and out of the tabs alike, and what becomes active in
/// the strip becomes active in the tabs.
pub proof fn law_closing_here(w: BenchView, index: int, i: int)
    requires
        crate::tab_strip::sound(w.strip),
        w.strip.tabs.len() == w.tabs.len(),
        w.tabs.len() > 1,
        0 <= index < w.tabs.len(),
        index <= usize::MAX,
        0 <= i < w.tabs.len() - 1,
    ensures
        ({
            let after = tab_closed(w, index);
            let j = if i < index { i } else { i + 1 };
            &&& after.tabs.len() == w.tabs.len() - 1
            &&& after.strip.tabs.len() == w.strip.tabs.len() - 1
            &&& after.tabs[i] == w.tabs[j]
            &&& after.strip.tabs[i] == w.strip.tabs[j]
            &&& after.active == after.strip.active
            &&& 0 <= after.active < after.tabs.len()
        }),
{
}

/// What the menu of a tab asks of the host: a new tab, or to go to the tab and close it. Renaming asks
/// for the name here, with the old one to start from.
pub proof fn law_menu_with_a_host(w: BenchView, index: int)
    requires
        w.host(),
        0 <= index < w.strip.tabs.len(),
    ensures
        ({
            let none = ActionValueView::Texts(Seq::empty());
            let goto = crate::workbench::workspace_action(
                "goto-tab"@,
                ActionValueView::Index(index),
            );
            let close = crate::workbench::workspace_action("close-tab"@, none);
            let renamed = menu_chosen(w, TabContextMenuAction::RenameTab, index);
            &&& menu_chosen(w, TabContextMenuAction::NewTab, index) == (
                w,
                crate::workbench::workspace_action("new-tab"@, none),
            )
            &&& menu_chosen(w, TabContextMenuAction::CloseTab, index).0 == w
            &&& index == w.active ==> menu_chosen(w, TabContextMenuAction::CloseTab, index).1
                == close
            &&& index != w.active ==> menu_chosen(w, TabContextMenuAction::CloseTab, index).1 == goto
                + close
            &&& renamed.0.palette.visible
            &&& renamed.0.palette.mode is Prompt
            &&& renamed.0.palette.query == w.strip.tabs[index].name
            &&& index != w.active ==> renamed.1 == goto
            &&& index == w.active ==> renamed.1.len() == 0
        }),
{
    let close = crate::workbench::workspace_action(
        "close-tab"@,
        ActionValueView::Texts(Seq::empty()),
    );
    assert(Seq::<EffectView>::empty() + close =~= close);
}

/// What the menu of a tab does without a host: a new tab comes last, the tab is closed unless it is
/// the only one, and it becomes active to be renamed.
pub proof fn law_menu_without_a_host(w: BenchView, index: int)
    requires
        !w.has_bridge,
        crate::tab_strip::sound(w.strip),
        w.strip.tabs.len() == w.tabs.len(),
        0 <= index < w.strip.tabs.len(),
    ensures
        ({
            let made = menu_chosen(w, TabContextMenuAction::NewTab, index);
            let closed = menu_chosen(w, TabContextMenuAction::CloseTab, index);
            let renamed = menu_chosen(w, TabContextMenuAction::RenameTab, index);
            &&& made.0.strip.tabs.len() == w.strip.tabs.len() + 1 && made.0.strip.active
                == w.strip.tabs.len()
            &&& made.1.len() == 0 && closed.1.len() == 0 && renamed.1.len() == 0
            &&& w.strip.tabs.len() == 1 ==> closed.0 == w
            &&& w.strip.tabs.len() > 1 ==> closed.0 == tab_closed(w, index)
            &&& renamed.0.active == index && renamed.0.strip.active == index
            &&& renamed.0.palette.query == w.strip.tabs[index].name
        }),
{
}

/// A click on a pane gives it the focus, shows its path, and nothing else changes in the tabs.
pub proof fn law_clicks_focus_panes(w: BenchView, p: PaneId, u: int)
    requires
        0 <= w.active < w.tabs.len(),
        w.tabs[w.active].panes.contains(p),
        0 <= u < w.tabs.len(),
        u != w.active,
    ensures
        ({
            let (after, effects) = output_done(w, MouseOutputView::FocusPane(p));
            &&& after.tabs[w.active].focus == p
            &&& after.tabs[w.active].pane_sessions == w.tabs[w.active].pane_sessions
            &&& after.tabs[u] == w.tabs[u]
            &&& after.active == w.active
            &&& after.bar.pane_path == crate::tabs::host_target(w.tabs[w.active], p)
            &&& effects == seq![EffectView::RefreshTitle]
        }),
{
}

/// What the outputs of the mouse lead to: a splitter resizes its pane, bytes go to the session of
/// their pane, a paste goes into its pane, and the rest changes only what is painted.
pub proof fn law_outputs_of_the_mouse(
    w: BenchView,
    p: PaneId,
    direction: crate::pane_layout::ResizeDirection,
    cells: u16,
    data: Seq<u8>,
    id: Seq<char>,
    sel: Option<TextSelection>,
    hint: crate::pane_layout::CursorHint,
)
    requires
        0 <= w.active < w.tabs.len(),
        w.tabs[w.active].session(p) is Some,
        w.tabs[w.active].session(p)->0.session_id == id,
    ensures
        output_done(
            w,
            MouseOutputView::PaneResize(PaneLayoutAction::Resize { pane_id: p, direction, cells }),
        ) == (w, seq![EffectView::ResizePane { pane_id: p, direction, cells }]),
        w.host() ==> output_done(w, MouseOutputView::SendToSession(p, data)).1 == seq![
            EffectView::SendInput { session_id: id, data },
        ],
        !w.host() ==> output_done(w, MouseOutputView::SendToSession(p, data)) == (
            w,
            Seq::<EffectView>::empty(),
        ),
        output_done(w, MouseOutputView::PasteClipboard(p)) == (w, seq![EffectView::PasteInto(p)]),
        output_done(w, MouseOutputView::SelectionChanged(p, sel)) == (
            w,
            Seq::<EffectView>::empty(),
        ),
        output_done(w, MouseOutputView::SetCursor(hint)) == (w, Seq::<EffectView>::empty()),
{
}

/// A finished selection copies its text, as the pane is scrolled, if it holds any.
pub proof fn law_finished_selections_are_copied(
    w: BenchView,
    p: PaneId,
    sel: TextSelection,
    screen: Screen,
)
    requires
        0 <= w.active < w.tabs.len(),
        w.tabs[w.active].screen(p) == Some(screen),
        w.mouse.pane(p).scroll_offset >= 0,
    ensures
        ({
            let text = crate::clipboard::selected_text(
                screen,
                sel,
                w.mouse.pane(p).scroll_offset as int,
            );
            let (after, effects) = output_done(w, MouseOutputView::SelectionFinalized(p, sel));
            &&& after == w
            &&& text.len() > 0 ==> effects == seq![EffectView::CopyText(text)]
            &&& text.len() == 0 ==> effects.len() == 0
        }),
{
}

/// What the strip does without a host: it switches to the tab that was pressed, closes the one whose
/// cross was, and opens a new one, which becomes active.
pub proof fn law_strip_without_a_host(w: BenchView, index: usize)
    requires
        !w.host(),
        crate::tab_strip::sound(w.strip),
        w.strip.tabs.len() == w.tabs.len(),
        w.tabs.len() > 1,
        index < w.tabs.len(),
    ensures
        ({
            let (switched, a) = tab_action_done(w, TabAction::SwitchTo(index));
            let (closed, b) = tab_action_done(w, TabAction::Close(index));
            let (made, c) = tab_action_done(w, TabAction::Create);
            &&& switched.active == index && switched.strip.active == index
            &&& switched.tabs == w.tabs && switched.strip.tabs == w.strip.tabs
            &&& switched.bar.pane_path == crate::tabs::host_target(
                w.tabs[index as int],
                w.tabs[index as int].focus,
            )
            &&& switched.bar.attention == w.bar.attention
            &&& a == seq![EffectView::RefreshLayout, EffectView::RefreshTitle]
            &&& closed.tabs == w.tabs.remove(index as int)
            &&& closed.strip.tabs == w.strip.tabs.remove(index as int)
            &&& b == seq![EffectView::RefreshLayout, EffectView::RefreshTitle]
            &&& made.strip.tabs.len() == w.strip.tabs.len() + 1
            &&& made.active == w.strip.tabs.len()
            &&& c == seq![EffectView::OpenTab, EffectView::RefreshTitle]
        }),
{
    let title = seq![EffectView::RefreshTitle];
    assert(seq![EffectView::RefreshLayout] + title =~= seq![
        EffectView::RefreshLayout,
        EffectView::RefreshTitle,
    ]);
    assert(seq![EffectView::OpenTab] + title =~= seq![
        EffectView::OpenTab,
        EffectView::RefreshTitle,
    ]);
}

/// What the strip asks of the host: to go to the tab that was pressed, to close the one whose cross
/// was, and for a new one.
pub proof fn law_strip_with_a_host(w: BenchView, index: usize)
    requires
        w.host(),
        w.tabs.len() > 1,
        index < w.strip.tabs.len(),
    ensures
        ({
            let none = ActionValueView::Texts(Seq::empty());
            let title = seq![EffectView::RefreshTitle];
            let goto = crate::workbench::workspace_action(
                "goto-tab"@,
                ActionValueView::Index(index as int),
            );
            let close = crate::workbench::workspace_action("close-tab"@, none);
            &&& tab_action_done(w, TabAction::SwitchTo(index)).1 == goto + title
            &&& index == w.active ==> tab_action_done(w, TabAction::Close(index)).1 == close + title
            &&& index != w.active ==> tab_action_done(w, TabAction::Close(index)).1 == goto + close
                + title
            &&& tab_action_done(w, TabAction::Create).1 == crate::workbench::workspace_action(
                "new-tab"@,
                none,
            ) + title
        }),
{
    let close = crate::workbench::workspace_action(
        "close-tab"@,
        ActionValueView::Texts(Seq::empty()),
    );
    assert(Seq::<EffectView>::empty() + close =~= close);
}

/// What the buttons of the window do. Closing it tells the host first, where there is a connection to
/// one.
pub proof fn law_window_buttons(w: BenchView)
    ensures
        tab_action_done(w, TabAction::MinimizeWindow).1[0] == EffectView::MinimizeWindow,
        tab_action_done(w, TabAction::ToggleMaximizeWindow).1[0] == EffectView::ToggleMaximizeWindow,
        w.has_bridge ==> tab_action_done(w, TabAction::WindowClose).1 == seq![
            EffectView::Disconnect,
            EffectView::CloseWindow,
        ],
        !w.has_bridge ==> tab_action_done(w, TabAction::WindowClose).1 == seq![
            EffectView::CloseWindow,
        ],
        tab_action_done(w, TabAction::MinimizeWindow).0 == w,
        tab_action_done(w, TabAction::ToggleMaximizeWindow).0 == w,
        tab_action_done(w, TabAction::WindowClose).0 == w,
{
}

/// A press on a bare part of the strip drags the window, and a second press in quick succession
/// changes its size; anywhere else neither happens.
pub proof fn law_bare_strip_moves_the_window(
    w: BenchView,
    layout: PaneLayout,
    kind: MouseEventKind,
    ptr: Pointer,
)
    requires
        w.active_tab() is Some,
    ensures
        ({
            let bare = ptr.area == Area::TabStrip && !crate::tab_strip::hits_something(ptr.strip);
            let r = panes_step(w, layout, kind, ptr);
            &&& bare && kind is LeftDoubleDown ==> r.effects == seq![
                EffectView::ToggleMaximizeWindow,
            ]
            &&& bare && kind is LeftDown && r.outputs.len() == 0 ==> r.effects == seq![
                EffectView::DragWindow,
            ]
            &&& !bare || !(kind is LeftDown || kind is LeftDoubleDown) ==> r.effects.len() == 0
        }),
{
}

/// Mouse events over the panes go through the handler, with the focus of the active tab and with what
/// its panes have asked for.
pub proof fn law_panes_get_mouse_events(
    w: BenchView,
    layout: PaneLayout,
    kind: MouseEventKind,
    ptr: Pointer,
    tab: LiveTabView,
)
    requires
        w.active_tab() == Some(tab),
        ptr.area != Area::TabStrip,
    ensures
        ({
            let r = crate::mouse_handler::reaction(
                w.mouse,
                w.strip,
                layout,
                kind,
                ptr,
                tab.focus,
                crate::tabs::modes_of(tab),
            );
            let step = panes_step(w, layout, kind, ptr);
            &&& step.outputs == r.outputs
            &&& step.bench.mouse == r.mouse
            &&& step.bench.strip == r.strip
            &&& step.bench.tabs == w.tabs
            &&& step.drag == r.drag && step.hover == r.hover
        }),
{
}

/// The wheel changes the size of the font unless the pane under the pointer, or the focused one where
/// it is over none, has asked for mouse events.
pub proof fn law_wheel_zooms_unless_told(w: BenchView, p: PaneId, screen: Screen)
    requires
        0 <= w.active < w.tabs.len(),
        w.tabs[w.active].screen(p) == Some(screen),
    ensures
        zooms(w, Some(p)) <==> screen.mouse_mode == crate::screen::MouseMode::Off,
        p == w.tabs[w.active].focus ==> (zooms(w, None) <==> screen.mouse_mode
            == crate::screen::MouseMode::Off),
{
}

/// While the palette is shown, a press goes to it, the wheel moves its selection, and all else is
/// kept from what lies below.
pub proof fn law_palette_keeps_the_mouse(w: BenchView, hit: PaletteHit, delta: i16)
    ensures
        palette_step(w, MouseEventKind::LeftDown, hit) == crate::input_routing::click_routed(w, hit),
        palette_step(w, MouseEventKind::Wheel(delta), hit).0.palette
            == crate::command_palette::after_wheel(w.palette, !(hit is Outside), delta),
        palette_step(w, MouseEventKind::Wheel(delta), hit).1.len() == 0,
        palette_step(w, MouseEventKind::Move, hit).0 == w,
        palette_step(w, MouseEventKind::RightDown, hit).0 == w,
        palette_step(w, MouseEventKind::LeftUp, hit).0 == w,
{
}

/// A pane that was scrolled stays where it is if there is that much to scroll back to, and else at the
/// oldest row; other panes stay as they are.
pub proof fn law_scrolling_ends_at_the_oldest_row(w: BenchView, p: PaneId, screen: Screen, q: PaneId)
    requires
        0 <= w.active < w.tabs.len(),
        w.tabs[w.active].screen(p) == Some(screen),
        crate::panes::screen_ok(screen),
        w.mouse.panes.dom().contains(p.0),
        w.mouse.pane(p).scroll_offset >= 0,
        q != p,
    ensures
        ({
            let after = output_done(w, MouseOutputView::ScrollPane(p, 0)).0.mouse;
            let before = w.mouse.pane(p).scroll_offset;
            let max = screen.lines@.len() - screen.rows;
            &&& before <= max ==> after.pane(p) == w.mouse.pane(p)
            &&& before > max ==> after.pane(p).scroll_offset == max
            &&& after.pane(p).selection == w.mouse.pane(p).selection
            &&& after.pane(q) == w.mouse.pane(q)
        }),
{
}

} // verus!
