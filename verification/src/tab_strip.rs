//! The strip of tabs at the top of the window: which tabs there are, which is active, and what
//! the mouse does to them.
//!
//! Where things lie on the screen is known to the caller, who reports what the pointer hits.
use vstd::prelude::*;

use crate::panes::{ProgressInfo, ProgressState};

verus! {

broadcast use vstd::string::group_string_axioms;

// ── Tabs ─────────────────────────────────────────────────────────────────────

/// A single tab entry.
#[derive(Debug)]
pub struct Tab {
    pub id: u64,
    pub name: String,
    pub progress: Option<ProgressInfo>,
}

/// The model of a [`Tab`].
pub struct TabView {
    pub id: u64,
    pub name: Seq<char>,
    pub progress: Option<ProgressInfo>,
}

impl Clone for Tab {
    fn clone(&self) -> (r: Tab)
        ensures
            r@ == self@,
    {
        Tab { id: self.id, name: self.name.clone(), progress: self.progress }
    }
}

impl View for Tab {
    type V = TabView;

    open spec fn view(&self) -> TabView {
        TabView { id: self.id, name: self.name@, progress: self.progress }
    }
}

/// Action resulting from user interaction with the tab strip.
#[derive(Debug, Clone, Copy, PartialEq, Eq, Structural)]
pub enum TabAction {
    /// Switch to the tab at the given index.
    SwitchTo(usize),
    /// A tab was closed at the given index.
    Close(usize),
    /// Create a new tab.
    Create,
    /// Minimize the window.
    MinimizeWindow,
    /// Toggle maximized/restored state.
    ToggleMaximizeWindow,
    /// Reorder: tab moved from one index to another.
    Reorder { from: usize, to: usize },
    /// The last tab was closed, so the window should close.
    WindowClose,
}

/// A button of the window.
#[derive(Debug, Clone, Copy, PartialEq, Eq, Structural)]
pub enum WindowButtonKind {
    Minimize,
    MaximizeRestore,
    Close,
}

/// Which way tabs that do not fit are scrolled.
#[derive(Debug, Clone, Copy, PartialEq, Eq, Structural)]
pub enum StripScroll {
    Left,
    Right,
}

/// A tab on its way to another place.
#[derive(Debug, Clone, Copy, PartialEq, Eq, Structural)]
pub struct TabDrag {
    pub tab_index: usize,
    /// Whether the pointer has moved far enough for a drag.
    pub active: bool,
}

/// What the pointer hits of one tab.
#[derive(Debug, Clone, Copy, PartialEq, Eq, Structural)]
pub struct TabHit {
    /// The tab itself.
    pub body: bool,
    /// Its close button.
    pub close: bool,
}

/// What the pointer hits of the strip. Things may cover each other.
#[derive(Debug)]
pub struct StripHit {
    /// The pointer is on the strip.
    pub inside: bool,
    pub scroll_left: bool,
    pub scroll_right: bool,
    pub minimize: bool,
    pub maximize: bool,
    pub close_window: bool,
    pub add: bool,
    /// For each tab, from left to right.
    pub tabs: Vec<TabHit>,
    /// The pointer is further from where the button went down than a click may wander.
    pub past_drag_threshold: bool,
    /// The index that a tab would get if it were dropped here.
    pub drop_index: usize,
}

/// What the pointer is over.
#[derive(Debug, Clone, Copy, PartialEq, Eq, Structural)]
pub struct StripHover {
    pub tab: Option<usize>,
    pub close: Option<usize>,
    pub add: bool,
    pub window_button: Option<WindowButtonKind>,
}

/// Nothing is hovered.
pub open spec fn no_hover() -> StripHover {
    StripHover { tab: None, close: None, add: false, window_button: None }
}

/// Tab strip component: manages tabs.
#[derive(Debug)]
pub struct TabStrip {
    pub entries: Vec<Tab>,
    pub active: usize,
    pub next_id: u64,
    pub workspace_name: String,
    pub window_maximized: bool,
    pub hover: StripHover,
    pub drag: Option<TabDrag>,
    /// A scroll of the tabs that the caller is to carry out.
    pub scroll: Option<StripScroll>,
}

/// The model of a [`TabStrip`].
#[verifier::ext_equal]
pub struct StripView {
    pub tabs: Seq<TabView>,
    pub active: int,
    pub next_id: int,
    pub workspace_name: Seq<char>,
    pub window_maximized: bool,
    pub hover: StripHover,
    pub drag: Option<TabDrag>,
    pub scroll: Option<StripScroll>,
}

impl View for TabStrip {
    type V = StripView;

    open spec fn view(&self) -> StripView {
        StripView {
            tabs: self.entries@.map_values(|t: Tab| t@),
            active: self.active as int,
            next_id: self.next_id as int,
            workspace_name: self.workspace_name@,
            window_maximized: self.window_maximized,
            hover: self.hover,
            drag: self.drag,
            scroll: self.scroll,
        }
    }
}

/// The strip with another active tab.
pub open spec fn with_active(s: StripView, index: int) -> StripView {
    if index < s.tabs.len() {
        StripView { active: index, ..s }
    } else {
        s
    }
}

/// The strip with a new tab at its end.
pub open spec fn with_tab(s: StripView, name: Seq<char>) -> StripView {
    StripView {
        tabs: s.tabs.push(TabView { id: s.next_id as u64, name, progress: None }),
        next_id: s.next_id + 1,
        ..s
    }
}

/// The strip with another progress for one of its tabs.
pub open spec fn with_progress(s: StripView, index: int, progress: Option<ProgressInfo>) -> StripView {
    if 0 <= index < s.tabs.len() {
        StripView {
            tabs: s.tabs.update(index, TabView { progress, ..s.tabs[index] }),
            ..s
        }
    } else {
        s
    }
}

/// The strip without one of its tabs. The active tab stays active where it can; otherwise its
/// right neighbor becomes active, or the last tab.
pub open spec fn without_tab(s: StripView, index: int) -> StripView {
    if index >= s.tabs.len() {
        s
    } else if s.tabs.len() <= 1 {
        StripView { tabs: Seq::empty(), active: 0, ..s }
    } else {
        StripView {
            tabs: s.tabs.remove(index),
            active: if s.active >= s.tabs.len() - 1 {
                s.tabs.len() - 2
            } else if s.active > index {
                s.active - 1
            } else {
                s.active
            },
            ..s
        }
    }
}

/// What closing a tab amounts to.
pub open spec fn close_action(s: StripView, index: int) -> TabAction {
    if index < s.tabs.len() && s.tabs.len() <= 1 {
        TabAction::WindowClose
    } else {
        TabAction::Close(index as usize)
    }
}

/// Where the tab at index `i` goes when the tab at `from` is moved to `to`.
pub open spec fn moved_index(i: int, from: int, to: int) -> int {
    if i == from {
        to
    } else if from < i <= to {
        i - 1
    } else if to <= i < from {
        i + 1
    } else {
        i
    }
}

/// The strip with a tab moved. The active tab stays active.
pub open spec fn with_moved(s: StripView, from: int, to: int) -> StripView {
    if from >= s.tabs.len() || to >= s.tabs.len() || from == to {
        s
    } else {
        StripView {
            tabs: s.tabs.remove(from).insert(to, s.tabs[from]),
            active: moved_index(s.active, from, to),
            ..s
        }
    }
}

/// The dash between the parts of a window title.
pub open spec fn title_dash() -> Seq<char> {
    " \u{2014} "@
}

/// The title of the window: the workspace and the active tab.
pub open spec fn title_text(s: StripView, workspace_name: Seq<char>) -> Seq<char> {
    if s.active < s.tabs.len() {
        workspace_name + title_dash() + s.tabs[s.active].name
    } else {
        workspace_name
    }
}

/// The first tab that the pointer hits.
pub open spec fn first_hit(hits: Seq<TabHit>) -> int {
    crate::seqs::first_where(
        0,
        hits.len() as int,
        |i: int| hits[i].close || hits[i].body,
    )
}

/// What a press of the button does to the strip, and the action that results. The scroll arrows
/// come first, then the buttons of the window, the button for a new tab, and the tabs.
pub open spec fn pressed(s: StripView, hit: StripHit) -> (Option<TabAction>, StripView) {
    let i = first_hit(hit.tabs@);
    if !hit.inside {
        (None, s)
    } else if hit.scroll_left {
        (None, StripView { scroll: Some(StripScroll::Left), ..s })
    } else if hit.scroll_right {
        (None, StripView { scroll: Some(StripScroll::Right), ..s })
    } else if hit.minimize {
        (Some(TabAction::MinimizeWindow), s)
    } else if hit.maximize {
        (Some(TabAction::ToggleMaximizeWindow), s)
    } else if hit.close_window {
        (Some(TabAction::WindowClose), s)
    } else if hit.add {
        (Some(TabAction::Create), s)
    } else if i >= hit.tabs@.len() {
        (None, s)
    } else if hit.tabs@[i].close {
        (Some(TabAction::Close(i as usize)), s)
    } else {
        (
            if i != s.active {
                Some(TabAction::SwitchTo(i as usize))
            } else {
                None
            },
            StripView { drag: Some(TabDrag { tab_index: i as usize, active: false }), ..s },
        )
    }
}

/// What the pointer is over.
pub open spec fn hovered(hit: StripHit) -> StripHover {
    let i = first_hit(hit.tabs@);
    if !hit.inside {
        no_hover()
    } else {
        StripHover {
            tab: if i < hit.tabs@.len() {
                Some(i as usize)
            } else {
                None
            },
            close: if i < hit.tabs@.len() && hit.tabs@[i].close {
                Some(i as usize)
            } else {
                None
            },
            add: hit.add,
            window_button: if hit.minimize {
                Some(WindowButtonKind::Minimize)
            } else if hit.maximize {
                Some(WindowButtonKind::MaximizeRestore)
            } else if hit.close_window {
                Some(WindowButtonKind::Close)
            } else {
                None
            },
        }
    }
}

/// What a move of the pointer does to the strip.
pub open spec fn pointed(s: StripView, hit: StripHit) -> StripView {
    StripView {
        hover: hovered(hit),
        drag: match s.drag {
            Some(d) => Some(
                TabDrag { tab_index: d.tab_index, active: d.active || hit.past_drag_threshold },
            ),
            None => None,
        },
        ..s
    }
}

/// What a release of the button does to the strip, and the action that results.
pub open spec fn released(s: StripView, drop_index: usize) -> (Option<TabAction>, StripView) {
    let rest = StripView { drag: None, ..s };
    match s.drag {
        Some(d) if d.active && drop_index != d.tab_index => (
            Some(TabAction::Reorder { from: d.tab_index, to: drop_index }),
            with_moved(rest, d.tab_index as int, drop_index as int),
        ),
        _ => (None, rest),
    }
}

/// Scans for the first tab that the pointer hits.
fn find_hit(hits: &Vec<TabHit>) -> (r: Option<usize>)
    ensures
        match r {
            Some(i) => i == first_hit(hits@) && i < hits@.len() && (hits@[i as int].close
                || hits@[i as int].body),
            None => first_hit(hits@) == hits@.len(),
        },
{
    let ghost p = |i: int| hits@[i].close || hits@[i].body;
    let mut i: usize = 0;
    while i < hits.len()
        invariant
            i <= hits@.len(),
            p == (|i: int| hits@[i].close || hits@[i].body),
            forall|j: int| 0 <= j < i ==> !#[trigger] p(j),
        decreases hits.len() - i,
    {
        if hits[i].close || hits[i].body {
            proof {
                assert(p(i as int));
                crate::seqs::lemma_first_where_is(0, hits@.len() as int, p, i as int);
            }
            return Some(i);
        }
        assert(!p(i as int));
        i += 1;
    }
    proof {
        crate::seqs::lemma_first_where_is(0, hits@.len() as int, p, i as int);
    }
    None
}

/// Whether the pointer is on something of the strip that reacts to it.
pub open spec fn hits_something(hit: StripHit) -> bool {
    hit.inside && (hit.add || hit.minimize || hit.maximize || hit.close_window || hit.scroll_left
        || hit.scroll_right || first_hit(hit.tabs@) < hit.tabs@.len())
}

impl TabStrip {
    /// Create a new empty tab strip.
    pub fn new() -> (r: TabStrip)
        ensures
            r@ == (StripView {
                tabs: Seq::empty(),
                active: 0,
                next_id: 1,
                workspace_name: Seq::empty(),
                window_maximized: false,
                hover: no_hover(),
                drag: None,
                scroll: None,
            }),
    {
        let r = TabStrip {
            entries: Vec::new(),
            active: 0,
            next_id: 1,
            workspace_name: String::new(),
            window_maximized: false,
            hover: StripHover { tab: None, close: None, add: false, window_button: None },
            drag: None,
            scroll: None,
        };
        assert(r@.tabs =~= Seq::empty());
        r
    }

    /// Number of tabs.
    pub fn tab_count(&self) -> (r: usize)
        ensures
            r == self@.tabs.len(),
    {
        self.entries.len()
    }

    /// Get all tabs.
    pub fn tabs(&self) -> (r: &Vec<Tab>)
        ensures
            r@.map_values(|t: Tab| t@) == self@.tabs,
            r@ == self.entries@,
    {
        &self.entries
    }

    /// The index of the tab that the pointer is on, if it is on the strip and on a tab.
    pub fn tab_index_at(&self, hit: &StripHit) -> (r: Option<usize>)
        ensures
            ({
                let i = crate::seqs::first_where(
                    0,
                    hit.tabs@.len() as int,
                    |i: int| hit.tabs@[i].body,
                );
                r == if hit.inside && i < hit.tabs@.len() {
                    Some(i as usize)
                } else {
                    None::<usize>
                }
            }),
    {
        if !hit.inside {
            return None;
        }
        let ghost p = |i: int| hit.tabs@[i].body;
        let mut i: usize = 0;
        while i < hit.tabs.len()
            invariant
                i <= hit.tabs@.len(),
                p == (|i: int| hit.tabs@[i].body),
                hit.inside,
                forall|j: int| 0 <= j < i ==> !#[trigger] p(j),
            decreases hit.tabs.len() - i,
        {
            if hit.tabs[i].body {
                proof {
                    assert(p(i as int));
                    crate::seqs::lemma_first_where_is(0, hit.tabs@.len() as int, p, i as int);
                }
                return Some(i);
            }
            assert(!p(i as int));
            i += 1;
        }
        proof {
            crate::seqs::lemma_first_where_is(0, hit.tabs@.len() as int, p, i as int);
        }
        None
    }

    /// Get the active tab, if any.
    pub fn active_tab(&self) -> (r: Option<&Tab>)
        ensures
            match r {
                Some(t) => self@.active < self@.tabs.len() && t@ == self@.tabs[self@.active],
                None => self@.active >= self@.tabs.len(),
            },
    {
        if self.active < self.entries.len() {
            Some(&self.entries[self.active])
        } else {
            None
        }
    }

    /// Get the active tab index.
    pub fn active_index(&self) -> (r: usize)
        ensures
            r == self@.active,
    {
        self.active
    }

    /// Add a new tab with the given name. Returns the tab's unique ID.
    pub fn add_tab(&mut self, name: String) -> (id: u64)
        requires
            old(self).next_id < u64::MAX,
        ensures
            id == old(self)@.next_id,
            final(self)@ == with_tab(old(self)@, name@),
    {
        let id: u64 = self.next_id;
        self.next_id = id + 1;
        let ghost before = self.entries@;
        self.entries.push(Tab { id, name, progress: None });
        assert(self@.tabs =~= before.map_values(|t: Tab| t@).push(
            TabView { id, name: name@, progress: None },
        ));
        id
    }

    /// Set the progress indicator for a tab by index.
    pub fn set_progress(&mut self, index: usize, progress: Option<ProgressInfo>)
        ensures
            final(self)@ == with_progress(old(self)@, index as int, progress),
    {
        if index < self.entries.len() {
            let tab = Tab {
                id: self.entries[index].id,
                name: self.entries[index].name.clone(),
                progress,
            };
            self.entries.set(index, tab);
            assert(self@.tabs =~= with_progress(old(self)@, index as int, progress).tabs);
        }
    }

    /// Set the active tab by index. No-op if out of bounds.
    pub fn set_active(&mut self, index: usize)
        ensures
            final(self)@ == with_active(old(self)@, index as int),
    {
        if index < self.entries.len() {
            self.active = index;
        }
    }

    /// Set the workspace name shown on the left side of the strip.
    pub fn set_workspace_name(&mut self, name: String)
        ensures
            final(self)@ == (StripView { workspace_name: name@, ..old(self)@ }),
    {
        self.workspace_name = name;
    }

    /// Update whether the host window is currently maximized.
    pub fn set_window_maximized(&mut self, maximized: bool)
        ensures
            final(self)@ == (StripView { window_maximized: maximized, ..old(self)@ }),
    {
        self.window_maximized = maximized;
    }

    /// Close a tab by index. Returns the resulting action.
    ///
    /// If this was the last tab, returns [`TabAction::WindowClose`].
    pub fn close_tab(&mut self, index: usize) -> (r: TabAction)
        ensures
            r == close_action(old(self)@, index as int),
            final(self)@ == without_tab(old(self)@, index as int),
    {
        if index >= self.entries.len() {
            return TabAction::Close(index);
        }
        if self.entries.len() <= 1 {
            self.entries.clear();
            self.active = 0;
            assert(self@.tabs =~= Seq::empty());
            return TabAction::WindowClose;
        }
        self.entries.remove(index);
        assert(self@.tabs =~= old(self)@.tabs.remove(index as int));
        if self.active >= self.entries.len() {
            self.active = self.entries.len() - 1;
        } else if self.active > index {
            self.active = self.active - 1;
        }
        TabAction::Close(index)
    }

    /// Reorder: move tab from `from` to `to`.
    pub fn reorder(&mut self, from: usize, to: usize)
        ensures
            final(self)@ == with_moved(old(self)@, from as int, to as int),
    {
        if from >= self.entries.len() || to >= self.entries.len() || from == to {
            return;
        }
        let tab = self.entries.remove(from);
        self.entries.insert(to, tab);
        assert(self@.tabs =~= old(self)@.tabs.remove(from as int).insert(
            to as int,
            old(self)@.tabs[from as int],
        ));
        // Keep the active index following the active tab.
        if self.active == from {
            self.active = to;
        } else if from < self.active && to >= self.active {
            self.active = self.active - 1;
        } else if from > self.active && to <= self.active {
            self.active = self.active + 1;
        }
    }

    /// Generate a window title: the workspace name, a dash, and the name of the active tab.
    pub fn window_title(&self, workspace_name: &str) -> (r: String)
        ensures
            r@ == title_text(self@, workspace_name@),
    {
        let mut title = workspace_name.to_owned();
        if let Some(tab) = self.active_tab() {
            title.append(" \u{2014} ");
            title.append(tab.name.as_str());
        }
        title
    }

    /// Whether a drag is currently active.
    pub fn is_dragging(&self) -> (r: bool)
        ensures
            r == (self@.drag matches Some(d) && d.active),
    {
        match self.drag {
            Some(d) => d.active,
            None => false,
        }
    }

    /// Return true when the pointer hits an interactive tab-strip target.
    pub fn hits_interactive_target(&self, hit: &StripHit) -> (r: bool)
        ensures
            r == hits_something(*hit),
    {
        if !hit.inside {
            return false;
        }
        if hit.add || hit.minimize || hit.maximize || hit.close_window || hit.scroll_left
            || hit.scroll_right {
            return true;
        }
        find_hit(&hit.tabs).is_some()
    }

    // ── Mouse interaction ────────────────────────────────────────────────────

    /// Handle a mouse-down event. Returns an action if one is triggered.
    pub fn on_mouse_down(&mut self, hit: &StripHit) -> (r: Option<TabAction>)
        ensures
            (r, final(self)@) == pressed(old(self)@, *hit),
    {
        if !hit.inside {
            return None;
        }
        if hit.scroll_left {
            self.scroll = Some(StripScroll::Left);
            return None;
        }
        if hit.scroll_right {
            self.scroll = Some(StripScroll::Right);
            return None;
        }
        if hit.minimize {
            return Some(TabAction::MinimizeWindow);
        }
        if hit.maximize {
            return Some(TabAction::ToggleMaximizeWindow);
        }
        if hit.close_window {
            return Some(TabAction::WindowClose);
        }
        if hit.add {
            return Some(TabAction::Create);
        }
        match find_hit(&hit.tabs) {
            None => None,
            Some(i) => {
                if hit.tabs[i].close {
                    return Some(TabAction::Close(i));
                }
                self.drag = Some(TabDrag { tab_index: i, active: false });
                if i != self.active {
                    Some(TabAction::SwitchTo(i))
                } else {
                    None
                }
            },
        }
    }

    /// Handle a mouse-move event.
    pub fn on_mouse_move(&mut self, hit: &StripHit)
        ensures
            final(self)@ == pointed(old(self)@, *hit),
    {
        let mut hover = StripHover { tab: None, close: None, add: false, window_button: None };
        if hit.inside {
            hover.add = hit.add;
            if hit.minimize {
                hover.window_button = Some(WindowButtonKind::Minimize);
            } else if hit.maximize {
                hover.window_button = Some(WindowButtonKind::MaximizeRestore);
            } else if hit.close_window {
                hover.window_button = Some(WindowButtonKind::Close);
            }
            if let Some(i) = find_hit(&hit.tabs) {
                hover.tab = Some(i);
                if hit.tabs[i].close {
                    hover.close = Some(i);
                }
            }
        }
        self.hover = hover;
        if let Some(d) = self.drag {
            self.drag = Some(
                TabDrag { tab_index: d.tab_index, active: d.active || hit.past_drag_threshold },
            );
        }
    }

    /// Handle a mouse-up event. Returns an action if drag reorder completes.
    pub fn on_mouse_up(&mut self, hit: &StripHit) -> (r: Option<TabAction>)
        ensures
            (r, final(self)@) == released(old(self)@, hit.drop_index),
    {
        let drag = self.drag;
        self.drag = None;
        if let Some(d) = drag {
            if d.active && hit.drop_index != d.tab_index {
                self.reorder(d.tab_index, hit.drop_index);
                return Some(TabAction::Reorder { from: d.tab_index, to: hit.drop_index });
            }
        }
        None
    }

    /// Handle mouse leaving the window.
    pub fn on_mouse_leave(&mut self)
        ensures
            final(self)@ == (StripView { hover: no_hover(), drag: None, ..old(self)@ }),
    {
        self.hover = StripHover { tab: None, close: None, add: false, window_button: None };
        self.drag = None;
    }

    /// Takes the scroll of the tabs that is to be carried out.
    pub fn take_scroll(&mut self) -> (r: Option<StripScroll>)
        ensures
            r == old(self)@.scroll,
            final(self)@ == (StripView { scroll: None, ..old(self)@ }),
    {
        let r = self.scroll;
        self.scroll = None;
        r
    }

    // ── Appearance ───────────────────────────────────────────────────────────

    /// How a tab is painted.
    pub fn tab_style(&self, index: usize) -> (r: TabStyle)
        requires
            index < self@.tabs.len(),
        ensures
            r == style_of(self@, index as int),
    {
        let is_active = index == self.active;
        let is_hover = self.hover.tab == Some(index) && !is_active;
        let is_dragging = match self.drag {
            Some(d) => d.active && d.tab_index == index,
            None => false,
        };
        let fill = if is_dragging {
            TabFill::Hovered
        } else if is_active {
            TabFill::Active
        } else if is_hover {
            TabFill::Hovered
        } else {
            TabFill::Plain
        };
        TabStyle {
            fill,
            follows_pointer: is_dragging,
            outlined: is_active && !is_dragging,
            bold: is_active,
            close_hot: self.hover.close == Some(index),
            progress: self.entries[index].progress,
        }
    }
}

/// The background of a tab.
#[derive(Debug, Clone, Copy, PartialEq, Eq, Structural)]
pub enum TabFill {
    Plain,
    Hovered,
    Active,
}

/// How a tab is painted.
#[derive(Debug, Clone, Copy, PartialEq, Eq, Structural)]
pub struct TabStyle {
    pub fill: TabFill,
    /// The tab is drawn where the pointer has dragged it.
    pub follows_pointer: bool,
    /// The tab has an accent outline.
    pub outlined: bool,
    /// The name is bold and bright.
    pub bold: bool,
    /// The close button is highlighted.
    pub close_hot: bool,
    pub progress: Option<ProgressInfo>,
}

/// How a tab is painted: a dragged tab looks hovered, and has no outline even if active.
pub open spec fn style_of(s: StripView, index: int) -> TabStyle {
    let active = index == s.active;
    let dragged = s.drag matches Some(d) && d.active && d.tab_index == index;
    TabStyle {
        fill: if dragged {
            TabFill::Hovered
        } else if active {
            TabFill::Active
        } else if s.hover.tab == Some(index as usize) {
            TabFill::Hovered
        } else {
            TabFill::Plain
        },
        follows_pointer: dragged,
        outlined: active && !dragged,
        bold: active,
        close_hot: s.hover.close == Some(index as usize),
        progress: s.tabs[index].progress,
    }
}

/// The color of a progress ring.
pub open spec fn progress_rgb(state: ProgressState, is_active: bool) -> (u8, u8, u8) {
    match state {
        ProgressState::Normal => if is_active {
            (120, 220, 130)
        } else {
            (100, 200, 120)
        },
        ProgressState::Error => if is_active {
            (220, 106, 106)
        } else {
            (220, 96, 96)
        },
        ProgressState::Indeterminate => if is_active {
            (140, 190, 220)
        } else {
            (120, 180, 220)
        },
        ProgressState::Warning => if is_active {
            (220, 182, 92)
        } else {
            (220, 176, 92)
        },
    }
}

/// The color of the progress ring of a tab.
pub fn progress_color(progress: &ProgressInfo, is_active: bool) -> (r: (u8, u8, u8))
    ensures
        r == progress_rgb(progress.state, is_active),
{
    let bump: u8 = if is_active {
        20
    } else {
        0
    };
    match progress.state {
        ProgressState::Normal => (100 + bump, 200 + bump, 120 + bump / 2),
        ProgressState::Error => (220, 96 + bump / 2, 96 + bump / 2),
        ProgressState::Indeterminate => (120 + bump, 180 + bump / 2, 220),
        ProgressState::Warning => (220, 176 + bump / 3, 92),
    }
}

/// The number of segments of a progress ring.
pub const RING_SEGMENTS: usize = 16;

/// The percentage that is shown.
pub open spec fn shown_percent(value: Option<u8>) -> int {
    match value {
        Some(v) => if v < 100 {
            v as int
        } else {
            100
        },
        None => 0,
    }
}

/// The number of segments of the ring that are lit: a share of them that stands for the
/// percentage, rounded up, or a quarter while there is no percentage to show.
pub open spec fn lit_of(progress: ProgressInfo) -> int {
    if progress.state == ProgressState::Indeterminate {
        4
    } else {
        (shown_percent(progress.value) * RING_SEGMENTS + 99) / 100
    }
}

/// How many segments of the progress ring are lit.
pub fn lit_segments(progress: &ProgressInfo) -> (r: usize)
    ensures
        r == lit_of(*progress),
        r <= RING_SEGMENTS,
{
    match progress.state {
        ProgressState::Indeterminate => 4,
        _ => {
            let value: usize = match progress.value {
                Some(v) => if v < 100 {
                    v as usize
                } else {
                    100
                },
                None => 0,
            };
            (value * RING_SEGMENTS + 99) / 100
        },
    }
}

// ── Laws ─────────────────────────────────────────────────────────────────────

/// What holds of every strip that was made by the operations above: the active index is in
/// range unless there are no tabs, no two tabs have the same ID, and IDs that were given out
/// are not given out again.
pub open spec fn sound(s: StripView) -> bool {
    &&& s.active < s.tabs.len() || (s.active == 0 && s.tabs.len() == 0)
    &&& s.active >= 0
    &&& forall|i: int| 0 <= i < s.tabs.len() ==> (#[trigger] s.tabs[i]).id < s.next_id
    &&& forall|i: int, j: int|
        0 <= i < j < s.tabs.len() ==> (#[trigger] s.tabs[i]).id != (#[trigger] s.tabs[j]).id
}

/// Adding a tab keeps the strip sound and the active tab where it is.
pub proof fn law_adding_keeps_sound(s: StripView, name: Seq<char>)
    requires
        sound(s),
        s.next_id < u64::MAX,
        s.next_id >= 0,
    ensures
        sound(with_tab(s, name)),
        with_tab(s, name).active == s.active,
        with_tab(s, name).tabs.last().name == name,
{
}

/// Closing a tab keeps the strip sound.
pub proof fn law_closing_keeps_sound(s: StripView, index: int)
    requires
        sound(s),
        0 <= index,
    ensures
        sound(without_tab(s, index)),
{
    let t = without_tab(s, index);
    if index < s.tabs.len() && s.tabs.len() > 1 {
        assert forall|i: int, j: int| 0 <= i < j < t.tabs.len() implies (#[trigger] t.tabs[i]).id != (
        #[trigger] t.tabs[j]).id by {
            let i0 = if i < index {
                i
            } else {
                i + 1
            };
            let j0 = if j < index {
                j
            } else {
                j + 1
            };
            assert(t.tabs[i] == s.tabs[i0]);
            assert(t.tabs[j] == s.tabs[j0]);
        }
        assert forall|i: int| 0 <= i < t.tabs.len() implies (#[trigger] t.tabs[i]).id
            < t.next_id by {
            let i0 = if i < index {
                i
            } else {
                i + 1
            };
            assert(t.tabs[i] == s.tabs[i0]);
        }
    }
}

/// Closing another tab leaves the active tab active, whichever index it gets.
pub proof fn law_closing_another_keeps_active_tab(s: StripView, index: int)
    requires
        sound(s),
        0 <= index < s.tabs.len(),
        index != s.active,
    ensures
        without_tab(s, index).tabs[without_tab(s, index).active] == s.tabs[s.active],
{
}

/// Moving a tab puts it where it was to go, moves every other tab by at most one place, and
/// keeps the active tab active.
pub proof fn law_moving_is_a_rearrangement(s: StripView, from: int, to: int, i: int)
    requires
        0 <= from < s.tabs.len(),
        0 <= to < s.tabs.len(),
        0 <= i < s.tabs.len(),
    ensures
        0 <= moved_index(i, from, to) < s.tabs.len(),
        with_moved(s, from, to).tabs.len() == s.tabs.len(),
        with_moved(s, from, to).tabs[moved_index(i, from, to)] == s.tabs[i],
        0 <= s.active < s.tabs.len() ==> with_moved(s, from, to).tabs[with_moved(
            s,
            from,
            to,
        ).active] == s.tabs[s.active],
{
}

/// Moving a tab back undoes the move.
pub proof fn law_moving_back_undoes(s: StripView, from: int, to: int)
    requires
        0 <= from < s.tabs.len(),
        0 <= to < s.tabs.len(),
        0 <= s.active < s.tabs.len(),
    ensures
        with_moved(with_moved(s, from, to), to, from) == s,
{
    let t = with_moved(s, from, to);
    let u = with_moved(t, to, from);
    assert(u.tabs =~= s.tabs);
    assert(u =~= s);
}

/// The strip stays sound when a tab is moved.
pub proof fn law_moving_keeps_sound(s: StripView, from: int, to: int)
    requires
        sound(s),
        0 <= from,
        0 <= to,
    ensures
        sound(with_moved(s, from, to)),
{
    let t = with_moved(s, from, to);
    if from < s.tabs.len() && to < s.tabs.len() && from != to {
        assert forall|i: int, j: int| 0 <= i < j < t.tabs.len() implies (#[trigger] t.tabs[i]).id != (
        #[trigger] t.tabs[j]).id by {
            let i0 = moved_index(i, to, from);
            let j0 = moved_index(j, to, from);
            assert(t.tabs[i] == s.tabs[i0]);
            assert(t.tabs[j] == s.tabs[j0]);
            assert(i0 != j0);
        }
        assert forall|i: int| 0 <= i < t.tabs.len() implies (#[trigger] t.tabs[i]).id
            < t.next_id by {
            assert(t.tabs[i] == s.tabs[moved_index(i, to, from)]);
        }
    }
}

/// A full ring stands for one hundred percent or more, and an empty one for none.
pub proof fn law_ring_ends(progress: ProgressInfo)
    requires
        progress.state != ProgressState::Indeterminate,
    ensures
        lit_of(progress) == 0 <==> shown_percent(progress.value) == 0,
        shown_percent(progress.value) == 100 ==> lit_of(progress) == RING_SEGMENTS,
        lit_of(progress) <= RING_SEGMENTS,
{
}

/// Closing a tab takes out that tab and no other: the tabs before it stay where they are, and those
/// behind it move up.
pub proof fn law_closing_takes_out_one_tab(s: StripView, index: int, i: int)
    requires
        0 <= index < s.tabs.len(),
        0 <= i < s.tabs.len() - 1,
    ensures
        without_tab(s, index).tabs.len() == s.tabs.len() - 1,
        i < index ==> without_tab(s, index).tabs[i] == s.tabs[i],
        i >= index ==> without_tab(s, index).tabs[i] == s.tabs[i + 1],
        without_tab(s, index).next_id == s.next_id,
        without_tab(s, index).workspace_name == s.workspace_name,
{
}

/// When the active tab is closed, the tab behind it becomes active, or the one before it where it
/// was the last.
pub proof fn law_closing_the_active_tab(s: StripView)
    requires
        0 <= s.active < s.tabs.len(),
        s.tabs.len() > 1,
    ensures
        ({
            let after = without_tab(s, s.active);
            after.tabs[after.active] == if s.active + 1 < s.tabs.len() {
                s.tabs[s.active + 1]
            } else {
                s.tabs[s.active - 1]
            }
        }),
{
}

/// Closing the only tab closes the window, closing one of several closes that tab, and there is
/// nothing to close behind the last.
pub proof fn law_closing_the_last_tab_closes_the_window(s: StripView, index: int)
    requires
        0 <= index <= usize::MAX,
    ensures
        s.tabs.len() == 1 && index == 0 ==> close_action(s, index) == TabAction::WindowClose
            && without_tab(s, index).tabs.len() == 0 && without_tab(s, index).active == 0,
        s.tabs.len() > 1 ==> close_action(s, index) == TabAction::Close(index as usize),
        index >= s.tabs.len() ==> without_tab(s, index) == s,
{
}

/// Making a tab active makes that tab active, if it is there, and changes nothing else.
pub proof fn law_activating(s: StripView, index: int)
    requires
        0 <= index,
    ensures
        index < s.tabs.len() ==> with_active(s, index).active == index,
        index >= s.tabs.len() ==> with_active(s, index).active == s.active,
        with_active(s, index).tabs == s.tabs,
        with_active(s, index).next_id == s.next_id,
        with_active(s, index).drag == s.drag,
{
}

/// The progress of a tab is shown on that tab and on no other.
pub proof fn law_progress_is_shown_on_its_tab(
    s: StripView,
    index: int,
    progress: Option<ProgressInfo>,
    i: int,
)
    requires
        0 <= index,
        0 <= i < s.tabs.len(),
    ensures
        ({
            let after = with_progress(s, index, progress);
            &&& after.tabs.len() == s.tabs.len()
            &&& after.tabs[i].id == s.tabs[i].id
            &&& after.tabs[i].name == s.tabs[i].name
            &&& after.tabs[i].progress == (if i == index {
                progress
            } else {
                s.tabs[i].progress
            })
            &&& after.active == s.active
        }),
{
}

/// A new tab comes last, with an ID that no tab has had, and the others stay as they are.
pub proof fn law_new_tabs_come_last(s: StripView, name: Seq<char>, i: int)
    requires
        sound(s),
        0 <= s.next_id < u64::MAX,
        0 <= i < s.tabs.len(),
    ensures
        with_tab(s, name).tabs.len() == s.tabs.len() + 1,
        with_tab(s, name).tabs[i] == s.tabs[i],
        with_tab(s, name).tabs.last().id != s.tabs[i].id,
        with_tab(s, name).tabs.last().progress is None,
        with_tab(s, name).next_id > s.next_id,
{
}

/// A tab that is moved comes to stand where it was moved to, and the tabs between make room: those
/// that it passed move by one the other way, and the rest stay where they are.
pub proof fn law_moved_tabs_stand_where_they_were_put(s: StripView, from: int, to: int, i: int)
    requires
        0 <= from < s.tabs.len(),
        0 <= to < s.tabs.len(),
        0 <= i < s.tabs.len(),
    ensures
        ({
            let after = with_moved(s, from, to).tabs;
            &&& after[to] == s.tabs[from]
            &&& from <= i < to ==> after[i] == s.tabs[i + 1]
            &&& to < i <= from ==> after[i] == s.tabs[i - 1]
            &&& i < from && i < to ==> after[i] == s.tabs[i]
            &&& i > from && i > to ==> after[i] == s.tabs[i]
        }),
{
}

/// Whether the pointer is on nothing of the strip but its tabs.
pub open spec fn only_tabs(hit: StripHit) -> bool {
    hit.inside && !hit.scroll_left && !hit.scroll_right && !hit.minimize && !hit.maximize
        && !hit.close_window && !hit.add
}

/// Whether the pointer is on a tab, and on none to the left of it.
pub open spec fn on_tab(hit: StripHit, i: int) -> bool {
    &&& 0 <= i < hit.tabs@.len()
    &&& hit.tabs@[i].close || hit.tabs@[i].body
    &&& forall|j: int| 0 <= j < i ==> !(#[trigger] hit.tabs@[j]).close && !hit.tabs@[j].body
}

proof fn lemma_on_tab(hit: StripHit, i: int)
    requires
        on_tab(hit, i),
    ensures
        first_hit(hit.tabs@) == i,
{
    let hits = hit.tabs@;
    crate::seqs::lemma_first_where_is(
        0,
        hits.len() as int,
        |i: int| hits[i].close || hits[i].body,
        i,
    );
}

/// A press on a tab switches to it, unless it is the active one, and takes hold of it; a press on
/// its cross asks to close it.
pub proof fn law_press_on_a_tab(s: StripView, hit: StripHit, i: usize)
    requires
        only_tabs(hit),
        on_tab(hit, i as int),
    ensures
        hit.tabs@[i as int].close ==> pressed(s, hit) == (Some(TabAction::Close(i)), s),
        !hit.tabs@[i as int].close ==> ({
            let (action, after) = pressed(s, hit);
            &&& i != s.active ==> action == Some(TabAction::SwitchTo(i))
            &&& i == s.active ==> action is None
            &&& after.drag == Some(TabDrag { tab_index: i, active: false })
            &&& after.tabs == s.tabs
            &&& after.active == s.active
        }),
{
    lemma_on_tab(hit, i as int);
}

/// A press on a button of the strip does what the button is for, and leaves the tabs as they are.
pub proof fn law_press_on_a_button(s: StripView, hit: StripHit)
    requires
        hit.inside,
        !hit.scroll_left,
        !hit.scroll_right,
    ensures
        pressed(s, hit).1.tabs == s.tabs,
        hit.minimize ==> pressed(s, hit).0 == Some(TabAction::MinimizeWindow),
        hit.maximize && !hit.minimize ==> pressed(s, hit).0 == Some(
            TabAction::ToggleMaximizeWindow,
        ),
        hit.close_window && !hit.minimize && !hit.maximize ==> pressed(s, hit).0 == Some(
            TabAction::WindowClose,
        ),
        hit.add && !hit.minimize && !hit.maximize && !hit.close_window ==> pressed(s, hit).0 == Some(
            TabAction::Create,
        ),
        hit.minimize || hit.maximize || hit.close_window || hit.add ==> pressed(s, hit).1 == s,
{
}

/// A press on an arrow scrolls the strip that way, and one beside the strip or on a bare part of it
/// does nothing.
pub proof fn law_press_on_an_arrow_or_nothing(s: StripView, hit: StripHit)
    ensures
        !hit.inside ==> pressed(s, hit) == (None::<TabAction>, s),
        hit.inside && hit.scroll_left ==> pressed(s, hit) == (
            None::<TabAction>,
            (StripView { scroll: Some(StripScroll::Left), ..s }),
        ),
        hit.inside && hit.scroll_right && !hit.scroll_left ==> pressed(s, hit) == (
            None::<TabAction>,
            (StripView { scroll: Some(StripScroll::Right), ..s }),
        ),
        only_tabs(hit) && (forall|j: int|
            0 <= j < hit.tabs@.len() ==> !(#[trigger] hit.tabs@[j]).close && !hit.tabs@[j].body)
            ==> pressed(s, hit) == (None::<TabAction>, s),
{
    let hits = hit.tabs@;
    crate::seqs::lemma_first_where(0, hits.len() as int, |i: int| hits[i].close || hits[i].body);
}

/// A tab that is pressed, dragged further than a click may wander and let go elsewhere is moved to
/// where it was let go. Let go in its own place, or after a click, nothing is moved.
pub proof fn law_dragging_moves_a_tab(
    s: StripView,
    press: StripHit,
    drag: StripHit,
    i: usize,
    drop: usize,
)
    requires
        only_tabs(press),
        on_tab(press, i as int),
        !press.tabs@[i as int].close,
    ensures
        ({
            let held = pressed(s, press).1;
            let (action, after) = released(pointed(held, drag), drop);
            &&& after.drag is None
            &&& drag.past_drag_threshold && drop != i ==> action == Some(
                TabAction::Reorder { from: i, to: drop },
            ) && after.tabs == with_moved(s, i as int, drop as int).tabs && after.active
                == with_moved(s, i as int, drop as int).active
            &&& !drag.past_drag_threshold || drop == i ==> action is None && after.tabs == s.tabs
                && after.active == s.active
            &&& released(held, drop).0 is None && released(held, drop).1.tabs == s.tabs
        }),
{
    lemma_on_tab(press, i as int);
}

/// Once a tab is dragged it stays so until it is let go, however the pointer moves.
pub proof fn law_dragging_goes_on(s: StripView, hit: StripHit, d: TabDrag)
    ensures
        s.drag == Some(d) ==> pointed(s, hit).drag == Some(
            TabDrag { tab_index: d.tab_index, active: d.active || hit.past_drag_threshold },
        ),
        s.drag is None ==> pointed(s, hit).drag is None && released(s, 0).0 is None,
        pointed(s, hit).tabs == s.tabs,
        pointed(s, hit).active == s.active,
{
}

/// What the pointer is on is highlighted: the tab, its cross, and the buttons; and nothing where it
/// is beside the strip.
pub proof fn law_hover_is_what_is_pointed_at(s: StripView, hit: StripHit, i: usize)
    ensures
        !hit.inside ==> pointed(s, hit).hover == (StripHover {
            tab: None,
            close: None,
            add: false,
            window_button: None,
        }),
        hit.inside ==> pointed(s, hit).hover.add == hit.add,
        hit.inside && on_tab(hit, i as int) ==> pointed(s, hit).hover.tab == Some(i),
        hit.inside && on_tab(hit, i as int) ==> pointed(s, hit).hover.close == (
        if hit.tabs@[i as int].close {
            Some(i)
        } else {
            None
        }),
        hit.inside && hit.minimize ==> pointed(s, hit).hover.window_button == Some(
            WindowButtonKind::Minimize,
        ),
        hit.inside && hit.maximize && !hit.minimize ==> pointed(s, hit).hover.window_button == Some(
            WindowButtonKind::MaximizeRestore,
        ),
        hit.inside && hit.close_window && !hit.minimize && !hit.maximize ==> pointed(
            s,
            hit,
        ).hover.window_button == Some(WindowButtonKind::Close),
        !hit.minimize && !hit.maximize && !hit.close_window ==> pointed(
            s,
            hit,
        ).hover.window_button is None,
{
    if on_tab(hit, i as int) {
        lemma_on_tab(hit, i as int);
    }
}

/// The window can be moved by the strip exactly where a press would hit nothing.
pub proof fn law_bare_strip_hits_nothing(s: StripView, hit: StripHit)
    requires
        hit.inside,
    ensures
        hits_something(hit) <==> hit.scroll_left || hit.scroll_right || pressed(s, hit).0 is Some
            || pressed(s, hit).1.drag != s.drag || (exists|i: int|
            0 <= i < hit.tabs@.len() && ((#[trigger] hit.tabs@[i]).close || hit.tabs@[i].body)),
{
    let hits = hit.tabs@;
    crate::seqs::lemma_first_where(0, hits.len() as int, |i: int| hits[i].close || hits[i].body);
    let f = first_hit(hits);
    if f < hits.len() {
        assert(hits[f].close || hits[f].body);
    }
    if exists|i: int| 0 <= i < hits.len() && ((#[trigger] hits[i]).close || hits[i].body) {
        let i = choose|i: int| 0 <= i < hits.len() && ((#[trigger] hits[i]).close || hits[i].body);
        let p = |i: int| hits[i].close || hits[i].body;
        assert(p(i));
        assert(f <= i);
    }
}

/// Exactly the active tab is bold. It is filled as such and outlined unless it is being dragged; the
/// tab under the pointer and the one that is dragged are filled as hovered.
pub proof fn law_tabs_look_as_they_are(s: StripView, index: usize)
    ensures
        style_of(s, index as int).bold <==> index == s.active,
        s.drag is None ==> (style_of(s, index as int).outlined <==> index == s.active),
        s.drag is None && index == s.active ==> style_of(s, index as int).fill is Active,
        s.drag is None && index != s.active ==> (style_of(s, index as int).fill is Hovered
            <==> s.hover.tab == Some(index)),
        s.drag is None && index != s.active && s.hover.tab != Some(index) ==> style_of(
            s,
            index as int,
        ).fill is Plain,
        s.drag == Some(TabDrag { tab_index: index, active: true }) ==> style_of(
            s,
            index as int,
        ).follows_pointer && style_of(s, index as int).fill is Hovered && !style_of(
            s,
            index as int,
        ).outlined,
        s.drag == Some(TabDrag { tab_index: index, active: false }) ==> !style_of(
            s,
            index as int,
        ).follows_pointer,
        style_of(s, index as int).close_hot <==> s.hover.close == Some(index),
{
}

/// As many segments of a ring are lit as the part that is done needs, a part of a segment counting
/// as a whole one.
pub proof fn law_ring_shows_the_part_done(progress: ProgressInfo, percent: u8)
    requires
        progress.state != ProgressState::Indeterminate,
        progress.value == Some(percent),
        percent <= 100,
    ensures
        lit_of(progress) * 100 >= percent * RING_SEGMENTS,
        percent > 0 ==> (lit_of(progress) - 1) * 100 < percent * RING_SEGMENTS,
{
}

/// The title of the window is the name of the workspace, a dash and the name of the active tab; only
/// the name of the workspace where there is no tab.
pub proof fn law_title_names_the_active_tab(s: StripView, name: Seq<char>)
    requires
        sound(s),
    ensures
        s.tabs.len() > 0 ==> title_text(s, name) == name + " \u{2014} "@ + s.tabs[s.active].name,
        s.tabs.len() == 0 ==> title_text(s, name) == name,
{
}

/// Progress is green, an error red, waiting without a measure blue and a warning yellow, and each is
/// a little brighter on the active tab.
pub proof fn law_progress_colors(state: ProgressState)
    ensures
        ({
            let (r, g, b) = progress_rgb(state, true);
            let (r0, g0, b0) = progress_rgb(state, false);
            &&& state is Normal ==> g > r && g > b && g0 > r0 && g0 > b0
            &&& state is Error ==> r > g && g == b && r0 > g0 && g0 == b0
            &&& state is Indeterminate ==> b > g > r && b0 > g0 > r0
            &&& state is Warning ==> r > g > b && r0 > g0 > b0
            &&& r >= r0 && g >= g0 && b >= b0 && (r, g, b) != (r0, g0, b0)
        }),
{
}

} // verus!
