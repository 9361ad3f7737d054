//! The state behind the window, and the actions that change it.
//!
//! An action that the window can carry out by itself changes the [`Workbench`]. What else there
//! is to do, for the host, the clipboard or the screens, comes out as a list of [`Effect`]s.
use vstd::prelude::*;

use crate::attention::{
    attention_count, clear_focused_attention, focus_attention_target, focused_pane_attention,
    next_attention_target, notification_center_label, pane_metadata_summary, PaneListFilter,
};
use crate::bindings::{
    clone_opt_args, get_arg, ActionArgs, ActionReference, ActionReferenceView, BindingsDefinition,
};
use crate::clipboard::extract_selection_text_at_offset;
use crate::command_palette::{
    CommandPalette, PaletteEntry, PaletteEntryView, PaletteModeView, PaletteView,
};
use crate::find::{navigate_find, start_find, FindState, FindView};
use crate::json::Json;
use crate::mouse_handler::{MouseHandler, MouseView};
use crate::pane_layout::ResizeDirection;
use crate::panes::{AttentionState, LiveTab, LiveTabView, PaneId, SessionView};
use crate::pass_through::PassThroughNextKeyState;
use crate::profiles::{should_prompt_for_profile, show_profile_selector_for_action};
use crate::renderer::TextSelection;
use crate::screen::Screen;
use crate::selection::{
    activate_keyboard_mark_mode, navigate_focused_scrollback, scrollback_navigation_for_action,
    select_all_focused_pane, KeyboardSelectionState, ScrollbackNavigation,
};
use crate::status_bar::{BarView, SessionStatusView, StatusBar};
use crate::tab_strip::{StripView, TabStrip};
use crate::tabs::{focused_pane_name, pane_target, paste_bytes_for_pane, prepare_pane_for_live_input};
use crate::text::{chars_of, parse_index, push_decimal, str_eq};

verus! {

broadcast use vstd::string::group_string_axioms;

// ── Effects ──────────────────────────────────────────────────────────────────

/// The arguments of an action for the host.
#[derive(Debug, PartialEq, Eq)]
pub enum ActionValue {
    /// No arguments.
    Nothing,
    /// Texts by name.
    Texts(ActionArgs),
    /// The index of a tab.
    Index(usize),
}

/// The model of an [`ActionValue`].
pub enum ActionValueView {
    Nothing,
    Texts(Seq<(Seq<char>, Seq<char>)>),
    Index(int),
}

impl View for ActionValue {
    type V = ActionValueView;

    open spec fn view(&self) -> ActionValueView {
        match self {
            ActionValue::Nothing => ActionValueView::Nothing,
            ActionValue::Texts(v) => ActionValueView::Texts(crate::bindings::args_seq(v@)),
            ActionValue::Index(i) => ActionValueView::Index(*i as int),
        }
    }
}

/// Whether a JSON value says the same as the arguments of an action.
pub open spec fn says(j: Json, v: ActionValueView) -> bool {
    match v {
        ActionValueView::Nothing => j is Null,
        ActionValueView::Texts(args) => j.members() matches Some(fields) && fields.len()
            == args.len() && forall|i: int|
            0 <= i < args.len() ==> (#[trigger] fields[i]).0@ == args[i].0 && fields[i].1.text()
                == Some(args[i].1),
        ActionValueView::Index(n) => j.members() matches Some(fields) && fields.len() == 1
            && fields[0].0@ == "index"@ && fields[0].1.uint() == Some(n as u64),
    }
}

impl ActionValue {
    /// The JSON value for the host.
    pub fn to_json(&self) -> (r: Json)
        ensures
            says(r, self@),
    {
        match self {
            ActionValue::Nothing => Json::Null,
            ActionValue::Texts(args) => {
                let mut fields: Vec<(String, Json)> = Vec::new();
                let mut i: usize = 0;
                while i < args.len()
                    invariant
                        i <= args@.len(),
                        fields@.len() == i,
                        forall|j: int|
                            0 <= j < i ==> (#[trigger] fields@[j]).0@ == args@[j].0@
                                && fields@[j].1.text() == Some(args@[j].1@),
                    decreases args.len() - i,
                {
                    fields.push((args[i].0.clone(), Json::Str(args[i].1.clone())));
                    i += 1;
                }
                Json::Object(fields)
            },
            ActionValue::Index(n) => {
                let mut fields: Vec<(String, Json)> = Vec::new();
                fields.push(("index".to_owned(), Json::UInt(*n as u64)));
                Json::Object(fields)
            },
        }
    }
}

/// The arguments of an action, for the host.
pub open spec fn value_of(args: Option<Seq<(Seq<char>, Seq<char>)>>) -> ActionValueView {
    match args {
        Some(v) => ActionValueView::Texts(v),
        None => ActionValueView::Nothing,
    }
}

/// The arguments of an action, for the host.
pub fn action_args_to_value(args: &Option<ActionArgs>) -> (r: ActionValue)
    ensures
        r@ == value_of(crate::bindings::args_view(*args)),
{
    match args {
        Some(v) => ActionValue::Texts(crate::bindings::clone_args(v)),
        None => ActionValue::Nothing,
    }
}

/// Something to be done outside of the workbench.
#[derive(Debug, PartialEq, Eq)]
pub enum Effect {
    /// Invoke an action on the host, for a pane or for the workspace.
    InvokeAction { action: String, target: Option<String>, args: ActionValue },
    /// Ask the host for the state of the workspace.
    RefreshWorkspace,
    /// Tell the host that the attention of a pane is cleared.
    ClearAttention(String),
    /// Send bytes to a session.
    SendInput { session_id: String, data: Vec<u8> },
    /// Put a text on the clipboard.
    CopyText(String),
    /// Read the clipboard and paste its text into a pane.
    PasteInto(PaneId),
    /// Clear the screen and the scrollback of a pane.
    ClearBuffer(PaneId),
    /// Clear the scrollback of a pane.
    ClearScrollback(PaneId),
    /// Make a blank screen for a pane.
    CreateScreen(PaneId),
    /// Show the title of the window anew, under the name that the window was opened for.
    RefreshTitle,
    /// Show the title of the window anew, under the name of an attached workspace.
    ShowTitleOf(String),
    /// Lay the panes of the active tab out anew, and fit their screens.
    RefreshLayout,
    /// Tell the host the sizes of the panes of the active tab.
    SendPaneSizes,
    /// Resize a pane of the active tab, and tell the host the new sizes.
    ResizePane { pane_id: PaneId, direction: ResizeDirection, cells: u16 },
    /// Open a tab with one pane.
    OpenTab,
    /// Tell the host that the window goes away.
    Disconnect,
    CloseWindow,
    MinimizeWindow,
    ToggleMaximizeWindow,
    /// Let the window be dragged.
    DragWindow,
}

/// The model of an [`Effect`].
pub enum EffectView {
    InvokeAction { action: Seq<char>, target: Option<Seq<char>>, args: ActionValueView },
    RefreshWorkspace,
    ClearAttention(Seq<char>),
    SendInput { session_id: Seq<char>, data: Seq<u8> },
    CopyText(Seq<char>),
    PasteInto(PaneId),
    ClearBuffer(PaneId),
    ClearScrollback(PaneId),
    CreateScreen(PaneId),
    RefreshTitle,
    ShowTitleOf(Seq<char>),
    RefreshLayout,
    SendPaneSizes,
    ResizePane { pane_id: PaneId, direction: ResizeDirection, cells: u16 },
    OpenTab,
    Disconnect,
    CloseWindow,
    MinimizeWindow,
    ToggleMaximizeWindow,
    /// Let the window be dragged.
    DragWindow,
}

impl View for Effect {
    type V = EffectView;

    open spec fn view(&self) -> EffectView {
        match self {
            Effect::InvokeAction { action, target, args } => EffectView::InvokeAction {
                action: action@,
                target: crate::text::opt_text(*target),
                args: args@,
            },
            Effect::RefreshWorkspace => EffectView::RefreshWorkspace,
            Effect::ClearAttention(s) => EffectView::ClearAttention(s@),
            Effect::SendInput { session_id, data } => EffectView::SendInput {
                session_id: session_id@,
                data: data@,
            },
            Effect::CopyText(s) => EffectView::CopyText(s@),
            Effect::PasteInto(p) => EffectView::PasteInto(*p),
            Effect::ClearBuffer(p) => EffectView::ClearBuffer(*p),
            Effect::ClearScrollback(p) => EffectView::ClearScrollback(*p),
            Effect::CreateScreen(p) => EffectView::CreateScreen(*p),
            Effect::RefreshTitle => EffectView::RefreshTitle,
            Effect::ShowTitleOf(s) => EffectView::ShowTitleOf(s@),
            Effect::RefreshLayout => EffectView::RefreshLayout,
            Effect::SendPaneSizes => EffectView::SendPaneSizes,
            Effect::ResizePane { pane_id, direction, cells } => EffectView::ResizePane {
                pane_id: *pane_id,
                direction: *direction,
                cells: *cells,
            },
            Effect::OpenTab => EffectView::OpenTab,
            Effect::Disconnect => EffectView::Disconnect,
            Effect::CloseWindow => EffectView::CloseWindow,
            Effect::MinimizeWindow => EffectView::MinimizeWindow,
            Effect::ToggleMaximizeWindow => EffectView::ToggleMaximizeWindow,
            Effect::DragWindow => EffectView::DragWindow,
        }
    }
}

/// The models of effects.
pub open spec fn effect_views(v: Seq<Effect>) -> Seq<EffectView> {
    v.map_values(|e: Effect| e@)
}

/// No effects.
pub fn no_effects() -> (r: Vec<Effect>)
    ensures
        effect_views(r@) == Seq::<EffectView>::empty(),
{
    let v: Vec<Effect> = Vec::new();
    assert(effect_views(v@) =~= Seq::empty());
    v
}

/// One effect.
pub fn one_effect(e: Effect) -> (r: Vec<Effect>)
    ensures
        effect_views(r@) == seq![e@],
{
    let ghost x = e@;
    let mut v: Vec<Effect> = Vec::new();
    v.push(e);
    assert(effect_views(v@) =~= seq![x]);
    v
}

// ── State ────────────────────────────────────────────────────────────────────

/// The state behind the window.
#[derive(Debug)]
pub struct Workbench {
    pub palette: CommandPalette,
    pub tab_strip: TabStrip,
    pub tabs: Vec<LiveTab>,
    pub active_tab_index: usize,
    pub status_bar: StatusBar,
    /// Whether there is a host to connect to.
    pub has_bridge: bool,
    pub connected: bool,
    pub notification_center_open: bool,
    pub pane_metadata_list_open: bool,
    pub pass_through: PassThroughNextKeyState,
    pub mouse: MouseHandler,
    pub keyboard_selection: KeyboardSelectionState,
    pub find: FindState,
}

/// The model of a [`Workbench`].
#[verifier::ext_equal]
pub struct BenchView {
    pub palette: PaletteView,
    pub strip: StripView,
    pub tabs: Seq<LiveTabView>,
    pub active: int,
    pub bar: BarView,
    pub has_bridge: bool,
    pub connected: bool,
    pub notification_center_open: bool,
    pub pane_metadata_list_open: bool,
    pub pass_through: bool,
    pub mouse: MouseView,
    pub keyboard_selection: KeyboardSelectionState,
    pub find: FindView,
}

impl View for Workbench {
    type V = BenchView;

    open spec fn view(&self) -> BenchView {
        BenchView {
            palette: self.palette@,
            strip: self.tab_strip@,
            tabs: crate::panes::tab_views(self.tabs@),
            active: self.active_tab_index as int,
            bar: self.status_bar@,
            has_bridge: self.has_bridge,
            connected: self.connected,
            notification_center_open: self.notification_center_open,
            pane_metadata_list_open: self.pane_metadata_list_open,
            pass_through: self.pass_through.armed,
            mouse: self.mouse@,
            keyboard_selection: self.keyboard_selection,
            find: self.find@,
        }
    }
}

impl BenchView {
    /// What holds of every workbench: its parts are in order, and the sessions can be counted.
    pub open spec fn wf(self) -> bool {
        &&& self.palette.wf()
        &&& crate::tab_strip::sound(self.strip)
        &&& self.mouse.sound()
        &&& self.find.wf()
        &&& tabs_ok(self.tabs)
    }

    /// The active tab.
    pub open spec fn active_tab(self) -> Option<LiveTabView> {
        if 0 <= self.active < self.tabs.len() {
            Some(self.tabs[self.active])
        } else {
            None
        }
    }

    /// Whether actions go to the host.
    pub open spec fn host(self) -> bool {
        self.has_bridge && self.connected
    }
}

/// A workbench without tabs.
pub open spec fn fresh_bench(
    bindings: BindingsDefinition,
    profiles: Seq<PaletteEntryView>,
    has_bridge: bool,
) -> BenchView {
    BenchView {
        palette: PaletteView {
            visible: false,
            mode: PaletteModeView::Search,
            query: Seq::empty(),
            entries: crate::command_palette::catalog_entries(bindings),
            profile_entries: profiles,
            filtered: crate::command_palette::unranked(crate::command_palette::catalog().len()),
            selected: 0,
            scroll_offset: 0,
        },
        strip: StripView {
            tabs: Seq::empty(),
            active: 0,
            next_id: 1,
            workspace_name: Seq::empty(),
            window_maximized: false,
            hover: crate::tab_strip::no_hover(),
            drag: None,
            scroll: None,
        },
        tabs: Seq::empty(),
        active: 0,
        bar: BarView {
            workspace_name: Seq::empty(),
            pane_path: Seq::empty(),
            session_status: SessionStatusView::Running,
            prefix_active: false,
            prefix_label: "PREFIX"@,
            attention: AttentionState::Active,
            attention_message: None,
            attention_count: 0,
        },
        has_bridge,
        connected: false,
        notification_center_open: false,
        pane_metadata_list_open: false,
        pass_through: false,
        mouse: MouseView {
            panes: Map::empty(),
            selecting: None,
            left_down: false,
            splitter_dragging: false,
        },
        keyboard_selection: crate::selection::inactive(),
        find: crate::find::nothing_found(),
    }
}

/// Whether the screens of all tabs are in order and the sessions can be counted.
pub open spec fn tabs_ok(tabs: Seq<LiveTabView>) -> bool {
    &&& forall|i: int| 0 <= i < tabs.len() ==> (#[trigger] tabs[i]).screens_ok()
    &&& forall|i: int| 0 <= i < tabs.len() ==> (#[trigger] tabs[i]).rows_ok()
    &&& crate::attention::session_total(tabs) <= usize::MAX
}

/// Whether there is room for one more tab.
pub open spec fn has_room(strip: StripView) -> bool {
    strip.next_id < u64::MAX && strip.tabs.len() < usize::MAX
}

/// An action for the host that concerns the focused pane.
pub open spec fn pane_action(tab: LiveTabView, action: Seq<char>, args: ActionValueView) -> Seq<
    EffectView,
> {
    seq![
        EffectView::InvokeAction {
            action,
            target: Some(crate::tabs::host_target(tab, tab.focus)),
            args,
        },
        EffectView::RefreshWorkspace,
    ]
}

/// An action for the host that concerns the workspace.
pub open spec fn workspace_action(action: Seq<char>, args: ActionValueView) -> Seq<EffectView> {
    seq![
        EffectView::InvokeAction { action, target: None, args },
        EffectView::RefreshWorkspace,
    ]
}

/// An action for the host that concerns the focused pane.
pub fn send_ui_action(tab: &LiveTab, action_name: &str, args: ActionValue) -> (r: Vec<Effect>)
    ensures
        effect_views(r@) == pane_action(tab@, action_name@, args@),
{
    let ghost a = args@;
    let target = pane_target(tab, tab.focus);
    let ghost t = target@;
    let mut v: Vec<Effect> = Vec::new();
    v.push(
        Effect::InvokeAction { action: action_name.to_owned(), target: Some(target), args },
    );
    v.push(Effect::RefreshWorkspace);
    assert(effect_views(v@) =~= pane_action(tab@, action_name@, a));
    v
}

/// An action for the host that concerns the workspace.
pub fn send_workspace_action(action: &str, args: ActionValue) -> (r: Vec<Effect>)
    ensures
        effect_views(r@) == workspace_action(action@, args@),
{
    let ghost a = args@;
    let mut v: Vec<Effect> = Vec::new();
    v.push(Effect::InvokeAction { action: action.to_owned(), target: None, args });
    v.push(Effect::RefreshWorkspace);
    assert(effect_views(v@) =~= workspace_action(action@, a));
    v
}

// ── Actions on the status bar ────────────────────────────────────────────────

/// Going to the next pane that asks for attention.
pub open spec fn attention_moved(w: BenchView, forward: bool) -> BenchView {
    match crate::attention::next_unread(w.tabs, w.active, forward) {
        Some(place) => {
            let tabs = crate::attention::focused_at(w.tabs, place);
            let (state, message) = crate::attention::focused_attention(tabs[place.0]);
            BenchView {
                tabs,
                active: place.0,
                strip: crate::tab_strip::with_active(w.strip, place.0),
                bar: crate::status_bar::with_attention(w.bar, state, message),
                ..w
            }
        },
        None => w,
    }
}

/// Clearing the attention of the focused pane.
pub open spec fn attention_cleared(w: BenchView) -> (BenchView, Seq<EffectView>) {
    match w.active_tab() {
        Some(tab) if crate::attention::focused_session(tab) is Some => {
            let tabs = w.tabs.update(w.active, crate::attention::attended(tab));
            (
                BenchView {
                    tabs,
                    bar: crate::status_bar::with_count(
                        crate::status_bar::with_attention(
                            w.bar,
                            crate::panes::AttentionState::Active,
                            None,
                        ),
                        crate::attention::unread_total(tabs) as int,
                    ),
                    ..w
                },
                if w.has_bridge {
                    seq![
                        EffectView::ClearAttention(
                            crate::attention::focused_session(tab)->0.pane_path,
                        ),
                    ]
                } else {
                    Seq::empty()
                },
            )
        },
        _ => (
            BenchView {
                bar: crate::status_bar::with_count(
                    w.bar,
                    crate::attention::unread_total(w.tabs) as int,
                ),
                ..w
            },
            Seq::empty(),
        ),
    }
}

/// The bar with the path of the focused pane, if it has a session.
pub open spec fn focused_path_shown(w: BenchView) -> BarView {
    match w.active_tab() {
        Some(tab) => match crate::attention::focused_session(tab) {
            Some(s) => crate::status_bar::with_path(w.bar, s.pane_path),
            None => w.bar,
        },
        None => w.bar,
    }
}

/// The workbench with a list of panes in the status bar.
pub open spec fn list_shown(w: BenchView, filter: PaneListFilter) -> BenchView {
    BenchView {
        pane_metadata_list_open: true,
        bar: crate::status_bar::with_path(
            w.bar,
            crate::attention::summary_text(w.tabs, filter),
        ),
        ..w
    }
}

/// What an action on the status bar results in, if it is one.
pub open spec fn status_action(w: BenchView, name: Seq<char>) -> Option<
    (BenchView, Seq<EffectView>),
> {
    let none = Seq::<EffectView>::empty();
    if name == "next-attention"@ {
        Some((attention_moved(w, true), none))
    } else if name == "prev-attention"@ {
        Some((attention_moved(w, false), none))
    } else if name == "clear-focused-attention"@ {
        Some(attention_cleared(w))
    } else if name == "toggle-notification-center"@ {
        Some(
            (
                BenchView {
                    notification_center_open: !w.notification_center_open,
                    bar: if !w.notification_center_open {
                        crate::status_bar::with_path(
                            w.bar,
                            crate::attention::notification_text(w.tabs),
                        )
                    } else {
                        focused_path_shown(w)
                    },
                    ..w
                },
                none,
            ),
        )
    } else if name == "toggle-pane-metadata-list"@ {
        Some(
            (
                if !w.pane_metadata_list_open {
                    list_shown(w, PaneListFilter::All)
                } else {
                    BenchView { pane_metadata_list_open: false, bar: focused_path_shown(w), ..w }
                },
                none,
            ),
        )
    } else if name == "filter-pane-list-attention"@ {
        Some((list_shown(w, PaneListFilter::Attention), none))
    } else if name == "filter-pane-list-status"@ {
        Some((list_shown(w, PaneListFilter::Status), none))
    } else if name == "filter-pane-list-driver"@ {
        Some((list_shown(w, PaneListFilter::DriverProfile), none))
    } else if name == "filter-pane-list-cwd"@ {
        Some((list_shown(w, PaneListFilter::Cwd), none))
    } else if name == "filter-pane-list-branch"@ {
        Some((list_shown(w, PaneListFilter::Branch), none))
    } else {
        None
    }
}

// ── Actions on a tab ─────────────────────────────────────────────────────────

/// Clearing the screen or the scrollback of the focused pane.
pub open spec fn buffer_cleared(
    w: BenchView,
    name: Seq<char>,
    args: Option<Seq<(Seq<char>, Seq<char>)>>,
) -> (BenchView, Seq<EffectView>) {
    match w.active_tab() {
        None => (w, Seq::empty()),
        Some(tab) => (
            BenchView {
                mouse: crate::mouse_handler::without_selection(
                    crate::mouse_handler::with_offset(w.mouse, tab.focus, 0),
                    tab.focus,
                ),
                keyboard_selection: crate::selection::inactive(),
                ..w
            },
            (if tab.screen(tab.focus) is None {
                Seq::empty()
            } else if name == "clear-buffer"@ {
                seq![EffectView::ClearBuffer(tab.focus)]
            } else {
                seq![EffectView::ClearScrollback(tab.focus)]
            }) + (if w.host() {
                pane_action(tab, name, value_of(args))
            } else {
                Seq::empty()
            }),
        ),
    }
}

/// The palette with a prompt for the argument `name` of an action.
pub open spec fn prompted(
    p: PaletteView,
    action: Seq<char>,
    label: Seq<char>,
    placeholder: Seq<char>,
    initial: Seq<char>,
) -> PaletteView {
    PaletteView {
        visible: true,
        mode: PaletteModeView::Prompt { action, arg_name: "name"@, label, placeholder },
        query: initial,
        filtered: Seq::empty(),
        selected: 0,
        scroll_offset: 0,
        ..p
    }
}

/// The tab after the active one, going round.
pub open spec fn next_tab(s: StripView) -> int {
    (s.active + 1) % (s.tabs.len() as int)
}

/// The tab before the active one, going round.
pub open spec fn prev_tab(s: StripView) -> int {
    if s.active == 0 {
        s.tabs.len() - 1
    } else {
        s.active - 1
    }
}

/// The name of the tab that comes next.
pub open spec fn new_tab_name(s: StripView) -> Seq<char> {
    "tab-"@ + crate::text::decimal(s.tabs.len() + 1)
}

/// The strip with a new tab that is active.
pub open spec fn with_new_tab(s: StripView) -> StripView {
    crate::tab_strip::with_active(
        crate::tab_strip::with_tab(s, new_tab_name(s)),
        s.tabs.len() as int,
    )
}

/// Activating a tab: by the host, or on the strip.
pub open spec fn tab_chosen(
    w: BenchView,
    index: int,
    action: Seq<char>,
    args: ActionValueView,
) -> (BenchView, Seq<EffectView>) {
    if w.host() {
        (w, workspace_action(action, args))
    } else {
        (
            BenchView { strip: crate::tab_strip::with_active(w.strip, index), ..w },
            Seq::empty(),
        )
    }
}

/// The name of the active tab on the strip.
pub open spec fn active_tab_name(s: StripView) -> Seq<char> {
    if s.active < s.tabs.len() {
        s.tabs[s.active].name
    } else {
        Seq::empty()
    }
}

/// The text that is selected in the focused pane.
pub open spec fn copied(w: BenchView, tab: LiveTabView) -> Seq<EffectView> {
    let state = w.mouse.pane(tab.focus);
    match (state.selection, tab.screen(tab.focus)) {
        (Some(sel), Some(screen)) => {
            let text = crate::clipboard::selected_text(
                screen,
                sel,
                if state.scroll_offset > 0 {
                    state.scroll_offset as int
                } else {
                    0
                },
            );
            if text.len() > 0 {
                seq![EffectView::CopyText(text)]
            } else {
                Seq::empty()
            }
        },
        _ => Seq::empty(),
    }
}

/// What an action on tabs results in, if it is one.
pub open spec fn strip_action(
    w: BenchView,
    name: Seq<char>,
    args: Option<Seq<(Seq<char>, Seq<char>)>>,
) -> Option<(BenchView, Seq<EffectView>)> {
    let none = Seq::<EffectView>::empty();
    let count = w.strip.tabs.len() as int;
    if name == "next-tab"@ {
        Some(
            if count > 0 {
                tab_chosen(w, next_tab(w.strip), "next-tab"@, ActionValueView::Nothing)
            } else {
                (w, none)
            },
        )
    } else if name == "prev-tab"@ {
        Some(
            if count > 0 {
                tab_chosen(w, prev_tab(w.strip), "prev-tab"@, ActionValueView::Nothing)
            } else {
                (w, none)
            },
        )
    } else if name == "goto-tab"@ {
        let index = match args {
            Some(a) => match crate::bindings::arg_value(a, "index"@) {
                Some(text) => crate::text::index_in(text),
                None => None,
            },
            None => None,
        };
        Some(
            match index {
                Some(i) if i < count => tab_chosen(
                    w,
                    i as int,
                    "goto-tab"@,
                    ActionValueView::Index(i as int),
                ),
                _ => (w, none),
            },
        )
    } else if name == "new-tab"@ {
        Some(
            if w.host() {
                (w, workspace_action("new-tab"@, value_of(args)))
            } else {
                (BenchView { strip: with_new_tab(w.strip), ..w }, none)
            },
        )
    } else if name == "close-tab"@ {
        Some(
            if count <= 1 {
                (w, none)
            } else if w.host() {
                (w, workspace_action("close-tab"@, ActionValueView::Texts(Seq::empty())))
            } else {
                (
                    BenchView {
                        strip: crate::tab_strip::without_tab(w.strip, w.strip.active),
                        ..w
                    },
                    none,
                )
            },
        )
    } else if name == "rename-tab"@ {
        Some(
            if args is None {
                (
                    BenchView {
                        palette: prompted(
                            w.palette,
                            "rename-tab"@,
                            "Rename the active tab"@,
                            "Enter a new tab name"@,
                            active_tab_name(w.strip),
                        ),
                        ..w
                    },
                    none,
                )
            } else if w.host() {
                (w, workspace_action("rename-tab"@, value_of(args)))
            } else {
                (w, none)
            },
        )
    } else {
        None
    }
}

/// What finding a text, or asking for one, results in.
pub open spec fn find_action(
    w: BenchView,
    tab: LiveTabView,
    args: Option<Seq<(Seq<char>, Seq<char>)>>,
) -> BenchView {
    match args {
        None => BenchView {
            palette: prompted(
                w.palette,
                "find"@,
                "Find in focused pane"@,
                "Search text"@,
                Seq::empty(),
            ),
            ..w
        },
        Some(a) => {
            let query = match crate::bindings::arg_value(a, "name"@) {
                Some(q) => q,
                None => Seq::empty(),
            };
            let (mouse, find, bar) = crate::find::find_started(
                w.mouse,
                w.find,
                w.bar,
                tab,
                query,
            );
            BenchView { mouse, find, bar, ..w }
        },
    }
}

/// The workbench with another match shown.
pub open spec fn find_step(w: BenchView, tab: LiveTabView, forward: bool) -> BenchView {
    let (mouse, find, bar) = crate::find::find_moved(w.mouse, w.find, w.bar, tab, forward);
    BenchView { mouse, find, bar, ..w }
}

/// What an action on the focused pane results in, if it is one.
pub open spec fn focus_action(
    w: BenchView,
    tab: LiveTabView,
    name: Seq<char>,
    args: Option<Seq<(Seq<char>, Seq<char>)>>,
) -> Option<(BenchView, Seq<EffectView>)> {
    let none = Seq::<EffectView>::empty();
    if crate::selection::navigation_of(name) is Some {
        Some(
            (
                BenchView {
                    mouse: crate::selection::after_navigation(
                        w.mouse,
                        tab,
                        crate::selection::navigation_of(name)->0,
                    ),
                    ..w
                },
                none,
            ),
        )
    } else if name == "mark-mode"@ {
        let (mouse, keyboard_selection) = crate::selection::marked(
            w.mouse,
            w.keyboard_selection,
            tab,
        );
        Some((BenchView { mouse, keyboard_selection, ..w }, none))
    } else if name == "select-all"@ {
        let (mouse, keyboard_selection) = crate::selection::all_selected(
            w.mouse,
            w.keyboard_selection,
            tab,
        );
        Some((BenchView { mouse, keyboard_selection, ..w }, none))
    } else if name == "switch-selection-endpoint"@ {
        Some(
            (
                BenchView {
                    keyboard_selection: crate::selection::switched(w.keyboard_selection),
                    ..w
                },
                none,
            ),
        )
    } else if name == "find"@ {
        Some((find_action(w, tab, args), none))
    } else if name == "find-next"@ {
        Some((find_step(w, tab, true), none))
    } else if name == "find-prev"@ {
        Some((find_step(w, tab, false), none))
    } else if name == "toggle-command-palette"@ {
        Some(
            (
                BenchView {
                    palette: if w.palette.visible {
                        crate::command_palette::hidden(w.palette)
                    } else {
                        crate::command_palette::shown(w.palette)
                    },
                    ..w
                },
                none,
            ),
        )
    } else if name == "pass-through-next-key"@ {
        Some((BenchView { pass_through: true, ..w }, none))
    } else if name == "rename-pane"@ {
        Some(
            if args is None {
                (
                    BenchView {
                        palette: prompted(
                            w.palette,
                            "rename-pane"@,
                            "Rename the focused pane"@,
                            "Enter a new pane name"@,
                            crate::tabs::focused_name(tab),
                        ),
                        ..w
                    },
                    none,
                )
            } else if w.host() {
                (w, pane_action(tab, "rename-pane"@, value_of(args)))
            } else {
                (w, none)
            },
        )
    } else if name == "copy"@ {
        Some((w, copied(w, tab)))
    } else if name == "paste"@ {
        Some((w, seq![EffectView::PasteInto(tab.focus)]))
    } else {
        None
    }
}

// ── Dispatch ─────────────────────────────────────────────────────────────────

/// The arguments of an action.
pub open spec fn args_of(action: ActionReferenceView) -> Option<Seq<(Seq<char>, Seq<char>)>> {
    match action {
        ActionReferenceView::WithArgs { args, .. } => args,
        _ => None,
    }
}

/// What an action results in: whether it was carried out here, the workbench after it, and what
/// else there is to do.
pub open spec fn dispatched(w: BenchView, action: ActionReferenceView) -> (
    bool,
    BenchView,
    Seq<EffectView>,
) {
    let name = crate::command_palette::name_of(action);
    let args = args_of(action);
    let none = Seq::<EffectView>::empty();
    if w.host() && args is None && crate::profiles::takes_profile(name) {
        (
            true,
            BenchView { palette: crate::profiles::with_selector(w.palette, name), ..w },
            none,
        )
    } else if status_action(w, name) is Some {
        let (after, effects) = status_action(w, name)->0;
        (true, after, effects)
    } else if name == "clear-buffer"@ || name == "clear-scrollback"@ {
        let (after, effects) = buffer_cleared(w, name, args);
        (true, after, effects)
    } else {
        match w.active_tab() {
            None => (false, w, none),
            Some(tab) => if focus_action(w, tab, name, args) is Some {
                let (after, effects) = focus_action(w, tab, name, args)->0;
                (true, after, effects)
            } else if strip_action(w, name, args) is Some {
                let (after, effects) = strip_action(w, name, args)->0;
                (true, after, effects)
            } else if w.host() {
                (false, w, pane_action(tab, name, value_of(args)))
            } else {
                (false, w, none)
            },
        }
    }
}

/// The name of an action.
pub fn action_name(action: &ActionReference) -> (r: &str)
    ensures
        r@ == crate::command_palette::name_of(action@),
{
    match action {
        ActionReference::Simple(name) => name.as_str(),
        ActionReference::WithArgs { action, .. } => action.as_str(),
        ActionReference::Removed => {
            proof {
                reveal_strlit("");
            }
            assert(""@ =~= Seq::empty());
            ""
        },
    }
}

proof fn lemma_update_totals(tabs: Seq<LiveTabView>, i: int, tab: LiveTabView)
    requires
        0 <= i < tabs.len(),
        tab.pane_sessions.len() == tabs[i].pane_sessions.len(),
    ensures
        crate::attention::session_total(tabs.update(i, tab)) == crate::attention::session_total(
            tabs,
        ),
    decreases tabs.len(),
{
    let new = tabs.update(i, tab);
    if i == tabs.len() - 1 {
        assert(new.drop_last() =~= tabs.drop_last());
    } else {
        assert(new.drop_last() =~= tabs.drop_last().update(i, tab));
        lemma_update_totals(tabs.drop_last(), i, tab);
    }
}

/// Replacing a tab by one with the same screens and sessions for the same panes keeps the tabs in
/// order.
pub proof fn lemma_update_ok(tabs: Seq<LiveTabView>, i: int, tab: LiveTabView)
    requires
        tabs_ok(tabs),
        0 <= i < tabs.len(),
        tab.pane_sessions.len() == tabs[i].pane_sessions.len(),
        forall|k: int|
            0 <= k < tab.pane_sessions.len() ==> (#[trigger] tab.pane_sessions[k]).0
                == tabs[i].pane_sessions[k].0,
        tab.screens == tabs[i].screens,
    ensures
        tabs_ok(tabs.update(i, tab)),
{
    lemma_update_totals(tabs, i, tab);
    let new = tabs.update(i, tab);
    assert forall|k: int| 0 <= k < new.len() implies (#[trigger] new[k]).screens_ok() by {
        assert(tabs[k].screens_ok());
        if k == i {
            assert(tabs[i].screens_ok());
        }
    }
    assert forall|k: int| 0 <= k < new.len() implies (#[trigger] new[k]).rows_ok() by {
        assert(tabs[k].rows_ok());
        if k == i {
            crate::panes::lemma_same_panes(tabs[i].pane_sessions, tab.pane_sessions);
        }
    }
}

impl Workbench {
    /// A workbench without tabs. `has_bridge` says whether there is a host to connect to.
    pub fn new(
        bindings: &BindingsDefinition,
        profile_entries: Vec<PaletteEntry>,
        has_bridge: bool,
    ) -> (r: Workbench)
        ensures
            r@ == fresh_bench(
                *bindings,
                crate::command_palette::entry_views(profile_entries@),
                has_bridge,
            ),
            r@.wf(),
    {
        let r = Workbench {
            palette: CommandPalette::new(bindings, profile_entries),
            tab_strip: TabStrip::new(),
            tabs: Vec::new(),
            active_tab_index: 0,
            status_bar: StatusBar::new(),
            has_bridge,
            connected: false,
            notification_center_open: false,
            pane_metadata_list_open: false,
            pass_through: PassThroughNextKeyState::new(),
            mouse: MouseHandler::new(),
            keyboard_selection: KeyboardSelectionState::new(),
            find: FindState::new(),
        };
        assert(r@ =~= fresh_bench(*bindings, r@.palette.profile_entries, has_bridge));
        r
    }

    /// The path of the focused pane goes to the status bar, if it has a session.
    fn show_focused_path(&mut self)
        ensures
            final(self)@ == (BenchView { bar: focused_path_shown(old(self)@), ..old(self)@ }),
    {
        if self.active_tab_index < self.tabs.len() {
            let tab = &self.tabs[self.active_tab_index];
            assert(tab@ == self@.tabs[self.active_tab_index as int]);
            let path = match tab.session(tab.focus) {
                Some(s) => Some(s.pane_path.clone()),
                None => None,
            };
            if let Some(path) = path {
                self.status_bar.set_pane_path(path);
            }
        }
    }

    fn show_list(&mut self, filter: PaneListFilter)
        ensures
            final(self)@ == list_shown(old(self)@, filter),
    {
        self.pane_metadata_list_open = true;
        let text = pane_metadata_summary(&self.tabs, filter);
        self.status_bar.set_pane_path(text);
    }

    fn go_to_attention(&mut self, forward: bool)
        requires
            old(self)@.wf(),
        ensures
            final(self)@ == attention_moved(old(self)@, forward),
            final(self)@.wf(),
    {
        if let Some(target) = next_attention_target(&self.tabs, self.active_tab_index, forward) {
            proof {
                let tabs = old(self)@.tabs;
                lemma_update_ok(
                    tabs,
                    target.0 as int,
                    crate::panes::with_focus(tabs[target.0 as int], target.1),
                );
            }
            focus_attention_target(
                &mut self.tabs,
                &mut self.tab_strip,
                &mut self.active_tab_index,
                target,
            );
            assert(self.tabs@[target.0 as int]@ == crate::panes::tab_views(self.tabs@)[target.0
                as int]);
            let (state, message) = focused_pane_attention(&self.tabs[self.active_tab_index]);
            self.status_bar.set_attention(state, message);
        }
    }

    fn clear_attention(&mut self) -> (r: Vec<Effect>)
        requires
            old(self)@.wf(),
        ensures
            (final(self)@, effect_views(r@)) == attention_cleared(old(self)@),
            final(self)@.wf(),
    {
        proof {
            let w = old(self)@;
            if w.active_tab() is Some {
                let tab = w.active_tab()->0;
                crate::panes::lemma_same_rows(tab.pane_sessions, tab.pane_sessions, tab.focus);
                lemma_update_ok(
                    w.tabs,
                    w.active,
                    crate::attention::attended(w.active_tab()->0),
                );
            }
        }
        let cleared = clear_focused_attention(
            &mut self.tabs,
            self.active_tab_index,
            &mut self.status_bar,
        );
        self.status_bar.set_attention_count(attention_count(&self.tabs));
        match cleared {
            Some(path) => if self.has_bridge {
                one_effect(Effect::ClearAttention(path))
            } else {
                no_effects()
            },
            None => no_effects(),
        }
    }

    /// Carries out an action on the status bar, if it is one.
    fn do_status_action(&mut self, name: &str) -> (r: Option<Vec<Effect>>)
        requires
            old(self)@.wf(),
        ensures
            match r {
                Some(v) => status_action(old(self)@, name@) == Some(
                    (final(self)@, effect_views(v@)),
                ),
                None => status_action(old(self)@, name@) is None && *final(self) == *old(self),
            },
            final(self)@.wf(),
    {
        if str_eq(name, "next-attention") {
            self.go_to_attention(true);
        } else if str_eq(name, "prev-attention") {
            self.go_to_attention(false);
        } else if str_eq(name, "clear-focused-attention") {
            return Some(self.clear_attention());
        } else if str_eq(name, "toggle-notification-center") {
            self.notification_center_open = !self.notification_center_open;
            if self.notification_center_open {
                let text = notification_center_label(&self.tabs);
                self.status_bar.set_pane_path(text);
            } else {
                self.show_focused_path();
            }
        } else if str_eq(name, "toggle-pane-metadata-list") {
            if !self.pane_metadata_list_open {
                self.show_list(PaneListFilter::All);
            } else {
                self.pane_metadata_list_open = false;
                self.show_focused_path();
            }
        } else if str_eq(name, "filter-pane-list-attention") {
            self.show_list(PaneListFilter::Attention);
        } else if str_eq(name, "filter-pane-list-status") {
            self.show_list(PaneListFilter::Status);
        } else if str_eq(name, "filter-pane-list-driver") {
            self.show_list(PaneListFilter::DriverProfile);
        } else if str_eq(name, "filter-pane-list-cwd") {
            self.show_list(PaneListFilter::Cwd);
        } else if str_eq(name, "filter-pane-list-branch") {
            self.show_list(PaneListFilter::Branch);
        } else {
            return None;
        }
        Some(no_effects())
    }

    /// Clears the screen or the scrollback of the focused pane.
    fn clear_buffer(&mut self, name: &str, args: &Option<ActionArgs>) -> (r: Vec<Effect>)
        requires
            old(self)@.wf(),
        ensures
            (final(self)@, effect_views(r@)) == buffer_cleared(
                old(self)@,
                name@,
                crate::bindings::args_view(*args),
            ),
            final(self)@.wf(),
    {
        let mut effects = no_effects();
        if self.active_tab_index < self.tabs.len() {
            let tab = &self.tabs[self.active_tab_index];
            assert(tab@ == self@.tabs[self.active_tab_index as int]);
            let focused = tab.focus;
            if tab.screen(focused).is_some() {
                if str_eq(name, "clear-buffer") {
                    effects = one_effect(Effect::ClearBuffer(focused));
                } else {
                    effects = one_effect(Effect::ClearScrollback(focused));
                }
            }
            let ghost first = effect_views(effects@);
            self.mouse.set_scroll_offset(&focused, 0, 0);
            self.mouse.clear_selection(&focused);
            self.keyboard_selection.deactivate();
            if self.has_bridge && self.connected {
                let mut more = send_ui_action(
                    &self.tabs[self.active_tab_index],
                    name,
                    action_args_to_value(args),
                );
                let ghost second = effect_views(more@);
                effects.append(&mut more);
                assert(effect_views(effects@) =~= first + second);
            } else {
                assert(first + Seq::<EffectView>::empty() =~= first);
            }
        }
        effects
    }

    /// Carries out an action on the tab strip, if it is one.
    fn do_strip_action(&mut self, name: &str, args: &Option<ActionArgs>) -> (r: Option<Vec<Effect>>)
        requires
            old(self)@.wf(),
            has_room(old(self)@.strip),
        ensures
            match r {
                Some(v) => strip_action(
                    old(self)@,
                    name@,
                    crate::bindings::args_view(*args),
                ) == Some((final(self)@, effect_views(v@))),
                None => strip_action(
                    old(self)@,
                    name@,
                    crate::bindings::args_view(*args),
                ) is None && *final(self) == *old(self),
            },
            final(self)@.wf(),
    {
        let host = self.has_bridge && self.connected;
        let count: usize = self.tab_strip.tab_count();
        if str_eq(name, "next-tab") {
            if count == 0 {
                return Some(no_effects());
            }
            if host {
                return Some(send_workspace_action("next-tab", ActionValue::Nothing));
            }
            let next: usize = (self.tab_strip.active_index() + 1) % count;
            self.tab_strip.set_active(next);
            Some(no_effects())
        } else if str_eq(name, "prev-tab") {
            if count == 0 {
                return Some(no_effects());
            }
            if host {
                return Some(send_workspace_action("prev-tab", ActionValue::Nothing));
            }
            let active: usize = self.tab_strip.active_index();
            let prev: usize = if active == 0 {
                count - 1
            } else {
                active - 1
            };
            self.tab_strip.set_active(prev);
            Some(no_effects())
        } else if str_eq(name, "goto-tab") {
            if let Some(a) = args {
                if let Some(text) = get_arg(a, "index") {
                    if let Some(index) = parse_index(text.as_str()) {
                        if index < count {
                            if host {
                                return Some(
                                    send_workspace_action("goto-tab", ActionValue::Index(index)),
                                );
                            }
                            self.tab_strip.set_active(index);
                        }
                    }
                }
            }
            Some(no_effects())
        } else if str_eq(name, "new-tab") {
            if host {
                return Some(send_workspace_action("new-tab", action_args_to_value(args)));
            }
            self.add_local_tab();
            Some(no_effects())
        } else if str_eq(name, "close-tab") {
            if count <= 1 {
                return Some(no_effects());
            }
            if host {
                let nothing: ActionArgs = Vec::new();
                assert(crate::bindings::args_seq(nothing@) =~= Seq::empty());
                return Some(send_workspace_action("close-tab", ActionValue::Texts(nothing)));
            }
            let active: usize = self.tab_strip.active_index();
            proof {
                crate::tab_strip::law_closing_keeps_sound(self@.strip, active as int);
            }
            let _ = self.tab_strip.close_tab(active);
            Some(no_effects())
        } else if str_eq(name, "rename-tab") {
            if args.is_none() {
                let initial = match self.tab_strip.active_tab() {
                    Some(tab) => tab.name.clone(),
                    None => String::new(),
                };
                self.palette.show_prompt(
                    "rename-tab".to_owned(),
                    "Rename the active tab".to_owned(),
                    "Enter a new tab name".to_owned(),
                    initial,
                );
                return Some(no_effects());
            }
            if host {
                return Some(send_workspace_action("rename-tab", action_args_to_value(args)));
            }
            Some(no_effects())
        } else {
            None
        }
    }

    /// Adds a tab to the strip and makes it active.
    pub fn add_local_tab(&mut self)
        requires
            old(self)@.wf(),
            has_room(old(self)@.strip),
        ensures
            final(self)@ == (BenchView { strip: with_new_tab(old(self)@.strip), ..old(self)@ }),
            final(self)@.wf(),
    {
        let count: usize = self.tab_strip.tab_count();
        let mut tab_name = "tab-".to_owned();
        push_decimal(&mut tab_name, (count + 1) as u64);
        proof {
            crate::tab_strip::law_adding_keeps_sound(self@.strip, tab_name@);
        }
        let _ = self.tab_strip.add_tab(tab_name);
        self.tab_strip.set_active(count);
    }

    /// Carries out an action on the focused pane of the active tab, if it is one.
    fn do_focus_action(&mut self, name: &str, args: &Option<ActionArgs>) -> (r: Option<Vec<Effect>>)
        requires
            old(self)@.wf(),
            old(self).active_tab_index < old(self).tabs@.len(),
        ensures
            ({
                let w = old(self)@;
                let result = focus_action(
                    w,
                    w.tabs[w.active],
                    name@,
                    crate::bindings::args_view(*args),
                );
                match r {
                    Some(v) => result == Some((final(self)@, effect_views(v@))),
                    None => result is None && *final(self) == *old(self),
                }
            }),
            final(self)@.wf(),
    {
        if let Some(navigation) = scrollback_navigation_for_action(name) {
            self.navigate(navigation);
        } else if str_eq(name, "mark-mode") {
            self.mark();
        } else if str_eq(name, "select-all") {
            self.select_all();
        } else if str_eq(name, "switch-selection-endpoint") {
            self.keyboard_selection.switch_endpoint();
        } else if str_eq(name, "find") {
            self.find_text(args);
        } else if str_eq(name, "find-next") {
            self.go_to_match(true);
        } else if str_eq(name, "find-prev") {
            self.go_to_match(false);
        } else if str_eq(name, "toggle-command-palette") {
            self.palette.toggle();
        } else if str_eq(name, "pass-through-next-key") {
            self.pass_through.arm();
        } else if str_eq(name, "rename-pane") {
            return Some(self.rename_pane(args));
        } else if str_eq(name, "copy") {
            return Some(self.copy_selection());
        } else if str_eq(name, "paste") {
            return Some(one_effect(Effect::PasteInto(self.tabs[self.active_tab_index].focus)));
        } else {
            return None;
        }
        Some(no_effects())
    }

    fn navigate(&mut self, navigation: ScrollbackNavigation)
        requires
            old(self)@.wf(),
            old(self).active_tab_index < old(self).tabs@.len(),
        ensures
            final(self)@ == (BenchView {
                mouse: crate::selection::after_navigation(
                    old(self)@.mouse,
                    old(self)@.tabs[old(self)@.active],
                    navigation,
                ),
                ..old(self)@
            }),
            final(self)@.wf(),
    {
        let tab = &self.tabs[self.active_tab_index];
        assert(tab@ == self@.tabs[self.active_tab_index as int]);
        assert(tab@.screens_ok());
        let _ = navigate_focused_scrollback(tab, &mut self.mouse, navigation);
    }

    fn mark(&mut self)
        requires
            old(self)@.wf(),
            old(self).active_tab_index < old(self).tabs@.len(),
        ensures
            ({
                let w = old(self)@;
                let (mouse, keyboard_selection) = crate::selection::marked(
                    w.mouse,
                    w.keyboard_selection,
                    w.tabs[w.active],
                );
                final(self)@ == (BenchView { mouse, keyboard_selection, ..w })
            }),
            final(self)@.wf(),
    {
        let tab = &self.tabs[self.active_tab_index];
        assert(tab@ == self@.tabs[self.active_tab_index as int]);
        assert(tab@.screens_ok());
        let _ = activate_keyboard_mark_mode(tab, &mut self.mouse, &mut self.keyboard_selection);
    }

    fn select_all(&mut self)
        requires
            old(self)@.wf(),
            old(self).active_tab_index < old(self).tabs@.len(),
        ensures
            ({
                let w = old(self)@;
                let (mouse, keyboard_selection) = crate::selection::all_selected(
                    w.mouse,
                    w.keyboard_selection,
                    w.tabs[w.active],
                );
                final(self)@ == (BenchView { mouse, keyboard_selection, ..w })
            }),
            final(self)@.wf(),
    {
        let tab = &self.tabs[self.active_tab_index];
        assert(tab@ == self@.tabs[self.active_tab_index as int]);
        assert(tab@.screens_ok());
        let _ = select_all_focused_pane(tab, &mut self.mouse, &mut self.keyboard_selection);
    }

    fn find_text(&mut self, args: &Option<ActionArgs>)
        requires
            old(self)@.wf(),
            old(self).active_tab_index < old(self).tabs@.len(),
        ensures
            final(self)@ == find_action(
                old(self)@,
                old(self)@.tabs[old(self)@.active],
                crate::bindings::args_view(*args),
            ),
            final(self)@.wf(),
    {
        let tab = &self.tabs[self.active_tab_index];
        assert(tab@ == self@.tabs[self.active_tab_index as int]);
        assert(tab@.screens_ok());
        match args {
            None => {
                self.palette.show_prompt(
                    "find".to_owned(),
                    "Find in focused pane".to_owned(),
                    "Search text".to_owned(),
                    String::new(),
                );
            },
            Some(a) => {
                let query = match get_arg(a, "name") {
                    Some(q) => q.clone(),
                    None => String::new(),
                };
                let _ = start_find(
                    tab,
                    &mut self.mouse,
                    &mut self.find,
                    query.as_str(),
                    &mut self.status_bar,
                );
            },
        }
    }

    fn go_to_match(&mut self, forward: bool)
        requires
            old(self)@.wf(),
            old(self).active_tab_index < old(self).tabs@.len(),
        ensures
            final(self)@ == find_step(old(self)@, old(self)@.tabs[old(self)@.active], forward),
            final(self)@.wf(),
    {
        let tab = &self.tabs[self.active_tab_index];
        assert(tab@ == self@.tabs[self.active_tab_index as int]);
        assert(tab@.screens_ok());
        let _ = navigate_find(
            tab,
            &mut self.mouse,
            &mut self.find,
            &mut self.status_bar,
            forward,
        );
    }

    fn rename_pane(&mut self, args: &Option<ActionArgs>) -> (r: Vec<Effect>)
        requires
            old(self)@.wf(),
            old(self).active_tab_index < old(self).tabs@.len(),
        ensures
            ({
                let w = old(self)@;
                let tab = w.tabs[w.active];
                (final(self)@, effect_views(r@)) == if args is None {
                    (
                        BenchView {
                            palette: prompted(
                                w.palette,
                                "rename-pane"@,
                                "Rename the focused pane"@,
                                "Enter a new pane name"@,
                                crate::tabs::focused_name(tab),
                            ),
                            ..w
                        },
                        Seq::empty(),
                    )
                } else if w.host() {
                    (
                        w,
                        pane_action(
                            tab,
                            "rename-pane"@,
                            value_of(crate::bindings::args_view(*args)),
                        ),
                    )
                } else {
                    (w, Seq::empty())
                }
            }),
            final(self)@.wf(),
    {
        let tab = &self.tabs[self.active_tab_index];
        assert(tab@ == self@.tabs[self.active_tab_index as int]);
        assert(tab@.screens_ok());
        if args.is_none() {
            let initial = focused_pane_name(tab);
            self.palette.show_prompt(
                "rename-pane".to_owned(),
                "Rename the focused pane".to_owned(),
                "Enter a new pane name".to_owned(),
                initial,
            );
        } else if self.has_bridge && self.connected {
            return send_ui_action(tab, "rename-pane", action_args_to_value(args));
        }
        no_effects()
    }

    /// The text that is selected in the focused pane.
    fn copy_selection(&self) -> (r: Vec<Effect>)
        requires
            self@.wf(),
            self.active_tab_index < self.tabs@.len(),
        ensures
            effect_views(r@) == copied(self@, self@.tabs[self@.active]),
    {
        let tab = &self.tabs[self.active_tab_index];
        assert(tab@ == self@.tabs[self.active_tab_index as int]);
        assert(tab@.screens_ok());
        let focused = tab.focus;
        if let Some(sel) = self.mouse.selection(&focused) {
            if let Some(screen) = tab.screen(focused) {
                let offset: i32 = self.mouse.scroll_offset(&focused);
                let back: usize = if offset > 0 {
                    offset as usize
                } else {
                    0
                };
                let text = extract_selection_text_at_offset(screen, &sel, back);
                if chars_of(text.as_str()).len() > 0 {
                    return one_effect(Effect::CopyText(text));
                }
            }
        }
        no_effects()
    }

    /// Route an action locally or to the host.
    ///
    /// Returns `true` if the action was handled locally, and what else there is to do.
    pub fn dispatch_action(&mut self, action_ref: &ActionReference) -> (r: (bool, Vec<Effect>))
        requires
            old(self)@.wf(),
            has_room(old(self)@.strip),
        ensures
            (r.0, final(self)@, effect_views(r.1@)) == dispatched(old(self)@, action_ref@),
            final(self)@.wf(),
    {
        let name = action_name(action_ref);
        let args = match action_ref {
            ActionReference::WithArgs { args, .. } => clone_opt_args(args),
            _ => None,
        };
        if should_prompt_for_profile(name, &args, self.connected, self.has_bridge) {
            let handled = show_profile_selector_for_action(&mut self.palette, name);
            return (handled, no_effects());
        }
        if let Some(effects) = self.do_status_action(name) {
            return (true, effects);
        }
        if str_eq(name, "clear-buffer") || str_eq(name, "clear-scrollback") {
            return (true, self.clear_buffer(name, &args));
        }
        if self.active_tab_index >= self.tabs.len() {
            return (false, no_effects());
        }
        if let Some(effects) = self.do_focus_action(name, &args) {
            return (true, effects);
        }
        if let Some(effects) = self.do_strip_action(name, &args) {
            return (true, effects);
        }
        // All other actions go to the host.
        if self.has_bridge && self.connected {
            let tab = &self.tabs[self.active_tab_index];
            assert(tab@ == self@.tabs[self.active_tab_index as int]);
            return (false, send_ui_action(tab, name, action_args_to_value(&args)));
        }
        (false, no_effects())
    }
}

// ── Input to sessions ────────────────────────────────────────────────────────

/// What sending bytes to a pane of a tab results in: the pane goes back to live, and the bytes go
/// to its session if it has one. Says also whether the view of the pane changed.
pub open spec fn input_sent(
    w: BenchView,
    tab: LiveTabView,
    p: PaneId,
    data: Seq<u8>,
    clear: bool,
) -> (BenchView, Seq<EffectView>, bool) {
    let (changed, mouse) = crate::tabs::live_input(w.mouse, tab, p, clear);
    (
        BenchView { mouse, ..w },
        match tab.session(p) {
            Some(s) => seq![EffectView::SendInput { session_id: s.session_id, data }],
            None => Seq::empty(),
        },
        changed,
    )
}

/// What bytes for the focused pane result in: they are sent where there is a host and a tab.
pub open spec fn focused_input(w: BenchView, data: Seq<u8>) -> (BenchView, Seq<EffectView>, bool) {
    match w.active_tab() {
        Some(tab) if w.host() => input_sent(w, tab, tab.focus, data, true),
        _ => (w, Seq::empty(), false),
    }
}

/// What pasting a text into a pane results in.
pub open spec fn text_pasted(w: BenchView, p: PaneId, text: Seq<char>) -> (
    BenchView,
    Seq<EffectView>,
    bool,
) {
    match w.active_tab() {
        Some(tab) if w.host() && text.len() > 0 => input_sent(
            w,
            tab,
            p,
            crate::tabs::pasted(tab, p, text),
            true,
        ),
        _ => (w, Seq::empty(), false),
    }
}

impl Workbench {
    /// Send bytes to a pane of the active tab. Says also whether the view of the pane changed.
    pub fn send_to_pane(&mut self, p: PaneId, data: Vec<u8>, clear_selection: bool) -> (r: (
        Vec<Effect>,
        bool,
    ))
        requires
            old(self)@.wf(),
            old(self).active_tab_index < old(self).tabs@.len(),
        ensures
            (final(self)@, effect_views(r.0@), r.1) == input_sent(
                old(self)@,
                old(self)@.tabs[old(self)@.active],
                p,
                data@,
                clear_selection,
            ),
            final(self)@.wf(),
    {
        let tab = &self.tabs[self.active_tab_index];
        assert(tab@ == self@.tabs[self.active_tab_index as int]);
        let changed = prepare_pane_for_live_input(&mut self.mouse, tab, p, clear_selection);
        let effects = match tab.session(p) {
            Some(s) => one_effect(
                Effect::SendInput { session_id: s.session_id.clone(), data },
            ),
            None => no_effects(),
        };
        (effects, changed)
    }

    /// Send bytes to the focused pane, where there is a host and a tab. Says also whether the
    /// view of the pane changed.
    pub fn send_to_focused(&mut self, data: Vec<u8>) -> (r: (Vec<Effect>, bool))
        requires
            old(self)@.wf(),
        ensures
            (final(self)@, effect_views(r.0@), r.1) == focused_input(old(self)@, data@),
            final(self)@.wf(),
    {
        if self.has_bridge && self.connected && self.active_tab_index < self.tabs.len() {
            let focused = self.tabs[self.active_tab_index].focus;
            return self.send_to_pane(focused, data, true);
        }
        (no_effects(), false)
    }

    /// Paste a text into a pane of the active tab.
    pub fn paste_text(&mut self, p: PaneId, text: &str) -> (r: (Vec<Effect>, bool))
        requires
            old(self)@.wf(),
        ensures
            (final(self)@, effect_views(r.0@), r.1) == text_pasted(old(self)@, p, text@),
            final(self)@.wf(),
    {
        if self.has_bridge && self.connected && self.active_tab_index < self.tabs.len()
            && chars_of(text).len() > 0 {
            let bytes = paste_bytes_for_pane(&self.tabs[self.active_tab_index], p, text);
            assert(self.tabs@[self.active_tab_index as int]@
                == self@.tabs[self.active_tab_index as int]);
            return self.send_to_pane(p, bytes, true);
        }
        (no_effects(), false)
    }
}

// ── Laws ─────────────────────────────────────────────────────────────────────

/// Nothing is sent to the host that there is no connection to.
pub proof fn law_no_host_no_requests(w: BenchView, action: ActionReferenceView, i: int)
    requires
        !w.host(),
        0 <= i < dispatched(w, action).2.len(),
    ensures
        !(dispatched(w, action).2[i] is InvokeAction),
        !(dispatched(w, action).2[i] is RefreshWorkspace),
        !(dispatched(w, action).2[i] is SendInput),
{
}

/// Every request to the host is followed by asking for its state.
pub proof fn law_requests_are_followed_by_refresh(
    w: BenchView,
    action: ActionReferenceView,
    i: int,
)
    requires
        0 <= i < dispatched(w, action).2.len(),
        dispatched(w, action).2[i] is InvokeAction,
    ensures
        i + 1 < dispatched(w, action).2.len(),
        dispatched(w, action).2[i + 1] is RefreshWorkspace,
{
}

/// An action that is not carried out here goes to the host as it is, for the focused pane, and
/// changes nothing here.
pub proof fn law_unknown_actions_go_to_host(w: BenchView, action: ActionReferenceView)
    requires
        !dispatched(w, action).0,
    ensures
        dispatched(w, action).1 == w,
        w.host() && w.active_tab() is Some ==> dispatched(w, action).2 == pane_action(
            w.active_tab()->0,
            crate::command_palette::name_of(action),
            value_of(args_of(action)),
        ),
        !w.host() || w.active_tab() is None ==> dispatched(w, action).2 == Seq::<
            EffectView,
        >::empty(),
{
}

/// Of a workbench with a host no action changes the tabs of the strip or their order: the host
/// does that.
pub proof fn law_host_owns_the_tabs(w: BenchView, action: ActionReferenceView)
    requires
        w.host(),
    ensures
        dispatched(w, action).1.strip.tabs == w.strip.tabs,
{
}

/// Going to the next tab and back leads to the same tab.
pub proof fn law_next_and_previous_tab(s: StripView)
    requires
        crate::tab_strip::sound(s),
        s.tabs.len() > 0,
    ensures
        prev_tab(crate::tab_strip::with_active(s, next_tab(s))) == s.active,
        next_tab(crate::tab_strip::with_active(s, prev_tab(s))) == s.active,
{
    let n = s.tabs.len() as int;
    if s.active + 1 < n {
        vstd::arithmetic::div_mod::lemma_small_mod((s.active + 1) as nat, n as nat);
    } else {
        vstd::arithmetic::div_mod::lemma_mod_self_0(n);
    }
    if s.active > 0 {
        vstd::arithmetic::div_mod::lemma_small_mod(s.active as nat, n as nat);
    } else {
        vstd::arithmetic::div_mod::lemma_mod_self_0(n);
    }
}

/// What tells the names of actions apart: the length, and some of the letters.
#[verifier::opaque]
pub open spec fn name_tag(s: Seq<char>) -> (nat, char, char, char) {
    (s.len(), s[0], s[s.len() - 1], s[2 * s.len() as int / 3])
}

/// The names of the actions differ.
proof fn lemma_action_names()
    ensures
        name_tag("next-attention"@) == (14nat, 'n', 'n', 'n'),
        name_tag("prev-attention"@) == (14nat, 'p', 'n', 'n'),
        name_tag("clear-focused-attention"@) == (23nat, 'c', 'n', 't'),
        name_tag("toggle-notification-center"@) == (26nat, 't', 'r', 'o'),
        name_tag("toggle-pane-metadata-list"@) == (25nat, 't', 't', 'd'),
        name_tag("filter-pane-list-attention"@) == (26nat, 'f', 'n', 'a'),
        name_tag("filter-pane-list-status"@) == (23nat, 'f', 's', 't'),
        name_tag("filter-pane-list-driver"@) == (23nat, 'f', 'r', 't'),
        name_tag("filter-pane-list-cwd"@) == (20nat, 'f', 'd', 'i'),
        name_tag("filter-pane-list-branch"@) == (23nat, 'f', 'h', 't'),
        name_tag("clear-buffer"@) == (12nat, 'c', 'r', 'f'),
        name_tag("clear-scrollback"@) == (16nat, 'c', 'k', 'l'),
        name_tag("scrollback-line-up"@) == (18nat, 's', 'p', 'i'),
        name_tag("scrollback-line-down"@) == (20nat, 's', 'n', 'n'),
        name_tag("scrollback-page-up"@) == (18nat, 's', 'p', 'a'),
        name_tag("scrollback-page-down"@) == (20nat, 's', 'n', 'g'),
        name_tag("scrollback-top"@) == (14nat, 's', 'p', 'k'),
        name_tag("scrollback-bottom"@) == (17nat, 's', 'm', 'b'),
        name_tag("mark-mode"@) == (9nat, 'm', 'e', 'o'),
        name_tag("select-all"@) == (10nat, 's', 'l', '-'),
        name_tag("switch-selection-endpoint"@) == (25nat, 's', 't', '-'),
        name_tag("find"@) == (4nat, 'f', 'd', 'n'),
        name_tag("find-next"@) == (9nat, 'f', 't', 'e'),
        name_tag("find-prev"@) == (9nat, 'f', 'v', 'r'),
        name_tag("toggle-command-palette"@) == (22nat, 't', 'e', '-'),
        name_tag("pass-through-next-key"@) == (21nat, 'p', 'y', 'e'),
        name_tag("rename-pane"@) == (11nat, 'r', 'e', 'p'),
        name_tag("copy"@) == (4nat, 'c', 'y', 'p'),
        name_tag("paste"@) == (5nat, 'p', 'e', 't'),
        name_tag("next-tab"@) == (8nat, 'n', 'b', 't'),
        name_tag("prev-tab"@) == (8nat, 'p', 'b', 't'),
        name_tag("goto-tab"@) == (8nat, 'g', 'b', 't'),
        name_tag("new-tab"@) == (7nat, 'n', 'b', 't'),
        name_tag("close-tab"@) == (9nat, 'c', 'b', 't'),
        name_tag("rename-tab"@) == (10nat, 'r', 'b', '-'),
        name_tag("split-right"@) == (11nat, 's', 't', 'i'),
        name_tag("split-down"@) == (10nat, 's', 'n', 'd'),
        name_tag("change-profile"@) == (14nat, 'c', 'e', 'o'),
{
    reveal(name_tag);
    reveal_strlit("next-attention");
    reveal_strlit("prev-attention");
    reveal_strlit("clear-focused-attention");
    reveal_strlit("toggle-notification-center");
    reveal_strlit("toggle-pane-metadata-list");
    reveal_strlit("filter-pane-list-attention");
    reveal_strlit("filter-pane-list-status");
    reveal_strlit("filter-pane-list-driver");
    reveal_strlit("filter-pane-list-cwd");
    reveal_strlit("filter-pane-list-branch");
    reveal_strlit("clear-buffer");
    reveal_strlit("clear-scrollback");
    reveal_strlit("scrollback-line-up");
    reveal_strlit("scrollback-line-down");
    reveal_strlit("scrollback-page-up");
    reveal_strlit("scrollback-page-down");
    reveal_strlit("scrollback-top");
    reveal_strlit("scrollback-bottom");
    reveal_strlit("mark-mode");
    reveal_strlit("select-all");
    reveal_strlit("switch-selection-endpoint");
    reveal_strlit("find");
    reveal_strlit("find-next");
    reveal_strlit("find-prev");
    reveal_strlit("toggle-command-palette");
    reveal_strlit("pass-through-next-key");
    reveal_strlit("rename-pane");
    reveal_strlit("copy");
    reveal_strlit("paste");
    reveal_strlit("next-tab");
    reveal_strlit("prev-tab");
    reveal_strlit("goto-tab");
    reveal_strlit("new-tab");
    reveal_strlit("close-tab");
    reveal_strlit("rename-tab");
    reveal_strlit("split-right");
    reveal_strlit("split-down");
    reveal_strlit("change-profile");
}

/// Going to the next pane that asks for attention, or to the one before: its tab becomes active, it
/// gets the focus, and the status bar shows what it asks for. Nothing else changes.
#[verifier::rlimit(50)]
pub proof fn law_attention_actions_go_to_the_pane(
    w: BenchView,
    forward: bool,
    t: int,
    p: PaneId,
    u: int,
    s: SessionView,
)
    requires
        crate::attention::next_unread(w.tabs, w.active, forward) == Some((t, p)),
        0 <= t < w.tabs.len(),
        t < w.strip.tabs.len(),
        w.tabs[t].panes.contains(p),
        w.tabs[t].session(p) == Some(s),
        0 <= u < w.tabs.len(),
        u != t,
    ensures
        ({
            let name = if forward { "next-attention"@ } else { "prev-attention"@ };
            let (used, after, effects) = dispatched(w, ActionReferenceView::Simple(name));
            &&& used
            &&& effects.len() == 0
            &&& after.active == t
            &&& after.strip.active == t
            &&& after.tabs[t].focus == p
            &&& after.tabs[t].pane_sessions == w.tabs[t].pane_sessions
            &&& after.tabs[u] == w.tabs[u]
            &&& after.bar.attention == s.attention
            &&& after.bar.attention_message == s.attention_message
            &&& after.mouse == w.mouse && after.palette == w.palette
        }),
{
    lemma_action_names();
}

/// Clearing the attention of the focused pane: the pane asks for none, the host is told so by the
/// path of the pane, and the count is that of the others.
#[verifier::rlimit(50)]
pub proof fn law_focused_attention_is_cleared(w: BenchView, s: SessionView)
    requires
        0 <= w.active < w.tabs.len(),
        w.tabs[w.active].session(w.tabs[w.active].focus) == Some(s),
    ensures
        ({
            let (used, after, effects) = dispatched(
                w,
                ActionReferenceView::Simple("clear-focused-attention"@),
            );
            let p = w.tabs[w.active].focus;
            &&& used
            &&& after.tabs[w.active].session(p) is Some
            &&& after.tabs[w.active].session(p)->0.attention is Active
            &&& after.bar.attention is Active && after.bar.attention_message is None
            &&& after.bar.attention_count == crate::attention::unread_total(after.tabs)
            &&& w.has_bridge ==> effects == seq![EffectView::ClearAttention(s.pane_path)]
            &&& !w.has_bridge ==> effects.len() == 0
        }),
{
    lemma_action_names();
    let tab = w.tabs[w.active];
    let q = if tab.focus.0 == 0 {
        PaneId(1)
    } else {
        PaneId(0)
    };
    crate::attention::law_attending_clears_the_focused_pane(tab, s, q);
}

/// The lists of notices and of panes are shown in the place of the path of the focused pane, which
/// comes back when they are closed.
#[verifier::rlimit(50)]
pub proof fn law_lists_are_shown_and_closed(w: BenchView, s: SessionView)
    requires
        0 <= w.active < w.tabs.len(),
        w.tabs[w.active].session(w.tabs[w.active].focus) == Some(s),
    ensures
        ({
            let to = |name: Seq<char>| dispatched(w, ActionReferenceView::Simple(name)).1;
            let notices = to("toggle-notification-center"@);
            let panes = to("toggle-pane-metadata-list"@);
            &&& notices.notification_center_open == !w.notification_center_open
            &&& !w.notification_center_open ==> notices.bar.pane_path
                == crate::attention::notification_text(w.tabs)
            &&& w.notification_center_open ==> notices.bar.pane_path == s.pane_path
            &&& panes.pane_metadata_list_open == !w.pane_metadata_list_open
            &&& !w.pane_metadata_list_open ==> panes.bar.pane_path
                == crate::attention::summary_text(w.tabs, PaneListFilter::All)
            &&& w.pane_metadata_list_open ==> panes.bar.pane_path == s.pane_path
            &&& to("filter-pane-list-attention"@).bar.pane_path == crate::attention::summary_text(
                w.tabs,
                PaneListFilter::Attention,
            )
            &&& to("filter-pane-list-status"@).bar.pane_path == crate::attention::summary_text(
                w.tabs,
                PaneListFilter::Status,
            )
            &&& to("filter-pane-list-driver"@).bar.pane_path == crate::attention::summary_text(
                w.tabs,
                PaneListFilter::DriverProfile,
            )
            &&& to("filter-pane-list-cwd"@).bar.pane_path == crate::attention::summary_text(
                w.tabs,
                PaneListFilter::Cwd,
            )
            &&& to("filter-pane-list-branch"@).bar.pane_path == crate::attention::summary_text(
                w.tabs,
                PaneListFilter::Branch,
            )
            &&& to("filter-pane-list-cwd"@).pane_metadata_list_open
        }),
{
    lemma_action_names();
}

/// Clearing the buffer or the scrollback of the focused pane shows its live end without a selection,
/// and is asked of the host too where there is one.
#[verifier::rlimit(50)]
pub proof fn law_buffers_are_cleared(w: BenchView, q: PaneId)
    requires
        0 <= w.active < w.tabs.len(),
        w.tabs[w.active].screen(w.tabs[w.active].focus) is Some,
        q != w.tabs[w.active].focus,
    ensures
        ({
            let tab = w.tabs[w.active];
            let (_, a, all) = dispatched(w, ActionReferenceView::Simple("clear-buffer"@));
            let (_, b, back) = dispatched(w, ActionReferenceView::Simple("clear-scrollback"@));
            &&& all[0] == EffectView::ClearBuffer(tab.focus)
            &&& back[0] == EffectView::ClearScrollback(tab.focus)
            &&& !w.host() ==> all.len() == 1 && back.len() == 1
            &&& w.host() ==> all.skip(1) == pane_action(
                tab,
                "clear-buffer"@,
                ActionValueView::Nothing,
            ) && back.skip(1) == pane_action(tab, "clear-scrollback"@, ActionValueView::Nothing)
            &&& a.mouse.pane(tab.focus).scroll_offset == 0 && b.mouse.pane(tab.focus).scroll_offset
                == 0
            &&& a.mouse.pane(tab.focus).selection is None && b.mouse.pane(
                tab.focus,
            ).selection is None
            &&& a.mouse.pane(q) == w.mouse.pane(q) && b.mouse.pane(q) == w.mouse.pane(q)
            &&& !a.keyboard_selection.active && !b.keyboard_selection.active
        }),
{
    lemma_action_names();
    let tab = w.tabs[w.active];
    let (_, a, all) = dispatched(w, ActionReferenceView::Simple("clear-buffer"@));
    let (_, b, back) = dispatched(w, ActionReferenceView::Simple("clear-scrollback"@));
    if w.host() {
        assert(all.skip(1) =~= pane_action(tab, "clear-buffer"@, ActionValueView::Nothing));
        assert(back.skip(1) =~= pane_action(tab, "clear-scrollback"@, ActionValueView::Nothing));
    }
}

/// What is asked of the host for a pane: the action for the pane by its path, and then the state of
/// the workspace. For the workspace it is asked without a pane.
pub proof fn law_requests_name_the_focused_pane(
    tab: LiveTabView,
    action: Seq<char>,
    args: ActionValueView,
    s: SessionView,
)
    requires
        tab.session(tab.focus) == Some(s),
    ensures
        pane_action(tab, action, args) == seq![
            EffectView::InvokeAction { action, target: Some(s.pane_path), args },
            EffectView::RefreshWorkspace,
        ],
        workspace_action(action, args) == seq![
            EffectView::InvokeAction { action, target: None, args },
            EffectView::RefreshWorkspace,
        ],
{
}

/// Without a host the tabs are changed here: the next and the previous tab become active, going
/// round, a new one comes last and becomes active, and the active one is closed unless it is the
/// only one.
#[verifier::rlimit(50)]
pub proof fn law_tabs_are_changed_here(w: BenchView, i: nat, arg: Seq<char>)
    requires
        !w.host(),
        w.active_tab() is Some,
        crate::tab_strip::sound(w.strip),
        w.strip.tabs.len() > 0,
        i < w.strip.tabs.len(),
        crate::text::index_in(arg) == Some(i),
    ensures
        ({
            let n = w.strip.tabs.len() as int;
            let k = w.strip.active;
            let to = |name: Seq<char>| dispatched(w, ActionReferenceView::Simple(name));
            let jump = dispatched(
                w,
                ActionReferenceView::WithArgs {
                    action: "goto-tab"@,
                    args: Some(seq![("index"@, arg)]),
                },
            );
            let added = to("new-tab"@).1.strip;
            let closed = to("close-tab"@).1.strip;
            &&& to("next-tab"@).1.strip.active == (if k + 1 < n { k + 1 } else { 0 })
            &&& to("next-tab"@).1.strip.tabs == w.strip.tabs
            &&& to("prev-tab"@).1.strip.active == (if k > 0 { k - 1 } else { n - 1 })
            &&& to("prev-tab"@).1.strip.tabs == w.strip.tabs
            &&& jump.1.strip.active == i
            &&& jump.1.strip.tabs == w.strip.tabs
            &&& added.tabs.len() == n + 1 && added.active == n
            &&& added.tabs[n].name == "tab-"@ + crate::text::decimal((n + 1) as nat)
            &&& n > 1 ==> closed.tabs == w.strip.tabs.remove(k)
            &&& n == 1 ==> closed == w.strip
            &&& to("next-tab"@).0 && to("prev-tab"@).0 && to("new-tab"@).0 && to("close-tab"@).0
                && jump.0
            &&& to("next-tab"@).2.len() == 0 && to("new-tab"@).2.len() == 0 && to(
                "close-tab"@,
            ).2.len() == 0 && jump.2.len() == 0
        }),
{
    lemma_action_names();
    let n = w.strip.tabs.len() as int;
    let k = w.strip.active;
    if k + 1 < n {
        vstd::arithmetic::div_mod::lemma_small_mod((k + 1) as nat, n as nat);
    } else {
        vstd::arithmetic::div_mod::lemma_mod_self_0(n);
    }
    crate::bindings::law_first_argument_counts(seq![("index"@, arg)], "index"@, 0);
}

/// With a host the tabs are its business: it is asked for the same, and nothing changes here.
#[verifier::rlimit(50)]
pub proof fn law_tabs_are_changed_by_the_host(w: BenchView, i: nat, arg: Seq<char>)
    requires
        w.host(),
        w.active_tab() is Some,
        w.strip.tabs.len() > 1,
        i < w.strip.tabs.len(),
        crate::text::index_in(arg) == Some(i),
    ensures
        ({
            let to = |name: Seq<char>| dispatched(w, ActionReferenceView::Simple(name));
            let nothing = ActionValueView::Nothing;
            let args = Some(seq![("index"@, arg)]);
            let jump = dispatched(
                w,
                ActionReferenceView::WithArgs { action: "goto-tab"@, args },
            );
            let made = dispatched(w, ActionReferenceView::WithArgs { action: "new-tab"@, args });
            &&& to("next-tab"@) == (true, w, workspace_action("next-tab"@, nothing))
            &&& to("prev-tab"@) == (true, w, workspace_action("prev-tab"@, nothing))
            &&& to("close-tab"@) == (
                true,
                w,
                workspace_action("close-tab"@, ActionValueView::Texts(Seq::empty())),
            )
            &&& jump == (true, w, workspace_action("goto-tab"@, ActionValueView::Index(i as int)))
            &&& made == (
                true,
                w,
                workspace_action("new-tab"@, ActionValueView::Texts(seq![("index"@, arg)])),
            )
        }),
{
    lemma_action_names();
    crate::bindings::law_first_argument_counts(seq![("index"@, arg)], "index"@, 0);
}

/// With a host, an action that needs a profile and was given none asks for it first.
#[verifier::rlimit(50)]
pub proof fn law_missing_profiles_are_asked_for(w: BenchView)
    requires
        w.host(),
    ensures
        ({
            let to = |name: Seq<char>| dispatched(w, ActionReferenceView::Simple(name));
            let asks = |name: Seq<char>|
                to(name).0 && to(name).2.len() == 0 && to(name).1.palette
                    == crate::profiles::with_selector(w.palette, name);
            asks("new-tab"@) && asks("split-right"@) && asks("split-down"@) && asks(
                "change-profile"@,
            )
        }),
{
    lemma_action_names();
}

/// What the actions on the focused pane do: they scroll it, select in it, find in it, copy from it,
/// paste into it, and nothing is asked of the host for that.
#[verifier::rlimit(50)]
pub proof fn law_actions_on_the_focused_pane(w: BenchView, tab: LiveTabView)
    requires
        w.active_tab() == Some(tab),
    ensures
        ({
            let to = |name: Seq<char>| dispatched(w, ActionReferenceView::Simple(name));
            let scrolls = |name: Seq<char>, n: ScrollbackNavigation|
                to(name).0 && to(name).1.mouse == crate::selection::after_navigation(w.mouse, tab, n)
                    && to(name).2.len() == 0;
            let next = crate::find::find_moved(w.mouse, w.find, w.bar, tab, true);
            let prev = crate::find::find_moved(w.mouse, w.find, w.bar, tab, false);
            &&& scrolls(
                "scrollback-line-up"@,
                ScrollbackNavigation::LineUp,
            )
            &&& scrolls(
                "scrollback-line-down"@,
                ScrollbackNavigation::LineDown,
            )
            &&& scrolls("scrollback-page-up"@, ScrollbackNavigation::PageUp)
            &&& scrolls(
                "scrollback-page-down"@,
                ScrollbackNavigation::PageDown,
            )
            &&& scrolls("scrollback-top"@, ScrollbackNavigation::Top)
            &&& scrolls("scrollback-bottom"@, ScrollbackNavigation::Bottom)
            &&& (to("find-next"@).1.mouse, to("find-next"@).1.find, to("find-next"@).1.bar) == next
            &&& (to("find-prev"@).1.mouse, to("find-prev"@).1.find, to("find-prev"@).1.bar) == prev
            &&& (to("mark-mode"@).1.mouse, to("mark-mode"@).1.keyboard_selection)
                == crate::selection::marked(w.mouse, w.keyboard_selection, tab)
            &&& (to("select-all"@).1.mouse, to("select-all"@).1.keyboard_selection)
                == crate::selection::all_selected(w.mouse, w.keyboard_selection, tab)
            &&& to("switch-selection-endpoint"@).1.keyboard_selection == crate::selection::switched(
                w.keyboard_selection,
            )
            &&& to("paste"@) == (true, w, seq![EffectView::PasteInto(tab.focus)])
            &&& to("copy"@).1 == w
            &&& to("pass-through-next-key"@).1.pass_through
            &&& to("find"@).1.palette.visible && to("find"@).1.palette.mode is Prompt
            &&& to("rename-pane"@).1.palette.visible && to("rename-pane"@).1.palette.query
                == crate::tabs::focused_name(tab)
            &&& to("rename-tab"@).1.palette.visible && to("rename-tab"@).1.palette.mode is Prompt
            &&& w.strip.active < w.strip.tabs.len() ==> to("rename-tab"@).1.palette.query
                == w.strip.tabs[w.strip.active].name
            &&& to("toggle-command-palette"@).1.palette.visible == !w.palette.visible
        }),
{
    lemma_action_names();
}

/// Copying takes the selected text of the focused pane as it is scrolled, and nothing where nothing
/// is selected or the selection holds no text.
#[verifier::rlimit(50)]
pub proof fn law_copy_takes_the_selected_text(
    w: BenchView,
    tab: LiveTabView,
    screen: Screen,
    sel: TextSelection,
)
    requires
        w.active_tab() == Some(tab),
        tab.screen(tab.focus) == Some(screen),
        w.mouse.pane(tab.focus).scroll_offset >= 0,
    ensures
        ({
            let text = crate::clipboard::selected_text(
                screen,
                sel,
                w.mouse.pane(tab.focus).scroll_offset as int,
            );
            let effects = dispatched(w, ActionReferenceView::Simple("copy"@)).2;
            &&& w.mouse.pane(tab.focus).selection is None ==> effects.len() == 0
            &&& w.mouse.pane(tab.focus).selection == Some(sel) && text.len() > 0 ==> effects == seq![
                EffectView::CopyText(text),
            ]
            &&& w.mouse.pane(tab.focus).selection == Some(sel) && text.len() == 0 ==> effects.len()
                == 0
        }),
{
    lemma_action_names();
}

/// Finding starts with the text that was given.
#[verifier::rlimit(50)]
pub proof fn law_find_starts_with_its_text(w: BenchView, tab: LiveTabView, query: Seq<char>)
    requires
        w.active_tab() == Some(tab),
    ensures
        ({
            let (used, after, effects) = dispatched(
                w,
                ActionReferenceView::WithArgs {
                    action: "find"@,
                    args: Some(seq![("name"@, query)]),
                },
            );
            &&& used
            &&& effects.len() == 0
            &&& (after.mouse, after.find, after.bar) == crate::find::find_started(
                w.mouse,
                w.find,
                w.bar,
                tab,
                query,
            )
        }),
{
    lemma_action_names();
    crate::bindings::law_first_argument_counts(seq![("name"@, query)], "name"@, 0);
}

/// Input goes to the session of its pane and to no other, and only with a host.
pub proof fn law_input_goes_to_its_session(
    w: BenchView,
    tab: LiveTabView,
    s: SessionView,
    data: Seq<u8>,
    text: Seq<char>,
)
    requires
        w.active_tab() == Some(tab),
        tab.session(tab.focus) == Some(s),
    ensures
        w.host() ==> focused_input(w, data).1 == seq![
            EffectView::SendInput { session_id: s.session_id, data },
        ],
        !w.host() ==> focused_input(w, data).1.len() == 0 && focused_input(w, data).0 == w,
        w.host() && text.len() > 0 ==> text_pasted(w, tab.focus, text).1 == seq![
            EffectView::SendInput {
                session_id: s.session_id,
                data: crate::tabs::pasted(tab, tab.focus, text),
            },
        ],
        text.len() == 0 || !w.host() ==> text_pasted(w, tab.focus, text).1.len() == 0,
{
}

/// Arguments reach the host as an object of texts, an index as a number, and no arguments as null.
pub proof fn law_arguments_are_said(j: Json, i: int, args: Seq<(Seq<char>, Seq<char>)>, k: int)
    ensures
        says(j, ActionValueView::Nothing) <==> j is Null,
        says(j, ActionValueView::Texts(args)) && 0 <= k < args.len() ==> j is Object
            && j->Object_0@[k].0@ == args[k].0 && j->Object_0@[k].1 is Str
            && j->Object_0@[k].1->Str_0@ == args[k].1,
        says(j, ActionValueView::Index(i)) ==> j is Object && j->Object_0@.len() == 1
            && j->Object_0@[0].0@ == "index"@ && j->Object_0@[0].1 == Json::UInt(i as u64),
        value_of(None) == ActionValueView::Nothing,
        value_of(Some(args)) == ActionValueView::Texts(args),
{
}

/// Where there is nothing to do, nothing is done: no pane asks for attention, there is no tab of the
/// number, or only one tab is left to close.
#[verifier::rlimit(50)]
pub proof fn law_nothing_to_do(w: BenchView, i: nat, arg: Seq<char>)
    requires
        w.active_tab() is Some,
        crate::text::index_in(arg) == Some(i),
        i >= w.strip.tabs.len(),
    ensures
        crate::attention::next_unread(w.tabs, w.active, true) is None ==> dispatched(
            w,
            ActionReferenceView::Simple("next-attention"@),
        ) == (true, w, Seq::<EffectView>::empty()),
        crate::attention::next_unread(w.tabs, w.active, false) is None ==> dispatched(
            w,
            ActionReferenceView::Simple("prev-attention"@),
        ) == (true, w, Seq::<EffectView>::empty()),
        dispatched(
            w,
            ActionReferenceView::WithArgs { action: "goto-tab"@, args: Some(seq![("index"@, arg)]) },
        ) == (true, w, Seq::<EffectView>::empty()),
        w.strip.tabs.len() <= 1 ==> dispatched(w, ActionReferenceView::Simple("close-tab"@)) == (
            true,
            w,
            Seq::<EffectView>::empty(),
        ),
{
    lemma_action_names();
    crate::bindings::law_first_argument_counts(seq![("index"@, arg)], "index"@, 0);
}

/// A new name for the tab or the focused pane is asked of the host, and without one nothing happens.
#[verifier::rlimit(50)]
pub proof fn law_names_are_given_by_the_host(w: BenchView, tab: LiveTabView, name: Seq<char>)
    requires
        w.active_tab() == Some(tab),
    ensures
        ({
            let args = seq![("name"@, name)];
            let said = ActionValueView::Texts(args);
            let to = |action: Seq<char>|
                dispatched(w, ActionReferenceView::WithArgs { action, args: Some(args) });
            &&& w.host() ==> to("rename-tab"@) == (
                true,
                w,
                workspace_action("rename-tab"@, said),
            ) && to("rename-pane"@) == (true, w, pane_action(tab, "rename-pane"@, said))
            &&& !w.host() ==> to("rename-tab"@).2.len() == 0 && to("rename-tab"@).1 == w && to(
                "rename-pane"@,
            ).2.len() == 0 && to("rename-pane"@).1 == w
        }),
{
    lemma_action_names();
}

} // verus!
