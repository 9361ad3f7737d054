//! Bottom status bar.
//!
//! Displays four segments from left to right:
//!   1. Active workspace name
//!   2. Focused pane path
//!   3. Prefix-active indicator (visible during chord entry)
//!   4. Session state indicator
use vstd::prelude::*;

use crate::panes::AttentionState;
use crate::text::push_decimal;

verus! {

// ── Colors ───────────────────────────────────────────────────────────────────

pub const TEXT_COLOR: (u8, u8, u8) = (180, 180, 180);

pub const WORKSPACE_COLOR: (u8, u8, u8) = (78, 201, 176);

pub const STATE_RUNNING_COLOR: (u8, u8, u8) = (100, 200, 120);

pub const STATE_EXITED_COLOR: (u8, u8, u8) = (200, 170, 80);

pub const STATE_FAILED_COLOR: (u8, u8, u8) = (204, 120, 120);

pub const STATE_CREATING_COLOR: (u8, u8, u8) = (180, 180, 180);

// ── Session status ───────────────────────────────────────────────────────────

/// Session state for status bar display.
#[derive(Debug, PartialEq, Eq)]
pub enum SessionStatus {
    Creating,
    Running,
    Exited { exit_code: u32 },
    Failed { error: String },
    Restarting { attempt: u32 },
}

/// The model of a [`SessionStatus`].
pub enum SessionStatusView {
    Creating,
    Running,
    Exited { exit_code: u32 },
    Failed { error: Seq<char> },
    Restarting { attempt: u32 },
}

impl View for SessionStatus {
    type V = SessionStatusView;

    open spec fn view(&self) -> SessionStatusView {
        match self {
            SessionStatus::Creating => SessionStatusView::Creating,
            SessionStatus::Running => SessionStatusView::Running,
            SessionStatus::Exited { exit_code } => SessionStatusView::Exited {
                exit_code: *exit_code,
            },
            SessionStatus::Failed { error } => SessionStatusView::Failed { error: error@ },
            SessionStatus::Restarting { attempt } => SessionStatusView::Restarting {
                attempt: *attempt,
            },
        }
    }
}

impl Clone for SessionStatus {
    fn clone(&self) -> (r: SessionStatus)
        ensures
            r@ == self@,
    {
        match self {
            SessionStatus::Creating => SessionStatus::Creating,
            SessionStatus::Running => SessionStatus::Running,
            SessionStatus::Exited { exit_code } => SessionStatus::Exited { exit_code: *exit_code },
            SessionStatus::Failed { error } => SessionStatus::Failed { error: error.clone() },
            SessionStatus::Restarting { attempt } => SessionStatus::Restarting {
                attempt: *attempt,
            },
        }
    }
}

impl SessionStatusView {
    /// Human-readable label for display.
    pub open spec fn label(self) -> Seq<char> {
        match self {
            SessionStatusView::Creating => "creating"@,
            SessionStatusView::Running => "running"@,
            SessionStatusView::Exited { exit_code } => "exited ("@ + crate::text::decimal(
                exit_code as nat,
            ) + ")"@,
            SessionStatusView::Failed { error } => "failed: "@ + error,
            SessionStatusView::Restarting { attempt } => "restarting ("@ + crate::text::decimal(
                attempt as nat,
            ) + ")"@,
        }
    }

    /// The color of the label.
    pub open spec fn color(self) -> (u8, u8, u8) {
        match self {
            SessionStatusView::Running => STATE_RUNNING_COLOR,
            SessionStatusView::Exited { .. } => STATE_EXITED_COLOR,
            SessionStatusView::Failed { .. } => STATE_FAILED_COLOR,
            _ => STATE_CREATING_COLOR,
        }
    }
}

/// A word with a number in brackets behind it.
fn numbered(word: &str, n: u32) -> (r: String)
    ensures
        r@ == word@ + crate::text::decimal(n as nat) + ")"@,
{
    let mut s = word.to_owned();
    push_decimal(&mut s, n as u64);
    s.append(")");
    s
}

impl SessionStatus {
    /// Human-readable label for display.
    pub fn label(&self) -> (r: String)
        ensures
            r@ == self@.label(),
    {
        match self {
            SessionStatus::Creating => "creating".to_owned(),
            SessionStatus::Running => "running".to_owned(),
            SessionStatus::Exited { exit_code } => numbered("exited (", *exit_code),
            SessionStatus::Failed { error } => {
                let mut s = "failed: ".to_owned();
                s.append(error.as_str());
                s
            },
            SessionStatus::Restarting { attempt } => numbered("restarting (", *attempt),
        }
    }

    /// The color of the label.
    pub fn color(&self) -> (r: (u8, u8, u8))
        ensures
            r == self@.color(),
    {
        match self {
            SessionStatus::Running => STATE_RUNNING_COLOR,
            SessionStatus::Exited { .. } => STATE_EXITED_COLOR,
            SessionStatus::Failed { .. } => STATE_FAILED_COLOR,
            SessionStatus::Creating => STATE_CREATING_COLOR,
            SessionStatus::Restarting { .. } => STATE_CREATING_COLOR,
        }
    }
}

// ── StatusBar ────────────────────────────────────────────────────────────────

/// Bottom status bar: workspace name, pane path, prefix indicator, session state.
#[derive(Debug)]
pub struct StatusBar {
    pub workspace_name: String,
    pub pane_path: String,
    pub session_status: SessionStatus,
    pub prefix_active: bool,
    pub prefix_label: String,
    /// Whether the focused pane asks for attention, and what it says.
    pub attention: AttentionState,
    pub attention_message: Option<String>,
    /// How many panes ask for attention.
    pub attention_count: usize,
}

/// The model of a [`StatusBar`].
#[verifier::ext_equal]
pub struct BarView {
    pub workspace_name: Seq<char>,
    pub pane_path: Seq<char>,
    pub session_status: SessionStatusView,
    pub prefix_active: bool,
    pub prefix_label: Seq<char>,
    pub attention: AttentionState,
    pub attention_message: Option<Seq<char>>,
    pub attention_count: int,
}

impl View for StatusBar {
    type V = BarView;

    open spec fn view(&self) -> BarView {
        BarView {
            workspace_name: self.workspace_name@,
            pane_path: self.pane_path@,
            session_status: self.session_status@,
            prefix_active: self.prefix_active,
            prefix_label: self.prefix_label@,
            attention: self.attention,
            attention_message: crate::text::opt_text(self.attention_message),
            attention_count: self.attention_count as int,
        }
    }
}

/// The bar with another pane path.
pub open spec fn with_path(bar: BarView, path: Seq<char>) -> BarView {
    BarView { pane_path: path, ..bar }
}

/// The bar with another attention state of the focused pane.
pub open spec fn with_attention(
    bar: BarView,
    state: AttentionState,
    message: Option<Seq<char>>,
) -> BarView {
    BarView { attention: state, attention_message: message, ..bar }
}

/// The bar with another number of panes that ask for attention.
pub open spec fn with_count(bar: BarView, count: int) -> BarView {
    BarView { attention_count: count, ..bar }
}

/// The segments that are drawn from left to right before the session state, which is always
/// there.
#[derive(Debug, Clone, Copy, PartialEq, Eq, Structural)]
pub enum Segment {
    Workspace,
    PanePath,
    Prefix,
}

/// The segments that have something to show.
pub open spec fn segments_of(bar: BarView) -> Seq<Segment> {
    (if bar.workspace_name.len() > 0 {
        seq![Segment::Workspace]
    } else {
        Seq::empty()
    }) + (if bar.pane_path.len() > 0 {
        seq![Segment::PanePath]
    } else {
        Seq::empty()
    }) + (if bar.prefix_active {
        seq![Segment::Prefix]
    } else {
        Seq::empty()
    })
}

impl StatusBar {
    /// Create a new status bar.
    pub fn new() -> (r: StatusBar)
        ensures
            r@ == (BarView {
                workspace_name: Seq::empty(),
                pane_path: Seq::empty(),
                session_status: SessionStatusView::Running,
                prefix_active: false,
                prefix_label: "PREFIX"@,
                attention: AttentionState::Active,
                attention_message: None,
                attention_count: 0,
            }),
    {
        StatusBar {
            workspace_name: String::new(),
            pane_path: String::new(),
            session_status: SessionStatus::Running,
            prefix_active: false,
            prefix_label: "PREFIX".to_owned(),
            attention: AttentionState::Active,
            attention_message: None,
            attention_count: 0,
        }
    }

    /// Set the active workspace name.
    pub fn set_workspace_name(&mut self, name: String)
        ensures
            final(self)@ == (BarView { workspace_name: name@, ..old(self)@ }),
    {
        self.workspace_name = name;
    }

    /// Get the active workspace name.
    pub fn workspace_name(&self) -> (r: &str)
        ensures
            r@ == self@.workspace_name,
    {
        self.workspace_name.as_str()
    }

    /// Set the focused pane path (e.g. "workspace/tab/pane").
    pub fn set_pane_path(&mut self, path: String)
        ensures
            final(self)@ == with_path(old(self)@, path@),
    {
        self.pane_path = path;
    }

    /// Get the focused pane path.
    pub fn pane_path(&self) -> (r: &str)
        ensures
            r@ == self@.pane_path,
    {
        self.pane_path.as_str()
    }

    /// Set the session state for the focused pane.
    pub fn set_session_status(&mut self, status: SessionStatus)
        ensures
            final(self)@ == (BarView { session_status: status@, ..old(self)@ }),
    {
        self.session_status = status;
    }

    /// Get the current session status.
    pub fn session_status(&self) -> (r: &SessionStatus)
        ensures
            r@ == self@.session_status,
    {
        &self.session_status
    }

    /// Show or hide the prefix-active indicator.
    pub fn set_prefix_active(&mut self, active: bool)
        ensures
            final(self)@ == (BarView { prefix_active: active, ..old(self)@ }),
    {
        self.prefix_active = active;
    }

    /// Whether the prefix indicator is visible.
    pub fn is_prefix_active(&self) -> (r: bool)
        ensures
            r == self@.prefix_active,
    {
        self.prefix_active
    }

    /// Set the label shown in the prefix indicator (e.g. "PREFIX" or "Ctrl+B").
    pub fn set_prefix_label(&mut self, label: String)
        ensures
            final(self)@ == (BarView { prefix_label: label@, ..old(self)@ }),
    {
        self.prefix_label = label;
    }

    /// Set whether the focused pane asks for attention, and what it says.
    pub fn set_attention(&mut self, state: AttentionState, message: Option<String>)
        ensures
            final(self)@ == with_attention(old(self)@, state, crate::text::opt_text(message)),
    {
        self.attention = state;
        self.attention_message = message;
    }

    /// Whether the focused pane asks for attention.
    pub fn attention_state(&self) -> (r: AttentionState)
        ensures
            r == self@.attention,
    {
        self.attention
    }

    /// Set how many panes ask for attention.
    pub fn set_attention_count(&mut self, count: usize)
        ensures
            final(self)@ == with_count(old(self)@, count as int),
    {
        self.attention_count = count;
    }

    /// The segments to draw, from left to right.
    pub fn segments(&self) -> (r: Vec<Segment>)
        ensures
            r@ == segments_of(self@),
    {
        let mut out: Vec<Segment> = Vec::new();
        if crate::text::chars_of(self.workspace_name.as_str()).len() > 0 {
            out.push(Segment::Workspace);
        }
        if crate::text::chars_of(self.pane_path.as_str()).len() > 0 {
            out.push(Segment::PanePath);
        }
        if self.prefix_active {
            out.push(Segment::Prefix);
        }
        assert(out@ =~= segments_of(self@));
        out
    }
}

// ── Laws ─────────────────────────────────────────────────────────────────────

/// A segment is shown exactly if there is something in it to show, and they stand in a fixed order.
pub proof fn law_segments_show_what_is_there(bar: BarView, i: int)
    ensures
        ({
            let s = segments_of(bar);
            let one = |there: bool| if there { 1int } else { 0 };
            let a = one(bar.workspace_name.len() > 0);
            let b = a + one(bar.pane_path.len() > 0);
            let c = b + one(bar.prefix_active);
            &&& s.len() == c
            &&& bar.workspace_name.len() > 0 ==> s[0] == Segment::Workspace
            &&& bar.pane_path.len() > 0 ==> s[a] == Segment::PanePath
            &&& bar.prefix_active ==> s[b] == Segment::Prefix
        }),
{
}

/// The label of a state says the state, and the number or the reason that belongs to it.
pub proof fn law_labels_say_the_state(code: u32, attempt: u32, error: Seq<char>)
    ensures
        (SessionStatusView::Exited { exit_code: code }).label() == "exited ("@
            + crate::text::decimal(code as nat) + ")"@,
        (SessionStatusView::Restarting { attempt }).label() == "restarting ("@
            + crate::text::decimal(attempt as nat) + ")"@,
        (SessionStatusView::Failed { error }).label() == "failed: "@ + error,
        SessionStatusView::Running.label() == "running"@,
        SessionStatusView::Creating.label() == "creating"@,
{
}

/// Changing one thing that the bar shows leaves the rest.
pub proof fn law_one_thing_changes(
    bar: BarView,
    path: Seq<char>,
    state: AttentionState,
    message: Option<Seq<char>>,
    count: int,
)
    ensures
        with_path(bar, path).pane_path == path,
        with_path(bar, path).attention == bar.attention,
        with_path(bar, path).workspace_name == bar.workspace_name,
        with_attention(bar, state, message).attention == state,
        with_attention(bar, state, message).attention_message == message,
        with_attention(bar, state, message).pane_path == bar.pane_path,
        with_attention(bar, state, message).attention_count == bar.attention_count,
        with_count(bar, count).attention_count == count,
        with_count(bar, count).attention == bar.attention,
        with_count(bar, count).pane_path == bar.pane_path,
{
}

} // verus!
