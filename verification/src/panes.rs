//! Panes, the sessions that run in them, and the tabs that they are laid out in.
use vstd::prelude::*;

use crate::screen::Screen;
use crate::text::clone_opt;

verus! {

/// Identifies a pane of a tab.
#[derive(Debug, Clone, Copy, PartialEq, Eq, Hash, Structural)]
pub struct PaneId(pub u64);

/// Whether a pane asks for the user's attention.
#[derive(Debug, Clone, Copy, PartialEq, Eq, Structural)]
pub enum AttentionState {
    Active,
    NeedsAttention,
    Error,
}

/// The kind of progress that a session reports.
#[derive(Debug, Clone, Copy, PartialEq, Eq, Structural)]
pub enum ProgressState {
    Normal,
    Error,
    Indeterminate,
    Warning,
}

/// The progress that a session reports, in percent where there is a number.
#[derive(Debug, Clone, Copy, PartialEq, Eq, Structural)]
pub struct ProgressInfo {
    pub state: ProgressState,
    pub value: Option<u8>,
}

// ── Sessions ─────────────────────────────────────────────────────────────────

/// The session that runs in a pane.
#[derive(Debug, PartialEq, Eq)]
pub struct PaneSession {
    pub session_id: String,
    /// Workspace, tab and pane name, joined by slashes.
    pub pane_path: String,
    pub title: Option<String>,
    /// Columns and rows.
    pub session_size: Option<(u16, u16)>,
    pub progress: Option<ProgressInfo>,
    /// The host's own name for the pane.
    pub host_pane_id: Option<String>,
    pub attention: AttentionState,
    pub attention_message: Option<String>,
    pub phase: Option<String>,
    pub status_text: Option<String>,
    pub queue_pending: Option<u64>,
    pub health_state: Option<String>,
    pub source: Option<String>,
    pub driver_profile: Option<String>,
    pub cwd: Option<String>,
    pub branch: Option<String>,
}

/// The model of a [`PaneSession`].
#[verifier::ext_equal]
pub struct SessionView {
    pub session_id: Seq<char>,
    pub pane_path: Seq<char>,
    pub title: Option<Seq<char>>,
    pub session_size: Option<(u16, u16)>,
    pub progress: Option<ProgressInfo>,
    pub host_pane_id: Option<Seq<char>>,
    pub attention: AttentionState,
    pub attention_message: Option<Seq<char>>,
    pub phase: Option<Seq<char>>,
    pub status_text: Option<Seq<char>>,
    pub queue_pending: Option<u64>,
    pub health_state: Option<Seq<char>>,
    pub source: Option<Seq<char>>,
    pub driver_profile: Option<Seq<char>>,
    pub cwd: Option<Seq<char>>,
    pub branch: Option<Seq<char>>,
}

impl View for PaneSession {
    type V = SessionView;

    open spec fn view(&self) -> SessionView {
        SessionView {
            session_id: self.session_id@,
            pane_path: self.pane_path@,
            title: crate::text::opt_text(self.title),
            session_size: self.session_size,
            progress: self.progress,
            host_pane_id: crate::text::opt_text(self.host_pane_id),
            attention: self.attention,
            attention_message: crate::text::opt_text(self.attention_message),
            phase: crate::text::opt_text(self.phase),
            status_text: crate::text::opt_text(self.status_text),
            queue_pending: self.queue_pending,
            health_state: crate::text::opt_text(self.health_state),
            source: crate::text::opt_text(self.source),
            driver_profile: crate::text::opt_text(self.driver_profile),
            cwd: crate::text::opt_text(self.cwd),
            branch: crate::text::opt_text(self.branch),
        }
    }
}

impl Clone for PaneSession {
    fn clone(&self) -> (r: PaneSession)
        ensures
            r@ == self@,
    {
        PaneSession {
            session_id: self.session_id.clone(),
            pane_path: self.pane_path.clone(),
            title: clone_opt(&self.title),
            session_size: self.session_size,
            progress: self.progress,
            host_pane_id: clone_opt(&self.host_pane_id),
            attention: self.attention,
            attention_message: clone_opt(&self.attention_message),
            phase: clone_opt(&self.phase),
            status_text: clone_opt(&self.status_text),
            queue_pending: self.queue_pending,
            health_state: clone_opt(&self.health_state),
            source: clone_opt(&self.source),
            driver_profile: clone_opt(&self.driver_profile),
            cwd: clone_opt(&self.cwd),
            branch: clone_opt(&self.branch),
        }
    }
}

/// A session of which no more is known than its name, its pane and its size.
pub open spec fn plain_session(
    session_id: Seq<char>,
    pane_path: Seq<char>,
    session_size: Option<(u16, u16)>,
) -> SessionView {
    SessionView {
        session_id,
        pane_path,
        title: None,
        session_size,
        progress: None,
        host_pane_id: None,
        attention: AttentionState::Active,
        attention_message: None,
        phase: None,
        status_text: None,
        queue_pending: None,
        health_state: None,
        source: None,
        driver_profile: None,
        cwd: None,
        branch: None,
    }
}

impl PaneSession {
    /// A session of which no more is known than its name, its pane and its size.
    pub fn new(session_id: String, pane_path: String, session_size: Option<(u16, u16)>) -> (r:
        PaneSession)
        ensures
            r@ == plain_session(session_id@, pane_path@, session_size),
    {
        PaneSession {
            session_id,
            pane_path,
            title: None,
            session_size,
            progress: None,
            host_pane_id: None,
            attention: AttentionState::Active,
            attention_message: None,
            phase: None,
            status_text: None,
            queue_pending: None,
            health_state: None,
            source: None,
            driver_profile: None,
            cwd: None,
            branch: None,
        }
    }
}

// ── Tables by pane ───────────────────────────────────────────────────────────

/// The index of the first row from `i` on that is for a pane, or the number of rows if there is
/// none.
pub open spec fn row_from<T>(rows: Seq<(PaneId, T)>, p: PaneId, i: int) -> int
    decreases rows.len() - i,
{
    if i >= rows.len() {
        rows.len() as int
    } else if rows[i].0 == p {
        i
    } else {
        row_from(rows, p, i + 1)
    }
}

/// The index of the row for a pane, or the number of rows if there is none.
pub open spec fn row_of<T>(rows: Seq<(PaneId, T)>, p: PaneId) -> int {
    row_from(rows, p, 0)
}

/// What a table holds for a pane.
pub open spec fn row_for<T>(rows: Seq<(PaneId, T)>, p: PaneId) -> Option<T> {
    if row_of(rows, p) < rows.len() {
        Some(rows[row_of(rows, p)].1)
    } else {
        None
    }
}

/// Finds the row for a pane.
pub fn find_row<T>(rows: &Vec<(PaneId, T)>, p: PaneId) -> (r: Option<usize>)
    ensures
        match r {
            Some(i) => i < rows@.len() && i == row_of(rows@, p) && rows@[i as int].0 == p,
            None => row_of(rows@, p) == rows@.len() && forall|j: int|
                0 <= j < rows@.len() ==> (#[trigger] rows@[j]).0 != p,
        },
{
    let mut i: usize = 0;
    while i < rows.len()
        invariant
            i <= rows@.len(),
            row_of(rows@, p) == row_from(rows@, p, i as int),
            forall|j: int| 0 <= j < i ==> (#[trigger] rows@[j]).0 != p,
        decreases rows.len() - i,
    {
        if rows[i].0 == p {
            return Some(i);
        }
        i += 1;
    }
    None
}

/// Tables with the same panes in the same order have the same row for each of them.
pub proof fn lemma_same_rows<T, U>(a: Seq<(PaneId, T)>, b: Seq<(PaneId, U)>, p: PaneId)
    requires
        a.len() == b.len(),
        forall|i: int| 0 <= i < a.len() ==> (#[trigger] a[i]).0 == (#[trigger] b[i]).0,
    ensures
        row_of(a, p) == row_of(b, p),
        0 <= row_of(a, p) <= a.len(),
        row_of(a, p) < a.len() ==> a[row_of(a, p)].0 == p,
{
    lemma_same_rows_from(a, b, p, 0);
}

/// A table for the same panes has as many rows for each.
pub proof fn lemma_same_panes<T, U>(a: Seq<(PaneId, T)>, b: Seq<(PaneId, U)>)
    requires
        one_row_each(a),
        a.len() == b.len(),
        forall|k: int| 0 <= k < b.len() ==> (#[trigger] b[k]).0 == a[k].0,
    ensures
        one_row_each(b),
{
    assert forall|i: int, j: int| 0 <= i < j < b.len() implies (#[trigger] b[i]).0 != (
    #[trigger] b[j]).0 by {
        assert(a[i].0 != a[j].0);
    }
}

proof fn lemma_same_rows_from<T, U>(a: Seq<(PaneId, T)>, b: Seq<(PaneId, U)>, p: PaneId, i: int)
    requires
        0 <= i,
        a.len() == b.len(),
        forall|i: int| 0 <= i < a.len() ==> (#[trigger] a[i]).0 == (#[trigger] b[i]).0,
    ensures
        row_from(a, p, i) == row_from(b, p, i),
        0 <= row_from(a, p, i) <= a.len(),
        row_from(a, p, i) < a.len() ==> a[row_from(a, p, i)].0 == p,
    decreases a.len() - i,
{
    if i < a.len() {
        assert(a[i].0 == b[i].0);
        lemma_same_rows_from(a, b, p, i + 1);
    }
}

/// Whether a pane occurs in a table at most once.
pub open spec fn one_row_each<T>(rows: Seq<(PaneId, T)>) -> bool {
    forall|i: int, j: int| 0 <= i < j < rows.len() ==> (#[trigger] rows[i]).0 != (#[trigger] rows[j]).0
}

/// The models of sessions by pane.
pub open spec fn session_rows(v: Seq<(PaneId, PaneSession)>) -> Seq<(PaneId, SessionView)> {
    v.map_values(|r: (PaneId, PaneSession)| (r.0, r.1@))
}

// ── Tabs ─────────────────────────────────────────────────────────────────────

/// A tab with its panes, their sessions and their screens.
#[derive(Debug)]
pub struct LiveTab {
    /// The pane that has the focus.
    pub focus: PaneId,
    /// The panes, in the order of the layout.
    pub panes: Vec<PaneId>,
    /// The sessions of the panes. A pane has at most one.
    pub pane_sessions: Vec<(PaneId, PaneSession)>,
    /// The screens of the panes. A pane has at most one.
    pub screens: Vec<(PaneId, Screen)>,
}

/// The model of a [`LiveTab`].
#[verifier::ext_equal]
pub struct LiveTabView {
    pub focus: PaneId,
    pub panes: Seq<PaneId>,
    pub pane_sessions: Seq<(PaneId, SessionView)>,
    pub screens: Seq<(PaneId, Screen)>,
}

impl View for LiveTab {
    type V = LiveTabView;

    open spec fn view(&self) -> LiveTabView {
        LiveTabView {
            focus: self.focus,
            panes: self.panes@,
            pane_sessions: session_rows(self.pane_sessions@),
            screens: self.screens@,
        }
    }
}

/// The models of tabs.
pub open spec fn tab_views(tabs: Seq<LiveTab>) -> Seq<LiveTabView> {
    tabs.map_values(|t: LiveTab| t@)
}

impl LiveTabView {
    /// The session of a pane.
    pub open spec fn session(self, p: PaneId) -> Option<SessionView> {
        row_for(self.pane_sessions, p)
    }

    /// The screen of a pane.
    pub open spec fn screen(self, p: PaneId) -> Option<Screen> {
        row_for(self.screens, p)
    }

    /// No pane has more than one session or more than one screen.
    pub open spec fn rows_ok(self) -> bool {
        one_row_each(self.pane_sessions) && one_row_each(self.screens)
    }

    /// Every screen of the tab is well formed, and its scrollback is not too long to be
    /// navigated.
    pub open spec fn screens_ok(self) -> bool {
        forall|i: int|
            0 <= i < self.screens.len() ==> screen_ok((#[trigger] self.screens[i]).1)
    }
}

/// Whether a screen is well formed and its rows and scrollback can be counted in an `i32`.
pub open spec fn screen_ok(s: Screen) -> bool {
    s.wf() && s.scrollback() <= i32::MAX && s.rows <= i32::MAX
}

/// The tab with another session for a pane that has one.
pub open spec fn with_session(tab: LiveTabView, p: PaneId, s: SessionView) -> LiveTabView {
    let i = row_of(tab.pane_sessions, p);
    if i < tab.pane_sessions.len() {
        LiveTabView { pane_sessions: tab.pane_sessions.update(i, (p, s)), ..tab }
    } else {
        tab
    }
}

/// The tab with the focus moved to a pane of it.
pub open spec fn with_focus(tab: LiveTabView, p: PaneId) -> LiveTabView {
    if tab.panes.contains(p) {
        LiveTabView { focus: p, ..tab }
    } else {
        tab
    }
}

impl LiveTab {
    /// The row of the session of a pane.
    pub fn session_row(&self, p: PaneId) -> (r: Option<usize>)
        ensures
            match r {
                Some(i) => i < self.pane_sessions@.len() && i == row_of(self@.pane_sessions, p)
                    && self.pane_sessions@[i as int].0 == p && self@.session(p) == Some(
                    self.pane_sessions@[i as int].1@,
                ),
                None => self@.session(p) is None && row_of(self@.pane_sessions, p)
                    == self@.pane_sessions.len(),
            },
    {
        proof {
            lemma_same_rows(self.pane_sessions@, self@.pane_sessions, p);
        }
        find_row(&self.pane_sessions, p)
    }

    /// The session of a pane.
    pub fn session(&self, p: PaneId) -> (r: Option<&PaneSession>)
        ensures
            match r {
                Some(s) => self@.session(p) == Some(s@),
                None => self@.session(p) is None,
            },
    {
        match self.session_row(p) {
            Some(i) => Some(&self.pane_sessions[i].1),
            None => None,
        }
    }

    /// The screen of a pane.
    pub fn screen(&self, p: PaneId) -> (r: Option<&Screen>)
        ensures
            match r {
                Some(s) => self@.screen(p) == Some(*s),
                None => self@.screen(p) is None,
            },
            self@.screens_ok() ==> (r matches Some(s) ==> screen_ok(*s)),
    {
        match find_row(&self.screens, p) {
            Some(i) => {
                assert(self@.screens_ok() ==> screen_ok(self@.screens[i as int].1));
                Some(&self.screens[i].1)
            },
            None => None,
        }
    }

    /// Move the focus to a pane. Does nothing if the tab has no such pane.
    pub fn set_focus(&mut self, p: PaneId)
        ensures
            final(self)@ == with_focus(old(self)@, p),
    {
        let mut i: usize = 0;
        while i < self.panes.len()
            invariant
                i <= self.panes@.len(),
                *self == *old(self),
                forall|j: int| 0 <= j < i ==> self.panes@[j] != p,
            decreases self.panes.len() - i,
        {
            if self.panes[i] == p {
                assert(self@.panes.contains(p));
                self.focus = p;
                return;
            }
            i += 1;
        }
    }

    /// Set the title of the session of a pane, if it has one.
    pub fn set_title(&mut self, p: PaneId, title: Option<String>)
        ensures
            final(self)@ == match old(self)@.session(p) {
                Some(s) => with_session(old(self)@, p, SessionView { title: crate::text::opt_text(title), ..s }),
                None => old(self)@,
            },
    {
        if let Some(row) = self.session_row(p) {
            self.pane_sessions[row].1.title = title;
            assert(self@.pane_sessions =~= old(self)@.pane_sessions.update(
                row as int,
                (p, self.pane_sessions@[row as int].1@),
            ));
        }
    }

    /// Set the progress of the session of a pane, if it has one.
    pub fn set_progress(&mut self, p: PaneId, progress: Option<ProgressInfo>)
        ensures
            final(self)@ == match old(self)@.session(p) {
                Some(s) => with_session(old(self)@, p, SessionView { progress, ..s }),
                None => old(self)@,
            },
    {
        if let Some(row) = self.session_row(p) {
            self.pane_sessions[row].1.progress = progress;
            assert(self@.pane_sessions =~= old(self)@.pane_sessions.update(
                row as int,
                (p, self.pane_sessions@[row as int].1@),
            ));
        }
    }

    /// Set the state that the host reports of the session of a pane, if it has one.
    pub fn set_health(&mut self, p: PaneId, state: String)
        ensures
            final(self)@ == match old(self)@.session(p) {
                Some(s) => with_session(old(self)@, p, SessionView { health_state: Some(state@), ..s }),
                None => old(self)@,
            },
    {
        if let Some(row) = self.session_row(p) {
            self.pane_sessions[row].1.health_state = Some(state);
            assert(self@.pane_sessions =~= old(self)@.pane_sessions.update(
                row as int,
                (p, self.pane_sessions@[row as int].1@),
            ));
        }
    }

    /// Set the attention of the session of a pane, if it has one.
    pub fn set_attention(&mut self, p: PaneId, state: AttentionState, message: Option<String>)
        ensures
            final(self)@ == match old(self)@.session(p) {
                Some(s) => with_session(old(self)@, p, SessionView { attention: state, attention_message: crate::text::opt_text(message), ..s }),
                None => old(self)@,
            },
    {
        if let Some(row) = self.session_row(p) {
            self.pane_sessions[row].1.attention = state;
            self.pane_sessions[row].1.attention_message = message;
            assert(self@.pane_sessions =~= old(self)@.pane_sessions.update(
                row as int,
                (p, self.pane_sessions@[row as int].1@),
            ));
        }
    }
}

// ── Laws ─────────────────────────────────────────────────────────────────────

/// A pane has what its first row holds, and nothing where no row is for it.
pub proof fn law_first_row_counts<T>(rows: Seq<(PaneId, T)>, p: PaneId, i: int)
    requires
        0 <= i <= rows.len(),
        forall|j: int| 0 <= j < i ==> (#[trigger] rows[j]).0 != p,
        i < rows.len() ==> rows[i].0 == p,
    ensures
        row_for(rows, p) == (if i < rows.len() {
            Some(rows[i].1)
        } else {
            None
        }),
        row_of(rows, p) == i,
{
    lemma_row_from_is(rows, p, 0, i);
}

proof fn lemma_row_from_is<T>(rows: Seq<(PaneId, T)>, p: PaneId, from: int, i: int)
    requires
        0 <= from <= i <= rows.len(),
        forall|j: int| from <= j < i ==> (#[trigger] rows[j]).0 != p,
        i < rows.len() ==> rows[i].0 == p,
    ensures
        row_from(rows, p, from) == i,
    decreases i - from,
{
    if from < i {
        assert(rows[from].0 != p);
        lemma_row_from_is(rows, p, from + 1, i);
    }
}

/// Changing the session of a pane changes that of no other pane, and only a pane with a session has
/// one afterwards.
pub proof fn law_sessions_change_one_at_a_time(tab: LiveTabView, p: PaneId, s: SessionView, q: PaneId)
    requires
        q != p,
    ensures
        tab.session(p) is Some ==> with_session(tab, p, s).session(p) == Some(s),
        tab.session(p) is None ==> with_session(tab, p, s) == tab,
        with_session(tab, p, s).session(q) == tab.session(q),
        with_session(tab, p, s).focus == tab.focus,
        with_session(tab, p, s).panes == tab.panes,
        with_session(tab, p, s).screens == tab.screens,
{
    let rows = tab.pane_sessions;
    let i = row_of(rows, p);
    lemma_row_from_found(rows, p, 0);
    lemma_row_from_found(rows, q, 0);
    if i < rows.len() {
        let after = rows.update(i, (p, s));
        law_first_row_counts(after, p, i);
        law_first_row_counts(after, q, row_of(rows, q));
    }
}

proof fn lemma_row_from_found<T>(rows: Seq<(PaneId, T)>, p: PaneId, from: int)
    requires
        0 <= from <= rows.len(),
    ensures
        from <= row_from(rows, p, from) <= rows.len(),
        row_from(rows, p, from) < rows.len() ==> rows[row_from(rows, p, from)].0 == p,
        forall|j: int| from <= j < row_from(rows, p, from) ==> (#[trigger] rows[j]).0 != p,
    decreases rows.len() - from,
{
    if from < rows.len() && rows[from].0 != p {
        lemma_row_from_found(rows, p, from + 1);
    }
}

/// Only a pane of the tab can get the focus.
pub proof fn law_focus_stays_in_the_tab(tab: LiveTabView, p: PaneId)
    ensures
        tab.panes.contains(p) ==> with_focus(tab, p).focus == p,
        !tab.panes.contains(p) ==> with_focus(tab, p).focus == tab.focus,
        with_focus(tab, p).panes == tab.panes,
        with_focus(tab, p).pane_sessions == tab.pane_sessions,
        with_focus(tab, p).screens == tab.screens,
{
}

} // verus!
