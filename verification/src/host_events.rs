//! What events from the host do to the workbench.
use vstd::prelude::*;

use crate::attention::{
    attention_count, focus_aware_attention_state, focused_pane_attention,
    focused_pane_matches_host_id, notification_center_label,
};
use crate::host_bridge::HostEvent;
use crate::panes::{AttentionState, LiveTab, LiveTabView, PaneId, ProgressInfo, SessionView};
use crate::snapshot::{TabLayout, TabLayoutView};
use crate::status_bar::{SessionStatus, SessionStatusView};
use crate::tab_strip::{StripView, TabStrip};
use crate::tabs::{
    apply_tab_layout, find_pane_for_session, pane_target, sync_tab_progresses,
    tab_index_for_host_name,
};
use crate::text::{ascii_lower_string, chars_of, clone_opt, str_eq, trim};
use crate::workbench::{effect_views, no_effects, BenchView, Effect, EffectView, Workbench};

verus! {

broadcast use vstd::string::group_string_axioms;

// ── Workspace state ──────────────────────────────────────────────────────────

/// Whether a state of the workspace is one that ends it, whatever the case of its letters.
pub open spec fn is_final_state(state: Seq<char>) -> bool {
    let s = crate::text::lower_text(state);
    s == "closing"@ || s == "closed"@ || s == "stopping"@ || s == "stopped"@ || s == "exited"@ || s
        == "terminating"@ || s == "terminated"@
}

/// Whether a state of the workspace closes the window.
pub fn workspace_state_closes_ui(new_state: &str) -> (r: bool)
    ensures
        r == is_final_state(new_state@),
{
    let state = ascii_lower_string(&chars_of(new_state));
    let s = state.as_str();
    str_eq(s, "closing") || str_eq(s, "closed") || str_eq(s, "stopping") || str_eq(s, "stopped")
        || str_eq(s, "exited") || str_eq(s, "terminating") || str_eq(s, "terminated")
}

// ── Sessions ─────────────────────────────────────────────────────────────────

/// The status that the host's name for a session state stands for.
pub open spec fn status_of(new_state: Seq<char>, exit_code: Option<i32>) -> SessionStatusView {
    if new_state == "running"@ {
        SessionStatusView::Running
    } else if new_state == "exited"@ {
        SessionStatusView::Exited {
            exit_code: match exit_code {
                Some(code) => code as u32,
                None => 0,
            },
        }
    } else if new_state == "failed"@ {
        SessionStatusView::Failed { error: "session failed"@ }
    } else if new_state == "restarting"@ {
        SessionStatusView::Restarting { attempt: 1 }
    } else {
        SessionStatusView::Creating
    }
}

/// The status that the host's name for a session state stands for.
pub fn session_status_for(new_state: &str, exit_code: Option<i32>) -> (r: SessionStatus)
    ensures
        r@ == status_of(new_state@, exit_code),
{
    if str_eq(new_state, "running") {
        SessionStatus::Running
    } else if str_eq(new_state, "exited") {
        let exit_code: u32 = match exit_code {
            Some(code) => code as u32,
            None => 0,
        };
        SessionStatus::Exited { exit_code }
    } else if str_eq(new_state, "failed") {
        SessionStatus::Failed { error: "session failed".to_owned() }
    } else if str_eq(new_state, "restarting") {
        SessionStatus::Restarting { attempt: 1 }
    } else {
        SessionStatus::Creating
    }
}

/// The tabs with the session at a place changed.
pub open spec fn with_session_at(
    tabs: Seq<LiveTabView>,
    place: (int, PaneId),
    s: SessionView,
) -> Seq<LiveTabView> {
    tabs.update(place.0, crate::panes::with_session(tabs[place.0], place.1, s))
}

/// The session at a place.
pub open spec fn session_at(tabs: Seq<LiveTabView>, place: (int, PaneId)) -> Option<SessionView> {
    tabs[place.0].session(place.1)
}

/// Whether the focused pane of the active tab runs the given session.
pub open spec fn is_focused_session(w: BenchView, id: Seq<char>) -> bool {
    match w.active_tab() {
        Some(tab) => match crate::attention::focused_session(tab) {
            Some(s) => s.session_id == id,
            None => false,
        },
        None => false,
    }
}

/// A session changed its state.
pub open spec fn state_changed(
    w: BenchView,
    id: Seq<char>,
    new_state: Seq<char>,
    exit_code: Option<i32>,
) -> BenchView {
    let tabs = match crate::tabs::place_of(w.tabs, id) {
        Some(place) => match session_at(w.tabs, place) {
            Some(s) => with_session_at(
                w.tabs,
                place,
                SessionView { health_state: Some(new_state), ..s },
            ),
            None => w.tabs,
        },
        None => w.tabs,
    };
    let w1 = BenchView { tabs, ..w };
    if is_focused_session(w1, id) {
        BenchView {
            bar: crate::status_bar::BarView {
                session_status: status_of(new_state, exit_code),
                ..w.bar
            },
            ..w1
        }
    } else {
        w1
    }
}

/// A session changed its title. A blank title is none.
pub open spec fn title_changed(w: BenchView, id: Seq<char>, title: Seq<char>) -> BenchView {
    let text = crate::text::trimmed(title);
    match crate::tabs::place_of(w.tabs, id) {
        Some(place) => match session_at(w.tabs, place) {
            Some(s) => BenchView {
                tabs: with_session_at(
                    w.tabs,
                    place,
                    SessionView {
                        title: if text.len() > 0 {
                            Some(text)
                        } else {
                            None
                        },
                        ..s
                    },
                ),
                ..w
            },
            None => w,
        },
        None => w,
    }
}

/// A session changed its progress.
pub open spec fn progress_changed(
    w: BenchView,
    id: Seq<char>,
    progress: Option<ProgressInfo>,
) -> BenchView {
    match crate::tabs::place_of(w.tabs, id) {
        Some(place) => {
            let tabs = match session_at(w.tabs, place) {
                Some(s) => with_session_at(w.tabs, place, SessionView { progress, ..s }),
                None => w.tabs,
            };
            BenchView {
                tabs,
                strip: crate::tabs::strip_progress(w.strip, tabs, tabs.len() as int),
                ..w
            }
        },
        None => w,
    }
}

/// Setting progress on a strip keeps it sound.
pub proof fn lemma_strip_progress_sound(s: StripView, tabs: Seq<LiveTabView>, n: int)
    requires
        crate::tab_strip::sound(s),
    ensures
        crate::tab_strip::sound(crate::tabs::strip_progress(s, tabs, n)),
        crate::tabs::strip_progress(s, tabs, n).tabs.len() == s.tabs.len(),
        crate::tabs::strip_progress(s, tabs, n).next_id == s.next_id,
        crate::tabs::strip_progress(s, tabs, n).active == s.active,
    decreases n,
{
    if n > 0 {
        lemma_strip_progress_sound(s, tabs, n - 1);
        let before = crate::tabs::strip_progress(s, tabs, n - 1);
        let after = crate::tabs::strip_progress(s, tabs, n);
        assert forall|i: int| 0 <= i < after.tabs.len() implies (#[trigger] after.tabs[i]).id
            == before.tabs[i].id by {}
        assert forall|i: int| 0 <= i < after.tabs.len() implies (#[trigger] after.tabs[i]).id
            < after.next_id by {
            assert(before.tabs[i].id < before.next_id);
        }
        assert forall|i: int, j: int| 0 <= i < j < after.tabs.len() implies (
        #[trigger] after.tabs[i]).id != (#[trigger] after.tabs[j]).id by {
            assert(before.tabs[i].id != before.tabs[j].id);
        }
    }
}

proof fn lemma_session_change_ok(tabs: Seq<LiveTabView>, place: (int, PaneId), s: SessionView)
    requires
        crate::workbench::tabs_ok(tabs),
        0 <= place.0 < tabs.len(),
    ensures
        crate::workbench::tabs_ok(with_session_at(tabs, place, s)),
{
    let tab = tabs[place.0];
    crate::panes::lemma_same_rows(tab.pane_sessions, tab.pane_sessions, place.1);
    crate::workbench::lemma_update_ok(
        tabs,
        place.0,
        crate::panes::with_session(tab, place.1, s),
    );
}

impl Workbench {
    /// A session changed its state.
    pub fn on_session_state(&mut self, session_id: &str, new_state: String, exit_code: Option<i32>)
        requires
            old(self)@.wf(),
        ensures
            final(self)@ == state_changed(old(self)@, session_id@, new_state@, exit_code),
            final(self)@.wf(),
    {
        let status = session_status_for(new_state.as_str(), exit_code);
        if let Some((tab_index, pane)) = find_pane_for_session(&self.tabs, session_id) {
            let ghost tabs = self@.tabs;
            let ghost place = (tab_index as int, pane);
            let ghost state = new_state@;
            assert(tabs[tab_index as int] == self.tabs@[tab_index as int]@);
            self.tabs[tab_index].set_health(pane, new_state);
            proof {
                if let Some(s) = session_at(tabs, place) {
                    let s1 = SessionView { health_state: Some(state), ..s };
                    lemma_session_change_ok(tabs, place, s1);
                    assert(self@.tabs =~= with_session_at(tabs, place, s1));
                } else {
                    assert(self@.tabs =~= tabs);
                }
            }
        }
        if self.active_tab_index < self.tabs.len() {
            let tab = &self.tabs[self.active_tab_index];
            assert(tab@ == self@.tabs[self.active_tab_index as int]);
            if let Some(s) = tab.session(tab.focus) {
                if str_eq(s.session_id.as_str(), session_id) {
                    self.status_bar.set_session_status(status);
                }
            }
        }
    }

    /// A session changed its title.
    pub fn on_title(&mut self, session_id: &str, title: &str)
        requires
            old(self)@.wf(),
        ensures
            final(self)@ == title_changed(old(self)@, session_id@, title@),
            final(self)@.wf(),
    {
        let text = trim(title);
        let ghost t = text@;
        let value = if chars_of(text.as_str()).len() > 0 {
            Some(text)
        } else {
            None
        };
        if let Some((tab_index, pane)) = find_pane_for_session(&self.tabs, session_id) {
            let ghost tabs = self@.tabs;
            let ghost place = (tab_index as int, pane);
            let ghost v = crate::text::opt_text(value);
            assert(tabs[tab_index as int] == self.tabs@[tab_index as int]@);
            self.tabs[tab_index].set_title(pane, value);
            proof {
                if let Some(s) = session_at(tabs, place) {
                    let s1 = SessionView { title: v, ..s };
                    lemma_session_change_ok(tabs, place, s1);
                    assert(self@.tabs =~= with_session_at(tabs, place, s1));
                } else {
                    assert(self@.tabs =~= tabs);
                }
            }
        }
    }

    /// A session changed its progress.
    pub fn on_progress(&mut self, session_id: &str, progress: Option<ProgressInfo>)
        requires
            old(self)@.wf(),
        ensures
            final(self)@ == progress_changed(old(self)@, session_id@, progress),
            final(self)@.wf(),
    {
        if let Some((tab_index, pane)) = find_pane_for_session(&self.tabs, session_id) {
            let ghost tabs = self@.tabs;
            let ghost place = (tab_index as int, pane);
            assert(tabs[tab_index as int] == self.tabs@[tab_index as int]@);
            self.tabs[tab_index].set_progress(pane, progress);
            proof {
                if let Some(s) = session_at(tabs, place) {
                    let s1 = SessionView { progress, ..s };
                    lemma_session_change_ok(tabs, place, s1);
                    assert(self@.tabs =~= with_session_at(tabs, place, s1));
                } else {
                    assert(self@.tabs =~= tabs);
                }
                lemma_strip_progress_sound(self@.strip, self@.tabs, self@.tabs.len() as int);
            }
            sync_tab_progresses(&mut self.tab_strip, &self.tabs);
        }
    }
}

// ── Attention ────────────────────────────────────────────────────────────────

/// The tab with the attention of the pane that the host calls by a name.
pub open spec fn tab_attention(
    tab: LiveTabView,
    host_pane_id: Seq<char>,
    state: AttentionState,
    message: Option<Seq<char>>,
) -> LiveTabView {
    LiveTabView {
        pane_sessions: tab.pane_sessions.map_values(
            |r: (PaneId, SessionView)| attention_row(r, host_pane_id, state, message),
        ),
        ..tab
    }
}

/// A row of the sessions with the attention of the pane that the host calls by a name.
pub open spec fn attention_row(
    r: (PaneId, SessionView),
    host_pane_id: Seq<char>,
    state: AttentionState,
    message: Option<Seq<char>>,
) -> (PaneId, SessionView) {
    if r.1.host_pane_id == Some(host_pane_id) {
        (r.0, SessionView { attention: state, attention_message: message, ..r.1 })
    } else {
        r
    }
}

/// The tabs with the attention of the pane that the host calls by a name.
pub open spec fn tabs_attention(
    tabs: Seq<LiveTabView>,
    host_pane_id: Seq<char>,
    state: AttentionState,
    message: Option<Seq<char>>,
) -> Seq<LiveTabView> {
    tabs.map_values(|t: LiveTabView| tab_attention(t, host_pane_id, state, message))
}

/// Whether the focused pane of the active tab is the one that the host calls by a name.
pub open spec fn is_focused_host_pane(w: BenchView, host_pane_id: Seq<char>) -> bool {
    match w.active_tab() {
        Some(tab) => crate::attention::focus_has_host_id(tab, host_pane_id),
        None => false,
    }
}

/// A pane, or the workspace as a whole, changed its attention.
pub open spec fn attention_changed(
    w: BenchView,
    pane_id: Option<Seq<char>>,
    state: AttentionState,
    message: Option<Seq<char>>,
) -> BenchView {
    let w1 = match pane_id {
        Some(id) => {
            let focused = is_focused_host_pane(w, id);
            let state = crate::attention::effective_attention(state, focused);
            BenchView {
                tabs: tabs_attention(w.tabs, id, state, message),
                bar: if focused {
                    crate::status_bar::with_attention(w.bar, state, message)
                } else {
                    w.bar
                },
                ..w
            }
        },
        None => BenchView {
            bar: crate::status_bar::with_attention(w.bar, state, message),
            ..w
        },
    };
    let bar = crate::status_bar::with_count(
        w1.bar,
        crate::attention::unread_total(w1.tabs) as int,
    );
    BenchView {
        bar: if w.notification_center_open {
            crate::status_bar::with_path(bar, crate::attention::notification_text(w1.tabs))
        } else {
            bar
        },
        ..w1
    }
}

/// Sets the attention of the pane of a tab that the host calls by a name.
fn set_tab_attention(
    tab: &mut LiveTab,
    host_pane_id: &str,
    state: AttentionState,
    message: &Option<String>,
)
    ensures
        final(tab)@ == tab_attention(
            old(tab)@,
            host_pane_id@,
            state,
            crate::text::opt_text(*message),
        ),
{
    let ghost rows = tab@.pane_sessions;
    let ghost m = crate::text::opt_text(*message);
    let mut i: usize = 0;
    while i < tab.pane_sessions.len()
        invariant
            i <= tab.pane_sessions@.len(),
            rows == old(tab)@.pane_sessions,
            m == crate::text::opt_text(*message),
            tab@.pane_sessions.len() == rows.len(),
            tab.focus == old(tab).focus,
            tab.panes == old(tab).panes,
            tab.screens == old(tab).screens,
            forall|j: int|
                0 <= j < i ==> #[trigger] tab@.pane_sessions[j] == attention_row(
                    rows[j],
                    host_pane_id@,
                    state,
                    m,
                ),
            forall|j: int|
                i <= j < rows.len() ==> #[trigger] tab@.pane_sessions[j] == rows[j],
        decreases tab.pane_sessions.len() - i,
    {
        let matched = match &tab.pane_sessions[i].1.host_pane_id {
            Some(id) => str_eq(id.as_str(), host_pane_id),
            None => false,
        };
        assert(tab@.pane_sessions[i as int] == rows[i as int]);
        if matched {
            let ghost before = tab.pane_sessions@;
            tab.pane_sessions[i].1.attention = state;
            tab.pane_sessions[i].1.attention_message = clone_opt(message);
            assert forall|j: int| 0 <= j < rows.len() && j != i implies #[trigger] tab@.pane_sessions[j]
                == crate::panes::session_rows(before)[j] by {
                assert(tab.pane_sessions@[j] == before[j]);
            }
        }
        i += 1;
    }
    assert(tab@.pane_sessions =~= tab_attention(old(tab)@, host_pane_id@, state, m).pane_sessions);
}

proof fn lemma_attention_ok(
    tabs: Seq<LiveTabView>,
    host_pane_id: Seq<char>,
    state: AttentionState,
    message: Option<Seq<char>>,
)
    requires
        crate::workbench::tabs_ok(tabs),
    ensures
        crate::workbench::tabs_ok(tabs_attention(tabs, host_pane_id, state, message)),
{
    let new = tabs_attention(tabs, host_pane_id, state, message);
    lemma_attention_totals(tabs, host_pane_id, state, message);
    assert forall|i: int| 0 <= i < new.len() implies (#[trigger] new[i]).screens_ok() by {
        assert(tabs[i].screens_ok());
    }
    assert forall|i: int| 0 <= i < new.len() implies (#[trigger] new[i]).rows_ok() by {
        assert(tabs[i].rows_ok());
        crate::panes::lemma_same_panes(tabs[i].pane_sessions, new[i].pane_sessions);
    }
}

proof fn lemma_attention_totals(
    tabs: Seq<LiveTabView>,
    host_pane_id: Seq<char>,
    state: AttentionState,
    message: Option<Seq<char>>,
)
    ensures
        crate::attention::session_total(tabs_attention(tabs, host_pane_id, state, message))
            == crate::attention::session_total(tabs),
    decreases tabs.len(),
{
    let new = tabs_attention(tabs, host_pane_id, state, message);
    if tabs.len() > 0 {
        lemma_attention_totals(tabs.drop_last(), host_pane_id, state, message);
        assert(new.drop_last() =~= tabs_attention(
            tabs.drop_last(),
            host_pane_id,
            state,
            message,
        ));
    }
}

impl Workbench {
    /// A pane, or the workspace as a whole, changed its attention.
    pub fn on_attention(
        &mut self,
        pane_id: &Option<String>,
        state: AttentionState,
        message: Option<String>,
    )
        requires
            old(self)@.wf(),
        ensures
            final(self)@ == attention_changed(
                old(self)@,
                crate::text::opt_text(*pane_id),
                state,
                crate::text::opt_text(message),
            ),
            final(self)@.wf(),
    {
        match pane_id {
            Some(id) => {
                let focused = if self.active_tab_index < self.tabs.len() {
                    assert(self.tabs@[self.active_tab_index as int]@
                        == self@.tabs[self.active_tab_index as int]);
                    focused_pane_matches_host_id(&self.tabs[self.active_tab_index], id.as_str())
                } else {
                    false
                };
                let effective = focus_aware_attention_state(state, focused);
                self.set_attention_everywhere(id.as_str(), effective, &message);
                if focused {
                    self.status_bar.set_attention(effective, message);
                }
            },
            None => {
                self.status_bar.set_attention(state, message);
            },
        }
        self.status_bar.set_attention_count(attention_count(&self.tabs));
        if self.notification_center_open {
            let text = notification_center_label(&self.tabs);
            self.status_bar.set_pane_path(text);
        }
    }

    fn set_attention_everywhere(
        &mut self,
        host_pane_id: &str,
        state: AttentionState,
        message: &Option<String>,
    )
        requires
            old(self)@.wf(),
        ensures
            final(self)@ == (BenchView {
                tabs: tabs_attention(
                    old(self)@.tabs,
                    host_pane_id@,
                    state,
                    crate::text::opt_text(*message),
                ),
                ..old(self)@
            }),
            final(self)@.wf(),
    {
        let ghost tabs = self@.tabs;
        let ghost m = crate::text::opt_text(*message);
        let mut i: usize = 0;
        while i < self.tabs.len()
            invariant
                i <= self.tabs@.len(),
                tabs == old(self)@.tabs,
                m == crate::text::opt_text(*message),
                self@ == (BenchView { tabs: self@.tabs, ..old(self)@ }),
                self@.tabs.len() == tabs.len(),
                forall|j: int|
                    0 <= j < i ==> #[trigger] self@.tabs[j] == tab_attention(
                        tabs[j],
                        host_pane_id@,
                        state,
                        m,
                    ),
                forall|j: int| i <= j < tabs.len() ==> #[trigger] self@.tabs[j] == tabs[j],
            decreases self.tabs.len() - i,
        {
            assert(self@.tabs[i as int] == tabs[i as int]);
            let ghost before = self.tabs@;
            set_tab_attention(&mut self.tabs[i], host_pane_id, state, message);
            assert forall|j: int| 0 <= j < tabs.len() && j != i implies #[trigger] self@.tabs[j]
                == crate::panes::tab_views(before)[j] by {
                assert(self.tabs@[j] == before[j]);
            }
            i += 1;
        }
        proof {
            assert(self@.tabs =~= tabs_attention(tabs, host_pane_id@, state, m));
            lemma_attention_ok(tabs, host_pane_id@, state, m);
        }
    }
}

// ── Layout ───────────────────────────────────────────────────────────────────

/// The status bar with the focused pane of the active tab: its path or number, and its attention.
pub open spec fn active_shown(w: BenchView) -> BenchView {
    match w.active_tab() {
        Some(tab) => {
            let (state, message) = crate::attention::focused_attention(tab);
            BenchView {
                bar: crate::status_bar::with_attention(
                    crate::status_bar::with_path(
                        w.bar,
                        crate::tabs::host_target(tab, tab.focus),
                    ),
                    state,
                    message,
                ),
                ..w
            }
        },
        None => w,
    }
}

/// Requests for screens.
pub open spec fn screen_requests(panes: Seq<PaneId>) -> Seq<EffectView> {
    panes.map_values(|p: PaneId| EffectView::CreateScreen(p))
}

/// A tab got another layout.
pub open spec fn layout_changed(
    w: BenchView,
    tab_name: Seq<char>,
    layout: Option<TabLayoutView>,
) -> (BenchView, Seq<EffectView>, bool) {
    match (crate::tabs::host_tab(w.strip, tab_name, w.active), layout) {
        (Some(target), Some(layout)) if target < w.tabs.len() => {
            let tab = w.tabs[target];
            let w1 = BenchView {
                tabs: w.tabs.update(target, crate::tabs::with_layout(tab, layout)),
                ..w
            };
            let w2 = if target == w.active {
                active_shown(w1)
            } else {
                w1
            };
            (
                BenchView {
                    strip: crate::tabs::strip_progress(w2.strip, w2.tabs, w2.tabs.len() as int),
                    ..w2
                },
                screen_requests(
                    crate::tabs::screenless(tab, layout, layout.panes.len() as int),
                ) + (if target == w.active {
                    seq![EffectView::RefreshLayout, EffectView::SendPaneSizes]
                } else {
                    Seq::empty()
                }) + (if w.connected {
                    seq![EffectView::RefreshWorkspace]
                } else {
                    Seq::empty()
                }),
                true,
            )
        },
        _ => (w, Seq::empty(), false),
    }
}

proof fn lemma_kept_len<T>(rows: Seq<(PaneId, T)>, a: Seq<PaneId>, b: Seq<PaneId>)
    ensures
        crate::tabs::kept_rows(rows, a, b).len() <= rows.len(),
    decreases rows.len(),
{
    if rows.len() > 0 {
        lemma_kept_len(rows.drop_last(), a, b);
    }
}

proof fn lemma_fewer_sessions(tabs: Seq<LiveTabView>, i: int, tab: LiveTabView)
    requires
        0 <= i < tabs.len(),
        tab.pane_sessions.len() <= tabs[i].pane_sessions.len(),
    ensures
        crate::attention::session_total(tabs.update(i, tab)) <= crate::attention::session_total(
            tabs,
        ),
    decreases tabs.len(),
{
    let new = tabs.update(i, tab);
    if i == tabs.len() - 1 {
        assert(new.drop_last() =~= tabs.drop_last());
    } else {
        assert(new.drop_last() =~= tabs.drop_last().update(i, tab));
        lemma_fewer_sessions(tabs.drop_last(), i, tab);
    }
}

proof fn lemma_kept_distinct<T>(
    rows: Seq<(PaneId, T)>,
    old_panes: Seq<PaneId>,
    new_panes: Seq<PaneId>,
)
    requires
        crate::panes::one_row_each(rows),
    ensures
        crate::panes::one_row_each(crate::tabs::kept_rows(rows, old_panes, new_panes)),
    decreases rows.len(),
{
    if rows.len() > 0 {
        let kept = crate::tabs::kept_rows(rows, old_panes, new_panes);
        let rest = crate::tabs::kept_rows(rows.drop_last(), old_panes, new_panes);
        let last = rows.last();
        assert(crate::panes::one_row_each(rows.drop_last()));
        lemma_kept_distinct(rows.drop_last(), old_panes, new_panes);
        assert forall|i: int, j: int| 0 <= i < j < kept.len() implies (#[trigger] kept[i]).0 != (
        #[trigger] kept[j]).0 by {
            if j < rest.len() {
                assert(rest[i].0 != rest[j].0);
            } else {
                crate::tabs::law_gone_panes_have_no_rows(
                    rows.drop_last(),
                    old_panes,
                    new_panes,
                    i,
                );
                let k = choose|k: int|
                    0 <= k < rows.drop_last().len() && rows.drop_last()[k] == rest[i];
                assert(rows[k].0 != rows[rows.len() - 1].0);
            }
        }
    }
}

proof fn lemma_layout_ok(tabs: Seq<LiveTabView>, i: int, layout: TabLayoutView)
    requires
        crate::workbench::tabs_ok(tabs),
        0 <= i < tabs.len(),
    ensures
        crate::workbench::tabs_ok(tabs.update(i, crate::tabs::with_layout(tabs[i], layout))),
{
    let tab = tabs[i];
    let panes = crate::tabs::layout_panes(layout);
    let new_tab = crate::tabs::with_layout(tab, layout);
    let new = tabs.update(i, new_tab);
    lemma_kept_len(tab.pane_sessions, tab.panes, panes);
    lemma_fewer_sessions(tabs, i, new_tab);
    assert(tabs[i].screens_ok());
    assert forall|k: int| 0 <= k < new_tab.screens.len() implies crate::panes::screen_ok(
        (#[trigger] new_tab.screens[k]).1,
    ) by {
        crate::tabs::law_gone_panes_have_no_rows(tab.screens, tab.panes, panes, k);
        let j = choose|j: int| 0 <= j < tab.screens.len() && tab.screens[j] == new_tab.screens[k];
        assert(crate::panes::screen_ok(tab.screens[j].1));
    }
    assert forall|k: int| 0 <= k < new.len() implies (#[trigger] new[k]).screens_ok() by {
        assert(tabs[k].screens_ok());
    }
    assert(tabs[i].rows_ok());
    lemma_kept_distinct(tab.pane_sessions, tab.panes, panes);
    lemma_kept_distinct(tab.screens, tab.panes, panes);
    assert forall|k: int| 0 <= k < new.len() implies (#[trigger] new[k]).rows_ok() by {
        assert(tabs[k].rows_ok());
    }
}

impl Workbench {
    /// Show the focused pane of the active tab in the status bar.
    pub fn show_active_tab(&mut self)
        ensures
            final(self)@ == active_shown(old(self)@),
            old(self)@.wf() ==> final(self)@.wf(),
    {
        if self.active_tab_index < self.tabs.len() {
            let tab = &self.tabs[self.active_tab_index];
            assert(tab@ == self@.tabs[self.active_tab_index as int]);
            let path = pane_target(tab, tab.focus);
            let (state, message) = focused_pane_attention(tab);
            self.status_bar.set_pane_path(path);
            self.status_bar.set_attention(state, message);
        }
    }

    /// A tab got another layout, if that could be read. Says also whether the window is to be
    /// painted.
    pub fn on_layout(&mut self, tab_name: &str, layout: &Option<TabLayout>) -> (r: (
        Vec<Effect>,
        bool,
    ))
        requires
            old(self)@.wf(),
        ensures
            (final(self)@, effect_views(r.0@), r.1) == layout_changed(
                old(self)@,
                tab_name@,
                match *layout {
                    Some(l) => Some(l@),
                    None => None,
                },
            ),
            final(self)@.wf(),
    {
        let target: usize = match tab_index_for_host_name(
            &self.tab_strip,
            tab_name,
            self.active_tab_index,
        ) {
            Some(i) => i,
            None => {
                return (no_effects(), false);
            },
        };
        let layout = match layout {
            Some(l) => l,
            None => {
                return (no_effects(), false);
            },
        };
        if target >= self.tabs.len() {
            return (no_effects(), false);
        }
        let ghost tabs = self@.tabs;
        assert(tabs[target as int] == self.tabs@[target as int]@);
        let fresh = apply_tab_layout(&mut self.tabs[target], layout);
        proof {
            assert(self@.tabs =~= tabs.update(
                target as int,
                crate::tabs::with_layout(tabs[target as int], layout@),
            ));
            lemma_layout_ok(tabs, target as int, layout@);
        }
        let mut effects = no_effects();
        let mut k: usize = 0;
        while k < fresh.len()
            invariant
                k <= fresh@.len(),
                effect_views(effects@) == screen_requests(fresh@).take(k as int),
            decreases fresh.len() - k,
        {
            let ghost before = effect_views(effects@);
            effects.push(Effect::CreateScreen(fresh[k]));
            assert(effect_views(effects@) =~= before.push(
                EffectView::CreateScreen(fresh@[k as int]),
            ));
            k += 1;
            assert(effect_views(effects@) =~= screen_requests(fresh@).take(k as int));
        }
        let ghost requests = screen_requests(fresh@);
        assert(requests.take(k as int) =~= requests);
        let is_active = target == self.active_tab_index;
        if is_active {
            self.show_active_tab();
            effects.push(Effect::RefreshLayout);
            effects.push(Effect::SendPaneSizes);
        }
        assert(effect_views(effects@) =~= requests + (if is_active {
            seq![EffectView::RefreshLayout, EffectView::SendPaneSizes]
        } else {
            Seq::empty()
        }));
        let ghost sofar = effect_views(effects@);
        proof {
            lemma_strip_progress_sound(self@.strip, self@.tabs, self@.tabs.len() as int);
        }
        sync_tab_progresses(&mut self.tab_strip, &self.tabs);
        if self.connected {
            effects.push(Effect::RefreshWorkspace);
        }
        assert(effect_views(effects@) =~= sofar + (if self.connected {
            seq![EffectView::RefreshWorkspace]
        } else {
            Seq::empty()
        }));
        (effects, true)
    }
}

// ── Attaching ────────────────────────────────────────────────────────────────

/// A strip with tabs of the given names.
pub open spec fn strip_of(names: Seq<Seq<char>>, s: StripView, n: int) -> StripView
    decreases n,
{
    if n <= 0 {
        s
    } else {
        crate::tab_strip::with_tab(strip_of(names, s, n - 1), names[n - 1])
    }
}

/// The strip of a workspace before its tabs are there.
pub open spec fn empty_strip(workspace_name: Seq<char>, maximized: bool) -> StripView {
    StripView {
        tabs: Seq::empty(),
        active: 0,
        next_id: 1,
        workspace_name,
        window_maximized: maximized,
        hover: crate::tab_strip::no_hover(),
        drag: None,
        scroll: None,
    }
}

/// The active tab of an attached workspace: the named one, or else the last.
pub open spec fn attached_active(named: int, count: int) -> int {
    if count == 0 {
        0
    } else if named < count {
        named
    } else {
        count - 1
    }
}

/// The workspace was attached.
pub open spec fn attached(
    w: BenchView,
    workspace_name: Seq<char>,
    names: Seq<Seq<char>>,
    named_active: int,
    tabs: Seq<LiveTabView>,
    maximized: bool,
) -> BenchView {
    let active = attached_active(named_active, tabs.len() as int);
    let strip = crate::tab_strip::with_active(
        strip_of(names, empty_strip(workspace_name, maximized), names.len() as int),
        active,
    );
    active_shown(
        BenchView {
            tabs,
            active,
            bar: crate::status_bar::BarView {
                workspace_name,
                session_status: SessionStatusView::Running,
                attention_count: crate::attention::unread_total(tabs) as int,
                ..w.bar
            },
            strip: crate::tabs::strip_progress(strip, tabs, tabs.len() as int),
            ..w
        },
    )
}

proof fn lemma_strip_of(names: Seq<Seq<char>>, s: StripView, n: int)
    requires
        crate::tab_strip::sound(s),
        0 <= s.next_id,
        s.next_id + n <= u64::MAX,
        0 <= n,
    ensures
        crate::tab_strip::sound(strip_of(names, s, n)),
        strip_of(names, s, n).next_id == s.next_id + n,
        strip_of(names, s, n).tabs.len() == s.tabs.len() + n,
        strip_of(names, s, n).active == s.active,
    decreases n,
{
    if n > 0 {
        lemma_strip_of(names, s, n - 1);
        crate::tab_strip::law_adding_keeps_sound(strip_of(names, s, n - 1), names[n - 1]);
    }
}

impl Workbench {
    /// The workspace was attached: show its tabs.
    pub fn attach(
        &mut self,
        workspace_name: String,
        tab_names: Vec<String>,
        active_tab_index: usize,
        tabs: Vec<LiveTab>,
        maximized: bool,
    ) -> (r: Vec<Effect>)
        requires
            old(self)@.wf(),
            crate::workbench::tabs_ok(crate::panes::tab_views(tabs@)),
            tab_names@.len() < usize::MAX,
        ensures
            final(self)@ == attached(
                old(self)@,
                workspace_name@,
                crate::text::texts(tab_names@),
                active_tab_index as int,
                crate::panes::tab_views(tabs@),
                maximized,
            ),
            effect_views(r@) == seq![
                EffectView::ShowTitleOf(workspace_name@),
                EffectView::RefreshLayout,
                EffectView::SendPaneSizes,
            ],
            final(self)@.wf(),
    {
        let ghost names = crate::text::texts(tab_names@);
        let ghost empty = empty_strip(workspace_name@, maximized);
        self.active_tab_index = if tabs.len() == 0 {
            0
        } else if active_tab_index < tabs.len() {
            active_tab_index
        } else {
            tabs.len() - 1
        };
        self.tabs = tabs;
        self.status_bar.set_workspace_name(workspace_name.clone());
        self.status_bar.set_session_status(SessionStatus::Running);
        self.status_bar.set_attention_count(attention_count(&self.tabs));
        let mut strip = TabStrip::new();
        strip.set_workspace_name(workspace_name.clone());
        strip.set_window_maximized(maximized);
        assert(strip@ =~= empty);
        let n: usize = tab_names.len();
        let mut i: usize = 0;
        while i < n
            invariant
                i <= n,
                n == tab_names@.len(),
                names == crate::text::texts(tab_names@),
                strip@ == strip_of(names, empty, i as int),
                strip@.next_id == i + 1,
                n < usize::MAX,
            decreases n - i,
        {
            assert(names[i as int] == tab_names@[i as int]@);
            let _ = strip.add_tab(tab_names[i].clone());
            i += 1;
        }
        strip.set_active(self.active_tab_index);
        proof {
            lemma_strip_of(names, empty, n as int);
            lemma_strip_progress_sound(strip@, self@.tabs, self@.tabs.len() as int);
        }
        self.tab_strip = strip;
        sync_tab_progresses(&mut self.tab_strip, &self.tabs);
        self.show_active_tab();
        let mut effects: Vec<Effect> = Vec::new();
        effects.push(Effect::ShowTitleOf(workspace_name));
        effects.push(Effect::RefreshLayout);
        effects.push(Effect::SendPaneSizes);
        assert(effect_views(effects@) =~= seq![
            EffectView::ShowTitleOf(workspace_name@),
            EffectView::RefreshLayout,
            EffectView::SendPaneSizes,
        ]);
        effects
    }
}

// ── Events ───────────────────────────────────────────────────────────────────

/// What an event from the host led to.
#[derive(Debug)]
pub struct HostOutcome {
    pub effects: Vec<Effect>,
    /// Whether the window is to be painted at once.
    pub repaint: bool,
    /// Whether the window is to be closed.
    pub close: bool,
}

/// Whether a change of a workspace's state closes the window that shows the `shown` workspace.
pub open spec fn closes(shown: Option<Seq<char>>, workspace: Seq<char>, new_state: Seq<char>) -> bool {
    (shown is None || shown == Some(workspace)) && is_final_state(new_state)
}

/// What an event from the host leads to: the workbench, what else there is to do, whether the
/// window is to be painted, and whether it is to be closed. `shown` is the workspace that the
/// window shows, and `layout` the layout in the event, if there is one that could be read.
///
/// An attach reply and session output are not for this function: they carry what only the screens
/// can take in.
pub open spec fn event_handled(
    w: BenchView,
    event: HostEvent,
    shown: Option<Seq<char>>,
    layout: Option<TabLayoutView>,
) -> (BenchView, Seq<EffectView>, bool, bool) {
    let none = Seq::<EffectView>::empty();
    match event {
        HostEvent::Connected { .. } => (BenchView { connected: true, ..w }, none, true, false),
        HostEvent::SessionOutput { .. } => (w, none, false, false),
        HostEvent::SessionStateChanged { session_id, new_state, exit_code } => (
            state_changed(w, session_id@, new_state@, exit_code),
            none,
            true,
            false,
        ),
        HostEvent::TitleChanged { session_id, title } => (
            title_changed(w, session_id@, title@),
            seq![EffectView::RefreshTitle],
            true,
            false,
        ),
        HostEvent::ProgressChanged { session_id, progress } => (
            progress_changed(w, session_id@, progress),
            none,
            true,
            false,
        ),
        HostEvent::AttentionChanged { pane_id, state, message } => (
            attention_changed(
                w,
                crate::text::opt_text(pane_id),
                state,
                crate::text::opt_text(message),
            ),
            none,
            true,
            false,
        ),
        HostEvent::LayoutChanged { tab, .. } => {
            let (after, effects, repaint) = layout_changed(w, tab@, layout);
            (after, effects, repaint, false)
        },
        HostEvent::WorkspaceStateChanged { workspace, new_state } => (
            w,
            none,
            false,
            closes(shown, workspace@, new_state@),
        ),
        HostEvent::Error { .. } => (w, none, false, false),
        HostEvent::Disconnected { reason } => (
            BenchView {
                connected: false,
                bar: crate::status_bar::BarView {
                    session_status: SessionStatusView::Failed { error: reason@ },
                    ..w.bar
                },
                ..w
            },
            none,
            false,
            true,
        ),
    }
}

impl Workbench {
    /// Process an event from the host.
    pub fn on_host_event(
        &mut self,
        event: HostEvent,
        shown: &Option<String>,
        layout: &Option<TabLayout>,
    ) -> (r: HostOutcome)
        requires
            old(self)@.wf(),
        ensures
            (final(self)@, effect_views(r.effects@), r.repaint, r.close) == event_handled(
                old(self)@,
                event,
                crate::text::opt_text(*shown),
                match *layout {
                    Some(l) => Some(l@),
                    None => None,
                },
            ),
            final(self)@.wf(),
    {
        match event {
            HostEvent::Connected { .. } => {
                self.connected = true;
                HostOutcome { effects: no_effects(), repaint: true, close: false }
            },
            HostEvent::SessionOutput { .. } => HostOutcome {
                effects: no_effects(),
                repaint: false,
                close: false,
            },
            HostEvent::SessionStateChanged { session_id, new_state, exit_code } => {
                self.on_session_state(session_id.as_str(), new_state, exit_code);
                HostOutcome { effects: no_effects(), repaint: true, close: false }
            },
            HostEvent::TitleChanged { session_id, title } => {
                self.on_title(session_id.as_str(), title.as_str());
                HostOutcome {
                    effects: crate::workbench::one_effect(Effect::RefreshTitle),
                    repaint: true,
                    close: false,
                }
            },
            HostEvent::ProgressChanged { session_id, progress } => {
                self.on_progress(session_id.as_str(), progress);
                HostOutcome { effects: no_effects(), repaint: true, close: false }
            },
            HostEvent::AttentionChanged { pane_id, state, message } => {
                self.on_attention(&pane_id, state, message);
                HostOutcome { effects: no_effects(), repaint: true, close: false }
            },
            HostEvent::LayoutChanged { tab, .. } => {
                let (effects, repaint) = self.on_layout(tab.as_str(), layout);
                HostOutcome { effects, repaint, close: false }
            },
            HostEvent::WorkspaceStateChanged { workspace, new_state } => {
                let ours = match shown {
                    Some(name) => str_eq(name.as_str(), workspace.as_str()),
                    None => true,
                };
                let close = ours && workspace_state_closes_ui(new_state.as_str());
                HostOutcome { effects: no_effects(), repaint: false, close }
            },
            HostEvent::Error { .. } => HostOutcome {
                effects: no_effects(),
                repaint: false,
                close: false,
            },
            HostEvent::Disconnected { reason } => {
                self.connected = false;
                self.status_bar.set_session_status(SessionStatus::Failed { error: reason });
                HostOutcome { effects: no_effects(), repaint: false, close: true }
            },
        }
    }
}

// ── Laws ─────────────────────────────────────────────────────────────────────

/// The case of a state's letters does not matter.
pub proof fn law_state_case_does_not_matter(a: Seq<char>, b: Seq<char>)
    requires
        crate::text::lower_text(a) == crate::text::lower_text(b),
    ensures
        is_final_state(a) == is_final_state(b),
{
}

/// After a pane changed its attention, the status bar counts the panes that ask for it.
pub proof fn law_count_is_kept(
    w: BenchView,
    pane_id: Option<Seq<char>>,
    state: AttentionState,
    message: Option<Seq<char>>,
)
    ensures
        attention_changed(w, pane_id, state, message).bar.attention_count
            == crate::attention::unread_total(
            attention_changed(w, pane_id, state, message).tabs,
        ),
{
}

/// A window that shows a workspace is not closed by the state of another one.
pub proof fn law_other_workspace_does_not_close(
    shown: Seq<char>,
    workspace: Seq<char>,
    new_state: Seq<char>,
)
    requires
        shown != workspace,
    ensures
        !closes(Some(shown), workspace, new_state),
{
}

/// The states of a workspace that close its window, whatever the case of their letters.
pub proof fn law_final_states(state: Seq<char>, shown: Option<Seq<char>>, workspace: Seq<char>)
    ensures
        ({
            let s = crate::text::lower_text(state);
            let last = s == "closing"@ || s == "closed"@ || s == "stopping"@ || s == "stopped"@ || s
                == "exited"@ || s == "terminating"@ || s == "terminated"@;
            closes(shown, workspace, state) <==> last && (shown is None || shown->0 == workspace)
        }),
{
}

/// What each state of a session is shown as.
pub proof fn law_states_are_shown(state: Seq<char>, code: i32)
    ensures
        status_of("running"@, None) is Running,
        status_of("exited"@, None) == (SessionStatusView::Exited { exit_code: 0 }),
        code >= 0 ==> status_of("exited"@, Some(code)) == (SessionStatusView::Exited {
            exit_code: code as u32,
        }),
        status_of("failed"@, None) is Failed,
        status_of("restarting"@, None) is Restarting,
        status_of("creating"@, None) is Creating,
        state != "running"@ && state != "exited"@ && state != "failed"@ && state != "restarting"@
            ==> status_of(state, Some(code)) is Creating,
{
    reveal_strlit("running");
    reveal_strlit("exited");
    reveal_strlit("failed");
    reveal_strlit("restarting");
    reveal_strlit("creating");
    assert("exited"@[0] == 'e' && "failed"@[0] == 'f' && "running"@[1] == 'u' && "restarting"@[1]
        == 'e' && "creating"@[0] == 'c' && "running"@[0] == 'r' && "restarting"@[0] == 'r');
}

/// The new state of a session is kept with it, and with no other; the status bar shows it exactly
/// if the session has the focus.
pub proof fn law_states_reach_their_session(
    w: BenchView,
    id: Seq<char>,
    state: Seq<char>,
    code: Option<i32>,
    t: int,
    p: PaneId,
    s: SessionView,
    u: int,
    q: PaneId,
)
    requires
        crate::tabs::place_of(w.tabs, id) == Some((t, p)),
        0 <= t < w.tabs.len(),
        w.tabs[t].session(p) == Some(s),
        0 <= u < w.tabs.len(),
        u != t || q != p,
    ensures
        ({
            let after = state_changed(w, id, state, code);
            &&& after.tabs.len() == w.tabs.len()
            &&& after.tabs[t].session(p) == Some(SessionView { health_state: Some(state), ..s })
            &&& after.tabs[u].session(q) == w.tabs[u].session(q)
            &&& after.active == w.active
            &&& w.active == t && w.tabs[t].focus == p && s.session_id == id
                ==> after.bar.session_status == status_of(state, code)
            &&& is_focused_session(after, id) ==> after.bar.session_status == status_of(state, code)
            &&& !is_focused_session(after, id) ==> after.bar == w.bar
        }),
{
    let s1 = SessionView { health_state: Some(state), ..s };
    if q != p {
        crate::panes::law_sessions_change_one_at_a_time(w.tabs[t], p, s1, q);
    }
    lemma_session_kept(w.tabs[t], p, s1);
}

proof fn lemma_session_kept(tab: LiveTabView, p: PaneId, s: SessionView)
    requires
        tab.session(p) is Some,
    ensures
        crate::panes::with_session(tab, p, s).session(p) == Some(s),
{
    let q = if p.0 == 0 {
        PaneId(1)
    } else {
        PaneId(0)
    };
    crate::panes::law_sessions_change_one_at_a_time(tab, p, s, q);
}

/// The new title of a session is kept with it, without the white space around it and none where that
/// leaves nothing, and with no other session.
pub proof fn law_titles_reach_their_session(
    w: BenchView,
    id: Seq<char>,
    title: Seq<char>,
    t: int,
    p: PaneId,
    s: SessionView,
    u: int,
    q: PaneId,
)
    requires
        crate::tabs::place_of(w.tabs, id) == Some((t, p)),
        0 <= t < w.tabs.len(),
        w.tabs[t].session(p) == Some(s),
        0 <= u < w.tabs.len(),
        u != t || q != p,
    ensures
        ({
            let after = title_changed(w, id, title);
            let text = crate::text::trimmed(title);
            &&& after.tabs[t].session(p) is Some
            &&& text.len() > 0 ==> after.tabs[t].session(p)->0.title == Some(text)
            &&& text.len() == 0 ==> after.tabs[t].session(p)->0.title is None
            &&& after.tabs[t].session(p)->0.session_id == s.session_id
            &&& after.tabs[t].session(p)->0.attention == s.attention
            &&& after.tabs[u].session(q) == w.tabs[u].session(q)
            &&& after.bar == w.bar && after.strip == w.strip && after.active == w.active
        }),
{
    let text = crate::text::trimmed(title);
    let s1 = SessionView {
        title: if text.len() > 0 {
            Some(text)
        } else {
            None
        },
        ..s
    };
    if q != p {
        crate::panes::law_sessions_change_one_at_a_time(w.tabs[t], p, s1, q);
    }
    lemma_session_kept(w.tabs[t], p, s1);
}

/// The progress of a session is kept with it, and its tab shows it where the session has the focus.
pub proof fn law_progress_reaches_its_session(
    w: BenchView,
    id: Seq<char>,
    progress: Option<ProgressInfo>,
    t: int,
    p: PaneId,
    s: SessionView,
    u: int,
    q: PaneId,
)
    requires
        crate::tabs::place_of(w.tabs, id) == Some((t, p)),
        0 <= t < w.tabs.len(),
        t < w.strip.tabs.len(),
        w.tabs[t].session(p) == Some(s),
        0 <= u < w.tabs.len(),
        u != t || q != p,
    ensures
        ({
            let after = progress_changed(w, id, progress);
            &&& after.tabs[t].session(p) == Some(SessionView { progress, ..s })
            &&& after.tabs[u].session(q) == w.tabs[u].session(q)
            &&& w.tabs[t].focus == p ==> after.strip.tabs[t].progress == progress
            &&& after.strip.active == w.strip.active && after.bar == w.bar
        }),
{
    let s1 = SessionView { progress, ..s };
    if q != p {
        crate::panes::law_sessions_change_one_at_a_time(w.tabs[t], p, s1, q);
    }
    lemma_session_kept(w.tabs[t], p, s1);
    let tabs = with_session_at(w.tabs, (t, p), s1);
    crate::tabs::law_strips_show_the_focused_progress(w.strip, tabs, tabs.len() as int, t);
}

/// News of a session that no pane has change nothing.
pub proof fn law_news_of_unknown_sessions(
    w: BenchView,
    id: Seq<char>,
    text: Seq<char>,
    progress: Option<ProgressInfo>,
)
    requires
        crate::tabs::place_of(w.tabs, id) is None,
    ensures
        title_changed(w, id, text) == w,
        progress_changed(w, id, progress) == w,
        state_changed(w, id, text, None).tabs == w.tabs,
{
}

/// What a pane of the host calls for is kept with the sessions of that pane and with no others. For
/// the pane that has the focus a mere call for attention is taken as seen, and the status bar shows
/// what is left of it.
pub proof fn law_attention_reaches_its_pane(
    w: BenchView,
    host: Seq<char>,
    state: AttentionState,
    message: Option<Seq<char>>,
    t: int,
    i: int,
)
    requires
        0 <= t < w.tabs.len(),
        0 <= i < w.tabs[t].pane_sessions.len(),
    ensures
        ({
            let after = attention_changed(w, Some(host), state, message);
            let old = w.tabs[t].pane_sessions[i];
            let new = after.tabs[t].pane_sessions[i];
            let focused = is_focused_host_pane(w, host);
            &&& after.tabs.len() == w.tabs.len()
            &&& new.0 == old.0
            &&& old.1.host_pane_id != Some(host) ==> new == old
            &&& old.1.host_pane_id == Some(host) ==> new.1.attention_message == message
                && new.1.attention == (if focused && state is NeedsAttention {
                AttentionState::Active
            } else {
                state
            }) && new.1.session_id == old.1.session_id && new.1.title == old.1.title
            &&& focused ==> after.bar.attention_message == message && after.bar.attention == (
            if state is NeedsAttention {
                AttentionState::Active
            } else {
                state
            })
            &&& !focused ==> after.bar.attention == w.bar.attention && after.bar.attention_message
                == w.bar.attention_message
            &&& !w.notification_center_open ==> after.bar.pane_path == w.bar.pane_path
            &&& w.notification_center_open ==> after.bar.pane_path
                == crate::attention::notification_text(after.tabs)
        }),
{
}

/// The status bar shows the pane that has the focus in the active tab, and what it calls for.
pub proof fn law_active_tab_is_shown(w: BenchView, s: SessionView)
    requires
        0 <= w.active < w.tabs.len(),
        w.tabs[w.active].session(w.tabs[w.active].focus) == Some(s),
    ensures
        active_shown(w).bar.pane_path == s.pane_path,
        active_shown(w).bar.attention == s.attention,
        active_shown(w).bar.attention_message == s.attention_message,
        active_shown(w).tabs == w.tabs,
        active_shown(w).strip == w.strip,
{
}

/// A new layout changes the tab that it is for and no other, and asks for a screen for every pane
/// that is new. If the tab is the active one its panes are laid out anew and the host is told their
/// sizes; and the state is asked for where there is a host.
pub proof fn law_layouts_reach_their_tab(
    w: BenchView,
    name: Seq<char>,
    layout: TabLayoutView,
    t: int,
    u: int,
    p: PaneId,
)
    requires
        crate::tabs::host_tab(w.strip, name, w.active) == Some(t),
        0 <= t < w.tabs.len(),
        0 <= u < w.tabs.len(),
        u != t,
    ensures
        ({
            let (after, effects, repaint) = layout_changed(w, name, Some(layout));
            &&& repaint
            &&& after.tabs.len() == w.tabs.len()
            &&& after.tabs[u] == w.tabs[u]
            &&& after.tabs[t].focus == layout.focus
            &&& after.tabs[t] == crate::tabs::with_layout(w.tabs[t], layout)
            &&& effects.contains(EffectView::CreateScreen(p)) <==> !w.tabs[t].panes.contains(p)
                && w.tabs[t].screen(p) is None && exists|i: int|
                0 <= i < layout.panes.len() && (#[trigger] layout.panes[i]).1 == p
            &&& effects.contains(EffectView::RefreshLayout) <==> t == w.active
            &&& effects.contains(EffectView::SendPaneSizes) <==> t == w.active
            &&& effects.contains(EffectView::RefreshWorkspace) <==> w.connected
        }),
{
    let n = layout.panes.len() as int;
    let fresh = crate::tabs::screenless(w.tabs[t], layout, n);
    crate::tabs::law_new_panes_get_screens(w.tabs[t], layout, n, p);
    let a = screen_requests(fresh);
    let b = if t == w.active {
        seq![EffectView::RefreshLayout, EffectView::SendPaneSizes]
    } else {
        Seq::empty()
    };
    let c = if w.connected {
        seq![EffectView::RefreshWorkspace]
    } else {
        Seq::empty()
    };
    let effects = layout_changed(w, name, Some(layout)).1;
    assert(effects == a + b + c);
    let k = a.len() as int;
    if fresh.contains(p) {
        let i = choose|i: int| 0 <= i < fresh.len() && fresh[i] == p;
        assert(effects[i] == EffectView::CreateScreen(p));
    }
    if effects.contains(EffectView::CreateScreen(p)) {
        let i = choose|i: int| 0 <= i < effects.len() && effects[i] == EffectView::CreateScreen(p);
        assert(i < k);
        assert(fresh[i] == p);
    }
    if t == w.active {
        assert(effects[k] == EffectView::RefreshLayout);
        assert(effects[k + 1] == EffectView::SendPaneSizes);
    }
    if w.connected {
        assert(effects[k + b.len()] == EffectView::RefreshWorkspace);
    }
}

/// A layout that could not be read, or that is for no tab, changes nothing.
pub proof fn law_unreadable_layouts_change_nothing(w: BenchView, name: Seq<char>)
    ensures
        layout_changed(w, name, None) == (w, Seq::<EffectView>::empty(), false),
        forall|layout: TabLayoutView|
            crate::tabs::host_tab(w.strip, name, w.active) is None ==> #[trigger] layout_changed(
                w,
                name,
                Some(layout),
            ).0 == w,
{
}

/// An attached workspace is shown with its tabs, by name and in order, the named one active, or the
/// last where there is none of that number, and under its name.
pub proof fn law_attached_workspace_is_shown(
    w: BenchView,
    name: Seq<char>,
    names: Seq<Seq<char>>,
    active: int,
    tabs: Seq<LiveTabView>,
    maximized: bool,
    i: int,
)
    requires
        names.len() == tabs.len(),
        0 <= i < tabs.len(),
        0 <= active,
    ensures
        ({
            let after = attached(w, name, names, active, tabs, maximized);
            &&& after.tabs == tabs
            &&& after.strip.tabs.len() == names.len()
            &&& after.strip.tabs[i].name == names[i]
            &&& active < tabs.len() ==> after.active == active
            &&& active >= tabs.len() ==> after.active == tabs.len() - 1
            &&& after.strip.active == after.active
            &&& after.strip.workspace_name == name
            &&& after.bar.workspace_name == name
            &&& after.bar.session_status is Running
            &&& after.bar.attention_count == crate::attention::unread_total(tabs)
            &&& after.strip.window_maximized == maximized
            &&& after.connected == w.connected
        }),
{
    let strip = strip_of(names, empty_strip(name, maximized), names.len() as int);
    lemma_strip_names(names, empty_strip(name, maximized), names.len() as int, i);
    let now = attached_active(active, tabs.len() as int);
    let with = crate::tab_strip::with_active(strip, now);
    crate::tabs::law_strips_show_the_focused_progress(with, tabs, tabs.len() as int, i);
    lemma_progress_keeps(with, tabs, tabs.len() as int);
}

proof fn lemma_progress_keeps(s: StripView, tabs: Seq<LiveTabView>, n: int)
    ensures
        crate::tabs::strip_progress(s, tabs, n).workspace_name == s.workspace_name,
        crate::tabs::strip_progress(s, tabs, n).window_maximized == s.window_maximized,
    decreases n,
{
    if n > 0 {
        lemma_progress_keeps(s, tabs, n - 1);
    }
}

proof fn lemma_strip_names(names: Seq<Seq<char>>, s: StripView, n: int, i: int)
    requires
        s.tabs.len() == 0,
        0 <= n <= names.len(),
    ensures
        strip_of(names, s, n).tabs.len() == n,
        0 <= i < n ==> strip_of(names, s, n).tabs[i].name == names[i],
        strip_of(names, s, n).workspace_name == s.workspace_name,
        strip_of(names, s, n).window_maximized == s.window_maximized,
    decreases n,
{
    if n > 0 {
        lemma_strip_names(names, s, n - 1, i);
    }
}

/// The connection is known from the host's word: it is there once the host has sent the state, and
/// gone once the host is lost, which closes the window and shows the reason.
pub proof fn law_connection_is_followed(
    w: BenchView,
    state: crate::json::Json,
    reason: String,
    message: String,
    shown: Option<Seq<char>>,
)
    ensures
        event_handled(w, HostEvent::Connected { state }, shown, None).0.connected,
        !event_handled(w, HostEvent::Connected { state }, shown, None).3,
        ({
            let (after, effects, repaint, close) = event_handled(
                w,
                HostEvent::Disconnected { reason },
                shown,
                None,
            );
            &&& !after.connected
            &&& close
            &&& after.bar.session_status == (SessionStatusView::Failed { error: reason@ })
            &&& after.tabs == w.tabs
        }),
        event_handled(w, HostEvent::Error { message }, shown, None).0 == w,
        !event_handled(w, HostEvent::Error { message }, shown, None).3,
{
}

/// News of a session are painted, and a new title is also shown on the window; neither closes it.
pub proof fn law_news_are_painted(
    w: BenchView,
    id: String,
    text: String,
    code: Option<i32>,
    progress: Option<ProgressInfo>,
    pane: Option<String>,
    state: AttentionState,
    message: Option<String>,
    shown: Option<Seq<char>>,
)
    ensures
        event_handled(w, HostEvent::TitleChanged { session_id: id, title: text }, shown, None) == (
            title_changed(w, id@, text@),
            seq![EffectView::RefreshTitle],
            true,
            false,
        ),
        event_handled(
            w,
            HostEvent::SessionStateChanged { session_id: id, new_state: text, exit_code: code },
            shown,
            None,
        ) == (state_changed(w, id@, text@, code), Seq::<EffectView>::empty(), true, false),
        event_handled(w, HostEvent::ProgressChanged { session_id: id, progress }, shown, None) == (
            progress_changed(w, id@, progress),
            Seq::<EffectView>::empty(),
            true,
            false,
        ),
        event_handled(
            w,
            HostEvent::AttentionChanged { pane_id: pane, state, message },
            shown,
            None,
        ) == (
            attention_changed(
                w,
                crate::text::opt_text(pane),
                state,
                crate::text::opt_text(message),
            ),
            Seq::<EffectView>::empty(),
            true,
            false,
        ),
{
}

} // verus!
