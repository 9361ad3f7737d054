//! Operations on the tabs of a workspace and on their panes.
use std::collections::HashMap;

use vstd::prelude::*;

use crate::attention::focused_pane_title;
use crate::clipboard::prepare_paste;
use crate::mouse_handler::{MouseHandler, MouseView};
use crate::panes::{LiveTab, LiveTabView, PaneId, PaneSession, ProgressInfo, SessionView};
use crate::screen::{MouseMode, Screen};
use crate::snapshot::{TabLayout, TabLayoutView};
use crate::tab_strip::{StripView, TabStrip};
use crate::text::{parse_index, push_decimal, str_eq};

verus! {

broadcast use {vstd::std_specs::hash::group_hash_axioms, vstd::string::group_string_axioms};

// ── Finding tabs and panes ───────────────────────────────────────────────────

/// The first tab with the given name, or the number of tabs.
pub open spec fn tab_named(s: StripView, name: Seq<char>) -> int {
    let tabs = s.tabs;
    crate::seqs::first_where(0, tabs.len() as int, |i: int| tabs[i].name == name)
}

/// The tab that the host means: the one with that index, or else with that name, or else the
/// active one.
pub open spec fn host_tab(s: StripView, name: Seq<char>, active: int) -> Option<int> {
    match crate::text::index_in(name) {
        Some(i) if i < s.tabs.len() => Some(i as int),
        _ => if tab_named(s, name) < s.tabs.len() {
            Some(tab_named(s, name))
        } else if active < s.tabs.len() {
            Some(active)
        } else {
            None
        },
    }
}

/// Finds the tab that the host means.
pub fn tab_index_for_host_name(tab_strip: &TabStrip, host_tab: &str, active_tab_index: usize) -> (r:
    Option<usize>)
    ensures
        match r {
            Some(i) => self::host_tab(tab_strip@, host_tab@, active_tab_index as int) == Some(
                i as int,
            ),
            None => self::host_tab(tab_strip@, host_tab@, active_tab_index as int) is None,
        },
{
    let n: usize = tab_strip.tab_count();
    if let Some(index) = parse_index(host_tab) {
        if index < n {
            return Some(index);
        }
    }
    let ghost tabs = tab_strip@.tabs;
    let ghost want = host_tab@;
    let ghost p = |i: int| tabs[i].name == want;
    let entries = tab_strip.tabs();
    let mut i: usize = 0;
    while i < entries.len()
        invariant
            i <= entries@.len(),
            n == tabs.len(),
            entries@.len() == tabs.len(),
            tabs == tab_strip@.tabs,
            forall|k: int| 0 <= k < entries@.len() ==> (#[trigger] entries@[k])@ == tabs[k],
            want == host_tab@,
            p == (|i: int| tabs[i].name == want),
            forall|j: int| 0 <= j < i ==> !#[trigger] p(j),
            crate::text::index_in(want) matches Some(k) ==> k >= tabs.len(),
        decreases entries.len() - i,
    {
        assert(entries@[i as int]@ == tabs[i as int]);
        if str_eq(entries[i].name.as_str(), host_tab) {
            proof {
                assert(p(i as int));
                crate::seqs::lemma_first_where_is(0, tabs.len() as int, p, i as int);
            }
            return Some(i);
        }
        assert(!p(i as int));
        i += 1;
    }
    proof {
        crate::seqs::lemma_first_where_is(0, tabs.len() as int, p, i as int);
    }
    if active_tab_index < n {
        Some(active_tab_index)
    } else {
        None
    }
}

/// The row of a session in a tab, or the number of rows.
pub open spec fn session_row_in(tab: LiveTabView, id: Seq<char>) -> int {
    let rows = tab.pane_sessions;
    crate::seqs::first_where(0, rows.len() as int, |i: int| rows[i].1.session_id == id)
}

/// The first tab from `i` on with a session, and its pane.
pub open spec fn pane_of_session(tabs: Seq<LiveTabView>, id: Seq<char>, i: int) -> Option<
    (int, PaneId),
>
    decreases tabs.len() - i,
{
    if i >= tabs.len() {
        None
    } else if session_row_in(tabs[i], id) < tabs[i].pane_sessions.len() {
        Some((i, tabs[i].pane_sessions[session_row_in(tabs[i], id)].0))
    } else {
        pane_of_session(tabs, id, i + 1)
    }
}

/// The place of a session's pane.
pub open spec fn place_of(tabs: Seq<LiveTabView>, id: Seq<char>) -> Option<(int, PaneId)> {
    pane_of_session(tabs, id, 0)
}

/// Finds a session in a tab.
fn find_session(tab: &LiveTab, id: &str) -> (r: Option<PaneId>)
    ensures
        match r {
            Some(p) => session_row_in(tab@, id@) < tab@.pane_sessions.len()
                && tab@.pane_sessions[session_row_in(tab@, id@)].0 == p,
            None => session_row_in(tab@, id@) >= tab@.pane_sessions.len(),
        },
{
    let ghost rows = tab@.pane_sessions;
    let ghost want = id@;
    let ghost p = |i: int| rows[i].1.session_id == want;
    let mut i: usize = 0;
    while i < tab.pane_sessions.len()
        invariant
            i <= tab.pane_sessions@.len(),
            rows == tab@.pane_sessions,
            want == id@,
            p == (|i: int| rows[i].1.session_id == want),
            forall|j: int| 0 <= j < i ==> !#[trigger] p(j),
        decreases tab.pane_sessions.len() - i,
    {
        if str_eq(tab.pane_sessions[i].1.session_id.as_str(), id) {
            proof {
                assert(p(i as int));
                crate::seqs::lemma_first_where_is(0, rows.len() as int, p, i as int);
            }
            return Some(tab.pane_sessions[i].0);
        }
        assert(!p(i as int));
        i += 1;
    }
    proof {
        crate::seqs::lemma_first_where_is(0, rows.len() as int, p, i as int);
    }
    None
}

/// Finds the pane that a session runs in.
pub fn find_pane_for_session(tabs: &Vec<LiveTab>, session_id: &str) -> (r: Option<(usize, PaneId)>)
    ensures
        match r {
            Some(place) => place.0 < tabs@.len() && place_of(
                crate::panes::tab_views(tabs@),
                session_id@,
            ) == Some((place.0 as int, place.1)),
            None => place_of(crate::panes::tab_views(tabs@), session_id@) is None,
        },
{
    let ghost views = crate::panes::tab_views(tabs@);
    let mut i: usize = 0;
    while i < tabs.len()
        invariant
            i <= tabs@.len(),
            views == crate::panes::tab_views(tabs@),
            place_of(views, session_id@) == pane_of_session(views, session_id@, i as int),
        decreases tabs.len() - i,
    {
        assert(views[i as int] == tabs@[i as int]@);
        if let Some(p) = find_session(&tabs[i], session_id) {
            return Some((i, p));
        }
        i += 1;
    }
    None
}

// ── Layout changes ───────────────────────────────────────────────────────────

/// The panes of a layout.
pub open spec fn layout_panes(layout: TabLayoutView) -> Seq<PaneId> {
    layout.panes.map_values(|p: (Seq<char>, PaneId)| p.1)
}

/// The rows of a table except those of panes that are among the old ones and not among the new.
pub open spec fn kept_rows<T>(
    rows: Seq<(PaneId, T)>,
    old_panes: Seq<PaneId>,
    new_panes: Seq<PaneId>,
) -> Seq<(PaneId, T)>
    decreases rows.len(),
{
    if rows.len() == 0 {
        rows
    } else {
        let rest = kept_rows(rows.drop_last(), old_panes, new_panes);
        if old_panes.contains(rows.last().0) && !new_panes.contains(rows.last().0) {
            rest
        } else {
            rest.push(rows.last())
        }
    }
}

/// The tab with another layout: panes that are gone lose their sessions and screens.
pub open spec fn with_layout(tab: LiveTabView, layout: TabLayoutView) -> LiveTabView {
    LiveTabView {
        focus: layout.focus,
        panes: layout_panes(layout),
        pane_sessions: kept_rows(tab.pane_sessions, tab.panes, layout_panes(layout)),
        screens: kept_rows(tab.screens, tab.panes, layout_panes(layout)),
    }
}

/// The first `n` panes of a layout that are new to a tab and have no screen.
pub open spec fn screenless(tab: LiveTabView, layout: TabLayoutView, n: int) -> Seq<PaneId>
    decreases n,
{
    if n <= 0 {
        Seq::empty()
    } else {
        let p = layout.panes[n - 1].1;
        if !tab.panes.contains(p) && tab.screen(p) is None {
            screenless(tab, layout, n - 1).push(p)
        } else {
            screenless(tab, layout, n - 1)
        }
    }
}

fn holds(panes: &Vec<PaneId>, p: PaneId) -> (r: bool)
    ensures
        r == panes@.contains(p),
{
    let mut i: usize = 0;
    while i < panes.len()
        invariant
            i <= panes@.len(),
            forall|j: int| 0 <= j < i ==> panes@[j] != p,
        decreases panes.len() - i,
    {
        if panes[i] == p {
            return true;
        }
        i += 1;
    }
    false
}

/// Takes the rows of panes that are gone out of a table.
fn drop_rows<T>(rows: &mut Vec<(PaneId, T)>, old_panes: &Vec<PaneId>, new_panes: &Vec<PaneId>)
    ensures
        final(rows)@ == kept_rows(old(rows)@, old_panes@, new_panes@),
{
    let ghost all = rows@;
    let mut i: usize = 0;
    let ghost mut done: int = 0;
    assert(all.take(0) =~= Seq::empty());
    assert(rows@ =~= all.take(0) + all.skip(0));
    while i < rows.len()
        invariant
            0 <= done <= all.len(),
            i <= rows@.len(),
            i == kept_rows(all.take(done), old_panes@, new_panes@).len(),
            rows@ == kept_rows(all.take(done), old_panes@, new_panes@) + all.skip(done),
        decreases rows.len() - i,
    {
        let ghost kept = kept_rows(all.take(done), old_panes@, new_panes@);
        let ghost row = rows@[i as int];
        proof {
            assert(row == all.skip(done)[0]);
            assert(all.skip(done)[0] == all[done]);
            assert(all.take(done + 1).drop_last() =~= all.take(done));
            assert(all.take(done + 1).last() == all[done]);
        }
        let p = rows[i].0;
        if holds(old_panes, p) && !holds(new_panes, p) {
            rows.remove(i);
            assert(rows@ =~= kept + all.skip(done + 1));
        } else {
            i += 1;
            assert(rows@ =~= kept.push(row) + all.skip(done + 1));
        }
        proof {
            done = done + 1;
        }
    }
    proof {
        assert(all.skip(done).len() == 0);
        assert(all.take(done) =~= all);
        assert(rows@ =~= kept_rows(all, old_panes@, new_panes@));
    }
}

/// Give a tab another layout. Returns the panes that are to get a blank screen.
pub fn apply_tab_layout(tab: &mut LiveTab, layout: &TabLayout) -> (r: Vec<PaneId>)
    ensures
        final(tab)@ == with_layout(old(tab)@, layout@),
        r@ == screenless(old(tab)@, layout@, layout@.panes.len() as int),
{
    let mut panes: Vec<PaneId> = Vec::new();
    let mut fresh: Vec<PaneId> = Vec::new();
    let mut i: usize = 0;
    while i < layout.panes.len()
        invariant
            i <= layout.panes@.len(),
            *tab == *old(tab),
            panes@.len() == i,
            forall|j: int| 0 <= j < i ==> panes@[j] == layout@.panes[j].1,
            fresh@ == screenless(tab@, layout@, i as int),
        decreases layout.panes.len() - i,
    {
        let p = layout.panes[i].1;
        if !holds(&tab.panes, p) {
            if tab.screen(p).is_none() {
                fresh.push(p);
            }
        }
        panes.push(p);
        i += 1;
    }
    assert(panes@ =~= layout_panes(layout@));
    drop_rows(&mut tab.pane_sessions, &tab.panes, &panes);
    proof {
        lemma_kept_views(old(tab).pane_sessions@, old(tab).panes@, panes@);
    }
    drop_rows(&mut tab.screens, &tab.panes, &panes);
    tab.panes = panes;
    tab.focus = layout.focus;
    fresh
}

proof fn lemma_kept_views(
    rows: Seq<(PaneId, PaneSession)>,
    old_panes: Seq<PaneId>,
    new_panes: Seq<PaneId>,
)
    ensures
        crate::panes::session_rows(kept_rows(rows, old_panes, new_panes)) == kept_rows(
            crate::panes::session_rows(rows),
            old_panes,
            new_panes,
        ),
    decreases rows.len(),
{
    let views = crate::panes::session_rows(rows);
    if rows.len() > 0 {
        lemma_kept_views(rows.drop_last(), old_panes, new_panes);
        assert(views.drop_last() =~= crate::panes::session_rows(rows.drop_last()));
        assert(crate::panes::session_rows(kept_rows(rows, old_panes, new_panes)) =~= kept_rows(
            views,
            old_panes,
            new_panes,
        ));
    } else {
        assert(views =~= Seq::empty());
    }
}

// ── Sizes ────────────────────────────────────────────────────────────────────

/// What is to be done to fit a screen to its pane.
#[derive(Debug, Clone, Copy, PartialEq, Eq, Structural)]
pub enum ScreenChange {
    /// Make a blank screen of the given columns and rows.
    Create(PaneId, u16, u16),
    /// Change the size of the screen to the given columns and rows.
    Resize(PaneId, u16, u16),
}

/// What is to be done to fit a screen to its pane, if anything.
pub open spec fn change_for(tab: LiveTabView, size: (PaneId, u16, u16)) -> Option<ScreenChange> {
    match tab.screen(size.0) {
        Some(screen) => if screen.cols as u16 != size.1 || screen.rows as u16 != size.2 {
            Some(ScreenChange::Resize(size.0, size.1, size.2))
        } else {
            None
        },
        None => Some(ScreenChange::Create(size.0, size.1, size.2)),
    }
}

/// What is to be done to fit the screens to their panes.
pub open spec fn changes_for(tab: LiveTabView, sizes: Seq<(PaneId, u16, u16)>) -> Seq<ScreenChange>
    decreases sizes.len(),
{
    if sizes.len() == 0 {
        Seq::empty()
    } else {
        match change_for(tab, sizes.last()) {
            Some(c) => changes_for(tab, sizes.drop_last()).push(c),
            None => changes_for(tab, sizes.drop_last()),
        }
    }
}

/// What is to be done to fit the screens of a tab to the sizes of their panes.
pub fn sync_screen_buffers_to_sizes(tab: &LiveTab, sizes: &Vec<(PaneId, u16, u16)>) -> (r: Vec<
    ScreenChange,
>)
    ensures
        r@ == changes_for(tab@, sizes@),
{
    let mut out: Vec<ScreenChange> = Vec::new();
    let mut i: usize = 0;
    assert(sizes@.take(0) =~= Seq::empty());
    while i < sizes.len()
        invariant
            i <= sizes@.len(),
            out@ == changes_for(tab@, sizes@.take(i as int)),
        decreases sizes.len() - i,
    {
        let (pane, cols, rows) = sizes[i];
        assert(sizes@.take(i + 1).drop_last() =~= sizes@.take(i as int));
        assert(sizes@.take(i + 1).last() == sizes@[i as int]);
        match tab.screen(pane) {
            Some(screen) => {
                if screen.cols as u16 != cols || screen.rows as u16 != rows {
                    out.push(ScreenChange::Resize(pane, cols, rows));
                }
            },
            None => {
                out.push(ScreenChange::Create(pane, cols, rows));
            },
        }
        i += 1;
    }
    assert(sizes@.take(i as int) =~= sizes@);
    out
}

/// The sizes that the host is told, each with the path of its pane: panes without a session are
/// left out.
pub open spec fn resizes_for(tab: LiveTabView, sizes: Seq<(PaneId, u16, u16)>) -> Seq<
    (Seq<char>, u16, u16),
>
    decreases sizes.len(),
{
    if sizes.len() == 0 {
        Seq::empty()
    } else {
        let size = sizes.last();
        match tab.session(size.0) {
            Some(s) => resizes_for(tab, sizes.drop_last()).push((s.pane_path, size.1, size.2)),
            None => resizes_for(tab, sizes.drop_last()),
        }
    }
}

/// The paths and sizes of resized panes.
pub open spec fn resize_views(v: Seq<(String, u16, u16)>) -> Seq<(Seq<char>, u16, u16)> {
    v.map_values(|r: (String, u16, u16)| (r.0@, r.1, r.2))
}

/// The sizes of the panes of a tab that the host is to be told.
pub fn pane_resizes(tab: &LiveTab, sizes: &Vec<(PaneId, u16, u16)>) -> (r: Vec<(String, u16, u16)>)
    ensures
        resize_views(r@) == resizes_for(tab@, sizes@),
{
    let mut out: Vec<(String, u16, u16)> = Vec::new();
    let mut i: usize = 0;
    assert(sizes@.take(0) =~= Seq::empty());
    assert(resize_views(out@) =~= Seq::empty());
    while i < sizes.len()
        invariant
            i <= sizes@.len(),
            resize_views(out@) == resizes_for(tab@, sizes@.take(i as int)),
        decreases sizes.len() - i,
    {
        let (pane, cols, rows) = sizes[i];
        assert(sizes@.take(i + 1).drop_last() =~= sizes@.take(i as int));
        assert(sizes@.take(i + 1).last() == sizes@[i as int]);
        let ghost before = resize_views(out@);
        if let Some(target) = pane_host_target(tab, pane) {
            let ghost path = target@;
            out.push((target.clone(), cols, rows));
            assert(resize_views(out@) =~= before.push((path, cols, rows)));
        }
        i += 1;
    }
    assert(sizes@.take(i as int) =~= sizes@);
    out
}

/// Whether the session of a pane, if there is one, has the given size.
pub open spec fn session_fits(tab: LiveTabView, size: (PaneId, u16, u16)) -> bool {
    match tab.session(size.0) {
        Some(s) => s.session_size == Some((size.1, size.2)),
        None => true,
    }
}

/// Whether all sessions of a tab have the sizes of their panes.
pub fn pane_sessions_match_sizes(tab: &LiveTab, sizes: &Vec<(PaneId, u16, u16)>) -> (r: bool)
    ensures
        r == forall|i: int| 0 <= i < sizes@.len() ==> session_fits(tab@, #[trigger] sizes@[i]),
{
    let mut i: usize = 0;
    while i < sizes.len()
        invariant
            i <= sizes@.len(),
            forall|j: int| 0 <= j < i ==> session_fits(tab@, #[trigger] sizes@[j]),
        decreases sizes.len() - i,
    {
        let (pane, cols, rows) = sizes[i];
        if let Some(s) = tab.session(pane) {
            match s.session_size {
                Some((c, w)) => {
                    if c != cols || w != rows {
                        assert(!session_fits(tab@, sizes@[i as int]));
                        return false;
                    }
                },
                None => {
                    assert(!session_fits(tab@, sizes@[i as int]));
                    return false;
                },
            }
        }
        i += 1;
    }
    true
}

// ── Progress and titles ──────────────────────────────────────────────────────

/// The progress of a tab: that of its focused pane.
pub open spec fn progress_of_tab(tab: LiveTabView) -> Option<ProgressInfo> {
    match tab.session(tab.focus) {
        Some(s) => s.progress,
        None => None,
    }
}

/// The progress of a tab: that of its focused pane.
pub fn tab_progress(tab: &LiveTab) -> (r: Option<ProgressInfo>)
    ensures
        r == progress_of_tab(tab@),
{
    match tab.session(tab.focus) {
        Some(s) => s.progress,
        None => None,
    }
}

/// The strip with the progress of the first `n` tabs.
pub open spec fn strip_progress(s: StripView, tabs: Seq<LiveTabView>, n: int) -> StripView
    decreases n,
{
    if n <= 0 {
        s
    } else {
        crate::tab_strip::with_progress(
            strip_progress(s, tabs, n - 1),
            n - 1,
            progress_of_tab(tabs[n - 1]),
        )
    }
}

/// Show the progress of all tabs on the strip.
pub fn sync_tab_progresses(tab_strip: &mut TabStrip, tabs: &Vec<LiveTab>)
    ensures
        final(tab_strip)@ == strip_progress(
            old(tab_strip)@,
            crate::panes::tab_views(tabs@),
            tabs@.len() as int,
        ),
{
    let ghost views = crate::panes::tab_views(tabs@);
    let mut i: usize = 0;
    while i < tabs.len()
        invariant
            i <= tabs@.len(),
            views == crate::panes::tab_views(tabs@),
            tab_strip@ == strip_progress(old(tab_strip)@, views, i as int),
        decreases tabs.len() - i,
    {
        assert(views[i as int] == tabs@[i as int]@);
        tab_strip.set_progress(i, tab_progress(&tabs[i]));
        i += 1;
    }
}

/// The title of the window: that of the tab strip, and the title of the focused pane.
pub open spec fn window_text(
    workspace_name: Seq<char>,
    strip: StripView,
    active_tab: Option<LiveTabView>,
) -> Seq<char> {
    let title = crate::tab_strip::title_text(strip, workspace_name);
    match active_tab {
        Some(tab) => match crate::attention::focused_title(tab) {
            Some(pane_title) => title + crate::tab_strip::title_dash() + pane_title,
            None => title,
        },
        None => title,
    }
}

/// The title of the window.
pub fn compose_window_title(
    workspace_name: &str,
    tab_strip: &TabStrip,
    active_tab: Option<&LiveTab>,
) -> (r: String)
    ensures
        r@ == window_text(
            workspace_name@,
            tab_strip@,
            match active_tab {
                Some(tab) => Some(tab@),
                None => None,
            },
        ),
{
    let mut title = tab_strip.window_title(workspace_name);
    if let Some(tab) = active_tab {
        if let Some(pane_title) = focused_pane_title(tab) {
            title.append(" \u{2014} ");
            title.append(pane_title.as_str());
        }
    }
    title
}

// ── Panes ────────────────────────────────────────────────────────────────────

/// How the host is told which pane is meant: by its path, or else by its number.
pub open spec fn host_target(tab: LiveTabView, p: PaneId) -> Seq<char> {
    match tab.session(p) {
        Some(s) => s.pane_path,
        None => crate::text::decimal(p.0 as nat),
    }
}

/// The path of a pane, if it has a session.
pub fn pane_host_target(tab: &LiveTab, p: PaneId) -> (r: Option<&String>)
    ensures
        match r {
            Some(path) => tab@.session(p) is Some && path@ == tab@.session(p)->0.pane_path,
            None => tab@.session(p) is None,
        },
{
    match tab.session(p) {
        Some(s) => Some(&s.pane_path),
        None => None,
    }
}

/// The number of a pane as text.
pub fn pane_number(p: PaneId) -> (r: String)
    ensures
        r@ == crate::text::decimal(p.0 as nat),
{
    let mut s = String::new();
    push_decimal(&mut s, p.0);
    assert(s@ =~= crate::text::decimal(p.0 as nat));
    s
}

/// How the host is told which pane is meant.
pub fn pane_target(tab: &LiveTab, p: PaneId) -> (r: String)
    ensures
        r@ == host_target(tab@, p),
{
    match pane_host_target(tab, p) {
        Some(path) => path.clone(),
        None => pane_number(p),
    }
}

/// The name of the focused pane: the last part of its path, or else its number.
pub open spec fn focused_name(tab: LiveTabView) -> Seq<char> {
    match tab.session(tab.focus) {
        Some(s) => crate::attention::short_name(s.pane_path),
        None => crate::text::decimal(tab.focus.0 as nat),
    }
}

/// The name of the focused pane.
pub fn focused_pane_name(tab: &LiveTab) -> (r: String)
    ensures
        r@ == focused_name(tab@),
{
    match tab.session(tab.focus) {
        Some(s) => crate::attention::pane_short_name(s.pane_path.as_str()),
        None => pane_number(tab.focus),
    }
}

/// The label that is drawn over a pane.
pub fn pane_overlay_label(s: &PaneSession) -> (r: String)
    ensures
        r@ == crate::attention::short_name(s@.pane_path),
{
    crate::attention::pane_short_name(s.pane_path.as_str())
}

/// Whether the session of a pane has asked for mouse events.
pub open spec fn reports_mouse(tab: LiveTabView, p: PaneId) -> bool {
    match tab.screen(p) {
        Some(screen) => screen.mouse_mode != MouseMode::Off,
        None => false,
    }
}

/// Whether the session of a pane has asked for mouse events.
pub fn pane_has_mouse_reporting(tab: &LiveTab, p: PaneId) -> (r: bool)
    ensures
        r == reports_mouse(tab@, p),
{
    match tab.screen(p) {
        Some(screen) => screen.mouse_mode != MouseMode::Off,
        None => false,
    }
}

/// The mouse modes of all panes that have a screen.
pub open spec fn modes_of(tab: LiveTabView) -> Map<u64, MouseMode> {
    Map::new(
        |k: u64| tab.screen(PaneId(k)) is Some,
        |k: u64| tab.screen(PaneId(k))->0.mouse_mode,
    )
}

proof fn lemma_row_cons(rows: Seq<(PaneId, Screen)>, i: int, p: PaneId)
    requires
        0 <= i < rows.len(),
    ensures
        crate::panes::row_from(rows, p, i) == if rows[i].0 == p {
            i
        } else {
            crate::panes::row_from(rows, p, i + 1)
        },
{
}

/// The mouse modes of all panes that have a screen.
pub fn refresh_mouse_modes(tab: &LiveTab) -> (r: HashMap<u64, MouseMode>)
    ensures
        r@ == modes_of(tab@),
{
    let mut modes: HashMap<u64, MouseMode> = HashMap::new();
    let ghost rows = tab.screens@;
    let mut n: usize = tab.screens.len();
    while n > 0
        invariant
            n <= rows.len(),
            rows == tab.screens@,
            forall|k: u64|
                #![trigger modes@.dom().contains(k)]
                modes@.dom().contains(k) <==> crate::panes::row_from(rows, PaneId(k), n as int)
                    < rows.len(),
            forall|k: u64|
                #![trigger modes@[k]]
                modes@.dom().contains(k) ==> modes@[k] == rows[crate::panes::row_from(
                    rows,
                    PaneId(k),
                    n as int,
                )].1.mouse_mode,
        decreases n,
    {
        n -= 1;
        let ghost before = modes@;
        let p = tab.screens[n].0;
        modes.insert(p.0, tab.screens[n].1.mouse_mode);
        assert forall|k: u64| #![trigger modes@.dom().contains(k)] modes@.dom().contains(k)
            <==> crate::panes::row_from(rows, PaneId(k), n as int) < rows.len() by {
            lemma_row_cons(rows, n as int, PaneId(k));
            assert(before.dom().contains(k) <==> crate::panes::row_from(
                rows,
                PaneId(k),
                n + 1,
            ) < rows.len());
            if k == p.0 {
                assert(PaneId(k) == p);
            }
        }
        assert forall|k: u64| #![trigger modes@[k]] modes@.dom().contains(k) implies modes@[k]
            == rows[crate::panes::row_from(rows, PaneId(k), n as int)].1.mouse_mode by {
            lemma_row_cons(rows, n as int, PaneId(k));
            if k == p.0 {
                assert(PaneId(k) == p);
            } else {
                assert(before.dom().contains(k));
                assert(before[k] == modes@[k]);
            }
        }
    }
    assert(modes@ =~= modes_of(tab@));
    modes
}

/// The bytes that pasting a text into a pane sends.
pub open spec fn pasted(tab: LiveTabView, p: PaneId, text: Seq<char>) -> Seq<u8> {
    crate::clipboard::paste_bytes(
        text,
        match tab.screen(p) {
            Some(screen) => screen.bracketed_paste,
            None => false,
        },
    )
}

/// The bytes that pasting a text into a pane sends.
pub fn paste_bytes_for_pane(tab: &LiveTab, p: PaneId, text: &str) -> (r: Vec<u8>)
    ensures
        r@ == pasted(tab@, p, text@),
{
    let bracketed = match tab.screen(p) {
        Some(screen) => screen.bracketed_paste,
        None => false,
    };
    prepare_paste(text, bracketed)
}

/// What input to a pane does to its view: it goes back to live, and loses its selection where
/// that is asked for. A pane on the alternate screen keeps both.
pub open spec fn live_input(m: MouseView, tab: LiveTabView, p: PaneId, clear: bool) -> (
    bool,
    MouseView,
) {
    match tab.screen(p) {
        Some(screen) if !screen.alternate => {
            let scrolled = m.pane(p).scroll_offset != 0;
            let selected = clear && m.pane(p).selection is Some;
            let m1 = if scrolled {
                crate::mouse_handler::with_offset(m, p, 0)
            } else {
                m
            };
            let m2 = if selected {
                crate::mouse_handler::without_selection(m1, p)
            } else {
                m1
            };
            (scrolled || selected, m2)
        },
        _ => (false, m),
    }
}

/// Bring a pane back to live before input is sent to it. Returns whether anything changed.
pub fn prepare_pane_for_live_input(
    mouse_handler: &mut MouseHandler,
    tab: &LiveTab,
    p: PaneId,
    clear_selection: bool,
) -> (r: bool)
    ensures
        (r, final(mouse_handler)@) == live_input(old(mouse_handler)@, tab@, p, clear_selection),
        old(mouse_handler)@.sound() ==> final(mouse_handler)@.sound(),
{
    match tab.screen(p) {
        Some(screen) => {
            if screen.alternate {
                return false;
            }
        },
        None => {
            return false;
        },
    }
    let had_scrollback = mouse_handler.scroll_offset(&p) != 0;
    let had_selection = clear_selection && mouse_handler.selection(&p).is_some();
    if had_scrollback {
        mouse_handler.reset_scroll(&p);
    }
    if had_selection {
        mouse_handler.clear_selection(&p);
    }
    had_scrollback || had_selection
}

// ── Laws ─────────────────────────────────────────────────────────────────────

/// After input to a pane that is not on the alternate screen, the pane is live; and input again
/// changes nothing.
pub proof fn law_input_goes_live(m: MouseView, tab: LiveTabView, p: PaneId, clear: bool)
    requires
        tab.screen(p) is Some,
        !tab.screen(p)->0.alternate,
    ensures
        live_input(m, tab, p, clear).1.pane(p).scroll_offset == 0,
        clear ==> live_input(m, tab, p, clear).1.pane(p).selection is None,
        !live_input(live_input(m, tab, p, clear).1, tab, p, clear).0,
{
}

/// A layout that keeps all panes keeps all sessions and screens.
pub proof fn law_same_panes_keep_rows<T>(
    rows: Seq<(PaneId, T)>,
    old_panes: Seq<PaneId>,
    new_panes: Seq<PaneId>,
)
    requires
        forall|p: PaneId| old_panes.contains(p) ==> new_panes.contains(p),
    ensures
        kept_rows(rows, old_panes, new_panes) == rows,
    decreases rows.len(),
{
    if rows.len() > 0 {
        law_same_panes_keep_rows(rows.drop_last(), old_panes, new_panes);
        assert(rows =~= rows.drop_last().push(rows.last()));
    }
}

/// What is kept of a table are rows of it, and none of them is for a pane that is gone.
pub proof fn law_gone_panes_have_no_rows<T>(
    rows: Seq<(PaneId, T)>,
    old_panes: Seq<PaneId>,
    new_panes: Seq<PaneId>,
    i: int,
)
    requires
        0 <= i < kept_rows(rows, old_panes, new_panes).len(),
    ensures
        rows.contains(kept_rows(rows, old_panes, new_panes)[i]),
        !old_panes.contains(kept_rows(rows, old_panes, new_panes)[i].0) || new_panes.contains(
            kept_rows(rows, old_panes, new_panes)[i].0,
        ),
    decreases rows.len(),
{
    if rows.len() > 0 {
        let rest = kept_rows(rows.drop_last(), old_panes, new_panes);
        if i < rest.len() {
            law_gone_panes_have_no_rows(rows.drop_last(), old_panes, new_panes, i);
            let j = choose|j: int|
                0 <= j < rows.drop_last().len() && rows.drop_last()[j] == rest[i];
            assert(rows[j] == rest[i]);
        } else {
            assert(rows[rows.len() - 1] == kept_rows(rows, old_panes, new_panes)[i]);
        }
    }
}

/// The tab that the host means: the one with the number, if the text is one that a tab has; or else
/// the first of that name; or else the active one.
pub proof fn law_host_tabs(s: StripView, name: Seq<char>, active: int, i: int)
    requires
        0 <= active,
        0 <= i < s.tabs.len(),
    ensures
        crate::text::index_in(name) == Some(i as nat) ==> host_tab(s, name, active) == Some(i),
        crate::text::index_in(name) is None && s.tabs[i].name == name && (forall|j: int|
            0 <= j < i ==> (#[trigger] s.tabs[j]).name != name) ==> host_tab(s, name, active)
            == Some(i),
        crate::text::index_in(name) is None && (forall|j: int|
            0 <= j < s.tabs.len() ==> (#[trigger] s.tabs[j]).name != name) ==> host_tab(
            s,
            name,
            active,
        ) == (if active < s.tabs.len() {
            Some(active)
        } else {
            None
        }),
{
    let tabs = s.tabs;
    let n = tabs.len() as int;
    let p = |i: int| tabs[i].name == name;
    if tabs[i].name == name && (forall|j: int| 0 <= j < i ==> (#[trigger] tabs[j]).name != name) {
        crate::seqs::lemma_first_where_is(0, n, p, i);
    }
    if forall|j: int| 0 <= j < n ==> (#[trigger] tabs[j]).name != name {
        crate::seqs::lemma_first_where_is(0, n, p, n);
    }
}

/// A session is looked for in every tab: it is found in the first tab that has it, with its first
/// pane there.
pub proof fn law_sessions_are_found(tabs: Seq<LiveTabView>, id: Seq<char>, t: int, i: int)
    requires
        0 <= t < tabs.len(),
        0 <= i < tabs[t].pane_sessions.len(),
        tabs[t].pane_sessions[i].1.session_id == id,
        forall|j: int| 0 <= j < i ==> (#[trigger] tabs[t].pane_sessions[j]).1.session_id != id,
        forall|u: int, j: int|
            0 <= u < t && 0 <= j < tabs[u].pane_sessions.len() ==> (
            #[trigger] tabs[u].pane_sessions[j]).1.session_id != id,
    ensures
        place_of(tabs, id) == Some((t, tabs[t].pane_sessions[i].0)),
{
    lemma_session_found(tabs, id, t, i, 0);
}

proof fn lemma_session_found(tabs: Seq<LiveTabView>, id: Seq<char>, t: int, i: int, from: int)
    requires
        0 <= from <= t < tabs.len(),
        0 <= i < tabs[t].pane_sessions.len(),
        tabs[t].pane_sessions[i].1.session_id == id,
        forall|j: int| 0 <= j < i ==> (#[trigger] tabs[t].pane_sessions[j]).1.session_id != id,
        forall|u: int, j: int|
            0 <= u < t && 0 <= j < tabs[u].pane_sessions.len() ==> (
            #[trigger] tabs[u].pane_sessions[j]).1.session_id != id,
    ensures
        pane_of_session(tabs, id, from) == Some((t, tabs[t].pane_sessions[i].0)),
    decreases t - from,
{
    let rows = tabs[from].pane_sessions;
    let n = rows.len() as int;
    let p = |i: int| rows[i].1.session_id == id;
    if from == t {
        crate::seqs::lemma_first_where_is(0, n, p, i);
    } else {
        assert forall|j: int| 0 <= j < n implies !#[trigger] p(j) by {
            assert(tabs[from].pane_sessions[j].1.session_id != id);
        }
        crate::seqs::lemma_first_where_is(0, n, p, n);
        lemma_session_found(tabs, id, t, i, from + 1);
    }
}

/// A session that no tab has is found nowhere.
pub proof fn law_unknown_sessions_are_not_found(tabs: Seq<LiveTabView>, id: Seq<char>, from: int)
    requires
        0 <= from <= tabs.len(),
        forall|u: int, j: int|
            0 <= u < tabs.len() && 0 <= j < tabs[u].pane_sessions.len() ==> (
            #[trigger] tabs[u].pane_sessions[j]).1.session_id != id,
    ensures
        pane_of_session(tabs, id, from) is None,
    decreases tabs.len() - from,
{
    if from < tabs.len() {
        let rows = tabs[from].pane_sessions;
        let n = rows.len() as int;
        let p = |i: int| rows[i].1.session_id == id;
        assert forall|j: int| 0 <= j < n implies !#[trigger] p(j) by {
            assert(tabs[from].pane_sessions[j].1.session_id != id);
        }
        crate::seqs::lemma_first_where_is(0, n, p, n);
        law_unknown_sessions_are_not_found(tabs, id, from + 1);
    }
}

/// A row stays unless its pane was in the old layout and is not in the new one.
pub proof fn law_other_rows_are_kept<T>(
    rows: Seq<(PaneId, T)>,
    old_panes: Seq<PaneId>,
    new_panes: Seq<PaneId>,
    i: int,
)
    requires
        0 <= i < rows.len(),
        !old_panes.contains(rows[i].0) || new_panes.contains(rows[i].0),
    ensures
        kept_rows(rows, old_panes, new_panes).contains(rows[i]),
    decreases rows.len(),
{
    let all = kept_rows(rows, old_panes, new_panes);
    if i == rows.len() - 1 {
        assert(all.last() == rows[i]);
    } else {
        law_other_rows_are_kept(rows.drop_last(), old_panes, new_panes, i);
        let rest = kept_rows(rows.drop_last(), old_panes, new_panes);
        let k = choose|k: int| 0 <= k < rest.len() && rest[k] == rows.drop_last()[i];
        assert(all[k] == rows[i]);
    }
}

/// A tab with a new layout has the panes of the layout, in its order, and its focus.
pub proof fn law_tabs_take_over_layouts(tab: LiveTabView, layout: TabLayoutView, i: int)
    requires
        0 <= i < layout.panes.len(),
    ensures
        with_layout(tab, layout).panes.len() == layout.panes.len(),
        with_layout(tab, layout).panes[i] == layout.panes[i].1,
        with_layout(tab, layout).focus == layout.focus,
{
}

/// A pane that is new in a layout and has no screen gets one, and no other pane does.
pub proof fn law_new_panes_get_screens(tab: LiveTabView, layout: TabLayoutView, n: int, p: PaneId)
    requires
        0 <= n <= layout.panes.len(),
    ensures
        screenless(tab, layout, n).contains(p) <==> !tab.panes.contains(p) && tab.screen(p) is None
            && exists|i: int| 0 <= i < n && (#[trigger] layout.panes[i]).1 == p,
    decreases n,
{
    let all = screenless(tab, layout, n);
    if n > 0 {
        law_new_panes_get_screens(tab, layout, n - 1, p);
        let rest = screenless(tab, layout, n - 1);
        let q = layout.panes[n - 1].1;
        if all.contains(p) {
            let k = choose|k: int| 0 <= k < all.len() && all[k] == p;
            if k < rest.len() {
                assert(rest[k] == p);
                let i = choose|i: int| 0 <= i < n - 1 && (#[trigger] layout.panes[i]).1 == p;
                assert(layout.panes[i].1 == p);
            }
        }
        if rest.contains(p) {
            let k = choose|k: int| 0 <= k < rest.len() && rest[k] == p;
            assert(all[k] == p);
        }
        if q == p && !tab.panes.contains(p) && tab.screen(p) is None {
            assert(all.last() == p);
        }
        if exists|i: int| 0 <= i < n && (#[trigger] layout.panes[i]).1 == p {
            let i = choose|i: int| 0 <= i < n && (#[trigger] layout.panes[i]).1 == p;
            if i < n - 1 {
                assert(layout.panes[i].1 == p);
            }
        }
    }
}

/// Every pane whose screen differs from its size is to be resized, every pane without a screen is to
/// get one of its size, and nothing else is changed.
pub proof fn law_screens_are_fitted(
    tab: LiveTabView,
    sizes: Seq<(PaneId, u16, u16)>,
    i: int,
    change: ScreenChange,
)
    requires
        0 <= i < sizes.len(),
    ensures
        ({
            let (p, cols, rows) = sizes[i];
            let all = changes_for(tab, sizes);
            &&& tab.screen(p) is None ==> all.contains(ScreenChange::Create(p, cols, rows))
            &&& tab.screen(p) is Some && (tab.screen(p)->0.cols as u16 != cols || tab.screen(
                p,
            )->0.rows as u16 != rows) ==> all.contains(ScreenChange::Resize(p, cols, rows))
            &&& all.contains(change) ==> (match change {
                ScreenChange::Create(q, c, r) => sizes.contains((q, c, r)) && tab.screen(q) is None,
                ScreenChange::Resize(q, c, r) => sizes.contains((q, c, r)) && tab.screen(q) is Some
                    && (tab.screen(q)->0.cols as u16 != c || tab.screen(q)->0.rows as u16 != r),
            })
        }),
{
    lemma_change_made(tab, sizes, i);
    if changes_for(tab, sizes).contains(change) {
        lemma_change_source(tab, sizes, change);
    }
}

proof fn lemma_change_made(tab: LiveTabView, sizes: Seq<(PaneId, u16, u16)>, i: int)
    requires
        0 <= i < sizes.len(),
    ensures
        change_for(tab, sizes[i]) matches Some(c) ==> changes_for(tab, sizes).contains(c),
    decreases sizes.len(),
{
    let all = changes_for(tab, sizes);
    if let Some(c) = change_for(tab, sizes[i]) {
        if i == sizes.len() - 1 {
            assert(all.last() == c);
        } else {
            lemma_change_made(tab, sizes.drop_last(), i);
            let rest = changes_for(tab, sizes.drop_last());
            let k = choose|k: int| 0 <= k < rest.len() && rest[k] == c;
            assert(all[k] == c);
        }
    }
}

proof fn lemma_change_source(
    tab: LiveTabView,
    sizes: Seq<(PaneId, u16, u16)>,
    change: ScreenChange,
)
    requires
        changes_for(tab, sizes).contains(change),
    ensures
        exists|i: int|
            0 <= i < sizes.len() && change_for(tab, #[trigger] sizes[i]) == Some(change),
    decreases sizes.len(),
{
    if sizes.len() > 0 {
        let all = changes_for(tab, sizes);
        let rest = changes_for(tab, sizes.drop_last());
        let k = choose|k: int| 0 <= k < all.len() && all[k] == change;
        if k < rest.len() {
            assert(rest[k] == change);
            lemma_change_source(tab, sizes.drop_last(), change);
            let i = choose|i: int|
                0 <= i < sizes.drop_last().len() && change_for(
                    tab,
                    #[trigger] sizes.drop_last()[i],
                ) == Some(change);
            assert(change_for(tab, sizes[i]) == Some(change));
        } else {
            assert(change_for(tab, sizes[sizes.len() - 1]) == Some(change));
        }
    }
}

/// The host is told the size of every pane that has a session, by the path of the pane.
pub proof fn law_sizes_are_told(tab: LiveTabView, sizes: Seq<(PaneId, u16, u16)>, i: int)
    requires
        0 <= i < sizes.len(),
    ensures
        tab.session(sizes[i].0) is Some ==> resizes_for(tab, sizes).contains(
            (tab.session(sizes[i].0)->0.pane_path, sizes[i].1, sizes[i].2),
        ),
        resizes_for(tab, sizes).len() <= sizes.len(),
    decreases sizes.len(),
{
    let all = resizes_for(tab, sizes);
    let rest = resizes_for(tab, sizes.drop_last());
    if i == sizes.len() - 1 {
        if sizes.len() > 1 {
            law_sizes_are_told(tab, sizes.drop_last(), 0);
        } else {
            assert(rest.len() == 0);
        }
        if tab.session(sizes[i].0) is Some {
            assert(all.last() == (tab.session(sizes[i].0)->0.pane_path, sizes[i].1, sizes[i].2));
        }
    } else {
        law_sizes_are_told(tab, sizes.drop_last(), i);
        if tab.session(sizes[i].0) is Some {
            let told = (tab.session(sizes[i].0)->0.pane_path, sizes[i].1, sizes[i].2);
            let k = choose|k: int| 0 <= k < rest.len() && rest[k] == told;
            assert(all[k] == told);
        }
    }
}

/// Each tab of the strip shows the progress of the session in its focused pane.
pub proof fn law_strips_show_the_focused_progress(
    s: StripView,
    tabs: Seq<LiveTabView>,
    n: int,
    i: int,
)
    requires
        0 <= i < s.tabs.len(),
        0 <= n <= tabs.len(),
    ensures
        ({
            let after = strip_progress(s, tabs, n);
            &&& after.tabs.len() == s.tabs.len()
            &&& after.tabs[i].name == s.tabs[i].name
            &&& after.active == s.active
            &&& i >= n ==> after.tabs[i].progress == s.tabs[i].progress
            &&& i < n ==> after.tabs[i].progress == (match tabs[i].session(tabs[i].focus) {
                Some(session) => session.progress,
                None => None,
            })
        }),
    decreases n,
{
    if n > 0 {
        law_strips_show_the_focused_progress(s, tabs, n - 1, i);
    }
}

/// The title of the window ends with the title of the focused pane, behind a dash, where it has one.
pub proof fn law_window_titles_end_with_the_pane_title(
    name: Seq<char>,
    strip: StripView,
    tab: LiveTabView,
    session: SessionView,
)
    requires
        tab.session(tab.focus) == Some(session),
    ensures
        ({
            let plain = crate::tab_strip::title_text(strip, name);
            let shown = window_text(name, strip, Some(tab));
            &&& session.title is Some && crate::text::trimmed(session.title->0).len() > 0 ==> shown
                == plain + " \u{2014} "@ + crate::text::trimmed(session.title->0)
            &&& session.title is None || crate::text::trimmed(session.title->0).len() == 0 ==> shown
                == plain
            &&& window_text(name, strip, None) == plain
        }),
{
}

/// A pane is called by the path of its session, or by its number where it has none; its name is the
/// last part of that.
pub proof fn law_what_panes_are_called(tab: LiveTabView, p: PaneId)
    ensures
        tab.session(p) is Some ==> host_target(tab, p) == tab.session(p)->0.pane_path,
        tab.session(p) is None ==> host_target(tab, p) == crate::text::decimal(p.0 as nat),
        p == tab.focus && tab.session(p) is None ==> focused_name(tab) == crate::text::decimal(
            p.0 as nat,
        ),
        p == tab.focus && tab.session(p) is Some ==> focused_name(tab)
            == crate::attention::short_name(tab.session(p)->0.pane_path),
{
}

/// What a pane has asked for is what its screen says; a pane without a screen has asked for nothing.
pub proof fn law_screens_say_what_is_asked_for(tab: LiveTabView, p: PaneId, text: Seq<char>)
    ensures
        tab.screen(p) is None ==> !reports_mouse(tab, p) && !modes_of(tab).dom().contains(p.0)
            && pasted(tab, p, text) == vstd::utf8::encode_utf8(text),
        tab.screen(p) is Some ==> {
            let screen = tab.screen(p)->0;
            &&& reports_mouse(tab, p) <==> screen.mouse_mode != MouseMode::Off
            &&& modes_of(tab).dom().contains(p.0)
            &&& modes_of(tab)[p.0] == screen.mouse_mode
            &&& !screen.bracketed_paste ==> pasted(tab, p, text) == vstd::utf8::encode_utf8(text)
            &&& screen.bracketed_paste ==> pasted(tab, p, text) == seq![
                0x1Bu8,
                0x5B,
                0x32,
                0x30,
                0x30,
                0x7E,
            ] + vstd::utf8::encode_utf8(text) + seq![0x1Bu8, 0x5B, 0x32, 0x30, 0x31, 0x7E]
        },
{
}

/// Input changes only how its own pane is shown, and that only where it is scrolled back or, where
/// selections are cleared, has one; and not at all on an alternate screen.
pub proof fn law_input_leaves_the_rest(
    m: MouseView,
    tab: LiveTabView,
    p: PaneId,
    clear: bool,
    q: PaneId,
)
    requires
        q != p,
    ensures
        live_input(m, tab, p, clear).1.pane(q) == m.pane(q),
        !clear ==> live_input(m, tab, p, clear).1.pane(p).selection == m.pane(p).selection,
        tab.screen(p) is None || tab.screen(p)->0.alternate ==> live_input(m, tab, p, clear) == (
            false,
            m,
        ),
        tab.screen(p) is Some && !tab.screen(p)->0.alternate ==> (live_input(m, tab, p, clear).0
            <==> m.pane(p).scroll_offset != 0 || (clear && m.pane(p).selection is Some)),
        !live_input(m, tab, p, clear).0 ==> live_input(m, tab, p, clear).1 == m,
{
}

/// A session fits its pane if it has exactly the size of the pane; a pane without a session fits.
pub proof fn law_sessions_fit(tab: LiveTabView, p: PaneId, cols: u16, rows: u16)
    ensures
        tab.session(p) is None ==> session_fits(tab, (p, cols, rows)),
        tab.session(p) is Some ==> (session_fits(tab, (p, cols, rows)) <==> tab.session(
            p,
        )->0.session_size == Some((cols, rows))),
{
}

} // verus!
