//! Rebuilding the tabs of a workspace from the state that the host sends on attach.
use vstd::prelude::*;

use crate::base64::base64_decode;
use crate::json::Json;
use crate::panes::{PaneId, PaneSession, ProgressInfo, SessionView};
use crate::text::{chars_of, push_decimal, str_eq, trim};

verus! {

broadcast use vstd::string::group_string_axioms;

/// The layout of a tab.
#[derive(Debug)]
pub struct TabLayout {
    /// The panes with their names, in the order of the layout.
    pub panes: Vec<(String, PaneId)>,
    /// The pane that has the focus where nothing else is said.
    pub focus: PaneId,
}

/// The model of a [`TabLayout`].
pub struct TabLayoutView {
    pub panes: Seq<(Seq<char>, PaneId)>,
    pub focus: PaneId,
}

impl TabLayoutView {
    /// Whether every pane is named once.
    pub open spec fn wf(self) -> bool {
        forall|i: int, j: int|
            0 <= i < j < self.panes.len() ==> (#[trigger] self.panes[i]).1 != (
            #[trigger] self.panes[j]).1
    }
}

impl View for TabLayout {
    type V = TabLayoutView;

    open spec fn view(&self) -> TabLayoutView {
        TabLayoutView {
            panes: self.panes@.map_values(|p: (String, PaneId)| (p.0@, p.1)),
            focus: self.focus,
        }
    }
}

/// What a screen is made from: its size, and the output to replay on it.
#[derive(Debug, PartialEq, Eq)]
pub struct ScreenSeed {
    pub cols: u16,
    pub rows: u16,
    pub data: Vec<u8>,
}

/// The model of a [`ScreenSeed`].
#[verifier::ext_equal]
pub struct SeedView {
    pub cols: u16,
    pub rows: u16,
    pub data: Seq<u8>,
}

impl View for ScreenSeed {
    type V = SeedView;

    open spec fn view(&self) -> SeedView {
        SeedView { cols: self.cols, rows: self.rows, data: self.data@ }
    }
}

/// The models of screen seeds by pane.
pub open spec fn seed_rows(v: Seq<(PaneId, ScreenSeed)>) -> Seq<(PaneId, SeedView)> {
    v.map_values(|r: (PaneId, ScreenSeed)| (r.0, r.1@))
}

/// Snapshot of one tab after attach.
#[derive(Debug)]
pub struct SnapshotTab {
    /// The pane that has the focus.
    pub focus: PaneId,
    /// The panes, in the order of the layout.
    pub panes: Vec<PaneId>,
    /// The sessions of the panes. A pane has at most one if the layout names it once.
    pub pane_sessions: Vec<(PaneId, PaneSession)>,
    /// The screens of the panes, one for each pane of the layout.
    pub screens: Vec<(PaneId, ScreenSeed)>,
}

/// The model of a [`SnapshotTab`].
#[verifier::ext_equal]
pub struct SnapshotTabView {
    pub focus: PaneId,
    pub panes: Seq<PaneId>,
    pub pane_sessions: Seq<(PaneId, SessionView)>,
    pub screens: Seq<(PaneId, SeedView)>,
}

impl View for SnapshotTab {
    type V = SnapshotTabView;

    open spec fn view(&self) -> SnapshotTabView {
        SnapshotTabView {
            focus: self.focus,
            panes: self.panes@,
            pane_sessions: crate::panes::session_rows(self.pane_sessions@),
            screens: seed_rows(self.screens@),
        }
    }
}

/// Output of [`rebuild_from_snapshot`].
#[derive(Debug)]
pub struct SnapshotRebuild {
    pub workspace_name: String,
    pub tab_names: Vec<String>,
    pub active_tab_index: usize,
    pub tabs: Vec<SnapshotTab>,
}

// ── Reading the state ────────────────────────────────────────────────────────

/// The name in a value, or a stand-in.
pub open spec fn name_or(v: Json, other: Seq<char>) -> Seq<char> {
    match v.field_text("name"@) {
        Some(s) => s,
        None => other,
    }
}

/// A session id: text, or a number in decimal.
pub open spec fn id_text(v: Json) -> Option<Seq<char>> {
    match v.uint() {
        Some(n) => Some(crate::text::decimal(n as nat)),
        None => v.text(),
    }
}

/// A number of cells.
pub open spec fn cell_count(v: Json, key: Seq<char>) -> Option<u16> {
    match v.field(key) {
        Some(j) => match j.uint() {
            Some(n) if n <= u16::MAX => Some(n as u16),
            _ => None,
        },
        None => None,
    }
}

/// Columns and rows.
pub open spec fn size_in(v: Json) -> Option<(u16, u16)> {
    match (cell_count(v, "cols"@), cell_count(v, "rows"@)) {
        (Some(cols), Some(rows)) => Some((cols, rows)),
        _ => None,
    }
}

/// The unsigned numbers among values, in order.
pub open spec fn uints(v: Seq<Json>) -> Seq<u64>
    decreases v.len(),
{
    if v.len() == 0 {
        Seq::empty()
    } else {
        match v.last().uint() {
            Some(n) => uints(v.drop_last()).push(n),
            None => uints(v.drop_last()),
        }
    }
}

/// What a table of the state holds for a session.
pub open spec fn session_entry(state: Json, table: Seq<char>, id: Seq<char>) -> Option<Json> {
    match state.field(table) {
        Some(t) => t.field(id),
        None => None,
    }
}

/// The session that is attached to a pane of the host.
pub open spec fn attached_id(state: Json, host_pane: u64) -> Option<Seq<char>> {
    match session_entry(state, "paneStates"@, crate::text::decimal(host_pane as nat)) {
        Some(ps) if ps.field_text("type"@) == Some("attached"@) => match ps.field("sessionId"@) {
            Some(v) => id_text(v),
            None => None,
        },
        _ => None,
    }
}

/// The size of a session.
pub open spec fn size_of_session(state: Json, id: Seq<char>) -> Option<(u16, u16)> {
    match session_entry(state, "sessionSizes"@, id) {
        Some(v) => size_in(v),
        None => None,
    }
}

/// The title of a session, unless it is blank.
pub open spec fn title_of_session(state: Json, id: Seq<char>) -> Option<Seq<char>> {
    match session_entry(state, "sessionTitles"@, id) {
        Some(v) => match v.text() {
            Some(t) if crate::text::trimmed(t).len() > 0 => Some(crate::text::trimmed(t)),
            _ => None,
        },
        None => None,
    }
}

/// The output of a session that is to be replayed.
pub open spec fn output_of_session(state: Json, id: Seq<char>) -> Seq<u8> {
    match session_entry(state, "sessionScreens"@, id) {
        Some(v) => match v.text() {
            Some(t) => crate::base64::decoded(t),
            None => Seq::empty(),
        },
        None => Seq::empty(),
    }
}

/// The progress of a session, out of a list by session id.
pub open spec fn progress_of(list: Seq<(String, ProgressInfo)>, id: Seq<char>) -> Option<
    ProgressInfo,
>
    decreases list.len(),
{
    if list.len() == 0 {
        None
    } else if list[0].0@ == id {
        Some(list[0].1)
    } else {
        progress_of(list.drop_first(), id)
    }
}

/// A tab of the state, with what belongs to it.
pub struct TabSource {
    pub state: Json,
    pub workspace_name: Seq<char>,
    pub tab: Json,
    pub layout: TabLayoutView,
    pub progress: Seq<(String, ProgressInfo)>,
    pub cols: u16,
    pub rows: u16,
}

impl TabSource {
    /// The panes of the host, in the order of the layout.
    pub open spec fn host_panes(self) -> Seq<u64> {
        match self.tab.field("panes"@) {
            Some(v) => match v.elements() {
                Some(e) => uints(e),
                None => Seq::empty(),
            },
            None => Seq::empty(),
        }
    }

    /// The session that is attached to the pane at `i`.
    pub open spec fn id_at(self, i: int) -> Option<Seq<char>> {
        if i < self.host_panes().len() {
            attached_id(self.state, self.host_panes()[i])
        } else {
            None
        }
    }

    /// The path of the pane at `i`.
    pub open spec fn path_at(self, i: int) -> Seq<char> {
        self.workspace_name + "/"@ + name_or(self.tab, "tab"@) + "/"@ + self.layout.panes[i].0
    }

    /// The session of the pane at `i`.
    pub open spec fn session_at(self, i: int) -> Option<SessionView> {
        match self.id_at(i) {
            Some(id) => Some(
                SessionView {
                    title: title_of_session(self.state, id),
                    progress: progress_of(self.progress, id),
                    host_pane_id: Some(crate::text::decimal(self.host_panes()[i] as nat)),
                    ..crate::panes::plain_session(
                        id,
                        self.path_at(i),
                        size_of_session(self.state, id),
                    )
                },
            ),
            None => None,
        }
    }

    /// The seed of the screen of the pane at `i`.
    pub open spec fn seed_at(self, i: int) -> SeedView {
        match self.id_at(i) {
            Some(id) => {
                let (cols, rows) = match size_of_session(self.state, id) {
                    Some(size) => size,
                    None => (self.cols, self.rows),
                };
                SeedView { cols, rows, data: output_of_session(self.state, id) }
            },
            None => SeedView { cols: self.cols, rows: self.rows, data: Seq::empty() },
        }
    }

    /// The sessions of the first `n` panes.
    pub open spec fn sessions(self, n: int) -> Seq<(PaneId, SessionView)>
        decreases n,
    {
        if n <= 0 {
            Seq::empty()
        } else {
            match self.session_at(n - 1) {
                Some(s) => self.sessions(n - 1).push((self.layout.panes[n - 1].1, s)),
                None => self.sessions(n - 1),
            }
        }
    }

    /// The pane that has the focus: the one that the tab names, if the layout has it.
    pub open spec fn focus(self) -> PaneId {
        match self.tab.field_text("focus"@) {
            Some(name) => {
                let panes = self.layout.panes;
                let i = crate::seqs::first_where(
                    0,
                    panes.len() as int,
                    |i: int| panes[i].0 == name,
                );
                if i < panes.len() {
                    panes[i].1
                } else {
                    self.layout.focus
                }
            },
            None => self.layout.focus,
        }
    }

    /// The tab that comes out.
    pub open spec fn rebuilt(self) -> SnapshotTabView {
        let n = self.layout.panes.len();
        SnapshotTabView {
            focus: self.focus(),
            panes: Seq::new(n, |i: int| self.layout.panes[i].1),
            pane_sessions: self.sessions(n as int),
            screens: Seq::new(n, |i: int| (self.layout.panes[i].1, self.seed_at(i))),
        }
    }
}

/// The tabs of the state.
pub open spec fn tabs_of(state: Json) -> Option<Seq<Json>> {
    match state.field("tabs"@) {
        Some(v) => v.elements(),
        None => None,
    }
}

/// Whether a tab lists the panes of the host.
pub open spec fn lists_panes(tab: Json) -> bool {
    tab.field("panes"@) is Some && tab.field("panes"@)->0.elements() is Some
}

/// Whether a tab of the state has a layout that could be read and lists its panes.
pub open spec fn tab_ready(state: Json, layouts: Seq<Option<TabLayout>>, i: int) -> bool {
    layouts[i] is Some && lists_panes(tabs_of(state)->0[i])
}

/// Whether the state can be rebuilt: it has tabs and pane states, and every tab has a layout that
/// could be read and lists its panes.
pub open spec fn rebuilds(state: Json, layouts: Seq<Option<TabLayout>>) -> bool {
    &&& tabs_of(state) is Some
    &&& state.field("paneStates"@) is Some && state.field("paneStates"@)->0.members() is Some
    &&& forall|i: int| 0 <= i < tabs_of(state)->0.len() ==> #[trigger] tab_ready(state, layouts, i)
}

/// The active tab that the state names.
pub open spec fn named_active(state: Json) -> int {
    match state.field("activeTabIndex"@) {
        Some(v) => match v.uint() {
            Some(n) if n <= usize::MAX => n as int,
            _ => 0,
        },
        None => 0,
    }
}

/// A tab of the state with what belongs to it.
pub open spec fn source_of(
    state: Json,
    tab: Json,
    layout: TabLayout,
    progress: Seq<(String, ProgressInfo)>,
    cols: u16,
    rows: u16,
) -> TabSource {
    TabSource {
        state,
        workspace_name: name_or(state, "workspace"@),
        tab,
        layout: layout@,
        progress,
        cols,
        rows,
    }
}

// ── Rebuilding ───────────────────────────────────────────────────────────────

/// The name in a value, or a stand-in.
fn read_name(v: &Json, other: &str) -> (r: String)
    ensures
        r@ == name_or(*v, other@),
{
    match v.get_str("name") {
        Some(s) => s.clone(),
        None => other.to_owned(),
    }
}

fn read_count(v: &Json, key: &str) -> (r: Option<u16>)
    ensures
        r == cell_count(*v, key@),
{
    match v.get(key) {
        Some(j) => match j.as_u64() {
            Some(n) => if n <= u16::MAX as u64 {
                Some(n as u16)
            } else {
                None
            },
            None => None,
        },
        None => None,
    }
}

/// Columns and rows out of a value.
pub fn session_size_from_value(v: &Json) -> (r: Option<(u16, u16)>)
    ensures
        r == size_in(*v),
{
    let cols: Option<u16> = read_count(v, "cols");
    let rows: Option<u16> = read_count(v, "rows");
    match (cols, rows) {
        (Some(c), Some(w)) => Some((c, w)),
        _ => None,
    }
}

/// A session id out of a value: text, or a number in decimal.
pub fn session_id_string(v: &Json) -> (r: Option<String>)
    ensures
        crate::text::opt_text(r) == id_text(*v),
{
    if let Some(n) = v.as_u64() {
        let mut s = String::new();
        push_decimal(&mut s, n);
        assert(s@ =~= crate::text::decimal(n as nat));
        return Some(s);
    }
    match v.as_str() {
        Some(s) => Some(s.clone()),
        None => None,
    }
}

fn read_entry<'a>(state: &'a Json, table: &str, id: &str) -> (r: Option<&'a Json>)
    ensures
        match r {
            Some(j) => session_entry(*state, table@, id@) == Some(*j),
            None => session_entry(*state, table@, id@) is None,
        },
{
    match state.get(table) {
        Some(t) => t.get(id),
        None => None,
    }
}

fn read_attached(state: &Json, host_pane: u64) -> (r: Option<String>)
    ensures
        crate::text::opt_text(r) == attached_id(*state, host_pane),
{
    let mut key = String::new();
    push_decimal(&mut key, host_pane);
    assert(key@ =~= crate::text::decimal(host_pane as nat));
    match read_entry(state, "paneStates", key.as_str()) {
        Some(ps) => match ps.get_str("type") {
            Some(t) => if str_eq(t.as_str(), "attached") {
                match ps.get("sessionId") {
                    Some(v) => session_id_string(v),
                    None => None,
                }
            } else {
                None
            },
            None => None,
        },
        None => None,
    }
}

fn read_title(state: &Json, id: &str) -> (r: Option<String>)
    ensures
        crate::text::opt_text(r) == title_of_session(*state, id@),
{
    match read_entry(state, "sessionTitles", id) {
        Some(v) => match v.as_str() {
            Some(t) => {
                let title = trim(t.as_str());
                if chars_of(title.as_str()).len() > 0 {
                    Some(title)
                } else {
                    None
                }
            },
            None => None,
        },
        None => None,
    }
}

fn read_output(state: &Json, id: &str) -> (r: Vec<u8>)
    ensures
        r@ == output_of_session(*state, id@),
{
    match read_entry(state, "sessionScreens", id) {
        Some(v) => match v.as_str() {
            Some(t) => base64_decode(t.as_str()),
            None => Vec::new(),
        },
        None => Vec::new(),
    }
}

fn read_progress(list: &Vec<(String, ProgressInfo)>, id: &str) -> (r: Option<ProgressInfo>)
    ensures
        r == progress_of(list@, id@),
{
    let mut i: usize = 0;
    assert(list@.skip(0) =~= list@);
    while i < list.len()
        invariant
            i <= list@.len(),
            progress_of(list@.skip(i as int), id@) == progress_of(list@, id@),
        decreases list.len() - i,
    {
        assert(list@.skip(i as int)[0] == list@[i as int]);
        assert(list@.skip(i as int).drop_first() =~= list@.skip(i + 1));
        if str_eq(list[i].0.as_str(), id) {
            return Some(list[i].1);
        }
        i += 1;
    }
    None
}

fn read_uints(v: &Vec<Json>) -> (r: Vec<u64>)
    ensures
        r@ == uints(v@),
{
    let mut out: Vec<u64> = Vec::new();
    let mut i: usize = 0;
    assert(v@.take(0) =~= Seq::empty());
    while i < v.len()
        invariant
            i <= v@.len(),
            out@ == uints(v@.take(i as int)),
        decreases v.len() - i,
    {
        assert(v@.take(i + 1).drop_last() =~= v@.take(i as int));
        if let Some(n) = v[i].as_u64() {
            out.push(n);
        }
        i += 1;
    }
    assert(v@.take(i as int) =~= v@);
    out
}

fn read_focus(tab: &Json, layout: &TabLayout, Ghost(src): Ghost<TabSource>) -> (r: PaneId)
    requires
        src.tab == *tab,
        src.layout == layout@,
    ensures
        r == src.focus(),
{
    match tab.get_str("focus") {
        Some(name) => {
            let ghost panes = layout@.panes;
            let ghost want = name@;
            let ghost p = |i: int| panes[i].0 == want;
            let mut i: usize = 0;
            while i < layout.panes.len()
                invariant
                    i <= layout.panes@.len(),
                    panes == layout@.panes,
                    want == name@,
                    p == (|i: int| panes[i].0 == want),
                    forall|j: int| 0 <= j < i ==> !#[trigger] p(j),
                    src.tab == *tab,
                    src.layout == layout@,
                    tab.field_text("focus"@) == Some(name@),
                decreases layout.panes.len() - i,
            {
                if str_eq(layout.panes[i].0.as_str(), name.as_str()) {
                    proof {
                        assert(p(i as int));
                        crate::seqs::lemma_first_where_is(0, panes.len() as int, p, i as int);
                    }
                    return layout.panes[i].1;
                }
                assert(!p(i as int));
                i += 1;
            }
            proof {
                crate::seqs::lemma_first_where_is(0, panes.len() as int, p, i as int);
            }
            layout.focus
        },
        None => layout.focus,
    }
}

/// Rebuilds one tab.
fn rebuild_tab(
    state: &Json,
    workspace_name: &str,
    tab: &Json,
    host_panes: &Vec<u64>,
    layout: &TabLayout,
    progress: &Vec<(String, ProgressInfo)>,
    cols: u16,
    rows: u16,
) -> (r: SnapshotTab)
    requires
        workspace_name@ == name_or(*state, "workspace"@),
        host_panes@ == source_of(*state, *tab, *layout, progress@, cols, rows).host_panes(),
    ensures
        r@ == source_of(*state, *tab, *layout, progress@, cols, rows).rebuilt(),
{
    let ghost src = source_of(*state, *tab, *layout, progress@, cols, rows);
    let tab_name = read_name(tab, "tab");
    let focus = read_focus(tab, layout, Ghost(src));
    let mut panes: Vec<PaneId> = Vec::new();
    let mut sessions: Vec<(PaneId, PaneSession)> = Vec::new();
    let mut screens: Vec<(PaneId, ScreenSeed)> = Vec::new();
    let mut i: usize = 0;
    assert(crate::panes::session_rows(sessions@) =~= Seq::empty());
    while i < layout.panes.len()
        invariant
            i <= layout.panes@.len(),
            src == source_of(*state, *tab, *layout, progress@, cols, rows),
            workspace_name@ == src.workspace_name,
            tab_name@ == name_or(*tab, "tab"@),
            host_panes@ == src.host_panes(),
            panes@.len() == i,
            forall|j: int| 0 <= j < i ==> panes@[j] == src.layout.panes[j].1,
            crate::panes::session_rows(sessions@) == src.sessions(i as int),
            screens@.len() == i,
            forall|j: int|
                0 <= j < i ==> (#[trigger] screens@[j]).0 == src.layout.panes[j].1
                    && screens@[j].1@ == src.seed_at(j),
        decreases layout.panes.len() - i,
    {
        let pane = layout.panes[i].1;
        let mut seed = ScreenSeed { cols, rows, data: Vec::new() };
        assert(seed@.data =~= Seq::empty());
        let ghost before = sessions@;
        if i < host_panes.len() {
            if let Some(id) = read_attached(state, host_panes[i]) {
                let size: Option<(u16, u16)> = match read_entry(
                    state,
                    "sessionSizes",
                    id.as_str(),
                ) {
                    Some(v) => session_size_from_value(v),
                    None => None,
                };
                if let Some((c, w)) = size {
                    seed.cols = c;
                    seed.rows = w;
                }
                seed.data = read_output(state, id.as_str());
                let mut path = workspace_name.to_owned();
                path.append("/");
                path.append(tab_name.as_str());
                path.append("/");
                path.append(layout.panes[i].0.as_str());
                assert(path@ =~= src.path_at(i as int));
                let title = read_title(state, id.as_str());
                let done = read_progress(progress, id.as_str());
                let mut host_key = String::new();
                push_decimal(&mut host_key, host_panes[i]);
                assert(host_key@ =~= crate::text::decimal(host_panes@[i as int] as nat));
                let mut session = PaneSession::new(id, path, size);
                session.title = title;
                session.progress = done;
                session.host_pane_id = Some(host_key);
                assert(src.session_at(i as int) == Some(session@));
                sessions.push((pane, session));
                assert(crate::panes::session_rows(sessions@) =~= crate::panes::session_rows(
                    before,
                ).push((pane, session@)));
            }
        }
        assert(seed@ =~= src.seed_at(i as int));
        panes.push(pane);
        screens.push((pane, seed));
        i += 1;
    }
    let r = SnapshotTab { focus, panes, pane_sessions: sessions, screens };
    assert(r@ =~= src.rebuilt());
    r
}

/// Rebuild the UI-side tabs, pane to session mappings, and screen seeds from the state that came
/// with the attach reply.
///
/// `layouts` holds the layout of each tab, as far as it could be read, and `progress` the
/// progress of each session whose progress could be read.
pub fn rebuild_from_snapshot(
    state: &Json,
    layouts: &Vec<Option<TabLayout>>,
    progress: &Vec<(String, ProgressInfo)>,
    cols: u16,
    rows: u16,
) -> (r: Option<SnapshotRebuild>)
    requires
        tabs_of(*state) matches Some(tabs) ==> layouts@.len() == tabs.len(),
    ensures
        r is Some <==> rebuilds(*state, layouts@),
        r matches Some(x) ==> {
            let tabs = tabs_of(*state)->0;
            &&& x.workspace_name@ == name_or(*state, "workspace"@)
            &&& x.tab_names@.len() == tabs.len()
            &&& forall|i: int|
                0 <= i < tabs.len() ==> (#[trigger] x.tab_names@[i])@ == name_or(tabs[i], "tab"@)
            &&& x.tabs@.len() == tabs.len()
            &&& forall|i: int|
                0 <= i < tabs.len() ==> (#[trigger] x.tabs@[i])@ == source_of(
                    *state,
                    tabs[i],
                    layouts@[i]->0,
                    progress@,
                    cols,
                    rows,
                ).rebuilt()
            &&& x.active_tab_index == if tabs.len() == 0 {
                0
            } else if named_active(*state) < tabs.len() {
                named_active(*state)
            } else {
                tabs.len() - 1
            }
        },
{
    let workspace_name = read_name(state, "workspace");
    let tabs = match state.get("tabs") {
        Some(v) => match v.as_array() {
            Some(a) => a,
            None => return None,
        },
        None => return None,
    };
    match state.get("paneStates") {
        Some(v) => match v.as_object() {
            Some(_) => {},
            None => return None,
        },
        None => return None,
    }
    let named: usize = match state.get("activeTabIndex") {
        Some(v) => match v.as_u64() {
            Some(n) => if n <= usize::MAX as u64 {
                n as usize
            } else {
                0
            },
            None => 0,
        },
        None => 0,
    };
    let mut tab_names: Vec<String> = Vec::new();
    let mut rebuilt: Vec<SnapshotTab> = Vec::new();
    let mut i: usize = 0;
    while i < tabs.len()
        invariant
            i <= tabs@.len(),
            tabs_of(*state) == Some(tabs@),
            layouts@.len() == tabs@.len(),
            workspace_name@ == name_or(*state, "workspace"@),
            tab_names@.len() == i,
            forall|j: int|
                0 <= j < i ==> (#[trigger] tab_names@[j])@ == name_or(tabs@[j], "tab"@),
            rebuilt@.len() == i,
            forall|j: int|
                0 <= j < i ==> (#[trigger] rebuilt@[j])@ == source_of(
                    *state,
                    tabs@[j],
                    layouts@[j]->0,
                    progress@,
                    cols,
                    rows,
                ).rebuilt(),
            forall|j: int| 0 <= j < i ==> (#[trigger] layouts@[j]) is Some,
            forall|j: int| 0 <= j < i ==> lists_panes(#[trigger] tabs@[j]),
        decreases tabs.len() - i,
    {
        let layout = match &layouts[i] {
            Some(l) => l,
            None => {
                assert(!tab_ready(*state, layouts@, i as int));
                return None;
            },
        };
        let host_panes = match tabs[i].get("panes") {
            Some(v) => match v.as_array() {
                Some(a) => read_uints(a),
                None => {
                    assert(!tab_ready(*state, layouts@, i as int));
                    return None;
                },
            },
            None => {
                assert(!tab_ready(*state, layouts@, i as int));
                return None;
            },
        };
        assert(layouts@[i as int] is Some);
        assert(lists_panes(tabs@[i as int]));
        tab_names.push(read_name(&tabs[i], "tab"));
        rebuilt.push(
            rebuild_tab(
                state,
                workspace_name.as_str(),
                &tabs[i],
                &host_panes,
                layout,
                progress,
                cols,
                rows,
            ),
        );
        i += 1;
    }
    let active_tab_index: usize = if rebuilt.len() == 0 {
        0
    } else if named < rebuilt.len() {
        named
    } else {
        rebuilt.len() - 1
    };
    Some(SnapshotRebuild { workspace_name, tab_names, active_tab_index, tabs: rebuilt })
}

// ── Laws ─────────────────────────────────────────────────────────────────────

/// Every pane of the layout has a screen, and every session belongs to a pane of the layout.
pub proof fn law_panes_have_screens(src: TabSource)
    ensures
        src.rebuilt().screens.len() == src.rebuilt().panes.len(),
        forall|i: int|
            0 <= i < src.rebuilt().panes.len() ==> (#[trigger] src.rebuilt().screens[i]).0
                == src.rebuilt().panes[i],
        forall|i: int|
            0 <= i < src.rebuilt().pane_sessions.len() ==> src.rebuilt().panes.contains(
                (#[trigger] src.rebuilt().pane_sessions[i]).0,
            ),
{
    lemma_sessions_in_layout(src, src.layout.panes.len() as int);
}

proof fn lemma_sessions_in_layout(src: TabSource, n: int)
    requires
        0 <= n <= src.layout.panes.len(),
    ensures
        forall|i: int|
            0 <= i < src.sessions(n).len() ==> src.rebuilt().panes.contains(
                (#[trigger] src.sessions(n)[i]).0,
            ),
    decreases n,
{
    if n > 0 {
        lemma_sessions_in_layout(src, n - 1);
        assert forall|i: int| 0 <= i < src.sessions(n).len() implies src.rebuilt().panes.contains(
            (#[trigger] src.sessions(n)[i]).0,
        ) by {
            if i < src.sessions(n - 1).len() {
                assert(src.sessions(n)[i] == src.sessions(n - 1)[i]);
            } else {
                assert(src.rebuilt().panes[n - 1] == src.sessions(n)[i].0);
            }
        }
    }
}

/// If the layout names every pane once, no pane has more than one screen or more than one session.
pub proof fn law_one_row_per_pane(src: TabSource)
    requires
        src.layout.wf(),
    ensures
        crate::panes::one_row_each(src.rebuilt().screens),
        crate::panes::one_row_each(src.rebuilt().pane_sessions),
{
    assert forall|i: int, j: int| 0 <= i < j < src.rebuilt().screens.len() implies (
    #[trigger] src.rebuilt().screens[i]).0 != (#[trigger] src.rebuilt().screens[j]).0 by {
        assert(src.layout.panes[i].1 != src.layout.panes[j].1);
    }
    lemma_sessions_distinct(src, src.layout.panes.len() as int);
}

proof fn lemma_sessions_distinct(src: TabSource, n: int)
    requires
        src.layout.wf(),
        0 <= n <= src.layout.panes.len(),
    ensures
        crate::panes::one_row_each(src.sessions(n)),
        forall|i: int|
            0 <= i < src.sessions(n).len() ==> exists|k: int|
                0 <= k < n && (#[trigger] src.sessions(n)[i]).0 == (
                #[trigger] src.layout.panes[k]).1,
    decreases n,
{
    if n > 0 {
        let rows = src.sessions(n);
        let rest = src.sessions(n - 1);
        lemma_sessions_distinct(src, n - 1);
        assert forall|i: int| 0 <= i < rows.len() implies exists|k: int|
            0 <= k < n && (#[trigger] rows[i]).0 == (#[trigger] src.layout.panes[k]).1 by {
            if i < rest.len() {
                assert(rows[i] == rest[i]);
            } else {
                assert(rows[i].0 == src.layout.panes[n - 1].1);
            }
        }
        assert forall|i: int, j: int| 0 <= i < j < rows.len() implies (#[trigger] rows[i]).0 != (
        #[trigger] rows[j]).0 by {
            assert(rows[i] == rest[i]);
            let k = choose|k: int|
                0 <= k < n - 1 && rest[i].0 == (#[trigger] src.layout.panes[k]).1;
            if j < rest.len() {
                assert(rest[i].0 != rest[j].0);
            } else {
                assert(src.layout.panes[k].1 != src.layout.panes[n - 1].1);
            }
        }
    }
}

/// Output that was encoded for the state is what gets replayed.
pub proof fn law_output_is_replayed(state: Json, id: Seq<char>, data: Seq<u8>, v: Json)
    requires
        session_entry(state, "sessionScreens"@, id) == Some(v),
        v.text() == Some(crate::base64::encoded(data)),
    ensures
        output_of_session(state, id) == data,
{
    crate::base64::law_decode_undoes_encode(data);
}

/// The panes of the host are the numbers in the list, in order: where all elements up to a place
/// are numbers, the host pane at that place is the number there.
pub proof fn law_host_panes_are_listed(v: Seq<Json>, i: int)
    requires
        0 <= i < v.len(),
        forall|j: int| 0 <= j <= i ==> (#[trigger] v[j]) is UInt,
    ensures
        i < uints(v).len() <= v.len(),
        v[i] == Json::UInt(uints(v)[i]),
    decreases v.len(),
{
    if i < v.len() - 1 {
        law_host_panes_are_listed(v.drop_last(), i);
        assert(v.drop_last()[i] == v[i]);
    } else {
        lemma_all_uints(v.drop_last());
        assert(v[i] == v.last());
    }
}

proof fn lemma_all_uints(v: Seq<Json>)
    requires
        forall|j: int| 0 <= j < v.len() ==> (#[trigger] v[j]) is UInt,
    ensures
        uints(v).len() == v.len(),
    decreases v.len(),
{
    if v.len() > 0 {
        lemma_all_uints(v.drop_last());
        assert(v[v.len() - 1] is UInt);
    }
}

/// An element that is no number stands for no pane: the list reads as if it were not there.
pub proof fn law_other_elements_are_no_panes(v: Seq<Json>, i: int)
    requires
        0 <= i < v.len(),
        !(v[i] is UInt),
    ensures
        uints(v) == uints(v.remove(i)),
    decreases v.len(),
{
    if i == v.len() - 1 {
        assert(v.remove(i) =~= v.drop_last());
    } else {
        law_other_elements_are_no_panes(v.drop_last(), i);
        assert(v.remove(i).drop_last() =~= v.drop_last().remove(i));
        assert(v.remove(i).last() == v.last());
    }
}

/// Whether the state says that a pane of the host is attached to a session: its entry among the
/// pane states is of the type "attached" and names the session, by a text or by a number.
pub open spec fn says_attached(state: Json, host: u64, id: Seq<char>) -> bool {
    &&& state.field("paneStates"@) matches Some(states)
    &&& states.field(crate::text::decimal(host as nat)) matches Some(entry)
    &&& entry.field("type"@) matches Some(Json::Str(kind))
    &&& kind@ == "attached"@
    &&& entry.field("sessionId"@) matches Some(named)
    &&& match named {
        Json::UInt(n) => id == crate::text::decimal(n as nat),
        Json::Str(s) => id == s@,
        _ => false,
    }
}

/// Whether the state says that a session has a size.
pub open spec fn says_size(state: Json, id: Seq<char>, cols: u16, rows: u16) -> bool {
    &&& state.field("sessionSizes"@) matches Some(sizes)
    &&& sizes.field(id) matches Some(size)
    &&& size.field("cols"@) == Some(Json::UInt(cols as u64))
    &&& size.field("rows"@) == Some(Json::UInt(rows as u64))
}

proof fn lemma_session_row(src: TabSource, n: int, i: int) -> (k: int)
    requires
        0 <= i < n <= src.layout.panes.len(),
        src.session_at(i) is Some,
    ensures
        0 <= k < src.sessions(n).len(),
        src.sessions(n)[k] == (src.layout.panes[i].1, src.session_at(i)->0),
    decreases n,
{
    if i == n - 1 {
        src.sessions(n).len() - 1
    } else {
        lemma_session_row(src, n - 1, i)
    }
}

/// Every pane whose host pane is attached to a session gets that session, whichever pane it is: a
/// row for the pane holds the session's ID and the host pane, and the path of the pane is made of
/// the names of the workspace, the tab and the pane.
pub proof fn law_attached_panes_get_their_sessions(src: TabSource, i: int, id: Seq<char>)
    requires
        0 <= i < src.layout.panes.len(),
        i < src.host_panes().len(),
        says_attached(src.state, src.host_panes()[i], id),
    ensures
        exists|k: int|
            0 <= k < src.rebuilt().pane_sessions.len() && (
            #[trigger] src.rebuilt().pane_sessions[k]).0 == src.layout.panes[i].1
                && src.rebuilt().pane_sessions[k].1.session_id == id
                && src.rebuilt().pane_sessions[k].1.host_pane_id == Some(
                crate::text::decimal(src.host_panes()[i] as nat),
            ) && src.rebuilt().pane_sessions[k].1.pane_path == src.workspace_name + "/"@ + (
            match src.tab.field("name"@) {
                Some(Json::Str(name)) => name@,
                _ => "tab"@,
            }) + "/"@ + src.layout.panes[i].0,
{
    let k = lemma_session_row(src, src.layout.panes.len() as int, i);
    assert(src.rebuilt().pane_sessions[k].0 == src.layout.panes[i].1);
}

/// The screen of a pane that is attached to a session starts with the size of the session, and the
/// session is known by that size. Where the state gives no size, the screen is as large as the
/// window allows.
pub proof fn law_attached_screens_have_the_session_size(
    src: TabSource,
    i: int,
    id: Seq<char>,
    cols: u16,
    rows: u16,
)
    requires
        0 <= i < src.layout.panes.len(),
        i < src.host_panes().len(),
        says_attached(src.state, src.host_panes()[i], id),
    ensures
        src.rebuilt().screens[i].0 == src.layout.panes[i].1,
        says_size(src.state, id, cols, rows) ==> {
            &&& src.rebuilt().screens[i].1.cols == cols
            &&& src.rebuilt().screens[i].1.rows == rows
            &&& exists|k: int|
                0 <= k < src.rebuilt().pane_sessions.len() && (
                #[trigger] src.rebuilt().pane_sessions[k]).0 == src.layout.panes[i].1
                    && src.rebuilt().pane_sessions[k].1.session_id == id
                    && src.rebuilt().pane_sessions[k].1.session_size == Some((cols, rows))
        },
        (forall|c: u16, r: u16| !says_size(src.state, id, c, r)) ==> {
            &&& src.rebuilt().screens[i].1.cols == src.cols
            &&& src.rebuilt().screens[i].1.rows == src.rows
        },
{
    let k = lemma_session_row(src, src.layout.panes.len() as int, i);
    assert(src.rebuilt().pane_sessions[k].0 == src.layout.panes[i].1);
    if let Some((c, r)) = size_of_session(src.state, id) {
        assert(says_size(src.state, id, c, r));
    }
}

/// The screen of a pane that is attached to a session replays what the session has put out: the
/// bytes that the state holds in encoded form, and none where it holds none.
pub proof fn law_attached_screens_replay_the_output(
    src: TabSource,
    i: int,
    id: Seq<char>,
    data: Seq<u8>,
)
    requires
        0 <= i < src.layout.panes.len(),
        i < src.host_panes().len(),
        says_attached(src.state, src.host_panes()[i], id),
    ensures
        (src.state.field("sessionScreens"@) matches Some(screens) && screens.field(id) matches Some(
            Json::Str(s),
        ) && s@ == crate::base64::encoded(data)) ==> src.rebuilt().screens[i].1.data == data,
        (src.state.field("sessionScreens"@) matches Some(screens) ==> !(screens.field(
            id,
        ) matches Some(Json::Str(_)))) ==> src.rebuilt().screens[i].1.data.len() == 0,
{
    crate::base64::law_decode_undoes_encode(data);
}

/// A pane that is attached to no session has no session, and a blank screen as large as the window
/// allows.
pub proof fn law_other_panes_have_no_session(src: TabSource, i: int)
    requires
        src.layout.wf(),
        0 <= i < src.layout.panes.len(),
        i < src.host_panes().len() ==> forall|id: Seq<char>|
            !#[trigger] says_attached(src.state, src.host_panes()[i], id),
    ensures
        forall|k: int|
            0 <= k < src.rebuilt().pane_sessions.len() ==> (
            #[trigger] src.rebuilt().pane_sessions[k]).0 != src.layout.panes[i].1,
        src.rebuilt().screens[i] == (
            src.layout.panes[i].1,
            (SeedView { cols: src.cols, rows: src.rows, data: Seq::empty() }),
        ),
{
    if i < src.host_panes().len() {
        if let Some(id) = attached_id(src.state, src.host_panes()[i]) {
            assert(says_attached(src.state, src.host_panes()[i], id));
        }
    }
    assert(src.session_at(i) is None);
    lemma_no_session_row(src, src.layout.panes.len() as int, i);
}

proof fn lemma_no_session_row(src: TabSource, n: int, i: int)
    requires
        src.layout.wf(),
        0 <= i < src.layout.panes.len(),
        0 <= n <= src.layout.panes.len(),
        src.session_at(i) is None,
    ensures
        forall|k: int|
            0 <= k < src.sessions(n).len() ==> (#[trigger] src.sessions(n)[k]).0
                != src.layout.panes[i].1,
    decreases n,
{
    if n > 0 {
        lemma_no_session_row(src, n - 1, i);
        assert forall|k: int| 0 <= k < src.sessions(n).len() implies (
        #[trigger] src.sessions(n)[k]).0 != src.layout.panes[i].1 by {
            if k < src.sessions(n - 1).len() {
                assert(src.sessions(n)[k] == src.sessions(n - 1)[k]);
            } else if i < n - 1 {
                assert(src.layout.panes[i].1 != src.layout.panes[n - 1].1);
            } else if n - 1 < i {
                assert(src.layout.panes[n - 1].1 != src.layout.panes[i].1);
            }
        }
    }
}

/// A session has the title that the state gives it, without the white space around it, and none
/// where that leaves nothing.
pub proof fn law_sessions_have_their_titles(
    src: TabSource,
    i: int,
    id: Seq<char>,
    titles: Json,
    title: Seq<char>,
)
    requires
        0 <= i < src.layout.panes.len(),
        i < src.host_panes().len(),
        says_attached(src.state, src.host_panes()[i], id),
        src.state.field("sessionTitles"@) == Some(titles),
        titles.field(id) matches Some(Json::Str(s)) && s@ == title,
    ensures
        exists|k: int|
            0 <= k < src.rebuilt().pane_sessions.len() && (
            #[trigger] src.rebuilt().pane_sessions[k]).0 == src.layout.panes[i].1
                && src.rebuilt().pane_sessions[k].1.session_id == id
                && src.rebuilt().pane_sessions[k].1.title == (if (forall|j: int|
                0 <= j < title.len() ==> crate::text::is_space(#[trigger] title[j])) {
                None
            } else {
                Some(crate::text::trimmed(title))
            }),
{
    let k = lemma_session_row(src, src.layout.panes.len() as int, i);
    assert(src.rebuilt().pane_sessions[k].0 == src.layout.panes[i].1);
    crate::text::lemma_blank(title);
}

/// A tab keeps the panes of its layout in order. The pane that the tab names has the focus, the
/// first where several have that name, and else the one that the layout focuses.
pub proof fn law_panes_and_focus_are_those_of_the_layout(src: TabSource, i: int)
    requires
        0 <= i < src.layout.panes.len(),
    ensures
        src.rebuilt().panes.len() == src.layout.panes.len(),
        src.rebuilt().panes[i] == src.layout.panes[i].1,
        (src.tab.field("focus"@) matches Some(Json::Str(name)) && src.layout.panes[i].0 == name@
            && forall|j: int| 0 <= j < i ==> (#[trigger] src.layout.panes[j]).0 != name@)
            ==> src.rebuilt().focus == src.layout.panes[i].1,
        (src.tab.field("focus"@) matches Some(Json::Str(name)) ==> forall|j: int|
            0 <= j < src.layout.panes.len() ==> (#[trigger] src.layout.panes[j]).0 != name@)
            ==> src.rebuilt().focus == src.layout.focus,
{
    if let Some(Json::Str(name)) = src.tab.field("focus"@) {
        let panes = src.layout.panes;
        let want = name@;
        let p = |i: int| panes[i].0 == want;
        let n = panes.len() as int;
        if forall|j: int| 0 <= j < i ==> (#[trigger] panes[j]).0 != want {
            if panes[i].0 == want {
                crate::seqs::lemma_first_where_is(0, n, p, i);
            }
        }
        if forall|j: int| 0 <= j < n ==> (#[trigger] panes[j]).0 != want {
            crate::seqs::lemma_first_where_is(0, n, p, n);
        }
    }
}

/// The progress of a session is that of the first entry with its ID.
pub proof fn law_progress_is_looked_up(list: Seq<(String, ProgressInfo)>, id: Seq<char>, i: int)
    requires
        0 <= i <= list.len(),
        forall|j: int| 0 <= j < i ==> (#[trigger] list[j]).0@ != id,
        i < list.len() ==> list[i].0@ == id,
    ensures
        progress_of(list, id) == (if i < list.len() {
            Some(list[i].1)
        } else {
            None
        }),
    decreases list.len(),
{
    if i > 0 {
        assert(list[0].0@ != id);
        assert forall|j: int| 0 <= j < i - 1 implies (#[trigger] list.drop_first()[j]).0@ != id by {
            assert(list[j + 1].0@ != id);
        }
        law_progress_is_looked_up(list.drop_first(), id, i - 1);
    }
}

/// A state is rebuilt if it lists tabs, each with a layout that could be read and a list of panes,
/// and holds an object of pane states.
pub proof fn law_complete_states_are_rebuilt(
    state: Json,
    layouts: Seq<Option<TabLayout>>,
    tabs: Vec<Json>,
    panes: Vec<(String, Json)>,
)
    requires
        state.field("tabs"@) == Some(Json::Array(tabs)),
        state.field("paneStates"@) == Some(Json::Object(panes)),
        layouts.len() == tabs@.len(),
        forall|i: int| 0 <= i < layouts.len() ==> (#[trigger] layouts[i]) is Some,
        forall|i: int|
            0 <= i < tabs@.len() ==> (#[trigger] tabs@[i]).field("panes"@) is Some && tabs@[i].field(
                "panes"@,
            )->0 is Array,
    ensures
        rebuilds(state, layouts),
{
    assert forall|i: int| 0 <= i < tabs@.len() implies #[trigger] tab_ready(state, layouts, i) by {
        assert(layouts[i] is Some);
        assert(tabs@[i].field("panes"@) is Some);
    }
}

/// A state is not rebuilt if anything of that is missing.
pub proof fn law_incomplete_states_are_not_rebuilt(
    state: Json,
    layouts: Seq<Option<TabLayout>>,
    i: int,
)
    requires
        rebuilds(state, layouts),
    ensures
        state.field("tabs"@) is Some,
        state.field("tabs"@)->0 is Array,
        state.field("paneStates"@) is Some,
        state.field("paneStates"@)->0 is Object,
        0 <= i < state.field("tabs"@)->0->Array_0@.len() ==> {
            &&& layouts[i] is Some
            &&& state.field("tabs"@)->0->Array_0@[i].field("panes"@) is Some
            &&& state.field("tabs"@)->0->Array_0@[i].field("panes"@)->0 is Array
        },
{
    if 0 <= i < state.field("tabs"@)->0->Array_0@.len() {
        assert(tab_ready(state, layouts, i));
    }
}

/// The names are those that the state gives, or stand-ins where it gives none, and the active tab is
/// the one of the number that the state gives, or else the first.
pub proof fn law_names_and_active_tab_are_read(v: Json, other: Seq<char>, n: u64)
    ensures
        v.field("name"@) matches Some(Json::Str(s)) ==> name_or(v, other) == s@,
        v.field("name"@) is None || !(v.field("name"@)->0 is Str) ==> name_or(v, other) == other,
        v.field("activeTabIndex"@) == Some(Json::UInt(n)) && n <= usize::MAX ==> named_active(v)
            == n,
        v.field("activeTabIndex"@) is None ==> named_active(v) == 0,
{
}

} // verus!
