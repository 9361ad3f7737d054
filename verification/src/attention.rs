//! Panes that ask for the user's attention, and the texts that list panes in the status bar.
use vstd::prelude::*;

use crate::panes::{AttentionState, LiveTab, LiveTabView, PaneId, PaneSession, SessionView};
use crate::sorting::insert_row;
use crate::status_bar::StatusBar;
use crate::tab_strip::TabStrip;
use crate::text::{chars_of, clone_opt, join, push_decimal, str_eq, string_from, trim};

verus! {

broadcast use vstd::string::group_string_axioms;

// ── Focused pane ─────────────────────────────────────────────────────────────

/// The session of the focused pane.
pub open spec fn focused_session(tab: LiveTabView) -> Option<SessionView> {
    tab.session(tab.focus)
}

/// The last part of a path.
pub open spec fn short_name(path: Seq<char>) -> Seq<char> {
    let slash = crate::seqs::last_where(0, path.len() as int, |i: int| path[i] == '/');
    path.skip(slash + 1)
}

/// The last part of a pane path.
pub fn pane_short_name(pane_path: &str) -> (r: String)
    ensures
        r@ == short_name(pane_path@),
{
    let chars = chars_of(pane_path);
    let ghost path = pane_path@;
    let ghost p = |i: int| path[i] == '/';
    let mut n: usize = chars.len();
    while n > 0 && chars[n - 1] != '/'
        invariant
            n <= chars@.len(),
            chars@ == path,
            p == (|i: int| path[i] == '/'),
            forall|j: int| n <= j < chars@.len() ==> !#[trigger] p(j),
        decreases n,
    {
        assert(!p(n - 1));
        n -= 1;
    }
    proof {
        assert(n > 0 ==> p(n - 1));
        crate::seqs::lemma_last_where_is(0, path.len() as int, p, n - 1);
    }
    assert(chars@.subrange(n as int, chars@.len() as int) =~= path.skip(n as int));
    string_from(&chars, n, chars.len())
}

/// The title of the focused pane, unless it is blank.
pub open spec fn focused_title(tab: LiveTabView) -> Option<Seq<char>> {
    match focused_session(tab) {
        Some(s) => match s.title {
            Some(t) if crate::text::trimmed(t).len() > 0 => Some(crate::text::trimmed(t)),
            _ => None,
        },
        None => None,
    }
}

/// The title of the focused pane, unless it is blank.
pub fn focused_pane_title(tab: &LiveTab) -> (r: Option<String>)
    ensures
        crate::text::opt_text(r) == focused_title(tab@),
{
    match tab.session(tab.focus) {
        Some(s) => match &s.title {
            Some(t) => {
                let title = trim(t.as_str());
                if chars_of(title.as_str()).len() > 0 {
                    Some(title)
                } else {
                    None
                }
            },
            None => None,
        },
        None => None,
    }
}

/// Whether the focused pane asks for attention, and what it says.
pub open spec fn focused_attention(tab: LiveTabView) -> (AttentionState, Option<Seq<char>>) {
    match focused_session(tab) {
        Some(s) => (s.attention, s.attention_message),
        None => (AttentionState::Active, None),
    }
}

/// Whether the focused pane asks for attention, and what it says.
pub fn focused_pane_attention(tab: &LiveTab) -> (r: (AttentionState, Option<String>))
    ensures
        (r.0, crate::text::opt_text(r.1)) == focused_attention(tab@),
{
    match tab.session(tab.focus) {
        Some(s) => (s.attention, clone_opt(&s.attention_message)),
        None => (AttentionState::Active, None),
    }
}

/// Whether the focused pane is the one that the host calls by the given name.
pub open spec fn focus_has_host_id(tab: LiveTabView, host_pane_id: Seq<char>) -> bool {
    match focused_session(tab) {
        Some(s) => s.host_pane_id == Some(host_pane_id),
        None => false,
    }
}

/// Whether the focused pane is the one that the host calls by the given name.
pub fn focused_pane_matches_host_id(tab: &LiveTab, host_pane_id: &str) -> (r: bool)
    ensures
        r == focus_has_host_id(tab@, host_pane_id@),
{
    match tab.session(tab.focus) {
        Some(s) => match &s.host_pane_id {
            Some(id) => str_eq(id.as_str(), host_pane_id),
            None => false,
        },
        None => false,
    }
}

/// The attention of a pane that reports `state`: a focused pane needs no attention, but its
/// errors are kept.
pub open spec fn effective_attention(state: AttentionState, focused: bool) -> AttentionState {
    if focused && state == AttentionState::NeedsAttention {
        AttentionState::Active
    } else {
        state
    }
}

/// The attention of a pane that reports `state`.
pub fn focus_aware_attention_state(state: AttentionState, target_is_focused: bool) -> (r:
    AttentionState)
    ensures
        r == effective_attention(state, target_is_focused),
{
    if target_is_focused && state == AttentionState::NeedsAttention {
        AttentionState::Active
    } else {
        state
    }
}

// ── Unread panes ─────────────────────────────────────────────────────────────

/// Whether a pane asks for attention.
pub open spec fn unread(s: SessionView) -> bool {
    s.attention != AttentionState::Active
}

/// Whether a pane asks for attention.
pub fn pane_is_unread_attention(s: &PaneSession) -> (r: bool)
    ensures
        r == unread(s@),
{
    match s.attention {
        AttentionState::NeedsAttention => true,
        AttentionState::Error => true,
        AttentionState::Active => false,
    }
}

/// How many sessions ask for attention.
pub open spec fn unread_rows(rows: Seq<(PaneId, SessionView)>) -> nat
    decreases rows.len(),
{
    if rows.len() == 0 {
        0
    } else {
        unread_rows(rows.drop_last()) + if unread(rows.last().1) {
            1nat
        } else {
            0
        }
    }
}

/// How many sessions of all tabs ask for attention.
pub open spec fn unread_total(tabs: Seq<LiveTabView>) -> nat
    decreases tabs.len(),
{
    if tabs.len() == 0 {
        0
    } else {
        unread_total(tabs.drop_last()) + unread_rows(tabs.last().pane_sessions)
    }
}

/// How many sessions there are.
pub open spec fn session_total(tabs: Seq<LiveTabView>) -> nat
    decreases tabs.len(),
{
    if tabs.len() == 0 {
        0
    } else {
        session_total(tabs.drop_last()) + tabs.last().pane_sessions.len()
    }
}

proof fn lemma_unread_rows(rows: Seq<(PaneId, SessionView)>)
    ensures
        unread_rows(rows) <= rows.len(),
    decreases rows.len(),
{
    if rows.len() > 0 {
        lemma_unread_rows(rows.drop_last());
    }
}

/// No more sessions ask for attention than there are.
pub proof fn lemma_unread_total(tabs: Seq<LiveTabView>)
    ensures
        unread_total(tabs) <= session_total(tabs),
    decreases tabs.len(),
{
    if tabs.len() > 0 {
        lemma_unread_total(tabs.drop_last());
        lemma_unread_rows(tabs.last().pane_sessions);
    }
}

proof fn lemma_totals_grow(tabs: Seq<LiveTabView>, n: int)
    requires
        0 <= n <= tabs.len(),
    ensures
        unread_total(tabs.take(n)) <= unread_total(tabs),
    decreases tabs.len(),
{
    if n == tabs.len() {
        assert(tabs.take(n) =~= tabs);
    } else {
        lemma_totals_grow(tabs.drop_last(), n);
        assert(tabs.drop_last().take(n) =~= tabs.take(n));
    }
}

proof fn lemma_unread_rows_grow(rows: Seq<(PaneId, SessionView)>, n: int)
    requires
        0 <= n <= rows.len(),
    ensures
        unread_rows(rows.take(n)) <= unread_rows(rows),
    decreases rows.len(),
{
    if n == rows.len() {
        assert(rows.take(n) =~= rows);
    } else {
        lemma_unread_rows_grow(rows.drop_last(), n);
        assert(rows.drop_last().take(n) =~= rows.take(n));
    }
}

/// How many panes ask for attention.
pub fn attention_count(tabs: &Vec<LiveTab>) -> (r: usize)
    requires
        session_total(crate::panes::tab_views(tabs@)) <= usize::MAX,
    ensures
        r == unread_total(crate::panes::tab_views(tabs@)),
{
    let ghost views = crate::panes::tab_views(tabs@);
    let mut count: usize = 0;
    let mut i: usize = 0;
    proof {
        lemma_unread_total(views);
        assert(views.take(0) =~= Seq::empty());
    }
    while i < tabs.len()
        invariant
            i <= tabs@.len(),
            views == crate::panes::tab_views(tabs@),
            count == unread_total(views.take(i as int)),
            unread_total(views) <= usize::MAX,
        decreases tabs.len() - i,
    {
        let ghost rows = views[i as int].pane_sessions;
        let ghost before = count;
        let sessions = &tabs[i].pane_sessions;
        let mut j: usize = 0;
        proof {
            lemma_totals_grow(views, i + 1);
            assert(views.take(i + 1).drop_last() =~= views.take(i as int));
            assert(rows.take(0) =~= Seq::empty());
        }
        while j < sessions.len()
            invariant
                j <= sessions@.len(),
                rows == crate::panes::session_rows(sessions@),
                count == before + unread_rows(rows.take(j as int)),
                before + unread_rows(rows) <= usize::MAX,
            decreases sessions.len() - j,
        {
            proof {
                lemma_unread_rows_grow(rows, j + 1);
                assert(rows.take(j + 1).drop_last() =~= rows.take(j as int));
            }
            if pane_is_unread_attention(&sessions[j].1) {
                count += 1;
            }
            j += 1;
        }
        assert(rows.take(j as int) =~= rows);
        i += 1;
    }
    assert(views.take(i as int) =~= views);
    count
}

// ── Lists of panes ───────────────────────────────────────────────────────────

/// How a pane that asks for attention is announced: by its path and what it says.
pub open spec fn notice(s: SessionView) -> Seq<char> {
    match s.attention_message {
        Some(m) if crate::text::trimmed(m).len() > 0 => s.pane_path + ": "@ + crate::text::trimmed(
            m,
        ),
        _ => s.pane_path,
    }
}

/// The announcements for the first `n` panes of a tab.
pub open spec fn tab_notices(tab: LiveTabView, n: int) -> Seq<Seq<char>>
    decreases n,
{
    if n <= 0 {
        Seq::empty()
    } else {
        match tab.session(tab.panes[n - 1]) {
            Some(s) if unread(s) => tab_notices(tab, n - 1).push(notice(s)),
            _ => tab_notices(tab, n - 1),
        }
    }
}

/// The announcements for all tabs.
pub open spec fn notices(tabs: Seq<LiveTabView>) -> Seq<Seq<char>>
    decreases tabs.len(),
{
    if tabs.len() == 0 {
        Seq::empty()
    } else {
        notices(tabs.drop_last()) + tab_notices(tabs.last(), tabs.last().panes.len() as int)
    }
}

/// The text of the notification center.
pub open spec fn notification_text(tabs: Seq<LiveTabView>) -> Seq<char> {
    if notices(tabs).len() == 0 {
        "Notifications: none"@
    } else {
        "Notifications: "@ + crate::text::joined(notices(tabs), " | "@)
    }
}

/// How a pane that asks for attention is announced.
fn notice_text(s: &PaneSession) -> (r: String)
    ensures
        r@ == notice(s@),
{
    if let Some(m) = &s.attention_message {
        let message = trim(m.as_str());
        if chars_of(message.as_str()).len() > 0 {
            let mut out = s.pane_path.clone();
            out.append(": ");
            out.append(message.as_str());
            return out;
        }
    }
    s.pane_path.clone()
}

/// Appends a text to a list.
fn push_text(v: &mut Vec<String>, s: String)
    ensures
        crate::text::texts(final(v)@) == crate::text::texts(old(v)@).push(s@),
{
    let ghost t = s@;
    v.push(s);
    assert(crate::text::texts(v@) =~= crate::text::texts(old(v)@).push(t));
}

/// The text of the notification center: all panes that ask for attention.
pub fn notification_center_label(tabs: &Vec<LiveTab>) -> (r: String)
    ensures
        r@ == notification_text(crate::panes::tab_views(tabs@)),
{
    let ghost views = crate::panes::tab_views(tabs@);
    let mut items: Vec<String> = Vec::new();
    let mut i: usize = 0;
    proof {
        assert(views.take(0) =~= Seq::empty());
        assert(crate::text::texts(items@) =~= Seq::empty());
    }
    while i < tabs.len()
        invariant
            i <= tabs@.len(),
            views == crate::panes::tab_views(tabs@),
            crate::text::texts(items@) == notices(views.take(i as int)),
        decreases tabs.len() - i,
    {
        let tab = &tabs[i];
        let ghost before = crate::text::texts(items@);
        let mut j: usize = 0;
        assert(before + tab_notices(tab@, 0) =~= before);
        while j < tab.panes.len()
            invariant
                j <= tab.panes@.len(),
                crate::text::texts(items@) == before + tab_notices(tab@, j as int),
            decreases tab.panes.len() - j,
        {
            let ghost sofar = crate::text::texts(items@);
            if let Some(s) = tab.session(tab.panes[j]) {
                if pane_is_unread_attention(s) {
                    push_text(&mut items, notice_text(s));
                    assert(crate::text::texts(items@) =~= before + tab_notices(
                        tab@,
                        j as int,
                    ).push(notice(s@)));
                }
            }
            j += 1;
        }
        proof {
            assert(views.take(i + 1).drop_last() =~= views.take(i as int));
            assert(views.take(i + 1).last() == tab@);
        }
        i += 1;
    }
    assert(views.take(i as int) =~= views);
    if items.len() == 0 {
        "Notifications: none".to_owned()
    } else {
        let mut out = "Notifications: ".to_owned();
        out.append(join(&items, " | ").as_str());
        out
    }
}

/// Which panes a list shows, and by what they are ordered.
#[derive(Debug, Clone, Copy, PartialEq, Eq, Structural)]
pub enum PaneListFilter {
    All,
    Attention,
    Status,
    DriverProfile,
    Cwd,
    Branch,
}

/// The name of an attention state.
pub open spec fn attention_name(state: AttentionState) -> Seq<char> {
    match state {
        AttentionState::Active => "Active"@,
        AttentionState::NeedsAttention => "NeedsAttention"@,
        AttentionState::Error => "Error"@,
    }
}

/// The name of an attention state in small letters.
pub open spec fn attention_word(state: AttentionState) -> Seq<char> {
    match state {
        AttentionState::Active => "active"@,
        AttentionState::NeedsAttention => "needsattention"@,
        AttentionState::Error => "error"@,
    }
}

/// Whether anything is known of what the pane is doing.
pub open spec fn has_status(s: SessionView) -> bool {
    s.phase is Some || s.status_text is Some || s.queue_pending is Some || s.health_state is Some
}

/// Whether a list shows a pane.
pub open spec fn is_listed(s: SessionView, filter: PaneListFilter) -> bool {
    match filter {
        PaneListFilter::All => true,
        PaneListFilter::Attention => unread(s),
        PaneListFilter::Status => has_status(s),
        PaneListFilter::DriverProfile => s.driver_profile is Some,
        PaneListFilter::Cwd => s.cwd is Some,
        PaneListFilter::Branch => s.branch is Some,
    }
}

/// A text that may be missing.
pub open spec fn or_empty(s: Option<Seq<char>>) -> Seq<char> {
    match s {
        Some(t) => t,
        None => Seq::empty(),
    }
}

/// What a list orders a pane by.
pub open spec fn sort_key(s: SessionView, filter: PaneListFilter) -> Seq<char> {
    match filter {
        PaneListFilter::All => s.pane_path,
        PaneListFilter::Attention => attention_name(s.attention) + ":"@ + s.pane_path,
        PaneListFilter::Status => or_empty(s.phase) + ":"@ + or_empty(s.status_text) + ":"@
            + s.pane_path,
        PaneListFilter::DriverProfile => or_empty(s.driver_profile) + ":"@ + s.pane_path,
        PaneListFilter::Cwd => or_empty(s.cwd) + ":"@ + s.pane_path,
        PaneListFilter::Branch => or_empty(s.branch) + ":"@ + s.pane_path,
    }
}

/// A labelled part of a pane's description, if it is known.
pub open spec fn labelled(label: Seq<char>, s: Option<Seq<char>>) -> Seq<Seq<char>> {
    match s {
        Some(t) => seq![label + t],
        None => Seq::empty(),
    }
}

/// A number as a text, if it is known.
pub open spec fn number_text(n: Option<u64>) -> Option<Seq<char>> {
    match n {
        Some(n) => Some(crate::text::decimal(n as nat)),
        None => None,
    }
}

/// The parts of a pane's description.
pub open spec fn description_parts(s: SessionView) -> Seq<Seq<char>> {
    seq![s.pane_path] + (if unread(s) {
        seq![attention_word(s.attention)]
    } else {
        Seq::empty()
    }) + labelled("phase="@, s.phase) + labelled(""@, s.status_text) + labelled(
        "queue="@,
        number_text(s.queue_pending),
    ) + labelled("health="@, s.health_state) + labelled("source="@, s.source) + labelled(
        "driver="@,
        s.driver_profile,
    ) + labelled("cwd="@, s.cwd) + labelled("branch="@, s.branch)
}

/// A pane's description.
pub open spec fn description(s: SessionView) -> Seq<char> {
    crate::text::joined(description_parts(s), " "@)
}

/// The rows of a list for the first `n` panes of a tab.
pub open spec fn tab_rows(tab: LiveTabView, filter: PaneListFilter, n: int) -> Seq<
    (Seq<char>, Seq<char>),
>
    decreases n,
{
    if n <= 0 {
        Seq::empty()
    } else {
        match tab.session(tab.panes[n - 1]) {
            Some(s) if is_listed(s, filter) => tab_rows(tab, filter, n - 1).push(
                (sort_key(s, filter), description(s)),
            ),
            _ => tab_rows(tab, filter, n - 1),
        }
    }
}

/// The rows of a list for all tabs.
pub open spec fn list_rows(tabs: Seq<LiveTabView>, filter: PaneListFilter) -> Seq<
    (Seq<char>, Seq<char>),
>
    decreases tabs.len(),
{
    if tabs.len() == 0 {
        Seq::empty()
    } else {
        list_rows(tabs.drop_last(), filter) + tab_rows(
            tabs.last(),
            filter,
            tabs.last().panes.len() as int,
        )
    }
}

/// The second texts of rows.
pub open spec fn second_texts(rows: Seq<(Seq<char>, Seq<char>)>) -> Seq<Seq<char>> {
    rows.map_values(|r: (Seq<char>, Seq<char>)| r.1)
}

/// The text of a list: the descriptions of its panes in order.
pub open spec fn summary_text(tabs: Seq<LiveTabView>, filter: PaneListFilter) -> Seq<char> {
    let rows = list_rows(tabs, filter);
    if rows.len() == 0 {
        "Panes: none"@
    } else {
        "Panes: "@ + crate::text::joined(second_texts(crate::sorting::sorted(rows)), " | "@)
    }
}

fn name_of_attention(state: AttentionState) -> (r: &'static str)
    ensures
        r@ == attention_name(state),
{
    match state {
        AttentionState::Active => "Active",
        AttentionState::NeedsAttention => "NeedsAttention",
        AttentionState::Error => "Error",
    }
}

fn word_of_attention(state: AttentionState) -> (r: &'static str)
    ensures
        r@ == attention_word(state),
{
    match state {
        AttentionState::Active => "active",
        AttentionState::NeedsAttention => "needsattention",
        AttentionState::Error => "error",
    }
}

fn lists(s: &PaneSession, filter: PaneListFilter) -> (r: bool)
    ensures
        r == is_listed(s@, filter),
{
    match filter {
        PaneListFilter::All => true,
        PaneListFilter::Attention => pane_is_unread_attention(s),
        PaneListFilter::Status => s.phase.is_some() || s.status_text.is_some()
            || s.queue_pending.is_some() || s.health_state.is_some(),
        PaneListFilter::DriverProfile => s.driver_profile.is_some(),
        PaneListFilter::Cwd => s.cwd.is_some(),
        PaneListFilter::Branch => s.branch.is_some(),
    }
}

fn text_or_empty(s: &Option<String>) -> (r: String)
    ensures
        r@ == or_empty(crate::text::opt_text(*s)),
{
    match s {
        Some(t) => t.clone(),
        None => String::new(),
    }
}

fn key_of(s: &PaneSession, filter: PaneListFilter) -> (r: String)
    ensures
        r@ == sort_key(s@, filter),
{
    let mut key = match filter {
        PaneListFilter::All => {
            return s.pane_path.clone();
        },
        PaneListFilter::Attention => name_of_attention(s.attention).to_owned(),
        PaneListFilter::Status => {
            let mut k = text_or_empty(&s.phase);
            k.append(":");
            k.append(text_or_empty(&s.status_text).as_str());
            k
        },
        PaneListFilter::DriverProfile => text_or_empty(&s.driver_profile),
        PaneListFilter::Cwd => text_or_empty(&s.cwd),
        PaneListFilter::Branch => text_or_empty(&s.branch),
    };
    key.append(":");
    key.append(s.pane_path.as_str());
    key
}

fn push_labelled(parts: &mut Vec<String>, label: &str, s: &Option<String>)
    ensures
        crate::text::texts(final(parts)@) == crate::text::texts(old(parts)@) + labelled(
            label@,
            crate::text::opt_text(*s),
        ),
{
    if let Some(t) = s {
        let mut part = label.to_owned();
        part.append(t.as_str());
        push_text(parts, part);
    }
    assert(crate::text::texts(parts@) =~= crate::text::texts(old(parts)@) + labelled(
        label@,
        crate::text::opt_text(*s),
    ));
}

fn describe(s: &PaneSession) -> (r: String)
    ensures
        r@ == description(s@),
{
    let mut parts: Vec<String> = Vec::new();
    push_text(&mut parts, s.pane_path.clone());
    assert(crate::text::texts(parts@) =~= seq![s@.pane_path]);
    if pane_is_unread_attention(s) {
        push_text(&mut parts, word_of_attention(s.attention).to_owned());
    }
    assert(crate::text::texts(parts@) =~= seq![s@.pane_path] + (if unread(s@) {
        seq![attention_word(s@.attention)]
    } else {
        Seq::empty()
    }));
    push_labelled(&mut parts, "phase=", &s.phase);
    push_labelled(&mut parts, "", &s.status_text);
    let queue = match s.queue_pending {
        Some(n) => {
            let mut t = String::new();
            push_decimal(&mut t, n);
            assert(t@ =~= crate::text::decimal(n as nat));
            Some(t)
        },
        None => None,
    };
    push_labelled(&mut parts, "queue=", &queue);
    push_labelled(&mut parts, "health=", &s.health_state);
    push_labelled(&mut parts, "source=", &s.source);
    push_labelled(&mut parts, "driver=", &s.driver_profile);
    push_labelled(&mut parts, "cwd=", &s.cwd);
    push_labelled(&mut parts, "branch=", &s.branch);
    join(&parts, " ")
}

proof fn lemma_sorted_len(rows: Seq<(Seq<char>, Seq<char>)>)
    ensures
        crate::sorting::sorted(rows).len() == rows.len(),
    decreases rows.len(),
{
    if rows.len() > 0 {
        lemma_sorted_len(rows.drop_last());
        let rest = crate::sorting::sorted(rows.drop_last());
        let key = rows.last().0;
        crate::seqs::lemma_first_where(
            0,
            rest.len() as int,
            |i: int| crate::sorting::text_before(key, rest[i].0),
        );
    }
}

/// The text of a list of panes.
pub fn pane_metadata_summary(tabs: &Vec<LiveTab>, filter: PaneListFilter) -> (r: String)
    ensures
        r@ == summary_text(crate::panes::tab_views(tabs@), filter),
{
    let ghost views = crate::panes::tab_views(tabs@);
    let ghost mut rows: Seq<(Seq<char>, Seq<char>)> = Seq::empty();
    let mut items: Vec<(String, String)> = Vec::new();
    let mut i: usize = 0;
    proof {
        assert(views.take(0) =~= Seq::empty());
        assert(crate::sorting::row_views(items@) =~= Seq::empty());
    }
    while i < tabs.len()
        invariant
            i <= tabs@.len(),
            views == crate::panes::tab_views(tabs@),
            rows == list_rows(views.take(i as int), filter),
            crate::sorting::row_views(items@) == crate::sorting::sorted(rows),
        decreases tabs.len() - i,
    {
        let tab = &tabs[i];
        let ghost before = rows;
        let mut j: usize = 0;
        assert(before + tab_rows(tab@, filter, 0) =~= before);
        while j < tab.panes.len()
            invariant
                j <= tab.panes@.len(),
                rows == before + tab_rows(tab@, filter, j as int),
                crate::sorting::row_views(items@) == crate::sorting::sorted(rows),
            decreases tab.panes.len() - j,
        {
            if let Some(s) = tab.session(tab.panes[j]) {
                if lists(s, filter) {
                    insert_row(&mut items, key_of(s, filter), describe(s));
                    proof {
                        let row = (sort_key(s@, filter), description(s@));
                        assert(rows.push(row).drop_last() =~= rows);
                        rows = rows.push(row);
                        assert(rows =~= before + tab_rows(tab@, filter, j as int).push(row));
                    }
                }
            }
            j += 1;
        }
        proof {
            assert(views.take(i + 1).drop_last() =~= views.take(i as int));
            assert(views.take(i + 1).last() == tab@);
        }
        i += 1;
    }
    proof {
        assert(views.take(i as int) =~= views);
        lemma_sorted_len(rows);
    }
    if items.len() == 0 {
        return "Panes: none".to_owned();
    }
    let mut texts: Vec<String> = Vec::new();
    let mut k: usize = 0;
    while k < items.len()
        invariant
            k <= items@.len(),
            texts@.len() == k,
            forall|j: int| 0 <= j < k ==> (#[trigger] texts@[j])@ == items@[j].1@,
        decreases items.len() - k,
    {
        texts.push(items[k].1.clone());
        k += 1;
    }
    assert(crate::text::texts(texts@) =~= second_texts(crate::sorting::sorted(rows)));
    let mut out = "Panes: ".to_owned();
    out.append(join(&texts, " | ").as_str());
    out
}

// ── Going to a pane that asks for attention ──────────────────────────────────

/// All panes of all tabs, each with the index of its tab.
pub open spec fn all_panes(tabs: Seq<LiveTabView>) -> Seq<(int, PaneId)>
    decreases tabs.len(),
{
    if tabs.len() == 0 {
        Seq::empty()
    } else {
        all_panes(tabs.drop_last()) + tabs.last().panes.map_values(
            |p: PaneId| (tabs.len() - 1, p),
        )
    }
}

/// Whether the pane at a place asks for attention.
pub open spec fn unread_at(tabs: Seq<LiveTabView>, place: (int, PaneId)) -> bool {
    match tabs[place.0].session(place.1) {
        Some(s) => unread(s),
        None => false,
    }
}

/// The index among all panes of the one that has the focus.
pub open spec fn current_index(tabs: Seq<LiveTabView>, active: int) -> int {
    if active < tabs.len() {
        let places = all_panes(tabs);
        let here = (active, tabs[active].focus);
        let i = crate::seqs::first_where(0, places.len() as int, |i: int| places[i] == here);
        if i < places.len() {
            i
        } else {
            0
        }
    } else {
        0
    }
}

/// The next pane that asks for attention after the focused one, or before it, going round.
pub open spec fn next_unread(tabs: Seq<LiveTabView>, active: int, forward: bool) -> Option<
    (int, PaneId),
> {
    let places = all_panes(tabs);
    let n = places.len() as int;
    let here = current_index(tabs, active);
    let asks = |i: int| unread_at(tabs, places[i]);
    if forward {
        let after = crate::seqs::first_where(here + 1, n, asks);
        let first = crate::seqs::first_where(0, n, asks);
        if after < n {
            Some(places[after])
        } else if first < n {
            Some(places[first])
        } else {
            None
        }
    } else {
        let before = crate::seqs::last_where(0, here, asks);
        let last = crate::seqs::last_where(0, n, asks);
        if before >= 0 {
            Some(places[before])
        } else if last >= 0 {
            Some(places[last])
        } else {
            None
        }
    }
}

/// The models of places.
pub open spec fn place_views(v: Seq<(usize, PaneId)>) -> Seq<(int, PaneId)> {
    v.map_values(|p: (usize, PaneId)| (p.0 as int, p.1))
}

/// All panes of all tabs.
fn list_places(tabs: &Vec<LiveTab>) -> (r: Vec<(usize, PaneId)>)
    ensures
        place_views(r@) == all_panes(crate::panes::tab_views(tabs@)),
        forall|i: int| 0 <= i < r@.len() ==> (#[trigger] r@[i]).0 < tabs@.len(),
{
    let ghost views = crate::panes::tab_views(tabs@);
    let mut out: Vec<(usize, PaneId)> = Vec::new();
    let mut i: usize = 0;
    proof {
        assert(views.take(0) =~= Seq::empty());
        assert(place_views(out@) =~= Seq::empty());
    }
    while i < tabs.len()
        invariant
            i <= tabs@.len(),
            views == crate::panes::tab_views(tabs@),
            place_views(out@) == all_panes(views.take(i as int)),
            forall|k: int| 0 <= k < out@.len() ==> (#[trigger] out@[k]).0 < tabs@.len(),
        decreases tabs.len() - i,
    {
        let ghost before = place_views(out@);
        let panes = &tabs[i].panes;
        let ghost own = panes@.map_values(|p: PaneId| (i as int, p));
        let mut j: usize = 0;
        assert(before + own.take(0) =~= before);
        while j < panes.len()
            invariant
                j <= panes@.len(),
                i < tabs@.len(),
                own == panes@.map_values(|p: PaneId| (i as int, p)),
                place_views(out@) == before + own.take(j as int),
                forall|k: int| 0 <= k < out@.len() ==> (#[trigger] out@[k]).0 < tabs@.len(),
            decreases panes.len() - j,
        {
            let ghost sofar = place_views(out@);
            out.push((i, panes[j]));
            assert(place_views(out@) =~= sofar.push((i as int, panes@[j as int])));
            assert(own.take(j + 1) =~= own.take(j as int).push(own[j as int]));
            assert(before + own.take(j + 1) =~= (before + own.take(j as int)).push(
                own[j as int],
            ));
            j += 1;
        }
        proof {
            assert(own.take(j as int) =~= own);
            let t = views.take(i + 1);
            assert(t.drop_last() =~= views.take(i as int));
            assert(t.last() == views[i as int]);
            assert(own =~= t.last().panes.map_values(|p: PaneId| (t.len() - 1, p)));
        }
        i += 1;
    }
    assert(views.take(i as int) =~= views);
    out
}

fn asks_at(tabs: &Vec<LiveTab>, place: (usize, PaneId)) -> (r: bool)
    requires
        place.0 < tabs@.len(),
    ensures
        r == unread_at(crate::panes::tab_views(tabs@), (place.0 as int, place.1)),
{
    match tabs[place.0].session(place.1) {
        Some(s) => pane_is_unread_attention(s),
        None => false,
    }
}

/// The first place from `lo` on that asks for attention, or the number of places.
fn first_asking(tabs: &Vec<LiveTab>, places: &Vec<(usize, PaneId)>, lo: usize) -> (r: usize)
    requires
        forall|i: int| 0 <= i < places@.len() ==> (#[trigger] places@[i]).0 < tabs@.len(),
    ensures
        ({
            let views = crate::panes::tab_views(tabs@);
            let all = place_views(places@);
            r == crate::seqs::first_where(
                lo as int,
                all.len() as int,
                |i: int| unread_at(views, all[i]),
            )
        }),
        r <= places@.len(),
{
    let ghost views = crate::panes::tab_views(tabs@);
    let ghost all = place_views(places@);
    let ghost asks = |i: int| unread_at(views, all[i]);
    if lo >= places.len() {
        return places.len();
    }
    let mut i: usize = lo;
    while i < places.len() && !asks_at(tabs, places[i])
        invariant
            lo <= i <= places@.len(),
            views == crate::panes::tab_views(tabs@),
            all == place_views(places@),
            asks == (|i: int| unread_at(views, all[i])),
            forall|k: int| 0 <= k < places@.len() ==> (#[trigger] places@[k]).0 < tabs@.len(),
            forall|j: int| lo <= j < i ==> !#[trigger] asks(j),
        decreases places.len() - i,
    {
        assert(!asks(i as int));
        i += 1;
    }
    proof {
        assert(i < all.len() ==> asks(i as int));
        crate::seqs::lemma_first_where_is(lo as int, all.len() as int, asks, i as int);
    }
    i
}

/// The place after the last place in front of `hi` that asks for attention, or zero.
fn after_last_asking(tabs: &Vec<LiveTab>, places: &Vec<(usize, PaneId)>, hi: usize) -> (r: usize)
    requires
        hi <= places@.len(),
        forall|i: int| 0 <= i < places@.len() ==> (#[trigger] places@[i]).0 < tabs@.len(),
    ensures
        ({
            let views = crate::panes::tab_views(tabs@);
            let all = place_views(places@);
            r - 1 == crate::seqs::last_where(0, hi as int, |i: int| unread_at(views, all[i]))
        }),
        r <= hi,
{
    let ghost views = crate::panes::tab_views(tabs@);
    let ghost all = place_views(places@);
    let ghost asks = |i: int| unread_at(views, all[i]);
    let mut i: usize = hi;
    while i > 0 && !asks_at(tabs, places[i - 1])
        invariant
            i <= hi <= places@.len(),
            views == crate::panes::tab_views(tabs@),
            all == place_views(places@),
            asks == (|i: int| unread_at(views, all[i])),
            forall|k: int| 0 <= k < places@.len() ==> (#[trigger] places@[k]).0 < tabs@.len(),
            forall|j: int| i <= j < hi ==> !#[trigger] asks(j),
        decreases i,
    {
        assert(!asks(i - 1));
        i -= 1;
    }
    proof {
        assert(i > 0 ==> asks(i - 1));
        crate::seqs::lemma_last_where_is(0, hi as int, asks, i - 1);
    }
    i
}

/// The index among all panes of the one that has the focus.
fn find_current(tabs: &Vec<LiveTab>, places: &Vec<(usize, PaneId)>, active: usize) -> (r: usize)
    requires
        place_views(places@) == all_panes(crate::panes::tab_views(tabs@)),
    ensures
        r == current_index(crate::panes::tab_views(tabs@), active as int),
        r == 0 || r < places@.len(),
{
    if active >= tabs.len() {
        return 0;
    }
    let focus = tabs[active].focus;
    let ghost all = place_views(places@);
    let ghost here = (active as int, focus);
    let ghost p = |i: int| all[i] == here;
    let mut i: usize = 0;
    while i < places.len()
        invariant
            i <= places@.len(),
            active < tabs@.len(),
            all == place_views(places@),
            all == all_panes(crate::panes::tab_views(tabs@)),
            focus == tabs@[active as int].focus,
            here == (active as int, focus),
            p == (|i: int| all[i] == here),
            forall|j: int| 0 <= j < i ==> !#[trigger] p(j),
        decreases places.len() - i,
    {
        if places[i].0 == active && places[i].1 == focus {
            proof {
                assert(p(i as int));
                crate::seqs::lemma_first_where_is(0, all.len() as int, p, i as int);
            }
            return i;
        }
        assert(!p(i as int));
        i += 1;
    }
    proof {
        crate::seqs::lemma_first_where_is(0, all.len() as int, p, i as int);
    }
    0
}

/// The next pane that asks for attention after the focused one, or before it, going round.
pub fn next_attention_target(tabs: &Vec<LiveTab>, active_tab_index: usize, forward: bool) -> (r:
    Option<(usize, PaneId)>)
    ensures
        match r {
            Some(place) => next_unread(
                crate::panes::tab_views(tabs@),
                active_tab_index as int,
                forward,
            ) == Some((place.0 as int, place.1)) && place.0 < tabs@.len(),
            None => next_unread(
                crate::panes::tab_views(tabs@),
                active_tab_index as int,
                forward,
            ) is None,
        },
{
    let places = list_places(tabs);
    let here: usize = find_current(tabs, &places, active_tab_index);
    let n: usize = places.len();
    if n == 0 {
        return None;
    }
    if forward {
        let after: usize = first_asking(tabs, &places, here + 1);
        if after < n {
            return Some(places[after]);
        }
        let first: usize = first_asking(tabs, &places, 0);
        if first < n {
            return Some(places[first]);
        }
        None
    } else {
        let before: usize = after_last_asking(tabs, &places, here);
        if before > 0 {
            return Some(places[before - 1]);
        }
        let last: usize = after_last_asking(tabs, &places, n);
        if last > 0 {
            return Some(places[last - 1]);
        }
        None
    }
}

/// The tabs with the focus at a place.
pub open spec fn focused_at(tabs: Seq<LiveTabView>, place: (int, PaneId)) -> Seq<LiveTabView> {
    tabs.update(place.0, crate::panes::with_focus(tabs[place.0], place.1))
}

/// Give a pane the focus, and activate its tab.
pub fn focus_attention_target(
    tabs: &mut Vec<LiveTab>,
    tab_strip: &mut TabStrip,
    active_tab_index: &mut usize,
    target: (usize, PaneId),
)
    ensures
        target.0 < old(tabs)@.len() ==> {
            &&& crate::panes::tab_views(final(tabs)@) == focused_at(
                crate::panes::tab_views(old(tabs)@),
                (target.0 as int, target.1),
            )
            &&& *final(active_tab_index) == target.0
            &&& final(tab_strip)@ == crate::tab_strip::with_active(
                old(tab_strip)@,
                target.0 as int,
            )
        },
        target.0 >= old(tabs)@.len() ==> {
            &&& *final(tabs) == *old(tabs)
            &&& *final(active_tab_index) == *old(active_tab_index)
            &&& final(tab_strip)@ == old(tab_strip)@
        },
{
    let (tab_index, pane_id) = target;
    if tab_index < tabs.len() {
        tabs[tab_index].set_focus(pane_id);
        *active_tab_index = tab_index;
        tab_strip.set_active(tab_index);
        assert(crate::panes::tab_views(tabs@) =~= focused_at(
            crate::panes::tab_views(old(tabs)@),
            (target.0 as int, target.1),
        ));
    }
}

/// The tab without attention in its focused pane.
pub open spec fn attended(tab: LiveTabView) -> LiveTabView {
    match focused_session(tab) {
        Some(s) => crate::panes::with_session(
            tab,
            tab.focus,
            SessionView { attention: AttentionState::Active, attention_message: None, ..s },
        ),
        None => tab,
    }
}

/// Clear the attention of the focused pane of the active tab. Returns the path of the pane whose
/// attention the host is to clear too, if there was one to clear.
pub fn clear_focused_attention(
    tabs: &mut Vec<LiveTab>,
    active_tab_index: usize,
    status_bar: &mut StatusBar,
) -> (r: Option<String>)
    ensures
        ({
            let views = crate::panes::tab_views(old(tabs)@);
            let found = active_tab_index < views.len() && focused_session(
                views[active_tab_index as int],
            ) is Some;
            &&& r is Some == found
            &&& found ==> {
                &&& r->0@ == focused_session(views[active_tab_index as int])->0.pane_path
                &&& crate::panes::tab_views(final(tabs)@) == views.update(
                    active_tab_index as int,
                    attended(views[active_tab_index as int]),
                )
                &&& final(status_bar)@ == crate::status_bar::with_attention(
                    old(status_bar)@,
                    AttentionState::Active,
                    None,
                )
            }
            &&& !found ==> *final(tabs) == *old(tabs) && final(status_bar)@ == old(status_bar)@
        }),
{
    if active_tab_index >= tabs.len() {
        return None;
    }
    let focus = tabs[active_tab_index].focus;
    let path = match tabs[active_tab_index].session(focus) {
        Some(s) => s.pane_path.clone(),
        None => {
            return None;
        },
    };
    tabs[active_tab_index].set_attention(focus, AttentionState::Active, None);
    status_bar.set_attention(AttentionState::Active, None);
    assert(crate::panes::tab_views(tabs@) =~= crate::panes::tab_views(old(tabs)@).update(
        active_tab_index as int,
        attended(crate::panes::tab_views(old(tabs)@)[active_tab_index as int]),
    ));
    Some(path)
}

// ── Laws ─────────────────────────────────────────────────────────────────────

proof fn lemma_all_panes(tabs: Seq<LiveTabView>, i: int)
    requires
        0 <= i < all_panes(tabs).len(),
    ensures
        0 <= all_panes(tabs)[i].0 < tabs.len(),
        tabs[all_panes(tabs)[i].0].panes.contains(all_panes(tabs)[i].1),
    decreases tabs.len(),
{
    if tabs.len() > 0 {
        let rest = all_panes(tabs.drop_last());
        if i < rest.len() {
            lemma_all_panes(tabs.drop_last(), i);
        } else {
            assert(tabs.last().panes[i - rest.len()] == all_panes(tabs)[i].1);
        }
    }
}

/// Where attention navigation leads to is a pane that asks for attention; and it leads nowhere
/// exactly when no pane does.
pub proof fn law_navigation_finds_unread(tabs: Seq<LiveTabView>, active: int, forward: bool)
    ensures
        next_unread(tabs, active, forward) matches Some(place) ==> {
            &&& 0 <= place.0 < tabs.len()
            &&& tabs[place.0].panes.contains(place.1)
            &&& unread_at(tabs, place)
        },
        next_unread(tabs, active, forward) is None <==> forall|i: int|
            0 <= i < all_panes(tabs).len() ==> !unread_at(tabs, #[trigger] all_panes(tabs)[i]),
{
    let places = all_panes(tabs);
    let n = places.len() as int;
    let asks = |i: int| unread_at(tabs, places[i]);
    let here = current_index(tabs, active);
    if active < tabs.len() {
        let at = (active, tabs[active].focus);
        crate::seqs::lemma_first_where(0, n, |i: int| places[i] == at);
    }
    crate::seqs::lemma_first_where(0, n, asks);
    crate::seqs::lemma_last_where(0, n, asks);
    if here + 1 <= n {
        crate::seqs::lemma_first_where(here + 1, n, asks);
    }
    crate::seqs::lemma_last_where(0, here, asks);
    let first = crate::seqs::first_where(0, n, asks);
    let after = crate::seqs::first_where(here + 1, n, asks);
    let last = crate::seqs::last_where(0, n, asks);
    let before = crate::seqs::last_where(0, here, asks);
    assert forall|k: int| 0 <= k < n implies #[trigger] asks(k) == unread_at(tabs, places[k]) by {}
    if first < n {
        assert(asks(first));
        assert(unread_at(tabs, places[first]));
        lemma_all_panes(tabs, first);
        if last < 0 {
            assert(!asks(first));
        }
        lemma_all_panes(tabs, last);
    } else {
        assert forall|i: int| 0 <= i < n implies !unread_at(tabs, #[trigger] places[i]) by {
            assert(!asks(i));
        }
        if last >= 0 {
            assert(asks(last));
            assert(!asks(last));
        }
        if before >= 0 {
            assert(asks(before));
            assert(!asks(before));
        }
        if after < n {
            assert(asks(after));
            assert(!asks(after));
        }
    }
    if after < n {
        assert(asks(after));
        lemma_all_panes(tabs, after);
    }
    if before >= 0 {
        assert(asks(before));
        lemma_all_panes(tabs, before);
    }
}

/// Clearing the attention of a pane that asks for it leaves one less that does.
pub proof fn law_clearing_reduces_count(rows: Seq<(PaneId, SessionView)>, p: PaneId, s: SessionView)
    requires
        crate::panes::row_for(rows, p) == Some(s),
        unread(s),
    ensures
        unread_rows(
            rows.update(
                crate::panes::row_of(rows, p),
                (
                    p,
                    SessionView { attention: AttentionState::Active, attention_message: None, ..s },
                ),
            ),
        ) + 1 == unread_rows(rows),
{
    crate::panes::lemma_same_rows(rows, rows, p);
    lemma_update_count(
        rows,
        crate::panes::row_of(rows, p),
        (p, SessionView { attention: AttentionState::Active, attention_message: None, ..s }),
    );
}

proof fn lemma_update_count(rows: Seq<(PaneId, SessionView)>, i: int, row: (PaneId, SessionView))
    requires
        0 <= i < rows.len(),
        unread(rows[i].1),
        !unread(row.1),
    ensures
        unread_rows(rows.update(i, row)) + 1 == unread_rows(rows),
    decreases rows.len(),
{
    let new = rows.update(i, row);
    if i == rows.len() - 1 {
        assert(new.drop_last() =~= rows.drop_last());
    } else {
        assert(new.drop_last() =~= rows.drop_last().update(i, row));
        lemma_update_count(rows.drop_last(), i, row);
    }
}

/// The attention of a focused pane is never "needs attention".
pub proof fn law_focused_pane_needs_none(state: AttentionState)
    ensures
        effective_attention(state, true) != AttentionState::NeedsAttention,
        state != AttentionState::NeedsAttention ==> effective_attention(state, true) == state,
        effective_attention(state, false) == state,
{
}

/// The name of a pane is the last part of its path: what stands behind the last slash, or all of it
/// where there is none.
pub proof fn law_short_name_is_the_last_part(before: Seq<char>, name: Seq<char>)
    requires
        !name.contains('/'),
    ensures
        short_name(before + seq!['/'] + name) == name,
        short_name(name) == name,
{
    let path = before + seq!['/'] + name;
    let p = |i: int| path[i] == '/';
    let n = before.len() as int;
    assert forall|j: int| n < j < path.len() implies !#[trigger] p(j) by {
        assert(path[j] == name[j - n - 1]);
        assert(name.contains(name[j - n - 1]));
    }
    assert(p(n));
    crate::seqs::lemma_last_where_is(0, path.len() as int, p, n);
    assert(path.skip(n + 1) =~= name);
    let q = |i: int| name[i] == '/';
    assert forall|j: int| -1 < j < name.len() implies !#[trigger] q(j) by {
        assert(name.contains(name[j]));
    }
    crate::seqs::lemma_last_where_is(0, name.len() as int, q, -1);
    assert(name.skip(0) =~= name);
}

/// A pane asks for attention while its state is another than active.
pub open spec fn asks_for_attention(row: (PaneId, SessionView)) -> bool {
    row.1.attention is NeedsAttention || row.1.attention is Error
}

/// Each session that asks for attention is counted once.
pub proof fn law_unread_panes_are_counted(rows: Seq<(PaneId, SessionView)>)
    ensures
        unread_rows(rows) == rows.filter(|r: (PaneId, SessionView)| asks_for_attention(r)).len(),
    decreases rows.len(),
{
    reveal(Seq::filter);
    if rows.len() > 0 {
        law_unread_panes_are_counted(rows.drop_last());
    }
}

/// The panes of all tabs are counted together.
pub proof fn law_unread_panes_of_all_tabs_are_counted(a: Seq<LiveTabView>, b: Seq<LiveTabView>)
    ensures
        unread_total(a + b) == unread_total(a) + unread_total(b),
        a.len() == 1 ==> unread_total(a) == unread_rows(a[0].pane_sessions),
        unread_total(Seq::empty()) == 0,
    decreases b.len(),
{
    if b.len() == 0 {
        assert(a + b =~= a);
    } else {
        law_unread_panes_of_all_tabs_are_counted(a, b.drop_last());
        assert((a + b).drop_last() =~= a + b.drop_last());
    }
    if a.len() == 1 {
        reveal_with_fuel(unread_total, 2);
    }
}

/// A notice names the pane, and what it says where it says anything.
pub proof fn law_notices_name_their_pane(s: SessionView)
    ensures
        s.attention_message is None ==> notice(s) == s.pane_path,
        s.attention_message is Some && crate::text::trimmed(s.attention_message->0).len() == 0
            ==> notice(s) == s.pane_path,
        s.attention_message is Some && crate::text::trimmed(s.attention_message->0).len() > 0
            ==> notice(s) == s.pane_path + ": "@ + crate::text::trimmed(s.attention_message->0),
{
}

proof fn lemma_tab_notice(tab: LiveTabView, n: int, i: int)
    requires
        0 <= i < n <= tab.panes.len(),
        tab.session(tab.panes[i]) is Some,
        unread(tab.session(tab.panes[i])->0),
    ensures
        tab_notices(tab, n).contains(notice(tab.session(tab.panes[i])->0)),
    decreases n,
{
    let want = notice(tab.session(tab.panes[i])->0);
    if i == n - 1 {
        assert(tab_notices(tab, n).last() == want);
    } else {
        lemma_tab_notice(tab, n - 1, i);
        let rest = tab_notices(tab, n - 1);
        let k = choose|k: int| 0 <= k < rest.len() && rest[k] == want;
        assert(tab_notices(tab, n)[k] == want);
    }
}

/// Every pane of any tab that asks for attention has a notice.
pub proof fn law_every_unread_pane_has_a_notice(tabs: Seq<LiveTabView>, t: int, i: int, s: SessionView)
    requires
        0 <= t < tabs.len(),
        0 <= i < tabs[t].panes.len(),
        tabs[t].session(tabs[t].panes[i]) == Some(s),
        s.attention is NeedsAttention || s.attention is Error,
    ensures
        notices(tabs).contains(notice(s)),
    decreases tabs.len(),
{
    let before = notices(tabs.drop_last());
    let last = tab_notices(tabs.last(), tabs.last().panes.len() as int);
    if t == tabs.len() - 1 {
        lemma_tab_notice(tabs[t], tabs[t].panes.len() as int, i);
        let k = choose|k: int| 0 <= k < last.len() && last[k] == notice(s);
        assert(notices(tabs)[before.len() + k] == notice(s));
    } else {
        law_every_unread_pane_has_a_notice(tabs.drop_last(), t, i, s);
        let k = choose|k: int| 0 <= k < before.len() && before[k] == notice(s);
        assert(notices(tabs)[k] == notice(s));
    }
}

proof fn lemma_tab_notice_source(tab: LiveTabView, n: int, k: int)
    requires
        0 <= n <= tab.panes.len(),
        0 <= k < tab_notices(tab, n).len(),
    ensures
        exists|i: int|
            0 <= i < n && tab.session(#[trigger] tab.panes[i]) is Some && unread(
                tab.session(tab.panes[i])->0,
            ) && tab_notices(tab, n)[k] == notice(tab.session(tab.panes[i])->0),
    decreases n,
{
    if n > 0 {
        let rest = tab_notices(tab, n - 1);
        if k < rest.len() {
            lemma_tab_notice_source(tab, n - 1, k);
            let i = choose|i: int|
                0 <= i < n - 1 && tab.session(#[trigger] tab.panes[i]) is Some && unread(
                    tab.session(tab.panes[i])->0,
                ) && rest[k] == notice(tab.session(tab.panes[i])->0);
            assert(tab.session(tab.panes[i]) is Some);
        } else {
            assert(tab.session(tab.panes[n - 1]) is Some);
        }
    }
}

/// Only panes that ask for attention have a notice.
pub proof fn law_only_unread_panes_have_notices(tabs: Seq<LiveTabView>, k: int)
    requires
        0 <= k < notices(tabs).len(),
    ensures
        exists|t: int, i: int|
            0 <= t < tabs.len() && 0 <= i < tabs[t].panes.len() && tabs[t].session(
                #[trigger] tabs[t].panes[i],
            ) is Some && asks_for_attention(
                (tabs[t].panes[i], tabs[t].session(tabs[t].panes[i])->0),
            ) && notices(tabs)[k] == notice(tabs[t].session(tabs[t].panes[i])->0),
    decreases tabs.len(),
{
    if tabs.len() > 0 {
        let before = notices(tabs.drop_last());
        let t = tabs.len() - 1;
        if k < before.len() {
            law_only_unread_panes_have_notices(tabs.drop_last(), k);
            let rest = tabs.drop_last();
            let (u, i) = choose|u: int, i: int|
                0 <= u < rest.len() && 0 <= i < rest[u].panes.len() && rest[u].session(
                    #[trigger] rest[u].panes[i],
                ) is Some && asks_for_attention(
                    (rest[u].panes[i], rest[u].session(rest[u].panes[i])->0),
                ) && before[k] == notice(rest[u].session(rest[u].panes[i])->0);
            assert(tabs[u] == rest[u]);
            assert(tabs[u].session(tabs[u].panes[i]) is Some);
        } else {
            let tab = tabs.last();
            lemma_tab_notice_source(tab, tab.panes.len() as int, k - before.len());
            let i = choose|i: int|
                0 <= i < tab.panes.len() && tab.session(#[trigger] tab.panes[i]) is Some && unread(
                    tab.session(tab.panes[i])->0,
                ) && tab_notices(tab, tab.panes.len() as int)[k - before.len()] == notice(
                    tab.session(tab.panes[i])->0,
                );
            assert(tabs[t].session(tabs[t].panes[i]) is Some);
        }
    }
}

/// Which panes a list holds: all of them, those that ask for attention, those with any status, or
/// those of which something in particular is known.
pub proof fn law_filters_select(s: SessionView)
    ensures
        is_listed(s, PaneListFilter::All),
        is_listed(s, PaneListFilter::Attention) <==> s.attention is NeedsAttention
            || s.attention is Error,
        is_listed(s, PaneListFilter::Status) <==> s.phase is Some || s.status_text is Some
            || s.queue_pending is Some || s.health_state is Some,
        is_listed(s, PaneListFilter::DriverProfile) <==> s.driver_profile is Some,
        is_listed(s, PaneListFilter::Cwd) <==> s.cwd is Some,
        is_listed(s, PaneListFilter::Branch) <==> s.branch is Some,
{
}

/// A list holds every pane that its filter selects.
pub proof fn law_lists_hold_what_they_select(
    tabs: Seq<LiveTabView>,
    filter: PaneListFilter,
    t: int,
    i: int,
    s: SessionView,
)
    requires
        0 <= t < tabs.len(),
        0 <= i < tabs[t].panes.len(),
        tabs[t].session(tabs[t].panes[i]) == Some(s),
        is_listed(s, filter),
    ensures
        list_rows(tabs, filter).contains((sort_key(s, filter), description(s))),
    decreases tabs.len(),
{
    let row = (sort_key(s, filter), description(s));
    let before = list_rows(tabs.drop_last(), filter);
    let last = tab_rows(tabs.last(), filter, tabs.last().panes.len() as int);
    if t == tabs.len() - 1 {
        lemma_tab_row(tabs[t], filter, tabs[t].panes.len() as int, i);
        let k = choose|k: int| 0 <= k < last.len() && last[k] == row;
        assert(list_rows(tabs, filter)[before.len() + k] == row);
    } else {
        law_lists_hold_what_they_select(tabs.drop_last(), filter, t, i, s);
        let k = choose|k: int| 0 <= k < before.len() && before[k] == row;
        assert(list_rows(tabs, filter)[k] == row);
    }
}

proof fn lemma_tab_row(tab: LiveTabView, filter: PaneListFilter, n: int, i: int)
    requires
        0 <= i < n <= tab.panes.len(),
        tab.session(tab.panes[i]) is Some,
        is_listed(tab.session(tab.panes[i])->0, filter),
    ensures
        ({
            let s = tab.session(tab.panes[i])->0;
            tab_rows(tab, filter, n).contains((sort_key(s, filter), description(s)))
        }),
    decreases n,
{
    let s = tab.session(tab.panes[i])->0;
    let want = (sort_key(s, filter), description(s));
    if i == n - 1 {
        assert(tab_rows(tab, filter, n).last() == want);
    } else {
        lemma_tab_row(tab, filter, n - 1, i);
        let rest = tab_rows(tab, filter, n - 1);
        let k = choose|k: int| 0 <= k < rest.len() && rest[k] == want;
        assert(tab_rows(tab, filter, n)[k] == want);
    }
}

/// The description of a pane has a part for each thing that is known of it, in a fixed order, and
/// none for what is not.
#[verifier::rlimit(60)]
pub proof fn law_descriptions_tell_what_is_known(s: SessionView)
    ensures
        ({
            let parts = description_parts(s);
            let one = |known: bool| if known { 1int } else { 0 };
            let a = 1int;
            let b = a + one(s.attention != AttentionState::Active);
            let c = b + one(s.phase is Some);
            let d = c + one(s.status_text is Some);
            let e = d + one(s.queue_pending is Some);
            let f = e + one(s.health_state is Some);
            let g = f + one(s.source is Some);
            let h = g + one(s.driver_profile is Some);
            let i = h + one(s.cwd is Some);
            let j = i + one(s.branch is Some);
            &&& parts.len() == j
            &&& parts[0] == s.pane_path
            &&& s.attention is NeedsAttention ==> parts[a] == "needsattention"@
            &&& s.attention is Error ==> parts[a] == "error"@
            &&& s.phase is Some ==> parts[b] == "phase="@ + s.phase->0
            &&& s.status_text is Some ==> parts[c] == s.status_text->0
            &&& s.queue_pending is Some ==> parts[d] == "queue="@ + crate::text::decimal(
                s.queue_pending->0 as nat,
            )
            &&& s.health_state is Some ==> parts[e] == "health="@ + s.health_state->0
            &&& s.source is Some ==> parts[f] == "source="@ + s.source->0
            &&& s.driver_profile is Some ==> parts[g] == "driver="@ + s.driver_profile->0
            &&& s.cwd is Some ==> parts[h] == "cwd="@ + s.cwd->0
            &&& s.branch is Some ==> parts[i] == "branch="@ + s.branch->0
        }),
{
    reveal_strlit("");
    if s.status_text is Some {
        assert(""@ + s.status_text->0 =~= s.status_text->0);
    }
    let p0 = seq![s.pane_path];
    let p1 = p0 + (if unread(s) {
        seq![attention_word(s.attention)]
    } else {
        Seq::empty()
    });
    let p2 = p1 + labelled("phase="@, s.phase);
    let p3 = p2 + labelled(""@, s.status_text);
    let p4 = p3 + labelled("queue="@, number_text(s.queue_pending));
    let p5 = p4 + labelled("health="@, s.health_state);
    let p6 = p5 + labelled("source="@, s.source);
    let p7 = p6 + labelled("driver="@, s.driver_profile);
    let p8 = p7 + labelled("cwd="@, s.cwd);
    let p9 = p8 + labelled("branch="@, s.branch);
    assert(description_parts(s) == p9);
    lemma_labelled(p1, "phase="@, s.phase);
    lemma_labelled(p2, ""@, s.status_text);
    lemma_labelled(p3, "queue="@, number_text(s.queue_pending));
    lemma_labelled(p4, "health="@, s.health_state);
    lemma_labelled(p5, "source="@, s.source);
    lemma_labelled(p6, "driver="@, s.driver_profile);
    lemma_labelled(p7, "cwd="@, s.cwd);
    lemma_labelled(p8, "branch="@, s.branch);
}

proof fn lemma_labelled(parts: Seq<Seq<char>>, label: Seq<char>, text: Option<Seq<char>>)
    ensures
        (parts + labelled(label, text)).len() == parts.len() + (if text is Some {
            1int
        } else {
            0
        }),
        text is Some ==> (parts + labelled(label, text))[parts.len() as int] == label + text->0,
        forall|k: int|
            0 <= k < parts.len() ==> #[trigger] (parts + labelled(label, text))[k] == parts[k],
{
}

/// Where a pane stands among all panes: those of the tabs before its tab come first, and then those
/// before it in its tab.
pub proof fn law_panes_are_gone_through_in_order(tabs: Seq<LiveTabView>, t: int, i: int)
    requires
        0 <= t < tabs.len(),
        0 <= i < tabs[t].panes.len(),
    ensures
        ({
            let at = all_panes(tabs.take(t)).len() + i;
            &&& at < all_panes(tabs).len()
            &&& all_panes(tabs)[at] == (t, tabs[t].panes[i])
        }),
    decreases tabs.len(),
{
    let rest = tabs.drop_last();
    if t == tabs.len() - 1 {
        assert(tabs.take(t) =~= rest);
        assert(tabs.last() == tabs[t]);
    } else {
        law_panes_are_gone_through_in_order(rest, t, i);
        assert(rest.take(t) =~= tabs.take(t));
        assert(rest[t] == tabs[t]);
    }
}

/// Navigation leads to the nearest pane that asks for attention: the next one behind the pane that
/// has the focus, or the next one before it, and round the end where there is none. `here` is where
/// the focused pane of the active tab stands among all panes.
pub proof fn law_navigation_goes_to_the_nearest(tabs: Seq<LiveTabView>, active: int, here: int, k: int)
    requires
        0 <= active < tabs.len(),
        0 <= here < all_panes(tabs).len(),
        all_panes(tabs)[here] == (active, tabs[active].focus),
        forall|j: int|
            0 <= j < here ==> #[trigger] all_panes(tabs)[j] != (active, tabs[active].focus),
        0 <= k < all_panes(tabs).len(),
        unread_at(tabs, all_panes(tabs)[k]),
    ensures
        here < k && (forall|j: int|
            here < j < k ==> !unread_at(tabs, #[trigger] all_panes(tabs)[j])) ==> next_unread(
            tabs,
            active,
            true,
        ) == Some(all_panes(tabs)[k]),
        k <= here && (forall|j: int|
            0 <= j < all_panes(tabs).len() && (here < j || j < k) ==> !unread_at(
                tabs,
                #[trigger] all_panes(tabs)[j],
            )) ==> next_unread(tabs, active, true) == Some(all_panes(tabs)[k]),
        k < here && (forall|j: int|
            k < j < here ==> !unread_at(tabs, #[trigger] all_panes(tabs)[j])) ==> next_unread(
            tabs,
            active,
            false,
        ) == Some(all_panes(tabs)[k]),
        here <= k && (forall|j: int|
            0 <= j < all_panes(tabs).len() && (j < here || k < j) ==> !unread_at(
                tabs,
                #[trigger] all_panes(tabs)[j],
            )) ==> next_unread(tabs, active, false) == Some(all_panes(tabs)[k]),
{
    let places = all_panes(tabs);
    let n = places.len() as int;
    let at = (active, tabs[active].focus);
    let is_here = |i: int| places[i] == at;
    crate::seqs::lemma_first_where_is(0, n, is_here, here);
    assert(current_index(tabs, active) == here);
    let asks = |i: int| unread_at(tabs, places[i]);
    assert(asks(k));
    if here < k && (forall|j: int| here < j < k ==> !unread_at(tabs, #[trigger] places[j])) {
        crate::seqs::lemma_first_where_is(here + 1, n, asks, k);
    }
    if k <= here && (forall|j: int|
        0 <= j < n && (here < j || j < k) ==> !unread_at(tabs, #[trigger] places[j])) {
        crate::seqs::lemma_first_where_is(here + 1, n, asks, n);
        crate::seqs::lemma_first_where_is(0, n, asks, k);
    }
    if k < here && (forall|j: int| k < j < here ==> !unread_at(tabs, #[trigger] places[j])) {
        crate::seqs::lemma_last_where_is(0, here, asks, k);
    }
    if here <= k && (forall|j: int|
        0 <= j < n && (j < here || k < j) ==> !unread_at(tabs, #[trigger] places[j])) {
        crate::seqs::lemma_last_where_is(0, here, asks, -1);
        crate::seqs::lemma_last_where_is(0, n, asks, k);
    }
}

/// Attending to a tab clears the attention of its focused pane and of no other, and leaves all else
/// that is known of the pane.
pub proof fn law_attending_clears_the_focused_pane(tab: LiveTabView, s: SessionView, q: PaneId)
    requires
        tab.session(tab.focus) == Some(s),
        q != tab.focus,
    ensures
        ({
            let after = attended(tab).session(tab.focus);
            &&& after is Some
            &&& after->0.attention is Active
            &&& after->0.attention_message is None
            &&& after->0.session_id == s.session_id && after->0.pane_path == s.pane_path
                && after->0.title == s.title && after->0.host_pane_id == s.host_pane_id
            &&& attended(tab).session(q) == tab.session(q)
            &&& attended(tab).focus == tab.focus
        }),
{
    crate::panes::law_sessions_change_one_at_a_time(
        tab,
        tab.focus,
        SessionView { attention: AttentionState::Active, attention_message: None, ..s },
        q,
    );
}

/// The attention and the title that are shown are those of the focused pane.
pub proof fn law_focused_pane_is_shown(tab: LiveTabView, s: SessionView, host: Seq<char>)
    requires
        tab.session(tab.focus) == Some(s),
    ensures
        focused_attention(tab) == (s.attention, s.attention_message),
        s.title is None ==> focused_title(tab) is None,
        s.title is Some && crate::text::trimmed(s.title->0).len() == 0 ==> focused_title(
            tab,
        ) is None,
        s.title is Some && crate::text::trimmed(s.title->0).len() > 0 ==> focused_title(tab) == Some(
            crate::text::trimmed(s.title->0),
        ),
        focus_has_host_id(tab, host) <==> s.host_pane_id == Some(host),
{
}

/// A list holds only panes that its filter selects.
pub proof fn law_lists_hold_only_what_they_select(
    tabs: Seq<LiveTabView>,
    filter: PaneListFilter,
    k: int,
)
    requires
        0 <= k < list_rows(tabs, filter).len(),
    ensures
        exists|t: int, i: int|
            0 <= t < tabs.len() && 0 <= i < tabs[t].panes.len() && tabs[t].session(
                #[trigger] tabs[t].panes[i],
            ) is Some && is_listed(tabs[t].session(tabs[t].panes[i])->0, filter) && list_rows(
                tabs,
                filter,
            )[k].1 == description(tabs[t].session(tabs[t].panes[i])->0),
    decreases tabs.len(),
{
    if tabs.len() > 0 {
        let rest = tabs.drop_last();
        let before = list_rows(rest, filter);
        let t = tabs.len() - 1;
        if k < before.len() {
            law_lists_hold_only_what_they_select(rest, filter, k);
            let (u, i) = choose|u: int, i: int|
                0 <= u < rest.len() && 0 <= i < rest[u].panes.len() && rest[u].session(
                    #[trigger] rest[u].panes[i],
                ) is Some && is_listed(rest[u].session(rest[u].panes[i])->0, filter) && before[k].1
                    == description(rest[u].session(rest[u].panes[i])->0);
            assert(tabs[u] == rest[u]);
            assert(tabs[u].session(tabs[u].panes[i]) is Some);
        } else {
            let tab = tabs.last();
            lemma_tab_row_source(tab, filter, tab.panes.len() as int, k - before.len());
            let i = choose|i: int|
                0 <= i < tab.panes.len() && tab.session(#[trigger] tab.panes[i]) is Some && is_listed(
                    tab.session(tab.panes[i])->0,
                    filter,
                ) && tab_rows(tab, filter, tab.panes.len() as int)[k - before.len()].1
                    == description(tab.session(tab.panes[i])->0);
            assert(tabs[t].session(tabs[t].panes[i]) is Some);
        }
    }
}

proof fn lemma_tab_row_source(tab: LiveTabView, filter: PaneListFilter, n: int, k: int)
    requires
        0 <= n <= tab.panes.len(),
        0 <= k < tab_rows(tab, filter, n).len(),
    ensures
        exists|i: int|
            0 <= i < n && tab.session(#[trigger] tab.panes[i]) is Some && is_listed(
                tab.session(tab.panes[i])->0,
                filter,
            ) && tab_rows(tab, filter, n)[k].1 == description(tab.session(tab.panes[i])->0),
    decreases n,
{
    if n > 0 {
        let rest = tab_rows(tab, filter, n - 1);
        if k < rest.len() {
            lemma_tab_row_source(tab, filter, n - 1, k);
            let i = choose|i: int|
                0 <= i < n - 1 && tab.session(#[trigger] tab.panes[i]) is Some && is_listed(
                    tab.session(tab.panes[i])->0,
                    filter,
                ) && rest[k].1 == description(tab.session(tab.panes[i])->0);
            assert(tab.session(tab.panes[i]) is Some);
        } else {
            assert(tab.session(tab.panes[n - 1]) is Some);
        }
    }
}

/// What a list is sorted by: what its filter asks for, and then the path of the pane.
pub proof fn law_lists_are_sorted_by_what_they_ask_for(s: SessionView, text: Seq<char>)
    ensures
        sort_key(s, PaneListFilter::All) == s.pane_path,
        s.cwd == Some(text) ==> sort_key(s, PaneListFilter::Cwd) == text + ":"@ + s.pane_path,
        s.branch == Some(text) ==> sort_key(s, PaneListFilter::Branch) == text + ":"@ + s.pane_path,
        s.driver_profile == Some(text) ==> sort_key(s, PaneListFilter::DriverProfile) == text + ":"@
            + s.pane_path,
        s.attention is Error ==> sort_key(s, PaneListFilter::Attention) == "Error"@ + ":"@
            + s.pane_path,
        s.attention is NeedsAttention ==> sort_key(s, PaneListFilter::Attention)
            == "NeedsAttention"@ + ":"@ + s.pane_path,
        s.phase == Some(text) && s.status_text is None ==> sort_key(s, PaneListFilter::Status)
            == text + ":"@ + Seq::empty() + ":"@ + s.pane_path,
{
}

/// The text of the notices is a heading and the notices with bars between them, or says that there
/// are none.
pub proof fn law_notices_are_put_together(tabs: Seq<LiveTabView>)
    ensures
        notices(tabs).len() == 0 ==> notification_text(tabs) == "Notifications: none"@,
        notices(tabs).len() == 1 ==> notification_text(tabs) == "Notifications: "@ + notices(
            tabs,
        )[0],
        notices(tabs).len() == 2 ==> notification_text(tabs) == "Notifications: "@ + (notices(
            tabs,
        )[0] + " | "@ + notices(tabs)[1]),
{
    reveal_with_fuel(crate::text::joined, 3);
    if notices(tabs).len() == 2 {
        assert(notices(tabs).drop_last()[0] == notices(tabs)[0]);
    }
}

} // verus!
