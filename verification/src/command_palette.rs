//! Command palette overlay.
//!
//! Modal overlay triggered by the configured command-palette binding. Provides fuzzy search
//! over all available actions, displays keybinding hints, and yields the selected action.
use vstd::prelude::*;

use crate::bindings::{get_arg, ActionReference, ActionReferenceView, BindingsDefinition};
use crate::input::{KeyEvent, KeyName};
use crate::text::{chars_of, is_control_char, str_eq, string_from, trim};

verus! {

broadcast use vstd::string::group_string_axioms;

/// How many entries the list shows at once.
pub const MAX_VISIBLE_ITEMS: usize = 10;

// ── Action catalog ───────────────────────────────────────────────────────────

/// The actions that the palette offers, each with its description.
pub open spec fn catalog() -> Seq<(Seq<char>, Seq<char>)> {
    seq![
        // Workspace lifecycle
        ("open-workspace"@, "Open or attach to a workspace"@),
        ("close-workspace"@, "Close workspace UI"@),
        ("recreate-workspace"@, "Tear down and recreate workspace"@),
        ("save-workspace"@, "Save current workspace state"@),
        // Window actions
        ("new-window"@, "Create a new window"@),
        ("close-window"@, "Close window and all tabs"@),
        // Tab management
        ("new-tab"@, "Create a new tab"@),
        ("close-tab"@, "Close the current tab"@),
        ("next-tab"@, "Switch to next tab"@),
        ("prev-tab"@, "Switch to previous tab"@),
        ("goto-tab"@, "Switch to tab by index or name"@),
        ("rename-tab"@, "Rename the tab"@),
        ("move-tab-left"@, "Move tab one position left"@),
        ("move-tab-right"@, "Move tab one position right"@),
        // Pane management
        ("split-right"@, "Split pane, new pane on right"@),
        ("split-down"@, "Split pane, new pane below"@),
        ("close-pane"@, "Close pane and kill session"@),
        ("focus-next-pane"@, "Move focus to next pane"@),
        ("focus-prev-pane"@, "Move focus to previous pane"@),
        ("focus-pane-up"@, "Move focus up"@),
        ("focus-pane-down"@, "Move focus down"@),
        ("focus-pane-left"@, "Move focus left"@),
        ("focus-pane-right"@, "Move focus right"@),
        ("focus-pane"@, "Move focus to named pane"@),
        ("zoom-pane"@, "Toggle pane zoom"@),
        ("swap-pane-up"@, "Swap pane with the nearest pane above"@),
        ("swap-pane-down"@, "Swap pane with the nearest pane below"@),
        ("swap-pane-left"@, "Swap pane with the nearest pane on the left"@),
        ("swap-pane-right"@, "Swap pane with the nearest pane on the right"@),
        ("toggle-split-orientation"@, "Toggle the nearest ancestor split orientation"@),
        ("equalize-pane-split"@, "Reset the nearest ancestor split to an even ratio"@),
        ("equalize-tab"@, "Reset all tab splits to even ratios"@),
        ("retile-even-horizontal"@, "Retile panes into an even left-to-right layout"@),
        ("retile-even-vertical"@, "Retile panes into an even top-to-bottom layout"@),
        ("retile-grid"@, "Retile panes into a near-square grid"@),
        ("retile-main-left"@, "Retile panes with the focused pane as the main left pane"@),
        ("retile-main-right"@, "Retile panes with the focused pane as the main right pane"@),
        ("retile-main-top"@, "Retile panes with the focused pane as the main top pane"@),
        ("retile-main-bottom"@, "Retile panes with the focused pane as the main bottom pane"@),
        ("rename-pane"@, "Rename pane"@),
        ("change-profile"@, "Relaunch pane with a different profile"@),
        ("resize-pane-right"@, "Move pane splitter to the right"@),
        ("resize-pane-left"@, "Move pane splitter to the left"@),
        ("resize-pane-down"@, "Move pane splitter downward"@),
        ("resize-pane-up"@, "Move pane splitter upward"@),
        ("resize-pane-grow-right"@, "Grow pane to the right"@),
        ("resize-pane-grow-down"@, "Grow pane downward"@),
        ("resize-pane-shrink-right"@, "Shrink pane from the right"@),
        ("resize-pane-shrink-down"@, "Shrink pane from above"@),
        // Session & clipboard
        ("restart-session"@, "Kill and relaunch session"@),
        ("copy"@, "Copy selected text to clipboard"@),
        ("paste"@, "Paste clipboard content"@),
        // UI actions
        ("toggle-command-palette"@, "Toggle command palette"@),
        ("toggle-fullscreen"@, "Toggle window fullscreen"@),
        ("enter-scrollback-mode"@, "Enter scrollback navigation mode"@),
        ("pass-through-next-key"@, "Send the next keypress directly to the app"@),
    ]
}

/// The names and descriptions of a list of actions.
pub open spec fn action_views(v: Seq<(&'static str, &'static str)>) -> Seq<(Seq<char>, Seq<char>)> {
    v.map_values(|p: (&'static str, &'static str)| (p.0@, p.1@))
}

/// Appends an action to a list.
fn list_action(
    v: &mut Vec<(&'static str, &'static str)>,
    name: &'static str,
    description: &'static str,
)
    ensures
        action_views(final(v)@) == action_views(old(v)@).push((name@, description@)),
{
    v.push((name, description));
    assert(action_views(v@) =~= action_views(old(v)@).push((name@, description@)));
}

/// The actions that the palette offers, each with its description.
pub fn runnable_actions() -> (r: Vec<(&'static str, &'static str)>)
    ensures
        action_views(r@) == catalog(),
{
    let mut v: Vec<(&'static str, &'static str)> = Vec::new();
    assert(action_views(v@) =~= Seq::empty());
    // Workspace lifecycle
    list_action(&mut v, "open-workspace", "Open or attach to a workspace");
    list_action(&mut v, "close-workspace", "Close workspace UI");
    list_action(&mut v, "recreate-workspace", "Tear down and recreate workspace");
    list_action(&mut v, "save-workspace", "Save current workspace state");
    // Window actions
    list_action(&mut v, "new-window", "Create a new window");
    list_action(&mut v, "close-window", "Close window and all tabs");
    // Tab management
    list_action(&mut v, "new-tab", "Create a new tab");
    list_action(&mut v, "close-tab", "Close the current tab");
    list_action(&mut v, "next-tab", "Switch to next tab");
    list_action(&mut v, "prev-tab", "Switch to previous tab");
    list_action(&mut v, "goto-tab", "Switch to tab by index or name");
    list_action(&mut v, "rename-tab", "Rename the tab");
    list_action(&mut v, "move-tab-left", "Move tab one position left");
    list_action(&mut v, "move-tab-right", "Move tab one position right");
    // Pane management
    list_action(&mut v, "split-right", "Split pane, new pane on right");
    list_action(&mut v, "split-down", "Split pane, new pane below");
    list_action(&mut v, "close-pane", "Close pane and kill session");
    list_action(&mut v, "focus-next-pane", "Move focus to next pane");
    list_action(&mut v, "focus-prev-pane", "Move focus to previous pane");
    list_action(&mut v, "focus-pane-up", "Move focus up");
    list_action(&mut v, "focus-pane-down", "Move focus down");
    list_action(&mut v, "focus-pane-left", "Move focus left");
    list_action(&mut v, "focus-pane-right", "Move focus right");
    list_action(&mut v, "focus-pane", "Move focus to named pane");
    list_action(&mut v, "zoom-pane", "Toggle pane zoom");
    list_action(&mut v, "swap-pane-up", "Swap pane with the nearest pane above");
    list_action(&mut v, "swap-pane-down", "Swap pane with the nearest pane below");
    list_action(&mut v, "swap-pane-left", "Swap pane with the nearest pane on the left");
    list_action(&mut v, "swap-pane-right", "Swap pane with the nearest pane on the right");
    list_action(&mut v, "toggle-split-orientation", "Toggle the nearest ancestor split orientation");
    list_action(&mut v, "equalize-pane-split", "Reset the nearest ancestor split to an even ratio");
    list_action(&mut v, "equalize-tab", "Reset all tab splits to even ratios");
    list_action(&mut v, "retile-even-horizontal", "Retile panes into an even left-to-right layout");
    list_action(&mut v, "retile-even-vertical", "Retile panes into an even top-to-bottom layout");
    list_action(&mut v, "retile-grid", "Retile panes into a near-square grid");
    list_action(&mut v, "retile-main-left", "Retile panes with the focused pane as the main left pane");
    list_action(&mut v, "retile-main-right", "Retile panes with the focused pane as the main right pane");
    list_action(&mut v, "retile-main-top", "Retile panes with the focused pane as the main top pane");
    list_action(&mut v, "retile-main-bottom", "Retile panes with the focused pane as the main bottom pane");
    list_action(&mut v, "rename-pane", "Rename pane");
    list_action(&mut v, "change-profile", "Relaunch pane with a different profile");
    list_action(&mut v, "resize-pane-right", "Move pane splitter to the right");
    list_action(&mut v, "resize-pane-left", "Move pane splitter to the left");
    list_action(&mut v, "resize-pane-down", "Move pane splitter downward");
    list_action(&mut v, "resize-pane-up", "Move pane splitter upward");
    list_action(&mut v, "resize-pane-grow-right", "Grow pane to the right");
    list_action(&mut v, "resize-pane-grow-down", "Grow pane downward");
    list_action(&mut v, "resize-pane-shrink-right", "Shrink pane from the right");
    list_action(&mut v, "resize-pane-shrink-down", "Shrink pane from above");
    // Session & clipboard
    list_action(&mut v, "restart-session", "Kill and relaunch session");
    list_action(&mut v, "copy", "Copy selected text to clipboard");
    list_action(&mut v, "paste", "Paste clipboard content");
    // UI actions
    list_action(&mut v, "toggle-command-palette", "Toggle command palette");
    list_action(&mut v, "toggle-fullscreen", "Toggle window fullscreen");
    list_action(&mut v, "enter-scrollback-mode", "Enter scrollback navigation mode");
    list_action(&mut v, "pass-through-next-key", "Send the next keypress directly to the app");
    v
}

// ── Keybinding hints ─────────────────────────────────────────────────────────

/// The name of the action that a reference stands for.
pub open spec fn name_of(ar: ActionReferenceView) -> Seq<char> {
    match ar {
        ActionReferenceView::Simple(name) => name,
        ActionReferenceView::WithArgs { action, .. } => action,
        ActionReferenceView::Removed => Seq::empty(),
    }
}

/// The name of the action that a reference stands for.
fn action_name_from_ref(ar: &ActionReference) -> (r: String)
    ensures
        r@ == name_of(ar@),
{
    match ar {
        ActionReference::Simple(name) => name.clone(),
        ActionReference::WithArgs { action, .. } => action.clone(),
        ActionReference::Removed => String::new(),
    }
}

/// A reverse table from action name to keybinding display string. For a name that has more than
/// one row the first one counts.
#[derive(Debug)]
pub struct KeybindingHints {
    pub rows: Vec<(String, String)>,
}

impl View for KeybindingHints {
    type V = Seq<(Seq<char>, Seq<char>)>;

    open spec fn view(&self) -> Seq<(Seq<char>, Seq<char>)> {
        crate::bindings::args_seq(self.rows@)
    }
}

impl KeybindingHints {
    /// The hint for an action.
    pub fn get(&self, action_name: &str) -> (r: Option<&String>)
        ensures
            match r {
                Some(hint) => crate::bindings::arg_value(self@, action_name@) == Some(hint@),
                None => crate::bindings::arg_value(self@, action_name@) is None,
            },
    {
        get_arg(&self.rows, action_name)
    }
}

/// The prefix key as it is displayed.
pub open spec fn shown_prefix(bindings: BindingsDefinition) -> Seq<char> {
    match bindings.prefix {
        Some(p) => p@,
        None => "Ctrl+B"@,
    }
}

/// The hints that bindings give: single keys by themselves, and after them chords as the prefix,
/// a comma and the key.
pub open spec fn hint_rows(bindings: BindingsDefinition) -> Seq<(Seq<char>, Seq<char>)> {
    crate::bindings::table_view(bindings.keys).map_values(
        |row: (Seq<char>, ActionReferenceView)| (name_of(row.1), row.0),
    ) + crate::bindings::table_view(bindings.chords).map_values(
        |row: (Seq<char>, ActionReferenceView)|
            (name_of(row.1), shown_prefix(bindings) + ", "@ + row.0),
    )
}

/// The hint for an action: the first single key that is bound to it, or else the first chord.
pub open spec fn hint_for(bindings: BindingsDefinition, name: Seq<char>) -> Option<Seq<char>> {
    crate::bindings::arg_value(hint_rows(bindings), name)
}

/// Build a reverse table from action name to keybinding display string.
pub fn build_keybinding_hints(bindings: &BindingsDefinition) -> (r: KeybindingHints)
    ensures
        r@ == hint_rows(*bindings),
{
    let mut rows: Vec<(String, String)> = Vec::new();
    let ghost keys = crate::bindings::table_view(bindings.keys).map_values(
        |row: (Seq<char>, ActionReferenceView)| (name_of(row.1), row.0),
    );
    let ghost chords = crate::bindings::table_view(bindings.chords).map_values(
        |row: (Seq<char>, ActionReferenceView)|
            (name_of(row.1), shown_prefix(*bindings) + ", "@ + row.0),
    );
    // Single-stroke keys are preferred for display (more direct).
    if let Some(table) = &bindings.keys {
        let mut i: usize = 0;
        while i < table.len()
            invariant
                i <= table@.len(),
                bindings.keys == Some(*table),
                keys == crate::bindings::table_view(bindings.keys).map_values(
                    |row: (Seq<char>, ActionReferenceView)| (name_of(row.1), row.0),
                ),
                crate::bindings::args_seq(rows@) == keys.take(i as int),
            decreases table.len() - i,
        {
            let name = action_name_from_ref(&table[i].1);
            let key = table[i].0.clone();
            let ghost before = rows@;
            rows.push((name, key));
            i += 1;
            assert(crate::bindings::args_seq(rows@) =~= crate::bindings::args_seq(before).push(
                (name@, key@),
            ));
            assert(keys.take(i as int) =~= keys.take(i - 1).push(keys[i - 1]));
        }
    }
    assert(crate::bindings::args_seq(rows@) =~= keys);
    // Chord bindings are displayed as "Prefix, key".
    let prefix = match &bindings.prefix {
        Some(p) => p.as_str(),
        None => "Ctrl+B",
    };
    if let Some(table) = &bindings.chords {
        let mut i: usize = 0;
        assert(keys + chords.take(0) =~= keys);
        while i < table.len()
            invariant
                i <= table@.len(),
                bindings.chords == Some(*table),
                prefix@ == shown_prefix(*bindings),
                chords == crate::bindings::table_view(bindings.chords).map_values(
                    |row: (Seq<char>, ActionReferenceView)|
                        (name_of(row.1), shown_prefix(*bindings) + ", "@ + row.0),
                ),
                crate::bindings::args_seq(rows@) == keys + chords.take(i as int),
            decreases table.len() - i,
        {
            let name = action_name_from_ref(&table[i].1);
            let mut hint = prefix.to_owned();
            hint.append(", ");
            hint.append(table[i].0.as_str());
            let ghost before = rows@;
            rows.push((name, hint));
            i += 1;
            assert(crate::bindings::args_seq(rows@) =~= crate::bindings::args_seq(before).push(
                (name@, hint@),
            ));
            assert(keys + chords.take(i as int) =~= (keys + chords.take(i - 1)).push(chords[i - 1]));
        }
    }
    assert(crate::bindings::args_seq(rows@) =~= keys + chords);
    KeybindingHints { rows }
}

// ── Entries ──────────────────────────────────────────────────────────────────

/// A single entry in the command palette.
#[derive(Debug)]
pub struct PaletteEntry {
    pub name: String,
    pub description: String,
    pub keybinding: Option<String>,
}

/// The model of a [`PaletteEntry`].
pub struct PaletteEntryView {
    pub name: Seq<char>,
    pub description: Seq<char>,
    pub keybinding: Option<Seq<char>>,
}

impl View for PaletteEntry {
    type V = PaletteEntryView;

    open spec fn view(&self) -> PaletteEntryView {
        PaletteEntryView {
            name: self.name@,
            description: self.description@,
            keybinding: match self.keybinding {
                Some(k) => Some(k@),
                None => None,
            },
        }
    }
}

impl Clone for PaletteEntry {
    fn clone(&self) -> (r: Self)
        ensures
            r@ == self@,
    {
        PaletteEntry {
            name: self.name.clone(),
            description: self.description.clone(),
            keybinding: match &self.keybinding {
                Some(k) => Some(k.clone()),
                None => None,
            },
        }
    }
}

/// The models of entries.
pub open spec fn entry_views(v: Seq<PaletteEntry>) -> Seq<PaletteEntryView> {
    v.map_values(|e: PaletteEntry| e@)
}

/// Copies entries.
pub fn clone_entries(v: &Vec<PaletteEntry>) -> (r: Vec<PaletteEntry>)
    ensures
        entry_views(r@) == entry_views(v@),
{
    let mut out: Vec<PaletteEntry> = Vec::new();
    let mut i: usize = 0;
    while i < v.len()
        invariant
            i <= v@.len(),
            out@.len() == i,
            forall|j: int| 0 <= j < i ==> (#[trigger] out@[j])@ == v@[j]@,
        decreases v.len() - i,
    {
        out.push(v[i].clone());
        i += 1;
    }
    assert(entry_views(out@) =~= entry_views(v@));
    out
}

/// The palette's entries under the given bindings: the whole catalog, each action with its hint.
pub open spec fn catalog_entries(bindings: BindingsDefinition) -> Seq<PaletteEntryView> {
    catalog().map_values(
        |a: (Seq<char>, Seq<char>)|
            PaletteEntryView {
                name: a.0,
                description: a.1,
                keybinding: hint_for(bindings, a.0),
            },
    )
}

/// Build the full palette entry list from the action catalog, annotated with keybinding hints
/// derived from the provided bindings.
pub fn build_palette_entries(bindings: &BindingsDefinition) -> (r: Vec<PaletteEntry>)
    ensures
        entry_views(r@) == catalog_entries(*bindings),
{
    let hints = build_keybinding_hints(bindings);
    let actions = runnable_actions();
    let ghost all = catalog();
    let mut out: Vec<PaletteEntry> = Vec::new();
    let mut i: usize = 0;
    while i < actions.len()
        invariant
            i <= actions@.len(),
            action_views(actions@) == all,
            hints@ == hint_rows(*bindings),
            out@.len() == i,
            forall|j: int|
                0 <= j < i ==> (#[trigger] out@[j])@ == (PaletteEntryView {
                    name: all[j].0,
                    description: all[j].1,
                    keybinding: hint_for(*bindings, all[j].0),
                }),
        decreases actions.len() - i,
    {
        assert(all[i as int] == (actions@[i as int].0@, actions@[i as int].1@));
        let keybinding = match hints.get(actions[i].0) {
            Some(h) => Some(h.clone()),
            None => None,
        };
        out.push(
            PaletteEntry {
                name: actions[i].0.to_owned(),
                description: actions[i].1.to_owned(),
                keybinding,
            },
        );
        i += 1;
    }
    assert(entry_views(out@) =~= catalog_entries(*bindings));
    out
}

// ── Fuzzy matching ───────────────────────────────────────────────────────────

/// How many characters of `q` the first `n` characters of `t` match, in order, each as early as
/// it can be.
pub open spec fn matched(q: Seq<char>, t: Seq<char>, n: int) -> int
    decreases n,
{
    if n <= 0 {
        0
    } else {
        let m = matched(q, t, n - 1);
        if m < q.len() && t[n - 1] == q[m] {
            m + 1
        } else {
            m
        }
    }
}

/// Whether the character of `t` at `i` is one that matches.
pub open spec fn is_hit(q: Seq<char>, t: Seq<char>, i: int) -> bool {
    matched(q, t, i) < q.len() && t[i] == q[matched(q, t, i)]
}

/// How many characters in a row match just before `n`.
pub open spec fn run_before(q: Seq<char>, t: Seq<char>, n: int) -> int
    decreases n,
{
    if n > 0 && is_hit(q, t, n - 1) {
        run_before(q, t, n - 1) + 1
    } else {
        0
    }
}

/// Whether a word starts at `i`.
pub open spec fn starts_word(t: Seq<char>, i: int) -> bool {
    i == 0 || t[i - 1] == '-' || t[i - 1] == ' ' || t[i - 1] == '_'
}

/// The score of the first `n` characters of `t`: each match counts as the length of the run of
/// matches that ends with it, and three more at the start of a word.
pub open spec fn score_before(q: Seq<char>, t: Seq<char>, n: int) -> int
    decreases n,
{
    if n <= 0 {
        0
    } else if is_hit(q, t, n - 1) {
        score_before(q, t, n - 1) + run_before(q, t, n) + if starts_word(t, n - 1) {
            3int
        } else {
            0
        }
    } else {
        score_before(q, t, n - 1)
    }
}

/// The score of `t` for the query `q`, if all of `q` matches.
pub open spec fn score_of(q: Seq<char>, t: Seq<char>) -> Option<int> {
    if matched(q, t, t.len() as int) == q.len() {
        Some(score_before(q, t, t.len() as int))
    } else {
        None
    }
}

/// The score of a target for a query, whatever the case of their letters.
pub open spec fn fuzzy(query: Seq<char>, target: Seq<char>) -> Option<int> {
    if query.len() == 0 {
        Some(0)
    } else {
        score_of(crate::text::lowercase(query), crate::text::lowercase(target))
    }
}

proof fn lemma_matched(q: Seq<char>, t: Seq<char>, n: int)
    requires
        0 <= n,
    ensures
        0 <= matched(q, t, n) <= n,
        matched(q, t, n) <= q.len(),
        0 <= run_before(q, t, n) <= n,
        0 <= score_before(q, t, n),
        2 * score_before(q, t, n) <= n * (n + 7),
    decreases n,
{
    if n > 0 {
        lemma_matched(q, t, n - 1);
        assert((n - 1) * (n - 1 + 7) + 2 * n + 6 == n * (n + 7)) by (nonlinear_arith);
    }
}

/// Score the characters of a query against those of a target, in order.
pub fn score_chars(query: &Vec<char>, target: &Vec<char>) -> (r: Option<u128>)
    ensures
        match r {
            Some(score) => score_of(query@, target@) == Some(score as int),
            None => score_of(query@, target@) is None,
        },
{
    let mut qi: usize = 0;
    let mut score: u128 = 0;
    let mut consecutive: u128 = 0;
    let mut ti: usize = 0;
    while ti < target.len()
        invariant
            ti <= target@.len(),
            qi <= query@.len(),
            qi == matched(query@, target@, ti as int),
            consecutive == run_before(query@, target@, ti as int),
            score == score_before(query@, target@, ti as int),
        decreases target.len() - ti,
    {
        proof {
            lemma_matched(query@, target@, ti as int);
            lemma_matched(query@, target@, ti + 1);
            let n = ti + 1;
            assert(n * (n + 7) <= 0x1_0000_0000_0000_0000 * 0x1_0000_0000_0000_0007) by (
                nonlinear_arith)
                requires
                    0 <= n <= 0x1_0000_0000_0000_0000,
            ;
        }
        if qi < query.len() && target[ti] == query[qi] {
            qi += 1;
            consecutive += 1;
            // A match that continues a run counts for more.
            score += consecutive;
            // So does a match at the start of a word.
            if ti == 0 || target[ti - 1] == '-' || target[ti - 1] == ' ' || target[ti - 1] == '_' {
                score += 3;
            }
        } else {
            consecutive = 0;
        }
        ti += 1;
    }
    if qi == query.len() {
        Some(score)
    } else {
        None
    }
}

/// Score a query against a target string using fuzzy subsequence matching.
/// Returns `Some(score)` if all query characters appear in order in the target,
/// `None` otherwise. Higher scores indicate better matches. A score that is too large for the
/// result is given as the largest one.
pub fn fuzzy_score(query: &str, target: &str) -> (r: Option<i32>)
    ensures
        match r {
            Some(score) => fuzzy(query@, target@) matches Some(exact) && score == (if exact
                <= i32::MAX {
                exact
            } else {
                i32::MAX as int
            }),
            None => fuzzy(query@, target@) is None,
        },
{
    match full_score(query, target) {
        Some(score) => if score <= i32::MAX as u128 {
            Some(score as i32)
        } else {
            Some(i32::MAX)
        },
        None => None,
    }
}

/// The score of a query for a target, however large it is.
fn full_score(query: &str, target: &str) -> (r: Option<u128>)
    ensures
        match r {
            Some(score) => fuzzy(query@, target@) == Some(score as int),
            None => fuzzy(query@, target@) is None,
        },
{
    let chars = chars_of(query);
    if chars.len() == 0 {
        return Some(0);
    }
    let q = query.to_lowercase();
    let t = target.to_lowercase();
    score_chars(&chars_of(q.as_str()), &chars_of(t.as_str()))
}

// ── Ranking ──────────────────────────────────────────────────────────────────

/// An entry that matches the query.
#[derive(Debug, Clone, Copy, PartialEq, Eq, Structural)]
pub struct FilteredEntry {
    /// Its index in the list of entries.
    pub index: usize,
    pub score: u128,
}

/// The model of a [`FilteredEntry`].
pub struct FilteredView {
    pub index: int,
    pub score: int,
}

impl View for FilteredEntry {
    type V = FilteredView;

    open spec fn view(&self) -> FilteredView {
        FilteredView { index: self.index as int, score: self.score as int }
    }
}

/// The models of filtered entries.
pub open spec fn filtered_views(v: Seq<FilteredEntry>) -> Seq<FilteredView> {
    v.map_values(|e: FilteredEntry| e@)
}

/// The text that a query is matched against: name and description.
pub open spec fn search_text(e: PaletteEntryView) -> Seq<char> {
    e.name + " "@ + e.description
}

/// The ranking with one more entry: behind all that score at least as much.
pub open spec fn ranked_with(ranking: Seq<FilteredView>, e: FilteredView) -> Seq<FilteredView> {
    let at = crate::seqs::first_where(
        0,
        ranking.len() as int,
        |i: int| ranking[i].score < e.score,
    );
    ranking.insert(at, e)
}

/// The first `n` entries as far as they match, best first, those that score alike in the order
/// of the entries.
pub open spec fn ranking(query: Seq<char>, entries: Seq<PaletteEntryView>, n: int) -> Seq<
    FilteredView,
>
    decreases n,
{
    if n <= 0 {
        Seq::empty()
    } else {
        let before = ranking(query, entries, n - 1);
        match fuzzy(query, search_text(entries[n - 1])) {
            Some(score) => ranked_with(
                before,
                FilteredView { index: n - 1, score },
            ),
            None => before,
        }
    }
}

/// All entries, in order.
pub open spec fn unranked(n: nat) -> Seq<FilteredView> {
    Seq::new(n, |i: int| FilteredView { index: i, score: 0 })
}

/// The entries that are listed for a query.
pub open spec fn listed(query: Seq<char>, entries: Seq<PaletteEntryView>) -> Seq<FilteredView> {
    if query.len() == 0 {
        unranked(entries.len())
    } else {
        ranking(query, entries, entries.len() as int)
    }
}

/// A ranking holds entries among the first `n` that match, with their scores, each once, in
/// descending order of score and for equal scores in the order of the entries.
pub open spec fn is_ranking(
    r: Seq<FilteredView>,
    query: Seq<char>,
    entries: Seq<PaletteEntryView>,
    n: int,
) -> bool {
    &&& forall|i: int|
        0 <= i < r.len() ==> 0 <= (#[trigger] r[i]).index < n && fuzzy(
            query,
            search_text(entries[r[i].index]),
        ) == Some(r[i].score)
    &&& forall|i: int, j: int|
        0 <= i < j < r.len() ==> (#[trigger] r[i]).score > (#[trigger] r[j]).score || (r[i].score
            == r[j].score && r[i].index < r[j].index)
}

proof fn lemma_ranked_with(
    r: Seq<FilteredView>,
    query: Seq<char>,
    entries: Seq<PaletteEntryView>,
    n: int,
    e: FilteredView,
)
    requires
        is_ranking(r, query, entries, n),
        0 <= n,
        e.index == n,
        fuzzy(query, search_text(entries[n])) == Some(e.score),
    ensures
        is_ranking(ranked_with(r, e), query, entries, n + 1),
        ranked_with(r, e).len() == r.len() + 1,
        forall|i: int|
            0 <= i < r.len() ==> ranked_with(r, e).contains(#[trigger] r[i]),
        ranked_with(r, e).contains(e),
{
    let p = |i: int| r[i].score < e.score;
    let at = crate::seqs::first_where(0, r.len() as int, p);
    crate::seqs::lemma_first_where(0, r.len() as int, p);
    let s = ranked_with(r, e);
    assert forall|i: int| at <= i < r.len() implies (#[trigger] r[i]).score < e.score by {
        assert(p(at));
        if i > at {
            assert(r[at].score >= r[i].score);
        }
    }
    assert forall|i: int| 0 <= i < at implies (#[trigger] r[i]).score >= e.score by {
        assert(!p(i));
    }
    assert forall|i: int, j: int| 0 <= i < j < s.len() implies (#[trigger] s[i]).score > (
    #[trigger] s[j]).score || (s[i].score == s[j].score && s[i].index < s[j].index) by {
        let a = if i <= at {
            i
        } else {
            i - 1
        };
        let b = if j <= at {
            j
        } else {
            j - 1
        };
        if i != at && j != at {
            assert(s[i] == r[a] && s[j] == r[b]);
        } else if i == at {
            assert(s[j] == r[b]);
        } else {
            assert(s[i] == r[a]);
        }
    }
    assert forall|i: int| 0 <= i < s.len() implies 0 <= (#[trigger] s[i]).index < n + 1 && fuzzy(
        query,
        search_text(entries[s[i].index]),
    ) == Some(s[i].score) by {
        if i < at {
            assert(s[i] == r[i]);
        } else if i > at {
            assert(s[i] == r[i - 1]);
        }
    }
    assert forall|i: int| 0 <= i < r.len() implies s.contains(#[trigger] r[i]) by {
        if i < at {
            assert(s[i] == r[i]);
        } else {
            assert(s[i + 1] == r[i]);
        }
    }
    assert(s[at] == e);
}

/// Ranks the entries that match a query.
fn rank(query: &str, entries: &Vec<PaletteEntry>) -> (r: Vec<FilteredEntry>)
    ensures
        filtered_views(r@) == ranking(query@, entry_views(entries@), entries@.len() as int),
        is_ranking(filtered_views(r@), query@, entry_views(entries@), entries@.len() as int),
{
    let ghost views = entry_views(entries@);
    let mut out: Vec<FilteredEntry> = Vec::new();
    let mut n: usize = 0;
    assert(filtered_views(out@) =~= Seq::empty());
    while n < entries.len()
        invariant
            n <= entries@.len(),
            views == entry_views(entries@),
            filtered_views(out@) == ranking(query@, views, n as int),
            is_ranking(filtered_views(out@), query@, views, n as int),
        decreases entries.len() - n,
    {
        let mut target = entries[n].name.clone();
        target.append(" ");
        target.append(entries[n].description.as_str());
        assert(target@ =~= search_text(views[n as int]));
        if let Some(score) = full_score(query, target.as_str()) {
            let e = FilteredEntry { index: n, score };
            let ghost r = filtered_views(out@);
            let ghost p = |i: int| r[i].score < e@.score;
            let mut at: usize = 0;
            while at < out.len() && !(out[at].score < e.score)
                invariant
                    at <= out@.len(),
                    filtered_views(out@) == r,
                    p == (|i: int| r[i].score < e@.score),
                    forall|j: int| 0 <= j < at ==> !#[trigger] p(j),
                decreases out.len() - at,
            {
                assert(!p(at as int));
                at += 1;
            }
            proof {
                assert(at < r.len() ==> p(at as int));
                crate::seqs::lemma_first_where_is(0, r.len() as int, p, at as int);
                lemma_ranked_with(r, query@, views, n as int, e@);
            }
            out.insert(at, e);
            assert(filtered_views(out@) =~= ranked_with(r, e@));
        }
        n += 1;
    }
    out
}

// ── Palette ──────────────────────────────────────────────────────────────────

/// Result of a palette interaction.
#[derive(Debug, PartialEq, Eq)]
pub enum PaletteResult {
    /// Palette was dismissed (Escape or click outside).
    Dismissed,
    /// An action was selected for dispatch.
    Action(ActionReference),
    /// Input was consumed by the palette (typing, navigation).
    Consumed,
}

impl Clone for PaletteResult {
    fn clone(&self) -> (r: PaletteResult)
        ensures
            r@ == self@,
    {
        match self {
            PaletteResult::Dismissed => PaletteResult::Dismissed,
            PaletteResult::Action(a) => PaletteResult::Action(a.clone()),
            PaletteResult::Consumed => PaletteResult::Consumed,
        }
    }
}

/// The model of a [`PaletteResult`].
pub enum PaletteResultView {
    Dismissed,
    Action(ActionReferenceView),
    Consumed,
}

impl View for PaletteResult {
    type V = PaletteResultView;

    open spec fn view(&self) -> PaletteResultView {
        match self {
            PaletteResult::Dismissed => PaletteResultView::Dismissed,
            PaletteResult::Action(a) => PaletteResultView::Action(a@),
            PaletteResult::Consumed => PaletteResultView::Consumed,
        }
    }
}

/// What the palette asks for.
#[derive(Debug)]
pub enum PaletteMode {
    /// One of the catalog's actions.
    Search,
    /// The text of an argument.
    Prompt { action: String, arg_name: String, label: String, placeholder: String },
    /// One of the given values of an argument.
    Selector {
        action: String,
        arg_name: String,
        label: String,
        placeholder: String,
        /// Whether a text that matches no value can be given in its place.
        allow_custom: bool,
        entries: Vec<PaletteEntry>,
    },
}

/// The model of a [`PaletteMode`].
pub enum PaletteModeView {
    Search,
    Prompt { action: Seq<char>, arg_name: Seq<char>, label: Seq<char>, placeholder: Seq<char> },
    Selector {
        action: Seq<char>,
        arg_name: Seq<char>,
        label: Seq<char>,
        placeholder: Seq<char>,
        allow_custom: bool,
        entries: Seq<PaletteEntryView>,
    },
}

impl View for PaletteMode {
    type V = PaletteModeView;

    open spec fn view(&self) -> PaletteModeView {
        match self {
            PaletteMode::Search => PaletteModeView::Search,
            PaletteMode::Prompt { action, arg_name, label, placeholder } => {
                PaletteModeView::Prompt {
                    action: action@,
                    arg_name: arg_name@,
                    label: label@,
                    placeholder: placeholder@,
                }
            },
            PaletteMode::Selector {
                action,
                arg_name,
                label,
                placeholder,
                allow_custom,
                entries,
            } => PaletteModeView::Selector {
                action: action@,
                arg_name: arg_name@,
                label: label@,
                placeholder: placeholder@,
                allow_custom: *allow_custom,
                entries: entry_views(entries@),
            },
        }
    }
}

/// Modal command palette overlay with fuzzy search and action dispatch.
#[derive(Debug)]
pub struct CommandPalette {
    pub visible: bool,
    pub mode: PaletteMode,
    pub query: String,
    pub entries: Vec<PaletteEntry>,
    pub profile_entries: Vec<PaletteEntry>,
    pub filtered: Vec<FilteredEntry>,
    /// The selected line of the filtered list.
    pub selected: usize,
    /// The first line of the filtered list that is shown.
    pub scroll_offset: usize,
}

/// The model of a [`CommandPalette`].
#[verifier::ext_equal]
pub struct PaletteView {
    pub visible: bool,
    pub mode: PaletteModeView,
    pub query: Seq<char>,
    pub entries: Seq<PaletteEntryView>,
    pub profile_entries: Seq<PaletteEntryView>,
    pub filtered: Seq<FilteredView>,
    pub selected: int,
    pub scroll_offset: int,
}

impl View for CommandPalette {
    type V = PaletteView;

    open spec fn view(&self) -> PaletteView {
        PaletteView {
            visible: self.visible,
            mode: self.mode@,
            query: self.query@,
            entries: entry_views(self.entries@),
            profile_entries: entry_views(self.profile_entries@),
            filtered: filtered_views(self.filtered@),
            selected: self.selected as int,
            scroll_offset: self.scroll_offset as int,
        }
    }
}

/// Whether the entries of a list are among the first `n`.
pub open spec fn indices_below(filtered: Seq<FilteredView>, n: int) -> bool {
    forall|i: int| 0 <= i < filtered.len() ==> 0 <= (#[trigger] filtered[i]).index < n
}

impl PaletteView {
    /// The entries that the list is drawn from.
    pub open spec fn mode_entries(self) -> Seq<PaletteEntryView> {
        match self.mode {
            PaletteModeView::Search => self.entries,
            PaletteModeView::Prompt { .. } => Seq::empty(),
            PaletteModeView::Selector { entries, .. } => entries,
        }
    }

    /// The selection is a line of the list and in the part that is shown, and while the palette
    /// is visible every line is one of its entries.
    pub open spec fn wf(self) -> bool {
        &&& self.selected == 0 || 0 <= self.selected < self.filtered.len()
        &&& 0 <= self.scroll_offset <= self.selected < self.scroll_offset + MAX_VISIBLE_ITEMS
        &&& self.visible ==> indices_below(self.filtered, self.mode_entries().len() as int)
    }
}

/// The palette with the list that belongs to its query.
pub open spec fn refiltered(p: PaletteView) -> PaletteView {
    PaletteView {
        filtered: listed(p.query, p.mode_entries()),
        selected: 0,
        scroll_offset: 0,
        ..p
    }
}

/// The open palette.
pub open spec fn shown(p: PaletteView) -> PaletteView {
    refiltered(
        PaletteView { visible: true, mode: PaletteModeView::Search, query: Seq::empty(), ..p },
    )
}

/// The closed palette.
pub open spec fn hidden(p: PaletteView) -> PaletteView {
    PaletteView { visible: false, mode: PaletteModeView::Search, ..p }
}

/// The palette with a selection, scrolled as little as shows it.
pub open spec fn with_selected(p: PaletteView, selected: int) -> PaletteView {
    PaletteView {
        selected,
        scroll_offset: if selected < p.scroll_offset {
            selected
        } else if selected >= p.scroll_offset + MAX_VISIBLE_ITEMS {
            selected + 1 - MAX_VISIBLE_ITEMS
        } else {
            p.scroll_offset
        },
        ..p
    }
}

/// The palette with another query.
pub open spec fn with_query(p: PaletteView, query: Seq<char>) -> PaletteView {
    let p = PaletteView { query, ..p };
    if p.mode is Prompt {
        p
    } else {
        refiltered(p)
    }
}

/// The characters of a text that can be typed.
pub open spec fn printable(text: Seq<char>) -> Seq<char> {
    text.filter(|c: char| !crate::text::is_control(c))
}

/// What typing a text leaves of the palette.
pub open spec fn after_text(p: PaletteView, text: Seq<char>) -> PaletteView {
    if p.visible {
        with_query(p, p.query + printable(text))
    } else {
        p
    }
}

/// The character that a key types into the query.
pub open spec fn typed_char(event: KeyEvent) -> Option<char> {
    match event.character {
        Some(ch) if !event.modifiers.has_ctrl && !event.modifiers.has_alt
            && !crate::text::is_control(ch) => Some(ch),
        _ => None,
    }
}

/// An action with one argument.
pub open spec fn action_with(
    action: Seq<char>,
    arg_name: Seq<char>,
    value: Seq<char>,
) -> PaletteResultView {
    PaletteResultView::Action(
        ActionReferenceView::WithArgs { action, args: Some(seq![(arg_name, value)]) },
    )
}

/// What a chosen value results in.
pub open spec fn chosen(mode: PaletteModeView, name: Seq<char>) -> PaletteResultView {
    match mode {
        PaletteModeView::Selector { action, arg_name, .. } => action_with(action, arg_name, name),
        _ => PaletteResultView::Action(ActionReferenceView::Simple(name)),
    }
}

/// What Enter results in: the prompt's text, or the selected entry, or else the query where any
/// text can be given.
pub open spec fn on_enter(p: PaletteView) -> PaletteResultView {
    match p.mode {
        PaletteModeView::Prompt { action, arg_name, .. } => action_with(
            action,
            arg_name,
            crate::text::trimmed(p.query),
        ),
        _ => if p.selected < p.filtered.len() {
            chosen(p.mode, p.mode_entries()[p.filtered[p.selected].index].name)
        } else {
            match p.mode {
                PaletteModeView::Selector { action, arg_name, allow_custom, .. } if allow_custom
                    && crate::text::trimmed(p.query).len() > 0 => action_with(
                    action,
                    arg_name,
                    crate::text::trimmed(p.query),
                ),
                _ => PaletteResultView::Dismissed,
            }
        },
    }
}

/// What a key results in.
pub open spec fn on_key(p: PaletteView, event: KeyEvent) -> (PaletteResultView, PaletteView) {
    if !p.visible {
        (PaletteResultView::Consumed, p)
    } else {
        match event.key {
            KeyName::Escape => (PaletteResultView::Dismissed, hidden(p)),
            KeyName::Enter => (on_enter(p), hidden(p)),
            KeyName::Backspace => (
                PaletteResultView::Consumed,
                with_query(
                    p,
                    if p.query.len() > 0 {
                        p.query.drop_last()
                    } else {
                        p.query
                    },
                ),
            ),
            KeyName::Up if !(p.mode is Prompt) => (
                PaletteResultView::Consumed,
                if p.selected > 0 {
                    with_selected(p, p.selected - 1)
                } else {
                    p
                },
            ),
            KeyName::Down if !(p.mode is Prompt) => (
                PaletteResultView::Consumed,
                if p.selected + 1 < p.filtered.len() {
                    with_selected(p, p.selected + 1)
                } else {
                    p
                },
            ),
            _ => (
                PaletteResultView::Consumed,
                match typed_char(event) {
                    Some(ch) => with_query(p, p.query.push(ch)),
                    None => p,
                },
            ),
        }
    }
}

/// What the pointer is on: outside of the palette, or in it, and there perhaps on a line of the
/// part of the list that is shown, counted from its top.
#[derive(Debug, Clone, Copy, PartialEq, Eq, Structural)]
pub enum PaletteHit {
    Outside,
    Inside,
    Line(usize),
}

/// What a click results in.
pub open spec fn on_click_at(p: PaletteView, hit: PaletteHit) -> (
    Option<PaletteResultView>,
    PaletteView,
) {
    if !p.visible {
        (None, p)
    } else {
        match hit {
            PaletteHit::Outside => (Some(PaletteResultView::Dismissed), hidden(p)),
            PaletteHit::Line(n) if !(p.mode is Prompt) && n + p.scroll_offset < p.filtered.len()
                => (
                Some(
                    chosen(
                        p.mode,
                        p.mode_entries()[p.filtered[n + p.scroll_offset].index].name,
                    ),
                ),
                hidden(p),
            ),
            _ => (Some(PaletteResultView::Consumed), p),
        }
    }
}

/// The lines that the wheel moves the selection by: one for each whole notch, at least one.
pub open spec fn wheel_steps(delta: i16) -> int {
    let notches = if delta >= 0 {
        delta as int / 120
    } else {
        (-delta) / 120
    };
    if notches < 1 {
        1
    } else {
        notches
    }
}

/// What the wheel does to the palette.
pub open spec fn after_wheel(p: PaletteView, inside: bool, delta: i16) -> PaletteView {
    let last = p.filtered.len() - 1;
    if p.mode is Prompt || !inside || p.filtered.len() == 0 || delta == 0 {
        p
    } else if delta > 0 {
        with_selected(
            p,
            if p.selected > wheel_steps(delta) {
                p.selected - wheel_steps(delta)
            } else {
                0
            },
        )
    } else {
        with_selected(
            p,
            if p.selected + wheel_steps(delta) < last {
                p.selected + wheel_steps(delta)
            } else {
                last
            },
        )
    }
}

/// A line of the list that is shown.
#[derive(Debug, Clone, Copy, PartialEq, Eq, Structural)]
pub struct PaletteLine {
    /// The index of its entry.
    pub entry: usize,
    pub selected: bool,
}

/// The lines that are shown.
pub open spec fn lines_of(p: PaletteView) -> Seq<PaletteLine> {
    if p.mode is Prompt {
        Seq::empty()
    } else {
        Seq::new(
            shown_lines(p) as nat,
            |i: int|
                PaletteLine {
                    entry: p.filtered[p.scroll_offset + i].index as usize,
                    selected: p.scroll_offset + i == p.selected,
                },
        )
    }
}

/// How many lines of the list are shown.
pub open spec fn shown_lines(p: PaletteView) -> int {
    let left = p.filtered.len() - p.scroll_offset;
    if left < 0 {
        0
    } else if left < MAX_VISIBLE_ITEMS {
        left
    } else {
        MAX_VISIBLE_ITEMS as int
    }
}

/// How many lines the palette has room for.
pub open spec fn room(p: PaletteView) -> int {
    let n = if p.filtered.len() < MAX_VISIBLE_ITEMS {
        p.filtered.len() as int
    } else {
        MAX_VISIBLE_ITEMS as int
    };
    match p.mode {
        PaletteModeView::Search => n,
        PaletteModeView::Selector { .. } => if n < 1 {
            1
        } else {
            n
        },
        PaletteModeView::Prompt { .. } => 1,
    }
}

/// An action reference with one argument.
fn with_arg(action: &String, arg_name: &String, value: String) -> (r: PaletteResult)
    ensures
        r@ == action_with(action@, arg_name@, value@),
{
    let ghost v = value@;
    let mut args: Vec<(String, String)> = Vec::new();
    args.push((arg_name.clone(), value));
    assert(crate::bindings::args_seq(args@) =~= seq![(arg_name@, v)]);
    PaletteResult::Action(ActionReference::WithArgs { action: action.clone(), args: Some(args) })
}

impl CommandPalette {
    /// Create a new command palette. Builds the action catalog and keybinding hints from the
    /// provided bindings.
    pub fn new(bindings: &BindingsDefinition, profile_entries: Vec<PaletteEntry>) -> (r:
        CommandPalette)
        ensures
            r@ == (PaletteView {
                visible: false,
                mode: PaletteModeView::Search,
                query: Seq::empty(),
                entries: catalog_entries(*bindings),
                profile_entries: entry_views(profile_entries@),
                filtered: unranked(catalog().len()),
                selected: 0,
                scroll_offset: 0,
            }),
            r@.wf(),
    {
        let entries = build_palette_entries(bindings);
        let filtered = all_entries(entries.len());
        assert(entry_views(entries@).len() == catalog_entries(*bindings).len());
        CommandPalette {
            visible: false,
            mode: PaletteMode::Search,
            query: String::new(),
            entries,
            profile_entries,
            filtered,
            selected: 0,
            scroll_offset: 0,
        }
    }

    /// Whether the palette is open.
    pub fn is_visible(&self) -> (r: bool)
        ensures
            r == self@.visible,
    {
        self.visible
    }

    /// Open the palette, resetting query and selection.
    pub fn show(&mut self)
        ensures
            final(self)@ == shown(old(self)@),
            final(self)@.wf(),
    {
        self.visible = true;
        self.mode = PaletteMode::Search;
        self.query = String::new();
        self.refilter();
    }

    /// Open the palette to ask for the argument `name` of an action.
    pub fn show_prompt(
        &mut self,
        action: String,
        label: String,
        placeholder: String,
        initial_value: String,
    )
        ensures
            final(self)@ == (PaletteView {
                visible: true,
                mode: PaletteModeView::Prompt {
                    action: action@,
                    arg_name: "name"@,
                    label: label@,
                    placeholder: placeholder@,
                },
                query: initial_value@,
                filtered: Seq::empty(),
                selected: 0,
                scroll_offset: 0,
                ..old(self)@
            }),
            final(self)@.wf(),
    {
        self.visible = true;
        self.mode =
        PaletteMode::Prompt { action, arg_name: "name".to_owned(), label, placeholder };
        self.query = initial_value;
        self.selected = 0;
        self.scroll_offset = 0;
        self.filtered = Vec::new();
    }

    /// Close the palette.
    pub fn close(&mut self)
        ensures
            final(self)@ == hidden(old(self)@),
            old(self)@.wf() ==> final(self)@.wf(),
    {
        self.visible = false;
        self.mode = PaletteMode::Search;
    }

    /// Open or close the palette.
    pub fn toggle(&mut self)
        ensures
            final(self)@ == if old(self)@.visible {
                hidden(old(self)@)
            } else {
                shown(old(self)@)
            },
            old(self)@.wf() ==> final(self)@.wf(),
    {
        if self.visible {
            self.close();
        } else {
            self.show();
        }
    }

    /// Returns true when the palette exposes the given action.
    pub fn has_action(&self, action_name: &str) -> (r: bool)
        ensures
            r == exists|i: int|
                0 <= i < self@.entries.len() && (#[trigger] self@.entries[i]).name == action_name@,
    {
        let mut i: usize = 0;
        while i < self.entries.len()
            invariant
                i <= self.entries@.len(),
                forall|j: int| 0 <= j < i ==> (#[trigger] self@.entries[j]).name != action_name@,
            decreases self.entries.len() - i,
        {
            if str_eq(self.entries[i].name.as_str(), action_name) {
                assert(self@.entries[i as int].name == action_name@);
                return true;
            }
            i += 1;
        }
        false
    }

    /// The profiles that can be chosen from.
    pub fn profile_entries(&self) -> (r: &Vec<PaletteEntry>)
        ensures
            entry_views(r@) == self@.profile_entries,
    {
        &self.profile_entries
    }

    /// Open the palette to ask for the argument `profile` of an action.
    pub fn show_profile_selector(&mut self, action: String, label: String, placeholder: String)
        ensures
            final(self)@ == refiltered(
                PaletteView {
                    visible: true,
                    mode: PaletteModeView::Selector {
                        action: action@,
                        arg_name: "profile"@,
                        label: label@,
                        placeholder: placeholder@,
                        allow_custom: true,
                        entries: old(self)@.profile_entries,
                    },
                    query: Seq::empty(),
                    ..old(self)@
                },
            ),
            final(self)@.wf(),
    {
        let entries = clone_entries(&self.profile_entries);
        self.show_selector(
            action,
            "profile".to_owned(),
            label,
            placeholder,
            String::new(),
            entries,
            true,
        );
    }

    /// Open the palette to ask for an argument of an action, out of the given entries.
    pub fn show_selector(
        &mut self,
        action: String,
        arg_name: String,
        label: String,
        placeholder: String,
        initial_value: String,
        entries: Vec<PaletteEntry>,
        allow_custom: bool,
    )
        ensures
            final(self)@ == refiltered(
                PaletteView {
                    visible: true,
                    mode: PaletteModeView::Selector {
                        action: action@,
                        arg_name: arg_name@,
                        label: label@,
                        placeholder: placeholder@,
                        allow_custom,
                        entries: entry_views(entries@),
                    },
                    query: initial_value@,
                    ..old(self)@
                },
            ),
            final(self)@.wf(),
    {
        self.visible = true;
        self.mode =
        PaletteMode::Selector { action, arg_name, label, placeholder, allow_custom, entries };
        self.query = initial_value;
        self.refilter();
    }

    /// Process text that was typed while the palette is visible.
    pub fn on_text_input(&mut self, text: &str) -> (r: PaletteResult)
        requires
            old(self)@.wf(),
        ensures
            r@ == PaletteResultView::Consumed,
            final(self)@ == after_text(old(self)@, text@),
            final(self)@.wf(),
    {
        if !self.visible {
            return PaletteResult::Consumed;
        }
        let chars = chars_of(text);
        let ghost keep = |c: char| !crate::text::is_control(c);
        let mut i: usize = 0;
        let ghost q = self.query@;
        proof {
            reveal(Seq::filter);
        }
        assert(text@.take(0).filter(keep) =~= Seq::empty());
        assert(q + Seq::<char>::empty() =~= q);
        while i < chars.len()
            invariant
                i <= chars@.len(),
                chars@ == text@,
                keep == (|c: char| !crate::text::is_control(c)),
                q == old(self)@.query,
                self.query@ == q + text@.take(i as int).filter(keep),
                self@ == (PaletteView { query: self.query@, ..old(self)@ }),
                self.visible,
            decreases chars.len() - i,
        {
            proof {
                reveal(Seq::filter);
                assert(text@.take(i + 1).drop_last() =~= text@.take(i as int));
                assert(text@.take(i + 1).last() == chars@[i as int]);
            }
            if !is_control_char(chars[i]) {
                self.query.push(chars[i]);
            }
            i += 1;
            assert(self.query@ =~= q + text@.take(i as int).filter(keep));
        }
        assert(text@.take(i as int) =~= text@);
        match &self.mode {
            PaletteMode::Prompt { .. } => {},
            _ => {
                self.refilter();
            },
        }
        PaletteResult::Consumed
    }

    /// Process a keyboard event while the palette is visible.
    pub fn on_key_event(&mut self, event: &KeyEvent) -> (r: PaletteResult)
        requires
            old(self)@.wf(),
        ensures
            (r@, final(self)@) == on_key(old(self)@, *event),
            final(self)@.wf(),
    {
        if !self.visible {
            return PaletteResult::Consumed;
        }
        let is_prompt = match &self.mode {
            PaletteMode::Prompt { .. } => true,
            _ => false,
        };
        match event.key {
            KeyName::Escape => {
                self.close();
                PaletteResult::Dismissed
            },
            KeyName::Enter => {
                let r = self.accept();
                self.close();
                r
            },
            KeyName::Backspace => {
                let chars = chars_of(self.query.as_str());
                if chars.len() > 0 {
                    assert(chars@.subrange(0, chars@.len() - 1) =~= chars@.drop_last());
                    self.set_query(string_from(&chars, 0, chars.len() - 1));
                } else {
                    self.set_query(String::new());
                }
                PaletteResult::Consumed
            },
            KeyName::Up if !is_prompt => {
                if self.selected > 0 {
                    self.selected -= 1;
                    self.ensure_visible();
                }
                PaletteResult::Consumed
            },
            KeyName::Down if !is_prompt => {
                if self.filtered.len() > 0 && self.selected < self.filtered.len() - 1 {
                    self.selected += 1;
                    self.ensure_visible();
                }
                PaletteResult::Consumed
            },
            _ => {
                // Append printable characters (no Ctrl/Alt modifiers).
                if !event.modifiers.ctrl() && !event.modifiers.alt() {
                    if let Some(ch) = event.character {
                        if !is_control_char(ch) {
                            let mut query = self.query.clone();
                            query.push(ch);
                            self.set_query(query);
                        }
                    }
                }
                PaletteResult::Consumed
            },
        }
    }

    /// Handle a mouse click. Returns `Some(result)` if the palette consumed the click, `None` if
    /// the palette is not visible.
    pub fn on_click(&mut self, hit: PaletteHit) -> (r: Option<PaletteResult>)
        requires
            old(self)@.wf(),
        ensures
            ({
                let (result, after) = on_click_at(old(self)@, hit);
                &&& match r {
                    Some(x) => result == Some(x@),
                    None => result is None,
                }
                &&& final(self)@ == after
            }),
            final(self)@.wf(),
    {
        if !self.visible {
            return None;
        }
        match hit {
            PaletteHit::Outside => {
                self.close();
                Some(PaletteResult::Dismissed)
            },
            PaletteHit::Inside => Some(PaletteResult::Consumed),
            PaletteHit::Line(n) => {
                let is_prompt = match &self.mode {
                    PaletteMode::Prompt { .. } => true,
                    _ => false,
                };
                if is_prompt || self.scroll_offset >= self.filtered.len() || n
                    >= self.filtered.len() - self.scroll_offset {
                    return Some(PaletteResult::Consumed);
                }
                let r = self.choose_line(n + self.scroll_offset);
                self.close();
                Some(r)
            },
        }
    }

    /// Handle mouse wheel scrolling while the palette is visible. `inside` says whether the
    /// pointer is on the palette.
    pub fn on_wheel(&mut self, inside: bool, delta: i16) -> (r: Option<PaletteResult>)
        requires
            old(self)@.wf(),
        ensures
            r is Some == old(self)@.visible,
            r matches Some(x) ==> x@ == PaletteResultView::Consumed,
            final(self)@ == if old(self)@.visible {
                after_wheel(old(self)@, inside, delta)
            } else {
                old(self)@
            },
            final(self)@.wf(),
    {
        if !self.visible {
            return None;
        }
        let is_prompt = match &self.mode {
            PaletteMode::Prompt { .. } => true,
            _ => false,
        };
        if is_prompt || !inside || self.filtered.len() == 0 || delta == 0 {
            return Some(PaletteResult::Consumed);
        }
        let size: i32 = if delta >= 0 {
            delta as i32
        } else {
            -(delta as i32)
        };
        let notches: i32 = size / 120;
        let steps: usize = if notches < 1 {
            1
        } else {
            notches as usize
        };
        let last: usize = self.filtered.len() - 1;
        if delta > 0 {
            self.selected = if self.selected > steps {
                self.selected - steps
            } else {
                0
            };
        } else {
            self.selected = if steps < last - self.selected {
                self.selected + steps
            } else {
                last
            };
        }
        self.ensure_visible();
        Some(PaletteResult::Consumed)
    }

    /// The lines of the list that are shown.
    pub fn visible_lines(&self) -> (r: Vec<PaletteLine>)
        requires
            self@.wf(),
        ensures
            r@ == lines_of(self@),
    {
        let mut out: Vec<PaletteLine> = Vec::new();
        let is_prompt = match &self.mode {
            PaletteMode::Prompt { .. } => true,
            _ => false,
        };
        if is_prompt {
            return out;
        }
        let mut at: usize = self.scroll_offset;
        while at < self.filtered.len() && at - self.scroll_offset < MAX_VISIBLE_ITEMS
            invariant
                self.scroll_offset <= at,
                at - self.scroll_offset <= MAX_VISIBLE_ITEMS,
                at <= self.filtered@.len() || at == self.scroll_offset,
                out@.len() == at - self.scroll_offset,
                forall|i: int|
                    0 <= i < out@.len() ==> #[trigger] out@[i] == (PaletteLine {
                        entry: self.filtered@[self.scroll_offset + i].index,
                        selected: self.scroll_offset + i == self.selected,
                    }),
            decreases self.filtered.len() - at,
        {
            out.push(
                PaletteLine { entry: self.filtered[at].index, selected: at == self.selected },
            );
            at += 1;
        }
        assert(out@ =~= lines_of(self@));
        out
    }

    /// How many lines the palette has room for.
    pub fn line_room(&self) -> (r: usize)
        ensures
            r == room(self@),
    {
        let n: usize = if self.filtered.len() < MAX_VISIBLE_ITEMS {
            self.filtered.len()
        } else {
            MAX_VISIBLE_ITEMS
        };
        match &self.mode {
            PaletteMode::Search => n,
            PaletteMode::Selector { .. } => if n < 1 {
                1
            } else {
                n
            },
            PaletteMode::Prompt { .. } => 1,
        }
    }

    /// What the input field shows while nothing has been typed.
    pub fn placeholder(&self) -> (r: &str)
        ensures
            r@ == match self@.mode {
                PaletteModeView::Search => "Type to search actions\u{2026}"@,
                PaletteModeView::Selector { placeholder, .. } => placeholder,
                PaletteModeView::Prompt { placeholder, .. } => placeholder,
            },
    {
        match &self.mode {
            PaletteMode::Search => "Type to search actions\u{2026}",
            PaletteMode::Selector { placeholder, .. } => placeholder.as_str(),
            PaletteMode::Prompt { placeholder, .. } => placeholder.as_str(),
        }
    }

    /// The instruction under the label of a prompt.
    pub fn prompt_instruction(&self) -> (r: Option<String>)
        ensures
            match self@.mode {
                PaletteModeView::Prompt { action, .. } => r is Some && r->0@
                    == "Press Enter to run "@ + action,
                _ => r is None,
            },
    {
        match &self.mode {
            PaletteMode::Prompt { action, .. } => {
                let mut s = "Press Enter to run ".to_owned();
                s.append(action.as_str());
                Some(s)
            },
            _ => None,
        }
    }

    /// Number of entries matching the current query.
    pub fn filtered_count(&self) -> (r: usize)
        ensures
            r == self@.filtered.len(),
    {
        self.filtered.len()
    }

    /// Currently selected index (into the filtered list).
    pub fn selected_index(&self) -> (r: usize)
        ensures
            r == self@.selected,
    {
        self.selected
    }

    /// Current query string.
    pub fn query(&self) -> (r: &str)
        ensures
            r@ == self@.query,
    {
        self.query.as_str()
    }

    /// Total number of palette entries.
    pub fn entry_count(&self) -> (r: usize)
        ensures
            r == self@.entries.len(),
    {
        self.entries.len()
    }

    /// The entries that the list is drawn from, for a mode that has a list.
    pub fn mode_entries(&self) -> (r: Option<&Vec<PaletteEntry>>)
        ensures
            match r {
                Some(v) => !(self@.mode is Prompt) && entry_views(v@) == self@.mode_entries(),
                None => self@.mode is Prompt,
            },
    {
        match &self.mode {
            PaletteMode::Search => Some(&self.entries),
            PaletteMode::Prompt { .. } => None,
            PaletteMode::Selector { entries, .. } => Some(entries),
        }
    }

    fn refilter(&mut self)
        ensures
            final(self)@ == refiltered(old(self)@),
            final(self)@.wf(),
    {
        let empty = chars_of(self.query.as_str()).len() == 0;
        let filtered = match &self.mode {
            PaletteMode::Search => if empty {
                all_entries(self.entries.len())
            } else {
                rank(self.query.as_str(), &self.entries)
            },
            PaletteMode::Prompt { .. } => Vec::new(),
            PaletteMode::Selector { entries, .. } => if empty {
                all_entries(entries.len())
            } else {
                rank(self.query.as_str(), entries)
            },
        };
        assert(filtered_views(filtered@) =~= listed(self@.query, self@.mode_entries()));
        self.filtered = filtered;
        self.selected = 0;
        self.scroll_offset = 0;
    }

    /// Replaces the query and refreshes the list, where there is a list.
    fn set_query(&mut self, query: String)
        requires
            old(self)@.wf(),
        ensures
            final(self)@ == with_query(old(self)@, query@),
            final(self)@.wf(),
    {
        self.query = query;
        match &self.mode {
            PaletteMode::Prompt { .. } => {},
            _ => {
                self.refilter();
            },
        }
    }

    fn ensure_visible(&mut self)
        requires
            old(self).scroll_offset <= old(self).filtered@.len(),
            old(self).selected == 0 || old(self).selected < old(self).filtered@.len(),
            old(self)@.visible ==> indices_below(
                old(self)@.filtered,
                old(self)@.mode_entries().len() as int,
            ),
        ensures
            final(self)@ == with_selected(old(self)@, old(self)@.selected),
            final(self)@.wf(),
    {
        if self.selected < self.scroll_offset {
            self.scroll_offset = self.selected;
        } else if self.selected - self.scroll_offset >= MAX_VISIBLE_ITEMS {
            self.scroll_offset = self.selected - MAX_VISIBLE_ITEMS + 1;
        }
    }

    /// What choosing a line of the list results in.
    fn choose_line(&self, line: usize) -> (r: PaletteResult)
        requires
            self@.wf(),
            self@.visible,
            line < self.filtered@.len(),
            !(self@.mode is Prompt),
        ensures
            r@ == chosen(
                self@.mode,
                self@.mode_entries()[self@.filtered[line as int].index].name,
            ),
    {
        let index: usize = self.filtered[line].index;
        assert(self@.filtered[line as int].index < self@.mode_entries().len());
        match &self.mode {
            PaletteMode::Selector { action, arg_name, entries, .. } => with_arg(
                action,
                arg_name,
                entries[index].name.clone(),
            ),
            _ => PaletteResult::Action(ActionReference::Simple(self.entries[index].name.clone())),
        }
    }

    /// What Enter results in.
    fn accept(&self) -> (r: PaletteResult)
        requires
            self@.wf(),
            self@.visible,
        ensures
            r@ == on_enter(self@),
    {
        match &self.mode {
            PaletteMode::Prompt { action, arg_name, .. } => with_arg(
                action,
                arg_name,
                trim(self.query.as_str()),
            ),
            PaletteMode::Search => if self.selected < self.filtered.len() {
                self.choose_line(self.selected)
            } else {
                PaletteResult::Dismissed
            },
            PaletteMode::Selector { action, arg_name, allow_custom, .. } => if self.selected
                < self.filtered.len() {
                self.choose_line(self.selected)
            } else if *allow_custom {
                let query = trim(self.query.as_str());
                let n: usize = chars_of(query.as_str()).len();
                if n > 0 {
                    with_arg(action, arg_name, query)
                } else {
                    PaletteResult::Dismissed
                }
            } else {
                PaletteResult::Dismissed
            },
        }
    }
}

/// All of a number of entries, in order.
fn all_entries(n: usize) -> (r: Vec<FilteredEntry>)
    ensures
        filtered_views(r@) == unranked(n as nat),
{
    let mut out: Vec<FilteredEntry> = Vec::new();
    let mut i: usize = 0;
    assert(filtered_views(out@) =~= unranked(0));
    while i < n
        invariant
            i <= n,
            filtered_views(out@) == unranked(i as nat),
        decreases n - i,
    {
        let ghost before = filtered_views(out@);
        let e = FilteredEntry { index: i, score: 0 };
        out.push(e);
        i += 1;
        assert(filtered_views(out@) =~= before.push(e@));
        assert(filtered_views(out@) =~= unranked(i as nat));
    }
    out
}

// ── Laws ─────────────────────────────────────────────────────────────────────

/// `q` is spelled by the characters of `t` at the given ascending positions.
pub open spec fn spelled_at(q: Seq<char>, t: Seq<char>, positions: Seq<int>) -> bool {
    &&& positions.len() == q.len()
    &&& forall|i: int|
        0 <= i < q.len() ==> 0 <= #[trigger] positions[i] < t.len() && t[positions[i]] == q[i]
    &&& forall|i: int, j: int|
        0 <= i < j < q.len() ==> #[trigger] positions[i] < #[trigger] positions[j]
}

/// A target has a score for a query exactly when all characters of the query appear in it, in
/// order.
pub proof fn law_score_iff_subsequence(q: Seq<char>, t: Seq<char>)
    ensures
        score_of(q, t) is Some <==> exists|positions: Seq<int>| spelled_at(q, t, positions),
{
    lemma_matched(q, t, t.len() as int);
    if score_of(q, t) is Some {
        let positions = lemma_hits(q, t, t.len() as int);
        assert(q.take(q.len() as int) =~= q);
        assert(t.take(t.len() as int) =~= t);
        assert(spelled_at(q, t, positions));
    }
    if exists|positions: Seq<int>| spelled_at(q, t, positions) {
        let positions = choose|positions: Seq<int>| spelled_at(q, t, positions);
        if q.len() > 0 {
            lemma_greedy(q, t, positions, q.len() - 1);
            lemma_matched_grows(q, t, positions[q.len() - 1] + 1, t.len() as int);
        }
    }
}

proof fn lemma_hits(q: Seq<char>, t: Seq<char>, n: int) -> (positions: Seq<int>)
    requires
        0 <= n <= t.len(),
    ensures
        spelled_at(q.take(matched(q, t, n)), t.take(n), positions),
    decreases n,
{
    lemma_matched(q, t, n);
    if n == 0 {
        Seq::empty()
    } else {
        let before = lemma_hits(q, t, n - 1);
        lemma_matched(q, t, n - 1);
        let m = matched(q, t, n - 1);
        if is_hit(q, t, n - 1) {
            let positions = before.push(n - 1);
            assert forall|i: int| 0 <= i < m + 1 implies 0 <= #[trigger] positions[i] < n
                && t.take(n)[positions[i]] == q.take(m + 1)[i] by {
                if i < m {
                    assert(before[i] == positions[i]);
                    assert(t.take(n - 1)[before[i]] == q.take(m)[i]);
                }
            }
            assert forall|i: int, j: int| 0 <= i < j < m + 1 implies #[trigger] positions[i]
                < #[trigger] positions[j] by {
                assert(before[i] == positions[i]);
                if j < m {
                    assert(before[j] == positions[j]);
                }
            }
            positions
        } else {
            assert forall|i: int| 0 <= i < m implies 0 <= #[trigger] before[i] < n && t.take(
                n,
            )[before[i]] == q.take(m)[i] by {
                assert(t.take(n - 1)[before[i]] == q.take(m)[i]);
            }
            before
        }
    }
}

proof fn lemma_matched_grows(q: Seq<char>, t: Seq<char>, a: int, b: int)
    requires
        a <= b,
    ensures
        matched(q, t, a) <= matched(q, t, b),
    decreases b - a,
{
    if a < b {
        lemma_matched_grows(q, t, a, b - 1);
    }
}

proof fn lemma_greedy(q: Seq<char>, t: Seq<char>, positions: Seq<int>, k: int)
    requires
        spelled_at(q, t, positions),
        0 <= k < q.len(),
    ensures
        matched(q, t, positions[k] + 1) >= k + 1,
    decreases k,
{
    lemma_matched(q, t, positions[k]);
    if k > 0 {
        lemma_greedy(q, t, positions, k - 1);
        assert(positions[k - 1] < positions[k]);
        lemma_matched_grows(q, t, positions[k - 1] + 1, positions[k]);
    }
}

/// The list for a query that is not empty holds exactly the entries that match it, with their
/// scores, best first, and those that score alike in the order of the entries.
pub proof fn law_list_is_ranked(query: Seq<char>, entries: Seq<PaletteEntryView>)
    requires
        query.len() > 0,
    ensures
        is_ranking(listed(query, entries), query, entries, entries.len() as int),
        forall|i: int|
            0 <= i < entries.len() ==> (fuzzy(query, #[trigger] search_text(entries[i])) is Some
                <==> exists|j: int|
                0 <= j < listed(query, entries).len() && (#[trigger] listed(
                    query,
                    entries,
                )[j]).index == i),
{
    lemma_ranking(query, entries, entries.len() as int);
    let r = listed(query, entries);
    assert forall|i: int| 0 <= i < entries.len() implies (fuzzy(
        query,
        #[trigger] search_text(entries[i]),
    ) is Some <==> exists|j: int| 0 <= j < r.len() && (#[trigger] r[j]).index == i) by {
        if exists|j: int| 0 <= j < r.len() && (#[trigger] r[j]).index == i {
            let j = choose|j: int| 0 <= j < r.len() && (#[trigger] r[j]).index == i;
            assert(fuzzy(query, search_text(entries[r[j].index])) == Some(r[j].score));
        }
    }
}

proof fn lemma_ranking(query: Seq<char>, entries: Seq<PaletteEntryView>, n: int)
    requires
        0 <= n <= entries.len(),
    ensures
        is_ranking(ranking(query, entries, n), query, entries, n),
        forall|i: int|
            0 <= i < n && fuzzy(query, #[trigger] search_text(entries[i])) is Some ==> exists|j: int|
                0 <= j < ranking(query, entries, n).len() && (#[trigger] ranking(
                    query,
                    entries,
                    n,
                )[j]).index == i,
    decreases n,
{
    if n > 0 {
        lemma_ranking(query, entries, n - 1);
        let before = ranking(query, entries, n - 1);
        let after = ranking(query, entries, n);
        let text = search_text(entries[n - 1]);
        match fuzzy(query, text) {
            Some(score) => {
                let e = FilteredView { index: n - 1, score };
                lemma_ranked_with(before, query, entries, n - 1, e);
                assert forall|i: int|
                    0 <= i < n && fuzzy(query, #[trigger] search_text(entries[i])) is Some implies exists|
                    j: int,
                | 0 <= j < after.len() && (#[trigger] after[j]).index == i by {
                    if i < n - 1 {
                        let k = choose|k: int|
                            0 <= k < before.len() && (#[trigger] before[k]).index == i;
                        assert(after.contains(before[k]));
                        let j = choose|j: int| 0 <= j < after.len() && after[j] == before[k];
                        assert(after[j].index == i);
                    } else {
                        let j = choose|j: int| 0 <= j < after.len() && after[j] == e;
                        assert(after[j].index == i);
                    }
                }
            },
            None => {
                assert(after == before);
            },
        }
    }
}

/// Whatever a key does, the palette is open afterwards exactly when it was and the key was
/// neither Escape nor Enter; and only Enter chooses an action.
pub proof fn law_keys_close(p: PaletteView, event: KeyEvent)
    ensures
        on_key(p, event).1.visible <==> p.visible && event.key != KeyName::Escape && event.key
            != KeyName::Enter,
        on_key(p, event).0 is Action ==> p.visible && event.key == KeyName::Enter,
{
}

/// Down and then Up leave the selection where it was, unless it was on the last line.
pub proof fn law_down_up(p: PaletteView, down: KeyEvent, up: KeyEvent)
    requires
        p.wf(),
        p.visible,
        !(p.mode is Prompt),
        down.key == KeyName::Down,
        up.key == KeyName::Up,
        p.selected + 1 < p.filtered.len(),
    ensures
        on_key(on_key(p, down).1, up).1.selected == p.selected,
{
}

/// The line that is selected is among the lines that are shown.
pub proof fn law_selection_is_shown(p: PaletteView)
    requires
        p.wf(),
        !(p.mode is Prompt),
        p.filtered.len() > 0,
    ensures
        0 <= p.selected - p.scroll_offset < lines_of(p).len(),
        forall|i: int|
            0 <= i < lines_of(p).len() ==> ((#[trigger] lines_of(p)[i]).selected <==> i
                == p.selected - p.scroll_offset),
{
}

/// Opening the palette lists the whole catalog.
pub proof fn law_shown_lists_all(p: PaletteView, i: int)
    requires
        0 <= i < p.entries.len(),
    ensures
        shown(p).filtered.len() == p.entries.len(),
        shown(p).filtered[i].index == i,
{
}

/// The key that is shown for an action is the first single key that is bound to it. An action that
/// only chords are bound to is shown with the prefix and the first of these, and an action that
/// nothing is bound to is shown without a key.
pub proof fn law_hints_show_how_to_invoke(bindings: BindingsDefinition, name: Seq<char>, i: int, j: int)
    requires
        ({
            let keys = crate::bindings::table_view(bindings.keys);
            let chords = crate::bindings::table_view(bindings.chords);
            &&& 0 <= i <= keys.len()
            &&& 0 <= j <= chords.len()
            &&& forall|k: int| 0 <= k < i ==> name_of((#[trigger] keys[k]).1) != name
            &&& i < keys.len() ==> name_of(keys[i].1) == name
            &&& forall|k: int| 0 <= k < j ==> name_of((#[trigger] chords[k]).1) != name
            &&& j < chords.len() ==> name_of(chords[j].1) == name
        }),
    ensures
        ({
            let keys = crate::bindings::table_view(bindings.keys);
            let chords = crate::bindings::table_view(bindings.chords);
            let prefix = match bindings.prefix {
                Some(p) => p@,
                None => "Ctrl+B"@,
            };
            hint_for(bindings, name) == (if i < keys.len() {
                Some(keys[i].0)
            } else if j < chords.len() {
                Some(prefix + ", "@ + chords[j].0)
            } else {
                None
            })
        }),
{
    let keys = crate::bindings::table_view(bindings.keys);
    let chords = crate::bindings::table_view(bindings.chords);
    let rows = hint_rows(bindings);
    assert forall|k: int| 0 <= k < i implies (#[trigger] rows[k]).0 != name by {
        assert(name_of(keys[k].1) != name);
    }
    if i < keys.len() {
        crate::bindings::law_first_argument_counts(rows, name, i);
    } else {
        assert forall|k: int| 0 <= k < i + j implies (#[trigger] rows[k]).0 != name by {
            if k >= i {
                assert(name_of(chords[k - i].1) != name);
            }
        }
        crate::bindings::law_first_argument_counts(rows, name, i + j);
    }
}

/// As much of the query is matched as any way of spelling it in the text allows: no spelling of its
/// first characters ends earlier.
pub proof fn law_matching_is_greedy(q: Seq<char>, t: Seq<char>, positions: Seq<int>, k: int)
    requires
        spelled_at(q, t, positions),
        0 <= k < q.len(),
    ensures
        matched(q, t, positions[k] + 1) >= k + 1,
{
    lemma_greedy(q, t, positions, k);
}

/// What a matched character adds to the score: one, and one more for each character matched right
/// before it; and three more at the start of a word, which is the start of the text or what follows
/// a hyphen, a blank or an underscore. A character that is not matched adds nothing.
pub proof fn law_score_adds_up(q: Seq<char>, t: Seq<char>, i: int)
    requires
        0 <= i < t.len(),
    ensures
        ({
            let gain = |k: int| score_before(q, t, k + 1) - score_before(q, t, k);
            let bonus = |k: int|
                if k == 0 || t[k - 1] == '-' || t[k - 1] == ' ' || t[k - 1] == '_' {
                    3int
                } else {
                    0
                };
            let hit = |k: int| matched(q, t, k + 1) > matched(q, t, k);
            &&& score_before(q, t, 0) == 0
            &&& !hit(i) ==> gain(i) == 0
            &&& hit(i) && (i == 0 || !hit(i - 1)) ==> gain(i) == 1 + bonus(i)
            &&& hit(i) && i > 0 && hit(i - 1) ==> gain(i) - bonus(i) == gain(i - 1) - bonus(i - 1)
                + 1
        }),
{
    reveal_with_fuel(score_before, 3);
    reveal_with_fuel(run_before, 3);
    reveal_with_fuel(matched, 3);
}

/// A query that is not empty is scored by its characters and those of the text, both in small
/// letters; the empty query matches everything.
pub proof fn law_scoring_ignores_case(query: Seq<char>, target: Seq<char>, other: Seq<char>)
    requires
        crate::text::lowercase(target) == crate::text::lowercase(other),
    ensures
        fuzzy(query, target) == fuzzy(query, other),
        fuzzy(Seq::empty(), target) == Some(0int),
        query.len() > 0 ==> (fuzzy(query, target) is Some <==> exists|positions: Seq<int>|
            spelled_at(
                crate::text::lowercase(query),
                crate::text::lowercase(target),
                positions,
            )),
{
    law_score_iff_subsequence(crate::text::lowercase(query), crate::text::lowercase(target));
}

/// An entry is searched by its name and its description.
pub proof fn law_entries_are_searched_by_name_and_description(e: PaletteEntryView)
    ensures
        search_text(e).take(e.name.len() as int) == e.name,
        search_text(e)[e.name.len() as int] == ' ',
        search_text(e).skip(e.name.len() as int + 1) == e.description,
{
    reveal_strlit(" ");
    assert(search_text(e).take(e.name.len() as int) =~= e.name);
    assert(search_text(e).skip(e.name.len() as int + 1) =~= e.description);
}

/// The event of a key that types a character.
pub open spec fn types(event: KeyEvent, c: char) -> bool {
    event.character == Some(c) && !event.modifiers.has_ctrl && !event.modifiers.has_alt
        && !crate::text::is_control(c) && !(event.key is Escape) && !(event.key is Enter) && !(
    event.key is Backspace) && !(event.key is Up) && !(event.key is Down)
}

/// What is typed comes at the end of the query, Backspace takes the last character off again, and
/// every change lists the entries anew from the top.
pub proof fn law_typing_edits_the_query(
    p: PaletteView,
    event: KeyEvent,
    c: char,
    back: KeyEvent,
)
    requires
        p.visible,
        types(event, c),
        back.key == KeyName::Backspace,
    ensures
        ({
            let (r, typed) = on_key(p, event);
            let (r2, undone) = on_key(typed, back);
            &&& r is Consumed && r2 is Consumed
            &&& typed.visible && undone.visible
            &&& typed.query == p.query.push(c)
            &&& undone.query == p.query
            &&& typed.mode == p.mode && undone.mode == p.mode
            &&& !(p.mode is Prompt) ==> typed.filtered == listed(p.query.push(c), p.mode_entries())
                && typed.selected == 0 && typed.scroll_offset == 0
            &&& !(p.mode is Prompt) ==> undone.filtered == listed(p.query, p.mode_entries())
        }),
{
    assert(p.query.push(c).drop_last() =~= p.query);
}

/// Text that comes all at once is added to the query without its control characters.
pub proof fn law_text_is_added_to_the_query(p: PaletteView, text: Seq<char>, c: char)
    requires
        p.visible,
    ensures
        crate::text::is_control(c) ==> after_text(p, text.push(c)).query == after_text(
            p,
            text,
        ).query,
        !crate::text::is_control(c) ==> after_text(p, text.push(c)).query == after_text(
            p,
            text,
        ).query.push(c),
        after_text(p, Seq::empty()).query == p.query,
{
    let keep = |c: char| !crate::text::is_control(c);
    reveal(Seq::filter);
    assert(text.push(c).drop_last() =~= text);
    assert(p.query + printable(text).push(c) =~= (p.query + printable(text)).push(c));
    assert(p.query + Seq::<char>::empty() =~= p.query);
}

/// Down selects the next entry and Up the one before, as far as there are any, and neither changes
/// what is listed.
pub proof fn law_arrows_move_by_one(p: PaletteView, down: KeyEvent, up: KeyEvent)
    requires
        p.visible,
        p.wf(),
        !(p.mode is Prompt),
        down.key == KeyName::Down,
        up.key == KeyName::Up,
    ensures
        on_key(p, down).1.selected == (if p.selected + 1 < p.filtered.len() {
            p.selected + 1
        } else {
            p.selected
        }),
        on_key(p, up).1.selected == (if p.selected > 0 {
            p.selected - 1
        } else {
            0
        }),
        on_key(p, down).1.filtered == p.filtered,
        on_key(p, up).1.filtered == p.filtered,
        on_key(p, down).1.query == p.query,
        on_key(p, up).1.query == p.query,
        on_key(p, down).1.wf(),
        on_key(p, up).1.wf(),
{
}

/// Enter chooses the selected entry: while searching it is the action to run, and in a selector the
/// argument of the action. In a prompt the argument is what was typed, without white space around it.
pub proof fn law_enter_chooses_the_selected_entry(p: PaletteView, enter: KeyEvent)
    requires
        p.visible,
        p.wf(),
        enter.key == KeyName::Enter,
    ensures
        ({
            let r = on_key(p, enter).0;
            let name = p.mode_entries()[p.filtered[p.selected].index].name;
            &&& p.mode is Search && p.filtered.len() > 0 ==> r == PaletteResultView::Action(
                ActionReferenceView::Simple(name),
            )
            &&& p.mode is Search && p.filtered.len() == 0 ==> r is Dismissed
            &&& p.mode matches PaletteModeView::Prompt { action, arg_name, .. } ==> r
                == PaletteResultView::Action(
                ActionReferenceView::WithArgs {
                    action,
                    args: Some(seq![(arg_name, crate::text::trimmed(p.query))]),
                },
            )
            &&& p.mode matches PaletteModeView::Selector { action, arg_name, allow_custom, .. } ==> {
                &&& p.filtered.len() > 0 ==> r == PaletteResultView::Action(
                    ActionReferenceView::WithArgs { action, args: Some(seq![(arg_name, name)]) },
                )
                &&& p.filtered.len() == 0 && allow_custom && crate::text::trimmed(p.query).len() > 0
                    ==> r == PaletteResultView::Action(
                    ActionReferenceView::WithArgs {
                        action,
                        args: Some(seq![(arg_name, crate::text::trimmed(p.query))]),
                    },
                )
                &&& p.filtered.len() == 0 && !(allow_custom && crate::text::trimmed(p.query).len()
                    > 0) ==> r is Dismissed
            }
        }),
{
}

/// Escape closes the palette without an action, whatever it shows.
pub proof fn law_escape_dismisses(p: PaletteView, escape: KeyEvent)
    requires
        p.visible,
        escape.key == KeyName::Escape,
    ensures
        on_key(p, escape).0 is Dismissed,
        !on_key(p, escape).1.visible,
{
}

/// A click on a line chooses the entry that the line shows, as Enter does where it is the selected
/// one. A click beside the palette closes it, and any other click leaves it as it is.
pub proof fn law_click_chooses_the_entry_shown(p: PaletteView, n: usize, enter: KeyEvent)
    requires
        p.visible,
        p.wf(),
        enter.key == KeyName::Enter,
    ensures
        n < lines_of(p).len() ==> ({
            let (r, after) = on_click_at(p, PaletteHit::Line(n));
            let name = p.mode_entries()[p.filtered[p.scroll_offset + n].index].name;
            &&& r is Some
            &&& !after.visible
            &&& lines_of(p)[n as int].entry == p.filtered[p.scroll_offset + n].index as usize
            &&& r->0 == chosen(p.mode, name)
            &&& lines_of(p)[n as int].selected ==> r->0 == on_key(p, enter).0
        }),
        !(p.mode is Prompt) && p.scroll_offset + n >= p.filtered.len() ==> on_click_at(
            p,
            PaletteHit::Line(n),
        ) == (Some(PaletteResultView::Consumed), p),
        on_click_at(p, PaletteHit::Outside).0 == Some(PaletteResultView::Dismissed),
        !on_click_at(p, PaletteHit::Outside).1.visible,
{
}

/// A closed palette takes no key and no click.
pub proof fn law_closed_palette_is_left_alone(p: PaletteView, event: KeyEvent, hit: PaletteHit)
    requires
        !p.visible,
    ensures
        on_key(p, event).1 == p,
        on_click_at(p, hit) == (None::<PaletteResultView>, p),
{
}

/// The wheel moves the selection by as many entries as notches, and by one for less than a notch:
/// up to earlier entries and down to later ones, as far as there are any.
pub proof fn law_wheel_moves_the_selection(p: PaletteView, delta: i16)
    requires
        p.wf(),
        !(p.mode is Prompt),
        p.filtered.len() > 0,
    ensures
        ({
            let after = after_wheel(p, true, delta);
            let turned: int = if delta >= 0 {
                delta as int
            } else {
                -(delta as int)
            };
            let steps = if turned < 240 {
                1int
            } else {
                turned / 120
            };
            &&& delta == 0 ==> after == p
            &&& delta > 0 && steps <= p.selected ==> after.selected == p.selected - steps
            &&& delta > 0 && steps > p.selected ==> after.selected == 0
            &&& delta < 0 && p.selected + steps < p.filtered.len() ==> after.selected == p.selected
                + steps
            &&& delta < 0 && p.selected + steps >= p.filtered.len() ==> after.selected
                == p.filtered.len() - 1
            &&& after.filtered == p.filtered
            &&& after.wf()
            &&& after_wheel(p, false, delta) == p
        }),
{
}

/// Lines show the listed entries one after the other, from the first that is scrolled to, as many as
/// there are and as have room.
pub proof fn law_lines_show_the_list(p: PaletteView, i: int)
    requires
        p.wf(),
        !(p.mode is Prompt),
        0 <= i,
        p.scroll_offset + i < p.filtered.len(),
        i < MAX_VISIBLE_ITEMS,
    ensures
        i < lines_of(p).len(),
        lines_of(p)[i].entry == p.filtered[p.scroll_offset + i].index as usize,
        lines_of(p).len() <= MAX_VISIBLE_ITEMS,
        lines_of(p).len() <= p.filtered.len() - p.scroll_offset,
{
}

/// Opening the palette shows it with an empty query and all actions; closing it keeps the actions.
pub proof fn law_opening_starts_afresh(p: PaletteView)
    ensures
        shown(p).visible,
        shown(p).mode is Search,
        shown(p).query.len() == 0,
        shown(p).selected == 0,
        shown(p).scroll_offset == 0,
        shown(p).entries == p.entries,
        !hidden(p).visible,
        hidden(p).entries == p.entries,
        hidden(p).profile_entries == p.profile_entries,
{
}

/// Whether the palette offers an action.
pub open spec fn offers_action(name: Seq<char>) -> bool {
    exists|i: int| 0 <= i < catalog().len() && (#[trigger] catalog()[i]).0 == name
}

/// What is offered for one direction is offered for each: moving the focus, swapping panes and moving
/// a splitter.
pub proof fn law_every_direction_is_offered()
    ensures
        forall|way: Seq<char>|
            way == "up"@ || way == "down"@ || way == "left"@ || way == "right"@ ==> offers_action(
                #[trigger] ("focus-pane-"@ + way),
            ) && offers_action("swap-pane-"@ + way) && offers_action("resize-pane-"@ + way),
{
    reveal_strlit("up");
    reveal_strlit("down");
    reveal_strlit("left");
    reveal_strlit("right");
    reveal_strlit("focus-pane-");
    reveal_strlit("swap-pane-");
    reveal_strlit("resize-pane-");
    reveal_strlit("focus-pane-up");
    reveal_strlit("focus-pane-down");
    reveal_strlit("focus-pane-left");
    reveal_strlit("focus-pane-right");
    reveal_strlit("swap-pane-up");
    reveal_strlit("swap-pane-down");
    reveal_strlit("swap-pane-left");
    reveal_strlit("swap-pane-right");
    reveal_strlit("resize-pane-up");
    reveal_strlit("resize-pane-down");
    reveal_strlit("resize-pane-left");
    reveal_strlit("resize-pane-right");
    assert("focus-pane-"@ + "up"@ =~= "focus-pane-up"@);
    assert("focus-pane-"@ + "down"@ =~= "focus-pane-down"@);
    assert("focus-pane-"@ + "left"@ =~= "focus-pane-left"@);
    assert("focus-pane-"@ + "right"@ =~= "focus-pane-right"@);
    assert("swap-pane-"@ + "up"@ =~= "swap-pane-up"@);
    assert("swap-pane-"@ + "down"@ =~= "swap-pane-down"@);
    assert("swap-pane-"@ + "left"@ =~= "swap-pane-left"@);
    assert("swap-pane-"@ + "right"@ =~= "swap-pane-right"@);
    assert("resize-pane-"@ + "up"@ =~= "resize-pane-up"@);
    assert("resize-pane-"@ + "down"@ =~= "resize-pane-down"@);
    assert("resize-pane-"@ + "left"@ =~= "resize-pane-left"@);
    assert("resize-pane-"@ + "right"@ =~= "resize-pane-right"@);
    assert(catalog()[19].0 == "focus-pane-up"@ && catalog()[20].0 == "focus-pane-down"@);
    assert(catalog()[21].0 == "focus-pane-left"@ && catalog()[22].0 == "focus-pane-right"@);
    assert(catalog()[25].0 == "swap-pane-up"@ && catalog()[26].0 == "swap-pane-down"@);
    assert(catalog()[27].0 == "swap-pane-left"@ && catalog()[28].0 == "swap-pane-right"@);
    assert(catalog()[41].0 == "resize-pane-right"@ && catalog()[42].0 == "resize-pane-left"@);
    assert(catalog()[43].0 == "resize-pane-down"@ && catalog()[44].0 == "resize-pane-up"@);
}

/// The palette lists the actions that it offers, each with the key that is shown for it.
pub proof fn law_entries_are_the_catalog(bindings: BindingsDefinition, i: int)
    requires
        0 <= i < catalog().len(),
    ensures
        catalog_entries(bindings).len() == catalog().len(),
        catalog_entries(bindings)[i].name == catalog()[i].0,
        catalog_entries(bindings)[i].description == catalog()[i].1,
        catalog_entries(bindings)[i].keybinding == hint_for(bindings, catalog()[i].0),
{
}

} // verus!
