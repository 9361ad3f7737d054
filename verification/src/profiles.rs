//! The profiles that a new pane can be opened with.
use vstd::prelude::*;

use crate::bindings::ActionArgs;
use crate::command_palette::{CommandPalette, PaletteEntry, PaletteEntryView};
use crate::sorting::insert_row;
use crate::text::str_eq;

verus! {

broadcast use vstd::string::group_string_axioms;

/// What kind of shell a profile starts.
#[derive(Debug, Clone, Copy, PartialEq, Eq, Structural)]
pub enum ProfileType {
    Powershell,
    Cmd,
    Wsl,
    Ssh,
    Custom,
}

/// How the kind of a profile is called.
pub open spec fn kind_name(t: ProfileType) -> Seq<char> {
    match t {
        ProfileType::Powershell => "PowerShell"@,
        ProfileType::Cmd => "cmd"@,
        ProfileType::Wsl => "WSL"@,
        ProfileType::Ssh => "SSH"@,
        ProfileType::Custom => "custom"@,
    }
}

/// How the kind of a profile is called.
pub fn profile_kind(profile_type: ProfileType) -> (r: &'static str)
    ensures
        r@ == kind_name(profile_type),
{
    match profile_type {
        ProfileType::Powershell => "PowerShell",
        ProfileType::Cmd => "cmd",
        ProfileType::Wsl => "WSL",
        ProfileType::Ssh => "SSH",
        ProfileType::Custom => "custom",
    }
}

/// An entry without a keybinding.
pub open spec fn plain_entry(name: Seq<char>, description: Seq<char>) -> PaletteEntryView {
    PaletteEntryView { name, description, keybinding: None }
}

/// The profiles that are always there.
pub open spec fn builtin_profiles() -> Seq<PaletteEntryView> {
    seq![
        plain_entry("powershell"@, "Built-in PowerShell profile"@),
        plain_entry("cmd"@, "Built-in Command Prompt profile"@),
        plain_entry("wsl"@, "Built-in Windows Subsystem for Linux profile"@),
        plain_entry("ssh"@, "Built-in SSH profile"@),
    ]
}

/// Whether there is an entry with the given name.
pub open spec fn has_name(entries: Seq<PaletteEntryView>, name: Seq<char>) -> bool {
    exists|i: int| 0 <= i < entries.len() && (#[trigger] entries[i]).name == name
}

/// The entries with one more, unless there is one with that name.
pub open spec fn with_profile(
    entries: Seq<PaletteEntryView>,
    name: Seq<char>,
    description: Seq<char>,
) -> Seq<PaletteEntryView> {
    if has_name(entries, name) {
        entries
    } else {
        entries.push(plain_entry(name, description))
    }
}

/// The entries with the first `n` rows of names and descriptions added.
pub open spec fn with_profiles(
    entries: Seq<PaletteEntryView>,
    rows: Seq<(Seq<char>, Seq<char>)>,
    n: int,
) -> Seq<PaletteEntryView>
    decreases n,
{
    if n <= 0 {
        entries
    } else {
        with_profile(with_profiles(entries, rows, n - 1), rows[n - 1].0, rows[n - 1].1)
    }
}

/// The names of profiles with a description of where they come from and what they start.
pub open spec fn profile_rows(origin: Seq<char>, profiles: Seq<(String, ProfileType)>) -> Seq<
    (Seq<char>, Seq<char>),
> {
    profiles.map_values(
        |p: (String, ProfileType)| (p.0@, origin + kind_name(p.1) + " profile"@),
    )
}

/// The entries with the profiles of one origin added, in the order of their names.
pub open spec fn with_origin(
    entries: Seq<PaletteEntryView>,
    origin: Seq<char>,
    profiles: Seq<(String, ProfileType)>,
) -> Seq<PaletteEntryView> {
    let rows = crate::sorting::sorted(profile_rows(origin, profiles));
    with_profiles(entries, rows, rows.len() as int)
}

/// The entries with the first one of the given name moved to the front.
pub open spec fn preferred_first(entries: Seq<PaletteEntryView>, name: Option<Seq<char>>) -> Seq<
    PaletteEntryView,
> {
    match name {
        Some(name) => {
            let i = crate::seqs::first_where(
                0,
                entries.len() as int,
                |i: int| entries[i].name == name,
            );
            if 0 < i < entries.len() {
                seq![entries[i]] + entries.remove(i)
            } else {
                entries
            }
        },
        None => entries,
    }
}

/// The profiles of the global settings.
#[derive(Debug)]
pub struct GlobalProfiles {
    pub default_profile: String,
    pub profiles: Vec<(String, ProfileType)>,
}

/// The profiles of a workspace.
#[derive(Debug)]
pub struct WorkspaceProfiles {
    pub default_profile: Option<String>,
    pub profiles: Vec<(String, ProfileType)>,
}

/// The profile that is to come first: the workspace's, or else the global one.
pub open spec fn preferred(
    global: Option<GlobalProfiles>,
    workspace: Option<WorkspaceProfiles>,
) -> Option<Seq<char>> {
    match workspace {
        Some(w) if w.default_profile is Some => Some(w.default_profile->0@),
        _ => match global {
            Some(g) => Some(g.default_profile@),
            None => None,
        },
    }
}

/// All profiles that can be chosen from.
pub open spec fn all_profiles(
    global: Option<GlobalProfiles>,
    workspace: Option<WorkspaceProfiles>,
) -> Seq<PaletteEntryView> {
    let a = builtin_profiles();
    let b = match global {
        Some(g) => with_origin(a, "Global "@, g.profiles@),
        None => a,
    };
    let c = match workspace {
        Some(w) => with_origin(b, "Workspace "@, w.profiles@),
        None => b,
    };
    preferred_first(c, preferred(global, workspace))
}

fn new_entry(name: &str, description: &str) -> (r: PaletteEntry)
    ensures
        r@ == plain_entry(name@, description@),
{
    PaletteEntry { name: name.to_owned(), description: description.to_owned(), keybinding: None }
}

fn push_entry(entries: &mut Vec<PaletteEntry>, e: PaletteEntry)
    ensures
        crate::command_palette::entry_views(final(entries)@)
            == crate::command_palette::entry_views(old(entries)@).push(e@),
{
    let ghost v = e@;
    entries.push(e);
    assert(crate::command_palette::entry_views(entries@) =~= crate::command_palette::entry_views(
        old(entries)@,
    ).push(v));
}

/// The profiles that are always there.
pub fn builtin_profile_entries() -> (r: Vec<PaletteEntry>)
    ensures
        crate::command_palette::entry_views(r@) == builtin_profiles(),
{
    let mut v: Vec<PaletteEntry> = Vec::new();
    assert(crate::command_palette::entry_views(v@) =~= Seq::empty());
    push_entry(&mut v, new_entry("powershell", "Built-in PowerShell profile"));
    push_entry(&mut v, new_entry("cmd", "Built-in Command Prompt profile"));
    push_entry(&mut v, new_entry("wsl", "Built-in Windows Subsystem for Linux profile"));
    push_entry(&mut v, new_entry("ssh", "Built-in SSH profile"));
    v
}

fn find_name(entries: &Vec<PaletteEntry>, name: &str) -> (r: Option<usize>)
    ensures
        ({
            let views = crate::command_palette::entry_views(entries@);
            let want = name@;
            let at = crate::seqs::first_where(
                0,
                views.len() as int,
                |i: int| views[i].name == want,
            );
            match r {
                Some(i) => i < views.len() && at == i && has_name(views, name@),
                None => at == views.len() && !has_name(views, name@),
            }
        }),
{
    let ghost views = crate::command_palette::entry_views(entries@);
    let ghost want = name@;
    let ghost p = |i: int| views[i].name == want;
    let mut i: usize = 0;
    while i < entries.len()
        invariant
            i <= entries@.len(),
            views == crate::command_palette::entry_views(entries@),
            want == name@,
            p == (|i: int| views[i].name == want),
            forall|j: int| 0 <= j < i ==> !#[trigger] p(j),
        decreases entries.len() - i,
    {
        if str_eq(entries[i].name.as_str(), name) {
            proof {
                assert(p(i as int));
                assert(views[i as int].name == name@);
                crate::seqs::lemma_first_where_is(0, views.len() as int, p, i as int);
            }
            return Some(i);
        }
        assert(!p(i as int));
        i += 1;
    }
    proof {
        crate::seqs::lemma_first_where_is(0, views.len() as int, p, i as int);
        assert forall|j: int| 0 <= j < views.len() implies (#[trigger] views[j]).name != name@ by {
            assert(!p(j));
        }
    }
    None
}

/// Add a profile, unless there is one with that name.
pub fn insert_profile_entry(entries: &mut Vec<PaletteEntry>, name: &str, description: String)
    ensures
        crate::command_palette::entry_views(final(entries)@) == with_profile(
            crate::command_palette::entry_views(old(entries)@),
            name@,
            description@,
        ),
{
    if find_name(entries, name).is_none() {
        push_entry(
            entries,
            PaletteEntry { name: name.to_owned(), description, keybinding: None },
        );
    }
}

/// Adds the profiles of one origin, in the order of their names.
fn insert_origin(entries: &mut Vec<PaletteEntry>, origin: &str, profiles: &Vec<(String, ProfileType)>)
    ensures
        crate::command_palette::entry_views(final(entries)@) == with_origin(
            crate::command_palette::entry_views(old(entries)@),
            origin@,
            profiles@,
        ),
{
    let ghost all = profile_rows(origin@, profiles@);
    let mut rows: Vec<(String, String)> = Vec::new();
    let mut i: usize = 0;
    assert(all.take(0) =~= Seq::empty());
    assert(crate::sorting::row_views(rows@) =~= Seq::empty());
    while i < profiles.len()
        invariant
            i <= profiles@.len(),
            all == profile_rows(origin@, profiles@),
            crate::sorting::row_views(rows@) == crate::sorting::sorted(all.take(i as int)),
        decreases profiles.len() - i,
    {
        let mut description = origin.to_owned();
        description.append(profile_kind(profiles[i].1));
        description.append(" profile");
        assert(all.take(i + 1).drop_last() =~= all.take(i as int));
        assert(all.take(i + 1).last() == (profiles@[i as int].0@, description@));
        insert_row(&mut rows, profiles[i].0.clone(), description);
        i += 1;
    }
    assert(all.take(i as int) =~= all);
    let ghost sorted = crate::sorting::sorted(all);
    let ghost before = crate::command_palette::entry_views(entries@);
    let mut k: usize = 0;
    while k < rows.len()
        invariant
            k <= rows@.len(),
            crate::sorting::row_views(rows@) == sorted,
            crate::command_palette::entry_views(entries@) == with_profiles(
                before,
                sorted,
                k as int,
            ),
        decreases rows.len() - k,
    {
        assert(sorted[k as int] == (rows@[k as int].0@, rows@[k as int].1@));
        insert_profile_entry(entries, rows[k].0.as_str(), rows[k].1.clone());
        k += 1;
    }
}

/// The profiles that can be chosen from: the built-in ones, those of the global settings and
/// those of the workspace, as far as either could be loaded, with the default one first.
pub fn workspace_profile_entries(
    global: &Option<GlobalProfiles>,
    workspace: &Option<WorkspaceProfiles>,
) -> (r: Vec<PaletteEntry>)
    ensures
        crate::command_palette::entry_views(r@) == all_profiles(*global, *workspace),
{
    let mut entries = builtin_profile_entries();
    let mut preferred_profile: Option<String> = None;
    if let Some(g) = global {
        preferred_profile = Some(g.default_profile.clone());
        insert_origin(&mut entries, "Global ", &g.profiles);
    }
    if let Some(w) = workspace {
        if let Some(p) = &w.default_profile {
            preferred_profile = Some(p.clone());
        }
        insert_origin(&mut entries, "Workspace ", &w.profiles);
    }
    if let Some(name) = preferred_profile {
        let ghost views = crate::command_palette::entry_views(entries@);
        if let Some(index) = find_name(&entries, name.as_str()) {
            if index > 0 {
                let entry = entries.remove(index);
                entries.insert(0, entry);
                assert(crate::command_palette::entry_views(entries@) =~= seq![
                    views[index as int],
                ] + views.remove(index as int));
            }
        }
    }
    entries
}

// ── Choosing ─────────────────────────────────────────────────────────────────

/// Whether an action opens a pane with a profile.
pub open spec fn takes_profile(name: Seq<char>) -> bool {
    name == "new-tab"@ || name == "split-right"@ || name == "split-down"@ || name
        == "change-profile"@
}

/// Whether an action is to ask for a profile first.
pub fn should_prompt_for_profile(
    action_name: &str,
    args: &Option<ActionArgs>,
    connected: bool,
    bridge_present: bool,
) -> (r: bool)
    ensures
        r == (bridge_present && connected && args is None && takes_profile(action_name@)),
{
    bridge_present && connected && args.is_none() && (str_eq(action_name, "new-tab") || str_eq(
        action_name,
        "split-right",
    ) || str_eq(action_name, "split-down") || str_eq(action_name, "change-profile"))
}

/// What the selector for an action's profile is headed by.
pub open spec fn selector_label(name: Seq<char>) -> Seq<char> {
    if name == "new-tab"@ {
        "Create a new tab with profile"@
    } else if name == "split-right"@ {
        "Split right using profile"@
    } else if name == "split-down"@ {
        "Split down using profile"@
    } else {
        "Change focused pane profile"@
    }
}

/// The palette with the selector for an action's profile.
pub open spec fn with_selector(
    p: crate::command_palette::PaletteView,
    name: Seq<char>,
) -> crate::command_palette::PaletteView {
    crate::command_palette::refiltered(
        crate::command_palette::PaletteView {
            visible: true,
            mode: crate::command_palette::PaletteModeView::Selector {
                action: name,
                arg_name: "profile"@,
                label: selector_label(name),
                placeholder: "Select a profile or type one manually"@,
                allow_custom: true,
                entries: p.profile_entries,
            },
            query: Seq::empty(),
            ..p
        },
    )
}

/// Ask for the profile of an action. Returns whether the action takes one.
pub fn show_profile_selector_for_action(palette: &mut CommandPalette, action_name: &str) -> (r: bool)
    ensures
        r == takes_profile(action_name@),
        r ==> final(palette)@ == with_selector(old(palette)@, action_name@),
        r ==> final(palette)@.wf(),
        !r ==> *final(palette) == *old(palette),
{
    let label = if str_eq(action_name, "new-tab") {
        "Create a new tab with profile"
    } else if str_eq(action_name, "split-right") {
        "Split right using profile"
    } else if str_eq(action_name, "split-down") {
        "Split down using profile"
    } else if str_eq(action_name, "change-profile") {
        "Change focused pane profile"
    } else {
        return false;
    };
    palette.show_profile_selector(
        action_name.to_owned(),
        label.to_owned(),
        "Select a profile or type one manually".to_owned(),
    );
    true
}

// ── Laws ─────────────────────────────────────────────────────────────────────

/// Whether no name occurs twice.
pub open spec fn names_differ(entries: Seq<PaletteEntryView>) -> bool {
    forall|i: int, j: int|
        0 <= i < j < entries.len() ==> (#[trigger] entries[i]).name != (#[trigger] entries[j]).name
}

/// Adding profiles never makes a name occur twice, and keeps the entries that were there.
pub proof fn law_profiles_are_distinct(
    entries: Seq<PaletteEntryView>,
    rows: Seq<(Seq<char>, Seq<char>)>,
    n: int,
)
    requires
        names_differ(entries),
        0 <= n <= rows.len(),
    ensures
        names_differ(with_profiles(entries, rows, n)),
        with_profiles(entries, rows, n).len() >= entries.len(),
        with_profiles(entries, rows, n).take(entries.len() as int) == entries,
    decreases n,
{
    if n > 0 {
        law_profiles_are_distinct(entries, rows, n - 1);
        let before = with_profiles(entries, rows, n - 1);
        let after = with_profiles(entries, rows, n);
        assert(after.take(entries.len() as int) =~= before.take(entries.len() as int));
        assert forall|i: int, j: int| 0 <= i < j < after.len() implies (#[trigger] after[i]).name
            != (#[trigger] after[j]).name by {
            assert(after[i] == before[i]);
            if j < before.len() {
                assert(after[j] == before[j]);
            }
        }
    } else {
        assert(entries.take(entries.len() as int) =~= entries);
    }
}

/// The preferred profile comes first if there is one of that name, and every entry is kept.
pub proof fn law_preferred_comes_first(entries: Seq<PaletteEntryView>, name: Seq<char>)
    requires
        has_name(entries, name),
    ensures
        preferred_first(entries, Some(name)).len() == entries.len(),
        preferred_first(entries, Some(name))[0].name == name,
        preferred_first(entries, Some(name)).to_multiset() == entries.to_multiset(),
{
    broadcast use vstd::seq_lib::group_to_multiset_ensures;

    let p = |i: int| entries[i].name == name;
    let i = crate::seqs::first_where(0, entries.len() as int, p);
    crate::seqs::lemma_first_where(0, entries.len() as int, p);
    let k = choose|k: int| 0 <= k < entries.len() && (#[trigger] entries[k]).name == name;
    assert(p(k));
    assert(i < entries.len());
    assert(p(i));
    if i > 0 {
        let r = preferred_first(entries, Some(name));
        assert(r =~= entries.remove(i).insert(0, entries[i]));
        assert(entries =~= entries.remove(i).insert(i, entries[i]));
        assert(entries.remove(i).insert(0, entries[i]).to_multiset() =~= entries.remove(
            i,
        ).to_multiset().insert(entries[i]));
        assert(entries.remove(i).insert(i, entries[i]).to_multiset() =~= entries.remove(
            i,
        ).to_multiset().insert(entries[i]));
    }
}

/// Every profile that is added is there afterwards, with its own description unless its name was
/// taken, and the profiles that were there stay as they are.
pub proof fn law_profiles_are_added(
    entries: Seq<PaletteEntryView>,
    rows: Seq<(Seq<char>, Seq<char>)>,
    n: int,
    i: int,
)
    requires
        0 <= i < n <= rows.len(),
    ensures
        has_name(with_profiles(entries, rows, n), rows[i].0),
        !has_name(entries, rows[i].0) && (forall|j: int|
            0 <= j < i ==> (#[trigger] rows[j]).0 != rows[i].0) ==> with_profiles(
            entries,
            rows,
            n,
        ).contains(
            (PaletteEntryView {
                name: rows[i].0,
                description: rows[i].1,
                keybinding: None,
            }),
        ),
    decreases n,
{
    let before = with_profiles(entries, rows, n - 1);
    let after = with_profiles(entries, rows, n);
    let (name, description) = rows[n - 1];
    if i == n - 1 {
        if has_name(before, name) {
            lemma_name_source(entries, rows, n - 1, name);
        } else {
            assert(after.last().name == name);
            assert(after[after.len() - 1].name == name);
        }
    } else {
        law_profiles_are_added(entries, rows, n - 1, i);
        let k = choose|k: int| 0 <= k < before.len() && (#[trigger] before[k]).name == rows[i].0;
        assert(after[k] == before[k]);
        if !has_name(entries, rows[i].0) && (forall|j: int|
            0 <= j < i ==> (#[trigger] rows[j]).0 != rows[i].0) {
            let e = PaletteEntryView {
                name: rows[i].0,
                description: rows[i].1,
                keybinding: None,
            };
            let m = choose|m: int| 0 <= m < before.len() && before[m] == e;
            assert(after[m] == e);
        }
    }
}

proof fn lemma_name_source(
    entries: Seq<PaletteEntryView>,
    rows: Seq<(Seq<char>, Seq<char>)>,
    n: int,
    name: Seq<char>,
)
    requires
        0 <= n <= rows.len(),
        has_name(with_profiles(entries, rows, n), name),
    ensures
        has_name(entries, name) || exists|j: int| 0 <= j < n && (#[trigger] rows[j]).0 == name,
    decreases n,
{
    if n > 0 {
        let before = with_profiles(entries, rows, n - 1);
        let after = with_profiles(entries, rows, n);
        let k = choose|k: int| 0 <= k < after.len() && (#[trigger] after[k]).name == name;
        if k < before.len() {
            assert(before[k] == after[k]);
            lemma_name_source(entries, rows, n - 1, name);
            if !has_name(entries, name) {
                let j = choose|j: int| 0 <= j < n - 1 && (#[trigger] rows[j]).0 == name;
                assert(rows[j].0 == name);
            }
        } else {
            assert(rows[n - 1].0 == name);
        }
    }
}

/// Every profile of the settings and of the workspace can be chosen, and so can the built-in ones.
pub proof fn law_every_profile_can_be_chosen(
    global: Option<GlobalProfiles>,
    workspace: Option<WorkspaceProfiles>,
    i: int,
)
    ensures
        has_name(all_profiles(global, workspace), "powershell"@),
        has_name(all_profiles(global, workspace), "cmd"@),
        has_name(all_profiles(global, workspace), "wsl"@),
        has_name(all_profiles(global, workspace), "ssh"@),
        global matches Some(g) ==> 0 <= i < g.profiles@.len() ==> has_name(
            all_profiles(global, workspace),
            g.profiles@[i].0@,
        ),
        workspace matches Some(w) ==> 0 <= i < w.profiles@.len() ==> has_name(
            all_profiles(global, workspace),
            w.profiles@[i].0@,
        ),
{
    let a = builtin_profiles();
    let b = match global {
        Some(g) => with_origin(a, "Global "@, g.profiles@),
        None => a,
    };
    let c = match workspace {
        Some(w) => with_origin(b, "Workspace "@, w.profiles@),
        None => b,
    };
    assert(a[0].name == "powershell"@ && a[1].name == "cmd"@ && a[2].name == "wsl"@ && a[3].name
        == "ssh"@);
    assert(has_name(a, "powershell"@) && has_name(a, "cmd"@) && has_name(a, "wsl"@) && has_name(
        a,
        "ssh"@,
    ));
    assert forall|name: Seq<char>| has_name(a, name) implies has_name(b, name) by {
        if let Some(g) = global {
            lemma_origin_keeps(a, "Global "@, g.profiles@, name);
        }
    }
    assert forall|name: Seq<char>| has_name(b, name) implies has_name(
        all_profiles(global, workspace),
        name,
    ) by {
        if let Some(w) = workspace {
            lemma_origin_keeps(b, "Workspace "@, w.profiles@, name);
        }
        lemma_preferred_keeps(c, preferred(global, workspace), name);
    }
    if let Some(g) = global {
        if 0 <= i < g.profiles@.len() {
            lemma_origin_adds(a, "Global "@, g.profiles@, i);
        }
    }
    if let Some(w) = workspace {
        if 0 <= i < w.profiles@.len() {
            lemma_origin_adds(b, "Workspace "@, w.profiles@, i);
            lemma_preferred_keeps(c, preferred(global, workspace), w.profiles@[i].0@);
        }
    }
}

proof fn lemma_kept_names(
    entries: Seq<PaletteEntryView>,
    rows: Seq<(Seq<char>, Seq<char>)>,
    n: int,
    name: Seq<char>,
)
    requires
        0 <= n <= rows.len(),
        has_name(entries, name),
    ensures
        has_name(with_profiles(entries, rows, n), name),
    decreases n,
{
    if n > 0 {
        lemma_kept_names(entries, rows, n - 1, name);
        let before = with_profiles(entries, rows, n - 1);
        let k = choose|k: int| 0 <= k < before.len() && (#[trigger] before[k]).name == name;
        assert(with_profiles(entries, rows, n)[k] == before[k]);
    }
}

proof fn lemma_origin_keeps(
    entries: Seq<PaletteEntryView>,
    origin: Seq<char>,
    profiles: Seq<(String, ProfileType)>,
    name: Seq<char>,
)
    requires
        has_name(entries, name),
    ensures
        has_name(with_origin(entries, origin, profiles), name),
{
    let rows = crate::sorting::sorted(profile_rows(origin, profiles));
    lemma_kept_names(entries, rows, rows.len() as int, name);
}

proof fn lemma_origin_adds(
    entries: Seq<PaletteEntryView>,
    origin: Seq<char>,
    profiles: Seq<(String, ProfileType)>,
    i: int,
)
    requires
        0 <= i < profiles.len(),
    ensures
        has_name(with_origin(entries, origin, profiles), profiles[i].0@),
{
    broadcast use vstd::seq_lib::group_to_multiset_ensures;

    let given = profile_rows(origin, profiles);
    let rows = crate::sorting::sorted(given);
    crate::sorting::law_sorted_is_in_order(given);
    assert(given.contains(given[i]));
    assert(rows.to_multiset().count(given[i]) > 0);
    assert(rows.contains(given[i]));
    let k = choose|k: int| 0 <= k < rows.len() && rows[k] == given[i];
    law_profiles_are_added(entries, rows, rows.len() as int, k);
}

proof fn lemma_preferred_keeps(
    entries: Seq<PaletteEntryView>,
    wanted: Option<Seq<char>>,
    name: Seq<char>,
)
    requires
        has_name(entries, name),
    ensures
        has_name(preferred_first(entries, wanted), name),
{
    let k = choose|k: int| 0 <= k < entries.len() && (#[trigger] entries[k]).name == name;
    let after = preferred_first(entries, wanted);
    if let Some(w) = wanted {
        let i = crate::seqs::first_where(
            0,
            entries.len() as int,
            |i: int| entries[i].name == w,
        );
        if 0 < i < entries.len() {
            if k < i {
                assert(after[k + 1] == entries[k]);
            } else if k == i {
                assert(after[0] == entries[k]);
            } else {
                assert(after[k] == entries[k]);
            }
        } else {
            assert(after[k] == entries[k]);
        }
    } else {
        assert(after[k] == entries[k]);
    }
}

/// The profile that comes first is the one that the workspace prefers, or else the one that the
/// settings prefer.
pub proof fn law_workspace_preference_wins(
    global: Option<GlobalProfiles>,
    workspace: Option<WorkspaceProfiles>,
)
    ensures
        workspace matches Some(w) ==> w.default_profile matches Some(name) ==> preferred(
            global,
            workspace,
        ) == Some(name@),
        (workspace is None || workspace->0.default_profile is None) && global is Some ==> preferred(
            global,
            workspace,
        ) == Some(global->0.default_profile@),
        (workspace is None || workspace->0.default_profile is None) && global is None ==> preferred(
            global,
            workspace,
        ) is None,
{
}

/// The selector of an action offers the profiles, takes another name too, and gives the choice to the
/// action as its profile.
pub proof fn law_selectors_ask_for_a_profile(
    p: crate::command_palette::PaletteView,
    name: Seq<char>,
    enter: crate::input::KeyEvent,
)
    requires
        p.profile_entries.len() > 0,
        enter.key == crate::input::KeyName::Enter,
    ensures
        ({
            let shown = with_selector(p, name);
            &&& shown.visible
            &&& shown.query.len() == 0
            &&& shown.filtered.len() == p.profile_entries.len()
            &&& crate::command_palette::on_key(shown, enter).0
                == crate::command_palette::PaletteResultView::Action(
                crate::bindings::ActionReferenceView::WithArgs {
                    action: name,
                    args: Some(seq![("profile"@, p.profile_entries[0].name)]),
                },
            )
        }),
{
}

/// The description of a profile says where it comes from and of what kind it is.
pub proof fn law_descriptions_say_origin_and_kind(
    origin: Seq<char>,
    profiles: Seq<(String, ProfileType)>,
    i: int,
)
    requires
        0 <= i < profiles.len(),
    ensures
        ({
            let row = profile_rows(origin, profiles)[i];
            let says = |kind: Seq<char>| row.1 == origin + kind + " profile"@;
            &&& profile_rows(origin, profiles).len() == profiles.len()
            &&& row.0 == profiles[i].0@
            &&& profiles[i].1 is Powershell ==> says("PowerShell"@)
            &&& profiles[i].1 is Cmd ==> says("cmd"@)
            &&& profiles[i].1 is Wsl ==> says("WSL"@)
            &&& profiles[i].1 is Ssh ==> says("SSH"@)
            &&& profiles[i].1 is Custom ==> says("custom"@)
        }),
{
}

/// The actions that open a pane or change its profile take a profile, and no others do.
pub proof fn law_which_actions_take_a_profile(name: Seq<char>)
    ensures
        takes_profile("new-tab"@),
        takes_profile("split-right"@),
        takes_profile("split-down"@),
        takes_profile("change-profile"@),
        takes_profile(name) ==> name == "new-tab"@ || name == "split-right"@ || name
            == "split-down"@ || name == "change-profile"@,
{
}

} // verus!
