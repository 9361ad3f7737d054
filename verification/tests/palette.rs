use wtd_ui::bindings::{ActionReference, BindingsDefinition};
use wtd_ui::command_palette::{
    build_keybinding_hints, build_palette_entries, fuzzy_score, runnable_actions, CommandPalette,
    PaletteEntry, PaletteHit, PaletteResult,
};
use wtd_ui::input::{KeyEvent, KeyName, Modifiers};

// ── Fuzzy scoring ──

#[test]
fn empty_query_matches_everything() {
    assert_eq!(fuzzy_score("", "anything"), Some(0));
}

#[test]
fn exact_match_scores_high() {
    let score = fuzzy_score("split-right", "split-right Split pane on right").unwrap();
    assert!(score > 0);
}

#[test]
fn subsequence_match() {
    assert!(fuzzy_score("sr", "split-right").is_some());
    assert!(fuzzy_score("sprt", "split-right").is_some());
}

#[test]
fn no_match_returns_none() {
    assert!(fuzzy_score("xyz", "split-right").is_none());
    assert!(fuzzy_score("zz", "split-right").is_none());
}

#[test]
fn case_insensitive() {
    assert!(fuzzy_score("SPLIT", "split-right").is_some());
    assert!(fuzzy_score("Split", "split-right").is_some());
}

#[test]
fn word_boundary_bonus() {
    // "sr" matching at word boundaries should score higher than mid-word
    let s1 = fuzzy_score("sr", "split-right").unwrap(); // s at start, r at boundary
    let s2 = fuzzy_score("sr", "posridge").unwrap(); // s and r mid-word
    assert!(s1 > s2);
}

#[test]
fn consecutive_bonus() {
    // "split" has all consecutive matches — should score higher
    let s1 = fuzzy_score("split", "split-right").unwrap();
    let s2 = fuzzy_score("spirt", "split-right"); // non-consecutive
                                                  // spirt: s(0) p(1) i(3) r(6) t(10) — should match but lower
    match s2 {
        Some(s2) => assert!(s1 > s2),
        None => {} // also acceptable if 'i' before 'r' doesn't match order
    }
}

// ── Keybinding hints ──

#[test]
fn single_stroke_hint() {
    let bindings = BindingsDefinition {
        prefix: None,
        prefix_timeout: None,
        chords: None,
        keys: Some(vec![(
            "Ctrl+Shift+T".to_string(),
            ActionReference::Simple("new-tab".to_string()),
        )]),
    };
    let hints = build_keybinding_hints(&bindings);
    assert_eq!(hints.get("new-tab"), Some(&"Ctrl+Shift+T".to_string()));
}

#[test]
fn chord_hint_includes_prefix() {
    let bindings = BindingsDefinition {
        prefix: Some("Ctrl+B".to_string()),
        prefix_timeout: Some(2000),
        chords: Some(vec![(
            "%".to_string(),
            ActionReference::Simple("split-right".to_string()),
        )]),
        keys: None,
    };
    let hints = build_keybinding_hints(&bindings);
    assert_eq!(hints.get("split-right"), Some(&"Ctrl+B, %".to_string()));
}

#[test]
fn single_stroke_preferred_over_chord() {
    let bindings = BindingsDefinition {
        prefix: Some("Ctrl+B".to_string()),
        prefix_timeout: Some(2000),
        chords: Some(vec![(
            "c".to_string(),
            ActionReference::Simple("new-tab".to_string()),
        )]),
        keys: Some(vec![(
            "Ctrl+Shift+T".to_string(),
            ActionReference::Simple("new-tab".to_string()),
        )]),
    };
    let hints = build_keybinding_hints(&bindings);
    // Single-stroke is inserted first, so it wins.
    assert_eq!(hints.get("new-tab"), Some(&"Ctrl+Shift+T".to_string()));
}

// ── Palette entries ──

#[test]
fn entry_count_matches_v1_catalog() {
    let bindings = BindingsDefinition {
        prefix: None,
        prefix_timeout: None,
        chords: None,
        keys: None,
    };
    let entries = build_palette_entries(&bindings);
    assert_eq!(entries.len(), runnable_actions().len());
}

#[test]
fn tab_and_pane_actions_included_in_palette() {
    let bindings = BindingsDefinition {
        prefix: None,
        prefix_timeout: None,
        chords: None,
        keys: None,
    };
    let entries = build_palette_entries(&bindings);
    assert!(entries.iter().any(|e| e.name == "new-tab"));
    assert!(entries.iter().any(|e| e.name == "next-tab"));
    assert!(entries.iter().any(|e| e.name == "prev-tab"));
    assert!(entries.iter().any(|e| e.name == "split-right"));
}

#[test]
fn entries_include_toggle_command_palette() {
    let bindings = BindingsDefinition {
        prefix: None,
        prefix_timeout: None,
        chords: None,
        keys: None,
    };
    let entries = build_palette_entries(&bindings);
    assert!(entries.iter().any(|e| e.name == "toggle-command-palette"));
}

#[test]
fn entries_include_change_profile() {
    let bindings = BindingsDefinition {
        prefix: None,
        prefix_timeout: None,
        chords: None,
        keys: None,
    };
    let entries = build_palette_entries(&bindings);
    assert!(entries.iter().any(|e| e.name == "change-profile"));
}

#[test]
fn entries_include_pass_through_next_key() {
    let bindings = BindingsDefinition {
        prefix: None,
        prefix_timeout: None,
        chords: None,
        keys: None,
    };
    let entries = build_palette_entries(&bindings);
    assert!(entries.iter().any(|e| e.name == "pass-through-next-key"));
}

#[test]
fn entries_include_rearrangement_and_retile_actions() {
    let bindings = BindingsDefinition {
        prefix: None,
        prefix_timeout: None,
        chords: None,
        keys: None,
    };
    let entries = build_palette_entries(&bindings);
    for action in [
        "swap-pane-left",
        "swap-pane-right",
        "toggle-split-orientation",
        "equalize-tab",
        "retile-grid",
        "retile-main-left",
        "retile-main-top",
    ] {
        assert!(entries.iter().any(|e| e.name == action), "missing {action}");
    }
}

// ── The palette ──

fn no_bindings() -> BindingsDefinition {
    BindingsDefinition { prefix: None, prefix_timeout: None, chords: None, keys: None }
}

fn open_palette() -> CommandPalette {
    let mut palette = CommandPalette::new(&no_bindings(), vec![]);
    palette.show();
    palette
}

fn press(key: KeyName) -> KeyEvent {
    KeyEvent { key, modifiers: Modifiers::none(), character: None }
}

fn entry(name: &str) -> PaletteEntry {
    PaletteEntry { name: name.to_string(), description: "d".to_string(), keybinding: None }
}

#[test]
fn score_counts_starts_and_runs() {
    // Two hits that start words, not next to each other.
    assert_eq!(fuzzy_score("sr", "split-right"), fuzzy_score("SR", "SPLIT-RIGHT"));
    assert!(fuzzy_score("sp", "split").unwrap() > fuzzy_score("st", "split").unwrap());
    assert!(fuzzy_score("ÄB", "äb").is_some());
}

#[test]
fn the_palette_lists_everything_when_it_opens() {
    let palette = open_palette();
    assert!(palette.is_visible());
    assert_eq!(palette.filtered_count(), palette.entry_count());
    assert_eq!(palette.selected_index(), 0);
    assert_eq!(palette.query(), "");
}

#[test]
fn typing_filters_and_enter_chooses() {
    let mut palette = open_palette();
    assert_eq!(palette.on_text_input("toggle-command-palette"), PaletteResult::Consumed);
    assert!(palette.filtered_count() >= 1);
    let result = palette.on_key_event(&press(KeyName::Enter));
    assert_eq!(
        result,
        PaletteResult::Action(ActionReference::Simple("toggle-command-palette".to_string()))
    );
    assert!(!palette.is_visible());
}

#[test]
fn escape_dismisses() {
    let mut palette = open_palette();
    assert_eq!(palette.on_key_event(&press(KeyName::Escape)), PaletteResult::Dismissed);
    assert!(!palette.is_visible());
}

#[test]
fn down_and_up_move_the_selection() {
    let mut palette = open_palette();
    palette.on_key_event(&press(KeyName::Down));
    palette.on_key_event(&press(KeyName::Down));
    assert_eq!(palette.selected_index(), 2);
    palette.on_key_event(&press(KeyName::Up));
    assert_eq!(palette.selected_index(), 1);
}

#[test]
fn the_selection_is_always_shown() {
    let mut palette = open_palette();
    for _ in 0..30 {
        palette.on_key_event(&press(KeyName::Down));
        assert_eq!(palette.visible_lines().iter().filter(|l| l.selected).count(), 1);
    }
    assert_eq!(palette.visible_lines().len(), palette.line_room());
}

#[test]
fn a_prompt_asks_for_an_argument() {
    let mut palette = open_palette();
    palette.show_prompt(
        "rename-tab".to_string(),
        "Rename".to_string(),
        "New name".to_string(),
        "old".to_string(),
    );
    assert_eq!(palette.query(), "old");
    assert_eq!(palette.placeholder(), "New name");
    palette.on_key_event(&press(KeyName::Backspace));
    palette.on_text_input("dest");
    assert_eq!(palette.query(), "oldest");
    match palette.on_key_event(&press(KeyName::Enter)) {
        PaletteResult::Action(ActionReference::WithArgs { action, args }) => {
            assert_eq!(action, "rename-tab");
            assert_eq!(args.unwrap()[0].1, "oldest");
        }
        other => panic!("expected an action, got {other:?}"),
    }
}

#[test]
fn a_selector_offers_its_own_entries() {
    let mut palette = CommandPalette::new(&no_bindings(), vec![entry("cmd"), entry("wsl")]);
    palette.show_profile_selector(
        "new-tab".to_string(),
        "Profile".to_string(),
        "Pick one".to_string(),
    );
    assert_eq!(palette.filtered_count(), 2);
    palette.on_key_event(&press(KeyName::Down));
    match palette.on_key_event(&press(KeyName::Enter)) {
        PaletteResult::Action(ActionReference::WithArgs { action, args }) => {
            assert_eq!(action, "new-tab");
            assert_eq!(args, Some(vec![("profile".to_string(), "wsl".to_string())]));
        }
        other => panic!("expected an action, got {other:?}"),
    }
}

#[test]
fn clicks_choose_or_dismiss() {
    let mut palette = open_palette();
    assert_eq!(palette.on_click(PaletteHit::Inside), Some(PaletteResult::Consumed));
    assert_eq!(palette.on_click(PaletteHit::Outside), Some(PaletteResult::Dismissed));
    assert_eq!(palette.on_click(PaletteHit::Outside), None);
    let mut palette = open_palette();
    let first = runnable_actions()[0].0.to_string();
    assert_eq!(
        palette.on_click(PaletteHit::Line(0)),
        Some(PaletteResult::Action(ActionReference::Simple(first)))
    );
}

#[test]
fn the_wheel_scrolls_the_list() {
    let mut palette = open_palette();
    assert_eq!(palette.on_wheel(true, -120), Some(PaletteResult::Consumed));
    assert!(palette.selected_index() > 0);
    palette.close();
    assert_eq!(palette.on_wheel(true, -120), None);
}

#[test]
fn toggle_opens_and_closes() {
    let mut palette = CommandPalette::new(&no_bindings(), vec![]);
    palette.toggle();
    assert!(palette.is_visible());
    palette.toggle();
    assert!(!palette.is_visible());
    assert!(palette.has_action("new-tab"));
    assert!(!palette.has_action("no-such-action"));
}

#[test]
fn scores_are_exact() {
    // Two boundaries, and two matches in a row: 1 + 3, then 1 + 3, then 2.
    assert_eq!(fuzzy_score("sri", "split-right"), Some(10));
}
