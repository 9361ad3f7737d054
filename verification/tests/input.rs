use wtd_ui::bindings::{ActionReference, BindingsDefinition};
use wtd_ui::input::{
    current_modifiers, key_event_to_bytes, vk_to_char, vk_to_key_name, ChordKey, InputAction, InputClassifier, KeyEvent, KeyName,
    KeySpec, Modifiers,
};

// Helper to create a key event
fn key(name: KeyName, mods: Modifiers, ch: Option<char>) -> KeyEvent {
    KeyEvent {
        key: name,
        modifiers: mods,
        character: ch,
    }
}

// ── KeySpec parsing ──────────────────────────────────────────────────

#[test]
fn parse_simple_key() {
    let spec = KeySpec::parse("B").unwrap();
    assert_eq!(spec.modifiers, Modifiers::none());
    assert_eq!(spec.key, KeyName::Char('B'));
}

#[test]
fn parse_ctrl_key() {
    let spec = KeySpec::parse("Ctrl+B").unwrap();
    assert_eq!(spec.modifiers, Modifiers::ctrl_key());
    assert_eq!(spec.key, KeyName::Char('B'));
}

#[test]
fn parse_ctrl_shift_key() {
    let spec = KeySpec::parse("Ctrl+Shift+T").unwrap();
    assert_eq!(spec.modifiers, Modifiers::ctrl_key() | Modifiers::shift_key());
    assert_eq!(spec.key, KeyName::Char('T'));
}

#[test]
fn parse_alt_shift_key() {
    let spec = KeySpec::parse("Alt+Shift+D").unwrap();
    assert_eq!(spec.modifiers, Modifiers::alt_key() | Modifiers::shift_key());
    assert_eq!(spec.key, KeyName::Char('D'));
}

#[test]
fn parse_function_key() {
    let spec = KeySpec::parse("F11").unwrap();
    assert_eq!(spec.modifiers, Modifiers::none());
    assert_eq!(spec.key, KeyName::F(11));
}

#[test]
fn parse_ctrl_tab() {
    let spec = KeySpec::parse("Ctrl+Tab").unwrap();
    assert_eq!(spec.modifiers, Modifiers::ctrl_key());
    assert_eq!(spec.key, KeyName::Tab);
}

#[test]
fn parse_alt_shift_minus() {
    let spec = KeySpec::parse("Alt+Shift+Minus").unwrap();
    assert_eq!(spec.modifiers, Modifiers::alt_key() | Modifiers::shift_key());
    assert_eq!(spec.key, KeyName::Minus);
}

#[test]
fn parse_case_insensitive_key_name() {
    let spec = KeySpec::parse("Ctrl+enter").unwrap();
    assert_eq!(spec.key, KeyName::Enter);
}

#[test]
fn parse_case_insensitive_letter() {
    let s1 = KeySpec::parse("Ctrl+b").unwrap();
    let s2 = KeySpec::parse("Ctrl+B").unwrap();
    assert_eq!(s1, s2);
}

#[test]
fn parse_error_empty() {
    assert!(KeySpec::parse("").is_err());
}

#[test]
fn parse_error_invalid_modifier() {
    assert!(KeySpec::parse("Super+A").is_err());
}

#[test]
fn parse_error_invalid_key_name() {
    assert!(KeySpec::parse("Ctrl+FooBar").is_err());
}

#[test]
fn parse_display_round_trip() {
    let specs = [
        "Ctrl+B",
        "Ctrl+Shift+T",
        "Alt+Shift+D",
        "F11",
        "Alt+Shift+Minus",
        "Ctrl+Tab",
    ];
    for s in specs {
        let parsed = KeySpec::parse(s).unwrap();
        let displayed = parsed.to_string();
        let reparsed = KeySpec::parse(&displayed).unwrap();
        assert_eq!(parsed, reparsed, "round-trip failed for {s}");
    }
}

// ── KeySpec matching ─────────────────────────────────────────────────

#[test]
fn keyspec_matches_event() {
    let spec = KeySpec::parse("Ctrl+B").unwrap();
    let event = key(KeyName::Char('B'), Modifiers::ctrl_key(), None);
    assert!(spec.matches(&event));
}

#[test]
fn keyspec_no_match_different_modifier() {
    let spec = KeySpec::parse("Ctrl+B").unwrap();
    let event = key(KeyName::Char('B'), Modifiers::alt_key(), None);
    assert!(!spec.matches(&event));
}

#[test]
fn keyspec_no_match_different_key() {
    let spec = KeySpec::parse("Ctrl+B").unwrap();
    let event = key(KeyName::Char('A'), Modifiers::ctrl_key(), None);
    assert!(!spec.matches(&event));
}

// ── ChordKey matching ────────────────────────────────────────────────

#[test]
fn chord_character_match() {
    let ck = ChordKey::parse("%").unwrap();
    assert_eq!(ck, ChordKey::Character('%'));

    let event = key(KeyName::Digit(5), Modifiers::shift_key(), Some('%'));
    assert!(ck.matches(&event));
}

#[test]
fn chord_character_no_match() {
    let ck = ChordKey::Character('o');
    let event = key(KeyName::Char('O'), Modifiers::none(), Some('p'));
    assert!(!ck.matches(&event));
}

#[test]
fn chord_named_key_match() {
    let ck = ChordKey::parse("Up").unwrap();
    assert_eq!(ck, ChordKey::Named(KeyName::Up));

    let event = key(KeyName::Up, Modifiers::none(), None);
    assert!(ck.matches(&event));
}

#[test]
fn chord_letter_match_via_character() {
    let ck = ChordKey::parse("o").unwrap();
    assert_eq!(ck, ChordKey::Character('o'));

    // pressing 'O' key with no shift produces lowercase 'o'
    let event = key(KeyName::Char('O'), Modifiers::none(), Some('o'));
    assert!(ck.matches(&event));
}

// ── InputClassifier ──────────────────────────────────────────────────

fn test_bindings() -> BindingsDefinition {
    let mut keys = Vec::new();
    keys.push((
        "Ctrl+Shift+T".to_string(),
        ActionReference::Simple("new-tab".to_string()),
    ));
    keys.push((
        "F11".to_string(),
        ActionReference::Simple("toggle-fullscreen".to_string()),
    ));

    let mut chords = Vec::new();
    chords.push((
        "%".to_string(),
        ActionReference::Simple("split-right".to_string()),
    ));
    chords.push((
        "o".to_string(),
        ActionReference::Simple("focus-next-pane".to_string()),
    ));
    chords.push((
        "Up".to_string(),
        ActionReference::Simple("focus-pane-up".to_string()),
    ));

    BindingsDefinition {
        prefix: Some("Ctrl+B".to_string()),
        prefix_timeout: Some(2000),
        chords: Some(chords),
        keys: Some(keys),
    }
}

#[test]
fn classify_prefix_key_when_not_active() {
    let classifier = InputClassifier::from_bindings(&test_bindings()).unwrap();
    let event = key(KeyName::Char('B'), Modifiers::ctrl_key(), None);

    match classifier.classify(&event, false) {
        InputAction::PrefixKey => {} // expected
        other => panic!("expected PrefixKey, got {other:?}"),
    }
}

#[test]
fn classify_prefix_key_when_active_returns_raw() {
    // When prefix IS active, pressing prefix again is raw input
    // (the prefix state machine handles the "send prefix to session" logic;
    //  from the classifier's perspective, it's not a prefix match)
    let classifier = InputClassifier::from_bindings(&test_bindings()).unwrap();
    let event = key(KeyName::Char('B'), Modifiers::ctrl_key(), None);

    match classifier.classify(&event, true) {
        InputAction::RawInput(_) => {} // expected
        other => panic!("expected RawInput, got {other:?}"),
    }
}

#[test]
fn classify_chord_when_prefix_active() {
    let classifier = InputClassifier::from_bindings(&test_bindings()).unwrap();
    // '%' chord
    let event = key(KeyName::Digit(5), Modifiers::shift_key(), Some('%'));

    match classifier.classify(&event, true) {
        InputAction::ChordBinding(action) => {
            assert_eq!(action, ActionReference::Simple("split-right".to_string()));
        }
        other => panic!("expected ChordBinding, got {other:?}"),
    }
}

#[test]
fn classify_chord_letter_when_prefix_active() {
    let classifier = InputClassifier::from_bindings(&test_bindings()).unwrap();
    let event = key(KeyName::Char('O'), Modifiers::none(), Some('o'));

    match classifier.classify(&event, true) {
        InputAction::ChordBinding(action) => {
            assert_eq!(
                action,
                ActionReference::Simple("focus-next-pane".to_string())
            );
        }
        other => panic!("expected ChordBinding, got {other:?}"),
    }
}

#[test]
fn classify_chord_named_key_when_prefix_active() {
    let classifier = InputClassifier::from_bindings(&test_bindings()).unwrap();
    let event = key(KeyName::Up, Modifiers::none(), None);

    match classifier.classify(&event, true) {
        InputAction::ChordBinding(action) => {
            assert_eq!(action, ActionReference::Simple("focus-pane-up".to_string()));
        }
        other => panic!("expected ChordBinding, got {other:?}"),
    }
}

#[test]
fn classify_single_stroke() {
    let classifier = InputClassifier::from_bindings(&test_bindings()).unwrap();
    let event = key(KeyName::Char('T'), Modifiers::ctrl_key() | Modifiers::shift_key(), None);

    match classifier.classify(&event, false) {
        InputAction::SingleStrokeBinding(action) => {
            assert_eq!(action, ActionReference::Simple("new-tab".to_string()));
        }
        other => panic!("expected SingleStrokeBinding, got {other:?}"),
    }
}

#[test]
fn classify_single_stroke_ignored_when_prefix_active() {
    let classifier = InputClassifier::from_bindings(&test_bindings()).unwrap();
    let event = key(KeyName::Char('T'), Modifiers::ctrl_key() | Modifiers::shift_key(), None);

    // Single-stroke bindings are NOT checked when prefix is active
    match classifier.classify(&event, true) {
        InputAction::RawInput(_) => {} // expected
        other => panic!("expected RawInput, got {other:?}"),
    }
}

#[test]
fn classify_function_key_binding() {
    let classifier = InputClassifier::from_bindings(&test_bindings()).unwrap();
    let event = key(KeyName::F(11), Modifiers::none(), None);

    match classifier.classify(&event, false) {
        InputAction::SingleStrokeBinding(action) => {
            assert_eq!(
                action,
                ActionReference::Simple("toggle-fullscreen".to_string())
            );
        }
        other => panic!("expected SingleStrokeBinding, got {other:?}"),
    }
}

#[test]
fn classify_raw_input_character() {
    let classifier = InputClassifier::from_bindings(&test_bindings()).unwrap();
    let event = key(KeyName::Char('H'), Modifiers::none(), Some('h'));

    match classifier.classify(&event, false) {
        InputAction::RawInput(bytes) => {
            assert_eq!(bytes, b"h");
        }
        other => panic!("expected RawInput, got {other:?}"),
    }
}

#[test]
fn classify_raw_input_arrow_key() {
    let classifier = InputClassifier::from_bindings(&test_bindings()).unwrap();
    let event = key(KeyName::Up, Modifiers::none(), None);

    // Up arrow is NOT a chord when prefix is not active → raw
    match classifier.classify(&event, false) {
        InputAction::RawInput(bytes) => {
            assert_eq!(bytes, b"\x1B[A");
        }
        other => panic!("expected RawInput, got {other:?}"),
    }
}

// ── Conflict resolution ──────────────────────────────────────

#[test]
fn prefix_key_wins_over_single_stroke() {
    // "If a key is configured as both a single-stroke binding and
    // the prefix key, the prefix key wins."
    let mut keys = Vec::new();
    keys.push((
        "Ctrl+B".to_string(),
        ActionReference::Simple("some-action".to_string()),
    ));

    let bindings = BindingsDefinition {
        prefix: Some("Ctrl+B".to_string()),
        prefix_timeout: Some(2000),
        chords: None,
        keys: Some(keys),
    };

    let classifier = InputClassifier::from_bindings(&bindings).unwrap();
    let event = key(KeyName::Char('B'), Modifiers::ctrl_key(), None);

    // Prefix wins
    match classifier.classify(&event, false) {
        InputAction::PrefixKey => {} // expected
        other => panic!("expected PrefixKey, got {other:?}"),
    }
}

#[test]
fn chord_takes_priority_over_single_stroke_when_prefix_active() {
    // Chord bindings take priority over single-stroke when prefix active
    let mut keys = Vec::new();
    keys.push((
        "F11".to_string(),
        ActionReference::Simple("single-action".to_string()),
    ));

    let mut chords = Vec::new();
    // Hypothetical: F11 is also a chord key
    chords.push((
        "F11".to_string(),
        ActionReference::Simple("chord-action".to_string()),
    ));

    let bindings = BindingsDefinition {
        prefix: Some("Ctrl+B".to_string()),
        prefix_timeout: Some(2000),
        chords: Some(chords),
        keys: Some(keys),
    };

    let classifier = InputClassifier::from_bindings(&bindings).unwrap();

    // F11 parsed as Named chord key (since it's multi-char)
    // which matches on KeyName::F(11)
    let event = key(KeyName::F(11), Modifiers::none(), None);

    // When prefix is active → chord wins
    match classifier.classify(&event, true) {
        InputAction::ChordBinding(action) => {
            assert_eq!(action, ActionReference::Simple("chord-action".to_string()));
        }
        other => panic!("expected ChordBinding, got {other:?}"),
    }

    // When prefix is NOT active → single-stroke wins
    match classifier.classify(&event, false) {
        InputAction::SingleStrokeBinding(action) => {
            assert_eq!(action, ActionReference::Simple("single-action".to_string()));
        }
        other => panic!("expected SingleStrokeBinding, got {other:?}"),
    }
}

#[test]
fn unbound_key_passes_through() {
    let bindings = BindingsDefinition {
        prefix: Some("Ctrl+B".to_string()),
        prefix_timeout: Some(2000),
        chords: Some(Vec::new()),
        keys: Some(Vec::new()),
    };

    let classifier = InputClassifier::from_bindings(&bindings).unwrap();
    let event = key(KeyName::Char('X'), Modifiers::none(), Some('x'));

    match classifier.classify(&event, false) {
        InputAction::RawInput(bytes) => {
            assert_eq!(bytes, b"x");
        }
        other => panic!("expected RawInput, got {other:?}"),
    }
}

// ── No prefix configured ────────────────────────────────────────────

#[test]
fn no_prefix_configured() {
    let mut keys = Vec::new();
    keys.push((
        "Ctrl+B".to_string(),
        ActionReference::Simple("some-action".to_string()),
    ));

    let bindings = BindingsDefinition {
        prefix: None,
        prefix_timeout: None,
        chords: None,
        keys: Some(keys),
    };

    let classifier = InputClassifier::from_bindings(&bindings).unwrap();
    assert!(classifier.prefix_key().is_none());

    // Ctrl+B → single-stroke (no prefix to intercept)
    let event = key(KeyName::Char('B'), Modifiers::ctrl_key(), None);
    match classifier.classify(&event, false) {
        InputAction::SingleStrokeBinding(action) => {
            assert_eq!(action, ActionReference::Simple("some-action".to_string()));
        }
        other => panic!("expected SingleStrokeBinding, got {other:?}"),
    }
}

// ── Raw byte conversion ──────────────────────────────────────────────

#[test]
fn raw_bytes_printable_character() {
    let event = key(KeyName::Char('A'), Modifiers::none(), Some('a'));
    assert_eq!(key_event_to_bytes(&event), b"a");
}

#[test]
fn raw_bytes_ctrl_a() {
    let event = key(KeyName::Char('A'), Modifiers::ctrl_key(), None);
    assert_eq!(key_event_to_bytes(&event), vec![0x01]);
}

#[test]
fn raw_bytes_ctrl_c() {
    let event = key(KeyName::Char('C'), Modifiers::ctrl_key(), None);
    assert_eq!(key_event_to_bytes(&event), vec![0x03]);
}

#[test]
fn raw_bytes_enter() {
    let event = key(KeyName::Enter, Modifiers::none(), None);
    assert_eq!(key_event_to_bytes(&event), vec![0x0D]);
}

#[test]
fn raw_bytes_shift_enter_uses_csi_u() {
    let event = key(KeyName::Enter, Modifiers::shift_key(), None);
    assert_eq!(key_event_to_bytes(&event), b"\x1B[13;2u");
}

#[test]
fn raw_bytes_alt_enter_uses_csi_u_without_extra_escape_prefix() {
    let event = key(KeyName::Enter, Modifiers::alt_key(), None);
    assert_eq!(key_event_to_bytes(&event), b"\x1B[13;3u");
}

#[test]
fn raw_bytes_ctrl_enter_uses_csi_u() {
    let event = key(KeyName::Enter, Modifiers::ctrl_key(), None);
    assert_eq!(key_event_to_bytes(&event), b"\x1B[13;5u");
}

#[test]
fn raw_bytes_tab() {
    let event = key(KeyName::Tab, Modifiers::none(), None);
    assert_eq!(key_event_to_bytes(&event), vec![0x09]);
}

#[test]
fn raw_bytes_shift_tab() {
    let event = key(KeyName::Tab, Modifiers::shift_key(), None);
    assert_eq!(key_event_to_bytes(&event), b"\x1B[Z");
}

#[test]
fn raw_bytes_escape() {
    let event = key(KeyName::Escape, Modifiers::none(), None);
    assert_eq!(key_event_to_bytes(&event), vec![0x1B]);
}

#[test]
fn raw_bytes_backspace() {
    let event = key(KeyName::Backspace, Modifiers::none(), None);
    assert_eq!(key_event_to_bytes(&event), vec![0x7F]);
}

#[test]
fn raw_bytes_arrow_keys() {
    assert_eq!(
        key_event_to_bytes(&key(KeyName::Up, Modifiers::none(), None)),
        b"\x1B[A"
    );
    assert_eq!(
        key_event_to_bytes(&key(KeyName::Down, Modifiers::none(), None)),
        b"\x1B[B"
    );
    assert_eq!(
        key_event_to_bytes(&key(KeyName::Right, Modifiers::none(), None)),
        b"\x1B[C"
    );
    assert_eq!(
        key_event_to_bytes(&key(KeyName::Left, Modifiers::none(), None)),
        b"\x1B[D"
    );
}

#[test]
fn raw_bytes_ctrl_arrow() {
    // Ctrl+Up → CSI 1;5 A
    let event = key(KeyName::Up, Modifiers::ctrl_key(), None);
    assert_eq!(key_event_to_bytes(&event), b"\x1B[1;5A");
}

#[test]
fn raw_bytes_delete() {
    let event = key(KeyName::Delete, Modifiers::none(), None);
    assert_eq!(key_event_to_bytes(&event), b"\x1B[3~");
}

#[test]
fn raw_bytes_f1() {
    let event = key(KeyName::F(1), Modifiers::none(), None);
    assert_eq!(key_event_to_bytes(&event), b"\x1BOP");
}

#[test]
fn raw_bytes_f5() {
    let event = key(KeyName::F(5), Modifiers::none(), None);
    assert_eq!(key_event_to_bytes(&event), b"\x1B[15~");
}

#[test]
fn raw_bytes_alt_a() {
    let event = key(KeyName::Char('A'), Modifiers::alt_key(), Some('a'));
    assert_eq!(key_event_to_bytes(&event), b"\x1Ba");
}

#[test]
fn raw_bytes_ctrl_alt_without_character_produces_no_meta_text() {
    let event = key(KeyName::Char('Q'), Modifiers::ctrl_key() | Modifiers::alt_key(), None);
    assert!(key_event_to_bytes(&event).is_empty());
}

#[test]
fn raw_bytes_unicode() {
    let event = key(KeyName::Char('A'), Modifiers::none(), Some('ñ'));
    let bytes = key_event_to_bytes(&event);
    assert_eq!(bytes, "ñ".as_bytes());
}

#[test]
fn raw_bytes_home_end() {
    assert_eq!(
        key_event_to_bytes(&key(KeyName::Home, Modifiers::none(), None)),
        b"\x1B[H"
    );
    assert_eq!(
        key_event_to_bytes(&key(KeyName::End, Modifiers::none(), None)),
        b"\x1B[F"
    );
}

#[test]
fn raw_bytes_page_up_down() {
    assert_eq!(
        key_event_to_bytes(&key(KeyName::PageUp, Modifiers::none(), None)),
        b"\x1B[5~"
    );
    assert_eq!(
        key_event_to_bytes(&key(KeyName::PageDown, Modifiers::none(), None)),
        b"\x1B[6~"
    );
}

#[test]
fn raw_bytes_space() {
    let event = key(KeyName::Space, Modifiers::none(), Some(' '));
    assert_eq!(key_event_to_bytes(&event), b" ");
}

#[test]
fn raw_bytes_ctrl_space() {
    let event = key(KeyName::Space, Modifiers::ctrl_key(), None);
    assert_eq!(key_event_to_bytes(&event), vec![0x00]);
}

// ── VK code mapping ─────────────────────────────────────────────────

#[test]
fn vk_mapping_letters() {
    assert_eq!(vk_to_key_name(0x41), Some(KeyName::Char('A')));
    assert_eq!(vk_to_key_name(0x5A), Some(KeyName::Char('Z')));
}

#[test]
fn vk_mapping_digits() {
    assert_eq!(vk_to_key_name(0x30), Some(KeyName::Digit(0)));
    assert_eq!(vk_to_key_name(0x39), Some(KeyName::Digit(9)));
}

#[test]
fn vk_mapping_function_keys() {
    assert_eq!(vk_to_key_name(0x70), Some(KeyName::F(1)));
    assert_eq!(vk_to_key_name(0x7B), Some(KeyName::F(12)));
}

#[test]
fn vk_mapping_special_keys() {
    assert_eq!(vk_to_key_name(0x0D), Some(KeyName::Enter));
    assert_eq!(vk_to_key_name(0x09), Some(KeyName::Tab));
    assert_eq!(vk_to_key_name(0x1B), Some(KeyName::Escape));
    assert_eq!(vk_to_key_name(0x20), Some(KeyName::Space));
    assert_eq!(vk_to_key_name(0x08), Some(KeyName::Backspace));
}

#[test]
fn vk_mapping_arrows() {
    assert_eq!(vk_to_key_name(0x26), Some(KeyName::Up));
    assert_eq!(vk_to_key_name(0x28), Some(KeyName::Down));
    assert_eq!(vk_to_key_name(0x25), Some(KeyName::Left));
    assert_eq!(vk_to_key_name(0x27), Some(KeyName::Right));
}

#[test]
fn vk_mapping_unknown() {
    // Modifier-only keys return None
    assert_eq!(vk_to_key_name(0x10), None); // VK_SHIFT
    assert_eq!(vk_to_key_name(0x11), None); // VK_CONTROL
    assert_eq!(vk_to_key_name(0x12), None); // VK_MENU
}

#[test]
fn raw_bytes_alt_with_special_keys() {
    let alt = Modifiers::alt_key();
    assert_eq!(key_event_to_bytes(&key(KeyName::Right, alt, None)), b"\x1B[1;3C");
    assert_eq!(key_event_to_bytes(&key(KeyName::Left, alt, None)), b"\x1B\x1B[1;3D");
    assert_eq!(key_event_to_bytes(&key(KeyName::Up, alt, None)), b"\x1B\x1B[1;3A");
    assert_eq!(key_event_to_bytes(&key(KeyName::Home, alt, None)), b"\x1B\x1B[1;3H");
    assert_eq!(key_event_to_bytes(&key(KeyName::F(1), alt, None)), b"\x1B\x1B[1;3P");
    assert_eq!(key_event_to_bytes(&key(KeyName::F(5), alt, None)), b"\x1B\x1B[15;3~");
    assert_eq!(key_event_to_bytes(&key(KeyName::Delete, alt, None)), b"\x1B\x1B[3;3~");
    let alt_shift = alt | Modifiers::shift_key();
    assert_eq!(key_event_to_bytes(&key(KeyName::Right, alt_shift, None)), b"\x1B\x1B[1;4C");
    assert_eq!(key_event_to_bytes(&key(KeyName::Tab, alt_shift, None)), b"\x1B\x1B[Z");
    assert_eq!(key_event_to_bytes(&key(KeyName::Enter, alt, None)), b"\x1B[13;3u");
    assert_eq!(key_event_to_bytes(&key(KeyName::Tab, alt, None)), b"\x1B\t");
    assert_eq!(key_event_to_bytes(&key(KeyName::Backspace, alt, None)), b"\x1B\x7F");
    assert_eq!(key_event_to_bytes(&key(KeyName::Escape, alt, None)), b"\x1B");
}

#[test]
fn key_errors_say_what_is_wrong() {
    let message = |spec: &str| KeySpec::parse(spec).unwrap_err().to_string();
    assert_eq!(message(""), "empty key spec");
    assert_eq!(message("Super+A"), "invalid modifier: Super");
    assert_eq!(message("Ctrl+FooBar"), "invalid key name: FooBar");
}

#[test]
fn modifiers_are_read_from_key_states() {
    assert_eq!(current_modifiers(0, 1, 0), Modifiers::none());
    assert_eq!(
        current_modifiers(-1, 0, i16::MIN),
        Modifiers::ctrl_key() | Modifiers::shift_key()
    );
    assert_eq!(current_modifiers(0, -128, 0), Modifiers::alt_key());
}

#[test]
fn one_unit_makes_a_character() {
    assert_eq!(vk_to_char(1, 0xE9), Some('é'));
    assert_eq!(vk_to_char(1, 0xD800), None);
    assert_eq!(vk_to_char(2, 0x61), None);
    assert_eq!(vk_to_char(-1, 0x5E), None);
    assert_eq!(vk_to_char(0, 0x61), None);
}
