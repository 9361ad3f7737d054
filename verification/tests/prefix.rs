use wtd_ui::bindings::{ActionReference, BindingsDefinition};
use wtd_ui::input::{InputClassifier, KeyEvent, KeyName, KeySpec, Modifiers};
use wtd_ui::prefix_state::{key_spec_to_bytes, PrefixOutput, PrefixStateMachine};
use wtd_ui::time::{Duration, Instant};

fn start() -> Instant {
    Instant::from_nanos(1_000_000_000)
}

/// Build a classifier with Ctrl+B prefix, one chord ("%"→"split-right"),
/// one single-stroke (Ctrl+T→"new-tab"), and a short timeout for tests.
fn test_bindings(timeout_ms: u32) -> BindingsDefinition {
    let mut chords = Vec::new();
    chords.push((
        "%".to_string(),
        ActionReference::Simple("split-right".to_string()),
    ));
    chords.push((
        "o".to_string(),
        ActionReference::Simple("zoom-pane".to_string()),
    ));

    let mut keys = Vec::new();
    keys.push((
        "Ctrl+T".to_string(),
        ActionReference::Simple("new-tab".to_string()),
    ));

    BindingsDefinition {
        prefix: Some("Ctrl+B".to_string()),
        prefix_timeout: Some(timeout_ms),
        chords: Some(chords),
        keys: Some(keys),
    }
}

fn make_sm(timeout_ms: u32) -> PrefixStateMachine {
    let bindings = test_bindings(timeout_ms);
    let classifier = InputClassifier::from_bindings(&bindings).unwrap();
    PrefixStateMachine::new(classifier)
}

fn ctrl_b() -> KeyEvent {
    KeyEvent {
        key: KeyName::Char('B'),
        modifiers: Modifiers::ctrl_key(),
        character: None,
    }
}

fn escape() -> KeyEvent {
    KeyEvent {
        key: KeyName::Escape,
        modifiers: Modifiers::none(),
        character: None,
    }
}

fn percent() -> KeyEvent {
    KeyEvent {
        key: KeyName::Digit(5),
        modifiers: Modifiers::shift_key(),
        character: Some('%'),
    }
}

fn letter_o() -> KeyEvent {
    KeyEvent {
        key: KeyName::Char('O'),
        modifiers: Modifiers::none(),
        character: Some('o'),
    }
}

fn letter_x() -> KeyEvent {
    KeyEvent {
        key: KeyName::Char('X'),
        modifiers: Modifiers::none(),
        character: Some('x'),
    }
}

fn ctrl_t() -> KeyEvent {
    KeyEvent {
        key: KeyName::Char('T'),
        modifiers: Modifiers::ctrl_key(),
        character: None,
    }
}

// ── State transition tests ──────────────────────────────────────────────

#[test]
fn idle_prefix_key_enters_active() {
    let mut sm = make_sm(2000);
    assert!(!sm.is_prefix_active());

    let out = sm.process(&ctrl_b(), start());
    assert!(sm.is_prefix_active());
    assert!(matches!(out, PrefixOutput::Consumed));
}

#[test]
fn active_chord_dispatches_action() {
    let mut sm = make_sm(2000);
    sm.process(&ctrl_b(), start());
    assert!(sm.is_prefix_active());

    let out = sm.process(&percent(), start());
    assert!(!sm.is_prefix_active());
    match out {
        PrefixOutput::DispatchAction(ActionReference::Simple(name)) => {
            assert_eq!(name, "split-right");
        }
        other => panic!("expected DispatchAction, got {:?}", other),
    }
}

#[test]
fn active_second_chord_dispatches() {
    let mut sm = make_sm(2000);
    sm.process(&ctrl_b(), start());

    let out = sm.process(&letter_o(), start());
    assert!(!sm.is_prefix_active());
    match out {
        PrefixOutput::DispatchAction(ActionReference::Simple(name)) => {
            assert_eq!(name, "zoom-pane");
        }
        other => panic!("expected DispatchAction, got {:?}", other),
    }
}

#[test]
fn active_double_prefix_sends_literal() {
    let mut sm = make_sm(2000);
    sm.process(&ctrl_b(), start());

    let out = sm.process(&ctrl_b(), start());
    assert!(!sm.is_prefix_active());
    match out {
        PrefixOutput::SendToSession(bytes) => {
            // Ctrl+B = 0x02 (STX)
            assert_eq!(bytes, vec![0x02]);
        }
        other => panic!("expected SendToSession, got {:?}", other),
    }
}

#[test]
fn active_escape_cancels() {
    let mut sm = make_sm(2000);
    sm.process(&ctrl_b(), start());
    assert!(sm.is_prefix_active());

    let out = sm.process(&escape(), start());
    assert!(!sm.is_prefix_active());
    assert!(matches!(out, PrefixOutput::Consumed));
}

#[test]
fn active_unbound_key_sends_prefix_plus_key() {
    let mut sm = make_sm(2000);
    sm.process(&ctrl_b(), start());

    let out = sm.process(&letter_x(), start());
    assert!(!sm.is_prefix_active());
    match out {
        PrefixOutput::SendToSession(bytes) => {
            // Prefix bytes (Ctrl+B = 0x02) followed by 'x'
            assert_eq!(bytes, vec![0x02, b'x']);
        }
        other => panic!("expected SendToSession, got {:?}", other),
    }
}

#[test]
fn active_unmapped_text_sends_prefix_plus_utf8_text() {
    let mut sm = make_sm(2000);
    sm.process(&ctrl_b(), start());

    let outputs = sm.process_text("{", start());
    assert!(!sm.is_prefix_active());
    assert_eq!(outputs.len(), 1);
    match &outputs[0] {
        PrefixOutput::SendToSession(bytes) => {
            assert_eq!(bytes, &vec![0x02, b'{']);
        }
        other => panic!("expected SendToSession, got {other:?}"),
    }
}

#[test]
fn active_composed_text_sends_prefix_plus_utf8_text() {
    let mut sm = make_sm(2000);
    sm.process(&ctrl_b(), start());

    let outputs = sm.process_text("é", start());
    assert!(!sm.is_prefix_active());
    assert_eq!(outputs.len(), 1);
    match &outputs[0] {
        PrefixOutput::SendToSession(bytes) => {
            assert_eq!(bytes, &vec![0x02, 0xC3, 0xA9]);
        }
        other => panic!("expected SendToSession, got {other:?}"),
    }
}

#[test]
fn idle_single_stroke_dispatches() {
    let mut sm = make_sm(2000);

    let out = sm.process(&ctrl_t(), start());
    assert!(!sm.is_prefix_active());
    match out {
        PrefixOutput::DispatchAction(ActionReference::Simple(name)) => {
            assert_eq!(name, "new-tab");
        }
        other => panic!("expected DispatchAction, got {:?}", other),
    }
}

#[test]
fn idle_unbound_key_sends_raw() {
    let mut sm = make_sm(2000);

    let out = sm.process(&letter_x(), start());
    assert!(!sm.is_prefix_active());
    match out {
        PrefixOutput::SendToSession(bytes) => {
            assert_eq!(bytes, vec![b'x']);
        }
        other => panic!("expected SendToSession, got {:?}", other),
    }
}

// ── Timeout tests ───────────────────────────────────────────────────────

#[test]
fn check_timeout_returns_false_when_idle() {
    let mut sm = make_sm(2000);
    assert!(!sm.check_timeout(start()));
}

#[test]
fn check_timeout_returns_false_before_expiry() {
    let mut sm = make_sm(2000);
    sm.process(&ctrl_b(), start());
    assert!(sm.is_prefix_active());
    // Immediately after activation — should not have timed out.
    assert!(!sm.check_timeout(start()));
    assert!(sm.is_prefix_active());
}

#[test]
fn check_timeout_returns_true_after_expiry() {
    let mut sm = make_sm(50); // 50ms timeout
    sm.process(&ctrl_b(), start());
    assert!(sm.is_prefix_active());

    assert!(sm.check_timeout(start() + Duration::from_millis(80)));
    assert!(!sm.is_prefix_active());
}

#[test]
fn timeout_resets_after_chord_dispatch() {
    let mut sm = make_sm(50);
    sm.process(&ctrl_b(), start());
    sm.process(&percent(), start()); // chord dispatched → idle

    // Already idle, so check_timeout should return false.
    assert!(!sm.check_timeout(start() + Duration::from_millis(80)));
}

// ── Label and metadata tests ────────────────────────────────────────────

#[test]
fn prefix_label_is_correct() {
    let sm = make_sm(2000);
    assert_eq!(sm.prefix_label(), "Ctrl+B");
}

#[test]
fn timeout_duration_matches_config() {
    let sm = make_sm(1500);
    assert_eq!(sm.timeout(), Duration::from_millis(1500));
}

// ── No-prefix configuration ─────────────────────────────────────────────

#[test]
fn no_prefix_configured_all_keys_pass_through() {
    let bindings = BindingsDefinition {
        prefix: None,
        prefix_timeout: None,
        chords: None,
        keys: None,
    };
    let classifier = InputClassifier::from_bindings(&bindings).unwrap();
    let mut sm = PrefixStateMachine::new(classifier);

    assert!(!sm.is_prefix_active());
    assert_eq!(sm.prefix_label(), "");

    // Ctrl+B is just raw input when no prefix is configured.
    let out = sm.process(&ctrl_b(), start());
    assert!(!sm.is_prefix_active());
    match out {
        PrefixOutput::SendToSession(bytes) => {
            assert_eq!(bytes, vec![0x02]);
        }
        other => panic!("expected SendToSession, got {:?}", other),
    }
}

// ── Cycling: activate then re-activate ──────────────────────────────────

#[test]
fn can_reactivate_after_escape() {
    let mut sm = make_sm(2000);
    sm.process(&ctrl_b(), start());
    sm.process(&escape(), start()); // cancel
    assert!(!sm.is_prefix_active());

    sm.process(&ctrl_b(), start()); // re-enter
    assert!(sm.is_prefix_active());

    let out = sm.process(&percent(), start());
    assert!(!sm.is_prefix_active());
    assert!(matches!(out, PrefixOutput::DispatchAction(_)));
}

#[test]
fn can_reactivate_after_double_prefix() {
    let mut sm = make_sm(2000);
    sm.process(&ctrl_b(), start());
    sm.process(&ctrl_b(), start()); // double prefix → literal
    assert!(!sm.is_prefix_active());

    sm.process(&ctrl_b(), start()); // re-enter
    assert!(sm.is_prefix_active());
}

#[test]
fn can_reactivate_after_unbound() {
    let mut sm = make_sm(2000);
    sm.process(&ctrl_b(), start());
    sm.process(&letter_x(), start()); // unbound → prefix + x
    assert!(!sm.is_prefix_active());

    sm.process(&ctrl_b(), start());
    assert!(sm.is_prefix_active());
}

// ── Escape with modifiers does NOT cancel ───────────────────────────────

#[test]
fn ctrl_escape_is_unbound_not_cancel() {
    let mut sm = make_sm(2000);
    sm.process(&ctrl_b(), start());

    let ctrl_esc = KeyEvent {
        key: KeyName::Escape,
        modifiers: Modifiers::ctrl_key(),
        character: None,
    };
    let out = sm.process(&ctrl_esc, start());
    // Should be treated as unbound key, not escape cancel.
    assert!(!sm.is_prefix_active());
    match out {
        PrefixOutput::SendToSession(bytes) => {
            // prefix (0x02) + ESC (0x1B)
            assert_eq!(bytes[0], 0x02);
            assert_eq!(bytes[1], 0x1B);
        }
        other => panic!("expected SendToSession, got {:?}", other),
    }
}

#[test]
fn timeout_comes_with_the_last_moment() {
    let mut sm = make_sm(50);
    sm.process(&ctrl_b(), start());
    assert!(!sm.check_timeout(start() + Duration::from_millis(49)));
    assert!(sm.check_timeout(start() + Duration::from_millis(50)));
}

#[test]
fn idle_text_is_sent_as_utf8() {
    let mut sm = make_sm(2000);
    let outputs = sm.process_text("éx", start());
    let mut sent: Vec<u8> = vec![];
    for output in outputs {
        match output {
            PrefixOutput::SendToSession(bytes) => sent.extend(bytes),
            other => panic!("expected SendToSession, got {other:?}"),
        }
    }
    assert_eq!(sent, "éx".as_bytes());
}

#[test]
fn prefix_keys_have_bytes() {
    assert_eq!(key_spec_to_bytes(&KeySpec::parse("Ctrl+B").unwrap()), vec![0x02]);
    assert_eq!(key_spec_to_bytes(&KeySpec::parse("F1").unwrap()), b"\x1BOP");
}

#[test]
fn chords_dispatch_when_they_arrive_as_text() {
    for chord in ["%", "\"", "{", "é", "o", "!", " "] {
        let bindings = BindingsDefinition {
            prefix: Some("Ctrl+B".to_string()),
            prefix_timeout: None,
            chords: Some(vec![(
                chord.to_string(),
                ActionReference::Simple("split-right".to_string()),
            )]),
            keys: None,
        };
        let classifier = InputClassifier::from_bindings(&bindings).unwrap();
        let mut sm = PrefixStateMachine::new(classifier);
        sm.process(&ctrl_b(), start());
        let outputs = sm.process_text(chord, start());
        assert_eq!(outputs.len(), 1);
        match &outputs[0] {
            PrefixOutput::DispatchAction(action) => {
                assert_eq!(action, &ActionReference::Simple("split-right".to_string()));
            }
            other => panic!("expected DispatchAction for {chord}, got {other:?}"),
        }
        assert!(!sm.is_prefix_active());
    }
}

#[test]
fn control_characters_in_text_are_sent_as_they_are() {
    let mut sm = make_sm(2000);
    match &sm.process_text("\r", start())[0] {
        PrefixOutput::SendToSession(bytes) => assert_eq!(bytes, b"\r"),
        other => panic!("expected SendToSession, got {other:?}"),
    }
}
