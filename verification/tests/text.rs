use wtd_ui::input::{
    key_event_to_bytes, push_utf8, text_char_to_key_event, ChordKey, InputAction, KeyName,
    KeySpecError, Modifiers,
};
use wtd_ui::renderer::indexed_color;
use wtd_ui::status_bar::{Segment, StatusBar};
use wtd_ui::text::{
    ascii_lower, ascii_upper, has_prefix, is_control_char, is_white_space, join, parse_index,
    push_decimal, strip_prefixes, trim, trim_end, wide_null,
};

fn every_char() -> Vec<char> {
    (0u32..=0x10FFFF).filter_map(char::from_u32).collect()
}

#[test]
fn characters_are_classified_as_unicode_does() {
    for c in every_char() {
        assert_eq!(is_white_space(c), c.is_whitespace(), "{:x}", c as u32);
        assert_eq!(is_control_char(c), c.is_control(), "{:x}", c as u32);
    }
}

#[test]
fn letters_change_case() {
    for c in every_char() {
        assert_eq!(ascii_lower(c), c.to_ascii_lowercase());
        assert_eq!(ascii_upper(c), c.to_ascii_uppercase());
    }
}

#[test]
fn characters_are_encoded() {
    for c in every_char() {
        let mut bytes = vec![7u8];
        push_utf8(&mut bytes, c);
        let mut buffer = [0u8; 4];
        assert_eq!(&bytes[1..], c.encode_utf8(&mut buffer).as_bytes());
        let text = c.to_string();
        let units: Vec<u16> = text.encode_utf16().chain(std::iter::once(0)).collect();
        assert_eq!(wide_null(&text), units);
    }
}

#[test]
fn wide_text_ends_with_a_zero() {
    assert_eq!(wide_null(""), vec![0]);
    assert_eq!(wide_null("A\u{1F600}"), vec![0x41, 0xD83D, 0xDE00, 0]);
}

#[test]
fn numbers_are_read_and_written() {
    for text in ["0", "7", "+12", "007", "18446744073709551616", "", "+", "-1", "1a", " 1"] {
        assert_eq!(parse_index(text), text.parse::<usize>().ok(), "{text}");
    }
    for n in [0u64, 9, 10, 4096, u64::MAX] {
        let mut text = String::new();
        push_decimal(&mut text, n);
        assert_eq!(text, n.to_string());
    }
}

#[test]
fn texts_are_trimmed() {
    for text in ["", "  ", "a", " a b \t", "\u{2003}x\u{85}", "x\u{200B}"] {
        assert_eq!(trim(text), text.trim());
        assert_eq!(trim_end(text), text.trim_end());
    }
}

#[test]
fn prefixes_are_found_and_taken_off() {
    assert!(has_prefix("--workspace=dev", "--workspace="));
    assert!(!has_prefix("--work", "--workspace="));
    assert_eq!(strip_prefixes("-w=-w=x", "-w="), "x");
    assert_eq!(strip_prefixes("x-w=", "-w="), "x-w=");
}

#[test]
fn parts_are_joined() {
    let parts = vec!["a".to_string(), String::new(), "b".to_string()];
    assert_eq!(join(&parts, ", "), "a, , b");
    assert_eq!(join(&Vec::new(), ", "), "");
}

#[test]
fn indexed_colors_follow_the_cube_and_the_ramp() {
    assert_eq!(indexed_color(9), (255, 85, 85));
    assert_eq!(indexed_color(16), (0, 0, 0));
    assert_eq!(indexed_color(110), (135, 175, 215));
    assert_eq!(indexed_color(231), (255, 255, 255));
    assert_eq!(indexed_color(232), (8, 8, 8));
    assert_eq!(indexed_color(255), (238, 238, 238));
}

#[test]
fn only_what_is_there_gets_a_segment() {
    let mut bar = StatusBar::new();
    assert_eq!(bar.segments(), vec![]);
    bar.set_prefix_active(true);
    bar.set_workspace_name("dev".to_string());
    assert_eq!(bar.segments(), vec![Segment::Workspace, Segment::Prefix]);
    bar.set_pane_path("dev/main/shell".to_string());
    assert_eq!(bar.segments(), vec![Segment::Workspace, Segment::PanePath, Segment::Prefix]);
}

#[test]
fn text_stands_for_keys() {
    for c in every_char() {
        match text_char_to_key_event(c) {
            Some(event) => {
                assert_eq!(event.character, Some(c));
                assert_eq!(key_event_to_bytes(&event), c.to_string().into_bytes());
            }
            None => assert!(c.is_control()),
        }
    }
    let capital = text_char_to_key_event('Q').unwrap();
    assert_eq!((capital.key, capital.modifiers), (KeyName::Char('Q'), Modifiers::shift_key()));
    let quote = text_char_to_key_event('"').unwrap();
    assert_eq!((quote.key, quote.modifiers), (KeyName::DoubleQuote, Modifiers::none()));
    assert_eq!(text_char_to_key_event(' ').unwrap().key, KeyName::Space);
}

#[test]
fn a_chord_of_one_character_stands_for_it() {
    assert_eq!(ChordKey::parse("é").unwrap(), ChordKey::Character('é'));
    assert_eq!(ChordKey::parse("漢").unwrap(), ChordKey::Character('漢'));
    assert_eq!(ChordKey::parse("Up").unwrap(), ChordKey::Named(KeyName::Up));
    assert!(ChordKey::parse("éé").is_err());
}

#[test]
fn copies_are_whole() {
    match (InputAction::RawInput(vec![1, 2]).clone(), KeySpecError::InvalidKeyName("x".into()).clone())
    {
        (InputAction::RawInput(bytes), KeySpecError::InvalidKeyName(name)) => {
            assert_eq!((bytes, name.as_str()), (vec![1, 2], "x"));
        }
        other => panic!("unexpected copies: {other:?}"),
    }
}
