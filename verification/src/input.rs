//! Keyboard input classification.
//!
//! Classifies each keyboard event into one of four categories:
//! 1. **Prefix key match** enters the prefix-active state
//! 2. **Chord key match** dispatches a chord action (when the prefix is active)
//! 3. **Single-stroke binding** dispatches the bound action
//! 4. **Raw terminal input** is forwarded as bytes to the focused session
use vstd::prelude::*;
use vstd::utf8::*;

use crate::bindings::{ActionReference, ActionReferenceView, BindingsDefinition};
use crate::text::{
    ascii_lower_string, ascii_upper, chars_of, is_control_char, push_decimal, push_decimal_bytes,
    split_chars, str_eq, string_from,
};

verus! {

broadcast use vstd::string::group_string_axioms;

// ── Modifiers ────────────────────────────────────────────────────────────────

/// A set of modifier keys.
#[derive(Debug, Clone, Copy, PartialEq, Eq, Hash, Structural)]
pub struct Modifiers {
    pub has_ctrl: bool,
    pub has_alt: bool,
    pub has_shift: bool,
}

/// The set with the given modifier keys.
pub open spec fn mods(ctrl: bool, alt: bool, shift: bool) -> Modifiers {
    Modifiers { has_ctrl: ctrl, has_alt: alt, has_shift: shift }
}

impl Modifiers {
    /// No modifier key.
    pub fn none() -> (r: Modifiers)
        ensures
            r == mods(false, false, false),
    {
        Modifiers { has_ctrl: false, has_alt: false, has_shift: false }
    }

    /// Only the Ctrl key.
    pub fn ctrl_key() -> (r: Modifiers)
        ensures
            r == mods(true, false, false),
    {
        Modifiers { has_ctrl: true, has_alt: false, has_shift: false }
    }

    /// Only the Alt key.
    pub fn alt_key() -> (r: Modifiers)
        ensures
            r == mods(false, true, false),
    {
        Modifiers { has_ctrl: false, has_alt: true, has_shift: false }
    }

    /// Only the Shift key.
    pub fn shift_key() -> (r: Modifiers)
        ensures
            r == mods(false, false, true),
    {
        Modifiers { has_ctrl: false, has_alt: false, has_shift: true }
    }

    /// Whether Ctrl is in the set.
    pub fn ctrl(self) -> (r: bool)
        ensures
            r == self.has_ctrl,
    {
        self.has_ctrl
    }

    /// Whether Alt is in the set.
    pub fn alt(self) -> (r: bool)
        ensures
            r == self.has_alt,
    {
        self.has_alt
    }

    /// Whether Shift is in the set.
    pub fn shift(self) -> (r: bool)
        ensures
            r == self.has_shift,
    {
        self.has_shift
    }

    /// The union of two sets.
    pub open spec fn union(self, other: Modifiers) -> Modifiers {
        mods(
            self.has_ctrl || other.has_ctrl,
            self.has_alt || other.has_alt,
            self.has_shift || other.has_shift,
        )
    }
}

impl Default for Modifiers {
    fn default() -> (r: Modifiers)
        ensures
            r == mods(false, false, false),
    {
        Modifiers::none()
    }
}

impl std::ops::BitOr<Modifiers> for Modifiers {
    type Output = Modifiers;

    fn bitor(self, rhs: Modifiers) -> (r: Modifiers) {
        Modifiers {
            has_ctrl: self.has_ctrl || rhs.has_ctrl,
            has_alt: self.has_alt || rhs.has_alt,
            has_shift: self.has_shift || rhs.has_shift,
        }
    }
}

impl vstd::std_specs::ops::BitOrSpecImpl<Modifiers> for Modifiers {
    open spec fn obeys_bitor_spec() -> bool {
        true
    }

    open spec fn bitor_req(self, rhs: Modifiers) -> bool {
        true
    }

    open spec fn bitor_spec(self, rhs: Modifiers) -> Modifiers {
        self.union(rhs)
    }
}

// ── KeyName ──────────────────────────────────────────────────────────────────

/// Recognized key names.
#[derive(Debug, Clone, Copy, PartialEq, Eq, Hash, Structural)]
pub enum KeyName {
    // Letters, 'A' to 'Z'; for committed text also a character that has no key of its own
    Char(char),
    // Digits, 0 to 9
    Digit(u8),
    // Function keys, 1 to 12
    F(u8),
    // Navigation and editing
    Enter,
    Tab,
    Escape,
    Space,
    Backspace,
    Delete,
    Insert,
    Home,
    End,
    PageUp,
    PageDown,
    // Arrow keys
    Up,
    Down,
    Left,
    Right,
    // Named punctuation
    Plus,
    Minus,
    Percent,
    DoubleQuote,
    Comma,
    Period,
    Slash,
    Backslash,
    LeftBracket,
    RightBracket,
    Semicolon,
    Apostrophe,
    Backtick,
}

/// Whether a key name is one that a keyboard or a key spec gives: a capital letter, a digit, a
/// function key up to F12, or one of the named keys.
pub open spec fn valid_key(k: KeyName) -> bool {
    match k {
        KeyName::Char(c) => crate::text::is_upper(c),
        KeyName::Digit(d) => d <= 9,
        KeyName::F(n) => 1 <= n <= 12,
        _ => true,
    }
}

/// The key that a single character names.
pub open spec fn key_of_char(c: char) -> Option<KeyName> {
    if crate::text::is_upper(c) || crate::text::is_lower(c) {
        Some(KeyName::Char(crate::text::upper_char(c)))
    } else if crate::text::is_digit(c) {
        Some(KeyName::Digit((c as u32 - 48) as u8))
    } else if c == '%' {
        Some(KeyName::Percent)
    } else if c == '"' {
        Some(KeyName::DoubleQuote)
    } else if c == ',' {
        Some(KeyName::Comma)
    } else if c == '.' {
        Some(KeyName::Period)
    } else if c == '/' {
        Some(KeyName::Slash)
    } else if c == '\\' {
        Some(KeyName::Backslash)
    } else if c == '[' {
        Some(KeyName::LeftBracket)
    } else if c == ']' {
        Some(KeyName::RightBracket)
    } else if c == ';' {
        Some(KeyName::Semicolon)
    } else if c == '\'' {
        Some(KeyName::Apostrophe)
    } else if c == '`' {
        Some(KeyName::Backtick)
    } else if c == '+' {
        Some(KeyName::Plus)
    } else if c == '-' {
        Some(KeyName::Minus)
    } else {
        None
    }
}

/// The key that a lower-case word names.
pub open spec fn key_of_word(w: Seq<char>) -> Option<KeyName> {
    if w == "enter"@ {
        Some(KeyName::Enter)
    } else if w == "tab"@ {
        Some(KeyName::Tab)
    } else if w == "escape"@ {
        Some(KeyName::Escape)
    } else if w == "space"@ {
        Some(KeyName::Space)
    } else if w == "backspace"@ {
        Some(KeyName::Backspace)
    } else if w == "delete"@ {
        Some(KeyName::Delete)
    } else if w == "insert"@ {
        Some(KeyName::Insert)
    } else if w == "home"@ {
        Some(KeyName::Home)
    } else if w == "end"@ {
        Some(KeyName::End)
    } else if w == "pageup"@ {
        Some(KeyName::PageUp)
    } else if w == "pagedown"@ {
        Some(KeyName::PageDown)
    } else if w == "up"@ {
        Some(KeyName::Up)
    } else if w == "down"@ {
        Some(KeyName::Down)
    } else if w == "left"@ {
        Some(KeyName::Left)
    } else if w == "right"@ {
        Some(KeyName::Right)
    } else if w == "plus"@ {
        Some(KeyName::Plus)
    } else if w == "minus"@ {
        Some(KeyName::Minus)
    } else {
        None
    }
}

/// The function key that a text such as `F5` or `f05` names.
pub open spec fn function_key_of(s: Seq<char>) -> Option<KeyName> {
    if s.len() >= 2 && (s[0] == 'F' || s[0] == 'f') && crate::text::all_digits(s.skip(1)) && 1
        <= crate::text::digits_value(s.skip(1)) <= 12 {
        Some(KeyName::F(crate::text::digits_value(s.skip(1)) as u8))
    } else {
        None
    }
}

/// The key that a text names: a single character, a word in any case, or a function key.
pub open spec fn key_of_text(s: Seq<char>) -> Option<KeyName> {
    if s.len() == 1 {
        key_of_char(s[0])
    } else if key_of_word(crate::text::lower_text(s)) is Some {
        key_of_word(crate::text::lower_text(s))
    } else {
        function_key_of(s)
    }
}

/// The model of a [`KeySpecError`].
pub enum KeySpecErrorView {
    Empty,
    InvalidModifier(Seq<char>),
    MissingKeyName,
    InvalidKeyName(Seq<char>),
}

/// Errors from parsing key specifications or building the classifier.
#[derive(Debug)]
pub enum KeySpecError {
    /// The key spec is empty.
    Empty,
    /// A segment before the last is no modifier.
    InvalidModifier(String),
    /// Every segment is a modifier.
    MissingKeyName,
    /// The last segment names no key.
    InvalidKeyName(String),
}

impl View for KeySpecError {
    type V = KeySpecErrorView;

    open spec fn view(&self) -> KeySpecErrorView {
        match self {
            KeySpecError::Empty => KeySpecErrorView::Empty,
            KeySpecError::InvalidModifier(s) => KeySpecErrorView::InvalidModifier(s@),
            KeySpecError::MissingKeyName => KeySpecErrorView::MissingKeyName,
            KeySpecError::InvalidKeyName(s) => KeySpecErrorView::InvalidKeyName(s@),
        }
    }
}

impl Clone for KeySpecError {
    fn clone(&self) -> (r: KeySpecError)
        ensures
            r@ == self@,
    {
        match self {
            KeySpecError::Empty => KeySpecError::Empty,
            KeySpecError::InvalidModifier(s) => KeySpecError::InvalidModifier(s.clone()),
            KeySpecError::MissingKeyName => KeySpecError::MissingKeyName,
            KeySpecError::InvalidKeyName(s) => KeySpecError::InvalidKeyName(s.clone()),
        }
    }
}

impl KeySpecError {
    /// The message of an error, over its model.
    pub open spec fn message(e: KeySpecErrorView) -> Seq<char> {
        match e {
            KeySpecErrorView::Empty => "empty key spec"@,
            KeySpecErrorView::InvalidModifier(s) => "invalid modifier: "@ + s,
            KeySpecErrorView::MissingKeyName => "missing key name"@,
            KeySpecErrorView::InvalidKeyName(s) => "invalid key name: "@ + s,
        }
    }

    /// A one-line description of the error.
    pub fn to_string(&self) -> (r: String)
        ensures
            r@ == Self::message(self@),
    {
        match self {
            KeySpecError::Empty => "empty key spec".to_owned(),
            KeySpecError::InvalidModifier(s) => "invalid modifier: ".to_owned().concat(s.as_str()),
            KeySpecError::MissingKeyName => "missing key name".to_owned(),
            KeySpecError::InvalidKeyName(s) => "invalid key name: ".to_owned().concat(s.as_str()),
        }
    }
}

/// The outcome of reading a key name.
pub open spec fn parse_key(s: Seq<char>) -> Result<KeyName, KeySpecErrorView> {
    match key_of_text(s) {
        Some(k) => Ok(k),
        None => Err(KeySpecErrorView::InvalidKeyName(s)),
    }
}

/// The key that a single character names.
fn char_key(c: char) -> (r: Option<KeyName>)
    ensures
        r == key_of_char(c),
{
    match c {
        'A'..='Z' | 'a'..='z' => Some(KeyName::Char(ascii_upper(c))),
        '0'..='9' => Some(KeyName::Digit(c as u8 - 48)),
        '%' => Some(KeyName::Percent),
        '"' => Some(KeyName::DoubleQuote),
        ',' => Some(KeyName::Comma),
        '.' => Some(KeyName::Period),
        '/' => Some(KeyName::Slash),
        '\\' => Some(KeyName::Backslash),
        '[' => Some(KeyName::LeftBracket),
        ']' => Some(KeyName::RightBracket),
        ';' => Some(KeyName::Semicolon),
        '\'' => Some(KeyName::Apostrophe),
        '`' => Some(KeyName::Backtick),
        '+' => Some(KeyName::Plus),
        '-' => Some(KeyName::Minus),
        _ => None,
    }
}

/// The key that a lower-case word names.
fn word_key(w: &str) -> (r: Option<KeyName>)
    ensures
        r == key_of_word(w@),
{
    if str_eq(w, "enter") {
        Some(KeyName::Enter)
    } else if str_eq(w, "tab") {
        Some(KeyName::Tab)
    } else if str_eq(w, "escape") {
        Some(KeyName::Escape)
    } else if str_eq(w, "space") {
        Some(KeyName::Space)
    } else if str_eq(w, "backspace") {
        Some(KeyName::Backspace)
    } else if str_eq(w, "delete") {
        Some(KeyName::Delete)
    } else if str_eq(w, "insert") {
        Some(KeyName::Insert)
    } else if str_eq(w, "home") {
        Some(KeyName::Home)
    } else if str_eq(w, "end") {
        Some(KeyName::End)
    } else if str_eq(w, "pageup") {
        Some(KeyName::PageUp)
    } else if str_eq(w, "pagedown") {
        Some(KeyName::PageDown)
    } else if str_eq(w, "up") {
        Some(KeyName::Up)
    } else if str_eq(w, "down") {
        Some(KeyName::Down)
    } else if str_eq(w, "left") {
        Some(KeyName::Left)
    } else if str_eq(w, "right") {
        Some(KeyName::Right)
    } else if str_eq(w, "plus") {
        Some(KeyName::Plus)
    } else if str_eq(w, "minus") {
        Some(KeyName::Minus)
    } else {
        None
    }
}

/// Leading digits never denote more than the whole number does.
proof fn lemma_digits_grow(s: Seq<char>, i: int)
    requires
        crate::text::all_digits(s),
        0 <= i <= s.len(),
    ensures
        crate::text::digits_value(s.take(i)) <= crate::text::digits_value(s),
    decreases s.len() - i,
{
    if i == s.len() {
        assert(s.take(i) =~= s);
    } else {
        lemma_digits_grow(s, i + 1);
        assert(s.take(i + 1).drop_last() =~= s.take(i));
        assert(crate::text::is_digit(s[i]));
    }
}

/// The function key that a text names.
fn function_key(chars: &Vec<char>) -> (r: Option<KeyName>)
    ensures
        r == function_key_of(chars@),
{
    if chars.len() < 2 || (chars[0] != 'F' && chars[0] != 'f') {
        return None;
    }
    let ghost tail = chars@.skip(1);
    let mut i: usize = 1;
    while i < chars.len()
        invariant
            1 <= i <= chars@.len(),
            tail == chars@.skip(1),
            forall|j: int| 0 <= j < i - 1 ==> crate::text::is_digit(#[trigger] tail[j]),
        decreases chars.len() - i,
    {
        if chars[i] < '0' || chars[i] > '9' {
            assert(!crate::text::is_digit(tail[i - 1]));
            return None;
        }
        i += 1;
    }
    let mut n: u32 = 0;
    let mut k: usize = 1;
    assert(tail.take(0) =~= Seq::<char>::empty());
    while k < chars.len()
        invariant
            1 <= k <= chars@.len(),
            tail == chars@.skip(1),
            crate::text::all_digits(tail),
            n == crate::text::digits_value(tail.take(k - 1)),
            n <= 12,
        decreases chars.len() - k,
    {
        assert(crate::text::is_digit(tail[k - 1]));
        let d: u32 = chars[k] as u32 - 48;
        assert(tail.take(k as int).drop_last() =~= tail.take(k - 1));
        n = 10 * n + d;
        k += 1;
        if n > 12 {
            proof {
                lemma_digits_grow(tail, k - 1);
            }
            return None;
        }
    }
    assert(tail.take(k - 1) =~= tail);
    if n >= 1 {
        Some(KeyName::F(n as u8))
    } else {
        None
    }
}

/// Reads a key name from its characters.
fn parse_key_chars(chars: &Vec<char>) -> (r: Result<KeyName, KeySpecError>)
    ensures
        match r {
            Ok(k) => parse_key(chars@) == Ok::<KeyName, KeySpecErrorView>(k),
            Err(e) => parse_key(chars@) == Err::<KeyName, KeySpecErrorView>(e@),
        },
{
    let found = if chars.len() == 1 {
        char_key(chars[0])
    } else {
        let word = ascii_lower_string(chars);
        let named = word_key(word.as_str());
        if named.is_some() {
            named
        } else {
            function_key(chars)
        }
    };
    match found {
        Some(k) => Ok(k),
        None => {
            assert(chars@.subrange(0, chars@.len() as int) =~= chars@);
            Err(KeySpecError::InvalidKeyName(string_from(chars, 0, chars.len())))
        },
    }
}

/// The text of a key name.
pub open spec fn key_text(k: KeyName) -> Seq<char> {
    match k {
        KeyName::Char(c) => seq![c],
        KeyName::Digit(d) => crate::text::decimal(d as nat),
        KeyName::F(n) => seq!['F'] + crate::text::decimal(n as nat),
        KeyName::Enter => "Enter"@,
        KeyName::Tab => "Tab"@,
        KeyName::Escape => "Escape"@,
        KeyName::Space => "Space"@,
        KeyName::Backspace => "Backspace"@,
        KeyName::Delete => "Delete"@,
        KeyName::Insert => "Insert"@,
        KeyName::Home => "Home"@,
        KeyName::End => "End"@,
        KeyName::PageUp => "PageUp"@,
        KeyName::PageDown => "PageDown"@,
        KeyName::Up => "Up"@,
        KeyName::Down => "Down"@,
        KeyName::Left => "Left"@,
        KeyName::Right => "Right"@,
        KeyName::Plus => "Plus"@,
        KeyName::Minus => "Minus"@,
        KeyName::Percent => "%"@,
        KeyName::DoubleQuote => "\""@,
        KeyName::Comma => ","@,
        KeyName::Period => "."@,
        KeyName::Slash => "/"@,
        KeyName::Backslash => "\\"@,
        KeyName::LeftBracket => "["@,
        KeyName::RightBracket => "]"@,
        KeyName::Semicolon => ";"@,
        KeyName::Apostrophe => "'"@,
        KeyName::Backtick => "`"@,
    }
}

impl KeyName {
    /// Parse a key name string from a key spec or chord key.
    pub fn parse(s: &str) -> (r: Result<KeyName, KeySpecError>)
        ensures
            match r {
                Ok(k) => parse_key(s@) == Ok::<KeyName, KeySpecErrorView>(k),
                Err(e) => parse_key(s@) == Err::<KeyName, KeySpecErrorView>(e@),
            },
    {
        parse_key_chars(&chars_of(s))
    }

    /// The name of the key.
    pub fn to_string(&self) -> (r: String)
        ensures
            r@ == key_text(*self),
    {
        match self {
            KeyName::Char(c) => {
                let mut s = String::new();
                s.push(*c);
                s
            },
            KeyName::Digit(d) => {
                let mut s = String::new();
                push_decimal(&mut s, *d as u64);
                s
            },
            KeyName::F(n) => {
                let mut s = String::new();
                s.push('F');
                push_decimal(&mut s, *n as u64);
                s
            },
            KeyName::Enter => "Enter".to_owned(),
            KeyName::Tab => "Tab".to_owned(),
            KeyName::Escape => "Escape".to_owned(),
            KeyName::Space => "Space".to_owned(),
            KeyName::Backspace => "Backspace".to_owned(),
            KeyName::Delete => "Delete".to_owned(),
            KeyName::Insert => "Insert".to_owned(),
            KeyName::Home => "Home".to_owned(),
            KeyName::End => "End".to_owned(),
            KeyName::PageUp => "PageUp".to_owned(),
            KeyName::PageDown => "PageDown".to_owned(),
            KeyName::Up => "Up".to_owned(),
            KeyName::Down => "Down".to_owned(),
            KeyName::Left => "Left".to_owned(),
            KeyName::Right => "Right".to_owned(),
            KeyName::Plus => "Plus".to_owned(),
            KeyName::Minus => "Minus".to_owned(),
            KeyName::Percent => "%".to_owned(),
            KeyName::DoubleQuote => "\"".to_owned(),
            KeyName::Comma => ",".to_owned(),
            KeyName::Period => ".".to_owned(),
            KeyName::Slash => "/".to_owned(),
            KeyName::Backslash => "\\".to_owned(),
            KeyName::LeftBracket => "[".to_owned(),
            KeyName::RightBracket => "]".to_owned(),
            KeyName::Semicolon => ";".to_owned(),
            KeyName::Apostrophe => "'".to_owned(),
            KeyName::Backtick => "`".to_owned(),
        }
    }
}


// ── KeySpec ──────────────────────────────────────────────────────────────────

/// A parsed key specification (e.g. `Ctrl+Shift+T`, `F11`, `Alt+Shift+Minus`).
#[derive(Debug, Clone, Copy, PartialEq, Eq, Hash, Structural)]
pub struct KeySpec {
    pub modifiers: Modifiers,
    pub key: KeyName,
}

/// The modifier that a segment of a key spec names, in any case.
pub open spec fn modifier_of(s: Seq<char>) -> Option<Modifiers> {
    let w = crate::text::lower_text(s);
    if w == "ctrl"@ {
        Some(mods(true, false, false))
    } else if w == "alt"@ {
        Some(mods(false, true, false))
    } else if w == "shift"@ {
        Some(mods(false, false, true))
    } else {
        None
    }
}

/// The key spec that the segments `parts` complete, once the modifiers `acc` have been read:
/// any number of modifiers, then one key name.
pub open spec fn spec_of_parts(parts: Seq<Seq<char>>, acc: Modifiers) -> Result<
    KeySpec,
    KeySpecErrorView,
>
    decreases parts.len(),
{
    if parts.len() == 0 {
        Err(KeySpecErrorView::MissingKeyName)
    } else {
        match modifier_of(parts[0]) {
            Some(m) => spec_of_parts(parts.drop_first(), acc.union(m)),
            None => if parts.len() > 1 {
                Err(KeySpecErrorView::InvalidModifier(parts[0]))
            } else {
                match parse_key(parts[0]) {
                    Ok(key) => Ok(KeySpec { modifiers: acc, key }),
                    Err(e) => Err(e),
                }
            },
        }
    }
}

/// The outcome of reading a key spec: `[Modifier+[Modifier+...]]KeyName`.
pub open spec fn parse_spec(s: Seq<char>) -> Result<KeySpec, KeySpecErrorView> {
    if s.len() == 0 {
        Err(KeySpecErrorView::Empty)
    } else {
        spec_of_parts(crate::text::split_on(s, '+'), mods(false, false, false))
    }
}

/// The text of a key spec: the modifiers in a fixed order, then the key.
pub open spec fn spec_text(spec: KeySpec) -> Seq<char> {
    let ctrl = if spec.modifiers.has_ctrl {
        "Ctrl+"@
    } else {
        Seq::empty()
    };
    let alt = if spec.modifiers.has_alt {
        "Alt+"@
    } else {
        Seq::empty()
    };
    let shift = if spec.modifiers.has_shift {
        "Shift+"@
    } else {
        Seq::empty()
    };
    ctrl + alt + shift + key_text(spec.key)
}

/// The modifier that a segment names.
fn segment_modifier(chars: &Vec<char>) -> (r: Option<Modifiers>)
    ensures
        r == modifier_of(chars@),
{
    let word = ascii_lower_string(chars);
    if str_eq(word.as_str(), "ctrl") {
        Some(Modifiers::ctrl_key())
    } else if str_eq(word.as_str(), "alt") {
        Some(Modifiers::alt_key())
    } else if str_eq(word.as_str(), "shift") {
        Some(Modifiers::shift_key())
    } else {
        None
    }
}

impl KeySpec {
    /// Parse a key spec string.
    ///
    /// Format: `[Modifier+[Modifier+...]]KeyName`
    /// Modifiers: `Ctrl`, `Alt`, `Shift` (order-insensitive, combinable).
    pub fn parse(s: &str) -> (r: Result<KeySpec, KeySpecError>)
        ensures
            match r {
                Ok(spec) => parse_spec(s@) == Ok::<KeySpec, KeySpecErrorView>(spec),
                Err(e) => parse_spec(s@) == Err::<KeySpec, KeySpecErrorView>(e@),
            },
    {
        if s.is_empty() {
            return Err(KeySpecError::Empty);
        }
        let parts = split_chars(&chars_of(s), '+');
        let ghost all = crate::text::split_on(s@, '+');
        let mut modifiers = Modifiers::none();
        let mut i: usize = 0;
        assert(all.skip(0) =~= all);
        while i < parts.len()
            invariant
                i <= parts@.len(),
                all == parts@.map_values(|p: Vec<char>| p@),
                s@.len() > 0,
                parse_spec(s@) == spec_of_parts(all.skip(i as int), modifiers),
            decreases parts.len() - i,
        {
            let ghost rest = all.skip(i as int);
            assert(rest[0] == parts@[i as int]@);
            assert(rest.drop_first() =~= all.skip(i + 1));
            match segment_modifier(&parts[i]) {
                Some(m) => {
                    modifiers = modifiers | m;
                },
                None => {
                    if i + 1 < parts.len() {
                        let part = &parts[i];
                        assert(part@.subrange(0, part@.len() as int) =~= part@);
                        return Err(KeySpecError::InvalidModifier(string_from(part, 0, part.len())));
                    }
                    return match parse_key_chars(&parts[i]) {
                        Ok(key) => Ok(KeySpec { modifiers, key }),
                        Err(e) => Err(e),
                    };
                },
            }
            i += 1;
        }
        Err(KeySpecError::MissingKeyName)
    }

    /// Whether an event is a press of this key with exactly these modifiers.
    pub open spec fn matches_event(self, event: KeyEvent) -> bool {
        self.modifiers == event.modifiers && self.key == event.key
    }

    /// Check if this key spec matches a given key event.
    pub fn matches(&self, event: &KeyEvent) -> (r: bool)
        ensures
            r == self.matches_event(*event),
    {
        self.modifiers == event.modifiers && self.key == event.key
    }

    /// The text of the key spec.
    pub fn to_string(&self) -> (r: String)
        ensures
            r@ == spec_text(*self),
    {
        let mut s = String::new();
        if self.modifiers.ctrl() {
            s.append("Ctrl+");
        }
        if self.modifiers.alt() {
            s.append("Alt+");
        }
        if self.modifiers.shift() {
            s.append("Shift+");
        }
        s.append(self.key.to_string().as_str());
        assert(s@ =~= spec_text(*self));
        s
    }
}

// ── KeyEvent ─────────────────────────────────────────────────────────────────

/// A keyboard event to be classified.
#[derive(Debug, Clone, Copy)]
pub struct KeyEvent {
    /// The key that was pressed (normalized).
    pub key: KeyName,
    /// Active modifier keys.
    pub modifiers: Modifiers,
    /// The character this keystroke would produce (if printable).
    /// Used for chord character matching and raw input forwarding.
    pub character: Option<char>,
}

// ── ChordKey ─────────────────────────────────────────────────────────────────

/// A parsed chord key, either a literal character or a named key.
///
/// Single printable characters match on the produced character; named keys match on the key
/// name.
#[derive(Debug, Clone, Copy, PartialEq, Eq, Hash, Structural)]
pub enum ChordKey {
    /// Match on the produced character (e.g. `%`, `o`, `"`).
    Character(char),
    /// Match on the key name (e.g. `Up`, `Down`, `Left`, `Right`).
    Named(KeyName),
}

/// The outcome of reading a chord key: a single character stands for itself, anything else names
/// a key.
pub open spec fn parse_chord(s: Seq<char>) -> Result<ChordKey, KeySpecErrorView> {
    if s.len() == 1 {
        Ok(ChordKey::Character(s[0]))
    } else {
        match parse_key(s) {
            Ok(k) => Ok(ChordKey::Named(k)),
            Err(e) => Err(e),
        }
    }
}

impl ChordKey {
    /// Parse a chord key string from the bindings.
    pub fn parse(s: &str) -> (r: Result<ChordKey, KeySpecError>)
        ensures
            match r {
                Ok(c) => parse_chord(s@) == Ok::<ChordKey, KeySpecErrorView>(c),
                Err(e) => parse_chord(s@) == Err::<ChordKey, KeySpecErrorView>(e@),
            },
    {
        let chars = chars_of(s);
        if chars.len() == 1 {
            return Ok(ChordKey::Character(chars[0]));
        }
        match parse_key_chars(&chars) {
            Ok(k) => Ok(ChordKey::Named(k)),
            Err(e) => Err(e),
        }
    }

    /// Whether an event is a press of this chord key.
    pub open spec fn matches_event(self, event: KeyEvent) -> bool {
        match self {
            ChordKey::Character(c) => event.character == Some(c),
            ChordKey::Named(k) => event.key == k,
        }
    }

    /// Check if this chord key matches a key event.
    pub fn matches(&self, event: &KeyEvent) -> (r: bool)
        ensures
            r == self.matches_event(*event),
    {
        match self {
            ChordKey::Character(ch) => event.character == Some(*ch),
            ChordKey::Named(key) => event.key == *key,
        }
    }
}

// ── Committed text ───────────────────────────────────────────────────────────

/// The key event that a character of committed text stands for. A printable character stands for
/// a press of the key that it names, with Shift for a capital letter; a control character stands
/// for none.
pub open spec fn text_key(c: char) -> Option<KeyEvent> {
    if crate::text::is_control(c) {
        None
    } else {
        Some(
            KeyEvent {
                key: if key_of_char(c) is Some {
                    key_of_char(c)->0
                } else if c == ' ' {
                    KeyName::Space
                } else {
                    KeyName::Char(c)
                },
                modifiers: mods(false, false, crate::text::is_upper(c)),
                character: Some(c),
            },
        )
    }
}

/// The key event that a character of committed text stands for.
pub fn text_char_to_key_event(c: char) -> (r: Option<KeyEvent>)
    ensures
        r == text_key(c),
        r is None <==> crate::text::is_control(c),
        r matches Some(e) ==> e.character == Some(c) && encodable(e),
{
    if is_control_char(c) {
        return None;
    }
    let key = match char_key(c) {
        Some(k) => k,
        None => if c == ' ' {
            KeyName::Space
        } else {
            KeyName::Char(c)
        },
    };
    let modifiers = if 'A' <= c && c <= 'Z' {
        Modifiers::shift_key()
    } else {
        Modifiers::none()
    };
    Some(KeyEvent { key, modifiers, character: Some(c) })
}

// ── Raw terminal byte conversion ─────────────────────────────────────────────

/// The xterm modifier parameter: one, plus one for Shift, two for Alt and four for Ctrl.
pub open spec fn mod_param_of(m: Modifiers) -> nat {
    (1 + (if m.has_shift { 1int } else { 0 }) + (if m.has_alt { 2int } else { 0 }) + (if m.has_ctrl {
        4int
    } else {
        0
    })) as nat
}

/// `ESC [ 1 ; mod final`, or `ESC [ final` without modifiers.
pub open spec fn csi_key_bytes(final_byte: u8, m: nat, has_mods: bool) -> Seq<u8> {
    if has_mods {
        seq![0x1Bu8, 0x5B, 0x31, 0x3B] + crate::text::decimal_bytes(m) + seq![final_byte]
    } else {
        seq![0x1Bu8, 0x5B, final_byte]
    }
}

/// `ESC [ num ; mod ~`, or `ESC [ num ~` without modifiers.
pub open spec fn csi_tilde_bytes(num: nat, m: nat, has_mods: bool) -> Seq<u8> {
    if has_mods {
        seq![0x1Bu8, 0x5B] + crate::text::decimal_bytes(num) + seq![0x3Bu8]
            + crate::text::decimal_bytes(m) + seq![0x7Eu8]
    } else {
        seq![0x1Bu8, 0x5B] + crate::text::decimal_bytes(num) + seq![0x7Eu8]
    }
}

/// `ESC [ 1 ; mod ch`, or `ESC O ch` without modifiers.
pub open spec fn ss3_or_csi_bytes(ch: u8, m: nat, has_mods: bool) -> Seq<u8> {
    if has_mods {
        csi_key_bytes(ch, m, true)
    } else {
        seq![0x1Bu8, 0x4F, ch]
    }
}

/// `ESC [ codepoint ; mod u`.
pub open spec fn csi_u_bytes(codepoint: nat, m: nat) -> Seq<u8> {
    seq![0x1Bu8, 0x5B] + crate::text::decimal_bytes(codepoint) + seq![0x3Bu8]
        + crate::text::decimal_bytes(m) + seq![0x75u8]
}

/// The bytes that a terminal session expects for a key that produces no character of its own.
pub open spec fn special_bytes(key: KeyName, m: Modifiers) -> Option<Seq<u8>> {
    let p = mod_param_of(m);
    let has = p > 1;
    match key {
        KeyName::Enter => Some(
            if has {
                csi_u_bytes(13, p)
            } else {
                seq![0x0Du8]
            },
        ),
        KeyName::Tab => Some(
            if m.has_shift {
                seq![0x1Bu8, 0x5B, 0x5A]
            } else {
                seq![0x09u8]
            },
        ),
        KeyName::Escape => Some(seq![0x1Bu8]),
        KeyName::Space => Some(
            if m.has_ctrl {
                seq![0x00u8]
            } else {
                seq![0x20u8]
            },
        ),
        KeyName::Backspace => Some(
            if m.has_ctrl {
                seq![0x08u8]
            } else {
                seq![0x7Fu8]
            },
        ),
        KeyName::Up => Some(csi_key_bytes(0x41, p, has)),
        KeyName::Down => Some(csi_key_bytes(0x42, p, has)),
        KeyName::Right => Some(csi_key_bytes(0x43, p, has)),
        KeyName::Left => Some(csi_key_bytes(0x44, p, has)),
        KeyName::Insert => Some(csi_tilde_bytes(2, p, has)),
        KeyName::Delete => Some(csi_tilde_bytes(3, p, has)),
        KeyName::PageUp => Some(csi_tilde_bytes(5, p, has)),
        KeyName::PageDown => Some(csi_tilde_bytes(6, p, has)),
        KeyName::Home => Some(csi_key_bytes(0x48, p, has)),
        KeyName::End => Some(csi_key_bytes(0x46, p, has)),
        KeyName::F(n) => if 1 <= n <= 4 {
            Some(ss3_or_csi_bytes((0x4F + n) as u8, p, has))
        } else if n == 5 {
            Some(csi_tilde_bytes(15, p, has))
        } else if 6 <= n <= 10 {
            Some(csi_tilde_bytes((n + 11) as nat, p, has))
        } else if 11 <= n <= 12 {
            Some(csi_tilde_bytes((n + 12) as nat, p, has))
        } else {
            None
        },
        _ => None,
    }
}

/// `ESC [ final` or `ESC [ 1 ; mod final`.
pub fn csi_key(final_byte: u8, mod_param: u8, has_mods: bool) -> (r: Vec<u8>)
    ensures
        r@ == csi_key_bytes(final_byte, mod_param as nat, has_mods),
{
    let mut v: Vec<u8> = vec![0x1B, 0x5B];
    if has_mods {
        v.push(0x31);
        v.push(0x3B);
        push_decimal_bytes(&mut v, mod_param as u64);
    }
    v.push(final_byte);
    assert(v@ =~= csi_key_bytes(final_byte, mod_param as nat, has_mods));
    v
}

/// `ESC [ num ~` or `ESC [ num ; mod ~`.
pub fn csi_tilde(num: u8, mod_param: u8, has_mods: bool) -> (r: Vec<u8>)
    ensures
        r@ == csi_tilde_bytes(num as nat, mod_param as nat, has_mods),
{
    let mut v: Vec<u8> = vec![0x1B, 0x5B];
    push_decimal_bytes(&mut v, num as u64);
    if has_mods {
        v.push(0x3B);
        push_decimal_bytes(&mut v, mod_param as u64);
    }
    v.push(0x7E);
    assert(v@ =~= csi_tilde_bytes(num as nat, mod_param as nat, has_mods));
    v
}

/// `ESC O ch` (no modifiers) or `ESC [ 1 ; mod ch` (with modifiers).
pub fn ss3_or_csi(ch: u8, mod_param: u8, has_mods: bool) -> (r: Vec<u8>)
    ensures
        r@ == ss3_or_csi_bytes(ch, mod_param as nat, has_mods),
{
    if has_mods {
        csi_key(ch, mod_param, true)
    } else {
        vec![0x1B, 0x4F, ch]
    }
}

/// `ESC [ codepoint ; mod u`.
pub fn csi_u(codepoint: u32, mod_param: u8) -> (r: Vec<u8>)
    ensures
        r@ == csi_u_bytes(codepoint as nat, mod_param as nat),
{
    let mut v: Vec<u8> = vec![0x1B, 0x5B];
    push_decimal_bytes(&mut v, codepoint as u64);
    v.push(0x3B);
    push_decimal_bytes(&mut v, mod_param as u64);
    v.push(0x75);
    assert(v@ =~= csi_u_bytes(codepoint as nat, mod_param as nat));
    v
}

/// Generate VT bytes for special (non-printable) keys.
pub fn special_key_bytes(key: &KeyName, mods: Modifiers) -> (r: Option<Vec<u8>>)
    ensures
        match r {
            Some(v) => special_bytes(*key, mods) == Some(v@),
            None => special_bytes(*key, mods) is None,
        },
{
    let mut mod_param: u8 = 1;
    if mods.shift() {
        mod_param += 1;
    }
    if mods.alt() {
        mod_param += 2;
    }
    if mods.ctrl() {
        mod_param += 4;
    }
    let has_mods = mod_param > 1;
    match key {
        KeyName::Enter => {
            if has_mods {
                Some(csi_u(13, mod_param))
            } else {
                Some(vec![0x0D])
            }
        },
        KeyName::Tab => {
            if mods.shift() {
                Some(vec![0x1B, 0x5B, 0x5A])
            } else {
                Some(vec![0x09])
            }
        },
        KeyName::Escape => Some(vec![0x1B]),
        KeyName::Space => {
            if mods.ctrl() {
                Some(vec![0x00])
            } else {
                Some(vec![0x20])
            }
        },
        KeyName::Backspace => {
            if mods.ctrl() {
                Some(vec![0x08])
            } else {
                Some(vec![0x7F])
            }
        },
        KeyName::Up => Some(csi_key(0x41, mod_param, has_mods)),
        KeyName::Down => Some(csi_key(0x42, mod_param, has_mods)),
        KeyName::Right => Some(csi_key(0x43, mod_param, has_mods)),
        KeyName::Left => Some(csi_key(0x44, mod_param, has_mods)),
        KeyName::Insert => Some(csi_tilde(2, mod_param, has_mods)),
        KeyName::Delete => Some(csi_tilde(3, mod_param, has_mods)),
        KeyName::PageUp => Some(csi_tilde(5, mod_param, has_mods)),
        KeyName::PageDown => Some(csi_tilde(6, mod_param, has_mods)),
        KeyName::Home => Some(csi_key(0x48, mod_param, has_mods)),
        KeyName::End => Some(csi_key(0x46, mod_param, has_mods)),
        KeyName::F(n) => {
            let n: u8 = *n;
            if 1 <= n && n <= 4 {
                Some(ss3_or_csi(0x4F + n, mod_param, has_mods))
            } else if n == 5 {
                Some(csi_tilde(15, mod_param, has_mods))
            } else if 6 <= n && n <= 10 {
                Some(csi_tilde(n + 11, mod_param, has_mods))
            } else if 11 <= n && n <= 12 {
                Some(csi_tilde(n + 12, mod_param, has_mods))
            } else {
                None
            }
        },
        _ => None,
    }
}

/// Whether a key event has bytes: with Ctrl and without Alt, a letter key must have a code
/// from 'A' up in the low byte of its character.
pub open spec fn encodable(event: KeyEvent) -> bool {
    event.modifiers.has_ctrl && !event.modifiers.has_alt ==> (event.key matches KeyName::Char(c)
        ==> (c as u32) % 256 >= 65)
}

/// Whether an ESC stands in front of the bytes of a special key that is pressed with Alt. Escape
/// and Enter take none, and neither does Right with Alt alone: its sequence names Alt already.
pub open spec fn takes_escape(key: KeyName, m: Modifiers) -> bool {
    &&& m.has_alt
    &&& key != KeyName::Escape
    &&& key != KeyName::Enter
    &&& !(key == KeyName::Right && m == mods(false, true, false))
}

/// The bytes that a terminal session expects for a key event.
pub open spec fn event_bytes(event: KeyEvent) -> Seq<u8> {
    let m = event.modifiers;
    if m.has_ctrl && !m.has_alt && event.key is Char {
        seq![((event.key->Char_0 as u32) % 256 - 64) as u8]
    } else if special_bytes(event.key, m) is Some {
        let bytes = special_bytes(event.key, m)->0;
        if takes_escape(event.key, m) {
            seq![0x1Bu8] + bytes
        } else {
            bytes
        }
    } else if event.character is Some {
        let bytes = encode_scalar(event.character->0 as u32);
        if m.has_alt {
            seq![0x1Bu8] + bytes
        } else {
            bytes
        }
    } else {
        Seq::empty()
    }
}

/// Appends the UTF-8 encoding of one character.
pub fn push_utf8(v: &mut Vec<u8>, c: char)
    ensures
        final(v)@ == old(v)@ + encode_scalar(c as u32),
{
    let mut s = String::new();
    s.push(c);
    let bytes = s.as_str().as_bytes();
    proof {
        reveal_with_fuel(encode_utf8, 2);
        assert(s@ =~= seq![c]);
        assert(s@.drop_first() =~= Seq::<char>::empty());
        assert(encode_utf8(s@) =~= encode_scalar(c as u32));
    }
    v.extend_from_slice(bytes);
    assert(v@ =~= old(v)@ + bytes@);
}

/// Convert a key event to the bytes a terminal session expects.
///
/// Handles:
/// - Printable characters as UTF-8
/// - Ctrl+letter as control codes (0x01 to 0x1A)
/// - Arrow keys as VT escape sequences
/// - Function keys as VT escape sequences
/// - Special keys (Enter, Tab, Escape, Backspace, etc.)
/// - Alt+key as ESC followed by the key's bytes (meta prefix), but for Escape, Enter and Alt+Right
pub fn key_event_to_bytes(event: &KeyEvent) -> (r: Vec<u8>)
    requires
        encodable(*event),
    ensures
        r@ == event_bytes(*event),
{
    let mods = event.modifiers;
    if mods.ctrl() && !mods.alt() {
        if let KeyName::Char(c) = event.key {
            let low: u32 = c as u32 % 256;
            return vec![(low - 64) as u8];
        }
    }
    if let Some(bytes) = special_key_bytes(&event.key, mods) {
        let bare = event.key == KeyName::Escape || event.key == KeyName::Enter || (event.key
            == KeyName::Right && !mods.ctrl() && !mods.shift());
        if mods.alt() && !bare {
            let mut result: Vec<u8> = vec![0x1B];
            result.extend_from_slice(bytes.as_slice());
            assert(result@ =~= event_bytes(*event));
            return result;
        }
        return bytes;
    }
    let mut result: Vec<u8> = Vec::new();
    if let Some(ch) = event.character {
        if mods.alt() {
            result.push(0x1B);
        }
        push_utf8(&mut result, ch);
    }
    assert(result@ =~= event_bytes(*event));
    result
}


// ── InputAction ──────────────────────────────────────────────────────────────

/// Result of classifying a keyboard event.
#[derive(Debug)]
pub enum InputAction {
    /// The prefix key was pressed (enter prefix-active state).
    PrefixKey,
    /// A chord binding matched (prefix was active).
    ChordBinding(ActionReference),
    /// A single-stroke binding matched.
    SingleStrokeBinding(ActionReference),
    /// Raw terminal input: forward these bytes to the focused session.
    RawInput(Vec<u8>),
}

impl Clone for InputAction {
    fn clone(&self) -> (r: InputAction)
        ensures
            r@ == self@,
    {
        match self {
            InputAction::PrefixKey => InputAction::PrefixKey,
            InputAction::ChordBinding(a) => InputAction::ChordBinding(a.clone()),
            InputAction::SingleStrokeBinding(a) => InputAction::SingleStrokeBinding(a.clone()),
            InputAction::RawInput(v) => {
                let mut bytes: Vec<u8> = Vec::new();
                bytes.extend_from_slice(v.as_slice());
                assert(bytes@ =~= v@);
                InputAction::RawInput(bytes)
            },
        }
    }
}

/// The model of an [`InputAction`].
pub enum InputActionView {
    PrefixKey,
    ChordBinding(ActionReferenceView),
    SingleStrokeBinding(ActionReferenceView),
    RawInput(Seq<u8>),
}

impl View for InputAction {
    type V = InputActionView;

    open spec fn view(&self) -> InputActionView {
        match self {
            InputAction::PrefixKey => InputActionView::PrefixKey,
            InputAction::ChordBinding(a) => InputActionView::ChordBinding(a@),
            InputAction::SingleStrokeBinding(a) => InputActionView::SingleStrokeBinding(a@),
            InputAction::RawInput(v) => InputActionView::RawInput(v@),
        }
    }
}

// ── InputClassifier ──────────────────────────────────────────────────────────

/// How long the prefix stays active when the bindings do not say, in milliseconds.
pub const DEFAULT_PREFIX_TIMEOUT_MS: u32 = 2000;

/// Classifies keyboard events into actions.
///
/// The caller tracks prefix state and passes `prefix_active` to `classify()`.
#[derive(Debug)]
pub struct InputClassifier {
    /// The prefix key spec (e.g. Ctrl+B).
    pub prefix: Option<KeySpec>,
    /// Prefix timeout in milliseconds.
    pub timeout_ms: u32,
    /// Chord bindings: chord key to action.
    pub chords: Vec<(ChordKey, ActionReference)>,
    /// Single-stroke bindings: key spec to action.
    pub single_strokes: Vec<(KeySpec, ActionReference)>,
}

/// The model of an [`InputClassifier`].
pub struct ClassifierView {
    pub prefix: Option<KeySpec>,
    pub timeout_ms: u32,
    pub chords: Seq<(ChordKey, ActionReferenceView)>,
    pub single_strokes: Seq<(KeySpec, ActionReferenceView)>,
}

impl View for InputClassifier {
    type V = ClassifierView;

    open spec fn view(&self) -> ClassifierView {
        ClassifierView {
            prefix: self.prefix,
            timeout_ms: self.timeout_ms,
            chords: self.chords@.map_values(|p: (ChordKey, ActionReference)| (p.0, p.1@)),
            single_strokes: self.single_strokes@.map_values(
                |p: (KeySpec, ActionReference)| (p.0, p.1@),
            ),
        }
    }
}

/// The chord table that rows of text denote: the first row that cannot be read decides.
pub open spec fn read_chords(rows: Seq<(Seq<char>, ActionReferenceView)>) -> Result<
    Seq<(ChordKey, ActionReferenceView)>,
    KeySpecErrorView,
>
    decreases rows.len(),
{
    if rows.len() == 0 {
        Ok(Seq::empty())
    } else {
        match read_chords(rows.drop_last()) {
            Err(e) => Err(e),
            Ok(v) => match parse_chord(rows.last().0) {
                Ok(c) => Ok(v.push((c, rows.last().1))),
                Err(e) => Err(e),
            },
        }
    }
}

/// The single-stroke table that rows of text denote: the first row that cannot be read decides.
pub open spec fn read_strokes(rows: Seq<(Seq<char>, ActionReferenceView)>) -> Result<
    Seq<(KeySpec, ActionReferenceView)>,
    KeySpecErrorView,
>
    decreases rows.len(),
{
    if rows.len() == 0 {
        Ok(Seq::empty())
    } else {
        match read_strokes(rows.drop_last()) {
            Err(e) => Err(e),
            Ok(v) => match parse_spec(rows.last().0) {
                Ok(c) => Ok(v.push((c, rows.last().1))),
                Err(e) => Err(e),
            },
        }
    }
}

/// The prefix key that a bindings table names, if it names one.
pub open spec fn read_prefix(prefix: Option<String>) -> Result<Option<KeySpec>, KeySpecErrorView> {
    match prefix {
        None => Ok(None),
        Some(s) => match parse_spec(s@) {
            Ok(spec) => Ok(Some(spec)),
            Err(e) => Err(e),
        },
    }
}

/// The classifier that a bindings table describes. The prefix is read first, then the chords,
/// then the single strokes.
pub open spec fn classifier_of(b: BindingsDefinition) -> Result<ClassifierView, KeySpecErrorView> {
    match read_prefix(b.prefix) {
        Err(e) => Err(e),
        Ok(prefix) => match read_chords(crate::bindings::table_view(b.chords)) {
            Err(e) => Err(e),
            Ok(chords) => match read_strokes(crate::bindings::table_view(b.keys)) {
                Err(e) => Err(e),
                Ok(single_strokes) => Ok(
                    ClassifierView {
                        prefix,
                        timeout_ms: match b.prefix_timeout {
                            Some(t) => t,
                            None => DEFAULT_PREFIX_TIMEOUT_MS,
                        },
                        chords,
                        single_strokes,
                    },
                ),
            },
        },
    }
}

/// The action of the first chord that an event matches.
pub open spec fn chord_action(
    chords: Seq<(ChordKey, ActionReferenceView)>,
    event: KeyEvent,
) -> Option<ActionReferenceView>
    decreases chords.len(),
{
    if chords.len() == 0 {
        None
    } else if chords[0].0.matches_event(event) {
        Some(chords[0].1)
    } else {
        chord_action(chords.drop_first(), event)
    }
}

/// The action of the first single-stroke binding that an event matches.
pub open spec fn stroke_action(
    strokes: Seq<(KeySpec, ActionReferenceView)>,
    event: KeyEvent,
) -> Option<ActionReferenceView>
    decreases strokes.len(),
{
    if strokes.len() == 0 {
        None
    } else if strokes[0].0.matches_event(event) {
        Some(strokes[0].1)
    } else {
        stroke_action(strokes.drop_first(), event)
    }
}

/// Whether an event is a press of the prefix key.
pub open spec fn is_prefix(c: ClassifierView, event: KeyEvent) -> bool {
    c.prefix matches Some(p) && p.matches_event(event)
}

/// The class of an event. While the prefix is active chords come first; otherwise the prefix
/// key wins over single-stroke bindings. What is not bound is raw input.
pub open spec fn class_of(c: ClassifierView, event: KeyEvent, prefix_active: bool) -> InputActionView {
    if prefix_active {
        match chord_action(c.chords, event) {
            Some(a) => InputActionView::ChordBinding(a),
            None => InputActionView::RawInput(event_bytes(event)),
        }
    } else if is_prefix(c, event) {
        InputActionView::PrefixKey
    } else {
        match stroke_action(c.single_strokes, event) {
            Some(a) => InputActionView::SingleStrokeBinding(a),
            None => InputActionView::RawInput(event_bytes(event)),
        }
    }
}

/// Reads chord rows.
fn build_chords(rows: &Vec<(String, ActionReference)>) -> (r: Result<
    Vec<(ChordKey, ActionReference)>,
    KeySpecError,
>)
    ensures
        match r {
            Ok(v) => read_chords(crate::bindings::rows_view(rows@)) == Ok::<
                Seq<(ChordKey, ActionReferenceView)>,
                KeySpecErrorView,
            >(v@.map_values(|p: (ChordKey, ActionReference)| (p.0, p.1@))),
            Err(e) => read_chords(crate::bindings::rows_view(rows@)) == Err::<
                Seq<(ChordKey, ActionReferenceView)>,
                KeySpecErrorView,
            >(e@),
        },
{
    let ghost all = crate::bindings::rows_view(rows@);
    let mut out: Vec<(ChordKey, ActionReference)> = Vec::new();
    let mut i: usize = 0;
    let ghost f = |p: (ChordKey, ActionReference)| (p.0, p.1@);
    assert(all.take(0) =~= Seq::empty());
    assert(out@.map_values(f) =~= Seq::empty());
    while i < rows.len()
        invariant
            i <= rows@.len(),
            all == crate::bindings::rows_view(rows@),
            f == (|p: (ChordKey, ActionReference)| (p.0, p.1@)),
            read_chords(all.take(i as int)) == Ok::<
                Seq<(ChordKey, ActionReferenceView)>,
                KeySpecErrorView,
            >(out@.map_values(f)),
        decreases rows.len() - i,
    {
        assert(all.take(i + 1).drop_last() =~= all.take(i as int));
        assert(all.take(i + 1).last() == all[i as int]);
        match ChordKey::parse(rows[i].0.as_str()) {
            Ok(c) => {
                let ghost before = out@;
                out.push((c, rows[i].1.clone()));
                assert(out@.map_values(f) =~= before.map_values(f).push(
                    (c, all[i as int].1),
                ));
            },
            Err(e) => {
                proof {
                    lemma_read_chords_err(all, i + 1);
                }
                return Err(e);
            },
        }
        i += 1;
    }
    assert(all.take(i as int) =~= all);
    Ok(out)
}

/// An error in the leading rows is the error of all rows.
proof fn lemma_read_chords_err(rows: Seq<(Seq<char>, ActionReferenceView)>, i: int)
    requires
        0 <= i <= rows.len(),
        read_chords(rows.take(i)) is Err,
    ensures
        read_chords(rows) == read_chords(rows.take(i)),
    decreases rows.len() - i,
{
    if i == rows.len() {
        assert(rows.take(i) =~= rows);
    } else {
        assert(rows.take(i + 1).drop_last() =~= rows.take(i));
        lemma_read_chords_err(rows, i + 1);
    }
}

/// Reads single-stroke rows.
fn build_strokes(rows: &Vec<(String, ActionReference)>) -> (r: Result<
    Vec<(KeySpec, ActionReference)>,
    KeySpecError,
>)
    ensures
        match r {
            Ok(v) => read_strokes(crate::bindings::rows_view(rows@)) == Ok::<
                Seq<(KeySpec, ActionReferenceView)>,
                KeySpecErrorView,
            >(v@.map_values(|p: (KeySpec, ActionReference)| (p.0, p.1@))),
            Err(e) => read_strokes(crate::bindings::rows_view(rows@)) == Err::<
                Seq<(KeySpec, ActionReferenceView)>,
                KeySpecErrorView,
            >(e@),
        },
{
    let ghost all = crate::bindings::rows_view(rows@);
    let mut out: Vec<(KeySpec, ActionReference)> = Vec::new();
    let mut i: usize = 0;
    let ghost f = |p: (KeySpec, ActionReference)| (p.0, p.1@);
    assert(all.take(0) =~= Seq::empty());
    assert(out@.map_values(f) =~= Seq::empty());
    while i < rows.len()
        invariant
            i <= rows@.len(),
            all == crate::bindings::rows_view(rows@),
            f == (|p: (KeySpec, ActionReference)| (p.0, p.1@)),
            read_strokes(all.take(i as int)) == Ok::<
                Seq<(KeySpec, ActionReferenceView)>,
                KeySpecErrorView,
            >(out@.map_values(f)),
        decreases rows.len() - i,
    {
        assert(all.take(i + 1).drop_last() =~= all.take(i as int));
        assert(all.take(i + 1).last() == all[i as int]);
        match KeySpec::parse(rows[i].0.as_str()) {
            Ok(c) => {
                let ghost before = out@;
                out.push((c, rows[i].1.clone()));
                assert(out@.map_values(f) =~= before.map_values(f).push(
                    (c, all[i as int].1),
                ));
            },
            Err(e) => {
                proof {
                    lemma_read_strokes_err(all, i + 1);
                }
                return Err(e);
            },
        }
        i += 1;
    }
    assert(all.take(i as int) =~= all);
    Ok(out)
}

/// An error in the leading rows is the error of all rows.
proof fn lemma_read_strokes_err(rows: Seq<(Seq<char>, ActionReferenceView)>, i: int)
    requires
        0 <= i <= rows.len(),
        read_strokes(rows.take(i)) is Err,
    ensures
        read_strokes(rows) == read_strokes(rows.take(i)),
    decreases rows.len() - i,
{
    if i == rows.len() {
        assert(rows.take(i) =~= rows);
    } else {
        assert(rows.take(i + 1).drop_last() =~= rows.take(i));
        lemma_read_strokes_err(rows, i + 1);
    }
}

impl InputClassifier {
    /// Build a classifier from a bindings table.
    pub fn from_bindings(bindings: &BindingsDefinition) -> (r: Result<
        InputClassifier,
        KeySpecError,
    >)
        ensures
            match r {
                Ok(c) => classifier_of(*bindings) == Ok::<ClassifierView, KeySpecErrorView>(c@),
                Err(e) => classifier_of(*bindings) == Err::<ClassifierView, KeySpecErrorView>(e@),
            },
    {
        let prefix = match &bindings.prefix {
            Some(s) => match KeySpec::parse(s.as_str()) {
                Ok(spec) => Some(spec),
                Err(e) => {
                    return Err(e);
                },
            },
            None => None,
        };
        let timeout_ms: u32 = match bindings.prefix_timeout {
            Some(t) => t,
            None => DEFAULT_PREFIX_TIMEOUT_MS,
        };
        let chords = match &bindings.chords {
            Some(rows) => match build_chords(rows) {
                Ok(v) => v,
                Err(e) => {
                    return Err(e);
                },
            },
            None => Vec::new(),
        };
        let single_strokes = match &bindings.keys {
            Some(rows) => match build_strokes(rows) {
                Ok(v) => v,
                Err(e) => {
                    return Err(e);
                },
            },
            None => Vec::new(),
        };
        let c = InputClassifier { prefix, timeout_ms, chords, single_strokes };
        assert(bindings.chords is None ==> c@.chords =~= Seq::empty());
        assert(bindings.keys is None ==> c@.single_strokes =~= Seq::empty());
        Ok(c)
    }

    /// The configured prefix timeout in milliseconds.
    pub fn prefix_timeout_ms(&self) -> (r: u32)
        ensures
            r == self@.timeout_ms,
    {
        self.timeout_ms
    }

    /// The parsed prefix key spec, if any.
    pub fn prefix_key(&self) -> (r: Option<&KeySpec>)
        ensures
            match r {
                Some(p) => self@.prefix == Some(*p),
                None => self@.prefix is None,
            },
    {
        self.prefix.as_ref()
    }

    /// Classify a keyboard event.
    ///
    /// `prefix_active`: whether the prefix key was previously pressed and a chord key is
    /// awaited.
    pub fn classify(&self, event: &KeyEvent, prefix_active: bool) -> (r: InputAction)
        requires
            encodable(*event),
        ensures
            r@ == class_of(self@, *event, prefix_active),
    {
        if prefix_active {
            if let Some(action) = self.find_chord(event) {
                return InputAction::ChordBinding(action.clone());
            }
        } else {
            if let Some(prefix) = &self.prefix {
                if prefix.matches(event) {
                    return InputAction::PrefixKey;
                }
            }
            if let Some(action) = self.find_single_stroke(event) {
                return InputAction::SingleStrokeBinding(action.clone());
            }
        }
        InputAction::RawInput(key_event_to_bytes(event))
    }

    /// Look up a chord binding for the given event (without full classification).
    pub fn find_chord(&self, event: &KeyEvent) -> (r: Option<&ActionReference>)
        ensures
            match r {
                Some(a) => chord_action(self@.chords, *event) == Some(a@),
                None => chord_action(self@.chords, *event) is None,
            },
    {
        let ghost all = self@.chords;
        let mut i: usize = 0;
        assert(all.skip(0) =~= all);
        while i < self.chords.len()
            invariant
                i <= self.chords@.len(),
                all == self@.chords,
                chord_action(all.skip(i as int), *event) == chord_action(all, *event),
            decreases self.chords.len() - i,
        {
            assert(all.skip(i as int)[0] == all[i as int]);
            assert(all.skip(i as int).drop_first() =~= all.skip(i + 1));
            if self.chords[i].0.matches(event) {
                return Some(&self.chords[i].1);
            }
            i += 1;
        }
        None
    }

    /// Look up a single-stroke binding for the given event.
    pub fn find_single_stroke(&self, event: &KeyEvent) -> (r: Option<&ActionReference>)
        ensures
            match r {
                Some(a) => stroke_action(self@.single_strokes, *event) == Some(a@),
                None => stroke_action(self@.single_strokes, *event) is None,
            },
    {
        let ghost all = self@.single_strokes;
        let mut i: usize = 0;
        assert(all.skip(0) =~= all);
        while i < self.single_strokes.len()
            invariant
                i <= self.single_strokes@.len(),
                all == self@.single_strokes,
                stroke_action(all.skip(i as int), *event) == stroke_action(all, *event),
            decreases self.single_strokes.len() - i,
        {
            assert(all.skip(i as int)[0] == all[i as int]);
            assert(all.skip(i as int).drop_first() =~= all.skip(i + 1));
            if self.single_strokes[i].0.matches(event) {
                return Some(&self.single_strokes[i].1);
            }
            i += 1;
        }
        None
    }
}

// ── Virtual key codes ────────────────────────────────────────────────────────

/// The key that a Win32 virtual key code stands for.
pub open spec fn vk_key(vk: u16) -> Option<KeyName> {
    if 0x41 <= vk <= 0x5A {
        Some(KeyName::Char(vk as char))
    } else if 0x30 <= vk <= 0x39 {
        Some(KeyName::Digit((vk - 0x30) as u8))
    } else if 0x70 <= vk <= 0x7B {
        Some(KeyName::F((vk - 0x6F) as u8))
    } else if vk == 0x0D {
        Some(KeyName::Enter)
    } else if vk == 0x09 {
        Some(KeyName::Tab)
    } else if vk == 0x1B {
        Some(KeyName::Escape)
    } else if vk == 0x20 {
        Some(KeyName::Space)
    } else if vk == 0x08 {
        Some(KeyName::Backspace)
    } else if vk == 0x2E {
        Some(KeyName::Delete)
    } else if vk == 0x2D {
        Some(KeyName::Insert)
    } else if vk == 0x24 {
        Some(KeyName::Home)
    } else if vk == 0x23 {
        Some(KeyName::End)
    } else if vk == 0x21 {
        Some(KeyName::PageUp)
    } else if vk == 0x22 {
        Some(KeyName::PageDown)
    } else if vk == 0x26 {
        Some(KeyName::Up)
    } else if vk == 0x28 {
        Some(KeyName::Down)
    } else if vk == 0x25 {
        Some(KeyName::Left)
    } else if vk == 0x27 {
        Some(KeyName::Right)
    } else if vk == 0xBB {
        Some(KeyName::Plus)
    } else if vk == 0xBD {
        Some(KeyName::Minus)
    } else if vk == 0xBC {
        Some(KeyName::Comma)
    } else if vk == 0xBE {
        Some(KeyName::Period)
    } else if vk == 0xBF {
        Some(KeyName::Slash)
    } else if vk == 0xDC {
        Some(KeyName::Backslash)
    } else if vk == 0xDB {
        Some(KeyName::LeftBracket)
    } else if vk == 0xDD {
        Some(KeyName::RightBracket)
    } else if vk == 0xBA {
        Some(KeyName::Semicolon)
    } else if vk == 0xDE {
        Some(KeyName::Apostrophe)
    } else if vk == 0xC0 {
        Some(KeyName::Backtick)
    } else {
        None
    }
}

/// The modifiers that are down, given the states that the keyboard reports for Ctrl, Alt and
/// Shift: a key is down where its state is negative.
pub fn current_modifiers(ctrl_state: i16, alt_state: i16, shift_state: i16) -> (r: Modifiers)
    ensures
        r.has_ctrl == (ctrl_state < 0),
        r.has_alt == (alt_state < 0),
        r.has_shift == (shift_state < 0),
{
    Modifiers { has_ctrl: ctrl_state < 0, has_alt: alt_state < 0, has_shift: shift_state < 0 }
}

/// The character that a key press produces, given the number of UTF-16 units that the keyboard
/// layout has for it and the first of them. A key that produces none, or more than one, has no
/// character, and neither has one that produces half of a pair.
pub fn vk_to_char(count: i32, unit: u16) -> (r: Option<char>)
    ensures
        r == if count == 1 && crate::text::is_scalar(unit as u32) {
            Some(unit as char)
        } else {
            None
        },
{
    if count == 1 {
        char::from_u32(unit as u32)
    } else {
        None
    }
}

/// Map a Win32 virtual key code to a `KeyName`.
///
/// Returns `None` for keys that are not handled (modifier-only keys, etc.). Punctuation follows
/// the US layout.
pub fn vk_to_key_name(vk: u16) -> (r: Option<KeyName>)
    ensures
        r == vk_key(vk),
{
    match vk {
        0x41..=0x5A => Some(KeyName::Char((vk as u8) as char)),
        0x30..=0x39 => Some(KeyName::Digit((vk - 0x30) as u8)),
        0x70..=0x7B => Some(KeyName::F((vk - 0x70 + 1) as u8)),
        0x0D => Some(KeyName::Enter),
        0x09 => Some(KeyName::Tab),
        0x1B => Some(KeyName::Escape),
        0x20 => Some(KeyName::Space),
        0x08 => Some(KeyName::Backspace),
        0x2E => Some(KeyName::Delete),
        0x2D => Some(KeyName::Insert),
        0x24 => Some(KeyName::Home),
        0x23 => Some(KeyName::End),
        0x21 => Some(KeyName::PageUp),
        0x22 => Some(KeyName::PageDown),
        0x26 => Some(KeyName::Up),
        0x28 => Some(KeyName::Down),
        0x25 => Some(KeyName::Left),
        0x27 => Some(KeyName::Right),
        0xBB => Some(KeyName::Plus),
        0xBD => Some(KeyName::Minus),
        0xBC => Some(KeyName::Comma),
        0xBE => Some(KeyName::Period),
        0xBF => Some(KeyName::Slash),
        0xDC => Some(KeyName::Backslash),
        0xDB => Some(KeyName::LeftBracket),
        0xDD => Some(KeyName::RightBracket),
        0xBA => Some(KeyName::Semicolon),
        0xDE => Some(KeyName::Apostrophe),
        0xC0 => Some(KeyName::Backtick),
        _ => None,
    }
}

// ── Laws ─────────────────────────────────────────────────────────────────────

/// Whatever a text names is a valid key.
pub proof fn law_parsed_keys_are_valid(s: Seq<char>)
    ensures
        parse_key(s) matches Ok(k) ==> valid_key(k),
{
}

/// Whatever a virtual key code stands for is a valid key.
pub proof fn law_vk_keys_are_valid(vk: u16)
    ensures
        vk_key(vk) matches Some(k) ==> valid_key(k),
{
}

/// Every event of a valid key has bytes.
pub proof fn law_valid_keys_are_encodable(event: KeyEvent)
    requires
        valid_key(event.key),
    ensures
        encodable(event),
{
}

/// Ctrl and a letter give the letter's position in the alphabet, with Shift or without.
pub proof fn law_ctrl_letter_is_control_code(c: char, shift: bool, character: Option<char>)
    requires
        crate::text::is_upper(c),
    ensures
        event_bytes(
            KeyEvent { key: KeyName::Char(c), modifiers: mods(true, false, shift), character },
        ) == seq![(c as u32 - 64) as u8],
{
}

/// The prefix key wins over any single-stroke binding of the same key.
pub proof fn law_prefix_wins(c: ClassifierView, event: KeyEvent)
    requires
        is_prefix(c, event),
    ensures
        class_of(c, event, false) == InputActionView::PrefixKey,
{
}

/// While the prefix is active, neither the prefix key nor single-stroke bindings are looked at.
pub proof fn law_only_chords_while_active(c: ClassifierView, d: ClassifierView, event: KeyEvent)
    requires
        c.chords == d.chords,
    ensures
        class_of(c, event, true) == class_of(d, event, true),
        !(class_of(c, event, true) is PrefixKey),
        !(class_of(c, event, true) is SingleStrokeBinding),
{
}

/// A key that nothing binds passes through as raw input.
pub proof fn law_unbound_passes_through(c: ClassifierView, event: KeyEvent, prefix_active: bool)
    requires
        chord_action(c.chords, event) is None,
        stroke_action(c.single_strokes, event) is None,
        !is_prefix(c, event),
    ensures
        class_of(c, event, prefix_active) == InputActionView::RawInput(event_bytes(event)),
{
}


/// What the words of the key grammar are made of.
proof fn lemma_words()
    ensures
        "enter"@ == seq!['e', 'n', 't', 'e', 'r'],
        "tab"@ == seq!['t', 'a', 'b'],
        "escape"@ == seq!['e', 's', 'c', 'a', 'p', 'e'],
        "space"@ == seq!['s', 'p', 'a', 'c', 'e'],
        "backspace"@ == seq!['b', 'a', 'c', 'k', 's', 'p', 'a', 'c', 'e'],
        "delete"@ == seq!['d', 'e', 'l', 'e', 't', 'e'],
        "insert"@ == seq!['i', 'n', 's', 'e', 'r', 't'],
        "home"@ == seq!['h', 'o', 'm', 'e'],
        "end"@ == seq!['e', 'n', 'd'],
        "pageup"@ == seq!['p', 'a', 'g', 'e', 'u', 'p'],
        "pagedown"@ == seq!['p', 'a', 'g', 'e', 'd', 'o', 'w', 'n'],
        "up"@ == seq!['u', 'p'],
        "down"@ == seq!['d', 'o', 'w', 'n'],
        "left"@ == seq!['l', 'e', 'f', 't'],
        "right"@ == seq!['r', 'i', 'g', 'h', 't'],
        "plus"@ == seq!['p', 'l', 'u', 's'],
        "minus"@ == seq!['m', 'i', 'n', 'u', 's'],
        "ctrl"@ == seq!['c', 't', 'r', 'l'],
        "alt"@ == seq!['a', 'l', 't'],
        "shift"@ == seq!['s', 'h', 'i', 'f', 't'],
{
    reveal_strlit("enter");
    reveal_strlit("tab");
    reveal_strlit("escape");
    reveal_strlit("space");
    reveal_strlit("backspace");
    reveal_strlit("delete");
    reveal_strlit("insert");
    reveal_strlit("home");
    reveal_strlit("end");
    reveal_strlit("pageup");
    reveal_strlit("pagedown");
    reveal_strlit("up");
    reveal_strlit("down");
    reveal_strlit("left");
    reveal_strlit("right");
    reveal_strlit("plus");
    reveal_strlit("minus");
    reveal_strlit("ctrl");
    reveal_strlit("alt");
    reveal_strlit("shift");
    assert("enter"@ =~= seq!['e', 'n', 't', 'e', 'r']);
    assert("tab"@ =~= seq!['t', 'a', 'b']);
    assert("escape"@ =~= seq!['e', 's', 'c', 'a', 'p', 'e']);
    assert("space"@ =~= seq!['s', 'p', 'a', 'c', 'e']);
    assert("backspace"@ =~= seq!['b', 'a', 'c', 'k', 's', 'p', 'a', 'c', 'e']);
    assert("delete"@ =~= seq!['d', 'e', 'l', 'e', 't', 'e']);
    assert("insert"@ =~= seq!['i', 'n', 's', 'e', 'r', 't']);
    assert("home"@ =~= seq!['h', 'o', 'm', 'e']);
    assert("end"@ =~= seq!['e', 'n', 'd']);
    assert("pageup"@ =~= seq!['p', 'a', 'g', 'e', 'u', 'p']);
    assert("pagedown"@ =~= seq!['p', 'a', 'g', 'e', 'd', 'o', 'w', 'n']);
    assert("up"@ =~= seq!['u', 'p']);
    assert("down"@ =~= seq!['d', 'o', 'w', 'n']);
    assert("left"@ =~= seq!['l', 'e', 'f', 't']);
    assert("right"@ =~= seq!['r', 'i', 'g', 'h', 't']);
    assert("plus"@ =~= seq!['p', 'l', 'u', 's']);
    assert("minus"@ =~= seq!['m', 'i', 'n', 'u', 's']);
    assert("ctrl"@ =~= seq!['c', 't', 'r', 'l']);
    assert("alt"@ =~= seq!['a', 'l', 't']);
    assert("shift"@ =~= seq!['s', 'h', 'i', 'f', 't']);
}


/// The text of a word key reads back as the key.
proof fn lemma_word_text_reads_back(k: KeyName)
    requires
        k == KeyName::Enter
            || k == KeyName::Tab
            || k == KeyName::Escape
            || k == KeyName::Space
            || k == KeyName::Backspace
            || k == KeyName::Delete
            || k == KeyName::Insert
            || k == KeyName::Home
            || k == KeyName::End
            || k == KeyName::PageUp
            || k == KeyName::PageDown
            || k == KeyName::Up
            || k == KeyName::Down
            || k == KeyName::Left
            || k == KeyName::Right
            || k == KeyName::Plus
            || k == KeyName::Minus,
    ensures
        parse_key(key_text(k)) == Ok::<KeyName, KeySpecErrorView>(k),
        modifier_of(key_text(k)) is None,
        !key_text(k).contains('+'),
{
    lemma_words();
    let t = key_text(k);
    let w = crate::text::lower_text(t);
    if k == KeyName::Enter {
        reveal_strlit("Enter");
        assert(w =~= "enter"@);
    } else if k == KeyName::Tab {
        reveal_strlit("Tab");
        assert(w =~= "tab"@);
    } else if k == KeyName::Escape {
        reveal_strlit("Escape");
        assert(w =~= "escape"@);
    } else if k == KeyName::Space {
        reveal_strlit("Space");
        assert(w =~= "space"@);
    } else if k == KeyName::Backspace {
        reveal_strlit("Backspace");
        assert(w =~= "backspace"@);
    } else if k == KeyName::Delete {
        reveal_strlit("Delete");
        assert(w =~= "delete"@);
    } else if k == KeyName::Insert {
        reveal_strlit("Insert");
        assert(w =~= "insert"@);
    } else if k == KeyName::Home {
        reveal_strlit("Home");
        assert(w =~= "home"@);
    } else if k == KeyName::End {
        reveal_strlit("End");
        assert(w =~= "end"@);
    } else if k == KeyName::PageUp {
        reveal_strlit("PageUp");
        assert(w =~= "pageup"@);
    } else if k == KeyName::PageDown {
        reveal_strlit("PageDown");
        assert(w =~= "pagedown"@);
    } else if k == KeyName::Up {
        reveal_strlit("Up");
        assert(w =~= "up"@);
    } else if k == KeyName::Down {
        reveal_strlit("Down");
        assert(w =~= "down"@);
    } else if k == KeyName::Left {
        reveal_strlit("Left");
        assert(w =~= "left"@);
    } else if k == KeyName::Right {
        reveal_strlit("Right");
        assert(w =~= "right"@);
    } else if k == KeyName::Plus {
        reveal_strlit("Plus");
        assert(w =~= "plus"@);
    } else if k == KeyName::Minus {
        reveal_strlit("Minus");
        assert(w =~= "minus"@);
    }
    assert(forall|i: int| 0 <= i < t.len() ==> t[i] != '+');
}

/// The text of a punctuation key reads back as the key.
proof fn lemma_mark_text_reads_back(k: KeyName)
    requires
        valid_key(k),
        !(k is Char) && !(k is Digit) && !(k is F),
        k != KeyName::Enter,
        k != KeyName::Tab,
        k != KeyName::Escape,
        k != KeyName::Space,
        k != KeyName::Backspace,
        k != KeyName::Delete,
        k != KeyName::Insert,
        k != KeyName::Home,
        k != KeyName::End,
        k != KeyName::PageUp,
        k != KeyName::PageDown,
        k != KeyName::Up,
        k != KeyName::Down,
        k != KeyName::Left,
        k != KeyName::Right,
        k != KeyName::Plus,
        k != KeyName::Minus,
    ensures
        parse_key(key_text(k)) == Ok::<KeyName, KeySpecErrorView>(k),
        modifier_of(key_text(k)) is None,
        !key_text(k).contains('+'),
{
    lemma_words();
    reveal_strlit("%");
    reveal_strlit("\"");
    reveal_strlit(",");
    reveal_strlit(".");
    reveal_strlit("/");
    reveal_strlit("\\");
    reveal_strlit("[");
    reveal_strlit("]");
    reveal_strlit(";");
    reveal_strlit("'");
    reveal_strlit("`");
    let t = key_text(k);
    assert(t.len() == 1);
    assert(crate::text::lower_text(t).len() == 1);
    assert(forall|i: int| 0 <= i < t.len() ==> t[i] != '+');
}

/// The text of a letter, digit or function key reads back as the key.
proof fn lemma_char_text_reads_back(k: KeyName)
    requires
        valid_key(k),
        k is Char || k is Digit || k is F,
    ensures
        parse_key(key_text(k)) == Ok::<KeyName, KeySpecErrorView>(k),
        modifier_of(key_text(k)) is None,
        !key_text(k).contains('+'),
{
    lemma_words();
    let t = key_text(k);
    let w = crate::text::lower_text(t);
    assert(w.len() == t.len());
    match k {
        KeyName::F(n) => {
            crate::text::lemma_decimal_value(n as nat);
            assert(t[0] == 'F');
            assert(w[0] == 'f');
            assert(t.skip(1) =~= crate::text::decimal(n as nat));
            assert forall|i: int| 0 <= i < t.len() implies t[i] != '+' by {
                if i > 0 {
                    assert(crate::text::is_digit(crate::text::decimal(n as nat)[i - 1]));
                }
            }
        },
        _ => {
            assert(t.len() == 1);
            assert(forall|i: int| 0 <= i < t.len() ==> t[i] != '+');
        },
    }
}

/// The text of a key reads back as the key, and holds nothing that the key spec grammar would
/// take for something else.
pub proof fn law_key_text_reads_back(k: KeyName)
    requires
        valid_key(k),
    ensures
        parse_key(key_text(k)) == Ok::<KeyName, KeySpecErrorView>(k),
        modifier_of(key_text(k)) is None,
        !key_text(k).contains('+'),
{
    if k is Char || k is Digit || k is F {
        lemma_char_text_reads_back(k);
    } else if key_text(k).len() == 1 {
        reveal_strlit("Enter");
        reveal_strlit("Tab");
        reveal_strlit("Escape");
        reveal_strlit("Space");
        reveal_strlit("Backspace");
        reveal_strlit("Delete");
        reveal_strlit("Insert");
        reveal_strlit("Home");
        reveal_strlit("End");
        reveal_strlit("PageUp");
        reveal_strlit("PageDown");
        reveal_strlit("Up");
        reveal_strlit("Down");
        reveal_strlit("Left");
        reveal_strlit("Right");
        reveal_strlit("Plus");
        reveal_strlit("Minus");
        lemma_mark_text_reads_back(k);
    } else {
        reveal_strlit("%");
        reveal_strlit("\"");
        reveal_strlit(",");
        reveal_strlit(".");
        reveal_strlit("/");
        reveal_strlit("\\");
        reveal_strlit("[");
        reveal_strlit("]");
        reveal_strlit(";");
        reveal_strlit("'");
        reveal_strlit("`");
        lemma_word_text_reads_back(k);
    }
}

/// Reading a modifier segment and then the rest.
proof fn lemma_modifier_segment(name: Seq<char>, m: Modifiers, rest: Seq<char>, acc: Modifiers)
    requires
        !name.contains('+'),
        modifier_of(name) == Some(m),
    ensures
        spec_of_parts(crate::text::split_on(name.push('+') + rest, '+'), acc) == spec_of_parts(
            crate::text::split_on(rest, '+'),
            acc.union(m),
        ),
{
    crate::text::lemma_split_concat(name, '+', rest);
    crate::text::lemma_split_single(name, '+');
    let parts = crate::text::split_on(name.push('+') + rest, '+');
    assert(parts[0] == name);
    assert(parts.drop_first() =~= crate::text::split_on(rest, '+'));
}

/// The text of a key spec reads back as the key spec.
pub proof fn law_spec_text_reads_back(spec: KeySpec)
    requires
        valid_key(spec.key),
    ensures
        parse_spec(spec_text(spec)) == Ok::<KeySpec, KeySpecErrorView>(spec),
{
    lemma_words();
    law_key_text_reads_back(spec.key);
    let key = key_text(spec.key);
    crate::text::lemma_split_single(key, '+');
    assert(key.len() > 0) by {
        if key.len() == 0 {
            assert(key =~= Seq::<char>::empty());
            assert(crate::text::lower_text(key) =~= Seq::<char>::empty());
        }
    }
    reveal_strlit("Ctrl+");
    reveal_strlit("Alt+");
    reveal_strlit("Shift+");
    let ctrl = seq!['C', 't', 'r', 'l'];
    let alt = seq!['A', 'l', 't'];
    let shift = seq!['S', 'h', 'i', 'f', 't'];
    assert(crate::text::lower_text(ctrl) =~= "ctrl"@);
    assert(crate::text::lower_text(alt) =~= "alt"@);
    assert(crate::text::lower_text(shift) =~= "shift"@);
    assert("Ctrl+"@ =~= ctrl.push('+'));
    assert("Alt+"@ =~= alt.push('+'));
    assert("Shift+"@ =~= shift.push('+'));
    let m = spec.modifiers;
    let t0 = key;
    let t1 = if m.has_shift {
        shift.push('+') + t0
    } else {
        t0
    };
    let t2 = if m.has_alt {
        alt.push('+') + t1
    } else {
        t1
    };
    let t3 = if m.has_ctrl {
        ctrl.push('+') + t2
    } else {
        t2
    };
    assert(spec_text(spec) =~= t3);
    let a0 = mods(false, false, false);
    let a1 = mods(m.has_ctrl, false, false);
    let a2 = mods(m.has_ctrl, m.has_alt, false);
    if m.has_ctrl {
        lemma_modifier_segment(ctrl, mods(true, false, false), t2, a0);
    }
    if m.has_alt {
        lemma_modifier_segment(alt, mods(false, true, false), t1, a1);
    }
    if m.has_shift {
        lemma_modifier_segment(shift, mods(false, false, true), t0, a2);
    }
    assert(crate::text::split_on(t0, '+') == seq![key]);
}

/// The case of letters does not matter in a key name.
pub proof fn law_key_case_does_not_matter(s: Seq<char>)
    ensures
        key_of_text(crate::text::lower_text(s)) == key_of_text(s),
{
    let w = crate::text::lower_text(s);
    assert(crate::text::lower_text(w) =~= w);
    if s.len() == 1 {
    } else {
        if s.len() >= 2 {
            assert(w[0] == crate::text::lower_char(s[0]));
            if crate::text::all_digits(s.skip(1)) {
                assert(w.skip(1) =~= s.skip(1)) by {
                    assert forall|i: int| 0 <= i < s.len() - 1 implies w.skip(1)[i] == s.skip(
                        1,
                    )[i] by {
                        assert(crate::text::is_digit(s.skip(1)[i]));
                    }
                }
            } else {
                let i = choose|i: int|
                    0 <= i < s.len() - 1 && !crate::text::is_digit(#[trigger] s.skip(1)[i]);
                assert(!crate::text::is_digit(w.skip(1)[i]));
            }
        }
    }
}

/// The key that a character stands for sends the character.
pub proof fn lemma_text_key_bytes(c: char)
    ensures
        text_key(c) matches Some(e) ==> event_bytes(e) == encode_scalar(c as u32),
{
    if c == ' ' {
        assert(encode_scalar(32u32) =~= seq![0x20u8]) by {
            assert(0x20u32 & 0x7F == 0x20) by (bit_vector);
        }
    }
}

/// The event of a key that is pressed with the given modifiers.
pub open spec fn pressed(key: KeyName, m: Modifiers, character: Option<char>) -> KeyEvent {
    KeyEvent { key, modifiers: m, character }
}

/// What each key without a character of its own sends when it is pressed alone.
pub proof fn law_plain_special_keys(c: Option<char>)
    ensures
        ({
            let none = mods(false, false, false);
            &&& event_bytes(pressed(KeyName::Up, none, c)) == seq![0x1Bu8, 0x5B, 0x41]
            &&& event_bytes(pressed(KeyName::Down, none, c)) == seq![0x1Bu8, 0x5B, 0x42]
            &&& event_bytes(pressed(KeyName::Right, none, c)) == seq![0x1Bu8, 0x5B, 0x43]
            &&& event_bytes(pressed(KeyName::Left, none, c)) == seq![0x1Bu8, 0x5B, 0x44]
            &&& event_bytes(pressed(KeyName::Home, none, c)) == seq![0x1Bu8, 0x5B, 0x48]
            &&& event_bytes(pressed(KeyName::End, none, c)) == seq![0x1Bu8, 0x5B, 0x46]
            &&& event_bytes(pressed(KeyName::Insert, none, c)) == seq![0x1Bu8, 0x5B, 0x32, 0x7E]
            &&& event_bytes(pressed(KeyName::Delete, none, c)) == seq![0x1Bu8, 0x5B, 0x33, 0x7E]
            &&& event_bytes(pressed(KeyName::PageUp, none, c)) == seq![0x1Bu8, 0x5B, 0x35, 0x7E]
            &&& event_bytes(pressed(KeyName::PageDown, none, c)) == seq![0x1Bu8, 0x5B, 0x36, 0x7E]
            &&& event_bytes(pressed(KeyName::F(5), none, c)) == seq![0x1Bu8, 0x5B, 0x31, 0x35, 0x7E]
            &&& event_bytes(pressed(KeyName::F(6), none, c)) == seq![0x1Bu8, 0x5B, 0x31, 0x37, 0x7E]
            &&& event_bytes(pressed(KeyName::F(7), none, c)) == seq![0x1Bu8, 0x5B, 0x31, 0x38, 0x7E]
            &&& event_bytes(pressed(KeyName::F(8), none, c)) == seq![0x1Bu8, 0x5B, 0x31, 0x39, 0x7E]
            &&& event_bytes(pressed(KeyName::F(9), none, c)) == seq![0x1Bu8, 0x5B, 0x32, 0x30, 0x7E]
            &&& event_bytes(pressed(KeyName::F(10), none, c)) == seq![0x1Bu8, 0x5B, 0x32, 0x31, 0x7E]
            &&& event_bytes(pressed(KeyName::F(11), none, c)) == seq![0x1Bu8, 0x5B, 0x32, 0x33, 0x7E]
            &&& event_bytes(pressed(KeyName::F(12), none, c)) == seq![0x1Bu8, 0x5B, 0x32, 0x34, 0x7E]
            &&& event_bytes(pressed(KeyName::F(1), none, c)) == seq![0x1Bu8, 0x4F, 0x50]
            &&& event_bytes(pressed(KeyName::F(2), none, c)) == seq![0x1Bu8, 0x4F, 0x51]
            &&& event_bytes(pressed(KeyName::F(3), none, c)) == seq![0x1Bu8, 0x4F, 0x52]
            &&& event_bytes(pressed(KeyName::F(4), none, c)) == seq![0x1Bu8, 0x4F, 0x53]
            &&& event_bytes(pressed(KeyName::Enter, none, c)) == seq![0x0Du8]
            &&& event_bytes(pressed(KeyName::Tab, none, c)) == seq![0x09u8]
            &&& event_bytes(pressed(KeyName::Escape, none, c)) == seq![0x1Bu8]
            &&& event_bytes(pressed(KeyName::Space, none, c)) == seq![0x20u8]
            &&& event_bytes(pressed(KeyName::Backspace, none, c)) == seq![0x7Fu8]
        }),
{
    let none = mods(false, false, false);
    lemma_small_decimal_bytes(2);
    lemma_small_decimal_bytes(3);
    lemma_small_decimal_bytes(5);
    lemma_small_decimal_bytes(6);
    lemma_small_decimal_bytes(15);
    lemma_small_decimal_bytes(17);
    lemma_small_decimal_bytes(18);
    lemma_small_decimal_bytes(19);
    lemma_small_decimal_bytes(20);
    lemma_small_decimal_bytes(21);
    lemma_small_decimal_bytes(23);
    lemma_small_decimal_bytes(24);
    assert(event_bytes(pressed(KeyName::Insert, none, c)) =~= seq![0x1Bu8, 0x5B, 0x32, 0x7E]);
    assert(event_bytes(pressed(KeyName::Delete, none, c)) =~= seq![0x1Bu8, 0x5B, 0x33, 0x7E]);
    assert(event_bytes(pressed(KeyName::PageUp, none, c)) =~= seq![0x1Bu8, 0x5B, 0x35, 0x7E]);
    assert(event_bytes(pressed(KeyName::PageDown, none, c)) =~= seq![0x1Bu8, 0x5B, 0x36, 0x7E]);
    assert(event_bytes(pressed(KeyName::F(5), none, c)) =~= seq![0x1Bu8, 0x5B, 0x31, 0x35, 0x7E]);
    assert(event_bytes(pressed(KeyName::F(6), none, c)) =~= seq![0x1Bu8, 0x5B, 0x31, 0x37, 0x7E]);
    assert(event_bytes(pressed(KeyName::F(7), none, c)) =~= seq![0x1Bu8, 0x5B, 0x31, 0x38, 0x7E]);
    assert(event_bytes(pressed(KeyName::F(8), none, c)) =~= seq![0x1Bu8, 0x5B, 0x31, 0x39, 0x7E]);
    assert(event_bytes(pressed(KeyName::F(9), none, c)) =~= seq![0x1Bu8, 0x5B, 0x32, 0x30, 0x7E]);
    assert(event_bytes(pressed(KeyName::F(10), none, c)) =~= seq![0x1Bu8, 0x5B, 0x32, 0x31, 0x7E]);
    assert(event_bytes(pressed(KeyName::F(11), none, c)) =~= seq![0x1Bu8, 0x5B, 0x32, 0x33, 0x7E]);
    assert(event_bytes(pressed(KeyName::F(12), none, c)) =~= seq![0x1Bu8, 0x5B, 0x32, 0x34, 0x7E]);
}

proof fn lemma_small_decimal_bytes(n: nat)
    requires
        n < 100,
    ensures
        n < 10 ==> crate::text::decimal_bytes(n) == seq![(48 + n) as u8],
        n >= 10 ==> crate::text::decimal_bytes(n) == seq![(48 + n / 10) as u8, (48 + n % 10) as u8],
{
    reveal_with_fuel(crate::text::decimal_bytes, 3);
    if n >= 10 {
        assert(crate::text::decimal_bytes(n) =~= seq![(48 + n / 10) as u8, (48 + n % 10) as u8]);
    }
}

/// What the keys that move and the first function keys send when they are pressed with modifiers.
/// The modifiers stand in the sequence as a digit, one more than the sum of one for Shift, two for Alt
/// and four for Ctrl. In front of the sequence an ESC stands for Alt, but for Right with Alt alone.
pub proof fn law_modified_moves(m: Modifiers, c: Option<char>)
    requires
        m.has_ctrl || m.has_alt || m.has_shift,
    ensures
        ({
            let digit = (0x31 + (if m.has_shift { 1int } else { 0 }) + (if m.has_alt { 2int } else {
                0
            }) + (if m.has_ctrl { 4int } else { 0 })) as u8;
            let esc = if m.has_alt { seq![0x1Bu8] } else { Seq::empty() };
            let right = if m.has_ctrl || m.has_shift { esc } else { Seq::empty() };
            &&& event_bytes(pressed(KeyName::Up, m, c)) == esc + seq![
                0x1Bu8,
                0x5B,
                0x31,
                0x3B,
                digit,
                0x41,
            ]
            &&& event_bytes(pressed(KeyName::Down, m, c)) == esc + seq![
                0x1Bu8,
                0x5B,
                0x31,
                0x3B,
                digit,
                0x42,
            ]
            &&& event_bytes(pressed(KeyName::Right, m, c)) == right + seq![
                0x1Bu8,
                0x5B,
                0x31,
                0x3B,
                digit,
                0x43,
            ]
            &&& event_bytes(pressed(KeyName::Left, m, c)) == esc + seq![
                0x1Bu8,
                0x5B,
                0x31,
                0x3B,
                digit,
                0x44,
            ]
            &&& event_bytes(pressed(KeyName::Home, m, c)) == esc + seq![
                0x1Bu8,
                0x5B,
                0x31,
                0x3B,
                digit,
                0x48,
            ]
            &&& event_bytes(pressed(KeyName::End, m, c)) == esc + seq![
                0x1Bu8,
                0x5B,
                0x31,
                0x3B,
                digit,
                0x46,
            ]
            &&& event_bytes(pressed(KeyName::F(1), m, c)) == esc + seq![
                0x1Bu8,
                0x5B,
                0x31,
                0x3B,
                digit,
                0x50,
            ]
            &&& event_bytes(pressed(KeyName::F(2), m, c)) == esc + seq![
                0x1Bu8,
                0x5B,
                0x31,
                0x3B,
                digit,
                0x51,
            ]
            &&& event_bytes(pressed(KeyName::F(3), m, c)) == esc + seq![
                0x1Bu8,
                0x5B,
                0x31,
                0x3B,
                digit,
                0x52,
            ]
            &&& event_bytes(pressed(KeyName::F(4), m, c)) == esc + seq![
                0x1Bu8,
                0x5B,
                0x31,
                0x3B,
                digit,
                0x53,
            ]
        }),
{
    let p = mod_param_of(m);
    lemma_final_with_modifiers(0x41, p);
    lemma_escaped(KeyName::Up, m, c, csi_key_bytes(0x41, p, true));
    lemma_final_with_modifiers(0x42, p);
    lemma_escaped(KeyName::Down, m, c, csi_key_bytes(0x42, p, true));
    lemma_final_with_modifiers(0x43, p);
    lemma_escaped(KeyName::Right, m, c, csi_key_bytes(0x43, p, true));
    lemma_final_with_modifiers(0x44, p);
    lemma_escaped(KeyName::Left, m, c, csi_key_bytes(0x44, p, true));
    lemma_final_with_modifiers(0x48, p);
    lemma_escaped(KeyName::Home, m, c, csi_key_bytes(0x48, p, true));
    lemma_final_with_modifiers(0x46, p);
    lemma_escaped(KeyName::End, m, c, csi_key_bytes(0x46, p, true));
    lemma_final_with_modifiers(0x50, p);
    lemma_escaped(KeyName::F(1), m, c, csi_key_bytes(0x50, p, true));
    lemma_final_with_modifiers(0x51, p);
    lemma_escaped(KeyName::F(2), m, c, csi_key_bytes(0x51, p, true));
    lemma_final_with_modifiers(0x52, p);
    lemma_escaped(KeyName::F(3), m, c, csi_key_bytes(0x52, p, true));
    lemma_final_with_modifiers(0x53, p);
    lemma_escaped(KeyName::F(4), m, c, csi_key_bytes(0x53, p, true));
}

/// What the editing keys, the paging keys and the other function keys send when they are pressed with
/// modifiers.
/// The modifiers stand in the sequence as a digit, one more than the sum of one for Shift, two for Alt
/// and four for Ctrl. In front of the sequence an ESC stands for Alt.
pub proof fn law_modified_special_keys(m: Modifiers, c: Option<char>)
    requires
        m.has_ctrl || m.has_alt || m.has_shift,
    ensures
        ({
            let digit = (0x31 + (if m.has_shift { 1int } else { 0 }) + (if m.has_alt { 2int } else {
                0
            }) + (if m.has_ctrl { 4int } else { 0 })) as u8;
            let esc = if m.has_alt { seq![0x1Bu8] } else { Seq::empty() };
            &&& event_bytes(pressed(KeyName::Insert, m, c)) == esc + seq![
                0x1Bu8,
                0x5B,
                0x32,
                0x3B,
                digit,
                0x7E,
            ]
            &&& event_bytes(pressed(KeyName::Delete, m, c)) == esc + seq![
                0x1Bu8,
                0x5B,
                0x33,
                0x3B,
                digit,
                0x7E,
            ]
            &&& event_bytes(pressed(KeyName::PageUp, m, c)) == esc + seq![
                0x1Bu8,
                0x5B,
                0x35,
                0x3B,
                digit,
                0x7E,
            ]
            &&& event_bytes(pressed(KeyName::PageDown, m, c)) == esc + seq![
                0x1Bu8,
                0x5B,
                0x36,
                0x3B,
                digit,
                0x7E,
            ]
            &&& event_bytes(pressed(KeyName::F(5), m, c)) == esc + seq![
                0x1Bu8,
                0x5B,
                0x31,
                0x35,
                0x3B,
                digit,
                0x7E,
            ]
            &&& event_bytes(pressed(KeyName::F(6), m, c)) == esc + seq![
                0x1Bu8,
                0x5B,
                0x31,
                0x37,
                0x3B,
                digit,
                0x7E,
            ]
            &&& event_bytes(pressed(KeyName::F(7), m, c)) == esc + seq![
                0x1Bu8,
                0x5B,
                0x31,
                0x38,
                0x3B,
                digit,
                0x7E,
            ]
            &&& event_bytes(pressed(KeyName::F(8), m, c)) == esc + seq![
                0x1Bu8,
                0x5B,
                0x31,
                0x39,
                0x3B,
                digit,
                0x7E,
            ]
            &&& event_bytes(pressed(KeyName::F(9), m, c)) == esc + seq![
                0x1Bu8,
                0x5B,
                0x32,
                0x30,
                0x3B,
                digit,
                0x7E,
            ]
            &&& event_bytes(pressed(KeyName::F(10), m, c)) == esc + seq![
                0x1Bu8,
                0x5B,
                0x32,
                0x31,
                0x3B,
                digit,
                0x7E,
            ]
            &&& event_bytes(pressed(KeyName::F(11), m, c)) == esc + seq![
                0x1Bu8,
                0x5B,
                0x32,
                0x33,
                0x3B,
                digit,
                0x7E,
            ]
            &&& event_bytes(pressed(KeyName::F(12), m, c)) == esc + seq![
                0x1Bu8,
                0x5B,
                0x32,
                0x34,
                0x3B,
                digit,
                0x7E,
            ]
        }),
{
    let p = mod_param_of(m);
    lemma_number_with_modifiers(2, p);
    lemma_escaped(KeyName::Insert, m, c, csi_tilde_bytes(2, p, true));
    lemma_number_with_modifiers(3, p);
    lemma_escaped(KeyName::Delete, m, c, csi_tilde_bytes(3, p, true));
    lemma_number_with_modifiers(5, p);
    lemma_escaped(KeyName::PageUp, m, c, csi_tilde_bytes(5, p, true));
    lemma_number_with_modifiers(6, p);
    lemma_escaped(KeyName::PageDown, m, c, csi_tilde_bytes(6, p, true));
    lemma_number_with_modifiers(15, p);
    lemma_escaped(KeyName::F(5), m, c, csi_tilde_bytes(15, p, true));
    lemma_number_with_modifiers(17, p);
    lemma_escaped(KeyName::F(6), m, c, csi_tilde_bytes(17, p, true));
    lemma_number_with_modifiers(18, p);
    lemma_escaped(KeyName::F(7), m, c, csi_tilde_bytes(18, p, true));
    lemma_number_with_modifiers(19, p);
    lemma_escaped(KeyName::F(8), m, c, csi_tilde_bytes(19, p, true));
    lemma_number_with_modifiers(20, p);
    lemma_escaped(KeyName::F(9), m, c, csi_tilde_bytes(20, p, true));
    lemma_number_with_modifiers(21, p);
    lemma_escaped(KeyName::F(10), m, c, csi_tilde_bytes(21, p, true));
    lemma_number_with_modifiers(23, p);
    lemma_escaped(KeyName::F(11), m, c, csi_tilde_bytes(23, p, true));
    lemma_number_with_modifiers(24, p);
    lemma_escaped(KeyName::F(12), m, c, csi_tilde_bytes(24, p, true));
}

/// What Enter sends when it is pressed with modifiers: its code and the modifiers, without an ESC for
/// Alt.
pub proof fn law_modified_enter(m: Modifiers, c: Option<char>)
    requires
        m.has_ctrl || m.has_alt || m.has_shift,
    ensures
        ({
            let digit = (0x31 + (if m.has_shift { 1int } else { 0 }) + (if m.has_alt { 2int } else {
                0
            }) + (if m.has_ctrl { 4int } else { 0 })) as u8;
            event_bytes(pressed(KeyName::Enter, m, c)) == seq![
                0x1Bu8,
                0x5B,
                0x31,
                0x33,
                0x3B,
                digit,
                0x75,
            ]
        }),
{
    let p = mod_param_of(m);
    lemma_small_decimal_bytes(p);
    lemma_small_decimal_bytes(13);
    assert(csi_u_bytes(13, p) =~= seq![
        0x1Bu8,
        0x5B,
        0x31,
        0x33,
        0x3B,
        (0x30 + p) as u8,
        0x75,
    ]);
}

proof fn lemma_final_with_modifiers(final_byte: u8, p: nat)
    requires
        p < 10,
    ensures
        csi_key_bytes(final_byte, p, true) == seq![
            0x1Bu8,
            0x5B,
            0x31,
            0x3B,
            (0x30 + p) as u8,
            final_byte,
        ],
{
    lemma_small_decimal_bytes(p);
    assert(csi_key_bytes(final_byte, p, true) =~= seq![
        0x1Bu8,
        0x5B,
        0x31,
        0x3B,
        (0x30 + p) as u8,
        final_byte,
    ]);
}

proof fn lemma_number_with_modifiers(n: nat, p: nat)
    requires
        n < 100,
        p < 10,
    ensures
        n < 10 ==> csi_tilde_bytes(n, p, true) == seq![
            0x1Bu8,
            0x5B,
            (48 + n) as u8,
            0x3B,
            (0x30 + p) as u8,
            0x7E,
        ],
        n >= 10 ==> csi_tilde_bytes(n, p, true) == seq![
            0x1Bu8,
            0x5B,
            (48 + n / 10) as u8,
            (48 + n % 10) as u8,
            0x3B,
            (0x30 + p) as u8,
            0x7E,
        ],
{
    lemma_small_decimal_bytes(n);
    lemma_small_decimal_bytes(p);
    let bytes = csi_tilde_bytes(n, p, true);
    if n < 10 {
        assert(bytes =~= seq![0x1Bu8, 0x5B, (48 + n) as u8, 0x3B, (0x30 + p) as u8, 0x7E]);
    } else {
        assert(bytes =~= seq![
            0x1Bu8,
            0x5B,
            (48 + n / 10) as u8,
            (48 + n % 10) as u8,
            0x3B,
            (0x30 + p) as u8,
            0x7E,
        ]);
    }
}

proof fn lemma_escaped(key: KeyName, m: Modifiers, c: Option<char>, bytes: Seq<u8>)
    requires
        !(key is Char),
        special_bytes(key, m) == Some(bytes),
    ensures
        takes_escape(key, m) ==> event_bytes(pressed(key, m, c)) == seq![0x1Bu8] + bytes,
        !takes_escape(key, m) ==> event_bytes(pressed(key, m, c)) == Seq::<u8>::empty() + bytes,
{
    assert(Seq::<u8>::empty() + bytes =~= bytes);
}

/// What Tab, Space, Backspace and Escape send with modifiers: Shift turns Tab into a backtab, Ctrl
/// changes Space and Backspace, and Alt puts an ESC in front of all but Escape.
pub proof fn law_modified_control_keys(m: Modifiers, c: Option<char>)
    ensures
        ({
            let esc = if m.has_alt { seq![0x1Bu8] } else { Seq::empty() };
            &&& event_bytes(pressed(KeyName::Tab, m, c)) == esc + (if m.has_shift {
                seq![0x1Bu8, 0x5B, 0x5A]
            } else {
                seq![0x09u8]
            })
            &&& event_bytes(pressed(KeyName::Space, m, c)) == esc + (if m.has_ctrl {
                seq![0x00u8]
            } else {
                seq![0x20u8]
            })
            &&& event_bytes(pressed(KeyName::Backspace, m, c)) == esc + (if m.has_ctrl {
                seq![0x08u8]
            } else {
                seq![0x7Fu8]
            })
            &&& event_bytes(pressed(KeyName::Escape, m, c)) == seq![0x1Bu8]
        }),
{
    let esc = if m.has_alt { seq![0x1Bu8] } else { Seq::empty() };
    assert(event_bytes(pressed(KeyName::Tab, m, c)) =~= esc + (if m.has_shift {
        seq![0x1Bu8, 0x5B, 0x5A]
    } else {
        seq![0x09u8]
    }));
    assert(event_bytes(pressed(KeyName::Space, m, c)) =~= esc + (if m.has_ctrl {
        seq![0x00u8]
    } else {
        seq![0x20u8]
    }));
    assert(event_bytes(pressed(KeyName::Backspace, m, c)) =~= esc + (if m.has_ctrl {
        seq![0x08u8]
    } else {
        seq![0x7Fu8]
    }));
}

/// A key with a character of its own sends that character in UTF-8, with an ESC in front where Alt
/// is down, and nothing where it produced no character. With Ctrl alone, or with Ctrl and Shift, a
/// letter sends its control code instead.
pub proof fn law_characters_are_sent(key: char, m: Modifiers, c: Option<char>)
    ensures
        ({
            let sent = event_bytes(pressed(KeyName::Char(key), m, c));
            let control = m.has_ctrl && !m.has_alt;
            &&& control && 'A' <= key <= 'Z' ==> sent == seq![(key as u32 - 'A' as u32 + 1) as u8]
            &&& !control && c is None ==> sent.len() == 0
            &&& !control && c is Some && !m.has_alt ==> sent == vstd::utf8::encode_utf8(seq![c->0])
            &&& !control && c is Some && m.has_alt ==> sent == seq![0x1Bu8]
                + vstd::utf8::encode_utf8(seq![c->0])
        }),
{
    if let Some(x) = c {
        reveal_with_fuel(vstd::utf8::encode_utf8, 2);
        let s = seq![x];
        assert(s.drop_first() =~= Seq::<char>::empty());
        assert(vstd::utf8::encode_utf8(s) =~= encode_scalar(x as u32));
    }
}

/// The words that name keys, whatever the case of their letters.
pub proof fn law_words_name_keys(s: Seq<char>)
    ensures
        ({
            let w = crate::text::lower_text(s);
            let key = parse_key(s);
            &&& w == "enter"@ ==> key == Ok::<KeyName, KeySpecErrorView>(KeyName::Enter)
            &&& w == "tab"@ ==> key == Ok::<KeyName, KeySpecErrorView>(KeyName::Tab)
            &&& w == "escape"@ ==> key == Ok::<KeyName, KeySpecErrorView>(KeyName::Escape)
            &&& w == "space"@ ==> key == Ok::<KeyName, KeySpecErrorView>(KeyName::Space)
            &&& w == "backspace"@ ==> key == Ok::<KeyName, KeySpecErrorView>(KeyName::Backspace)
            &&& w == "delete"@ ==> key == Ok::<KeyName, KeySpecErrorView>(KeyName::Delete)
            &&& w == "insert"@ ==> key == Ok::<KeyName, KeySpecErrorView>(KeyName::Insert)
            &&& w == "home"@ ==> key == Ok::<KeyName, KeySpecErrorView>(KeyName::Home)
            &&& w == "end"@ ==> key == Ok::<KeyName, KeySpecErrorView>(KeyName::End)
            &&& w == "pageup"@ ==> key == Ok::<KeyName, KeySpecErrorView>(KeyName::PageUp)
            &&& w == "pagedown"@ ==> key == Ok::<KeyName, KeySpecErrorView>(KeyName::PageDown)
            &&& w == "up"@ ==> key == Ok::<KeyName, KeySpecErrorView>(KeyName::Up)
            &&& w == "down"@ ==> key == Ok::<KeyName, KeySpecErrorView>(KeyName::Down)
            &&& w == "left"@ ==> key == Ok::<KeyName, KeySpecErrorView>(KeyName::Left)
            &&& w == "right"@ ==> key == Ok::<KeyName, KeySpecErrorView>(KeyName::Right)
            &&& w == "plus"@ ==> key == Ok::<KeyName, KeySpecErrorView>(KeyName::Plus)
            &&& w == "minus"@ ==> key == Ok::<KeyName, KeySpecErrorView>(KeyName::Minus)
        }),
{
    lemma_words();
    assert(crate::text::lower_text(s).len() == s.len());
}

/// The characters that name keys: letters, whatever their case, digits and some marks. Another
/// character names none.
pub proof fn law_characters_name_keys(c: char, digit: u8)
    requires
        digit <= 9,
    ensures
        ({
            let key = parse_key(seq![c]);
            &&& 'A' <= c <= 'Z' ==> key == Ok::<KeyName, KeySpecErrorView>(KeyName::Char(c))
            &&& 'a' <= c <= 'z' ==> key == Ok::<KeyName, KeySpecErrorView>(
                KeyName::Char((c as u32 - 'a' as u32 + 'A' as u32) as char),
            )
            &&& c as u32 == '0' as u32 + digit ==> key == Ok::<KeyName, KeySpecErrorView>(
                KeyName::Digit(digit),
            )
            &&& c == '%' ==> key == Ok::<KeyName, KeySpecErrorView>(KeyName::Percent)
            &&& c == '"' ==> key == Ok::<KeyName, KeySpecErrorView>(KeyName::DoubleQuote)
            &&& c == ',' ==> key == Ok::<KeyName, KeySpecErrorView>(KeyName::Comma)
            &&& c == '.' ==> key == Ok::<KeyName, KeySpecErrorView>(KeyName::Period)
            &&& c == '/' ==> key == Ok::<KeyName, KeySpecErrorView>(KeyName::Slash)
            &&& c == '\\' ==> key == Ok::<KeyName, KeySpecErrorView>(KeyName::Backslash)
            &&& c == '[' ==> key == Ok::<KeyName, KeySpecErrorView>(KeyName::LeftBracket)
            &&& c == ']' ==> key == Ok::<KeyName, KeySpecErrorView>(KeyName::RightBracket)
            &&& c == ';' ==> key == Ok::<KeyName, KeySpecErrorView>(KeyName::Semicolon)
            &&& c == '\'' ==> key == Ok::<KeyName, KeySpecErrorView>(KeyName::Apostrophe)
            &&& c == '`' ==> key == Ok::<KeyName, KeySpecErrorView>(KeyName::Backtick)
            &&& c == '+' ==> key == Ok::<KeyName, KeySpecErrorView>(KeyName::Plus)
            &&& c == '-' ==> key == Ok::<KeyName, KeySpecErrorView>(KeyName::Minus)
            &&& key is Err ==> key->Err_0 == KeySpecErrorView::InvalidKeyName(seq![c])
            &&& key is Ok ==> 'A' <= c <= 'Z' || 'a' <= c <= 'z' || '0' <= c <= '9' || c == '%'
                || c == '"' || c == ',' || c == '.' || c == '/' || c == '\\' || c == '[' || c == ']'
                || c == ';' || c == '\'' || c == '`' || c == '+' || c == '-'
        }),
{
}

/// A function key is named by an F and its number.
pub proof fn law_function_keys_are_named(s: Seq<char>, n: nat)
    requires
        s.len() >= 2,
        s[0] == 'F' || s[0] == 'f',
        s.skip(1) == crate::text::decimal(n),
    ensures
        1 <= n <= 12 ==> parse_key(s) == Ok::<KeyName, KeySpecErrorView>(KeyName::F(n as u8)),
        !(1 <= n <= 12) ==> parse_key(s) == Err::<KeyName, KeySpecErrorView>(
            KeySpecErrorView::InvalidKeyName(s),
        ),
{
    lemma_words();
    crate::text::lemma_decimal_value(n);
    let w = crate::text::lower_text(s);
    assert(w[0] == 'f');
}

/// The names of the modifiers, whatever the case of their letters.
pub proof fn law_words_name_modifiers(s: Seq<char>)
    ensures
        ({
            let w = crate::text::lower_text(s);
            &&& w == "ctrl"@ ==> modifier_of(s) == Some(mods(true, false, false))
            &&& w == "alt"@ ==> modifier_of(s) == Some(mods(false, true, false))
            &&& w == "shift"@ ==> modifier_of(s) == Some(mods(false, false, true))
            &&& w != "ctrl"@ && w != "alt"@ && w != "shift"@ ==> modifier_of(s) is None
        }),
{
    lemma_words();
}

/// Whether a modifier is named among the first `n` parts.
pub open spec fn names_among(parts: Seq<Seq<char>>, n: int, word: Seq<char>) -> bool {
    exists|i: int| 0 <= i < n && crate::text::lower_text(#[trigger] parts[i]) == word
}

/// A key spec is any number of modifiers, in any order, and a key: it asks for exactly the modifiers
/// that it names.
pub proof fn law_modifiers_combine_in_any_order(parts: Seq<Seq<char>>, acc: Modifiers)
    requires
        parts.len() > 0,
        forall|i: int| 0 <= i < parts.len() - 1 ==> modifier_of(#[trigger] parts[i]) is Some,
        modifier_of(parts.last()) is None,
        parse_key(parts.last()) is Ok,
    ensures
        ({
            let n = parts.len() - 1;
            let spec = spec_of_parts(parts, acc);
            &&& spec is Ok
            &&& spec->Ok_0.key == parse_key(parts.last())->Ok_0
            &&& spec->Ok_0.modifiers.has_ctrl <==> acc.has_ctrl || names_among(parts, n, "ctrl"@)
            &&& spec->Ok_0.modifiers.has_alt <==> acc.has_alt || names_among(parts, n, "alt"@)
            &&& spec->Ok_0.modifiers.has_shift <==> acc.has_shift || names_among(parts, n, "shift"@)
        }),
    decreases parts.len(),
{
    lemma_words();
    let n = parts.len() - 1;
    if n > 0 {
        let rest = parts.drop_first();
        assert(modifier_of(parts[0]) is Some);
        assert forall|i: int| 0 <= i < rest.len() - 1 implies modifier_of(
            #[trigger] rest[i],
        ) is Some by {
            assert(modifier_of(parts[i + 1]) is Some);
        }
        let with = acc.union(modifier_of(parts[0])->0);
        law_modifiers_combine_in_any_order(rest, with);
        lemma_names_among(parts, n, "ctrl"@);
        lemma_names_among(parts, n, "alt"@);
        lemma_names_among(parts, n, "shift"@);
    }
}

proof fn lemma_names_among(parts: Seq<Seq<char>>, n: int, word: Seq<char>)
    requires
        0 < n <= parts.len(),
    ensures
        names_among(parts, n, word) <==> crate::text::lower_text(parts[0]) == word || names_among(
            parts.drop_first(),
            n - 1,
            word,
        ),
{
    let rest = parts.drop_first();
    if names_among(parts, n, word) {
        let i = choose|i: int| 0 <= i < n && crate::text::lower_text(#[trigger] parts[i]) == word;
        if i > 0 {
            assert(crate::text::lower_text(rest[i - 1]) == word);
        }
    }
    if names_among(rest, n - 1, word) {
        let i = choose|i: int|
            0 <= i < n - 1 && crate::text::lower_text(#[trigger] rest[i]) == word;
        assert(crate::text::lower_text(parts[i + 1]) == word);
    }
}

/// A key spec is refused for the first part before the last that names no modifier, or else for a
/// last part that names no key; and where even the last part names a modifier the key is missing.
pub proof fn law_wrong_specs_are_refused(parts: Seq<Seq<char>>, acc: Modifiers, i: int)
    requires
        0 <= i < parts.len(),
        forall|j: int| 0 <= j < i ==> modifier_of(#[trigger] parts[j]) is Some,
    ensures
        modifier_of(parts[i]) is None && i + 1 < parts.len() ==> spec_of_parts(parts, acc) == Err::<
            KeySpec,
            KeySpecErrorView,
        >(KeySpecErrorView::InvalidModifier(parts[i])),
        modifier_of(parts[i]) is None && i + 1 == parts.len() && parse_key(parts[i]) is Err
            ==> spec_of_parts(parts, acc) == Err::<KeySpec, KeySpecErrorView>(
            KeySpecErrorView::InvalidKeyName(parts[i]),
        ),
        modifier_of(parts[i]) is Some && i + 1 == parts.len() ==> spec_of_parts(parts, acc) == Err::<
            KeySpec,
            KeySpecErrorView,
        >(KeySpecErrorView::MissingKeyName),
        parse_spec(Seq::empty()) == Err::<KeySpec, KeySpecErrorView>(KeySpecErrorView::Empty),
    decreases parts.len(),
{
    if i > 0 {
        let rest = parts.drop_first();
        assert(modifier_of(parts[0]) is Some);
        assert forall|j: int| 0 <= j < i - 1 implies modifier_of(#[trigger] rest[j]) is Some by {
            assert(modifier_of(parts[j + 1]) is Some);
        }
        law_wrong_specs_are_refused(rest, acc.union(modifier_of(parts[0])->0), i - 1);
    } else if parts.len() == 1 {
        reveal_with_fuel(spec_of_parts, 2);
    }
}

/// A key spec stands for a key event if the key and all modifiers are the same, whatever character
/// the key produced. A chord of one character stands for whatever produced the character, and a
/// named chord for the key, whatever the modifiers.
pub proof fn law_what_bindings_stand_for(spec: KeySpec, event: KeyEvent, c: char, k: KeyName)
    ensures
        spec.matches_event(event) <==> spec.key == event.key && spec.modifiers.has_ctrl
            == event.modifiers.has_ctrl && spec.modifiers.has_alt == event.modifiers.has_alt
            && spec.modifiers.has_shift == event.modifiers.has_shift,
        ChordKey::Character(c).matches_event(event) <==> event.character == Some(c),
        ChordKey::Named(k).matches_event(event) <==> event.key == k,
{
}

/// A chord of one character is that character; a longer one names a key.
pub proof fn law_chords_are_read(s: Seq<char>)
    ensures
        s.len() == 1 ==> parse_chord(s) == Ok::<ChordKey, KeySpecErrorView>(
            ChordKey::Character(s[0]),
        ),
        s.len() != 1 && parse_key(s) is Ok ==> parse_chord(s) == Ok::<ChordKey, KeySpecErrorView>(
            ChordKey::Named(parse_key(s)->Ok_0),
        ),
        s.len() != 1 && parse_key(s) is Err ==> parse_chord(s) == Err::<ChordKey, KeySpecErrorView>(
            KeySpecErrorView::InvalidKeyName(s),
        ),
{
}

/// Of several chords that stand for a key event the first counts.
pub proof fn law_first_chord_counts(
    chords: Seq<(ChordKey, ActionReferenceView)>,
    event: KeyEvent,
    i: int,
)
    requires
        0 <= i <= chords.len(),
        forall|j: int| 0 <= j < i ==> !(#[trigger] chords[j]).0.matches_event(event),
        i < chords.len() ==> chords[i].0.matches_event(event),
    ensures
        chord_action(chords, event) == (if i < chords.len() {
            Some(chords[i].1)
        } else {
            None
        }),
    decreases chords.len(),
{
    if i > 0 {
        let rest = chords.drop_first();
        assert(!chords[0].0.matches_event(event));
        assert forall|j: int| 0 <= j < i - 1 implies !(#[trigger] rest[j]).0.matches_event(
            event,
        ) by {
            assert(!chords[j + 1].0.matches_event(event));
        }
        law_first_chord_counts(rest, event, i - 1);
    }
}

/// Of several keys that stand for a key event the first counts.
pub proof fn law_first_stroke_counts(
    strokes: Seq<(KeySpec, ActionReferenceView)>,
    event: KeyEvent,
    i: int,
)
    requires
        0 <= i <= strokes.len(),
        forall|j: int| 0 <= j < i ==> !(#[trigger] strokes[j]).0.matches_event(event),
        i < strokes.len() ==> strokes[i].0.matches_event(event),
    ensures
        stroke_action(strokes, event) == (if i < strokes.len() {
            Some(strokes[i].1)
        } else {
            None
        }),
    decreases strokes.len(),
{
    if i > 0 {
        let rest = strokes.drop_first();
        assert(!strokes[0].0.matches_event(event));
        assert forall|j: int| 0 <= j < i - 1 implies !(#[trigger] rest[j]).0.matches_event(
            event,
        ) by {
            assert(!strokes[j + 1].0.matches_event(event));
        }
        law_first_stroke_counts(rest, event, i - 1);
    }
}

/// A key that is bound and is not the prefix gives its action while no prefix is active, and a chord
/// gives its action while one is.
pub proof fn law_bound_keys_give_their_actions(c: ClassifierView, event: KeyEvent, i: int)
    requires
        0 <= i,
    ensures
        !is_prefix(c, event) && i < c.single_strokes.len() && c.single_strokes[i].0.matches_event(
            event,
        ) && (forall|j: int|
            0 <= j < i ==> !(#[trigger] c.single_strokes[j]).0.matches_event(event)) ==> class_of(
            c,
            event,
            false,
        ) == InputActionView::SingleStrokeBinding(c.single_strokes[i].1),
        i < c.chords.len() && c.chords[i].0.matches_event(event) && (forall|j: int|
            0 <= j < i ==> !(#[trigger] c.chords[j]).0.matches_event(event)) ==> class_of(
            c,
            event,
            true,
        ) == InputActionView::ChordBinding(c.chords[i].1),
        is_prefix(c, event) <==> c.prefix is Some && c.prefix->0.matches_event(event),
{
    if i < c.single_strokes.len() && c.single_strokes[i].0.matches_event(event) && (forall|j: int|
        0 <= j < i ==> !(#[trigger] c.single_strokes[j]).0.matches_event(event)) {
        law_first_stroke_counts(c.single_strokes, event, i);
    }
    if i < c.chords.len() && c.chords[i].0.matches_event(event) && (forall|j: int|
        0 <= j < i ==> !(#[trigger] c.chords[j]).0.matches_event(event)) {
        law_first_chord_counts(c.chords, event, i);
    }
}

/// A table of chords is read row by row: if all rows can be read, there are as many chords, each with
/// the key and the action of its row, and if one cannot, the table is refused for the first of these.
pub proof fn law_chord_tables_are_read(rows: Seq<(Seq<char>, ActionReferenceView)>, i: int)
    requires
        0 <= i <= rows.len(),
        forall|j: int| 0 <= j < i ==> parse_chord((#[trigger] rows[j]).0) is Ok,
        i < rows.len() ==> parse_chord(rows[i].0) is Err,
    ensures
        i < rows.len() ==> read_chords(rows) == Err::<
            Seq<(ChordKey, ActionReferenceView)>,
            KeySpecErrorView,
        >(parse_chord(rows[i].0)->Err_0),
        i == rows.len() ==> read_chords(rows) is Ok && read_chords(rows)->Ok_0.len() == rows.len()
            && forall|j: int|
            0 <= j < rows.len() ==> (#[trigger] read_chords(rows)->Ok_0[j]) == (
                parse_chord(rows[j].0)->Ok_0,
                rows[j].1,
            ),
    decreases rows.len(),
{
    if rows.len() > 0 {
        let rest = rows.drop_last();
        assert forall|j: int| 0 <= j < i && j < rest.len() implies parse_chord(
            (#[trigger] rest[j]).0,
        ) is Ok by {
            assert(parse_chord(rows[j].0) is Ok);
        }
        if i < rows.len() {
            if i < rest.len() {
                law_chord_tables_are_read(rest, i);
            } else {
                law_chord_tables_are_read(rest, rest.len() as int);
            }
        } else {
            law_chord_tables_are_read(rest, rest.len() as int);
            assert(parse_chord(rows[rows.len() - 1].0) is Ok);
            assert forall|j: int| 0 <= j < rows.len() implies (
            #[trigger] read_chords(rows)->Ok_0[j]) == (parse_chord(rows[j].0)->Ok_0, rows[j].1) by {
                if j < rest.len() {
                    assert(read_chords(rows)->Ok_0[j] == read_chords(rest)->Ok_0[j]);
                }
            }
        }
    }
}

/// A table of keys is read row by row, in the same way.
pub proof fn law_key_tables_are_read(rows: Seq<(Seq<char>, ActionReferenceView)>, i: int)
    requires
        0 <= i <= rows.len(),
        forall|j: int| 0 <= j < i ==> parse_spec((#[trigger] rows[j]).0) is Ok,
        i < rows.len() ==> parse_spec(rows[i].0) is Err,
    ensures
        i < rows.len() ==> read_strokes(rows) == Err::<
            Seq<(KeySpec, ActionReferenceView)>,
            KeySpecErrorView,
        >(parse_spec(rows[i].0)->Err_0),
        i == rows.len() ==> read_strokes(rows) is Ok && read_strokes(rows)->Ok_0.len() == rows.len()
            && forall|j: int|
            0 <= j < rows.len() ==> (#[trigger] read_strokes(rows)->Ok_0[j]) == (
                parse_spec(rows[j].0)->Ok_0,
                rows[j].1,
            ),
    decreases rows.len(),
{
    if rows.len() > 0 {
        let rest = rows.drop_last();
        assert forall|j: int| 0 <= j < i && j < rest.len() implies parse_spec(
            (#[trigger] rest[j]).0,
        ) is Ok by {
            assert(parse_spec(rows[j].0) is Ok);
        }
        if i < rows.len() {
            if i < rest.len() {
                law_key_tables_are_read(rest, i);
            } else {
                law_key_tables_are_read(rest, rest.len() as int);
            }
        } else {
            law_key_tables_are_read(rest, rest.len() as int);
            assert(parse_spec(rows[rows.len() - 1].0) is Ok);
            assert forall|j: int| 0 <= j < rows.len() implies (
            #[trigger] read_strokes(rows)->Ok_0[j]) == (parse_spec(rows[j].0)->Ok_0, rows[j].1) by {
                if j < rest.len() {
                    assert(read_strokes(rows)->Ok_0[j] == read_strokes(rest)->Ok_0[j]);
                }
            }
        }
    }
}

/// Bindings are taken over if the prefix and all rows can be read: the prefix, or none where none is
/// given, the chords and the keys, and the time that the prefix stays active, two seconds where none
/// is given.
pub proof fn law_bindings_are_taken_over(b: BindingsDefinition)
    ensures
        ({
            let chords = read_chords(crate::bindings::table_view(b.chords));
            let keys = read_strokes(crate::bindings::table_view(b.keys));
            let prefix = match b.prefix {
                Some(s) => parse_spec(s@),
                None => Err(KeySpecErrorView::Empty),
            };
            &&& classifier_of(b) is Ok <==> (b.prefix is None || prefix is Ok) && chords is Ok
                && keys is Ok
            &&& classifier_of(b) is Ok ==> {
                let c = classifier_of(b)->Ok_0;
                &&& c.chords == chords->Ok_0
                &&& c.single_strokes == keys->Ok_0
                &&& b.prefix is Some ==> c.prefix == Some(prefix->Ok_0)
                &&& b.prefix is None ==> c.prefix is None
                &&& b.prefix_timeout is Some ==> c.timeout_ms == b.prefix_timeout->0
                &&& b.prefix_timeout is None ==> c.timeout_ms == 2000
            }
        }),
{
}

/// The keys that the key codes of the system stand for.
pub proof fn law_key_codes_stand_for_keys(vk: u16)
    ensures
        0x41 <= vk <= 0x5A ==> vk_key(vk) == Some(KeyName::Char(vk as char)),
        0x30 <= vk <= 0x39 ==> vk_key(vk) == Some(KeyName::Digit((vk - 0x30) as u8)),
        0x70 <= vk <= 0x7B ==> vk_key(vk) == Some(KeyName::F((vk - 0x70 + 1) as u8)),
        vk_key(0x0D) == Some(KeyName::Enter),
        vk_key(0x09) == Some(KeyName::Tab),
        vk_key(0x1B) == Some(KeyName::Escape),
        vk_key(0x20) == Some(KeyName::Space),
        vk_key(0x08) == Some(KeyName::Backspace),
        vk_key(0x2E) == Some(KeyName::Delete),
        vk_key(0x2D) == Some(KeyName::Insert),
        vk_key(0x24) == Some(KeyName::Home),
        vk_key(0x23) == Some(KeyName::End),
        vk_key(0x21) == Some(KeyName::PageUp),
        vk_key(0x22) == Some(KeyName::PageDown),
        vk_key(0x26) == Some(KeyName::Up),
        vk_key(0x28) == Some(KeyName::Down),
        vk_key(0x25) == Some(KeyName::Left),
        vk_key(0x27) == Some(KeyName::Right),
        vk_key(0xBB) == Some(KeyName::Plus),
        vk_key(0xBD) == Some(KeyName::Minus),
        vk_key(0xBC) == Some(KeyName::Comma),
        vk_key(0xBE) == Some(KeyName::Period),
        vk_key(0xBF) == Some(KeyName::Slash),
        vk_key(0xDC) == Some(KeyName::Backslash),
        vk_key(0xDB) == Some(KeyName::LeftBracket),
        vk_key(0xDD) == Some(KeyName::RightBracket),
        vk_key(0xBA) == Some(KeyName::Semicolon),
        vk_key(0xDE) == Some(KeyName::Apostrophe),
        vk_key(0xC0) == Some(KeyName::Backtick),
        forall|other: u16|
            vk_key(vk) is Some && #[trigger] vk_key(other) == vk_key(vk) ==> other == vk,
{
}

/// Text stands for the keys that would type it: a letter for its key, with Shift where it is a
/// capital, a digit and the marks that have a key of their own for that key, a blank for Space. The
/// key produces the character again.
pub proof fn law_text_stands_for_its_keys(c: char)
    ensures
        text_key(c) is None <==> (c as u32) < 0x20 || 0x7F <= (c as u32) < 0xA0,
        text_key(c) is Some ==> {
            let e = text_key(c)->0;
            &&& e.character == Some(c)
            &&& !e.modifiers.has_ctrl && !e.modifiers.has_alt
            &&& e.modifiers.has_shift <==> 'A' <= c <= 'Z'
            &&& parse_key(seq![c]) is Ok ==> e.key == parse_key(seq![c])->Ok_0
            &&& c == ' ' ==> e.key == KeyName::Space
        },
{
}

} // verus!
