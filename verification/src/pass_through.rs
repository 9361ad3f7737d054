//! Sending the next key to the session as it is.
use vstd::prelude::*;
use vstd::utf8::*;

use crate::input::{key_event_to_bytes, KeyEvent};

verus! {

/// The label that the status bar shows while the next key is passed through.
pub const PASS_THROUGH_NEXT_KEY_LABEL: &'static str = "SEND KEY";

/// Whether the next key is passed through.
#[derive(Debug, Clone, Copy, PartialEq, Eq, Structural)]
pub struct PassThroughNextKeyState {
    pub armed: bool,
}

/// What a key is passed on as, if it is, and whether the next key is passed through after it.
pub open spec fn passed_key(armed: bool, event: KeyEvent) -> (Option<Seq<u8>>, bool) {
    if armed {
        (Some(crate::input::event_bytes(event)), crate::input::event_bytes(event).len() == 0)
    } else {
        (None, false)
    }
}

/// What a text is passed on as, if it is, and whether the next key is passed through after it.
pub open spec fn passed_text(armed: bool, text: Seq<char>) -> (Option<Seq<u8>>, bool) {
    if armed && text.len() > 0 {
        (Some(encode_utf8(text)), false)
    } else {
        (None, armed)
    }
}

/// The bytes of a text.
pub fn text_input_bytes(text: &str) -> (r: Vec<u8>)
    ensures
        r@ == encode_utf8(text@),
{
    let bytes = text.as_bytes();
    let mut v: Vec<u8> = Vec::new();
    v.extend_from_slice(bytes);
    assert(v@ =~= bytes@);
    v
}

impl PassThroughNextKeyState {
    /// No key is passed through.
    pub fn new() -> (r: PassThroughNextKeyState)
        ensures
            !r.armed,
    {
        PassThroughNextKeyState { armed: false }
    }

    /// Pass the next key through.
    pub fn arm(&mut self)
        ensures
            final(self).armed,
    {
        self.armed = true;
    }

    /// Whether the next key is passed through.
    pub fn is_armed(&self) -> (r: bool)
        ensures
            r == self.armed,
    {
        self.armed
    }

    /// The label that the status bar shows while the next key is passed through.
    pub fn badge_label(&self) -> (r: &'static str)
        ensures
            r@ == "SEND KEY"@,
    {
        PASS_THROUGH_NEXT_KEY_LABEL
    }

    /// Process a key. Returns the bytes to send if the key is passed through. A key that sends
    /// nothing, such as a modifier, is not counted as the next key.
    pub fn process_key(&mut self, event: &KeyEvent) -> (r: Option<Vec<u8>>)
        requires
            crate::input::encodable(*event),
        ensures
            match r {
                Some(v) => passed_key(old(self).armed, *event) == (Some(v@), final(self).armed),
                None => passed_key(old(self).armed, *event) == (
                    None::<Seq<u8>>,
                    final(self).armed,
                ),
            },
    {
        if !self.armed {
            return None;
        }
        let bytes = key_event_to_bytes(event);
        if bytes.len() > 0 {
            self.armed = false;
        }
        Some(bytes)
    }

    /// Process a text. Returns the bytes to send if the text is passed through.
    pub fn process_text(&mut self, text: &str) -> (r: Option<Vec<u8>>)
        ensures
            match r {
                Some(v) => passed_text(old(self).armed, text@) == (Some(v@), final(self).armed),
                None => passed_text(old(self).armed, text@) == (
                    None::<Seq<u8>>,
                    final(self).armed,
                ),
            },
    {
        if !self.armed || crate::text::chars_of(text).len() == 0 {
            return None;
        }
        self.armed = false;
        Some(text_input_bytes(text))
    }
}

impl Default for PassThroughNextKeyState {
    fn default() -> (r: PassThroughNextKeyState)
        ensures
            !r.armed,
    {
        PassThroughNextKeyState::new()
    }
}

/// At most one key is passed through: after a key that sent something, the next one is not.
pub proof fn law_one_key_only(event: KeyEvent, next: KeyEvent, armed: bool)
    requires
        passed_key(armed, event).0 matches Some(bytes) && bytes.len() > 0,
    ensures
        passed_key(passed_key(armed, event).1, next).0 is None,
{
}

/// Once armed, the next key is sent past all bindings and disarms, unless it has no bytes: then the
/// text that it produces is awaited. That text is sent as it is and disarms; without a text nothing
/// happens. Unarmed, nothing is passed.
pub proof fn law_what_is_passed(event: KeyEvent, text: Seq<char>)
    ensures
        passed_key(true, event).0 == Some(crate::input::event_bytes(event)),
        passed_key(true, event).1 <==> crate::input::event_bytes(event).len() == 0,
        passed_key(false, event) == (None::<Seq<u8>>, false),
        text.len() > 0 ==> passed_text(true, text) == (Some(encode_utf8(text)), false),
        text.len() == 0 ==> passed_text(true, text) == (None::<Seq<u8>>, true),
        passed_text(false, text) == (None::<Seq<u8>>, false),
{
}

} // verus!
