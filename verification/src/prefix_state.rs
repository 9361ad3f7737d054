//! Prefix chord state machine.
//!
//! Wraps [`InputClassifier`] and manages the prefix-active / idle state transitions, timeout,
//! and visual indicator state.
//!
//! ```text
//! Idle ──► PrefixActive(timestamp)
//!            │         │         │         │         │
//!            ▼         ▼         ▼         ▼         ▼
//!       ChordMatch  Timeout  EscCancel  UnboundKey  PrefixAgain
//!            │         │         │         │         │
//!            ▼         ▼         ▼         ▼         ▼
//!           Idle      Idle      Idle      Idle      Idle
//! ```
//!
//! The caller drives the machine by calling [`PrefixStateMachine::process`] for each key event
//! and [`PrefixStateMachine::check_timeout`] periodically in the UI event loop, and hands in the
//! time at which it does so.
use vstd::prelude::*;
use vstd::utf8::*;

use crate::bindings::{ActionReference, ActionReferenceView};
use crate::input::{
    key_event_to_bytes, push_utf8, text_char_to_key_event, ClassifierView, InputAction,
    InputClassifier, KeyEvent, KeyName, KeySpec, Modifiers,
};
use crate::text::chars_of;
use crate::time::{Duration, Instant};

verus! {

// ── Output ──────────────────────────────────────────────────────────────────

/// Result of processing a key event through the prefix state machine.
#[derive(Debug)]
pub enum PrefixOutput {
    /// Dispatch a bound action (chord or single-stroke).
    DispatchAction(ActionReference),
    /// Send raw bytes to the focused session.
    SendToSession(Vec<u8>),
    /// Keystroke consumed, no further action needed.
    ///
    /// Returned when entering prefix mode or cancelling via Escape.
    Consumed,
}

impl Clone for PrefixOutput {
    fn clone(&self) -> (r: PrefixOutput)
        ensures
            r@ == self@,
    {
        match self {
            PrefixOutput::DispatchAction(a) => PrefixOutput::DispatchAction(a.clone()),
            PrefixOutput::SendToSession(v) => {
                let mut bytes: Vec<u8> = Vec::new();
                bytes.extend_from_slice(v.as_slice());
                assert(bytes@ =~= v@);
                PrefixOutput::SendToSession(bytes)
            },
            PrefixOutput::Consumed => PrefixOutput::Consumed,
        }
    }
}

/// The model of a [`PrefixOutput`].
pub enum PrefixOutputView {
    DispatchAction(ActionReferenceView),
    SendToSession(Seq<u8>),
    Consumed,
}

impl View for PrefixOutput {
    type V = PrefixOutputView;

    open spec fn view(&self) -> PrefixOutputView {
        match self {
            PrefixOutput::DispatchAction(a) => PrefixOutputView::DispatchAction(a@),
            PrefixOutput::SendToSession(v) => PrefixOutputView::SendToSession(v@),
            PrefixOutput::Consumed => PrefixOutputView::Consumed,
        }
    }
}

// ── State Machine ───────────────────────────────────────────────────────────

/// Prefix chord state machine.
///
/// Manages the two-state lifecycle:
/// - **Idle**: normal input mode; the prefix key enters PrefixActive.
/// - **PrefixActive**: waiting for a chord key; timeout or Escape returns to Idle.
#[derive(Debug)]
pub struct PrefixStateMachine {
    pub keys: InputClassifier,
    pub active: bool,
    pub activated_at: Option<Instant>,
    pub time_limit: Duration,
    /// The bytes of the prefix key (double-press and unbound-key forwarding).
    pub prefix_bytes: Vec<u8>,
    /// Display label for the prefix key (e.g. "Ctrl+B").
    pub label: String,
}

/// The model of a [`PrefixStateMachine`].
pub struct PrefixView {
    /// The bindings.
    pub keys: ClassifierView,
    /// When the prefix was pressed, while it is active.
    pub since: Option<Instant>,
}

/// The event that a key spec stands for.
pub open spec fn spec_event(spec: KeySpec) -> KeyEvent {
    KeyEvent { key: spec.key, modifiers: spec.modifiers, character: None }
}

/// The bytes that the prefix key would produce.
pub open spec fn prefix_key_bytes(c: ClassifierView) -> Seq<u8> {
    match c.prefix {
        Some(spec) => crate::input::event_bytes(spec_event(spec)),
        None => Seq::empty(),
    }
}

/// The display label of the prefix key.
pub open spec fn prefix_key_label(c: ClassifierView) -> Seq<char> {
    match c.prefix {
        Some(spec) => crate::input::spec_text(spec),
        None => Seq::empty(),
    }
}

/// The time after which an active prefix lapses.
pub open spec fn prefix_time_limit(c: ClassifierView) -> Duration {
    Duration { nanos: (c.timeout_ms * crate::time::NANOS_PER_MILLI) as u128 }
}

/// The output of a key event and the state after it.
///
/// | Current state | Event | Output | New state |
/// |---|---|---|---|
/// | Idle | Prefix key | Consumed | PrefixActive |
/// | Idle | Single-stroke binding | DispatchAction | Idle |
/// | Idle | Any other key | SendToSession(bytes) | Idle |
/// | PrefixActive | Escape | Consumed | Idle |
/// | PrefixActive | Prefix key again | SendToSession(prefix) | Idle |
/// | PrefixActive | Chord key | DispatchAction | Idle |
/// | PrefixActive | Unbound key | SendToSession(prefix+key) | Idle |
pub open spec fn step(s: PrefixView, event: KeyEvent, now: Instant) -> (PrefixOutputView, PrefixView) {
    let idle = PrefixView { keys: s.keys, since: None };
    if s.since is Some {
        if event.key == KeyName::Escape && event.modifiers == crate::input::mods(
            false,
            false,
            false,
        ) {
            (PrefixOutputView::Consumed, idle)
        } else if crate::input::is_prefix(s.keys, event) {
            (PrefixOutputView::SendToSession(prefix_key_bytes(s.keys)), idle)
        } else {
            match crate::input::chord_action(s.keys.chords, event) {
                Some(a) => (PrefixOutputView::DispatchAction(a), idle),
                None => (
                    PrefixOutputView::SendToSession(
                        prefix_key_bytes(s.keys) + crate::input::event_bytes(event),
                    ),
                    idle,
                ),
            }
        }
    } else if crate::input::is_prefix(s.keys, event) {
        (PrefixOutputView::Consumed, PrefixView { keys: s.keys, since: Some(now) })
    } else {
        match crate::input::stroke_action(s.keys.single_strokes, event) {
            Some(a) => (PrefixOutputView::DispatchAction(a), s),
            None => (PrefixOutputView::SendToSession(crate::input::event_bytes(event)), s),
        }
    }
}

/// The output of one character of committed text and the state after it. A character that stands
/// for a key acts as that key; any other is sent as UTF-8, after the prefix key if the prefix is
/// active.
pub open spec fn text_step(s: PrefixView, c: char, now: Instant) -> (PrefixOutputView, PrefixView) {
    match crate::input::text_key(c) {
        Some(e) => step(s, e, now),
        None => {
            let bytes = encode_scalar(c as u32);
            if s.since is Some {
                (
                    PrefixOutputView::SendToSession(prefix_key_bytes(s.keys) + bytes),
                    PrefixView { keys: s.keys, since: None },
                )
            } else {
                (PrefixOutputView::SendToSession(bytes), s)
            }
        },
    }
}

/// The outputs of committed text, one for each character, and the state after it.
pub open spec fn text_steps(
    s: PrefixView,
    text: Seq<char>,
    now: Instant,
) -> (Seq<PrefixOutputView>, PrefixView)
    decreases text.len(),
{
    if text.len() == 0 {
        (Seq::empty(), s)
    } else {
        let (outputs, mid) = text_steps(s, text.drop_last(), now);
        let (output, end) = text_step(mid, text.last(), now);
        (outputs.push(output), end)
    }
}

/// Whether an active prefix has lapsed at `now`.
pub open spec fn lapsed(s: PrefixView, now: Instant) -> bool {
    s.since matches Some(at) && (if now.nanos >= at.nanos {
        now.nanos - at.nanos
    } else {
        0
    }) >= prefix_time_limit(s.keys).nanos
}

impl View for PrefixStateMachine {
    type V = PrefixView;

    open spec fn view(&self) -> PrefixView {
        PrefixView { keys: self.keys@, since: self.activated_at }
    }
}

impl PrefixStateMachine {
    /// What every machine satisfies: the prefix is active exactly while it has a start time, and
    /// what was computed from the bindings is still what they say.
    pub open spec fn wf(&self) -> bool {
        &&& self.active == (self.activated_at is Some)
        &&& self.time_limit == prefix_time_limit(self.keys@)
        &&& self.prefix_bytes@ == prefix_key_bytes(self.keys@)
        &&& self.label@ == prefix_key_label(self.keys@)
    }

    /// Create a new state machine wrapping the given classifier.
    pub fn new(classifier: InputClassifier) -> (r: PrefixStateMachine)
        requires
            classifier@.prefix matches Some(p) ==> crate::input::encodable(spec_event(p)),
        ensures
            r.wf(),
            r@ == (PrefixView { keys: classifier@, since: None }),
    {
        let time_limit = Duration::from_millis(classifier.prefix_timeout_ms() as u64);
        let (prefix_bytes, label) = match classifier.prefix_key() {
            Some(spec) => (key_spec_to_bytes(spec), spec.to_string()),
            None => (Vec::new(), String::new()),
        };
        PrefixStateMachine {
            keys: classifier,
            active: false,
            activated_at: None,
            time_limit,
            prefix_bytes,
            label,
        }
    }

    /// Process a key event and return the resulting action.
    pub fn process(&mut self, event: &KeyEvent, now: Instant) -> (r: PrefixOutput)
        requires
            old(self).wf(),
            crate::input::encodable(*event),
        ensures
            final(self).wf(),
            (r@, final(self)@) == step(old(self)@, *event, now),
    {
        if self.active {
            self.process_active(event)
        } else {
            self.process_idle(event, now)
        }
    }

    /// Check if the prefix has timed out.
    ///
    /// Returns `true` if a timeout occurred and the state was reset to Idle.
    /// Call this periodically in the event loop (e.g. on each iteration).
    pub fn check_timeout(&mut self, now: Instant) -> (r: bool)
        requires
            old(self).wf(),
        ensures
            final(self).wf(),
            r == lapsed(old(self)@, now),
            final(self)@ == (if r {
                PrefixView { keys: old(self)@.keys, since: None }
            } else {
                old(self)@
            }),
    {
        if let Some(at) = self.activated_at {
            if now.duration_since(at).nanos >= self.time_limit.nanos {
                self.deactivate();
                return true;
            }
        }
        false
    }

    /// Whether the prefix is currently active (for the status bar indicator).
    pub fn is_prefix_active(&self) -> (r: bool)
        requires
            self.wf(),
        ensures
            r == (self@.since is Some),
    {
        self.active
    }

    /// Display label for the prefix key (e.g. "Ctrl+B").
    pub fn prefix_label(&self) -> (r: &str)
        requires
            self.wf(),
        ensures
            r@ == prefix_key_label(self@.keys),
    {
        self.label.as_str()
    }

    /// The configured timeout duration.
    pub fn timeout(&self) -> (r: Duration)
        requires
            self.wf(),
        ensures
            r == prefix_time_limit(self@.keys),
    {
        self.time_limit
    }

    /// Access the inner classifier.
    pub fn classifier(&self) -> (r: &InputClassifier)
        ensures
            r@ == self@.keys,
    {
        &self.keys
    }

    /// Process committed text input under the same prefix semantics as key events.
    pub fn process_text(&mut self, text: &str, now: Instant) -> (r: Vec<PrefixOutput>)
        requires
            old(self).wf(),
        ensures
            final(self).wf(),
            (r@.map_values(|o: PrefixOutput| o@), final(self)@) == text_steps(
                old(self)@,
                text@,
                now,
            ),
    {
        let ghost f = |o: PrefixOutput| o@;
        let chars = chars_of(text);
        let mut outputs: Vec<PrefixOutput> = Vec::new();
        let mut i: usize = 0;
        assert(outputs@.map_values(f) =~= Seq::empty());
        assert(text@.take(0) =~= Seq::empty());
        while i < chars.len()
            invariant
                i <= text@.len(),
                chars@ == text@,
                self.wf(),
                f == (|o: PrefixOutput| o@),
                (outputs@.map_values(f), self@) == text_steps(
                    old(self)@,
                    text@.take(i as int),
                    now,
                ),
            decreases chars.len() - i,
        {
            let ghost before = outputs@;
            assert(text@.take(i + 1).drop_last() =~= text@.take(i as int));
            assert(text@.take(i + 1).last() == text@[i as int]);
            let c = chars[i];
            let output = match text_char_to_key_event(c) {
                Some(e) => self.process(&e, now),
                None => {
                    let mut bytes: Vec<u8> = Vec::new();
                    if self.active {
                        bytes.extend_from_slice(self.prefix_bytes.as_slice());
                        assert(bytes@ =~= self.prefix_bytes@);
                        self.deactivate();
                    }
                    push_utf8(&mut bytes, c);
                    assert(Seq::<u8>::empty() + encode_scalar(c as u32) =~= encode_scalar(
                        c as u32,
                    ));
                    PrefixOutput::SendToSession(bytes)
                },
            };
            outputs.push(output);
            assert(outputs@.map_values(f) =~= before.map_values(f).push(output@));
            i += 1;
        }
        assert(text@.take(i as int) =~= text@);
        outputs
    }

    // ── Internal ────────────────────────────────────────────────────────────

    fn deactivate(&mut self)
        requires
            old(self).wf(),
        ensures
            final(self).wf(),
            final(self)@ == (PrefixView { keys: old(self)@.keys, since: None }),
            final(self).prefix_bytes == old(self).prefix_bytes,
            !final(self).active,
    {
        self.active = false;
        self.activated_at = None;
    }

    fn process_idle(&mut self, event: &KeyEvent, now: Instant) -> (r: PrefixOutput)
        requires
            old(self).wf(),
            !old(self).active,
            crate::input::encodable(*event),
        ensures
            final(self).wf(),
            (r@, final(self)@) == step(old(self)@, *event, now),
    {
        match self.keys.classify(event, false) {
            InputAction::PrefixKey => {
                self.active = true;
                self.activated_at = Some(now);
                PrefixOutput::Consumed
            },
            InputAction::SingleStrokeBinding(action_ref) => PrefixOutput::DispatchAction(
                action_ref,
            ),
            InputAction::RawInput(bytes) => PrefixOutput::SendToSession(bytes),
            InputAction::ChordBinding(_) => PrefixOutput::Consumed,
        }
    }

    fn process_active(&mut self, event: &KeyEvent) -> (r: PrefixOutput)
        requires
            old(self).wf(),
            old(self).active,
            crate::input::encodable(*event),
        ensures
            final(self).wf(),
            forall|now: Instant| (r@, final(self)@) == #[trigger] step(old(self)@, *event, now),
    {
        // Plain Escape cancels the prefix.
        if event.key == KeyName::Escape && event.modifiers == Modifiers::none() {
            self.deactivate();
            return PrefixOutput::Consumed;
        }
        // The prefix key pressed again sends one literal prefix key.
        if let Some(prefix) = self.keys.prefix {
            if prefix.matches(event) {
                self.deactivate();
                let mut bytes: Vec<u8> = Vec::new();
                bytes.extend_from_slice(self.prefix_bytes.as_slice());
                assert(bytes@ =~= self.prefix_bytes@);
                return PrefixOutput::SendToSession(bytes);
            }
        }
        let action = self.keys.classify(event, true);
        self.deactivate();
        match action {
            InputAction::ChordBinding(action_ref) => PrefixOutput::DispatchAction(action_ref),
            InputAction::RawInput(key_bytes) => {
                // An unbound key is sent after the prefix key.
                let mut bytes: Vec<u8> = Vec::new();
                bytes.extend_from_slice(self.prefix_bytes.as_slice());
                bytes.extend_from_slice(key_bytes.as_slice());
                assert(bytes@ =~= self.prefix_bytes@ + key_bytes@);
                PrefixOutput::SendToSession(bytes)
            },
            InputAction::PrefixKey => PrefixOutput::Consumed,
            InputAction::SingleStrokeBinding(_) => PrefixOutput::Consumed,
        }
    }
}

/// Convert a `KeySpec` to the raw terminal bytes it would produce.
pub fn key_spec_to_bytes(spec: &KeySpec) -> (r: Vec<u8>)
    requires
        crate::input::encodable(spec_event(*spec)),
    ensures
        r@ == crate::input::event_bytes(spec_event(*spec)),
{
    let event = KeyEvent { key: spec.key, modifiers: spec.modifiers, character: None };
    key_event_to_bytes(&event)
}

// ── Laws ─────────────────────────────────────────────────────────────────────

/// A prefix that was read from a key spec has bytes, so a machine can always be made of a
/// classifier that was built from bindings.
pub proof fn law_read_prefix_is_encodable(prefix: Option<String>)
    ensures
        crate::input::read_prefix(prefix) matches Ok(Some(spec)) ==> crate::input::encodable(
            spec_event(spec),
        ),
{
    if let Some(s) = prefix {
        lemma_read_spec_is_valid(
            crate::text::split_on(s@, '+'),
            crate::input::mods(false, false, false),
        );
    }
}

/// A key spec that was read from its segments has a valid key.
proof fn lemma_read_spec_is_valid(parts: Seq<Seq<char>>, acc: Modifiers)
    ensures
        crate::input::spec_of_parts(parts, acc) matches Ok(spec) ==> crate::input::valid_key(
            spec.key,
        ),
    decreases parts.len(),
{
    if parts.len() > 0 {
        match crate::input::modifier_of(parts[0]) {
            Some(m) => lemma_read_spec_is_valid(parts.drop_first(), acc.union(m)),
            None => crate::input::law_parsed_keys_are_valid(parts[0]),
        }
    }
}

/// Every key pressed while the prefix is active returns the machine to idle.
pub proof fn law_any_key_ends_prefix(s: PrefixView, event: KeyEvent, now: Instant)
    requires
        s.since is Some,
    ensures
        step(s, event, now).1.since is None,
{
}

/// Only the prefix key activates the prefix.
pub proof fn law_only_prefix_key_activates(s: PrefixView, event: KeyEvent, now: Instant)
    requires
        s.since is None,
        step(s, event, now).1.since is Some,
    ensures
        crate::input::is_prefix(s.keys, event),
        step(s, event, now).1.since == Some(now),
{
}

/// The bindings never change.
pub proof fn law_step_keeps_bindings(s: PrefixView, event: KeyEvent, now: Instant)
    ensures
        step(s, event, now).1.keys == s.keys,
{
}

/// Pressing the prefix key twice sends it once, unless it is plain Escape, which cancels.
pub proof fn law_double_prefix_sends_it_once(
    s: PrefixView,
    event: KeyEvent,
    first: Instant,
    second: Instant,
)
    requires
        s.since is None,
        crate::input::is_prefix(s.keys, event),
        !(event.key == KeyName::Escape && event.modifiers == crate::input::mods(
            false,
            false,
            false,
        )),
    ensures
        ({
            let (o1, s1) = step(s, event, first);
            let (o2, s2) = step(s1, event, second);
            o1 == PrefixOutputView::Consumed && o2 == PrefixOutputView::SendToSession(
                prefix_key_bytes(s.keys),
            ) && s2 == s
        }),
{
}

/// Without a prefix key the machine never leaves idle.
pub proof fn law_no_prefix_stays_idle(s: PrefixView, event: KeyEvent, now: Instant)
    requires
        s.keys.prefix is None,
        s.since is None,
    ensures
        step(s, event, now).1 == s,
{
}

/// A prefix that has lapsed stays lapsed.
pub proof fn law_lapsed_stays_lapsed(s: PrefixView, now: Instant, later: Instant)
    requires
        lapsed(s, now),
        now.nanos <= later.nanos,
    ensures
        lapsed(s, later),
{
}

/// Text gives one output for each character.
pub proof fn law_one_output_per_character(
    s: PrefixView,
    text: Seq<char>,
    now: Instant,
)
    ensures
        text_steps(s, text, now).0.len() == text.len(),
    decreases text.len(),
{
    if text.len() > 0 {
        law_one_output_per_character(s, text.drop_last(), now);
    }
}

proof fn lemma_first_chord(
    chords: Seq<(crate::input::ChordKey, ActionReferenceView)>,
    event: KeyEvent,
    i: int,
)
    requires
        0 <= i < chords.len(),
        chords[i].0.matches_event(event),
        forall|j: int| 0 <= j < i ==> !(#[trigger] chords[j]).0.matches_event(event),
    ensures
        crate::input::chord_action(chords, event) == Some(chords[i].1),
    decreases chords.len(),
{
    if i > 0 {
        let rest = chords.drop_first();
        assert(!chords[0].0.matches_event(event));
        assert forall|j: int| 0 <= j < i - 1 implies !(#[trigger] rest[j]).0.matches_event(
            event,
        ) by {
            assert(!chords[j + 1].0.matches_event(event));
        }
        lemma_first_chord(rest, event, i - 1);
    }
}

/// A printable character that is bound as a chord dispatches its action when it arrives as text
/// while the prefix is active, just as when its key is pressed. An earlier chord for the same key
/// comes first, and so does the prefix key.
pub proof fn law_chord_text_dispatches(s: PrefixView, c: char, i: int, now: Instant)
    requires
        s.since is Some,
        !crate::text::is_control(c),
        0 <= i < s.keys.chords.len(),
        s.keys.chords[i].0 == crate::input::ChordKey::Character(c),
        forall|j: int|
            0 <= j < i ==> !(#[trigger] s.keys.chords[j]).0.matches_event(
                crate::input::text_key(c)->0,
            ),
        !crate::input::is_prefix(s.keys, crate::input::text_key(c)->0),
    ensures
        text_steps(s, seq![c], now) == (
            seq![PrefixOutputView::DispatchAction(s.keys.chords[i].1)],
            (PrefixView { keys: s.keys, since: None }),
        ),
{
    let e = crate::input::text_key(c)->0;
    lemma_first_chord(s.keys.chords, e, i);
    lemma_one_character(s, c, now);
}

/// Text of one character gives what the character gives.
pub proof fn lemma_one_character(s: PrefixView, c: char, now: Instant)
    ensures
        text_steps(s, seq![c], now) == (
            seq![text_step(s, c, now).0],
            text_step(s, c, now).1,
        ),
{
    let text = seq![c];
    assert(text.drop_last() =~= Seq::<char>::empty());
    assert(text_steps(s, text.drop_last(), now) == (Seq::<PrefixOutputView>::empty(), s));
    assert(Seq::<PrefixOutputView>::empty().push(text_step(s, c, now).0) =~= seq![
        text_step(s, c, now).0,
    ]);
}

/// Text that no binding concerns is sent as it is: a character as its UTF-8 encoding, after the
/// prefix key if the prefix is active.
pub proof fn law_unbound_text_is_sent(s: PrefixView, c: char, now: Instant)
    requires
        crate::input::text_key(c) matches Some(e) ==> {
            &&& !crate::input::is_prefix(s.keys, e)
            &&& s.since is Some ==> crate::input::chord_action(s.keys.chords, e) is None
            &&& s.since is None ==> crate::input::stroke_action(s.keys.single_strokes, e) is None
        },
    ensures
        text_steps(s, seq![c], now).0 == seq![
            PrefixOutputView::SendToSession(
                (if s.since is Some {
                    prefix_key_bytes(s.keys)
                } else {
                    Seq::empty()
                }) + encode_scalar(c as u32),
            ),
        ],
        text_steps(s, seq![c], now).1 == (PrefixView { keys: s.keys, since: None }),
{
    lemma_one_character(s, c, now);
    crate::input::lemma_text_key_bytes(c);
    assert(Seq::<u8>::empty() + encode_scalar(c as u32) =~= encode_scalar(c as u32));
}

/// While the prefix is active, plain Escape cancels it and nothing is sent.
pub proof fn law_escape_cancels(s: PrefixView, event: KeyEvent, now: Instant)
    requires
        s.since is Some,
        event.key == KeyName::Escape,
        !event.modifiers.has_ctrl && !event.modifiers.has_alt && !event.modifiers.has_shift,
    ensures
        step(s, event, now) == (
            PrefixOutputView::Consumed,
            (PrefixView { keys: s.keys, since: None }),
        ),
{
}

/// While the prefix is active, a chord gives its action, and any other key is sent behind the bytes
/// of the prefix.
pub proof fn law_keys_after_the_prefix(s: PrefixView, event: KeyEvent, now: Instant, i: int)
    requires
        s.since is Some,
        !(event.key == KeyName::Escape && event.modifiers == crate::input::mods(
            false,
            false,
            false,
        )),
        !crate::input::is_prefix(s.keys, event),
        0 <= i <= s.keys.chords.len(),
        forall|j: int| 0 <= j < i ==> !(#[trigger] s.keys.chords[j]).0.matches_event(event),
        i < s.keys.chords.len() ==> s.keys.chords[i].0.matches_event(event),
    ensures
        i < s.keys.chords.len() ==> step(s, event, now).0 == PrefixOutputView::DispatchAction(
            s.keys.chords[i].1,
        ),
        i == s.keys.chords.len() && s.keys.prefix is Some ==> step(s, event, now).0
            == PrefixOutputView::SendToSession(
            crate::input::event_bytes(
                KeyEvent {
                    key: s.keys.prefix->0.key,
                    modifiers: s.keys.prefix->0.modifiers,
                    character: None,
                },
            ) + crate::input::event_bytes(event),
        ),
{
    crate::input::law_first_chord_counts(s.keys.chords, event, i);
}

/// While no prefix is active, the prefix key makes it so, a bound key gives its action, and any other
/// key is sent as it is.
pub proof fn law_keys_without_a_prefix(s: PrefixView, event: KeyEvent, now: Instant, i: int)
    requires
        s.since is None,
        0 <= i <= s.keys.single_strokes.len(),
        forall|j: int|
            0 <= j < i ==> !(#[trigger] s.keys.single_strokes[j]).0.matches_event(event),
        i < s.keys.single_strokes.len() ==> s.keys.single_strokes[i].0.matches_event(event),
    ensures
        crate::input::is_prefix(s.keys, event) ==> step(s, event, now) == (
            PrefixOutputView::Consumed,
            (PrefixView { keys: s.keys, since: Some(now) }),
        ),
        !crate::input::is_prefix(s.keys, event) && i < s.keys.single_strokes.len() ==> step(
            s,
            event,
            now,
        ) == (PrefixOutputView::DispatchAction(s.keys.single_strokes[i].1), s),
        !crate::input::is_prefix(s.keys, event) && i == s.keys.single_strokes.len() ==> step(
            s,
            event,
            now,
        ) == (PrefixOutputView::SendToSession(crate::input::event_bytes(event)), s),
{
    crate::input::law_first_stroke_counts(s.keys.single_strokes, event, i);
}

/// The prefix lapses exactly when it has been active for as many milliseconds as the bindings say.
pub proof fn law_prefix_lapses_in_time(s: PrefixView, at: Instant, now: Instant)
    requires
        s.since == Some(at),
        s.keys.timeout_ms > 0,
    ensures
        lapsed(s, now) <==> now.nanos >= at.nanos + s.keys.timeout_ms * 1_000_000,
        !lapsed(PrefixView { keys: s.keys, since: None }, now),
{
}

/// Text is processed one character after the other: first its beginning, and then the rest from the
/// state that the beginning leads to.
pub proof fn law_text_is_processed_in_order(s: PrefixView, a: Seq<char>, b: Seq<char>, now: Instant)
    ensures
        ({
            let (first, mid) = text_steps(s, a, now);
            let (second, end) = text_steps(mid, b, now);
            text_steps(s, a + b, now) == (first + second, end)
        }),
    decreases b.len(),
{
    let (first, mid) = text_steps(s, a, now);
    if b.len() == 0 {
        assert(a + b =~= a);
        assert(first + Seq::<PrefixOutputView>::empty() =~= first);
    } else {
        law_text_is_processed_in_order(s, a, b.drop_last(), now);
        assert((a + b).drop_last() =~= a + b.drop_last());
        let (second, end) = text_steps(mid, b.drop_last(), now);
        let output = text_step(end, b.last(), now).0;
        assert(first + second.push(output) =~= (first + second).push(output));
    }
}

/// A character that stands for a key does what the key does.
pub proof fn law_typed_text_does_what_keys_do(s: PrefixView, c: char, now: Instant)
    requires
        crate::input::text_key(c) is Some,
    ensures
        ({
            let (output, end) = step(s, crate::input::text_key(c)->0, now);
            text_steps(s, seq![c], now) == (seq![output], end)
        }),
{
    lemma_one_character(s, c, now);
}

/// The label of the prefix is the text of its key.
pub proof fn law_label_reads_back(c: ClassifierView)
    requires
        c.prefix is Some,
        crate::input::valid_key(c.prefix->0.key),
    ensures
        crate::input::parse_spec(prefix_key_label(c)) == Ok::<
            KeySpec,
            crate::input::KeySpecErrorView,
        >(c.prefix->0),
{
    crate::input::law_spec_text_reads_back(c.prefix->0);
}

} // verus!
