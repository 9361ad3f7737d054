//! Where keys and typed text go: to the palette, to a selection, to an action, or to a session.
use vstd::prelude::*;
use vstd::utf8::*;

use crate::bindings::{ActionReference, ActionReferenceView};
use crate::command_palette::{PaletteHit, PaletteResult, PaletteResultView};
use crate::input::{ClassifierView, InputAction, InputActionView, InputClassifier, KeyEvent};
use crate::panes::LiveTabView;
use crate::pass_through::text_input_bytes;
use crate::prefix_state::{PrefixOutput, PrefixOutputView, PrefixStateMachine, PrefixView};
use crate::selection::move_keyboard_selection;
use crate::text::chars_of;
use crate::time::Instant;
use crate::workbench::{
    action_name, effect_views, no_effects, BenchView, Effect, EffectView, Workbench,
};

verus! {

broadcast use vstd::string::group_string_axioms;

// ── Keys ─────────────────────────────────────────────────────────────────────

/// The action that a key is bound to by itself.
pub open spec fn bound_name(keys: ClassifierView, event: KeyEvent) -> Option<Seq<char>> {
    match crate::input::class_of(keys, event, false) {
        InputActionView::SingleStrokeBinding(action) if crate::command_palette::name_of(
            action,
        ).len() > 0 => Some(crate::command_palette::name_of(action)),
        _ => None,
    }
}

/// The action that a key is bound to by itself.
pub fn bound_action_name(classifier: &InputClassifier, event: &KeyEvent) -> (r: Option<String>)
    requires
        crate::input::encodable(*event),
    ensures
        crate::text::opt_text(r) == bound_name(classifier@, *event),
{
    match classifier.classify(event, false) {
        InputAction::SingleStrokeBinding(action) => {
            let name = action_name(&action);
            if chars_of(name).len() == 0 {
                None
            } else {
                Some(name.to_owned())
            }
        },
        _ => None,
    }
}

/// What input leads to: the workbench, the prefix state, what else there is to do, and whether
/// the window is to be painted.
pub struct Routed {
    pub bench: BenchView,
    pub prefix: PrefixView,
    pub effects: Seq<EffectView>,
    pub repaint: bool,
}

/// What an action leads to.
pub open spec fn action_routed(w: BenchView, p: PrefixView, action: ActionReferenceView) -> Routed {
    let (_, bench, effects) = crate::workbench::dispatched(w, action);
    Routed { bench, prefix: p, effects, repaint: true }
}

/// What bytes for the focused pane lead to.
pub open spec fn bytes_routed(w: BenchView, p: PrefixView, data: Seq<u8>) -> Routed {
    if data.len() > 0 {
        let (bench, effects, repaint) = crate::workbench::focused_input(w, data);
        Routed { bench, prefix: p, effects, repaint }
    } else {
        Routed { bench: w, prefix: p, effects: Seq::empty(), repaint: false }
    }
}

/// What a result of the palette leads to.
pub open spec fn result_routed(w: BenchView, p: PrefixView, result: PaletteResultView) -> Routed {
    match result {
        PaletteResultView::Action(action) => action_routed(w, p, action),
        _ => Routed { bench: w, prefix: p, effects: Seq::empty(), repaint: true },
    }
}

/// Whether the palette offers an action.
pub open spec fn offers(w: BenchView, name: Seq<char>) -> bool {
    exists|i: int|
        0 <= i < w.palette.entries.len() && (#[trigger] w.palette.entries[i]).name == name
}

/// What a key leads to while the palette is open: an action that the palette offers and that the
/// key is bound to is carried out; everything else is for the palette.
pub open spec fn palette_key(w: BenchView, p: PrefixView, event: KeyEvent) -> Routed {
    match bound_name(p.keys, event) {
        Some(name) if offers(w, name) => action_routed(w, p, ActionReferenceView::Simple(name)),
        _ => {
            let (result, palette) = crate::command_palette::on_key(w.palette, event);
            result_routed(BenchView { palette, ..w }, p, result)
        },
    }
}

/// What a key leads to through the prefix state machine.
pub open spec fn prefix_key(w: BenchView, p: PrefixView, event: KeyEvent, now: Instant) -> Routed {
    let (output, after) = crate::prefix_state::step(p, event, now);
    match output {
        PrefixOutputView::DispatchAction(action) => action_routed(w, after, action),
        PrefixOutputView::SendToSession(data) => bytes_routed(w, after, data),
        PrefixOutputView::Consumed => Routed {
            bench: w,
            prefix: after,
            effects: Seq::empty(),
            repaint: true,
        },
    }
}

/// What a key does to a selection that is moved with the keyboard, and whether that uses it up.
pub open spec fn selection_routed(w: BenchView, event: KeyEvent) -> (bool, BenchView) {
    match w.active_tab() {
        Some(tab) => {
            let (used, mouse, keyboard_selection) = crate::selection::selection_key(
                w.mouse,
                w.keyboard_selection,
                tab,
                event,
            );
            (used, BenchView { mouse, keyboard_selection, ..w })
        },
        None => (false, w),
    }
}

/// What a key leads to.
pub open spec fn key_routed(w: BenchView, p: PrefixView, event: KeyEvent, now: Instant) -> Routed {
    if w.palette.visible {
        palette_key(w, p, event)
    } else {
        let (used, w1) = selection_routed(w, event);
        let (passed, armed) = crate::pass_through::passed_key(w1.pass_through, event);
        if used {
            Routed { bench: w1, prefix: p, effects: Seq::empty(), repaint: true }
        } else if passed is Some {
            bytes_routed(BenchView { pass_through: armed, ..w1 }, p, passed->0)
        } else {
            prefix_key(w1, p, event, now)
        }
    }
}

/// What input led to: what else there is to do, and whether the window is to be painted.
#[derive(Debug)]
pub struct Outcome {
    pub effects: Vec<Effect>,
    pub repaint: bool,
}

impl Workbench {
    /// Carry out an action.
    fn route_action(&mut self, action: &ActionReference) -> (r: Outcome)
        requires
            old(self)@.wf(),
            crate::workbench::has_room(old(self)@.strip),
        ensures
            (final(self)@, effect_views(r.effects@)) == (
                crate::workbench::dispatched(old(self)@, action@).1,
                crate::workbench::dispatched(old(self)@, action@).2,
            ),
            r.repaint,
            final(self)@.wf(),
    {
        let (_, effects) = self.dispatch_action(action);
        Outcome { effects, repaint: true }
    }

    fn route_bytes(&mut self, data: Vec<u8>) -> (r: Outcome)
        requires
            old(self)@.wf(),
        ensures
            forall|p: PrefixView|
                #![trigger bytes_routed(old(self)@, p, data@)]
                bytes_routed(old(self)@, p, data@) == (Routed {
                    bench: final(self)@,
                    prefix: p,
                    effects: effect_views(r.effects@),
                    repaint: r.repaint,
                }),
            final(self)@.wf(),
    {
        if data.len() > 0 {
            let (effects, repaint) = self.send_to_focused(data);
            Outcome { effects, repaint }
        } else {
            Outcome { effects: no_effects(), repaint: false }
        }
    }

    /// Carry out what the palette resulted in.
    fn route_result(&mut self, result: &PaletteResult) -> (r: Outcome)
        requires
            old(self)@.wf(),
            crate::workbench::has_room(old(self)@.strip),
        ensures
            forall|p: PrefixView|
                #![trigger result_routed(old(self)@, p, result@)]
                result_routed(old(self)@, p, result@) == (Routed {
                    bench: final(self)@,
                    prefix: p,
                    effects: effect_views(r.effects@),
                    repaint: r.repaint,
                }),
            final(self)@.wf(),
    {
        match result {
            PaletteResult::Action(action) => self.route_action(action),
            _ => Outcome { effects: no_effects(), repaint: true },
        }
    }

    fn route_palette_key(&mut self, prefix: &PrefixStateMachine, event: &KeyEvent) -> (r: Outcome)
        requires
            old(self)@.wf(),
            crate::workbench::has_room(old(self)@.strip),
            crate::input::encodable(*event),
        ensures
            palette_key(old(self)@, prefix@, *event) == (Routed {
                bench: final(self)@,
                prefix: prefix@,
                effects: effect_views(r.effects@),
                repaint: r.repaint,
            }),
            final(self)@.wf(),
    {
        if let Some(name) = bound_action_name(prefix.classifier(), event) {
            if self.palette.has_action(name.as_str()) {
                return self.route_action(&ActionReference::Simple(name));
            }
        }
        let result = self.palette.on_key_event(event);
        self.route_result(&result)
    }

    fn move_selection(&mut self, event: &KeyEvent) -> (r: bool)
        requires
            old(self)@.wf(),
        ensures
            (r, final(self)@) == selection_routed(old(self)@, *event),
            final(self)@.wf(),
            final(self)@.strip == old(self)@.strip,
    {
        if self.active_tab_index < self.tabs.len() {
            let tab = &self.tabs[self.active_tab_index];
            assert(tab@ == self@.tabs[self.active_tab_index as int]);
            return move_keyboard_selection(
                tab,
                &mut self.mouse,
                &mut self.keyboard_selection,
                event,
            );
        }
        false
    }

    /// Process a key: the palette comes first, then a selection that is moved with the keyboard,
    /// then a key that is passed through, and at last the bindings.
    pub fn on_key(&mut self, prefix: &mut PrefixStateMachine, event: &KeyEvent, now: Instant) -> (r:
        Outcome)
        requires
            old(self)@.wf(),
            crate::workbench::has_room(old(self)@.strip),
            old(prefix).wf(),
            crate::input::encodable(*event),
        ensures
            key_routed(old(self)@, old(prefix)@, *event, now) == (Routed {
                bench: final(self)@,
                prefix: final(prefix)@,
                effects: effect_views(r.effects@),
                repaint: r.repaint,
            }),
            final(self)@.wf(),
            final(prefix).wf(),
    {
        if self.palette.is_visible() {
            return self.route_palette_key(prefix, event);
        }
        if self.move_selection(event) {
            return Outcome { effects: no_effects(), repaint: true };
        }
        let ghost w1 = self@;
        if let Some(data) = self.pass_through.process_key(event) {
            return self.route_bytes(data);
        }
        assert(self@ == w1);
        self.route_prefix_key(prefix, event, now)
    }

    fn route_prefix_key(
        &mut self,
        prefix: &mut PrefixStateMachine,
        event: &KeyEvent,
        now: Instant,
    ) -> (r: Outcome)
        requires
            old(self)@.wf(),
            crate::workbench::has_room(old(self)@.strip),
            old(prefix).wf(),
            crate::input::encodable(*event),
        ensures
            prefix_key(old(self)@, old(prefix)@, *event, now) == (Routed {
                bench: final(self)@,
                prefix: final(prefix)@,
                effects: effect_views(r.effects@),
                repaint: r.repaint,
            }),
            final(self)@.wf(),
            final(prefix).wf(),
    {
        match prefix.process(event, now) {
            PrefixOutput::DispatchAction(action) => self.route_action(&action),
            PrefixOutput::SendToSession(data) => self.route_bytes(data),
            PrefixOutput::Consumed => Outcome { effects: no_effects(), repaint: true },
        }
    }
}

// ── Text ─────────────────────────────────────────────────────────────────────

/// What one output of the prefix state machine leads to.
pub open spec fn output_routed(w: BenchView, output: PrefixOutputView) -> (
    BenchView,
    Seq<EffectView>,
) {
    match output {
        PrefixOutputView::DispatchAction(action) => (
            crate::workbench::dispatched(w, action).1,
            crate::workbench::dispatched(w, action).2,
        ),
        PrefixOutputView::SendToSession(data) => if data.len() > 0 {
            (
                crate::workbench::focused_input(w, data).0,
                crate::workbench::focused_input(w, data).1,
            )
        } else {
            (w, Seq::empty())
        },
        PrefixOutputView::Consumed => (w, Seq::empty()),
    }
}

/// What the first `n` outputs of the prefix state machine lead to, one after the other.
pub open spec fn outputs_routed(w: BenchView, outputs: Seq<PrefixOutputView>, n: int) -> (
    BenchView,
    Seq<EffectView>,
)
    decreases n,
{
    if n <= 0 {
        (w, Seq::empty())
    } else {
        let (before, effects) = outputs_routed(w, outputs, n - 1);
        let (after, more) = output_routed(before, outputs[n - 1]);
        (after, effects + more)
    }
}

/// What typed text leads to.
pub open spec fn text_routed(
    w: BenchView,
    p: PrefixView,
    text: Seq<char>,
    now: Instant,
) -> Routed {
    let (passed, armed) = crate::pass_through::passed_text(w.pass_through, text);
    if text.len() == 0 {
        Routed { bench: w, prefix: p, effects: Seq::empty(), repaint: false }
    } else if w.palette.visible {
        Routed {
            bench: BenchView {
                palette: crate::command_palette::after_text(w.palette, text),
                ..w
            },
            prefix: p,
            effects: Seq::empty(),
            repaint: true,
        }
    } else if passed is Some {
        bytes_routed(BenchView { pass_through: armed, ..w }, p, passed->0)
    } else if p.since is Some {
        let (outputs, after) = crate::prefix_state::text_steps(p, text, now);
        let (bench, effects) = outputs_routed(w, outputs, outputs.len() as int);
        Routed { bench, prefix: after, effects, repaint: true }
    } else {
        let (bench, effects, repaint) = crate::workbench::focused_input(w, encode_utf8(text));
        Routed { bench, prefix: p, effects, repaint }
    }
}

/// Whether there is room for `n` more tabs.
pub open spec fn has_room_for(w: BenchView, n: int) -> bool {
    w.strip.next_id + n <= u64::MAX && w.strip.tabs.len() + n <= usize::MAX
}

/// An action opens at most one tab.
pub proof fn lemma_action_opens_one_tab(w: BenchView, action: ActionReferenceView)
    requires
        crate::tab_strip::sound(w.strip),
    ensures
        crate::workbench::dispatched(w, action).1.strip.next_id <= w.strip.next_id + 1,
        crate::workbench::dispatched(w, action).1.strip.tabs.len() <= w.strip.tabs.len() + 1,
{
}

impl Workbench {
    /// Carry out one output of the prefix state machine.
    fn route_output(&mut self, output: &PrefixOutput) -> (r: Vec<Effect>)
        requires
            old(self)@.wf(),
            crate::workbench::has_room(old(self)@.strip),
        ensures
            (final(self)@, effect_views(r@)) == output_routed(old(self)@, output@),
            final(self)@.wf(),
    {
        match output {
            PrefixOutput::DispatchAction(action) => {
                let (_, effects) = self.dispatch_action(action);
                effects
            },
            PrefixOutput::SendToSession(data) => {
                if data.len() > 0 {
                    let mut copy: Vec<u8> = Vec::new();
                    copy.extend_from_slice(data.as_slice());
                    assert(copy@ =~= data@);
                    let (effects, _) = self.send_to_focused(copy);
                    effects
                } else {
                    no_effects()
                }
            },
            PrefixOutput::Consumed => no_effects(),
        }
    }

    /// Carry out outputs of the prefix state machine, one after the other.
    fn route_outputs(&mut self, outputs: &Vec<PrefixOutput>) -> (r: Vec<Effect>)
        requires
            old(self)@.wf(),
            has_room_for(old(self)@, outputs@.len() as int),
        ensures
            ({
                let views = outputs@.map_values(|o: PrefixOutput| o@);
                (final(self)@, effect_views(r@)) == outputs_routed(
                    old(self)@,
                    views,
                    views.len() as int,
                )
            }),
            final(self)@.wf(),
    {
        let ghost views = outputs@.map_values(|o: PrefixOutput| o@);
        let mut effects = no_effects();
        let mut i: usize = 0;
        while i < outputs.len()
            invariant
                i <= outputs@.len(),
                views == outputs@.map_values(|o: PrefixOutput| o@),
                self@.wf(),
                has_room_for(self@, outputs@.len() - i),
                (self@, effect_views(effects@)) == outputs_routed(old(self)@, views, i as int),
            decreases outputs.len() - i,
        {
            let ghost w = self@;
            let ghost before = effect_views(effects@);
            let mut more = self.route_output(&outputs[i]);
            let ghost added = effect_views(more@);
            proof {
                assert(views[i as int] == outputs@[i as int]@);
                if let PrefixOutputView::DispatchAction(a) = views[i as int] {
                    lemma_action_opens_one_tab(w, a);
                }
            }
            effects.append(&mut more);
            assert(effect_views(effects@) =~= before + added);
            i += 1;
        }
        effects
    }

    /// Process typed text: the palette comes first, then text that is passed through, then the
    /// bindings while the prefix is active, and at last the session.
    pub fn on_text(
        &mut self,
        prefix: &mut PrefixStateMachine,
        text: &str,
        now: Instant,
    ) -> (r: Outcome)
        requires
            old(self)@.wf(),
            has_room_for(old(self)@, text@.len() as int),
            old(prefix).wf(),
        ensures
            text_routed(old(self)@, old(prefix)@, text@, now) == (Routed {
                bench: final(self)@,
                prefix: final(prefix)@,
                effects: effect_views(r.effects@),
                repaint: r.repaint,
            }),
            final(self)@.wf(),
            final(prefix).wf(),
    {
        if chars_of(text).len() == 0 {
            return Outcome { effects: no_effects(), repaint: false };
        }
        if self.palette.is_visible() {
            let _ = self.palette.on_text_input(text);
            return Outcome { effects: no_effects(), repaint: true };
        }
        if let Some(data) = self.pass_through.process_text(text) {
            return self.route_bytes(data);
        }
        if prefix.is_prefix_active() {
            let ghost p = prefix@;
            let outputs = prefix.process_text(text, now);
            proof {
                crate::prefix_state::law_one_output_per_character(p, text@, now);
            }
            let effects = self.route_outputs(&outputs);
            return Outcome { effects, repaint: true };
        }
        let (effects, repaint) = self.send_to_focused(text_input_bytes(text));
        Outcome { effects, repaint }
    }
}

// ── Palette clicks ───────────────────────────────────────────────────────────

/// What a click leads to while the palette is open.
pub open spec fn click_routed(w: BenchView, hit: PaletteHit) -> (BenchView, Seq<EffectView>, bool) {
    let (result, palette) = crate::command_palette::on_click_at(w.palette, hit);
    let w1 = BenchView { palette, ..w };
    match result {
        Some(PaletteResultView::Action(action)) => (
            crate::workbench::dispatched(w1, action).1,
            crate::workbench::dispatched(w1, action).2,
            true,
        ),
        Some(_) => (w1, Seq::empty(), true),
        None => (w1, Seq::empty(), false),
    }
}

impl Workbench {
    /// Process a click while the palette is open.
    pub fn on_palette_click(&mut self, hit: PaletteHit) -> (r: Outcome)
        requires
            old(self)@.wf(),
            crate::workbench::has_room(old(self)@.strip),
        ensures
            (final(self)@, effect_views(r.effects@), r.repaint) == click_routed(old(self)@, hit),
            final(self)@.wf(),
    {
        match self.palette.on_click(hit) {
            Some(PaletteResult::Action(action)) => self.route_action(&action),
            Some(_) => Outcome { effects: no_effects(), repaint: true },
            None => Outcome { effects: no_effects(), repaint: false },
        }
    }
}

// ── Indicator ────────────────────────────────────────────────────────────────

/// What the status bar shows of pending input: that the next key is passed through, or that the
/// prefix is active.
pub open spec fn indicated(w: BenchView, p: PrefixView) -> BenchView {
    BenchView {
        bar: crate::status_bar::BarView {
            prefix_label: if w.pass_through {
                "SEND KEY"@
            } else {
                crate::prefix_state::prefix_key_label(p.keys)
            },
            prefix_active: w.pass_through || p.since is Some,
            attention_count: crate::attention::unread_total(w.tabs) as int,
            ..w.bar
        },
        ..w
    }
}

impl Workbench {
    /// Show pending input and the number of panes that ask for attention in the status bar.
    pub fn update_indicator(&mut self, prefix: &PrefixStateMachine)
        requires
            old(self)@.wf(),
            prefix.wf(),
        ensures
            final(self)@ == indicated(old(self)@, prefix@),
            final(self)@.wf(),
    {
        let armed = self.pass_through.is_armed();
        let label = if armed {
            self.pass_through.badge_label()
        } else {
            prefix.prefix_label()
        };
        self.status_bar.set_prefix_label(label.to_owned());
        self.status_bar.set_prefix_active(armed || prefix.is_prefix_active());
        self.status_bar.set_attention_count(crate::attention::attention_count(&self.tabs));
    }
}

// ── Laws ─────────────────────────────────────────────────────────────────────

/// While the palette is open no key and no text reaches a session, unless an action sends it: text
/// has no effects, and the effects of a key are none or those of an action. The prefix is left as
/// it is.
pub proof fn law_open_palette_keeps_input(
    w: BenchView,
    p: PrefixView,
    text: Seq<char>,
    event: KeyEvent,
    now: Instant,
)
    requires
        w.palette.visible,
    ensures
        text_routed(w, p, text, now).effects == Seq::<EffectView>::empty(),
        text_routed(w, p, text, now).prefix == p,
        key_routed(w, p, event, now).prefix == p,
        key_routed(w, p, event, now).effects == match palette_action(w, p, event) {
            Some((bench, action)) => crate::workbench::dispatched(bench, action).2,
            None => Seq::empty(),
        },
{
}

/// The action that a key leads to while the palette is open, and the workbench that it is carried
/// out on: one that the palette offers and the key is bound to, or else the one that the key
/// chooses from the palette.
pub open spec fn palette_action(w: BenchView, p: PrefixView, event: KeyEvent) -> Option<
    (BenchView, ActionReferenceView),
> {
    match bound_name(p.keys, event) {
        Some(name) if offers(w, name) => Some((w, ActionReferenceView::Simple(name))),
        _ => {
            let (result, palette) = crate::command_palette::on_key(w.palette, event);
            match result {
                PaletteResultView::Action(action) => Some((BenchView { palette, ..w }, action)),
                _ => None,
            }
        },
    }
}

/// A printable character that is bound as a chord carries out its action when it is typed while
/// the prefix is active, unless the palette is open or the next key is passed through.
pub proof fn law_typed_chord_acts(w: BenchView, p: PrefixView, c: char, i: int, now: Instant)
    requires
        !w.palette.visible,
        !w.pass_through,
        p.since is Some,
        !crate::text::is_control(c),
        0 <= i < p.keys.chords.len(),
        p.keys.chords[i].0 == crate::input::ChordKey::Character(c),
        forall|j: int|
            0 <= j < i ==> !(#[trigger] p.keys.chords[j]).0.matches_event(
                crate::input::text_key(c)->0,
            ),
        !crate::input::is_prefix(p.keys, crate::input::text_key(c)->0),
    ensures
        ({
            let r = text_routed(w, p, seq![c], now);
            let (_, bench, effects) = crate::workbench::dispatched(w, p.keys.chords[i].1);
            r.bench == bench && r.effects == effects && r.prefix.since is None
        }),
{
    let action = p.keys.chords[i].1;
    let outputs = seq![PrefixOutputView::DispatchAction(action)];
    let effects = crate::workbench::dispatched(w, action).2;
    crate::prefix_state::law_chord_text_dispatches(p, c, i, now);
    assert(outputs_routed(w, outputs, 0) == (w, Seq::<EffectView>::empty()));
    assert(outputs_routed(w, outputs, 1) == (
        output_routed(w, outputs[0]).0,
        Seq::<EffectView>::empty() + output_routed(w, outputs[0]).1,
    ));
    assert(Seq::<EffectView>::empty() + effects =~= effects);
}

/// Without a connection nothing is sent to a session, whatever key is pressed.
pub proof fn law_no_host_no_input(
    w: BenchView,
    p: PrefixView,
    event: KeyEvent,
    now: Instant,
    i: int,
)
    requires
        !w.host(),
        0 <= i < key_routed(w, p, event, now).effects.len(),
    ensures
        !(key_routed(w, p, event, now).effects[i] is SendInput),
{
    if w.palette.visible {
        lemma_no_host_palette_key(w, p, event, i);
    } else {
        let (used, w1) = selection_routed(w, event);
        let (passed, armed) = crate::pass_through::passed_key(w1.pass_through, event);
        if !used && passed is None {
            lemma_no_host_prefix_key(w1, p, event, now, i);
        }
    }
}

proof fn lemma_no_host_palette_key(w: BenchView, p: PrefixView, event: KeyEvent, i: int)
    requires
        !w.host(),
        0 <= i < palette_key(w, p, event).effects.len(),
    ensures
        !(palette_key(w, p, event).effects[i] is SendInput),
{
    match bound_name(p.keys, event) {
        Some(name) if offers(w, name) => {
            crate::workbench::law_no_host_no_requests(w, ActionReferenceView::Simple(name), i);
        },
        _ => {
            let (result, palette) = crate::command_palette::on_key(w.palette, event);
            if let PaletteResultView::Action(action) = result {
                crate::workbench::law_no_host_no_requests(
                    BenchView { palette, ..w },
                    action,
                    i,
                );
            }
        },
    }
}

proof fn lemma_no_host_prefix_key(
    w: BenchView,
    p: PrefixView,
    event: KeyEvent,
    now: Instant,
    i: int,
)
    requires
        !w.host(),
        0 <= i < prefix_key(w, p, event, now).effects.len(),
    ensures
        !(prefix_key(w, p, event, now).effects[i] is SendInput),
{
    if let PrefixOutputView::DispatchAction(action) = crate::prefix_state::step(p, event, now).0 {
        crate::workbench::law_no_host_no_requests(w, action, i);
    }
}

/// A key that is passed through is sent as it is: no binding applies to it.
pub proof fn law_passed_key_is_sent(
    w: BenchView,
    p: PrefixView,
    event: KeyEvent,
    now: Instant,
)
    requires
        !w.palette.visible,
        !w.keyboard_selection.active,
        w.pass_through,
        w.host(),
        w.active_tab() is Some,
        w.active_tab()->0.session(w.active_tab()->0.focus) is Some,
        crate::input::event_bytes(event).len() > 0,
    ensures
        key_routed(w, p, event, now).effects == seq![
            EffectView::SendInput {
                session_id: w.active_tab()->0.session(
                    w.active_tab()->0.focus,
                )->0.session_id,
                data: crate::input::event_bytes(event),
            },
        ],
        key_routed(w, p, event, now).prefix == p,
        !key_routed(w, p, event, now).bench.pass_through,
{
}

/// With nothing in the way, a key that is bound to nothing goes to the session that has the focus, as
/// the bytes of the key.
pub proof fn law_unbound_keys_reach_the_session(
    w: BenchView,
    p: PrefixView,
    event: KeyEvent,
    now: Instant,
    tab: LiveTabView,
    id: Seq<char>,
)
    requires
        !w.palette.visible,
        !w.pass_through,
        !w.keyboard_selection.active,
        w.host(),
        w.active_tab() == Some(tab),
        tab.session(tab.focus) is Some,
        tab.session(tab.focus)->0.session_id == id,
        p.since is None,
        !crate::input::is_prefix(p.keys, event),
        crate::input::stroke_action(p.keys.single_strokes, event) is None,
        crate::input::event_bytes(event).len() > 0,
    ensures
        key_routed(w, p, event, now).effects == seq![
            EffectView::SendInput { session_id: id, data: crate::input::event_bytes(event) },
        ],
        key_routed(w, p, event, now).prefix == p,
        key_routed(w, p, event, now).bench.tabs == w.tabs,
{
}

/// With nothing in the way, a bound key does what its action does, and the prefix key makes the prefix
/// active without anything being sent.
pub proof fn law_bound_keys_act(
    w: BenchView,
    p: PrefixView,
    event: KeyEvent,
    now: Instant,
    action: ActionReferenceView,
)
    requires
        !w.palette.visible,
        !w.pass_through,
        !w.keyboard_selection.active,
        p.since is None,
    ensures
        !crate::input::is_prefix(p.keys, event) && crate::input::stroke_action(
            p.keys.single_strokes,
            event,
        ) == Some(action) ==> {
            let r = key_routed(w, p, event, now);
            let (_, bench, effects) = crate::workbench::dispatched(w, action);
            r.bench == bench && r.effects == effects && r.prefix == p
        },
        crate::input::is_prefix(p.keys, event) ==> {
            let r = key_routed(w, p, event, now);
            r.bench == w && r.effects.len() == 0 && r.prefix.since == Some(now)
        },
{
    match w.active_tab() {
        Some(tab) => {
            assert(crate::selection::selection_key(
                w.mouse,
                w.keyboard_selection,
                tab,
                event,
            ) == (false, w.mouse, w.keyboard_selection));
        },
        None => {},
    }
    assert(selection_routed(w, event).1 == w);
}

/// A key that moves a selection does nothing else: nothing is sent, and the prefix stays as it is.
pub proof fn law_selection_keys_do_nothing_else(
    w: BenchView,
    p: PrefixView,
    event: KeyEvent,
    now: Instant,
    tab: LiveTabView,
)
    requires
        !w.palette.visible,
        w.active_tab() == Some(tab),
        crate::selection::selection_key(w.mouse, w.keyboard_selection, tab, event).0,
    ensures
        ({
            let r = key_routed(w, p, event, now);
            let (_, mouse, keyboard) = crate::selection::selection_key(
                w.mouse,
                w.keyboard_selection,
                tab,
                event,
            );
            &&& r.effects.len() == 0
            &&& r.prefix == p
            &&& r.bench.mouse == mouse
            &&& r.bench.keyboard_selection == keyboard
            &&& r.bench.pass_through == w.pass_through
            &&& r.bench.tabs == w.tabs
        }),
{
}

/// While the palette is shown, keys and text are for it: it takes text into its query, and a key that
/// is bound to an action that it offers acts at once.
pub proof fn law_open_palette_takes_keys_and_text(
    w: BenchView,
    p: PrefixView,
    event: KeyEvent,
    text: Seq<char>,
    now: Instant,
)
    requires
        w.palette.visible,
    ensures
        text.len() > 0 ==> text_routed(w, p, text, now).bench.palette
            == crate::command_palette::after_text(w.palette, text),
        text_routed(w, p, text, now).bench.tabs == w.tabs,
        text_routed(w, p, text, now).bench.mouse == w.mouse,
        bound_name(p.keys, event) is None ==> {
            let (result, palette) = crate::command_palette::on_key(w.palette, event);
            let r = key_routed(w, p, event, now);
            !(result is Action) ==> r.bench.palette == palette && r.effects.len() == 0
                && r.bench.tabs == w.tabs
        },
{
}

/// With nothing in the way, text goes to the session that has the focus, in UTF-8.
pub proof fn law_text_reaches_the_session(
    w: BenchView,
    p: PrefixView,
    text: Seq<char>,
    now: Instant,
    tab: LiveTabView,
    id: Seq<char>,
)
    requires
        !w.palette.visible,
        w.host(),
        w.active_tab() == Some(tab),
        tab.session(tab.focus) is Some,
        tab.session(tab.focus)->0.session_id == id,
        p.since is None,
        text.len() > 0,
        encode_utf8(text).len() > 0,
    ensures
        text_routed(w, p, text, now).effects == seq![
            EffectView::SendInput { session_id: id, data: encode_utf8(text) },
        ],
        !text_routed(w, p, text, now).bench.pass_through,
        text_routed(w, p, text, now).prefix == p,
{
}

/// What several outputs of the prefix lead to happens one after the other.
pub proof fn law_outputs_happen_in_order(
    w: BenchView,
    outputs: Seq<PrefixOutputView>,
    output: PrefixOutputView,
)
    ensures
        ({
            let n = outputs.len() as int;
            let (before, effects) = outputs_routed(w, outputs, n);
            let (after, more) = output_routed(before, output);
            outputs_routed(w, outputs.push(output), n + 1) == (after, effects + more)
        }),
        outputs_routed(w, outputs, 0) == (w, Seq::<EffectView>::empty()),
{
    lemma_outputs_prefix(w, outputs, output, outputs.len() as int);
}

proof fn lemma_outputs_prefix(
    w: BenchView,
    outputs: Seq<PrefixOutputView>,
    output: PrefixOutputView,
    n: int,
)
    requires
        0 <= n <= outputs.len(),
    ensures
        outputs_routed(w, outputs.push(output), n) == outputs_routed(w, outputs, n),
    decreases n,
{
    if n > 0 {
        lemma_outputs_prefix(w, outputs, output, n - 1);
    }
}

/// An output of the prefix is an action to be done, or bytes for the session that has the focus, or
/// nothing.
pub proof fn law_what_outputs_do(w: BenchView, action: ActionReferenceView, data: Seq<u8>)
    ensures
        output_routed(w, PrefixOutputView::DispatchAction(action)) == (
            crate::workbench::dispatched(w, action).1,
            crate::workbench::dispatched(w, action).2,
        ),
        data.len() > 0 ==> output_routed(w, PrefixOutputView::SendToSession(data)) == (
            crate::workbench::focused_input(w, data).0,
            crate::workbench::focused_input(w, data).1,
        ),
        output_routed(w, PrefixOutputView::Consumed) == (w, Seq::<EffectView>::empty()),
{
}

/// The status bar shows that the prefix is active, or that the next key is passed on, and how many
/// panes ask for attention.
pub proof fn law_indicator(w: BenchView, p: PrefixView)
    ensures
        indicated(w, p).bar.prefix_active <==> w.pass_through || p.since is Some,
        w.pass_through ==> indicated(w, p).bar.prefix_label == "SEND KEY"@,
        !w.pass_through && p.keys.prefix is Some ==> indicated(w, p).bar.prefix_label
            == crate::input::spec_text(p.keys.prefix->0),
        indicated(w, p).bar.attention_count == crate::attention::unread_total(w.tabs),
        indicated(w, p).bar.pane_path == w.bar.pane_path,
        indicated(w, p).tabs == w.tabs,
{
}

/// A click in the palette does the action that it chose.
pub proof fn law_palette_clicks_act(w: BenchView, hit: PaletteHit, action: ActionReferenceView)
    ensures
        crate::command_palette::on_click_at(w.palette, hit).0 == Some(
            PaletteResultView::Action(action),
        ) ==> {
            let palette = crate::command_palette::on_click_at(w.palette, hit).1;
            let (_, bench, effects) = crate::workbench::dispatched(
                BenchView { palette, ..w },
                action,
            );
            click_routed(w, hit) == (bench, effects, true)
        },
        !w.palette.visible ==> click_routed(w, hit) == (w, Seq::<EffectView>::empty(), false),
{
}

} // verus!
