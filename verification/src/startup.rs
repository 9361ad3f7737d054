//! When the window is shown and painted for the first time, and how soon it is painted after
//! that.
use vstd::prelude::*;

use crate::output::should_coalesce_primary_screen_output;
use crate::paint_scheduler::PaintScheduler;
use crate::time::{Duration, Instant};

verus! {

/// How long the window waits to be shown for a connection, in milliseconds.
pub const CONNECT_SHOW_DELAY_MS: u64 = 400;

/// How long the window waits to be shown for the first frame once there is a connection, in
/// milliseconds.
pub const ATTACH_SHOW_DELAY_MS: u64 = 120;

/// How long a window that is shown waits to be painted for the first frame, in milliseconds.
pub const PRESENT_DELAY_MS: u64 = 700;

/// Whether the window is shown, and what it waits for.
#[derive(Debug, Clone, Copy, PartialEq, Eq, Structural)]
pub struct Startup {
    pub window_shown: bool,
    /// Whether the sessions have not yet been seen at the sizes of their panes.
    pub awaiting_frame: bool,
    /// Whether the host is still to be asked for its state at the new sizes.
    pub refresh_pending: bool,
    /// When to paint even without the first frame.
    pub present_deadline: Option<Instant>,
    /// When to show the window even without the first frame.
    pub show_deadline: Option<Instant>,
}

/// The point a number of milliseconds after another.
pub open spec fn later(now: Instant, millis: u64) -> Instant {
    Instant { nanos: (now.nanos + millis * crate::time::NANOS_PER_MILLI) as u128 }
}

/// Whether there is room on the clock for the longest delay.
pub open spec fn clock_ok(now: Instant) -> bool {
    now.nanos + PRESENT_DELAY_MS * crate::time::NANOS_PER_MILLI <= u128::MAX
}

/// Whether a deadline has passed.
pub open spec fn passed(deadline: Option<Instant>, now: Instant) -> bool {
    deadline matches Some(d) && now.nanos >= d.nanos
}

fn after(now: Instant, millis: u64) -> (r: Instant)
    requires
        now.nanos + millis * crate::time::NANOS_PER_MILLI <= u128::MAX,
    ensures
        r == later(now, millis),
{
    now + Duration::from_millis(millis)
}

fn is_past(deadline: Option<Instant>, now: Instant) -> (r: bool)
    ensures
        r == passed(deadline, now),
{
    match deadline {
        Some(d) => now.nanos >= d.nanos,
        None => false,
    }
}

/// The state at the start: without a host the window is shown at once.
pub open spec fn started(has_bridge: bool, now: Instant) -> Startup {
    Startup {
        window_shown: !has_bridge,
        awaiting_frame: has_bridge,
        refresh_pending: has_bridge,
        present_deadline: None,
        show_deadline: if has_bridge {
            Some(later(now, CONNECT_SHOW_DELAY_MS))
        } else {
            None
        },
    }
}

/// The state after the tabs of the workspace came, and whether the host is to be asked for its
/// state again.
pub open spec fn after_attach(s: Startup, sizes_match: bool) -> (Startup, bool) {
    if s.awaiting_frame && sizes_match {
        (
            Startup {
                awaiting_frame: false,
                refresh_pending: false,
                present_deadline: None,
                ..s
            },
            false,
        )
    } else if s.awaiting_frame && s.refresh_pending {
        (Startup { refresh_pending: false, ..s }, true)
    } else {
        (s, false)
    }
}

/// The state after the panes got other sizes, and whether the host is to be asked for its state
/// again.
pub open spec fn after_resize(s: Startup, host: bool) -> (Startup, bool) {
    if s.awaiting_frame {
        (Startup { refresh_pending: !host, ..s }, host)
    } else {
        (s, false)
    }
}

/// Whether the window is to be shown.
pub open spec fn shows(s: Startup, now: Instant) -> bool {
    !s.window_shown && (!s.awaiting_frame || passed(s.show_deadline, now))
}

/// The state after the window was shown, and whether the host is to be asked for its state again.
/// `laid_out` says whether the window has a size by which the panes were laid out.
pub open spec fn after_show(s: Startup, now: Instant, laid_out: bool, host: bool) -> (Startup, bool) {
    let s1 = Startup {
        window_shown: true,
        present_deadline: if s.awaiting_frame {
            Some(later(now, PRESENT_DELAY_MS))
        } else {
            None
        },
        ..s
    };
    if laid_out {
        after_resize(s1, host)
    } else {
        (s1, false)
    }
}

/// Whether the window may be painted.
pub open spec fn may_paint(s: Startup, now: Instant) -> bool {
    s.window_shown && (!s.awaiting_frame || passed(s.present_deadline, now))
}

impl Startup {
    /// The state at the start.
    pub fn new(has_bridge: bool, now: Instant) -> (r: Startup)
        requires
            clock_ok(now),
        ensures
            r == started(has_bridge, now),
    {
        let show_deadline = if has_bridge {
            Some(after(now, CONNECT_SHOW_DELAY_MS))
        } else {
            None
        };
        Startup {
            window_shown: !has_bridge,
            awaiting_frame: has_bridge,
            refresh_pending: has_bridge,
            present_deadline: None,
            show_deadline,
        }
    }

    /// There is a connection to the host.
    pub fn on_connected(&mut self, now: Instant)
        requires
            clock_ok(now),
        ensures
            *final(self) == (Startup {
                show_deadline: Some(later(now, ATTACH_SHOW_DELAY_MS)),
                present_deadline: None,
                ..*old(self)
            }),
    {
        self.show_deadline = Some(after(now, ATTACH_SHOW_DELAY_MS));
        self.present_deadline = None;
    }

    /// The tabs of the workspace came. Returns whether the host is to be asked for its state
    /// again.
    pub fn on_attached(&mut self, sizes_match: bool) -> (r: bool)
        ensures
            (*final(self), r) == after_attach(*old(self), sizes_match),
    {
        if self.awaiting_frame {
            if sizes_match {
                self.awaiting_frame = false;
                self.refresh_pending = false;
                self.present_deadline = None;
            } else if self.refresh_pending {
                self.refresh_pending = false;
                return true;
            }
        }
        false
    }

    /// The panes got other sizes. Returns whether the host is to be asked for its state again.
    pub fn on_resized(&mut self, host: bool) -> (r: bool)
        ensures
            (*final(self), r) == after_resize(*old(self), host),
    {
        if self.awaiting_frame {
            self.refresh_pending = !host;
            return host;
        }
        false
    }

    /// Whether the window is to be shown.
    pub fn should_show(&self, now: Instant) -> (r: bool)
        ensures
            r == shows(*self, now),
    {
        !self.window_shown && (!self.awaiting_frame || is_past(self.show_deadline, now))
    }

    /// The window was shown. Returns whether the host is to be asked for its state again.
    pub fn on_shown(&mut self, now: Instant, laid_out: bool, host: bool) -> (r: bool)
        requires
            clock_ok(now),
        ensures
            (*final(self), r) == after_show(*old(self), now, laid_out, host),
    {
        self.present_deadline = if self.awaiting_frame {
            Some(after(now, PRESENT_DELAY_MS))
        } else {
            None
        };
        self.window_shown = true;
        if laid_out {
            self.on_resized(host)
        } else {
            false
        }
    }

    /// Whether the window may be painted. A deadline for the first frame that has passed is
    /// forgotten.
    pub fn ready_to_paint(&mut self, now: Instant) -> (r: bool)
        ensures
            r == may_paint(*old(self), now),
            *final(self) == if !old(self).awaiting_frame || passed(
                old(self).present_deadline,
                now,
            ) {
                (Startup { present_deadline: None, ..*old(self) })
            } else {
                *old(self)
            },
    {
        let ready = !self.awaiting_frame || is_past(self.present_deadline, now);
        if ready {
            self.present_deadline = None;
        }
        self.window_shown && ready
    }
}

// ── Painting ─────────────────────────────────────────────────────────────────

/// What happened in one turn of the event loop that is to be painted.
#[derive(Debug, Clone, Copy, PartialEq, Eq, Structural)]
pub struct PaintNeeds {
    pub needed: bool,
    /// Whether anything is to be painted at once.
    pub at_once: bool,
    /// Whether a visible pane on the alternate screen got output.
    pub alt_output: bool,
    /// Whether a visible pane on the primary screen got output that redraws it.
    pub redraw_output: bool,
}

/// Nothing is to be painted.
pub open spec fn nothing_to_paint() -> PaintNeeds {
    PaintNeeds { needed: false, at_once: false, alt_output: false, redraw_output: false }
}

/// What is to be painted after output of a session to a visible pane.
pub open spec fn with_output(n: PaintNeeds, alternate: bool, data: Seq<u8>) -> PaintNeeds {
    if alternate {
        PaintNeeds { needed: true, alt_output: true, ..n }
    } else if crate::output::redraws(data) {
        PaintNeeds { needed: true, redraw_output: true, ..n }
    } else {
        PaintNeeds { needed: true, at_once: true, ..n }
    }
}

/// The scheduler after a turn of the event loop: output that redraws a pane is gathered, unless
/// anything is to be painted at once.
pub open spec fn requested(s: PaintScheduler, n: PaintNeeds, now: Instant) -> PaintScheduler {
    if !n.needed {
        s
    } else if (n.alt_output || n.redraw_output) && !n.at_once {
        crate::paint_scheduler::with_burst(s, now)
    } else {
        crate::paint_scheduler::with_immediate(s)
    }
}

impl PaintNeeds {
    /// Nothing is to be painted.
    pub fn new() -> (r: PaintNeeds)
        ensures
            r == nothing_to_paint(),
    {
        PaintNeeds { needed: false, at_once: false, alt_output: false, redraw_output: false }
    }

    /// Something is to be painted at once.
    pub fn paint_at_once(&mut self)
        ensures
            *final(self) == (PaintNeeds { needed: true, at_once: true, ..*old(self) }),
    {
        self.needed = true;
        self.at_once = true;
    }

    /// A visible pane got output of its session. `alternate` says whether it is on the alternate
    /// screen after it.
    pub fn note_output(&mut self, alternate: bool, data: &[u8])
        ensures
            *final(self) == with_output(*old(self), alternate, data@),
    {
        self.needed = true;
        if alternate {
            self.alt_output = true;
        } else if should_coalesce_primary_screen_output(data) {
            self.redraw_output = true;
        } else {
            self.at_once = true;
        }
    }

    /// Request what is to be painted.
    pub fn request(&self, scheduler: &mut PaintScheduler, now: Instant)
        requires
            now.nanos + old(scheduler).alt_screen_coalesce.nanos <= u128::MAX,
        ensures
            *final(scheduler) == requested(*old(scheduler), *self, now),
    {
        if self.needed {
            if (self.alt_output || self.redraw_output) && !self.at_once {
                scheduler.request_alt_screen_burst(now);
            } else {
                scheduler.request_immediate();
            }
        }
    }
}

// ── Laws ─────────────────────────────────────────────────────────────────────

/// The window is shown by the deadline at the latest, and painted by the next one.
pub proof fn law_window_appears(has_bridge: bool, start: Instant, now: Instant, then: Instant)
    requires
        clock_ok(start),
        clock_ok(now),
        now.nanos >= later(start, CONNECT_SHOW_DELAY_MS).nanos,
        then.nanos >= later(now, PRESENT_DELAY_MS).nanos,
    ensures
        started(has_bridge, start).window_shown || shows(started(has_bridge, start), now),
        may_paint(after_show(started(has_bridge, start), now, true, false).0, then),
{
}

/// Once the sessions were seen at the sizes of their panes, nothing is waited for any more.
pub proof fn law_first_frame_ends_waiting(s: Startup, now: Instant)
    ensures
        s.window_shown ==> may_paint(after_attach(s, true).0, now),
        !s.window_shown ==> shows(after_attach(s, true).0, now),
        !after_attach(s, true).1,
{
}

/// Until there is a connection or a deadline, a window with a host is not shown.
pub proof fn law_window_waits(start: Instant, now: Instant)
    requires
        clock_ok(start),
        now.nanos < later(start, CONNECT_SHOW_DELAY_MS).nanos,
    ensures
        !shows(started(true, start), now),
        !may_paint(started(true, start), now),
{
}

/// What is to be painted at once is not held back by output.
pub proof fn law_at_once_is_not_held_back(
    s: PaintScheduler,
    n: PaintNeeds,
    alternate: bool,
    data: Seq<u8>,
    now: Instant,
)
    requires
        n.needed,
        n.at_once,
    ensures
        crate::paint_scheduler::paint_due(requested(s, with_output(n, alternate, data), now), now),
{
}

/// The first state of the workspace is asked for again, once, if its sessions do not fit the window,
/// and the window goes on waiting; if they fit, the waiting is over.
pub proof fn law_sizes_are_asked_for_once(s: Startup)
    requires
        s.awaiting_frame,
    ensures
        s.refresh_pending ==> after_attach(s, false).1 && !after_attach(s, false).0.refresh_pending
            && after_attach(s, false).0.awaiting_frame,
        !s.refresh_pending ==> after_attach(s, false) == (s, false),
        !after_attach(after_attach(s, false).0, false).1,
        !after_attach(s, true).0.awaiting_frame && !after_attach(s, true).0.refresh_pending,
        after_attach(s, true).0.window_shown == s.window_shown,
{
}

/// Once nothing is awaited, neither an attach nor a new size asks for the state again.
pub proof fn law_later_changes_ask_for_nothing(s: Startup, sizes_match: bool, host: bool)
    requires
        !s.awaiting_frame,
    ensures
        after_attach(s, sizes_match) == (s, false),
        after_resize(s, host) == (s, false),
{
}

/// A new size while the first frame is awaited asks a host for the state at once; without one that
/// waits for the attach.
pub proof fn law_new_sizes_while_waiting(s: Startup, host: bool)
    requires
        s.awaiting_frame,
    ensures
        after_resize(s, host).1 == host,
        after_resize(s, host).0.refresh_pending == !host,
        after_resize(s, host).0.awaiting_frame,
        after_resize(s, host).0.window_shown == s.window_shown,
{
}

/// A window is shown once. Shown while the first frame is awaited, it is not painted before the time
/// for that has passed; shown afterwards, at once.
pub proof fn law_shown_windows_are_painted_in_time(
    s: Startup,
    now: Instant,
    then: Instant,
    laid_out: bool,
    host: bool,
)
    requires
        clock_ok(now),
    ensures
        ({
            let shown = after_show(s, now, laid_out, host).0;
            &&& shown.window_shown
            &&& !shows(shown, then)
            &&& !s.awaiting_frame ==> may_paint(shown, then)
            &&& s.awaiting_frame ==> (may_paint(shown, then) <==> then.nanos >= now.nanos
                + PRESENT_DELAY_MS * 1_000_000)
            &&& !laid_out ==> !after_show(s, now, laid_out, host).1
        }),
{
}

/// Output on the alternate screen and output that redraws the screen are gathered; other output is
/// painted at once, and so is everything along with it.
pub proof fn law_output_is_gathered_or_painted(
    s: PaintScheduler,
    alternate: bool,
    data: Seq<u8>,
    now: Instant,
)
    requires
        s.alt_screen_coalesce.nanos > 0,
        now.nanos + s.alt_screen_coalesce.nanos <= u128::MAX,
    ensures
        ({
            let needs = with_output(nothing_to_paint(), alternate, data);
            let due = crate::paint_scheduler::paint_due(requested(s, needs, now), now);
            &&& alternate || crate::output::redraws(data) ==> !due
            &&& !alternate && !crate::output::redraws(data) ==> due
            &&& requested(s, nothing_to_paint(), now) == s
            &&& requested(s, needs, now).pending
        }),
{
}

} // verus!
