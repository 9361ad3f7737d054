//! Coalesces visible pane repaints so bursty alternate-screen output can settle before the
//! window presents a frame.
use vstd::prelude::*;

use crate::time::{Duration, Instant};

verus! {

/// Default quiet window for visible alternate-screen redraw bursts, in milliseconds.
pub const DEFAULT_ALT_SCREEN_COALESCE_MS: u64 = 10;

/// Decides when a requested repaint is due.
#[derive(Debug)]
pub struct PaintScheduler {
    /// Whether a repaint was requested and has not happened yet.
    pub pending: bool,
    /// The time before which the repaint is held back.
    pub defer_until: Option<Instant>,
    /// How long output must be quiet before a deferred repaint happens.
    pub alt_screen_coalesce: Duration,
}

impl Default for PaintScheduler {
    fn default() -> (r: PaintScheduler)
        ensures
            r == idle_scheduler(default_coalesce()),
    {
        PaintScheduler::new()
    }
}

/// The default quiet window.
pub open spec fn default_coalesce() -> Duration {
    Duration { nanos: (DEFAULT_ALT_SCREEN_COALESCE_MS * crate::time::NANOS_PER_MILLI) as u128 }
}

/// A scheduler without a request.
pub open spec fn idle_scheduler(coalesce: Duration) -> PaintScheduler {
    PaintScheduler { pending: false, defer_until: None, alt_screen_coalesce: coalesce }
}

/// A scheduler after a request for an immediate repaint.
pub open spec fn with_immediate(s: PaintScheduler) -> PaintScheduler {
    PaintScheduler {
        pending: true,
        defer_until: None,
        alt_screen_coalesce: s.alt_screen_coalesce,
    }
}

/// A scheduler after alternate-screen output at `now`.
pub open spec fn with_burst(s: PaintScheduler, now: Instant) -> PaintScheduler {
    PaintScheduler {
        pending: true,
        defer_until: if s.alt_screen_coalesce.nanos == 0 {
            None
        } else {
            Some(Instant { nanos: (now.nanos + s.alt_screen_coalesce.nanos) as u128 })
        },
        alt_screen_coalesce: s.alt_screen_coalesce,
    }
}

/// A scheduler after a repaint.
pub open spec fn after_paint(s: PaintScheduler) -> PaintScheduler {
    idle_scheduler(s.alt_screen_coalesce)
}

/// Whether a repaint is due at `now`.
pub open spec fn paint_due(s: PaintScheduler, now: Instant) -> bool {
    s.pending && (s.defer_until matches Some(deadline) ==> now.nanos >= deadline.nanos)
}

/// How long the event loop may sleep from `now`.
pub open spec fn sleep_for(s: PaintScheduler, default_sleep: Duration, now: Instant) -> int {
    match s.defer_until {
        Some(deadline) if deadline.nanos > now.nanos => {
            let left = deadline.nanos - now.nanos;
            if left < default_sleep.nanos {
                left
            } else {
                default_sleep.nanos as int
            }
        },
        _ => default_sleep.nanos as int,
    }
}

impl PaintScheduler {
    /// A scheduler with the default quiet window.
    pub fn new() -> (r: PaintScheduler)
        ensures
            r == idle_scheduler(default_coalesce()),
    {
        PaintScheduler::with_alt_screen_coalesce(
            Duration::from_millis(DEFAULT_ALT_SCREEN_COALESCE_MS),
        )
    }

    /// A scheduler with the given quiet window.
    pub fn with_alt_screen_coalesce(alt_screen_coalesce: Duration) -> (r: PaintScheduler)
        ensures
            r == idle_scheduler(alt_screen_coalesce),
    {
        PaintScheduler { pending: false, defer_until: None, alt_screen_coalesce }
    }

    /// Queue a repaint that should present on the next loop iteration.
    pub fn request_immediate(&mut self)
        ensures
            *final(self) == with_immediate(*old(self)),
    {
        self.pending = true;
        self.defer_until = None;
    }

    /// Queue a repaint for a burst of alternate-screen output. Each call refreshes the quiet
    /// window so the repaint happens after output goes idle.
    pub fn request_alt_screen_burst(&mut self, now: Instant)
        requires
            now.nanos + old(self).alt_screen_coalesce.nanos <= u128::MAX,
        ensures
            *final(self) == with_burst(*old(self), now),
    {
        self.pending = true;
        self.defer_until = if self.alt_screen_coalesce.is_zero() {
            None
        } else {
            Some(now + self.alt_screen_coalesce)
        };
    }

    /// Whether a repaint is due.
    pub fn should_paint_now(&self, now: Instant) -> (r: bool)
        ensures
            r == paint_due(*self, now),
    {
        if !self.pending {
            return false;
        }
        match self.defer_until {
            Some(deadline) => now.nanos >= deadline.nanos,
            None => true,
        }
    }

    /// Record that the window was repainted.
    pub fn complete_paint(&mut self)
        ensures
            *final(self) == after_paint(*old(self)),
    {
        self.pending = false;
        self.defer_until = None;
    }

    /// Clamp the idle sleep to the next deferred paint deadline so the loop wakes promptly when
    /// an alternate-screen burst settles.
    pub fn sleep_interval(&self, default_sleep: Duration, now: Instant) -> (r: Duration)
        ensures
            r.nanos == sleep_for(*self, default_sleep, now),
    {
        match self.defer_until {
            Some(deadline) => {
                if deadline.nanos > now.nanos {
                    let left: u128 = deadline.nanos - now.nanos;
                    if left < default_sleep.nanos {
                        return Duration { nanos: left };
                    }
                }
                default_sleep
            },
            None => default_sleep,
        }
    }
}

// ── Laws ─────────────────────────────────────────────────────────────────────

/// An immediate request is due at once, whatever was requested before it.
pub proof fn law_immediate_overrides(s: PaintScheduler, burst_at: Instant, now: Instant)
    ensures
        paint_due(with_immediate(s), now),
        paint_due(with_immediate(with_burst(s, burst_at)), now),
{
}

/// After output at `at` a repaint is due once the quiet window has passed, and not before.
pub proof fn law_burst_waits_for_quiet(s: PaintScheduler, at: Instant, now: Instant)
    requires
        at.nanos + s.alt_screen_coalesce.nanos <= u128::MAX,
        at.nanos <= now.nanos,
    ensures
        paint_due(with_burst(s, at), now) <==> now.nanos >= at.nanos + s.alt_screen_coalesce.nanos,
{
}

/// Each burst starts the quiet window anew.
pub proof fn law_burst_refreshes(s: PaintScheduler, first: Instant, second: Instant)
    ensures
        with_burst(with_burst(s, first), second) == with_burst(s, second),
{
}

/// Nothing is due after a repaint until something is requested.
pub proof fn law_nothing_due_after_paint(s: PaintScheduler, now: Instant)
    ensures
        !paint_due(after_paint(s), now),
{
}

/// The loop never sleeps longer than its default, and never past the time at which a deferred
/// repaint becomes due.
pub proof fn law_sleep_wakes_in_time(s: PaintScheduler, default_sleep: Duration, now: Instant)
    ensures
        sleep_for(s, default_sleep, now) <= default_sleep.nanos,
        s.defer_until matches Some(deadline) ==> deadline.nanos > now.nanos ==> now.nanos
            + sleep_for(s, default_sleep, now) <= deadline.nanos,
{
}

/// The wait is exactly as long as it may be: the usual time, or what is left until the next paint is
/// due where that is less.
pub proof fn law_sleep_is_no_shorter_than_needed(
    s: PaintScheduler,
    default_sleep: Duration,
    now: Instant,
    left: u128,
)
    requires
        now.nanos + left <= u128::MAX,
    ensures
        s.defer_until is None ==> sleep_for(s, default_sleep, now) == default_sleep.nanos,
        s.defer_until matches Some(d) ==> d.nanos <= now.nanos ==> sleep_for(s, default_sleep, now)
            == default_sleep.nanos,
        s.defer_until == Some(Instant { nanos: (now.nanos + left) as u128 }) && left > 0 && left
            <= default_sleep.nanos ==> sleep_for(s, default_sleep, now) == left,
        s.defer_until == Some(Instant { nanos: (now.nanos + left) as u128 }) && left
            > default_sleep.nanos ==> sleep_for(s, default_sleep, now) == default_sleep.nanos,
{
}

/// Asking for a paint at once or after a burst is what makes one due at all, and neither changes how
/// long a burst is waited for.
pub proof fn law_only_requests_make_a_paint_due(s: PaintScheduler, now: Instant, then: Instant)
    ensures
        !s.pending ==> !paint_due(s, now),
        with_burst(s, now).pending && with_immediate(s).pending,
        with_burst(s, now).alt_screen_coalesce == s.alt_screen_coalesce,
        with_immediate(s).alt_screen_coalesce == s.alt_screen_coalesce,
        after_paint(s).alt_screen_coalesce == s.alt_screen_coalesce,
        !after_paint(s).pending && after_paint(s).defer_until is None,
{
}

} // verus!
