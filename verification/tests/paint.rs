use wtd_ui::output::should_coalesce_primary_screen_output;
use wtd_ui::paint_scheduler::PaintScheduler;
use wtd_ui::startup::{PaintNeeds, Startup};
use wtd_ui::time::{Duration, Instant};

fn some_time() -> Instant {
    Instant::from_nanos(5_000_000_000)
}

#[test]
fn immediate_requests_paint_without_delay() {
    let mut scheduler = PaintScheduler::with_alt_screen_coalesce(Duration::from_millis(10));
    let now = some_time();

    scheduler.request_immediate();

    assert!(scheduler.should_paint_now(now));
}

#[test]
fn alt_screen_burst_waits_for_quiet_window() {
    let mut scheduler = PaintScheduler::with_alt_screen_coalesce(Duration::from_millis(10));
    let start = some_time();

    scheduler.request_alt_screen_burst(start);

    assert!(!scheduler.should_paint_now(start));
    assert!(!scheduler.should_paint_now(start + Duration::from_millis(9)));
    assert!(scheduler.should_paint_now(start + Duration::from_millis(10)));
}

#[test]
fn immediate_request_overrides_deferred_alt_screen_paint() {
    let mut scheduler = PaintScheduler::with_alt_screen_coalesce(Duration::from_millis(10));
    let start = some_time();

    scheduler.request_alt_screen_burst(start);
    scheduler.request_immediate();

    assert!(scheduler.should_paint_now(start));
}

#[test]
fn sleep_interval_clamps_to_next_deferred_paint_deadline() {
    let scheduler = PaintScheduler::with_alt_screen_coalesce(Duration::from_millis(10));
    let start = some_time();
    let mut scheduler = scheduler;
    scheduler.request_alt_screen_burst(start);

    let sleep = scheduler.sleep_interval(Duration::from_millis(16), start);
    assert_eq!(sleep, Duration::from_millis(10));
}

#[test]
fn nothing_is_painted_unasked_or_twice() {
    let mut scheduler = PaintScheduler::new();
    assert!(!scheduler.should_paint_now(some_time()));
    scheduler.request_immediate();
    scheduler.complete_paint();
    assert!(!scheduler.should_paint_now(some_time()));
    let sleep = scheduler.sleep_interval(Duration::from_millis(16), some_time());
    assert_eq!(sleep, Duration::from_millis(16));
}

#[test]
fn the_clock_adds_and_subtracts() {
    let t = some_time() + Duration::from_millis(3);
    assert_eq!(t.duration_since(some_time()), Duration::from_millis(3));
    assert!(some_time().duration_since(t).is_zero());
}

// ── Output ──────────────────────────────────────────────────────────────────

#[test]
fn plain_output_is_painted_at_once_and_redraws_are_gathered() {
    let mut needs = PaintNeeds::new();
    needs.note_output(false, b"\x1b[2Jagain");
    assert!(should_coalesce_primary_screen_output(b"\x1b[2Jagain"));
    assert!(needs.needed && needs.redraw_output && !needs.at_once);

    let mut scheduler = PaintScheduler::with_alt_screen_coalesce(Duration::from_millis(10));
    needs.request(&mut scheduler, some_time());
    assert!(!scheduler.should_paint_now(some_time()));
    assert!(scheduler.should_paint_now(some_time() + Duration::from_millis(10)));

    needs.note_output(false, b"plain");
    assert!(needs.at_once);
    needs.request(&mut scheduler, some_time());
    assert!(scheduler.should_paint_now(some_time()));
}

#[test]
fn alternate_screen_output_is_gathered() {
    let mut needs = PaintNeeds::new();
    needs.note_output(true, b"x");
    assert!(needs.alt_output && !needs.redraw_output && !needs.at_once);
    needs.paint_at_once();
    assert!(needs.at_once);
}

#[test]
fn an_idle_turn_requests_nothing() {
    let mut scheduler = PaintScheduler::new();
    PaintNeeds::new().request(&mut scheduler, some_time());
    assert!(!scheduler.should_paint_now(some_time()));
}

// ── Startup ─────────────────────────────────────────────────────────────────

#[test]
fn a_window_without_a_host_is_shown_at_once() {
    let mut startup = Startup::new(false, some_time());
    assert!(startup.window_shown);
    assert!(!startup.should_show(some_time()));
    assert!(startup.ready_to_paint(some_time()));
    assert!(!startup.on_resized(true));
}

#[test]
fn a_window_waits_for_the_host_but_not_forever() {
    let start = some_time();
    let mut startup = Startup::new(true, start);
    assert!(!startup.should_show(start + Duration::from_millis(399)));
    assert!(startup.should_show(start + Duration::from_millis(400)));

    startup.on_connected(start);
    assert!(!startup.should_show(start + Duration::from_millis(119)));
    assert!(startup.should_show(start + Duration::from_millis(120)));

    let shown = start + Duration::from_millis(120);
    assert!(startup.on_shown(shown, true, true));
    assert!(!startup.ready_to_paint(shown + Duration::from_millis(699)));
    assert!(startup.ready_to_paint(shown + Duration::from_millis(700)));
}

#[test]
fn the_first_frame_ends_the_wait() {
    let start = some_time();
    let mut startup = Startup::new(true, start);
    assert!(startup.on_attached(false));
    assert!(!startup.on_attached(false));
    assert!(startup.on_resized(true));
    assert!(!startup.refresh_pending);
    assert!(!startup.on_resized(false));
    assert!(startup.refresh_pending);
    assert!(!startup.on_attached(true));
    assert!(startup.should_show(start));
    assert!(!startup.on_shown(start, true, true));
    assert!(startup.ready_to_paint(start));
}
