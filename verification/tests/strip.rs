use wtd_ui::panes::{ProgressInfo, ProgressState};
use wtd_ui::tab_strip::{
    lit_segments, progress_color, StripHit, StripScroll, TabAction, TabFill, TabHit, TabStrip,
};

/// The pointer is on the strip, but on none of its parts.
fn inside(tabs: usize) -> StripHit {
    StripHit {
        inside: true,
        scroll_left: false,
        scroll_right: false,
        minimize: false,
        maximize: false,
        close_window: false,
        add: false,
        tabs: (0..tabs).map(|_| TabHit { body: false, close: false }).collect(),
        past_drag_threshold: false,
        drop_index: 0,
    }
}

fn on_tab(tabs: usize, index: usize) -> StripHit {
    let mut hit = inside(tabs);
    hit.tabs[index].body = true;
    hit.drop_index = index;
    hit
}

#[test]
fn add_tab_returns_sequential_ids() {
    let mut strip = TabStrip::new();
    let id1 = strip.add_tab("a".into());
    let id2 = strip.add_tab("b".into());
    let id3 = strip.add_tab("c".into());
    assert_eq!(id1, 1);
    assert_eq!(id2, 2);
    assert_eq!(id3, 3);
    assert_eq!(strip.tab_count(), 3);
}

#[test]
fn set_active_updates_index() {
    let mut strip = TabStrip::new();
    strip.add_tab("a".into());
    strip.add_tab("b".into());
    strip.add_tab("c".into());
    strip.set_active(2);
    assert_eq!(strip.active_index(), 2);
    assert_eq!(strip.active_tab().unwrap().name, "c");
}

#[test]
fn set_active_out_of_bounds_is_noop() {
    let mut strip = TabStrip::new();
    strip.add_tab("a".into());
    strip.set_active(0);
    strip.set_active(99);
    assert_eq!(strip.active_index(), 0);
}

#[test]
fn close_last_tab_returns_window_close() {
    let mut strip = TabStrip::new();
    strip.add_tab("only".into());
    let action = strip.close_tab(0);
    assert_eq!(action, TabAction::WindowClose);
    assert_eq!(strip.tab_count(), 0);
}

#[test]
fn close_tab_adjusts_active_when_after() {
    let mut strip = TabStrip::new();
    strip.add_tab("a".into());
    strip.add_tab("b".into());
    strip.add_tab("c".into());
    strip.set_active(2);
    let action = strip.close_tab(0);
    assert_eq!(action, TabAction::Close(0));
    assert_eq!(strip.active_index(), 1); // was 2, shifted left
    assert_eq!(strip.tabs()[strip.active_index()].name, "c");
}

#[test]
fn close_tab_adjusts_active_when_at_end() {
    let mut strip = TabStrip::new();
    strip.add_tab("a".into());
    strip.add_tab("b".into());
    strip.set_active(1);
    let action = strip.close_tab(1);
    assert_eq!(action, TabAction::Close(1));
    assert_eq!(strip.active_index(), 0);
}

#[test]
fn close_tab_active_before_stays() {
    let mut strip = TabStrip::new();
    strip.add_tab("a".into());
    strip.add_tab("b".into());
    strip.add_tab("c".into());
    strip.set_active(0);
    strip.close_tab(2);
    assert_eq!(strip.active_index(), 0);
    assert_eq!(strip.tab_count(), 2);
}

#[test]
fn reorder_moves_tab() {
    let mut strip = TabStrip::new();
    strip.add_tab("a".into());
    strip.add_tab("b".into());
    strip.add_tab("c".into());
    strip.set_active(0);
    strip.reorder(0, 2);
    assert_eq!(strip.tabs()[0].name, "b");
    assert_eq!(strip.tabs()[1].name, "c");
    assert_eq!(strip.tabs()[2].name, "a");
    assert_eq!(strip.active_index(), 2); // followed the moved tab
}

#[test]
fn reorder_same_index_is_noop() {
    let mut strip = TabStrip::new();
    strip.add_tab("a".into());
    strip.add_tab("b".into());
    strip.reorder(0, 0);
    assert_eq!(strip.tabs()[0].name, "a");
}

#[test]
fn window_title_with_active_tab() {
    let mut strip = TabStrip::new();
    strip.add_tab("main".into());
    strip.add_tab("logs".into());
    strip.set_active(1);
    assert_eq!(
        strip.window_title("MyWorkspace"),
        "MyWorkspace \u{2014} logs"
    );
}

#[test]
fn window_title_no_tabs() {
    let strip = TabStrip::new();
    assert_eq!(strip.window_title("Workspace"), "Workspace");
}

#[test]
fn set_progress_updates_tab_state() {
    let mut strip = TabStrip::new();
    strip.add_tab("main".into());
    strip.set_progress(
        0,
        Some(ProgressInfo {
            state: ProgressState::Warning,
            value: Some(64),
        }),
    );
    assert_eq!(
        strip.tabs()[0].progress,
        Some(ProgressInfo {
            state: ProgressState::Warning,
            value: Some(64),
        })
    );
}

#[test]
fn mouse_down_on_tab_switches() {
    let mut strip = TabStrip::new();
    strip.add_tab("a".into());
    strip.add_tab("b".into());
    strip.set_active(0);

    let action = strip.on_mouse_down(&on_tab(2, 1));
    assert_eq!(action, Some(TabAction::SwitchTo(1)));
    assert_eq!(strip.active_index(), 0);
}

#[test]
fn tab_index_at_returns_hit_tab() {
    let mut strip = TabStrip::new();
    strip.add_tab("a".into());
    strip.add_tab("b".into());

    assert_eq!(strip.tab_index_at(&on_tab(2, 1)), Some(1));
    let mut below = inside(2);
    below.inside = false;
    assert_eq!(strip.tab_index_at(&below), None);
}

#[test]
fn mouse_down_on_close_closes_tab() {
    let mut strip = TabStrip::new();
    strip.add_tab("a".into());
    strip.add_tab("b".into());
    strip.set_active(0);

    let mut hit = on_tab(2, 1);
    hit.tabs[1].close = true;
    let action = strip.on_mouse_down(&hit);
    assert_eq!(action, Some(TabAction::Close(1)));
    assert_eq!(strip.tab_count(), 2);
}

#[test]
fn mouse_down_on_add_creates() {
    let mut strip = TabStrip::new();
    strip.add_tab("a".into());

    let mut hit = inside(1);
    hit.add = true;
    let action = strip.on_mouse_down(&hit);
    assert_eq!(action, Some(TabAction::Create));
}

#[test]
fn mouse_down_outside_strip_is_none() {
    let mut strip = TabStrip::new();
    strip.add_tab("a".into());
    let mut hit = on_tab(1, 0);
    hit.inside = false;
    assert_eq!(strip.on_mouse_down(&hit), None);
}

#[test]
fn drag_reorder() {
    let mut strip = TabStrip::new();
    strip.add_tab("a".into());
    strip.add_tab("b".into());
    strip.add_tab("c".into());
    strip.set_active(0);

    // Mouse down on first tab
    strip.on_mouse_down(&on_tab(3, 0));

    // Move past second tab (exceed threshold)
    let mut moved = on_tab(3, 2);
    moved.past_drag_threshold = true;
    strip.on_mouse_move(&moved);

    // Mouse up
    let action = strip.on_mouse_up(&moved);
    assert!(matches!(action, Some(TabAction::Reorder { .. })));
    // Tab "a" should have moved
    assert_eq!(strip.tabs()[0].name, "b");
}

#[test]
fn window_buttons_become_actions() {
    let mut strip = TabStrip::new();
    let mut hit = inside(0);
    hit.minimize = true;
    assert_eq!(strip.on_mouse_down(&hit), Some(TabAction::MinimizeWindow));
    assert!(strip.hits_interactive_target(&hit));
    let mut hit = inside(0);
    hit.maximize = true;
    assert_eq!(strip.on_mouse_down(&hit), Some(TabAction::ToggleMaximizeWindow));
    let mut hit = inside(0);
    hit.close_window = true;
    assert_eq!(strip.on_mouse_down(&hit), Some(TabAction::WindowClose));
    assert!(!strip.hits_interactive_target(&inside(0)));
}

#[test]
fn arrows_ask_for_a_scroll() {
    let mut strip = TabStrip::new();
    let mut hit = inside(0);
    hit.scroll_right = true;
    assert_eq!(strip.on_mouse_down(&hit), None);
    assert_eq!(strip.scroll, Some(StripScroll::Right));
}

#[test]
fn leaving_the_strip_ends_a_drag() {
    let mut strip = TabStrip::new();
    strip.add_tab("a".into());
    strip.on_mouse_down(&on_tab(1, 0));
    strip.on_mouse_leave();
    assert!(!strip.is_dragging());
    assert_eq!(strip.on_mouse_up(&on_tab(1, 0)), None);
}

#[test]
fn ids_are_not_given_out_again() {
    let mut strip = TabStrip::new();
    strip.add_tab("a".into());
    let second = strip.add_tab("b".into());
    strip.close_tab(1);
    assert!(strip.add_tab("c".into()) > second);
}

#[test]
fn tabs_look_active_hovered_or_plain() {
    let mut strip = TabStrip::new();
    strip.add_tab("a".into());
    strip.add_tab("b".into());
    strip.add_tab("c".into());
    strip.on_mouse_move(&on_tab(3, 1));
    assert_eq!(strip.tab_style(0).fill, TabFill::Active);
    assert!(strip.tab_style(0).outlined && strip.tab_style(0).bold);
    assert_eq!(strip.tab_style(1).fill, TabFill::Hovered);
    assert_eq!(strip.tab_style(2).fill, TabFill::Plain);
}

#[test]
fn progress_rings_fill_up() {
    let at = |value| ProgressInfo { state: ProgressState::Normal, value };
    assert_eq!(lit_segments(&at(None)), 0);
    assert_eq!(lit_segments(&at(Some(0))), 0);
    assert_eq!(lit_segments(&at(Some(1))), 1);
    assert_eq!(lit_segments(&at(Some(50))), 8);
    assert_eq!(lit_segments(&at(Some(100))), 16);
    assert_eq!(lit_segments(&at(Some(250))), 16);
    let busy = ProgressInfo { state: ProgressState::Indeterminate, value: None };
    assert_eq!(lit_segments(&busy), 4);
    assert_eq!(progress_color(&at(None), false), (100, 200, 120));
    assert_eq!(progress_color(&at(None), true), (120, 220, 130));
    let warning = ProgressInfo { state: ProgressState::Warning, value: None };
    assert_eq!(progress_color(&warning, true), (220, 182, 92));
}
