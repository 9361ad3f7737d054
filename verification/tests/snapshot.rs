use wtd_ui::base64::base64_encode;
use wtd_ui::json::Json;
use wtd_ui::panes::{PaneId, ProgressInfo, ProgressState};
use wtd_ui::snapshot::{
    rebuild_from_snapshot, session_id_string, session_size_from_value, SnapshotRebuild,
    SnapshotTab, TabLayout,
};

fn object(members: Vec<(&str, Json)>) -> Json {
    Json::Object(members.into_iter().map(|(k, v)| (k.to_string(), v)).collect())
}

fn text(s: &str) -> Json {
    Json::Str(s.to_string())
}

fn pane(name: &str) -> Json {
    object(vec![("type", text("pane")), ("name", text(name))])
}

fn attached(session: Json) -> Json {
    object(vec![("type", text("attached")), ("sessionId", session)])
}

/// The layout of a tab with the given panes, one after the other.
fn layout_of(names: &[&str]) -> Option<TabLayout> {
    Some(TabLayout {
        panes: names
            .iter()
            .enumerate()
            .map(|(i, name)| (name.to_string(), PaneId(i as u64 + 1)))
            .collect(),
        focus: PaneId(1),
    })
}

fn rebuild(state: &Json, layouts: Vec<Option<TabLayout>>) -> Option<SnapshotRebuild> {
    rebuild_from_snapshot(state, &layouts, &vec![], 80, 24)
}

fn session_of(tab: &SnapshotTab, pane: PaneId) -> &wtd_ui::panes::PaneSession {
    &tab.pane_sessions
        .iter()
        .find(|row| row.0 == pane)
        .expect("pane must map to a session")
        .1
}

#[test]
fn rebuild_snapshot_maps_focused_pane_to_session_and_path() {
    let state = object(vec![
        ("name", text("dev")),
        (
            "tabs",
            Json::Array(vec![object(vec![
                ("name", text("main")),
                ("layout", pane("shell")),
                ("panes", Json::Array(vec![Json::UInt(11)])),
            ])]),
        ),
        ("paneStates", object(vec![("11", attached(Json::UInt(21)))])),
    ]);

    let rebuilt = rebuild(&state, vec![layout_of(&["shell"])]).expect("snapshot must rebuild");
    let tab = &rebuilt.tabs[0];
    let focused = tab.focus;
    let ps = session_of(tab, focused);

    assert_eq!(rebuilt.workspace_name, "dev");
    assert_eq!(rebuilt.tab_names, vec!["main"]);
    assert_eq!(rebuilt.active_tab_index, 0);
    assert_eq!(ps.session_id, "21");
    assert_eq!(ps.pane_path, "dev/main/shell");
    assert!(tab.screens.iter().any(|row| row.0 == focused));
}

#[test]
fn rebuild_snapshot_replays_seeded_screen_content() {
    let seed = b"\x1b[32mSCREEN_SEED_MARKER\x1b[0m\r\n";
    let state = object(vec![
        ("name", text("screen-seed-test")),
        (
            "tabs",
            Json::Array(vec![object(vec![
                ("name", text("main")),
                ("layout", pane("shell")),
                ("panes", Json::Array(vec![Json::UInt(42)])),
            ])]),
        ),
        ("paneStates", object(vec![("42", attached(text("session-42")))])),
        (
            "sessionSizes",
            object(vec![(
                "session-42",
                object(vec![("cols", Json::UInt(132)), ("rows", Json::UInt(41))]),
            )]),
        ),
        (
            "sessionScreens",
            object(vec![("session-42", text(&base64_encode(seed)))]),
        ),
    ]);

    let rebuilt = rebuild(&state, vec![layout_of(&["shell"])]).expect("snapshot must rebuild");
    let tab = &rebuilt.tabs[0];
    let focused = tab.focus;
    let session = session_of(tab, focused);
    let screen = &tab
        .screens
        .iter()
        .find(|row| row.0 == focused)
        .expect("focused pane should have a screen")
        .1;

    assert_eq!(session.session_size, Some((132, 41)));
    assert_eq!(screen.cols, 132);
    assert_eq!(screen.rows, 41);
    assert_eq!(screen.data, seed);
}

#[test]
fn rebuild_snapshot_restores_tab_focus_from_snapshot() {
    let state = object(vec![
        ("name", text("focus-restore-test")),
        (
            "tabs",
            Json::Array(vec![object(vec![
                ("name", text("main")),
                ("focus", text("bottom")),
                (
                    "layout",
                    object(vec![
                        ("type", text("split")),
                        ("orientation", text("vertical")),
                        ("ratio", Json::OtherNumber("0.5".to_string())),
                        ("children", Json::Array(vec![pane("top"), pane("bottom")])),
                    ]),
                ),
                ("panes", Json::Array(vec![Json::UInt(10), Json::UInt(11)])),
            ])]),
        ),
        (
            "paneStates",
            object(vec![
                ("10", attached(Json::UInt(100))),
                ("11", attached(Json::UInt(101))),
            ]),
        ),
    ]);

    let rebuilt =
        rebuild(&state, vec![layout_of(&["top", "bottom"])]).expect("snapshot must rebuild");
    let tab = &rebuilt.tabs[0];
    let session = session_of(tab, tab.focus);

    assert_eq!(session.pane_path, "focus-restore-test/main/bottom");
    assert_eq!(session.session_id, "101");
}

#[test]
fn a_state_without_tabs_does_not_rebuild() {
    assert!(rebuild(&Json::Null, vec![]).is_none());
    assert!(rebuild(&object(vec![("name", text("dev"))]), vec![]).is_none());
}

#[test]
fn an_unreadable_layout_does_not_rebuild() {
    let state = object(vec![
        ("name", text("dev")),
        ("tabs", Json::Array(vec![object(vec![("name", text("main"))])])),
    ]);
    assert!(rebuild(&state, vec![None]).is_none());
}

#[test]
fn progress_comes_with_the_snapshot() {
    let state = object(vec![
        ("name", text("dev")),
        (
            "tabs",
            Json::Array(vec![object(vec![
                ("name", text("main")),
                ("layout", pane("shell")),
                ("panes", Json::Array(vec![Json::UInt(11)])),
            ])]),
        ),
        ("paneStates", object(vec![("11", attached(Json::UInt(21)))])),
    ]);
    let progress = ProgressInfo { state: ProgressState::Warning, value: Some(64) };
    let rebuilt = rebuild_from_snapshot(
        &state,
        &vec![layout_of(&["shell"])],
        &vec![("21".to_string(), progress)],
        80,
        24,
    )
    .expect("snapshot must rebuild");
    assert_eq!(session_of(&rebuilt.tabs[0], PaneId(1)).progress, Some(progress));
}

#[test]
fn sizes_and_ids_are_read_from_values() {
    let size = object(vec![("cols", Json::UInt(80)), ("rows", Json::UInt(24))]);
    assert_eq!(session_size_from_value(&size), Some((80, 24)));
    let wide = object(vec![("cols", Json::UInt(70_000)), ("rows", Json::UInt(24))]);
    assert_eq!(session_size_from_value(&wide), None);
    assert_eq!(session_size_from_value(&Json::Null), None);
    assert_eq!(session_id_string(&Json::UInt(5)), Some("5".to_string()));
    assert_eq!(session_id_string(&text("x")), Some("x".to_string()));
    assert_eq!(session_id_string(&Json::Bool(true)), None);
}
