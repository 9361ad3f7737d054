use wtd_ui::panes::AttentionState;
use wtd_ui::status_bar::{
    SessionStatus, StatusBar, STATE_CREATING_COLOR, STATE_EXITED_COLOR, STATE_FAILED_COLOR,
    STATE_RUNNING_COLOR,
};

#[test]
fn default_state() {
    let bar = StatusBar::new();
    assert_eq!(bar.workspace_name(), "");
    assert_eq!(bar.pane_path(), "");
    assert_eq!(bar.session_status(), &SessionStatus::Running);
    assert!(!bar.is_prefix_active());
}

#[test]
fn set_workspace_name() {
    let mut bar = StatusBar::new();
    bar.set_workspace_name("dev".to_string());
    assert_eq!(bar.workspace_name(), "dev");
}

#[test]
fn set_pane_path() {
    let mut bar = StatusBar::new();
    bar.set_pane_path("dev/main/server".to_string());
    assert_eq!(bar.pane_path(), "dev/main/server");
}

#[test]
fn set_session_status() {
    let mut bar = StatusBar::new();
    bar.set_session_status(SessionStatus::Exited { exit_code: 1 });
    assert_eq!(bar.session_status(), &SessionStatus::Exited { exit_code: 1 });
}

#[test]
fn set_prefix_active() {
    let mut bar = StatusBar::new();
    assert!(!bar.is_prefix_active());
    bar.set_prefix_active(true);
    assert!(bar.is_prefix_active());
    bar.set_prefix_active(false);
    assert!(!bar.is_prefix_active());
}

#[test]
fn set_prefix_label() {
    let mut bar = StatusBar::new();
    bar.set_prefix_label("Ctrl+B".to_string());
    assert_eq!(bar.prefix_label, "Ctrl+B");
}

#[test]
fn session_status_labels() {
    assert_eq!(SessionStatus::Creating.label(), "creating");
    assert_eq!(SessionStatus::Running.label(), "running");
    assert_eq!(SessionStatus::Exited { exit_code: 0 }.label(), "exited (0)");
    assert_eq!(SessionStatus::Exited { exit_code: 1 }.label(), "exited (1)");
    assert_eq!(
        SessionStatus::Failed { error: "spawn failed".to_string() }.label(),
        "failed: spawn failed"
    );
    assert_eq!(
        SessionStatus::Restarting { attempt: 3 }.label(),
        "restarting (3)"
    );
}

#[test]
fn session_status_colors() {
    assert_eq!(SessionStatus::Running.color(), STATE_RUNNING_COLOR);
    assert_eq!(SessionStatus::Exited { exit_code: 0 }.color(), STATE_EXITED_COLOR);
    assert_eq!(SessionStatus::Failed { error: String::new() }.color(), STATE_FAILED_COLOR);
    assert_eq!(SessionStatus::Creating.color(), STATE_CREATING_COLOR);
    assert_eq!(SessionStatus::Restarting { attempt: 1 }.color(), STATE_CREATING_COLOR);
}

#[test]
fn full_state_update() {
    let mut bar = StatusBar::new();
    bar.set_workspace_name("dev".to_string());
    bar.set_pane_path("dev/main/server".to_string());
    bar.set_session_status(SessionStatus::Running);
    bar.set_prefix_active(true);
    bar.set_prefix_label("Ctrl+B".to_string());

    assert_eq!(bar.workspace_name(), "dev");
    assert_eq!(bar.pane_path(), "dev/main/server");
    assert_eq!(bar.session_status(), &SessionStatus::Running);
    assert!(bar.is_prefix_active());
}

#[test]
fn attention_is_kept_until_it_changes() {
    let mut bar = StatusBar::new();
    assert_eq!(bar.attention_state(), AttentionState::Active);
    bar.set_attention(AttentionState::Error, Some("disk full".to_string()));
    bar.set_attention_count(3);
    assert_eq!(bar.attention_state(), AttentionState::Error);
    assert_eq!(bar.attention_message, Some("disk full".to_string()));
    assert_eq!(bar.attention_count, 3);
}

#[test]
fn a_status_is_copied_whole() {
    let status = SessionStatus::Failed { error: "spawn failed".to_string() };
    assert_eq!(status.clone(), status);
}
