use wtd_ui::base64::{base64_decode, base64_encode};
use wtd_ui::host_bridge::{
    attach_outcome, attach_request_id, clear_attention_command, command_to_envelope,
    connection_failed, envelope_to_event, refresh_command, relay, AttachReply, Envelope,
    HostCommand, HostEvent, Link, LinkInput, LinkOutput, TypedMessage,
};
use wtd_ui::host_client::{after_failed_open, check_handshake_ack, ConnectStep, UiClientError};
use wtd_ui::json::Json;

fn frame(id: &str, message: TypedMessage) -> Envelope {
    Envelope { id: id.to_string(), payload: Some(message) }
}

// ── Base64 ──────────────────────────────────────────────────────────────────

#[test]
fn base64_roundtrip_empty() {
    assert_eq!(base64_encode(b""), "");
    assert_eq!(base64_decode(""), Vec::<u8>::new());
}

#[test]
fn base64_roundtrip_hello() {
    assert_eq!(base64_encode(b"hello"), "aGVsbG8=");
    assert_eq!(base64_decode("aGVsbG8="), b"hello");
}

#[test]
fn base64_roundtrip_hello_world() {
    assert_eq!(base64_encode(b"Hello World"), "SGVsbG8gV29ybGQ=");
    assert_eq!(base64_decode("SGVsbG8gV29ybGQ="), b"Hello World");
}

#[test]
fn base64_roundtrip_binary() {
    let data: Vec<u8> = (0..=255).collect();
    let encoded = base64_encode(&data);
    let decoded = base64_decode(&encoded);
    assert_eq!(decoded, data);
}

#[test]
fn base64_known_vt_bytes() {
    // ESC [ 3 1 m  =  \x1b[31m  (red text)
    let vt = b"\x1b[31mhello\x1b[0m";
    let encoded = base64_encode(vt);
    let decoded = base64_decode(&encoded);
    assert_eq!(decoded, vt);
}

// ── Frames ──────────────────────────────────────────────────────────────────

#[test]
fn envelope_to_event_session_output() {
    let envelope = frame(
        "test-1",
        TypedMessage::SessionOutput {
            session_id: "s1".into(),
            data: base64_encode(b"hello"),
        },
    );
    let event = envelope_to_event(envelope).unwrap();
    match event {
        HostEvent::SessionOutput { session_id, data } => {
            assert_eq!(session_id, "s1");
            assert_eq!(data, b"hello");
        }
        _ => panic!("expected SessionOutput"),
    }
}

#[test]
fn envelope_to_event_session_state_changed() {
    let envelope = frame(
        "test-2",
        TypedMessage::SessionStateChanged {
            session_id: "s1".into(),
            new_state: "exited".into(),
            exit_code: Some(0),
        },
    );
    let event = envelope_to_event(envelope).unwrap();
    match event {
        HostEvent::SessionStateChanged {
            session_id,
            new_state,
            exit_code,
        } => {
            assert_eq!(session_id, "s1");
            assert_eq!(new_state, "exited");
            assert_eq!(exit_code, Some(0));
        }
        _ => panic!("expected SessionStateChanged"),
    }
}

#[test]
fn envelope_to_event_title_changed() {
    let envelope = frame(
        "test-3",
        TypedMessage::TitleChanged {
            session_id: "s1".into(),
            title: "bash".into(),
        },
    );
    let event = envelope_to_event(envelope).unwrap();
    match event {
        HostEvent::TitleChanged { session_id, title } => {
            assert_eq!(session_id, "s1");
            assert_eq!(title, "bash");
        }
        _ => panic!("expected TitleChanged"),
    }
}

fn named_pane() -> Json {
    Json::Object(vec![
        ("type".to_string(), Json::Str("pane".to_string())),
        ("name".to_string(), Json::Str("main".to_string())),
    ])
}

#[test]
fn envelope_to_event_layout_changed() {
    let envelope = frame(
        "test-4",
        TypedMessage::LayoutChanged {
            workspace: "dev".into(),
            window: "w1".into(),
            tab: "tab1".into(),
            layout: named_pane(),
        },
    );
    let event = envelope_to_event(envelope).unwrap();
    match event {
        HostEvent::LayoutChanged {
            workspace,
            tab,
            layout,
            ..
        } => {
            assert_eq!(workspace, "dev");
            assert_eq!(tab, "tab1");
            assert_eq!(layout, named_pane());
        }
        _ => panic!("expected LayoutChanged"),
    }
}

#[test]
fn command_to_envelope_session_input() {
    let env = command_to_envelope(
        HostCommand::SessionInput {
            session_id: "s1".into(),
            data: b"hello".to_vec(),
        },
        1,
    );
    match env.payload {
        Some(TypedMessage::SessionInput { session_id, data }) => {
            assert_eq!(session_id, "s1");
            assert_eq!(base64_decode(&data), b"hello");
        }
        other => panic!("expected SessionInput, got {other:?}"),
    }
}

#[test]
fn command_to_envelope_pane_resize() {
    let env = command_to_envelope(
        HostCommand::PaneResize {
            pane_id: "p1".into(),
            cols: 80,
            rows: 24,
        },
        2,
    );
    match env.payload {
        Some(TypedMessage::PaneResize { pane_id, cols, rows }) => {
            assert_eq!(pane_id, "p1");
            assert_eq!(cols, 80);
            assert_eq!(rows, 24);
        }
        other => panic!("expected PaneResize, got {other:?}"),
    }
}

#[test]
fn command_to_envelope_invoke_action() {
    let env = command_to_envelope(
        HostCommand::InvokeAction {
            action: "split-right".into(),
            target_pane_id: Some("p1".into()),
            args: Json::Object(vec![]),
        },
        3,
    );
    match env.payload {
        Some(TypedMessage::InvokeAction { action, target_pane_id, .. }) => {
            assert_eq!(action, "split-right");
            assert_eq!(target_pane_id, Some("p1".into()));
        }
        other => panic!("expected InvokeAction, got {other:?}"),
    }
}

#[test]
fn commands_are_numbered() {
    assert_eq!(command_to_envelope(HostCommand::Disconnect, 12).id, "ui-cmd-12");
    assert_eq!(attach_request_id(), "ui-attach-1");
}

#[test]
fn unreadable_and_other_frames_tell_nothing() {
    assert!(envelope_to_event(Envelope { id: "x".into(), payload: None }).is_none());
    assert!(envelope_to_event(frame("x", TypedMessage::Other)).is_none());
}

// ── The connection ──────────────────────────────────────────────────────────

#[test]
fn every_attach_reply_has_its_event() {
    assert_eq!(
        attach_outcome(AttachReply::Failed("gone".into())),
        (HostEvent::Error { message: "attach failed: gone".into() }, false)
    );
    assert_eq!(
        attach_outcome(AttachReply::ErrorResponse(Some("no such workspace".into()))),
        (HostEvent::Error { message: "attach error: no such workspace".into() }, false)
    );
    assert_eq!(
        attach_outcome(AttachReply::ErrorResponse(None)),
        (HostEvent::Error { message: "attach returned unknown error".into() }, false)
    );
    assert_eq!(
        attach_outcome(AttachReply::AttachResult(Some(named_pane()))),
        (HostEvent::Connected { state: named_pane() }, true)
    );
    assert_eq!(
        attach_outcome(AttachReply::Other),
        (HostEvent::Connected { state: Json::Null }, true)
    );
    assert_eq!(
        connection_failed("refused"),
        HostEvent::Error { message: "connection failed: refused".into() }
    );
}

#[test]
fn link_counts_commands_and_stops_on_errors() {
    let mut link = Link::new();
    let resize = || HostCommand::PaneResize { pane_id: "p".into(), cols: 1, rows: 2 };
    match link.step(LinkInput::Command(resize())) {
        LinkOutput::Write(e) => assert_eq!(e.id, "ui-cmd-1"),
        _ => panic!("expected a frame"),
    }
    match link.step(LinkInput::Command(resize())) {
        LinkOutput::Write(e) => assert_eq!(e.id, "ui-cmd-2"),
        _ => panic!("expected a frame"),
    }
    match link.step(LinkInput::ReadFailed("eof".into())) {
        LinkOutput::DeliverAndStop(HostEvent::Disconnected { reason }) => {
            assert_eq!(reason, "read error: eof")
        }
        _ => panic!("expected the end"),
    }
    match link.step(LinkInput::WriteFailed("pipe".into())) {
        LinkOutput::DeliverAndStop(HostEvent::Disconnected { reason }) => {
            assert_eq!(reason, "write error: pipe")
        }
        _ => panic!("expected the end"),
    }
    assert!(matches!(link.step(LinkInput::UiGone), LinkOutput::Stop));
    assert!(matches!(link.step(LinkInput::Closed), LinkOutput::Stop));
    assert!(matches!(
        link.step(LinkInput::Frame(frame("x", TypedMessage::Other))),
        LinkOutput::Idle
    ));
}

#[test]
fn a_disconnect_goes_no_further() {
    let closed = HostEvent::Disconnected { reason: "UI closed".into() };
    assert_eq!(relay(Some(HostCommand::Disconnect)), Err(closed));
    assert!(relay(None).is_err());
    let input = || HostCommand::SessionInput { session_id: "s".into(), data: vec![1] };
    assert_eq!(relay(Some(input())), Ok(input()));
}

#[test]
fn missing_pipes_are_tried_again() {
    assert_eq!(after_failed_open(0, Some(5)), ConnectStep::Fail);
    assert_eq!(after_failed_open(0, None), ConnectStep::Fail);
    let first = after_failed_open(0, Some(2));
    assert!(matches!(first, ConnectStep::PauseThenRetry(_)));
    let last = after_failed_open(1_000, Some(2));
    assert!(matches!(last, ConnectStep::PauseThenTimeOut(_)));
}

#[test]
fn only_an_ack_finishes_the_handshake() {
    assert_eq!(check_handshake_ack("HandshakeAck", "HandshakeAck"), Ok(()));
    let refused = check_handshake_ack("HandshakeAck", "ErrorResponse").unwrap_err();
    assert_eq!(
        refused,
        UiClientError::Handshake("expected HandshakeAck, got ErrorResponse".to_string())
    );
    assert_eq!(
        refused.to_string(),
        "handshake failed: expected HandshakeAck, got ErrorResponse"
    );
    assert_eq!(UiClientError::Connect("no pipe".to_string()).to_string(), "no pipe");
    assert_eq!(UiClientError::Ipc("short frame".to_string()).to_string(), "short frame");
}

// ── JSON ────────────────────────────────────────────────────────────────────

#[test]
fn json_members_are_found_by_name() {
    let value = Json::Object(vec![
        ("n".to_string(), Json::UInt(7)),
        ("s".to_string(), Json::Str("x".to_string())),
        ("a".to_string(), Json::Array(vec![Json::Null])),
        ("f".to_string(), Json::OtherNumber("0.5".to_string())),
    ]);
    assert_eq!(value.get("n").and_then(|n| n.as_u64()), Some(7));
    assert_eq!(value.get_str("s"), Some(&"x".to_string()));
    assert_eq!(value.get_str("n"), None);
    assert_eq!(value.get("a").and_then(|a| a.as_array()).map(|a| a.len()), Some(1));
    assert_eq!(value.get("f").and_then(|f| f.as_u64()), None);
    assert!(value.get("missing").is_none());
    assert!(Json::Bool(true).get("n").is_none());
    assert_eq!(value.as_object().map(|o| o.len()), Some(4));
}

#[test]
fn requests_to_the_host_are_actions() {
    assert_eq!(
        refresh_command(),
        HostCommand::InvokeAction {
            action: "refresh-workspace".into(),
            target_pane_id: None,
            args: Json::Null,
        }
    );
    assert_eq!(
        clear_attention_command("dev/main/shell".into()),
        HostCommand::InvokeAction {
            action: "clear-attention".into(),
            target_pane_id: Some("dev/main/shell".into()),
            args: Json::Null,
        }
    );
}
