//! What is said between the UI and its host, and how the UI side of the connection reacts.
//!
//! The transport reads and writes frames; everything that is decided about them is decided
//! here: which event a frame is for the UI, which frame a command becomes, and when the
//! connection is over.
use vstd::prelude::*;

use crate::base64::{base64_decode, base64_encode};
use crate::json::Json;
use crate::panes::{AttentionState, ProgressInfo};
use crate::text::push_decimal;

verus! {

// ── Events pushed to the UI thread ───────────────────────────────────

/// Events delivered from the host to the UI main loop.
#[allow(inconsistent_fields)]
#[derive(Debug, PartialEq, Eq)]
pub enum HostEvent {
    /// Connection established and workspace state received.
    Connected { state: Json },
    /// Raw VT output for a session.
    SessionOutput { session_id: String, data: Vec<u8> },
    /// A session changed state (running to exited, etc.).
    SessionStateChanged { session_id: String, new_state: String, exit_code: Option<i32> },
    /// A session's title changed (from a VT escape sequence).
    TitleChanged { session_id: String, title: String },
    /// A session's progress changed.
    ProgressChanged { session_id: String, progress: Option<ProgressInfo> },
    /// A pane, or the workspace as a whole, asks for attention.
    AttentionChanged { pane_id: Option<String>, state: AttentionState, message: Option<String> },
    /// The layout tree for a tab changed.
    LayoutChanged { workspace: String, window: String, tab: String, layout: Json },
    /// Workspace instance state changed.
    WorkspaceStateChanged { workspace: String, new_state: String },
    /// An error response was received.
    Error { message: String },
    /// The connection was lost.
    Disconnected { reason: String },
}

// ── Commands sent from the UI thread ─────────────────────────────────

/// Commands sent from the UI thread to the host.
#[derive(Debug, PartialEq, Eq)]
pub enum HostCommand {
    /// Forward raw keyboard input bytes to a session.
    SessionInput { session_id: String, data: Vec<u8> },
    /// Notify host of a pane resize.
    PaneResize { pane_id: String, cols: u16, rows: u16 },
    /// Invoke an action on the host.
    InvokeAction { action: String, target_pane_id: Option<String>, args: Json },
    /// Disconnect from host.
    Disconnect,
}

// ── Frames ───────────────────────────────────────────────────────────

/// The messages that frames carry. Session data is base64 text.
#[derive(Debug, PartialEq, Eq)]
pub enum TypedMessage {
    SessionOutput { session_id: String, data: String },
    SessionStateChanged { session_id: String, new_state: String, exit_code: Option<i32> },
    TitleChanged { session_id: String, title: String },
    LayoutChanged { workspace: String, window: String, tab: String, layout: Json },
    WorkspaceStateChanged { workspace: String, new_state: String },
    ErrorResponse { message: String },
    SessionInput { session_id: String, data: String },
    PaneResize { pane_id: String, cols: u16, rows: u16 },
    InvokeAction { action: String, target_pane_id: Option<String>, args: Json },
    /// A message of any other type.
    Other,
}

/// A frame.
#[derive(Debug, PartialEq, Eq)]
pub struct Envelope {
    pub id: String,
    /// The message, unless the frame could not be read as one.
    pub payload: Option<TypedMessage>,
}

/// Whether `event` is what the UI is told when a frame with the given content comes in. Frames
/// that cannot be read and messages that are no push messages tell it nothing.
pub open spec fn tells(payload: Option<TypedMessage>, event: Option<HostEvent>) -> bool {
    match payload {
        Some(TypedMessage::SessionOutput { session_id, data }) => event matches Some(
            HostEvent::SessionOutput { session_id: s, data: d },
        ) && s == session_id && d@ == crate::base64::decoded(data@),
        Some(TypedMessage::SessionStateChanged { session_id, new_state, exit_code }) => event
            == Some(HostEvent::SessionStateChanged { session_id, new_state, exit_code }),
        Some(TypedMessage::TitleChanged { session_id, title }) => event == Some(
            HostEvent::TitleChanged { session_id, title },
        ),
        Some(TypedMessage::LayoutChanged { workspace, window, tab, layout }) => event == Some(
            HostEvent::LayoutChanged { workspace, window, tab, layout },
        ),
        Some(TypedMessage::WorkspaceStateChanged { workspace, new_state }) => event == Some(
            HostEvent::WorkspaceStateChanged { workspace, new_state },
        ),
        Some(TypedMessage::ErrorResponse { message }) => event == Some(
            HostEvent::Error { message },
        ),
        _ => event is None,
    }
}

/// Convert a host push frame into a UI event.
pub fn envelope_to_event(envelope: Envelope) -> (r: Option<HostEvent>)
    ensures
        tells(envelope.payload, r),
{
    match envelope.payload {
        Some(TypedMessage::SessionOutput { session_id, data }) => {
            let data = base64_decode(data.as_str());
            Some(HostEvent::SessionOutput { session_id, data })
        },
        Some(TypedMessage::SessionStateChanged { session_id, new_state, exit_code }) => Some(
            HostEvent::SessionStateChanged { session_id, new_state, exit_code },
        ),
        Some(TypedMessage::TitleChanged { session_id, title }) => Some(
            HostEvent::TitleChanged { session_id, title },
        ),
        Some(TypedMessage::LayoutChanged { workspace, window, tab, layout }) => Some(
            HostEvent::LayoutChanged { workspace, window, tab, layout },
        ),
        Some(TypedMessage::WorkspaceStateChanged { workspace, new_state }) => Some(
            HostEvent::WorkspaceStateChanged { workspace, new_state },
        ),
        Some(TypedMessage::ErrorResponse { message }) => Some(HostEvent::Error { message }),
        _ => None,
    }
}

/// The identifier of the frame that carries the command with the given number.
pub open spec fn command_id(counter: u64) -> Seq<char> {
    "ui-cmd-"@ + crate::text::decimal(counter as nat)
}

/// Whether a message carries out a command. A disconnect is carried out by the connection
/// itself; a frame for it would be input of no bytes for no session.
pub open spec fn carries(cmd: HostCommand, message: TypedMessage) -> bool {
    match cmd {
        HostCommand::SessionInput { session_id, data } => message matches TypedMessage::SessionInput {
            session_id: s,
            data: d,
        } && s == session_id && d@ == crate::base64::encoded(data@),
        HostCommand::PaneResize { pane_id, cols, rows } => message == (TypedMessage::PaneResize {
            pane_id,
            cols,
            rows,
        }),
        HostCommand::InvokeAction { action, target_pane_id, args } => message == (
        TypedMessage::InvokeAction { action, target_pane_id, args }),
        HostCommand::Disconnect => message matches TypedMessage::SessionInput {
            session_id: s,
            data: d,
        } && s@.len() == 0 && d@.len() == 0,
    }
}

/// Convert a UI command into a host frame.
pub fn command_to_envelope(cmd: HostCommand, counter: u64) -> (r: Envelope)
    ensures
        r.id@ == command_id(counter),
        r.payload matches Some(m) && carries(cmd, m),
{
    let mut id = String::new();
    id.append("ui-cmd-");
    push_decimal(&mut id, counter);
    assert(id@ =~= command_id(counter));
    let message = match cmd {
        HostCommand::SessionInput { session_id, data } => {
            let data = base64_encode(data.as_slice());
            TypedMessage::SessionInput { session_id, data }
        },
        HostCommand::PaneResize { pane_id, cols, rows } => TypedMessage::PaneResize {
            pane_id,
            cols,
            rows,
        },
        HostCommand::InvokeAction { action, target_pane_id, args } => TypedMessage::InvokeAction {
            action,
            target_pane_id,
            args,
        },
        HostCommand::Disconnect => TypedMessage::SessionInput {
            session_id: String::new(),
            data: String::new(),
        },
    };
    Envelope { id, payload: Some(message) }
}

// ── Attaching ────────────────────────────────────────────────────────

/// The identifier of the frame that asks to attach to a workspace.
pub fn attach_request_id() -> (r: String)
    ensures
        r@ == "ui-attach-1"@,
{
    "ui-attach-1".to_owned()
}

/// How the host answered the request to attach.
pub enum AttachReply {
    /// There was no answer, for the reason given.
    Failed(String),
    /// An error response, with its message if it could be read.
    ErrorResponse(Option<String>),
    /// The workspace state, if it could be read.
    AttachResult(Option<Json>),
    /// Anything else.
    Other,
}

/// Whether `event` is what the UI is told about an answer to the request to attach.
pub open spec fn attach_tells(reply: AttachReply, event: HostEvent) -> bool {
    match reply {
        AttachReply::Failed(reason) => event matches HostEvent::Error { message: m } && m@
            == "attach failed: "@ + reason@,
        AttachReply::ErrorResponse(Some(message)) => event matches HostEvent::Error { message: m }
            && m@ == "attach error: "@ + message@,
        AttachReply::ErrorResponse(None) => event matches HostEvent::Error { message: m } && m@
            == "attach returned unknown error"@,
        AttachReply::AttachResult(Some(state)) => event == (HostEvent::Connected { state }),
        AttachReply::AttachResult(None) | AttachReply::Other => event == (HostEvent::Connected {
            state: Json::Null,
        }),
    }
}

/// Whether the connection goes on after an answer to the request to attach.
pub open spec fn attached(reply: AttachReply) -> bool {
    reply is AttachResult || reply is Other
}

/// Decides what an answer to the request to attach means: the event for the UI, and whether
/// the connection goes on.
pub fn attach_outcome(reply: AttachReply) -> (r: (HostEvent, bool))
    ensures
        attach_tells(reply, r.0),
        r.1 == attached(reply),
{
    match reply {
        AttachReply::Failed(reason) => {
            let message = "attach failed: ".to_owned().concat(reason.as_str());
            (HostEvent::Error { message }, false)
        },
        AttachReply::ErrorResponse(Some(message)) => {
            let message = "attach error: ".to_owned().concat(message.as_str());
            (HostEvent::Error { message }, false)
        },
        AttachReply::ErrorResponse(None) => {
            (HostEvent::Error { message: "attach returned unknown error".to_owned() }, false)
        },
        AttachReply::AttachResult(Some(state)) => (HostEvent::Connected { state }, true),
        AttachReply::AttachResult(None) => (HostEvent::Connected { state: Json::Null }, true),
        AttachReply::Other => (HostEvent::Connected { state: Json::Null }, true),
    }
}

/// The command that asks the host for the state of the workspace.
pub fn refresh_command() -> (r: HostCommand)
    ensures
        r matches HostCommand::InvokeAction { action, target_pane_id, args } && action@
            == "refresh-workspace"@ && target_pane_id is None && args == Json::Null,
{
    HostCommand::InvokeAction {
        action: "refresh-workspace".to_owned(),
        target_pane_id: None,
        args: Json::Null,
    }
}

/// The command that tells the host that the attention of a pane is cleared.
pub fn clear_attention_command(pane: String) -> (r: HostCommand)
    ensures
        r matches HostCommand::InvokeAction { action, target_pane_id, args } && action@
            == "clear-attention"@ && target_pane_id == Some(pane) && args == Json::Null,
{
    HostCommand::InvokeAction {
        action: "clear-attention".to_owned(),
        target_pane_id: Some(pane),
        args: Json::Null,
    }
}

/// The event for the UI when no connection could be made.
pub fn connection_failed(error: &str) -> (r: HostEvent)
    ensures
        r matches HostEvent::Error { message } && message@ == "connection failed: "@ + error@,
{
    HostEvent::Error { message: "connection failed: ".to_owned().concat(error) }
}

// ── The message loop ─────────────────────────────────────────────────

/// What can happen to an attached connection.
pub enum LinkInput {
    /// A frame came in.
    Frame(Envelope),
    /// Reading failed, for the reason given.
    ReadFailed(String),
    /// The UI sent a command.
    Command(HostCommand),
    /// Writing a frame failed, for the reason given.
    WriteFailed(String),
    /// An event could not be delivered: the UI is gone.
    UiGone,
    /// Nothing more can come in.
    Closed,
}

/// What the transport is to do.
pub enum LinkOutput {
    /// Nothing.
    Idle,
    /// Deliver an event to the UI.
    Deliver(HostEvent),
    /// Write a frame to the host.
    Write(Envelope),
    /// Deliver a last event to the UI and stop.
    DeliverAndStop(HostEvent),
    /// Stop.
    Stop,
}

/// An attached connection. Counts the commands that were sent.
#[derive(Debug)]
pub struct Link {
    pub sent: u64,
}

impl Link {
    /// A connection over which nothing was sent yet.
    pub fn new() -> (r: Link)
        ensures
            r.sent == 0,
    {
        Link { sent: 0 }
    }

    /// Decides what follows from something that happened.
    pub fn step(&mut self, input: LinkInput) -> (r: LinkOutput)
        requires
            input is Command ==> old(self).sent < u64::MAX,
        ensures
            match input {
                LinkInput::Frame(envelope) => {
                    &&& final(self).sent == old(self).sent
                    &&& match r {
                        LinkOutput::Deliver(event) => tells(envelope.payload, Some(event)),
                        LinkOutput::Idle => tells(envelope.payload, None),
                        _ => false,
                    }
                },
                LinkInput::Command(cmd) => {
                    &&& final(self).sent == old(self).sent + 1
                    &&& r matches LinkOutput::Write(envelope)
                    &&& envelope.id@ == command_id(final(self).sent)
                    &&& envelope.payload matches Some(m)
                    &&& carries(cmd, m)
                },
                LinkInput::ReadFailed(e) => {
                    &&& final(self).sent == old(self).sent
                    &&& r matches LinkOutput::DeliverAndStop(HostEvent::Disconnected { reason })
                    &&& reason@ == "read error: "@ + e@
                },
                LinkInput::WriteFailed(e) => {
                    &&& final(self).sent == old(self).sent
                    &&& r matches LinkOutput::DeliverAndStop(HostEvent::Disconnected { reason })
                    &&& reason@ == "write error: "@ + e@
                },
                LinkInput::UiGone | LinkInput::Closed => {
                    &&& final(self).sent == old(self).sent
                    &&& r == LinkOutput::Stop
                },
            },
    {
        match input {
            LinkInput::Frame(envelope) => match envelope_to_event(envelope) {
                Some(event) => LinkOutput::Deliver(event),
                None => LinkOutput::Idle,
            },
            LinkInput::Command(cmd) => {
                self.sent = self.sent + 1;
                LinkOutput::Write(command_to_envelope(cmd, self.sent))
            },
            LinkInput::ReadFailed(e) => {
                let reason = "read error: ".to_owned().concat(e.as_str());
                LinkOutput::DeliverAndStop(HostEvent::Disconnected { reason })
            },
            LinkInput::WriteFailed(e) => {
                let reason = "write error: ".to_owned().concat(e.as_str());
                LinkOutput::DeliverAndStop(HostEvent::Disconnected { reason })
            },
            LinkInput::UiGone => LinkOutput::Stop,
            LinkInput::Closed => LinkOutput::Stop,
        }
    }
}

/// Takes a command from the UI on its way to the connection. A disconnect goes no further;
/// neither does anything once the UI has hung up, which comes as no command. In both cases the
/// event is the last that the UI is told.
pub fn relay(cmd: Option<HostCommand>) -> (r: Result<HostCommand, HostEvent>)
    ensures
        match cmd {
            Some(HostCommand::Disconnect) | None => r matches Err(HostEvent::Disconnected { reason })
                && reason@ == "UI closed"@,
            Some(c) => r == Ok::<HostCommand, HostEvent>(c),
        },
{
    match cmd {
        Some(HostCommand::Disconnect) => Err(
            HostEvent::Disconnected { reason: "UI closed".to_owned() },
        ),
        Some(c) => Ok(c),
        None => Err(HostEvent::Disconnected { reason: "UI closed".to_owned() }),
    }
}

// ── Laws ─────────────────────────────────────────────────────────────────────

/// Input bytes that the UI sends for a session reach the host unchanged: decoding the data of
/// the message that carries them gives them back.
pub proof fn law_input_bytes_survive(session_id: String, data: Vec<u8>, message: TypedMessage)
    requires
        carries(HostCommand::SessionInput { session_id, data }, message),
    ensures
        message matches TypedMessage::SessionInput { session_id: s, data: d } && s == session_id
            && crate::base64::decoded(d@) == data@,
{
    crate::base64::law_decode_undoes_encode(data@);
}

/// Output bytes that the host sends for a session reach the UI unchanged.
pub proof fn law_output_bytes_survive(
    session_id: String,
    data: String,
    bytes: Seq<u8>,
    event: Option<HostEvent>,
)
    requires
        data@ == crate::base64::encoded(bytes),
        tells(Some(TypedMessage::SessionOutput { session_id, data }), event),
    ensures
        event matches Some(HostEvent::SessionOutput { session_id: s, data: d }) && s == session_id
            && d@ == bytes,
{
    crate::base64::law_decode_undoes_encode(bytes);
}

/// What the host says of a session, a layout or a workspace reaches the window as it was said.
pub proof fn law_messages_become_events(
    a: String,
    b: String,
    c: String,
    layout: Json,
    code: Option<i32>,
    event: Option<HostEvent>,
)
    ensures
        tells(
            Some(
                TypedMessage::SessionStateChanged { session_id: a, new_state: b, exit_code: code },
            ),
            event,
        ) ==> event == Some(
            HostEvent::SessionStateChanged { session_id: a, new_state: b, exit_code: code },
        ),
        tells(Some(TypedMessage::TitleChanged { session_id: a, title: b }), event) ==> event == Some(
            HostEvent::TitleChanged { session_id: a, title: b },
        ),
        tells(Some(TypedMessage::LayoutChanged { workspace: a, window: b, tab: c, layout }), event)
            ==> event == Some(
            HostEvent::LayoutChanged { workspace: a, window: b, tab: c, layout },
        ),
        tells(Some(TypedMessage::WorkspaceStateChanged { workspace: a, new_state: b }), event)
            ==> event == Some(HostEvent::WorkspaceStateChanged { workspace: a, new_state: b }),
        tells(Some(TypedMessage::ErrorResponse { message: a }), event) ==> event == Some(
            HostEvent::Error { message: a },
        ),
        tells(None, event) ==> event is None,
{
}

/// What the window asks for reaches the host as it was asked.
pub proof fn law_commands_become_messages(
    pane: String,
    cols: u16,
    rows: u16,
    action: String,
    target: Option<String>,
    args: Json,
    message: TypedMessage,
)
    ensures
        carries(HostCommand::PaneResize { pane_id: pane, cols, rows }, message) ==> message == (
        TypedMessage::PaneResize { pane_id: pane, cols, rows }),
        carries(HostCommand::InvokeAction { action, target_pane_id: target, args }, message)
            ==> message == (TypedMessage::InvokeAction { action, target_pane_id: target, args }),
{
}

/// No two commands of a window have the same ID.
pub proof fn law_commands_have_their_own_ids(a: u64, b: u64)
    requires
        a != b,
    ensures
        command_id(a) != command_id(b),
{
    let start = "ui-cmd-"@;
    crate::text::lemma_decimal_value(a as nat);
    crate::text::lemma_decimal_value(b as nat);
    if command_id(a) == command_id(b) {
        assert(command_id(a).skip(start.len() as int) =~= crate::text::decimal(a as nat));
        assert(command_id(b).skip(start.len() as int) =~= crate::text::decimal(b as nat));
    }
}

/// An attach ends in one of two ways: the window is connected, and then it gets the state that the
/// host sent, or it is told of an error.
pub proof fn law_attach_connects_or_fails(reply: AttachReply, event: HostEvent)
    requires
        attach_tells(reply, event),
    ensures
        attached(reply) <==> event is Connected,
        !attached(reply) <==> event is Error,
        reply matches AttachReply::AttachResult(Some(state)) ==> event == (HostEvent::Connected {
            state,
        }),
        reply is Failed || reply is ErrorResponse <==> !attached(reply),
{
}

} // verus!
