//! Connecting to the host: when to try again, and what counts as a handshake.
use vstd::prelude::*;

use crate::text::str_eq;

verus! {

broadcast use vstd::string::group_string_axioms;

/// How often opening the host's pipe is tried.
pub const CONNECT_TRIES: u32 = 100;

/// How long to wait between two tries, in milliseconds.
pub const CONNECT_RETRY_MS: u64 = 50;

/// The system error for a pipe that is not there (yet).
pub const ERROR_FILE_NOT_FOUND: i32 = 2;

/// The system error for a pipe all of whose instances are in use.
pub const ERROR_PIPE_BUSY: i32 = 231;

/// What follows from a failed attempt to open the pipe.
#[derive(Debug, Clone, Copy, PartialEq, Eq, Structural)]
pub enum ConnectStep {
    /// Wait for the given number of milliseconds, then try again.
    PauseThenRetry(u64),
    /// Wait for the given number of milliseconds, then give up: the host did not come up in time.
    PauseThenTimeOut(u64),
    /// Give up and report the error.
    Fail,
}

/// Whether an error means that the host is not ready yet.
pub open spec fn is_transient(os_error: Option<i32>) -> bool {
    os_error == Some(ERROR_FILE_NOT_FOUND) || os_error == Some(ERROR_PIPE_BUSY)
}

/// Decides what follows when an attempt to open the pipe has failed with the given system
/// error. Attempts are counted from one.
pub fn after_failed_open(attempt: u32, os_error: Option<i32>) -> (r: ConnectStep)
    ensures
        r == if !is_transient(os_error) {
            ConnectStep::Fail
        } else if attempt < CONNECT_TRIES {
            ConnectStep::PauseThenRetry(CONNECT_RETRY_MS)
        } else {
            ConnectStep::PauseThenTimeOut(CONNECT_RETRY_MS)
        },
{
    if os_error != Some(ERROR_FILE_NOT_FOUND) && os_error != Some(ERROR_PIPE_BUSY) {
        ConnectStep::Fail
    } else if attempt < CONNECT_TRIES {
        ConnectStep::PauseThenRetry(CONNECT_RETRY_MS)
    } else {
        ConnectStep::PauseThenTimeOut(CONNECT_RETRY_MS)
    }
}

/// Errors from UI client operations.
#[derive(Debug, PartialEq, Eq)]
pub enum UiClientError {
    /// No connection could be made, for the reason given.
    Connect(String),
    /// A frame could not be read or written, for the reason given.
    Ipc(String),
    /// The host did not acknowledge the handshake.
    Handshake(String),
}

impl UiClientError {
    /// The message of an error.
    pub open spec fn message(self) -> Seq<char> {
        match self {
            UiClientError::Connect(reason) => reason@,
            UiClientError::Ipc(reason) => reason@,
            UiClientError::Handshake(reason) => "handshake failed: "@ + reason@,
        }
    }

    /// A one-line description of the error.
    pub fn to_string(&self) -> (r: String)
        ensures
            r@ == self.message(),
    {
        match self {
            UiClientError::Connect(reason) => reason.clone(),
            UiClientError::Ipc(reason) => reason.clone(),
            UiClientError::Handshake(reason) => "handshake failed: ".to_owned().concat(
                reason.as_str(),
            ),
        }
    }
}

/// Checks that the answer to a handshake is an acknowledgement, given the type names of the
/// acknowledgement and of the answer.
pub fn check_handshake_ack(ack_type: &str, msg_type: &str) -> (r: Result<(), UiClientError>)
    ensures
        r is Ok <==> msg_type@ == ack_type@,
        r matches Err(e) ==> (e matches UiClientError::Handshake(reason) && reason@
            == "expected HandshakeAck, got "@ + msg_type@),
{
    if str_eq(msg_type, ack_type) {
        Ok(())
    } else {
        Err(UiClientError::Handshake("expected HandshakeAck, got ".to_owned().concat(msg_type)))
    }
}

} // verus!
