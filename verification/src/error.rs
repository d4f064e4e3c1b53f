//! The errors that session operations report.

use vstd::prelude::*;
use vstd::string::StringExecFns;

verus! {

/// Why an operation on the registry or on a session was refused, or why a
/// session failed.
///
/// The first six variants say that the request was invalid; the others say
/// that the agent itself failed.
#[derive(Clone, Copy, PartialEq, Eq, Debug, Structural)]
pub enum SessionError {
    /// A live session already uses the id.
    DuplicateSession,
    /// No session has the id.
    UnknownSession,
    /// The session has been closed or has failed.
    SessionNotRunning,
    /// The session never saw an approval request with the id.
    UnknownApproval,
    /// The approval request was resolved before.
    AlreadyResolved,
    /// The approval request was discarded when its session ended.
    SessionClosed,
    /// The agent process could not be started.
    SpawnFailed,
    /// The agent's input stream no longer accepts writes.
    WriteFailed,
    /// The agent process exited although nobody closed the session.
    UnexpectedExit { code: i32 },
    /// One record from the agent could not be decoded.
    ProtocolError,
    /// Too many records could not be decoded, or the stream broke.
    ProtocolFatal,
}

impl SessionError {
    /// Whether the error blames the request rather than the agent.
    pub open spec fn is_invalid_request(self) -> bool {
        match self {
            SessionError::DuplicateSession
            | SessionError::UnknownSession
            | SessionError::SessionNotRunning
            | SessionError::UnknownApproval
            | SessionError::AlreadyResolved
            | SessionError::SessionClosed => true,
            _ => false,
        }
    }

    /// Whether the error blames the request rather than the agent.
    pub fn invalid_request(&self) -> (invalid: bool)
        ensures
            invalid == self.is_invalid_request(),
    {
        match self {
            SessionError::DuplicateSession
            | SessionError::UnknownSession
            | SessionError::SessionNotRunning
            | SessionError::UnknownApproval
            | SessionError::AlreadyResolved
            | SessionError::SessionClosed => true,
            _ => false,
        }
    }

    /// The text shown to the user for this error.
    pub open spec fn message_text(self) -> Seq<char> {
        match self {
            SessionError::DuplicateSession => "Session already exists"@,
            SessionError::UnknownSession => "Session not found"@,
            SessionError::SessionNotRunning => "Session is not running"@,
            SessionError::UnknownApproval => "Approval request not found"@,
            SessionError::AlreadyResolved => "Approval request already resolved"@,
            SessionError::SessionClosed => "Session closed"@,
            SessionError::SpawnFailed => "Failed to start codex process"@,
            SessionError::WriteFailed => "Failed to write to codex process"@,
            SessionError::UnexpectedExit { .. } => "Codex process exited unexpectedly"@,
            SessionError::ProtocolError => "Malformed record from codex process"@,
            SessionError::ProtocolFatal => "Too many malformed records from codex process"@,
        }
    }

    /// The text shown to the user for this error.
    pub fn message(&self) -> (text: String)
        ensures
            text@ == self.message_text(),
    {
        match self {
            SessionError::DuplicateSession => String::from_str("Session already exists"),
            SessionError::UnknownSession => String::from_str("Session not found"),
            SessionError::SessionNotRunning => String::from_str("Session is not running"),
            SessionError::UnknownApproval => String::from_str("Approval request not found"),
            SessionError::AlreadyResolved => String::from_str(
                "Approval request already resolved",
            ),
            SessionError::SessionClosed => String::from_str("Session closed"),
            SessionError::SpawnFailed => String::from_str("Failed to start codex process"),
            SessionError::WriteFailed => String::from_str("Failed to write to codex process"),
            SessionError::UnexpectedExit { .. } => String::from_str(
                "Codex process exited unexpectedly",
            ),
            SessionError::ProtocolError => String::from_str(
                "Malformed record from codex process",
            ),
            SessionError::ProtocolFatal => String::from_str(
                "Too many malformed records from codex process",
            ),
        }
    }
}

} // verus!
