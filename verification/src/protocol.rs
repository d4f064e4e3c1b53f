//! The records exchanged with the agent process, as values.
//!
//! Inbound records are [`AgentEvent`]s, outbound ones [`OutboundCommand`]s.
//! [`AgentSignal`] adds what the process itself can do to a session: produce
//! a record that cannot be decoded, break its stream, exit, or refuse a write.

use crate::approval::ApprovalKind;
use vstd::prelude::*;

verus! {

/// Which output stream of a command a piece of output came from.
#[derive(Clone, Copy, PartialEq, Eq, Debug, Structural)]
pub enum OutputStream {
    Stdout,
    Stderr,
}

/// One decoded record from the agent.
#[derive(Debug, PartialEq, Eq)]
pub enum AgentEvent {
    /// The agent finished its handshake.
    Ready,
    /// A piece of the agent's answer.
    MessageChunk { text: String },
    /// The agent asks for permission.
    ApprovalRequest { id: String, kind: ApprovalKind, payload: String },
    /// Output of a command that the agent runs.
    ExecOutput { stream: OutputStream, data: String },
    /// The diff that belongs to a patch approval.
    PatchDiff { approval_id: String, diff: String },
    /// The agent ended the session.
    SessionEnd { reason: String },
    /// The agent reports an error of its own.
    AgentError { message: String },
    /// A record of a kind that this version does not know; it changes nothing.
    Unrecognized,
}

/// The mathematical value of an [`AgentEvent`].
pub enum EventModel {
    Ready,
    MessageChunk { text: Seq<char> },
    ApprovalRequest { id: Seq<char>, kind: ApprovalKind, payload: Seq<char> },
    ExecOutput { stream: OutputStream, data: Seq<char> },
    PatchDiff { approval_id: Seq<char>, diff: Seq<char> },
    SessionEnd { reason: Seq<char> },
    AgentError { message: Seq<char> },
    Unrecognized,
}

impl View for AgentEvent {
    type V = EventModel;

    open spec fn view(&self) -> EventModel {
        match self {
            AgentEvent::Ready => EventModel::Ready,
            AgentEvent::MessageChunk { text } => EventModel::MessageChunk { text: text@ },
            AgentEvent::ApprovalRequest { id, kind, payload } => EventModel::ApprovalRequest {
                id: id@,
                kind: *kind,
                payload: payload@,
            },
            AgentEvent::ExecOutput { stream, data } => EventModel::ExecOutput {
                stream: *stream,
                data: data@,
            },
            AgentEvent::PatchDiff { approval_id, diff } => EventModel::PatchDiff {
                approval_id: approval_id@,
                diff: diff@,
            },
            AgentEvent::SessionEnd { reason } => EventModel::SessionEnd { reason: reason@ },
            AgentEvent::AgentError { message } => EventModel::AgentError { message: message@ },
            AgentEvent::Unrecognized => EventModel::Unrecognized,
        }
    }
}

/// One record for the agent.
#[derive(Debug, PartialEq, Eq)]
pub enum OutboundCommand {
    /// Text that the user typed.
    UserMessage { text: String },
    /// The human decision on an approval request.
    ApprovalResponse { id: String, approved: bool },
    /// Ask the agent to take no new work.
    Pause,
    /// Ask the agent to stop; the process is killed if it does not.
    Terminate,
}

/// The mathematical value of an [`OutboundCommand`].
pub enum CommandModel {
    UserMessage { text: Seq<char> },
    ApprovalResponse { id: Seq<char>, approved: bool },
    Pause,
    Terminate,
}

impl View for OutboundCommand {
    type V = CommandModel;

    open spec fn view(&self) -> CommandModel {
        match self {
            OutboundCommand::UserMessage { text } => CommandModel::UserMessage { text: text@ },
            OutboundCommand::ApprovalResponse { id, approved } => CommandModel::ApprovalResponse {
                id: id@,
                approved: *approved,
            },
            OutboundCommand::Pause => CommandModel::Pause,
            OutboundCommand::Terminate => CommandModel::Terminate,
        }
    }
}

impl Clone for OutboundCommand {
    fn clone(&self) -> (copy: Self)
        ensures
            copy@ == self@,
    {
        match self {
            OutboundCommand::UserMessage { text } => OutboundCommand::UserMessage {
                text: text.clone(),
            },
            OutboundCommand::ApprovalResponse { id, approved } => OutboundCommand::ApprovalResponse {
                id: id.clone(),
                approved: *approved,
            },
            OutboundCommand::Pause => OutboundCommand::Pause,
            OutboundCommand::Terminate => OutboundCommand::Terminate,
        }
    }
}

/// What reaches a session from its agent process.
#[derive(Debug, PartialEq, Eq)]
pub enum AgentSignal {
    /// A record was decoded.
    Event(AgentEvent),
    /// A record could not be decoded.
    Malformed,
    /// The output stream can no longer be read.
    StreamError,
    /// The process exited with this code.
    Exited { code: i32 },
    /// The input stream refused a write.
    WriteFailed,
}

/// The mathematical value of an [`AgentSignal`].
pub enum SignalModel {
    Event(EventModel),
    Malformed,
    StreamError,
    Exited { code: i32 },
    WriteFailed,
}

impl View for AgentSignal {
    type V = SignalModel;

    open spec fn view(&self) -> SignalModel {
        match self {
            AgentSignal::Event(event) => SignalModel::Event(event@),
            AgentSignal::Malformed => SignalModel::Malformed,
            AgentSignal::StreamError => SignalModel::StreamError,
            AgentSignal::Exited { code } => SignalModel::Exited { code: *code },
            AgentSignal::WriteFailed => SignalModel::WriteFailed,
        }
    }
}

} // verus!
