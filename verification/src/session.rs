//! One session: a state machine bound to one agent process.
//!
//! The session decides; it performs no I/O. What has to be written to the
//! agent is queued in the outbox in the order in which it was decided, and
//! what the agent or its process did arrives as an [`AgentSignal`].

use crate::approval::{ApprovalGate, ApprovalKind, ApprovalRequest, ApprovalModel, GateModel};
use crate::approval::{close_discards_pending, register_keeps_wf, resolve_keeps_wf};
use crate::error::SessionError;
use crate::protocol::{AgentEvent, AgentSignal, CommandModel, EventModel, OutboundCommand};
use crate::protocol::SignalModel;
use crate::text::text_views;
use vstd::prelude::*;

verus! {

/// Where a session stands in its life.
#[derive(Clone, Copy, PartialEq, Eq, Debug, Structural)]
pub enum SessionStatus {
    /// The process was spawned; the agent has not reported ready.
    Starting,
    /// The agent works and nothing waits for a decision.
    Running,
    /// At least one approval request waits for a decision.
    AwaitingApproval,
    /// New user messages are held back; the process lives on.
    Paused,
    /// The session was closed in an orderly way.
    Closed,
    /// The agent or its process failed.
    Failed,
}

impl SessionStatus {
    /// The session has neither been closed nor failed.
    pub open spec fn is_live(self) -> bool {
        self != SessionStatus::Closed && self != SessionStatus::Failed
    }

    /// Whether the session has neither been closed nor failed.
    pub fn live(&self) -> (live: bool)
        ensures
            live == self.is_live(),
    {
        match self {
            SessionStatus::Closed | SessionStatus::Failed => false,
            _ => true,
        }
    }
}

/// The launch parameters of a session, fixed when it is created.
#[derive(Debug, PartialEq, Eq)]
pub struct CodexConfig {
    /// The directory in which the agent works.
    pub working_directory: String,
    /// The model that the agent is asked to use.
    pub model: String,
    /// The settings profile that the agent is asked to use.
    pub profile: String,
    /// How many records that cannot be decoded the session tolerates.
    pub max_protocol_errors: u32,
}

/// The mathematical value of a [`CodexConfig`].
pub struct ConfigModel {
    pub working_directory: Seq<char>,
    pub model: Seq<char>,
    pub profile: Seq<char>,
    pub max_protocol_errors: u32,
}

impl View for CodexConfig {
    type V = ConfigModel;

    open spec fn view(&self) -> ConfigModel {
        ConfigModel {
            working_directory: self.working_directory@,
            model: self.model@,
            profile: self.profile@,
            max_protocol_errors: self.max_protocol_errors,
        }
    }
}

impl Clone for CodexConfig {
    fn clone(&self) -> (copy: Self)
        ensures
            copy@ == self@,
    {
        CodexConfig {
            working_directory: self.working_directory.clone(),
            model: self.model.clone(),
            profile: self.profile.clone(),
            max_protocol_errors: self.max_protocol_errors,
        }
    }
}

/// The mathematical value of a [`Session`].
pub struct SessionModel {
    pub id: Seq<char>,
    pub config: ConfigModel,
    pub status: SessionStatus,
    pub gate: GateModel,
    /// What is to be written to the agent, in the order of writing.
    pub outbox: Seq<CommandModel>,
    /// User messages accepted while the session is paused.
    pub held: Seq<Seq<char>>,
    /// How many records could not be decoded so far.
    pub protocol_errors: u32,
    /// Why the session failed.
    pub failure: Option<SessionError>,
    /// The reason that the agent gave when it ended the session.
    pub end_reason: Option<Seq<char>>,
    pub created_at: u64,
    pub last_activity_at: u64,
}

impl SessionModel {
    /// The session right after its process was spawned.
    pub open spec fn fresh(id: Seq<char>, config: ConfigModel, now: u64) -> SessionModel {
        SessionModel {
            id,
            config,
            status: SessionStatus::Starting,
            gate: GateModel::empty(),
            outbox: Seq::empty(),
            held: Seq::empty(),
            protocol_errors: 0,
            failure: None,
            end_reason: None,
            created_at: now,
            last_activity_at: now,
        }
    }

    /// What always holds of a session.
    ///
    /// In particular: the status is `AwaitingApproval` only while a request
    /// waits, a request waits only in that status or while paused, and a
    /// session that has ended has a closed gate at which nothing waits.
    pub open spec fn wf(self) -> bool {
        &&& self.gate.wf()
        &&& self.gate.closed == !self.status.is_live()
        &&& self.status == SessionStatus::AwaitingApproval ==> self.gate.pending.len() > 0
        &&& self.status == SessionStatus::Starting || self.status == SessionStatus::Running
            ==> self.gate.pending.len() == 0
        &&& self.failure is Some == (self.status == SessionStatus::Failed)
        &&& self.held.len() > 0 ==> self.status == SessionStatus::Paused
        &&& self.status.is_live() ==> self.protocol_errors <= self.config.max_protocol_errors
        &&& self.end_reason is Some ==> self.status == SessionStatus::Closed
    }

    /// Whether the session takes a user message or a pause.
    pub open spec fn accepts(self) -> Result<(), SessionError> {
        if self.status.is_live() {
            Ok(())
        } else {
            Err(SessionError::SessionNotRunning)
        }
    }

    /// The session after it took the user message `text`: the message is
    /// queued for the agent behind everything queued before, or held back
    /// while the session is paused.
    pub open spec fn send(self, text: Seq<char>, now: u64) -> SessionModel {
        if self.status == SessionStatus::Paused {
            SessionModel { held: self.held.push(text), last_activity_at: now, ..self }
        } else {
            SessionModel {
                outbox: self.outbox.push(CommandModel::UserMessage { text }),
                last_activity_at: now,
                ..self
            }
        }
    }

    /// The session after the waiting request `approval` was decided: the
    /// decision is queued for the agent, and a session that waited for its
    /// last decision runs again.
    pub open spec fn resolve(self, approval: Seq<char>, approved: bool, now: u64) -> SessionModel {
        let gate = self.gate.resolve(approval, approved);
        SessionModel {
            gate,
            outbox: self.outbox.push(CommandModel::ApprovalResponse { id: approval, approved }),
            status: if self.status == SessionStatus::AwaitingApproval && gate.pending.len() == 0 {
                SessionStatus::Running
            } else {
                self.status
            },
            last_activity_at: now,
            ..self
        }
    }

    /// The session after a pause was asked for. A paused session stays as
    /// it is.
    pub open spec fn pause(self, now: u64) -> SessionModel {
        if self.status == SessionStatus::Paused {
            self
        } else {
            SessionModel {
                status: SessionStatus::Paused,
                outbox: self.outbox.push(CommandModel::Pause),
                last_activity_at: now,
                ..self
            }
        }
    }

    /// The session after it ended with `status`: what waited for a decision
    /// and what was held back is discarded, and the agent is told to stop.
    pub open spec fn ended(
        self,
        status: SessionStatus,
        failure: Option<SessionError>,
        end_reason: Option<Seq<char>>,
        now: u64,
    ) -> SessionModel {
        SessionModel {
            status,
            failure,
            end_reason,
            gate: self.gate.close(),
            held: Seq::empty(),
            outbox: self.outbox.push(CommandModel::Terminate),
            last_activity_at: now,
            ..self
        }
    }

    /// The session after a close was asked for. A session that has ended
    /// stays as it is.
    pub open spec fn close(self, now: u64) -> SessionModel {
        if self.status.is_live() {
            self.ended(SessionStatus::Closed, None, None, now)
        } else {
            self
        }
    }

    /// The session after its agent failed for `reason`. A session that has
    /// ended stays as it is.
    pub open spec fn fail(self, reason: SessionError, now: u64) -> SessionModel {
        if self.status.is_live() {
            self.ended(SessionStatus::Failed, Some(reason), None, now)
        } else {
            self
        }
    }

    /// The session after one more record could not be used. Beyond the
    /// configured number of such records the session fails.
    pub open spec fn miscount(self, now: u64) -> SessionModel {
        let count = if self.protocol_errors < u32::MAX {
            (self.protocol_errors + 1) as u32
        } else {
            self.protocol_errors
        };
        let counted = SessionModel { protocol_errors: count, last_activity_at: now, ..self };
        if count > self.config.max_protocol_errors {
            counted.fail(SessionError::ProtocolFatal, now)
        } else {
            counted
        }
    }

    /// The session after the agent asked for permission.
    pub open spec fn request(
        self,
        id: Seq<char>,
        kind: ApprovalKind,
        payload: Seq<char>,
        now: u64,
    ) -> SessionModel {
        if self.gate.admits(id) {
            SessionModel {
                gate: self.gate.register(ApprovalModel { id, kind, payload, requested_at: now }),
                status: if self.status == SessionStatus::Paused {
                    SessionStatus::Paused
                } else {
                    SessionStatus::AwaitingApproval
                },
                last_activity_at: now,
                ..self
            }
        } else {
            self.miscount(now)
        }
    }

    /// The session after `signal` reached it. A session that has ended
    /// ignores every signal.
    pub open spec fn receive(self, signal: SignalModel, now: u64) -> SessionModel {
        if !self.status.is_live() {
            self
        } else {
            match signal {
                SignalModel::Event(EventModel::Ready) => SessionModel {
                    status: if self.status == SessionStatus::Starting {
                        SessionStatus::Running
                    } else {
                        self.status
                    },
                    last_activity_at: now,
                    ..self
                },
                SignalModel::Event(EventModel::ApprovalRequest { id, kind, payload }) => self.request(
                    id,
                    kind,
                    payload,
                    now,
                ),
                SignalModel::Event(EventModel::SessionEnd { reason }) => self.ended(
                    SessionStatus::Closed,
                    None,
                    Some(reason),
                    now,
                ),
                SignalModel::Event(_) => SessionModel { last_activity_at: now, ..self },
                SignalModel::Malformed => self.miscount(now),
                SignalModel::StreamError => self.fail(SessionError::ProtocolFatal, now),
                SignalModel::Exited { code } => self.fail(
                    SessionError::UnexpectedExit { code },
                    now,
                ),
                SignalModel::WriteFailed => self.fail(SessionError::WriteFailed, now),
            }
        }
    }
}

/// Every step keeps a session well-formed.
pub proof fn steps_keep_wf(s: SessionModel, now: u64)
    requires
        s.wf(),
    ensures
        forall|text: Seq<char>| s.accepts() is Ok ==> #[trigger] s.send(text, now).wf(),
        forall|approval: Seq<char>, approved: bool|
            s.gate.verdict(approval) is Ok ==> #[trigger] s.resolve(approval, approved, now).wf(),
        s.accepts() is Ok ==> s.pause(now).wf(),
        s.close(now).wf(),
        forall|reason: SessionError| #[trigger] s.fail(reason, now).wf(),
        forall|signal: SignalModel| #[trigger] s.receive(signal, now).wf(),
{
    assert forall|approval: Seq<char>, approved: bool|
        s.gate.verdict(approval) is Ok implies #[trigger] s.resolve(approval, approved, now).wf() by {
        resolve_keeps_wf(s.gate, approval, approved);
    }
    close_discards_pending(s.gate, Seq::empty());
    assert forall|signal: SignalModel| #[trigger] s.receive(signal, now).wf() by {
        match signal {
            SignalModel::Event(EventModel::ApprovalRequest { id, kind, payload }) => {
                if s.status.is_live() && s.gate.admits(id) {
                    register_keeps_wf(
                        s.gate,
                        ApprovalModel { id, kind, payload, requested_at: now },
                    );
                }
            },
            _ => {},
        }
    }
}

/// One session.
#[derive(Debug)]
pub struct Session {
    id: String,
    config: CodexConfig,
    status: SessionStatus,
    gate: ApprovalGate,
    outbox: Vec<OutboundCommand>,
    held: Vec<String>,
    protocol_errors: u32,
    failure: Option<SessionError>,
    end_reason: Option<String>,
    created_at: u64,
    last_activity_at: u64,
}

/// The views of the commands in `commands`.
pub open spec fn command_views(commands: Seq<OutboundCommand>) -> Seq<CommandModel> {
    commands.map_values(|c: OutboundCommand| c@)
}

/// The view of an optional string.
pub open spec fn optional_text(text: Option<String>) -> Option<Seq<char>> {
    match text {
        Some(t) => Some(t@),
        None => None,
    }
}

impl View for Session {
    type V = SessionModel;

    closed spec fn view(&self) -> SessionModel {
        SessionModel {
            id: self.id@,
            config: self.config@,
            status: self.status,
            gate: self.gate@,
            outbox: command_views(self.outbox@),
            held: text_views(self.held@),
            protocol_errors: self.protocol_errors,
            failure: self.failure,
            end_reason: optional_text(self.end_reason),
            created_at: self.created_at,
            last_activity_at: self.last_activity_at,
        }
    }
}

impl Session {
    /// The session right after its process was spawned.
    pub fn new(id: String, config: CodexConfig, now: u64) -> (session: Session)
        ensures
            session@ == SessionModel::fresh(id@, config@, now),
            session@.wf(),
    {
        let session = Session {
            id,
            config,
            status: SessionStatus::Starting,
            gate: ApprovalGate::new(),
            outbox: Vec::new(),
            held: Vec::new(),
            protocol_errors: 0,
            failure: None,
            end_reason: None,
            created_at: now,
            last_activity_at: now,
        };
        assert(session@.outbox =~= Seq::empty());
        assert(session@.held =~= Seq::empty());
        session
    }

    pub fn id(&self) -> (id: &String)
        ensures
            id@ == self@.id,
    {
        &self.id
    }

    pub fn config(&self) -> (config: &CodexConfig)
        ensures
            config@ == self@.config,
    {
        &self.config
    }

    pub fn status(&self) -> (status: SessionStatus)
        ensures
            status == self@.status,
    {
        self.status
    }

    /// Why the session failed, if it did.
    pub fn failure(&self) -> (failure: Option<SessionError>)
        ensures
            failure == self@.failure,
    {
        self.failure
    }

    /// The reason that the agent gave when it ended the session.
    pub fn end_reason(&self) -> (reason: Option<String>)
        ensures
            optional_text(reason) == self@.end_reason,
    {
        match &self.end_reason {
            Some(reason) => Some(reason.clone()),
            None => None,
        }
    }

    pub fn created_at(&self) -> (at: u64)
        ensures
            at == self@.created_at,
    {
        self.created_at
    }

    pub fn last_activity_at(&self) -> (at: u64)
        ensures
            at == self@.last_activity_at,
    {
        self.last_activity_at
    }

    /// How many records could not be decoded so far.
    pub fn protocol_errors(&self) -> (count: u32)
        ensures
            count == self@.protocol_errors,
    {
        self.protocol_errors
    }

    /// The approval gate of the session.
    pub fn gate(&self) -> (gate: &ApprovalGate)
        ensures
            gate@ == self@.gate,
    {
        &self.gate
    }

    /// How many commands wait to be written to the agent.
    pub fn outbox_len(&self) -> (count: usize)
        ensures
            count == self@.outbox.len(),
    {
        self.outbox.len()
    }

    /// How many user messages are held back.
    pub fn held_len(&self) -> (count: usize)
        ensures
            count == self@.held.len(),
    {
        self.held.len()
    }

    /// Takes a user message.
    ///
    /// Refused with `SessionNotRunning` once the session has ended.
    pub fn send(&mut self, text: String, now: u64) -> (result: Result<(), SessionError>)
        requires
            old(self)@.wf(),
        ensures
            final(self)@.wf(),
            result == old(self)@.accepts(),
            result is Ok ==> final(self)@ == old(self)@.send(text@, now),
            result is Err ==> final(self)@ == old(self)@,
    {
        if !self.status.live() {
            return Err(SessionError::SessionNotRunning);
        }
        if self.status == SessionStatus::Paused {
            self.held.push(text);
            self.last_activity_at = now;
            assert(self@.held =~= old(self)@.held.push(text@));
        } else {
            self.outbox.push(OutboundCommand::UserMessage { text });
            self.last_activity_at = now;
            assert(self@.outbox =~= old(self)@.outbox.push(
                CommandModel::UserMessage { text: text@ },
            ));
        }
        Ok(())
    }

    /// Decides the approval request `approval`.
    ///
    /// Succeeds exactly when the request waits; the errors are those of
    /// [`ApprovalGate::resolve`].
    pub fn resolve(&mut self, approval: &str, approved: bool, now: u64) -> (result: Result<
        (),
        SessionError,
    >)
        requires
            old(self)@.wf(),
        ensures
            final(self)@.wf(),
            result == old(self)@.gate.verdict(approval@),
            result is Ok ==> final(self)@ == old(self)@.resolve(approval@, approved, now),
            result is Err ==> final(self)@ == old(self)@,
    {
        proof {
            steps_keep_wf(self@, now);
        }
        match self.gate.resolve(approval, approved) {
            Err(e) => Err(e),
            Ok(request) => {
                self.outbox.push(OutboundCommand::ApprovalResponse { id: request.id, approved });
                if self.status == SessionStatus::AwaitingApproval && self.gate.pending_count()
                    == 0 {
                    self.status = SessionStatus::Running;
                }
                self.last_activity_at = now;
                assert(self@.outbox =~= old(self)@.outbox.push(
                    CommandModel::ApprovalResponse { id: approval@, approved },
                ));
                assert(self@ == old(self)@.resolve(approval@, approved, now));
                Ok(())
            },
        }
    }

    /// Pauses the session: new user messages are held back from now on.
    ///
    /// A paused session stays as it is; a session that has ended refuses with
    /// `SessionNotRunning`.
    pub fn pause(&mut self, now: u64) -> (result: Result<(), SessionError>)
        requires
            old(self)@.wf(),
        ensures
            final(self)@.wf(),
            result == old(self)@.accepts(),
            result is Ok ==> final(self)@ == old(self)@.pause(now),
            result is Err ==> final(self)@ == old(self)@,
    {
        if !self.status.live() {
            return Err(SessionError::SessionNotRunning);
        }
        if self.status != SessionStatus::Paused {
            self.status = SessionStatus::Paused;
            self.outbox.push(OutboundCommand::Pause);
            self.last_activity_at = now;
            assert(self@.outbox =~= old(self)@.outbox.push(CommandModel::Pause));
        }
        Ok(())
    }

    /// Ends the session with `status`.
    fn end(
        &mut self,
        status: SessionStatus,
        failure: Option<SessionError>,
        end_reason: Option<String>,
        now: u64,
    )
        requires
            old(self)@.gate.wf(),
        ensures
            final(self)@ == old(self)@.ended(status, failure, optional_text(end_reason), now),
    {
        self.status = status;
        self.failure = failure;
        self.end_reason = end_reason;
        let _ = self.gate.close();
        self.held = Vec::new();
        self.outbox.push(OutboundCommand::Terminate);
        self.last_activity_at = now;
        assert(self@.outbox =~= old(self)@.outbox.push(CommandModel::Terminate));
        assert(self@.held =~= Seq::empty());
    }

    /// Closes the session: what waited for a decision is discarded and the
    /// agent is told to stop. A session that has ended stays as it is.
    pub fn close(&mut self, now: u64)
        requires
            old(self)@.wf(),
        ensures
            final(self)@.wf(),
            final(self)@ == old(self)@.close(now),
    {
        proof {
            steps_keep_wf(self@, now);
        }
        if self.status.live() {
            self.end(SessionStatus::Closed, None, None, now);
        }
    }

    /// Marks the session as failed for `reason`. A session that has ended
    /// stays as it is.
    pub fn fail(&mut self, reason: SessionError, now: u64)
        requires
            old(self)@.wf(),
        ensures
            final(self)@.wf(),
            final(self)@ == old(self)@.fail(reason, now),
    {
        proof {
            steps_keep_wf(self@, now);
        }
        if self.status.live() {
            self.end(SessionStatus::Failed, Some(reason), None, now);
        }
    }

    /// Counts a record that could not be used.
    fn miscount(&mut self, now: u64)
        requires
            old(self)@.wf(),
            old(self)@.status.is_live(),
        ensures
            final(self)@ == old(self)@.miscount(now),
    {
        if self.protocol_errors < u32::MAX {
            self.protocol_errors = self.protocol_errors + 1;
        }
        self.last_activity_at = now;
        if self.protocol_errors > self.config.max_protocol_errors {
            self.end(SessionStatus::Failed, Some(SessionError::ProtocolFatal), None, now);
        }
    }

    /// Takes in what the agent or its process did, and says where the session
    /// stands afterwards.
    pub fn receive(&mut self, signal: AgentSignal, now: u64) -> (status: SessionStatus)
        requires
            old(self)@.wf(),
        ensures
            final(self)@.wf(),
            final(self)@ == old(self)@.receive(signal@, now),
            status == final(self)@.status,
    {
        proof {
            steps_keep_wf(self@, now);
        }
        if !self.status.live() {
            return self.status;
        }
        match signal {
            AgentSignal::Event(AgentEvent::Ready) => {
                if self.status == SessionStatus::Starting {
                    self.status = SessionStatus::Running;
                }
                self.last_activity_at = now;
            },
            AgentSignal::Event(AgentEvent::ApprovalRequest { id, kind, payload }) => {
                let request = ApprovalRequest { id, kind, payload, requested_at: now };
                match self.gate.register(request) {
                    Ok(()) => {
                        if self.status != SessionStatus::Paused {
                            self.status = SessionStatus::AwaitingApproval;
                        }
                        self.last_activity_at = now;
                    },
                    Err(_) => {
                        self.miscount(now);
                    },
                }
            },
            AgentSignal::Event(AgentEvent::SessionEnd { reason }) => {
                self.end(SessionStatus::Closed, None, Some(reason), now);
            },
            AgentSignal::Event(_) => {
                self.last_activity_at = now;
            },
            AgentSignal::Malformed => {
                self.miscount(now);
            },
            AgentSignal::StreamError => {
                self.end(SessionStatus::Failed, Some(SessionError::ProtocolFatal), None, now);
            },
            AgentSignal::Exited { code } => {
                self.end(
                    SessionStatus::Failed,
                    Some(SessionError::UnexpectedExit { code }),
                    None,
                    now,
                );
            },
            AgentSignal::WriteFailed => {
                self.end(SessionStatus::Failed, Some(SessionError::WriteFailed), None, now);
            },
        }
        self.status
    }

    /// Hands out what is to be written to the agent, in the order of writing,
    /// and empties the outbox.
    pub fn take_outbound(&mut self) -> (commands: Vec<OutboundCommand>)
        requires
            old(self)@.wf(),
        ensures
            final(self)@.wf(),
            command_views(commands@) == old(self)@.outbox,
            final(self)@ == (SessionModel { outbox: Seq::empty(), ..old(self)@ }),
    {
        let mut commands: Vec<OutboundCommand> = Vec::new();
        std::mem::swap(&mut self.outbox, &mut commands);
        assert(self@.outbox =~= Seq::empty());
        commands
    }
}

} // verus!
