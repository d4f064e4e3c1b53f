//! The commands that a user interface gives, on a table of sessions.
//!
//! Each command does what the operation of the table of the same meaning
//! does, and answers with the text of the error where the table answers
//! with an error.

use crate::approval::ApprovalKind;
use crate::error::SessionError;
use crate::registry::{session_has_its_id, RegistryModel, SessionRegistry, SpawnOutcome};
use crate::session::CodexConfig;
use crate::text::text_views;
use vstd::prelude::*;

verus! {

/// The answer to a command: the verdict, with an error given as its text.
pub open spec fn reply(verdict: Result<(), SessionError>) -> Result<(), Seq<char>> {
    match verdict {
        Ok(()) => Ok(()),
        Err(e) => Err(e.message_text()),
    }
}

/// What `result` says, with the text taken by its view.
pub open spec fn reply_view(result: Result<(), String>) -> Result<(), Seq<char>> {
    match result {
        Ok(()) => Ok(()),
        Err(text) => Err(text@),
    }
}

/// What deciding the request `approval` of the session `id` yields where
/// the request has to be of the kind `kind`: what deciding it yields
/// otherwise, but that a waiting request of another kind counts as unknown.
pub open spec fn approve_verdict(
    r: RegistryModel,
    id: Seq<char>,
    approval: Seq<char>,
    kind: ApprovalKind,
) -> Result<(), SessionError> {
    match r.resolve_verdict(id, approval) {
        Err(e) => Err(e),
        Ok(()) => {
            let gate = r.session(id).gate;
            if gate.pending[gate.pending_index(approval)].kind == kind {
                Ok(())
            } else {
                Err(SessionError::UnknownApproval)
            }
        },
    }
}

/// Turns an error into its text.
fn answer(verdict: Result<(), SessionError>) -> (result: Result<(), String>)
    ensures
        reply_view(result) == reply(verdict),
{
    match verdict {
        Ok(()) => Ok(()),
        Err(e) => Err(e.message()),
    }
}

/// Starts the session `session_id`, given how the spawn of its agent
/// process ended; see [`SessionRegistry::start`].
pub fn start_codex_session(
    registry: &mut SessionRegistry,
    session_id: String,
    config: CodexConfig,
    outcome: SpawnOutcome,
) -> (result: Result<(), String>)
    requires
        old(registry)@.wf(),
    ensures
        final(registry)@.wf(),
        reply_view(result) == reply(old(registry)@.start_verdict(session_id@, outcome)),
        result is Ok ==> final(registry)@ == old(registry)@.start(session_id@, config@),
        result is Err ==> final(registry)@ == old(registry)@,
{
    answer(registry.start(session_id, config, outcome))
}

/// Sends the user message `message` to the session `session_id`; see
/// [`SessionRegistry::send`].
pub fn send_message(registry: &mut SessionRegistry, session_id: String, message: String) -> (result:
    Result<(), String>)
    requires
        old(registry)@.wf(),
    ensures
        final(registry)@.wf(),
        reply_view(result) == reply(old(registry)@.send_verdict(session_id@)),
        result is Ok ==> final(registry)@ == old(registry)@.send(session_id@, message@),
        result is Err ==> final(registry)@ == old(registry)@,
{
    answer(registry.send(session_id.as_str(), message))
}

/// Decides the waiting approval request `approval_id` of the session
/// `session_id`, which has to be of the kind `kind`.
///
/// Succeeds exactly when the request waits and is of that kind. A waiting
/// request of another kind is refused with the text of `UnknownApproval`;
/// for everything else see [`SessionRegistry::resolve_approval`].
pub fn approve(
    registry: &mut SessionRegistry,
    session_id: &str,
    approval_id: &str,
    kind: ApprovalKind,
    approved: bool,
) -> (result: Result<(), SessionError>)
    requires
        old(registry)@.wf(),
    ensures
        final(registry)@.wf(),
        result == approve_verdict(old(registry)@, session_id@, approval_id@, kind),
        result is Ok ==> final(registry)@ == old(registry)@.resolve(
            session_id@,
            approval_id@,
            approved,
        ),
        result is Err ==> final(registry)@ == old(registry)@,
{
    match registry.pending_kind(session_id, approval_id) {
        Some(found) => {
            proof {
                session_has_its_id(registry@, session_id@);
                let gate = registry@.session(session_id@).gate;
                let at = gate.pending_index(approval_id@);
                assert(0 <= at < gate.pending.len() && gate.pending[at].id == approval_id@);
                if gate.is_resolved(approval_id@) {
                    let k = choose|k: int|
                        #![trigger gate.resolved[k]]
                        0 <= k < gate.resolved.len() && gate.resolved[k].id == approval_id@;
                    assert(gate.pending[at].id != gate.resolved[k].id);
                }
                assert(gate.verdict(approval_id@) is Ok);
            }
            if found != kind {
                return Err(SessionError::UnknownApproval);
            }
            registry.resolve_approval(session_id, approval_id, approved)
        },
        None => {
            let result = registry.resolve_approval(session_id, approval_id, approved);
            assert(result is Err);
            result
        },
    }
}

/// Decides the request `approval_id` of the session `session_id` to run a
/// command; see [`approve`].
pub fn approve_execution(
    registry: &mut SessionRegistry,
    session_id: String,
    approval_id: String,
    approved: bool,
) -> (result: Result<(), String>)
    requires
        old(registry)@.wf(),
    ensures
        final(registry)@.wf(),
        reply_view(result) == reply(
            approve_verdict(old(registry)@, session_id@, approval_id@, ApprovalKind::Execution),
        ),
        result is Ok ==> final(registry)@ == old(registry)@.resolve(
            session_id@,
            approval_id@,
            approved,
        ),
        result is Err ==> final(registry)@ == old(registry)@,
{
    answer(
        approve(
            registry,
            session_id.as_str(),
            approval_id.as_str(),
            ApprovalKind::Execution,
            approved,
        ),
    )
}

/// Decides the request `approval_id` of the session `session_id` to apply
/// a patch; see [`approve`].
pub fn approve_patch(
    registry: &mut SessionRegistry,
    session_id: String,
    approval_id: String,
    approved: bool,
) -> (result: Result<(), String>)
    requires
        old(registry)@.wf(),
    ensures
        final(registry)@.wf(),
        reply_view(result) == reply(
            approve_verdict(old(registry)@, session_id@, approval_id@, ApprovalKind::Patch),
        ),
        result is Ok ==> final(registry)@ == old(registry)@.resolve(
            session_id@,
            approval_id@,
            approved,
        ),
        result is Err ==> final(registry)@ == old(registry)@,
{
    answer(
        approve(registry, session_id.as_str(), approval_id.as_str(), ApprovalKind::Patch, approved),
    )
}

/// Pauses the session `session_id`; see [`SessionRegistry::pause`].
pub fn pause_session(registry: &mut SessionRegistry, session_id: String) -> (result: Result<
    (),
    String,
>)
    requires
        old(registry)@.wf(),
    ensures
        final(registry)@.wf(),
        reply_view(result) == reply(old(registry)@.send_verdict(session_id@)),
        result is Ok ==> final(registry)@ == old(registry)@.pause(session_id@),
        result is Err ==> final(registry)@ == old(registry)@,
{
    answer(registry.pause(session_id.as_str()))
}

/// Closes the session `session_id`; see [`SessionRegistry::close`].
pub fn close_session(registry: &mut SessionRegistry, session_id: String) -> (result: Result<
    (),
    String,
>)
    requires
        old(registry)@.wf(),
    ensures
        final(registry)@.wf(),
        reply_view(result) == reply(old(registry)@.routed(session_id@)),
        result is Ok ==> final(registry)@ == old(registry)@.close(session_id@),
        result is Err ==> final(registry)@ == old(registry)@,
{
    answer(registry.close(session_id.as_str()))
}

/// The ids of the sessions that have not ended, in the order in which the
/// sessions were started. This command never fails.
pub fn get_running_sessions(registry: &SessionRegistry) -> (result: Result<Vec<String>, String>)
    requires
        registry@.wf(),
    ensures
        result is Ok,
        text_views(result->Ok_0@) == registry@.running(),
{
    Ok(registry.list_running())
}

} // verus!
