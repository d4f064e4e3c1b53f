//! What holds of sessions across several operations.
//!
//! Each theorem here is stated over the mathematical values of the table and
//! its sessions, the same values over which the operations state what they
//! do.

use crate::approval::{close_discards_pending, resolve_keeps_wf, second_resolution_is_rejected};
use crate::error::SessionError;
use crate::protocol::{CommandModel, SignalModel};
use crate::registry::{put_changes_one, running_lists_live, without_removes_one};
use crate::sequences::filter_of_push;
use crate::registry::{session_has_its_id, start_adds_one};
use crate::registry::RegistryModel;
use crate::session::{steps_keep_wf, ConfigModel, SessionModel, SessionStatus};
use vstd::prelude::*;

verus! {

/// Closing is idempotent: closing a session of the table succeeds, closing it
/// again succeeds too and changes nothing, and after either close the session
/// is not listed as running.
pub proof fn close_is_idempotent(r: RegistryModel, id: Seq<char>)
    requires
        r.wf(),
        r.has(id),
    ensures
        r.routed(id) is Ok,
        r.close(id).wf(),
        r.close(id).routed(id) is Ok,
        r.close(id).close(id) == r.close(id),
        !r.close(id).running().contains(id),
        !r.close(id).close(id).running().contains(id),
{
    session_has_its_id(r, id);
    steps_keep_wf(r.session(id), r.clock);
    let closed = r.session(id).close(r.clock);
    put_changes_one(r, closed);
    let once = r.close(id);
    assert(once.has(id));
    assert(once.session(id) == closed);
    assert(!closed.status.is_live());
    assert(closed.close(once.clock) == closed);
    assert(once.close(id).sessions =~= once.sessions);
    running_lists_live(once, id);
}

/// A decision that was made stays made, whatever the session does next.
pub proof fn decision_is_kept(s: SessionModel, approval: Seq<char>, now: u64)
    requires
        s.wf(),
        s.gate.is_resolved(approval),
    ensures
        forall|text: Seq<char>| #[trigger] s.send(text, now).gate.is_resolved(approval),
        forall|other: Seq<char>, approved: bool|
            s.gate.verdict(other) is Ok ==> #[trigger] s.resolve(
                other,
                approved,
                now,
            ).gate.is_resolved(approval),
        s.pause(now).gate.is_resolved(approval),
        s.close(now).gate.is_resolved(approval),
        forall|reason: SessionError| #[trigger] s.fail(reason, now).gate.is_resolved(approval),
        forall|signal: SignalModel| #[trigger] s.receive(signal, now).gate.is_resolved(approval),
{
    let at = choose|i: int|
        #![trigger s.gate.resolved[i]]
        0 <= i < s.gate.resolved.len() && s.gate.resolved[i].id == approval;
    assert forall|other: Seq<char>, approved: bool| s.gate.verdict(other) is Ok implies #[trigger] s.resolve(
        other,
        approved,
        now,
    ).gate.is_resolved(approval) by {
        assert(s.resolve(other, approved, now).gate.resolved[at].id == approval);
    }
    assert(s.close(now).gate.resolved[at].id == approval);
    assert forall|reason: SessionError| #[trigger] s.fail(reason, now).gate.is_resolved(
        approval,
    ) by {
        assert(s.fail(reason, now).gate.resolved[at].id == approval);
    }
    assert forall|signal: SignalModel| #[trigger] s.receive(signal, now).gate.is_resolved(
        approval,
    ) by {
        assert(s.receive(signal, now).gate.resolved[at].id == approval);
    }
}

/// An approval request is decided exactly once: where a decision succeeds, a
/// second one on the same request is refused with `AlreadyResolved`, also
/// after the session was closed in between.
pub proof fn approval_resolves_once(
    r: RegistryModel,
    id: Seq<char>,
    approval: Seq<char>,
    first: bool,
)
    requires
        r.wf(),
        r.resolve_verdict(id, approval) is Ok,
    ensures
        r.resolve(id, approval, first).wf(),
        r.resolve(id, approval, first).resolve_verdict(id, approval) == Err::<(), SessionError>(
            SessionError::AlreadyResolved,
        ),
        r.resolve(id, approval, first).close(id).resolve_verdict(id, approval) == Err::<
            (),
            SessionError,
        >(SessionError::AlreadyResolved),
{
    session_has_its_id(r, id);
    let s = r.session(id);
    steps_keep_wf(s, r.clock);
    let decided = s.resolve(approval, first, r.clock);
    second_resolution_is_rejected(s.gate, approval, first);
    put_changes_one(r, decided);
    let after = r.resolve(id, approval, first);
    assert(after.session(id) == decided);
    steps_keep_wf(decided, after.clock);
    decision_is_kept(decided, approval, after.clock);
    put_changes_one(after, decided.close(after.clock));
}

/// A decision and a close never both win: once a session was closed, a
/// decision on any of its requests is refused, with `AlreadyResolved` where
/// the decision came first and with `SessionClosed` where the close did.
pub proof fn close_ends_all_decisions(r: RegistryModel, id: Seq<char>, approval: Seq<char>)
    requires
        r.wf(),
        r.has(id),
    ensures
        r.close(id).resolve_verdict(id, approval) == Err::<(), SessionError>(
            if r.session(id).gate.is_resolved(approval) {
                SessionError::AlreadyResolved
            } else {
                SessionError::SessionClosed
            },
        ),
{
    session_has_its_id(r, id);
    let s = r.session(id);
    steps_keep_wf(s, r.clock);
    put_changes_one(r, s.close(r.clock));
    close_discards_pending(s.gate, approval);
    assert(r.close(id).session(id) == s.close(r.clock));
}

/// When the agent process of a live session exits unexpectedly, the session
/// fails with the exit code as its reason, every approval request that waited
/// is discarded, and whoever decides one of them afterwards is told
/// `SessionClosed`; no decision succeeds any more.
pub proof fn unexpected_exit_discards_approvals(
    r: RegistryModel,
    id: Seq<char>,
    code: i32,
    approval: Seq<char>,
)
    requires
        r.wf(),
        r.is_live(id),
    ensures
        ({
            let after = r.deliver(id, SignalModel::Exited { code });
            &&& after.wf()
            &&& after.has(id)
            &&& after.session(id).status == SessionStatus::Failed
            &&& after.session(id).failure == Some(SessionError::UnexpectedExit { code })
            &&& after.session(id).gate.pending.len() == 0
            &&& !after.running().contains(id)
            &&& after.resolve_verdict(id, approval) is Err
            &&& r.session(id).gate.is_pending(approval) ==> after.resolve_verdict(id, approval)
                == Err::<(), SessionError>(SessionError::SessionClosed)
        }),
{
    session_has_its_id(r, id);
    let s = r.session(id);
    steps_keep_wf(s, r.clock);
    let failed = s.receive(SignalModel::Exited { code }, r.clock);
    put_changes_one(r, failed);
    let after = r.deliver(id, SignalModel::Exited { code });
    assert(after.session(id) == failed);
    close_discards_pending(s.gate, approval);
    running_lists_live(after, id);
    if s.gate.is_pending(approval) {
        let i = s.gate.pending_index(approval);
        if s.gate.is_resolved(approval) {
            let j = choose|j: int|
                #![trigger s.gate.resolved[j]]
                0 <= j < s.gate.resolved.len() && s.gate.resolved[j].id == approval;
            assert(s.gate.pending[i].id != s.gate.resolved[j].id);
        }
    }
}

/// What a session has queued for its agent stays queued, in its order, in
/// front of everything that is queued later: no step of a session changes or
/// reorders what the outbox already holds.
pub proof fn outbox_only_grows(s: SessionModel, now: u64)
    requires
        s.wf(),
    ensures
        forall|text: Seq<char>| s.outbox.is_prefix_of(#[trigger] s.send(text, now).outbox),
        forall|approval: Seq<char>, approved: bool|
            s.outbox.is_prefix_of(#[trigger] s.resolve(approval, approved, now).outbox),
        s.outbox.is_prefix_of(s.pause(now).outbox),
        s.outbox.is_prefix_of(s.close(now).outbox),
        forall|reason: SessionError| s.outbox.is_prefix_of(#[trigger] s.fail(reason, now).outbox),
        forall|signal: SignalModel| s.outbox.is_prefix_of(#[trigger] s.receive(signal, now).outbox),
{
}

/// User messages reach the agent in the order in which they were sent: of two
/// messages sent one after the other to a session that takes messages, the
/// first stands in the outbox directly before the second, behind everything
/// queued before. While the session is paused the same holds of the messages
/// held back, and the outbox stays as it is.
pub proof fn sends_keep_order(r: RegistryModel, id: Seq<char>, a: Seq<char>, b: Seq<char>)
    requires
        r.wf(),
        r.send_verdict(id) is Ok,
    ensures
        r.send(id, a).wf(),
        r.send(id, a).send_verdict(id) is Ok,
        ({
            let before = r.session(id);
            let after = r.send(id, a).send(id, b).session(id);
            if before.status == SessionStatus::Paused {
                &&& after.held == before.held.push(a).push(b)
                &&& after.outbox == before.outbox
            } else {
                &&& after.outbox == before.outbox.push(CommandModel::UserMessage { text: a }).push(
                    CommandModel::UserMessage { text: b },
                )
                &&& after.held == before.held
            }
        }),
{
    session_has_its_id(r, id);
    let s = r.session(id);
    steps_keep_wf(s, r.clock);
    let first = s.send(a, r.clock);
    put_changes_one(r, first);
    let mid = r.send(id, a);
    assert(mid.session(id) == first);
    steps_keep_wf(first, mid.clock);
    put_changes_one(mid, first.send(b, mid.clock));
}

/// Sessions are isolated: whatever reaches one session from its agent
/// process, be it a crash, whatever command is given to it, and whether it
/// is started anew or forgotten, every other session of the table is
/// afterwards exactly as it was.
pub proof fn sessions_are_isolated(
    r: RegistryModel,
    id: Seq<char>,
    other: Seq<char>,
    signal: SignalModel,
    text: Seq<char>,
    approved: bool,
    config: ConfigModel,
)
    requires
        r.wf(),
        r.has(other),
        other != id,
    ensures
        r.start(id, config).has(other) && r.start(id, config).session(other) == r.session(other),
        r.forget(id).has(other) && r.forget(id).session(other) == r.session(other),
        r.has(id) ==> {
            &&& r.deliver(id, signal).has(other)
            &&& r.deliver(id, signal).session(other) == r.session(other)
            &&& r.close(id).has(other)
            &&& r.close(id).session(other) == r.session(other)
            &&& r.flush(id).has(other)
            &&& r.flush(id).session(other) == r.session(other)
        },
        r.send_verdict(id) is Ok ==> {
            &&& r.send(id, text).has(other)
            &&& r.send(id, text).session(other) == r.session(other)
            &&& r.pause(id).has(other)
            &&& r.pause(id).session(other) == r.session(other)
        },
        r.resolve_verdict(id, text) is Ok ==> {
            &&& r.resolve(id, text, approved).has(other)
            &&& r.resolve(id, text, approved).session(other) == r.session(other)
        },
{
    start_adds_one(r, id, config);
    without_removes_one(r, id);
    if r.has(id) {
        session_has_its_id(r, id);
        let s = r.session(id);
        steps_keep_wf(s, r.clock);
        put_changes_one(r, s.receive(signal, r.clock));
        put_changes_one(r, s.close(r.clock));
        put_changes_one(r, SessionModel { outbox: Seq::empty(), ..s });
        if r.send_verdict(id) is Ok {
            put_changes_one(r, s.send(text, r.clock));
            put_changes_one(r, s.pause(r.clock));
        }
        if r.resolve_verdict(id, text) is Ok {
            resolve_keeps_wf(s.gate, text, approved);
            put_changes_one(r, s.resolve(text, approved, r.clock));
        }
    }
}

/// A session that has ended stays as it is: it takes no message, no pause
/// and no decision, and neither a close, a failure nor anything that reaches
/// it from its agent process changes it.
pub proof fn ended_session_is_final(s: SessionModel, now: u64)
    requires
        s.wf(),
        !s.status.is_live(),
    ensures
        s.accepts() is Err,
        forall|approval: Seq<char>| #[trigger] s.gate.verdict(approval) is Err,
        s.close(now) == s,
        forall|reason: SessionError| #[trigger] s.fail(reason, now) == s,
        forall|signal: SignalModel| #[trigger] s.receive(signal, now) == s,
{
    assert forall|approval: Seq<char>| #[trigger] s.gate.verdict(approval) is Err by {
        close_discards_pending(s.gate, approval);
        assert(s.gate.close().pending =~= s.gate.pending);
    }
}

/// How often `outbox` tells the agent process to stop.
pub open spec fn stops(outbox: Seq<CommandModel>) -> nat {
    outbox.filter(|c: CommandModel| c == CommandModel::Terminate).len()
}

/// One more if the session `after` has ended, none if it is live.
pub open spec fn stop_owed(after: SessionModel) -> nat {
    if after.status.is_live() {
        0
    } else {
        1
    }
}

/// The agent process of a session is told to stop exactly once: a step that
/// ends a live session queues one `Terminate`, a step that leaves it live
/// queues none, and by [`ended_session_is_final`] nothing is queued once the
/// session has ended.
pub proof fn process_is_stopped_once(s: SessionModel, now: u64)
    requires
        s.wf(),
        s.status.is_live(),
    ensures
        forall|text: Seq<char>| stops(#[trigger] s.send(text, now).outbox) == stops(s.outbox),
        forall|approval: Seq<char>, approved: bool|
            stops(#[trigger] s.resolve(approval, approved, now).outbox) == stops(s.outbox),
        stops(s.pause(now).outbox) == stops(s.outbox),
        stops(s.close(now).outbox) == stops(s.outbox) + 1,
        forall|reason: SessionError|
            stops(#[trigger] s.fail(reason, now).outbox) == stops(s.outbox) + 1,
        forall|signal: SignalModel|
            stops(#[trigger] s.receive(signal, now).outbox) == stops(s.outbox) + stop_owed(
                s.receive(signal, now),
            ),
{
    let stop = |c: CommandModel| c == CommandModel::Terminate;
    assert forall|c: CommandModel| stops(#[trigger] s.outbox.push(c)) == stops(s.outbox) + (if c
        == CommandModel::Terminate {
        1nat
    } else {
        0nat
    }) by {
        filter_of_push(s.outbox, c, stop);
    }
    assert forall|text: Seq<char>| stops(#[trigger] s.send(text, now).outbox) == stops(
        s.outbox,
    ) by {
        let c = CommandModel::UserMessage { text };
        assert(stops(s.outbox.push(c)) == stops(s.outbox));
    }
    assert forall|approval: Seq<char>, approved: bool|
        stops(#[trigger] s.resolve(approval, approved, now).outbox) == stops(s.outbox) by {
        let c = CommandModel::ApprovalResponse { id: approval, approved };
        assert(stops(s.outbox.push(c)) == stops(s.outbox));
    }
    assert(stops(s.outbox.push(CommandModel::Pause)) == stops(s.outbox));
    assert(stops(s.outbox.push(CommandModel::Terminate)) == stops(s.outbox) + 1);
}

/// Whether a session in status `from` may come to stand in status `to` by
/// one step: a session that has ended stays where it is, a paused session
/// can only end, a running session can come to wait, be paused or end, a
/// waiting session can run again, be paused or end, and a starting session
/// can come to any later status.
pub open spec fn may_follow(from: SessionStatus, to: SessionStatus) -> bool {
    from == to || match from {
        SessionStatus::Starting => true,
        SessionStatus::Running => to != SessionStatus::Starting,
        SessionStatus::AwaitingApproval => to != SessionStatus::Starting,
        SessionStatus::Paused => to == SessionStatus::Closed || to == SessionStatus::Failed,
        SessionStatus::Closed => false,
        SessionStatus::Failed => false,
    }
}

/// The session `after` is the session `before`, one step later.
pub open spec fn lasts(before: SessionModel, after: SessionModel) -> bool {
    &&& may_follow(before.status, after.status)
    &&& after.id == before.id
    &&& after.config == before.config
    &&& after.created_at == before.created_at
}

/// Every step moves a session along its state machine, and never changes
/// its id, its launch parameters or the time at which it was created.
pub proof fn steps_follow_the_machine(s: SessionModel, now: u64)
    requires
        s.wf(),
    ensures
        forall|text: Seq<char>| s.accepts() is Ok ==> lasts(s, #[trigger] s.send(text, now)),
        forall|approval: Seq<char>, approved: bool|
            s.gate.verdict(approval) is Ok ==> lasts(
                s,
                #[trigger] s.resolve(approval, approved, now),
            ),
        s.accepts() is Ok ==> lasts(s, s.pause(now)),
        lasts(s, s.close(now)),
        forall|reason: SessionError| lasts(s, #[trigger] s.fail(reason, now)),
        forall|signal: SignalModel| lasts(s, #[trigger] s.receive(signal, now)),
{
}

/// The status of a session is `AwaitingApproval` exactly when an approval
/// request waits and the session has neither ended nor been paused.
pub proof fn awaiting_means_pending(s: SessionModel)
    requires
        s.wf(),
    ensures
        (s.status == SessionStatus::AwaitingApproval) == (s.gate.pending.len() > 0
            && s.status.is_live() && s.status != SessionStatus::Paused),
{
}

} // verus!
