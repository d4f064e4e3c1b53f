//! The table of sessions, through which every command is routed.
//!
//! Each operation looks one session up by its id and changes that session
//! alone. Sessions that have ended stay in the table, so that their end can be
//! reported, until they are forgotten.

use crate::approval::{ApprovalKind, ApprovalRequest};
use crate::error::SessionError;
use crate::protocol::{AgentSignal, OutboundCommand, SignalModel};
use crate::session::{command_views, optional_text, steps_keep_wf};
use crate::session::{CodexConfig, ConfigModel, Session, SessionModel, SessionStatus};
use crate::sequences::filter_of_push;
use crate::text::{same_text, text_views};
use vstd::prelude::*;

verus! {

/// How the attempt to spawn the agent process ended.
#[derive(Clone, Copy, PartialEq, Eq, Debug, Structural)]
pub enum SpawnOutcome {
    /// The process runs.
    Spawned,
    /// The binary is missing or the system refused to run it.
    Failed,
}

/// What a status query tells about one session.
#[derive(Clone, Copy, PartialEq, Eq, Debug, Structural)]
pub struct SessionReport {
    pub status: SessionStatus,
    /// Why the session failed, if it did.
    pub failure: Option<SessionError>,
    /// How many approval requests wait for a decision.
    pub pending_approvals: usize,
    /// How many records could not be decoded so far.
    pub protocol_errors: u32,
    pub created_at: u64,
    pub last_activity_at: u64,
}

/// What a status query tells about the session `s`.
pub open spec fn report_of(s: SessionModel) -> SessionReport {
    SessionReport {
        status: s.status,
        failure: s.failure,
        pending_approvals: s.gate.pending.len() as usize,
        protocol_errors: s.protocol_errors,
        created_at: s.created_at,
        last_activity_at: s.last_activity_at,
    }
}

/// The mathematical value of a [`SessionRegistry`].
pub struct RegistryModel {
    /// The sessions, in the order in which they were started.
    pub sessions: Seq<SessionModel>,
    /// The time with which the next change is stamped.
    pub clock: u64,
}

impl RegistryModel {
    /// The table without sessions.
    pub open spec fn empty() -> RegistryModel {
        RegistryModel { sessions: Seq::empty(), clock: 0 }
    }

    /// The table holds a session with this id.
    pub open spec fn has(self, id: Seq<char>) -> bool {
        exists|i: int|
            #![trigger self.sessions[i]]
            0 <= i < self.sessions.len() && self.sessions[i].id == id
    }

    /// The position of the session with this id.
    pub open spec fn index_of(self, id: Seq<char>) -> int {
        choose|i: int|
            #![trigger self.sessions[i]]
            0 <= i < self.sessions.len() && self.sessions[i].id == id
    }

    /// The session with this id.
    pub open spec fn session(self, id: Seq<char>) -> SessionModel {
        self.sessions[self.index_of(id)]
    }

    /// The table holds a session with this id that has not ended.
    pub open spec fn is_live(self, id: Seq<char>) -> bool {
        self.has(id) && self.session(id).status.is_live()
    }

    /// No id occurs twice, and every session is well-formed.
    pub open spec fn wf(self) -> bool {
        &&& forall|i: int, j: int|
            #![trigger self.sessions[i], self.sessions[j]]
            0 <= i < j < self.sessions.len() ==> self.sessions[i].id != self.sessions[j].id
        &&& forall|i: int|
            #![trigger self.sessions[i]]
            0 <= i < self.sessions.len() ==> self.sessions[i].wf()
    }

    /// The table in which `session` stands in place of the session with its
    /// id.
    pub open spec fn put(self, session: SessionModel) -> RegistryModel {
        RegistryModel {
            sessions: self.sessions.update(self.index_of(session.id), session),
            ..self
        }
    }

    /// The table without the session `id`.
    pub open spec fn without(self, id: Seq<char>) -> RegistryModel {
        if self.has(id) {
            RegistryModel { sessions: self.sessions.remove(self.index_of(id)), ..self }
        } else {
            self
        }
    }

    /// The table after the clock was set forward to `now`; the clock never
    /// goes back.
    pub open spec fn tick(self, now: u64) -> RegistryModel {
        RegistryModel { clock: if now > self.clock { now } else { self.clock }, ..self }
    }

    /// Whether a command for the session `id` finds it.
    pub open spec fn routed(self, id: Seq<char>) -> Result<(), SessionError> {
        if self.has(id) {
            Ok(())
        } else {
            Err(SessionError::UnknownSession)
        }
    }

    /// What starting a session `id` yields, given how the spawn ended.
    pub open spec fn start_verdict(self, id: Seq<char>, outcome: SpawnOutcome) -> Result<
        (),
        SessionError,
    > {
        if self.is_live(id) {
            Err(SessionError::DuplicateSession)
        } else if outcome == SpawnOutcome::Failed {
            Err(SessionError::SpawnFailed)
        } else {
            Ok(())
        }
    }

    /// The table after the session `id` was started: it stands last, in
    /// place of an ended session with the same id.
    pub open spec fn start(self, id: Seq<char>, config: ConfigModel) -> RegistryModel {
        RegistryModel {
            sessions: self.without(id).sessions.push(SessionModel::fresh(id, config, self.clock)),
            ..self
        }
    }

    /// What sending a user message to the session `id`, or pausing it, yields.
    pub open spec fn send_verdict(self, id: Seq<char>) -> Result<(), SessionError> {
        if self.has(id) {
            self.session(id).accepts()
        } else {
            Err(SessionError::UnknownSession)
        }
    }

    /// The table after the session `id` took the user message `text`.
    pub open spec fn send(self, id: Seq<char>, text: Seq<char>) -> RegistryModel {
        self.put(self.session(id).send(text, self.clock))
    }

    /// What deciding the request `approval` of the session `id` yields.
    pub open spec fn resolve_verdict(self, id: Seq<char>, approval: Seq<char>) -> Result<
        (),
        SessionError,
    > {
        if self.has(id) {
            self.session(id).gate.verdict(approval)
        } else {
            Err(SessionError::UnknownSession)
        }
    }

    /// The table after the request `approval` of the session `id` was decided.
    pub open spec fn resolve(self, id: Seq<char>, approval: Seq<char>, approved: bool) -> RegistryModel {
        self.put(self.session(id).resolve(approval, approved, self.clock))
    }

    /// The table after the session `id` was paused.
    pub open spec fn pause(self, id: Seq<char>) -> RegistryModel {
        self.put(self.session(id).pause(self.clock))
    }

    /// The table after the session `id` was closed.
    pub open spec fn close(self, id: Seq<char>) -> RegistryModel {
        self.put(self.session(id).close(self.clock))
    }

    /// The table after `signal` reached the session `id`.
    pub open spec fn deliver(self, id: Seq<char>, signal: SignalModel) -> RegistryModel {
        self.put(self.session(id).receive(signal, self.clock))
    }

    /// The table after the outbox of the session `id` was handed out.
    pub open spec fn flush(self, id: Seq<char>) -> RegistryModel {
        self.put(SessionModel { outbox: Seq::empty(), ..self.session(id) })
    }

    /// The table after the session `id` was forgotten, which happens only to
    /// a session that has ended.
    pub open spec fn forget(self, id: Seq<char>) -> RegistryModel {
        if self.has(id) && !self.session(id).status.is_live() {
            self.without(id)
        } else {
            self
        }
    }

    /// A session that has ended and saw no activity for at least `grace`.
    pub open spec fn is_stale(self, s: SessionModel, grace: u64) -> bool {
        !s.status.is_live() && self.clock >= s.last_activity_at && self.clock - s.last_activity_at
            >= grace
    }

    /// The table after every stale session was forgotten.
    pub open spec fn sweep(self, grace: u64) -> RegistryModel {
        RegistryModel {
            sessions: self.sessions.filter(|s: SessionModel| !self.is_stale(s, grace)),
            ..self
        }
    }

    /// The ids of the sessions that have not ended, in the order in which
    /// the sessions were started.
    pub open spec fn running(self) -> Seq<Seq<char>> {
        self.sessions.filter(|s: SessionModel| s.status.is_live()).map_values(
            |s: SessionModel| s.id,
        )
    }
}

/// Every session that is live in `before` is in `after`, unchanged.
pub open spec fn keeps_live(before: RegistryModel, after: RegistryModel) -> bool {
    forall|id: Seq<char>|
        #![trigger after.has(id)]
        before.is_live(id) ==> after.has(id) && after.session(id) == before.session(id)
}

/// In a well-formed table the position of an id is determined.
pub proof fn index_is_unique(r: RegistryModel, id: Seq<char>, at: int)
    requires
        r.wf(),
        0 <= at < r.sessions.len(),
        r.sessions[at].id == id,
    ensures
        r.has(id),
        r.index_of(id) == at,
        r.session(id) == r.sessions[at],
{
    let chosen = r.index_of(id);
    assert(0 <= chosen < r.sessions.len() && r.sessions[chosen].id == id);
    if chosen < at {
        assert(r.sessions[chosen].id != r.sessions[at].id);
    } else if at < chosen {
        assert(r.sessions[at].id != r.sessions[chosen].id);
    }
}

/// The session found under an id has that id, and is well-formed.
pub proof fn session_has_its_id(r: RegistryModel, id: Seq<char>)
    requires
        r.wf(),
        r.has(id),
    ensures
        0 <= r.index_of(id) < r.sessions.len(),
        r.session(id).id == id,
        r.session(id).wf(),
{
}

/// Putting a session in place of the one with its id changes that session
/// and nothing else.
pub proof fn put_changes_one(r: RegistryModel, s: SessionModel)
    requires
        r.wf(),
        r.has(s.id),
        s.wf(),
    ensures
        r.put(s).wf(),
        r.put(s).session(s.id) == s,
        r.put(s).clock == r.clock,
        r.put(s).sessions.len() == r.sessions.len(),
        forall|other: Seq<char>| #[trigger] r.put(s).has(other) == r.has(other),
        forall|other: Seq<char>|
            other != s.id && r.has(other) ==> #[trigger] r.put(s).session(other) == r.session(
                other,
            ),
{
    let at = r.index_of(s.id);
    let after = r.put(s);
    assert(0 <= at < r.sessions.len() && r.sessions[at].id == s.id);
    assert forall|i: int, j: int|
        #![trigger after.sessions[i], after.sessions[j]]
        0 <= i < j < after.sessions.len() implies after.sessions[i].id != after.sessions[j].id by {
        assert(r.sessions[i].id != r.sessions[j].id);
    }
    assert forall|i: int| #![trigger after.sessions[i]] 0 <= i < after.sessions.len() implies after.sessions[i].wf() by {
        if i != at {
            assert(r.sessions[i].wf());
        }
    }
    index_is_unique(after, s.id, at);
    assert forall|other: Seq<char>| #[trigger] after.has(other) == r.has(other) by {
        if r.has(other) {
            let i = r.index_of(other);
            assert(after.sessions[i].id == other);
        }
        if after.has(other) {
            let i = after.index_of(other);
            assert(r.sessions[i].id == other);
        }
    }
    assert forall|other: Seq<char>| other != s.id && r.has(other) implies #[trigger] after.session(
        other,
    ) == r.session(other) by {
        let i = r.index_of(other);
        assert(r.sessions[i].id == other);
        index_is_unique(after, other, i);
    }
}

/// Taking the session `id` out of the table leaves every other session as it
/// was.
pub proof fn without_removes_one(r: RegistryModel, id: Seq<char>)
    requires
        r.wf(),
    ensures
        r.without(id).wf(),
        !r.without(id).has(id),
        forall|other: Seq<char>| other != id ==> #[trigger] r.without(id).has(other) == r.has(other),
        forall|other: Seq<char>|
            other != id && r.has(other) ==> #[trigger] r.without(id).session(other) == r.session(
                other,
            ),
{
    let after = r.without(id);
    if r.has(id) {
        let at = r.index_of(id);
        assert(0 <= at < r.sessions.len() && r.sessions[at].id == id);
        assert forall|i: int| 0 <= i < after.sessions.len() implies #[trigger] after.sessions[i]
            == r.sessions[if i < at {
            i
        } else {
            i + 1
        }] by {}
        assert forall|i: int, j: int|
            #![trigger after.sessions[i], after.sessions[j]]
            0 <= i < j < after.sessions.len() implies after.sessions[i].id
            != after.sessions[j].id by {
            let oi = if i < at { i } else { i + 1 };
            let oj = if j < at { j } else { j + 1 };
            assert(r.sessions[oi].id != r.sessions[oj].id);
        }
        assert forall|i: int| #![trigger after.sessions[i]] 0 <= i < after.sessions.len() implies after.sessions[i].wf() by {
            let oi = if i < at { i } else { i + 1 };
            assert(r.sessions[oi].wf());
        }
        if after.has(id) {
            let i = after.index_of(id);
            let oi = if i < at { i } else { i + 1 };
            assert(after.sessions[i] == r.sessions[oi]);
            if oi < at {
                assert(r.sessions[oi].id != r.sessions[at].id);
            } else {
                assert(r.sessions[at].id != r.sessions[oi].id);
            }
        }
        assert forall|other: Seq<char>| other != id implies #[trigger] after.has(other) == r.has(
            other,
        ) by {
            if r.has(other) {
                let o = r.index_of(other);
                let n = if o < at { o } else { o - 1 };
                assert(after.sessions[n].id == other);
            }
            if after.has(other) {
                let n = after.index_of(other);
                let o = if n < at { n } else { n + 1 };
                assert(after.sessions[n] == r.sessions[o]);
                assert(r.sessions[o].id == other);
            }
        }
        assert forall|other: Seq<char>| other != id && r.has(other) implies #[trigger] after.session(
            other,
        ) == r.session(other) by {
            let o = r.index_of(other);
            let n = if o < at { o } else { o - 1 };
            assert(after.sessions[n] == r.sessions[o]);
            index_is_unique(after, other, n);
        }
    }
}

/// Starting a session puts a fresh session under its id and leaves every
/// other session as it was.
pub proof fn start_adds_one(r: RegistryModel, id: Seq<char>, config: ConfigModel)
    requires
        r.wf(),
    ensures
        r.start(id, config).wf(),
        r.start(id, config).has(id),
        r.start(id, config).session(id) == SessionModel::fresh(id, config, r.clock),
        forall|other: Seq<char>|
            other != id ==> #[trigger] r.start(id, config).has(other) == r.has(other),
        forall|other: Seq<char>|
            other != id && r.has(other) ==> #[trigger] r.start(id, config).session(other)
                == r.session(other),
{
    without_removes_one(r, id);
    let rest = r.without(id);
    let after = r.start(id, config);
    let last = rest.sessions.len() as int;
    assert(after.sessions[last].id == id);
    assert forall|i: int, j: int|
        #![trigger after.sessions[i], after.sessions[j]]
        0 <= i < j < after.sessions.len() implies after.sessions[i].id != after.sessions[j].id by {
        if j == last {
            assert(rest.sessions[i].id != id) by {
                if rest.sessions[i].id == id {
                    assert(rest.has(id));
                }
            }
        } else {
            assert(rest.sessions[i].id != rest.sessions[j].id);
        }
    }
    assert forall|i: int| #![trigger after.sessions[i]] 0 <= i < after.sessions.len() implies after.sessions[i].wf() by {
        if i < last {
            assert(rest.sessions[i].wf());
        }
    }
    index_is_unique(after, id, last);
    assert forall|other: Seq<char>| other != id implies #[trigger] after.has(other) == r.has(
        other,
    ) by {
        if rest.has(other) {
            let o = rest.index_of(other);
            assert(after.sessions[o].id == other);
        }
        if after.has(other) {
            let n = after.index_of(other);
            assert(rest.sessions[n].id == other);
        }
    }
    assert forall|other: Seq<char>| other != id && r.has(other) implies #[trigger] after.session(
        other,
    ) == r.session(other) by {
        assert(rest.has(other));
        assert(rest.session(other) == r.session(other));
        let o = rest.index_of(other);
        assert(rest.sessions[o].id == other);
        assert(after.sessions[o] == rest.sessions[o]);
        index_is_unique(after, other, o);
    }
}

/// The ids that are listed as running are those of the sessions in the
/// table that have not ended.
pub proof fn running_lists_live(r: RegistryModel, id: Seq<char>)
    requires
        r.wf(),
    ensures
        r.running().contains(id) == r.is_live(id),
{
    let live = |s: SessionModel| s.status.is_live();
    let kept = r.sessions.filter(live);
    broadcast use vstd::seq_lib::group_filter_ensures;

    if r.is_live(id) {
        let at = r.index_of(id);
        assert(r.sessions[at].id == id);
        assert(kept.contains(r.sessions[at]));
        let k = choose|k: int| 0 <= k < kept.len() && kept[k] == r.sessions[at];
        assert(r.running()[k] == id);
    }
    if r.running().contains(id) {
        let k = choose|k: int| 0 <= k < r.running().len() && r.running()[k] == id;
        assert(kept[k].id == id);
        assert(live(kept[k]));
        assert(kept.contains(kept[k]));
        r.sessions.lemma_filter_contains_rev(live, kept[k]);
        let at = choose|at: int| 0 <= at < r.sessions.len() && r.sessions[at] == kept[k];
        index_is_unique(r, id, at);
    }
}

/// The table of sessions.
#[derive(Debug)]
pub struct SessionRegistry {
    sessions: Vec<Session>,
    clock: u64,
}

impl View for SessionRegistry {
    type V = RegistryModel;

    closed spec fn view(&self) -> RegistryModel {
        RegistryModel { sessions: self.sessions@.map_values(|s: Session| s@), clock: self.clock }
    }
}

impl SessionRegistry {
    /// The table without sessions, with the clock at zero.
    pub fn new() -> (registry: SessionRegistry)
        ensures
            registry@ == RegistryModel::empty(),
            registry@.wf(),
    {
        let registry = SessionRegistry { sessions: Vec::new(), clock: 0 };
        assert(registry@.sessions =~= Seq::empty());
        registry
    }

    /// Sets the clock forward to `now`. Every later change is stamped with
    /// the clock's time. A time before the clock's leaves it as it is.
    pub fn advance_clock(&mut self, now: u64)
        ensures
            final(self)@ == old(self)@.tick(now),
    {
        if now > self.clock {
            self.clock = now;
        }
    }

    /// The time with which the next change is stamped.
    pub fn clock(&self) -> (clock: u64)
        ensures
            clock == self@.clock,
    {
        self.clock
    }

    /// How many sessions the table holds, ended ones included.
    pub fn len(&self) -> (count: usize)
        ensures
            count == self@.sessions.len(),
    {
        self.sessions.len()
    }

    /// The position of the session `id`.
    fn find(&self, id: &str) -> (found: Option<usize>)
        requires
            self@.wf(),
        ensures
            found is Some == self@.has(id@),
            found is Some ==> found->0 < self.sessions.len() && found->0 == self@.index_of(id@)
                && self.sessions[found->0 as int]@ == self@.session(id@),
    {
        let mut i: usize = 0;
        while i < self.sessions.len()
            invariant
                self@.wf(),
                i <= self.sessions.len(),
                forall|j: int| #![trigger self@.sessions[j]] 0 <= j < i ==> self@.sessions[j].id != id@,
            decreases self.sessions.len() - i,
        {
            if same_text(self.sessions[i].id().as_str(), id) {
                proof {
                    assert(self@.sessions[i as int].id == id@);
                    index_is_unique(self@, id@, i as int);
                }
                return Some(i);
            }
            i += 1;
        }
        None
    }

    /// Whether the table holds a session with this id.
    pub fn contains(&self, id: &str) -> (held: bool)
        requires
            self@.wf(),
        ensures
            held == self@.has(id@),
    {
        self.find(id).is_some()
    }

    /// Where the session `id` stands, and why it failed if it did.
    pub fn status(&self, id: &str) -> (result: Result<SessionReport, SessionError>)
        requires
            self@.wf(),
        ensures
            result == match self@.routed(id@) {
                Ok(()) => Ok(report_of(self@.session(id@))),
                Err(e) => Err(e),
            },
    {
        match self.find(id) {
            None => Err(SessionError::UnknownSession),
            Some(at) => {
                let session = &self.sessions[at];
                Ok(
                    SessionReport {
                        status: session.status(),
                        failure: session.failure(),
                        pending_approvals: session.gate().pending_count(),
                        protocol_errors: session.protocol_errors(),
                        created_at: session.created_at(),
                        last_activity_at: session.last_activity_at(),
                    },
                )
            },
        }
    }

    /// The reason that the agent gave when it ended the session `id`, if it
    /// ended the session.
    pub fn end_reason(&self, id: &str) -> (result: Result<Option<String>, SessionError>)
        requires
            self@.wf(),
        ensures
            match result {
                Ok(reason) => self@.has(id@) && optional_text(reason) == self@.session(
                    id@,
                ).end_reason,
                Err(e) => !self@.has(id@) && e == SessionError::UnknownSession,
            },
    {
        match self.find(id) {
            None => Err(SessionError::UnknownSession),
            Some(at) => Ok(self.sessions[at].end_reason()),
        }
    }

    /// The approval requests of the session `id` that wait for a decision,
    /// oldest first.
    pub fn pending_approvals(&self, id: &str) -> (result: Result<
        Vec<ApprovalRequest>,
        SessionError,
    >)
        requires
            self@.wf(),
        ensures
            match result {
                Ok(requests) => self@.has(id@) && requests@.map_values(|r: ApprovalRequest| r@)
                    == self@.session(id@).gate.pending,
                Err(e) => !self@.has(id@) && e == SessionError::UnknownSession,
            },
    {
        match self.find(id) {
            None => Err(SessionError::UnknownSession),
            Some(at) => Ok(self.sessions[at].gate().pending()),
        }
    }

    /// The kind of the waiting approval request `approval` of the session
    /// `id`, if the session exists and the request waits.
    pub fn pending_kind(&self, id: &str, approval: &str) -> (kind: Option<ApprovalKind>)
        requires
            self@.wf(),
        ensures
            kind is Some == (self@.has(id@) && self@.session(id@).gate.is_pending(approval@)),
            kind is Some ==> kind->0 == self@.session(id@).gate.pending[self@.session(
                id@,
            ).gate.pending_index(approval@)].kind,
    {
        match self.find(id) {
            None => None,
            Some(at) => {
                proof {
                    session_has_its_id(self@, id@);
                }
                self.sessions[at].gate().pending_kind(approval)
            },
        }
    }

    /// Whether a session `id` may be started: no session with this id is
    /// live. To be asked before the agent process is spawned.
    pub fn check_start(&self, id: &str) -> (result: Result<(), SessionError>)
        requires
            self@.wf(),
        ensures
            result == self@.start_verdict(id@, SpawnOutcome::Spawned),
    {
        match self.find(id) {
            None => Ok(()),
            Some(at) => {
                if self.sessions[at].status().live() {
                    Err(SessionError::DuplicateSession)
                } else {
                    Ok(())
                }
            },
        }
    }

    /// Starts the session `id`, given how the spawn of its agent process
    /// ended.
    ///
    /// Refused with `DuplicateSession` while a session with this id is live,
    /// and with `SpawnFailed` if the process could not be spawned; the table
    /// then stays as it was. Otherwise the session is in the table, in
    /// status `Starting`, in place of an ended session with the same id.
    pub fn start(&mut self, id: String, config: CodexConfig, outcome: SpawnOutcome) -> (result:
        Result<(), SessionError>)
        requires
            old(self)@.wf(),
        ensures
            final(self)@.wf(),
            result == old(self)@.start_verdict(id@, outcome),
            result is Ok ==> final(self)@ == old(self)@.start(id@, config@),
            result is Err ==> final(self)@ == old(self)@,
    {
        let found = self.find(id.as_str());
        match found {
            Some(at) => {
                if self.sessions[at].status().live() {
                    return Err(SessionError::DuplicateSession);
                }
            },
            None => {},
        }
        if outcome == SpawnOutcome::Failed {
            return Err(SessionError::SpawnFailed);
        }
        proof {
            start_adds_one(self@, id@, config@);
        }
        match found {
            Some(at) => {
                let _ = self.sessions.remove(at);
                assert(self@.sessions =~= old(self)@.without(id@).sessions);
            },
            None => {},
        }
        let session = Session::new(id, config, self.clock);
        self.sessions.push(session);
        assert(self@.sessions =~= old(self)@.start(id@, config@).sessions);
        Ok(())
    }

    /// Sends the user message `text` to the session `id`.
    ///
    /// Refused with `UnknownSession` if the table holds no such session and
    /// with `SessionNotRunning` if the session has ended. Otherwise the
    /// message is queued behind everything queued before (or held back while
    /// the session is paused); the call does not wait for the agent.
    pub fn send(&mut self, id: &str, text: String) -> (result: Result<(), SessionError>)
        requires
            old(self)@.wf(),
        ensures
            final(self)@.wf(),
            result == old(self)@.send_verdict(id@),
            result is Ok ==> final(self)@ == old(self)@.send(id@, text@),
            result is Err ==> final(self)@ == old(self)@,
    {
        match self.find(id) {
            None => Err(SessionError::UnknownSession),
            Some(at) => {
                let now = self.clock;
                proof {
                    session_has_its_id(self@, id@);
                    steps_keep_wf(self@.session(id@), now);
                }
                let result = self.sessions[at].send(text, now);
                proof {
                    if result is Ok {
                        put_changes_one(old(self)@, old(self)@.session(id@).send(text@, now));
                        assert(self@.sessions =~= old(self)@.send(id@, text@).sessions);
                    } else {
                        assert(self@.sessions =~= old(self)@.sessions);
                    }
                }
                result
            },
        }
    }

    /// Decides the approval request `approval` of the session `id`.
    ///
    /// Succeeds exactly when the session is in the table and the request
    /// waits. Refused with `UnknownSession` if there is no such session,
    /// with `AlreadyResolved` if the request was decided before, with
    /// `SessionClosed` if the session has ended, and with `UnknownApproval`
    /// if the session never saw the request.
    pub fn resolve_approval(&mut self, id: &str, approval: &str, approved: bool) -> (result: Result<
        (),
        SessionError,
    >)
        requires
            old(self)@.wf(),
        ensures
            final(self)@.wf(),
            result == old(self)@.resolve_verdict(id@, approval@),
            result is Ok ==> final(self)@ == old(self)@.resolve(id@, approval@, approved),
            result is Err ==> final(self)@ == old(self)@,
    {
        match self.find(id) {
            None => Err(SessionError::UnknownSession),
            Some(at) => {
                let now = self.clock;
                proof {
                    session_has_its_id(self@, id@);
                    steps_keep_wf(self@.session(id@), now);
                }
                let result = self.sessions[at].resolve(approval, approved, now);
                proof {
                    if result is Ok {
                        put_changes_one(
                            old(self)@,
                            old(self)@.session(id@).resolve(approval@, approved, now),
                        );
                        assert(self@.sessions =~= old(self)@.resolve(
                            id@,
                            approval@,
                            approved,
                        ).sessions);
                    } else {
                        assert(self@.sessions =~= old(self)@.sessions);
                    }
                }
                result
            },
        }
    }

    /// Pauses the session `id`.
    ///
    /// Refused with `UnknownSession` if there is no such session and with
    /// `SessionNotRunning` if it has ended. A paused session stays as it is.
    pub fn pause(&mut self, id: &str) -> (result: Result<(), SessionError>)
        requires
            old(self)@.wf(),
        ensures
            final(self)@.wf(),
            result == old(self)@.send_verdict(id@),
            result is Ok ==> final(self)@ == old(self)@.pause(id@),
            result is Err ==> final(self)@ == old(self)@,
    {
        match self.find(id) {
            None => Err(SessionError::UnknownSession),
            Some(at) => {
                let now = self.clock;
                proof {
                    session_has_its_id(self@, id@);
                    steps_keep_wf(self@.session(id@), now);
                }
                let result = self.sessions[at].pause(now);
                proof {
                    if result is Ok {
                        put_changes_one(old(self)@, old(self)@.session(id@).pause(now));
                        assert(self@.sessions =~= old(self)@.pause(id@).sessions);
                    } else {
                        assert(self@.sessions =~= old(self)@.sessions);
                    }
                }
                result
            },
        }
    }

    /// Closes the session `id`.
    ///
    /// Refused with `UnknownSession` if there is no such session. A session
    /// that has ended stays as it is, so closing twice succeeds twice.
    pub fn close(&mut self, id: &str) -> (result: Result<(), SessionError>)
        requires
            old(self)@.wf(),
        ensures
            final(self)@.wf(),
            result == old(self)@.routed(id@),
            result is Ok ==> final(self)@ == old(self)@.close(id@),
            result is Err ==> final(self)@ == old(self)@,
    {
        match self.find(id) {
            None => Err(SessionError::UnknownSession),
            Some(at) => {
                let now = self.clock;
                proof {
                    session_has_its_id(self@, id@);
                    steps_keep_wf(self@.session(id@), now);
                }
                self.sessions[at].close(now);
                proof {
                    put_changes_one(old(self)@, old(self)@.session(id@).close(now));
                    assert(self@.sessions =~= old(self)@.close(id@).sessions);
                }
                Ok(())
            },
        }
    }

    /// Hands `signal` to the session `id` and says where the session stands
    /// afterwards.
    ///
    /// Refused with `UnknownSession` if there is no such session.
    pub fn deliver(&mut self, id: &str, signal: AgentSignal) -> (result: Result<
        SessionStatus,
        SessionError,
    >)
        requires
            old(self)@.wf(),
        ensures
            final(self)@.wf(),
            match result {
                Ok(status) => {
                    &&& old(self)@.has(id@)
                    &&& final(self)@ == old(self)@.deliver(id@, signal@)
                    &&& status == final(self)@.session(id@).status
                },
                Err(e) => {
                    &&& !old(self)@.has(id@)
                    &&& e == SessionError::UnknownSession
                    &&& final(self)@ == old(self)@
                },
            },
    {
        match self.find(id) {
            None => Err(SessionError::UnknownSession),
            Some(at) => {
                let now = self.clock;
                proof {
                    session_has_its_id(self@, id@);
                    steps_keep_wf(self@.session(id@), now);
                }
                let status = self.sessions[at].receive(signal, now);
                proof {
                    put_changes_one(old(self)@, old(self)@.session(id@).receive(signal@, now));
                    assert(self@.sessions =~= old(self)@.deliver(id@, signal@).sessions);
                }
                Ok(status)
            },
        }
    }

    /// Hands out what is to be written to the agent of the session `id`, in
    /// the order of writing, and empties the session's outbox.
    pub fn take_outbound(&mut self, id: &str) -> (result: Result<
        Vec<OutboundCommand>,
        SessionError,
    >)
        requires
            old(self)@.wf(),
        ensures
            final(self)@.wf(),
            match result {
                Ok(commands) => {
                    &&& old(self)@.has(id@)
                    &&& command_views(commands@) == old(self)@.session(id@).outbox
                    &&& final(self)@ == old(self)@.flush(id@)
                },
                Err(e) => {
                    &&& !old(self)@.has(id@)
                    &&& e == SessionError::UnknownSession
                    &&& final(self)@ == old(self)@
                },
            },
    {
        match self.find(id) {
            None => Err(SessionError::UnknownSession),
            Some(at) => {
                proof {
                    session_has_its_id(self@, id@);
                }
                let commands = self.sessions[at].take_outbound();
                proof {
                    put_changes_one(
                        old(self)@,
                        SessionModel { outbox: Seq::empty(), ..old(self)@.session(id@) },
                    );
                    assert(self@.sessions =~= old(self)@.flush(id@).sessions);
                }
                Ok(commands)
            },
        }
    }

    /// Reports the session `id` and, if it has ended, forgets it.
    ///
    /// Refused with `UnknownSession` if there is no such session. A live
    /// session is reported and stays in the table.
    pub fn drain(&mut self, id: &str) -> (result: Result<SessionReport, SessionError>)
        requires
            old(self)@.wf(),
        ensures
            final(self)@.wf(),
            final(self)@ == old(self)@.forget(id@),
            result == match old(self)@.routed(id@) {
                Ok(()) => Ok(report_of(old(self)@.session(id@))),
                Err(e) => Err(e),
            },
    {
        let report = self.status(id);
        match self.find(id) {
            None => {},
            Some(at) => {
                if !self.sessions[at].status().live() {
                    proof {
                        without_removes_one(self@, id@);
                    }
                    let _ = self.sessions.remove(at);
                    assert(self@.sessions =~= old(self)@.without(id@).sessions);
                }
            },
        }
        report
    }

    /// Forgets every session that has ended and saw no activity for at least
    /// `grace`, and says how many were forgotten. Live sessions stay as they
    /// are.
    pub fn sweep(&mut self, grace: u64) -> (forgotten: usize)
        requires
            old(self)@.wf(),
        ensures
            final(self)@.wf(),
            final(self)@ == old(self)@.sweep(grace),
            forgotten == old(self)@.sessions.len() - final(self)@.sessions.len(),
            keeps_live(old(self)@, final(self)@),
    {
        let ghost initial = self@;
        let ghost keep = |s: SessionModel| !initial.is_stale(s, grace);
        let ghost mut j: int = 0;
        let mut i: usize = 0;
        let mut forgotten: usize = 0;
        proof {
            reveal(Seq::filter);
            assert(initial.sessions.len() == self.sessions.len());
            assert(initial.sessions.take(0) =~= Seq::empty());
            assert(initial.sessions.take(0).filter(keep) + initial.sessions.skip(0)
                =~= initial.sessions);
        }
        while i < self.sessions.len()
            invariant
                initial == old(self)@,
                initial.wf(),
                keep == |s: SessionModel| !initial.is_stale(s, grace),
                self@.wf(),
                self@.clock == initial.clock,
                0 <= j <= initial.sessions.len(),
                i == initial.sessions.take(j).filter(keep).len(),
                self@.sessions == initial.sessions.take(j).filter(keep) + initial.sessions.skip(
                    j,
                ),
                forgotten == j - i,
                initial.sessions.len() <= usize::MAX,
                keeps_live(initial, self@),
            decreases self.sessions.len() - i,
        {
            let ghost before = self@;
            let ghost current = initial.sessions[j];
            proof {
                assert(before.sessions[i as int] == initial.sessions.skip(j)[0]);
                filter_of_push(initial.sessions.take(j), current, keep);
                assert(initial.sessions.take(j + 1) =~= initial.sessions.take(j).push(current));
                index_is_unique(before, current.id, i as int);
                assert(j < initial.sessions.len());
            }
            let session = &self.sessions[i];
            let stale = !session.status().live() && self.clock >= session.last_activity_at()
                && self.clock - session.last_activity_at() >= grace;
            assert(stale == initial.is_stale(current, grace));
            if stale {
                proof {
                    without_removes_one(before, current.id);
                }
                let _ = self.sessions.remove(i);
                forgotten += 1;
                proof {
                    assert(self@.sessions =~= before.without(current.id).sessions);
                    assert(self@.sessions =~= initial.sessions.take(j + 1).filter(keep)
                        + initial.sessions.skip(j + 1));
                    let after = self@;
                    assert(keeps_live(initial, before));
                    assert forall|id: Seq<char>|
                        #![trigger after.has(id)]
                        initial.is_live(id) implies after.has(id) && after.session(id)
                        == initial.session(id) by {
                        assert(before.has(id) && before.session(id) == initial.session(id));
                        assert(id != current.id);
                        assert(before.without(current.id).has(id));
                        assert(before.without(current.id).session(id) == before.session(id));
                        assert(after == before.without(current.id));
                    }
                    j = j + 1;
                }
            } else {
                proof {
                    assert(self@.sessions =~= initial.sessions.take(j + 1).filter(keep)
                        + initial.sessions.skip(j + 1));
                    j = j + 1;
                }
                i += 1;
            }
        }
        proof {
            assert(initial.sessions.skip(j) =~= Seq::empty());
            assert(j == initial.sessions.len());
            assert(initial.sessions.take(j) =~= initial.sessions);
            assert(self@.sessions =~= initial.sessions.filter(keep));
        }
        forgotten
    }

    /// The ids of the sessions that have not ended, in the order in which
    /// the sessions were started.
    pub fn list_running(&self) -> (ids: Vec<String>)
        requires
            self@.wf(),
        ensures
            text_views(ids@) == self@.running(),
            forall|id: Seq<char>| text_views(ids@).contains(id) == self@.is_live(id),
    {
        let ghost live = |s: SessionModel| s.status.is_live();
        let ghost name = |s: SessionModel| s.id;
        let mut ids: Vec<String> = Vec::new();
        let mut i: usize = 0;
        assert(self@.sessions.take(0) =~= Seq::empty());
        proof {
            reveal(Seq::filter);
        }
        assert(text_views(ids@) =~= self@.sessions.take(0).filter(live).map_values(name));
        while i < self.sessions.len()
            invariant
                i <= self.sessions.len(),
                live == |s: SessionModel| s.status.is_live(),
                name == |s: SessionModel| s.id,
                text_views(ids@) == self@.sessions.take(i as int).filter(live).map_values(name),
            decreases self.sessions.len() - i,
        {
            let ghost before = ids@;
            proof {
                filter_of_push(self@.sessions.take(i as int), self@.sessions[i as int], live);
                assert(self@.sessions.take(i as int + 1) =~= self@.sessions.take(i as int).push(
                    self@.sessions[i as int],
                ));
            }
            if self.sessions[i].status().live() {
                let id = self.sessions[i].id().clone();
                ids.push(id);
                assert(text_views(ids@) =~= text_views(before).push(self@.sessions[i as int].id));
                assert(self@.sessions.take(i as int + 1).filter(live).map_values(name)
                    =~= self@.sessions.take(i as int).filter(live).map_values(name).push(
                    self@.sessions[i as int].id,
                ));
            }
            i += 1;
        }
        proof {
            assert(self@.sessions.take(i as int) =~= self@.sessions);
            assert forall|id: Seq<char>| text_views(ids@).contains(id) == self@.is_live(id) by {
                running_lists_live(self@, id);
            }
        }
        ids
    }
}

} // verus!
