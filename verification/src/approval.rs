//! The approval gate of one session: which requests wait for a human
//! decision, and which were decided.
//!
//! A request is resolved at most once. Once the approval gate is closed nothing waits
//! any more and nothing can be resolved.

use crate::error::SessionError;
use crate::text::same_text;
use vstd::prelude::*;

verus! {

/// What the agent asks permission for.
#[derive(Clone, Copy, PartialEq, Eq, Debug, Structural)]
pub enum ApprovalKind {
    /// Running a command.
    Execution,
    /// Applying a patch to files.
    Patch,
}

/// A request of the agent that waits for a human decision.
#[derive(Debug, PartialEq, Eq)]
pub struct ApprovalRequest {
    /// The id that the agent gave the request.
    pub id: String,
    pub kind: ApprovalKind,
    /// What is shown to the human: a command line or a diff.
    pub payload: String,
    /// The session clock when the request arrived.
    pub requested_at: u64,
}

/// The mathematical value of an [`ApprovalRequest`].
pub struct ApprovalModel {
    pub id: Seq<char>,
    pub kind: ApprovalKind,
    pub payload: Seq<char>,
    pub requested_at: u64,
}

impl View for ApprovalRequest {
    type V = ApprovalModel;

    open spec fn view(&self) -> ApprovalModel {
        ApprovalModel {
            id: self.id@,
            kind: self.kind,
            payload: self.payload@,
            requested_at: self.requested_at,
        }
    }
}

impl Clone for ApprovalRequest {
    fn clone(&self) -> (copy: Self)
        ensures
            copy@ == self@,
    {
        ApprovalRequest {
            id: self.id.clone(),
            kind: self.kind,
            payload: self.payload.clone(),
            requested_at: self.requested_at,
        }
    }
}

/// A decision that was made on a request.
#[derive(Debug, PartialEq, Eq)]
pub struct Resolution {
    pub id: String,
    pub approved: bool,
}

/// The mathematical value of a [`Resolution`].
pub struct ResolutionModel {
    pub id: Seq<char>,
    pub approved: bool,
}

impl View for Resolution {
    type V = ResolutionModel;

    open spec fn view(&self) -> ResolutionModel {
        ResolutionModel { id: self.id@, approved: self.approved }
    }
}

/// The mathematical value of an [`ApprovalGate`].
pub struct GateModel {
    /// The requests that wait, oldest first.
    pub pending: Seq<ApprovalModel>,
    /// The decisions made so far, oldest first.
    pub resolved: Seq<ResolutionModel>,
    /// Whether the owning session has ended.
    pub closed: bool,
}

impl GateModel {
    /// An open gate that has seen no request.
    pub open spec fn empty() -> GateModel {
        GateModel { pending: Seq::empty(), resolved: Seq::empty(), closed: false }
    }

    /// A request with this id waits.
    pub open spec fn is_pending(self, id: Seq<char>) -> bool {
        exists|i: int| #![trigger self.pending[i]] 0 <= i < self.pending.len() && self.pending[i].id == id
    }

    /// A request with this id was decided.
    pub open spec fn is_resolved(self, id: Seq<char>) -> bool {
        exists|i: int|
            #![trigger self.resolved[i]]
            0 <= i < self.resolved.len() && self.resolved[i].id == id
    }

    /// The position of the waiting request with this id.
    pub open spec fn pending_index(self, id: Seq<char>) -> int {
        choose|i: int| #![trigger self.pending[i]] 0 <= i < self.pending.len() && self.pending[i].id == id
    }

    /// No id occurs twice, among the waiting and the decided requests
    /// together, and nothing waits at a closed gate.
    pub open spec fn wf(self) -> bool {
        &&& forall|i: int, j: int|
            #![trigger self.pending[i], self.pending[j]]
            0 <= i < j < self.pending.len() ==> self.pending[i].id != self.pending[j].id
        &&& forall|i: int, j: int|
            #![trigger self.resolved[i], self.resolved[j]]
            0 <= i < j < self.resolved.len() ==> self.resolved[i].id != self.resolved[j].id
        &&& forall|i: int, j: int|
            #![trigger self.pending[i], self.resolved[j]]
            0 <= i < self.pending.len() && 0 <= j < self.resolved.len() ==> self.pending[i].id
                != self.resolved[j].id
        &&& self.closed ==> self.pending.len() == 0
    }

    /// Whether a request with this id can be taken in: the approval gate is open and
    /// has not seen the id.
    pub open spec fn admits(self, id: Seq<char>) -> bool {
        !self.closed && !self.is_pending(id) && !self.is_resolved(id)
    }

    /// The approval gate after `request` was taken in.
    pub open spec fn register(self, request: ApprovalModel) -> GateModel {
        GateModel { pending: self.pending.push(request), ..self }
    }

    /// What an attempt to decide the request `id` yields.
    pub open spec fn verdict(self, id: Seq<char>) -> Result<(), SessionError> {
        if self.is_resolved(id) {
            Err(SessionError::AlreadyResolved)
        } else if self.closed {
            Err(SessionError::SessionClosed)
        } else if self.is_pending(id) {
            Ok(())
        } else {
            Err(SessionError::UnknownApproval)
        }
    }

    /// The approval gate after the waiting request `id` was decided.
    pub open spec fn resolve(self, id: Seq<char>, approved: bool) -> GateModel {
        GateModel {
            pending: self.pending.remove(self.pending_index(id)),
            resolved: self.resolved.push(ResolutionModel { id, approved }),
            closed: self.closed,
        }
    }

    /// The approval gate after its session ended: what waited is discarded.
    pub open spec fn close(self) -> GateModel {
        GateModel { pending: Seq::empty(), resolved: self.resolved, closed: true }
    }
}

/// In a well-formed gate the position of a waiting id is determined.
pub proof fn pending_index_is_unique(gate: GateModel, id: Seq<char>, at: int)
    requires
        gate.wf(),
        0 <= at < gate.pending.len(),
        gate.pending[at].id == id,
    ensures
        gate.is_pending(id),
        gate.pending_index(id) == at,
{
    let chosen = gate.pending_index(id);
    assert(0 <= chosen < gate.pending.len() && gate.pending[chosen].id == id);
    if chosen < at {
        assert(gate.pending[chosen].id != gate.pending[at].id);
    } else if at < chosen {
        assert(gate.pending[at].id != gate.pending[chosen].id);
    }
}

/// Taking a request in keeps a gate well-formed.
pub proof fn register_keeps_wf(gate: GateModel, request: ApprovalModel)
    requires
        gate.wf(),
        gate.admits(request.id),
    ensures
        gate.register(request).wf(),
        gate.register(request).is_pending(request.id),
        gate.register(request).pending.len() == gate.pending.len() + 1,
{
    let after = gate.register(request);
    assert forall|i: int, j: int|
        #![trigger after.pending[i], after.pending[j]]
        0 <= i < j < after.pending.len() implies after.pending[i].id
        != after.pending[j].id by {
        if j == gate.pending.len() {
            assert(gate.pending[i].id != request.id);
        }
    }
    assert forall|i: int, j: int|
        #![trigger after.pending[i], after.resolved[j]]
        0 <= i < after.pending.len() && 0 <= j < after.resolved.len() implies after.pending[i].id
        != after.resolved[j].id by {
        if i == gate.pending.len() {
            assert(gate.resolved[j].id != request.id);
        }
    }
    assert(after.pending[gate.pending.len() as int].id == request.id);
}

/// Deciding a waiting request keeps a gate well-formed, and the request is
/// decided afterwards and waits no longer.
pub proof fn resolve_keeps_wf(gate: GateModel, id: Seq<char>, approved: bool)
    requires
        gate.wf(),
        gate.verdict(id) is Ok,
    ensures
        gate.resolve(id, approved).wf(),
        gate.resolve(id, approved).is_resolved(id),
        !gate.resolve(id, approved).is_pending(id),
        gate.resolve(id, approved).pending.len() == gate.pending.len() - 1,
        forall|other: Seq<char>|
            other != id ==> gate.resolve(id, approved).is_pending(other) == gate.is_pending(other),
        forall|other: Seq<char>|
            other != id ==> gate.resolve(id, approved).is_resolved(other) == gate.is_resolved(
                other,
            ),
{
    let at = gate.pending_index(id);
    let after = gate.resolve(id, approved);
    assert(0 <= at < gate.pending.len() && gate.pending[at].id == id);
    assert forall|i: int| 0 <= i < after.pending.len() implies #[trigger] after.pending[i]
        == gate.pending[if i < at {
        i
    } else {
        i + 1
    }] by {}
    assert forall|i: int, j: int|
        #![trigger after.pending[i], after.pending[j]]
        0 <= i < j < after.pending.len() implies after.pending[i].id
        != after.pending[j].id by {
        let oi = if i < at { i } else { i + 1 };
        let oj = if j < at { j } else { j + 1 };
        assert(gate.pending[oi].id != gate.pending[oj].id);
    }
    assert forall|i: int, j: int|
        #![trigger after.resolved[i], after.resolved[j]]
        0 <= i < j < after.resolved.len() implies after.resolved[i].id
        != after.resolved[j].id by {
        if j == gate.resolved.len() {
            assert(gate.resolved[i].id != id);
        }
    }
    assert forall|i: int, j: int|
        #![trigger after.pending[i], after.resolved[j]]
        0 <= i < after.pending.len() && 0 <= j < after.resolved.len() implies after.pending[i].id
        != after.resolved[j].id by {
        let oi = if i < at { i } else { i + 1 };
        if j == gate.resolved.len() {
            if oi < at {
                assert(gate.pending[oi].id != gate.pending[at].id);
            } else {
                assert(gate.pending[at].id != gate.pending[oi].id);
            }
        } else {
            assert(gate.pending[oi].id != gate.resolved[j].id);
        }
    }
    assert(after.resolved[gate.resolved.len() as int].id == id);
    if after.is_pending(id) {
        let i = choose|i: int| #![trigger after.pending[i]] 0 <= i < after.pending.len() && after.pending[i].id == id;
        let oi = if i < at { i } else { i + 1 };
        if oi < at {
            assert(gate.pending[oi].id != gate.pending[at].id);
        } else {
            assert(gate.pending[at].id != gate.pending[oi].id);
        }
    }
    assert forall|other: Seq<char>| other != id implies after.is_pending(other) == gate.is_pending(
        other,
    ) by {
        if gate.is_pending(other) {
            let o = choose|o: int| #![trigger gate.pending[o]] 0 <= o < gate.pending.len() && gate.pending[o].id == other;
            let n = if o < at { o } else { o - 1 };
            assert(after.pending[n].id == other);
        }
        if after.is_pending(other) {
            let n = choose|n: int| #![trigger after.pending[n]] 0 <= n < after.pending.len() && after.pending[n].id == other;
            let o = if n < at { n } else { n + 1 };
            assert(gate.pending[o].id == other);
        }
    }
    assert forall|other: Seq<char>| other != id implies after.is_resolved(other)
        == gate.is_resolved(other) by {
        if gate.is_resolved(other) {
            let o = choose|o: int| #![trigger gate.resolved[o]] 0 <= o < gate.resolved.len() && gate.resolved[o].id == other;
            assert(after.resolved[o].id == other);
        }
        if after.is_resolved(other) {
            let n = choose|n: int| #![trigger after.resolved[n]] 0 <= n < after.resolved.len() && after.resolved[n].id == other;
            assert(gate.resolved[n].id == other);
        }
    }
}

/// A request is decided exactly once: after one decision on a waiting request,
/// every further attempt on the same id yields `AlreadyResolved`, whatever
/// happened to the approval gate's closing in between.
pub proof fn second_resolution_is_rejected(gate: GateModel, id: Seq<char>, approved: bool)
    requires
        gate.wf(),
        gate.verdict(id) is Ok,
    ensures
        gate.resolve(id, approved).verdict(id) == Err::<(), SessionError>(
            SessionError::AlreadyResolved,
        ),
        gate.resolve(id, approved).close().verdict(id) == Err::<(), SessionError>(
            SessionError::AlreadyResolved,
        ),
{
    resolve_keeps_wf(gate, id, approved);
    let after = gate.resolve(id, approved);
    let i = choose|i: int| #![trigger after.resolved[i]] 0 <= i < after.resolved.len() && after.resolved[i].id == id;
    assert(after.close().resolved[i].id == id);
}

/// Closing discards every waiting request: afterwards nothing waits, and an
/// attempt to decide a request that waited yields `SessionClosed`.
pub proof fn close_discards_pending(gate: GateModel, id: Seq<char>)
    requires
        gate.wf(),
    ensures
        gate.close().wf(),
        gate.close().pending.len() == 0,
        !gate.close().is_pending(id),
        gate.close().is_resolved(id) == gate.is_resolved(id),
        gate.close().verdict(id) is Err,
        !gate.is_resolved(id) ==> gate.close().verdict(id) == Err::<(), SessionError>(
            SessionError::SessionClosed,
        ),
{
    let after = gate.close();
    if gate.is_resolved(id) {
        let i = choose|i: int|
            #![trigger gate.resolved[i]]
            0 <= i < gate.resolved.len() && gate.resolved[i].id == id;
        assert(after.resolved[i].id == id);
    }
    if after.is_resolved(id) {
        let i = choose|i: int|
            #![trigger after.resolved[i]]
            0 <= i < after.resolved.len() && after.resolved[i].id == id;
        assert(gate.resolved[i].id == id);
    }
}


/// The approval gate of one session.
#[derive(Debug)]
pub struct ApprovalGate {
    pending: Vec<ApprovalRequest>,
    resolved: Vec<Resolution>,
    closed: bool,
}

impl View for ApprovalGate {
    type V = GateModel;

    closed spec fn view(&self) -> GateModel {
        GateModel {
            pending: self.pending@.map_values(|r: ApprovalRequest| r@),
            resolved: self.resolved@.map_values(|r: Resolution| r@),
            closed: self.closed,
        }
    }
}

impl ApprovalGate {
    /// An open gate that has seen no request.
    pub fn new() -> (gate: ApprovalGate)
        ensures
            gate@ == GateModel::empty(),
            gate@.wf(),
    {
        let gate = ApprovalGate { pending: Vec::new(), resolved: Vec::new(), closed: false };
        assert(gate@.pending =~= Seq::empty());
        assert(gate@.resolved =~= Seq::empty());
        gate
    }

    /// How many requests wait.
    pub fn pending_count(&self) -> (count: usize)
        ensures
            count == self@.pending.len(),
    {
        self.pending.len()
    }

    /// Whether the owning session has ended.
    pub fn is_closed(&self) -> (closed: bool)
        ensures
            closed == self@.closed,
    {
        self.closed
    }

    /// The position of the waiting request `id`, if it waits.
    fn find_pending(&self, id: &str) -> (found: Option<usize>)
        ensures
            match found {
                Some(at) => at < self@.pending.len() && self@.pending[at as int].id == id@,
                None => !self@.is_pending(id@),
            },
    {
        let mut i: usize = 0;
        while i < self.pending.len()
            invariant
                i <= self.pending.len(),
                forall|j: int| #![trigger self@.pending[j]] 0 <= j < i ==> self@.pending[j].id != id@,
            decreases self.pending.len() - i,
        {
            if same_text(self.pending[i].id.as_str(), id) {
                assert(self@.pending[i as int].id == id@);
                return Some(i);
            }
            i += 1;
        }
        None
    }

    /// Whether a request with this id waits.
    pub fn is_pending(&self, id: &str) -> (waits: bool)
        ensures
            waits == self@.is_pending(id@),
    {
        self.find_pending(id).is_some()
    }

    /// Whether a request with this id was decided.
    pub fn is_resolved(&self, id: &str) -> (decided: bool)
        ensures
            decided == self@.is_resolved(id@),
    {
        let mut i: usize = 0;
        while i < self.resolved.len()
            invariant
                i <= self.resolved.len(),
                forall|j: int| #![trigger self@.resolved[j]] 0 <= j < i ==> self@.resolved[j].id != id@,
            decreases self.resolved.len() - i,
        {
            if same_text(self.resolved[i].id.as_str(), id) {
                assert(self@.resolved[i as int].id == id@);
                return true;
            }
            i += 1;
        }
        false
    }

    /// The decision that was made on the request `id`, if one was made.
    pub fn decision(&self, id: &str) -> (decision: Option<bool>)
        requires
            self@.wf(),
        ensures
            decision is Some == self@.is_resolved(id@),
            decision is Some ==> exists|i: int|
                #![trigger self@.resolved[i]]
                0 <= i < self@.resolved.len() && self@.resolved[i].id == id@
                    && self@.resolved[i].approved == decision->0,
    {
        let mut i: usize = 0;
        while i < self.resolved.len()
            invariant
                i <= self.resolved.len(),
                forall|j: int| #![trigger self@.resolved[j]] 0 <= j < i ==> self@.resolved[j].id != id@,
            decreases self.resolved.len() - i,
        {
            if same_text(self.resolved[i].id.as_str(), id) {
                assert(self@.resolved[i as int].id == id@);
                return Some(self.resolved[i].approved);
            }
            i += 1;
        }
        None
    }

    /// The kind of the waiting request `id`, if it waits.
    pub fn pending_kind(&self, id: &str) -> (kind: Option<ApprovalKind>)
        requires
            self@.wf(),
        ensures
            kind is Some == self@.is_pending(id@),
            kind is Some ==> kind->0 == self@.pending[self@.pending_index(id@)].kind,
    {
        match self.find_pending(id) {
            Some(at) => {
                proof {
                    pending_index_is_unique(self@, id@, at as int);
                }
                Some(self.pending[at].kind)
            },
            None => None,
        }
    }

    /// The waiting requests, oldest first.
    pub fn pending(&self) -> (requests: Vec<ApprovalRequest>)
        ensures
            requests@.map_values(|r: ApprovalRequest| r@) == self@.pending,
    {
        let mut requests: Vec<ApprovalRequest> = Vec::new();
        let mut i: usize = 0;
        while i < self.pending.len()
            invariant
                i <= self.pending.len(),
                requests@.map_values(|r: ApprovalRequest| r@) == self@.pending.take(i as int),
            decreases self.pending.len() - i,
        {
            let ghost before = requests@;
            let copy = self.pending[i].clone();
            requests.push(copy);
            i += 1;
            assert(requests@.map_values(|r: ApprovalRequest| r@) =~= before.map_values(
                |r: ApprovalRequest| r@,
            ).push(copy@));
            assert(self@.pending.take(i as int) =~= self@.pending.take(i as int - 1).push(
                self@.pending[i as int - 1],
            ));
        }
        assert(self@.pending.take(i as int) =~= self@.pending);
        requests
    }

    /// Takes a request in.
    ///
    /// A closed gate refuses with `SessionClosed`; an id that the approval gate has
    /// seen before is refused with `ProtocolError`, since the agent must give
    /// each request an id of its own.
    pub fn register(&mut self, request: ApprovalRequest) -> (result: Result<(), SessionError>)
        requires
            old(self)@.wf(),
        ensures
            final(self)@.wf(),
            old(self)@.closed ==> result == Err::<(), SessionError>(SessionError::SessionClosed),
            !old(self)@.closed && !old(self)@.admits(request@.id) ==> result == Err::<
                (),
                SessionError,
            >(SessionError::ProtocolError),
            old(self)@.admits(request@.id) ==> result is Ok,
            result is Ok ==> final(self)@ == old(self)@.register(request@),
            result is Err ==> final(self)@ == old(self)@,
    {
        if self.closed {
            return Err(SessionError::SessionClosed);
        }
        if self.is_pending(request.id.as_str()) || self.is_resolved(request.id.as_str()) {
            return Err(SessionError::ProtocolError);
        }
        proof {
            register_keeps_wf(self@, request@);
        }
        self.pending.push(request);
        assert(self@.pending =~= old(self)@.pending.push(request@));
        Ok(())
    }

    /// Decides the request `id`, and hands the request back.
    ///
    /// Succeeds exactly when the request waits. A request decided before
    /// yields `AlreadyResolved`, any other request at a closed gate
    /// `SessionClosed`, and an id that the approval gate never saw `UnknownApproval`.
    pub fn resolve(&mut self, id: &str, approved: bool) -> (result: Result<
        ApprovalRequest,
        SessionError,
    >)
        requires
            old(self)@.wf(),
        ensures
            final(self)@.wf(),
            match result {
                Ok(request) => {
                    &&& old(self)@.verdict(id@) is Ok
                    &&& request@ == old(self)@.pending[old(self)@.pending_index(id@)]
                    &&& request@.id == id@
                    &&& final(self)@ == old(self)@.resolve(id@, approved)
                },
                Err(e) => {
                    &&& old(self)@.verdict(id@) == Err::<(), SessionError>(e)
                    &&& final(self)@ == old(self)@
                },
            },
    {
        if self.is_resolved(id) {
            return Err(SessionError::AlreadyResolved);
        }
        if self.closed {
            return Err(SessionError::SessionClosed);
        }
        match self.find_pending(id) {
            None => Err(SessionError::UnknownApproval),
            Some(at) => {
                proof {
                    pending_index_is_unique(self@, id@, at as int);
                    resolve_keeps_wf(self@, id@, approved);
                }
                let request = self.pending.remove(at);
                self.resolved.push(Resolution { id: request.id.clone(), approved });
                assert(self@.pending =~= old(self)@.pending.remove(at as int));
                assert(self@.resolved =~= old(self)@.resolved.push(
                    ResolutionModel { id: id@, approved },
                ));
                Ok(request)
            },
        }
    }

    /// Closes the approval gate and hands back the requests that waited, oldest first.
    /// They count as rejected; nothing was sent to the agent for them.
    pub fn close(&mut self) -> (discarded: Vec<ApprovalRequest>)
        requires
            old(self)@.wf(),
        ensures
            final(self)@.wf(),
            final(self)@ == old(self)@.close(),
            discarded@.map_values(|r: ApprovalRequest| r@) == old(self)@.pending,
    {
        let mut discarded: Vec<ApprovalRequest> = Vec::new();
        std::mem::swap(&mut self.pending, &mut discarded);
        self.closed = true;
        proof {
            close_discards_pending(old(self)@, Seq::empty());
            assert(self@.pending =~= Seq::empty());
            assert(self@ == old(self)@.close());
        }
        discarded
    }
}

} // verus!
