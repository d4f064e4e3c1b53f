use codex_core::approval::ApprovalKind;
use codex_core::codec::encode_command;
use codex_core::error::SessionError;
use codex_core::protocol::{AgentEvent, AgentSignal, OutboundCommand};
use codex_core::registry::{SessionRegistry, SpawnOutcome};
use codex_core::session::{CodexConfig, SessionStatus};

fn config() -> CodexConfig {
    CodexConfig {
        working_directory: "/work".to_string(),
        model: "gpt".to_string(),
        profile: "default".to_string(),
        max_protocol_errors: 2,
    }
}

fn started(ids: &[&str]) -> SessionRegistry {
    let mut registry = SessionRegistry::new();
    for id in ids {
        assert_eq!(registry.start(id.to_string(), config(), SpawnOutcome::Spawned), Ok(()));
    }
    registry
}

fn ready() -> AgentSignal {
    AgentSignal::Event(AgentEvent::Ready)
}

fn approval_request(id: &str, kind: ApprovalKind, payload: &str) -> AgentSignal {
    AgentSignal::Event(AgentEvent::ApprovalRequest {
        id: id.to_string(),
        kind,
        payload: payload.to_string(),
    })
}

fn message(text: &str) -> OutboundCommand {
    OutboundCommand::UserMessage { text: text.to_string() }
}

fn status_of(registry: &SessionRegistry, id: &str) -> SessionStatus {
    registry.status(id).unwrap().status
}

#[test]
fn start_then_ready_then_approval_round_trip() {
    let mut registry = started(&["s1"]);
    assert_eq!(status_of(&registry, "s1"), SessionStatus::Starting);
    assert_eq!(registry.deliver("s1", ready()), Ok(SessionStatus::Running));
    assert_eq!(registry.send("s1", "list files".to_string()), Ok(()));
    assert_eq!(
        registry.deliver("s1", approval_request("a1", ApprovalKind::Execution, "ls -la")),
        Ok(SessionStatus::AwaitingApproval)
    );
    assert_eq!(registry.list_running(), vec!["s1".to_string()]);
    let waiting = registry.pending_approvals("s1").unwrap();
    assert_eq!(waiting.len(), 1);
    assert_eq!(waiting[0].id, "a1");
    assert_eq!(waiting[0].kind, ApprovalKind::Execution);
    assert_eq!(waiting[0].payload, "ls -la");
    assert_eq!(registry.resolve_approval("s1", "a1", true), Ok(()));
    assert_eq!(status_of(&registry, "s1"), SessionStatus::Running);
    let written = registry.take_outbound("s1").unwrap();
    assert_eq!(
        written,
        vec![
            message("list files"),
            OutboundCommand::ApprovalResponse { id: "a1".to_string(), approved: true },
        ]
    );
    assert_eq!(encode_command(&written[1]), "approval_response\ta1\tapproved");
    assert_eq!(registry.take_outbound("s1").unwrap().len(), 0);
}

#[test]
fn failed_spawn_retains_no_session() {
    let mut registry = SessionRegistry::new();
    assert_eq!(
        registry.start("s2".to_string(), config(), SpawnOutcome::Failed),
        Err(SessionError::SpawnFailed)
    );
    assert!(!registry.contains("s2"));
    assert!(registry.list_running().is_empty());
    assert_eq!(registry.len(), 0);
    assert_eq!(registry.status("s2"), Err(SessionError::UnknownSession));
}

#[test]
fn unknown_approval_is_rejected() {
    let mut registry = started(&["s1"]);
    assert_eq!(registry.resolve_approval("s1", "bogus", true), Err(SessionError::UnknownApproval));
    assert_eq!(status_of(&registry, "s1"), SessionStatus::Starting);
    assert_eq!(registry.take_outbound("s1").unwrap().len(), 0);
}

#[test]
fn close_twice_succeeds_twice() {
    let mut registry = started(&["s1", "s2"]);
    assert_eq!(registry.close("s1"), Ok(()));
    assert_eq!(status_of(&registry, "s1"), SessionStatus::Closed);
    assert_eq!(registry.list_running(), vec!["s2".to_string()]);
    assert_eq!(registry.close("s1"), Ok(()));
    assert_eq!(status_of(&registry, "s1"), SessionStatus::Closed);
    assert_eq!(registry.list_running(), vec!["s2".to_string()]);
    assert_eq!(registry.take_outbound("s1").unwrap(), vec![OutboundCommand::Terminate]);
}

#[test]
fn close_of_unknown_session_is_refused() {
    let mut registry = SessionRegistry::new();
    assert_eq!(registry.close("nobody"), Err(SessionError::UnknownSession));
}

#[test]
fn second_resolution_is_refused() {
    let mut registry = started(&["s1"]);
    registry.deliver("s1", ready()).unwrap();
    registry.deliver("s1", approval_request("a1", ApprovalKind::Patch, "diff")).unwrap();
    assert_eq!(registry.resolve_approval("s1", "a1", false), Ok(()));
    assert_eq!(registry.resolve_approval("s1", "a1", false), Err(SessionError::AlreadyResolved));
    assert_eq!(registry.resolve_approval("s1", "a1", true), Err(SessionError::AlreadyResolved));
    assert_eq!(
        registry.take_outbound("s1").unwrap(),
        vec![OutboundCommand::ApprovalResponse { id: "a1".to_string(), approved: false }]
    );
    assert_eq!(registry.close("s1"), Ok(()));
    assert_eq!(registry.resolve_approval("s1", "a1", true), Err(SessionError::AlreadyResolved));
}

#[test]
fn unexpected_exit_discards_pending_approvals() {
    let mut registry = started(&["s1"]);
    registry.deliver("s1", ready()).unwrap();
    registry.deliver("s1", approval_request("a1", ApprovalKind::Execution, "rm x")).unwrap();
    registry.deliver("s1", approval_request("a2", ApprovalKind::Patch, "diff")).unwrap();
    registry.deliver("s1", approval_request("a3", ApprovalKind::Execution, "ls")).unwrap();
    assert_eq!(registry.status("s1").unwrap().pending_approvals, 3);
    assert_eq!(
        registry.deliver("s1", AgentSignal::Exited { code: 137 }),
        Ok(SessionStatus::Failed)
    );
    let report = registry.status("s1").unwrap();
    assert_eq!(report.status, SessionStatus::Failed);
    assert_eq!(report.failure, Some(SessionError::UnexpectedExit { code: 137 }));
    assert_eq!(report.pending_approvals, 0);
    assert!(registry.pending_approvals("s1").unwrap().is_empty());
    for id in ["a1", "a2", "a3"] {
        assert_eq!(registry.resolve_approval("s1", id, true), Err(SessionError::SessionClosed));
    }
    assert!(registry.list_running().is_empty());
}

#[test]
fn messages_keep_their_order() {
    let mut registry = started(&["s"]);
    registry.deliver("s", ready()).unwrap();
    assert_eq!(registry.send("s", "a".to_string()), Ok(()));
    assert_eq!(registry.send("s", "b".to_string()), Ok(()));
    assert_eq!(registry.take_outbound("s").unwrap(), vec![message("a"), message("b")]);
    assert_eq!(registry.send("s", "c".to_string()), Ok(()));
    assert_eq!(registry.take_outbound("s").unwrap(), vec![message("c")]);
}

#[test]
fn failure_of_one_session_leaves_the_other_alone() {
    let mut registry = started(&["A", "B"]);
    registry.deliver("A", ready()).unwrap();
    registry.deliver("B", ready()).unwrap();
    registry.send("B", "hello".to_string()).unwrap();
    registry.deliver("B", approval_request("b1", ApprovalKind::Patch, "diff")).unwrap();
    let before = registry.status("B").unwrap();
    assert_eq!(registry.deliver("A", AgentSignal::Exited { code: 1 }), Ok(SessionStatus::Failed));
    assert_eq!(registry.status("B").unwrap(), before);
    assert_eq!(status_of(&registry, "B"), SessionStatus::AwaitingApproval);
    assert_eq!(registry.list_running(), vec!["B".to_string()]);
    assert_eq!(registry.resolve_approval("B", "b1", true), Ok(()));
    assert_eq!(
        registry.take_outbound("B").unwrap(),
        vec![
            message("hello"),
            OutboundCommand::ApprovalResponse { id: "b1".to_string(), approved: true },
        ]
    );
}

#[test]
fn duplicate_session_is_refused_while_live() {
    let mut registry = started(&["s1"]);
    assert_eq!(registry.check_start("s1"), Err(SessionError::DuplicateSession));
    assert_eq!(
        registry.start("s1".to_string(), config(), SpawnOutcome::Spawned),
        Err(SessionError::DuplicateSession)
    );
    assert_eq!(
        registry.start("s1".to_string(), config(), SpawnOutcome::Failed),
        Err(SessionError::DuplicateSession)
    );
    assert_eq!(registry.len(), 1);
    assert_eq!(registry.check_start("other"), Ok(()));
}

#[test]
fn ended_session_can_be_started_again() {
    let mut registry = started(&["s1", "s2"]);
    registry.close("s1").unwrap();
    assert_eq!(registry.check_start("s1"), Ok(()));
    assert_eq!(registry.start("s1".to_string(), config(), SpawnOutcome::Spawned), Ok(()));
    assert_eq!(registry.len(), 2);
    assert_eq!(status_of(&registry, "s1"), SessionStatus::Starting);
    assert_eq!(registry.list_running(), vec!["s2".to_string(), "s1".to_string()]);
    assert_eq!(registry.take_outbound("s1").unwrap(), vec![]);
}

#[test]
fn failed_spawn_keeps_the_ended_session() {
    let mut registry = started(&["s1"]);
    registry.deliver("s1", AgentSignal::Exited { code: 3 }).unwrap();
    assert_eq!(
        registry.start("s1".to_string(), config(), SpawnOutcome::Failed),
        Err(SessionError::SpawnFailed)
    );
    assert_eq!(
        registry.status("s1").unwrap().failure,
        Some(SessionError::UnexpectedExit { code: 3 })
    );
}

#[test]
fn send_is_refused_for_unknown_and_ended_sessions() {
    let mut registry = started(&["s1"]);
    assert_eq!(registry.send("nobody", "x".to_string()), Err(SessionError::UnknownSession));
    registry.close("s1").unwrap();
    assert_eq!(registry.send("s1", "x".to_string()), Err(SessionError::SessionNotRunning));
    assert_eq!(registry.take_outbound("s1").unwrap(), vec![OutboundCommand::Terminate]);
}

#[test]
fn send_is_accepted_before_the_agent_is_ready() {
    let mut registry = started(&["s1"]);
    assert_eq!(registry.send("s1", "early".to_string()), Ok(()));
    assert_eq!(status_of(&registry, "s1"), SessionStatus::Starting);
    assert_eq!(registry.take_outbound("s1").unwrap(), vec![message("early")]);
}

#[test]
fn pause_holds_messages_back() {
    let mut registry = started(&["s1"]);
    registry.deliver("s1", ready()).unwrap();
    registry.send("s1", "before".to_string()).unwrap();
    assert_eq!(registry.pause("s1"), Ok(()));
    assert_eq!(status_of(&registry, "s1"), SessionStatus::Paused);
    assert_eq!(registry.send("s1", "held".to_string()), Ok(()));
    assert_eq!(registry.pause("s1"), Ok(()));
    assert_eq!(
        registry.take_outbound("s1").unwrap(),
        vec![message("before"), OutboundCommand::Pause]
    );
    assert_eq!(registry.list_running(), vec!["s1".to_string()]);
    assert_eq!(registry.close("s1"), Ok(()));
    assert_eq!(registry.take_outbound("s1").unwrap(), vec![OutboundCommand::Terminate]);
}

#[test]
fn pause_is_refused_for_unknown_and_ended_sessions() {
    let mut registry = started(&["s1"]);
    assert_eq!(registry.pause("nobody"), Err(SessionError::UnknownSession));
    registry.close("s1").unwrap();
    assert_eq!(registry.pause("s1"), Err(SessionError::SessionNotRunning));
    assert_eq!(status_of(&registry, "s1"), SessionStatus::Closed);
}

#[test]
fn approvals_are_decided_while_paused() {
    let mut registry = started(&["s1"]);
    registry.deliver("s1", ready()).unwrap();
    registry.deliver("s1", approval_request("a1", ApprovalKind::Execution, "ls")).unwrap();
    assert_eq!(registry.pause("s1"), Ok(()));
    assert_eq!(
        registry.deliver("s1", approval_request("a2", ApprovalKind::Patch, "diff")),
        Ok(SessionStatus::Paused)
    );
    assert_eq!(registry.resolve_approval("s1", "a1", true), Ok(()));
    assert_eq!(registry.resolve_approval("s1", "a2", false), Ok(()));
    assert_eq!(status_of(&registry, "s1"), SessionStatus::Paused);
}

#[test]
fn session_waits_until_the_last_approval_is_decided() {
    let mut registry = started(&["s1"]);
    registry.deliver("s1", ready()).unwrap();
    registry.deliver("s1", approval_request("a1", ApprovalKind::Execution, "ls")).unwrap();
    registry.deliver("s1", approval_request("a2", ApprovalKind::Execution, "pwd")).unwrap();
    assert_eq!(registry.pending_kind("s1", "a2"), Some(ApprovalKind::Execution));
    assert_eq!(registry.pending_kind("s1", "a9"), None);
    assert_eq!(registry.pending_kind("nobody", "a1"), None);
    assert_eq!(registry.resolve_approval("s1", "a2", true), Ok(()));
    assert_eq!(status_of(&registry, "s1"), SessionStatus::AwaitingApproval);
    assert_eq!(registry.resolve_approval("s1", "a1", true), Ok(()));
    assert_eq!(status_of(&registry, "s1"), SessionStatus::Running);
}

#[test]
fn approval_request_before_ready_waits() {
    let mut registry = started(&["s1"]);
    assert_eq!(
        registry.deliver("s1", approval_request("a1", ApprovalKind::Execution, "ls")),
        Ok(SessionStatus::AwaitingApproval)
    );
    assert_eq!(registry.resolve_approval("s1", "a1", true), Ok(()));
    assert_eq!(status_of(&registry, "s1"), SessionStatus::Running);
}

#[test]
fn resolve_is_refused_for_unknown_session() {
    let mut registry = SessionRegistry::new();
    assert_eq!(registry.resolve_approval("nobody", "a1", true), Err(SessionError::UnknownSession));
}

#[test]
fn close_discards_pending_approvals() {
    let mut registry = started(&["s1"]);
    registry.deliver("s1", approval_request("a1", ApprovalKind::Execution, "ls")).unwrap();
    registry.close("s1").unwrap();
    assert_eq!(registry.status("s1").unwrap().pending_approvals, 0);
    assert_eq!(registry.resolve_approval("s1", "a1", true), Err(SessionError::SessionClosed));
    assert_eq!(registry.resolve_approval("s1", "never", true), Err(SessionError::SessionClosed));
}

#[test]
fn malformed_records_beyond_the_threshold_fail_the_session() {
    let mut registry = started(&["s1"]);
    registry.deliver("s1", ready()).unwrap();
    assert_eq!(registry.deliver("s1", AgentSignal::Malformed), Ok(SessionStatus::Running));
    assert_eq!(registry.deliver("s1", AgentSignal::Malformed), Ok(SessionStatus::Running));
    assert_eq!(registry.status("s1").unwrap().protocol_errors, 2);
    assert_eq!(registry.deliver("s1", AgentSignal::Malformed), Ok(SessionStatus::Failed));
    let report = registry.status("s1").unwrap();
    assert_eq!(report.failure, Some(SessionError::ProtocolFatal));
    assert_eq!(report.protocol_errors, 3);
    assert_eq!(registry.take_outbound("s1").unwrap(), vec![OutboundCommand::Terminate]);
}

#[test]
fn repeated_approval_id_counts_as_a_malformed_record() {
    let mut registry = started(&["s1"]);
    registry.deliver("s1", approval_request("a1", ApprovalKind::Execution, "ls")).unwrap();
    assert_eq!(
        registry.deliver("s1", approval_request("a1", ApprovalKind::Patch, "other")),
        Ok(SessionStatus::AwaitingApproval)
    );
    let report = registry.status("s1").unwrap();
    assert_eq!(report.protocol_errors, 1);
    assert_eq!(report.pending_approvals, 1);
    assert_eq!(registry.pending_kind("s1", "a1"), Some(ApprovalKind::Execution));
    registry.resolve_approval("s1", "a1", true).unwrap();
    assert_eq!(
        registry.deliver("s1", approval_request("a1", ApprovalKind::Execution, "again")),
        Ok(SessionStatus::Running)
    );
    assert_eq!(registry.status("s1").unwrap().protocol_errors, 2);
}

#[test]
fn stream_error_and_refused_write_fail_the_session() {
    let mut registry = started(&["s1", "s2"]);
    assert_eq!(registry.deliver("s1", AgentSignal::StreamError), Ok(SessionStatus::Failed));
    assert_eq!(registry.status("s1").unwrap().failure, Some(SessionError::ProtocolFatal));
    assert_eq!(registry.deliver("s2", AgentSignal::WriteFailed), Ok(SessionStatus::Failed));
    assert_eq!(registry.status("s2").unwrap().failure, Some(SessionError::WriteFailed));
}

#[test]
fn session_end_closes_the_session_with_its_reason() {
    let mut registry = started(&["s1"]);
    registry.deliver("s1", ready()).unwrap();
    assert_eq!(
        registry.deliver(
            "s1",
            AgentSignal::Event(AgentEvent::SessionEnd { reason: "done".to_string() })
        ),
        Ok(SessionStatus::Closed)
    );
    assert_eq!(registry.end_reason("s1"), Ok(Some("done".to_string())));
    assert_eq!(registry.status("s1").unwrap().failure, None);
    assert_eq!(registry.deliver("s1", AgentSignal::Exited { code: 0 }), Ok(SessionStatus::Closed));
    assert_eq!(registry.end_reason("nobody"), Err(SessionError::UnknownSession));
}

#[test]
fn ended_session_ignores_signals() {
    let mut registry = started(&["s1"]);
    registry.close("s1").unwrap();
    let before = registry.status("s1").unwrap();
    assert_eq!(registry.deliver("s1", ready()), Ok(SessionStatus::Closed));
    assert_eq!(registry.deliver("s1", AgentSignal::Exited { code: 0 }), Ok(SessionStatus::Closed));
    assert_eq!(registry.deliver("s1", AgentSignal::Malformed), Ok(SessionStatus::Closed));
    assert_eq!(registry.status("s1").unwrap(), before);
}

#[test]
fn other_events_leave_the_status_alone() {
    let mut registry = started(&["s1"]);
    registry.deliver("s1", ready()).unwrap();
    let events = vec![
        AgentEvent::MessageChunk { text: "hi".to_string() },
        AgentEvent::AgentError { message: "oops".to_string() },
        AgentEvent::PatchDiff { approval_id: "a".to_string(), diff: "d".to_string() },
        AgentEvent::Unrecognized,
        AgentEvent::Ready,
    ];
    for event in events {
        assert_eq!(registry.deliver("s1", AgentSignal::Event(event)), Ok(SessionStatus::Running));
    }
    assert_eq!(registry.status("s1").unwrap().protocol_errors, 0);
}

#[test]
fn deliver_to_unknown_session_is_refused() {
    let mut registry = SessionRegistry::new();
    assert_eq!(registry.deliver("nobody", ready()), Err(SessionError::UnknownSession));
    assert_eq!(registry.take_outbound("nobody"), Err(SessionError::UnknownSession));
    assert_eq!(registry.pending_approvals("nobody"), Err(SessionError::UnknownSession));
    assert_eq!(registry.drain("nobody"), Err(SessionError::UnknownSession));
}

#[test]
fn clock_stamps_changes_and_never_goes_back() {
    let mut registry = SessionRegistry::new();
    registry.advance_clock(100);
    registry.start("s1".to_string(), config(), SpawnOutcome::Spawned).unwrap();
    registry.advance_clock(50);
    assert_eq!(registry.clock(), 100);
    registry.advance_clock(130);
    registry.deliver("s1", approval_request("a1", ApprovalKind::Execution, "ls")).unwrap();
    let report = registry.status("s1").unwrap();
    assert_eq!(report.created_at, 100);
    assert_eq!(report.last_activity_at, 130);
    assert_eq!(registry.pending_approvals("s1").unwrap()[0].requested_at, 130);
}

#[test]
fn drain_forgets_only_ended_sessions() {
    let mut registry = started(&["s1", "s2"]);
    assert_eq!(registry.drain("s1").unwrap().status, SessionStatus::Starting);
    assert!(registry.contains("s1"));
    registry.deliver("s1", AgentSignal::Exited { code: 9 }).unwrap();
    let report = registry.drain("s1").unwrap();
    assert_eq!(report.status, SessionStatus::Failed);
    assert_eq!(report.failure, Some(SessionError::UnexpectedExit { code: 9 }));
    assert!(!registry.contains("s1"));
    assert_eq!(registry.len(), 1);
    assert_eq!(registry.close("s1"), Err(SessionError::UnknownSession));
}

#[test]
fn sweep_forgets_stale_ended_sessions() {
    let mut registry = SessionRegistry::new();
    registry.advance_clock(10);
    for id in ["old", "live", "fresh"] {
        registry.start(id.to_string(), config(), SpawnOutcome::Spawned).unwrap();
    }
    registry.close("old").unwrap();
    registry.advance_clock(100);
    registry.close("fresh").unwrap();
    registry.advance_clock(109);
    assert_eq!(registry.sweep(100), 0);
    registry.advance_clock(110);
    assert_eq!(registry.sweep(100), 1);
    assert!(!registry.contains("old"));
    assert!(registry.contains("live"));
    assert!(registry.contains("fresh"));
    registry.advance_clock(1000);
    assert_eq!(registry.sweep(100), 1);
    assert_eq!(registry.list_running(), vec!["live".to_string()]);
    assert_eq!(registry.len(), 1);
    assert_eq!(registry.sweep(0), 0);
}
