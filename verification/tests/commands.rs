use codex_core::approval::ApprovalKind;
use codex_core::commands::{
    approve, approve_execution, approve_patch, close_session, get_running_sessions,
    pause_session, send_message, start_codex_session,
};
use codex_core::error::SessionError;
use codex_core::protocol::{AgentEvent, AgentSignal, OutboundCommand};
use codex_core::registry::{SessionRegistry, SpawnOutcome};
use codex_core::session::{CodexConfig, SessionStatus};

fn config() -> CodexConfig {
    CodexConfig {
        working_directory: ".".to_string(),
        model: "m".to_string(),
        profile: String::new(),
        max_protocol_errors: 0,
    }
}

fn with_request(kind: ApprovalKind) -> SessionRegistry {
    let mut registry = SessionRegistry::new();
    start_codex_session(&mut registry, "s1".to_string(), config(), SpawnOutcome::Spawned).unwrap();
    registry
        .deliver(
            "s1",
            AgentSignal::Event(AgentEvent::ApprovalRequest {
                id: "a1".to_string(),
                kind,
                payload: "p".to_string(),
            }),
        )
        .unwrap();
    registry
}

#[test]
fn commands_answer_with_the_text_of_the_error() {
    let mut registry = SessionRegistry::new();
    let s = || "s1".to_string();
    assert_eq!(
        start_codex_session(&mut registry, s(), config(), SpawnOutcome::Failed),
        Err("Failed to start codex process".to_string())
    );
    assert_eq!(send_message(&mut registry, s(), "x".to_string()), Err("Session not found".to_string()));
    assert_eq!(pause_session(&mut registry, s()), Err("Session not found".to_string()));
    assert_eq!(close_session(&mut registry, s()), Err("Session not found".to_string()));
    assert_eq!(
        approve_execution(&mut registry, s(), "a".to_string(), true),
        Err("Session not found".to_string())
    );
    assert_eq!(start_codex_session(&mut registry, s(), config(), SpawnOutcome::Spawned), Ok(()));
    assert_eq!(
        start_codex_session(&mut registry, s(), config(), SpawnOutcome::Spawned),
        Err("Session already exists".to_string())
    );
    assert_eq!(
        approve_patch(&mut registry, s(), "a".to_string(), true),
        Err("Approval request not found".to_string())
    );
    assert_eq!(close_session(&mut registry, s()), Ok(()));
    assert_eq!(close_session(&mut registry, s()), Ok(()));
    assert_eq!(
        send_message(&mut registry, s(), "x".to_string()),
        Err("Session is not running".to_string())
    );
    assert_eq!(pause_session(&mut registry, s()), Err("Session is not running".to_string()));
    assert_eq!(
        approve_execution(&mut registry, s(), "a".to_string(), true),
        Err("Session closed".to_string())
    );
}

#[test]
fn running_sessions_are_listed_in_starting_order() {
    let mut registry = SessionRegistry::new();
    assert_eq!(get_running_sessions(&registry), Ok(vec![]));
    for id in ["b", "a", "c"] {
        start_codex_session(&mut registry, id.to_string(), config(), SpawnOutcome::Spawned)
            .unwrap();
    }
    pause_session(&mut registry, "a".to_string()).unwrap();
    close_session(&mut registry, "b".to_string()).unwrap();
    assert_eq!(get_running_sessions(&registry), Ok(vec!["a".to_string(), "c".to_string()]));
}

#[test]
fn send_message_queues_the_message() {
    let mut registry = SessionRegistry::new();
    start_codex_session(&mut registry, "s1".to_string(), config(), SpawnOutcome::Spawned).unwrap();
    assert_eq!(send_message(&mut registry, "s1".to_string(), "hi".to_string()), Ok(()));
    assert_eq!(
        registry.take_outbound("s1").unwrap(),
        vec![OutboundCommand::UserMessage { text: "hi".to_string() }]
    );
}

#[test]
fn approve_execution_decides_only_executions() {
    let mut registry = with_request(ApprovalKind::Execution);
    assert_eq!(
        approve_patch(&mut registry, "s1".to_string(), "a1".to_string(), true),
        Err("Approval request not found".to_string())
    );
    assert_eq!(registry.status("s1").unwrap().pending_approvals, 1);
    assert_eq!(approve_execution(&mut registry, "s1".to_string(), "a1".to_string(), true), Ok(()));
    assert_eq!(registry.status("s1").unwrap().status, SessionStatus::Running);
    assert_eq!(
        approve_execution(&mut registry, "s1".to_string(), "a1".to_string(), true),
        Err("Approval request already resolved".to_string())
    );
    assert_eq!(
        approve_patch(&mut registry, "s1".to_string(), "a1".to_string(), true),
        Err("Approval request already resolved".to_string())
    );
}

#[test]
fn approve_patch_decides_only_patches() {
    let mut registry = with_request(ApprovalKind::Patch);
    assert_eq!(
        approve(&mut registry, "s1", "a1", ApprovalKind::Execution, false),
        Err(SessionError::UnknownApproval)
    );
    assert_eq!(approve_patch(&mut registry, "s1".to_string(), "a1".to_string(), false), Ok(()));
    assert_eq!(
        registry.take_outbound("s1").unwrap(),
        vec![OutboundCommand::ApprovalResponse { id: "a1".to_string(), approved: false }]
    );
}

#[test]
fn session_errors_have_their_texts() {
    let texts = [
        (SessionError::DuplicateSession, "Session already exists", true),
        (SessionError::UnknownSession, "Session not found", true),
        (SessionError::SessionNotRunning, "Session is not running", true),
        (SessionError::UnknownApproval, "Approval request not found", true),
        (SessionError::AlreadyResolved, "Approval request already resolved", true),
        (SessionError::SessionClosed, "Session closed", true),
        (SessionError::SpawnFailed, "Failed to start codex process", false),
        (SessionError::WriteFailed, "Failed to write to codex process", false),
        (SessionError::UnexpectedExit { code: 2 }, "Codex process exited unexpectedly", false),
        (SessionError::ProtocolError, "Malformed record from codex process", false),
        (SessionError::ProtocolFatal, "Too many malformed records from codex process", false),
    ];
    for (error, text, invalid) in texts {
        assert_eq!(error.message(), text);
        assert_eq!(error.invalid_request(), invalid);
    }
}
