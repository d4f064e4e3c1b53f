use codex_core::approval::{ApprovalGate, ApprovalKind, ApprovalRequest};
use codex_core::error::SessionError;
use codex_core::protocol::{AgentEvent, AgentSignal, OutboundCommand};
use codex_core::session::{CodexConfig, Session, SessionStatus};
use codex_core::text::{
    chars_of, contains, contains_char, ends_with, matches_at, same_chars, split_spans,
    starts_with, string_of,
};

fn request(id: &str, kind: ApprovalKind) -> ApprovalRequest {
    ApprovalRequest { id: id.to_string(), kind, payload: "p".to_string(), requested_at: 7 }
}

fn session(max_protocol_errors: u32) -> Session {
    let config = CodexConfig {
        working_directory: "/w".to_string(),
        model: "m".to_string(),
        profile: "p".to_string(),
        max_protocol_errors,
    };
    Session::new("s".to_string(), config, 5)
}

#[test]
fn text_search() {
    let hay = chars_of("hello world");
    assert!(contains(&hay, &chars_of("o w")));
    assert!(contains(&hay, &chars_of("")));
    assert!(contains(&hay, &chars_of("hello world")));
    assert!(!contains(&hay, &chars_of("hello world!")));
    assert!(!contains(&hay, &chars_of("wor1d")));
    assert!(starts_with(&hay, &chars_of("hell")));
    assert!(!starts_with(&hay, &chars_of("ello")));
    assert!(ends_with(&hay, &chars_of("world")));
    assert!(!ends_with(&hay, &chars_of("worl")));
    assert!(ends_with(&hay, &chars_of("")));
    assert!(matches_at(&hay, &chars_of("lo"), 3));
    assert!(!matches_at(&hay, &chars_of("lo"), 4));
    assert!(!matches_at(&hay, &chars_of("ld"), 10));
    assert!(matches_at(&hay, &chars_of(""), 11));
    assert!(!matches_at(&hay, &chars_of(""), 12));
    assert!(contains_char(&hay, 'w'));
    assert!(!contains_char(&hay, 'z'));
}

#[test]
fn text_equality_and_slices() {
    assert!(same_chars(&chars_of("é✓"), &chars_of("é✓")));
    assert!(!same_chars(&chars_of("a"), &chars_of("b")));
    assert!(!same_chars(&chars_of("a"), &chars_of("")));
    assert_eq!(chars_of("a✓b"), vec!['a', '✓', 'b']);
    assert_eq!(string_of(&chars_of("hello"), 1, 4), "ell");
    assert_eq!(string_of(&chars_of("hello"), 2, 2), "");
    assert_eq!(string_of(&chars_of("é✓x"), 1, 3), "✓x");
}

#[test]
fn text_splitting() {
    assert_eq!(split_spans(&chars_of("a:bc::d"), ':'), vec![(0, 1), (2, 4), (5, 5), (6, 7)]);
    assert_eq!(split_spans(&chars_of(""), ':'), vec![(0, 0)]);
    assert_eq!(split_spans(&chars_of(":"), ':'), vec![(0, 0), (1, 1)]);
    assert_eq!(split_spans(&chars_of("abc"), ':'), vec![(0, 3)]);
    assert_eq!(split_spans(&chars_of("abc:"), ':'), vec![(0, 3), (4, 4)]);
}

#[test]
fn approval_gate_registers_and_resolves() {
    let mut gate = ApprovalGate::new();
    assert_eq!(gate.pending_count(), 0);
    assert_eq!(gate.register(request("a", ApprovalKind::Execution)), Ok(()));
    assert_eq!(gate.register(request("b", ApprovalKind::Patch)), Ok(()));
    assert_eq!(gate.register(request("a", ApprovalKind::Patch)), Err(SessionError::ProtocolError));
    assert_eq!(gate.pending_count(), 2);
    assert!(gate.is_pending("a"));
    assert!(!gate.is_pending("c"));
    assert_eq!(gate.pending_kind("b"), Some(ApprovalKind::Patch));
    assert_eq!(gate.pending_kind("c"), None);
    assert_eq!(gate.decision("a"), None);
    assert_eq!(gate.resolve("a", true), Ok(request("a", ApprovalKind::Execution)));
    assert_eq!(gate.decision("a"), Some(true));
    assert!(gate.is_resolved("a"));
    assert!(!gate.is_pending("a"));
    assert_eq!(gate.resolve("a", false), Err(SessionError::AlreadyResolved));
    assert_eq!(gate.decision("a"), Some(true));
    assert_eq!(gate.resolve("c", true), Err(SessionError::UnknownApproval));
    assert_eq!(gate.register(request("a", ApprovalKind::Patch)), Err(SessionError::ProtocolError));
    assert_eq!(gate.pending(), vec![request("b", ApprovalKind::Patch)]);
}

#[test]
fn approval_gate_closes() {
    let mut gate = ApprovalGate::new();
    gate.register(request("a", ApprovalKind::Execution)).unwrap();
    gate.register(request("b", ApprovalKind::Patch)).unwrap();
    gate.register(request("c", ApprovalKind::Patch)).unwrap();
    gate.resolve("b", false).unwrap();
    assert!(!gate.is_closed());
    assert_eq!(
        gate.close(),
        vec![request("a", ApprovalKind::Execution), request("c", ApprovalKind::Patch)]
    );
    assert!(gate.is_closed());
    assert_eq!(gate.pending_count(), 0);
    assert_eq!(gate.resolve("a", true), Err(SessionError::SessionClosed));
    assert_eq!(gate.resolve("b", true), Err(SessionError::AlreadyResolved));
    assert_eq!(gate.resolve("z", true), Err(SessionError::SessionClosed));
    assert_eq!(gate.decision("b"), Some(false));
    assert_eq!(gate.register(request("d", ApprovalKind::Patch)), Err(SessionError::SessionClosed));
    assert_eq!(gate.close(), vec![]);
}

#[test]
fn session_starts_in_starting() {
    let s = session(1);
    assert_eq!(s.id(), "s");
    assert_eq!(s.config().working_directory, "/w");
    assert_eq!(s.config().max_protocol_errors, 1);
    assert_eq!(s.status(), SessionStatus::Starting);
    assert!(s.status().live());
    assert_eq!(s.failure(), None);
    assert_eq!(s.end_reason(), None);
    assert_eq!(s.created_at(), 5);
    assert_eq!(s.last_activity_at(), 5);
    assert_eq!(s.protocol_errors(), 0);
    assert_eq!(s.outbox_len(), 0);
    assert_eq!(s.held_len(), 0);
    assert_eq!(s.gate().pending_count(), 0);
}

#[test]
fn session_steps() {
    let mut s = session(0);
    assert_eq!(s.receive(AgentSignal::Event(AgentEvent::Ready), 6), SessionStatus::Running);
    assert_eq!(s.send("a".to_string(), 7), Ok(()));
    assert_eq!(s.last_activity_at(), 7);
    assert_eq!(s.pause(8), Ok(()));
    assert_eq!(s.send("b".to_string(), 9), Ok(()));
    assert_eq!(s.held_len(), 1);
    assert_eq!(s.outbox_len(), 2);
    s.close(10);
    assert_eq!(s.status(), SessionStatus::Closed);
    assert!(!s.status().live());
    assert_eq!(s.held_len(), 0);
    assert!(s.gate().is_closed());
    s.fail(SessionError::WriteFailed, 11);
    assert_eq!(s.status(), SessionStatus::Closed);
    assert_eq!(s.failure(), None);
    assert_eq!(s.last_activity_at(), 10);
    assert_eq!(s.send("c".to_string(), 12), Err(SessionError::SessionNotRunning));
    assert_eq!(s.pause(12), Err(SessionError::SessionNotRunning));
    assert_eq!(s.resolve("x", true, 12), Err(SessionError::SessionClosed));
    assert_eq!(
        s.take_outbound(),
        vec![
            OutboundCommand::UserMessage { text: "a".to_string() },
            OutboundCommand::Pause,
            OutboundCommand::Terminate,
        ]
    );
    assert_eq!(s.outbox_len(), 0);
}

#[test]
fn session_fails_at_the_first_malformed_record_with_threshold_zero() {
    let mut s = session(0);
    assert_eq!(s.receive(AgentSignal::Malformed, 6), SessionStatus::Failed);
    assert_eq!(s.failure(), Some(SessionError::ProtocolFatal));
    assert_eq!(s.protocol_errors(), 1);
}

#[test]
fn session_fail_records_the_reason() {
    let mut s = session(3);
    s.receive(
        AgentSignal::Event(AgentEvent::ApprovalRequest {
            id: "a".to_string(),
            kind: ApprovalKind::Execution,
            payload: "ls".to_string(),
        }),
        6,
    );
    assert_eq!(s.status(), SessionStatus::AwaitingApproval);
    s.fail(SessionError::UnexpectedExit { code: -1 }, 9);
    assert_eq!(s.status(), SessionStatus::Failed);
    assert_eq!(s.failure(), Some(SessionError::UnexpectedExit { code: -1 }));
    assert_eq!(s.gate().pending_count(), 0);
    assert_eq!(s.resolve("a", true, 10), Err(SessionError::SessionClosed));
    assert_eq!(s.last_activity_at(), 9);
}

#[test]
fn text_search_agrees_with_the_standard_library() {
    let samples = [
        "", "a", "ab", "ba", "aa", "aaa", "abab", "..", "a..b", "~/", "~/x", "x~/", ".jsonl",
        "a.jsonl", "é", "aé", "éa", "✓é✓", "codex.js", "import", "a:b", ":", "::",
    ];
    for hay in samples {
        for needle in samples {
            let h = chars_of(hay);
            let n = chars_of(needle);
            assert_eq!(contains(&h, &n), hay.contains(needle), "{:?} contains {:?}", hay, needle);
            assert_eq!(starts_with(&h, &n), hay.starts_with(needle), "{:?} / {:?}", hay, needle);
            assert_eq!(ends_with(&h, &n), hay.ends_with(needle), "{:?} / {:?}", hay, needle);
            assert_eq!(same_chars(&h, &n), hay == needle, "{:?} / {:?}", hay, needle);
        }
    }
}

#[test]
fn text_splitting_agrees_with_the_standard_library() {
    for text in ["", ":", "::", "a", "a:", ":a", "a:b", "a::b:", "é:✓", "/usr/bin::/opt/bin"] {
        let chars = chars_of(text);
        let pieces: Vec<String> = split_spans(&chars, ':')
            .into_iter()
            .map(|(from, to)| string_of(&chars, from, to))
            .collect();
        let expected: Vec<String> = text.split(':').map(str::to_string).collect();
        assert_eq!(pieces, expected, "{:?}", text);
    }
}
