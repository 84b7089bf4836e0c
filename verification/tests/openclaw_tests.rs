use moly::entity::EntityId;
use moly::message::{Message, MessageContent, MessageMetadata};
use moly::openclaw::{
    EventFrame, OpenClawClient, OpenClawSession, ProcessResult, ResponseFrame, ResponsePayload,
    WsIncoming,
};
use moly::result::ClientErrorKind;

fn event(name: &str) -> EventFrame {
    EventFrame {
        event: name.to_string(),
        seq: None,
        text: None,
        delta: None,
        data_text: None,
        data_delta: None,
        message: None,
        error: None,
        state: None,
    }
}

fn empty_payload() -> ResponsePayload {
    ResponsePayload {
        kind: None,
        status: None,
        summary: None,
        result_summary: None,
        result_text: None,
        payload_texts: None,
    }
}

fn message_from(from: EntityId, text: &str) -> Message {
    Message {
        from,
        metadata: MessageMetadata::epoch(),
        content: MessageContent {
            text: text.to_string(),
            ..MessageContent::default()
        },
    }
}

#[test]
fn test_client_new_and_set_key() {
    let mut client = OpenClawClient::new("ws://localhost:8080".to_string());
    assert_eq!(client.url(), "ws://localhost:8080");
    assert!(client.token().is_none());
    client.set_key("SECRET-REDACTED").unwrap();
    assert_eq!(client.token().unwrap(), "SECRET-REDACTED");
}

#[test]
fn test_client_bots() {
    let client = OpenClawClient::new("ws://localhost:8080".to_string());
    let bots = client.bots().into_value().unwrap();
    assert_eq!(bots.len(), 1);
    assert_eq!(bots[0].id.id(), "openclaw/assistant");
    assert_eq!(bots[0].name, "OpenClaw Assistant");
}

#[test]
fn test_build_connect_request() {
    let request = OpenClawClient::build_connect_request(Some("tok"));
    assert_eq!(request.kind, "req");
    assert_eq!(request.method, "connect");
    assert_eq!(request.params.min_protocol, 3);
    assert_eq!(request.params.max_protocol, 3);
    assert_eq!(request.params.role, "operator");
    assert_eq!(request.params.scopes, vec!["operator.read", "operator.write"]);
    assert_eq!(request.params.client.id, "gateway-client");
    assert_eq!(request.params.auth.as_ref().unwrap().token, "tok");

    let bare = OpenClawClient::build_connect_request(None);
    assert!(bare.params.auth.is_none());
    assert_ne!(bare.id, request.id);
}

#[test]
fn test_build_agent_request() {
    let request = OpenClawClient::build_agent_request("user: hi".to_string());
    assert_eq!(request.kind, "req");
    assert_eq!(request.method, "agent");
    assert_eq!(request.params.message, "user: hi");
    assert_eq!(request.params.agent_id, "main");
}

#[test]
fn test_session_text_events_merge_and_yield() {
    let mut session = OpenClawSession::new();

    let mut first = event("agent.text");
    first.text = Some("Hello wor".to_string());
    assert!(matches!(
        session.handle_frame(&WsIncoming::Event(first)),
        ProcessResult::Yield
    ));
    assert_eq!(session.content.text, "Hello wor");

    let mut second = event("agent.text.delta");
    second.delta = Some("wor ld!".to_string());
    assert!(matches!(
        session.handle_frame(&WsIncoming::Event(second)),
        ProcessResult::Yield
    ));
    assert_eq!(session.content.text, "Hello wor ld!");
}

#[test]
fn test_session_deduplicates_by_seq() {
    let mut session = OpenClawSession::new();

    let mut frame = event("agent.text.delta");
    frame.seq = Some(7);
    frame.delta = Some("abc".to_string());
    assert!(matches!(
        session.handle_frame(&WsIncoming::Event(frame.clone())),
        ProcessResult::Yield
    ));
    assert_eq!(session.content.text, "abc");

    // The identical retransmission is dropped before it reaches the merge.
    let mut replayed = frame.clone();
    replayed.delta = Some("totally different".to_string());
    assert!(matches!(
        session.handle_frame(&WsIncoming::Event(replayed)),
        ProcessResult::Continue
    ));
    assert_eq!(session.content.text, "abc");
}

#[test]
fn test_event_dispatch() {
    let mut session = OpenClawSession::new();
    assert!(matches!(
        session.handle_frame(&WsIncoming::Event(event("connect.challenge"))),
        ProcessResult::SendConnect
    ));
    assert!(matches!(
        session.handle_frame(&WsIncoming::Event(event("agent.done"))),
        ProcessResult::Continue
    ));
    let mut chat = event("chat");
    chat.state = Some("done".to_string());
    assert!(matches!(
        session.handle_frame(&WsIncoming::Event(chat)),
        ProcessResult::Done
    ));
    let mut pending = event("chat");
    pending.state = Some("streaming".to_string());
    assert!(matches!(
        session.handle_frame(&WsIncoming::Event(pending)),
        ProcessResult::Continue
    ));
    assert!(matches!(
        session.handle_frame(&WsIncoming::Event(event("something.unknown"))),
        ProcessResult::Continue
    ));
}

#[test]
fn test_agent_error_event() {
    let mut session = OpenClawSession::new();
    let mut frame = event("agent.error");
    frame.message = Some("quota exceeded".to_string());
    match session.handle_frame(&WsIncoming::Event(frame)) {
        ProcessResult::Error(e) => {
            assert_eq!(e.kind(), ClientErrorKind::Response);
            assert_eq!(e.message(), "OpenClaw error: quota exceeded");
        }
        other => panic!("expected an error, got {:?}", other),
    }
}

#[test]
fn test_response_rejection_is_remote_error() {
    let mut session = OpenClawSession::new();
    let frame = ResponseFrame {
        ok: false,
        error: Some("bad token".to_string()),
        payload: None,
    };
    match session.handle_frame(&WsIncoming::Response(frame)) {
        ProcessResult::Error(e) => {
            assert_eq!(e.kind(), ClientErrorKind::Response);
            assert_eq!(e.message(), "OpenClaw error: bad token");
        }
        other => panic!("expected an error, got {:?}", other),
    }
}

#[test]
fn test_handshake_response_sends_agent_request_once() {
    let mut session = OpenClawSession::new();
    let hello = ResponseFrame {
        ok: true,
        error: None,
        payload: Some(ResponsePayload {
            kind: Some("hello-ok".to_string()),
            ..empty_payload()
        }),
    };
    assert!(matches!(
        session.handle_frame(&WsIncoming::Response(hello.clone())),
        ProcessResult::SendAgent
    ));
    assert!(session.connected);
    // A repeated handshake answer is a no-op.
    assert!(matches!(
        session.handle_frame(&WsIncoming::Response(hello)),
        ProcessResult::Continue
    ));
}

#[test]
fn test_completed_response_prefers_streamed_content() {
    let mut session = OpenClawSession::new();
    let mut frame = event("agent.text");
    frame.text = Some("streamed".to_string());
    session.handle_frame(&WsIncoming::Event(frame));

    let completed = ResponseFrame {
        ok: true,
        error: None,
        payload: Some(ResponsePayload {
            status: Some("ok".to_string()),
            summary: Some("a summary".to_string()),
            ..empty_payload()
        }),
    };
    assert!(matches!(
        session.handle_frame(&WsIncoming::Response(completed)),
        ProcessResult::Done
    ));
    assert_eq!(session.content.text, "streamed");
}

#[test]
fn test_completed_response_takes_summary() {
    let mut session = OpenClawSession::new();
    let completed = ResponseFrame {
        ok: true,
        error: None,
        payload: Some(ResponsePayload {
            status: Some("completed".to_string()),
            result_summary: Some("the answer".to_string()),
            ..empty_payload()
        }),
    };
    assert!(matches!(
        session.handle_frame(&WsIncoming::Response(completed)),
        ProcessResult::Done
    ));
    assert_eq!(session.content.text, "the answer");
}

#[test]
fn test_completed_response_concatenates_payload_texts() {
    let mut session = OpenClawSession::new();
    let completed = ResponseFrame {
        ok: true,
        error: None,
        payload: Some(ResponsePayload {
            status: Some("ok".to_string()),
            payload_texts: Some(vec!["part one, ".to_string(), "part two".to_string()]),
            ..empty_payload()
        }),
    };
    assert!(matches!(
        session.handle_frame(&WsIncoming::Response(completed)),
        ProcessResult::Done
    ));
    assert_eq!(session.content.text, "part one, part two");
}

#[test]
fn test_build_history_message_roles_and_trimming() {
    let messages = vec![
        message_from(EntityId::System, "be brief"),
        message_from(EntityId::User, "  hello there  "),
        message_from(EntityId::App, "an inline app note"),
        message_from(EntityId::Tool, "tool output"),
        message_from(
            EntityId::Bot(moly::bot_id::BotId::new("gpt", "open_ai")),
            "hi!",
        ),
        message_from(EntityId::User, "   "),
    ];
    let combined = OpenClawClient::build_history_message(&messages);
    assert_eq!(
        combined,
        "system: be brief\n\nuser: hello there\n\nassistant: hi!"
    );
}

#[test]
fn test_build_history_message_falls_back_to_last_user_text() {
    // Nothing at all to take: no history line, no user text.
    let messages = vec![
        message_from(EntityId::App, "note"),
        message_from(EntityId::User, ""),
        message_from(EntityId::Tool, "  tool noise  "),
    ];
    assert_eq!(OpenClawClient::build_history_message(&messages), "");

    // The only user text lies before the window, and the window itself
    // contributes no line, so the user text is taken verbatim, trimmed.
    let mut messages = vec![message_from(EntityId::User, "  the question  ")];
    for _ in 0..39 {
        messages.push(message_from(EntityId::Tool, "noise"));
    }
    assert_eq!(
        OpenClawClient::build_history_message(&messages),
        "the question"
    );

    // The fallback stops at the most recent user message: a blank one
    // shadows an older one with text.
    let mut messages = vec![
        message_from(EntityId::User, "older question"),
        message_from(EntityId::User, "   "),
    ];
    for _ in 0..38 {
        messages.push(message_from(EntityId::Tool, "noise"));
    }
    assert_eq!(OpenClawClient::build_history_message(&messages), "");
}

#[test]
fn test_build_history_message_window() {
    let mut messages = Vec::new();
    for i in 0..40 {
        messages.push(message_from(EntityId::User, &format!("m{}", i)));
    }
    let combined = OpenClawClient::build_history_message(&messages);
    // Only the most recent 32 messages contribute.
    assert!(combined.starts_with("user: m8\n\n"));
    assert!(combined.ends_with("user: m39"));
    assert!(!combined.contains("m7"));
}
