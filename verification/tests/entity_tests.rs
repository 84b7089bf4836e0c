use moly::entity::{Bot, BotCapabilities, BotCapability, EntityAvatar, EntityId};
use moly::bot_id::BotId;
use moly::message::{Attachment, Message, MessageContent, Timestamp, Upgrade};
use moly::tool::{Tool, ToolCallPermissionStatus, ToolResult};

#[test]
fn test_capabilities_add_and_query() {
    let mut caps = BotCapabilities::new();
    assert!(!caps.supports_realtime());
    assert!(!caps.supports_attachments());
    assert!(!caps.supports_function_calling());

    caps.add_capability(BotCapability::Realtime);
    caps.add_capability(BotCapability::Realtime);
    caps.add_capability(BotCapability::FunctionCalling);

    assert!(caps.supports_realtime());
    assert!(!caps.supports_attachments());
    assert!(caps.supports_function_calling());
    assert!(caps.has_capability(&BotCapability::Realtime));
    assert_eq!(caps.iter().len(), 2);
}

#[test]
fn test_capabilities_builder_and_equality() {
    let a = BotCapabilities::new()
        .with_capability(BotCapability::Attachments)
        .with_capability(BotCapability::Realtime);
    let b = BotCapabilities::new()
        .with_capability(BotCapability::Realtime)
        .with_capability(BotCapability::Attachments);
    // Equality is over the set, not the order of addition.
    assert_eq!(a, b);

    let c = BotCapabilities::new().with_capability(BotCapability::Realtime);
    assert_ne!(a, c);
    assert_eq!(a.clone(), a);
}

#[test]
fn test_avatar_from_first_grapheme() {
    assert_eq!(
        EntityAvatar::from_first_grapheme("ab"),
        Some(EntityAvatar::Text("a".to_string()))
    );
    assert_eq!(EntityAvatar::from_first_grapheme(""), None);
    // A combining sequence stays one grapheme.
    assert_eq!(
        EntityAvatar::from_first_grapheme("e\u{301}tude"),
        Some(EntityAvatar::Text("e\u{301}".to_string()))
    );
}

#[test]
fn test_message_content_is_empty() {
    let mut content = MessageContent::default();
    assert!(content.is_empty());

    content.text = "hi".to_string();
    assert!(!content.is_empty());

    let mut content = MessageContent::default();
    content.attachments.push(Attachment {
        name: "file.txt".to_string(),
        data: None,
    });
    assert!(!content.is_empty());

    let mut content = MessageContent::default();
    content.tool_results.push(ToolResult {
        tool_call_id: "1".to_string(),
        content: "out".to_string(),
        is_error: false,
    });
    assert!(!content.is_empty());

    let mut content = MessageContent::default();
    content.upgrade = Some(Upgrade::Realtime);
    assert!(!content.is_empty());
}

#[test]
fn test_app_error_message() {
    let m = Message::app_error("it broke");
    assert_eq!(m.from, EntityId::App);
    assert_eq!(m.content.text, "Error: it broke");
    assert!(m.content.citations.is_empty());
}

#[test]
fn test_set_content_stamps_changed_parts_only() {
    let mut m = Message::default();
    let before = m.metadata;

    let unchanged = m.content.clone();
    m.set_content(unchanged);
    assert_eq!(m.metadata.text_updated_at, before.text_updated_at);
    assert_eq!(m.metadata.reasoning_updated_at, before.reasoning_updated_at);

    let mut content = m.content.clone();
    content.text = "new".to_string();
    m.set_content(content);
    assert_eq!(m.metadata.reasoning_updated_at, before.reasoning_updated_at);
    assert_eq!(m.content.text, "new");
}

#[test]
fn test_set_content_at_stamps_with_the_given_clock() {
    let mut m = Message::default();
    let created = m.metadata.created_at;

    let mut content = m.content.clone();
    content.text = "new".to_string();
    let now = Timestamp { millis: 777 };
    m.set_content_at(content, now);
    assert_eq!(m.metadata.text_updated_at, now);
    // Reasoning did not change, so its timestamp is kept.
    assert_ne!(m.metadata.reasoning_updated_at, now);
    assert_eq!(m.metadata.created_at, created);
}

#[test]
fn test_update_content_applies_function() {
    let mut m = Message::default();
    m.update_content(|mut c| {
        c.text = "written".to_string();
        c
    });
    assert_eq!(m.content.text, "written");
}

#[test]
fn test_tool_new() {
    let tool = Tool::new("browse".to_string(), Some("opens pages".to_string()));
    assert_eq!(tool.name, "browse");
    assert_eq!(tool.description.as_deref(), Some("opens pages"));
    assert_eq!(
        ToolCallPermissionStatus::default(),
        ToolCallPermissionStatus::Pending
    );
}

#[test]
fn test_bot_equality() {
    let a = Bot {
        id: BotId::new("m", "p"),
        name: "M".to_string(),
        avatar: EntityAvatar::Text("M".to_string()),
        capabilities: BotCapabilities::new(),
    };
    let b = a.clone();
    assert_eq!(a, b);
}
