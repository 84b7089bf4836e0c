use moly::attachments::{attachment_changes, modifies_first_message, sweep_attachments};
use moly::entity::EntityId;
use moly::message::{Attachment, Message, MessageContent, MessageMetadata};
use moly::mutation::VecMutation;

fn attachment(name: &str) -> Attachment {
    Attachment {
        name: name.to_string(),
        data: None,
    }
}

fn message_with(names: &[&str]) -> Message {
    Message {
        from: EntityId::User,
        metadata: MessageMetadata::epoch(),
        content: MessageContent {
            attachments: names.iter().map(|n| attachment(n)).collect(),
            ..MessageContent::default()
        },
    }
}

#[test]
fn test_insert_reports_new_attachments() {
    let base = vec![message_with(&[])];
    let mutation = VecMutation::Insert(1, vec![message_with(&["a.png", "b.png"])]);
    let (persist, delete) = attachment_changes(&mutation, &base);
    assert_eq!(persist, vec![attachment("a.png"), attachment("b.png")]);
    assert!(delete.is_empty());
}

#[test]
fn test_remove_reports_removed_attachments_only() {
    let base = vec![
        message_with(&["kept.png"]),
        message_with(&["gone.png"]),
        message_with(&["also-gone.png"]),
    ];
    let mutation: VecMutation<Message> = VecMutation::Remove(1, 3);
    let (persist, delete) = attachment_changes(&mutation, &base);
    assert!(persist.is_empty());
    assert_eq!(delete, vec![attachment("gone.png"), attachment("also-gone.png")]);
}

#[test]
fn test_update_reports_both_directions() {
    let base = vec![message_with(&["old.png", "shared.png", "old.png"])];
    let mutation = VecMutation::Update(0, message_with(&["shared.png", "new.png"]));
    let (persist, delete) = attachment_changes(&mutation, &base);
    // Only what each side does not carry, without duplicates.
    assert_eq!(persist, vec![attachment("new.png")]);
    assert_eq!(delete, vec![attachment("old.png")]);
}

#[test]
fn test_out_of_bounds_mutation_reports_nothing() {
    let base = vec![message_with(&["a.png"])];
    let mutation = VecMutation::Update(5, message_with(&["b.png"]));
    let (persist, delete) = attachment_changes(&mutation, &base);
    assert!(persist.is_empty());
    assert!(delete.is_empty());
}

#[test]
fn test_sweep_keeps_only_orphans() {
    let marked = vec![attachment("orphan.png"), attachment("still-used.png")];
    let messages = vec![message_with(&["still-used.png", "other.png"])];
    let swept = sweep_attachments(&marked, &messages);
    assert_eq!(swept, vec![attachment("orphan.png")]);
}

#[test]
fn test_modifies_first_message() {
    let base = vec![message_with(&[]), message_with(&[])];
    assert!(modifies_first_message(
        &VecMutation::Insert(0, vec![message_with(&[])]),
        &base
    ));
    assert!(modifies_first_message(
        &VecMutation::Update(0, message_with(&[])),
        &base
    ));
    assert!(!modifies_first_message(
        &VecMutation::Update(1, message_with(&[])),
        &base
    ));
    assert!(!modifies_first_message(&VecMutation::Remove(0, 1), &base));
    // A mutation that does not fit the history touches nothing.
    assert!(!modifies_first_message(
        &VecMutation::Insert(9, vec![message_with(&[])]),
        &base
    ));
}
