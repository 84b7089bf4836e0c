use moly::bot_id::BotId;
use moly::controller::{
    ChatController, ChatControllerPlugin, ChatState, ChatStateMutation,
};
use moly::message::{Message, MessageContent, MessageMetadata};
use moly::entity::EntityId;
use moly::mutation::VecMutation;

struct CountingPlugin {
    mutation_notifications: usize,
    ready_notifications: usize,
    last_seen_messages: usize,
    initialized: bool,
}

impl CountingPlugin {
    fn new() -> Self {
        CountingPlugin {
            mutation_notifications: 0,
            ready_notifications: 0,
            last_seen_messages: 0,
            initialized: false,
        }
    }
}

impl ChatControllerPlugin for CountingPlugin {
    fn on_state_mutation(&mut self, _mutations: &Vec<ChatStateMutation>, state: &ChatState) {
        self.mutation_notifications += 1;
        self.last_seen_messages = state.messages.len();
    }

    fn on_state_ready(&mut self, state: &ChatState, _recent: &Vec<ChatStateMutation>) {
        self.ready_notifications += 1;
        // One-time initialization, guarded by an idempotence flag.
        if !self.initialized && !state.bots.is_empty() {
            self.initialized = true;
        }
    }
}

fn user_message(text: &str) -> Message {
    Message {
        from: EntityId::User,
        metadata: MessageMetadata::epoch(),
        content: MessageContent {
            text: text.to_string(),
            ..MessageContent::default()
        },
    }
}

#[test]
fn test_batch_dispatch_notifies_once() {
    let mut controller: ChatController<CountingPlugin> = ChatController::new();
    let registration = controller.append_plugin(CountingPlugin::new());

    let m = user_message("hello");
    let mut m_prime = m.clone();
    m_prime.content.text = "hello, edited".to_string();

    let batch = vec![
        ChatStateMutation::MutateMessages(VecMutation::Insert(0, vec![m])),
        ChatStateMutation::MutateMessages(VecMutation::Update(0, m_prime.clone())),
    ];
    controller.dispatch_mutations(batch);

    assert_eq!(controller.state().messages, vec![m_prime]);

    let plugin = controller.remove_plugin(registration).expect("plugin must still be registered");
    assert_eq!(plugin.mutation_notifications, 1);
    assert_eq!(plugin.ready_notifications, 1);
    assert_eq!(plugin.last_seen_messages, 1);
}

#[test]
fn test_single_dispatches_notify_each() {
    let mut controller: ChatController<CountingPlugin> = ChatController::new();
    let registration = controller.append_plugin(CountingPlugin::new());

    controller.dispatch_mutation(ChatStateMutation::MutateMessages(VecMutation::Insert(
        0,
        vec![user_message("one")],
    )));
    controller.dispatch_mutation(ChatStateMutation::MutateMessages(VecMutation::Insert(
        1,
        vec![user_message("two")],
    )));

    assert_eq!(controller.state().messages.len(), 2);
    assert_eq!(controller.state().messages[0].content.text, "one");
    assert_eq!(controller.state().messages[1].content.text, "two");

    let plugin = controller.remove_plugin(registration).expect("plugin must still be registered");
    assert_eq!(plugin.mutation_notifications, 2);
}

#[test]
fn test_auxiliary_state_mutations() {
    let mut controller: ChatController<CountingPlugin> = ChatController::new();

    let bot_id = BotId::new("gpt", "open_ai");
    controller.dispatch_mutation(ChatStateMutation::SetBotId(Some(bot_id.clone())));
    assert_eq!(controller.state().bot_id, Some(bot_id));

    controller.dispatch_mutation(ChatStateMutation::SetIsStreaming(true));
    assert!(controller.state().is_streaming);

    controller.dispatch_mutation(ChatStateMutation::SetBotId(None));
    assert_eq!(controller.state().bot_id, None);
}

#[test]
fn test_removed_plugin_hears_nothing() {
    let mut controller: ChatController<CountingPlugin> = ChatController::new();
    let first = controller.append_plugin(CountingPlugin::new());
    let second = controller.append_plugin(CountingPlugin::new());

    let removed = controller.remove_plugin(first).expect("first plugin registered");
    assert_eq!(removed.mutation_notifications, 0);

    controller.dispatch_mutation(ChatStateMutation::SetIsStreaming(true));

    let kept = controller.remove_plugin(second).expect("second plugin registered");
    assert_eq!(kept.mutation_notifications, 1);
}
