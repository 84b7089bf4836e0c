//! The central controller of a conversation.
//!
//! It owns the canonical message sequence and its auxiliary state (current
//! bot selection, streaming flag, bot roster) and propagates every change to
//! registered observers. A change is dispatched as one mutation or as a
//! batch; observers see one notification per dispatch, never an intermediate
//! state of a batch, and notifications fire in dispatch order.

use vstd::prelude::*;

use crate::bot_id::BotId;
use crate::entity::Bot;
use crate::message::Message;
use crate::mutation::{
    apply_mutation, apply_rel, lemma_apply_rel_cloned, seq_cloned, VecMutation,
};

verus! {

/// Everything a conversation controller holds: the canonical message
/// sequence, the roster of known bots, the selected bot and the streaming
/// flag.
#[derive(Clone, Debug, PartialEq)]
pub struct ChatState {
    /// The canonical, ordered message history.
    pub messages: Vec<Message>,
    /// The bots known to the controller.
    pub bots: Vec<Bot>,
    /// The currently selected bot, if any.
    pub bot_id: Option<BotId>,
    /// Whether a response is currently being streamed in.
    pub is_streaming: bool,
}

/// The mathematical content of a [`ChatState`].
pub ghost struct ChatStateView {
    pub messages: Seq<Message>,
    pub bots: Seq<Bot>,
    pub bot_id: Option<BotId>,
    pub is_streaming: bool,
}

impl View for ChatState {
    type V = ChatStateView;

    open spec fn view(&self) -> ChatStateView {
        ChatStateView {
            messages: self.messages@,
            bots: self.bots@,
            bot_id: self.bot_id,
            is_streaming: self.is_streaming,
        }
    }
}

impl ChatState {
    /// A fresh conversation: no messages, no bots, nothing selected, not
    /// streaming.
    pub fn new() -> (r: Self)
        ensures
            r@.messages.len() == 0,
            r@.bots.len() == 0,
            r@.bot_id is None,
            !r@.is_streaming,
    {
        ChatState { messages: Vec::new(), bots: Vec::new(), bot_id: None, is_streaming: false }
    }
}

/// One edit of the controller state.
#[derive(Clone, Debug, PartialEq)]
pub enum ChatStateMutation {
    /// Edit the canonical message sequence.
    MutateMessages(VecMutation<Message>),
    /// Select a bot, or clear the selection.
    SetBotId(Option<BotId>),
    /// Replace the roster of known bots.
    SetBots(Vec<Bot>),
    /// Flag or unflag an in-flight streamed response.
    SetIsStreaming(bool),
}

/// The state one mutation leads to.
pub open spec fn apply_chat_mutation(m: ChatStateMutation, s: ChatStateView) -> ChatStateView {
    match m {
        ChatStateMutation::MutateMessages(vm) => ChatStateView {
            messages: apply_mutation(vm, s.messages),
            ..s
        },
        ChatStateMutation::SetBotId(bot_id) => ChatStateView { bot_id, ..s },
        ChatStateMutation::SetBots(bots) => ChatStateView { bots: bots@, ..s },
        ChatStateMutation::SetIsStreaming(is_streaming) => ChatStateView { is_streaming, ..s },
    }
}

/// The state a batch of mutations leads to, applied in order.
pub open spec fn apply_chat_mutations(ms: Seq<ChatStateMutation>, s: ChatStateView) -> ChatStateView
    decreases ms.len(),
{
    if ms.len() == 0 {
        s
    } else {
        apply_chat_mutation(ms.last(), apply_chat_mutations(ms.drop_last(), s))
    }
}

/// Whether `actual` is `expected` up to cloning: every item of the message
/// sequence and of the roster is a clone of the expected item, the selected
/// bot carries the same components, and the streaming flag is the same.
pub open spec fn chat_state_cloned(expected: ChatStateView, actual: ChatStateView) -> bool {
    &&& seq_cloned(expected.messages, actual.messages)
    &&& seq_cloned(expected.bots, actual.bots)
    &&& (expected.bot_id is Some <==> actual.bot_id is Some)
    &&& (expected.bot_id matches Some(b) ==> actual.bot_id matches Some(b2) && b2@ == b@)
    &&& expected.is_streaming == actual.is_streaming
}

/// An observer of the controller: it is handed every dispatched batch of
/// mutations together with the state the batch led to, and is told when the
/// state may have stabilized.
///
/// Observers replicate conversation changes to external stores and drive
/// side effects without coupling the controller to them. An observer that
/// wants one-time initialization out of `on_state_ready` guards it with its
/// own idempotence flag, since the hook fires after every dispatch.
pub trait ChatControllerPlugin {
    /// Fired once per dispatch, after the whole batch was applied, with the
    /// state the batch led to. A batch is indivisible: no notification ever
    /// shows a state between its mutations.
    fn on_state_mutation(&mut self, mutations: &Vec<ChatStateMutation>, state: &ChatState);

    /// Fired after `on_state_mutation`, with the current state and the
    /// mutations dispatched most recently.
    fn on_state_ready(&mut self, state: &ChatState, recent_mutations: &Vec<ChatStateMutation>);
}

/// Identifies one plugin registration, so it can be removed later.
#[derive(Clone, Copy, Debug, PartialEq, Eq, Hash, Structural)]
pub struct ChatControllerPluginRegistrationId {
    id: u64,
}

struct PluginEntry<P> {
    id: u64,
    plugin: P,
}

/// Owns the canonical conversation state and notifies its plugins of every
/// change, in dispatch order.
pub struct ChatController<P: ChatControllerPlugin> {
    state: ChatState,
    plugins: Vec<PluginEntry<P>>,
    next_plugin_id: u64,
}

impl<P: ChatControllerPlugin> View for ChatController<P> {
    type V = ChatStateView;

    closed spec fn view(&self) -> ChatStateView {
        self.state@
    }
}

impl<P: ChatControllerPlugin> ChatController<P> {
    /// A controller over a fresh conversation, with no plugins yet.
    pub fn new() -> (r: Self)
        ensures
            r@.messages.len() == 0,
            r@.bots.len() == 0,
            r@.bot_id is None,
            !r@.is_streaming,
    {
        ChatController { state: ChatState::new(), plugins: Vec::new(), next_plugin_id: 0 }
    }

    /// The current state.
    pub fn state(&self) -> (r: &ChatState)
        ensures
            r@ == self@,
    {
        &self.state
    }

    /// Registers one more plugin, notified after those registered before it.
    /// The state is untouched.
    pub fn append_plugin(&mut self, plugin: P) -> (r: ChatControllerPluginRegistrationId)
        ensures
            final(self)@ == old(self)@,
    {
        let id = self.next_plugin_id;
        self.next_plugin_id = self.next_plugin_id.wrapping_add(1);
        self.plugins.push(PluginEntry { id, plugin });
        ChatControllerPluginRegistrationId { id }
    }

    /// Unregisters the plugin registered under the given id, handing it
    /// back. The state is untouched.
    pub fn remove_plugin(&mut self, registration: ChatControllerPluginRegistrationId) -> (r:
        Option<P>)
        ensures
            final(self)@ == old(self)@,
    {
        let mut i: usize = 0;
        while i < self.plugins.len()
            invariant
                self.state == old(self).state,
                self.plugins@ == old(self).plugins@,
                self.next_plugin_id == old(self).next_plugin_id,
            decreases self.plugins@.len() - i,
        {
            if self.plugins[i].id == registration.id {
                let entry = self.plugins.remove(i);
                return Some(entry.plugin);
            }
            i = i + 1;
        }
        None
    }

    /// Applies one mutation and notifies every plugin once.
    pub fn dispatch_mutation(&mut self, mutation: ChatStateMutation)
        ensures
            chat_state_cloned(apply_chat_mutation(mutation, old(self)@), final(self)@),
    {
        let batch = vec![mutation];
        let ghost bs = batch@;
        self.dispatch_mutations(batch);
        proof {
            assert(bs.drop_last() =~= Seq::<ChatStateMutation>::empty());
            assert(apply_chat_mutations(bs.drop_last(), old(self)@) == old(self)@);
            assert(bs.last() == mutation);
        }
    }

    /// Applies a batch of mutations, in order and atomically with respect to
    /// observers: every plugin is notified exactly once, with the state the
    /// whole batch led to.
    pub fn dispatch_mutations(&mut self, mutations: Vec<ChatStateMutation>)
        ensures
            chat_state_cloned(apply_chat_mutations(mutations@, old(self)@), final(self)@),
    {
        let ghost ms = mutations@;
        let n = mutations.len();
        let mut k: usize = 0;
        while k < n
            invariant
                n == ms.len(),
                k <= n,
                mutations@ == ms,
                self.plugins@ == old(self).plugins@,
                self.next_plugin_id == old(self).next_plugin_id,
                chat_state_cloned(apply_chat_mutations(ms.take(k as int), old(self)@), self@),
            decreases n - k,
        {
            let ghost before = self.state@;
            apply_one(&mut self.state, &mutations[k]);
            proof {
                assert(ms.take(k + 1).drop_last() =~= ms.take(k as int));
                assert(ms.take(k + 1).last() == ms[k as int]);
                lemma_chat_step(
                    ms[k as int],
                    apply_chat_mutations(ms.take(k as int), old(self)@),
                    before,
                    self.state@,
                );
            }
            k = k + 1;
        }
        proof {
            assert(ms.take(n as int) =~= ms);
        }
        let mut i: usize = 0;
        while i < self.plugins.len()
            invariant
                chat_state_cloned(apply_chat_mutations(ms, old(self)@), self@),
            decreases self.plugins@.len() - i,
        {
            self.plugins[i].plugin.on_state_mutation(&mutations, &self.state);
            i = i + 1;
        }
        let mut j: usize = 0;
        while j < self.plugins.len()
            invariant
                chat_state_cloned(apply_chat_mutations(ms, old(self)@), self@),
            decreases self.plugins@.len() - j,
        {
            self.plugins[j].plugin.on_state_ready(&self.state, &mutations);
            j = j + 1;
        }
    }
}

/// Applies one state mutation in place, cloning only what the mutation
/// carries.
fn apply_one(state: &mut ChatState, m: &ChatStateMutation)
    ensures
        chat_step_rel(*m, old(state)@, final(state)@),
{
    match m {
        ChatStateMutation::MutateMessages(vm) => {
            vm.apply(&mut state.messages);
        }
        ChatStateMutation::SetBotId(bot_id) => {
            state.bot_id = match bot_id {
                Some(b) => Some(b.clone()),
                None => None,
            };
        }
        ChatStateMutation::SetBots(bots) => {
            state.bots = crate::mutation::clone_items(bots);
        }
        ChatStateMutation::SetIsStreaming(is_streaming) => {
            state.is_streaming = *is_streaming;
        }
    }
}

/// How the state after one mutation relates to the state before: untouched
/// parts are kept exactly, and what the mutation carried in is cloned.
pub open spec fn chat_step_rel(
    m: ChatStateMutation,
    s: ChatStateView,
    r: ChatStateView,
) -> bool {
    match m {
        ChatStateMutation::MutateMessages(vm) => {
            &&& apply_rel(vm, s.messages, r.messages)
            &&& r.bots == s.bots
            &&& r.bot_id == s.bot_id
            &&& r.is_streaming == s.is_streaming
        },
        ChatStateMutation::SetBotId(bot_id) => {
            &&& r.messages == s.messages
            &&& r.bots == s.bots
            &&& (r.bot_id is Some <==> bot_id is Some)
            &&& (bot_id matches Some(b) ==> r.bot_id matches Some(b2) && b2@ == b@)
            &&& r.is_streaming == s.is_streaming
        },
        ChatStateMutation::SetBots(bots) => {
            &&& r.messages == s.messages
            &&& seq_cloned(bots@, r.bots)
            &&& r.bot_id == s.bot_id
            &&& r.is_streaming == s.is_streaming
        },
        ChatStateMutation::SetIsStreaming(is_streaming) => {
            &&& r.messages == s.messages
            &&& r.bots == s.bots
            &&& r.bot_id == s.bot_id
            &&& r.is_streaming == is_streaming
        },
    }
}

/// One exact step taken from a state that is a pointwise clone of the
/// expected one lands on a pointwise clone of the expected next state.
proof fn lemma_chat_step(
    m: ChatStateMutation,
    expected: ChatStateView,
    actual: ChatStateView,
    result: ChatStateView,
)
    requires
        chat_state_cloned(expected, actual),
        chat_step_rel(m, actual, result),
    ensures
        chat_state_cloned(apply_chat_mutation(m, expected), result),
{
    match m {
        ChatStateMutation::MutateMessages(vm) => {
            lemma_apply_rel_cloned(vm, expected.messages, actual.messages, result.messages);
        }
        ChatStateMutation::SetBotId(bot_id) => {}
        ChatStateMutation::SetBots(bots) => {}
        ChatStateMutation::SetIsStreaming(is_streaming) => {}
    }
}

} // verus!
