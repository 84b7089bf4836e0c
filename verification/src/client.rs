//! The polymorphic capability every backend implements.

use vstd::prelude::*;

use crate::entity::Bot;
use crate::bot_id::BotId;
use crate::message::{Message, MessageContent};
use crate::result::ClientResult;
use crate::tool::Tool;

verus! {

/// A standard interface to fetch bots information and send messages to them.
///
/// A backend implementation is expected never to fail loudly: bad networks,
/// malformed payloads and remote errors are reported through the
/// [`ClientResult`]s it hands back, classified by kind.
pub trait BotClient: Sized {
    /// Bots available under this client.
    fn bots(&mut self) -> ClientResult<Vec<Bot>>;

    /// Send a conversational turn to a bot, with support for streamed
    /// responses.
    ///
    /// The returned items are the successive snapshots of the full message
    /// as it was being built, in increasing completeness order: a consumer
    /// always replaces its previous view of the in-flight message with the
    /// latest item.
    fn send(
        &mut self,
        bot_id: &BotId,
        messages: &Vec<Message>,
        tools: &Vec<Tool>,
    ) -> Vec<ClientResult<MessageContent>>;

    /// An independent handle to the same underlying backend state, so the
    /// client can be moved across call sites cheaply.
    fn clone_client(&self) -> Self;
}

} // verus!
