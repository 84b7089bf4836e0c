//! Messages of a conversation: their content, their sender, and the
//! metadata tracked for them.

use vstd::prelude::*;

use crate::entity::EntityId;
use crate::tool::{ToolCall, ToolResult};

verus! {

/// A point in time, counted in milliseconds since the Unix epoch.
#[derive(Clone, Copy, Debug, PartialEq, Eq, Hash, Structural)]
pub struct Timestamp {
    pub millis: i64,
}

/// Relies on chrono's `Utc::now`: the current time, in milliseconds since
/// the Unix epoch. Nothing is promised of the value. Note that `Utc::now`
/// itself aborts if the system clock reads before the Unix epoch; no input
/// of this crate reaches that, but the system can.
#[verifier::external_body]
fn now_millis() -> (r: i64) {
    chrono::Utc::now().timestamp_millis()
}

impl Timestamp {
    /// The Unix epoch itself.
    pub fn epoch() -> (r: Self)
        ensures
            r.millis == 0,
    {
        Timestamp { millis: 0 }
    }

    /// The current time. Nothing is known of the value.
    pub fn now() -> Self {
        Timestamp { millis: now_millis() }
    }
}

/// The mathematical content of an [`Attachment`].
pub ghost struct AttachmentView {
    pub name: Seq<char>,
    pub data: Option<Seq<u8>>,
}

/// A file carried inside message content.
#[derive(Debug, Hash)]
pub struct Attachment {
    /// The file name the attachment goes by.
    pub name: String,
    /// The raw content, when it is loaded in memory.
    pub data: Option<Vec<u8>>,
}

impl View for Attachment {
    type V = AttachmentView;

    open spec fn view(&self) -> AttachmentView {
        AttachmentView {
            name: self.name@,
            data: match self.data {
                Some(d) => Some(d@),
                None => None,
            },
        }
    }
}

impl Clone for Attachment {
    /// The clone carries the same name and content.
    fn clone(&self) -> (r: Self)
        ensures
            r@ == self@,
    {
        let data = match &self.data {
            Some(d) => Some(clone_bytes(d)),
            None => None,
        };
        Attachment { name: self.name.clone(), data }
    }
}

/// Copies a byte list.
fn clone_bytes(bytes: &Vec<u8>) -> (r: Vec<u8>)
    ensures
        r@ == bytes@,
{
    let mut r: Vec<u8> = Vec::new();
    let mut k: usize = 0;
    while k < bytes.len()
        invariant
            k <= bytes@.len(),
            r@ == bytes@.take(k as int),
        decreases bytes@.len() - k,
    {
        r.push(bytes[k]);
        proof {
            assert(r@ =~= bytes@.take(k + 1));
        }
        k = k + 1;
    }
    proof {
        assert(bytes@.take(bytes@.len() as int) =~= bytes@);
    }
    r
}

/// Compares two optional byte lists.
fn bytes_opt_eq(a: &Option<Vec<u8>>, b: &Option<Vec<u8>>) -> (r: bool)
    ensures
        r == (match (a, b) {
            (Some(x), Some(y)) => x@ == y@,
            (None, None) => true,
            _ => false,
        }),
{
    match (a, b) {
        (Some(x), Some(y)) => bytes_eq(x, y),
        (None, None) => true,
        _ => false,
    }
}

/// Compares two byte lists.
fn bytes_eq(x: &Vec<u8>, y: &Vec<u8>) -> (r: bool)
    ensures
        r == (x@ == y@),
{
    if x.len() != y.len() {
        return false;
    }
    let mut k: usize = 0;
    while k < x.len()
        invariant
            k <= x@.len(),
            x@.len() == y@.len(),
            forall|i: int| 0 <= i < k ==> x@[i] == y@[i],
        decreases x@.len() - k,
    {
        if x[k] != y[k] {
            return false;
        }
        k = k + 1;
    }
    proof {
        assert(x@ =~= y@);
    }
    true
}

impl PartialEq for Attachment {
    /// Two attachments are equal when they carry the same name and content.
    fn eq(&self, other: &Self) -> (r: bool) {
        crate::text::str_eq(self.name.as_str(), other.name.as_str()) && bytes_opt_eq(
            &self.data,
            &other.data,
        )
    }
}

impl vstd::std_specs::cmp::PartialEqSpecImpl for Attachment {
    open spec fn obeys_eq_spec() -> bool {
        true
    }

    open spec fn eq_spec(&self, other: &Self) -> bool {
        self@ == other@
    }
}

impl Eq for Attachment {}

/// An upgrade of the conversation to an enhanced communication mode.
///
/// The transport handles carrying the upgraded session live outside this
/// crate; content only records that the upgrade happened.
#[derive(Clone, Copy, Debug, PartialEq, Eq, Structural)]
pub enum Upgrade {
    /// Realtime audio/voice communication.
    Realtime,
}

/// The mathematical content of a [`MessageContent`].
pub ghost struct MessageContentView {
    pub text: Seq<char>,
    pub citations: Seq<Seq<char>>,
    pub reasoning: Seq<char>,
    pub attachments: Seq<Attachment>,
    pub tool_calls: Seq<ToolCall>,
    pub tool_results: Seq<ToolResult>,
    pub data: Option<Seq<char>>,
    pub upgrade: Option<Upgrade>,
}

impl MessageContentView {
    /// Whether the content holds no data at all.
    pub open spec fn is_empty(self) -> bool {
        &&& self.text.len() == 0
        &&& self.citations.len() == 0
        &&& self.data is None
        &&& self.reasoning.len() == 0
        &&& self.attachments.len() == 0
        &&& self.tool_calls.len() == 0
        &&& self.tool_results.len() == 0
        &&& self.upgrade is None
    }
}

/// Standard message content format.
#[derive(Clone, Debug, PartialEq)]
pub struct MessageContent {
    /// The main body of this message, normally in some document format such
    /// as markdown.
    pub text: String,
    /// Citations/sources (urls) associated with this message.
    pub citations: Vec<String>,
    /// The reasoning/thinking content of this message.
    pub reasoning: String,
    /// File attachments in this content.
    pub attachments: Vec<Attachment>,
    /// Tool calls made by the AI, for assistant messages.
    pub tool_calls: Vec<ToolCall>,
    /// Tool call results, for tool messages.
    pub tool_results: Vec<ToolResult>,
    /// Non-standard data carried by this message, for tracking purposes or
    /// to represent unsupported content.
    pub data: Option<String>,
    /// Optional upgrade to realtime communication.
    pub upgrade: Option<Upgrade>,
}

impl View for MessageContent {
    type V = MessageContentView;

    open spec fn view(&self) -> MessageContentView {
        MessageContentView {
            text: self.text@,
            citations: self.citations@.map_values(|s: String| s@),
            reasoning: self.reasoning@,
            attachments: self.attachments@,
            tool_calls: self.tool_calls@,
            tool_results: self.tool_results@,
            data: match self.data {
                Some(s) => Some(s@),
                None => None,
            },
            upgrade: self.upgrade,
        }
    }
}

impl Default for MessageContent {
    /// Content with nothing in it.
    fn default() -> (r: Self)
        ensures
            r@.is_empty(),
    {
        let r = MessageContent {
            text: String::new(),
            citations: Vec::new(),
            reasoning: String::new(),
            attachments: Vec::new(),
            tool_calls: Vec::new(),
            tool_results: Vec::new(),
            data: None,
            upgrade: None,
        };
        proof {
            assert(r@.citations =~= Seq::<Seq<char>>::empty());
        }
        r
    }
}

impl MessageContent {
    /// Checks if the content is absolutely empty: it contains no data at
    /// all.
    pub fn is_empty(&self) -> (r: bool)
        ensures
            r == self@.is_empty(),
    {
        self.text.as_str().is_empty() && self.citations.is_empty() && self.data.is_none()
            && self.reasoning.as_str().is_empty() && self.attachments.is_empty()
            && self.tool_calls.is_empty() && self.tool_results.is_empty()
            && self.upgrade.is_none()
    }
}

/// Metadata automatically tracked for each message: timestamps of creation
/// and modification, and the transient writing flag.
#[derive(Clone, Copy, Debug, PartialEq, Eq, Structural)]
pub struct MessageMetadata {
    /// Runtime flag indicating that the message is still incomplete: it is
    /// being written. Transient, excluded from persistence.
    pub is_writing: bool,
    /// When the message got created.
    pub created_at: Timestamp,
    /// Last time the reasoning/thinking content was updated.
    pub reasoning_updated_at: Timestamp,
    /// Last time the main text was updated.
    pub text_updated_at: Timestamp,
}

impl Default for MessageMetadata {
    /// Fresh metadata: not writing, with all timestamps set to the same
    /// current time.
    fn default() -> (r: Self)
        ensures
            !r.is_writing,
            r.created_at == r.reasoning_updated_at,
            r.created_at == r.text_updated_at,
    {
        let now = Timestamp::now();
        MessageMetadata {
            is_writing: false,
            created_at: now,
            reasoning_updated_at: now,
            text_updated_at: now,
        }
    }
}

impl MessageMetadata {
    /// Same behavior as [`MessageMetadata::default`].
    pub fn new() -> (r: Self)
        ensures
            !r.is_writing,
            r.created_at == r.reasoning_updated_at,
            r.created_at == r.text_updated_at,
    {
        MessageMetadata::default()
    }

    /// Metadata with all fields set to default but timestamps set to the
    /// epoch.
    pub fn epoch() -> (r: Self)
        ensures
            !r.is_writing,
            r.created_at.millis == 0,
            r.reasoning_updated_at.millis == 0,
            r.text_updated_at.millis == 0,
    {
        MessageMetadata {
            is_writing: false,
            created_at: Timestamp::epoch(),
            reasoning_updated_at: Timestamp::epoch(),
            text_updated_at: Timestamp::epoch(),
        }
    }

    /// Whether the message is done being written.
    pub fn is_idle(&self) -> (r: bool)
        ensures
            r == !self.is_writing,
    {
        !self.is_writing
    }

    /// Whether the message is still being written.
    pub fn is_writing(&self) -> (r: bool)
        ensures
            r == self.is_writing,
    {
        self.is_writing
    }
}

/// Whether `after`'s modification timestamps follow from `before`'s with
/// the clock at `now`: each is stamped with `now` exactly when its part of
/// the content changed, and kept otherwise.
pub open spec fn stamped_with(before: Message, after: Message, now: Timestamp) -> bool {
    &&& after.metadata.text_updated_at == (if after.content.text@ == before.content.text@ {
        before.metadata.text_updated_at
    } else {
        now
    })
    &&& after.metadata.reasoning_updated_at == (if after.content.reasoning@
        == before.content.reasoning@ {
        before.metadata.reasoning_updated_at
    } else {
        now
    })
}

/// A message that is part of a conversation.
#[derive(Clone, Debug, PartialEq)]
pub struct Message {
    /// The id of who sent this message.
    pub from: EntityId,
    /// Auto-generated metadata for this message.
    pub metadata: MessageMetadata,
    /// The parsed content of this message, ready to present.
    pub content: MessageContent,
}

impl Default for Message {
    /// An empty message from the app itself.
    fn default() -> (r: Self)
        ensures
            r.from == EntityId::App,
            r.content@.is_empty(),
            !r.metadata.is_writing,
    {
        Message {
            from: EntityId::App,
            metadata: MessageMetadata::default(),
            content: MessageContent::default(),
        }
    }
}

impl Message {
    /// Shorthand for constructing an app error message around the given
    /// rendered error.
    pub fn app_error(error: &str) -> (r: Self)
        ensures
            r.from == EntityId::App,
            r.content@.text == "Error: "@ + error@,
            r.content@.citations.len() == 0,
            r.content@.reasoning.len() == 0,
            r.content@.attachments.len() == 0,
            r.content@.tool_calls.len() == 0,
            r.content@.tool_results.len() == 0,
            r.content@.data is None,
            r.content@.upgrade is None,
    {
        let mut text = String::from_str("Error: ");
        text.append(error);
        let mut content = MessageContent::default();
        content.text = text;
        Message { from: EntityId::App, metadata: MessageMetadata::default(), content }
    }

    /// Set the content of a message as a whole, treating `now` as the
    /// current time: a modification timestamp is stamped with `now` exactly
    /// when its part of the content changed.
    pub fn set_content_at(&mut self, content: MessageContent, now: Timestamp)
        ensures
            final(self).content == content,
            final(self).from == old(self).from,
            final(self).metadata.created_at == old(self).metadata.created_at,
            final(self).metadata.is_writing == old(self).metadata.is_writing,
            stamped_with(*old(self), *final(self), now),
    {
        let text_changed = !self.content.text.eq(&content.text);
        let reasoning_changed = !self.content.reasoning.eq(&content.reasoning);
        self.content = content;
        if text_changed {
            self.metadata.text_updated_at = now;
        }
        if reasoning_changed {
            self.metadata.reasoning_updated_at = now;
        }
    }

    /// Set the content of a message as a whole. The modification timestamps
    /// are stamped with the clock value of this call exactly for the parts
    /// that changed.
    pub fn set_content(&mut self, content: MessageContent)
        ensures
            final(self).content == content,
            final(self).from == old(self).from,
            final(self).metadata.created_at == old(self).metadata.created_at,
            final(self).metadata.is_writing == old(self).metadata.is_writing,
            exists|now: Timestamp| #[trigger] stamped_with(*old(self), *final(self), now),
    {
        let now = Timestamp::now();
        self.set_content_at(content, now);
    }

    /// Update the content of a message through the given function, treating
    /// `now` as the current time: a modification timestamp is stamped with
    /// `now` exactly when its part of the content changed.
    pub fn update_content_at<F: FnOnce(MessageContent) -> MessageContent>(
        &mut self,
        f: F,
        now: Timestamp,
    )
        requires
            f.requires((old(self).content,)),
        ensures
            f.ensures((old(self).content,), final(self).content),
            final(self).from == old(self).from,
            final(self).metadata.created_at == old(self).metadata.created_at,
            final(self).metadata.is_writing == old(self).metadata.is_writing,
            stamped_with(*old(self), *final(self), now),
    {
        let mut taken = MessageContent::default();
        core::mem::swap(&mut self.content, &mut taken);
        let old_text = taken.text.clone();
        let old_reasoning = taken.reasoning.clone();
        self.content = f(taken);
        if !self.content.text.eq(&old_text) {
            self.metadata.text_updated_at = now;
        }
        if !self.content.reasoning.eq(&old_reasoning) {
            self.metadata.reasoning_updated_at = now;
        }
    }

    /// Update the content of a message through the given function. The
    /// modification timestamps are stamped with the clock value of this
    /// call exactly for the parts that changed.
    pub fn update_content<F: FnOnce(MessageContent) -> MessageContent>(&mut self, f: F)
        requires
            f.requires((old(self).content,)),
        ensures
            f.ensures((old(self).content,), final(self).content),
            final(self).from == old(self).from,
            final(self).metadata.created_at == old(self).metadata.created_at,
            final(self).metadata.is_writing == old(self).metadata.is_writing,
            exists|now: Timestamp| #[trigger] stamped_with(*old(self), *final(self), now),
    {
        let now = Timestamp::now();
        self.update_content_at(f, now);
    }
}

} // verus!
