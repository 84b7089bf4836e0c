//! The entities recognized in a chat: who speaks, what a bot is, and what a
//! bot can do.

use unicode_segmentation::UnicodeSegmentation;
use vstd::prelude::*;

use crate::bot_id::BotId;

verus! {

/// The picture/avatar of an entity, represented in one of several ways.
#[derive(Clone, Debug, PartialEq)]
pub enum EntityAvatar {
    /// Normally, one or two graphemes representing the entity.
    Text(String),
    /// An image located at the given path/URL.
    Image(String),
}

/// The first extended grapheme cluster of a string.
pub uninterp spec fn first_grapheme_of(s: Seq<char>) -> Seq<char>;

/// Relies on unicode_segmentation's `UnicodeSegmentation::graphemes`: the
/// clusters partition the string, so the first one exists exactly when the
/// string is non-empty, and is then a non-empty prefix of it, determined by
/// the characters alone.
#[verifier::external_body]
fn first_grapheme(text: &str) -> (r: Option<String>)
    ensures
        r is Some <==> text@.len() > 0,
        r matches Some(g) ==> {
            &&& g@ == first_grapheme_of(text@)
            &&& g@.len() > 0
            &&& g@.is_prefix_of(text@)
        },
{
    text.graphemes(true).next().map(|g| g.to_string())
}

impl EntityAvatar {
    /// Utility to construct an [`EntityAvatar::Text`] from the first
    /// grapheme of the given text, extracted using unicode segmentation.
    pub fn from_first_grapheme(text: &str) -> (r: Option<Self>)
        ensures
            r is Some <==> text@.len() > 0,
            r matches Some(a) ==> a matches EntityAvatar::Text(g) && g@ == first_grapheme_of(
                text@,
            ),
    {
        match first_grapheme(text) {
            Some(g) => Some(EntityAvatar::Text(g)),
            None => None,
        }
    }
}

/// Identifies the entities that may take part in a chat.
#[derive(Clone, PartialEq, Eq, Hash, Debug, Default)]
pub enum EntityId {
    /// The user operating the app.
    User,
    /// The `system`/`developer` role many backends expect in the chat
    /// context to customize the chat experience and behavior.
    System,
    /// A bot: an automated assistant of any kind (model, agent, and so on).
    Bot(BotId),
    /// Tool execution results and tool-related system messages.
    Tool,
    /// The app itself, normally for app-specific information such as inline
    /// errors. Not meant to be sent as part of a conversation to bots.
    #[default]
    App,
}

/// One capability a bot may support.
#[derive(Clone, Copy, Debug, PartialEq, Eq, Hash, Structural)]
pub enum BotCapability {
    /// The bot supports realtime audio communication.
    Realtime,
    /// The bot supports image/file attachments.
    Attachments,
    /// The bot supports function calling.
    FunctionCalling,
}

/// The set of capabilities a bot supports.
///
/// Never mutated after construction except through explicit addition.
#[derive(Debug)]
pub struct BotCapabilities {
    capabilities: Vec<BotCapability>,
}

impl View for BotCapabilities {
    type V = Set<BotCapability>;

    closed spec fn view(&self) -> Set<BotCapability> {
        self.capabilities@.to_set()
    }
}

impl Clone for BotCapabilities {
    /// The clone supports the same capabilities.
    fn clone(&self) -> (r: Self)
        ensures
            r@ == self@,
    {
        let mut capabilities: Vec<BotCapability> = Vec::new();
        let mut k: usize = 0;
        while k < self.capabilities.len()
            invariant
                k <= self.capabilities@.len(),
                capabilities@ == self.capabilities@.take(k as int),
            decreases self.capabilities@.len() - k,
        {
            capabilities.push(self.capabilities[k]);
            proof {
                assert(capabilities@ =~= self.capabilities@.take(k + 1));
            }
            k = k + 1;
        }
        proof {
            assert(self.capabilities@.take(self.capabilities@.len() as int) =~= self.capabilities@);
        }
        BotCapabilities { capabilities }
    }
}

impl Default for BotCapabilities {
    /// The default set of capabilities is empty.
    fn default() -> (r: Self)
        ensures
            r@ == Set::<BotCapability>::empty(),
    {
        BotCapabilities::new()
    }
}

impl BotCapabilities {
    /// An empty set of capabilities.
    pub fn new() -> (r: Self)
        ensures
            r@ == Set::<BotCapability>::empty(),
    {
        let r = BotCapabilities { capabilities: Vec::new() };
        proof {
            assert(r@ =~= Set::<BotCapability>::empty());
        }
        r
    }

    /// This set with one more capability.
    pub fn with_capability(self, capability: BotCapability) -> (r: Self)
        ensures
            r@ == self@.insert(capability),
    {
        let mut r = self;
        r.add_capability(capability);
        r
    }

    /// Adds one capability to the set.
    pub fn add_capability(&mut self, capability: BotCapability)
        ensures
            final(self)@ == old(self)@.insert(capability),
    {
        if !self.has_capability(&capability) {
            self.capabilities.push(capability);
            proof {
                assert(self.capabilities@.drop_last() == old(self).capabilities@);
                assert forall|c: BotCapability| self.capabilities@.contains(c) <==> (old(
                    self,
                ).capabilities@.contains(c) || c == capability) by {
                    if self.capabilities@.contains(c) {
                        let i = choose|i: int|
                            0 <= i < self.capabilities@.len() && self.capabilities@[i] == c;
                        if i < self.capabilities@.len() - 1 {
                            assert(old(self).capabilities@[i] == c);
                        }
                    }
                    if old(self).capabilities@.contains(c) {
                        let i = choose|i: int|
                            0 <= i < old(self).capabilities@.len() && old(self).capabilities@[i]
                                == c;
                        assert(self.capabilities@[i] == c);
                    }
                    if c == capability {
                        assert(self.capabilities@.last() == c);
                    }
                }
                assert(self@ =~= old(self)@.insert(capability));
            }
        } else {
            proof {
                assert(self@ =~= old(self)@.insert(capability));
            }
        }
    }

    /// Whether the set holds the given capability.
    pub fn has_capability(&self, capability: &BotCapability) -> (r: bool)
        ensures
            r == self@.contains(*capability),
    {
        let mut k: usize = 0;
        while k < self.capabilities.len()
            invariant
                k <= self.capabilities@.len(),
                forall|i: int| 0 <= i < k ==> self.capabilities@[i] != *capability,
            decreases self.capabilities@.len() - k,
        {
            if self.capabilities[k] == *capability {
                assert(self.capabilities@.contains(*capability));
                return true;
            }
            k = k + 1;
        }
        proof {
            if self.capabilities@.contains(*capability) {
                let i = choose|i: int|
                    0 <= i < self.capabilities@.len() && self.capabilities@[i] == *capability;
                assert(false);
            }
        }
        false
    }

    /// Whether the bot supports realtime audio communication.
    pub fn supports_realtime(&self) -> (r: bool)
        ensures
            r == self@.contains(BotCapability::Realtime),
    {
        self.has_capability(&BotCapability::Realtime)
    }

    /// Whether the bot supports attachments.
    pub fn supports_attachments(&self) -> (r: bool)
        ensures
            r == self@.contains(BotCapability::Attachments),
    {
        self.has_capability(&BotCapability::Attachments)
    }

    /// Whether the bot supports function calling.
    pub fn supports_function_calling(&self) -> (r: bool)
        ensures
            r == self@.contains(BotCapability::FunctionCalling),
    {
        self.has_capability(&BotCapability::FunctionCalling)
    }

    /// The capabilities of the set, as a list without duplicates.
    pub fn iter(&self) -> (r: Vec<BotCapability>)
        ensures
            r@.to_set() == self@,
    {
        let r = self.clone();
        r.capabilities
    }
}

impl PartialEq for BotCapabilities {
    /// Two capability sets are equal when they hold the same capabilities,
    /// in whatever order they were added.
    fn eq(&self, other: &Self) -> (r: bool) {
        let mine = self.iter();
        let theirs = other.iter();
        let mut k: usize = 0;
        while k < mine.len()
            invariant
                k <= mine@.len(),
                mine@.to_set() == self@,
                theirs@.to_set() == other@,
                forall|i: int| 0 <= i < k ==> other@.contains(#[trigger] mine@[i]),
            decreases mine@.len() - k,
        {
            if !other.has_capability(&mine[k]) {
                proof {
                    assert(mine@.contains(mine@[k as int]));
                    assert(self@.contains(mine@[k as int]));
                }
                return false;
            }
            k = k + 1;
        }
        let mut j: usize = 0;
        while j < theirs.len()
            invariant
                j <= theirs@.len(),
                mine@.to_set() == self@,
                theirs@.to_set() == other@,
                forall|i: int| 0 <= i < mine@.len() ==> other@.contains(#[trigger] mine@[i]),
                forall|i: int| 0 <= i < j ==> self@.contains(#[trigger] theirs@[i]),
            decreases theirs@.len() - j,
        {
            if !self.has_capability(&theirs[j]) {
                proof {
                    assert(theirs@.contains(theirs@[j as int]));
                    assert(other@.contains(theirs@[j as int]));
                }
                return false;
            }
            j = j + 1;
        }
        proof {
            assert forall|c: BotCapability| self@.contains(c) <==> other@.contains(c) by {
                if self@.contains(c) {
                    let i = choose|i: int| 0 <= i < mine@.len() && mine@[i] == c;
                }
                if other@.contains(c) {
                    let i = choose|i: int| 0 <= i < theirs@.len() && theirs@[i] == c;
                }
            }
            assert(self@ =~= other@);
        }
        true
    }
}

impl vstd::std_specs::cmp::PartialEqSpecImpl for BotCapabilities {
    open spec fn obeys_eq_spec() -> bool {
        true
    }

    open spec fn eq_spec(&self, other: &Self) -> bool {
        self@ == other@
    }
}

/// The mathematical content of a [`Bot`].
pub ghost struct BotView {
    pub id: crate::bot_id::BotIdView,
    pub name: Seq<char>,
    pub avatar: EntityAvatar,
    pub capabilities: Set<BotCapability>,
}

/// One addressable AI backend endpoint: a model, an agent, or a tool-backed
/// assistant.
#[derive(Clone, Debug, PartialEq)]
pub struct Bot {
    /// Unique identifier for the bot across all providers.
    pub id: BotId,
    pub name: String,
    pub avatar: EntityAvatar,
    pub capabilities: BotCapabilities,
}

impl View for Bot {
    type V = BotView;

    open spec fn view(&self) -> BotView {
        BotView {
            id: self.id@,
            name: self.name@,
            avatar: self.avatar,
            capabilities: self.capabilities@,
        }
    }
}

} // verus!
