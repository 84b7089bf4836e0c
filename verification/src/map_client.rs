//! A client wrapper that transforms the bot list of the client it wraps.

use vstd::prelude::*;

use crate::client::BotClient;
use crate::entity::Bot;
use crate::bot_id::BotId;
use crate::message::{Message, MessageContent};
use crate::result::{ClientResult, ClientResultView};
use crate::tool::Tool;

verus! {

/// A pure transform over a bot list, total by construction: it can be
/// applied to any list.
pub struct Transform<F: Fn(Vec<Bot>) -> Vec<Bot>> {
    f: F,
}

impl<F: Fn(Vec<Bot>) -> Vec<Bot>> Transform<F> {
    /// The held function can be applied to any bot list.
    #[verifier::type_invariant]
    spec fn wf(self) -> bool {
        forall|v: Vec<Bot>| self.f.requires((v,))
    }

    /// The held function.
    pub closed spec fn func(self) -> F {
        self.f
    }

    /// Wraps a transform, which must accept any bot list.
    pub fn new(f: F) -> (r: Self)
        requires
            forall|v: Vec<Bot>| f.requires((v,)),
        ensures
            r.func() == f,
    {
        Transform { f }
    }

    /// Applies the transform to one bot list.
    pub fn apply(&self, bots: Vec<Bot>) -> (r: Vec<Bot>)
        ensures
            self.func().ensures((bots,), r),
    {
        proof {
            use_type_invariant(self);
        }
        (self.f)(bots)
    }
}

/// How a transformed enumeration result relates to the result it was made
/// from: the value run through the transform, the errors kept verbatim.
pub open spec fn transformed_from<F: Fn(Vec<Bot>) -> Vec<Bot>>(
    f: F,
    inner: ClientResultView<Vec<Bot>>,
    r: ClientResultView<Vec<Bot>>,
) -> bool {
    &&& r.errors == inner.errors
    &&& (inner.value is None ==> r.value is None)
    &&& (inner.value matches Some(v) ==> r.value matches Some(w) && f.ensures((v,), w))
}

/// Applies a transform to the value of a bot enumeration result, keeping
/// its errors.
pub fn transform_result<F: Fn(Vec<Bot>) -> Vec<Bot>>(
    result: ClientResult<Vec<Bot>>,
    transform: &Transform<F>,
) -> (r: ClientResult<Vec<Bot>>)
    ensures
        transformed_from(transform.func(), result@, r@),
{
    let (value, errors) = result.into_value_and_errors();
    let value = match value {
        Some(bots) => Some(transform.apply(bots)),
        None => None,
    };
    ClientResult::new_unchecked(value, errors)
}

/// Applies a caller-supplied pure transform to whatever the inner client's
/// bot enumeration returns (filtering by capability or name, rewriting
/// avatars, and so on), without touching how turns are sent.
///
/// The transform runs after every enumeration call, never cached, so callers
/// see filtering reflect runtime provider state. A `MapClient` implements
/// the same contract as the client it wraps, so composition is closed: it
/// can wrap, or be registered into, any other client.
pub struct MapClient<C: BotClient, F: Fn(Vec<Bot>) -> Vec<Bot>> {
    inner: C,
    transform: Transform<F>,
}

impl<C: BotClient, F: Fn(Vec<Bot>) -> Vec<Bot>> MapClient<C, F> {
    /// The transform the wrapper applies.
    pub closed spec fn transform_func(self) -> F {
        self.transform.func()
    }

    /// Wraps one client with a transform for its bot list.
    ///
    /// The transform must accept any bot list.
    pub fn new(inner: C, transform: F) -> Self
        requires
            forall|v: Vec<Bot>| transform.requires((v,)),
    {
        MapClient { inner, transform: Transform::new(transform) }
    }
}

impl<C: BotClient, F: Fn(Vec<Bot>) -> Vec<Bot> + Copy> BotClient for MapClient<C, F> {
    /// The inner client's bots, transformed; the inner client's errors,
    /// untouched.
    fn bots(&mut self) -> (r: ClientResult<Vec<Bot>>)
        ensures
            exists|inner: ClientResultView<Vec<Bot>>| #[trigger] transformed_from(
                old(self).transform_func(),
                inner,
                r@,
            ),
    {
        let inner_result = self.inner.bots();
        let ghost inner_view = inner_result@;
        let r = transform_result(inner_result, &self.transform);
        proof {
            assert(transformed_from(old(self).transform_func(), inner_view, r@));
        }
        r
    }

    /// Forwarded to the wrapped client as-is.
    fn send(
        &mut self,
        bot_id: &BotId,
        messages: &Vec<Message>,
        tools: &Vec<Tool>,
    ) -> Vec<ClientResult<MessageContent>> {
        self.inner.send(bot_id, messages, tools)
    }

    fn clone_client(&self) -> Self {
        proof {
            use_type_invariant(&self.transform);
        }
        MapClient {
            inner: self.inner.clone_client(),
            transform: Transform::new(self.transform.func_copy()),
        }
    }
}

impl<F: Fn(Vec<Bot>) -> Vec<Bot> + Copy> Transform<F> {
    /// A copy of the held function.
    pub fn func_copy(&self) -> (r: F)
        ensures
            r == self.func(),
    {
        self.f
    }
}

} // verus!
