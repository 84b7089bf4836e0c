//! A client that routes to one of many registered clients by provider key.

use vstd::prelude::*;

use crate::bot_id::{encode_bot_id, BotId};
use crate::bot_id::BotIdView;
use crate::client::BotClient;
use crate::entity::{Bot, BotView};
use crate::message::{Message, MessageContent};
use crate::result::{errors_view, ClientError, ClientErrorKind, ClientErrorView, ClientResult};
use crate::result::ClientResultView;
use crate::text::str_eq;
use crate::tool::Tool;

verus! {

/// The character content of each key in a list.
pub open spec fn key_views(keys: Seq<String>) -> Seq<Seq<char>> {
    keys.map_values(|k: String| k@)
}

/// The views of each result in a list.
pub open spec fn result_views(results: Seq<ClientResult<Vec<Bot>>>) -> Seq<
    ClientResultView<Vec<Bot>>,
> {
    results.map_values(|cr: ClientResult<Vec<Bot>>| cr@)
}

/// The views of each bot in a list.
pub open spec fn bot_views(bots: Seq<Bot>) -> Seq<BotView> {
    bots.map_values(|b: Bot| b@)
}

/// A bot as it comes out of the routing layer: its id is re-encoded with the
/// routing key as the provider portion, everything else untouched.
pub open spec fn prefixed_bot(key: Seq<char>, b: BotView) -> BotView {
    BotView {
        id: BotIdView { local: encode_bot_id(b.id.local, b.id.provider), provider: key },
        ..b
    }
}

/// A list of bots, each tagged with the given routing key.
pub open spec fn prefixed_bots(key: Seq<char>, bots: Seq<Bot>) -> Seq<BotView> {
    bots.map_values(|b: Bot| prefixed_bot(key, b@))
}

/// The routing table a list of keys and clients stands for: the client
/// registered last under a key serves it.
pub open spec fn assoc_map<C>(keys: Seq<Seq<char>>, clients: Seq<C>) -> Map<Seq<char>, C>
    decreases keys.len(),
{
    if keys.len() == 0 || keys.len() != clients.len() {
        Map::empty()
    } else {
        assoc_map(keys.drop_last(), clients.drop_last()).insert(keys.last(), clients.last())
    }
}

/// All the errors the registered clients reported, in registration order.
pub open spec fn aggregate_errors(results: Seq<ClientResultView<Vec<Bot>>>) -> Seq<ClientErrorView>
    decreases results.len(),
{
    if results.len() == 0 {
        Seq::empty()
    } else {
        aggregate_errors(results.drop_last()) + results.last().errors
    }
}

/// All the bots the registered clients enumerated, in registration order,
/// each tagged with its client's routing key.
pub open spec fn aggregate_bots(
    keys: Seq<Seq<char>>,
    results: Seq<ClientResultView<Vec<Bot>>>,
) -> Seq<BotView>
    decreases results.len(),
{
    if results.len() == 0 || keys.len() != results.len() {
        Seq::empty()
    } else {
        aggregate_bots(keys.drop_last(), results.drop_last()) + (
        match results.last().value {
            Some(bots) => bots@.map_values(
                |b: Bot| prefixed_bot(keys.last(), b@),
            ),
            None => Seq::empty(),
        })
    }
}

/// Whether any registered client produced a value at all.
pub open spec fn any_value(results: Seq<ClientResultView<Vec<Bot>>>) -> bool {
    exists|i: int| 0 <= i < results.len() && (#[trigger] results[i].value) is Some
}

/// How an aggregate enumeration result relates to the per-client results it
/// was merged from: the bots of every client that produced some, tagged
/// with its key; the errors of every client that reported any; a value
/// exactly unless every client failed.
pub open spec fn aggregate_result_matches(
    keys: Seq<Seq<char>>,
    results: Seq<ClientResultView<Vec<Bot>>>,
    r: ClientResultView<Vec<Bot>>,
) -> bool {
    let bots = aggregate_bots(keys, results);
    let errors = aggregate_errors(results);
    &&& errors.len() == 0 ==> r.errors.len() == 0 && (r.value matches Some(v) && bot_views(v@)
        == bots)
    &&& errors.len() > 0 ==> r.errors == errors
    &&& errors.len() > 0 && any_value(results) ==> (r.value matches Some(v) && bot_views(v@)
        == bots)
    &&& errors.len() > 0 && !any_value(results) ==> r.value is None
}

/// Merges the per-client enumeration results of a routing layer into one
/// aggregate result: the bots of every client that produced some, each
/// tagged with its client's key, next to the errors of every client that
/// reported any. Individual failures degrade the aggregate to a partial
/// success; only when no client produced a value is the aggregate a plain
/// failure.
pub fn aggregate_bots_results(keys: &Vec<String>, results: Vec<ClientResult<Vec<Bot>>>) -> (r:
    ClientResult<Vec<Bot>>)
    requires
        keys@.len() == results@.len(),
    ensures
        aggregate_result_matches(key_views(keys@), result_views(results@), r@),
{
    let ghost kv = key_views(keys@);
    let ghost rv = result_views(results@);
    let mut results = results;
    let mut bots: Vec<Bot> = Vec::new();
    let mut errors: Vec<ClientError> = Vec::new();
    let mut saw_value = false;
    let mut i: usize = 0;
    let n = keys.len();
    while i < n
        invariant
            n == kv.len(),
            kv.len() == rv.len(),
            i <= n,
            key_views(keys@) == kv,
            result_views(results@) == rv.skip(i as int),
            bot_views(bots@) == aggregate_bots(kv.take(i as int), rv.take(i as int)),
            errors_view(errors@) == aggregate_errors(rv.take(i as int)),
            saw_value == any_value(rv.take(i as int)),
        decreases n - i,
    {
        let ghost prev_bots = bots@;
        let ghost prev_errors = errors@;
        let ghost prev_results = results@;
        proof {
            assert(result_views(results@).len() == results@.len());
            assert(rv.skip(i as int).len() == rv.len() - i);
        }
        let result = results.remove(0);
        proof {
            assert(result_views(prev_results)[0] == rv.skip(i as int)[0]);
            assert(rv.skip(i as int)[0] == rv[i as int]);
            assert(result@ == rv[i as int]);
            assert forall|w: int| 0 <= w < results@.len() implies result_views(results@)[w]
                == rv.skip(i + 1)[w] by {
                assert(results@[w] == prev_results[w + 1]);
                assert(result_views(prev_results)[w + 1] == rv.skip(i as int)[w + 1]);
            }
            assert(result_views(results@) =~= rv.skip(i + 1));
            assert(kv.take(i + 1).drop_last() =~= kv.take(i as int));
            assert(rv.take(i + 1).drop_last() =~= rv.take(i as int));
            assert(rv.take(i + 1).last() == rv[i as int]);
        }
        let (value, mut errs) = result.into_value_and_errors();
        match value {
            Some(mut client_bots) => {
                saw_value = true;
                let ghost v0 = client_bots;
                let ghost cb = client_bots@;
                proof {
                    assert(rv[i as int].value == Some(v0));
                }
                let mut j: usize = 0;
                let m = client_bots.len();
                while j < m
                    invariant
                        m == cb.len(),
                        j <= m,
                        i < kv.len(),
                        client_bots@ == cb.skip(j as int),
                        bot_views(bots@) == bot_views(prev_bots) + prefixed_bots(
                            kv[i as int],
                            cb.take(j as int),
                        ),
                        key_views(keys@) == kv,
                    decreases m - j,
                {
                    proof {
                        assert(cb.skip(j as int).len() == cb.len() - j);
                    }
                    let bot = client_bots.remove(0);
                    proof {
                        assert(cb.skip(j as int)[0] == cb[j as int]);
                        assert(bot == cb[j as int]);
                        assert(client_bots@ =~= cb.skip(j + 1));
                    }
                    let new_id = BotId::new(bot.id.as_str(), keys[i].as_str());
                    let tagged = Bot {
                        id: new_id,
                        name: bot.name,
                        avatar: bot.avatar,
                        capabilities: bot.capabilities,
                    };
                    proof {
                        assert(tagged@ == prefixed_bot(kv[i as int], cb[j as int]@));
                    }
                    let ghost bots_before = bots@;
                    bots.push(tagged);
                    proof {
                        assert(prefixed_bots(kv[i as int], cb.take(j + 1)) =~= prefixed_bots(
                            kv[i as int],
                            cb.take(j as int),
                        ).push(prefixed_bot(kv[i as int], cb[j as int]@))) by {
                            assert(forall|w: int| 0 <= w <= j ==> cb.take(j + 1)[w] == #[trigger] cb[w]);
                        }
                        assert(bot_views(bots@) =~= bot_views(bots_before).push(tagged@)) by {
                            assert(forall|w: int| 0 <= w < bots_before.len() ==> bots@[w]
                                == #[trigger] bots_before[w]);
                        }
                        assert(bot_views(bots@) =~= bot_views(prev_bots) + prefixed_bots(
                            kv[i as int],
                            cb.take(j + 1),
                        ));
                    }
                    j = j + 1;
                }
                proof {
                    assert(cb.take(cb.len() as int) =~= cb);
                    assert(rv.take(i + 1).last().value == Some(v0));
                    assert(aggregate_bots(kv.take(i + 1), rv.take(i + 1)) =~= aggregate_bots(
                        kv.take(i as int),
                        rv.take(i as int),
                    ) + prefixed_bots(kv[i as int], cb));
                    assert(bot_views(bots@) == aggregate_bots(kv.take(i + 1), rv.take(i + 1)));
                }
            }
            None => {
                proof {
                    assert(aggregate_bots(kv.take(i + 1), rv.take(i + 1)) =~= aggregate_bots(
                        kv.take(i as int),
                        rv.take(i as int),
                    ));
                }
            }
        }
        errors.append(&mut errs);
        proof {
            assert(errors_view(errors@) =~= errors_view(prev_errors) + rv[i as int].errors);
            if any_value(rv.take(i + 1)) && !(rv[i as int].value is Some) && !any_value(
                rv.take(i as int),
            ) {
                let w = choose|w: int|
                    0 <= w < i + 1 && (#[trigger] rv.take(i + 1)[w].value) is Some;
                assert(rv.take(i as int)[w].value is Some);
            }
            if rv[i as int].value is Some {
                assert(rv.take(i + 1)[i as int].value is Some);
            }
        }
        i = i + 1;
    }
    proof {
        assert(kv.take(n as int) =~= kv);
        assert(rv.take(n as int) =~= rv);
    }
    if errors.is_empty() {
        ClientResult::new_ok(bots)
    } else if saw_value {
        ClientResult::new_ok_and_err(bots, errors)
    } else {
        ClientResult::new_err(errors)
    }
}

/// Routes by provider key to one of many registered clients.
///
/// Enumerating bots fans out to every registered client and merges the
/// results with [`aggregate_bots_results`], tagging each bot id with its
/// client's key as a namespace. Sending decodes that key back out of the bot
/// id, synchronously, before any transport work.
pub struct MultiClient<C: BotClient> {
    keys: Vec<String>,
    clients: Vec<C>,
}

impl<C: BotClient> MultiClient<C> {
    /// One key per client, no key repeated. Holds of every value built
    /// through [`MultiClient::new`] and kept up by
    /// [`MultiClient::insert_client`].
    pub closed spec fn wf(self) -> bool {
        &&& self.keys@.len() == self.clients@.len()
        &&& key_views(self.keys@).no_duplicates()
    }

    /// The routing table: which client serves each provider key.
    pub closed spec fn routes(self) -> Map<Seq<char>, C> {
        assoc_map(key_views(self.keys@), self.clients@)
    }

    /// The registered routing keys, in registration order.
    pub closed spec fn route_keys(self) -> Seq<Seq<char>> {
        key_views(self.keys@)
    }

    /// A routing layer with no clients registered yet.
    pub fn new() -> (r: Self)
        ensures
            r.wf(),
            r.routes() == Map::<Seq<char>, C>::empty(),
    {
        let r = MultiClient { keys: Vec::new(), clients: Vec::new() };
        proof {
            assert(key_views(r.keys@) =~= Seq::<Seq<char>>::empty());
        }
        r
    }

    /// Registers a client under a routing key, replacing any client
    /// registered under that key before.
    pub fn insert_client(&mut self, key: &str, client: C)
        requires
            old(self).wf(),
        ensures
            final(self).wf(),
            final(self).routes() == old(self).routes().insert(key@, client),
    {
        let ghost kv = key_views(self.keys@);
        let n = self.keys.len();
        let mut i: usize = 0;
        while i < n
            invariant
                n == kv.len(),
                i <= n,
                key_views(self.keys@) == kv,
                self.keys@ == old(self).keys@,
                self.clients@ == old(self).clients@,
                old(self).wf(),
                forall|m: int| 0 <= m < i ==> kv[m] != key@,
            decreases n - i,
        {
            if str_eq(self.keys[i].as_str(), key) {
                proof {
                    assert(kv.len() == self.clients@.len());
                }
                self.clients.set(i, client);
                proof {
                    assert(key_views(self.keys@) =~= kv);
                    lemma_assoc_update(kv, old(self).clients@, i as int, client);
                    assert(kv[i as int] == key@);
                }
                return;
            }
            i = i + 1;
        }
        self.keys.push(key.to_owned());
        self.clients.push(client);
        proof {
            let kv2 = key_views(self.keys@);
            assert(kv2.drop_last() =~= kv);
            assert(kv2.last() == key@);
            assert(self.clients@.drop_last() =~= old(self).clients@);
            assert(self.clients@.last() == client);
            if !kv2.no_duplicates() {
                let (a, b) = choose|a: int, b: int|
                    0 <= a < kv2.len() && 0 <= b < kv2.len() && a != b && kv2[a] == kv2[b];
                if a < b {
                    assert(b == kv2.len() - 1 || a == kv2.len() - 1 || kv[a] != kv[b]);
                    if b == kv2.len() - 1 {
                        assert(kv[a] == key@);
                    } else {
                        assert(kv[a] == kv[b]);
                    }
                } else {
                    assert(kv2[b] == kv2[a]);
                    if a == kv2.len() - 1 {
                        assert(kv[b] == key@);
                    } else {
                        assert(kv[b] == kv[a]);
                    }
                }
            }
        }
    }

    /// Enumerates the bots of every registered client and merges the
    /// results: every client's bots tagged with its key, every client's
    /// errors folded into the aggregate, partial success first-class.
    pub fn bots(&mut self) -> (r: ClientResult<Vec<Bot>>)
        requires
            old(self).wf(),
        ensures
            r@.value is Some || r@.errors.len() > 0,
            r@.errors.len() == 0 ==> r@.value is Some,
            exists|per_client: Seq<ClientResultView<Vec<Bot>>>|
                per_client.len() == old(self).route_keys().len()
                    && #[trigger] aggregate_result_matches(
                    old(self).route_keys(),
                    per_client,
                    r@,
                ),
    {
        let mut results: Vec<ClientResult<Vec<Bot>>> = Vec::new();
        let n = self.clients.len();
        let mut i: usize = 0;
        while i < n
            invariant
                n == self.clients@.len(),
                self.keys@ == old(self).keys@,
                self.keys@.len() == n,
                i <= n,
                results@.len() == i,
            decreases n - i,
        {
            let result = self.clients[i].bots();
            results.push(result);
            i = i + 1;
        }
        let ghost per_client = result_views(results@);
        let r = aggregate_bots_results(&self.keys, results);
        proof {
            assert(per_client.len() == old(self).route_keys().len());
            assert(aggregate_result_matches(old(self).route_keys(), per_client, r@));
            if aggregate_errors(per_client).len() == 0 {
            } else {
            }
        }
        r
    }

    /// Routes one conversational turn to the client registered under the
    /// provider key carried inside `bot_id`, handing it the un-prefixed bot
    /// id. When no client matches, or the id's local portion is not itself
    /// an encoded bot id, a `Response` error is reported synchronously,
    /// before any transport work.
    pub fn send(&mut self, bot_id: &BotId, messages: &Vec<Message>, tools: &Vec<Tool>) -> (r: Vec<
        ClientResult<MessageContent>,
    >)
        requires
            old(self).wf(),
        ensures
            !old(self).routes().dom().contains(bot_id@.provider) ==> r@.len() == 1
                && is_routing_error(r@[0]@),
            (forall|local: Seq<char>, provider: Seq<char>|
                bot_id@.local != encode_bot_id(local, provider)) ==> r@.len() == 1
                && is_routing_error(r@[0]@),
    {
        let ghost kv = key_views(self.keys@);
        let inner_id = match BotId::from_encoded(bot_id.id()) {
            Some(id) => id,
            None => {
                return vec![routing_error(bot_id)];
            },
        };
        let n = self.keys.len();
        let mut i: usize = 0;
        while i < n
            invariant
                n == kv.len(),
                kv.len() == self.clients@.len(),
                i <= n,
                key_views(self.keys@) == kv,
                self.keys@ == old(self).keys@,
                self.clients@ == old(self).clients@,
                bot_id@.local == encode_bot_id(inner_id@.local, inner_id@.provider),
                forall|m: int| 0 <= m < i ==> kv[m] != bot_id@.provider,
            decreases n - i,
        {
            if str_eq(self.keys[i].as_str(), bot_id.provider()) {
                proof {
                    lemma_assoc_dom(kv, old(self).clients@);
                    assert(kv[i as int] == bot_id@.provider);
                    assert(old(self).routes().dom().contains(bot_id@.provider));
                }
                return self.clients[i].send(&inner_id, messages, tools);
            }
            i = i + 1;
        }
        proof {
            lemma_assoc_dom(kv, old(self).clients@);
            if old(self).routes().dom().contains(bot_id@.provider) {
                let w = choose|w: int| 0 <= w < kv.len() && kv[w] == bot_id@.provider;
            }
        }
        vec![routing_error(bot_id)]
    }

    /// Whether the registration lists are well formed, decided at runtime:
    /// one key per client, no key repeated.
    fn is_wf(&self) -> (r: bool)
        ensures
            r == self.wf(),
    {
        let ghost kv = key_views(self.keys@);
        if self.keys.len() != self.clients.len() {
            return false;
        }
        let n = self.keys.len();
        let mut i: usize = 0;
        while i < n
            invariant
                n == kv.len(),
                i <= n,
                key_views(self.keys@) == kv,
                self.keys@.len() == self.clients@.len(),
                forall|a: int, b: int| 0 <= a < b < kv.len() && a < i ==> kv[a] != kv[b],
            decreases n - i,
        {
            let mut j: usize = i + 1;
            while j < n
                invariant
                    i < j <= n,
                    n == kv.len(),
                    key_views(self.keys@) == kv,
                    self.keys@.len() == self.clients@.len(),
                    forall|b: int| i < b < j ==> kv[i as int] != kv[b],
                decreases n - j,
            {
                if str_eq(self.keys[i].as_str(), self.keys[j].as_str()) {
                    proof {
                        assert(kv[i as int] == kv[j as int]);
                    }
                    return false;
                }
                j = j + 1;
            }
            i = i + 1;
        }
        proof {
            if !kv.no_duplicates() {
                let (a, b) = choose|a: int, b: int|
                    0 <= a < kv.len() && 0 <= b < kv.len() && a != b && kv[a] == kv[b];
                if a < b {
                    assert(kv[a] != kv[b]);
                } else {
                    assert(kv[b] != kv[a]);
                }
            }
        }
        true
    }
}

impl<C: BotClient> BotClient for MultiClient<C> {
    /// The aggregate enumeration of every registered client. A value whose
    /// registration lists are malformed, which no constructor of this type
    /// produces, reports one substitute error instead.
    fn bots(&mut self) -> (r: ClientResult<Vec<Bot>>)
        ensures
            r@.value is Some || r@.errors.len() > 0,
            old(self).wf() ==> (r@.errors.len() == 0 ==> r@.value is Some),
            old(self).wf() ==> exists|per_client: Seq<ClientResultView<Vec<Bot>>>|
                per_client.len() == old(self).route_keys().len()
                    && #[trigger] aggregate_result_matches(
                    old(self).route_keys(),
                    per_client,
                    r@,
                ),
    {
        if self.is_wf() {
            MultiClient::bots(self)
        } else {
            ClientResult::new_err(Vec::new())
        }
    }

    /// Routed to the client registered under the provider key inside
    /// `bot_id`, as [`MultiClient::send`] does.
    fn send(
        &mut self,
        bot_id: &BotId,
        messages: &Vec<Message>,
        tools: &Vec<Tool>,
    ) -> Vec<ClientResult<MessageContent>> {
        if self.is_wf() {
            MultiClient::send(self, bot_id, messages, tools)
        } else {
            vec![routing_error(bot_id)]
        }
    }

    fn clone_client(&self) -> Self {
        let mut clients: Vec<C> = Vec::new();
        let mut i: usize = 0;
        while i < self.clients.len()
            decreases self.clients@.len() - i,
        {
            clients.push(self.clients[i].clone_client());
            i = i + 1;
        }
        MultiClient { keys: self.keys.clone(), clients }
    }
}

/// Whether a result reports exactly one `Response`-kind error and no value,
/// as the routing layer does when it cannot forward a turn.
pub open spec fn is_routing_error(r: ClientResultView<MessageContent>) -> bool {
    &&& r.value is None
    &&& r.errors.len() == 1
    &&& r.errors[0].kind == ClientErrorKind::Response
}

/// The error reported when no registered client can serve a bot id.
fn routing_error(bot_id: &BotId) -> (r: ClientResult<MessageContent>)
    ensures
        is_routing_error(r@),
{
    let mut message = String::from_str("Unknown provider: ");
    message.append(bot_id.provider());
    ClientResult::new_err(vec![ClientError::new(ClientErrorKind::Response, message)])
}

/// In a table without repeated keys, replacing the client at one key's
/// position is inserting at that key.
proof fn lemma_assoc_update<C>(keys: Seq<Seq<char>>, clients: Seq<C>, i: int, client: C)
    requires
        keys.len() == clients.len(),
        keys.no_duplicates(),
        0 <= i < keys.len(),
    ensures
        assoc_map(keys, clients.update(i, client)) == assoc_map(keys, clients).insert(
            keys[i],
            client,
        ),
    decreases keys.len(),
{
    let updated = clients.update(i, client);
    if i == keys.len() - 1 {
        assert(updated.drop_last() =~= clients.drop_last());
        assert(updated.last() == client);
        assert(assoc_map(keys, updated) =~= assoc_map(keys, clients).insert(keys[i], client));
    } else {
        assert(updated.drop_last() =~= clients.drop_last().update(i, client));
        assert(updated.last() == clients.last());
        assert(keys.drop_last().no_duplicates()) by {
            assert(forall|a: int, b: int|
                0 <= a < keys.len() - 1 && 0 <= b < keys.len() - 1 && a != b ==> keys.drop_last()[a]
                    != keys.drop_last()[b]);
        }
        lemma_assoc_update(keys.drop_last(), clients.drop_last(), i, client);
        assert(keys.drop_last()[i] == keys[i]);
        assert(keys[i] != keys.last());
        assert(assoc_map(keys, updated) =~= assoc_map(keys, clients).insert(keys[i], client));
    }
}

/// The routing table's domain is exactly the key list.
proof fn lemma_assoc_dom<C>(keys: Seq<Seq<char>>, clients: Seq<C>)
    requires
        keys.len() == clients.len(),
    ensures
        forall|key: Seq<char>|
            #[trigger] assoc_map(keys, clients).dom().contains(key) <==> exists|w: int|
                0 <= w < keys.len() && keys[w] == key,
    decreases keys.len(),
{
    if keys.len() > 0 {
        lemma_assoc_dom(keys.drop_last(), clients.drop_last());
        assert forall|key: Seq<char>|
            #[trigger] assoc_map(keys, clients).dom().contains(key) implies exists|w: int|
            0 <= w < keys.len() && keys[w] == key by {
            if key == keys.last() {
                assert(keys[keys.len() - 1] == key);
            } else {
                assert(assoc_map(keys.drop_last(), clients.drop_last()).dom().contains(key));
                let w = choose|w: int|
                    0 <= w < keys.drop_last().len() && keys.drop_last()[w] == key;
                assert(keys[w] == key);
            }
        }
        assert forall|key: Seq<char>|
            (exists|w: int| 0 <= w < keys.len() && keys[w] == key) implies #[trigger] assoc_map(
            keys,
            clients,
        ).dom().contains(key) by {
            let w = choose|w: int| 0 <= w < keys.len() && keys[w] == key;
            if w < keys.len() - 1 {
                assert(keys.drop_last()[w] == key);
                assert(assoc_map(keys.drop_last(), clients.drop_last()).dom().contains(key));
            }
        }
    }
}

} // verus!
