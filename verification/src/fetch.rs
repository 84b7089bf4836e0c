//! Turning a provider's raw bot enumeration into the models the app lists.
//!
//! The transport part of fetching (creating the concrete client, awaiting
//! its enumeration) lives outside this crate; what stands here decides
//! which bots are kept, how each becomes a provider model, and what one
//! fetch reports.

use vstd::prelude::*;

use crate::bot_id::{encode_bot_id, BotId};
use crate::entity::Bot;
use crate::multi::prefixed_bot;
use crate::result::{ClientError, ClientResult};
use crate::text::{contains_seq, str_contains};

verus! {

/// The kinds of providers the app can talk to.
#[derive(Clone, Copy, Debug, PartialEq, Eq, Structural)]
pub enum ProviderType {
    OpenAi,
    MolyServer,
    MoFa,
    OpenAiImage,
    OpenAiRealtime,
    DeepInquire,
    OpenClaw,
}

/// One configured provider.
#[derive(Clone, Debug, PartialEq)]
pub struct Provider {
    /// The identifier the provider is registered under.
    pub id: String,
    /// The provider's endpoint.
    pub url: String,
    /// The key used to authenticate against the provider, if any.
    pub api_key: Option<String>,
    /// Which kind of backend the provider is.
    pub provider_type: ProviderType,
    /// Whether the provider is currently enabled.
    pub enabled: bool,
}

/// One model/bot as the app lists it, tied to the provider it came from.
#[derive(Clone, Debug, PartialEq)]
pub struct ProviderBot {
    /// The bot's id, namespaced under the provider.
    pub id: BotId,
    pub name: String,
    pub description: String,
    /// The identifier of the provider the bot belongs to.
    pub provider_id: String,
    pub enabled: bool,
    pub is_recommended: bool,
}

/// What one fetch of a provider's models reports.
#[derive(Clone, Debug)]
pub enum ProviderFetchModelsResult {
    /// The models of the named provider.
    Success(String, Vec<ProviderBot>),
    /// The named provider could not be enumerated.
    Failure(String, ClientError),
}

/// The name fragments that mark a model as not chat-capable.
pub open spec fn filtered_keywords() -> Seq<Seq<char>> {
    seq![
        "dall-e"@,
        "whisper"@,
        "tts"@,
        "davinci"@,
        "audio"@,
        "babbage"@,
        "moderation"@,
        "embedding"@,
    ]
}

/// Whether the encoded bot id names a model that is filtered out.
pub open spec fn is_filtered_bot(encoded: Seq<char>) -> bool {
    exists|i: int|
        0 <= i < filtered_keywords().len() && contains_seq(
            encoded,
            #[trigger] filtered_keywords()[i],
        )
}

/// Filter out non-chat models for OpenAI-compatible providers: a bot whose
/// encoded id contains a keyword of a known non-chat model family is left
/// out.
pub fn should_include_bot(bot_id: &BotId) -> (r: bool)
    ensures
        r == !is_filtered_bot(encode_bot_id(bot_id@.local, bot_id@.provider)),
{
    let encoded = bot_id.as_str();
    let keywords = ["dall-e", "whisper", "tts", "davinci", "audio", "babbage", "moderation",
        "embedding"];
    let mut k: usize = 0;
    while k < 8
        invariant
            k <= 8,
            keywords@.len() == 8,
            encoded@ == encode_bot_id(bot_id@.local, bot_id@.provider),
            forall|i: int| 0 <= i < 8 ==> keywords@[i]@ == filtered_keywords()[i],
            forall|i: int| 0 <= i < k ==> !contains_seq(encoded@, filtered_keywords()[i]),
        decreases 8 - k,
    {
        if str_contains(encoded, keywords[k]) {
            proof {
                assert(contains_seq(encoded@, filtered_keywords()[k as int]));
            }
            return false;
        }
        k = k + 1;
    }
    true
}

/// Whether a provider kind filters its bot list the OpenAI-compatible way.
pub open spec fn filters_bots(t: ProviderType) -> bool {
    t == ProviderType::OpenAi || t == ProviderType::MolyServer || t == ProviderType::MoFa
}

/// The description every model of a provider is listed with.
pub open spec fn description_of(t: ProviderType, provider_id: Seq<char>) -> Seq<char> {
    match t {
        ProviderType::OpenAi => "Model from "@ + provider_id,
        ProviderType::MolyServer => "Model from "@ + provider_id,
        ProviderType::MoFa => "Model from "@ + provider_id,
        ProviderType::OpenAiImage => "OpenAI Image Generation Model"@,
        ProviderType::OpenAiRealtime => "OpenAI Realtime Model"@,
        ProviderType::DeepInquire => "A search assistant"@,
        ProviderType::OpenClaw => "OpenClaw local AI assistant"@,
    }
}

/// The bots of an enumeration that one provider keeps, in order: every bot,
/// except that OpenAI-compatible providers drop the filtered model families.
pub open spec fn kept_bots(t: ProviderType, bots: Seq<Bot>) -> Seq<Bot>
    decreases bots.len(),
{
    if bots.len() == 0 {
        Seq::empty()
    } else {
        let prefix = kept_bots(t, bots.drop_last());
        let b = bots.last();
        if filters_bots(t) && is_filtered_bot(encode_bot_id(b@.id.local, b@.id.provider)) {
            prefix
        } else {
            prefix.push(b)
        }
    }
}

/// What one kept bot is listed as: its id namespaced under the provider, as
/// the routing layer encodes it, with the provider's description.
pub open spec fn provider_bot_matches(p: Provider, b: Bot, r: ProviderBot) -> bool {
    &&& r.id@ == prefixed_bot(p.id@, b@).id
    &&& r.name == b.name
    &&& r.description@ == description_of(p.provider_type, p.id@)
    &&& r.provider_id@ == p.id@
    &&& r.enabled
    &&& !r.is_recommended
}

/// Turns the bots a provider enumerated into the models the app lists:
/// non-chat models filtered out where the provider calls for it, every kept
/// bot re-namespaced under the provider and given its description.
pub fn models_from_bots(provider: &Provider, bots: Vec<Bot>) -> (r: Vec<ProviderBot>)
    ensures
        ({
            let kept = kept_bots(provider.provider_type, bots@);
            r@.len() == kept.len() && forall|i: int|
                0 <= i < kept.len() ==> provider_bot_matches(*provider, kept[i], #[trigger] r@[i])
        }),
{
    let ghost all = bots@;
    let mut bots = bots;
    let mut models: Vec<ProviderBot> = Vec::new();
    let filtering = match provider.provider_type {
        ProviderType::OpenAi => true,
        ProviderType::MolyServer => true,
        ProviderType::MoFa => true,
        ProviderType::OpenAiImage => false,
        ProviderType::OpenAiRealtime => false,
        ProviderType::DeepInquire => false,
        ProviderType::OpenClaw => false,
    };
    let mut k: usize = 0;
    let n = bots.len();
    while k < n
        invariant
            n == all.len(),
            k <= n,
            bots@ == all.skip(k as int),
            filtering == filters_bots(provider.provider_type),
            models@.len() == kept_bots(provider.provider_type, all.take(k as int)).len(),
            forall|i: int|
                0 <= i < models@.len() ==> provider_bot_matches(
                    *provider,
                    kept_bots(provider.provider_type, all.take(k as int))[i],
                    #[trigger] models@[i],
                ),
        decreases n - k,
    {
        proof {
            assert(all.skip(k as int).len() == all.len() - k);
        }
        let bot = bots.remove(0);
        proof {
            assert(all.skip(k as int)[0] == all[k as int]);
            assert(bot == all[k as int]);
            assert(bots@ =~= all.skip(k + 1));
            assert(all.take(k + 1).drop_last() =~= all.take(k as int));
            assert(all.take(k + 1).last() == all[k as int]);
        }
        if filtering && !should_include_bot(&bot.id) {
            k = k + 1;
            continue;
        }
        let description = match provider.provider_type {
            ProviderType::OpenAi => from_provider_description(&provider.id),
            ProviderType::MolyServer => from_provider_description(&provider.id),
            ProviderType::MoFa => from_provider_description(&provider.id),
            ProviderType::OpenAiImage => String::from_str("OpenAI Image Generation Model"),
            ProviderType::OpenAiRealtime => String::from_str("OpenAI Realtime Model"),
            ProviderType::DeepInquire => String::from_str("A search assistant"),
            ProviderType::OpenClaw => String::from_str("OpenClaw local AI assistant"),
        };
        let namespaced = BotId::new(bot.id.as_str(), provider.id.as_str());
        models.push(
            ProviderBot {
                id: namespaced,
                name: bot.name,
                description,
                provider_id: provider.id.clone(),
                enabled: true,
                is_recommended: false,
            },
        );
        k = k + 1;
    }
    proof {
        assert(all.take(n as int) =~= all);
    }
    models
}

/// The description of a model from an OpenAI-compatible provider.
fn from_provider_description(provider_id: &String) -> (r: String)
    ensures
        r@ == "Model from "@ + provider_id@,
{
    let mut r = String::from_str("Model from ");
    r.append(provider_id.as_str());
    r
}

/// Folds one provider's enumeration outcome into the fetch report: the kept
/// models on success, the first reported error on failure, a substitute
/// `Unknown` error when a failure carries no detail at all.
pub fn models_result(provider: &Provider, outcome: ClientResult<Vec<Bot>>) -> (r:
    ProviderFetchModelsResult)
    requires
        outcome@.value is Some || outcome@.errors.len() > 0,
    ensures
        outcome@.errors.len() == 0 ==> (r matches ProviderFetchModelsResult::Success(id, models)
            && id@ == provider.id@ && (outcome@.value matches Some(v) && {
            let kept = kept_bots(provider.provider_type, v@);
            models@.len() == kept.len() && forall|i: int|
                0 <= i < kept.len() ==> provider_bot_matches(
                    *provider,
                    kept[i],
                    #[trigger] models@[i],
                )
        })),
        outcome@.errors.len() > 0 ==> (r matches ProviderFetchModelsResult::Failure(id, e) && id@
            == provider.id@ && e@ == outcome@.errors[0]),
{
    match outcome.into_result() {
        Ok(bots) => {
            let models = models_from_bots(provider, bots);
            ProviderFetchModelsResult::Success(provider.id.clone(), models)
        }
        Err(mut errors) => {
            let error = errors.remove(0);
            ProviderFetchModelsResult::Failure(provider.id.clone(), error)
        }
    }
}


/// How a wrapped client's bot list is narrowed before it is shown.
#[derive(Clone, Copy, Debug, PartialEq, Eq, Structural)]
pub enum ClientFilter {
    /// Keep chat-capable models of enabled providers.
    ChatModels,
    /// Keep bots that are themselves enabled, under enabled providers.
    BotEnabled,
}

/// The registration a bot has in the known-bot table, if any: the first
/// entry under the bot's id.
pub open spec fn find_provider_bot(available: Seq<ProviderBot>, id: crate::bot_id::BotIdView) -> Option<
    ProviderBot,
>
    decreases available.len(),
{
    if available.len() == 0 {
        None
    } else if available.first().id@ == id {
        Some(available.first())
    } else {
        find_provider_bot(available.drop_first(), id)
    }
}

/// Whether the provider registered under the given id is enabled. An
/// unknown provider counts as disabled.
pub open spec fn provider_enabled(providers: Seq<Provider>, provider_id: Seq<char>) -> bool
    decreases providers.len(),
{
    if providers.len() == 0 {
        false
    } else if providers.first().id@ == provider_id {
        providers.first().enabled
    } else {
        provider_enabled(providers.drop_first(), provider_id)
    }
}

/// Whether a name appears in the list.
pub open spec fn name_listed(names: Seq<String>, name: Seq<char>) -> bool {
    exists|i: int| 0 <= i < names.len() && (#[trigger] names[i])@ == name
}

/// Whether one bot survives the filter: it must belong to an enabled
/// provider (and, under [`ClientFilter::BotEnabled`], be enabled itself)
/// when the known-bot table lists it; a chat filter additionally drops the
/// non-chat model families by name; a whitelist, when present, keeps only
/// the names on it.
pub open spec fn bot_kept(
    b: Bot,
    available: Seq<ProviderBot>,
    providers: Seq<Provider>,
    filter: ClientFilter,
    supported_models: Option<Vec<String>>,
) -> bool {
    &&& (available.len() == 0 || match find_provider_bot(available, b@.id) {
        Some(pb) => {
            let enabled = provider_enabled(providers, pb.provider_id@);
            if filter == ClientFilter::BotEnabled {
                pb.enabled && enabled
            } else {
                enabled
            }
        },
        None => true,
    })
    &&& (filter == ClientFilter::ChatModels ==> !is_filtered_bot(b.name@))
    &&& (supported_models matches Some(names) ==> name_listed(names@, b.name@))
}

/// The bots that survive the filter, in order.
pub open spec fn filtered_bots(
    bots: Seq<Bot>,
    available: Seq<ProviderBot>,
    providers: Seq<Provider>,
    filter: ClientFilter,
    supported_models: Option<Vec<String>>,
) -> Seq<Bot>
    decreases bots.len(),
{
    if bots.len() == 0 {
        Seq::empty()
    } else {
        let prefix = filtered_bots(bots.drop_last(), available, providers, filter, supported_models);
        if bot_kept(bots.last(), available, providers, filter, supported_models) {
            prefix.push(bots.last())
        } else {
            prefix
        }
    }
}

/// Narrows a bot list the way a wrapping client's transform does: by the
/// enabled status recorded for each bot and its provider, by the chat-model
/// filter, and by the whitelist of supported models, when one exists.
pub fn apply_bot_filters(
    bots: Vec<Bot>,
    available: &Vec<ProviderBot>,
    providers: &Vec<Provider>,
    filter: ClientFilter,
    supported_models: &Option<Vec<String>>,
) -> (r: Vec<Bot>)
    ensures
        r@ == filtered_bots(bots@, available@, providers@, filter, *supported_models),
{
    let ghost all = bots@;
    let mut bots = bots;
    let mut kept: Vec<Bot> = Vec::new();
    let mut k: usize = 0;
    let n = bots.len();
    while k < n
        invariant
            n == all.len(),
            k <= n,
            bots@ == all.skip(k as int),
            kept@ == filtered_bots(
                all.take(k as int),
                available@,
                providers@,
                filter,
                *supported_models,
            ),
        decreases n - k,
    {
        proof {
            assert(all.skip(k as int).len() == all.len() - k);
        }
        let bot = bots.remove(0);
        proof {
            assert(all.skip(k as int)[0] == all[k as int]);
            assert(bot == all[k as int]);
            assert(bots@ =~= all.skip(k + 1));
            assert(all.take(k + 1).drop_last() =~= all.take(k as int));
            assert(all.take(k + 1).last() == all[k as int]);
        }
        if is_bot_kept(&bot, available, providers, filter, supported_models) {
            kept.push(bot);
        }
        k = k + 1;
    }
    proof {
        assert(all.take(n as int) =~= all);
    }
    kept
}

/// Decides [`bot_kept`] for one bot.
fn is_bot_kept(
    b: &Bot,
    available: &Vec<ProviderBot>,
    providers: &Vec<Provider>,
    filter: ClientFilter,
    supported_models: &Option<Vec<String>>,
) -> (r: bool)
    ensures
        r == bot_kept(*b, available@, providers@, filter, *supported_models),
{
    if available.len() > 0 {
        let registered = lookup_provider_bot(available, &b.id);
        if let Some(pb) = registered {
            let enabled = is_provider_enabled(providers, &pb.provider_id);
            let kept = if filter == ClientFilter::BotEnabled {
                pb.enabled && enabled
            } else {
                enabled
            };
            if !kept {
                return false;
            }
        }
    }
    if filter == ClientFilter::ChatModels && !name_is_chat_model(&b.name) {
        return false;
    }
    if let Some(names) = supported_models {
        if !list_contains_name(names, &b.name) {
            return false;
        }
    }
    true
}

/// Whether a model name avoids every non-chat model family keyword.
fn name_is_chat_model(name: &String) -> (r: bool)
    ensures
        r == !is_filtered_bot(name@),
{
    let keywords = ["dall-e", "whisper", "tts", "davinci", "audio", "babbage", "moderation",
        "embedding"];
    let mut k: usize = 0;
    while k < 8
        invariant
            k <= 8,
            keywords@.len() == 8,
            forall|i: int| 0 <= i < 8 ==> keywords@[i]@ == filtered_keywords()[i],
            forall|i: int| 0 <= i < k ==> !contains_seq(name@, filtered_keywords()[i]),
        decreases 8 - k,
    {
        if str_contains(name.as_str(), keywords[k]) {
            proof {
                assert(contains_seq(name@, filtered_keywords()[k as int]));
            }
            return false;
        }
        k = k + 1;
    }
    true
}

/// Whether a name appears in the list.
fn list_contains_name(names: &Vec<String>, name: &String) -> (r: bool)
    ensures
        r == name_listed(names@, name@),
{
    let mut k: usize = 0;
    let n = names.len();
    while k < n
        invariant
            k <= n,
            n == names@.len(),
            forall|i: int| 0 <= i < k ==> (#[trigger] names@[i])@ != name@,
        decreases n - k,
    {
        if crate::text::str_eq(names[k].as_str(), name.as_str()) {
            return true;
        }
        k = k + 1;
    }
    proof {
        if name_listed(names@, name@) {
            let i = choose|i: int| 0 <= i < names@.len() && (#[trigger] names@[i])@ == name@;
            assert(false);
        }
    }
    false
}

/// The first entry of the known-bot table under the given id, if any.
fn lookup_provider_bot<'a>(available: &'a Vec<ProviderBot>, id: &BotId) -> (r: Option<
    &'a ProviderBot,
>)
    ensures
        match r {
            Some(pb) => find_provider_bot(available@, id@) == Some(*pb),
            None => find_provider_bot(available@, id@) is None,
        },
{
    let mut k: usize = 0;
    let n = available.len();
    proof {
        assert(available@.skip(0) =~= available@);
    }
    while k < n
        invariant
            k <= n,
            n == available@.len(),
            find_provider_bot(available@, id@) == find_provider_bot(available@.skip(k as int), id@),
        decreases n - k,
    {
        proof {
            assert(available@.skip(k as int).first() == available@[k as int]);
            assert(available@.skip(k as int).drop_first() =~= available@.skip(k + 1));
        }
        if available[k].id.eq(id) {
            return Some(&available[k]);
        }
        k = k + 1;
    }
    None
}

/// Whether the provider registered under the given id is enabled.
fn is_provider_enabled(providers: &Vec<Provider>, provider_id: &String) -> (r: bool)
    ensures
        r == provider_enabled(providers@, provider_id@),
{
    let mut k: usize = 0;
    let n = providers.len();
    proof {
        assert(providers@.skip(0) =~= providers@);
    }
    while k < n
        invariant
            k <= n,
            n == providers@.len(),
            provider_enabled(providers@, provider_id@) == provider_enabled(
                providers@.skip(k as int),
                provider_id@,
            ),
        decreases n - k,
    {
        proof {
            assert(providers@.skip(k as int).first() == providers@[k as int]);
            assert(providers@.skip(k as int).drop_first() =~= providers@.skip(k + 1));
        }
        if crate::text::str_eq(providers[k].id.as_str(), provider_id.as_str()) {
            return providers[k].enabled;
        }
        k = k + 1;
    }
    false
}


/// Whether a URL points at the local machine.
pub open spec fn is_localhost_url(url: Seq<char>) -> bool {
    contains_seq(url, "localhost"@) || contains_seq(url, "127.0.0.1"@)
}

/// Whether a URL points at the local machine.
pub fn is_localhost(url: &str) -> (r: bool)
    ensures
        r == is_localhost_url(url@),
{
    str_contains(url, "localhost") || str_contains(url, "127.0.0.1")
}

/// Whether a provider kind demands an API key for a remote endpoint.
pub open spec fn needs_api_key(t: ProviderType) -> bool {
    t == ProviderType::OpenAi || t == ProviderType::MolyServer || t
        == ProviderType::OpenAiRealtime
}

/// Whether a provider can be talked to at all: kinds that demand a key must
/// carry one, unless they point at the local machine; every other kind is
/// reachable as configured.
pub fn has_valid_credentials(provider: &Provider) -> (r: bool)
    ensures
        r == (!needs_api_key(provider.provider_type) || provider.api_key is Some
            || is_localhost_url(provider.url@)),
{
    match provider.provider_type {
        ProviderType::OpenAi | ProviderType::MolyServer | ProviderType::OpenAiRealtime => {
            provider.api_key.is_some() || is_localhost(provider.url.as_str())
        }
        ProviderType::MoFa | ProviderType::OpenAiImage | ProviderType::DeepInquire
        | ProviderType::OpenClaw => true,
    }
}

} // verus!
