use moly::bot_id::BotId;
use moly::entity::{Bot, BotCapabilities, EntityAvatar};
use moly::fetch::{
    apply_bot_filters, has_valid_credentials, is_localhost, models_from_bots, models_result,
    should_include_bot, ClientFilter, Provider, ProviderBot, ProviderFetchModelsResult,
    ProviderType,
};
use moly::result::{ClientError, ClientErrorKind, ClientResult};

fn bot(local: &str) -> Bot {
    Bot {
        id: BotId::new(local, "api.example.com"),
        name: local.to_string(),
        avatar: EntityAvatar::Text("B".to_string()),
        capabilities: BotCapabilities::new(),
    }
}

fn provider(t: ProviderType) -> Provider {
    Provider {
        id: "prov".to_string(),
        url: "https://api.example.com".to_string(),
        api_key: None,
        provider_type: t,
        enabled: true,
    }
}

#[test]
fn test_should_include_bot() {
    assert!(should_include_bot(&BotId::new("gpt-4o", "api.example.com")));
    assert!(!should_include_bot(&BotId::new("dall-e-3", "api.example.com")));
    assert!(!should_include_bot(&BotId::new("whisper-1", "api.example.com")));
    assert!(!should_include_bot(&BotId::new("tts-1-hd", "api.example.com")));
    assert!(!should_include_bot(&BotId::new("text-embedding-3", "api.example.com")));
    // The whole encoded id is scanned, so a provider may also trip a keyword.
    assert!(!should_include_bot(&BotId::new("gpt-4o", "audio.example.com")));
}

#[test]
fn test_models_from_bots_filters_for_openai_family() {
    let p = provider(ProviderType::OpenAi);
    let models = models_from_bots(&p, vec![bot("gpt-4o"), bot("whisper-1"), bot("o3")]);
    assert_eq!(models.len(), 2);
    assert_eq!(models[0].name, "gpt-4o");
    assert_eq!(models[1].name, "o3");
    assert_eq!(models[0].description, "Model from prov");
    assert_eq!(models[0].provider_id, "prov");
    assert!(models[0].enabled);
    assert!(!models[0].is_recommended);
    // The id is namespaced under the provider, routing-layer style.
    assert_eq!(models[0].id.provider(), "prov");
    let inner = BotId::from_encoded(models[0].id.id()).unwrap();
    assert_eq!(inner.id(), "gpt-4o");
}

#[test]
fn test_models_from_bots_keeps_everything_for_other_providers() {
    let p = provider(ProviderType::OpenAiImage);
    let models = models_from_bots(&p, vec![bot("dall-e-3")]);
    assert_eq!(models.len(), 1);
    assert_eq!(models[0].description, "OpenAI Image Generation Model");

    let p = provider(ProviderType::OpenClaw);
    let models = models_from_bots(&p, vec![bot("openclaw/assistant")]);
    assert_eq!(models.len(), 1);
    assert_eq!(models[0].description, "OpenClaw local AI assistant");
}

#[test]
fn test_models_result_success_and_failure() {
    let p = provider(ProviderType::OpenAi);

    let success = models_result(&p, ClientResult::new_ok(vec![bot("gpt-4o")]));
    match success {
        ProviderFetchModelsResult::Success(id, models) => {
            assert_eq!(id, "prov");
            assert_eq!(models.len(), 1);
        }
        other => panic!("expected success, got {:?}", other),
    }

    let failure = models_result(
        &p,
        ClientResult::new_err(vec![ClientError::new(
            ClientErrorKind::Network,
            "down".to_string(),
        )]),
    );
    match failure {
        ProviderFetchModelsResult::Failure(id, error) => {
            assert_eq!(id, "prov");
            assert_eq!(error.kind(), ClientErrorKind::Network);
            assert_eq!(error.message(), "down");
        }
        other => panic!("expected failure, got {:?}", other),
    }

    // A failure without details reports the substitute error.
    let empty_failure = models_result(&p, ClientResult::<Vec<Bot>>::new_err(Vec::new()));
    match empty_failure {
        ProviderFetchModelsResult::Failure(_, error) => {
            assert_eq!(error.kind(), ClientErrorKind::Unknown);
        }
        other => panic!("expected failure, got {:?}", other),
    }
}

#[test]
fn test_apply_bot_filters() {
    let gpt = bot("gpt-4o");
    let whisper = bot("whisper-1");
    let unknown = bot("mystery");

    let available = vec![
        ProviderBot {
            id: gpt.id.clone(),
            name: "gpt-4o".to_string(),
            description: String::new(),
            provider_id: "on".to_string(),
            enabled: true,
            is_recommended: false,
        },
        ProviderBot {
            id: whisper.id.clone(),
            name: "whisper-1".to_string(),
            description: String::new(),
            provider_id: "off".to_string(),
            enabled: true,
            is_recommended: false,
        },
    ];
    let mut on = provider(ProviderType::OpenAi);
    on.id = "on".to_string();
    let mut off = provider(ProviderType::OpenAi);
    off.id = "off".to_string();
    off.enabled = false;
    let providers = vec![on, off];

    // The disabled provider's bot goes; the unknown bot is let through.
    let kept = apply_bot_filters(
        vec![gpt.clone(), whisper.clone(), unknown.clone()],
        &available,
        &providers,
        ClientFilter::BotEnabled,
        &None,
    );
    assert_eq!(kept.len(), 2);
    assert_eq!(kept[0].name, "gpt-4o");
    assert_eq!(kept[1].name, "mystery");

    // The chat filter also drops non-chat model families by name.
    let kept = apply_bot_filters(
        vec![gpt.clone(), whisper.clone()],
        &Vec::new(),
        &providers,
        ClientFilter::ChatModels,
        &None,
    );
    assert_eq!(kept.len(), 1);
    assert_eq!(kept[0].name, "gpt-4o");

    // A whitelist keeps only the names on it.
    let kept = apply_bot_filters(
        vec![gpt.clone(), unknown.clone()],
        &Vec::new(),
        &providers,
        ClientFilter::ChatModels,
        &Some(vec!["mystery".to_string()]),
    );
    assert_eq!(kept.len(), 1);
    assert_eq!(kept[0].name, "mystery");
}

#[test]
fn test_has_valid_credentials() {
    assert!(is_localhost("http://localhost:11434/v1"));
    assert!(is_localhost("http://127.0.0.1:8080"));
    assert!(!is_localhost("https://api.example.com/v1"));

    // Remote key-demanding providers need a key...
    let mut p = provider(ProviderType::OpenAi);
    assert!(!has_valid_credentials(&p));
    p.api_key = Some("SECRET-REDACTED".to_string());
    assert!(has_valid_credentials(&p));

    // ...unless they point at the local machine.
    let mut local = provider(ProviderType::OpenAiRealtime);
    local.url = "ws://localhost:1234".to_string();
    assert!(has_valid_credentials(&local));

    // Other kinds are reachable as configured.
    assert!(has_valid_credentials(&provider(ProviderType::MoFa)));
    assert!(has_valid_credentials(&provider(ProviderType::OpenClaw)));
}
