use moly::bot_id::BotId;
use moly::client::BotClient;
use moly::entity::{Bot, BotCapabilities, EntityAvatar};
use moly::map_client::MapClient;
use moly::message::{Message, MessageContent};
use moly::multi::MultiClient;
use moly::result::{ClientError, ClientErrorKind, ClientResult};
use moly::tool::Tool;

/// A test backend: it serves a fixed bot list, or fails, and records what
/// it was last asked to send.
#[derive(Clone)]
struct TestClient {
    bot_names: Vec<String>,
    fail_with: Option<String>,
}

fn bot(local: &str, provider: &str, name: &str) -> Bot {
    Bot {
        id: BotId::new(local, provider),
        name: name.to_string(),
        avatar: EntityAvatar::Text("T".to_string()),
        capabilities: BotCapabilities::new(),
    }
}

impl BotClient for TestClient {
    fn bots(&mut self) -> ClientResult<Vec<Bot>> {
        if let Some(message) = &self.fail_with {
            return ClientResult::new_err(vec![ClientError::new(
                ClientErrorKind::Network,
                message.clone(),
            )]);
        }
        let bots = self
            .bot_names
            .iter()
            .map(|name| bot(name, "origin", name))
            .collect();
        ClientResult::new_ok(bots)
    }

    fn send(
        &mut self,
        bot_id: &BotId,
        _messages: &Vec<Message>,
        _tools: &Vec<Tool>,
    ) -> Vec<ClientResult<MessageContent>> {
        let content = MessageContent {
            text: format!("echo from {}", bot_id.id()),
            ..MessageContent::default()
        };
        vec![ClientResult::new_ok(content)]
    }

    fn clone_client(&self) -> Self {
        self.clone()
    }
}

fn ok_client(names: &[&str]) -> TestClient {
    TestClient {
        bot_names: names.iter().map(|n| n.to_string()).collect(),
        fail_with: None,
    }
}

fn failing_client(message: &str) -> TestClient {
    TestClient {
        bot_names: Vec::new(),
        fail_with: Some(message.to_string()),
    }
}

#[test]
fn test_multi_client_unions_and_namespaces() {
    let mut multi = MultiClient::new();
    multi.insert_client("a", ok_client(&["alpha", "beta"]));
    multi.insert_client("b", ok_client(&["gamma"]));

    let result = multi.bots();
    assert!(result.has_value());
    assert!(!result.has_errors());
    let bots = result.into_value().unwrap();
    assert_eq!(bots.len(), 3);
    assert_eq!(bots[0].id.provider(), "a");
    assert_eq!(bots[1].id.provider(), "a");
    assert_eq!(bots[2].id.provider(), "b");
    // The local portion of each namespaced id is the inner encoded id.
    let inner = BotId::from_encoded(bots[2].id.id()).expect("inner id must parse");
    assert_eq!(inner.id(), "gamma");
    assert_eq!(inner.provider(), "origin");
}

#[test]
fn test_multi_client_partial_failure() {
    let mut multi = MultiClient::new();
    multi.insert_client("a", failing_client("a is down"));
    multi.insert_client("b", ok_client(&["gamma"]));

    let result = multi.bots();
    assert!(result.has_value());
    assert!(result.has_errors());
    let (value, errors) = result.into_value_and_errors();
    let bots = value.unwrap();
    assert_eq!(bots.len(), 1);
    assert_eq!(bots[0].id.provider(), "b");
    assert_eq!(errors.len(), 1);
    assert_eq!(errors[0].kind(), ClientErrorKind::Network);
    assert_eq!(errors[0].message(), "a is down");
}

#[test]
fn test_multi_client_all_fail() {
    let mut multi = MultiClient::new();
    multi.insert_client("a", failing_client("a is down"));
    multi.insert_client("b", failing_client("b is down"));

    let result = multi.bots();
    assert!(!result.has_value());
    assert_eq!(result.errors().len(), 2);
}

#[test]
fn test_multi_client_routes_send() {
    let mut multi = MultiClient::new();
    multi.insert_client("a", ok_client(&["alpha"]));

    let namespaced = BotId::new(BotId::new("alpha", "origin").as_str(), "a");
    let snapshots = multi.send(&namespaced, &Vec::new(), &Vec::new());
    assert_eq!(snapshots.len(), 1);
    let content = snapshots.into_iter().next().unwrap().into_value().unwrap();
    assert_eq!(content.text, "echo from alpha");
}

#[test]
fn test_multi_client_unknown_provider_errors_synchronously() {
    let mut multi = MultiClient::new();
    multi.insert_client("a", ok_client(&["alpha"]));

    let foreign = BotId::new(BotId::new("alpha", "origin").as_str(), "zz");
    let snapshots = multi.send(&foreign, &Vec::new(), &Vec::new());
    assert_eq!(snapshots.len(), 1);
    let errors = snapshots.into_iter().next().unwrap().into_errors();
    assert_eq!(errors.len(), 1);
    assert_eq!(errors[0].kind(), ClientErrorKind::Response);
    assert_eq!(errors[0].message(), "Unknown provider: zz");
}

#[test]
fn test_insert_client_replaces_by_key() {
    let mut multi = MultiClient::new();
    multi.insert_client("a", ok_client(&["old"]));
    multi.insert_client("a", ok_client(&["new"]));

    let bots = multi.bots().into_value().unwrap();
    assert_eq!(bots.len(), 1);
    let inner = BotId::from_encoded(bots[0].id.id()).unwrap();
    assert_eq!(inner.id(), "new");
}

#[test]
fn test_map_client_transforms_bots() {
    let keep_short_names = |bots: Vec<Bot>| -> Vec<Bot> {
        bots.into_iter().filter(|b| b.name.len() <= 5 ).collect()
    };
    let mut mapped = MapClient::new(ok_client(&["alpha", "gamma-very-long"]), keep_short_names);
    let bots = mapped.bots().into_value().unwrap();
    assert_eq!(bots.len(), 1);
    assert_eq!(bots[0].name, "alpha");
}

#[test]
fn test_map_client_wraps_multi_client() {
    let mut multi = MultiClient::new();
    multi.insert_client("a", ok_client(&["alpha", "beta"]));

    let drop_all = |_bots: Vec<Bot>| -> Vec<Bot> { Vec::new() };
    let mut mapped = MapClient::new(multi, drop_all);
    let bots = mapped.bots().into_value().unwrap();
    assert!(bots.is_empty());

    // Sending is untouched by the transform.
    let namespaced = BotId::new(BotId::new("alpha", "origin").as_str(), "a");
    let snapshots = mapped.send(&namespaced, &Vec::new(), &Vec::new());
    assert_eq!(snapshots.len(), 1);
    assert!(snapshots[0].has_value());
}

#[test]
fn test_multi_client_registers_map_client() {
    let keep_all = |bots: Vec<Bot>| -> Vec<Bot> { bots };
    let wrapped = MapClient::new(ok_client(&["alpha"]), keep_all);
    let mut multi = MultiClient::new();
    multi.insert_client("m", wrapped);

    let bots = multi.bots().into_value().unwrap();
    assert_eq!(bots.len(), 1);
    assert_eq!(bots[0].id.provider(), "m");
}

#[test]
fn test_clone_client_is_independent_handle() {
    let mut multi = MultiClient::new();
    multi.insert_client("a", ok_client(&["alpha"]));
    let mut copy = multi.clone_client();
    let bots = copy.bots().into_value().unwrap();
    assert_eq!(bots.len(), 1);
}
