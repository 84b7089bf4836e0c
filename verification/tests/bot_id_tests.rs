use moly::bot_id::BotId;

#[test]
fn test_bot_id() {
    // Simple
    let id = BotId::new("123", "example.com");
    assert_eq!(id.as_str(), "3;123@example.com");
    assert_eq!(id.id(), "123");
    assert_eq!(id.provider(), "example.com");

    // Dirty
    let id = BotId::new("a;b@c", "https://ex@a@m;ple.co@m");
    assert_eq!(id.as_str(), "5;a;b@c@https://ex@a@m;ple.co@m");
    assert_eq!(id.id(), "a;b@c");
    assert_eq!(id.provider(), "https://ex@a@m;ple.co@m");

    // Similar yet different
    let id1 = BotId::new("a@", "b");
    let id2 = BotId::new("a", "@b");
    assert_ne!(id1.as_str(), id2.as_str());
    assert_ne!(id1, id2);
}

#[test]
fn test_bot_id_round_trip_unicode() {
    let id = BotId::new("modèle;déjà@vu", "provéedor@exemple");
    assert_eq!(id.id(), "modèle;déjà@vu");
    assert_eq!(id.provider(), "provéedor@exemple");
}

#[test]
fn test_bot_id_length_prefix_counts_bytes() {
    // "déjà" is four characters but six bytes in UTF-8.
    let id = BotId::new("déjà", "p");
    assert_eq!(id.as_str(), format!("{};{}@{}", "déjà".len(), "déjà", "p"));
    assert_eq!(id.as_str(), "6;déjà@p");

    let parsed = BotId::from_encoded("6;déjà@p").expect("a produced id must parse");
    assert_eq!(parsed.id(), "déjà");
    assert_eq!(parsed.provider(), "p");

    // A length that falls inside a multi-byte character is rejected.
    assert!(BotId::from_encoded("5;déjà@p").is_none());
    // The character count is not the announced length.
    assert!(BotId::from_encoded("4;déjà@p").is_none());
}

#[test]
fn test_from_encoded_round_trips() {
    let id = BotId::new("a;b@c", "https://ex@a@m;ple.co@m");
    let parsed = BotId::from_encoded(id.as_str()).expect("a produced id must parse");
    assert_eq!(parsed.id(), "a;b@c");
    assert_eq!(parsed.provider(), "https://ex@a@m;ple.co@m");
    assert_eq!(parsed, id);

    let empty = BotId::new("", "");
    assert_eq!(empty.as_str(), "0;@");
    let parsed = BotId::from_encoded("0;@").expect("the empty id must parse");
    assert_eq!(parsed.id(), "");
    assert_eq!(parsed.provider(), "");
}

#[test]
fn test_from_encoded_rejects_malformed() {
    assert!(BotId::from_encoded("").is_none());
    assert!(BotId::from_encoded("no separators here").is_none());
    assert!(BotId::from_encoded(";abc@x").is_none());
    assert!(BotId::from_encoded("x;abc@x").is_none());
    assert!(BotId::from_encoded("03;abc@x").is_none());
    assert!(BotId::from_encoded("4;abc@x").is_none());
    assert!(BotId::from_encoded("3;abcx").is_none());
    assert!(BotId::from_encoded("9999999999999999999999;abc@x").is_none());
}
