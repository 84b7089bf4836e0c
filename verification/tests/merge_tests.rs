use moly::merge::merge_text_content;

#[test]
fn test_merge_into_empty() {
    let mut text = String::new();
    merge_text_content(&mut text, "Hello");
    assert_eq!(text, "Hello");
}

#[test]
fn test_merge_idempotent() {
    let mut text = String::from("streamed text so far");
    merge_text_content(&mut text, "streamed text so far");
    assert_eq!(text, "streamed text so far");
}

#[test]
fn test_merge_superset_replaces() {
    let mut text = String::from("Hi");
    merge_text_content(&mut text, "Hi there");
    assert_eq!(text, "Hi there");
}

#[test]
fn test_merge_stale_prefix_discarded() {
    let mut text = String::from("Hi there");
    merge_text_content(&mut text, "Hi");
    assert_eq!(text, "Hi there");
}

#[test]
fn test_merge_overlap() {
    let mut text = String::from("Hello wor");
    merge_text_content(&mut text, "wor ld!");
    assert_eq!(text, "Hello wor ld!");
}

#[test]
fn test_merge_no_overlap_appends() {
    let mut text = String::from("abc");
    merge_text_content(&mut text, "xyz");
    assert_eq!(text, "abcxyz");
}

#[test]
fn test_merge_multibyte_overlap() {
    let mut text = String::from("voilà déjà");
    merge_text_content(&mut text, "déjà vu");
    assert_eq!(text, "voilà déjà vu");
}

#[test]
fn test_merge_length_never_decreases() {
    let fragments = ["Hel", "Hello", "lo wor", "wor ld!", "wor ld!", "xyz"];
    let mut text = String::new();
    let mut last_len = 0;
    for fragment in fragments {
        merge_text_content(&mut text, fragment);
        assert!(text.chars().count() >= last_len);
        last_len = text.chars().count();
    }
    assert_eq!(text, "Hello wor ld!xyz");
}
