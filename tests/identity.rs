use stream_auth::{IdentityTable, StreamChatClient};

#[test]
fn derivation_matches_known_uuid() {
    let c = StreamChatClient::initialize("k", "s").unwrap();
    assert_eq!(c.generate_user_id("python.org"), "886313e1-3b8a-5372-9b90-0c9aee199e5d");
}

#[test]
fn derivation_is_deterministic() {
    let c = StreamChatClient::initialize("k", "s").unwrap();
    let a = c.generate_user_id("alice");
    assert_eq!(a, c.generate_user_id("alice"));
    assert_eq!(a.len(), 36);
    assert_eq!(a.as_bytes()[14], b'5');
}

#[test]
fn derivation_distinct_for_sample() {
    let c = StreamChatClient::initialize("k", "s").unwrap();
    let names: Vec<String> = (0..200).map(|i| format!("user{}", i)).collect();
    let mut ids: Vec<String> = names.iter().map(|n| c.generate_user_id(n)).collect();
    ids.sort();
    ids.dedup();
    assert_eq!(ids.len(), names.len());
}

#[test]
fn repeated_get_or_create_keeps_one_entry() {
    let c = StreamChatClient::initialize("k", "s").unwrap();
    let mut table = IdentityTable::new();
    let first = table.get_or_create("alice");
    for _ in 0..10 {
        assert_eq!(table.get_or_create("alice"), first);
    }
    assert_eq!(table.len(), 1);
    assert_eq!(table.get("alice"), Some(&first));
    assert_eq!(first, c.generate_user_id("alice"));
    table.get_or_create("bob");
    assert_eq!(table.len(), 2);
    assert_eq!(table.get("carol"), None);
}
