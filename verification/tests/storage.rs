use git_remote_opendal::storage::{bundle_key, RefsStore, REFS_PATH};

#[test]
fn bundle_keys_live_under_objects() {
    assert_eq!(bundle_key("abc"), "objects/abc.bundle");
    assert_ne!(bundle_key("a"), bundle_key("b"));
    assert_eq!(REFS_PATH, "info/refs.json");
}

#[test]
fn new_store_is_empty() {
    let s = RefsStore::new();
    assert!(s.refs.is_empty());
    assert!(s.bundles.is_empty());
}
