use scrawler::json::{Json, JsonNumber};
use scrawler::storage::{join_path, AppStorage, KvStore};

fn temp_storage() -> AppStorage {
    AppStorage::in_dir("/tmp/scrawler_test")
}

fn is_42(v: &Option<Json>) -> bool {
    matches!(v, Some(Json::Number(JsonNumber::Pos(42))))
}

#[test]
fn kv_roundtrip() {
    let s = temp_storage();
    assert!(s.kv_get(None, "x").is_none());
    let stored = s.kv_set(None, "x", Json::Number(JsonNumber::Pos(42)));
    assert!(is_42(&s.kv_get(Some(&stored), "x")));
    let stored = s.kv_delete(Some(&stored), "x");
    assert!(s.kv_get(Some(&stored), "x").is_none());
}

#[test]
fn sandbox_rejects_parent_traversal() {
    let s = temp_storage();
    assert_eq!(s.resolve("../etc/passwd"), None);
    assert_eq!(s.resolve("/etc/passwd"), None);
}

#[test]
fn sandbox_accepts_inner_paths() {
    let s = temp_storage();
    assert_eq!(s.resolve("notes/hello.txt").as_deref(), Some("/tmp/scrawler_test/notes/hello.txt"));
    assert_eq!(s.resolve("a/../b"), None);
    assert_eq!(s.resolve("a/.."), None);
    assert_eq!(s.resolve("..."), Some("/tmp/scrawler_test/...".to_string()));
    assert_eq!(s.resolve("x..y/z"), Some("/tmp/scrawler_test/x..y/z".to_string()));
}

#[test]
fn kv_file_sits_in_the_data_directory() {
    assert_eq!(temp_storage().kv_path(), "/tmp/scrawler_test/kv.json");
    assert_eq!(temp_storage().dir(), "/tmp/scrawler_test");
    assert_eq!(AppStorage::in_dir("/data/").kv_path(), "/data/kv.json");
}

#[test]
fn join_follows_unix_path_rules() {
    assert_eq!(join_path("a", "b"), "a/b");
    assert_eq!(join_path("a/", "b"), "a/b");
    assert_eq!(join_path("", "b"), "b");
    assert_eq!(join_path("a", "/b"), "/b");
}

#[test]
fn new_storage_is_named_by_app_id() {
    let s = AppStorage::new("scrawler.mail");
    assert!(s.dir().ends_with("scrawler.mail"));
}

#[test]
fn kv_write_keeps_other_keys_and_overwrites_same_key() {
    let s = temp_storage();
    let t = s.kv_set(None, "a", Json::Str("one".into()));
    let t = s.kv_set(Some(&t), "b", Json::Bool(true));
    let t = s.kv_set(Some(&t), "a", Json::Str("two".into()));
    assert!(matches!(s.kv_get(Some(&t), "a"), Some(Json::Str(v)) if v == "two"));
    assert!(matches!(s.kv_get(Some(&t), "b"), Some(Json::Bool(true))));
    let t = s.kv_delete(Some(&t), "a");
    assert!(s.kv_get(Some(&t), "a").is_none());
    assert!(matches!(s.kv_get(Some(&t), "b"), Some(Json::Bool(true))));
}

#[test]
fn kv_unreadable_text_is_an_empty_store() {
    let s = temp_storage();
    assert!(s.kv_get(Some("not json"), "a").is_none());
    assert!(s.kv_get(Some("[1, 2]"), "a").is_none());
    let all = s.kv_all(Some("{\"k\": 5}"));
    assert!(matches!(all.get("k"), Some(Json::Number(JsonNumber::Pos(5)))));
}

#[test]
fn kv_store_text_is_pretty_json() {
    let mut store = KvStore::load(None);
    store.set("x", Json::Number(JsonNumber::Pos(42)));
    assert_eq!(store.to_text(), "{\n  \"x\": 42\n}");
    store.delete("x");
    assert_eq!(store.to_text(), "{}");
}

#[test]
fn app_storage_lives_in_the_data_dir_or_the_working_dir() {
    assert_eq!(AppStorage::in_data_dir(Some("/home/u/.local/share"), "mail").dir(), "/home/u/.local/share/mail");
    assert_eq!(AppStorage::in_data_dir(None, "mail").dir(), "./mail");
}
