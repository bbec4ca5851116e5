use scrawler::collections::TextMap;
use scrawler::json::{Json, JsonNumber};
use scrawler::runtime::{
    date_format, date_now, unix_time, fetch_async, fetch_failure, fetch_response, fetch_status_error, form_reset, handler_effects,
    json_decode, json_encode, make_effect, navigate, notification_show, object1, object2, set_icon, set_label,
    set_options, set_visible, state_get, state_set, state_toggle, validate_effect, view_close, view_open, window_minimize,
    window_set_badge, FetchRequest, InvokeContext, RuntimeError,
};
use scrawler::storage::AppStorage;

fn field<'a>(v: &'a Json, key: &str) -> &'a Json {
    v.get(key).unwrap_or_else(|| panic!("missing member {key}"))
}

fn as_str(v: &Json) -> &str {
    match v {
        Json::Str(t) => t.as_str(),
        _ => panic!("not a string"),
    }
}

fn st(t: &str) -> Json {
    Json::Str(t.to_string())
}

#[test]
fn screen_navigate_produces_correct_effect() {
    let e = navigate("settings".to_string());
    assert_eq!(as_str(field(&e, "effect")), "screen.navigate");
    assert_eq!(as_str(field(&e, "target")), "settings");
}

#[test]
fn manifest_set_label_produces_correct_effect() {
    let e = set_label("btn".to_string(), "Send Now".to_string());
    assert_eq!(as_str(field(&e, "effect")), "manifest.set_label");
    assert_eq!(as_str(field(&e, "target")), "btn");
    assert_eq!(as_str(field(field(&e, "payload"), "label")), "Send Now");
}

#[test]
fn manifest_set_visible_produces_correct_effect() {
    let e = set_visible("panel".to_string(), false);
    assert_eq!(as_str(field(&e, "effect")), "manifest.set_visible");
    assert_eq!(as_str(field(&e, "target")), "panel");
    assert!(matches!(field(field(&e, "payload"), "visible"), Json::Bool(false)));
}

#[test]
fn manifest_set_options_produces_correct_effect() {
    let e = set_options(
        "priority".to_string(),
        &vec!["Low".to_string(), "Medium".to_string(), "High".to_string()],
    );
    assert_eq!(as_str(field(&e, "effect")), "manifest.set_options");
    assert_eq!(as_str(field(&e, "target")), "priority");
    match field(field(&e, "payload"), "options") {
        Json::Array(items) => {
            assert_eq!(items.len(), 3);
            assert_eq!(as_str(&items[0]), "Low");
            assert_eq!(as_str(&items[2]), "High");
        }
        _ => panic!("options is an array"),
    }
}

#[test]
fn calls_state_set_and_returns_effect() {
    let e = state_set("draft.body".to_string(), st("Hello world"));
    assert_eq!(as_str(field(&e, "effect")), "state.set");
    assert_eq!(as_str(field(&e, "target")), "draft.body");
    assert_eq!(as_str(field(field(&e, "payload"), "value")), "Hello world");
}

#[test]
fn calls_view_open_and_returns_effect() {
    let e = view_open("composer".to_string(), object1("state", object1("draft.recipient", st("alice@example.com"))));
    assert_eq!(as_str(field(&e, "effect")), "view.open");
    assert_eq!(as_str(field(&e, "target")), "composer");
    assert_eq!(as_str(field(field(field(&e, "payload"), "state"), "draft.recipient")), "alice@example.com");
}

#[test]
fn state_toggle_inverts_bool() {
    let mut state = TextMap::new();
    state.insert("dark_mode".to_string(), "true".to_string());
    let e = state_toggle(&state, "dark_mode".to_string());
    assert_eq!(as_str(field(&e, "effect")), "state.set");
    assert_eq!(as_str(field(&e, "target")), "dark_mode");
    assert_eq!(as_str(field(field(&e, "payload"), "value")), "false");
    state.insert("dark_mode".to_string(), "false".to_string());
    let again = state_toggle(&state, "dark_mode".to_string());
    assert_eq!(as_str(field(field(&again, "payload"), "value")), "true");
    let missing = state_toggle(&TextMap::new(), "other".to_string());
    assert_eq!(as_str(field(field(&missing, "payload"), "value")), "true");
}

#[test]
fn manifest_set_icon_produces_correct_effect() {
    let e = set_icon("btn".to_string(), "star".to_string());
    assert_eq!(as_str(field(&e, "effect")), "manifest.set_icon");
    assert_eq!(as_str(field(&e, "target")), "btn");
    assert_eq!(as_str(field(field(&e, "payload"), "icon")), "star");
}

#[test]
fn form_reset_produces_correct_effect() {
    let e = form_reset("search_bar".to_string());
    assert_eq!(as_str(field(&e, "effect")), "form.reset");
    assert_eq!(as_str(field(&e, "target")), "search_bar");
}

#[test]
fn window_minimize_produces_correct_effect() {
    let e = window_minimize();
    assert_eq!(as_str(field(&e, "effect")), "window.minimize");
    assert_eq!(as_str(field(&e, "target")), "window");
}

#[test]
fn window_badge_keeps_negative_counts() {
    let e = window_set_badge(-3);
    assert!(matches!(field(field(&e, "payload"), "count"), Json::Number(JsonNumber::Neg(-3))));
    let e = window_set_badge(7);
    assert!(matches!(field(field(&e, "payload"), "count"), Json::Number(JsonNumber::Pos(7))));
}

#[test]
fn calls_notification_show_and_returns_effect() {
    let e = notification_show("Message sent".to_string());
    assert_eq!(as_str(field(&e, "effect")), "notification.show");
    assert_eq!(as_str(field(field(&e, "payload"), "message")), "Message sent");
}

#[test]
fn state_get_reads_current_value() {
    let mut state = TextMap::new();
    state.insert("draft.recipient".to_string(), "alice@example.com".to_string());
    let storage = AppStorage::in_dir("/tmp/scrawler_test");
    let ctx = InvokeContext::new(&state, &storage);
    assert_eq!(state_get(&ctx, "draft.recipient").as_deref(), Some("alice@example.com"));
    assert_eq!(state_get(&ctx, "nothing"), None);
    let empty = TextMap::new();
    let ctx = InvokeContext::new(&empty, &storage);
    assert_eq!(state_get(&ctx, "draft.recipient"), None);
}

#[test]
fn date_now_returns_timestamp() {
    assert!(date_now() > 1_700_000_000);
}

#[test]
fn http_fetch_get_returns_response() {
    let failed = fetch_failure("connection refused".to_string());
    assert!(matches!(field(&failed, "ok"), Json::Bool(false)));
    assert!(matches!(field(&failed, "status"), Json::Number(JsonNumber::Pos(0))));
}

#[test]
fn date_format_works() {
    assert_eq!(date_format(0, "%Y-%m-%d").as_deref(), Some("1970-01-01"));
    assert_eq!(date_format(1_700_000_000, "%Y-%m-%d").as_deref(), Some("2023-11-14"));
}

#[test]
fn json_encode_decode_roundtrip() {
    let v = object2("name", st("alice"), "score", Json::Number(JsonNumber::Pos(42)));
    let text = json_encode(&v);
    assert!(text.starts_with('{') && text.contains(r#""name":"alice""#) && text.contains(r#""score":42"#));
    assert_eq!(json_encode(&object1("name", st("alice"))), r#"{"name":"alice"}"#);
    let back = json_decode(&text).expect("valid JSON");
    assert_eq!(format!("{}={}", as_str(field(&back, "name")), match field(&back, "score") {
        Json::Number(JsonNumber::Pos(n)) => *n,
        _ => panic!("score is a number"),
    }), "alice=42");
    assert!(json_decode("{oops").is_none());
}

#[test]
fn effects_are_validated() {
    assert!(validate_effect(&make_effect("x", "y".to_string(), Json::Null)).is_ok());
    let err = validate_effect(&st("nope")).err().expect("a string is no effect");
    assert_eq!(err.message(), "Lua handler must return an effect object");
    let no_target = object1("effect", st("x"));
    let err = validate_effect(&no_target).err().expect("no target");
    assert_eq!(err.message(), "Lua effect requires a string `target` field");
    let no_kind = object1("target", st("x"));
    let err = validate_effect(&no_kind).err().expect("no effect");
    assert_eq!(err.message(), "Lua effect requires a string `effect` field");
}

#[test]
fn handler_results_become_effect_lists() {
    let one = handler_effects(navigate("home".to_string())).ok().expect("one effect");
    assert_eq!(one.len(), 1);
    let many = handler_effects(Json::Array(vec![navigate("a".to_string()), window_minimize()])).ok().expect("two");
    assert_eq!(many.len(), 2);
    let bad = handler_effects(Json::Array(vec![navigate("a".to_string()), Json::Null]));
    assert_eq!(bad.err().expect("second is bad").message(), "Lua handler must return an effect object");
    let none = handler_effects(Json::Array(vec![]));
    assert_eq!(none.err().expect("no effect").message(), "Lua handler must return at least one effect");
}

#[test]
fn runtime_error_messages() {
    assert_eq!(RuntimeError::handler_failed("go", "boom").message(), "Lua handler `go` failed: boom");
}

#[test]
fn fetch_options_are_read_with_defaults() {
    let r = FetchRequest::from_options(&Json::Object(vec![]));
    assert_eq!(r.method, "GET");
    assert_eq!(r.timeout_secs, 30);
    assert!(r.body.is_none());
    assert!(r.headers.is_empty());
    let opts = Json::Object(vec![
        ("method".to_string(), st("post")),
        ("body".to_string(), st("x=1")),
        ("timeout".to_string(), Json::Number(JsonNumber::Pos(5))),
        ("headers".to_string(), object2("A", st("1"), "B", Json::Bool(true))),
    ]);
    let r = FetchRequest::from_options(&opts);
    assert_eq!(r.method, "POST");
    assert_eq!(r.body.as_deref(), Some("x=1"));
    assert_eq!(r.timeout_secs, 5);
    assert_eq!(r.headers, vec![("A".to_string(), "1".to_string())]);
}

#[test]
fn fetch_async_effect_and_responses() {
    let e = fetch_async("http://x".to_string(), &Json::Object(vec![]), "on_done".to_string());
    assert_eq!(as_str(field(&e, "effect")), "http.fetch_async");
    assert_eq!(as_str(field(&e, "target")), "on_done");
    assert_eq!(as_str(field(field(&e, "payload"), "method")), "GET");
    let ok = fetch_response(200, "hi".to_string(), &vec![("k".to_string(), "v".to_string())]);
    assert!(matches!(field(&ok, "ok"), Json::Bool(true)));
    let failed = fetch_failure("timeout".to_string());
    assert!(matches!(field(&failed, "ok"), Json::Bool(false)));
    assert_eq!(as_str(field(&failed, "error")), "timeout");
    let status = fetch_status_error(404, "gone".to_string());
    assert!(matches!(field(&status, "status"), Json::Number(JsonNumber::Pos(404))));
}

#[test]
fn view_close_has_an_empty_payload() {
    let e = view_close("composer".to_string());
    assert_eq!(as_str(field(&e, "effect")), "view.close");
    assert_eq!(as_str(field(&e, "target")), "composer");
    match field(&e, "payload") {
        Json::Object(members) => assert!(members.is_empty()),
        _ => panic!("payload is an object"),
    }
}

#[test]
fn clock_readings_become_unix_seconds() {
    assert_eq!(unix_time(Ok(1_700_000_000)), 1_700_000_000);
    assert_eq!(unix_time(Err(3)), -3);
    assert_eq!(unix_time(Ok(u64::MAX)), i64::MAX);
    assert_eq!(unix_time(Err(u64::MAX)), -i64::MAX);
}
