use scrawler::json::{Json, JsonNumber};
use scrawler::manifest::{parse_manifest, AppManifest};
use scrawler::mcp::{format_semantic_tree, invoke_response, parse_error_response, McpServer, McpStep};
use scrawler::runtime::{notification_show, object1, view_open};

fn obj(members: Vec<(&str, Json)>) -> Json {
    Json::Object(members.into_iter().map(|(k, v)| (k.to_string(), v)).collect())
}

fn st(t: &str) -> Json {
    Json::Str(t.to_string())
}

fn request(id: u64, method: &str, params: Json) -> Json {
    obj(vec![
        ("jsonrpc", st("2.0")),
        ("id", Json::Number(JsonNumber::Pos(id))),
        ("method", st(method)),
        ("params", params),
    ])
}

fn notification(method: &str) -> Json {
    obj(vec![("jsonrpc", st("2.0")), ("method", st(method))])
}

fn field<'a>(v: &'a Json, key: &str) -> &'a Json {
    v.get(key).unwrap_or_else(|| panic!("missing member {key}"))
}

fn first(v: &Json) -> &Json {
    match v {
        Json::Array(items) => &items[0],
        _ => panic!("not an array"),
    }
}

fn as_str(v: &Json) -> &str {
    match v {
        Json::Str(t) => t.as_str(),
        _ => panic!("not a string"),
    }
}

fn reply(step: McpStep) -> Option<Json> {
    match step {
        McpStep::Reply(r) => r,
        McpStep::Invoke(_) => panic!("expected a reply"),
    }
}

fn mail_manifest() -> AppManifest {
    parse_manifest(
        r#"
        <app id="mail" name="Mail">
          <screen id="inbox" role="screen" label="Inbox">
            <component id="compose" role="button" label="Compose">
              <action id="compose_message" handler="compose_message">
                <param name="recipient" type="string" required="true" />
              </action>
            </component>
          </screen>
        </app>
        "#,
    )
    .ok()
    .expect("test manifest must parse")
}

fn test_server() -> McpServer {
    McpServer::new(mail_manifest())
}

fn start(server: &mut McpServer) {
    reply(server.handle_message(&request(1, "initialize", obj(vec![]))));
    reply(server.handle_message(&notification("notifications/initialized")));
}

#[test]
fn lists_tools_after_initialization() {
    let mut server = test_server();
    let initialize = reply(server.handle_message(&request(1, "initialize", obj(vec![]))))
        .expect("initialize is a request");
    assert_eq!(as_str(field(field(field(&initialize, "result"), "serverInfo"), "name")), "scrawler");

    assert!(reply(server.handle_message(&notification("notifications/initialized"))).is_none());

    let result = reply(server.handle_message(&request(2, "tools/list", obj(vec![]))))
        .expect("tools/list is a request");
    assert_eq!(
        as_str(field(first(field(field(&result, "result"), "tools")), "name")),
        "scrawler_get_semantic_tree"
    );
}

#[test]
fn semantic_tree_uses_compact_text_format() {
    let mut server = test_server();
    start(&mut server);

    let result = reply(server.handle_message(&request(
        2,
        "tools/call",
        obj(vec![("name", st("scrawler_get_semantic_tree")), ("arguments", obj(vec![]))]),
    )))
    .expect("tools/call is a request");

    let text = as_str(field(first(field(field(&result, "result"), "content")), "text"));
    assert!(text.contains("app:Mail id:mail"));
    assert!(text.contains("id:inbox"));
    assert!(text.contains("action:compose_message"));
    assert!(text.contains("*recipient string"));
}

#[test]
fn executes_a_declared_action() {
    let mut server = test_server();
    start(&mut server);

    let step = server.handle_message(&request(
        2,
        "tools/call",
        obj(vec![
            ("name", st("scrawler_invoke_action")),
            (
                "arguments",
                obj(vec![
                    ("node_id", st("compose")),
                    ("action_id", st("compose_message")),
                    ("arguments", obj(vec![("recipient", st("alice@example.com"))])),
                ]),
            ),
        ]),
    ));
    let pending = match step {
        McpStep::Invoke(p) => p,
        McpStep::Reply(_) => panic!("tools/call is a request that runs the handler"),
    };
    assert_eq!(pending.handler, "compose_message");
    assert_eq!(pending.arguments.len(), 1);
    assert_eq!(as_str(&pending.arguments[0].1), "alice@example.com");

    // What the handler returns: context.view.open("composer", { state = ... }).
    let effects = vec![view_open(
        "composer".to_string(),
        object1("state", object1("draft.recipient", st("alice@example.com"))),
    )];
    server.apply_manifest_effects(&effects);
    let result = invoke_response(pending.id, &effects, false);

    assert!(matches!(field(field(&result, "result"), "isError"), Json::Bool(false)));
    let text = as_str(field(first(field(field(&result, "result"), "content")), "text"));
    assert!(text.contains("view.open"));
    assert!(text.contains("composer"));
}

#[test]
fn invoke_action_arguments_are_optional() {
    let manifest = parse_manifest(
        r#"
        <app id="t" name="T">
          <component id="btn" role="button" label="Go">
            <action id="go" handler="go_action" />
          </component>
        </app>
        "#,
    )
    .ok()
    .expect("test manifest must parse");
    let mut server = McpServer::new(manifest);
    start(&mut server);

    let step = server.handle_message(&request(
        2,
        "tools/call",
        obj(vec![
            ("name", st("scrawler_invoke_action")),
            ("arguments", obj(vec![("node_id", st("btn")), ("action_id", st("go"))])),
        ]),
    ));
    let pending = match step {
        McpStep::Invoke(p) => p,
        McpStep::Reply(_) => panic!("tools/call is a request that runs the handler"),
    };
    assert_eq!(pending.handler, "go_action");
    let effects = vec![notification_show("done".to_string())];
    let result = invoke_response(pending.id, &effects, false);
    assert!(matches!(field(field(&result, "result"), "isError"), Json::Bool(false)));
}

#[test]
fn requests_before_initialize_are_refused() {
    let mut server = test_server();
    let result = reply(server.handle_message(&request(7, "tools/list", obj(vec![])))).expect("an answer");
    assert!(matches!(field(field(&result, "error"), "code"), Json::Number(JsonNumber::Neg(-32002))));
    assert!(!server.is_initialized());
}

#[test]
fn unknown_method_and_bad_version_are_errors() {
    let mut server = test_server();
    start(&mut server);
    let result = reply(server.handle_message(&request(3, "nope", obj(vec![])))).expect("an answer");
    assert!(matches!(field(field(&result, "error"), "code"), Json::Number(JsonNumber::Neg(-32601))));
    assert_eq!(as_str(field(field(&result, "error"), "message")), "Method not found: nope");
    let bad = obj(vec![("jsonrpc", st("1.0")), ("id", Json::Number(JsonNumber::Pos(4))), ("method", st("ping"))]);
    let result = reply(server.handle_message(&bad)).expect("an answer");
    assert!(matches!(field(field(&result, "error"), "code"), Json::Number(JsonNumber::Neg(-32600))));
}

#[test]
fn ping_answers_an_empty_object() {
    let mut server = test_server();
    start(&mut server);
    let result = reply(server.handle_message(&request(5, "ping", obj(vec![])))).expect("an answer");
    assert!(matches!(field(&result, "result"), Json::Object(m) if m.is_empty()));
}

#[test]
fn invoke_with_missing_required_argument_is_a_tool_error() {
    let mut server = test_server();
    start(&mut server);
    let step = server.handle_message(&request(
        2,
        "tools/call",
        obj(vec![
            ("name", st("scrawler_invoke_action")),
            ("arguments", obj(vec![("node_id", st("compose")), ("action_id", st("compose_message"))])),
        ]),
    ));
    let result = reply(step).expect("an answer");
    assert!(matches!(field(field(&result, "result"), "isError"), Json::Bool(true)));
}

#[test]
fn invoke_of_unknown_node_is_a_tool_error() {
    let mut server = test_server();
    start(&mut server);
    let step = server.handle_message(&request(
        2,
        "tools/call",
        obj(vec![
            ("name", st("scrawler_invoke_action")),
            ("arguments", obj(vec![("node_id", st("ghost")), ("action_id", st("x"))])),
        ]),
    ));
    let result = reply(step).expect("an answer");
    assert!(matches!(field(field(&result, "result"), "isError"), Json::Bool(true)));
    let text = as_str(field(first(field(field(&result, "result"), "content")), "text"));
    assert_eq!(text, "Unknown node: ghost");
}

#[test]
fn handled_lines_and_parse_errors() {
    let mut server = test_server();
    assert!(server.handle_line("   ").is_none());
    let step = server.handle_line("{not json").expect("a parse error is answered");
    let result = reply(step).expect("an answer");
    assert!(matches!(field(field(&result, "error"), "code"), Json::Number(JsonNumber::Neg(-32700))));
    assert!(as_str(field(field(&result, "error"), "message")).starts_with("Parse error: "));
    let step = server.handle_line(r#"{"jsonrpc":"2.0","id":1,"method":"initialize"}"#).expect("an answer");
    assert!(reply(step).is_some());
    assert!(server.is_initialized());
}

#[test]
fn parse_error_has_a_null_id() {
    let r = parse_error_response("boom");
    assert!(matches!(field(&r, "id"), Json::Null));
    assert_eq!(as_str(field(field(&r, "error"), "message")), "Parse error: boom");
}

#[test]
fn state_set_effect_changes_server_state_and_visibility_hides_nodes() {
    let mut server = test_server();
    let effects = vec![
        scrawler::runtime::state_set("draft.body".to_string(), st("Hello")),
        scrawler::runtime::set_visible("compose".to_string(), false),
    ];
    server.apply_manifest_effects(&effects);
    assert_eq!(server.state().get("draft.body").map(|v| v.as_str()), Some("Hello"));
    assert!(server.is_hidden("compose"));
    let tree = format_semantic_tree(server.manifest());
    assert!(tree.contains("id:compose"));
}

#[test]
fn storage_effects_become_storage_operations() {
    let mut server = test_server();
    let effects = vec![scrawler::runtime::storage_set("k".to_string(), st("v"))];
    let ops = server.apply_manifest_effects(&effects);
    assert_eq!(ops.len(), 1);
}

#[test]
fn semantic_tree_text_is_exact() {
    let tree = format_semantic_tree(&mail_manifest());
    assert_eq!(
        tree,
        "app:Mail id:mail\n[screen] id:inbox \"Inbox\"\n  [button] id:compose \"Compose\"\n    action:compose_message\n      *recipient string\n"
    );
    let m = parse_manifest(
        r#"<app id="n" name="Notes">
             <component id="b" role="button" label="Save" aria-label="Save note">
               <action id="save" handler="save" shortcut="Cmd+S" description="Store it">
                 <param name="title" type="string" required="false" description="Note title" />
               </action>
             </component>
           </app>"#,
    )
    .ok()
    .expect("parses");
    assert_eq!(
        format_semantic_tree(&m),
        "app:Notes id:n\n[button] id:b \"Save note\"\n  action:save [Cmd+S] Store it\n    ?title string — Note title\n"
    );
}

#[test]
fn window_only_effects_leave_the_server_unchanged() {
    let mut server = test_server();
    let before = format_semantic_tree(server.manifest());
    let effects = vec![
        scrawler::runtime::navigate("inbox".to_string()),
        notification_show("hi".to_string()),
        scrawler::runtime::window_minimize(),
    ];
    let ops = server.apply_manifest_effects(&effects);
    assert!(ops.is_empty());
    assert_eq!(format_semantic_tree(server.manifest()), before);
    assert!(server.state().get("inbox").is_none());
}

#[test]
fn requests_are_answered_with_their_id_and_notifications_are_not() {
    let mut server = test_server();
    start(&mut server);
    for (id, method) in [(7u64, "ping"), (8, "tools/list"), (9, "nope")] {
        let r = reply(server.handle_message(&request(id, method, obj(vec![])))).expect("an answer");
        match &r {
            Json::Object(m) => {
                assert_eq!(m.len(), 3);
                assert_eq!(m[0].0, "jsonrpc");
                assert_eq!(as_str(&m[0].1), "2.0");
                assert_eq!(m[1].0, "id");
                assert!(matches!(m[1].1, Json::Number(JsonNumber::Pos(n)) if n == id));
                assert!(m[2].0 == "result" || m[2].0 == "error");
            }
            _ => panic!("an answer is an object"),
        }
    }
    assert!(reply(server.handle_message(&notification("ping"))).is_none());
    let with_id = obj(vec![
        ("jsonrpc", st("2.0")),
        ("id", Json::Number(JsonNumber::Pos(10))),
        ("method", st("notifications/initialized")),
    ]);
    assert!(reply(server.handle_message(&with_id)).is_none());
}
