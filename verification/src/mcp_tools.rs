//! The fixed answers of the MCP server: what `initialize` returns, and the
//! description of the two tools that `tools/list` returns.

use crate::json::{member_models, models, text, Json, JsonV};
use crate::mcp::{PROTOCOL_VERSION, SERVER_VERSION};
use crate::runtime::{obj0, obj1, obj2, object1, object2};
use vstd::prelude::*;

verus! {

broadcast use crate::json::group_json_models;

/// An object of three members.
pub open spec fn obj3(k1: Seq<char>, v1: JsonV, k2: Seq<char>, v2: JsonV, k3: Seq<char>, v3: JsonV) -> JsonV {
    JsonV::Object(seq![(k1, v1), (k2, v2), (k3, v3)])
}

/// An object of four members.
pub open spec fn obj4(
    k1: Seq<char>,
    v1: JsonV,
    k2: Seq<char>,
    v2: JsonV,
    k3: Seq<char>,
    v3: JsonV,
    k4: Seq<char>,
    v4: JsonV,
) -> JsonV {
    JsonV::Object(seq![(k1, v1), (k2, v2), (k3, v3), (k4, v4)])
}

pub fn object3(k1: &str, v1: Json, k2: &str, v2: Json, k3: &str, v3: Json) -> (r: Json)
    ensures
        r@ == obj3(k1@, v1@, k2@, v2@, k3@, v3@),
{
    let ghost (a, b, c) = (v1@, v2@, v3@);
    let mut m: Vec<(String, Json)> = Vec::new();
    m.push((text(k1), v1));
    m.push((text(k2), v2));
    m.push((text(k3), v3));
    let r = Json::Object(m);
    assert(r@ == JsonV::Object(member_models(m@)));
    assert(member_models(m@) =~= seq![(k1@, a), (k2@, b), (k3@, c)]);
    r
}

pub fn object4(k1: &str, v1: Json, k2: &str, v2: Json, k3: &str, v3: Json, k4: &str, v4: Json) -> (r: Json)
    ensures
        r@ == obj4(k1@, v1@, k2@, v2@, k3@, v3@, k4@, v4@),
{
    let ghost (a, b, c, d) = (v1@, v2@, v3@, v4@);
    let mut m: Vec<(String, Json)> = Vec::new();
    m.push((text(k1), v1));
    m.push((text(k2), v2));
    m.push((text(k3), v3));
    m.push((text(k4), v4));
    let r = Json::Object(m);
    assert(r@ == JsonV::Object(member_models(m@)));
    assert(member_models(m@) =~= seq![(k1@, a), (k2@, b), (k3@, c), (k4@, d)]);
    r
}

/// `obj` with one more member at the end.
pub open spec fn with_member(obj: JsonV, k: Seq<char>, v: JsonV) -> JsonV {
    match obj {
        JsonV::Object(m) => JsonV::Object(m.push((k, v))),
        _ => obj,
    }
}

/// Adds a member at the end of an object.
pub fn add_member(obj: Json, k: &str, v: Json) -> (r: Json)
    ensures
        r@ == with_member(obj@, k@, v@),
{
    match obj {
        Json::Object(mut m) => {
            let ghost before = member_models(m@);
            let ghost vm = v@;
            m.push((text(k), v));
            assert(member_models(m@) =~= before.push((k@, vm)));
            Json::Object(m)
        },
        other => other,
    }
}

/// A JSON string.
pub open spec fn s(t: Seq<char>) -> JsonV {
    JsonV::Str(t)
}

/// `{ "type": t }`.
pub open spec fn typed(t: Seq<char>) -> JsonV {
    obj1("type"@, s(t))
}

fn typed_json(t: &str) -> (r: Json)
    ensures
        r@ == typed(t@),
{
    object1("type", Json::str_of(t))
}

/// The instructions given to a client at `initialize`.
pub open spec fn instructions() -> Seq<char> {
    "WORKFLOW: call get_tree first, then invoke_action.\nget_tree returns nodes (id, role, label) and their actions (id, description, params).\ninvoke_action(node_id, action_id, arguments?) runs the action and returns structured effects.\nEach effect has: effect (type), target (id), payload (data). The UI may be offline; effects are still returned and applied to app state."@
}

/// What `initialize` returns: the protocol version, the tools capability,
/// who the server is, and how to use it.
pub open spec fn initialize_result_v() -> JsonV {
    obj4(
        "protocolVersion"@,
        s(PROTOCOL_VERSION@),
        "capabilities"@,
        obj1("tools"@, obj0()),
        "serverInfo"@,
        obj3(
            "name"@,
            s("scrawler"@),
            "title"@,
            s("Scrawler Semantic Runtime"@),
            "version"@,
            s(SERVER_VERSION@),
        ),
        "instructions"@,
        s(instructions()),
    )
}

pub fn initialize_result() -> (r: Json)
    ensures
        r@ == initialize_result_v(),
{
    let server = object3(
        "name",
        Json::str_of("scrawler"),
        "title",
        Json::str_of("Scrawler Semantic Runtime"),
        "version",
        Json::str_of(SERVER_VERSION),
    );
    object4(
        "protocolVersion",
        Json::str_of(PROTOCOL_VERSION),
        "capabilities",
        object1("tools", Json::empty_object()),
        "serverInfo",
        server,
        "instructions",
        Json::str_of("WORKFLOW: call get_tree first, then invoke_action.\nget_tree returns nodes (id, role, label) and their actions (id, description, params).\ninvoke_action(node_id, action_id, arguments?) runs the action and returns structured effects.\nEach effect has: effect (type), target (id), payload (data). The UI may be offline; effects are still returned and applied to app state."),
    )
}

/// The hints of a tool.
pub open spec fn annotations(read_only: bool, idempotent: bool) -> JsonV {
    obj4(
        "readOnlyHint"@,
        JsonV::Bool(read_only),
        "destructiveHint"@,
        JsonV::Bool(false),
        "idempotentHint"@,
        JsonV::Bool(idempotent),
        "openWorldHint"@,
        JsonV::Bool(false),
    )
}

fn annotations_json(read_only: bool, idempotent: bool) -> (r: Json)
    ensures
        r@ == annotations(read_only, idempotent),
{
    object4(
        "readOnlyHint",
        Json::Bool(read_only),
        "destructiveHint",
        Json::Bool(false),
        "idempotentHint",
        Json::Bool(idempotent),
        "openWorldHint",
        Json::Bool(false),
    )
}

/// A tool: name, title, description, schemas and hints.
pub open spec fn tool_v(
    name: Seq<char>,
    title: Seq<char>,
    description: Seq<char>,
    input: JsonV,
    output: JsonV,
    hints: JsonV,
) -> JsonV {
    with_member(
        with_member(obj4("name"@, s(name), "title"@, s(title), "description"@, s(description), "inputSchema"@, input), "outputSchema"@, output),
        "annotations"@,
        hints,
    )
}

fn tool_json(name: &str, title: &str, description: &str, input: Json, output: Json, hints: Json) -> (r: Json)
    ensures
        r@ == tool_v(name@, title@, description@, input@, output@, hints@),
{
    let base = object4(
        "name",
        Json::str_of(name),
        "title",
        Json::str_of(title),
        "description",
        Json::str_of(description),
        "inputSchema",
        input,
    );
    add_member(add_member(base, "outputSchema", output), "annotations", hints)
}

/// The tool that reads the semantic tree.
pub open spec fn tree_tool_v() -> JsonV {
    tool_v(
        "scrawler_get_semantic_tree"@,
        "Get Semantic Tree"@,
        "Read the app structure: nodes (id, role, label) and their available actions with typed parameters. Always call this before invoke_action."@,
        obj2("type"@, s("object"@), "additionalProperties"@, JsonV::Bool(false)),
        obj3(
            "type"@,
            s("object"@),
            "properties"@,
            obj3(
                "app_id"@,
                typed("string"@),
                "app_name"@,
                typed("string"@),
                "tree"@,
                obj2("type"@, s("string"@), "description"@, s("Compact text representation of nodes and actions"@)),
            ),
            "additionalProperties"@,
            JsonV::Bool(false),
        ),
        annotations(true, true),
    )
}

fn tree_tool() -> (r: Json)
    ensures
        r@ == tree_tool_v(),
{
    let input = object2("type", Json::str_of("object"), "additionalProperties", Json::Bool(false));
    let props = object3(
        "app_id",
        typed_json("string"),
        "app_name",
        typed_json("string"),
        "tree",
        object2("type", Json::str_of("string"), "description", Json::str_of("Compact text representation of nodes and actions")),
    );
    let output = object3("type", Json::str_of("object"), "properties", props, "additionalProperties", Json::Bool(false));
    tool_json(
        "scrawler_get_semantic_tree",
        "Get Semantic Tree",
        "Read the app structure: nodes (id, role, label) and their available actions with typed parameters. Always call this before invoke_action.",
        input,
        output,
        annotations_json(true, true),
    )
}

/// Two strings as a JSON array.
pub open spec fn pair_array(a: Seq<char>, b: Seq<char>) -> JsonV {
    JsonV::Array(seq![s(a), s(b)])
}

fn pair_array_json(a: &str, b: &str) -> (r: Json)
    ensures
        r@ == pair_array(a@, b@),
{
    let mut v: Vec<Json> = Vec::new();
    v.push(Json::str_of(a));
    v.push(Json::str_of(b));
    let r = Json::Array(v);
    assert(r@ == JsonV::Array(models(v@)));
    assert(models(v@) =~= seq![s(a@), s(b@)]);
    r
}

/// The input schema of the tool that runs an action.
pub open spec fn invoke_input_v() -> JsonV {
    obj4(
        "type"@,
        s("object"@),
        "properties"@,
        obj3(
            "node_id"@,
            obj2("type"@, s("string"@), "description"@, s("Node id from get_tree"@)),
            "action_id"@,
            obj2("type"@, s("string"@), "description"@, s("Action id from get_tree"@)),
            "arguments"@,
            obj3(
                "type"@,
                s("object"@),
                "description"@,
                s("Action parameters (omit or pass {} if none required)"@),
                "additionalProperties"@,
                JsonV::Bool(true),
            ),
        ),
        "required"@,
        pair_array("node_id"@, "action_id"@),
        "additionalProperties"@,
        JsonV::Bool(false),
    )
}

fn invoke_input() -> (r: Json)
    ensures
        r@ == invoke_input_v(),
{
    let props = object3(
        "node_id",
        object2("type", Json::str_of("string"), "description", Json::str_of("Node id from get_tree")),
        "action_id",
        object2("type", Json::str_of("string"), "description", Json::str_of("Action id from get_tree")),
        "arguments",
        object3(
            "type",
            Json::str_of("object"),
            "description",
            Json::str_of("Action parameters (omit or pass {} if none required)"),
            "additionalProperties",
            Json::Bool(true),
        ),
    );
    object4(
        "type",
        Json::str_of("object"),
        "properties",
        props,
        "required",
        pair_array_json("node_id", "action_id"),
        "additionalProperties",
        Json::Bool(false),
    )
}

/// The output schema of the tool that runs an action.
pub open spec fn invoke_output_v() -> JsonV {
    obj3(
        "type"@,
        s("object"@),
        "properties"@,
        obj2(
            "effects"@,
            obj2(
                "type"@,
                s("array"@),
                "items"@,
                obj4(
                    "type"@,
                    s("object"@),
                    "properties"@,
                    obj3("effect"@, typed("string"@), "target"@, typed("string"@), "payload"@, obj0()),
                    "required"@,
                    pair_array("effect"@, "target"@),
                    "additionalProperties"@,
                    JsonV::Bool(false),
                ),
            ),
            "ui_online"@,
            typed("boolean"@),
        ),
        "additionalProperties"@,
        JsonV::Bool(false),
    )
}

fn invoke_output() -> (r: Json)
    ensures
        r@ == invoke_output_v(),
{
    let item = object4(
        "type",
        Json::str_of("object"),
        "properties",
        object3("effect", typed_json("string"), "target", typed_json("string"), "payload", Json::empty_object()),
        "required",
        pair_array_json("effect", "target"),
        "additionalProperties",
        Json::Bool(false),
    );
    let props = object2(
        "effects",
        object2("type", Json::str_of("array"), "items", item),
        "ui_online",
        typed_json("boolean"),
    );
    object3("type", Json::str_of("object"), "properties", props, "additionalProperties", Json::Bool(false))
}

/// The tool that runs an action.
pub open spec fn invoke_tool_v() -> JsonV {
    tool_v(
        "scrawler_invoke_action"@,
        "Invoke Action"@,
        "Run an action declared on a node. Returns structured effects (each with effect type, target, and payload). Errors if node_id/action_id is unknown or arguments are invalid."@,
        invoke_input_v(),
        invoke_output_v(),
        annotations(false, false),
    )
}

fn invoke_tool() -> (r: Json)
    ensures
        r@ == invoke_tool_v(),
{
    tool_json(
        "scrawler_invoke_action",
        "Invoke Action",
        "Run an action declared on a node. Returns structured effects (each with effect type, target, and payload). Errors if node_id/action_id is unknown or arguments are invalid.",
        invoke_input(),
        invoke_output(),
        annotations_json(false, false),
    )
}

/// What `tools/list` returns: the two tools.
pub open spec fn tools_result_v() -> JsonV {
    obj1("tools"@, JsonV::Array(seq![tree_tool_v(), invoke_tool_v()]))
}

pub fn tools_result() -> (r: Json)
    ensures
        r@ == tools_result_v(),
{
    let a = tree_tool();
    let b = invoke_tool();
    let ghost (av, bv) = (a@, b@);
    let mut v: Vec<Json> = Vec::new();
    v.push(a);
    v.push(b);
    let arr = Json::Array(v);
    assert(arr@ == JsonV::Array(models(v@)));
    assert(models(v@) =~= seq![av, bv]);
    object1("tools", arr)
}

} // verus!
