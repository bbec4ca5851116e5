//! The MCP server of an application: JSON-RPC messages in, responses out.
//!
//! The server answers `initialize`, `tools/list` and `tools/call` for two
//! tools: `scrawler_get_semantic_tree` and `scrawler_invoke_action`. To run
//! an action it hands the caller the handler and the checked arguments; the
//! caller runs the Lua handler, gives the effects back to be applied to the
//! server's own copy of the application, and has the response built.

use crate::collections::{first_value, NameSet, TextMap};
use crate::json::{
    json_text, json_to_string, member_models, models, string_eq, text, Json, JsonNumber, JsonV, NumberV,
};
use crate::manifest::{
    node_models, ActionParameter, ActionV, AppManifest, ManifestV, NodeV, ParamV, SemanticAction, SemanticNode,
    StateValue, StateValueV,
};
use crate::runtime::{concat3, concat4, obj0, obj1, object1, object2, RuntimeError};
use crate::storage::AppStorage;
use crate::tree::{edit_first, edit_forest, find_node, find_v, NodeEdit, NodeEditV};
use vstd::prelude::*;

verus! {

broadcast use crate::json::group_json_models, crate::manifest::group_node_models;

/// The version of the protocol this server speaks.
pub const PROTOCOL_VERSION: &'static str = "2025-03-26";

/// The version of this server.
pub const SERVER_VERSION: &'static str = "0.1.0";

// ─── Responses ──────────────────────────────────────────────────────────────

/// A successful JSON-RPC response.
pub open spec fn success_v(id: JsonV, result: JsonV) -> JsonV {
    JsonV::Object(seq![("jsonrpc"@, JsonV::Str("2.0"@)), ("id"@, id), ("result"@, result)])
}

/// A JSON-RPC error response.
pub open spec fn protocol_error_v(id: JsonV, code: i32, message: Seq<char>) -> JsonV {
    JsonV::Object(
        seq![
            ("jsonrpc"@, JsonV::Str("2.0"@)),
            ("id"@, id),
            ("error"@, JsonV::Object(seq![("code"@, code_number(code)), ("message"@, JsonV::Str(message))])),
        ],
    )
}

/// An error code as a JSON number.
pub open spec fn code_number(code: i32) -> JsonV {
    if code >= 0 {
        JsonV::Number(NumberV::Pos(code as u64))
    } else {
        JsonV::Number(NumberV::Neg(code as i64))
    }
}

/// The text content of a tool result.
pub open spec fn text_content(t: Seq<char>) -> JsonV {
    JsonV::Array(seq![JsonV::Object(seq![("type"@, JsonV::Str("text"@)), ("text"@, JsonV::Str(t))])])
}

/// A tool call that succeeded: its text, and the same as structured data.
pub open spec fn tool_success_v(id: JsonV, t: Seq<char>, structured: JsonV) -> JsonV {
    success_v(
        id,
        JsonV::Object(
            seq![
                ("content"@, text_content(t)),
                ("structuredContent"@, structured),
                ("isError"@, JsonV::Bool(false)),
            ],
        ),
    )
}

/// A tool call that failed, with its message.
pub open spec fn tool_error_v(id: JsonV, message: Seq<char>) -> JsonV {
    success_v(
        id,
        JsonV::Object(
            seq![
                ("content"@, text_content(message)),
                ("structuredContent"@, obj1("error"@, JsonV::Str(message))),
                ("isError"@, JsonV::Bool(true)),
            ],
        ),
    )
}

fn object3(k1: &str, v1: Json, k2: &str, v2: Json, k3: &str, v3: Json) -> (r: Json)
    ensures
        r@ == JsonV::Object(seq![(k1@, v1@), (k2@, v2@), (k3@, v3@)]),
{
    let ghost (a, b, c) = (v1@, v2@, v3@);
    let mut m: Vec<(String, Json)> = Vec::new();
    m.push((text(k1), v1));
    m.push((text(k2), v2));
    m.push((text(k3), v3));
    let r = Json::Object(m);
    assert(r@ == JsonV::Object(member_models(m@)));
    assert(member_models(m@) =~= seq![(k1@, a), (k2@, b), (k3@, c)]);
    r
}

/// A successful JSON-RPC response.
pub fn success_response(id: Json, result: Json) -> (r: Json)
    ensures
        r@ == success_v(id@, result@),
{
    object3("jsonrpc", Json::str_of("2.0"), "id", id, "result", result)
}

/// An error code.
fn code_json(code: i32) -> (r: Json)
    ensures
        r@ == code_number(code),
{
    if code >= 0 {
        Json::Number(JsonNumber::Pos(code as u64))
    } else {
        Json::Number(JsonNumber::Neg(code as i64))
    }
}

/// A JSON-RPC error response.
pub fn protocol_error(id: Json, code: i32, message: &str) -> (r: Json)
    ensures
        r@ == protocol_error_v(id@, code, message@),
{
    let error = object2("code", code_json(code), "message", Json::str_of(message));
    object3("jsonrpc", Json::str_of("2.0"), "id", id, "error", error)
}

fn text_content_json(t: String) -> (r: Json)
    ensures
        r@ == text_content(t@),
{
    let item = object2("type", Json::str_of("text"), "text", Json::Str(t));
    let ghost iv = item@;
    let mut items: Vec<Json> = Vec::new();
    items.push(item);
    let r = Json::Array(items);
    assert(r@ == JsonV::Array(models(items@)));
    assert(models(items@) =~= seq![iv]);
    r
}

/// The response to a tool call that succeeded.
pub fn tool_success(id: Json, t: String, structured: Json) -> (r: Json)
    ensures
        r@ == tool_success_v(id@, t@, structured@),
{
    let result = object3("content", text_content_json(t), "structuredContent", structured, "isError", Json::Bool(false));
    success_response(id, result)
}

/// The response to a tool call that failed.
pub fn tool_error(id: Json, message: String) -> (r: Json)
    ensures
        r@ == tool_error_v(id@, message@),
{
    let structured = object1("error", Json::Str(message.clone()));
    let result = object3("content", text_content_json(message), "structuredContent", structured, "isError", Json::Bool(true));
    success_response(id, result)
}

// ─── The semantic tree as text ──────────────────────────────────────────────

/// The line of a parameter.
pub open spec fn param_line(p: ParamV, indent: Seq<char>) -> Seq<char> {
    let req = if p.required {
        "*"@
    } else {
        "?"@
    };
    if p.description.len() == 0 {
        indent + "  "@ + req + p.name + " "@ + p.kind + "\n"@
    } else {
        indent + "  "@ + req + p.name + " "@ + p.kind + " — "@ + p.description + "\n"@
    }
}

/// The lines of parameters.
pub open spec fn params_text(ps: Seq<ParamV>, indent: Seq<char>) -> Seq<char>
    decreases ps.len(),
{
    if ps.len() == 0 {
        Seq::empty()
    } else {
        params_text(ps.drop_last(), indent) + param_line(ps.last(), indent)
    }
}

/// The first line of an action.
pub open spec fn action_line(a: ActionV, indent: Seq<char>) -> Seq<char> {
    let shortcut = match a.shortcut {
        Some(s) => " ["@ + s + "]"@,
        None => Seq::empty(),
    };
    if a.description.len() == 0 {
        indent + "action:"@ + a.id + shortcut + "\n"@
    } else {
        indent + "action:"@ + a.id + shortcut + " "@ + a.description + "\n"@
    }
}

/// The lines of an action: its own, then one per parameter.
pub open spec fn action_text(a: ActionV, indent: Seq<char>) -> Seq<char> {
    action_line(a, indent) + params_text(a.parameters, indent)
}

/// The lines of actions.
pub open spec fn actions_text(actions: Seq<ActionV>, indent: Seq<char>) -> Seq<char>
    decreases actions.len(),
{
    if actions.len() == 0 {
        Seq::empty()
    } else {
        actions_text(actions.drop_last(), indent) + action_text(actions.last(), indent)
    }
}

/// The label an agent sees: the aria label when there is one.
pub open spec fn shown_label(n: NodeV) -> Seq<char> {
    match n.aria_label {
        Some(l) => l,
        None => n.label,
    }
}

/// The line of a node.
pub open spec fn node_line(n: NodeV, indent: Seq<char>) -> Seq<char> {
    indent + "["@ + n.role + "] id:"@ + n.id + " \""@ + shown_label(n) + "\"\n"@
}

/// The lines of a node: its own, its actions, then its children, each two
/// spaces deeper.
pub open spec fn node_text(n: NodeV, indent: Seq<char>) -> Seq<char>
    decreases n, 1nat,
{
    node_line(n, indent) + actions_text(n.actions, indent + "  "@) + forest_text(n.children, indent + "  "@)
}

/// The lines of nodes, in order.
pub open spec fn forest_text(nodes: Seq<NodeV>, indent: Seq<char>) -> Seq<char>
    decreases nodes, 0nat,
{
    if nodes.len() == 0 {
        Seq::empty()
    } else {
        node_text(nodes[0], indent) + forest_text(nodes.drop_first(), indent)
    }
}

/// The compact text form of the semantic tree.
pub open spec fn tree_text(m: ManifestV) -> Seq<char> {
    "app:"@ + m.name + " id:"@ + m.id + "\n"@ + forest_text(m.nodes, Seq::empty())
}

/// Writes the line of a parameter.
fn write_param_line(output: &mut String, p: &ActionParameter, indent: &str)
    ensures
        final(output)@ == old(output)@ + param_line(p@, indent@),
{
    let ghost before = output@;
    output.append(indent);
    output.append("  ");
    if p.required {
        output.append("*");
    } else {
        output.append("?");
    }
    output.append(p.name.as_str());
    output.append(" ");
    output.append(p.kind.as_str());
    if p.description.as_str().unicode_len() == 0 {
        output.append("\n");
    } else {
        output.append(" — ");
        output.append(p.description.as_str());
        output.append("\n");
    }
    proof {
        let line = output@.subrange(before.len() as int, output@.len() as int);
        assert(output@ =~= before + line);
        assert(line =~= param_line(p@, indent@));
    }
}

/// Writes the first line of an action.
fn write_action_line(output: &mut String, action: &SemanticAction, indent: &str)
    ensures
        final(output)@ == old(output)@ + action_line(action@, indent@),
{
    let ghost start = output@;
    output.append(indent);
    output.append("action:");
    output.append(action.id.as_str());
    match &action.shortcut {
        Some(s) => {
            output.append(" [");
            output.append(s.as_str());
            output.append("]");
        },
        None => {},
    }
    if action.description.as_str().unicode_len() == 0 {
        output.append("\n");
    } else {
        output.append(" ");
        output.append(action.description.as_str());
        output.append("\n");
    }
    proof {
        let head = output@.subrange(start.len() as int, output@.len() as int);
        assert(output@ =~= start + head);
        assert(head =~= action_line(action@, indent@));
    }
}

/// Writes the lines of an action, each line starting with `indent`.
pub fn format_action(output: &mut String, action: &SemanticAction, indent: &str)
    ensures
        final(output)@ == old(output)@ + action_text(action@, indent@),
{
    let ghost start = output@;
    write_action_line(output, action, indent);
    let ghost ps = action@.parameters;
    let mut i: usize = 0;
    while i < action.parameters.len()
        invariant
            i <= action.parameters.len(),
            ps == action@.parameters,
            ps.len() == action.parameters.len(),
            output@ == start + action_line(action@, indent@) + params_text(ps.subrange(0, i as int), indent@),
        decreases action.parameters.len() - i,
    {
        let p = &action.parameters[i];
        assert(ps[i as int] == p@);
        write_param_line(output, p, indent);
        assert(ps.subrange(0, i + 1).drop_last() =~= ps.subrange(0, i as int));
        i = i + 1;
    }
    assert(ps.subrange(0, ps.len() as int) =~= ps);
}

proof fn lemma_forest_text_push(nodes: Seq<NodeV>, n: NodeV, indent: Seq<char>)
    ensures
        forest_text(nodes.push(n), indent) == forest_text(nodes, indent) + node_text(n, indent),
    decreases nodes.len(),
{
    if nodes.len() == 0 {
        assert(nodes.push(n).drop_first() =~= Seq::<NodeV>::empty());
        assert(forest_text(Seq::<NodeV>::empty(), indent) =~= Seq::<char>::empty());
        assert(forest_text(nodes.push(n), indent) =~= node_text(n, indent));
    } else {
        lemma_forest_text_push(nodes.drop_first(), n, indent);
        assert(nodes.push(n).drop_first() =~= nodes.drop_first().push(n));
        assert(nodes.push(n)[0] == nodes[0]);
    }
}

/// Writes the lines of a node and of what it holds, each line of the node
/// starting with `indent`.
fn format_node(output: &mut String, node: &SemanticNode, indent: &str)
    ensures
        final(output)@ == old(output)@ + node_text(node@, indent@),
    decreases node,
{
    let ghost start = output@;
    output.append(indent);
    output.append("[");
    output.append(node.role.as_str());
    output.append("] id:");
    output.append(node.id.as_str());
    output.append(" \"");
    match &node.aria_label {
        Some(l) => output.append(l.as_str()),
        None => output.append(node.label.as_str()),
    }
    output.append("\"\n");
    proof {
        let line = output@.subrange(start.len() as int, output@.len() as int);
        assert(output@ =~= start + line);
        assert(line =~= node_line(node@, indent@));
    }
    let ghost head = output@;
    let mut child_indent = text(indent);
    child_indent.append("  ");
    let ghost acts = node@.actions;
    let mut i: usize = 0;
    while i < node.actions.len()
        invariant
            i <= node.actions.len(),
            acts == node@.actions,
            acts.len() == node.actions.len(),
            acts == node.actions@.map_values(|a: SemanticAction| a@),
            child_indent@ == indent@ + "  "@,
            output@ == head + actions_text(acts.subrange(0, i as int), child_indent@),
        decreases node.actions.len() - i,
    {
        assert(acts[i as int] == node.actions@[i as int]@);
        format_action(output, &node.actions[i], child_indent.as_str());
        assert(acts.subrange(0, i + 1).drop_last() =~= acts.subrange(0, i as int));
        i = i + 1;
    }
    assert(acts.subrange(0, acts.len() as int) =~= acts);
    let ghost mid = output@;
    let ghost kids = node@.children;
    let mut j: usize = 0;
    assert(node_models(node.children@).len() == node.children@.len());
    assert(forest_text(kids.subrange(0, 0), child_indent@) =~= Seq::<char>::empty());
    while j < node.children.len()
        invariant
            j <= node.children.len(),
            kids == node@.children,
            kids == node_models(node.children@),
            kids.len() == node.children.len(),
            child_indent@ == indent@ + "  "@,
            output@ == mid + forest_text(kids.subrange(0, j as int), child_indent@),
        decreases node.children.len() - j,
    {
        assert(kids[j as int] == node.children@[j as int]@);
        assert(decreases_to!(node => node.children@[j as int])) by {
            assert(decreases_to!(node => node.children));
            assert(decreases_to!(node.children => node.children@));
            assert(decreases_to!(node.children@ => node.children@[j as int]));
        }
        format_node(output, &node.children[j], child_indent.as_str());
        proof {
            lemma_forest_text_push(kids.subrange(0, j as int), kids[j as int], child_indent@);
            assert(kids.subrange(0, j + 1) =~= kids.subrange(0, j as int).push(kids[j as int]));
        }
        j = j + 1;
    }
    assert(kids.subrange(0, kids.len() as int) =~= kids);
}

/// The semantic tree in the compact text form an agent reads: the
/// application, then each node with its actions and parameters, children
/// indented under their parent.
pub fn format_semantic_tree(manifest: &AppManifest) -> (t: String)
    ensures
        t@ == tree_text(manifest@),
{
    let mut output = text("app:");
    output.append(manifest.name.as_str());
    output.append(" id:");
    output.append(manifest.id.as_str());
    output.append("\n");
    let ghost head = output@;
    let ghost ns = manifest@.nodes;
    let mut i: usize = 0;
    assert(forest_text(ns.subrange(0, 0), Seq::empty()) =~= Seq::<char>::empty());
    while i < manifest.nodes.len()
        invariant
            i <= manifest.nodes.len(),
            ns == manifest@.nodes,
            ns == node_models(manifest.nodes@),
            ns.len() == manifest.nodes.len(),
            output@ == head + forest_text(ns.subrange(0, i as int), Seq::empty()),
        decreases manifest.nodes.len() - i,
    {
        assert(ns[i as int] == manifest.nodes@[i as int]@);
        format_node(&mut output, &manifest.nodes[i], "");
        proof {
            reveal_strlit("");
            lemma_forest_text_push(ns.subrange(0, i as int), ns[i as int], Seq::empty());
            assert(ns.subrange(0, i + 1) =~= ns.subrange(0, i as int).push(ns[i as int]));
        }
        i = i + 1;
    }
    assert(ns.subrange(0, ns.len() as int) =~= ns);
    output
}

// ─── Arguments ──────────────────────────────────────────────────────────────

/// A value has the declared type of a parameter.
pub open spec fn kind_matches(v: JsonV, kind: Seq<char>) -> bool {
    if kind == "string"@ {
        v is Str
    } else if kind == "number"@ {
        v is Number
    } else if kind == "boolean"@ {
        v is Bool
    } else if kind == "object"@ {
        v is Object
    } else if kind == "array"@ {
        v is Array
    } else {
        false
    }
}

/// Whether a value has the declared type `kind`; an unknown type accepts
/// no value.
pub fn value_matches_kind(value: &Json, kind: &str) -> (b: bool)
    ensures
        b == kind_matches(value@, kind@),
{
    let k = text(kind);
    if string_eq(&k, &text("string")) {
        match value {
            Json::Str(_) => true,
            _ => false,
        }
    } else if string_eq(&k, &text("number")) {
        match value {
            Json::Number(_) => true,
            _ => false,
        }
    } else if string_eq(&k, &text("boolean")) {
        match value {
            Json::Bool(_) => true,
            _ => false,
        }
    } else if string_eq(&k, &text("object")) {
        match value {
            Json::Object(_) => true,
            _ => false,
        }
    } else if string_eq(&k, &text("array")) {
        match value {
            Json::Array(_) => true,
            _ => false,
        }
    } else {
        false
    }
}

/// What is wrong with the argument of a parameter, if anything.
pub open spec fn param_problem(p: ParamV, args: Seq<(Seq<char>, JsonV)>) -> Option<Seq<char>> {
    match first_value(args, p.name) {
        None => if p.required {
            Some("Missing required parameter `"@ + p.name + "`"@)
        } else {
            None
        },
        Some(v) => if kind_matches(v, p.kind) {
            None
        } else {
            Some("Parameter `"@ + p.name + "` must be `"@ + p.kind + "`"@)
        },
    }
}

/// The problem of the first parameter, in declaration order, whose
/// argument is wrong.
pub open spec fn arguments_problem(params: Seq<ParamV>, args: Seq<(Seq<char>, JsonV)>) -> Option<Seq<char>>
    decreases params.len(),
{
    if params.len() == 0 {
        None
    } else {
        match param_problem(params[0], args) {
            Some(m) => Some(m),
            None => arguments_problem(params.drop_first(), args),
        }
    }
}

proof fn lemma_arguments_problem_prefix(params: Seq<ParamV>, args: Seq<(Seq<char>, JsonV)>, i: int)
    requires
        0 <= i <= params.len(),
        forall|j: int| 0 <= j < i ==> param_problem(#[trigger] params[j], args) is None,
    ensures
        arguments_problem(params, args) == arguments_problem(params.subrange(i, params.len() as int), args),
    decreases i,
{
    if i > 0 {
        assert forall|j: int| 0 <= j < i - 1 implies param_problem(#[trigger] params.drop_first()[j], args) is None by {
            assert(params.drop_first()[j] == params[j + 1]);
        }
        lemma_arguments_problem_prefix(params.drop_first(), args, i - 1);
        assert(params.drop_first().subrange(i - 1, params.len() - 1) =~= params.subrange(i, params.len() as int));
    } else {
        assert(params.subrange(0, params.len() as int) =~= params);
    }
}

/// Checks the arguments of an action against its declared parameters, in
/// declaration order: a required one must be there, and each one there
/// must have the declared type.
pub fn validate_arguments(action: &SemanticAction, arguments: &Vec<(String, Json)>) -> (r: Result<(), String>)
    ensures
        match r {
            Ok(()) => arguments_problem(action@.parameters, member_models(arguments@)) is None,
            Err(m) => arguments_problem(action@.parameters, member_models(arguments@)) == Some(m@),
        },
{
    let ghost ps = action@.parameters;
    let ghost args = member_models(arguments@);
    let mut i: usize = 0;
    while i < action.parameters.len()
        invariant
            i <= action.parameters.len(),
            ps == action@.parameters,
            ps.len() == action.parameters.len(),
            args == member_models(arguments@),
            forall|j: int| 0 <= j < i ==> param_problem(#[trigger] ps[j], args) is None,
        decreases action.parameters.len() - i,
    {
        let p = &action.parameters[i];
        assert(ps[i as int] == p@);
        proof {
            lemma_arguments_problem_prefix(ps, args, i as int);
            assert(ps.subrange(i as int, ps.len() as int)[0] == ps[i as int]);
        }
        match crate::json::member_get(arguments, p.name.as_str()) {
            None => {
                if p.required {
                    return Err(concat3("Missing required parameter `", p.name.as_str(), "`"));
                }
            },
            Some(value) => {
                if !value_matches_kind(value, p.kind.as_str()) {
                    let mut m = concat3("Parameter `", p.name.as_str(), "` must be `");
                    m.append(p.kind.as_str());
                    m.append("`");
                    return Err(m);
                }
            },
        }
        i = i + 1;
    }
    proof {
        lemma_arguments_problem_prefix(ps, args, i as int);
        assert(ps.subrange(i as int, ps.len() as int) =~= Seq::<ParamV>::empty());
    }
    Ok(())
}

// ─── The answer to an invocation ────────────────────────────────────────────

/// The text of a string field, or `?`.
pub open spec fn field_or_question(e: JsonV, k: Seq<char>) -> Seq<char> {
    match e.field(k) {
        Some(JsonV::Str(s)) => s,
        _ => "?"@,
    }
}

/// The line that reports an effect: kind, target, and the payload's JSON
/// text unless it is missing or null.
pub open spec fn effect_line(e: JsonV) -> Seq<char> {
    let head = field_or_question(e, "effect"@) + " → "@ + field_or_question(e, "target"@);
    match e.field("payload"@) {
        Some(p) => if p is Null {
            head
        } else {
            head + " "@ + json_text(p)
        },
        None => head,
    }
}

/// Lines joined by newlines.
pub open spec fn joined(lines: Seq<Seq<char>>) -> Seq<char>
    decreases lines.len(),
{
    if lines.len() == 0 {
        Seq::empty()
    } else if lines.len() == 1 {
        lines[0]
    } else {
        joined(lines.drop_last()) + "\n"@ + lines.last()
    }
}

/// The warning added when an effect could not reach the native window.
pub open spec fn offline_warning() -> Seq<char> {
    "warning: ui offline — start `scrawler run <app.xml>`"@
}

/// The lines that report a run of effects.
pub open spec fn report_lines(effects: Seq<JsonV>, all_delivered: bool) -> Seq<Seq<char>> {
    let lines = effects.map_values(|e: JsonV| effect_line(e));
    if all_delivered {
        lines
    } else {
        lines.push(offline_warning())
    }
}

/// The answer to a successful invocation.
pub open spec fn invoke_response_v(id: JsonV, effects: Seq<JsonV>, all_delivered: bool) -> JsonV {
    tool_success_v(
        id,
        joined(report_lines(effects, all_delivered)),
        crate::runtime::obj2("effects"@, JsonV::Array(effects), "ui_online"@, JsonV::Bool(all_delivered)),
    )
}

fn field_text_or_question(e: &Json, k: &str) -> (r: String)
    ensures
        r@ == field_or_question(e@, k@),
{
    match e.get(k) {
        Some(Json::Str(s)) => s.clone(),
        _ => text("?"),
    }
}

/// The line that reports an effect.
fn effect_line_of(e: &Json) -> (r: String)
    ensures
        r@ == effect_line(e@),
{
    let mut line = field_text_or_question(e, "effect");
    line.append(" → ");
    let target = field_text_or_question(e, "target");
    line.append(target.as_str());
    match e.get("payload") {
        Some(p) => {
            match p {
                Json::Null => {},
                _ => {
                    line.append(" ");
                    let t = json_to_string(p);
                    line.append(t.as_str());
                },
            }
        },
        None => {},
    }
    line
}

/// The answer to an invocation whose handler returned `effects`:
/// one line per effect (and a warning when some effect could not reach
/// the native window), and the effects as structured data.
pub fn invoke_response(id: Json, effects: &Vec<Json>, all_delivered: bool) -> (r: Json)
    ensures
        r@ == invoke_response_v(id@, models(effects@), all_delivered),
{
    let ghost es = models(effects@);
    let ghost lines = report_lines(es, all_delivered);
    let ghost base = es.map_values(|e: JsonV| effect_line(e));
    let mut out = String::new();
    let mut i: usize = 0;
    while i < effects.len()
        invariant
            i <= effects.len(),
            es == models(effects@),
            es.len() == effects.len(),
            base == es.map_values(|e: JsonV| effect_line(e)),
            out@ == joined(base.subrange(0, i as int)),
        decreases effects.len() - i,
    {
        let line = effect_line_of(&effects[i]);
        assert(es[i as int] == effects@[i as int]@);
        proof {
            assert(base.subrange(0, i + 1).drop_last() =~= base.subrange(0, i as int));
            assert(base.subrange(0, i + 1).last() == line@);
        }
        if i > 0 {
            out.append("\n");
        } else {
            proof {
                assert(joined(base.subrange(0, 0)) =~= Seq::<char>::empty());
            }
        }
        let ghost before = out@;
        out.append(line.as_str());
        proof {
            if i == 0 {
                assert(out@ =~= line@);
            }
        }
        i = i + 1;
    }
    assert(base.subrange(0, es.len() as int) =~= base);
    if !all_delivered {
        proof {
            assert(lines.drop_last() =~= base);
        }
        if effects.len() > 0 {
            out.append("\n");
        }
        out.append("warning: ui offline — start `scrawler run <app.xml>`");
        proof {
            if es.len() == 0 {
                assert(lines =~= seq![offline_warning()]);
                assert(joined(base) =~= Seq::<char>::empty());
            }
        }
    }
    let mut copies: Vec<Json> = Vec::new();
    let mut j: usize = 0;
    while j < effects.len()
        invariant
            j <= effects.len(),
            es == models(effects@),
            models(copies@) == es.subrange(0, j as int),
        decreases effects.len() - j,
    {
        let ghost before = models(copies@);
        copies.push(effects[j].deep_clone());
        assert(models(copies@) =~= before.push(es[j as int]));
        assert(es.subrange(0, j + 1) =~= es.subrange(0, j as int).push(es[j as int]));
        j = j + 1;
    }
    assert(es.subrange(0, es.len() as int) =~= es);
    let array = Json::Array(copies);
    assert(array@ == JsonV::Array(models(copies@)));
    let structured = object2("effects", array, "ui_online", Json::Bool(all_delivered));
    tool_success(id, out, structured)
}

// ─── The server ─────────────────────────────────────────────────────────────

/// What the server holds: the application's tree, whether a client has
/// initialized the session, the nodes made hidden, and the state.
pub struct McpV {
    pub manifest: ManifestV,
    pub initialized: bool,
    pub hidden: Set<Seq<char>>,
    pub state: Map<Seq<char>, Seq<char>>,
    pub storage: Seq<char>,
}

/// The MCP server of an application.
pub struct McpServer {
    manifest: AppManifest,
    initialized: bool,
    hidden_nodes: NameSet,
    storage: AppStorage,
    state: TextMap,
}

impl View for McpServer {
    type V = McpV;

    closed spec fn view(&self) -> McpV {
        McpV {
            manifest: self.manifest@,
            initialized: self.initialized,
            hidden: self.hidden_nodes@,
            state: self.state@,
            storage: self.storage@,
        }
    }
}

/// The state that the `<state>` declarations of a manifest give: each key
/// with its default, a later declaration of a key winning.
pub open spec fn declared_state(values: Seq<StateValueV>) -> Map<Seq<char>, Seq<char>>
    decreases values.len(),
{
    if values.len() == 0 {
        Map::empty()
    } else {
        declared_state(values.drop_last()).insert(values.last().id, values.last().default)
    }
}

/// The state declared by a manifest.
pub fn initial_state(manifest: &AppManifest) -> (m: TextMap)
    ensures
        m@ == declared_state(manifest@.state),
{
    let ghost vs = manifest@.state;
    let mut m = TextMap::new();
    let mut i: usize = 0;
    assert(declared_state(vs.subrange(0, 0)) =~= Map::empty());
    while i < manifest.state.len()
        invariant
            i <= manifest.state.len(),
            vs == manifest@.state,
            vs == manifest.state@.map_values(|v: StateValue| v@),
            m@ == declared_state(vs.subrange(0, i as int)),
        decreases manifest.state.len() - i,
    {
        let entry = &manifest.state[i];
        assert(vs[i as int] == entry@);
        m.insert(entry.id.clone(), entry.default.clone());
        assert(vs.subrange(0, i + 1).drop_last() =~= vs.subrange(0, i as int));
        i = i + 1;
    }
    assert(vs.subrange(0, vs.len() as int) =~= vs);
    m
}

/// A write to the application's storage that an effect asks for.
pub enum StorageOp {
    KvSet { key: String, value: Json },
    KvDelete(String),
    FileWrite { path: String, content: String },
    FileDelete(String),
    DirCreate(String),
}

pub enum StorageOpV {
    KvSet(Seq<char>, JsonV),
    KvDelete(Seq<char>),
    FileWrite(Seq<char>, Seq<char>),
    FileDelete(Seq<char>),
    DirCreate(Seq<char>),
}

impl View for StorageOp {
    type V = StorageOpV;

    open spec fn view(&self) -> StorageOpV {
        match self {
            StorageOp::KvSet { key, value } => StorageOpV::KvSet(key@, value@),
            StorageOp::KvDelete(k) => StorageOpV::KvDelete(k@),
            StorageOp::FileWrite { path, content } => StorageOpV::FileWrite(path@, content@),
            StorageOp::FileDelete(p) => StorageOpV::FileDelete(p@),
            StorageOp::DirCreate(p) => StorageOpV::DirCreate(p@),
        }
    }
}

/// The text a state key takes from a JSON value: a string is itself, null
/// is the empty text, and any other value is its JSON text.
pub open spec fn state_text(v: JsonV) -> Seq<char> {
    match v {
        JsonV::Str(s) => s,
        JsonV::Null => Seq::empty(),
        _ => json_text(v),
    }
}

/// The state text of a JSON value.
pub fn json_to_state_string(v: &Json) -> (r: String)
    ensures
        r@ == state_text(v@),
{
    match v {
        Json::Str(s) => s.clone(),
        Json::Null => String::new(),
        _ => json_to_string(v),
    }
}

/// `payload.<k>` of an effect.
pub open spec fn payload_field(e: JsonV, k: Seq<char>) -> Option<JsonV> {
    match e.field("payload"@) {
        Some(p) => p.field(k),
        None => None,
    }
}

/// `m` with each member of `members`, in order, set to its state text.
pub open spec fn with_state_members(m: Map<Seq<char>, Seq<char>>, members: Seq<(Seq<char>, JsonV)>) -> Map<
    Seq<char>,
    Seq<char>,
>
    decreases members.len(),
{
    if members.len() == 0 {
        m
    } else {
        with_state_members(m, members.drop_last()).insert(members.last().0, state_text(members.last().1))
    }
}

/// The texts of the strings of a sequence of values, others left out.
pub open spec fn string_items(items: Seq<JsonV>) -> Seq<Seq<char>>
    decreases items.len(),
{
    if items.len() == 0 {
        Seq::empty()
    } else {
        let rest = string_items(items.drop_last());
        match items.last() {
            JsonV::Str(t) => rest.push(t),
            _ => rest,
        }
    }
}

/// What one effect does to the server, and the storage write it asks
/// for. `manifest.*` and `state.*` effects change the server's copy of the
/// application; `storage.*` effects are writes; the others are for the
/// native window and change nothing here.
pub open spec fn apply_effect_v(s: McpV, e: JsonV) -> (McpV, Option<StorageOpV>) {
    let kind = crate::runtime::str_field_of(e, "effect"@);
    let target = crate::runtime::str_field_of(e, "target"@);
    if kind == Some("state.set"@) && target is Some {
        let value = match payload_field(e, "value"@) {
            Some(v) => state_text(v),
            None => Seq::empty(),
        };
        (McpV { state: s.state.insert(target->Some_0, value), ..s }, None)
    } else if kind == Some("view.open"@) {
        match payload_field(e, "state"@) {
            Some(JsonV::Object(members)) => (McpV { state: with_state_members(s.state, members), ..s }, None),
            _ => (s, None),
        }
    } else if kind == Some("manifest.set_label"@) && target is Some {
        match payload_field(e, "label"@) {
            Some(JsonV::Str(l)) => (
                McpV {
                    manifest: ManifestV {
                        nodes: edit_forest(s.manifest.nodes, target->Some_0, NodeEditV::Label(l)),
                        ..s.manifest
                    },
                    ..s
                },
                None,
            ),
            _ => (s, None),
        }
    } else if kind == Some("manifest.set_visible"@) && target is Some {
        let visible = match payload_field(e, "visible"@) {
            Some(JsonV::Bool(b)) => b,
            _ => true,
        };
        if visible {
            (McpV { hidden: s.hidden.remove(target->Some_0), ..s }, None)
        } else {
            (McpV { hidden: s.hidden.insert(target->Some_0), ..s }, None)
        }
    } else if kind == Some("manifest.set_options"@) && target is Some {
        match payload_field(e, "options"@) {
            Some(JsonV::Array(items)) => (
                McpV {
                    manifest: ManifestV {
                        nodes: edit_forest(
                            s.manifest.nodes,
                            target->Some_0,
                            NodeEditV::Options(string_items(items)),
                        ),
                        ..s.manifest
                    },
                    ..s
                },
                None,
            ),
            _ => (s, None),
        }
    } else if kind == Some("storage.set"@) && target is Some {
        match payload_field(e, "value"@) {
            Some(v) => (s, Some(StorageOpV::KvSet(target->Some_0, v))),
            None => (s, None),
        }
    } else if kind == Some("storage.delete"@) && target is Some {
        (s, Some(StorageOpV::KvDelete(target->Some_0)))
    } else if kind == Some("storage.file.write"@) && target is Some {
        match payload_field(e, "content"@) {
            Some(JsonV::Str(c)) => (s, Some(StorageOpV::FileWrite(target->Some_0, c))),
            _ => (s, None),
        }
    } else if kind == Some("storage.file.delete"@) && target is Some {
        (s, Some(StorageOpV::FileDelete(target->Some_0)))
    } else if kind == Some("storage.dir.create"@) && target is Some {
        (s, Some(StorageOpV::DirCreate(target->Some_0)))
    } else if kind == Some("manifest.set_icon"@) && target is Some {
        match payload_field(e, "icon"@) {
            Some(JsonV::Str(i)) => (
                McpV {
                    manifest: ManifestV {
                        nodes: edit_forest(s.manifest.nodes, target->Some_0, NodeEditV::Icon(i)),
                        ..s.manifest
                    },
                    ..s
                },
                None,
            ),
            _ => (s, None),
        }
    } else {
        (s, None)
    }
}

/// What a run of effects does to the server, in order, and the storage
/// writes they ask for, in order.
pub open spec fn apply_all_v(s: McpV, effects: Seq<JsonV>) -> (McpV, Seq<StorageOpV>)
    decreases effects.len(),
{
    if effects.len() == 0 {
        (s, Seq::empty())
    } else {
        let (s1, ops) = apply_all_v(s, effects.drop_last());
        let (s2, op) = apply_effect_v(s1, effects.last());
        match op {
            Some(o) => (s2, ops.push(o)),
            None => (s2, ops),
        }
    }
}

/// `kind` is the text `w`.
pub(crate) fn kind_is(kind: &Option<String>, w: &str) -> (b: bool)
    ensures
        b == (crate::xml::opt_text(*kind) == Some(w@)),
{
    match kind {
        Some(x) => string_eq(x, &text(w)),
        None => false,
    }
}

/// The text of field `k` of `payload`.
pub(crate) fn payload_str(e: &Json, k: &str) -> (r: Option<String>)
    ensures
        match r {
            Some(t) => payload_field(e@, k@) == Some(JsonV::Str(t@)),
            None => !(payload_field(e@, k@) matches Some(JsonV::Str(_))),
        },
{
    match e.get("payload") {
        Some(p) => match p.get(k) {
            Some(Json::Str(t)) => Some(t.clone()),
            _ => None,
        },
        None => None,
    }
}

/// Field `k` of `payload`.
pub(crate) fn payload_get<'a>(e: &'a Json, k: &str) -> (r: Option<&'a Json>)
    ensures
        match r {
            Some(v) => payload_field(e@, k@) == Some(v@),
            None => payload_field(e@, k@) is None,
        },
{
    match e.get("payload") {
        Some(p) => p.get(k),
        None => None,
    }
}

/// The texts of the strings among `items`.
pub(crate) fn strings_of(items: &Vec<Json>) -> (r: Vec<String>)
    ensures
        r@.map_values(|t: String| t@) == string_items(models(items@)),
{
    let ghost ms = models(items@);
    let mut out: Vec<String> = Vec::new();
    let mut i: usize = 0;
    assert(string_items(ms.subrange(0, 0)) =~= Seq::<Seq<char>>::empty());
    while i < items.len()
        invariant
            i <= items.len(),
            ms == models(items@),
            ms.len() == items.len(),
            out@.map_values(|t: String| t@) == string_items(ms.subrange(0, i as int)),
        decreases items.len() - i,
    {
        assert(ms[i as int] == items@[i as int]@);
        assert(ms.subrange(0, i + 1).drop_last() =~= ms.subrange(0, i as int));
        assert(ms.subrange(0, i + 1).last() == ms[i as int]);
        let ghost before = out@.map_values(|t: String| t@);
        match &items[i] {
            Json::Str(t) => {
                out.push(t.clone());
                assert(out@.map_values(|t: String| t@) =~= before.push(t@));
            },
            _ => {},
        }
        i = i + 1;
    }
    assert(ms.subrange(0, ms.len() as int) =~= ms);
    out
}

impl McpServer {
    /// The server of `manifest`, its state set to the declared defaults,
    /// its storage in `storage`.
    pub fn with_storage(manifest: AppManifest, storage: AppStorage) -> (s: McpServer)
        ensures
            s@ == (McpV {
                manifest: manifest@,
                initialized: false,
                hidden: Set::empty(),
                state: declared_state(manifest@.state),
                storage: storage@,
            }),
    {
        let state = initial_state(&manifest);
        McpServer { manifest, initialized: false, hidden_nodes: NameSet::new(), storage, state }
    }

    /// The server of `manifest`, its storage in the user's data directory.
    pub fn new(manifest: AppManifest) -> (s: McpServer)
        ensures
            s@.manifest == manifest@,
            !s@.initialized,
            s@.hidden == Set::<Seq<char>>::empty(),
            s@.state == declared_state(manifest@.state),
            exists|d: Option<Seq<char>>| s@.storage == crate::storage::app_dir_spec(d, manifest@.id),
    {
        let storage = AppStorage::new(manifest.id.as_str());
        let ghost d = choose|d: Option<Seq<char>>| storage@ == crate::storage::app_dir_spec(d, manifest@.id);
        let s = McpServer::with_storage(manifest, storage);
        assert(s@.storage == crate::storage::app_dir_spec(d, s@.manifest.id));
        s
    }

    pub fn manifest(&self) -> (m: &AppManifest)
        ensures
            m@ == self@.manifest,
    {
        &self.manifest
    }

    pub fn state(&self) -> (m: &TextMap)
        ensures
            m@ == self@.state,
    {
        &self.state
    }

    pub fn storage(&self) -> (st: &AppStorage)
        ensures
            st@ == self@.storage,
    {
        &self.storage
    }

    pub fn is_initialized(&self) -> (b: bool)
        ensures
            b == self@.initialized,
    {
        self.initialized
    }

    pub fn is_hidden(&self, node_id: &str) -> (b: bool)
        ensures
            b == self@.hidden.contains(node_id@),
    {
        self.hidden_nodes.contains(node_id)
    }

    /// Applies one effect; returns the storage write it asks for.
    fn apply_one(&mut self, effect: &Json) -> (op: Option<StorageOp>)
        ensures
            (final(self)@, match op {
                Some(o) => Some(o@),
                None => None,
            }) == apply_effect_v(old(self)@, effect@),
    {
        let kind = crate::runtime::str_field_text(effect, "effect");
        let target = crate::runtime::str_field_text(effect, "target");
        proof {
            assert(old(self)@ == self@);
        }
        if kind_is(&kind, "state.set") && target.is_some() {
            let key = target.unwrap();
            let value = match payload_get(effect, "value") {
                Some(v) => json_to_state_string(v),
                None => String::new(),
            };
            self.state.insert(key, value);
            None
        } else if kind_is(&kind, "view.open") {
            match payload_get(effect, "state") {
                Some(Json::Object(members)) => {
                    let ghost ms = member_models(members@);
                    let ghost start = self.state@;
                    let mut i: usize = 0;
                    assert(with_state_members(start, ms.subrange(0, 0)) =~= start);
                    while i < members.len()
                        invariant
                            i <= members.len(),
                            ms == member_models(members@),
                            ms.len() == members.len(),
                            self.state@ == with_state_members(start, ms.subrange(0, i as int)),
                            self.manifest@ == old(self)@.manifest,
                            self.initialized == old(self)@.initialized,
                            self.hidden_nodes@ == old(self)@.hidden,
                            self.storage@ == old(self)@.storage,
                        decreases members.len() - i,
                    {
                        assert(ms[i as int] == (members@[i as int].0@, members@[i as int].1@));
                        let v = json_to_state_string(&members[i].1);
                        self.state.insert(members[i].0.clone(), v);
                        assert(ms.subrange(0, i + 1).drop_last() =~= ms.subrange(0, i as int));
                        i = i + 1;
                    }
                    assert(ms.subrange(0, ms.len() as int) =~= ms);
                    None
                },
                _ => None,
            }
        } else if kind_is(&kind, "manifest.set_label") && target.is_some() {
            let id = target.unwrap();
            match payload_str(effect, "label") {
                Some(l) => {
                    edit_first(&mut self.manifest.nodes, id.as_str(), &NodeEdit::Label(l));
                    None
                },
                None => None,
            }
        } else if kind_is(&kind, "manifest.set_visible") && target.is_some() {
            let id = target.unwrap();
            let visible = match payload_get(effect, "visible") {
                Some(Json::Bool(b)) => *b,
                _ => true,
            };
            if visible {
                self.hidden_nodes.remove(id.as_str());
            } else {
                self.hidden_nodes.insert(id);
            }
            None
        } else if kind_is(&kind, "manifest.set_options") && target.is_some() {
            let id = target.unwrap();
            match payload_get(effect, "options") {
                Some(Json::Array(items)) => {
                    let labels = strings_of(items);
                    edit_first(&mut self.manifest.nodes, id.as_str(), &NodeEdit::Options(labels));
                    None
                },
                _ => None,
            }
        } else if kind_is(&kind, "storage.set") && target.is_some() {
            let key = target.unwrap();
            match payload_get(effect, "value") {
                Some(v) => Some(StorageOp::KvSet { key, value: v.deep_clone() }),
                None => None,
            }
        } else if kind_is(&kind, "storage.delete") && target.is_some() {
            Some(StorageOp::KvDelete(target.unwrap()))
        } else if kind_is(&kind, "storage.file.write") && target.is_some() {
            let path = target.unwrap();
            match payload_str(effect, "content") {
                Some(c) => Some(StorageOp::FileWrite { path, content: c }),
                None => None,
            }
        } else if kind_is(&kind, "storage.file.delete") && target.is_some() {
            Some(StorageOp::FileDelete(target.unwrap()))
        } else if kind_is(&kind, "storage.dir.create") && target.is_some() {
            Some(StorageOp::DirCreate(target.unwrap()))
        } else if kind_is(&kind, "manifest.set_icon") && target.is_some() {
            let id = target.unwrap();
            match payload_str(effect, "icon") {
                Some(i) => {
                    edit_first(&mut self.manifest.nodes, id.as_str(), &NodeEdit::Icon(i));
                    None
                },
                None => None,
            }
        } else {
            None
        }
    }

    /// Applies the `manifest.*` and `state.*` effects of a handler to the
    /// server's own copy of the application, in order, so that the tree an
    /// agent reads next and the state the next handler sees reflect them,
    /// even when no native window runs. Returns the storage writes the
    /// `storage.*` effects ask for, in order, for the caller to perform.
    pub fn apply_manifest_effects(&mut self, effects: &Vec<Json>) -> (ops: Vec<StorageOp>)
        ensures
            (final(self)@, ops@.map_values(|o: StorageOp| o@)) == apply_all_v(old(self)@, models(effects@)),
    {
        let ghost es = models(effects@);
        let mut ops: Vec<StorageOp> = Vec::new();
        let mut i: usize = 0;
        assert(ops@.map_values(|o: StorageOp| o@) =~= Seq::<StorageOpV>::empty());
        assert(es.subrange(0, 0) =~= Seq::<JsonV>::empty());
        while i < effects.len()
            invariant
                i <= effects.len(),
                es == models(effects@),
                es.len() == effects.len(),
                (self@, ops@.map_values(|o: StorageOp| o@)) == apply_all_v(old(self)@, es.subrange(0, i as int)),
            decreases effects.len() - i,
        {
            assert(es[i as int] == effects@[i as int]@);
            assert(es.subrange(0, i + 1).drop_last() =~= es.subrange(0, i as int));
            assert(es.subrange(0, i + 1).last() == es[i as int]);
            let ghost before = ops@.map_values(|o: StorageOp| o@);
            match self.apply_one(&effects[i]) {
                Some(op) => {
                    let ghost ov = op@;
                    ops.push(op);
                    assert(ops@.map_values(|o: StorageOp| o@) =~= before.push(ov));
                },
                None => {},
            }
            i = i + 1;
        }
        assert(es.subrange(0, es.len() as int) =~= es);
        ops
    }
}

// ─── Messages ───────────────────────────────────────────────────────────────

/// What the server does with a message: answer it (or not, for a
/// notification), or have a handler run.
pub enum McpStepV {
    Reply(Option<JsonV>),
    Invoke { id: JsonV, handler: Seq<char>, arguments: Seq<(Seq<char>, JsonV)> },
}

/// An action to run: the request it answers, the Lua handler, and the
/// checked arguments (the members of a JSON object).
pub struct PendingInvoke {
    pub id: Json,
    pub handler: String,
    pub arguments: Vec<(String, Json)>,
}

/// What the server does with a message.
pub enum McpStep {
    Reply(Option<Json>),
    Invoke(PendingInvoke),
}

impl View for McpStep {
    type V = McpStepV;

    open spec fn view(&self) -> McpStepV {
        match self {
            McpStep::Reply(r) => McpStepV::Reply(crate::json::opt_json(*r)),
            McpStep::Invoke(p) => McpStepV::Invoke {
                id: p.id@,
                handler: p.handler@,
                arguments: member_models(p.arguments@),
            },
        }
    }
}

/// The first action with id `id`.
pub open spec fn find_action(actions: Seq<ActionV>, id: Seq<char>) -> Option<ActionV>
    decreases actions.len(),
{
    if actions.len() == 0 {
        None
    } else if actions[0].id == id {
        Some(actions[0])
    } else {
        find_action(actions.drop_first(), id)
    }
}

/// The members of an object field, or none.
pub open spec fn object_members(v: Option<JsonV>) -> Seq<(Seq<char>, JsonV)> {
    match v {
        Some(JsonV::Object(m)) => m,
        _ => Seq::empty(),
    }
}

/// What `scrawler_invoke_action` asks for: the node and action by id, and
/// arguments that pass the action's parameters.
pub open spec fn prepare_invoke_v(s: McpV, id: JsonV, args: Seq<(Seq<char>, JsonV)>) -> McpStepV {
    match first_value(args, "node_id"@) {
        Some(JsonV::Str(node_id)) => match first_value(args, "action_id"@) {
            Some(JsonV::Str(action_id)) => {
                let action_args = object_members(first_value(args, "arguments"@));
                match find_v(s.manifest.nodes, node_id) {
                    None => McpStepV::Reply(Some(tool_error_v(id, "Unknown node: "@ + node_id))),
                    Some(node) => match find_action(node.actions, action_id) {
                        None => McpStepV::Reply(
                            Some(tool_error_v(id, "Node `"@ + node_id + "` has no action `"@ + action_id + "`"@)),
                        ),
                        Some(action) => match arguments_problem(action.parameters, action_args) {
                            Some(m) => McpStepV::Reply(Some(tool_error_v(id, m))),
                            None => McpStepV::Invoke { id, handler: action.handler, arguments: action_args },
                        },
                    },
                }
            },
            _ => McpStepV::Reply(Some(tool_error_v(id, "`action_id` must be a string"@))),
        },
        _ => McpStepV::Reply(Some(tool_error_v(id, "`node_id` must be a string"@))),
    }
}

/// What the tree tool answers.
pub open spec fn tree_answer_v(s: McpV, id: JsonV) -> JsonV {
    tool_success_v(
        id,
        tree_text(s.manifest),
        crate::mcp_tools::obj3(
            "app_id"@,
            JsonV::Str(s.manifest.id),
            "app_name"@,
            JsonV::Str(s.manifest.name),
            "tree"@,
            JsonV::Str(tree_text(s.manifest)),
        ),
    )
}

/// What `tools/call` asks for.
pub open spec fn call_tool_v(s: McpV, id: JsonV, message: JsonV) -> McpStepV {
    match message.field("params"@) {
        Some(JsonV::Object(params)) => match first_value(params, "name"@) {
            Some(JsonV::Str(name)) => if name == "scrawler_get_semantic_tree"@ {
                McpStepV::Reply(Some(tree_answer_v(s, id)))
            } else if name == "scrawler_invoke_action"@ {
                prepare_invoke_v(s, id, object_members(first_value(params, "arguments"@)))
            } else {
                McpStepV::Reply(Some(protocol_error_v(id, -32602i32, "Unknown tool: "@ + name)))
            },
            _ => McpStepV::Reply(Some(protocol_error_v(id, -32602i32, "tools/call requires a string name"@))),
        },
        _ => McpStepV::Reply(Some(protocol_error_v(id, -32602i32, "tools/call requires an object params field"@))),
    }
}

/// An error answer to a request, none to a notification.
pub open spec fn error_to(id: Option<JsonV>, code: i32, message: Seq<char>) -> McpStepV {
    match id {
        Some(rid) => McpStepV::Reply(Some(protocol_error_v(rid, code, message))),
        None => McpStepV::Reply(None),
    }
}

/// A successful answer to a request, none to a notification.
pub open spec fn success_to(id: Option<JsonV>, result: JsonV) -> McpStepV {
    match id {
        Some(rid) => McpStepV::Reply(Some(success_v(rid, result))),
        None => McpStepV::Reply(None),
    }
}

/// What a JSON-RPC message does to the server, and what it gets.
///
/// A message that is not JSON-RPC 2.0 is refused. `initialize` and
/// `notifications/initialized` open the session; before that, every other
/// method is refused. Then `tools/list`, `tools/call` and `ping` are
/// answered, and other methods are unknown. Messages without an `id` are
/// notifications and get no answer.
pub open spec fn handle_v(s: McpV, message: JsonV) -> (McpV, McpStepV) {
    let id = message.field("id"@);
    let method = crate::runtime::str_field_of(message, "method"@);
    if crate::runtime::str_field_of(message, "jsonrpc"@) != Some("2.0"@) {
        (s, error_to(id, -32600i32, "Invalid JSON-RPC version"@))
    } else {
        match method {
            None => (s, error_to(id, -32600i32, "Missing method"@)),
            Some(m) => if m == "initialize"@ {
                (McpV { initialized: true, ..s }, success_to(id, crate::mcp_tools::initialize_result_v()))
            } else if m == "notifications/initialized"@ {
                (McpV { initialized: true, ..s }, McpStepV::Reply(None))
            } else if !s.initialized {
                (s, error_to(id, -32002i32, "Server is not initialized; send initialize first"@))
            } else if m == "tools/list"@ {
                (s, success_to(id, crate::mcp_tools::tools_result_v()))
            } else if m == "tools/call"@ {
                match id {
                    Some(rid) => (s, call_tool_v(s, rid, message)),
                    None => (s, McpStepV::Reply(None)),
                }
            } else if m == "ping"@ {
                (s, success_to(id, obj0()))
            } else {
                (s, error_to(id, -32601i32, "Method not found: "@ + m))
            },
        }
    }
}

/// The first action with id `id`.
pub fn find_action_in<'a>(actions: &'a Vec<SemanticAction>, id: &String) -> (r: Option<&'a SemanticAction>)
    ensures
        match r {
            Some(a) => find_action(actions@.map_values(|a: SemanticAction| a@), id@) == Some(a@),
            None => find_action(actions@.map_values(|a: SemanticAction| a@), id@) is None,
        },
{
    let ghost avs = actions@.map_values(|a: SemanticAction| a@);
    let mut i: usize = 0;
    assert(avs.subrange(0, avs.len() as int) =~= avs);
    while i < actions.len()
        invariant
            i <= actions.len(),
            avs == actions@.map_values(|a: SemanticAction| a@),
            find_action(avs, id@) == find_action(avs.subrange(i as int, avs.len() as int), id@),
        decreases actions.len() - i,
    {
        let ghost rest = avs.subrange(i as int, avs.len() as int);
        assert(rest[0] == actions@[i as int]@);
        assert(rest.drop_first() =~= avs.subrange(i + 1, avs.len() as int));
        if string_eq(&actions[i].id, id) {
            return Some(&actions[i]);
        }
        i = i + 1;
    }
    assert(avs.subrange(i as int, avs.len() as int) =~= Seq::<ActionV>::empty());
    None
}

/// The members of an object field of `members`, copied; none when the
/// field is missing or not an object.
fn object_field_members(members: &Vec<(String, Json)>, key: &str) -> (r: Vec<(String, Json)>)
    ensures
        member_models(r@) == object_members(first_value(member_models(members@), key@)),
{
    match crate::json::member_get(members, key) {
        Some(v) => match v.deep_clone() {
            Json::Object(m) => m,
            _ => {
                let e: Vec<(String, Json)> = Vec::new();
                assert(member_models(e@) =~= Seq::empty());
                e
            },
        },
        None => {
            let e: Vec<(String, Json)> = Vec::new();
            assert(member_models(e@) =~= Seq::empty());
            e
        },
    }
}

/// A string member.
fn member_str(members: &Vec<(String, Json)>, key: &str) -> (r: Option<String>)
    ensures
        match r {
            Some(t) => first_value(member_models(members@), key@) == Some(JsonV::Str(t@)),
            None => !(first_value(member_models(members@), key@) matches Some(JsonV::Str(_))),
        },
{
    match crate::json::member_get(members, key) {
        Some(Json::Str(t)) => Some(t.clone()),
        _ => None,
    }
}

impl McpServer {
    /// Checks a `scrawler_invoke_action` call.
    fn prepare_invoke(&self, id: Json, arguments: &Vec<(String, Json)>) -> (r: McpStep)
        ensures
            r@ == prepare_invoke_v(self@, id@, member_models(arguments@)),
    {
        let node_id = match member_str(arguments, "node_id") {
            Some(n) => n,
            None => {
                return McpStep::Reply(Some(tool_error(id, text("`node_id` must be a string"))));
            },
        };
        let action_id = match member_str(arguments, "action_id") {
            Some(a) => a,
            None => {
                return McpStep::Reply(Some(tool_error(id, text("`action_id` must be a string"))));
            },
        };
        let action_arguments = object_field_members(arguments, "arguments");
        let node = match find_node(&self.manifest.nodes, node_id.as_str()) {
            Some(n) => n,
            None => {
                let mut m = text("Unknown node: ");
                m.append(node_id.as_str());
                return McpStep::Reply(Some(tool_error(id, m)));
            },
        };
        let action = match find_action_in(&node.actions, &action_id) {
            Some(a) => a,
            None => {
                let mut m = concat3("Node `", node_id.as_str(), "` has no action `");
                m.append(action_id.as_str());
                m.append("`");
                return McpStep::Reply(Some(tool_error(id, m)));
            },
        };
        match validate_arguments(action, &action_arguments) {
            Err(m) => McpStep::Reply(Some(tool_error(id, m))),
            Ok(()) => McpStep::Invoke(
                PendingInvoke { id, handler: action.handler.clone(), arguments: action_arguments },
            ),
        }
    }

    /// Answers `tools/call`.
    fn call_tool(&self, id: Json, message: &Json) -> (r: McpStep)
        ensures
            r@ == call_tool_v(self@, id@, message@),
    {
        let params = match message.get("params") {
            Some(Json::Object(p)) => p,
            _ => {
                return McpStep::Reply(Some(protocol_error(id, -32602, "tools/call requires an object params field")));
            },
        };
        let name = match member_str(params, "name") {
            Some(n) => n,
            None => {
                return McpStep::Reply(Some(protocol_error(id, -32602, "tools/call requires a string name")));
            },
        };
        if string_eq(&name, &text("scrawler_get_semantic_tree")) {
            let tree = format_semantic_tree(&self.manifest);
            let structured = crate::mcp_tools::object3(
                "app_id",
                Json::Str(self.manifest.id.clone()),
                "app_name",
                Json::Str(self.manifest.name.clone()),
                "tree",
                Json::Str(tree.clone()),
            );
            McpStep::Reply(Some(tool_success(id, tree, structured)))
        } else if string_eq(&name, &text("scrawler_invoke_action")) {
            let arguments = object_field_members(params, "arguments");
            self.prepare_invoke(id, &arguments)
        } else {
            let mut m = text("Unknown tool: ");
            m.append(name.as_str());
            McpStep::Reply(Some(protocol_error(id, -32602, m.as_str())))
        }
    }

    /// Handles one JSON-RPC message.
    pub fn handle_message(&mut self, message: &Json) -> (r: McpStep)
        ensures
            (final(self)@, r@) == handle_v(old(self)@, message@),
    {
        let id = match message.get("id") {
            Some(v) => Some(v.deep_clone()),
            None => None,
        };
        let jsonrpc = crate::runtime::str_field_text(message, "jsonrpc");
        let version_ok = match &jsonrpc {
            Some(v) => string_eq(v, &text("2.0")),
            None => false,
        };
        if !version_ok {
            return match id {
                Some(rid) => McpStep::Reply(Some(protocol_error(rid, -32600, "Invalid JSON-RPC version"))),
                None => McpStep::Reply(None),
            };
        }
        let method = match crate::runtime::str_field_text(message, "method") {
            Some(m) => m,
            None => {
                return match id {
                    Some(rid) => McpStep::Reply(Some(protocol_error(rid, -32600, "Missing method"))),
                    None => McpStep::Reply(None),
                };
            },
        };
        if string_eq(&method, &text("initialize")) {
            self.initialized = true;
            match id {
                Some(rid) => McpStep::Reply(Some(success_response(rid, crate::mcp_tools::initialize_result()))),
                None => McpStep::Reply(None),
            }
        } else if string_eq(&method, &text("notifications/initialized")) {
            self.initialized = true;
            McpStep::Reply(None)
        } else if !self.initialized {
            match id {
                Some(rid) => McpStep::Reply(
                    Some(protocol_error(rid, -32002, "Server is not initialized; send initialize first")),
                ),
                None => McpStep::Reply(None),
            }
        } else if string_eq(&method, &text("tools/list")) {
            match id {
                Some(rid) => McpStep::Reply(Some(success_response(rid, crate::mcp_tools::tools_result()))),
                None => McpStep::Reply(None),
            }
        } else if string_eq(&method, &text("tools/call")) {
            match id {
                Some(rid) => self.call_tool(rid, message),
                None => McpStep::Reply(None),
            }
        } else if string_eq(&method, &text("ping")) {
            match id {
                Some(rid) => McpStep::Reply(Some(success_response(rid, Json::empty_object()))),
                None => McpStep::Reply(None),
            }
        } else {
            let mut m = text("Method not found: ");
            m.append(method.as_str());
            match id {
                Some(rid) => McpStep::Reply(Some(protocol_error(rid, -32601, m.as_str()))),
                None => McpStep::Reply(None),
            }
        }
    }
}

/// The answer to an invocation whose handler failed.
pub fn invoke_error_response(id: Json, error: &RuntimeError) -> (r: Json)
    ensures
        r@ == tool_error_v(id@, error@),
{
    tool_error(id, error.message())
}

/// The answer to a line that is not JSON: a parse error, with no id.
pub fn parse_error_response(message: &str) -> (r: Json)
    ensures
        r@ == protocol_error_v(JsonV::Null, -32700i32, "Parse error: "@ + message@),
{
    let mut m = text("Parse error: ");
    m.append(message);
    protocol_error(Json::Null, -32700, m.as_str())
}

/// What a line of the standard input asks of the server: nothing when it
/// is blank, the handling of its message when it is JSON, else a parse
/// error.
pub open spec fn line_step_v(s: McpV, line: Seq<char>) -> (McpV, Option<McpStepV>) {
    if crate::http::trimmed(line).len() == 0 {
        (s, None)
    } else {
        match crate::json::json_parse_outcome(line) {
            Ok(message) => {
                let (t, step) = handle_v(s, message);
                (t, Some(step))
            },
            Err(e) => (s, Some(McpStepV::Reply(Some(protocol_error_v(JsonV::Null, -32700i32, "Parse error: "@ + e))))),
        }
    }
}

/// What a request body asks of the server: the handling of its message
/// when it is JSON, else a parse error.
pub open spec fn body_step_v(s: McpV, body: Seq<u8>) -> (McpV, McpStepV) {
    match crate::json::json_bytes_outcome(body) {
        Ok(message) => handle_v(s, message),
        Err(e) => (s, McpStepV::Reply(Some(protocol_error_v(JsonV::Null, -32700i32, "Parse error: "@ + e)))),
    }
}

impl McpServer {
    /// Handles a line of the standard input.
    pub fn handle_line(&mut self, line: &str) -> (r: Option<McpStep>)
        ensures
            (final(self)@, match r {
                Some(step) => Some(step@),
                None => None,
            }) == line_step_v(old(self)@, line@),
    {
        let chars = crate::literal::chars_of(line);
        if crate::http::trim_chars(&chars).len() == 0 {
            return None;
        }
        match crate::json::parse_json_text(line) {
            Ok(message) => Some(self.handle_message(&message)),
            Err(e) => Some(McpStep::Reply(Some(parse_error_response(e.as_str())))),
        }
    }

    /// Handles the body of an HTTP request.
    pub fn handle_body(&mut self, body: &[u8]) -> (r: McpStep)
        ensures
            (final(self)@, r@) == body_step_v(old(self)@, body@),
    {
        match crate::json::parse_json_bytes(body) {
            Ok(message) => self.handle_message(&message),
            Err(e) => McpStep::Reply(Some(parse_error_response(e.as_str()))),
        }
    }
}

// ─── Laws ───────────────────────────────────────────────────────────────────

/// Until a client has initialized the session, every request but
/// `initialize` is refused with the "not initialized" error, and nothing
/// changes.
pub proof fn law_uninitialized_refused(s: McpV, message: JsonV, method: Seq<char>, id: JsonV)
    requires
        !s.initialized,
        crate::runtime::str_field_of(message, "jsonrpc"@) == Some("2.0"@),
        crate::runtime::str_field_of(message, "method"@) == Some(method),
        message.field("id"@) == Some(id),
        method != "initialize"@,
        method != "notifications/initialized"@,
    ensures
        handle_v(s, message) == (s, McpStepV::Reply(
            Some(protocol_error_v(id, -32002i32, "Server is not initialized; send initialize first"@)),
        )),
{
}

/// `initialize` opens the session.
pub proof fn law_initialize_opens(s: McpV, message: JsonV)
    requires
        crate::runtime::str_field_of(message, "jsonrpc"@) == Some("2.0"@),
        crate::runtime::str_field_of(message, "method"@) == Some("initialize"@),
    ensures
        handle_v(s, message).0.initialized,
        handle_v(s, message).0.manifest == s.manifest,
        handle_v(s, message).0.state == s.state,
{
}

/// A message without an id is a notification: it never gets an answer.
pub proof fn law_notifications_unanswered(s: McpV, message: JsonV)
    requires
        message.field("id"@) is None,
    ensures
        handle_v(s, message).1 == McpStepV::Reply(None),
{
}

/// `r` answers request `id`: a JSON-RPC 2.0 object with that id and
/// exactly one of `result` and `error`.
pub open spec fn is_answer(r: JsonV, id: JsonV) -> bool {
    &&& r matches JsonV::Object(m)
    &&& m.len() == 3
    &&& m[0] == ("jsonrpc"@, JsonV::Str("2.0"@))
    &&& m[1] == ("id"@, id)
    &&& (m[2].0 == "result"@ || m[2].0 == "error"@)
}

/// A JSON-RPC 2.0 message is answered exactly when it has an id and is not
/// `notifications/initialized`, and the answer carries its id and exactly
/// one of a result and an error. A tool call that runs a handler is
/// answered once the handler has run, with the same id, whether it
/// succeeded or failed.
pub proof fn law_answered_iff_request(
    s: McpV,
    message: JsonV,
    effects: Seq<JsonV>,
    delivered: bool,
    failure: Seq<char>,
)
    requires
        crate::runtime::str_field_of(message, "jsonrpc"@) == Some("2.0"@),
    ensures
        ({
            let id = message.field("id"@);
            let asked = id is Some && crate::runtime::str_field_of(message, "method"@) != Some(
                "notifications/initialized"@,
            );
            match handle_v(s, message).1 {
                McpStepV::Reply(None) => !asked,
                McpStepV::Reply(Some(r)) => asked && is_answer(r, id->Some_0),
                McpStepV::Invoke { id: rid, .. } => {
                    &&& asked
                    &&& id == Some(rid)
                    &&& is_answer(invoke_response_v(rid, effects, delivered), rid)
                    &&& is_answer(tool_error_v(rid, failure), rid)
                },
            }
        }),
{
    reveal_strlit("2.0");
    reveal_strlit("result");
    reveal_strlit("error");
    reveal_strlit("jsonrpc");
    reveal_strlit("id");
    reveal_strlit("notifications/initialized");
    reveal_strlit("initialize");
    reveal_strlit("tools/list");
    reveal_strlit("tools/call");
    reveal_strlit("ping");
}

/// The declared type of a parameter decides which arguments it accepts: a
/// `number` parameter exactly the JSON numbers, a `boolean` one exactly
/// the booleans, a `string` one exactly the strings. A refused argument is
/// answered with the message that names the parameter and its type.
pub proof fn law_argument_types(p: ParamV, v: JsonV)
    ensures
        ({
            let problem = arguments_problem(seq![p], seq![(p.name, v)]);
            &&& p.kind == "number"@ ==> (problem is None <==> v is Number)
            &&& p.kind == "boolean"@ ==> (problem is None <==> v is Bool)
            &&& p.kind == "string"@ ==> (problem is None <==> v is Str)
            &&& problem is Some ==> problem == Some("Parameter `"@ + p.name + "` must be `"@ + p.kind + "`"@)
        }),
{
    reveal_strlit("number");
    reveal_strlit("boolean");
    reveal_strlit("string");
    assert("number"@.len() != "string"@.len() || "number"@[0] != "string"@[0]);
    assert("boolean"@.len() != "string"@.len());
    assert("boolean"@.len() != "number"@.len());
    let args = seq![(p.name, v)];
    assert(first_value(args, p.name) == Some(v));
    assert(seq![p].drop_first() =~= Seq::<ParamV>::empty());
    assert(arguments_problem(Seq::<ParamV>::empty(), args) is None);
    assert(arguments_problem(seq![p], args) == param_problem(p, args));
    assert(p.kind == "number"@ ==> kind_matches(v, p.kind) == v is Number);
    assert(p.kind == "boolean"@ ==> kind_matches(v, p.kind) == v is Bool);
    assert(p.kind == "string"@ ==> kind_matches(v, p.kind) == v is Str);
}

/// A handler runs only for an action declared on a node of the tree, with
/// arguments that pass the action's declared parameters.
pub proof fn law_invoke_only_valid(s: McpV, id: JsonV, args: Seq<(Seq<char>, JsonV)>)
    ensures
        prepare_invoke_v(s, id, args) matches McpStepV::Invoke { handler, arguments, .. } ==> exists|
            node_id: Seq<char>,
            action: ActionV,
        |
            #![trigger find_v(s.manifest.nodes, node_id), find_action(find_v(s.manifest.nodes, node_id)->Some_0.actions, action.id)]
            find_v(s.manifest.nodes, node_id) is Some && find_action(
                find_v(s.manifest.nodes, node_id)->Some_0.actions,
                action.id,
            ) == Some(action) && action.handler == handler && arguments_problem(action.parameters, arguments)
                is None,
{
    match first_value(args, "node_id"@) {
        Some(JsonV::Str(node_id)) => match first_value(args, "action_id"@) {
            Some(JsonV::Str(action_id)) => {
                match find_v(s.manifest.nodes, node_id) {
                    Some(node) => match find_action(node.actions, action_id) {
                        Some(action) => {
                            lemma_find_action_id(node.actions, action_id);
                        },
                        None => {},
                    },
                    None => {},
                }
            },
            _ => {},
        },
        _ => {},
    }
}

proof fn lemma_find_action_id(actions: Seq<ActionV>, id: Seq<char>)
    ensures
        find_action(actions, id) matches Some(a) ==> a.id == id,
    decreases actions.len(),
{
    if actions.len() > 0 {
        lemma_find_action_id(actions.drop_first(), id);
    }
}

/// Hiding or showing a node changes what is hidden, never the tree an
/// agent reads.
pub proof fn law_visibility_keeps_tree(s: McpV, e: JsonV, id: Seq<char>)
    requires
        crate::runtime::str_field_of(e, "effect"@) == Some("manifest.set_visible"@),
        crate::runtime::str_field_of(e, "target"@) == Some(id),
    ensures
        apply_effect_v(s, e).0.manifest == s.manifest,
        apply_effect_v(s, e).0.hidden.contains(id) == (payload_field(e, "visible"@) == Some(JsonV::Bool(false))),
{
    reveal_strlit("manifest.set_visible");
    reveal_strlit("state.set");
    reveal_strlit("view.open");
    reveal_strlit("manifest.set_label");
    assert("manifest.set_visible"@.len() != "state.set"@.len());
    assert("manifest.set_visible"@.len() != "view.open"@.len());
    assert("manifest.set_visible"@.len() != "manifest.set_label"@.len());
}

/// The value a `state.set` effect carries is what the state holds next.
pub proof fn law_state_set_applies(s: McpV, key: Seq<char>, value: JsonV)
    ensures
        apply_effect_v(
            s,
            crate::runtime::effect_v("state.set"@, key, crate::runtime::obj1("value"@, value)),
        ).0.state == s.state.insert(key, state_text(value)),
{
    let payload = crate::runtime::obj1("value"@, value);
    crate::runtime::lemma_effect_fields("state.set"@, key, payload);
    assert(payload.field("value"@) == Some(value));
}

/// When an effect could not reach the native window, the report of the
/// run still lists every effect, each on its line and in order, and ends
/// with the offline warning.
pub proof fn law_offline_warning(effects: Seq<JsonV>)
    ensures
        offline_warning().is_suffix_of(joined(report_lines(effects, false))),
        report_lines(effects, false).subrange(0, effects.len() as int) == effects.map_values(
            |e: JsonV| effect_line(e),
        ),
{
    let lines = report_lines(effects, false);
    let base = effects.map_values(|e: JsonV| effect_line(e));
    assert(lines.drop_last() =~= base);
    assert(lines.subrange(0, effects.len() as int) =~= base);
    let all = joined(lines);
    if lines.len() == 1 {
        assert(all == offline_warning());
        assert(all.subrange(0, all.len() as int) =~= all);
    } else {
        assert(all == joined(base) + "\n"@ + offline_warning());
        assert(all.subrange(all.len() - offline_warning().len(), all.len() as int) =~= offline_warning());
    }
}

/// The effect kinds the server applies to its own copy of the application
/// or turns into storage writes.
pub open spec fn server_kind(k: Seq<char>) -> bool {
    k == "state.set"@ || k == "view.open"@ || k == "manifest.set_label"@ || k == "manifest.set_visible"@ || k
        == "manifest.set_options"@ || k == "manifest.set_icon"@ || k == "storage.set"@ || k == "storage.delete"@ || k
        == "storage.file.write"@ || k == "storage.file.delete"@ || k == "storage.dir.create"@
}

/// Effects meant for the native window alone (a toast, a navigation, a
/// sound...) are ignored by the server: its state stays as it is and no
/// storage write is asked for.
pub proof fn law_renderer_only_ignored(s: McpV, e: JsonV)
    requires
        !(crate::runtime::str_field_of(e, "effect"@) matches Some(k) && server_kind(k)),
    ensures
        apply_effect_v(s, e) == (s, None::<StorageOpV>),
{
}

} // verus!
