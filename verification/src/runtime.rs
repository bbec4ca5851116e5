//! What Lua handlers may do, and what comes of it.
//!
//! The XML is the authority: it declares which actions exist and which
//! handler they may call. A handler receives its arguments and a restricted
//! `context`; every capability of the context either reads something
//! (state, storage, the clock) or returns a structured effect, a JSON object
//! `{ effect, target, payload }`. The functions here build those effects and
//! check what a handler hands back; the Lua interpreter runs around them.

use crate::collections::{first_value, TextMap};
use crate::json::{json_to_string, json_text, opt_json, parse_json, parsed_json, text, Json, JsonNumber, JsonV, NumberV};
use crate::storage::AppStorage;
use std::fmt::Write;
use vstd::prelude::*;

verus! {

broadcast use crate::json::group_json_models;

/// Context passed to every Lua invocation: what handlers may read without
/// producing an effect.
pub struct InvokeContext<'a> {
    pub state: &'a TextMap,
    pub storage: &'a AppStorage,
}

impl<'a> InvokeContext<'a> {
    pub fn new(state: &'a TextMap, storage: &'a AppStorage) -> (c: Self)
        ensures
            c.state == state,
            c.storage == storage,
    {
        InvokeContext { state, storage }
    }
}

/// Human-readable error from loading or executing a Lua script.
pub struct RuntimeError {
    message: String,
}

impl View for RuntimeError {
    type V = Seq<char>;

    closed spec fn view(&self) -> Seq<char> {
        self.message@
    }
}

/// `a`, then `b`, then `c`.
pub fn concat3(a: &str, b: &str, c: &str) -> (r: String)
    ensures
        r@ == a@ + b@ + c@,
{
    let mut r = text(a);
    r.append(b);
    r.append(c);
    r
}

/// `a` to `d` in order.
pub fn concat4(a: &str, b: &str, c: &str, d: &str) -> (r: String)
    ensures
        r@ == a@ + b@ + c@ + d@,
{
    let mut r = text(a);
    r.append(b);
    r.append(c);
    r.append(d);
    r
}

impl RuntimeError {
    pub fn new(message: String) -> (e: RuntimeError)
        ensures
            e@ == message@,
    {
        RuntimeError { message }
    }

    /// The message.
    pub fn message(&self) -> (m: String)
        ensures
            m@ == self@,
    {
        self.message.clone()
    }

    /// The interpreter could not be created.
    pub fn runtime_unavailable(error: &str) -> (e: RuntimeError)
        ensures
            e@ == "Could not create Lua runtime: "@ + error@,
    {
        let mut m = text("Could not create Lua runtime: ");
        m.append(error);
        RuntimeError { message: m }
    }

    /// The script did not load.
    pub fn script_not_loaded(source_name: &str, error: &str) -> (e: RuntimeError)
        ensures
            e@ == "Could not load Lua script `"@ + source_name@ + "`: "@ + error@,
    {
        RuntimeError { message: concat4("Could not load Lua script `", source_name, "`: ", error) }
    }

    /// The handler is not a function of the script.
    pub fn handler_unavailable(handler: &str, error: &str) -> (e: RuntimeError)
        ensures
            e@ == "Lua handler `"@ + handler@ + "` is unavailable: "@ + error@,
    {
        RuntimeError { message: concat4("Lua handler `", handler, "` is unavailable: ", error) }
    }

    /// The arguments could not be handed to Lua.
    pub fn arguments_not_passed(error: &str) -> (e: RuntimeError)
        ensures
            e@ == "Could not pass arguments to Lua: "@ + error@,
    {
        let mut m = text("Could not pass arguments to Lua: ");
        m.append(error);
        RuntimeError { message: m }
    }

    /// The context table could not be created.
    pub fn context_not_created(error: &str) -> (e: RuntimeError)
        ensures
            e@ == "Could not create Lua context: "@ + error@,
    {
        let mut m = text("Could not create Lua context: ");
        m.append(error);
        RuntimeError { message: m }
    }

    /// The handler raised an error.
    pub fn handler_failed(handler: &str, error: &str) -> (e: RuntimeError)
        ensures
            e@ == "Lua handler `"@ + handler@ + "` failed: "@ + error@,
    {
        RuntimeError { message: concat4("Lua handler `", handler, "` failed: ", error) }
    }

    /// The handler returned something that is not JSON data.
    pub fn not_json(handler: &str, error: &str) -> (e: RuntimeError)
        ensures
            e@ == "Lua handler `"@ + handler@ + "` must return JSON-compatible data: "@ + error@,
    {
        RuntimeError { message: concat4("Lua handler `", handler, "` must return JSON-compatible data: ", error) }
    }
}

// ─── Building effects ───────────────────────────────────────────────────────

/// An object of one member.
pub open spec fn obj1(k: Seq<char>, v: JsonV) -> JsonV {
    JsonV::Object(seq![(k, v)])
}

/// An object of two members.
pub open spec fn obj2(k1: Seq<char>, v1: JsonV, k2: Seq<char>, v2: JsonV) -> JsonV {
    JsonV::Object(seq![(k1, v1), (k2, v2)])
}

/// The empty object.
pub open spec fn obj0() -> JsonV {
    JsonV::Object(Seq::empty())
}

/// An effect of kind `kind` on `target`, carrying `payload`.
pub open spec fn effect_v(kind: Seq<char>, target: Seq<char>, payload: JsonV) -> JsonV {
    JsonV::Object(seq![("effect"@, JsonV::Str(kind)), ("target"@, JsonV::Str(target)), ("payload"@, payload)])
}

pub fn object1(k: &str, v: Json) -> (r: Json)
    ensures
        r@ == obj1(k@, v@),
{
    let ghost vm = v@;
    let mut m: Vec<(String, Json)> = Vec::new();
    m.push((text(k), v));
    let r = Json::Object(m);
    assert(r@ == JsonV::Object(crate::json::member_models(m@)));
    assert(crate::json::member_models(m@) =~= seq![(k@, vm)]);
    r
}

pub fn object2(k1: &str, v1: Json, k2: &str, v2: Json) -> (r: Json)
    ensures
        r@ == obj2(k1@, v1@, k2@, v2@),
{
    let ghost (a, b) = (v1@, v2@);
    let mut m: Vec<(String, Json)> = Vec::new();
    m.push((text(k1), v1));
    m.push((text(k2), v2));
    let r = Json::Object(m);
    assert(r@ == JsonV::Object(crate::json::member_models(m@)));
    assert(crate::json::member_models(m@) =~= seq![(k1@, a), (k2@, b)]);
    r
}

/// An effect.
pub fn make_effect(kind: &str, target: String, payload: Json) -> (r: Json)
    ensures
        r@ == effect_v(kind@, target@, payload@),
{
    let ghost (t, p) = (target@, payload@);
    let mut m: Vec<(String, Json)> = Vec::new();
    m.push((text("effect"), Json::Str(text(kind))));
    m.push((text("target"), Json::Str(target)));
    m.push((text("payload"), payload));
    let r = Json::Object(m);
    assert(r@ == JsonV::Object(crate::json::member_models(m@)));
    assert(crate::json::member_models(m@) =~= seq![
        ("effect"@, JsonV::Str(kind@)),
        ("target"@, JsonV::Str(t)),
        ("payload"@, p),
    ]);
    r
}

/// An effect with an empty payload.
fn bare_effect(kind: &str, target: String) -> (r: Json)
    ensures
        r@ == effect_v(kind@, target@, obj0()),
{
    make_effect(kind, target, Json::empty_object())
}

/// `context.state.set(key, value)`.
pub fn state_set(key: String, value: Json) -> (r: Json)
    ensures
        r@ == effect_v("state.set"@, key@, obj1("value"@, value@)),
{
    make_effect("state.set", key, object1("value", value))
}

/// The text a boolean state takes once toggled: `"false"` when it held
/// `"true"`, and `"true"` otherwise.
pub open spec fn toggled_text(state: Map<Seq<char>, Seq<char>>, key: Seq<char>) -> Seq<char> {
    if state.contains_key(key) && state[key] == "true"@ {
        "false"@
    } else {
        "true"@
    }
}

/// `context.state.toggle(key)`: sets a boolean state to the other value.
pub fn state_toggle(state: &TextMap, key: String) -> (r: Json)
    ensures
        r@ == effect_v("state.set"@, key@, obj1("value"@, JsonV::Str(toggled_text(state@, key@)))),
{
    let current = match state.get(key.as_str()) {
        Some(v) => crate::json::string_eq(v, &text("true")),
        None => false,
    };
    let next = if current {
        text("false")
    } else {
        text("true")
    };
    state_set(key, Json::Str(next))
}

/// `context.state.get(key)`: the current text of `key`.
pub fn state_get(ctx: &InvokeContext, key: &str) -> (r: Option<String>)
    ensures
        match r {
            Some(v) => ctx.state@.contains_key(key@) && ctx.state@[key@] == v@,
            None => !ctx.state@.contains_key(key@),
        },
{
    match ctx.state.get(key) {
        Some(v) => Some(v.clone()),
        None => None,
    }
}

/// `context.view.open(id, payload)`.
pub fn view_open(target: String, payload: Json) -> (r: Json)
    ensures
        r@ == effect_v("view.open"@, target@, payload@),
{
    make_effect("view.open", target, payload)
}

/// `context.view.close(id)`: the payload is empty.
pub fn view_close(target: String) -> (r: Json)
    ensures
        r@ == effect_v("view.close"@, target@, obj0()),
{
    bare_effect("view.close", target)
}

/// `context.manifest.node.set_label(id, label)`.
pub fn set_label(id: String, label: String) -> (r: Json)
    ensures
        r@ == effect_v("manifest.set_label"@, id@, obj1("label"@, JsonV::Str(label@))),
{
    make_effect("manifest.set_label", id, object1("label", Json::Str(label)))
}

/// `context.manifest.node.set_visible(id, visible)`.
pub fn set_visible(id: String, visible: bool) -> (r: Json)
    ensures
        r@ == effect_v("manifest.set_visible"@, id@, obj1("visible"@, JsonV::Bool(visible))),
{
    make_effect("manifest.set_visible", id, object1("visible", Json::Bool(visible)))
}

/// `context.manifest.node.set_icon(id, icon)`.
pub fn set_icon(id: String, icon: String) -> (r: Json)
    ensures
        r@ == effect_v("manifest.set_icon"@, id@, obj1("icon"@, JsonV::Str(icon@))),
{
    make_effect("manifest.set_icon", id, object1("icon", Json::Str(icon)))
}

/// Texts as a JSON array of strings.
pub open spec fn str_array(items: Seq<Seq<char>>) -> JsonV {
    JsonV::Array(items.map_values(|s: Seq<char>| JsonV::Str(s)))
}

/// A JSON array of strings.
pub fn strings_json(items: &Vec<String>) -> (r: Json)
    ensures
        r@ == str_array(items@.map_values(|s: String| s@)),
{
    let mut out: Vec<Json> = Vec::new();
    let mut i: usize = 0;
    while i < items.len()
        invariant
            i <= items.len(),
            crate::json::models(out@) == items@.map_values(|s: String| s@).map_values(|s: Seq<char>| JsonV::Str(s)).subrange(0, i as int),
        decreases items.len() - i,
    {
        let ghost before = crate::json::models(out@);
        out.push(Json::Str(items[i].clone()));
        assert(crate::json::models(out@) =~= before.push(JsonV::Str(items@[i as int]@)));
        assert(items@.map_values(|s: String| s@).map_values(|s: Seq<char>| JsonV::Str(s)).subrange(0, i + 1)
            =~= items@.map_values(|s: String| s@).map_values(|s: Seq<char>| JsonV::Str(s)).subrange(0, i as int).push(JsonV::Str(items@[i as int]@)));
        i = i + 1;
    }
    let r = Json::Array(out);
    assert(r@ == JsonV::Array(crate::json::models(out@)));
    assert(crate::json::models(out@) =~= items@.map_values(|s: String| s@).map_values(|s: Seq<char>| JsonV::Str(s)));
    r
}

/// `context.manifest.select.set_options(id, options)`.
pub fn set_options(id: String, options: &Vec<String>) -> (r: Json)
    ensures
        r@ == effect_v(
            "manifest.set_options"@,
            id@,
            obj1("options"@, str_array(options@.map_values(|s: String| s@))),
        ),
{
    make_effect("manifest.set_options", id, object1("options", strings_json(options)))
}

/// `context.screen.navigate(id)`.
pub fn navigate(id: String) -> (r: Json)
    ensures
        r@ == effect_v("screen.navigate"@, id@, obj0()),
{
    bare_effect("screen.navigate", id)
}

/// `context.notification.show(message)`.
pub fn notification_show(message: String) -> (r: Json)
    ensures
        r@ == effect_v("notification.show"@, "notification"@, obj1("message"@, JsonV::Str(message@))),
{
    make_effect("notification.show", text("notification"), object1("message", Json::Str(message)))
}

/// `context.notification.os(title, body)`.
pub fn notification_os(title: String, body: String) -> (r: Json)
    ensures
        r@ == effect_v(
            "notification.os"@,
            "os"@,
            obj2("title"@, JsonV::Str(title@), "body"@, JsonV::Str(body@)),
        ),
{
    make_effect("notification.os", text("os"), object2("title", Json::Str(title), "body", Json::Str(body)))
}

/// `context.browser.open(url)`.
pub fn browser_open(url: String) -> (r: Json)
    ensures
        r@ == effect_v("browser.open"@, url@, obj0()),
{
    bare_effect("browser.open", url)
}

/// `context.clipboard.write(text)`.
pub fn clipboard_write(content: String) -> (r: Json)
    ensures
        r@ == effect_v("clipboard.write"@, "clipboard"@, obj1("text"@, JsonV::Str(content@))),
{
    make_effect("clipboard.write", text("clipboard"), object1("text", Json::Str(content)))
}

/// `context.sound.play(name)`.
pub fn sound_play(name: String) -> (r: Json)
    ensures
        r@ == effect_v("sound.play"@, name@, obj0()),
{
    bare_effect("sound.play", name)
}

/// `context.window.set_title(title)`.
pub fn window_set_title(title: String) -> (r: Json)
    ensures
        r@ == effect_v("window.set_title"@, "window"@, obj1("title"@, JsonV::Str(title@))),
{
    make_effect("window.set_title", text("window"), object1("title", Json::Str(title)))
}

/// The JSON number of an integer.
pub open spec fn int_number(n: i64) -> JsonV {
    if n >= 0 {
        JsonV::Number(NumberV::Pos(n as u64))
    } else {
        JsonV::Number(NumberV::Neg(n))
    }
}

/// A JSON integer.
pub fn int_json(n: i64) -> (r: Json)
    ensures
        r@ == int_number(n),
{
    if n >= 0 {
        Json::Number(JsonNumber::Pos(n as u64))
    } else {
        Json::Number(JsonNumber::Neg(n))
    }
}

/// `context.window.set_badge(count)`.
pub fn window_set_badge(count: i64) -> (r: Json)
    ensures
        r@ == effect_v("window.set_badge"@, "window"@, obj1("count"@, int_number(count))),
{
    make_effect("window.set_badge", text("window"), object1("count", int_json(count)))
}

/// `context.window.minimize()`.
pub fn window_minimize() -> (r: Json)
    ensures
        r@ == effect_v("window.minimize"@, "window"@, obj0()),
{
    bare_effect("window.minimize", text("window"))
}

/// `context.window.close()`.
pub fn window_close() -> (r: Json)
    ensures
        r@ == effect_v("window.close"@, "window"@, obj0()),
{
    bare_effect("window.close", text("window"))
}

/// `context.file.save(filename, content)`.
pub fn file_save(filename: String, content: String) -> (r: Json)
    ensures
        r@ == effect_v("file.save"@, filename@, obj1("content"@, JsonV::Str(content@))),
{
    make_effect("file.save", filename, object1("content", Json::Str(content)))
}

/// `context.storage.set(key, value)`.
pub fn storage_set(key: String, value: Json) -> (r: Json)
    ensures
        r@ == effect_v("storage.set"@, key@, obj1("value"@, value@)),
{
    make_effect("storage.set", key, object1("value", value))
}

/// `context.storage.delete(key)`.
pub fn storage_delete(key: String) -> (r: Json)
    ensures
        r@ == effect_v("storage.delete"@, key@, obj0()),
{
    bare_effect("storage.delete", key)
}

/// `context.storage.file.write(path, content)`.
pub fn storage_file_write(path: String, content: String) -> (r: Json)
    ensures
        r@ == effect_v("storage.file.write"@, path@, obj1("content"@, JsonV::Str(content@))),
{
    make_effect("storage.file.write", path, object1("content", Json::Str(content)))
}

/// `context.storage.file.delete(path)`.
pub fn storage_file_delete(path: String) -> (r: Json)
    ensures
        r@ == effect_v("storage.file.delete"@, path@, obj0()),
{
    bare_effect("storage.file.delete", path)
}

/// `context.storage.file.mkdir(path)`.
pub fn storage_mkdir(path: String) -> (r: Json)
    ensures
        r@ == effect_v("storage.dir.create"@, path@, obj0()),
{
    bare_effect("storage.dir.create", path)
}

/// `context.form.reset(node_id)`.
pub fn form_reset(node_id: String) -> (r: Json)
    ensures
        r@ == effect_v("form.reset"@, node_id@, obj0()),
{
    bare_effect("form.reset", node_id)
}

/// `context.http.ws.send(id, data)`.
pub fn ws_send(id: String, data: String) -> (r: Json)
    ensures
        r@ == effect_v("http.ws.send"@, id@, obj1("data"@, JsonV::Str(data@))),
{
    make_effect("http.ws.send", id, object1("data", Json::Str(data)))
}

/// `context.http.ws.close(id)`.
pub fn ws_close(id: String) -> (r: Json)
    ensures
        r@ == effect_v("http.ws.close"@, id@, obj0()),
{
    bare_effect("http.ws.close", id)
}

// ─── What a handler returns ─────────────────────────────────────────────────

/// Field `k` of `v` is a string.
pub open spec fn has_str_field(v: JsonV, k: Seq<char>) -> bool {
    match v.field(k) {
        Some(JsonV::Str(_)) => true,
        _ => false,
    }
}

/// Why `v` is not an effect, if it is not one: an effect is an object with
/// a string `effect` and a string `target`.
pub open spec fn effect_problem(v: JsonV) -> Option<Seq<char>> {
    if !(v is Object) {
        Some("Lua handler must return an effect object"@)
    } else if !has_str_field(v, "effect"@) {
        Some("Lua effect requires a string `effect` field"@)
    } else if !has_str_field(v, "target"@) {
        Some("Lua effect requires a string `target` field"@)
    } else {
        None
    }
}

/// The effects a handler's value stands for: the items of an array, or the
/// value itself.
pub open spec fn handler_items(v: JsonV) -> Seq<JsonV> {
    match v {
        JsonV::Array(items) => items,
        _ => seq![v],
    }
}

/// The problem of the first item that is not an effect.
pub open spec fn first_problem(items: Seq<JsonV>) -> Option<Seq<char>>
    decreases items.len(),
{
    if items.len() == 0 {
        None
    } else {
        match effect_problem(items[0]) {
            Some(p) => Some(p),
            None => first_problem(items.drop_first()),
        }
    }
}

/// Whether a field of an object is a string.
fn str_field(v: &Json, k: &str) -> (b: bool)
    ensures
        b == has_str_field(v@, k@),
{
    match v.get(k) {
        Some(Json::Str(_)) => true,
        _ => false,
    }
}

/// Checks the minimal contract of an effect before it goes further, so
/// that Lua cannot hand the renderer a string or a structure it would not
/// know how to read.
pub fn validate_effect(effect: &Json) -> (r: Result<(), RuntimeError>)
    ensures
        match r {
            Ok(()) => effect_problem(effect@) is None,
            Err(e) => effect_problem(effect@) == Some(e@),
        },
{
    match effect {
        Json::Object(_) => {},
        _ => {
            return Err(RuntimeError::new(text("Lua handler must return an effect object")));
        },
    }
    if !str_field(effect, "effect") {
        return Err(RuntimeError::new(text("Lua effect requires a string `effect` field")));
    }
    if !str_field(effect, "target") {
        return Err(RuntimeError::new(text("Lua effect requires a string `target` field")));
    }
    Ok(())
}

proof fn lemma_first_problem_prefix(items: Seq<JsonV>, i: int)
    requires
        0 <= i < items.len(),
        forall|j: int| 0 <= j < i ==> effect_problem(#[trigger] items[j]) is None,
    ensures
        first_problem(items) == (match effect_problem(items[i]) {
            Some(p) => Some(p),
            None => first_problem(items.subrange(i + 1, items.len() as int)),
        }),
    decreases i,
{
    if i > 0 {
        lemma_first_problem_prefix(items.drop_first(), i - 1);
        assert(items.drop_first().subrange(i, items.len() - 1) =~= items.subrange(i + 1, items.len() as int));
    } else {
        assert(items.drop_first() =~= items.subrange(1, items.len() as int));
    }
}

/// What is wrong with the effects a handler returned: none at all, or the
/// first that is not an effect.
pub open spec fn handler_problem(items: Seq<JsonV>) -> Option<Seq<char>> {
    if items.len() == 0 {
        Some("Lua handler must return at least one effect"@)
    } else {
        first_problem(items)
    }
}

/// The effects a handler returned: the items of an array, or the single
/// value, each checked in order; the first one that is not an effect
/// gives the error, and an empty array is refused.
pub fn handler_effects(value: Json) -> (r: Result<Vec<Json>, RuntimeError>)
    ensures
        match r {
            Ok(effects) => handler_problem(handler_items(value@)) is None && crate::json::models(effects@)
                == handler_items(value@),
            Err(e) => handler_problem(handler_items(value@)) == Some(e@),
        },
{
    let ghost items = handler_items(value@);
    let effects: Vec<Json> = match value {
        Json::Array(items) => items,
        other => {
            let mut v: Vec<Json> = Vec::new();
            v.push(other);
            assert(crate::json::models(v@) =~= seq![other@]);
            v
        },
    };
    assert(crate::json::models(effects@) == items);
    if effects.len() == 0 {
        return Err(RuntimeError::new(String::from_str("Lua handler must return at least one effect")));
    }
    let mut i: usize = 0;
    while i < effects.len()
        invariant
            i <= effects.len(),
            crate::json::models(effects@) == items,
            items == handler_items(value@),
            forall|j: int| 0 <= j < i ==> effect_problem(#[trigger] items[j]) is None,
        decreases effects.len() - i,
    {
        proof {
            lemma_first_problem_prefix(items, i as int);
        }
        assert(items[i as int] == effects@[i as int]@);
        match validate_effect(&effects[i]) {
            Ok(()) => {},
            Err(e) => {
                assert(first_problem(items) == Some(e@));
                assert(items == handler_items(value@));
                return Err(e);
            },
        }
        i = i + 1;
    }
    proof {
        lemma_no_problem(items);
    }
    Ok(effects)
}

proof fn lemma_no_problem(items: Seq<JsonV>)
    requires
        forall|j: int| 0 <= j < items.len() ==> effect_problem(#[trigger] items[j]) is None,
    ensures
        first_problem(items) is None,
    decreases items.len(),
{
    if items.len() > 0 {
        assert(effect_problem(items[0]) is None);
        assert forall|j: int| 0 <= j < items.len() - 1 implies effect_problem(#[trigger] items.drop_first()[j]) is None by {
            assert(items.drop_first()[j] == items[j + 1]);
        }
        lemma_no_problem(items.drop_first());
    }
}

// ─── HTTP ───────────────────────────────────────────────────────────────────

/// The upper case of a text, as `str::to_uppercase` gives it.
pub uninterp spec fn uppercase(s: Seq<char>) -> Seq<char>;

/// `str::to_uppercase`: named as a function of the text.
#[verifier::external_body]
fn to_upper(s: &str) -> (r: String)
    ensures
        r@ == uppercase(s@),
{
    s.to_uppercase()
}

/// An HTTP request a handler asks for.
pub struct FetchRequest {
    pub method: String,
    pub body: Option<String>,
    pub timeout_secs: u64,
    pub headers: Vec<(String, String)>,
}

/// The text of a string field, if it is one.
pub open spec fn str_field_of(v: JsonV, k: Seq<char>) -> Option<Seq<char>> {
    match v.field(k) {
        Some(JsonV::Str(s)) => Some(s),
        _ => None,
    }
}

/// The value of a field that is a non-negative integer, if it is one.
pub open spec fn u64_field_of(v: JsonV, k: Seq<char>) -> Option<u64> {
    match v.field(k) {
        Some(JsonV::Number(NumberV::Pos(n))) => Some(n),
        _ => None,
    }
}

/// The members of an object whose values are strings, with those strings.
pub open spec fn string_members(m: Seq<(Seq<char>, JsonV)>) -> Seq<(Seq<char>, Seq<char>)>
    decreases m.len(),
{
    if m.len() == 0 {
        Seq::empty()
    } else {
        let rest = string_members(m.drop_first());
        match m[0].1 {
            JsonV::Str(s) => seq![(m[0].0, s)] + rest,
            _ => rest,
        }
    }
}

/// The headers an options object asks for: its `headers` members whose
/// values are strings.
pub open spec fn header_pairs(opts: JsonV) -> Seq<(Seq<char>, Seq<char>)> {
    match opts.field("headers"@) {
        Some(JsonV::Object(m)) => string_members(m),
        _ => Seq::empty(),
    }
}

/// The method an options object asks for, `GET` by default.
pub open spec fn method_of(opts: JsonV) -> Seq<char> {
    match str_field_of(opts, "method"@) {
        Some(m) => m,
        None => "GET"@,
    }
}

/// The timeout an options object asks for, in seconds; 30 by default.
pub open spec fn timeout_of(opts: JsonV) -> u64 {
    match u64_field_of(opts, "timeout"@) {
        Some(n) => n,
        None => 30,
    }
}

impl FetchRequest {
    pub closed spec fn header_texts(&self) -> Seq<(Seq<char>, Seq<char>)> {
        self.headers@.map_values(|p: (String, String)| (p.0@, p.1@))
    }
}

/// The text of a string field.
pub(crate) fn str_field_text(v: &Json, k: &str) -> (r: Option<String>)
    ensures
        match r {
            Some(s) => str_field_of(v@, k@) == Some(s@),
            None => str_field_of(v@, k@) is None,
        },
{
    match v.get(k) {
        Some(Json::Str(s)) => Some(s.clone()),
        _ => None,
    }
}

fn u64_field(v: &Json, k: &str) -> (r: Option<u64>)
    ensures
        r == u64_field_of(v@, k@),
{
    match v.get(k) {
        Some(Json::Number(JsonNumber::Pos(n))) => Some(*n),
        _ => None,
    }
}

/// The members with string values.
fn string_pairs(members: &Vec<(String, Json)>) -> (r: Vec<(String, String)>)
    ensures
        r@.map_values(|p: (String, String)| (p.0@, p.1@)) == string_members(crate::json::member_models(members@)),
{
    let ghost m = crate::json::member_models(members@);
    let mut out: Vec<(String, String)> = Vec::new();
    let mut i: usize = members.len();
    proof {
        assert(m.subrange(i as int, m.len() as int) =~= Seq::empty());
    }
    // Built from the end, so that each step adds in front.
    let mut rev: Vec<(String, String)> = Vec::new();
    while i > 0
        invariant
            i <= members.len(),
            m == crate::json::member_models(members@),
            m.len() == members.len(),
            rev@.map_values(|p: (String, String)| (p.0@, p.1@)).reverse() == string_members(m.subrange(i as int, m.len() as int)),
        decreases i,
    {
        i = i - 1;
        let ghost tail = m.subrange(i as int + 1, m.len() as int);
        let ghost before = rev@.map_values(|p: (String, String)| (p.0@, p.1@));
        assert(m.subrange(i as int, m.len() as int).drop_first() =~= tail);
        assert(m.subrange(i as int, m.len() as int)[0] == m[i as int]);
        assert(m[i as int] == (members@[i as int].0@, members@[i as int].1@));
        match &members[i].1 {
            Json::Str(s) => {
                rev.push((members[i].0.clone(), s.clone()));
                assert(rev@.map_values(|p: (String, String)| (p.0@, p.1@)) =~= before.push((m[i as int].0, s@)));
                assert(before.push((m[i as int].0, s@)).reverse() =~= seq![(m[i as int].0, s@)] + before.reverse());
            },
            _ => {},
        }
    }
    let mut j: usize = rev.len();
    let ghost rv = rev@.map_values(|p: (String, String)| (p.0@, p.1@));
    while j > 0
        invariant
            j <= rev.len(),
            rv == rev@.map_values(|p: (String, String)| (p.0@, p.1@)),
            out@.map_values(|p: (String, String)| (p.0@, p.1@)) == rv.reverse().subrange(0, rv.len() - j),
        decreases j,
    {
        j = j - 1;
        let ghost before = out@.map_values(|p: (String, String)| (p.0@, p.1@));
        out.push((rev[j].0.clone(), rev[j].1.clone()));
        assert(rv[j as int] == (rev@[j as int].0@, rev@[j as int].1@));
        assert(rv.reverse()[rv.len() - j - 1] == rv[j as int]);
        assert(rv.reverse().subrange(0, rv.len() - j) =~= rv.reverse().subrange(0, rv.len() - j - 1).push(rv[j as int]));
        assert(out@.map_values(|p: (String, String)| (p.0@, p.1@)) =~= before.push(rv[j as int]));
        assert(out@.map_values(|p: (String, String)| (p.0@, p.1@)) =~= rv.reverse().subrange(0, rv.len() - j));
    }
    assert(m.subrange(0, m.len() as int) =~= m);
    assert(rv.reverse().subrange(0, rv.len() as int) =~= rv.reverse());
    out
}

impl FetchRequest {
    /// The request that an options object asks for: `method` (upper-cased,
    /// `GET` by default), `body`, `timeout` in seconds (30 by default), and
    /// the `headers` whose values are strings.
    pub fn from_options(opts: &Json) -> (r: FetchRequest)
        ensures
            r.method@ == uppercase(method_of(opts@)),
            match r.body {
                Some(b) => str_field_of(opts@, "body"@) == Some(b@),
                None => str_field_of(opts@, "body"@) is None,
            },
            r.timeout_secs == timeout_of(opts@),
            r.header_texts() == header_pairs(opts@),
    {
        let method = match str_field_text(opts, "method") {
            Some(m) => to_upper(m.as_str()),
            None => to_upper("GET"),
        };
        let body = str_field_text(opts, "body");
        let timeout_secs = match u64_field(opts, "timeout") {
            Some(n) => n,
            None => 30,
        };
        let headers = match opts.get("headers") {
            Some(Json::Object(members)) => string_pairs(members),
            _ => {
                let v: Vec<(String, String)> = Vec::new();
                assert(v@.map_values(|p: (String, String)| (p.0@, p.1@)) =~= Seq::empty());
                v
            },
        };
        FetchRequest { method, body, timeout_secs, headers }
    }
}

/// `context.http.fetch_async(url, options, callback)`: the request goes to
/// the renderer, which calls `callback` with the response.
pub fn fetch_async(url: String, opts: &Json, callback: String) -> (r: Json)
    ensures
        r@ == effect_v(
            "http.fetch_async"@,
            callback@,
            JsonV::Object(
                seq![
                    ("url"@, JsonV::Str(url@)),
                    ("method"@, JsonV::Str(method_of(opts@))),
                    ("body"@, match str_field_of(opts@, "body"@) {
                        Some(b) => JsonV::Str(b),
                        None => JsonV::Null,
                    }),
                    ("timeout"@, JsonV::Number(NumberV::Pos(timeout_of(opts@)))),
                    ("headers"@, match opts@.field("headers"@) {
                        Some(h) => h,
                        None => crate::runtime::obj0(),
                    }),
                ],
            ),
        ),
{
    let method = match str_field_text(opts, "method") {
        Some(m) => m,
        None => text("GET"),
    };
    let body = match str_field_text(opts, "body") {
        Some(b) => Json::Str(b),
        None => Json::Null,
    };
    let timeout = match u64_field(opts, "timeout") {
        Some(n) => n,
        None => 30,
    };
    let headers = match opts.get("headers") {
        Some(h) => h.deep_clone(),
        None => Json::empty_object(),
    };
    let ghost (u, b, h) = (url@, body@, headers@);
    let ghost cb = callback@;
    let mut m: Vec<(String, Json)> = Vec::new();
    m.push((text("url"), Json::Str(url)));
    m.push((text("method"), Json::Str(method)));
    m.push((text("body"), body));
    m.push((text("timeout"), Json::Number(JsonNumber::Pos(timeout))));
    m.push((text("headers"), headers));
    let payload = Json::Object(m);
    assert(payload@ == JsonV::Object(crate::json::member_models(m@)));
    assert(crate::json::member_models(m@) =~= seq![
        ("url"@, JsonV::Str(u)),
        ("method"@, JsonV::Str(method_of(opts@))),
        ("body"@, b),
        ("timeout"@, JsonV::Number(NumberV::Pos(timeout_of(opts@)))),
        ("headers"@, h),
    ]);
    assert(b == match str_field_of(opts@, "body"@) {
        Some(x) => JsonV::Str(x),
        None => JsonV::Null,
    });
    assert(h == match opts@.field("headers"@) {
        Some(x) => x,
        None => obj0(),
    });
    let ghost expected = JsonV::Object(
        seq![
            ("url"@, JsonV::Str(u)),
            ("method"@, JsonV::Str(method_of(opts@))),
            ("body"@, match str_field_of(opts@, "body"@) {
                Some(x) => JsonV::Str(x),
                None => JsonV::Null,
            }),
            ("timeout"@, JsonV::Number(NumberV::Pos(timeout_of(opts@)))),
            ("headers"@, match opts@.field("headers"@) {
                Some(x) => x,
                None => obj0(),
            }),
        ],
    );
    assert(expected->Object_0 =~= seq![
        ("url"@, JsonV::Str(u)),
        ("method"@, JsonV::Str(method_of(opts@))),
        ("body"@, b),
        ("timeout"@, JsonV::Number(NumberV::Pos(timeout_of(opts@)))),
        ("headers"@, h),
    ]);
    assert(payload@ == expected);
    let r = make_effect("http.fetch_async", callback, payload);
    assert(r@ == effect_v("http.fetch_async"@, cb, expected));
    r
}

/// `context.http.ws.connect(id, url, options)`: the renderer opens the
/// connection and calls the `on_message` and `on_close` handlers.
pub fn ws_connect(id: String, url: String, opts: &Json) -> (r: Json)
    ensures
        r@ == effect_v(
            "http.ws.connect"@,
            id@,
            JsonV::Object(
                seq![
                    ("url"@, JsonV::Str(url@)),
                    ("on_message"@, JsonV::Str(text_or_empty(str_field_of(opts@, "on_message"@)))),
                    ("on_close"@, JsonV::Str(text_or_empty(str_field_of(opts@, "on_close"@)))),
                ],
            ),
        ),
{
    let on_message = match str_field_text(opts, "on_message") {
        Some(m) => m,
        None => String::new(),
    };
    let on_close = match str_field_text(opts, "on_close") {
        Some(m) => m,
        None => String::new(),
    };
    let ghost (u, a, b) = (url@, on_message@, on_close@);
    let mut m: Vec<(String, Json)> = Vec::new();
    m.push((text("url"), Json::Str(url)));
    m.push((text("on_message"), Json::Str(on_message)));
    m.push((text("on_close"), Json::Str(on_close)));
    assert(crate::json::member_models(m@) =~= seq![
        ("url"@, JsonV::Str(u)),
        ("on_message"@, JsonV::Str(a)),
        ("on_close"@, JsonV::Str(b)),
    ]);
    make_effect("http.ws.connect", id, Json::Object(m))
}

/// A text, or the empty text.
pub open spec fn text_or_empty(o: Option<Seq<char>>) -> Seq<char> {
    match o {
        Some(s) => s,
        None => Seq::empty(),
    }
}

/// The headers of a response as a JSON object of strings.
pub open spec fn header_object(headers: Seq<(Seq<char>, Seq<char>)>) -> JsonV {
    JsonV::Object(headers.map_values(|p: (Seq<char>, Seq<char>)| (p.0, JsonV::Str(p.1))))
}

/// What a handler sees of a response that came back: `status`, `body`,
/// `headers`, and `ok` for a status from 200 to 299.
pub fn fetch_response(status: u16, body: String, headers: &Vec<(String, String)>) -> (r: Json)
    ensures
        r@ == JsonV::Object(
            seq![
                ("status"@, JsonV::Number(NumberV::Pos(status as u64))),
                ("body"@, JsonV::Str(body@)),
                ("headers"@, header_object(headers@.map_values(|p: (String, String)| (p.0@, p.1@)))),
                ("ok"@, JsonV::Bool(200 <= status < 300)),
            ],
        ),
{
    let ghost hs = headers@.map_values(|p: (String, String)| (p.0@, p.1@));
    let mut hm: Vec<(String, Json)> = Vec::new();
    let mut i: usize = 0;
    while i < headers.len()
        invariant
            i <= headers.len(),
            hs == headers@.map_values(|p: (String, String)| (p.0@, p.1@)),
            crate::json::member_models(hm@) == hs.map_values(|p: (Seq<char>, Seq<char>)| (p.0, JsonV::Str(p.1))).subrange(0, i as int),
        decreases headers.len() - i,
    {
        let ghost before = crate::json::member_models(hm@);
        hm.push((headers[i].0.clone(), Json::Str(headers[i].1.clone())));
        assert(hs[i as int] == (headers@[i as int].0@, headers@[i as int].1@));
        assert(crate::json::member_models(hm@) =~= before.push((hs[i as int].0, JsonV::Str(hs[i as int].1))));
        assert(hs.map_values(|p: (Seq<char>, Seq<char>)| (p.0, JsonV::Str(p.1))).subrange(0, i + 1)
            =~= hs.map_values(|p: (Seq<char>, Seq<char>)| (p.0, JsonV::Str(p.1))).subrange(0, i as int).push((hs[i as int].0, JsonV::Str(hs[i as int].1))));
        i = i + 1;
    }
    assert(hs.map_values(|p: (Seq<char>, Seq<char>)| (p.0, JsonV::Str(p.1))).subrange(0, hs.len() as int)
        =~= hs.map_values(|p: (Seq<char>, Seq<char>)| (p.0, JsonV::Str(p.1))));
    let hj = Json::Object(hm);
    let ghost (bm, hv) = (body@, hj@);
    let mut m: Vec<(String, Json)> = Vec::new();
    m.push((text("status"), Json::Number(JsonNumber::Pos(status as u64))));
    m.push((text("body"), Json::Str(body)));
    m.push((text("headers"), hj));
    m.push((text("ok"), Json::Bool(200 <= status && status < 300)));
    assert(crate::json::member_models(m@) =~= seq![
        ("status"@, JsonV::Number(NumberV::Pos(status as u64))),
        ("body"@, JsonV::Str(bm)),
        ("headers"@, hv),
        ("ok"@, JsonV::Bool(200 <= status < 300)),
    ]);
    Json::Object(m)
}

/// What a handler sees of a response with an error status: `ok` is false
/// and there are no headers.
pub fn fetch_status_error(code: u16, body: String) -> (r: Json)
    ensures
        r@ == JsonV::Object(
            seq![
                ("status"@, JsonV::Number(NumberV::Pos(code as u64))),
                ("body"@, JsonV::Str(body@)),
                ("headers"@, obj0()),
                ("ok"@, JsonV::Bool(false)),
            ],
        ),
{
    let ghost bm = body@;
    let mut m: Vec<(String, Json)> = Vec::new();
    m.push((text("status"), Json::Number(JsonNumber::Pos(code as u64))));
    m.push((text("body"), Json::Str(body)));
    m.push((text("headers"), Json::empty_object()));
    m.push((text("ok"), Json::Bool(false)));
    assert(crate::json::member_models(m@) =~= seq![
        ("status"@, JsonV::Number(NumberV::Pos(code as u64))),
        ("body"@, JsonV::Str(bm)),
        ("headers"@, obj0()),
        ("ok"@, JsonV::Bool(false)),
    ]);
    Json::Object(m)
}

/// What a handler sees when no response came: status 0, the error as
/// body and as `error`.
pub fn fetch_failure(message: String) -> (r: Json)
    ensures
        r@ == JsonV::Object(
            seq![
                ("status"@, JsonV::Number(NumberV::Pos(0))),
                ("body"@, JsonV::Str(message@)),
                ("headers"@, obj0()),
                ("ok"@, JsonV::Bool(false)),
                ("error"@, JsonV::Str(message@)),
            ],
        ),
{
    let ghost mm = message@;
    let mut m: Vec<(String, Json)> = Vec::new();
    m.push((text("status"), Json::Number(JsonNumber::Pos(0))));
    m.push((text("body"), Json::Str(message.clone())));
    m.push((text("headers"), Json::empty_object()));
    m.push((text("ok"), Json::Bool(false)));
    m.push((text("error"), Json::Str(message)));
    assert(crate::json::member_models(m@) =~= seq![
        ("status"@, JsonV::Number(NumberV::Pos(0))),
        ("body"@, JsonV::Str(mm)),
        ("headers"@, obj0()),
        ("ok"@, JsonV::Bool(false)),
        ("error"@, JsonV::Str(mm)),
    ]);
    Json::Object(m)
}

// ─── Dates and JSON text ────────────────────────────────────────────────────

/// The instant `ts` (seconds since the Unix epoch) is one that chrono's
/// `DateTime<Utc>` can hold.
pub uninterp spec fn utc_representable(ts: i64) -> bool;

/// What chrono's `format` writes for the UTC instant `ts` with `pattern`,
/// or `None` when the pattern holds a specifier chrono does not know.
pub uninterp spec fn utc_text(ts: i64, pattern: Seq<char>) -> Option<Seq<char>>;

/// `DateTime::<Utc>::from_timestamp(ts, 0).is_some()`. The epoch itself
/// is within chrono's range.
#[verifier::external_body]
fn utc_in_range(ts: i64) -> (b: bool)
    ensures
        b == utc_representable(ts),
        ts == 0 ==> b,
{
    chrono::DateTime::<chrono::Utc>::from_timestamp(ts, 0).is_some()
}

/// `DateTime::<Utc>::from_timestamp(ts, 0)` formatted by `format(pattern)`
/// and written to a string; `None` when writing fails, which chrono does
/// for a pattern it cannot read.
#[verifier::external_body]
fn format_utc(ts: i64, pattern: &str) -> (r: Option<String>)
    requires
        utc_representable(ts),
    ensures
        crate::xml::opt_text(r) == utc_text(ts, pattern@),
{
    let dt = chrono::DateTime::<chrono::Utc>::from_timestamp(ts, 0)?;
    let mut out = String::new();
    write!(out, "{}", dt.format(pattern)).ok()?;
    Some(out)
}

/// `SystemTime::now().duration_since(UNIX_EPOCH)`, in whole seconds: `Ok`
/// with the seconds since the epoch, or `Err` with the seconds before it
/// when the clock reads earlier. Nothing is claimed of the time.
#[verifier::external_body]
fn seconds_since_epoch() -> Result<u64, u64> {
    match std::time::SystemTime::now().duration_since(std::time::UNIX_EPOCH) {
        Ok(d) => Ok(d.as_secs()),
        Err(e) => Err(e.duration().as_secs()),
    }
}

/// A count of seconds as a signed number, held at `i64::MAX`.
pub open spec fn clamp_seconds(n: u64) -> i64 {
    if n <= i64::MAX as u64 {
        n as i64
    } else {
        i64::MAX
    }
}

/// The Unix time of a reading of the clock: the seconds since the epoch,
/// negative before it.
pub open spec fn unix_seconds(reading: Result<u64, u64>) -> i64 {
    match reading {
        Ok(n) => clamp_seconds(n),
        Err(n) => (-clamp_seconds(n)) as i64,
    }
}

/// The Unix time of a reading of the clock.
pub fn unix_time(reading: Result<u64, u64>) -> (t: i64)
    ensures
        t == unix_seconds(reading),
{
    let n = match reading {
        Ok(n) => n,
        Err(n) => n,
    };
    let c: i64 = if n <= i64::MAX as u64 {
        n as i64
    } else {
        i64::MAX
    };
    match reading {
        Ok(_) => c,
        Err(_) => -c,
    }
}

/// `context.date.now()`: the current Unix time, in seconds, negative for a
/// clock set before 1970.
pub fn date_now() -> (t: i64)
    ensures
        exists|reading: Result<u64, u64>| t == unix_seconds(reading),
{
    let reading = seconds_since_epoch();
    unix_time(reading)
}

/// `context.date.format(timestamp, pattern)`: the UTC time `timestamp`
/// written with a strftime-style `pattern`. A timestamp out of chrono's
/// range is read as the epoch. `None` for a pattern chrono cannot write.
pub fn date_format(timestamp: i64, pattern: &str) -> (r: Option<String>)
    ensures
        crate::xml::opt_text(r) == utc_text(if utc_representable(timestamp) {
            timestamp
        } else {
            0
        }, pattern@),
{
    let ts = if utc_in_range(timestamp) {
        timestamp
    } else {
        0
    };
    let in_range = utc_in_range(ts);
    assert(in_range);
    format_utc(ts, pattern)
}

/// `context.json.encode(value)`: the compact JSON text of a value.
pub fn json_encode(value: &Json) -> (r: String)
    ensures
        r@ == json_text(value@),
{
    json_to_string(value)
}

/// `context.json.decode(text)`: the value of a JSON text, `None` when it is
/// not JSON.
pub fn json_decode(source: &str) -> (r: Option<Json>)
    ensures
        opt_json(r) == parsed_json(source@),
{
    parse_json(source)
}

// ─── Laws ───────────────────────────────────────────────────────────────────

/// The fields of a built effect.
pub proof fn lemma_effect_fields(kind: Seq<char>, target: Seq<char>, payload: JsonV)
    ensures
        effect_v(kind, target, payload).field("effect"@) == Some(JsonV::Str(kind)),
        effect_v(kind, target, payload).field("target"@) == Some(JsonV::Str(target)),
        effect_v(kind, target, payload).field("payload"@) == Some(payload),
{
    let e = effect_v(kind, target, payload);
    reveal_strlit("effect");
    reveal_strlit("target");
    reveal_strlit("payload");
    let m = e->Object_0;
    assert(m[0].0[0] != "target"@[0]);
    assert(m[0].0[0] != "payload"@[0]);
    assert(m[1].0[0] != "payload"@[0]);
    assert(m.drop_first()[0].0 == "target"@);
    assert(m.drop_first().drop_first()[0].0 == "payload"@);
    assert(first_value(m, "target"@) == first_value(m.drop_first(), "target"@));
    assert(first_value(m, "payload"@) == first_value(m.drop_first(), "payload"@));
    assert(first_value(m.drop_first(), "payload"@) == first_value(m.drop_first().drop_first(), "payload"@));
}

/// Every effect the context builds passes the check that handler results
/// go through: it is an object with a string `effect` and a string
/// `target`.
pub proof fn law_built_effects_are_valid(kind: Seq<char>, target: Seq<char>, payload: JsonV)
    ensures
        effect_problem(effect_v(kind, target, payload)) is None,
{
    lemma_effect_fields(kind, target, payload);
}

/// Toggling a boolean state gives the other value, and toggling twice
/// gives back the value it held.
pub proof fn law_toggle_twice(state: Map<Seq<char>, Seq<char>>, key: Seq<char>)
    requires
        state.contains_key(key),
        state[key] == "true"@ || state[key] == "false"@,
    ensures
        toggled_text(state, key) != state[key],
        toggled_text(state.insert(key, toggled_text(state, key)), key) == state[key],
{
    reveal_strlit("true");
    reveal_strlit("false");
    assert("true"@.len() != "false"@.len());
}

/// A handler that returns one effect is read as the list of that effect;
/// one that returns an array, as its items.
pub proof fn law_single_effect_is_a_list(v: JsonV)
    ensures
        !(v is Array) ==> handler_items(v) == seq![v],
        v matches JsonV::Array(items) ==> handler_items(v) == items,
{
}

} // verus!
