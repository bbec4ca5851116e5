//! The state of the native window, and what effects do to it.
//!
//! The window shows the semantic tree: one screen at a time, dialogs and
//! views that are open, a toast, an error line, and form fields for the
//! parameters of actions. Effects change that state; those that need the
//! operating system (notifications, the clipboard, sounds, files, the
//! network, the window itself) come back as a command for the caller.

use crate::collections::{NameSet, TextMap};
use crate::json::{string_eq, text, Json, JsonNumber, JsonV, NumberV};
use crate::literal::{is_float_literal, is_float_literal_exec};
use crate::manifest::{
    node_models, ActionParameter, ActionV, AppManifest, ManifestV, NodeV, ParamV, SemanticAction, SemanticNode,
};
use crate::mcp::{kind_is, payload_field, payload_get, payload_str, string_items, strings_of, StorageOp, StorageOpV};
use crate::runtime::{
    concat3, header_pairs, method_of, str_field_of, str_field_text, timeout_of, uppercase, FetchRequest,
};
use crate::tree::{edit_first, edit_forest, NodeEdit, NodeEditV};
use vstd::prelude::*;

verus! {

broadcast use crate::json::group_json_models, crate::manifest::group_node_models;

/// What the window holds.
pub struct UiV {
    pub manifest: ManifestV,
    pub state: Map<Seq<char>, Seq<char>>,
    pub open_views: Set<Seq<char>>,
    /// Views with an open or close animation under way.
    pub animated: Set<Seq<char>>,
    pub error: Option<Seq<char>>,
    pub form_values: Map<Seq<char>, Seq<char>>,
    pub active_screen: nat,
    pub hidden: Set<Seq<char>>,
    pub window_title: Seq<char>,
    /// WebSocket connections that can be written to.
    pub connections: Set<Seq<char>>,
    pub toast: Option<Seq<char>>,
}

/// The state of the native window.
pub struct UiState {
    manifest: AppManifest,
    state: TextMap,
    open_views: NameSet,
    animated: NameSet,
    error: Option<String>,
    form_values: TextMap,
    active_screen: usize,
    hidden_nodes: NameSet,
    window_title: String,
    connections: NameSet,
    toast: Option<String>,
}

impl View for UiState {
    type V = UiV;

    closed spec fn view(&self) -> UiV {
        UiV {
            manifest: self.manifest@,
            state: self.state@,
            open_views: self.open_views@,
            animated: self.animated@,
            error: crate::xml::opt_text(self.error),
            form_values: self.form_values@,
            active_screen: self.active_screen as nat,
            hidden: self.hidden_nodes@,
            window_title: self.window_title@,
            connections: self.connections@,
            toast: crate::xml::opt_text(self.toast),
        }
    }
}

/// What the window asks of the operating system after an effect.
pub enum UiCommandV {
    Nothing,
    OpenDialog(Seq<char>),
    CloseDialog(Seq<char>),
    ScreenTransition,
    ShowToast,
    OsNotification(Seq<char>, Seq<char>),
    OpenBrowser(Seq<char>),
    ClipboardWrite(Seq<char>),
    PlaySound(Seq<char>),
    SetBadge(i64),
    SaveFile(Seq<char>, Seq<char>),
    Storage(StorageOpV),
    Minimize,
    Close,
    FetchAsync {
        callback: Seq<char>,
        url: Seq<char>,
        method: Seq<char>,
        body: Option<Seq<char>>,
        timeout_secs: u64,
        headers: Seq<(Seq<char>, Seq<char>)>,
    },
    WsConnect { conn_id: Seq<char>, url: Seq<char>, on_message: Seq<char>, on_close: Seq<char> },
    WsSend(Seq<char>, Seq<char>),
    WsClose(Seq<char>),
}

/// What the window asks of the operating system after an effect.
pub enum UiCommand {
    Nothing,
    /// Start the opening animation of a dialog.
    OpenDialog(String),
    /// Start the closing animation of a dialog; once it ends, call
    /// `UiState::finish_close`.
    CloseDialog(String),
    /// Start the transition to the active screen.
    ScreenTransition,
    /// Show the toast, from now on.
    ShowToast,
    OsNotification { title: String, body: String },
    OpenBrowser(String),
    ClipboardWrite(String),
    PlaySound(String),
    /// Set the Dock badge (macOS only).
    SetBadge(i64),
    /// Ask where to save, then write.
    SaveFile { filename: String, content: String },
    Storage(StorageOp),
    Minimize,
    Close,
    FetchAsync { callback: String, url: String, request: FetchRequest },
    WsConnect { conn_id: String, url: String, on_message: String, on_close: String },
    WsSend { conn_id: String, data: String },
    /// Forget the writer of a connection.
    WsClose(String),
}

impl View for UiCommand {
    type V = UiCommandV;

    open spec fn view(&self) -> UiCommandV {
        match self {
            UiCommand::Nothing => UiCommandV::Nothing,
            UiCommand::OpenDialog(v) => UiCommandV::OpenDialog(v@),
            UiCommand::CloseDialog(v) => UiCommandV::CloseDialog(v@),
            UiCommand::ScreenTransition => UiCommandV::ScreenTransition,
            UiCommand::ShowToast => UiCommandV::ShowToast,
            UiCommand::OsNotification { title, body } => UiCommandV::OsNotification(title@, body@),
            UiCommand::OpenBrowser(u) => UiCommandV::OpenBrowser(u@),
            UiCommand::ClipboardWrite(t) => UiCommandV::ClipboardWrite(t@),
            UiCommand::PlaySound(n) => UiCommandV::PlaySound(n@),
            UiCommand::SetBadge(c) => UiCommandV::SetBadge(*c),
            UiCommand::SaveFile { filename, content } => UiCommandV::SaveFile(filename@, content@),
            UiCommand::Storage(op) => UiCommandV::Storage(op@),
            UiCommand::Minimize => UiCommandV::Minimize,
            UiCommand::Close => UiCommandV::Close,
            UiCommand::FetchAsync { callback, url, request } => UiCommandV::FetchAsync {
                callback: callback@,
                url: url@,
                method: request.method@,
                body: crate::xml::opt_text(request.body),
                timeout_secs: request.timeout_secs,
                headers: request.header_texts(),
            },
            UiCommand::WsConnect { conn_id, url, on_message, on_close } => UiCommandV::WsConnect {
                conn_id: conn_id@,
                url: url@,
                on_message: on_message@,
                on_close: on_close@,
            },
            UiCommand::WsSend { conn_id, data } => UiCommandV::WsSend(conn_id@, data@),
            UiCommand::WsClose(c) => UiCommandV::WsClose(c@),
        }
    }
}

/// The screens: the top-level nodes with role `screen`, in order.
pub open spec fn screens_v(nodes: Seq<NodeV>) -> Seq<NodeV> {
    nodes.filter(|n: NodeV| n.role == "screen"@)
}

/// Position of the first node with id `id`.
pub open spec fn position_of(nodes: Seq<NodeV>, id: Seq<char>) -> Option<nat>
    decreases nodes.len(),
{
    if nodes.len() == 0 {
        None
    } else if nodes[0].id == id {
        Some(0)
    } else {
        match position_of(nodes.drop_first(), id) {
            Some(i) => Some(i + 1),
            None => None,
        }
    }
}

/// A string payload field, or the empty text.
pub open spec fn payload_text_or_empty(e: JsonV, k: Seq<char>) -> Seq<char> {
    match payload_field(e, k) {
        Some(JsonV::Str(t)) => t,
        _ => Seq::empty(),
    }
}

/// An integer as `Value::as_i64` reads it.
pub open spec fn as_i64(v: JsonV) -> Option<i64> {
    match v {
        JsonV::Number(NumberV::Pos(n)) => if n <= i64::MAX {
            Some(n as i64)
        } else {
            None
        },
        JsonV::Number(NumberV::Neg(n)) => Some(n),
        _ => None,
    }
}

/// `m` with each string member of `members` set, in order.
pub open spec fn with_string_members(m: Map<Seq<char>, Seq<char>>, members: Seq<(Seq<char>, JsonV)>) -> Map<
    Seq<char>,
    Seq<char>,
>
    decreases members.len(),
{
    if members.len() == 0 {
        m
    } else {
        let before = with_string_members(m, members.drop_last());
        match members.last().1 {
            JsonV::Str(t) => before.insert(members.last().0, t),
            _ => before,
        }
    }
}

/// The key of the form field of parameter `param` of action `action` of
/// node `node`.
pub open spec fn field_key(node: Seq<char>, action: Seq<char>, param: Seq<char>) -> Seq<char> {
    node + "."@ + action + "."@ + param
}

/// The key of the field of parameter `p` of action `a` of node `n`.
pub open spec fn field_at(n: NodeV, a: int, p: int) -> Seq<char> {
    field_key(n.id, n.actions[a].id, n.actions[a].parameters[p].name)
}

/// The keys of the fields of the parameters of `n`'s actions that come
/// before parameter `p` of action `a`.
pub open spec fn fields_before(n: NodeV, a: int, p: int) -> Set<Seq<char>> {
    Set::new(
        |k: Seq<char>|
            exists|x: int, y: int|
                #![trigger field_at(n, x, y)]
                0 <= x < n.actions.len() && 0 <= y < n.actions[x].parameters.len() && (x < a || (x == a && y < p))
                    && k == field_at(n, x, y),
    )
}

/// The keys of the fields of the parameters of `n`'s actions.
pub open spec fn node_fields(n: NodeV) -> Set<Seq<char>> {
    fields_before(n, n.actions.len() as int, 0)
}

/// The form values once the fields of node `id` are cleared: those of the
/// node that a lookup of `id` finds, when there is one.
pub open spec fn reset_fields(s: UiV, id: Seq<char>) -> Map<Seq<char>, Seq<char>> {
    match crate::tree::find_v(s.manifest.nodes, id) {
        Some(n) => s.form_values.remove_keys(node_fields(n)),
        None => s.form_values,
    }
}

/// The payload of an effect, or null.
pub open spec fn payload_or_null(e: JsonV) -> JsonV {
    match e.field("payload"@) {
        Some(p) => p,
        None => JsonV::Null,
    }
}

/// What one effect does to the window, before the error line is cleared,
/// and what it asks of the operating system.
pub open spec fn ui_effect_v(s: UiV, e: JsonV) -> (UiV, UiCommandV) {
    let kind = str_field_of(e, "effect"@);
    let target = str_field_of(e, "target"@);
    let t = target->Some_0;
    if kind == Some("state.set"@) && target is Some {
        (UiV { state: s.state.insert(t, payload_text_or_empty(e, "value"@)), ..s }, UiCommandV::Nothing)
    } else if kind == Some("view.open"@) && target is Some {
        let state = match payload_field(e, "state"@) {
            Some(JsonV::Object(members)) => with_string_members(s.state, members),
            _ => s.state,
        };
        (
            UiV { state, open_views: s.open_views.insert(t), animated: s.animated.insert(t), ..s },
            UiCommandV::OpenDialog(t),
        )
    } else if kind == Some("view.close"@) && target is Some {
        if s.animated.contains(t) {
            (s, UiCommandV::CloseDialog(t))
        } else {
            (UiV { open_views: s.open_views.remove(t), ..s }, UiCommandV::Nothing)
        }
    } else if kind == Some("screen.navigate"@) && target is Some {
        match position_of(screens_v(s.manifest.nodes), t) {
            Some(i) => if i != s.active_screen {
                (UiV { active_screen: i, ..s }, UiCommandV::ScreenTransition)
            } else {
                (s, UiCommandV::Nothing)
            },
            None => (s, UiCommandV::Nothing),
        }
    } else if kind == Some("manifest.set_label"@) && target is Some {
        match payload_field(e, "label"@) {
            Some(JsonV::Str(l)) => (
                UiV {
                    manifest: ManifestV { nodes: edit_forest(s.manifest.nodes, t, NodeEditV::Label(l)), ..s.manifest },
                    ..s
                },
                UiCommandV::Nothing,
            ),
            _ => (s, UiCommandV::Nothing),
        }
    } else if kind == Some("manifest.set_visible"@) && target is Some {
        let visible = match payload_field(e, "visible"@) {
            Some(JsonV::Bool(b)) => b,
            _ => true,
        };
        if visible {
            (UiV { hidden: s.hidden.remove(t), ..s }, UiCommandV::Nothing)
        } else {
            (UiV { hidden: s.hidden.insert(t), ..s }, UiCommandV::Nothing)
        }
    } else if kind == Some("manifest.set_options"@) && target is Some {
        match payload_field(e, "options"@) {
            Some(JsonV::Array(items)) => (
                UiV {
                    manifest: ManifestV {
                        nodes: edit_forest(s.manifest.nodes, t, NodeEditV::Options(string_items(items))),
                        ..s.manifest
                    },
                    ..s
                },
                UiCommandV::Nothing,
            ),
            _ => (s, UiCommandV::Nothing),
        }
    } else if kind == Some("notification.show"@) {
        match payload_field(e, "message"@) {
            Some(JsonV::Str(m)) => (UiV { toast: Some(m), ..s }, UiCommandV::ShowToast),
            _ => (s, UiCommandV::Nothing),
        }
    } else if kind == Some("notification.os"@) {
        (s, UiCommandV::OsNotification(payload_text_or_empty(e, "title"@), payload_text_or_empty(e, "body"@)))
    } else if kind == Some("browser.open"@) && target is Some {
        (s, UiCommandV::OpenBrowser(t))
    } else if kind == Some("clipboard.write"@) {
        match payload_field(e, "text"@) {
            Some(JsonV::Str(x)) => (s, UiCommandV::ClipboardWrite(x)),
            _ => (s, UiCommandV::Nothing),
        }
    } else if kind == Some("sound.play"@) && target is Some {
        (s, UiCommandV::PlaySound(t))
    } else if kind == Some("window.set_title"@) {
        match payload_field(e, "title"@) {
            Some(JsonV::Str(x)) => (UiV { window_title: x, ..s }, UiCommandV::Nothing),
            _ => (s, UiCommandV::Nothing),
        }
    } else if kind == Some("window.set_badge"@) {
        match payload_field(e, "count"@) {
            Some(c) => match as_i64(c) {
                Some(n) => (s, UiCommandV::SetBadge(n)),
                None => (s, UiCommandV::Nothing),
            },
            None => (s, UiCommandV::Nothing),
        }
    } else if kind == Some("file.save"@) && target is Some {
        (s, UiCommandV::SaveFile(t, payload_text_or_empty(e, "content"@)))
    } else if kind == Some("storage.set"@) && target is Some {
        match payload_field(e, "value"@) {
            Some(v) => (s, UiCommandV::Storage(StorageOpV::KvSet(t, v))),
            None => (s, UiCommandV::Nothing),
        }
    } else if kind == Some("storage.delete"@) && target is Some {
        (s, UiCommandV::Storage(StorageOpV::KvDelete(t)))
    } else if kind == Some("storage.file.write"@) && target is Some {
        match payload_field(e, "content"@) {
            Some(JsonV::Str(c)) => (s, UiCommandV::Storage(StorageOpV::FileWrite(t, c))),
            _ => (s, UiCommandV::Nothing),
        }
    } else if kind == Some("storage.file.delete"@) && target is Some {
        (s, UiCommandV::Storage(StorageOpV::FileDelete(t)))
    } else if kind == Some("storage.dir.create"@) && target is Some {
        (s, UiCommandV::Storage(StorageOpV::DirCreate(t)))
    } else if kind == Some("manifest.set_icon"@) && target is Some {
        match payload_field(e, "icon"@) {
            Some(JsonV::Str(i)) => (
                UiV {
                    manifest: ManifestV { nodes: edit_forest(s.manifest.nodes, t, NodeEditV::Icon(i)), ..s.manifest },
                    ..s
                },
                UiCommandV::Nothing,
            ),
            _ => (s, UiCommandV::Nothing),
        }
    } else if kind == Some("form.reset"@) && target is Some {
        (UiV { form_values: reset_fields(s, t), ..s }, UiCommandV::Nothing)
    } else if kind == Some("window.minimize"@) {
        (s, UiCommandV::Minimize)
    } else if kind == Some("window.close"@) {
        (s, UiCommandV::Close)
    } else if kind == Some("http.fetch_async"@) && target is Some {
        let p = payload_or_null(e);
        (
            s,
            UiCommandV::FetchAsync {
                callback: t,
                url: payload_text_or_empty(e, "url"@),
                method: uppercase(method_of(p)),
                body: str_field_of(p, "body"@),
                timeout_secs: timeout_of(p),
                headers: header_pairs(p),
            },
        )
    } else if kind == Some("http.ws.connect"@) && target is Some {
        (
            s,
            UiCommandV::WsConnect {
                conn_id: t,
                url: payload_text_or_empty(e, "url"@),
                on_message: payload_text_or_empty(e, "on_message"@),
                on_close: payload_text_or_empty(e, "on_close"@),
            },
        )
    } else if kind == Some("http.ws.send"@) && target is Some {
        match payload_field(e, "data"@) {
            Some(JsonV::Str(d)) => if s.connections.contains(t) {
                (s, UiCommandV::WsSend(t, d))
            } else {
                (s, UiCommandV::Nothing)
            },
            _ => (s, UiCommandV::Nothing),
        }
    } else if kind == Some("http.ws.close"@) && target is Some {
        (UiV { connections: s.connections.remove(t), ..s }, UiCommandV::WsClose(t))
    } else {
        (s, UiCommandV::Nothing)
    }
}

/// What one effect does to the window: `ui_effect_v`, and the error line
/// cleared.
pub open spec fn apply_effect_v(s: UiV, e: JsonV) -> (UiV, UiCommandV) {
    let (t, c) = ui_effect_v(s, e);
    (UiV { error: None, ..t }, c)
}

proof fn lemma_position_push(s: Seq<NodeV>, x: NodeV, id: Seq<char>)
    ensures
        position_of(s.push(x), id) == (match position_of(s, id) {
            Some(p) => Some(p),
            None => if x.id == id {
                Some(s.len())
            } else {
                None
            },
        }),
    decreases s.len(),
{
    if s.len() > 0 {
        assert(s.push(x)[0] == s[0]);
        assert(s.push(x).drop_first() =~= s.drop_first().push(x));
        lemma_position_push(s.drop_first(), x, id);
    } else {
        assert(s.push(x)[0] == x);
        assert(s.push(x).drop_first() =~= Seq::<NodeV>::empty());
        assert(position_of(Seq::<NodeV>::empty(), id) is None);
        assert(position_of(s, id) is None);
    }
}

/// The position of screen `id` among the screens.
fn screen_position(nodes: &Vec<SemanticNode>, id: &str) -> (r: Option<usize>)
    ensures
        match r {
            Some(i) => position_of(screens_v(node_models(nodes@)), id@) == Some(i as nat),
            None => position_of(screens_v(node_models(nodes@)), id@) is None,
        },
{
    let ghost ms = node_models(nodes@);
    let ghost pred = |n: NodeV| n.role == "screen"@;
    let wanted = text(id);
    let mut result: Option<usize> = None;
    let mut count: usize = 0;
    let mut i: usize = 0;
    proof {
        reveal(Seq::filter);
        assert(ms.subrange(0, 0).filter(pred) =~= Seq::<NodeV>::empty());
    }
    while i < nodes.len()
        invariant
            i <= nodes.len(),
            ms == node_models(nodes@),
            ms.len() == nodes.len(),
            wanted@ == id@,
            pred == (|n: NodeV| n.role == "screen"@),
            count as int == ms.subrange(0, i as int).filter(pred).len(),
            count <= i,
            match result {
                Some(p) => position_of(ms.subrange(0, i as int).filter(pred), id@) == Some(p as nat),
                None => position_of(ms.subrange(0, i as int).filter(pred), id@) is None,
            },
        decreases nodes.len() - i,
    {
        let ghost sub = ms.subrange(0, i as int);
        assert(ms[i as int] == nodes@[i as int]@);
        proof {
            assert(ms.subrange(0, i + 1) =~= sub.push(ms[i as int]));
            crate::collections::lemma_filter_push(sub, pred, ms[i as int]);
            lemma_position_push(sub.filter(pred), ms[i as int], id@);
        }
        if string_eq(&nodes[i].role, &text("screen")) {
            if result.is_none() && string_eq(&nodes[i].id, &wanted) {
                result = Some(count);
            }
            count = count + 1;
        }
        i = i + 1;
    }
    assert(ms.subrange(0, ms.len() as int) =~= ms);
    result
}

/// The title of an application's window: its display name, or its name
/// when it has none.
pub fn window_title(display_name: Option<String>, manifest_name: &str) -> (t: String)
    ensures
        t@ == match display_name {
            Some(d) => d@,
            None => manifest_name@,
        },
{
    match display_name {
        Some(d) => d,
        None => text(manifest_name),
    }
}

/// Clears the form fields of the parameters of `n`'s actions.
fn clear_fields(values: &mut TextMap, n: &SemanticNode)
    ensures
        final(values)@ == old(values)@.remove_keys(node_fields(n@)),
{
    let ghost orig = values@;
    let ghost nv = n@;
    assert(fields_before(nv, 0, 0) =~= Set::empty());
    assert(orig.remove_keys(Set::empty()) =~= orig);
    let mut a: usize = 0;
    while a < n.actions.len()
        invariant
            a <= n.actions.len(),
            nv == n@,
            values@ == orig.remove_keys(fields_before(nv, a as int, 0)),
        decreases n.actions.len() - a,
    {
        let act = &n.actions[a];
        assert(nv.actions[a as int] == act@);
        let mut p: usize = 0;
        while p < act.parameters.len()
            invariant
                a < n.actions.len(),
                p <= act.parameters.len(),
                nv == n@,
                nv.actions[a as int] == act@,
                values@ == orig.remove_keys(fields_before(nv, a as int, p as int)),
            decreases act.parameters.len() - p,
        {
            assert(act@.parameters[p as int] == act.parameters@[p as int]@);
            let k = form_key(n.id.as_str(), act.id.as_str(), act.parameters[p].name.as_str());
            assert(k@ == field_at(nv, a as int, p as int));
            let ghost before = values@;
            values.remove(k.as_str());
            proof {
                let s1 = fields_before(nv, a as int, p as int);
                let s2 = fields_before(nv, a as int, p + 1);
                assert(s2 =~= s1.insert(k@)) by {
                    assert forall|key: Seq<char>| s2.contains(key) implies s1.insert(k@).contains(key) by {
                        let (x, y) = choose|x: int, y: int|
                            #![trigger field_at(nv, x, y)]
                            0 <= x < nv.actions.len() && 0 <= y < nv.actions[x].parameters.len() && (x < a || (x
                                == a && y < p + 1)) && key == field_at(nv, x, y);
                        if !(x < a || (x == a && y < p)) {
                            assert(x == a && y == p);
                        }
                    }
                    assert(s2.contains(field_at(nv, a as int, p as int)));
                }
                assert(values@ =~= orig.remove_keys(s2));
            }
            p = p + 1;
        }
        proof {
            assert(fields_before(nv, a as int, act.parameters.len() as int) =~= fields_before(nv, a + 1, 0));
        }
        a = a + 1;
    }
    assert(node_fields(nv) == fields_before(nv, a as int, 0));
}

/// The key of the form field of a parameter of an action of a node.
pub fn form_key(node_id: &str, action_id: &str, parameter_name: &str) -> (k: String)
    ensures
        k@ == node_id@ + "."@ + action_id@ + "."@ + parameter_name@,
{
    let mut k = text(node_id);
    k.append(".");
    k.append(action_id);
    k.append(".");
    k.append(parameter_name);
    k
}

/// A form field's text as the value of a parameter.
pub enum Coerced {
    Str(String),
    /// The number a float literal denotes; the text is one (see
    /// `literal::is_float_literal`).
    Number(String),
    Bool(bool),
}

pub enum CoercedV {
    Str(Seq<char>),
    Number(Seq<char>),
    Bool(bool),
}

impl View for Coerced {
    type V = CoercedV;

    open spec fn view(&self) -> CoercedV {
        match self {
            Coerced::Str(t) => CoercedV::Str(t@),
            Coerced::Number(t) => CoercedV::Number(t@),
            Coerced::Bool(b) => CoercedV::Bool(*b),
        }
    }
}

/// A form field's text read as a parameter of type `kind`: a string as
/// is, a number when it is a float literal, a boolean when it is `true` or
/// `false`.
pub open spec fn coerce_v(t: Seq<char>, p: ParamV) -> Result<CoercedV, Seq<char>> {
    if p.kind == "string"@ {
        Ok(CoercedV::Str(t))
    } else if p.kind == "number"@ {
        if is_float_literal(t) {
            Ok(CoercedV::Number(t))
        } else {
            Err("\""@ + p.name + "\" must be a number"@)
        }
    } else if p.kind == "boolean"@ {
        if t == "true"@ {
            Ok(CoercedV::Bool(true))
        } else if t == "false"@ {
            Ok(CoercedV::Bool(false))
        } else {
            Err("\""@ + p.name + "\" must be true or false"@)
        }
    } else {
        Err("Type `"@ + p.kind + "` is not yet supported"@)
    }
}

/// Reads a form field's text as the value of a parameter.
pub fn coerce_value(t: &str, parameter: &ActionParameter) -> (r: Result<Coerced, String>)
    ensures
        match r {
            Ok(c) => coerce_v(t@, parameter@) == Ok::<CoercedV, Seq<char>>(c@),
            Err(m) => coerce_v(t@, parameter@) == Err::<CoercedV, Seq<char>>(m@),
        },
{
    let kind = &parameter.kind;
    if string_eq(kind, &text("string")) {
        Ok(Coerced::Str(text(t)))
    } else if string_eq(kind, &text("number")) {
        if is_float_literal_exec(t) {
            Ok(Coerced::Number(text(t)))
        } else {
            Err(concat3("\"", parameter.name.as_str(), "\" must be a number"))
        }
    } else if string_eq(kind, &text("boolean")) {
        let tt = text(t);
        if string_eq(&tt, &text("true")) {
            Ok(Coerced::Bool(true))
        } else if string_eq(&tt, &text("false")) {
            Ok(Coerced::Bool(false))
        } else {
            Err(concat3("\"", parameter.name.as_str(), "\" must be true or false"))
        }
    } else {
        Err(concat3("Type `", kind.as_str(), "` is not yet supported"))
    }
}

/// The arguments that the form fields give an action of a node, parameter
/// by parameter: an empty optional field is left out, an empty required
/// one is an error, and the others are read by their type; the first
/// error stops.
pub open spec fn collect_v(
    form: Map<Seq<char>, Seq<char>>,
    node_id: Seq<char>,
    a: ActionV,
    params: Seq<ParamV>,
) -> Result<Seq<(Seq<char>, CoercedV)>, Seq<char>>
    decreases params.len(),
{
    if params.len() == 0 {
        Ok(Seq::empty())
    } else {
        match collect_v(form, node_id, a, params.drop_last()) {
            Err(m) => Err(m),
            Ok(args) => {
                let p = params.last();
                let key = node_id + "."@ + a.id + "."@ + p.name;
                let t = if form.contains_key(key) {
                    form[key]
                } else {
                    Seq::empty()
                };
                if t.len() == 0 && !p.required {
                    Ok(args)
                } else if t.len() == 0 {
                    Err("\""@ + p.name + "\" is required"@)
                } else {
                    match coerce_v(t, p) {
                        Ok(c) => Ok(args.push((p.name, c))),
                        Err(m) => Err(m),
                    }
                }
            },
        }
    }
}

proof fn lemma_collect_err(
    form: Map<Seq<char>, Seq<char>>,
    node_id: Seq<char>,
    a: ActionV,
    ps: Seq<ParamV>,
    k: int,
)
    requires
        0 <= k <= ps.len(),
        collect_v(form, node_id, a, ps.subrange(0, k)) is Err,
    ensures
        collect_v(form, node_id, a, ps) == collect_v(form, node_id, a, ps.subrange(0, k)),
    decreases ps.len(),
{
    if k == ps.len() {
        assert(ps.subrange(0, k) =~= ps);
    } else {
        assert(ps.drop_last().subrange(0, k) =~= ps.subrange(0, k));
        lemma_collect_err(form, node_id, a, ps.drop_last(), k);
    }
}

impl UiState {
    /// The window of an application: the declared state, the first screen
    /// active, nothing open, and as title the display name, or the
    /// application's name when there is none.
    pub fn new(manifest: AppManifest, display_name: Option<String>) -> (u: UiState)
        ensures
            u@ == (UiV {
                manifest: manifest@,
                state: crate::mcp::declared_state(manifest@.state),
                open_views: Set::empty(),
                animated: Set::empty(),
                error: None,
                form_values: Map::empty(),
                active_screen: 0,
                hidden: Set::empty(),
                window_title: match display_name {
                    Some(d) => d@,
                    None => manifest@.name,
                },
                connections: Set::empty(),
                toast: None,
            }),
    {
        let state = crate::mcp::initial_state(&manifest);
        let window_title = window_title(display_name, manifest.name.as_str());
        UiState {
            manifest,
            state,
            open_views: NameSet::new(),
            animated: NameSet::new(),
            error: None,
            form_values: TextMap::new(),
            active_screen: 0,
            hidden_nodes: NameSet::new(),
            window_title,
            connections: NameSet::new(),
            toast: None,
        }
    }

    pub fn manifest(&self) -> (m: &AppManifest)
        ensures
            m@ == self@.manifest,
    {
        &self.manifest
    }

    pub fn state(&self) -> (m: &TextMap)
        ensures
            m@ == self@.state,
    {
        &self.state
    }

    pub fn form_values(&self) -> (m: &TextMap)
        ensures
            m@ == self@.form_values,
    {
        &self.form_values
    }

    pub fn error(&self) -> (e: &Option<String>)
        ensures
            crate::xml::opt_text(*e) == self@.error,
    {
        &self.error
    }

    pub fn toast(&self) -> (t: &Option<String>)
        ensures
            crate::xml::opt_text(*t) == self@.toast,
    {
        &self.toast
    }

    pub fn window_title(&self) -> (t: &String)
        ensures
            t@ == self@.window_title,
    {
        &self.window_title
    }

    pub fn active_screen(&self) -> (i: usize)
        ensures
            i as nat == self@.active_screen,
    {
        self.active_screen
    }

    pub fn is_open(&self, view_id: &str) -> (b: bool)
        ensures
            b == self@.open_views.contains(view_id@),
    {
        self.open_views.contains(view_id)
    }

    pub fn is_hidden(&self, node_id: &str) -> (b: bool)
        ensures
            b == self@.hidden.contains(node_id@),
    {
        self.hidden_nodes.contains(node_id)
    }

    /// A bound field was edited: `key` of the state takes `value`.
    pub fn set_state(&mut self, key: String, value: String)
        ensures
            final(self)@ == (UiV { state: old(self)@.state.insert(key@, value@), ..old(self)@ }),
    {
        self.state.insert(key, value);
    }

    /// A parameter field was edited.
    pub fn set_form_value(&mut self, key: String, value: String)
        ensures
            final(self)@ == (UiV { form_values: old(self)@.form_values.insert(key@, value@), ..old(self)@ }),
    {
        self.form_values.insert(key, value);
    }

    /// A screen was picked in the sidebar.
    pub fn select_screen(&mut self, index: usize)
        ensures
            final(self)@ == (UiV { active_screen: index as nat, ..old(self)@ }),
    {
        self.active_screen = index;
    }

    /// Shows an error.
    pub fn set_error(&mut self, message: String)
        ensures
            final(self)@ == (UiV { error: Some(message@), ..old(self)@ }),
    {
        self.error = Some(message);
    }

    /// The toast has been shown long enough.
    pub fn dismiss_toast(&mut self)
        ensures
            final(self)@ == (UiV { toast: None, ..old(self)@ }),
    {
        self.toast = None;
    }

    /// The closing animation of a view ended: it is closed.
    pub fn finish_close(&mut self, view_id: &str)
        ensures
            final(self)@ == (UiV {
                open_views: old(self)@.open_views.remove(view_id@),
                animated: old(self)@.animated.remove(view_id@),
                ..old(self)@
            }),
    {
        self.animated.remove(view_id);
        self.open_views.remove(view_id);
    }

    /// A WebSocket connection is ready to be written to.
    pub fn connection_opened(&mut self, conn_id: String)
        ensures
            final(self)@ == (UiV { connections: old(self)@.connections.insert(conn_id@), ..old(self)@ }),
    {
        self.connections.insert(conn_id);
    }

    /// A WebSocket connection closed.
    pub fn connection_closed(&mut self, conn_id: &str)
        ensures
            final(self)@ == (UiV { connections: old(self)@.connections.remove(conn_id@), ..old(self)@ }),
    {
        self.connections.remove(conn_id);
    }

    /// The arguments that the form fields give `action` of `node`.
    pub fn collect_arguments(&self, node: &SemanticNode, action: &SemanticAction) -> (r: Result<
        Vec<(String, Coerced)>,
        String,
    >)
        ensures
            match r {
                Ok(args) => collect_v(self@.form_values, node@.id, action@, action@.parameters) == Ok::<
                    Seq<(Seq<char>, CoercedV)>,
                    Seq<char>,
                >(args@.map_values(|p: (String, Coerced)| (p.0@, p.1@))),
                Err(m) => collect_v(self@.form_values, node@.id, action@, action@.parameters) == Err::<
                    Seq<(Seq<char>, CoercedV)>,
                    Seq<char>,
                >(m@),
            },
    {
        let ghost ps = action@.parameters;
        let mut args: Vec<(String, Coerced)> = Vec::new();
        let mut i: usize = 0;
        assert(ps.subrange(0, 0) =~= Seq::<ParamV>::empty());
        assert(args@.map_values(|p: (String, Coerced)| (p.0@, p.1@)) =~= Seq::<(Seq<char>, CoercedV)>::empty());
        while i < action.parameters.len()
            invariant
                i <= action.parameters.len(),
                ps == action@.parameters,
                ps.len() == action.parameters.len(),
                collect_v(self@.form_values, node@.id, action@, ps.subrange(0, i as int)) == Ok::<
                    Seq<(Seq<char>, CoercedV)>,
                    Seq<char>,
                >(args@.map_values(|p: (String, Coerced)| (p.0@, p.1@))),
            decreases action.parameters.len() - i,
        {
            let p = &action.parameters[i];
            assert(ps[i as int] == p@);
            assert(ps.subrange(0, i + 1).drop_last() =~= ps.subrange(0, i as int));
            assert(ps.subrange(0, i + 1).last() == p@);
            let key = form_key(node.id.as_str(), action.id.as_str(), p.name.as_str());
            let empty = String::new();
            let t = match self.form_values.get(key.as_str()) {
                Some(v) => v,
                None => &empty,
            };
            if t.as_str().unicode_len() == 0 && !p.required {
                i = i + 1;
                continue;
            }
            if t.as_str().unicode_len() == 0 {
                proof {
                    lemma_collect_err(self@.form_values, node@.id, action@, ps, i + 1);
                }
                return Err(concat3("\"", p.name.as_str(), "\" is required"));
            }
            match coerce_value(t.as_str(), p) {
                Ok(c) => {
                    let ghost before = args@.map_values(|q: (String, Coerced)| (q.0@, q.1@));
                    let ghost cv = c@;
                    args.push((p.name.clone(), c));
                    assert(args@.map_values(|q: (String, Coerced)| (q.0@, q.1@)) =~= before.push((p.name@, cv)));
                },
                Err(m) => {
                    proof {
                        lemma_collect_err(self@.form_values, node@.id, action@, ps, i + 1);
                    }
                    return Err(m);
                },
            }
            i = i + 1;
        }
        assert(ps.subrange(0, ps.len() as int) =~= ps);
        Ok(args)
    }
}

/// The text of a string payload field, or the empty text.
fn payload_text(e: &Json, k: &str) -> (r: String)
    ensures
        r@ == payload_text_or_empty(e@, k@),
{
    match payload_str(e, k) {
        Some(t) => t,
        None => String::new(),
    }
}

impl UiState {
    /// `view.open`: sets the string members of `payload.state`, opens the
    /// view and starts its animation.
    fn open_view(&mut self, effect: &Json, view_id: String)
        ensures
            final(self)@ == (UiV {
                state: match payload_field(effect@, "state"@) {
                    Some(JsonV::Object(members)) => with_string_members(old(self)@.state, members),
                    _ => old(self)@.state,
                },
                open_views: old(self)@.open_views.insert(view_id@),
                animated: old(self)@.animated.insert(view_id@),
                ..old(self)@
            }),
    {
        match payload_get(effect, "state") {
            Some(Json::Object(members)) => {
                let ghost ms = crate::json::member_models(members@);
                let ghost start = self.state@;
                let mut i: usize = 0;
                assert(with_string_members(start, ms.subrange(0, 0)) =~= start);
                while i < members.len()
                    invariant
                        i <= members.len(),
                        ms == crate::json::member_models(members@),
                        ms.len() == members.len(),
                        self.state@ == with_string_members(start, ms.subrange(0, i as int)),
                        self@ == (UiV { state: self.state@, ..old(self)@ }),
                    decreases members.len() - i,
                {
                    assert(ms[i as int] == (members@[i as int].0@, members@[i as int].1@));
                    assert(ms.subrange(0, i + 1).drop_last() =~= ms.subrange(0, i as int));
                    match &members[i].1 {
                        Json::Str(t) => {
                            self.state.insert(members[i].0.clone(), t.clone());
                        },
                        _ => {},
                    }
                    i = i + 1;
                }
                assert(ms.subrange(0, ms.len() as int) =~= ms);
            },
            _ => {},
        }
        self.open_views.insert(view_id.clone());
        self.animated.insert(view_id);
    }

    /// The part of an effect that depends on its kind.
    fn effect_command(&mut self, effect: &Json) -> (cmd: UiCommand)
        ensures
            (final(self)@, cmd@) == ui_effect_v(old(self)@, effect@),
    {
        let kind = str_field_text(effect, "effect");
        let target = str_field_text(effect, "target");
        if kind_is(&kind, "state.set") && target.is_some() {
            let key = target.unwrap();
            let value = payload_text(effect, "value");
            self.state.insert(key, value);
            UiCommand::Nothing
        } else if kind_is(&kind, "view.open") && target.is_some() {
            let view_id = target.unwrap();
            self.open_view(effect, view_id.clone());
            UiCommand::OpenDialog(view_id)
        } else if kind_is(&kind, "view.close") && target.is_some() {
            let view_id = target.unwrap();
            if self.animated.contains(view_id.as_str()) {
                UiCommand::CloseDialog(view_id)
            } else {
                self.open_views.remove(view_id.as_str());
                UiCommand::Nothing
            }
        } else if kind_is(&kind, "screen.navigate") && target.is_some() {
            let screen_id = target.unwrap();
            match screen_position(&self.manifest.nodes, screen_id.as_str()) {
                Some(i) => {
                    if i != self.active_screen {
                        self.active_screen = i;
                        UiCommand::ScreenTransition
                    } else {
                        UiCommand::Nothing
                    }
                },
                None => UiCommand::Nothing,
            }
        } else if kind_is(&kind, "manifest.set_label") && target.is_some() {
            let id = target.unwrap();
            match payload_str(effect, "label") {
                Some(l) => {
                    edit_first(&mut self.manifest.nodes, id.as_str(), &NodeEdit::Label(l));
                },
                None => {},
            }
            UiCommand::Nothing
        } else if kind_is(&kind, "manifest.set_visible") && target.is_some() {
            let id = target.unwrap();
            let visible = match payload_get(effect, "visible") {
                Some(Json::Bool(b)) => *b,
                _ => true,
            };
            if visible {
                self.hidden_nodes.remove(id.as_str());
            } else {
                self.hidden_nodes.insert(id);
            }
            UiCommand::Nothing
        } else if kind_is(&kind, "manifest.set_options") && target.is_some() {
            let id = target.unwrap();
            match payload_get(effect, "options") {
                Some(Json::Array(items)) => {
                    let labels = strings_of(items);
                    edit_first(&mut self.manifest.nodes, id.as_str(), &NodeEdit::Options(labels));
                },
                _ => {},
            }
            UiCommand::Nothing
        } else if kind_is(&kind, "notification.show") {
            match payload_str(effect, "message") {
                Some(m) => {
                    self.toast = Some(m);
                    UiCommand::ShowToast
                },
                None => UiCommand::Nothing,
            }
        } else if kind_is(&kind, "notification.os") {
            UiCommand::OsNotification { title: payload_text(effect, "title"), body: payload_text(effect, "body") }
        } else if kind_is(&kind, "browser.open") && target.is_some() {
            UiCommand::OpenBrowser(target.unwrap())
        } else if kind_is(&kind, "clipboard.write") {
            match payload_str(effect, "text") {
                Some(t) => UiCommand::ClipboardWrite(t),
                None => UiCommand::Nothing,
            }
        } else if kind_is(&kind, "sound.play") && target.is_some() {
            UiCommand::PlaySound(target.unwrap())
        } else if kind_is(&kind, "window.set_title") {
            match payload_str(effect, "title") {
                Some(t) => {
                    self.window_title = t;
                },
                None => {},
            }
            UiCommand::Nothing
        } else if kind_is(&kind, "window.set_badge") {
            match payload_get(effect, "count") {
                Some(Json::Number(JsonNumber::Pos(n))) => {
                    if *n <= i64::MAX as u64 {
                        UiCommand::SetBadge(*n as i64)
                    } else {
                        UiCommand::Nothing
                    }
                },
                Some(Json::Number(JsonNumber::Neg(n))) => UiCommand::SetBadge(*n),
                _ => UiCommand::Nothing,
            }
        } else if kind_is(&kind, "file.save") && target.is_some() {
            UiCommand::SaveFile { filename: target.unwrap(), content: payload_text(effect, "content") }
        } else if kind_is(&kind, "storage.set") && target.is_some() {
            match payload_get(effect, "value") {
                Some(v) => UiCommand::Storage(StorageOp::KvSet { key: target.unwrap(), value: v.deep_clone() }),
                None => UiCommand::Nothing,
            }
        } else if kind_is(&kind, "storage.delete") && target.is_some() {
            UiCommand::Storage(StorageOp::KvDelete(target.unwrap()))
        } else if kind_is(&kind, "storage.file.write") && target.is_some() {
            match payload_str(effect, "content") {
                Some(c) => UiCommand::Storage(StorageOp::FileWrite { path: target.unwrap(), content: c }),
                None => UiCommand::Nothing,
            }
        } else if kind_is(&kind, "storage.file.delete") && target.is_some() {
            UiCommand::Storage(StorageOp::FileDelete(target.unwrap()))
        } else if kind_is(&kind, "storage.dir.create") && target.is_some() {
            UiCommand::Storage(StorageOp::DirCreate(target.unwrap()))
        } else if kind_is(&kind, "manifest.set_icon") && target.is_some() {
            let id = target.unwrap();
            match payload_str(effect, "icon") {
                Some(i) => {
                    edit_first(&mut self.manifest.nodes, id.as_str(), &NodeEdit::Icon(i));
                },
                None => {},
            }
            UiCommand::Nothing
        } else if kind_is(&kind, "form.reset") && target.is_some() {
            let id = target.unwrap();
            match crate::tree::find_node(&self.manifest.nodes, id.as_str()) {
                Some(n) => clear_fields(&mut self.form_values, n),
                None => {},
            }
            UiCommand::Nothing
        } else if kind_is(&kind, "window.minimize") {
            UiCommand::Minimize
        } else if kind_is(&kind, "window.close") {
            UiCommand::Close
        } else if kind_is(&kind, "http.fetch_async") && target.is_some() {
            let null = Json::Null;
            let payload = match effect.get("payload") {
                Some(p) => p,
                None => &null,
            };
            UiCommand::FetchAsync {
                callback: target.unwrap(),
                url: payload_text(effect, "url"),
                request: FetchRequest::from_options(payload),
            }
        } else if kind_is(&kind, "http.ws.connect") && target.is_some() {
            UiCommand::WsConnect {
                conn_id: target.unwrap(),
                url: payload_text(effect, "url"),
                on_message: payload_text(effect, "on_message"),
                on_close: payload_text(effect, "on_close"),
            }
        } else if kind_is(&kind, "http.ws.send") && target.is_some() {
            let conn_id = target.unwrap();
            match payload_str(effect, "data") {
                Some(d) => {
                    if self.connections.contains(conn_id.as_str()) {
                        UiCommand::WsSend { conn_id, data: d }
                    } else {
                        UiCommand::Nothing
                    }
                },
                None => UiCommand::Nothing,
            }
        } else if kind_is(&kind, "http.ws.close") && target.is_some() {
            let conn_id = target.unwrap();
            self.connections.remove(conn_id.as_str());
            UiCommand::WsClose(conn_id)
        } else {
            UiCommand::Nothing
        }
    }

    /// Applies an effect to the window; returns what it asks of the
    /// operating system. The error line is cleared.
    pub fn apply_effect(&mut self, effect: &Json) -> (cmd: UiCommand)
        ensures
            (final(self)@, cmd@) == apply_effect_v(old(self)@, effect@),
    {
        let cmd = self.effect_command(effect);
        self.error = None;
        cmd
    }
}

/// A dialog or a view: a node shown in a window of its own.
pub open spec fn is_dialog(n: NodeV) -> bool {
    n.role == "dialog"@ || n.role == "view"@
}

/// The open dialogs among the children of some screens, screen by screen
/// and in order.
pub open spec fn dialogs_v(screens: Seq<NodeV>, open: Set<Seq<char>>) -> Seq<NodeV>
    decreases screens.len(),
{
    if screens.len() == 0 {
        Seq::empty()
    } else {
        dialogs_v(screens.drop_last(), open) + screens.last().children.filter(
            |n: NodeV| is_dialog(n) && open.contains(n.id),
        )
    }
}

/// The models of some node references.
pub open spec fn ref_models(v: Seq<&SemanticNode>) -> Seq<NodeV> {
    v.map_values(|n: &SemanticNode| n@)
}

fn is_role(n: &SemanticNode, role: &str) -> (b: bool)
    ensures
        b == (n@.role == role@),
{
    string_eq(&n.role, &text(role))
}

impl UiState {
    /// The screens of the application, in order: the top-level nodes of
    /// role `screen`.
    pub fn screens(&self) -> (r: Vec<&SemanticNode>)
        ensures
            ref_models(r@) == screens_v(self@.manifest.nodes),
    {
        let nodes = &self.manifest.nodes;
        let ghost ms = node_models(nodes@);
        let ghost pred = |n: NodeV| n.role == "screen"@;
        let mut r: Vec<&SemanticNode> = Vec::new();
        let mut i: usize = 0;
        proof {
            reveal(Seq::filter);
            assert(ms.subrange(0, 0).filter(pred) =~= Seq::<NodeV>::empty());
            assert(ref_models(r@) =~= Seq::<NodeV>::empty());
        }
        while i < nodes.len()
            invariant
                i <= nodes.len(),
                nodes == &self.manifest.nodes,
                ms == node_models(nodes@),
                ms.len() == nodes.len(),
                pred == (|n: NodeV| n.role == "screen"@),
                ref_models(r@) == ms.subrange(0, i as int).filter(pred),
            decreases nodes.len() - i,
        {
            let ghost sub = ms.subrange(0, i as int);
            let ghost before = r@;
            assert(ms[i as int] == nodes@[i as int]@);
            proof {
                assert(ms.subrange(0, i + 1) =~= sub.push(ms[i as int]));
                crate::collections::lemma_filter_push(sub, pred, ms[i as int]);
            }
            if is_role(&nodes[i], "screen") {
                r.push(&nodes[i]);
                assert(ref_models(r@) =~= ref_models(before).push(ms[i as int]));
            }
            i = i + 1;
        }
        assert(ms.subrange(0, ms.len() as int) =~= ms);
        r
    }

    /// The dialogs and views to show: the open ones among the children of
    /// the screens, screen by screen and in order.
    pub fn open_dialogs(&self) -> (r: Vec<&SemanticNode>)
        ensures
            ref_models(r@) == dialogs_v(screens_v(self@.manifest.nodes), self@.open_views),
    {
        let screens = self.screens();
        let ghost ss = ref_models(screens@);
        let ghost open = self@.open_views;
        let mut r: Vec<&SemanticNode> = Vec::new();
        let mut i: usize = 0;
        assert(ss.subrange(0, 0) =~= Seq::<NodeV>::empty());
        assert(ref_models(r@) =~= Seq::<NodeV>::empty());
        while i < screens.len()
            invariant
                i <= screens.len(),
                ss == ref_models(screens@),
                ss.len() == screens.len(),
                open == self@.open_views,
                ref_models(r@) == dialogs_v(ss.subrange(0, i as int), open),
            decreases screens.len() - i,
        {
            let screen = screens[i];
            let ghost kids = node_models(screen.children@);
            let ghost pred = |n: NodeV| is_dialog(n) && open.contains(n.id);
            let ghost start = ref_models(r@);
            assert(ss[i as int] == screen@);
            assert(screen@.children == kids);
            let mut j: usize = 0;
            proof {
                reveal(Seq::filter);
                assert(kids.subrange(0, 0).filter(pred) =~= Seq::<NodeV>::empty());
                assert(start + kids.subrange(0, 0).filter(pred) =~= start);
            }
            while j < screen.children.len()
                invariant
                    j <= screen.children.len(),
                    kids == node_models(screen.children@),
                    kids.len() == screen.children.len(),
                    open == self@.open_views,
                    pred == (|n: NodeV| is_dialog(n) && open.contains(n.id)),
                    ref_models(r@) == start + kids.subrange(0, j as int).filter(pred),
                decreases screen.children.len() - j,
            {
                let ghost sub = kids.subrange(0, j as int);
                let ghost before = r@;
                let child = &screen.children[j];
                assert(kids[j as int] == child@);
                proof {
                    assert(kids.subrange(0, j + 1) =~= sub.push(kids[j as int]));
                    crate::collections::lemma_filter_push(sub, pred, kids[j as int]);
                }
                if (is_role(child, "dialog") || is_role(child, "view")) && self.open_views.contains(
                    child.id.as_str(),
                ) {
                    r.push(child);
                    assert(ref_models(r@) =~= ref_models(before).push(kids[j as int]));
                    assert(start + sub.filter(pred).push(kids[j as int]) =~= start + (sub.filter(pred).push(
                        kids[j as int],
                    )));
                }
                j = j + 1;
            }
            proof {
                assert(kids.subrange(0, kids.len() as int) =~= kids);
                let next = ss.subrange(0, i + 1);
                assert(next.drop_last() =~= ss.subrange(0, i as int));
                assert(next[next.len() - 1] == ss[i as int]);
            }
            i = i + 1;
        }
        assert(ss.subrange(0, ss.len() as int) =~= ss);
        r
    }
}

// ─── Laws ───────────────────────────────────────────────────────────────────

/// Opening a view shows it and starts its animation; closing it then asks
/// for the closing animation, at whose end the view is no longer open.
pub proof fn law_open_then_close(s: UiV, id: Seq<char>, open_payload: JsonV, close_payload: JsonV)
    ensures
        ({
            let opened = apply_effect_v(s, crate::runtime::effect_v("view.open"@, id, open_payload));
            let closed = apply_effect_v(opened.0, crate::runtime::effect_v("view.close"@, id, close_payload));
            &&& opened.0.open_views.contains(id)
            &&& opened.1 == UiCommandV::OpenDialog(id)
            &&& closed.1 == UiCommandV::CloseDialog(id)
            &&& !closed.0.open_views.remove(id).contains(id)
        }),
{
    crate::runtime::lemma_effect_fields("view.open"@, id, open_payload);
    crate::runtime::lemma_effect_fields("view.close"@, id, close_payload);
    reveal_strlit("view.open");
    reveal_strlit("view.close");
    reveal_strlit("state.set");
    assert("view.open"@[0] != "state.set"@[0]);
    assert("view.close"@.len() != "state.set"@.len());
    assert("view.close"@.len() != "view.open"@.len());
}

/// Resetting the form of a node empties the fields of the parameters of
/// its actions and keeps every other field, those of other nodes too.
pub proof fn law_form_reset(s: UiV, node_id: Seq<char>, key: Seq<char>)
    ensures
        ({
            let after = apply_effect_v(s, crate::runtime::effect_v("form.reset"@, node_id, crate::runtime::obj0())).0;
            let own = crate::tree::find_v(s.manifest.nodes, node_id) matches Some(n) && node_fields(n).contains(key);
            &&& own ==> !after.form_values.contains_key(key)
            &&& !own ==> (after.form_values.contains_key(key) == s.form_values.contains_key(key) && (
            s.form_values.contains_key(key) ==> after.form_values[key] == s.form_values[key]))
        }),
{
    crate::runtime::lemma_effect_fields("form.reset"@, node_id, crate::runtime::obj0());
    reveal_strlit("form.reset");
    reveal_strlit("state.set");
    reveal_strlit("view.open");
    reveal_strlit("view.close");
    reveal_strlit("screen.navigate");
    reveal_strlit("manifest.set_label");
    reveal_strlit("manifest.set_visible");
    reveal_strlit("manifest.set_options");
    reveal_strlit("notification.show");
    reveal_strlit("notification.os");
    reveal_strlit("browser.open");
    reveal_strlit("clipboard.write");
    reveal_strlit("sound.play");
    reveal_strlit("window.set_title");
    reveal_strlit("window.set_badge");
    reveal_strlit("file.save");
    reveal_strlit("storage.set");
    reveal_strlit("storage.delete");
    reveal_strlit("storage.file.write");
    reveal_strlit("storage.file.delete");
    reveal_strlit("storage.dir.create");
    reveal_strlit("manifest.set_icon");
    let f = "form.reset"@;
    assert(f.len() != "state.set"@.len());
    assert(f.len() != "view.open"@.len() || f[0] != "view.open"@[0]);
    assert(f[0] != "view.close"@[0]);
    assert(f[0] != "screen.navigate"@[0]);
    assert(f[0] != "manifest.set_label"@[0]);
    assert(f[0] != "manifest.set_visible"@[0]);
    assert(f[0] != "manifest.set_options"@[0]);
    assert(f[0] != "notification.show"@[0]);
    assert(f[0] != "notification.os"@[0]);
    assert(f[0] != "browser.open"@[0]);
    assert(f[0] != "clipboard.write"@[0]);
    assert(f[0] != "sound.play"@[0]);
    assert(f[0] != "window.set_title"@[0]);
    assert(f[0] != "window.set_badge"@[0]);
    assert(f.len() != "file.save"@.len());
    assert(f[0] != "storage.set"@[0]);
    assert(f[0] != "storage.delete"@[0]);
    assert(f[0] != "storage.file.write"@[0]);
    assert(f[0] != "storage.file.delete"@[0]);
    assert(f[0] != "storage.dir.create"@[0]);
    assert(f[0] != "manifest.set_icon"@[0]);
}

/// The storage functions of a handler's context write nothing
/// themselves: each effect they build, applied to the window, leaves its
/// state as it was (but for the error line, which every effect clears) and
/// asks for exactly the one storage operation it names, which the caller
/// carries out.
pub proof fn law_storage_effects_are_requests(
    s: UiV,
    key: Seq<char>,
    value: JsonV,
    path: Seq<char>,
    content: Seq<char>,
)
    ensures
        apply_effect_v(s, crate::runtime::effect_v("storage.set"@, key, crate::runtime::obj1("value"@, value)))
            == (UiV { error: None, ..s }, UiCommandV::Storage(StorageOpV::KvSet(key, value))),
        apply_effect_v(s, crate::runtime::effect_v("storage.delete"@, key, crate::runtime::obj0())) == (UiV {
            error: None,
            ..s
        }, UiCommandV::Storage(StorageOpV::KvDelete(key))),
        apply_effect_v(
            s,
            crate::runtime::effect_v("storage.file.write"@, path, crate::runtime::obj1("content"@, JsonV::Str(content))),
        ) == (UiV { error: None, ..s }, UiCommandV::Storage(StorageOpV::FileWrite(path, content))),
        apply_effect_v(s, crate::runtime::effect_v("storage.file.delete"@, path, crate::runtime::obj0())) == (UiV {
            error: None,
            ..s
        }, UiCommandV::Storage(StorageOpV::FileDelete(path))),
        apply_effect_v(s, crate::runtime::effect_v("storage.dir.create"@, path, crate::runtime::obj0())) == (UiV {
            error: None,
            ..s
        }, UiCommandV::Storage(StorageOpV::DirCreate(path))),
{
    crate::runtime::lemma_effect_fields("storage.set"@, key, crate::runtime::obj1("value"@, value));
    crate::runtime::lemma_effect_fields("storage.delete"@, key, crate::runtime::obj0());
    crate::runtime::lemma_effect_fields("storage.file.write"@, path, crate::runtime::obj1("content"@, JsonV::Str(content)));
    crate::runtime::lemma_effect_fields("storage.file.delete"@, path, crate::runtime::obj0());
    crate::runtime::lemma_effect_fields("storage.dir.create"@, path, crate::runtime::obj0());
    reveal_strlit("state.set");
    reveal_strlit("view.open");
    reveal_strlit("view.close");
    reveal_strlit("screen.navigate");
    reveal_strlit("manifest.set_label");
    reveal_strlit("manifest.set_visible");
    reveal_strlit("manifest.set_options");
    reveal_strlit("notification.show");
    reveal_strlit("notification.os");
    reveal_strlit("browser.open");
    reveal_strlit("clipboard.write");
    reveal_strlit("sound.play");
    reveal_strlit("window.set_title");
    reveal_strlit("window.set_badge");
    reveal_strlit("file.save");
    reveal_strlit("storage.set");
    reveal_strlit("storage.delete");
    reveal_strlit("storage.file.write");
    reveal_strlit("storage.file.delete");
    reveal_strlit("storage.dir.create");
    reveal_strlit("value");
    reveal_strlit("content");
    assert("storage.set"@.len() != "state.set"@.len());
    assert("storage.set"@.len() != "view.open"@.len());
    assert("storage.set"@.len() != "view.close"@.len());
    assert("storage.set"@.len() != "screen.navigate"@.len());
    assert("storage.set"@.len() != "manifest.set_label"@.len());
    assert("storage.set"@.len() != "manifest.set_visible"@.len());
    assert("storage.set"@.len() != "manifest.set_options"@.len());
    assert("storage.set"@.len() != "notification.show"@.len());
    assert("storage.set"@.len() != "notification.os"@.len());
    assert("storage.set"@.len() != "browser.open"@.len());
    assert("storage.set"@.len() != "clipboard.write"@.len());
    assert("storage.set"@.len() != "sound.play"@.len());
    assert("storage.set"@.len() != "window.set_title"@.len());
    assert("storage.set"@.len() != "window.set_badge"@.len());
    assert("storage.set"@.len() != "file.save"@.len());
    assert("storage.delete"@.len() != "state.set"@.len());
    assert("storage.delete"@.len() != "view.open"@.len());
    assert("storage.delete"@.len() != "view.close"@.len());
    assert("storage.delete"@.len() != "screen.navigate"@.len());
    assert("storage.delete"@.len() != "manifest.set_label"@.len());
    assert("storage.delete"@.len() != "manifest.set_visible"@.len());
    assert("storage.delete"@.len() != "manifest.set_options"@.len());
    assert("storage.delete"@.len() != "notification.show"@.len());
    assert("storage.delete"@.len() != "notification.os"@.len());
    assert("storage.delete"@.len() != "browser.open"@.len());
    assert("storage.delete"@.len() != "clipboard.write"@.len());
    assert("storage.delete"@.len() != "sound.play"@.len());
    assert("storage.delete"@.len() != "window.set_title"@.len());
    assert("storage.delete"@.len() != "window.set_badge"@.len());
    assert("storage.delete"@.len() != "file.save"@.len());
    assert("storage.delete"@.len() != "storage.set"@.len());
    assert("storage.file.write"@.len() != "state.set"@.len());
    assert("storage.file.write"@.len() != "view.open"@.len());
    assert("storage.file.write"@.len() != "view.close"@.len());
    assert("storage.file.write"@.len() != "screen.navigate"@.len());
    assert("storage.file.write"@[0] != "manifest.set_label"@[0]);
    assert("storage.file.write"@.len() != "manifest.set_visible"@.len());
    assert("storage.file.write"@.len() != "manifest.set_options"@.len());
    assert("storage.file.write"@.len() != "notification.show"@.len());
    assert("storage.file.write"@.len() != "notification.os"@.len());
    assert("storage.file.write"@.len() != "browser.open"@.len());
    assert("storage.file.write"@.len() != "clipboard.write"@.len());
    assert("storage.file.write"@.len() != "sound.play"@.len());
    assert("storage.file.write"@.len() != "window.set_title"@.len());
    assert("storage.file.write"@.len() != "window.set_badge"@.len());
    assert("storage.file.write"@.len() != "file.save"@.len());
    assert("storage.file.write"@.len() != "storage.set"@.len());
    assert("storage.file.write"@.len() != "storage.delete"@.len());
    assert("storage.file.delete"@.len() != "state.set"@.len());
    assert("storage.file.delete"@.len() != "view.open"@.len());
    assert("storage.file.delete"@.len() != "view.close"@.len());
    assert("storage.file.delete"@.len() != "screen.navigate"@.len());
    assert("storage.file.delete"@.len() != "manifest.set_label"@.len());
    assert("storage.file.delete"@.len() != "manifest.set_visible"@.len());
    assert("storage.file.delete"@.len() != "manifest.set_options"@.len());
    assert("storage.file.delete"@.len() != "notification.show"@.len());
    assert("storage.file.delete"@.len() != "notification.os"@.len());
    assert("storage.file.delete"@.len() != "browser.open"@.len());
    assert("storage.file.delete"@.len() != "clipboard.write"@.len());
    assert("storage.file.delete"@.len() != "sound.play"@.len());
    assert("storage.file.delete"@.len() != "window.set_title"@.len());
    assert("storage.file.delete"@.len() != "window.set_badge"@.len());
    assert("storage.file.delete"@.len() != "file.save"@.len());
    assert("storage.file.delete"@.len() != "storage.set"@.len());
    assert("storage.file.delete"@.len() != "storage.delete"@.len());
    assert("storage.file.delete"@.len() != "storage.file.write"@.len());
    assert("storage.dir.create"@.len() != "state.set"@.len());
    assert("storage.dir.create"@.len() != "view.open"@.len());
    assert("storage.dir.create"@.len() != "view.close"@.len());
    assert("storage.dir.create"@.len() != "screen.navigate"@.len());
    assert("storage.dir.create"@[0] != "manifest.set_label"@[0]);
    assert("storage.dir.create"@.len() != "manifest.set_visible"@.len());
    assert("storage.dir.create"@.len() != "manifest.set_options"@.len());
    assert("storage.dir.create"@.len() != "notification.show"@.len());
    assert("storage.dir.create"@.len() != "notification.os"@.len());
    assert("storage.dir.create"@.len() != "browser.open"@.len());
    assert("storage.dir.create"@.len() != "clipboard.write"@.len());
    assert("storage.dir.create"@.len() != "sound.play"@.len());
    assert("storage.dir.create"@.len() != "window.set_title"@.len());
    assert("storage.dir.create"@.len() != "window.set_badge"@.len());
    assert("storage.dir.create"@.len() != "file.save"@.len());
    assert("storage.dir.create"@.len() != "storage.set"@.len());
    assert("storage.dir.create"@.len() != "storage.delete"@.len());
    assert("storage.dir.create"@[8] != "storage.file.write"@[8]);
    assert("storage.dir.create"@.len() != "storage.file.delete"@.len());
}

/// Showing or hiding a node in the window: after a `manifest.set_visible`
/// effect the node is hidden exactly when the effect says it is not
/// visible, and every other node stays hidden or shown as it was.
pub proof fn law_set_visible_hides(s: UiV, id: Seq<char>, visible: bool, other: Seq<char>)
    ensures
        ({
            let after = apply_effect_v(
                s,
                crate::runtime::effect_v("manifest.set_visible"@, id, crate::runtime::obj1("visible"@, JsonV::Bool(visible))),
            ).0;
            &&& after.hidden.contains(id) == !visible
            &&& other != id ==> after.hidden.contains(other) == s.hidden.contains(other)
        }),
{
    crate::runtime::lemma_effect_fields(
        "manifest.set_visible"@,
        id,
        crate::runtime::obj1("visible"@, JsonV::Bool(visible)),
    );
    reveal_strlit("state.set");
    reveal_strlit("view.open");
    reveal_strlit("view.close");
    reveal_strlit("screen.navigate");
    reveal_strlit("manifest.set_label");
    reveal_strlit("manifest.set_visible");
    reveal_strlit("visible");
    assert("manifest.set_visible"@.len() != "state.set"@.len());
    assert("manifest.set_visible"@.len() != "view.open"@.len());
    assert("manifest.set_visible"@.len() != "view.close"@.len());
    assert("manifest.set_visible"@.len() != "screen.navigate"@.len());
    assert("manifest.set_visible"@.len() != "manifest.set_label"@.len());
}

} // verus!
