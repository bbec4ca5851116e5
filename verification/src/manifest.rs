//! Types and parsing logic for Scrawler application manifests.
//!
//! An application owns its manifest. Scrawler reads it, validates its
//! structure, and exposes the declared capabilities to an agent host. The
//! agent therefore stays away from implementation details like DOM selectors.

use crate::literal::{check_float_literal, float_error_message, is_float_literal, parse_usize, parse_usize_spec};
use crate::xml::{
    item_view, read_events, xml_events, opt_text, AttributeV, ElementV, XmlAttribute, XmlElement, XmlEvent,
    XmlEventV,
};
use vstd::prelude::*;

verus! {

/// Typed argument accepted by an action.
pub struct ActionParameter {
    pub name: String,
    pub kind: String,
    pub required: bool,
    pub description: String,
}

/// Action declared by a component.
pub struct SemanticAction {
    pub id: String,
    pub description: String,
    /// Name of the Lua handler function; resolved at runtime.
    pub handler: String,
    pub shortcut: Option<String>,
    pub parameters: Vec<ActionParameter>,
}

/// UI or logic component that the agent can discover.
///
/// The size hints (`gap`, `padding`, `width`, `min_width`, `min_height`,
/// `max_height`) are kept as the float literals the manifest wrote; the
/// parser has checked that each is one.
pub struct SemanticNode {
    pub id: String,
    pub role: String,
    pub label: String,
    /// Binding to a state key; the renderer reads/writes `state[bind]` automatically.
    pub bind: Option<String>,
    /// Lucide icon name, e.g. `pencil`, `send`, `mail`.
    pub icon: Option<String>,
    pub placeholder: Option<String>,
    pub disabled: bool,
    pub readonly: bool,
    /// Visual variant: `primary` (default), `secondary`, `destructive`.
    pub variant: Option<String>,
    /// Semantic label for the MCP agent (overrides `label` when present).
    pub aria_label: Option<String>,
    /// Optional layout hint for container-like nodes: `column`, `row`, `wrap`, `grid`.
    pub layout: Option<String>,
    /// Spacing between children, in logical pixels.
    pub gap: Option<String>,
    /// Inner padding for container-like nodes, in logical pixels.
    pub padding: Option<String>,
    /// Explicit width for the node when rendered by the UI.
    pub width: Option<String>,
    /// Minimum width for the node.
    pub min_width: Option<String>,
    /// Minimum height for the node.
    pub min_height: Option<String>,
    /// Maximum height for the node.
    pub max_height: Option<String>,
    /// Number of columns used by grid layouts.
    pub columns: Option<usize>,
    /// Whether row layouts may wrap onto multiple lines.
    pub wrap: bool,
    /// Whether the container should be rendered inside a scroll area.
    pub scroll: bool,
    /// Hint that the node should expand to available space.
    pub grow: bool,
    pub actions: Vec<SemanticAction>,
    pub children: Vec<SemanticNode>,
}

/// State value declaration inside `<state>`.
///
/// XML example: `<value id="draft.recipient" type="string" default="" />`
pub struct StateValue {
    pub id: String,
    pub kind: String,
    pub default: String,
}

pub struct AppManifest {
    /// Stable technical identifier. Example: `scrawler.mail`.
    pub id: String,
    /// Human-readable name. Example: `Scrawler Mail`.
    pub name: String,
    /// Manifest format version, not necessarily the application version.
    pub version: String,
    /// Path, relative to the XML manifest, of the Lua file that implements the
    /// handlers declared in actions.
    pub actions: Option<String>,
    /// State values declared via `<state><value id="..." .../></state>`.
    pub state: Vec<StateValue>,
    /// Top-level tree nodes: usually screens.
    pub nodes: Vec<SemanticNode>,
}

pub enum ManifestError {
    Xml(String),
    MissingAttribute { element: String, attribute: String },
    UnexpectedElement(String),
    InvalidStructure(String),
}

// ─── Models ─────────────────────────────────────────────────────────────────

pub struct ParamV {
    pub name: Seq<char>,
    pub kind: Seq<char>,
    pub required: bool,
    pub description: Seq<char>,
}

pub struct ActionV {
    pub id: Seq<char>,
    pub description: Seq<char>,
    pub handler: Seq<char>,
    pub shortcut: Option<Seq<char>>,
    pub parameters: Seq<ParamV>,
}

pub struct NodeV {
    pub id: Seq<char>,
    pub role: Seq<char>,
    pub label: Seq<char>,
    pub bind: Option<Seq<char>>,
    pub icon: Option<Seq<char>>,
    pub placeholder: Option<Seq<char>>,
    pub disabled: bool,
    pub readonly: bool,
    pub variant: Option<Seq<char>>,
    pub aria_label: Option<Seq<char>>,
    pub layout: Option<Seq<char>>,
    pub gap: Option<Seq<char>>,
    pub padding: Option<Seq<char>>,
    pub width: Option<Seq<char>>,
    pub min_width: Option<Seq<char>>,
    pub min_height: Option<Seq<char>>,
    pub max_height: Option<Seq<char>>,
    pub columns: Option<usize>,
    pub wrap: bool,
    pub scroll: bool,
    pub grow: bool,
    pub actions: Seq<ActionV>,
    pub children: Seq<NodeV>,
}

pub struct StateValueV {
    pub id: Seq<char>,
    pub kind: Seq<char>,
    pub default: Seq<char>,
}

pub struct ManifestV {
    pub id: Seq<char>,
    pub name: Seq<char>,
    pub version: Seq<char>,
    pub actions: Option<Seq<char>>,
    pub state: Seq<StateValueV>,
    pub nodes: Seq<NodeV>,
}

pub enum ManifestErrorV {
    Xml(Seq<char>),
    MissingAttribute { element: Seq<char>, attribute: Seq<char> },
    UnexpectedElement(Seq<char>),
    InvalidStructure(Seq<char>),
}

impl View for ActionParameter {
    type V = ParamV;

    open spec fn view(&self) -> ParamV {
        ParamV {
            name: self.name@,
            kind: self.kind@,
            required: self.required,
            description: self.description@,
        }
    }
}

impl View for SemanticAction {
    type V = ActionV;

    open spec fn view(&self) -> ActionV {
        ActionV {
            id: self.id@,
            description: self.description@,
            handler: self.handler@,
            shortcut: opt_text(self.shortcut),
            parameters: self.parameters@.map_values(|p: ActionParameter| p@),
        }
    }
}

impl SemanticNode {
    /// The mathematical model of this node and its subtree.
    pub open spec fn model(self) -> NodeV
        decreases self,
    {
        NodeV {
            id: self.id@,
            role: self.role@,
            label: self.label@,
            bind: opt_text(self.bind),
            icon: opt_text(self.icon),
            placeholder: opt_text(self.placeholder),
            disabled: self.disabled,
            readonly: self.readonly,
            variant: opt_text(self.variant),
            aria_label: opt_text(self.aria_label),
            layout: opt_text(self.layout),
            gap: opt_text(self.gap),
            padding: opt_text(self.padding),
            width: opt_text(self.width),
            min_width: opt_text(self.min_width),
            min_height: opt_text(self.min_height),
            max_height: opt_text(self.max_height),
            columns: self.columns,
            wrap: self.wrap,
            scroll: self.scroll,
            grow: self.grow,
            actions: self.actions@.map_values(|a: SemanticAction| a@),
            children: node_models(self.children@),
        }
    }
}

/// The models of a sequence of nodes.
pub open spec fn node_models(nodes: Seq<SemanticNode>) -> Seq<NodeV>
    decreases nodes,
{
    if nodes.len() == 0 {
        Seq::empty()
    } else {
        node_models(nodes.drop_last()).push(nodes.last().model())
    }
}

pub broadcast proof fn lemma_node_models_len(nodes: Seq<SemanticNode>)
    ensures
        #[trigger] node_models(nodes).len() == nodes.len(),
    decreases nodes.len(),
{
    if nodes.len() > 0 {
        lemma_node_models_len(nodes.drop_last());
    }
}

pub broadcast proof fn lemma_node_models_index(nodes: Seq<SemanticNode>, i: int)
    requires
        0 <= i < nodes.len(),
    ensures
        #[trigger] node_models(nodes)[i] == nodes[i].model(),
    decreases nodes.len(),
{
    lemma_node_models_len(nodes.drop_last());
    if i < nodes.len() - 1 {
        lemma_node_models_index(nodes.drop_last(), i);
    }
}

pub broadcast proof fn lemma_node_models_push(nodes: Seq<SemanticNode>, n: SemanticNode)
    ensures
        #[trigger] node_models(nodes.push(n)) == node_models(nodes).push(n.model()),
{
    assert(nodes.push(n).drop_last() =~= nodes);
}

pub broadcast group group_node_models {
    lemma_node_models_len,
    lemma_node_models_index,
    lemma_node_models_push,
}

impl View for SemanticNode {
    type V = NodeV;

    open spec fn view(&self) -> NodeV {
        self.model()
    }
}

impl View for StateValue {
    type V = StateValueV;

    open spec fn view(&self) -> StateValueV {
        StateValueV { id: self.id@, kind: self.kind@, default: self.default@ }
    }
}

impl View for AppManifest {
    type V = ManifestV;

    open spec fn view(&self) -> ManifestV {
        ManifestV {
            id: self.id@,
            name: self.name@,
            version: self.version@,
            actions: opt_text(self.actions),
            state: self.state@.map_values(|v: StateValue| v@),
            nodes: node_models(self.nodes@),
        }
    }
}

impl View for ManifestError {
    type V = ManifestErrorV;

    open spec fn view(&self) -> ManifestErrorV {
        match self {
            ManifestError::Xml(m) => ManifestErrorV::Xml(m@),
            ManifestError::MissingAttribute { element, attribute } => ManifestErrorV::MissingAttribute {
                element: element@,
                attribute: attribute@,
            },
            ManifestError::UnexpectedElement(e) => ManifestErrorV::UnexpectedElement(e@),
            ManifestError::InvalidStructure(m) => ManifestErrorV::InvalidStructure(m@),
        }
    }
}

/// The text that describes a manifest error.
pub open spec fn error_message(e: ManifestErrorV) -> Seq<char> {
    match e {
        ManifestErrorV::Xml(m) => "XML error: "@ + m,
        ManifestErrorV::MissingAttribute { element, attribute } => "<"@ + element
            + "> is missing required attribute `"@ + attribute + "`"@,
        ManifestErrorV::UnexpectedElement(el) => "unexpected <"@ + el + "> element"@,
        ManifestErrorV::InvalidStructure(m) => "invalid manifest structure: "@ + m,
    }
}

impl ManifestError {
    /// The text that describes the error.
    pub fn message(&self) -> (t: String)
        ensures
            t@ == error_message(self@),
    {
        match self {
            ManifestError::Xml(m) => {
                let mut t = String::from_str("XML error: ");
                t.append(m.as_str());
                t
            },
            ManifestError::MissingAttribute { element, attribute } => {
                let mut t = String::from_str("<");
                t.append(element.as_str());
                t.append("> is missing required attribute `");
                t.append(attribute.as_str());
                t.append("`");
                t
            },
            ManifestError::UnexpectedElement(el) => {
                let mut t = String::from_str("unexpected <");
                t.append(el.as_str());
                t.append("> element");
                t
            },
            ManifestError::InvalidStructure(m) => {
                let mut t = String::from_str("invalid manifest structure: ");
                t.append(m.as_str());
                t
            },
        }
    }
}

/// The model of a parse result.
pub open spec fn manifest_result(r: Result<AppManifest, ManifestError>) -> Result<ManifestV, ManifestErrorV> {
    match r {
        Ok(m) => Ok(m@),
        Err(e) => Err(e@),
    }
}

// ─── Attributes ─────────────────────────────────────────────────────────────

/// The value of the first attribute named `wanted`, looked for in order:
/// an attribute whose value cannot be resolved, or a malformed attribute met
/// before it, is an XML error.
pub open spec fn lookup_attribute(
    attributes: Seq<Result<AttributeV, Seq<char>>>,
    wanted: Seq<char>,
) -> Result<Option<Seq<char>>, ManifestErrorV>
    decreases attributes.len(),
{
    if attributes.len() == 0 {
        Ok(None)
    } else {
        match attributes[0] {
            Err(m) => Err(ManifestErrorV::Xml(m)),
            Ok(a) => if a.key == wanted {
                match a.value {
                    Ok(v) => Ok(Some(v)),
                    Err(m) => Err(ManifestErrorV::Xml(m)),
                }
            } else {
                lookup_attribute(attributes.drop_first(), wanted)
            },
        }
    }
}

pub open spec fn attribute_spec(el: ElementV, wanted: Seq<char>) -> Result<Option<Seq<char>>, ManifestErrorV> {
    lookup_attribute(el.attributes, wanted)
}

pub open spec fn required_spec(el: ElementV, element: Seq<char>, wanted: Seq<char>) -> Result<Seq<char>, ManifestErrorV> {
    match attribute_spec(el, wanted) {
        Ok(Some(v)) => Ok(v),
        Ok(None) => Err(ManifestErrorV::MissingAttribute { element, attribute: wanted }),
        Err(e) => Err(e),
    }
}

/// The attribute's value, or `default` when it is absent or cannot be read.
pub open spec fn attribute_or_spec(el: ElementV, wanted: Seq<char>, default: Seq<char>) -> Seq<char> {
    match attribute_spec(el, wanted) {
        Ok(Some(v)) => v,
        _ => default,
    }
}

/// Whether a flag's text means "on".
pub open spec fn is_truthy(v: Seq<char>) -> bool {
    v == "true"@ || v == "1"@ || v == "yes"@ || v == "on"@
}

pub open spec fn bool_spec(el: ElementV, wanted: Seq<char>) -> Result<bool, ManifestErrorV> {
    match attribute_spec(el, wanted) {
        Ok(Some(v)) => Ok(is_truthy(v)),
        Ok(None) => Ok(false),
        Err(e) => Err(e),
    }
}

pub open spec fn float_spec(el: ElementV, wanted: Seq<char>) -> Result<Option<Seq<char>>, ManifestErrorV> {
    match attribute_spec(el, wanted) {
        Ok(Some(v)) => if is_float_literal(v) {
            Ok(Some(v))
        } else {
            Err(ManifestErrorV::Xml("invalid `"@ + wanted + "` value: "@ + float_error_message(v)))
        },
        Ok(None) => Ok(None),
        Err(e) => Err(e),
    }
}

pub open spec fn usize_spec(el: ElementV, wanted: Seq<char>) -> Result<Option<usize>, ManifestErrorV> {
    match attribute_spec(el, wanted) {
        Ok(Some(v)) => match parse_usize_spec(v) {
            Ok(n) => Ok(Some(n as usize)),
            Err(e) => Err(ManifestErrorV::Xml("invalid `"@ + wanted + "` value: "@ + e.message_spec())),
        },
        Ok(None) => Ok(None),
        Err(e) => Err(e),
    }
}

fn attribute(el: &XmlElement, wanted: &str) -> (r: Result<Option<String>, ManifestError>)
    ensures
        match r {
            Ok(v) => attribute_spec(el@, wanted@) == Ok::<_, ManifestErrorV>(opt_text(v)),
            Err(e) => attribute_spec(el@, wanted@) == Err::<Option<Seq<char>>, _>(e@),
        },
{
    let ghost all = el@.attributes;
    let wanted_text = String::from_str(wanted);
    assert(all.skip(0) =~= all);
    let mut i: usize = 0;
    while i < el.attributes.len()
        invariant
            i <= el.attributes.len(),
            all == el@.attributes,
            all.len() == el.attributes.len(),
            wanted_text@ == wanted@,
            attribute_spec(el@, wanted@) == lookup_attribute(all.skip(i as int), wanted@),
        decreases el.attributes.len() - i,
    {
        let ghost rest = all.skip(i as int);
        assert(rest[0] == item_view(el.attributes@[i as int]));
        assert(rest.drop_first() =~= all.skip(i + 1));
        match &el.attributes[i] {
            Err(m) => {
                return Err(ManifestError::Xml(m.clone()));
            },
            Ok(a) => {
                if a.key == wanted_text {
                    return match &a.value {
                        Ok(v) => Ok(Some(v.clone())),
                        Err(m) => Err(ManifestError::Xml(m.clone())),
                    };
                }
            },
        }
        i = i + 1;
    }
    Ok(None)
}

fn required_attribute(el: &XmlElement, element: &str, wanted: &str) -> (r: Result<String, ManifestError>)
    ensures
        match r {
            Ok(v) => required_spec(el@, element@, wanted@) == Ok::<_, ManifestErrorV>(v@),
            Err(e) => required_spec(el@, element@, wanted@) == Err::<Seq<char>, _>(e@),
        },
{
    match attribute(el, wanted)? {
        Some(v) => Ok(v),
        None => Err(ManifestError::MissingAttribute {
            element: String::from_str(element),
            attribute: String::from_str(wanted),
        }),
    }
}

fn attribute_or(el: &XmlElement, wanted: &str, default: &str) -> (r: String)
    ensures
        r@ == attribute_or_spec(el@, wanted@, default@),
{
    match attribute(el, wanted) {
        Ok(Some(v)) => v,
        _ => String::from_str(default),
    }
}

fn is_truthy_exec(v: &String) -> (b: bool)
    ensures
        b == is_truthy(v@),
{
    *v == String::from_str("true") || *v == String::from_str("1") || *v == String::from_str("yes")
        || *v == String::from_str("on")
}

fn bool_attribute(el: &XmlElement, wanted: &str) -> (r: Result<bool, ManifestError>)
    ensures
        match r {
            Ok(b) => bool_spec(el@, wanted@) == Ok::<_, ManifestErrorV>(b),
            Err(e) => bool_spec(el@, wanted@) == Err::<bool, _>(e@),
        },
{
    match attribute(el, wanted)? {
        Some(v) => Ok(is_truthy_exec(&v)),
        None => Ok(false),
    }
}

/// "invalid `{name}` value: {message}"
fn invalid_value(wanted: &str, message: String) -> (m: String)
    ensures
        m@ == "invalid `"@ + wanted@ + "` value: "@ + message@,
{
    let mut m = String::from_str("invalid `");
    m.append(wanted);
    m.append("` value: ");
    m.append(message.as_str());
    m
}

fn float_attribute(el: &XmlElement, wanted: &str) -> (r: Result<Option<String>, ManifestError>)
    ensures
        match r {
            Ok(v) => float_spec(el@, wanted@) == Ok::<_, ManifestErrorV>(opt_text(v)),
            Err(e) => float_spec(el@, wanted@) == Err::<Option<Seq<char>>, _>(e@),
        },
{
    match attribute(el, wanted)? {
        Some(v) => match check_float_literal(v.as_str()) {
            Ok(()) => Ok(Some(v)),
            Err(message) => Err(ManifestError::Xml(invalid_value(wanted, message))),
        },
        None => Ok(None),
    }
}

fn usize_attribute(el: &XmlElement, wanted: &str) -> (r: Result<Option<usize>, ManifestError>)
    ensures
        match r {
            Ok(v) => usize_spec(el@, wanted@) == Ok::<_, ManifestErrorV>(v),
            Err(e) => usize_spec(el@, wanted@) == Err::<Option<usize>, _>(e@),
        },
{
    match attribute(el, wanted)? {
        Some(v) => match parse_usize(v.as_str()) {
            Ok(n) => Ok(Some(n)),
            Err(e) => Err(ManifestError::Xml(invalid_value(wanted, e.message()))),
        },
        None => Ok(None),
    }
}

// ─── Elements ───────────────────────────────────────────────────────────────

/// The node that a `screen`, `group`, `view`, `component` or `dialog` tag
/// declares: its attributes are read in this order, and the first that
/// cannot be read is the error.
pub open spec fn node_spec(el: ElementV, tag: Seq<char>) -> Result<NodeV, ManifestErrorV> {
    match required_spec(el, tag, "id"@) {
        Err(e) => Err(e),
        Ok(id) => match required_spec(el, tag, "role"@) {
            Err(e) => Err(e),
            Ok(role) => match required_spec(el, tag, "label"@) {
                Err(e) => Err(e),
                Ok(label) => match attribute_spec(el, "bind"@) {
                    Err(e) => Err(e),
                    Ok(bind) => match attribute_spec(el, "icon"@) {
                        Err(e) => Err(e),
                        Ok(icon) => match attribute_spec(el, "placeholder"@) {
                            Err(e) => Err(e),
                            Ok(placeholder) => match attribute_spec(el, "variant"@) {
                                Err(e) => Err(e),
                                Ok(variant) => match attribute_spec(el, "aria-label"@) {
                                    Err(e) => Err(e),
                                    Ok(aria_label) => match attribute_spec(el, "layout"@) {
                                        Err(e) => Err(e),
                                        Ok(layout) => node_sizes_spec(
                                            el,
                                            NodeV {
                                                id,
                                                role,
                                                label,
                                                bind,
                                                icon,
                                                placeholder,
                                                disabled: attribute_or_spec(el, "disabled"@, "false"@) == "true"@,
                                                readonly: attribute_or_spec(el, "readonly"@, "false"@) == "true"@,
                                                variant,
                                                aria_label,
                                                layout,
                                                gap: None,
                                                padding: None,
                                                width: None,
                                                min_width: None,
                                                min_height: None,
                                                max_height: None,
                                                columns: None,
                                                wrap: false,
                                                scroll: false,
                                                grow: false,
                                                actions: Seq::empty(),
                                                children: Seq::empty(),
                                            },
                                        ),
                                    },
                                },
                            },
                        },
                    },
                },
            },
        },
    }
}

/// The size and layout hints of a node, read after its other attributes.
pub open spec fn node_sizes_spec(el: ElementV, n: NodeV) -> Result<NodeV, ManifestErrorV> {
    match float_spec(el, "gap"@) {
        Err(e) => Err(e),
        Ok(gap) => match float_spec(el, "padding"@) {
            Err(e) => Err(e),
            Ok(padding) => match float_spec(el, "width"@) {
                Err(e) => Err(e),
                Ok(width) => match float_spec(el, "min-width"@) {
                    Err(e) => Err(e),
                    Ok(min_width) => match float_spec(el, "min-height"@) {
                        Err(e) => Err(e),
                        Ok(min_height) => match float_spec(el, "max-height"@) {
                            Err(e) => Err(e),
                            Ok(max_height) => match usize_spec(el, "columns"@) {
                                Err(e) => Err(e),
                                Ok(columns) => match bool_spec(el, "wrap"@) {
                                    Err(e) => Err(e),
                                    Ok(wrap) => match bool_spec(el, "scroll"@) {
                                        Err(e) => Err(e),
                                        Ok(scroll) => match bool_spec(el, "grow"@) {
                                            Err(e) => Err(e),
                                            Ok(grow) => Ok(
                                                NodeV {
                                                    gap,
                                                    padding,
                                                    width,
                                                    min_width,
                                                    min_height,
                                                    max_height,
                                                    columns,
                                                    wrap,
                                                    scroll,
                                                    grow,
                                                    ..n
                                                },
                                            ),
                                        },
                                    },
                                },
                            },
                        },
                    },
                },
            },
        },
    }
}

/// The parameter that a `param` tag declares.
pub open spec fn param_spec(el: ElementV) -> Result<ParamV, ManifestErrorV> {
    match required_spec(el, "param"@, "name"@) {
        Err(e) => Err(e),
        Ok(name) => Ok(
            ParamV {
                name,
                kind: attribute_or_spec(el, "type"@, "string"@),
                required: attribute_or_spec(el, "required"@, "false"@) == "true"@,
                description: attribute_or_spec(el, "description"@, ""@),
            },
        ),
    }
}

/// The action that an `action` tag declares, without parameters yet.
pub open spec fn action_spec(el: ElementV) -> Result<ActionV, ManifestErrorV> {
    match required_spec(el, "action"@, "id"@) {
        Err(e) => Err(e),
        Ok(id) => {
            let description = attribute_or_spec(el, "description"@, ""@);
            match required_spec(el, "action"@, "handler"@) {
                Err(e) => Err(e),
                Ok(handler) => match attribute_spec(el, "shortcut"@) {
                    Err(e) => Err(e),
                    Ok(shortcut) => Ok(
                        ActionV { id, description, handler, shortcut, parameters: Seq::empty() },
                    ),
                },
            }
        },
    }
}

/// The manifest that the `app` tag opens, still without state or nodes.
pub open spec fn app_spec(el: ElementV) -> Result<ManifestV, ManifestErrorV> {
    match required_spec(el, "app"@, "id"@) {
        Err(e) => Err(e),
        Ok(id) => match required_spec(el, "app"@, "name"@) {
            Err(e) => Err(e),
            Ok(name) => {
                let version = attribute_or_spec(el, "version"@, "0.1"@);
                match attribute_spec(el, "actions"@) {
                    Err(e) => Err(e),
                    Ok(actions) => Ok(
                        ManifestV { id, name, version, actions, state: Seq::empty(), nodes: Seq::empty() },
                    ),
                }
            },
        },
    }
}

/// The state value that a `value` tag declares.
pub open spec fn value_spec(el: ElementV) -> Result<StateValueV, ManifestErrorV> {
    match required_spec(el, "value"@, "id"@) {
        Err(e) => Err(e),
        Ok(id) => Ok(
            StateValueV {
                id,
                kind: attribute_or_spec(el, "type"@, "string"@),
                default: attribute_or_spec(el, "default"@, ""@),
            },
        ),
    }
}

pub open spec fn is_node_tag(tag: Seq<char>) -> bool {
    tag == "screen"@ || tag == "group"@ || tag == "view"@ || tag == "component"@ || tag == "dialog"@
}

fn is_node_tag_exec(tag: &String) -> (b: bool)
    ensures
        b == is_node_tag(tag@),
{
    *tag == String::from_str("screen") || *tag == String::from_str("group") || *tag
        == String::from_str("view") || *tag == String::from_str("component") || *tag
        == String::from_str("dialog")
}

fn tag_is(tag: &String, name: &str) -> (b: bool)
    ensures
        b == (tag@ == name@),
{
    *tag == String::from_str(name)
}

fn node_from_element(el: &XmlElement, tag: &String) -> (r: Result<SemanticNode, ManifestError>)
    ensures
        match r {
            Ok(n) => node_spec(el@, tag@) == Ok::<_, ManifestErrorV>(n@),
            Err(e) => node_spec(el@, tag@) == Err::<NodeV, _>(e@),
        },
{
    let t = tag.as_str();
    let id = required_attribute(el, t, "id")?;
    let role = required_attribute(el, t, "role")?;
    let label = required_attribute(el, t, "label")?;
    let bind = attribute(el, "bind")?;
    let icon = attribute(el, "icon")?;
    let placeholder = attribute(el, "placeholder")?;
    let disabled = tag_is(&attribute_or(el, "disabled", "false"), "true");
    let readonly = tag_is(&attribute_or(el, "readonly", "false"), "true");
    let variant = attribute(el, "variant")?;
    let aria_label = attribute(el, "aria-label")?;
    let layout = attribute(el, "layout")?;
    let gap = float_attribute(el, "gap")?;
    let padding = float_attribute(el, "padding")?;
    let width = float_attribute(el, "width")?;
    let min_width = float_attribute(el, "min-width")?;
    let min_height = float_attribute(el, "min-height")?;
    let max_height = float_attribute(el, "max-height")?;
    let columns = usize_attribute(el, "columns")?;
    let wrap = bool_attribute(el, "wrap")?;
    let scroll = bool_attribute(el, "scroll")?;
    let grow = bool_attribute(el, "grow")?;
    let node = SemanticNode {
        id,
        role,
        label,
        bind,
        icon,
        placeholder,
        disabled,
        readonly,
        variant,
        aria_label,
        layout,
        gap,
        padding,
        width,
        min_width,
        min_height,
        max_height,
        columns,
        wrap,
        scroll,
        grow,
        actions: Vec::new(),
        children: Vec::new(),
    };
    proof {
        broadcast use group_node_models;
        assert(node.actions@.map_values(|a: SemanticAction| a@) =~= Seq::empty());
        assert(node_models(node.children@) =~= Seq::empty());
    }
    Ok(node)
}

fn param_from_element(el: &XmlElement) -> (r: Result<ActionParameter, ManifestError>)
    ensures
        match r {
            Ok(p) => param_spec(el@) == Ok::<_, ManifestErrorV>(p@),
            Err(e) => param_spec(el@) == Err::<ParamV, _>(e@),
        },
{
    let name = required_attribute(el, "param", "name")?;
    Ok(
        ActionParameter {
            name,
            kind: attribute_or(el, "type", "string"),
            required: tag_is(&attribute_or(el, "required", "false"), "true"),
            description: attribute_or(el, "description", ""),
        },
    )
}

fn action_from_element(el: &XmlElement) -> (r: Result<SemanticAction, ManifestError>)
    ensures
        match r {
            Ok(a) => action_spec(el@) == Ok::<_, ManifestErrorV>(a@),
            Err(e) => action_spec(el@) == Err::<ActionV, _>(e@),
        },
{
    let id = required_attribute(el, "action", "id")?;
    let description = attribute_or(el, "description", "");
    let handler = required_attribute(el, "action", "handler")?;
    let shortcut = attribute(el, "shortcut")?;
    let action = SemanticAction { id, description, handler, shortcut, parameters: Vec::new() };
    assert(action.parameters@.map_values(|p: ActionParameter| p@) =~= Seq::empty());
    Ok(action)
}

fn app_from_element(el: &XmlElement) -> (r: Result<AppManifest, ManifestError>)
    ensures
        match r {
            Ok(m) => app_spec(el@) == Ok::<_, ManifestErrorV>(m@),
            Err(e) => app_spec(el@) == Err::<ManifestV, _>(e@),
        },
{
    let id = required_attribute(el, "app", "id")?;
    let name = required_attribute(el, "app", "name")?;
    let version = attribute_or(el, "version", "0.1");
    let actions = attribute(el, "actions")?;
    let m = AppManifest { id, name, version, actions, state: Vec::new(), nodes: Vec::new() };
    proof {
        broadcast use group_node_models;
        assert(m.state@.map_values(|v: StateValue| v@) =~= Seq::empty());
        assert(node_models(m.nodes@) =~= Seq::empty());
    }
    Ok(m)
}

fn value_from_element(el: &XmlElement) -> (r: Result<StateValue, ManifestError>)
    ensures
        match r {
            Ok(v) => value_spec(el@) == Ok::<_, ManifestErrorV>(v@),
            Err(e) => value_spec(el@) == Err::<StateValueV, _>(e@),
        },
{
    let id = required_attribute(el, "value", "id")?;
    Ok(
        StateValue {
            id,
            kind: attribute_or(el, "type", "string"),
            default: attribute_or(el, "default", ""),
        },
    )
}

// ─── The manifest grammar ───────────────────────────────────────────────────

/// Where the reading of a manifest stands: the manifest opened by `<app>`,
/// the nodes opened and not yet closed (innermost last), the action opened
/// and not yet closed, and whether a `<state>` block is open.
pub struct BuilderV {
    pub manifest: Option<ManifestV>,
    pub stack: Seq<NodeV>,
    pub action: Option<ActionV>,
    pub inside_state: bool,
}

/// The outcome of one event: the next state, the end of the document, or
/// the error that stops the reading.
pub enum StepV {
    Next(BuilderV),
    Stop,
    Fail(ManifestErrorV),
}

pub open spec fn initial_builder() -> BuilderV {
    BuilderV { manifest: None, stack: Seq::empty(), action: None, inside_state: false }
}

pub open spec fn invalid(message: Seq<char>) -> StepV {
    StepV::Fail(ManifestErrorV::InvalidStructure(message))
}

pub open spec fn not_started() -> Seq<char> {
    "the document must start with <app>"@
}

/// `stack` with `n` added to the children of its last node.
pub open spec fn add_child(stack: Seq<NodeV>, n: NodeV) -> Seq<NodeV> {
    stack.update(stack.len() - 1, NodeV { children: stack.last().children.push(n), ..stack.last() })
}

/// `stack` with `a` added to the actions of its last node.
pub open spec fn add_action(stack: Seq<NodeV>, a: ActionV) -> Seq<NodeV> {
    stack.update(stack.len() - 1, NodeV { actions: stack.last().actions.push(a), ..stack.last() })
}

pub open spec fn param_step(s: BuilderV, el: ElementV) -> StepV {
    match s.action {
        None => invalid("<param> must be inside an <action>"@),
        Some(a) => match param_spec(el) {
            Err(e) => StepV::Fail(e),
            Ok(p) => StepV::Next(
                BuilderV { action: Some(ActionV { parameters: a.parameters.push(p), ..a }), ..s },
            ),
        },
    }
}

pub open spec fn start_step(s: BuilderV, el: ElementV) -> StepV {
    match el.name {
        None => StepV::Fail(ManifestErrorV::Xml("element name is not valid UTF-8"@)),
        Some(tag) => if tag == "app"@ {
            if s.manifest is Some {
                invalid("only one <app> root is allowed"@)
            } else {
                match app_spec(el) {
                    Err(e) => StepV::Fail(e),
                    Ok(m) => StepV::Next(BuilderV { manifest: Some(m), ..s }),
                }
            }
        } else if tag == "state"@ {
            if s.manifest is None {
                invalid(not_started())
            } else if s.inside_state {
                invalid("<state> cannot be nested"@)
            } else {
                StepV::Next(BuilderV { inside_state: true, ..s })
            }
        } else if is_node_tag(tag) {
            if s.manifest is None {
                invalid(not_started())
            } else {
                match node_spec(el, tag) {
                    Err(e) => StepV::Fail(e),
                    Ok(n) => StepV::Next(BuilderV { stack: s.stack.push(n), ..s }),
                }
            }
        } else if tag == "action"@ {
            if s.stack.len() == 0 {
                invalid("<action> must be inside a semantic node"@)
            } else if s.action is Some {
                invalid("<action> elements cannot be nested"@)
            } else {
                match action_spec(el) {
                    Err(e) => StepV::Fail(e),
                    Ok(a) => StepV::Next(BuilderV { action: Some(a), ..s }),
                }
            }
        } else if tag == "param"@ {
            param_step(s, el)
        } else {
            StepV::Fail(ManifestErrorV::UnexpectedElement(tag))
        },
    }
}

pub open spec fn empty_step(s: BuilderV, el: ElementV) -> StepV {
    match el.name {
        None => StepV::Fail(ManifestErrorV::Xml("element name is not valid UTF-8"@)),
        Some(tag) => if tag == "param"@ {
            param_step(s, el)
        } else if tag == "value"@ {
            if !s.inside_state {
                invalid("<value> must be inside <state>"@)
            } else {
                match value_spec(el) {
                    Err(e) => StepV::Fail(e),
                    Ok(v) => match s.manifest {
                        Some(m) => StepV::Next(
                            BuilderV { manifest: Some(ManifestV { state: m.state.push(v), ..m }), ..s },
                        ),
                        None => StepV::Next(s),
                    },
                }
            }
        } else if tag == "action"@ {
            if s.stack.len() == 0 {
                invalid("<action> must be inside a semantic node"@)
            } else {
                match action_spec(el) {
                    Err(e) => StepV::Fail(e),
                    Ok(a) => StepV::Next(BuilderV { stack: add_action(s.stack, a), ..s }),
                }
            }
        } else if is_node_tag(tag) {
            match s.manifest {
                None => invalid(not_started()),
                Some(m) => match node_spec(el, tag) {
                    Err(e) => StepV::Fail(e),
                    Ok(n) => if s.stack.len() > 0 {
                        StepV::Next(BuilderV { stack: add_child(s.stack, n), ..s })
                    } else {
                        StepV::Next(
                            BuilderV { manifest: Some(ManifestV { nodes: m.nodes.push(n), ..m }), ..s },
                        )
                    },
                },
            }
        } else {
            StepV::Fail(ManifestErrorV::UnexpectedElement(tag))
        },
    }
}

pub open spec fn end_step(s: BuilderV, tag: Seq<char>) -> StepV {
    if tag == "state"@ {
        StepV::Next(BuilderV { inside_state: false, ..s })
    } else if tag == "action"@ {
        match s.action {
            None => invalid("closing an action that was not open"@),
            Some(a) => if s.stack.len() == 0 {
                invalid("<action> closed without a parent node"@)
            } else {
                StepV::Next(BuilderV { action: None, stack: add_action(s.stack, a), ..s })
            },
        }
    } else if is_node_tag(tag) {
        if s.stack.len() == 0 {
            invalid("closing a node that was not open"@)
        } else {
            let n = s.stack.last();
            let rest = s.stack.drop_last();
            if rest.len() > 0 {
                StepV::Next(BuilderV { stack: add_child(rest, n), ..s })
            } else {
                match s.manifest {
                    None => invalid(not_started()),
                    Some(m) => StepV::Next(
                        BuilderV {
                            stack: rest,
                            manifest: Some(ManifestV { nodes: m.nodes.push(n), ..m }),
                            ..s
                        },
                    ),
                }
            }
        }
    } else if tag == "app"@ {
        if s.stack.len() > 0 || s.action is Some {
            invalid("<app> closed before all children were closed"@)
        } else {
            StepV::Next(s)
        }
    } else {
        StepV::Fail(ManifestErrorV::UnexpectedElement(tag))
    }
}

/// What one event does to the reading.
pub open spec fn step(s: BuilderV, e: XmlEventV) -> StepV {
    match e {
        XmlEventV::Start(el) => start_step(s, el),
        XmlEventV::Empty(el) => empty_step(s, el),
        XmlEventV::End(tag) => end_step(s, tag),
        XmlEventV::Eof => StepV::Stop,
        XmlEventV::Other => StepV::Next(s),
        XmlEventV::Error(m) => StepV::Fail(ManifestErrorV::Xml(m)),
    }
}

/// Reads `events` from state `s` until the end of the document or an error.
pub open spec fn run(s: BuilderV, events: Seq<XmlEventV>) -> Result<BuilderV, ManifestErrorV>
    decreases events.len(),
{
    if events.len() == 0 {
        Ok(s)
    } else {
        match step(s, events[0]) {
            StepV::Next(t) => run(t, events.drop_first()),
            StepV::Stop => Ok(s),
            StepV::Fail(e) => Err(e),
        }
    }
}

/// The manifest once the document has ended.
pub open spec fn finish(s: BuilderV) -> Result<ManifestV, ManifestErrorV> {
    match s.manifest {
        None => Err(ManifestErrorV::InvalidStructure("missing <app> root"@)),
        Some(m) => if s.stack.len() > 0 || s.action is Some {
            Err(ManifestErrorV::InvalidStructure("unclosed XML elements"@))
        } else {
            Ok(m)
        },
    }
}

/// The manifest that a sequence of XML events declares, or the first error.
pub open spec fn manifest_of_events(events: Seq<XmlEventV>) -> Result<ManifestV, ManifestErrorV> {
    match run(initial_builder(), events) {
        Err(e) => Err(e),
        Ok(s) => finish(s),
    }
}

/// The event with the tag of its element changed to `tag`.
pub open spec fn renamed(e: XmlEventV, tag: Seq<char>) -> XmlEventV {
    match e {
        XmlEventV::Start(el) => XmlEventV::Start(ElementV { name: Some(tag), ..el }),
        XmlEventV::Empty(el) => XmlEventV::Empty(ElementV { name: Some(tag), ..el }),
        XmlEventV::End(_) => XmlEventV::End(tag),
        _ => e,
    }
}

/// The event opens, closes or is a node element (`screen`, `group`,
/// `view`, `component`, `dialog`) that has the attributes a node needs.
pub open spec fn node_event(e: XmlEventV) -> bool {
    match e {
        XmlEventV::Start(el) => el.name matches Some(t) && is_node_tag(t) && !(node_spec(el, t) matches Err(
            ManifestErrorV::MissingAttribute { .. },
        )),
        XmlEventV::Empty(el) => el.name matches Some(t) && is_node_tag(t) && !(node_spec(el, t) matches Err(
            ManifestErrorV::MissingAttribute { .. },
        )),
        XmlEventV::End(t) => is_node_tag(t),
        _ => false,
    }
}

/// Where no required attribute is missing, the tag of a node element
/// does not change what it reads as.
proof fn lemma_node_spec_rename(el: ElementV, t1: Seq<char>, t2: Seq<char>)
    requires
        !(node_spec(el, t1) matches Err(ManifestErrorV::MissingAttribute { .. })),
    ensures
        node_spec(el, t2) == node_spec(el, t1),
{
    assert(required_spec(el, t2, "id"@) == required_spec(el, t1, "id"@));
    if required_spec(el, t1, "id"@) is Ok {
        assert(required_spec(el, t2, "role"@) == required_spec(el, t1, "role"@));
        if required_spec(el, t1, "role"@) is Ok {
            assert(required_spec(el, t2, "label"@) == required_spec(el, t1, "label"@));
        }
    }
}

/// A node tag is none of the other tags of a manifest.
proof fn lemma_node_tag_distinct(t: Seq<char>)
    requires
        is_node_tag(t),
    ensures
        t != "app"@,
        t != "state"@,
        t != "action"@,
        t != "param"@,
        t != "value"@,
{
    reveal_strlit("screen");
    reveal_strlit("group");
    reveal_strlit("view");
    reveal_strlit("component");
    reveal_strlit("dialog");
    reveal_strlit("app");
    reveal_strlit("state");
    reveal_strlit("action");
    reveal_strlit("param");
    reveal_strlit("value");
    assert(t.len() != 3);
    if t.len() == 5 {
        assert(t =~= "group"@);
        assert(t[0] == 'g');
        assert("state"@[0] == 's' && "param"@[0] == 'p' && "value"@[0] == 'v');
    }
    if t.len() == 6 {
        assert(t[0] == 's' || t[0] == 'd');
        assert("action"@[0] == 'a');
    }
}

/// Renaming a node start tag to another node tag leaves its step as it is.
proof fn lemma_start_rename(s: BuilderV, el: ElementV, t1: Seq<char>, t2: Seq<char>)
    requires
        el.name == Some(t1),
        is_node_tag(t1),
        is_node_tag(t2),
        !(node_spec(el, t1) matches Err(ManifestErrorV::MissingAttribute { .. })),
    ensures
        start_step(s, ElementV { name: Some(t2), ..el }) == start_step(s, el),
{
    let el2 = ElementV { name: Some(t2), ..el };
    lemma_node_tag_distinct(t1);
    lemma_node_tag_distinct(t2);
    lemma_node_spec_rename(el, t1, t2);
    assert(node_spec(el2, t2) == node_spec(el, t2));
}

/// Renaming a node empty tag to another node tag leaves its step as it is.
proof fn lemma_empty_rename(s: BuilderV, el: ElementV, t1: Seq<char>, t2: Seq<char>)
    requires
        el.name == Some(t1),
        is_node_tag(t1),
        is_node_tag(t2),
        !(node_spec(el, t1) matches Err(ManifestErrorV::MissingAttribute { .. })),
    ensures
        empty_step(s, ElementV { name: Some(t2), ..el }) == empty_step(s, el),
{
    let el2 = ElementV { name: Some(t2), ..el };
    lemma_node_tag_distinct(t1);
    lemma_node_tag_distinct(t2);
    lemma_node_spec_rename(el, t1, t2);
    assert(node_spec(el2, t2) == node_spec(el, t2));
}

/// Renaming a node end tag to another node tag leaves its step as it is.
proof fn lemma_end_rename(s: BuilderV, t1: Seq<char>, t2: Seq<char>)
    requires
        is_node_tag(t1),
        is_node_tag(t2),
    ensures
        end_step(s, t2) == end_step(s, t1),
{
    lemma_node_tag_distinct(t1);
    lemma_node_tag_distinct(t2);
}

/// Renaming a node event to another node tag leaves every step as it is.
proof fn lemma_step_rename(s: BuilderV, e: XmlEventV, t2: Seq<char>)
    requires
        node_event(e),
        is_node_tag(t2),
    ensures
        step(s, renamed(e, t2)) == step(s, e),
{
    match e {
        XmlEventV::Start(el) => lemma_start_rename(s, el, el.name->Some_0, t2),
        XmlEventV::Empty(el) => lemma_empty_rename(s, el, el.name->Some_0, t2),
        XmlEventV::End(t1) => lemma_end_rename(s, t1, t2),
        _ => {},
    }
}

/// Putting in place of one event another that every state steps on alike
/// leaves the reading as it is.
proof fn lemma_run_update(s: BuilderV, events: Seq<XmlEventV>, i: int, b: XmlEventV)
    requires
        0 <= i < events.len(),
        forall|t: BuilderV| #[trigger] step(t, b) == step(t, events[i]),
    ensures
        run(s, events.update(i, b)) == run(s, events),
    decreases events.len(),
{
    let u = events.update(i, b);
    assert(step(s, b) == step(s, events[i]));
    if i == 0 {
        assert(u.drop_first() =~= events.drop_first());
    } else {
        assert(u[0] == events[0]);
        assert(u.drop_first() =~= events.drop_first().update(i - 1, b));
        match step(s, events[0]) {
            StepV::Next(t) => {
                lemma_run_update(t, events.drop_first(), i - 1, b);
            },
            _ => {},
        }
    }
}

/// The tag of a node element is cosmetic: a start tag, an empty tag or an
/// end tag of `screen`, `group`, `view`, `component` or `dialog` may be
/// written with any other of these, and the manifest read is the same
/// (where the element has the attributes a node needs; else the error
/// names the tag written).
pub proof fn law_node_tag_is_cosmetic(events: Seq<XmlEventV>, i: int, tag: Seq<char>)
    requires
        0 <= i < events.len(),
        node_event(events[i]),
        is_node_tag(tag),
    ensures
        manifest_of_events(events.update(i, renamed(events[i], tag))) == manifest_of_events(events),
{
    assert forall|t: BuilderV| #[trigger] step(t, renamed(events[i], tag)) == step(t, events[i]) by {
        lemma_step_rename(t, events[i], tag);
    }
    lemma_run_update(initial_builder(), events, i, renamed(events[i], tag));
}

/// The exec form of `BuilderV`.
struct ManifestBuilder {
    manifest: Option<AppManifest>,
    stack: Vec<SemanticNode>,
    action: Option<SemanticAction>,
    inside_state: bool,
}

pub open spec fn opt_manifest(m: Option<AppManifest>) -> Option<ManifestV> {
    match m {
        Some(m) => Some(m@),
        None => None,
    }
}

pub open spec fn opt_action(a: Option<SemanticAction>) -> Option<ActionV> {
    match a {
        Some(a) => Some(a@),
        None => None,
    }
}

impl View for ManifestBuilder {
    type V = BuilderV;

    closed spec fn view(&self) -> BuilderV {
        BuilderV {
            manifest: opt_manifest(self.manifest),
            stack: node_models(self.stack@),
            action: opt_action(self.action),
            inside_state: self.inside_state,
        }
    }
}

/// A state of the reading that `<state>` blocks can only reach inside an
/// opened manifest.
pub open spec fn builder_wf(s: BuilderV) -> bool {
    s.inside_state ==> s.manifest is Some
}

proof fn lemma_replace_last(nodes: Seq<SemanticNode>, top: SemanticNode)
    requires
        nodes.len() > 0,
    ensures
        node_models(nodes.drop_last().push(top)) == node_models(nodes).update(
            nodes.len() - 1,
            top.model(),
        ),
{
    broadcast use group_node_models;

    assert(node_models(nodes.drop_last().push(top)) =~= node_models(nodes).update(
        nodes.len() - 1,
        top.model(),
    ));
}

impl ManifestBuilder {
    fn new() -> (b: ManifestBuilder)
        ensures
            b@ == initial_builder(),
    {
        let b = ManifestBuilder { manifest: None, stack: Vec::new(), action: None, inside_state: false };
        proof {
            broadcast use group_node_models;
            assert(node_models(b.stack@) =~= Seq::empty());
        }
        b
    }

    /// Adds `n` to the children of the innermost open node.
    fn push_child(&mut self, n: SemanticNode)
        requires
            old(self).stack.len() > 0,
        ensures
            final(self)@ == (BuilderV { stack: add_child(old(self)@.stack, n@), ..old(self)@ }),
    {
        broadcast use group_node_models;

        let ghost old_stack = self.stack@;
        let mut top = self.stack.pop().unwrap();
        let ghost old_top = top;
        top.children.push(n);
        assert(top.actions@ == old_top.actions@);
        assert(top.children@ == old_top.children@.push(n));
        assert(node_models(top.children@) == node_models(old_top.children@).push(n.model()));
        assert(top.model() == NodeV { children: old_top.model().children.push(n@), ..old_top.model() });
        self.stack.push(top);
        proof {
            lemma_replace_last(old_stack, top);
            assert(self.stack@ == old_stack.drop_last().push(top));
        }
    }

    /// Adds `a` to the actions of the innermost open node.
    fn push_action(&mut self, a: SemanticAction)
        requires
            old(self).stack.len() > 0,
        ensures
            final(self)@ == (BuilderV { stack: add_action(old(self)@.stack, a@), ..old(self)@ }),
    {
        broadcast use group_node_models;

        let ghost old_stack = self.stack@;
        let mut top = self.stack.pop().unwrap();
        let ghost old_top = top;
        top.actions.push(a);
        assert(top.actions@.map_values(|x: SemanticAction| x@) =~= old_top.actions@.map_values(
            |x: SemanticAction| x@,
        ).push(a@));
        assert(top.model() == NodeV { actions: old_top.model().actions.push(a@), ..old_top.model() });
        self.stack.push(top);
        proof {
            lemma_replace_last(old_stack, top);
            assert(self.stack@ == old_stack.drop_last().push(top));
        }
    }

    /// Adds `n` to the top-level nodes of the manifest.
    fn push_top_node(&mut self, n: SemanticNode)
        requires
            old(self).manifest is Some,
        ensures
            final(self)@ == (BuilderV {
                manifest: Some(
                    ManifestV {
                        nodes: old(self)@.manifest->Some_0.nodes.push(n@),
                        ..old(self)@.manifest->Some_0
                    },
                ),
                ..old(self)@
            }),
    {
        broadcast use group_node_models;

        let mut m = self.manifest.take().unwrap();
        let ghost old_m = m;
        m.nodes.push(n);
        assert(m.state@ == old_m.state@);
        self.manifest = Some(m);
    }

    fn add_param(&mut self, el: &XmlElement) -> (r: Result<bool, ManifestError>)
        ensures
            match r {
                Ok(_) => param_step(old(self)@, el@) == StepV::Next(final(self)@),
                Err(e) => param_step(old(self)@, el@) == StepV::Fail(e@),
            },
            final(self).stack@ == old(self).stack@,
            final(self).manifest == old(self).manifest,
            final(self).inside_state == old(self).inside_state,
    {
        match self.action.take() {
            None => Err(ManifestError::InvalidStructure(String::from_str("<param> must be inside an <action>"))),
            Some(mut a) => {
                let ghost old_a = a;
                match param_from_element(el) {
                    Err(e) => {
                        self.action = Some(a);
                        Err(e)
                    },
                    Ok(p) => {
                        a.parameters.push(p);
                        assert(a.parameters@.map_values(|x: ActionParameter| x@) =~= old_a.parameters@.map_values(
                            |x: ActionParameter| x@,
                        ).push(p@));
                        self.action = Some(a);
                        Ok(true)
                    },
                }
            },
        }
    }

    fn feed_start(&mut self, el: &XmlElement) -> (r: Result<bool, ManifestError>)
        requires
            builder_wf(old(self)@),
        ensures
            match r {
                Ok(_) => start_step(old(self)@, el@) == StepV::Next(final(self)@),
                Err(e) => start_step(old(self)@, el@) == StepV::Fail(e@),
            },
            r is Ok ==> builder_wf(final(self)@),
    {
        let tag = match &el.name {
            None => return Err(ManifestError::Xml(String::from_str("element name is not valid UTF-8"))),
            Some(t) => t,
        };
        if tag_is(tag, "app") {
            if self.manifest.is_some() {
                return Err(ManifestError::InvalidStructure(String::from_str("only one <app> root is allowed")));
            }
            let m = app_from_element(el)?;
            self.manifest = Some(m);
            Ok(true)
        } else if tag_is(tag, "state") {
            if self.manifest.is_none() {
                return Err(ManifestError::InvalidStructure(String::from_str("the document must start with <app>")));
            }
            if self.inside_state {
                return Err(ManifestError::InvalidStructure(String::from_str("<state> cannot be nested")));
            }
            self.inside_state = true;
            Ok(true)
        } else if is_node_tag_exec(tag) {
            if self.manifest.is_none() {
                return Err(ManifestError::InvalidStructure(String::from_str("the document must start with <app>")));
            }
            let n = node_from_element(el, tag)?;
            proof {
                broadcast use group_node_models;
            }
            self.stack.push(n);
            Ok(true)
        } else if tag_is(tag, "action") {
            if self.stack.len() == 0 {
                proof {
                    broadcast use group_node_models;
                }
                return Err(ManifestError::InvalidStructure(String::from_str("<action> must be inside a semantic node")));
            }
            if self.action.is_some() {
                return Err(ManifestError::InvalidStructure(String::from_str("<action> elements cannot be nested")));
            }
            let a = action_from_element(el)?;
            self.action = Some(a);
            proof {
                broadcast use group_node_models;
            }
            Ok(true)
        } else if tag_is(tag, "param") {
            self.add_param(el)
        } else {
            Err(ManifestError::UnexpectedElement(tag.clone()))
        }
    }

    fn feed_empty(&mut self, el: &XmlElement) -> (r: Result<bool, ManifestError>)
        requires
            builder_wf(old(self)@),
        ensures
            match r {
                Ok(_) => empty_step(old(self)@, el@) == StepV::Next(final(self)@),
                Err(e) => empty_step(old(self)@, el@) == StepV::Fail(e@),
            },
            r is Ok ==> builder_wf(final(self)@),
    {
        broadcast use group_node_models;

        let tag = match &el.name {
            None => return Err(ManifestError::Xml(String::from_str("element name is not valid UTF-8"))),
            Some(t) => t,
        };
        if tag_is(tag, "param") {
            self.add_param(el)
        } else if tag_is(tag, "value") {
            if !self.inside_state {
                return Err(ManifestError::InvalidStructure(String::from_str("<value> must be inside <state>")));
            }
            let v = value_from_element(el)?;
            let mut m = self.manifest.take().unwrap();
            let ghost old_m = m;
            m.state.push(v);
            assert(m.state@.map_values(|x: StateValue| x@) =~= old_m.state@.map_values(|x: StateValue| x@).push(v@));
            self.manifest = Some(m);
            Ok(true)
        } else if tag_is(tag, "action") {
            if self.stack.len() == 0 {
                return Err(ManifestError::InvalidStructure(String::from_str("<action> must be inside a semantic node")));
            }
            let a = action_from_element(el)?;
            self.push_action(a);
            Ok(true)
        } else if is_node_tag_exec(tag) {
            if self.manifest.is_none() {
                return Err(ManifestError::InvalidStructure(String::from_str("the document must start with <app>")));
            }
            let n = node_from_element(el, tag)?;
            if self.stack.len() > 0 {
                self.push_child(n);
            } else {
                self.push_top_node(n);
            }
            Ok(true)
        } else {
            Err(ManifestError::UnexpectedElement(tag.clone()))
        }
    }

    fn feed_end(&mut self, tag: &String) -> (r: Result<bool, ManifestError>)
        requires
            builder_wf(old(self)@),
        ensures
            match r {
                Ok(_) => end_step(old(self)@, tag@) == StepV::Next(final(self)@),
                Err(e) => end_step(old(self)@, tag@) == StepV::Fail(e@),
            },
            r is Ok ==> builder_wf(final(self)@),
    {
        broadcast use group_node_models;

        if tag_is(tag, "state") {
            self.inside_state = false;
            Ok(true)
        } else if tag_is(tag, "action") {
            match self.action.take() {
                None => Err(ManifestError::InvalidStructure(String::from_str("closing an action that was not open"))),
                Some(a) => {
                    if self.stack.len() == 0 {
                        return Err(ManifestError::InvalidStructure(String::from_str("<action> closed without a parent node")));
                    }
                    self.push_action(a);
                    Ok(true)
                },
            }
        } else if is_node_tag_exec(tag) {
            if self.stack.len() == 0 {
                return Err(ManifestError::InvalidStructure(String::from_str("closing a node that was not open")));
            }
            let ghost old_stack = self.stack@;
            let n = self.stack.pop().unwrap();
            assert(node_models(old_stack).last() == n@);
            assert(node_models(old_stack).drop_last() =~= node_models(self.stack@));
            if self.stack.len() > 0 {
                self.push_child(n);
                Ok(true)
            } else {
                if self.manifest.is_none() {
                    return Err(ManifestError::InvalidStructure(String::from_str("the document must start with <app>")));
                }
                self.push_top_node(n);
                Ok(true)
            }
        } else if tag_is(tag, "app") {
            if self.stack.len() > 0 || self.action.is_some() {
                return Err(ManifestError::InvalidStructure(String::from_str("<app> closed before all children were closed")));
            }
            Ok(true)
        } else {
            Err(ManifestError::UnexpectedElement(tag.clone()))
        }
    }

    /// Reads one event: `Ok(false)` at the end of the document.
    fn feed(&mut self, e: &XmlEvent) -> (r: Result<bool, ManifestError>)
        requires
            builder_wf(old(self)@),
        ensures
            match r {
                Ok(true) => step(old(self)@, e@) == StepV::Next(final(self)@),
                Ok(false) => step(old(self)@, e@) == StepV::Stop && final(self)@ == old(self)@,
                Err(err) => step(old(self)@, e@) == StepV::Fail(err@),
            },
            r is Ok ==> builder_wf(final(self)@),
    {
        match e {
            XmlEvent::Start(el) => {
                let r = self.feed_start(el);
                match r {
                    Ok(_) => Ok(true),
                    Err(err) => Err(err),
                }
            },
            XmlEvent::Empty(el) => {
                let r = self.feed_empty(el);
                match r {
                    Ok(_) => Ok(true),
                    Err(err) => Err(err),
                }
            },
            XmlEvent::End(tag) => {
                let r = self.feed_end(tag);
                match r {
                    Ok(_) => Ok(true),
                    Err(err) => Err(err),
                }
            },
            XmlEvent::Eof => Ok(false),
            XmlEvent::Other => Ok(true),
            XmlEvent::Error(m) => Err(ManifestError::Xml(m.clone())),
        }
    }
}

/// The manifest that a sequence of XML events declares, read up to the end
/// of the document; the first error stops the reading.
pub fn manifest_from_events(events: &Vec<XmlEvent>) -> (r: Result<AppManifest, ManifestError>)
    ensures
        manifest_result(r) == manifest_of_events(events@.map_values(|e: XmlEvent| e@)),
{
    let ghost evs = events@.map_values(|e: XmlEvent| e@);
    let mut b = ManifestBuilder::new();
    let mut i: usize = 0;
    assert(evs.skip(0) =~= evs);
    while i < events.len()
        invariant
            i <= events.len(),
            evs == events@.map_values(|e: XmlEvent| e@),
            builder_wf(b@),
            run(initial_builder(), evs) == run(b@, evs.skip(i as int)),
        decreases events.len() - i,
    {
        let ghost rest = evs.skip(i as int);
        assert(rest[0] == events@[i as int]@);
        assert(rest.drop_first() =~= evs.skip(i + 1));
        match b.feed(&events[i]) {
            Ok(true) => {},
            Ok(false) => {
                return b.finish();
            },
            Err(e) => {
                return Err(e);
            },
        }
        i = i + 1;
    }
    assert(evs.skip(i as int).len() == 0);
    b.finish()
}

impl ManifestBuilder {
    fn finish(self) -> (r: Result<AppManifest, ManifestError>)
        ensures
            manifest_result(r) == finish(self@),
    {
        broadcast use group_node_models;

        match self.manifest {
            None => Err(ManifestError::InvalidStructure(String::from_str("missing <app> root"))),
            Some(m) => {
                if self.stack.len() > 0 || self.action.is_some() {
                    Err(ManifestError::InvalidStructure(String::from_str("unclosed XML elements")))
                } else {
                    Ok(m)
                }
            },
        }
    }
}

/// Parses and validates a manifest.
pub fn parse_manifest(xml: &str) -> (r: Result<AppManifest, ManifestError>)
    ensures
        manifest_result(r) == manifest_of_events(xml_events(xml@)),
{
    let events = read_events(xml);
    manifest_from_events(&events)
}

/// The size hints keep the flags of a node.
proof fn lemma_sizes_keep_flags(el: ElementV, n: NodeV)
    ensures
        node_sizes_spec(el, n) matches Ok(m) ==> m.disabled == n.disabled && m.readonly == n.readonly && m.id
            == n.id,
{
}

/// A node is disabled exactly when its element says `disabled="true"`,
/// and read-only exactly when it says `readonly="true"`; any other value,
/// or no such attribute, leaves the node enabled and editable.
pub proof fn law_node_flags(el: ElementV, tag: Seq<char>)
    ensures
        node_spec(el, tag) matches Ok(n) ==> {
            &&& n.disabled == (attribute_spec(el, "disabled"@) == Ok::<_, ManifestErrorV>(Some("true"@)))
            &&& n.readonly == (attribute_spec(el, "readonly"@) == Ok::<_, ManifestErrorV>(Some("true"@)))
        },
{
    reveal_strlit("true");
    reveal_strlit("false");
    assert("false"@ != "true"@) by {
        assert("false"@.len() != "true"@.len());
    }
    match required_spec(el, tag, "id"@) {
        Ok(id) => match required_spec(el, tag, "role"@) {
            Ok(role) => match required_spec(el, tag, "label"@) {
                Ok(label) => {
                    let disabled = attribute_or_spec(el, "disabled"@, "false"@) == "true"@;
                    let readonly = attribute_or_spec(el, "readonly"@, "false"@) == "true"@;
                    assert(disabled == (attribute_spec(el, "disabled"@) == Ok::<_, ManifestErrorV>(Some("true"@))));
                    assert(readonly == (attribute_spec(el, "readonly"@) == Ok::<_, ManifestErrorV>(Some("true"@))));
                    if node_spec(el, tag) is Ok {
                        let base = NodeV {
                            id,
                            role,
                            label,
                            bind: attribute_spec(el, "bind"@)->Ok_0,
                            icon: attribute_spec(el, "icon"@)->Ok_0,
                            placeholder: attribute_spec(el, "placeholder"@)->Ok_0,
                            disabled,
                            readonly,
                            variant: attribute_spec(el, "variant"@)->Ok_0,
                            aria_label: attribute_spec(el, "aria-label"@)->Ok_0,
                            layout: attribute_spec(el, "layout"@)->Ok_0,
                            gap: None,
                            padding: None,
                            width: None,
                            min_width: None,
                            min_height: None,
                            max_height: None,
                            columns: None,
                            wrap: false,
                            scroll: false,
                            grow: false,
                            actions: Seq::empty(),
                            children: Seq::empty(),
                        };
                        assert(node_spec(el, tag) == node_sizes_spec(el, base));
                        lemma_sizes_keep_flags(el, base);
                    }
                },
                _ => {},
            },
            _ => {},
        },
        _ => {},
    }
}

} // verus!
