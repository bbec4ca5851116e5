use scrawler::manifest::{parse_manifest, ManifestError};
use scrawler::tree::{edit_first, find_node, find_node_mut, NodeEdit};

fn size(v: &Option<String>) -> Option<f64> {
    v.as_deref().map(|t| t.parse::<f64>().expect("a size hint is a number"))
}

#[test]
fn parses_a_component_with_a_typed_action() {
    let xml = r#"
        <app id="mail" name="Mail" version="0.1">
          <screen id="inbox" role="screen" label="Inbox">
            <component id="compose" role="button" label="Compose">
              <action id="compose_message" handler="compose_message" description="Open a new draft">
                <param name="recipient" type="string" required="false" description="Initial recipient" />
              </action>
            </component>
          </screen>
        </app>
    "#;

    let manifest = parse_manifest(xml).ok().expect("manifest should parse");
    assert_eq!(manifest.id, "mail");
    assert_eq!(manifest.actions, None);
    assert_eq!(manifest.nodes[0].children[0].actions[0].id, "compose_message");
    assert!(!manifest.nodes[0].children[0].actions[0].parameters[0].required);
}

#[test]
fn parses_state_declarations() {
    let xml = r#"
        <app id="mail" name="Mail">
          <state>
            <value id="draft.recipient" type="string" default="" />
            <value id="draft.body" type="string" default="Hello" />
          </state>
          <screen id="inbox" role="screen" label="Inbox" />
        </app>
    "#;

    let manifest = parse_manifest(xml).ok().expect("manifest with state should parse");
    assert_eq!(manifest.state.len(), 2);
    assert_eq!(manifest.state[0].id, "draft.recipient");
    assert_eq!(manifest.state[1].default, "Hello");
}

#[test]
fn parses_bind_attribute_on_component() {
    let xml = r#"
        <app id="mail" name="Mail">
          <screen id="inbox" role="screen" label="Inbox">
            <view id="composer" role="dialog" label="New message">
              <component id="recipient" role="text-input" label="Recipient" bind="draft.recipient" />
            </view>
          </screen>
        </app>
    "#;

    let manifest = parse_manifest(xml).ok().expect("manifest with bind should parse");
    let view = &manifest.nodes[0].children[0];
    assert_eq!(view.role, "dialog");
    let input = &view.children[0];
    assert_eq!(input.bind, Some("draft.recipient".into()));
}

#[test]
fn parses_layout_hints_on_containers() {
    let xml = r#"
        <app id="notes" name="Notes">
          <screen id="workspace" role="screen" label="Workspace" layout="column" gap="18">
            <group id="toolbar" role="group" label="" layout="row" gap="10" padding="16" wrap="true" />
            <component id="note-grid" role="list" label="Notes" layout="grid" columns="3" scroll="true" max-height="320" />
          </screen>
        </app>
    "#;

    let manifest = parse_manifest(xml).ok().expect("manifest with layout hints should parse");
    let screen = &manifest.nodes[0];
    assert_eq!(screen.layout.as_deref(), Some("column"));
    assert_eq!(size(&screen.gap), Some(18.0));
    let toolbar = &screen.children[0];
    assert_eq!(toolbar.layout.as_deref(), Some("row"));
    assert_eq!(size(&toolbar.padding), Some(16.0));
    assert!(toolbar.wrap);
    let grid = &screen.children[1];
    assert_eq!(grid.columns, Some(3));
    assert!(grid.scroll);
    assert_eq!(size(&grid.max_height), Some(320.0));
}

#[test]
fn manifest_defaults_and_optional_attributes() {
    let xml = r#"<app id="a" name="A" actions="app.lua"><screen id="s" role="screen" label="S" /></app>"#;
    let manifest = parse_manifest(xml).ok().expect("parses");
    assert_eq!(manifest.version, "0.1");
    assert_eq!(manifest.actions.as_deref(), Some("app.lua"));
    assert_eq!(manifest.nodes.len(), 1);
    assert!(manifest.nodes[0].children.is_empty());
    assert_eq!(manifest.nodes[0].bind, None);
}

#[test]
fn manifest_missing_attribute_is_reported() {
    let xml = r#"<app name="A"></app>"#;
    match parse_manifest(xml) {
        Err(ManifestError::MissingAttribute { element, attribute }) => {
            assert_eq!(element, "app");
            assert_eq!(attribute, "id");
        }
        _ => panic!("expected a missing attribute"),
    }
}

#[test]
fn manifest_unexpected_root_is_reported() {
    let xml = r#"<screen id="s" role="screen" label="S" />"#;
    assert!(matches!(parse_manifest(xml), Err(ManifestError::UnexpectedElement(_)) | Err(ManifestError::InvalidStructure(_))));
}

#[test]
fn manifest_without_app_is_invalid() {
    assert!(matches!(parse_manifest(""), Err(ManifestError::InvalidStructure(_))));
}

#[test]
fn manifest_bad_float_hint_is_rejected() {
    let xml = r#"<app id="a" name="A"><screen id="s" role="screen" label="S" gap="wide" /></app>"#;
    assert!(parse_manifest(xml).is_err());
}

#[test]
fn find_node_mut_changes_what_find_node_sees() {
    let xml = r#"
        <app id="a" name="A">
          <screen id="s" role="screen" label="S">
            <component id="btn" role="button" label="Go" />
          </screen>
        </app>
    "#;
    let mut manifest = parse_manifest(xml).ok().expect("parses");
    {
        let node = find_node_mut(&mut manifest.nodes, "btn").expect("btn exists");
        node.label = "Stop".to_string();
    }
    assert_eq!(find_node(&manifest.nodes, "btn").expect("still there").label, "Stop");
    assert!(find_node_mut(&mut manifest.nodes, "missing").is_none());
}

#[test]
fn edit_first_sets_options_and_keeps_other_children() {
    let xml = r#"
        <app id="a" name="A">
          <screen id="s" role="screen" label="S">
            <component id="priority" role="select" label="Priority">
              <component id="keep" role="text" label="Keep" />
            </component>
          </screen>
        </app>
    "#;
    let mut manifest = parse_manifest(xml).ok().expect("parses");
    let found = edit_first(&mut manifest.nodes, "priority", &NodeEdit::Options(vec!["Low".into(), "High".into()]));
    assert!(found);
    let select = find_node(&manifest.nodes, "priority").expect("select");
    assert_eq!(select.children.len(), 3);
    assert_eq!(select.children[0].id, "keep");
    assert_eq!(select.children[1].id, "priority.option.Low");
    assert_eq!(select.children[2].label, "High");
    assert!(!edit_first(&mut manifest.nodes, "nothing", &NodeEdit::Label("x".into())));
}

#[test]
fn manifest_error_messages() {
    let e = ManifestError::MissingAttribute { element: "app".into(), attribute: "id".into() };
    assert_eq!(e.message(), "<app> is missing required attribute `id`");
    assert_eq!(ManifestError::UnexpectedElement("blink".into()).message(), "unexpected <blink> element");
    assert_eq!(ManifestError::Xml("bad".into()).message(), "XML error: bad");
    assert_eq!(ManifestError::InvalidStructure("x".into()).message(), "invalid manifest structure: x");
}

#[test]
fn option_labels_and_action_lookup() {
    let xml = r#"
        <app id="a" name="A">
          <component id="priority" role="select" label="Priority" bind="p">
            <component id="o1" role="option" label="Low" />
            <component id="x" role="text" label="Not an option" />
            <component id="o2" role="option" label="High" />
            <action id="pick" handler="pick" />
          </component>
        </app>
    "#;
    let manifest = parse_manifest(xml).ok().expect("parses");
    let select = find_node(&manifest.nodes, "priority").expect("select");
    assert_eq!(scrawler::tree::option_labels(select), vec!["Low".to_string(), "High".to_string()]);
    assert!(scrawler::mcp::find_action_in(&select.actions, &"pick".to_string()).is_some());
    assert!(scrawler::mcp::find_action_in(&select.actions, &"drop".to_string()).is_none());
}

#[test]
fn node_tag_names_are_cosmetic() {
    let with = |tag: &str| {
        format!(
            r#"<app id="a" name="A"><screen id="s" role="screen" label="S"><{tag} id="n" role="button" label="Go"><action id="go" handler="go" /></{tag}></screen></app>"#
        )
    };
    let base = parse_manifest(&with("component")).ok().expect("parses");
    for tag in ["group", "view", "dialog", "screen"] {
        let other = parse_manifest(&with(tag)).ok().expect("parses");
        assert_eq!(other.nodes[0].children[0].id, base.nodes[0].children[0].id);
        assert_eq!(other.nodes[0].children[0].role, base.nodes[0].children[0].role);
        assert_eq!(other.nodes[0].children[0].label, base.nodes[0].children[0].label);
        assert_eq!(other.nodes[0].children[0].actions.len(), 1);
    }
}
