use scrawler::json::Json;
use scrawler::manifest::{parse_manifest, ActionParameter, AppManifest};
use scrawler::runtime::{storage_delete, storage_set, form_reset, navigate, notification_show, object1, set_label, state_set, view_close, view_open};
use scrawler::tree::find_node;
use scrawler::ui::{coerce_value, form_key, window_title, Coerced, UiCommand, UiState};

fn app() -> AppManifest {
    parse_manifest(
        r#"
        <app id="mail" name="Mail">
          <screen id="inbox" role="screen" label="Inbox">
            <component id="compose" role="button" label="Compose">
              <action id="send" handler="send">
                <param name="to" type="string" required="true" />
                <param name="count" type="number" required="false" />
                <param name="urgent" type="boolean" required="false" />
              </action>
            </component>
            <view id="composer" role="dialog" label="New message" />
          </screen>
          <screen id="settings" role="screen" label="Settings" />
        </app>
        "#,
    )
    .ok()
    .expect("parses")
}

fn param(name: &str, kind: &str) -> ActionParameter {
    ActionParameter { name: name.into(), kind: kind.into(), required: true, description: String::new() }
}

#[test]
fn form_key_joins_ids_with_dots() {
    assert_eq!(form_key("compose", "send", "to"), "compose.send.to");
}

#[test]
fn coerce_value_reads_each_kind() {
    assert!(matches!(coerce_value("hi", &param("x", "string")), Ok(Coerced::Str(t)) if t == "hi"));
    assert!(matches!(coerce_value("2.5", &param("x", "number")), Ok(Coerced::Number(t)) if t == "2.5"));
    assert!(matches!(coerce_value("1e3", &param("x", "number")), Ok(Coerced::Number(_))));
    assert_eq!(coerce_value("two", &param("n", "number")).err().as_deref(), Some("\"n\" must be a number"));
    assert!(matches!(coerce_value("true", &param("b", "boolean")), Ok(Coerced::Bool(true))));
    assert!(matches!(coerce_value("false", &param("b", "boolean")), Ok(Coerced::Bool(false))));
    assert_eq!(coerce_value("yes", &param("b", "boolean")).err().as_deref(), Some("\"b\" must be true or false"));
    assert_eq!(coerce_value("x", &param("d", "date")).err().as_deref(), Some("Type `date` is not yet supported"));
}

#[test]
fn collect_arguments_reads_the_form() {
    let mut ui = UiState::new(app(), None);
    let node = find_node(&ui.manifest().nodes, "compose").expect("compose");
    let action = &node.actions[0];
    let err = ui.collect_arguments(node, action).err().expect("`to` is required");
    assert!(err.contains("to"));

    let node_id = node.id.clone();
    ui.set_form_value(form_key(&node_id, "send", "to"), "bob".into());
    ui.set_form_value(form_key(&node_id, "send", "count"), "3".into());
    let node = find_node(&ui.manifest().nodes, "compose").expect("compose");
    let args = ui.collect_arguments(node, &node.actions[0]).ok().expect("complete");
    assert_eq!(args.len(), 2);
    assert_eq!(args[0].0, "to");
    assert!(matches!(&args[1].1, Coerced::Number(t) if t == "3"));
}

#[test]
fn open_then_close_a_view() {
    let mut ui = UiState::new(app(), None);
    let cmd = ui.apply_effect(&view_open("composer".into(), Json::Object(vec![])));
    assert!(matches!(cmd, UiCommand::OpenDialog(ref id) if id == "composer"));
    assert!(ui.is_open("composer"));
    let cmd = ui.apply_effect(&view_close("composer".into()));
    assert!(matches!(cmd, UiCommand::CloseDialog(ref id) if id == "composer"));
    ui.finish_close("composer");
    assert!(!ui.is_open("composer"));
}

#[test]
fn view_open_payload_state_is_applied() {
    let mut ui = UiState::new(app(), None);
    ui.apply_effect(&view_open(
        "composer".into(),
        object1("state", object1("draft.recipient", Json::Str("alice@example.com".into()))),
    ));
    assert_eq!(ui.state().get("draft.recipient").map(|v| v.as_str()), Some("alice@example.com"));
}

#[test]
fn state_set_and_label_change() {
    let mut ui = UiState::new(app(), None);
    ui.apply_effect(&state_set("k".into(), Json::Str("v".into())));
    assert_eq!(ui.state().get("k").map(|v| v.as_str()), Some("v"));
    ui.apply_effect(&set_label("compose".into(), "Write".into()));
    assert_eq!(find_node(&ui.manifest().nodes, "compose").expect("compose").label, "Write");
}

#[test]
fn navigate_selects_the_screen() {
    let mut ui = UiState::new(app(), None);
    assert_eq!(ui.active_screen(), 0);
    let cmd = ui.apply_effect(&navigate("settings".into()));
    assert!(matches!(cmd, UiCommand::ScreenTransition));
    assert_eq!(ui.active_screen(), 1);
    let cmd = ui.apply_effect(&navigate("nowhere".into()));
    assert!(matches!(cmd, UiCommand::Nothing));
    assert_eq!(ui.active_screen(), 1);
}

#[test]
fn form_reset_clears_only_the_node_fields() {
    let mut ui = UiState::new(app(), None);
    ui.set_form_value("compose.send.to".into(), "bob".into());
    ui.set_form_value("other.x.y".into(), "keep".into());
    ui.apply_effect(&form_reset("compose".into()));
    assert!(ui.form_values().get("compose.send.to").is_none());
    assert_eq!(ui.form_values().get("other.x.y").map(|v| v.as_str()), Some("keep"));
}

#[test]
fn toast_and_error() {
    let mut ui = UiState::new(app(), None);
    let cmd = ui.apply_effect(&notification_show("Sent".into()));
    assert!(matches!(cmd, UiCommand::ShowToast));
    assert_eq!(ui.toast().as_deref(), Some("Sent"));
    ui.dismiss_toast();
    assert!(ui.toast().is_none());
    ui.set_error("bad".into());
    assert_eq!(ui.error().as_deref(), Some("bad"));
    ui.apply_effect(&navigate("inbox".into()));
    assert!(ui.error().is_none());
}

#[test]
fn window_title_is_kept() {
    let ui = UiState::new(app(), None);
    assert_eq!(ui.window_title(), "Mail");
}

#[test]
fn screens_and_open_dialogs() {
    let mut ui = UiState::new(app(), None);
    let ids: Vec<String> = ui.screens().iter().map(|n| n.id.clone()).collect();
    assert_eq!(ids, vec!["inbox".to_string(), "settings".to_string()]);
    assert!(ui.open_dialogs().is_empty());
    ui.apply_effect(&view_open("composer".into(), Json::Object(vec![])));
    let open: Vec<String> = ui.open_dialogs().iter().map(|n| n.id.clone()).collect();
    assert_eq!(open, vec!["composer".to_string()]);
}

#[test]
fn form_reset_keeps_the_fields_of_a_nested_id() {
    let manifest = parse_manifest(
        r#"
        <app id="t" name="T">
          <screen id="s" role="screen" label="S">
            <component id="a" role="button" label="A">
              <action id="x" handler="hx"><param name="p" type="string" /></action>
            </component>
            <component id="a.b" role="button" label="B">
              <action id="y" handler="hy"><param name="q" type="string" /></action>
            </component>
          </screen>
        </app>
        "#,
    )
    .ok()
    .expect("parses");
    let mut ui = UiState::new(manifest, Some("T".into()));
    ui.set_form_value(form_key("a", "x", "p"), "1".into());
    ui.set_form_value(form_key("a.b", "y", "q"), "2".into());
    ui.apply_effect(&form_reset("a".into()));
    assert!(ui.form_values().get("a.x.p").is_none());
    assert_eq!(ui.form_values().get("a.b.y.q").map(|v| v.as_str()), Some("2"));
}

#[test]
fn window_title_is_the_display_name_or_the_app_name() {
    assert_eq!(UiState::new(app(), None).window_title(), "Mail");
    assert_eq!(UiState::new(app(), Some("Inbox Pro".into())).window_title(), "Inbox Pro");
    assert_eq!(window_title(None, "Mail"), "Mail");
    assert_eq!(window_title(Some("Pro".into()), "Mail"), "Pro");
}

#[test]
fn storage_effects_only_ask_for_the_operation() {
    let mut ui = UiState::new(app(), None);
    let cmd = ui.apply_effect(&storage_set("k".into(), Json::Str("v".into())));
    assert!(matches!(cmd, UiCommand::Storage(_)));
    let cmd = ui.apply_effect(&storage_delete("k".into()));
    assert!(matches!(cmd, UiCommand::Storage(_)));
    assert_eq!(ui.window_title(), "Mail");
    assert!(ui.form_values().get("k").is_none());
}
