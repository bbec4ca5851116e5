use scrawler::manifest::parse_manifest;
use scrawler::shortcut::{parse_shortcut, shortcut_pressed, shortcut_triggers, split_plus, Modifiers, ShortcutKey};

fn none() -> Modifiers {
    Modifiers { command: false, ctrl: false, shift: false, alt: false }
}

#[test]
fn parses_modifiers_and_key() {
    let s = parse_shortcut("Cmd+Shift+K").expect("a shortcut");
    assert_eq!(s.key, ShortcutKey::Letter('k'));
    assert_eq!(s.modifiers, Modifiers { command: true, ctrl: false, shift: true, alt: false });
    let s = parse_shortcut("ctrl+alt+Enter").expect("a shortcut");
    assert_eq!(s.key, ShortcutKey::Enter);
    assert_eq!(s.modifiers, Modifiers { command: false, ctrl: true, shift: false, alt: true });
    assert_eq!(parse_shortcut("esc").expect("escape").key, ShortcutKey::Escape);
    assert_eq!(parse_shortcut("Option+Del").expect("delete").modifiers.alt, true);
}

#[test]
fn rejects_unknown_keys() {
    assert!(parse_shortcut("Cmd+F1").is_none());
    assert!(parse_shortcut("").is_none());
    assert!(parse_shortcut("Cmd+").is_none());
    assert!(parse_shortcut("1").is_none());
}

#[test]
fn unknown_modifiers_are_ignored() {
    let s = parse_shortcut("Hyper+s").expect("a shortcut");
    assert_eq!(s.modifiers, none());
}

#[test]
fn split_keeps_empty_pieces() {
    let v: Vec<char> = "a++b".chars().collect();
    let parts = split_plus(&v);
    assert_eq!(parts.len(), 3);
    assert!(parts[1].is_empty());
}

#[test]
fn pressed_needs_exact_modifiers_and_the_key() {
    let cmd = Modifiers { command: true, ..none() };
    assert!(shortcut_pressed("Cmd+S", cmd, &vec![ShortcutKey::Letter('s')]));
    assert!(!shortcut_pressed("Cmd+S", none(), &vec![ShortcutKey::Letter('s')]));
    assert!(!shortcut_pressed("Cmd+S", cmd, &vec![ShortcutKey::Letter('d')]));
    assert!(!shortcut_pressed("Cmd+Shift+S", cmd, &vec![ShortcutKey::Letter('s')]));
    assert!(!shortcut_pressed("Cmd+F9", cmd, &vec![ShortcutKey::Letter('s')]));
}

#[test]
fn triggers_are_found_in_document_order() {
    let m = parse_manifest(
        r#"
        <app id="a" name="A">
          <screen id="s" role="screen" label="S">
            <action id="save" handler="save" shortcut="Cmd+S" />
            <component id="c" role="button" label="C">
              <action id="send" handler="send" shortcut="cmd+s" />
              <action id="quit" handler="quit" shortcut="Cmd+Q" />
            </component>
          </screen>
        </app>
        "#,
    )
    .ok()
    .expect("parses");
    let cmd = Modifiers { command: true, ..none() };
    let t = shortcut_triggers(&m.nodes, cmd, &vec![ShortcutKey::Letter('s')]);
    assert_eq!(t, vec![("s".to_string(), "save".to_string()), ("c".to_string(), "send".to_string())]);
    assert!(shortcut_triggers(&m.nodes, none(), &vec![ShortcutKey::Letter('s')]).is_empty());
}

#[test]
fn case_does_not_matter() {
    assert_eq!(parse_shortcut("CMD+SHIFT+K"), parse_shortcut("cmd+shift+k"));
    assert_eq!(parse_shortcut("Escape"), parse_shortcut("escape"));
}
