use scrawler::icons::{compare_text, IconMap, TextOrder};
use scrawler::literal::{check_float_literal, parse_usize, LiteralError};

#[test]
fn icon_char_finds_names() {
    let map = IconMap::from_sorted(vec![
        ("mail".to_string(), '\u{e001}'),
        ("pencil".to_string(), '\u{e002}'),
        ("send".to_string(), '\u{e003}'),
    ])
    .expect("sorted");
    assert_eq!(map.icon_char("pencil"), Some('\u{e002}'));
    assert_eq!(map.icon_char("mail"), Some('\u{e001}'));
    assert_eq!(map.icon_char("send"), Some('\u{e003}'));
    assert_eq!(map.icon_char("star"), None);
    assert_eq!(IconMap::new().icon_char("mail"), None);
}

#[test]
fn unsorted_names_are_refused() {
    assert!(IconMap::from_sorted(vec![("b".to_string(), 'b'), ("a".to_string(), 'a')]).is_none());
    assert!(IconMap::from_sorted(vec![("a".to_string(), 'a'), ("a".to_string(), 'b')]).is_none());
}

#[test]
fn text_order() {
    assert!(matches!(compare_text("a", "b"), TextOrder::Less));
    assert!(matches!(compare_text("ab", "a"), TextOrder::Greater));
    assert!(matches!(compare_text("x", "x"), TextOrder::Equal));
}

#[test]
fn numbers_in_attributes() {
    assert_eq!(parse_usize("3").ok(), Some(3));
    assert!(matches!(parse_usize(""), Err(LiteralError::Empty)));
    assert!(parse_usize("x").is_err());
    assert!(parse_usize("99999999999999999999999").is_err());
    assert!(check_float_literal("18").is_ok());
    assert!(check_float_literal("-1.5e3").is_ok());
    assert!(check_float_literal("inf").is_ok());
    assert!(check_float_literal("wide").is_err());
}
