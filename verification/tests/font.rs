use scrawler::font::icon_map;

fn be16(v: &mut Vec<u8>, x: u16) {
    v.extend_from_slice(&x.to_be_bytes());
}

fn be32(v: &mut Vec<u8>, x: u32) {
    v.extend_from_slice(&x.to_be_bytes());
}

/// A font with a `cmap` table of one format-12 group `start..=end` from
/// glyph 1, and a `post` table that names glyphs 1 and 2.
fn font(start: u32, end: u32, names: &[&str]) -> Vec<u8> {
    let mut post = Vec::new();
    be32(&mut post, 0x0002_0000);
    post.extend_from_slice(&[0u8; 28]);
    be16(&mut post, 1 + names.len() as u16);
    be16(&mut post, 0);
    for i in 0..names.len() {
        be16(&mut post, 258 + i as u16);
    }
    for n in names {
        post.push(n.len() as u8);
        post.extend_from_slice(n.as_bytes());
    }

    let mut cmap = Vec::new();
    be16(&mut cmap, 0);
    be16(&mut cmap, 1);
    be16(&mut cmap, 3);
    be16(&mut cmap, 10);
    be32(&mut cmap, 12);
    be16(&mut cmap, 12);
    be16(&mut cmap, 0);
    be32(&mut cmap, 28);
    be32(&mut cmap, 0);
    be32(&mut cmap, 1);
    be32(&mut cmap, start);
    be32(&mut cmap, end);
    be32(&mut cmap, 1);

    let cmap_off = 12 + 2 * 16;
    let post_off = cmap_off + cmap.len();
    let mut d = Vec::new();
    be32(&mut d, 0x0001_0000);
    be16(&mut d, 2);
    d.extend_from_slice(&[0u8; 6]);
    d.extend_from_slice(b"cmap");
    be32(&mut d, 0);
    be32(&mut d, cmap_off as u32);
    be32(&mut d, cmap.len() as u32);
    d.extend_from_slice(b"post");
    be32(&mut d, 0);
    be32(&mut d, post_off as u32);
    be32(&mut d, post.len() as u32);
    d.extend_from_slice(&cmap);
    d.extend_from_slice(&post);
    d
}

#[test]
fn reads_named_private_use_glyphs() {
    let m = icon_map(&font(0xE000, 0xE001, &["home", "star"])).unwrap();
    assert_eq!(m.icon_char("home"), Some('\u{E000}'));
    assert_eq!(m.icon_char("star"), Some('\u{E001}'));
    assert_eq!(m.icon_char("house"), None);
}

#[test]
fn skips_glyphs_below_the_private_use_area() {
    let m = icon_map(&font(0x41, 0x42, &["a", "b"])).unwrap();
    assert_eq!(m.icon_char("a"), None);
    assert_eq!(m.icon_char("b"), None);
}

#[test]
fn glyph_without_a_code_point_is_no_icon() {
    let m = icon_map(&font(0xE010, 0xE010, &["one", "two"])).unwrap();
    assert_eq!(m.icon_char("one"), Some('\u{E010}'));
    assert_eq!(m.icon_char("two"), None);
}

#[test]
fn empty_names_are_skipped() {
    let m = icon_map(&font(0xE000, 0xE001, &["", "x"])).unwrap();
    assert_eq!(m.icon_char(""), None);
    assert_eq!(m.icon_char("x"), Some('\u{E001}'));
}

#[test]
fn truncated_font_is_refused() {
    let d = font(0xE000, 0xE001, &["home", "star"]);
    assert!(icon_map(&d[..d.len() - 3]).is_none());
    assert!(icon_map(&d[..20]).is_none());
    assert!(icon_map(&[0u8; 3]).is_none());
}

#[test]
fn font_without_tables_has_no_icons() {
    let mut d = vec![0u8; 12];
    d[0] = 0;
    d[1] = 1;
    let m = icon_map(&d).unwrap();
    assert_eq!(m.icon_char("home"), None);
}

#[test]
fn a_repeated_name_keeps_the_later_glyph() {
    let m = icon_map(&font(0xE000, 0xE001, &["dup", "dup"])).unwrap();
    assert_eq!(m.icon_char("dup"), Some('\u{E001}'));
}
