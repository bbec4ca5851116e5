use scrawler::bundle::{
    app_bundle_name, app_dir_name, app_run_script, bundle_id, desktop_entry, desktop_file_name, display_name,
    dmg_name, ends_with, icon_plan, iconset_sizes, info_plist, is_packaged, uses_current_binary, windows_dir_name,
    windows_exe_name, IconPlan, Platform, PlistInfo,
};

#[test]
fn names_have_defaults() {
    assert_eq!(display_name(None), "ScrawlerApp");
    assert_eq!(display_name(Some("Mail")), "Mail");
    assert_eq!(bundle_id(None, None), "com.scrawler.app");
    assert_eq!(bundle_id(None, Some("scrawler.mail")), "scrawler.mail");
    assert_eq!(bundle_id(Some("com.x.mail"), Some("scrawler.mail")), "com.x.mail");
}

#[test]
fn platforms_by_name() {
    assert_eq!(Platform::from_os("macos"), Ok(Platform::MacOs));
    assert_eq!(Platform::from_os("windows"), Ok(Platform::Windows));
    assert_eq!(Platform::from_os("linux"), Ok(Platform::Linux));
    assert_eq!(Platform::from_os("beos"), Err("Unsupported target: beos. Use: macos, windows, linux".to_string()));
}

#[test]
fn current_binary_is_used_for_the_host() {
    assert!(uses_current_binary(None, "linux"));
    assert!(uses_current_binary(Some("linux"), "linux"));
    assert!(!uses_current_binary(Some("windows"), "linux"));
}

#[test]
fn package_file_names() {
    assert_eq!(app_bundle_name("Mail"), "Mail.app");
    assert_eq!(dmg_name("Mail", "1.2.0"), "Mail-1.2.0.dmg");
    assert_eq!(windows_dir_name("Mail"), "Mail-win64");
    assert_eq!(windows_exe_name("Mail"), "Mail.exe");
    assert_eq!(app_dir_name("Mail"), "Mail.AppDir");
    assert_eq!(desktop_file_name("Mail"), "Mail.desktop");
    assert!(is_packaged("app.xml"));
    assert!(!is_packaged("dist"));
}

#[test]
fn desktop_entry_lists_categories() {
    let e = desktop_entry("Mail", None, &vec![]);
    assert_eq!(
        e,
        "[Desktop Entry]\nName=Mail\nExec=Mail\nType=Application\nStartupWMClass=Mail\nCategories=Utility;\n"
    );
    let e = desktop_entry("Mail", Some("mail.desktop"), &vec!["Office".into(), "Email".into()]);
    assert!(e.contains("StartupWMClass=mail.desktop\n"));
    assert!(e.contains("Categories=Office;Email;\n"));
}

#[test]
fn run_script_starts_the_binary_with_the_manifest() {
    let s = app_run_script("Mail");
    assert!(s.starts_with("#!/bin/sh\n"));
    assert!(s.contains("exec \"$HERE/usr/bin/Mail\" \"$HERE/usr/share/app.xml\" \"$@\"\n"));
}

#[test]
fn plist_has_defaults_and_optional_copyright() {
    let info = PlistInfo {
        display_name: "Mail".into(),
        bundle_id: "com.x.mail".into(),
        version: None,
        build: None,
        copyright: None,
        minimum_version: None,
        category: None,
        icon_file: "AppIcon".into(),
    };
    let p = info_plist(&info);
    assert!(p.contains("<key>CFBundleVersion</key>\n    <string>1.0.0</string>"));
    assert!(p.contains("<string>11.0</string>"));
    assert!(p.contains("public.app-category.utilities"));
    assert!(!p.contains("NSHumanReadableCopyright"));
    assert!(p.ends_with("</dict>\n</plist>\n"));
    let info = PlistInfo { copyright: Some("(c) Me".into()), build: Some("42".into()), ..info };
    let p = info_plist(&info);
    assert!(p.contains("<string>(c) Me</string>"));
    assert!(p.contains("<key>CFBundleVersion</key>\n    <string>42</string>"));
}

#[test]
fn icons_by_extension() {
    assert_eq!(icon_plan("a.icns"), IconPlan::Copy);
    assert_eq!(icon_plan("a.webp"), IconPlan::ConvertWebp);
    assert_eq!(icon_plan("a.png"), IconPlan::Convert);
    assert!(ends_with("abc", "bc"));
    assert!(!ends_with("c", "bc"));
    let sizes = iconset_sizes();
    assert_eq!(sizes.len(), 10);
    assert_eq!(sizes[9], (1024, "icon_512x512@2x.png".to_string()));
}
