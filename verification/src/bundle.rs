//! Packaging an application: the names of what is produced for each
//! platform and the text of the files written into the package. Copying
//! files and running the platform tools is done by the caller.

use crate::json::{string_eq, text};
use crate::runtime::concat3;
use vstd::prelude::*;

verus! {

/// A text, or a default.
pub open spec fn or_default(o: Option<Seq<char>>, d: Seq<char>) -> Seq<char> {
    match o {
        Some(t) => t,
        None => d,
    }
}

/// The text of an optional string slice.
pub open spec fn opt_s(o: Option<&str>) -> Option<Seq<char>> {
    match o {
        Some(t) => Some(t@),
        None => None,
    }
}

fn text_or(o: Option<&str>, d: &str) -> (r: String)
    ensures
        r@ == or_default(opt_s(o), d@),
{
    match o {
        Some(t) => text(t),
        None => text(d),
    }
}

/// The name shown for the application: its display name, or `ScrawlerApp`.
pub fn display_name(configured: Option<&str>) -> (r: String)
    ensures
        r@ == or_default(opt_s(configured), "ScrawlerApp"@),
{
    text_or(configured, "ScrawlerApp")
}

/// The bundle identifier: the macOS one, else the application id, else
/// `com.scrawler.app`.
pub fn bundle_id(macos_bundle_id: Option<&str>, app_id: Option<&str>) -> (r: String)
    ensures
        r@ == or_default(opt_s(macos_bundle_id), or_default(opt_s(app_id), "com.scrawler.app"@)),
{
    match macos_bundle_id {
        Some(b) => text(b),
        None => text_or(app_id, "com.scrawler.app"),
    }
}

/// A platform a package can be made for.
#[derive(Clone, Copy, PartialEq, Eq, Structural, Debug)]
pub enum Platform {
    MacOs,
    Windows,
    Linux,
}

/// The platform an OS name stands for, or the message for one that is not
/// supported.
pub open spec fn platform_spec(os: Seq<char>) -> Result<Platform, Seq<char>> {
    if os == "macos"@ {
        Ok(Platform::MacOs)
    } else if os == "windows"@ {
        Ok(Platform::Windows)
    } else if os == "linux"@ {
        Ok(Platform::Linux)
    } else {
        Err("Unsupported target: "@ + os + ". Use: macos, windows, linux"@)
    }
}

impl Platform {
    /// The platform an OS name (`macos`, `windows`, `linux`) stands for.
    pub fn from_os(os: &str) -> (r: Result<Platform, String>)
        ensures
            match r {
                Ok(p) => platform_spec(os@) == Ok::<Platform, Seq<char>>(p),
                Err(m) => platform_spec(os@) == Err::<Platform, Seq<char>>(m@),
            },
    {
        let o = text(os);
        if string_eq(&o, &text("macos")) {
            Ok(Platform::MacOs)
        } else if string_eq(&o, &text("windows")) {
            Ok(Platform::Windows)
        } else if string_eq(&o, &text("linux")) {
            Ok(Platform::Linux)
        } else {
            Err(concat3("Unsupported target: ", os, ". Use: macos, windows, linux"))
        }
    }
}

/// The running program can be packaged as it is: no target was named, or
/// the one named is the current OS. Otherwise a build for the target is
/// needed.
pub fn uses_current_binary(target: Option<&str>, current_os: &str) -> (b: bool)
    ensures
        b == (target is None || opt_s(target) == Some(current_os@)),
{
    match target {
        None => true,
        Some(t) => string_eq(&text(t), &text(current_os)),
    }
}

/// The name of the `.app` bundle.
pub fn app_bundle_name(display_name: &str) -> (r: String)
    ensures
        r@ == display_name@ + ".app"@,
{
    let mut r = text(display_name);
    r.append(".app");
    r
}

/// The name of the disk image.
pub fn dmg_name(display_name: &str, version: &str) -> (r: String)
    ensures
        r@ == display_name@ + "-"@ + version@ + ".dmg"@,
{
    let mut r = concat3(display_name, "-", version);
    r.append(".dmg");
    r
}

/// The name of the Windows package directory.
pub fn windows_dir_name(display_name: &str) -> (r: String)
    ensures
        r@ == display_name@ + "-win64"@,
{
    let mut r = text(display_name);
    r.append("-win64");
    r
}

/// The name of the Windows executable.
pub fn windows_exe_name(display_name: &str) -> (r: String)
    ensures
        r@ == display_name@ + ".exe"@,
{
    let mut r = text(display_name);
    r.append(".exe");
    r
}

/// The name of the Linux AppDir.
pub fn app_dir_name(display_name: &str) -> (r: String)
    ensures
        r@ == display_name@ + ".AppDir"@,
{
    let mut r = text(display_name);
    r.append(".AppDir");
    r
}

/// The name of the Linux desktop entry file.
pub fn desktop_file_name(display_name: &str) -> (r: String)
    ensures
        r@ == display_name@ + ".desktop"@,
{
    let mut r = text(display_name);
    r.append(".desktop");
    r
}

/// The macOS metadata of a package.
pub struct PlistInfo {
    pub display_name: String,
    pub bundle_id: String,
    pub version: Option<String>,
    pub build: Option<String>,
    pub copyright: Option<String>,
    pub minimum_version: Option<String>,
    pub category: Option<String>,
    pub icon_file: String,
}

/// The version, `1.0.0` by default.
pub open spec fn version_of(info: PlistInfo) -> Seq<char> {
    or_default(crate::xml::opt_text(info.version), "1.0.0"@)
}

/// The `Info.plist` of a macOS bundle.
pub open spec fn plist_text(info: PlistInfo) -> Seq<char> {
    let name = info.display_name@;
    let version = version_of(info);
    let build = or_default(crate::xml::opt_text(info.build), version);
    let copyright = or_default(crate::xml::opt_text(info.copyright), Seq::empty());
    let min_sys = or_default(crate::xml::opt_text(info.minimum_version), "11.0"@);
    let category = or_default(crate::xml::opt_text(info.category), "public.app-category.utilities"@);
    let head = "<?xml version=\"1.0\" encoding=\"UTF-8\"?>\n<!DOCTYPE plist PUBLIC \"-//Apple//DTD PLIST 1.0//EN\" \"http://www.apple.com/DTDs/PropertyList-1.0.dtd\">\n<plist version=\"1.0\">\n<dict>\n    <key>CFBundleExecutable</key>\n    <string>"@
        + name + "</string>\n    <key>CFBundleIdentifier</key>\n    <string>"@ + info.bundle_id@
        + "</string>\n    <key>CFBundleName</key>\n    <string>"@ + name
        + "</string>\n    <key>CFBundleDisplayName</key>\n    <string>"@ + name
        + "</string>\n    <key>CFBundleVersion</key>\n    <string>"@ + build
        + "</string>\n    <key>CFBundleShortVersionString</key>\n    <string>"@ + version
        + "</string>\n    <key>CFBundlePackageType</key>\n    <string>APPL</string>\n    <key>CFBundleIconFile</key>\n    <string>"@
        + info.icon_file@ + "</string>\n    <key>LSMinimumSystemVersion</key>\n    <string>"@ + min_sys
        + "</string>\n    <key>LSApplicationCategoryType</key>\n    <string>"@ + category
        + "</string>\n    <key>NSHighResolutionCapable</key>\n    <true/>\n    <key>NSSupportsAutomaticGraphicsSwitching</key>\n    <true/>"@;
    let with_copyright = if copyright.len() == 0 {
        head
    } else {
        head + "\n    <key>NSHumanReadableCopyright</key>\n    <string>"@ + copyright + "</string>"@
    };
    with_copyright + "\n</dict>\n</plist>\n"@
}

fn opt_as_str(o: &Option<String>, d: &str) -> (r: String)
    ensures
        r@ == or_default(crate::xml::opt_text(*o), d@),
{
    match o {
        Some(t) => t.clone(),
        None => text(d),
    }
}

/// The `Info.plist` of a macOS bundle: executable, identifier, names,
/// versions (the build number defaults to the version, `1.0.0` by
/// default), icon, minimum system (`11.0`), category (utilities), and the
/// copyright when there is one.
pub fn info_plist(info: &PlistInfo) -> (r: String)
    ensures
        r@ == plist_text(*info),
{
    let version = opt_as_str(&info.version, "1.0.0");
    let build = match &info.build {
        Some(b) => b.clone(),
        None => version.clone(),
    };
    let min_sys = opt_as_str(&info.minimum_version, "11.0");
    let category = opt_as_str(&info.category, "public.app-category.utilities");
    let name = info.display_name.as_str();
    let mut r = text("<?xml version=\"1.0\" encoding=\"UTF-8\"?>\n<!DOCTYPE plist PUBLIC \"-//Apple//DTD PLIST 1.0//EN\" \"http://www.apple.com/DTDs/PropertyList-1.0.dtd\">\n<plist version=\"1.0\">\n<dict>\n    <key>CFBundleExecutable</key>\n    <string>");
    r.append(name);
    r.append("</string>\n    <key>CFBundleIdentifier</key>\n    <string>");
    r.append(info.bundle_id.as_str());
    r.append("</string>\n    <key>CFBundleName</key>\n    <string>");
    r.append(name);
    r.append("</string>\n    <key>CFBundleDisplayName</key>\n    <string>");
    r.append(name);
    r.append("</string>\n    <key>CFBundleVersion</key>\n    <string>");
    r.append(build.as_str());
    r.append("</string>\n    <key>CFBundleShortVersionString</key>\n    <string>");
    r.append(version.as_str());
    r.append("</string>\n    <key>CFBundlePackageType</key>\n    <string>APPL</string>\n    <key>CFBundleIconFile</key>\n    <string>");
    r.append(info.icon_file.as_str());
    r.append("</string>\n    <key>LSMinimumSystemVersion</key>\n    <string>");
    r.append(min_sys.as_str());
    r.append("</string>\n    <key>LSApplicationCategoryType</key>\n    <string>");
    r.append(category.as_str());
    r.append("</string>\n    <key>NSHighResolutionCapable</key>\n    <true/>\n    <key>NSSupportsAutomaticGraphicsSwitching</key>\n    <true/>");
    match &info.copyright {
        Some(c) => {
            if c.as_str().unicode_len() > 0 {
                r.append("\n    <key>NSHumanReadableCopyright</key>\n    <string>");
                r.append(c.as_str());
                r.append("</string>");
            }
        },
        None => {},
    }
    r.append("\n</dict>\n</plist>\n");
    r
}

/// Categories joined and ended by `;`, or `Utility;` when there are none.
pub open spec fn categories_text(categories: Seq<Seq<char>>) -> Seq<char>
    decreases categories.len(),
{
    if categories.len() == 0 {
        "Utility;"@
    } else {
        joined_semicolons(categories) + ";"@
    }
}

/// Texts joined by `;`.
pub open spec fn joined_semicolons(parts: Seq<Seq<char>>) -> Seq<char>
    decreases parts.len(),
{
    if parts.len() == 0 {
        Seq::empty()
    } else if parts.len() == 1 {
        parts[0]
    } else {
        joined_semicolons(parts.drop_last()) + ";"@ + parts.last()
    }
}

/// The desktop entry of a Linux package.
pub open spec fn desktop_entry_text(name: Seq<char>, desktop_id: Seq<char>, categories: Seq<Seq<char>>) -> Seq<char> {
    "[Desktop Entry]\nName="@ + name + "\nExec="@ + name + "\nType=Application\nStartupWMClass="@ + desktop_id
        + "\nCategories="@ + categories_text(categories) + "\n"@
}

/// The desktop entry of a Linux package: the window class is the desktop
/// id, the display name by default.
pub fn desktop_entry(display_name: &str, desktop_id: Option<&str>, categories: &Vec<String>) -> (r: String)
    ensures
        r@ == desktop_entry_text(
            display_name@,
            or_default(opt_s(desktop_id), display_name@),
            categories@.map_values(|c: String| c@),
        ),
{
    let ghost cs = categories@.map_values(|c: String| c@);
    let id = text_or(desktop_id, display_name);
    let mut cats = String::new();
    if categories.len() == 0 {
        cats = text("Utility;");
    } else {
        let mut i: usize = 0;
        while i < categories.len()
            invariant
                1 <= categories.len(),
                i <= categories.len(),
                cs == categories@.map_values(|c: String| c@),
                i > 0 ==> cats@ == joined_semicolons(cs.subrange(0, i as int)),
                i == 0 ==> cats@ == Seq::<char>::empty(),
            decreases categories.len() - i,
        {
            assert(cs[i as int] == categories@[i as int]@);
            assert(cs.subrange(0, i + 1).drop_last() =~= cs.subrange(0, i as int));
            if i > 0 {
                cats.append(";");
            }
            cats.append(categories[i].as_str());
            proof {
                if i == 0 {
                    assert(cs.subrange(0, 1) =~= seq![cs[0]]);
                    assert(cats@ =~= cs[0]);
                }
            }
            i = i + 1;
        }
        assert(cs.subrange(0, cs.len() as int) =~= cs);
        cats.append(";");
    }
    let mut r = text("[Desktop Entry]\nName=");
    r.append(display_name);
    r.append("\nExec=");
    r.append(display_name);
    r.append("\nType=Application\nStartupWMClass=");
    r.append(id.as_str());
    r.append("\nCategories=");
    r.append(cats.as_str());
    r.append("\n");
    r
}

/// The `AppRun` script of a Linux package: it runs the binary on the
/// packaged `app.xml`.
pub fn app_run_script(display_name: &str) -> (r: String)
    ensures
        r@ == "#!/bin/sh\nHERE=$(dirname \"$(readlink -f \"$0\")\")\nexec \"$HERE/usr/bin/"@ + display_name@
            + "\" \"$HERE/usr/share/app.xml\" \"$@\"\n"@,
{
    let mut r = text("#!/bin/sh\nHERE=$(dirname \"$(readlink -f \"$0\")\")\nexec \"$HERE/usr/bin/");
    r.append(display_name);
    r.append("\" \"$HERE/usr/share/app.xml\" \"$@\"\n");
    r
}

/// A file of the application directory that goes into the package: any
/// file but one named `dist`.
pub fn is_packaged(file_name: &str) -> (b: bool)
    ensures
        b == (file_name@ != "dist"@),
{
    !string_eq(&text(file_name), &text("dist"))
}

/// `s` ends with `suffix`.
pub fn ends_with(s: &str, suffix: &str) -> (b: bool)
    ensures
        b == (suffix@.len() <= s@.len() && s@.subrange(s@.len() - suffix@.len(), s@.len() as int) == suffix@),
{
    let n = s.unicode_len();
    let m = suffix.unicode_len();
    if m > n {
        return false;
    }
    let mut i: usize = 0;
    while i < m
        invariant
            n == s@.len(),
            m == suffix@.len(),
            m <= n,
            i <= m,
            forall|j: int| 0 <= j < i ==> s@[n - m + j] == suffix@[j],
        decreases m - i,
    {
        if s.get_char(n - m + i) != suffix.get_char(i) {
            assert(s@.subrange(n - m, n as int)[i as int] != suffix@[i as int]);
            return false;
        }
        i = i + 1;
    }
    assert(s@.subrange(n - m, n as int) =~= suffix@);
    true
}

/// What is done with the icon of a macOS package.
#[derive(Clone, Copy, PartialEq, Eq, Structural, Debug)]
pub enum IconPlan {
    /// An `.icns` file: copied as it is.
    Copy,
    /// A WebP image: converted to PNG first, then to `.icns`.
    ConvertWebp,
    /// Another image: converted to `.icns`.
    Convert,
}

/// What is done with an icon file, by its name.
pub fn icon_plan(icon_source: &str) -> (p: IconPlan)
    ensures
        p == (if icon_source@.len() >= 5 && icon_source@.subrange(icon_source@.len() - 5, icon_source@.len() as int)
            == ".icns"@ {
            IconPlan::Copy
        } else if icon_source@.len() >= 5 && icon_source@.subrange(icon_source@.len() - 5, icon_source@.len() as int)
            == ".webp"@ {
            IconPlan::ConvertWebp
        } else {
            IconPlan::Convert
        }),
{
    proof {
        reveal_strlit(".icns");
        reveal_strlit(".webp");
    }
    if ends_with(icon_source, ".icns") {
        IconPlan::Copy
    } else if ends_with(icon_source, ".webp") {
        IconPlan::ConvertWebp
    } else {
        IconPlan::Convert
    }
}

/// The images of a macOS icon set: pixel size and file name.
pub fn iconset_sizes() -> (v: Vec<(u32, String)>)
    ensures
        v@.map_values(|p: (u32, String)| (p.0, p.1@)) == seq![
            (16u32, "icon_16x16.png"@),
            (32u32, "icon_16x16@2x.png"@),
            (32u32, "icon_32x32.png"@),
            (64u32, "icon_32x32@2x.png"@),
            (128u32, "icon_128x128.png"@),
            (256u32, "icon_128x128@2x.png"@),
            (256u32, "icon_256x256.png"@),
            (512u32, "icon_256x256@2x.png"@),
            (512u32, "icon_512x512.png"@),
            (1024u32, "icon_512x512@2x.png"@),
        ],
{
    let mut v: Vec<(u32, String)> = Vec::new();
    v.push((16, text("icon_16x16.png")));
    v.push((32, text("icon_16x16@2x.png")));
    v.push((32, text("icon_32x32.png")));
    v.push((64, text("icon_32x32@2x.png")));
    v.push((128, text("icon_128x128.png")));
    v.push((256, text("icon_128x128@2x.png")));
    v.push((256, text("icon_256x256.png")));
    v.push((512, text("icon_256x256@2x.png")));
    v.push((512, text("icon_512x512.png")));
    v.push((1024, text("icon_512x512@2x.png")));
    assert(v@.map_values(|p: (u32, String)| (p.0, p.1@)) =~= seq![
        (16u32, "icon_16x16.png"@),
        (32u32, "icon_16x16@2x.png"@),
        (32u32, "icon_32x32.png"@),
        (64u32, "icon_32x32@2x.png"@),
        (128u32, "icon_128x128.png"@),
        (256u32, "icon_128x128@2x.png"@),
        (256u32, "icon_256x256.png"@),
        (512u32, "icon_256x256@2x.png"@),
        (512u32, "icon_512x512.png"@),
        (1024u32, "icon_512x512@2x.png"@),
    ]);
    v
}

} // verus!
