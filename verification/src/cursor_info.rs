//! Cursor's version, read from the files of its installation, and where those files are looked
//! for.
use vstd::prelude::*;
use crate::json::{Json, JsonValue, opt_model, opt_str_view};
use crate::text::{owned, concat, concat3, chars_of, string_from_chars, find_chars_from, find_from, spec_find};

verus! {

pub open spec fn version_key() -> Seq<char> {
    "<key>CFBundleShortVersionString</key>"@
}

/// The version in an `Info.plist`: the text of the first `<string>` element after the
/// `CFBundleShortVersionString` key.
pub open spec fn spec_plist_version(content: Seq<char>) -> Option<Seq<char>> {
    match spec_find(content, version_key()) {
        None => None,
        Some(k) => match find_from(content, "<string>"@, k) {
            None => None,
            Some(p) => match find_from(content, "</string>"@, p + 8) {
                None => None,
                Some(e) => Some(content.subrange(p + 8, e)),
            },
        },
    }
}

pub fn version_from_info_plist(content: &str) -> (r: Option<String>)
    ensures
        opt_str_view(r) == spec_plist_version(content@),
{
    proof {
        reveal_strlit("<string>");
    }
    let v = chars_of(content);
    let key = chars_of("<key>CFBundleShortVersionString</key>");
    let open = chars_of("<string>");
    let close = chars_of("</string>");
    match find_chars_from(&v, &key, 0) {
        None => None,
        Some(k) => match find_chars_from(&v, &open, k) {
            None => None,
            Some(p) => {
                assert(open@.len() == 8);
                match find_chars_from(&v, &close, p + 8) {
                    None => None,
                    Some(e) => Some(string_from_chars(&v, p + 8, e)),
                }
            },
        },
    }
}

/// The "version" of a parsed `package.json`; `Err("JSON 中没有找到 version 字段")` when it
/// has no such string.
pub fn version_from_package_json(package: &JsonValue) -> (r: Result<String, String>)
    ensures
        match package.model().get_str("version"@) {
            Some(v) => r matches Ok(s) && s@ == v,
            None => r matches Err(e) && e@ == "JSON 中没有找到 version 字段"@,
        },
{
    match package.get_str("version") {
        Some(v) => Ok(v),
        None => Err(owned("JSON 中没有找到 version 字段")),
    }
}

/// The error when a custom Cursor directory yields no version.
pub fn custom_path_version_error(cursor_path: &str) -> (r: String)
    ensures
        r@ == "无法从自定义路径 "@ + cursor_path@ + " 读取版本"@,
{
    concat3("无法从自定义路径 ", cursor_path, " 读取版本")
}

/// Where a Linux installation keeps `package.json`, in the order they are tried.
pub fn linux_version_candidates(home: &str) -> (r: Vec<String>)
    ensures
        r@.map_values(|s: String| s@) == seq![
            home@ + "/.local/share/cursor/resources/app/package.json"@,
            "/opt/Cursor/resources/app/package.json"@,
            "/usr/share/cursor/resources/app/package.json"@,
        ],
{
    let mut out: Vec<String> = Vec::new();
    out.push(concat(home, "/.local/share/cursor/resources/app/package.json"));
    out.push(owned("/opt/Cursor/resources/app/package.json"));
    out.push(owned("/usr/share/cursor/resources/app/package.json"));
    assert(out@.map_values(|s: String| s@) =~= seq![
        home@ + "/.local/share/cursor/resources/app/package.json"@,
        "/opt/Cursor/resources/app/package.json"@,
        "/usr/share/cursor/resources/app/package.json"@,
    ]);
    out
}

/// The directories under a drive root where Cursor is looked for on Windows.
pub open spec fn drive_dirs() -> Seq<Seq<char>> {
    seq![
        "cursor"@,
        "Cursor"@,
        "Program Files\\Cursor"@,
        "Program Files (x86)\\Cursor"@,
        "Software\\Cursor"@,
        "Apps\\Cursor"@,
        "Programs\\Cursor"@,
    ]
}

/// The drives searched on Windows.
pub open spec fn drives() -> Seq<Seq<char>> {
    seq!["C"@, "D"@, "E"@, "F"@, "G"@]
}

pub open spec fn package_suffix() -> Seq<char> {
    "\\resources\\app\\package.json"@
}

/// The candidates on drive `d`, one per directory of `drive_dirs`.
pub open spec fn drive_candidates(d: Seq<char>) -> Seq<Seq<char>> {
    drive_dirs().map_values(|dir: Seq<char>| d + ":\\"@ + dir + package_suffix())
}

/// The candidates of the first `n` drives.
pub open spec fn all_drive_candidates(n: int) -> Seq<Seq<char>>
    decreases n,
{
    if n <= 0 {
        Seq::empty()
    } else {
        all_drive_candidates(n - 1) + drive_candidates(drives()[n - 1])
    }
}

/// Where a Windows installation keeps `package.json`, in the order they are tried: under
/// `%LOCALAPPDATA%`, under Program Files, then under common directories of drives C to G.
pub open spec fn spec_windows_candidates(local_app_data: Seq<char>) -> Seq<Seq<char>> {
    seq![
        local_app_data + "\\Programs\\Cursor"@ + package_suffix(),
        local_app_data + "\\Programs\\cursor"@ + package_suffix(),
        local_app_data + "\\Cursor"@ + package_suffix(),
        "C:\\Program Files\\Cursor"@ + package_suffix(),
        "C:\\Program Files (x86)\\Cursor"@ + package_suffix(),
    ] + all_drive_candidates(5)
}

fn drive_dir(i: usize) -> (r: String)
    requires
        i < 7,
    ensures
        r@ == drive_dirs()[i as int],
{
    if i == 0 {
        owned("cursor")
    } else if i == 1 {
        owned("Cursor")
    } else if i == 2 {
        owned("Program Files\\Cursor")
    } else if i == 3 {
        owned("Program Files (x86)\\Cursor")
    } else if i == 4 {
        owned("Software\\Cursor")
    } else if i == 5 {
        owned("Apps\\Cursor")
    } else {
        owned("Programs\\Cursor")
    }
}

fn drive_letter(i: usize) -> (r: String)
    requires
        i < 5,
    ensures
        r@ == drives()[i as int],
{
    if i == 0 {
        owned("C")
    } else if i == 1 {
        owned("D")
    } else if i == 2 {
        owned("E")
    } else if i == 3 {
        owned("F")
    } else {
        owned("G")
    }
}

fn candidate(prefix: &str, dir: &str) -> (r: String)
    ensures
        r@ == prefix@ + dir@ + package_suffix(),
{
    concat3(prefix, dir, "\\resources\\app\\package.json")
}

pub fn windows_version_candidates(local_app_data: &str) -> (r: Vec<String>)
    ensures
        r@.map_values(|s: String| s@) == spec_windows_candidates(local_app_data@),
{
    let mut out: Vec<String> = Vec::new();
    out.push(candidate(local_app_data, "\\Programs\\Cursor"));
    out.push(candidate(local_app_data, "\\Programs\\cursor"));
    out.push(candidate(local_app_data, "\\Cursor"));
    out.push(candidate("C:\\Program Files\\Cursor", ""));
    out.push(candidate("C:\\Program Files (x86)\\Cursor", ""));
    proof {
        reveal_strlit("");
        assert(""@ =~= Seq::<char>::empty());
        assert("C:\\Program Files\\Cursor"@ + ""@ =~= "C:\\Program Files\\Cursor"@);
        assert("C:\\Program Files (x86)\\Cursor"@ + ""@ =~= "C:\\Program Files (x86)\\Cursor"@);
    }
    let ghost head = seq![
        local_app_data@ + "\\Programs\\Cursor"@ + package_suffix(),
        local_app_data@ + "\\Programs\\cursor"@ + package_suffix(),
        local_app_data@ + "\\Cursor"@ + package_suffix(),
        "C:\\Program Files\\Cursor"@ + package_suffix(),
        "C:\\Program Files (x86)\\Cursor"@ + package_suffix(),
    ];
    assert(out@.map_values(|s: String| s@) =~= head);
    let mut d: usize = 0;
    while d < 5
        invariant
            d <= 5,
            out@.map_values(|s: String| s@) == head + all_drive_candidates(d as int),
        decreases 5 - d,
    {
        let letter = drive_letter(d);
        let root = concat(letter.as_str(), ":\\");
        let ghost before = out@.map_values(|s: String| s@);
        let mut j: usize = 0;
        while j < 7
            invariant
                j <= 7,
                d < 5,
                root@ == drives()[d as int] + ":\\"@,
                out@.map_values(|s: String| s@) == before + drive_candidates(drives()[d as int]).take(j as int),
            decreases 7 - j,
        {
            let dir = drive_dir(j);
            let c = candidate(root.as_str(), dir.as_str());
            let ghost prev = out@;
            let ghost cv = c@;
            out.push(c);
            assert(out@.map_values(|s: String| s@) =~= prev.map_values(|s: String| s@).push(cv));
            assert(drive_candidates(drives()[d as int]).take(j as int + 1) =~= drive_candidates(drives()[d as int]).take(
                j as int,
            ).push(drive_candidates(drives()[d as int])[j as int]));
            assert(drive_candidates(drives()[d as int])[j as int] == drives()[d as int] + ":\\"@ + drive_dirs()[j as int]
                + package_suffix());
            assert(out@.map_values(|s: String| s@) =~= before + drive_candidates(drives()[d as int]).take(j as int + 1));
            j += 1;
        }
        assert(drive_candidates(drives()[d as int]).take(7) =~= drive_candidates(drives()[d as int]));
        assert(head + all_drive_candidates(d as int + 1) =~= head + all_drive_candidates(d as int) + drive_candidates(
            drives()[d as int],
        ));
        d += 1;
    }
    out
}

} // verus!
