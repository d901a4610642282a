//! Where the portable SDK, JDK and AVDs live, relative to the SDK base folder.
//!
//! Paths are text, joined as `PathBuf::join` joins them, with drive prefixes (`C:`) as the
//! only Windows prefixes known: a component that is absolute (starts with `/`, or on
//! Windows carries a drive) replaces the path; on Windows one that starts with a separator
//! keeps only the path's drive; otherwise a separator (`\` on Windows, `/` elsewhere) is
//! put between the two unless the path is empty, already ends with a separator (`/`, or
//! also `\` on Windows), or is a bare drive. UNC and verbatim prefixes (`\\server`,
//! `\\?\`) are read as plain rooted text.
use vstd::prelude::*;
use crate::text::{chars_of, push_chars, push_str, starts_with, starts_with_exec, string_of};

verus! {

/// A path separator: `/`, and on Windows also `\`.
pub open spec fn is_separator(c: char, windows: bool) -> bool {
    c == '/' || (windows && c == '\\')
}

/// The separator put between two components.
pub open spec fn main_separator(windows: bool) -> char {
    if windows {
        '\\'
    } else {
        '/'
    }
}

/// An ASCII letter.
pub open spec fn is_ascii_letter(c: char) -> bool {
    ('a' <= c && c <= 'z') || ('A' <= c && c <= 'Z')
}

/// On Windows, the path starts with a drive: a letter and `:`.
pub open spec fn has_drive(p: Seq<char>, windows: bool) -> bool {
    windows && p.len() >= 2 && is_ascii_letter(p[0]) && p[1] == ':'
}

/// `base.join(part)`.
pub open spec fn join_path(base: Seq<char>, part: Seq<char>, windows: bool) -> Seq<char> {
    if has_drive(part, windows) || (!windows && part.len() > 0 && part[0] == '/') {
        part
    } else if part.len() > 0 && is_separator(part[0], windows) {
        if has_drive(base, windows) {
            base.subrange(0, 2) + part
        } else {
            part
        }
    } else if base.len() == 0 || is_separator(base.last(), windows) || (has_drive(base, windows)
        && base.len() == 2) {
        base + part
    } else {
        base.push(main_separator(windows)) + part
    }
}

fn is_separator_exec(c: char, windows: bool) -> (r: bool)
    ensures
        r == is_separator(c, windows),
{
    c == '/' || (windows && c == '\\')
}

fn has_drive_exec(p: &Vec<char>, windows: bool) -> (r: bool)
    ensures
        r == has_drive(p@, windows),
{
    windows && p.len() >= 2 && ((p[0] >= 'a' && p[0] <= 'z') || (p[0] >= 'A' && p[0] <= 'Z'))
        && p[1] == ':'
}

/// `base.join(part)`.
pub fn join(base: &str, part: &str, windows: bool) -> (r: String)
    ensures
        r@ == join_path(base@, part@, windows),
{
    let b = chars_of(base);
    let p = chars_of(part);
    if has_drive_exec(&p, windows) || (!windows && p.len() > 0 && p[0] == '/') {
        return String::from_str(part);
    }
    if p.len() > 0 && is_separator_exec(p[0], windows) {
        if has_drive_exec(&b, windows) {
            let mut r: Vec<char> = Vec::new();
            r.push(b[0]);
            r.push(b[1]);
            push_chars(&mut r, &p);
            assert(r@ =~= b@.subrange(0, 2) + p@);
            return string_of(&r);
        }
        return String::from_str(part);
    }
    let mut r = b.clone();
    if b.len() > 0 && !is_separator_exec(b[b.len() - 1], windows) && !(has_drive_exec(&b, windows)
        && b.len() == 2) {
        r.push(if windows {
            '\\'
        } else {
            '/'
        });
    }
    push_chars(&mut r, &p);
    string_of(&r)
}

pub open spec fn spec_jdk_dir(base: Seq<char>, windows: bool) -> Seq<char> {
    join_path(base, "jdk"@, windows)
}

pub open spec fn spec_sdk_dir(base: Seq<char>, windows: bool) -> Seq<char> {
    join_path(base, "sdk"@, windows)
}

pub open spec fn spec_cmdline_dir(base: Seq<char>, windows: bool) -> Seq<char> {
    join_path(join_path(spec_sdk_dir(base, windows), "cmdline-tools"@, windows), "latest"@, windows)
}

pub open spec fn spec_emulator_dir(base: Seq<char>, windows: bool) -> Seq<char> {
    join_path(spec_sdk_dir(base, windows), "emulator"@, windows)
}

pub open spec fn spec_avd_dir(base: Seq<char>, windows: bool) -> Seq<char> {
    join_path(base, "avd"@, windows)
}

/// The portable JDK folder.
pub fn jdk_dir(sdk_base: &str, windows: bool) -> (r: String)
    ensures
        r@ == spec_jdk_dir(sdk_base@, windows),
{
    join(sdk_base, "jdk", windows)
}

/// The Android SDK root.
pub fn sdk_dir(sdk_base: &str, windows: bool) -> (r: String)
    ensures
        r@ == spec_sdk_dir(sdk_base@, windows),
{
    join(sdk_base, "sdk", windows)
}

/// The cmdline-tools installation (`sdk/cmdline-tools/latest`).
pub fn cmdline_dir(sdk_base: &str, windows: bool) -> (r: String)
    ensures
        r@ == spec_cmdline_dir(sdk_base@, windows),
{
    let s = sdk_dir(sdk_base, windows);
    let c = join(s.as_str(), "cmdline-tools", windows);
    join(c.as_str(), "latest", windows)
}

/// The emulator package folder.
pub fn emulator_dir(sdk_base: &str, windows: bool) -> (r: String)
    ensures
        r@ == spec_emulator_dir(sdk_base@, windows),
{
    let s = sdk_dir(sdk_base, windows);
    join(s.as_str(), "emulator", windows)
}

/// The AVD home.
pub fn avd_dir(sdk_base: &str, windows: bool) -> (r: String)
    ensures
        r@ == spec_avd_dir(sdk_base@, windows),
{
    join(sdk_base, "avd", windows)
}

/// The folders created at start-up, in order: base, JDK, SDK, AVD home.
pub fn required_dirs(sdk_base: &str, windows: bool) -> (r: Vec<String>)
    ensures
        r@.len() == 4,
        r@[0]@ == sdk_base@,
        r@[1]@ == spec_jdk_dir(sdk_base@, windows),
        r@[2]@ == spec_sdk_dir(sdk_base@, windows),
        r@[3]@ == spec_avd_dir(sdk_base@, windows),
{
    let mut v: Vec<String> = Vec::new();
    v.push(String::from_str(sdk_base));
    v.push(jdk_dir(sdk_base, windows));
    v.push(sdk_dir(sdk_base, windows));
    v.push(avd_dir(sdk_base, windows));
    v
}

/// The SDK base found from the executable's folder: `android-sdk` in the first folder
/// (from the executable's folder up, at most ten levels) that holds a `src-tauri` folder,
/// else next to the executable. `ancestors` lists the folders looked at, each with
/// whether it holds `src-tauri`.
pub open spec fn sdk_base_choice(
    exe_dir: Seq<char>,
    ancestors: Seq<(Seq<char>, bool)>,
    i: int,
    windows: bool,
) -> Seq<char>
    decreases ancestors.len() - i,
{
    if i < 0 || i >= ancestors.len() || i >= 10 {
        join_path(exe_dir, "android-sdk"@, windows)
    } else if ancestors[i].1 {
        join_path(ancestors[i].0, "android-sdk"@, windows)
    } else {
        sdk_base_choice(exe_dir, ancestors, i + 1, windows)
    }
}

pub open spec fn ancestor_views(v: Seq<(String, bool)>) -> Seq<(Seq<char>, bool)> {
    v.map_values(|p: (String, bool)| (p.0@, p.1))
}

/// The SDK base: the `android-sdk` folder in the user's profile where there is one, else
/// the one found from the executable's folder. `profile` is the user's profile folder, if
/// known, with whether it holds `android-sdk`.
pub open spec fn sdk_base_of(
    exe_dir: Seq<char>,
    ancestors: Seq<(Seq<char>, bool)>,
    profile: Option<(Seq<char>, bool)>,
    windows: bool,
) -> Seq<char> {
    match profile {
        Some(p) if p.1 => join_path(p.0, "android-sdk"@, windows),
        _ => sdk_base_choice(exe_dir, ancestors, 0, windows),
    }
}

pub open spec fn profile_view(profile: Option<(String, bool)>) -> Option<(Seq<char>, bool)> {
    match profile {
        Some(p) => Some((p.0@, p.1)),
        None => None,
    }
}

pub fn resolve_sdk_base(
    exe_dir: &str,
    ancestors: &Vec<(String, bool)>,
    profile: &Option<(String, bool)>,
    windows: bool,
) -> (r: String)
    ensures
        r@ == sdk_base_of(exe_dir@, ancestor_views(ancestors@), profile_view(*profile), windows),
{
    if let Some(p) = profile {
        if p.1 {
            return join(p.0.as_str(), "android-sdk", windows);
        }
    }
    let ghost av = ancestor_views(ancestors@);
    assert(sdk_base_of(exe_dir@, av, profile_view(*profile), windows) == sdk_base_choice(
        exe_dir@,
        av,
        0,
        windows,
    ));
    let mut i: usize = 0;
    while i < ancestors.len() && i < 10
        invariant
            i <= ancestors.len(),
            av == ancestor_views(ancestors@),
            sdk_base_of(exe_dir@, av, profile_view(*profile), windows) == sdk_base_choice(
                exe_dir@,
                av,
                0,
                windows,
            ),
            sdk_base_choice(exe_dir@, av, 0, windows) == sdk_base_choice(exe_dir@, av, i as int, windows),
        decreases ancestors.len() - i,
    {
        if ancestors[i].1 {
            return join(ancestors[i].0.as_str(), "android-sdk", windows);
        }
        i += 1;
    }
    join(exe_dir, "android-sdk", windows)
}

/// The first folder entry of the JDK folder whose name starts with `jdk`.
pub open spec fn is_jdk_entry(name: Seq<char>) -> bool {
    starts_with(name, "jdk"@)
}

pub fn find_jdk_entry(names: &Vec<String>) -> (r: Option<usize>)
    ensures
        r matches Some(i) ==> i < names@.len() && is_jdk_entry(names@[i as int]@) && forall|j: int|
            0 <= j < i ==> !is_jdk_entry(#[trigger] names@[j]@),
        r is None ==> forall|j: int| 0 <= j < names@.len() ==> !is_jdk_entry(#[trigger] names@[j]@),
{
    let p = chars_of("jdk");
    let mut i: usize = 0;
    while i < names.len()
        invariant
            i <= names.len(),
            p@ == "jdk"@,
            forall|j: int| 0 <= j < i ==> !is_jdk_entry(#[trigger] names@[j]@),
        decreases names.len() - i,
    {
        if starts_with_exec(&chars_of(names[i].as_str()), &p) {
            return Some(i);
        }
        i += 1;
    }
    None
}

/// The `java` executable of a JDK home (`java.exe` on Windows).
pub open spec fn java_exe_path(java_home: Seq<char>, windows: bool) -> Seq<char> {
    join_path(
        join_path(java_home, "bin"@, windows),
        if windows {
            "java.exe"@
        } else {
            "java"@
        },
        windows,
    )
}

pub fn java_exe(java_home: &str, windows: bool) -> (r: String)
    ensures
        r@ == java_exe_path(java_home@, windows),
{
    let bin = join(java_home, "bin", windows);
    join(
        bin.as_str(),
        if windows {
            "java.exe"
        } else {
            "java"
        },
        windows,
    )
}

/// The folder of an AVD inside the AVD home (`<name>.avd`).
pub open spec fn avd_folder_path(avd_home: Seq<char>, name: Seq<char>, windows: bool) -> Seq<char> {
    join_path(avd_home, name + ".avd"@, windows)
}

pub fn avd_folder(avd_home: &str, name: &str, windows: bool) -> (r: String)
    ensures
        r@ == avd_folder_path(avd_home@, name@, windows),
{
    let mut n = chars_of(name);
    push_str(&mut n, ".avd");
    let ns = string_of(&n);
    join(avd_home, ns.as_str(), windows)
}

/// An AVD's `config.ini`.
pub fn avd_config_file(avd_home: &str, name: &str, windows: bool) -> (r: String)
    ensures
        r@ == join_path(avd_folder_path(avd_home@, name@, windows), "config.ini"@, windows),
{
    let f = avd_folder(avd_home, name, windows);
    join(f.as_str(), "config.ini", windows)
}

/// An AVD's `<name>.ini` in the AVD home.
pub fn avd_ini_file(avd_home: &str, name: &str, windows: bool) -> (r: String)
    ensures
        r@ == join_path(avd_home@, name@ + ".ini"@, windows),
{
    let mut n = chars_of(name);
    push_str(&mut n, ".ini");
    let ns = string_of(&n);
    join(avd_home, ns.as_str(), windows)
}


/// The lock file and lock folder a crashed emulator leaves in an AVD's folder.
pub fn stale_lock_paths(avd_folder: &str, windows: bool) -> (r: (String, String))
    ensures
        r.0@ == join_path(avd_folder@, "multiinstance.lock"@, windows),
        r.1@ == join_path(avd_folder@, "hardware-qemu.ini.lock"@, windows),
{
    (
        join(avd_folder, "multiinstance.lock", windows),
        join(avd_folder, "hardware-qemu.ini.lock", windows),
    )
}

} // verus!
