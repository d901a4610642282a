//! Installing the portable JDK, the cmdline-tools and SDK packages: download sources,
//! tool arguments, outcomes.
use vstd::prelude::*;
use crate::avd::string_views;
use crate::number::{signed_decimal, signed_decimal_exec};
use crate::paths::{join, join_path};
use crate::text::{chars_of, join as join_text, push_chars, push_str, string_of};
use crate::types::{opt_string_view, CommandResult};

verus! {

/// Host operating systems the launcher ships for.
#[derive(Clone, Copy, PartialEq, Eq, Structural)]
pub enum HostOs {
    Windows,
    Linux,
    MacOs,
}

/// Where the portable OpenJDK 21 (Eclipse Temurin) for a host is downloaded from.
pub open spec fn jdk_download_url(os: HostOs) -> Seq<char> {
    match os {
        HostOs::Windows => "https://github.com/adoptium/temurin21-binaries/releases/download/jdk-21.0.4%2B7/OpenJDK21U-jdk_x64_windows_hotspot_21.0.4_7.zip"@,
        HostOs::Linux => "https://github.com/adoptium/temurin21-binaries/releases/download/jdk-21.0.4%2B7/OpenJDK21U-jdk_x64_linux_hotspot_21.0.4_7.tar.gz"@,
        HostOs::MacOs => "https://github.com/adoptium/temurin21-binaries/releases/download/jdk-21.0.4%2B7/OpenJDK21U-jdk_x64_mac_hotspot_21.0.4_7.tar.gz"@,
    }
}

pub fn jdk_url(os: HostOs) -> (r: &'static str)
    ensures
        r@ == jdk_download_url(os),
{
    match os {
        HostOs::Windows => "https://github.com/adoptium/temurin21-binaries/releases/download/jdk-21.0.4%2B7/OpenJDK21U-jdk_x64_windows_hotspot_21.0.4_7.zip",
        HostOs::Linux => "https://github.com/adoptium/temurin21-binaries/releases/download/jdk-21.0.4%2B7/OpenJDK21U-jdk_x64_linux_hotspot_21.0.4_7.tar.gz",
        HostOs::MacOs => "https://github.com/adoptium/temurin21-binaries/releases/download/jdk-21.0.4%2B7/OpenJDK21U-jdk_x64_mac_hotspot_21.0.4_7.tar.gz",
    }
}

/// Where Google's Android cmdline-tools for a host are downloaded from.
pub open spec fn cmdline_tools_download_url(os: HostOs) -> Seq<char> {
    match os {
        HostOs::Windows => "https://dl.google.com/android/repository/commandlinetools-win-11076708_latest.zip"@,
        HostOs::Linux => "https://dl.google.com/android/repository/commandlinetools-linux-11076708_latest.zip"@,
        HostOs::MacOs => "https://dl.google.com/android/repository/commandlinetools-mac-11076708_latest.zip"@,
    }
}

pub fn cmdline_tools_url(os: HostOs) -> (r: &'static str)
    ensures
        r@ == cmdline_tools_download_url(os),
{
    match os {
        HostOs::Windows => "https://dl.google.com/android/repository/commandlinetools-win-11076708_latest.zip",
        HostOs::Linux => "https://dl.google.com/android/repository/commandlinetools-linux-11076708_latest.zip",
        HostOs::MacOs => "https://dl.google.com/android/repository/commandlinetools-mac-11076708_latest.zip",
    }
}

/// The file name of the downloaded JDK archive: a zip on Windows, a tarball elsewhere.
pub fn jdk_archive_name(os: HostOs) -> (r: &'static str)
    ensures
        r@ == (if os == HostOs::Windows {
            "jdk.zip"@
        } else {
            "jdk.tar.gz"@
        }),
{
    if os == HostOs::Windows {
        "jdk.zip"
    } else {
        "jdk.tar.gz"
    }
}

/// The executable name of an SDK tool (`.bat` script on Windows).
pub open spec fn tool_script_name(tool: Seq<char>, windows: bool) -> Seq<char> {
    if windows {
        tool + ".bat"@
    } else {
        tool
    }
}

/// `cmdline-tools/latest/bin/<tool>` of an installation.
pub fn tool_script(cmdline_dir: &str, tool: &str, windows: bool) -> (r: String)
    ensures
        r@ == join_path(
            join_path(cmdline_dir@, "bin"@, windows),
            tool_script_name(tool@, windows),
            windows,
        ),
{
    let bin = join(cmdline_dir, "bin", windows);
    let mut name = chars_of(tool);
    if windows {
        push_str(&mut name, ".bat");
    }
    let n = string_of(&name);
    join(bin.as_str(), n.as_str(), windows)
}

/// The `--sdk_root=` argument for an SDK root.
pub open spec fn sdk_root_arg(sdk_dir: Seq<char>) -> Seq<char> {
    "--sdk_root="@ + sdk_dir
}

/// The arguments `sdkmanager` gets: the caller's, then `--sdk_root=`.
pub fn sdkmanager_args(args: &Vec<String>, sdk_dir: &str) -> (r: Vec<String>)
    ensures
        string_views(r@) == string_views(args@).push(sdk_root_arg(sdk_dir@)),
{
    let mut out: Vec<String> = Vec::new();
    let mut i: usize = 0;
    while i < args.len()
        invariant
            i <= args.len(),
            string_views(out@) == string_views(args@).take(i as int),
        decreases args.len() - i,
    {
        let ghost prev = out@;
        out.push(args[i].clone());
        assert(string_views(out@) =~= string_views(prev).push(args@[i as int]@));
        assert(string_views(args@).take(i + 1) =~= string_views(args@).take(i as int).push(
            args@[i as int]@,
        ));
        i += 1;
    }
    let mut root = chars_of("--sdk_root=");
    push_str(&mut root, sdk_dir);
    let ghost prev = out@;
    out.push(string_of(&root));
    assert(string_views(out@) =~= string_views(prev).push(root@));
    assert(string_views(args@).take(args@.len() as int) =~= string_views(args@));
    out
}

/// Each argument in single quotes.
pub open spec fn quoted_args(args: Seq<Seq<char>>) -> Seq<Seq<char>> {
    args.map_values(|a: Seq<char>| "'"@ + a + "'"@)
}

/// The PowerShell command running `sdkmanager` with its arguments (the call on Windows).
pub open spec fn sdkmanager_script_text(bat: Seq<char>, args: Seq<Seq<char>>) -> Seq<char> {
    "& '"@ + bat + "' "@ + join_text(quoted_args(args), " "@)
}

pub fn sdkmanager_script(bat: &str, args: &Vec<String>) -> (r: String)
    ensures
        r@ == sdkmanager_script_text(bat@, string_views(args@)),
{
    let mut quoted: Vec<Vec<char>> = Vec::new();
    let mut i: usize = 0;
    while i < args.len()
        invariant
            i <= args.len(),
            crate::text::views(quoted@) == quoted_args(string_views(args@)).take(i as int),
        decreases args.len() - i,
    {
        let mut q = chars_of("'");
        push_str(&mut q, args[i].as_str());
        push_str(&mut q, "'");
        let ghost prev = quoted@;
        quoted.push(q);
        assert(crate::text::views(quoted@) =~= crate::text::views(prev).push(
            "'"@ + args@[i as int]@ + "'"@,
        ));
        assert(quoted_args(string_views(args@)).take(i + 1) =~= quoted_args(
            string_views(args@),
        ).take(i as int).push("'"@ + args@[i as int]@ + "'"@));
        i += 1;
    }
    assert(quoted_args(string_views(args@)).take(args@.len() as int) =~= quoted_args(
        string_views(args@),
    ));
    let joined = crate::text::join_exec(&quoted, &chars_of(" "));
    let mut v = chars_of("& '");
    push_str(&mut v, bat);
    push_str(&mut v, "' ");
    push_chars(&mut v, &joined);
    string_of(&v)
}

/// `code` as `{:?}` prints an `Option<i32>`.
pub open spec fn exit_code_text(code: Option<i32>) -> Seq<char> {
    match code {
        Some(c) => "Some("@ + signed_decimal(c as int) + ")"@,
        None => "None"@,
    }
}

pub fn exit_code_debug(code: Option<i32>) -> (r: String)
    ensures
        r@ == exit_code_text(code),
{
    match code {
        Some(c) => {
            let mut v = chars_of("Some(");
            push_chars(&mut v, &signed_decimal_exec(c as i64));
            push_str(&mut v, ")");
            string_of(&v)
        },
        None => String::from_str("None"),
    }
}

/// What a run of `sdkmanager` gives: its kept output when it exited successfully, else
/// the error `sdkmanager exited with code <code>`.
pub fn sdkmanager_outcome(success: bool, code: Option<i32>, output: String) -> (r: Result<
    String,
    String,
>)
    ensures
        success ==> (r matches Ok(o) && o@ == output@),
        !success ==> (r matches Err(e) && e@ == "sdkmanager exited with code "@ + exit_code_text(
            code,
        )),
{
    if success {
        Ok(output)
    } else {
        let mut v = chars_of("sdkmanager exited with code ");
        push_str(&mut v, exit_code_debug(code).as_str());
        Err(string_of(&v))
    }
}

/// The error of a failed `avdmanager` run: `avdmanager exited with <code>`.
pub fn avdmanager_failure(code: Option<i32>) -> (r: String)
    ensures
        r@ == "avdmanager exited with "@ + exit_code_text(code),
{
    let mut v = chars_of("avdmanager exited with ");
    push_str(&mut v, exit_code_debug(code).as_str());
    string_of(&v)
}

/// The result of installing or uninstalling a package: success with `sdkmanager`'s
/// output, or failure with its error.
pub fn package_command_result(outcome: Result<String, String>) -> (r: CommandResult)
    ensures
        match outcome {
            Ok(o) => r.ok && r.error is None && opt_string_view(r.output) == Some(o@),
            Err(e) => !r.ok && opt_string_view(r.error) == Some(e@) && r.output is None,
        },
{
    match outcome {
        Ok(o) => CommandResult { ok: true, error: None, output: Some(o) },
        Err(e) => CommandResult { ok: false, error: Some(e), output: None },
    }
}

/// `sdkmanager` arguments accepting all licenses (the call on Linux and macOS).
pub fn license_args(sdk_dir: &str) -> (r: Vec<String>)
    ensures
        string_views(r@) == seq!["--licenses"@, sdk_root_arg(sdk_dir@)],
{
    let mut root = chars_of("--sdk_root=");
    push_str(&mut root, sdk_dir);
    let mut v: Vec<String> = Vec::new();
    v.push(String::from_str("--licenses"));
    v.push(string_of(&root));
    assert(string_views(v@) =~= seq!["--licenses"@, sdk_root_arg(sdk_dir@)]);
    v
}

/// The PowerShell command accepting all licenses (the call on Windows).
pub fn license_script(bat: &str, sdk_dir: &str) -> (r: String)
    ensures
        r@ == "& '"@ + bat@ + "' --licenses '"@ + sdk_root_arg(sdk_dir@) + "'"@,
{
    let mut v = chars_of("& '");
    push_str(&mut v, bat);
    push_str(&mut v, "' --licenses '");
    push_str(&mut v, "--sdk_root=");
    push_str(&mut v, sdk_dir);
    push_str(&mut v, "'");
    string_of(&v)
}

/// The id of an installed system image: `system-images;<api>;<tag>;<abi>`.
pub open spec fn system_image_id(api: Seq<char>, tag: Seq<char>, abi: Seq<char>) -> Seq<char> {
    "system-images;"@ + api + ";"@ + tag + ";"@ + abi
}

pub open spec fn image_ids(images: Seq<(String, String, String)>) -> Seq<Seq<char>> {
    images.map_values(|t: (String, String, String)| system_image_id(t.0@, t.1@, t.2@))
}

/// The installed packages: `emulator` and `platform-tools` when present, then each
/// installed system image (folders `system-images/<api>/<tag>/<abi>` holding a
/// `system.img`), in the order found.
pub fn installed_packages(
    emulator: bool,
    platform_tools: bool,
    images: &Vec<(String, String, String)>,
) -> (r: Vec<String>)
    ensures
        string_views(r@) == (if emulator {
            seq!["emulator"@]
        } else {
            seq![]
        }) + (if platform_tools {
            seq!["platform-tools"@]
        } else {
            seq![]
        }) + image_ids(images@),
{
    let mut v: Vec<String> = Vec::new();
    if emulator {
        v.push(String::from_str("emulator"));
    }
    if platform_tools {
        let ghost prev = v@;
        v.push(String::from_str("platform-tools"));
        assert(string_views(v@) =~= string_views(prev).push("platform-tools"@));
    }
    let ghost head = string_views(v@);
    assert(head =~= (if emulator {
        seq!["emulator"@]
    } else {
        seq![]
    }) + (if platform_tools {
        seq!["platform-tools"@]
    } else {
        seq![]
    }));
    let mut i: usize = 0;
    while i < images.len()
        invariant
            i <= images.len(),
            string_views(v@) == head + image_ids(images@).take(i as int),
        decreases images.len() - i,
    {
        let mut id = chars_of("system-images;");
        push_str(&mut id, images[i].0.as_str());
        push_str(&mut id, ";");
        push_str(&mut id, images[i].1.as_str());
        push_str(&mut id, ";");
        push_str(&mut id, images[i].2.as_str());
        let ghost prev = v@;
        v.push(string_of(&id));
        assert(string_views(v@) =~= string_views(prev).push(id@));
        assert(image_ids(images@).take(i + 1) =~= image_ids(images@).take(i as int).push(id@));
        i += 1;
    }
    assert(image_ids(images@).take(images@.len() as int) =~= image_ids(images@));
    v
}

/// `unzip` arguments extracting an archive into a folder, overwriting.
pub fn unzip_args(zip: &str, dest: &str) -> (r: Vec<String>)
    ensures
        string_views(r@) == seq!["-o"@, zip@, "-d"@, dest@],
{
    let mut v: Vec<String> = Vec::new();
    v.push(String::from_str("-o"));
    v.push(String::from_str(zip));
    v.push(String::from_str("-d"));
    v.push(String::from_str(dest));
    assert(string_views(v@) =~= seq!["-o"@, zip@, "-d"@, dest@]);
    v
}

/// The PowerShell command extracting a zip archive into a folder (Windows).
pub fn expand_archive_script(zip: &str, dest: &str) -> (r: String)
    ensures
        r@ == "Expand-Archive -LiteralPath '"@ + zip@ + "' -DestinationPath '"@ + dest@
            + "' -Force"@,
{
    let mut v = chars_of("Expand-Archive -LiteralPath '");
    push_str(&mut v, zip);
    push_str(&mut v, "' -DestinationPath '");
    push_str(&mut v, dest);
    push_str(&mut v, "' -Force");
    string_of(&v)
}

/// `tar` arguments extracting a gzip tarball into a folder.
pub fn tar_args(archive: &str, dest: &str) -> (r: Vec<String>)
    ensures
        string_views(r@) == seq!["-xzf"@, archive@, "-C"@, dest@],
{
    let mut v: Vec<String> = Vec::new();
    v.push(String::from_str("-xzf"));
    v.push(String::from_str(archive));
    v.push(String::from_str("-C"));
    v.push(String::from_str(dest));
    assert(string_views(v@) =~= seq!["-xzf"@, archive@, "-C"@, dest@]);
    v
}

} // verus!
