//! Creating and listing AVDs: performance profile, `avdmanager` arguments, AVD list entries.
use vstd::prelude::*;
use crate::number::{decimal, decimal_exec};
use crate::text::{
    chars_of, contains, contains_str, ends_with, ends_with_exec, find, find_char_from, find_exec,
    lines, push_chars, push_str, replace, replace_str, slice_of, split_lines,
    split_once, split_once_exec, starts_with, starts_with_exec, string_of, trim, trim_exec, views,
};
use crate::types::{AvdInfo, CreateAvdOptions};

verus! {

// ───────────────────────────── creation ─────────────────────────────

/// The AVD name with every space replaced by `_`.
pub open spec fn sanitized_avd_name(name: Seq<char>) -> Seq<char> {
    replace(name, " "@, "_"@)
}

pub fn sanitize_avd_name(name: &str) -> (r: String)
    ensures
        r@ == sanitized_avd_name(name@),
{
    proof {
        reveal_strlit(" ");
    }
    let v = replace_str(&chars_of(name), " ", "_");
    string_of(&v)
}

/// A Wear OS, TV or Automotive system image, which keeps the stock profile.
pub open spec fn is_special_image(image: Seq<char>) -> bool {
    contains(image, "wear"@) || contains(image, "android-tv"@) || contains(image, "google-tv"@)
        || contains(image, "android-automotive"@) || contains(image, "automotive"@)
}

pub fn is_special_system_image(image: &str) -> (r: bool)
    ensures
        r == is_special_image(image@),
{
    let v = chars_of(image);
    contains_str(&v, "wear") || contains_str(&v, "android-tv") || contains_str(&v, "google-tv")
        || contains_str(&v, "android-automotive") || contains_str(&v, "automotive")
}

/// A new AVD gets the performance profile unless its image is special or the user
/// asked for a raw launch (and its config exists, which the caller checks).
pub open spec fn applies_perf_profile(image: Seq<char>, raw_launch: Option<bool>) -> bool {
    !is_special_image(image) && !(raw_launch == Some(true))
}

pub fn should_apply_perf_profile(image: &str, raw_launch: Option<bool>) -> (r: bool)
    ensures
        r == applies_perf_profile(image@, raw_launch),
{
    !is_special_system_image(image) && !raw_launch.unwrap_or(false)
}

/// The text of `hw.lcd.width` and `hw.lcd.height` for a resolution `WxH` (1280x720
/// when it has no `x`).
pub open spec fn screen_dims(res: Seq<char>) -> (Seq<char>, Seq<char>) {
    match split_once(res, 'x') {
        Some(p) => p,
        None => ("1280"@, "720"@),
    }
}

/// The performance profile written into a new AVD's config, key and value.
pub open spec fn perf_profile(
    cores: u32,
    ram: u32,
    gpu_mode: Seq<char>,
    resolution: Seq<char>,
    dpi: u32,
    storage: u32,
) -> Seq<(Seq<char>, Seq<char>)> {
    let (w, h) = screen_dims(resolution);
    let heap = if ram >= 8192 {
        "1024"@
    } else {
        "512"@
    };
    seq![
        ("hw.cpu.ncore"@, decimal(cores as nat)),
        ("hw.ramSize"@, decimal(ram as nat)),
        ("hw.gpu.mode"@, gpu_mode),
        ("hw.gpu.enabled"@, "yes"@),
        ("hw.audioInput"@, "yes"@),
        ("hw.keyboard"@, "yes"@),
        ("hw.mainKeys"@, "no"@),
        ("hw.lcd.width"@, w),
        ("hw.lcd.height"@, h),
        ("hw.lcd.density"@, decimal(dpi as nat)),
        ("hw.sdCard"@, "no"@),
        ("disk.dataPartition.size"@, decimal(storage as nat) + "M"@),
        ("hw.accelerometer"@, "yes"@),
        ("hw.gps"@, "yes"@),
        ("hw.sensors.orientation"@, "yes"@),
        ("fastboot.forceColdBoot"@, "no"@),
        ("fastboot.forceChosenSnapshotBoot"@, "no"@),
        ("fastboot.forceFastBoot"@, "yes"@),
        ("vm.heapSize"@, heap),
        ("disk.cachePartition"@, "yes"@),
        ("disk.cachePartition.size"@, "800M"@),
        ("hw.camera.back"@, "virtualscene"@),
        ("hw.camera.front"@, "emulated"@),
    ]
}

pub open spec fn pair_views(v: Seq<(String, String)>) -> Seq<(Seq<char>, Seq<char>)> {
    v.map_values(|p: (String, String)| (p.0@, p.1@))
}

fn pair(k: &str, v: &str) -> (r: (String, String))
    ensures
        r.0@ == k@,
        r.1@ == v@,
{
    (String::from_str(k), String::from_str(v))
}

fn pair_chars(k: &str, v: &Vec<char>) -> (r: (String, String))
    ensures
        r.0@ == k@,
        r.1@ == v@,
{
    (String::from_str(k), string_of(v))
}

/// The performance profile for a new AVD (`key`, `value` pairs, in the order written).
pub fn build_perf_config(opts: &CreateAvdOptions) -> (r: Vec<(String, String)>)
    ensures
        pair_views(r@) == perf_profile(
            opts.cores,
            opts.ram,
            opts.gpu_mode@,
            opts.screen_resolution@,
            opts.dpi,
            opts.storage,
        ),
{
    let res = chars_of(opts.screen_resolution.as_str());
    let (w, h) = match split_once_exec(&res, 'x') {
        Some(p) => p,
        None => (chars_of("1280"), chars_of("720")),
    };
    let heap = if opts.ram >= 8192 {
        "1024"
    } else {
        "512"
    };
    let mut storage = decimal_exec(opts.storage as u64);
    push_str(&mut storage, "M");
    let mut v: Vec<(String, String)> = Vec::new();
    v.push(pair_chars("hw.cpu.ncore", &decimal_exec(opts.cores as u64)));
    v.push(pair_chars("hw.ramSize", &decimal_exec(opts.ram as u64)));
    v.push(pair_chars("hw.gpu.mode", &chars_of(opts.gpu_mode.as_str())));
    v.push(pair("hw.gpu.enabled", "yes"));
    v.push(pair("hw.audioInput", "yes"));
    v.push(pair("hw.keyboard", "yes"));
    v.push(pair("hw.mainKeys", "no"));
    v.push(pair_chars("hw.lcd.width", &w));
    v.push(pair_chars("hw.lcd.height", &h));
    v.push(pair_chars("hw.lcd.density", &decimal_exec(opts.dpi as u64)));
    v.push(pair("hw.sdCard", "no"));
    v.push(pair_chars("disk.dataPartition.size", &storage));
    v.push(pair("hw.accelerometer", "yes"));
    v.push(pair("hw.gps", "yes"));
    v.push(pair("hw.sensors.orientation", "yes"));
    v.push(pair("fastboot.forceColdBoot", "no"));
    v.push(pair("fastboot.forceChosenSnapshotBoot", "no"));
    v.push(pair("fastboot.forceFastBoot", "yes"));
    v.push(pair("vm.heapSize", heap));
    v.push(pair("disk.cachePartition", "yes"));
    v.push(pair("disk.cachePartition.size", "800M"));
    v.push(pair("hw.camera.back", "virtualscene"));
    v.push(pair("hw.camera.front", "emulated"));
    assert(pair_views(v@) =~= perf_profile(
        opts.cores,
        opts.ram,
        opts.gpu_mode@,
        opts.screen_resolution@,
        opts.dpi,
        opts.storage,
    ));
    v
}

/// One setting written into a config: the first `key=` (anywhere in the text) has the
/// rest of its line replaced by `value`; with none, `\nkey=value` is appended.
pub open spec fn apply_setting(content: Seq<char>, key: Seq<char>, value: Seq<char>) -> Seq<char> {
    let pat = key + "="@;
    match find(content, pat) {
        Some(start) => {
            let end = match find_char_from(content, '\n', start) {
                Some(e) => e,
                None => content.len() as int,
            };
            content.subrange(0, start) + pat + value + content.subrange(end, content.len() as int)
        },
        None => content + "\n"@ + pat + value,
    }
}

/// The settings written into a config one after the other.
pub open spec fn apply_settings(content: Seq<char>, settings: Seq<(Seq<char>, Seq<char>)>) -> Seq<
    char,
>
    decreases settings.len(),
{
    if settings.len() == 0 {
        content
    } else {
        let last = settings.last();
        apply_setting(apply_settings(content, settings.drop_last()), last.0, last.1)
    }
}

fn find_char_from_exec(s: &Vec<char>, c: char, start: usize) -> (r: usize)
    requires
        start <= s.len(),
    ensures
        r == (match find_char_from(s@, c, start as int) {
            Some(e) => e,
            None => s@.len() as int,
        }),
{
    let mut i = start;
    while i < s.len()
        invariant
            start <= i <= s.len(),
            find_char_from(s@, c, start as int) == find_char_from(s@, c, i as int),
        decreases s.len() - i,
    {
        if s[i] == c {
            return i;
        }
        i += 1;
    }
    s.len()
}

fn apply_setting_exec(content: &Vec<char>, key: &String, value: &String) -> (r: Vec<char>)
    ensures
        r@ == apply_setting(content@, key@, value@),
{
    let mut pat = chars_of(key.as_str());
    push_str(&mut pat, "=");
    let vv = chars_of(value.as_str());
    match find_exec(content, &pat) {
        Some(start) => {
            proof {
                crate::text::lemma_find_from_bounds(content@, pat@, 0);
            }
            let end = find_char_from_exec(content, '\n', start);
            proof {
                crate::text::lemma_find_char_from_bounds(content@, '\n', start as int);
            }
            let mut r = slice_of(content, 0, start);
            push_chars(&mut r, &pat);
            push_chars(&mut r, &vv);
            let tail = slice_of(content, end, content.len());
            push_chars(&mut r, &tail);
            r
        },
        None => {
            let mut r = content.clone();
            push_str(&mut r, "\n");
            push_chars(&mut r, &pat);
            push_chars(&mut r, &vv);
            r
        },
    }
}

/// The config of a new AVD with its performance profile written in.
pub fn apply_perf_settings(content: &str, settings: &Vec<(String, String)>) -> (r: String)
    ensures
        r@ == apply_settings(content@, pair_views(settings@)),
{
    let mut c = chars_of(content);
    let ghost sv = pair_views(settings@);
    let mut i: usize = 0;
    while i < settings.len()
        invariant
            i <= settings.len(),
            sv == pair_views(settings@),
            c@ == apply_settings(content@, sv.take(i as int)),
        decreases settings.len() - i,
    {
        assert(sv.take(i + 1).drop_last() =~= sv.take(i as int));
        let (k, v) = (&settings[i].0, &settings[i].1);
        c = apply_setting_exec(&c, k, v);
        i += 1;
    }
    assert(sv.take(sv.len() as int) =~= sv);
    string_of(&c)
}

/// Arguments of `avdmanager` creating an AVD (the call on Linux and macOS).
pub open spec fn create_avd_args(name: Seq<char>, image: Seq<char>) -> Seq<Seq<char>> {
    seq!["create"@, "avd"@, "--name"@, name, "--package"@, image, "--force"@]
}

pub open spec fn string_views(v: Seq<String>) -> Seq<Seq<char>> {
    v.map_values(|s: String| s@)
}

pub fn avdmanager_create_args(name: &str, image: &str) -> (r: Vec<String>)
    ensures
        string_views(r@) == create_avd_args(name@, image@),
{
    let mut v: Vec<String> = Vec::new();
    v.push(String::from_str("create"));
    v.push(String::from_str("avd"));
    v.push(String::from_str("--name"));
    v.push(String::from_str(name));
    v.push(String::from_str("--package"));
    v.push(String::from_str(image));
    v.push(String::from_str("--force"));
    assert(string_views(v@) =~= create_avd_args(name@, image@));
    v
}

/// The PowerShell command creating an AVD (the call on Windows).
pub open spec fn create_avd_script(bat: Seq<char>, name: Seq<char>, image: Seq<char>) -> Seq<char> {
    "echo no | & '"@ + bat + "' create avd --name '"@ + name + "' --package '"@ + image
        + "' --force"@
}

pub fn avdmanager_create_script(bat: &str, name: &str, image: &str) -> (r: String)
    ensures
        r@ == create_avd_script(bat@, name@, image@),
{
    let mut v = chars_of("echo no | & '");
    push_str(&mut v, bat);
    push_str(&mut v, "' create avd --name '");
    push_str(&mut v, name);
    push_str(&mut v, "' --package '");
    push_str(&mut v, image);
    push_str(&mut v, "' --force");
    string_of(&v)
}

/// Arguments of `avdmanager` deleting an AVD (the call on Linux and macOS).
pub open spec fn delete_avd_args(name: Seq<char>) -> Seq<Seq<char>> {
    seq!["delete"@, "avd"@, "--name"@, name]
}

pub fn avdmanager_delete_args(name: &str) -> (r: Vec<String>)
    ensures
        string_views(r@) == delete_avd_args(name@),
{
    let mut v: Vec<String> = Vec::new();
    v.push(String::from_str("delete"));
    v.push(String::from_str("avd"));
    v.push(String::from_str("--name"));
    v.push(String::from_str(name));
    assert(string_views(v@) =~= delete_avd_args(name@));
    v
}

/// The PowerShell command deleting an AVD (the call on Windows).
pub open spec fn delete_avd_script(bat: Seq<char>, name: Seq<char>) -> Seq<char> {
    "& '"@ + bat + "' delete avd --name '"@ + name + "'"@
}

pub fn avdmanager_delete_script(bat: &str, name: &str) -> (r: String)
    ensures
        r@ == delete_avd_script(bat@, name@),
{
    let mut v = chars_of("& '");
    push_str(&mut v, bat);
    push_str(&mut v, "' delete avd --name '");
    push_str(&mut v, name);
    push_str(&mut v, "'");
    string_of(&v)
}

// ───────────────────────────── listing ─────────────────────────────

/// A file of the AVD home that describes an AVD: `*.ini`, not a hardware profile,
/// not the emulator's update stamp.
pub open spec fn is_avd_ini(fname: Seq<char>) -> bool {
    ends_with(fname, ".ini"@) && !contains(fname, "hardware"@) && fname != "emu-update-last-check.ini"@
}

pub fn is_avd_ini_file(fname: &str) -> (r: bool)
    ensures
        r == is_avd_ini(fname@),
{
    let v = chars_of(fname);
    let stamp = chars_of("emu-update-last-check.ini");
    let same = v.len() == stamp.len() && starts_with_exec(&v, &stamp);
    proof {
        assert(v@.subrange(0, v@.len() as int) =~= v@);
        if v@ == stamp@ {
            assert(starts_with(v@, stamp@));
        }
    }
    ends_with_exec(&v, &chars_of(".ini")) && !contains_str(&v, "hardware") && !same
}

/// `s` with every trailing copy of `p` removed (`str::trim_end_matches`).
pub open spec fn trim_end_matches(s: Seq<char>, p: Seq<char>) -> Seq<char>
    decreases s.len(),
{
    if p.len() > 0 && ends_with(s, p) {
        trim_end_matches(s.subrange(0, s.len() - p.len()), p)
    } else {
        s
    }
}

/// The AVD name of an `.ini` file name.
pub fn avd_name_from_ini(fname: &str) -> (r: String)
    ensures
        r@ == trim_end_matches(fname@, ".ini"@),
{
    let mut v = chars_of(fname);
    let p = chars_of(".ini");
    proof {
        reveal_strlit(".ini");
    }
    while ends_with_exec(&v, &p)
        invariant
            p@ == ".ini"@,
            p@.len() == 4,
            trim_end_matches(fname@, ".ini"@) == trim_end_matches(v@, ".ini"@),
        decreases v@.len(),
    {
        v = slice_of(&v, 0, v.len() - p.len());
    }
    string_of(&v)
}

/// `key`'s value in a config: the rest of the first line that starts with `key=`,
/// trimmed; empty when no line does.
pub open spec fn value_from(ls: Seq<Seq<char>>, prefix: Seq<char>, i: int) -> Seq<char>
    decreases ls.len() - i,
{
    if i < 0 || i >= ls.len() {
        seq![]
    } else if starts_with(ls[i], prefix) {
        trim(ls[i].subrange(prefix.len() as int, ls[i].len() as int))
    } else {
        value_from(ls, prefix, i + 1)
    }
}

pub open spec fn config_value(content: Seq<char>, key: Seq<char>) -> Seq<char> {
    value_from(lines(content), key + "="@, 0)
}

fn config_value_of_lines(ls: &Vec<Vec<char>>, key: &str) -> (r: String)
    ensures
        r@ == value_from(views(ls@), key@ + "="@, 0),
{
    let mut pat = chars_of(key);
    push_str(&mut pat, "=");
    let ghost sl = views(ls@);
    let mut i: usize = 0;
    while i < ls.len()
        invariant
            i <= ls.len(),
            sl == views(ls@),
            pat@ == key@ + "="@,
            value_from(sl, pat@, 0) == value_from(sl, pat@, i as int),
        decreases ls.len() - i,
    {
        assert(sl[i as int] == ls@[i as int]@);
        if starts_with_exec(&ls[i], &pat) {
            let rest = slice_of(&ls[i], pat.len(), ls[i].len());
            let t = trim_exec(&rest);
            return string_of(&t);
        }
        i += 1;
    }
    String::new()
}

/// `key`'s value in a config text.
pub fn config_value_of(content: &str, key: &str) -> (r: String)
    ensures
        r@ == config_value(content@, key@),
{
    let ls = split_lines(&chars_of(content));
    config_value_of_lines(&ls, key)
}

/// The list entry of an AVD, from its `.ini` text, its `config.ini` text and whether it
/// runs.
pub fn avd_info(name: String, ini_content: &str, config_content: &str, running: bool) -> (r:
    AvdInfo)
    ensures
        r.name@ == name@,
        r.path@ == config_value(ini_content@, "path"@),
        r.target@ == config_value(config_content@, "tag.display"@),
        r.api@ == config_value(config_content@, "image.sysdir.1"@),
        r.ram@ == config_value(config_content@, "hw.ramSize"@),
        r.cores@ == config_value(config_content@, "hw.cpu.ncore"@),
        r.gpu@ == config_value(config_content@, "hw.gpu.mode"@),
        r.running == running,
{
    let ini = split_lines(&chars_of(ini_content));
    let cfg = split_lines(&chars_of(config_content));
    AvdInfo {
        name,
        path: config_value_of_lines(&ini, "path"),
        target: config_value_of_lines(&cfg, "tag.display"),
        api: config_value_of_lines(&cfg, "image.sysdir.1"),
        ram: config_value_of_lines(&cfg, "hw.ramSize"),
        cores: config_value_of_lines(&cfg, "hw.cpu.ncore"),
        gpu: config_value_of_lines(&cfg, "hw.gpu.mode"),
        running,
    }
}

} // verus!
