//! Launching an AVD: emulator arguments, `.ini` path repair, log de-duplication, exit
//! notices, guest app optimisation.
use vstd::prelude::*;
use crate::avd::string_views;
use crate::config::DeviceKind;
use crate::text::{
    chars_of, eq_str, join, join_exec, lines, push_chars, push_str, slice_of, split_lines,
    starts_with, starts_with_str, string_of, trim, trim_exec, trim_start_matches,
    trim_start_matches_exec, views,
};
use crate::number::{decimal, decimal_exec};
use crate::registry::RunningEmulators;
use crate::types::{opt_string_view, CommandResult};

verus! {

/// The launch switches the user can set.
pub struct LaunchOptions {
    pub gpu_mode: Option<String>,
    pub accel: Option<String>,
    pub quick_boot: Option<bool>,
    pub boot_anim: Option<bool>,
    pub no_camera: Option<bool>,
    pub no_gps: Option<bool>,
    pub no_bluetooth: Option<bool>,
    pub read_only: Option<bool>,
    pub wipe_data: Option<bool>,
    pub speed_mode: Option<bool>,
    pub raw_launch: Option<bool>,
}

/// A launch whose emulator process started: the AVD is recorded as running under the
/// process id, and the launch answers success with the process id as text.
pub fn launch_started(running: &mut RunningEmulators, name: &str, pid: u32) -> (r: CommandResult)
    requires
        old(running).wf(),
    ensures
        final(running).wf(),
        final(running)@ == old(running)@.insert(name@, pid),
        r.ok,
        r.error is None,
        opt_string_view(r.output) == Some(decimal(pid as nat)),
{
    running.mark_running(name, pid);
    let text = decimal_exec(pid as u64);
    CommandResult { ok: true, error: None, output: Some(string_of(&text)) }
}

/// An AVD's emulator exited: the AVD is no longer recorded as running, and the exit is
/// reported for that AVD with code 0.
pub fn emulator_exited(running: &mut RunningEmulators, name: &str) -> (r: (String, i32))
    requires
        old(running).wf(),
    ensures
        final(running).wf(),
        final(running)@ == old(running)@.remove(name@),
        r.0@ == name@,
        r.1 == 0,
{
    running.mark_stopped(name);
    (String::from_str(name), 0)
}

/// A launch is raw (stock emulator defaults, no tuning) when asked for.
pub open spec fn is_raw_launch(raw_launch: Option<bool>) -> bool {
    raw_launch == Some(true)
}

pub fn raw_launch_decision(raw_launch: Option<bool>) -> (r: bool)
    ensures
        r == is_raw_launch(raw_launch),
{
    raw_launch.unwrap_or(false)
}

/// The GPU mode passed to the emulator: `auto` by default; `angle_indirect` becomes
/// `host`, `swiftshader_indirect` becomes `software`; `host` and `software` stay;
/// anything else becomes `auto`.
pub open spec fn normalized_gpu(gpu: Option<Seq<char>>) -> Seq<char> {
    let g = match gpu {
        Some(g) => g,
        None => "auto"@,
    };
    if g == "angle_indirect"@ {
        "host"@
    } else if g == "swiftshader_indirect"@ {
        "software"@
    } else if g != "host"@ && g != "software"@ {
        "auto"@
    } else {
        g
    }
}

pub fn normalize_gpu_mode(gpu: &Option<String>) -> (r: String)
    ensures
        r@ == normalized_gpu(opt_string_view(*gpu)),
{
    let g = match gpu {
        Some(g) => chars_of(g.as_str()),
        None => chars_of("auto"),
    };
    if eq_str(&g, "angle_indirect") {
        String::from_str("host")
    } else if eq_str(&g, "swiftshader_indirect") {
        String::from_str("software")
    } else if !eq_str(&g, "host") && !eq_str(&g, "software") {
        String::from_str("auto")
    } else {
        string_of(&g)
    }
}

/// The accelerator passed to the emulator: `whpx` by default; `whpx`, `aehd` and
/// `haxm` become `on`, and so does `kvm` off Windows; anything else stays.
pub open spec fn normalized_accel(accel: Option<Seq<char>>, windows: bool) -> Seq<char> {
    let a = match accel {
        Some(a) => a,
        None => "whpx"@,
    };
    if a == "whpx"@ || a == "aehd"@ || a == "haxm"@ {
        "on"@
    } else if !windows && a == "kvm"@ {
        "on"@
    } else {
        a
    }
}

pub fn normalize_accel(accel: &Option<String>, windows: bool) -> (r: String)
    ensures
        r@ == normalized_accel(opt_string_view(*accel), windows),
{
    let a = match accel {
        Some(a) => chars_of(a.as_str()),
        None => chars_of("whpx"),
    };
    if eq_str(&a, "whpx") || eq_str(&a, "aehd") || eq_str(&a, "haxm") {
        String::from_str("on")
    } else if !windows && eq_str(&a, "kvm") {
        String::from_str("on")
    } else {
        string_of(&a)
    }
}

/// Dalvik heap size and growth limit for the guest, by device kind and RAM (MB).
pub open spec fn guest_heap(kind: DeviceKind, ram: nat) -> (Seq<char>, Seq<char>) {
    if kind.wear {
        ("128m"@, "64m"@)
    } else if kind.tv {
        ("256m"@, "128m"@)
    } else if kind.automotive {
        ("512m"@, "256m"@)
    } else if ram >= 8192 {
        ("1024m"@, "512m"@)
    } else {
        ("512m"@, "256m"@)
    }
}

pub fn guest_heap_props(kind: &DeviceKind, ram: u64) -> (r: (&'static str, &'static str))
    ensures
        (r.0@, r.1@) == guest_heap(*kind, ram as nat),
{
    if kind.wear {
        ("128m", "64m")
    } else if kind.tv {
        ("256m", "128m")
    } else if kind.automotive {
        ("512m", "256m")
    } else if ram >= 8192 {
        ("1024m", "512m")
    } else {
        ("512m", "256m")
    }
}

pub open spec fn flag_if(cond: bool, flags: Seq<Seq<char>>) -> Seq<Seq<char>> {
    if cond {
        flags
    } else {
        seq![]
    }
}

/// The emulator's arguments for a tuned launch.
pub open spec fn tuned_args(
    name: Seq<char>,
    opts: LaunchOptions,
    kind: DeviceKind,
    ram: nat,
    windows: bool,
) -> Seq<Seq<char>> {
    let (heap, growth) = guest_heap(kind, ram);
    seq![
        "-avd"@,
        name,
        "-gpu"@,
        normalized_gpu(opt_string_view(opts.gpu_mode)),
        "-accel"@,
        normalized_accel(opt_string_view(opts.accel), windows),
        "-feature"@,
        "Vulkan,GLESDynamicVersion"@,
        "-logcat"@,
        "*:S"@,
        "-no-metrics"@,
        "-prop"@,
        "qemu.dalvik.vm.heapsize="@ + heap,
        "-prop"@,
        "qemu.dalvik.vm.heapgrowthlimit="@ + growth,
        "-prop"@,
        "qemu.net.tcp.buffersize.default=4096,87380,110208,4096,16384,110208"@,
        "-prop"@,
        "qemu.net.tcp.buffersize.wifi=262144,524288,1048576,262144,524288,1048576"@,
        "-dns-server"@,
        "1.1.1.1"@,
    ] + launch_flags(opts, windows)
}

/// The optional switches of a tuned launch, after the fixed ones.
pub open spec fn launch_flags(opts: LaunchOptions, windows: bool) -> Seq<Seq<char>> {
    flag_if(windows, seq!["-audio"@, "wasapi"@]) + flag_if(
        opts.quick_boot == Some(false),
        seq!["-no-snapshot-load"@, "-no-snapshot-save"@],
    ) + flag_if(opts.read_only == Some(true), seq!["-read-only"@]) + flag_if(
        opts.wipe_data == Some(true),
        seq!["-wipe-data"@],
    ) + flag_if(opts.boot_anim == Some(false), seq!["-no-boot-anim"@]) + flag_if(
        opts.no_camera == Some(true),
        seq!["-camera-back"@, "none"@, "-camera-front"@, "none"@],
    ) + flag_if(opts.no_gps == Some(true), seq!["-no-passive-gps"@]) + seq![
        "-netsim-args"@,
        "--no-cli-ui"@,
    ] + flag_if(opts.no_bluetooth == Some(true), seq!["-netsim-args"@, "--no-bluetooth"@])
}

/// The emulator's arguments: for a raw launch `-avd NAME`, and `-wipe-data` when the
/// user data is to be wiped; else the tuned set.
pub open spec fn launch_args(
    name: Seq<char>,
    opts: LaunchOptions,
    kind: DeviceKind,
    ram: nat,
    windows: bool,
) -> Seq<Seq<char>> {
    if is_raw_launch(opts.raw_launch) {
        seq!["-avd"@, name] + flag_if(opts.wipe_data == Some(true), seq!["-wipe-data"@])
    } else {
        tuned_args(name, opts, kind, ram, windows)
    }
}

fn push_s(v: &mut Vec<String>, s: &str)
    ensures
        string_views(final(v)@) == string_views(old(v)@).push(s@),
{
    let ghost prev = v@;
    v.push(String::from_str(s));
    assert(string_views(v@) =~= string_views(prev).push(s@));
}

fn push_owned(v: &mut Vec<String>, s: String)
    ensures
        string_views(final(v)@) == string_views(old(v)@).push(s@),
{
    let ghost prev = v@;
    let ghost sv = s@;
    v.push(s);
    assert(string_views(v@) =~= string_views(prev).push(sv));
}

fn prefixed(prefix: &str, value: &str) -> (r: String)
    ensures
        r@ == prefix@ + value@,
{
    let mut c = chars_of(prefix);
    push_str(&mut c, value);
    string_of(&c)
}

fn tuned_args_exec(name: &str, opts: &LaunchOptions, kind: &DeviceKind, ram: u64, windows: bool) -> (r:
    Vec<String>)
    ensures
        string_views(r@) == tuned_args(name@, *opts, *kind, ram as nat, windows),
{
    let (heap, growth) = guest_heap_props(kind, ram);
    let mut v: Vec<String> = Vec::new();
    push_s(&mut v, "-avd");
    push_s(&mut v, name);
    push_s(&mut v, "-gpu");
    push_owned(&mut v, normalize_gpu_mode(&opts.gpu_mode));
    push_s(&mut v, "-accel");
    push_owned(&mut v, normalize_accel(&opts.accel, windows));
    push_s(&mut v, "-feature");
    push_s(&mut v, "Vulkan,GLESDynamicVersion");
    push_s(&mut v, "-logcat");
    push_s(&mut v, "*:S");
    push_s(&mut v, "-no-metrics");
    push_s(&mut v, "-prop");
    push_owned(&mut v, prefixed("qemu.dalvik.vm.heapsize=", heap));
    push_s(&mut v, "-prop");
    push_owned(&mut v, prefixed("qemu.dalvik.vm.heapgrowthlimit=", growth));
    push_s(&mut v, "-prop");
    push_s(&mut v, "qemu.net.tcp.buffersize.default=4096,87380,110208,4096,16384,110208");
    push_s(&mut v, "-prop");
    push_s(&mut v, "qemu.net.tcp.buffersize.wifi=262144,524288,1048576,262144,524288,1048576");
    push_s(&mut v, "-dns-server");
    push_s(&mut v, "1.1.1.1");
    let ghost base = string_views(v@);
    let flags = launch_flags_exec(opts, windows);
    let ghost fv = string_views(flags@);
    let mut k: usize = 0;
    while k < flags.len()
        invariant
            k <= flags.len(),
            fv == string_views(flags@),
            string_views(v@) == base + fv.take(k as int),
        decreases flags.len() - k,
    {
        let ghost prev = v@;
        v.push(flags[k].clone());
        assert(string_views(v@) =~= string_views(prev).push(fv[k as int]));
        assert(fv.take(k + 1) =~= fv.take(k as int).push(fv[k as int]));
        k += 1;
    }
    assert(fv.take(fv.len() as int) =~= fv);
    v
}

fn strs(items: &[&str]) -> (r: Vec<String>)
    ensures
        string_views(r@) == items@.map_values(|x: &str| x@),
{
    let mut v: Vec<String> = Vec::new();
    let mut i: usize = 0;
    while i < items.len()
        invariant
            i <= items@.len(),
            string_views(v@) == items@.take(i as int).map_values(|x: &str| x@),
        decreases items.len() - i,
    {
        push_s(&mut v, items[i]);
        assert(items@.take(i + 1).map_values(|x: &str| x@) =~= items@.take(i as int).map_values(
            |x: &str| x@,
        ).push(items@[i as int]@));
        i += 1;
    }
    assert(items@.take(items@.len() as int) =~= items@);
    v
}

fn append_if(v: &mut Vec<String>, cond: bool, items: Vec<String>)
    ensures
        string_views(final(v)@) == string_views(old(v)@) + flag_if(cond, string_views(items@)),
{
    let ghost prev = string_views(v@);
    if cond {
        let mut i: usize = 0;
        while i < items.len()
            invariant
                i <= items@.len(),
                string_views(v@) == prev + string_views(items@).take(i as int),
            decreases items.len() - i,
        {
            let ghost before = v@;
            v.push(items[i].clone());
            assert(string_views(v@) =~= string_views(before).push(string_views(items@)[i as int]));
            assert(string_views(items@).take(i + 1) =~= string_views(items@).take(i as int).push(
                string_views(items@)[i as int],
            ));
            i += 1;
        }
        assert(string_views(items@).take(items@.len() as int) =~= string_views(items@));
    } else {
        assert(string_views(v@) =~= prev + flag_if(cond, string_views(items@)));
    }
}

fn launch_flags_exec(opts: &LaunchOptions, windows: bool) -> (r: Vec<String>)
    ensures
        string_views(r@) == launch_flags(*opts, windows),
{
    let mut v: Vec<String> = Vec::new();
    let audio = strs(&["-audio", "wasapi"]);
    assert(string_views(audio@) =~= seq!["-audio"@, "wasapi"@]);
    append_if(&mut v, windows, audio);
    assert(string_views(v@) =~= flag_if(windows, seq!["-audio"@, "wasapi"@]));
    let snap = strs(&["-no-snapshot-load", "-no-snapshot-save"]);
    assert(string_views(snap@) =~= seq!["-no-snapshot-load"@, "-no-snapshot-save"@]);
    append_if(&mut v, opts.quick_boot == Some(false), snap);
    let ro = strs(&["-read-only"]);
    assert(string_views(ro@) =~= seq!["-read-only"@]);
    append_if(&mut v, opts.read_only == Some(true), ro);
    let wipe = strs(&["-wipe-data"]);
    assert(string_views(wipe@) =~= seq!["-wipe-data"@]);
    append_if(&mut v, opts.wipe_data == Some(true), wipe);
    let anim = strs(&["-no-boot-anim"]);
    assert(string_views(anim@) =~= seq!["-no-boot-anim"@]);
    append_if(&mut v, opts.boot_anim == Some(false), anim);
    let cam = strs(&["-camera-back", "none", "-camera-front", "none"]);
    assert(string_views(cam@) =~= seq!["-camera-back"@, "none"@, "-camera-front"@, "none"@]);
    append_if(&mut v, opts.no_camera == Some(true), cam);
    let gps = strs(&["-no-passive-gps"]);
    assert(string_views(gps@) =~= seq!["-no-passive-gps"@]);
    append_if(&mut v, opts.no_gps == Some(true), gps);
    let ui = strs(&["-netsim-args", "--no-cli-ui"]);
    assert(string_views(ui@) =~= seq!["-netsim-args"@, "--no-cli-ui"@]);
    append_if(&mut v, true, ui);
    let bt = strs(&["-netsim-args", "--no-bluetooth"]);
    assert(string_views(bt@) =~= seq!["-netsim-args"@, "--no-bluetooth"@]);
    append_if(&mut v, opts.no_bluetooth == Some(true), bt);
    v
}

/// The emulator's command-line arguments for launching AVD `name`, given the launch
/// switches, the image kind, the RAM size (MB) and whether the host is Windows.
pub fn emulator_launch_args(
    name: &str,
    opts: &LaunchOptions,
    kind: &DeviceKind,
    ram: u64,
    windows: bool,
) -> (r: Vec<String>)
    ensures
        string_views(r@) == launch_args(name@, *opts, *kind, ram as nat, windows),
{
    if raw_launch_decision(opts.raw_launch) {
        let mut v: Vec<String> = Vec::new();
        push_s(&mut v, "-avd");
        push_s(&mut v, name);
        if opts.wipe_data == Some(true) {
            push_s(&mut v, "-wipe-data");
        }
        assert(string_views(v@) =~= seq!["-avd"@, name@] + flag_if(
            opts.wipe_data == Some(true),
            seq!["-wipe-data"@],
        ));
        v
    } else {
        tuned_args_exec(name, opts, kind, ram, windows)
    }
}

/// The `adb` calls of Speed Mode, in order: wait for the device, restart adbd as root,
/// wait again, force GPU composition in SurfaceFlinger.
pub fn speed_mode_adb_steps() -> (r: Vec<Vec<String>>)
    ensures
        r@.len() == 4,
        string_views(r@[0]@) == seq!["wait-for-device"@],
        string_views(r@[1]@) == seq!["root"@],
        string_views(r@[2]@) == seq!["wait-for-device"@],
        string_views(r@[3]@) == seq![
            "shell"@,
            "service"@,
            "call"@,
            "SurfaceFlinger"@,
            "1008"@,
            "i32"@,
            "1"@,
        ],
{
    let mut steps: Vec<Vec<String>> = Vec::new();
    let a = strs(&["wait-for-device"]);
    assert(string_views(a@) =~= seq!["wait-for-device"@]);
    steps.push(a);
    let b = strs(&["root"]);
    assert(string_views(b@) =~= seq!["root"@]);
    steps.push(b);
    let c = strs(&["wait-for-device"]);
    assert(string_views(c@) =~= seq!["wait-for-device"@]);
    steps.push(c);
    let d = strs(&["shell", "service", "call", "SurfaceFlinger", "1008", "i32", "1"]);
    assert(string_views(d@) =~= seq![
        "shell"@,
        "service"@,
        "call"@,
        "SurfaceFlinger"@,
        "1008"@,
        "i32"@,
        "1"@,
    ]);
    steps.push(d);
    steps
}

/// `adb` arguments asking the first emulator to shut down.
pub fn stop_emulator_args() -> (r: Vec<String>)
    ensures
        string_views(r@) == seq!["-s"@, "emulator-5554"@, "emu"@, "kill"@],
{
    let v = strs(&["-s", "emulator-5554", "emu", "kill"]);
    assert(string_views(v@) =~= seq!["-s"@, "emulator-5554"@, "emu"@, "kill"@]);
    v
}

// ───────────────────────────── `.ini` path repair ─────────────────────────────

/// The value of a `path=` line (every leading `path=` removed), or `None` for any other
/// line.
pub open spec fn ini_path_value(line: Seq<char>) -> Option<Seq<char>> {
    if starts_with(line, "path="@) {
        Some(trim_start_matches(line, "path="@))
    } else {
        None
    }
}

/// The `path=` values of an AVD's `.ini` text, one entry per line.
pub fn ini_path_values(content: &str) -> (r: Vec<Option<String>>)
    ensures
        r@.len() == lines(content@).len(),
        forall|i: int|
            0 <= i < r@.len() ==> (#[trigger] opt_string_view(r@[i])) == ini_path_value(
                lines(content@)[i],
            ),
{
    let ls = split_lines(&chars_of(content));
    let p = chars_of("path=");
    let mut out: Vec<Option<String>> = Vec::new();
    let mut i: usize = 0;
    while i < ls.len()
        invariant
            i <= ls.len(),
            views(ls@) == lines(content@),
            p@ == "path="@,
            out@.len() == i,
            forall|j: int|
                0 <= j < i ==> (#[trigger] opt_string_view(out@[j])) == ini_path_value(
                    lines(content@)[j],
                ),
        decreases ls.len() - i,
    {
        assert(views(ls@)[i as int] == ls@[i as int]@);
        if starts_with_str(&ls[i], "path=") {
            let v = trim_start_matches_exec(&ls[i], &p);
            out.push(Some(string_of(&v)));
        } else {
            out.push(None);
        }
        i += 1;
    }
    out
}

/// Calls `Path::ne` on two path texts. Equal texts name the same path; where the texts
/// differ, the answer follows the host's path rules (which characters separate, whether a
/// trailing separator counts) and is not stated.
#[verifier::external_body]
fn paths_differ(a: &str, b: &str) -> (r: bool)
    ensures
        a@ == b@ ==> !r,
{
    std::path::Path::new(a) != std::path::Path::new(b)
}

/// Which lines of an AVD's `.ini` hold a `path=` that names another folder than the
/// expected one: never a line without `path=`, never one whose path is the expected
/// text; a path written differently is compared by the host's path rules.
pub fn ini_paths_stale(content: &str, expected: &str) -> (r: Vec<bool>)
    ensures
        r@.len() == lines(content@).len(),
        forall|i: int|
            0 <= i < r@.len() ==> (ini_path_value(lines(content@)[i]) is None ==> !#[trigger] r@[i])
                && (ini_path_value(lines(content@)[i]) == Some(expected@) ==> !r@[i]),
{
    let values = ini_path_values(content);
    let mut r: Vec<bool> = Vec::new();
    let mut i: usize = 0;
    while i < values.len()
        invariant
            i <= values@.len(),
            r@.len() == i,
            values@.len() == lines(content@).len(),
            forall|k: int|
                0 <= k < values@.len() ==> (#[trigger] opt_string_view(values@[k]))
                    == ini_path_value(lines(content@)[k]),
            forall|k: int|
                0 <= k < i ==> (ini_path_value(lines(content@)[k]) is None ==> !#[trigger] r@[k])
                    && (ini_path_value(lines(content@)[k]) == Some(expected@) ==> !r@[k]),
        decreases values.len() - i,
    {
        assert(opt_string_view(values@[i as int]) == ini_path_value(lines(content@)[i as int]));
        let differs = match &values[i] {
            Some(current) => paths_differ(current.as_str(), expected),
            None => false,
        };
        r.push(differs);
        i += 1;
    }
    r
}

/// The `.ini` after the repair: each `path=` line that `stale` marks replaced by
/// `path=` and the expected folder.
pub open spec fn repaired_ini_lines(ls: Seq<Seq<char>>, stale: Seq<bool>, expected: Seq<char>) -> Seq<
    Seq<char>,
> {
    Seq::new(
        ls.len(),
        |i: int|
            if ini_path_value(ls[i]) is Some && stale[i] {
                "path="@ + expected
            } else {
                ls[i]
            },
    )
}

/// What the repair of a moved AVD writes back: nothing unless some `path=` line is
/// stale, else the repaired `.ini`. `stale[i]` says whether line `i`'s path differs from
/// the expected folder.
pub open spec fn repaired_ini(content: Seq<char>, stale: Seq<bool>, expected: Seq<char>) -> Option<
    Seq<char>,
> {
    let ls = lines(content);
    if exists|i: int| 0 <= i < ls.len() && ini_path_value(ls[i]) is Some && #[trigger] stale[i] {
        Some(join(repaired_ini_lines(ls, stale, expected), "\n"@))
    } else {
        None
    }
}

pub fn repair_ini_paths(content: &str, stale: &Vec<bool>, expected: &str) -> (r: Option<String>)
    requires
        stale@.len() == lines(content@).len(),
    ensures
        r matches Some(s) ==> repaired_ini(content@, stale@, expected@) == Some(s@),
        r is None ==> repaired_ini(content@, stale@, expected@) is None,
{
    let ls = split_lines(&chars_of(content));
    let ghost sl = views(ls@);
    let mut out: Vec<Vec<char>> = Vec::new();
    let mut changed = false;
    let mut i: usize = 0;
    while i < ls.len()
        invariant
            i <= ls.len(),
            sl == views(ls@),
            sl == lines(content@),
            stale@.len() == sl.len(),
            out@.len() == i,
            forall|j: int|
                0 <= j < i ==> (#[trigger] out@[j])@ == repaired_ini_lines(sl, stale@, expected@)[j],
            changed == exists|j: int|
                0 <= j < i && ini_path_value(sl[j]) is Some && #[trigger] stale@[j],
        decreases ls.len() - i,
    {
        assert(sl[i as int] == ls@[i as int]@);
        if starts_with_str(&ls[i], "path=") && stale[i] {
            let mut l = chars_of("path=");
            push_str(&mut l, expected);
            out.push(l);
            changed = true;
        } else {
            out.push(ls[i].clone());
        }
        i += 1;
    }
    if !changed {
        return None;
    }
    assert(views(out@) =~= repaired_ini_lines(sl, stale@, expected@));
    let nl = chars_of("\n");
    Some(string_of(&join_exec(&out, &nl)))
}

// ───────────────────────────── emulator log ─────────────────────────────

/// The number of recent emulator log lines remembered for de-duplication.
pub open spec fn recent_capacity() -> nat {
    256
}

/// The recent distinct lines of an emulator's log, oldest first, at most 256.
pub struct RecentLines {
    lines: Vec<Vec<char>>,
}

impl View for RecentLines {
    type V = Seq<Seq<char>>;

    closed spec fn view(&self) -> Seq<Seq<char>> {
        views(self.lines@)
    }
}

/// The window after a line is shown: the line appended, the oldest dropped past 256.
pub open spec fn window_after(window: Seq<Seq<char>>, line: Seq<char>) -> Seq<Seq<char>> {
    if window.len() + 1 > recent_capacity() {
        window.push(line).drop_first()
    } else {
        window.push(line)
    }
}

impl RecentLines {
    pub open spec fn wf(&self) -> bool {
        self@.len() <= recent_capacity()
    }

    pub fn new() -> (r: RecentLines)
        ensures
            r@ == Seq::<Seq<char>>::empty(),
            r.wf(),
    {
        let r = RecentLines { lines: Vec::new() };
        assert(r@ =~= Seq::<Seq<char>>::empty());
        r
    }

    fn seen(&self, t: &Vec<char>) -> (r: bool)
        ensures
            r == self@.contains(t@),
    {
        let mut i: usize = 0;
        while i < self.lines.len()
            invariant
                i <= self.lines@.len(),
                forall|j: int| 0 <= j < i ==> self@[j] != t@,
            decreases self.lines.len() - i,
        {
            assert(self@[i as int] == self.lines@[i as int]@);
            if self.lines[i].len() == t.len() && crate::text::starts_with_exec(&self.lines[i], t) {
                assert(self.lines@[i as int]@.subrange(0, t@.len() as int) =~= self.lines@[i as int]@);
                assert(self@[i as int] == t@);
                return true;
            }
            proof {
                if self@[i as int] == t@ {
                    assert(self.lines@[i as int]@.subrange(0, t@.len() as int) =~= t@);
                }
            }
            i += 1;
        }
        false
    }

    /// One raw line of the emulator's output: the trimmed line when it is to be shown
    /// (not blank, not among the recent lines), which it then joins.
    pub fn accept(&mut self, raw: &str) -> (r: Option<String>)
        requires
            old(self).wf(),
        ensures
            final(self).wf(),
            ({
                let t = trim(raw@);
                if t.len() == 0 || old(self)@.contains(t) {
                    r is None && final(self)@ == old(self)@
                } else {
                    (r matches Some(s) && s@ == t) && final(self)@ == window_after(old(self)@, t)
                }
            }),
    {
        let t = trim_exec(&chars_of(raw));
        if t.len() == 0 || self.seen(&t) {
            return None;
        }
        let ghost prev = self@;
        let shown = string_of(&t);
        self.lines.push(t);
        assert(self@ =~= prev.push(shown@));
        if self.lines.len() > 256 {
            self.lines.remove(0);
            assert(self@ =~= prev.push(shown@).drop_first());
        }
        Some(shown)
    }
}

// ───────────────────────────── emulator exit ─────────────────────────────

/// An exit within ten seconds of the launch is a crash on start-up; its snapshots are
/// then deleted when there are any.
pub open spec fn clears_snapshots(elapsed_secs: u64, snapshots_exist: bool) -> bool {
    elapsed_secs < 10 && snapshots_exist
}

pub fn should_clear_snapshots(elapsed_secs: u64, snapshots_exist: bool) -> (r: bool)
    ensures
        r == clears_snapshots(elapsed_secs, snapshots_exist),
{
    elapsed_secs < 10 && snapshots_exist
}

pub open spec fn snapshot_crash_notice() -> Seq<char> {
    "[KB] Emulator crashed immediately — corrupted snapshot auto-deleted. Please launch again for a clean cold boot."@
}

pub open spec fn early_exit_notice() -> Seq<char> {
    "[KB] Emulator exited unexpectedly on launch. Try Wipe & Boot if it happens again."@
}

/// The log line shown when the emulator exits: none after ten seconds or more, else
/// the crash notice (snapshots deleted) or the early-exit notice.
pub fn exit_notice(elapsed_secs: u64, snapshots_exist: bool) -> (r: Option<String>)
    ensures
        elapsed_secs >= 10 ==> r is None,
        elapsed_secs < 10 && snapshots_exist ==> (r matches Some(s) && s@ == snapshot_crash_notice()),
        elapsed_secs < 10 && !snapshots_exist ==> (r matches Some(s) && s@ == early_exit_notice()),
{
    if elapsed_secs >= 10 {
        None
    } else if snapshots_exist {
        Some(
            String::from_str(
                "[KB] Emulator crashed immediately — corrupted snapshot auto-deleted. Please launch again for a clean cold boot.",
            ),
        )
    } else {
        Some(
            String::from_str(
                "[KB] Emulator exited unexpectedly on launch. Try Wipe & Boot if it happens again.",
            ),
        )
    }
}

// ───────────────────────────── guest app optimisation ─────────────────────────────

/// The third-party packages that `pm list packages -3` printed: each trimmed line that
/// starts with `package:`, without that prefix, when something is left.
pub open spec fn listed_packages_from(ls: Seq<Seq<char>>) -> Seq<Seq<char>>
    decreases ls.len(),
{
    if ls.len() == 0 {
        seq![]
    } else {
        let r = listed_packages_from(ls.drop_last());
        let t = trim(ls.last());
        if starts_with(t, "package:"@) && t.len() > "package:"@.len() {
            r.push(t.subrange("package:"@.len() as int, t.len() as int))
        } else {
            r
        }
    }
}

pub open spec fn listed_packages(stdout: Seq<char>) -> Seq<Seq<char>> {
    listed_packages_from(lines(stdout))
}

pub fn third_party_packages(stdout: &str) -> (r: Vec<String>)
    ensures
        string_views(r@) == listed_packages(stdout@),
{
    proof {
        reveal_strlit("package:");
    }
    let ls = split_lines(&chars_of(stdout));
    let ghost sl = views(ls@);
    let mut out: Vec<String> = Vec::new();
    let mut i: usize = 0;
    while i < ls.len()
        invariant
            i <= ls.len(),
            sl == views(ls@),
            "package:"@.len() == 8,
            string_views(out@) == listed_packages_from(sl.take(i as int)),
        decreases ls.len() - i,
    {
        assert(sl.take(i + 1).drop_last() =~= sl.take(i as int));
        assert(sl[i as int] == ls@[i as int]@);
        let t = trim_exec(&ls[i]);
        if starts_with_str(&t, "package:") && t.len() > 8 {
            let pkg = slice_of(&t, 8, t.len());
            push_owned(&mut out, string_of(&pkg));
        }
        assert(string_views(out@) =~= listed_packages_from(sl.take(i + 1)));
        i += 1;
    }
    assert(sl.take(sl.len() as int) =~= sl);
    out
}

/// `adb` arguments listing the third-party packages of the first emulator.
pub fn list_packages_args() -> (r: Vec<String>)
    ensures
        string_views(r@) == seq![
            "-s"@,
            "emulator-5554"@,
            "shell"@,
            "pm"@,
            "list"@,
            "packages"@,
            "-3"@,
        ],
{
    let mut v: Vec<String> = Vec::new();
    push_s(&mut v, "-s");
    push_s(&mut v, "emulator-5554");
    push_s(&mut v, "shell");
    push_s(&mut v, "pm");
    push_s(&mut v, "list");
    push_s(&mut v, "packages");
    push_s(&mut v, "-3");
    v
}

/// `adb` arguments compiling a package ahead of time for speed.
pub fn compile_package_args(pkg: &str) -> (r: Vec<String>)
    ensures
        string_views(r@) == seq![
            "-s"@,
            "emulator-5554"@,
            "shell"@,
            "cmd"@,
            "package"@,
            "compile"@,
            "-m"@,
            "speed"@,
            "-f"@,
            pkg@,
        ],
{
    let mut v: Vec<String> = Vec::new();
    push_s(&mut v, "-s");
    push_s(&mut v, "emulator-5554");
    push_s(&mut v, "shell");
    push_s(&mut v, "cmd");
    push_s(&mut v, "package");
    push_s(&mut v, "compile");
    push_s(&mut v, "-m");
    push_s(&mut v, "speed");
    push_s(&mut v, "-f");
    push_s(&mut v, pkg);
    v
}

/// The progress line `[i/n] Optimizing: pkg...` for the package at index `idx`.
pub fn optimize_progress_message(idx: usize, total: usize, pkg: &str) -> (r: String)
    requires
        idx < total,
    ensures
        r@ == "["@ + crate::number::decimal(idx as nat + 1) + "/"@ + crate::number::decimal(
            total as nat,
        ) + "] Optimizing: "@ + pkg@ + "..."@,
{
    let mut v = chars_of("[");
    push_chars(&mut v, &crate::number::decimal_exec(idx as u64 + 1));
    push_str(&mut v, "/");
    push_chars(&mut v, &crate::number::decimal_exec(total as u64));
    push_str(&mut v, "] Optimizing: ");
    push_str(&mut v, pkg);
    push_str(&mut v, "...");
    string_of(&v)
}

} // verus!
