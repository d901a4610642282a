//! Properties that hold across the launcher's operations.
use vstd::prelude::*;
use crate::avd::{config_value, perf_profile, sanitized_avd_name};
use crate::config::{
    configured_ram, device_kind, edit_lines_settle, edit_reads_back, edited_config, has_key, heap_size_for, heap_tuned_config,
    heap_tuned_lines, is_display_override, key_line, marks_special, repaired_special_config,
    wear_locked_line, wear_locked_lines, DeviceKind,
};
use crate::env::tool_env;
use crate::launch::{launch_args, normalized_accel, normalized_gpu, window_after, LaunchOptions};
use crate::number::{all_digits, decimal, digit_char, digits_value, parse_u32, unsigned_digits};
use crate::paths::spec_avd_dir;
use crate::progress::download_percent;
use crate::case::{lowercase, uppercase};
use crate::text::{contains, join, lines, no_newline, replace_from, trim};

verus! {

proof fn lemma_digit_char_value(d: nat)
    requires
        d < 10,
    ensures
        crate::number::digit_value(digit_char(d)) == d,
        crate::text::is_ascii_digit(digit_char(d)),
{
    assert(('0' as u32) == 48u32);
    assert(('1' as u32) == 49u32);
    assert(('2' as u32) == 50u32);
    assert(('3' as u32) == 51u32);
    assert(('4' as u32) == 52u32);
    assert(('5' as u32) == 53u32);
    assert(('6' as u32) == 54u32);
    assert(('7' as u32) == 55u32);
    assert(('8' as u32) == 56u32);
    assert(('9' as u32) == 57u32);
}

pub(crate) proof fn lemma_decimal_digits(n: nat)
    ensures
        decimal(n).len() > 0,
        all_digits(decimal(n)),
        digits_value(decimal(n)) == n,
        decimal(n)[0] != '+',
    decreases n,
{
    if n >= 10 {
        lemma_decimal_digits(n / 10);
        let d = decimal(n / 10);
        let c = digit_char(n % 10);
        assert(decimal(n) == d.push(c));
        assert(decimal(n).drop_last() =~= d);
        lemma_digit_char_value(n % 10);
        assert(decimal(n).last() == c);
        assert((n / 10) * 10 + n % 10 == n) by (nonlinear_arith);
        assert(digits_value(decimal(n)) == digits_value(d) * 10 + crate::number::digit_value(c));
        assert forall|i: int| 0 <= i < decimal(n).len() implies crate::text::is_ascii_digit(
            #[trigger] decimal(n)[i],
        ) by {
            if i < d.len() {
                assert(decimal(n)[i] == d[i]);
            }
        }
    } else {
        lemma_digit_char_value(n);
        assert(decimal(n).drop_last() =~= seq![]);
        assert(digits_value(decimal(n).drop_last()) == 0);
        assert(decimal(n).last() == digit_char(n));
    }
}

/// A count written into a config as decimal text reads back as the same count.
pub proof fn law_decimal_reads_back(n: u32)
    ensures
        parse_u32(decimal(n as nat)) == Some(n),
{
    lemma_decimal_digits(n as nat);
    assert(unsigned_digits(decimal(n as nat)) == decimal(n as nat));
}

/// The emulator only ever gets one of its supported GPU modes: auto, host or software.
pub proof fn law_gpu_mode_supported(gpu: Option<Seq<char>>)
    ensures
        normalized_gpu(gpu) == "auto"@ || normalized_gpu(gpu) == "host"@ || normalized_gpu(gpu)
            == "software"@,
{
}

/// The legacy hypervisor choices WHPX, AEHD and HAXM all become the unified `on`.
pub proof fn law_legacy_accelerators_unified(windows: bool)
    ensures
        normalized_accel(None, windows) == "on"@,
        normalized_accel(Some("whpx"@), windows) == "on"@,
        normalized_accel(Some("aehd"@), windows) == "on"@,
        normalized_accel(Some("haxm"@), windows) == "on"@,
        !windows ==> normalized_accel(Some("kvm"@), windows) == "on"@,
{
}

/// A raw launch keeps the stock emulator defaults: nothing but `-avd NAME`, and
/// `-wipe-data` when the user data is to be wiped.
pub proof fn law_raw_launch_minimal(
    name: Seq<char>,
    opts: LaunchOptions,
    kind: DeviceKind,
    ram: nat,
    windows: bool,
)
    requires
        opts.raw_launch == Some(true),
    ensures
        launch_args(name, opts, kind, ram, windows) == (if opts.wipe_data == Some(true) {
            seq!["-avd"@, name, "-wipe-data"@]
        } else {
            seq!["-avd"@, name]
        }),
{
    assert(seq!["-avd"@, name] + seq!["-wipe-data"@] =~= seq!["-avd"@, name, "-wipe-data"@]);
    assert(seq!["-avd"@, name] + Seq::<Seq<char>>::empty() =~= seq!["-avd"@, name]);
}

/// Every image kind gets its guest heap on a tuned launch: 128 MB (growth limit 64 MB)
/// for Wear OS, 256 MB (128 MB) for TV, 512 MB (256 MB) for Automotive, and for a phone
/// 1024 MB (512 MB) from 8 GB of RAM up, else 512 MB (256 MB).
pub proof fn law_launch_guest_heap(
    name: Seq<char>,
    opts: LaunchOptions,
    kind: DeviceKind,
    ram: nat,
    windows: bool,
)
    requires
        opts.raw_launch != Some(true),
    ensures
        launch_args(name, opts, kind, ram, windows)[11] == "-prop"@,
        launch_args(name, opts, kind, ram, windows)[12] == "qemu.dalvik.vm.heapsize="@ + (if kind.wear {
            "128m"@
        } else if kind.tv {
            "256m"@
        } else if kind.automotive {
            "512m"@
        } else if ram >= 8192 {
            "1024m"@
        } else {
            "512m"@
        }),
        launch_args(name, opts, kind, ram, windows)[13] == "-prop"@,
        launch_args(name, opts, kind, ram, windows)[14] == "qemu.dalvik.vm.heapgrowthlimit="@ + (
        if kind.wear {
            "64m"@
        } else if kind.tv {
            "128m"@
        } else if kind.automotive {
            "256m"@
        } else if ram >= 8192 {
            "512m"@
        } else {
            "256m"@
        }),
{
}

/// Heap tuning is stable: read back, the tuned config names the same device kind and the
/// same RAM, each of its `vm.heapSize` lines carries the heap that was set (and there is
/// one), so tuning it again sets that same heap.
pub proof fn law_heap_tuning_stable(content: Seq<char>)
    ensures
        ({
            let tuned = heap_tuned_config(content);
            let heap = heap_size_for(device_kind(content), configured_ram(lines(content)) as nat);
            &&& device_kind(tuned) == device_kind(content)
            &&& configured_ram(lines(tuned)) == configured_ram(lines(content))
            &&& heap_tuned_config(tuned) == join(heap_tuned_lines(lines(tuned), heap), "\n"@)
            &&& forall|i: int|
                0 <= i < lines(tuned).len() && has_key(#[trigger] lines(tuned)[i], "vm.heapSize="@)
                    ==> trim(lines(tuned)[i]) == key_line("vm.heapSize="@, heap)
            &&& exists|i: int|
                0 <= i < lines(tuned).len() && has_key(#[trigger] lines(tuned)[i], "vm.heapSize="@)
        }),
{
    crate::config::lemma_heap_tuning_read_back(content);
}

/// The repair of a Wear OS, TV or Automotive config is clean and settled: read back, the
/// repaired config still names its special image, holds no display, skin, GPU or heap
/// override, and repairing it again rewrites the same lines.
pub proof fn law_special_repair_settled(content: Seq<char>)
    requires
        repaired_special_config(content) is Some,
    ensures
        ({
            let rep = repaired_special_config(content).unwrap();
            &&& exists|i: int| 0 <= i < lines(rep).len() && #[trigger] marks_special(lines(rep)[i])
            &&& forall|i: int|
                0 <= i < lines(rep).len() ==> !is_display_override(#[trigger] lines(rep)[i])
            &&& repaired_special_config(rep) == Some(join(lines(rep), "\n"@))
        }),
{
    crate::config::lemma_special_repair_read_back(content);
}

proof fn lemma_decimal_trimmed(n: nat)
    ensures
        trim(decimal(n)) == decimal(n),
{
    lemma_decimal_digits(n);
    assert forall|i: int| 0 <= i < decimal(n).len() implies !crate::text::is_white_space(
        #[trigger] decimal(n)[i],
    ) by {
        assert(crate::text::is_ascii_digit(decimal(n)[i]));
    }
    crate::text::lemma_trim_plain(decimal(n));
}

/// The core count, RAM size and heap an update writes for an image kind, from the
/// count and size asked for (4 cores and 4096 MB where they are no number).
pub open spec fn updated_cores(kind: DeviceKind, cores: Seq<char>) -> nat {
    crate::config::clamped_cores(
        kind,
        match parse_u32(cores) {
            Some(v) => v as nat,
            None => 4,
        },
    )
}

pub open spec fn updated_ram(kind: DeviceKind, ram: Seq<char>) -> nat {
    crate::config::clamped_ram(
        kind,
        match parse_u32(ram) {
            Some(v) => v as nat,
            None => 4096,
        },
    )
}

/// Updating an AVD's settings a second time with the same settings leaves its config as
/// the first update wrote it. (This fails where a kept line ends in a carriage return and
/// is not the last line written, where an empty last line gets no key line after it, and
/// where a value written holds a line break.)
pub proof fn law_update_settled(
    content: Seq<char>,
    cores: Seq<char>,
    ram: Seq<char>,
    gpu: Seq<char>,
    res: Option<Seq<char>>,
    dpi: Option<Seq<char>>,
)
    requires
        no_newline(gpu),
        res matches Some(r) ==> (device_kind(content).wear || no_newline(r)),
        dpi matches Some(d) ==> (device_kind(content).wear || no_newline(d)),
        edit_reads_back(content, res, dpi),
    ensures
        edited_config(edited_config(content, cores, ram, gpu, res, dpi), cores, ram, gpu, res, dpi)
            == edited_config(content, cores, ram, gpu, res, dpi),
{
    crate::readback::lemma_edit_settled(content, cores, ram, gpu, res, dpi);
}

/// Updating an AVD's settings a second time with the same settings leaves the lines read
/// back from its config as the first update left them. (This fails where a kept line that
/// is not the last line read back ends in two carriage returns, where the text written
/// ends in an empty line after a line that reads back empty or after a key line ending in
/// a carriage return, and where a value written holds a line break.)
pub proof fn law_update_lines_settled(
    content: Seq<char>,
    cores: Seq<char>,
    ram: Seq<char>,
    gpu: Seq<char>,
    res: Option<Seq<char>>,
    dpi: Option<Seq<char>>,
)
    requires
        no_newline(gpu),
        res matches Some(r) ==> (device_kind(content).wear || no_newline(r)),
        dpi matches Some(d) ==> (device_kind(content).wear || no_newline(d)),
        edit_lines_settle(content, cores, ram, gpu, res, dpi),
    ensures
        lines(
            edited_config(
                edited_config(content, cores, ram, gpu, res, dpi),
                cores,
                ram,
                gpu,
                res,
                dpi,
            ),
        ) == lines(edited_config(content, cores, ram, gpu, res, dpi)),
{
    crate::readback::lemma_edit_lines_settled(content, cores, ram, gpu, res, dpi);
}

/// What an update of an AVD's settings writes is what the AVD list reads back: the core
/// count and RAM size asked for, kept within a Wear OS, TV or Automotive image's locks,
/// the GPU mode asked for (trimmed), and the heap for the kind and RAM. (A GPU mode,
/// resolution or density holding a line break would write extra lines, and is left out.)
pub proof fn law_update_read_back(
    content: Seq<char>,
    cores: Seq<char>,
    ram: Seq<char>,
    gpu: Seq<char>,
    res: Option<Seq<char>>,
    dpi: Option<Seq<char>>,
)
    requires
        no_newline(gpu),
        res matches Some(r) ==> no_newline(r),
        dpi matches Some(d) ==> no_newline(d),
    ensures
        ({
            let written = edited_config(content, cores, ram, gpu, res, dpi);
            let kind = device_kind(content);
            &&& config_value(written, "hw.cpu.ncore"@) == decimal(updated_cores(kind, cores))
            &&& config_value(written, "hw.ramSize"@) == decimal(updated_ram(kind, ram))
            &&& config_value(written, "hw.gpu.mode"@) == trim(gpu)
            &&& config_value(written, "vm.heapSize"@) == heap_size_for(
                kind,
                updated_ram(kind, ram),
            )
        }),
{
    reveal_strlit("hw.cpu.ncore");
    reveal_strlit("hw.ramSize");
    reveal_strlit("hw.gpu.mode");
    reveal_strlit("vm.heapSize");
    reveal_strlit("hw.cpu.ncore=");
    reveal_strlit("hw.ramSize=");
    reveal_strlit("hw.gpu.mode=");
    reveal_strlit("vm.heapSize=");
    reveal_strlit("=");
    reveal_strlit("128");
    reveal_strlit("256");
    reveal_strlit("512");
    reveal_strlit("1024");
    let kind = device_kind(content);
    crate::readback::lemma_edit_read_back(content, cores, ram, gpu, res, dpi, 0);
    crate::readback::lemma_edit_read_back(content, cores, ram, gpu, res, dpi, 1);
    crate::readback::lemma_edit_read_back(content, cores, ram, gpu, res, dpi, 2);
    crate::readback::lemma_edit_read_back(content, cores, ram, gpu, res, dpi, 3);
    assert("hw.cpu.ncore"@ + "="@ =~= crate::config::edit_key(0));
    assert("hw.ramSize"@ + "="@ =~= crate::config::edit_key(1));
    assert("hw.gpu.mode"@ + "="@ =~= crate::config::edit_key(2));
    assert("vm.heapSize"@ + "="@ =~= crate::config::edit_key(3));
    lemma_decimal_trimmed(updated_cores(kind, cores));
    lemma_decimal_trimmed(updated_ram(kind, ram));
    let h = heap_size_for(kind, updated_ram(kind, ram));
    assert forall|i: int| 0 <= i < h.len() implies !crate::text::is_white_space(#[trigger] h[i]) by {}
    crate::text::lemma_trim_plain(h);
}

/// The resource locks of the special images: an update of a Wear OS AVD writes 1 core,
/// 1024 MB and a 128 MB heap; of a TV AVD 1 to 2 cores, 1024 to 2048 MB and a 256 MB heap;
/// of an Automotive AVD 1 to 4 cores, 2048 to 4096 MB and a 512 MB heap, whatever was
/// asked for.
pub proof fn law_special_resources_locked(kind: DeviceKind, cores: Seq<char>, ram: Seq<char>)
    ensures
        kind.wear ==> updated_cores(kind, cores) == 1 && updated_ram(kind, ram) == 1024
            && heap_size_for(kind, updated_ram(kind, ram)) == "128"@,
        !kind.wear && kind.tv ==> 1 <= updated_cores(kind, cores) <= 2 && 1024 <= updated_ram(
            kind,
            ram,
        ) <= 2048 && heap_size_for(kind, updated_ram(kind, ram)) == "256"@,
        !kind.wear && !kind.tv && kind.automotive ==> 1 <= updated_cores(kind, cores) <= 4
            && 2048 <= updated_ram(kind, ram) <= 4096 && heap_size_for(kind, updated_ram(kind, ram))
            == "512"@,
{
}

/// Wipe & Boot: a launch asked to wipe the user data passes `-wipe-data`, raw or tuned.
pub proof fn law_wipe_and_boot(name: Seq<char>, opts: LaunchOptions, kind: DeviceKind, ram: nat, windows: bool)
    requires
        opts.wipe_data == Some(true),
    ensures
        launch_args(name, opts, kind, ram, windows).contains("-wipe-data"@),
{
    let args = launch_args(name, opts, kind, ram, windows);
    if opts.raw_launch == Some(true) {
        assert(args[2] == "-wipe-data"@);
    } else {
        lemma_tuned_wipe(name, opts, kind, ram, windows);
    }
}

proof fn lemma_tuned_wipe(name: Seq<char>, opts: LaunchOptions, kind: DeviceKind, ram: nat, windows: bool)
    requires
        opts.raw_launch != Some(true),
        opts.wipe_data == Some(true),
    ensures
        launch_args(name, opts, kind, ram, windows).contains("-wipe-data"@),
{
    let args = launch_args(name, opts, kind, ram, windows);
    let flags = crate::launch::launch_flags(opts, windows);
    assert(args =~= crate::launch::tuned_args(name, opts, kind, ram, windows));
    let w = if windows {
        2int
    } else {
        0int
    };
    let q = if opts.quick_boot == Some(false) {
        2int
    } else {
        0int
    };
    let r = if opts.read_only == Some(true) {
        1int
    } else {
        0int
    };
    assert(flags[w + q + r] == "-wipe-data"@);
    assert(args[21 + w + q + r] == "-wipe-data"@);
}

/// Network acceleration: a tuned launch resolves DNS through 1.1.1.1.
pub proof fn law_tuned_launch_dns(name: Seq<char>, opts: LaunchOptions, kind: DeviceKind, ram: nat, windows: bool)
    requires
        opts.raw_launch != Some(true),
    ensures
        launch_args(name, opts, kind, ram, windows)[19] == "-dns-server"@,
        launch_args(name, opts, kind, ram, windows)[20] == "1.1.1.1"@,
{
}

/// The keys of the performance profile, in the order written.
pub open spec fn perf_profile_keys() -> Seq<Seq<char>> {
    seq![
        "hw.cpu.ncore"@,
        "hw.ramSize"@,
        "hw.gpu.mode"@,
        "hw.gpu.enabled"@,
        "hw.audioInput"@,
        "hw.keyboard"@,
        "hw.mainKeys"@,
        "hw.lcd.width"@,
        "hw.lcd.height"@,
        "hw.lcd.density"@,
        "hw.sdCard"@,
        "disk.dataPartition.size"@,
        "hw.accelerometer"@,
        "hw.gps"@,
        "hw.sensors.orientation"@,
        "fastboot.forceColdBoot"@,
        "fastboot.forceChosenSnapshotBoot"@,
        "fastboot.forceFastBoot"@,
        "vm.heapSize"@,
        "disk.cachePartition"@,
        "disk.cachePartition.size"@,
        "hw.camera.back"@,
        "hw.camera.front"@,
    ]
}

/// The performance profile sets 23 distinct keys, always the same ones in the same order,
/// whatever the options.
pub proof fn law_perf_profile_keys(
    cores: u32,
    ram: u32,
    gpu_mode: Seq<char>,
    resolution: Seq<char>,
    dpi: u32,
    storage: u32,
)
    ensures
        perf_profile(cores, ram, gpu_mode, resolution, dpi, storage).len() == 23,
        forall|i: int|
            0 <= i < 23 ==> (#[trigger] perf_profile(cores, ram, gpu_mode, resolution, dpi, storage)[i]).0
                == perf_profile_keys()[i],
        forall|i: int, j: int|
            0 <= i < j < 23 ==> #[trigger] perf_profile_keys()[i] != #[trigger] perf_profile_keys()[j],
{
    reveal_strlit("hw.cpu.ncore");
    reveal_strlit("hw.ramSize");
    reveal_strlit("hw.gpu.mode");
    reveal_strlit("hw.gpu.enabled");
    reveal_strlit("hw.audioInput");
    reveal_strlit("hw.keyboard");
    reveal_strlit("hw.mainKeys");
    reveal_strlit("hw.lcd.width");
    reveal_strlit("hw.lcd.height");
    reveal_strlit("hw.lcd.density");
    reveal_strlit("hw.sdCard");
    reveal_strlit("disk.dataPartition.size");
    reveal_strlit("hw.accelerometer");
    reveal_strlit("hw.gps");
    reveal_strlit("hw.sensors.orientation");
    reveal_strlit("fastboot.forceColdBoot");
    reveal_strlit("fastboot.forceChosenSnapshotBoot");
    reveal_strlit("fastboot.forceFastBoot");
    reveal_strlit("vm.heapSize");
    reveal_strlit("disk.cachePartition");
    reveal_strlit("disk.cachePartition.size");
    reveal_strlit("hw.camera.back");
    reveal_strlit("hw.camera.front");
    let k = perf_profile_keys();
    assert forall|i: int, j: int| 0 <= i < j < 23 implies #[trigger] k[i] != #[trigger] k[j] by {
        if k[i] == k[j] {
            assert(k[i].len() == k[j].len());
            assert(k[i][0] == k[j][0]);
            assert(k[i][3] == k[j][3]);
            assert(k[i][k[i].len() - 1] == k[j][k[j].len() - 1]);
            assert(k[i][k[i].len() - 2] == k[j][k[j].len() - 2]);
            assert(k[i][14] == k[j][14]);
        }
    }
}

/// The performance profile's Dalvik heap is 1024 MB from 8 GB of RAM up, else 512 MB.
pub proof fn law_perf_profile_heap(
    cores: u32,
    ram: u32,
    gpu_mode: Seq<char>,
    resolution: Seq<char>,
    dpi: u32,
    storage: u32,
)
    ensures
        perf_profile(cores, ram, gpu_mode, resolution, dpi, storage)[18] == ("vm.heapSize"@, if ram
            >= 8192 {
            "1024"@
        } else {
            "512"@
        }),
        perf_profile(cores, ram, gpu_mode, resolution, dpi, storage).len() == 23,
{
}

proof fn lemma_wear_locked_lines_all(ls: Seq<Seq<char>>, l: Seq<char>)
    requires
        wear_locked_lines(ls).contains(l),
    ensures
        exists|i: int| 0 <= i < ls.len() && wear_locked_line(ls[i]) == Some(l),
    decreases ls.len(),
{
    let r = wear_locked_lines(ls.drop_last());
    match wear_locked_line(ls.last()) {
        Some(x) => {
            if l == x && !r.contains(l) {
                assert(wear_locked_line(ls[ls.len() - 1]) == Some(l));
            } else {
                if !r.contains(l) {
                    let k = choose|k: int| 0 <= k < r.push(x).len() && r.push(x)[k] == l;
                    assert(k == r.len());
                }
                lemma_wear_locked_lines_all(ls.drop_last(), l);
                let i = choose|i: int|
                    0 <= i < ls.drop_last().len() && wear_locked_line(ls.drop_last()[i]) == Some(l);
                assert(ls[i] == ls.drop_last()[i]);
            }
        },
        None => {
            lemma_wear_locked_lines_all(ls.drop_last(), l);
            let i = choose|i: int|
                0 <= i < ls.drop_last().len() && wear_locked_line(ls.drop_last()[i]) == Some(l);
            assert(ls[i] == ls.drop_last()[i]);
        },
    }
}

proof fn lemma_fixed_line_keys()
    ensures
        !has_key("hw.cpu.ncore=1"@, "hw.lcd.width="@),
        !has_key("hw.cpu.ncore=1"@, "hw.lcd.height="@),
        !has_key("hw.cpu.ncore=1"@, "hw.lcd.density="@),
        !has_key("hw.cpu.ncore=1"@, "skin.name="@),
        !has_key("hw.cpu.ncore=1"@, "skin.path="@),
        !has_key("hw.ramSize=1024"@, "hw.lcd.width="@),
        !has_key("hw.ramSize=1024"@, "hw.lcd.height="@),
        !has_key("hw.ramSize=1024"@, "hw.lcd.density="@),
        !has_key("hw.ramSize=1024"@, "skin.name="@),
        !has_key("hw.ramSize=1024"@, "skin.path="@),
        has_key("hw.cpu.ncore=1"@, "hw.cpu.ncore="@),
        !has_key("hw.ramSize=1024"@, "hw.cpu.ncore="@),
        !has_key("hw.cpu.ncore=1"@, "hw.ramSize="@),
        has_key("hw.ramSize=1024"@, "hw.ramSize="@),
{
    reveal_strlit("hw.cpu.ncore=1");
    reveal_strlit("hw.ramSize=1024");
    reveal_strlit("hw.lcd.width=");
    reveal_strlit("hw.lcd.height=");
    reveal_strlit("hw.lcd.density=");
    reveal_strlit("skin.name=");
    reveal_strlit("skin.path=");
    reveal_strlit("hw.cpu.ncore=");
    reveal_strlit("hw.ramSize=");
    let a = "hw.cpu.ncore=1"@;
    let b = "hw.ramSize=1024"@;
    assert(crate::text::trim_start_index(a, 0) == 0);
    assert(crate::text::trim_end_index(a, 0, a.len() as int) == a.len());
    assert(crate::text::trim(a) =~= a);
    assert(crate::text::trim_start_index(b, 0) == 0);
    assert(crate::text::trim_end_index(b, 0, b.len() as int) == b.len());
    assert(crate::text::trim(b) =~= b);
    assert(a.subrange(0, 3) =~= seq!['h', 'w', '.']);
    assert(a[3] == 'c' && b[3] == 'r');
    assert(a.subrange(0, 13) =~= "hw.cpu.ncore="@);
    assert(b.subrange(0, 11) =~= "hw.ramSize="@);
}

/// The Wear OS lock leaves no display-size or skin line, sets every core-count line to
/// one core and every RAM line to 1024 MB.
pub proof fn law_wear_lock(ls: Seq<Seq<char>>, l: Seq<char>)
    requires
        wear_locked_lines(ls).contains(l),
    ensures
        !has_key(l, "hw.lcd.width="@),
        !has_key(l, "hw.lcd.height="@),
        !has_key(l, "hw.lcd.density="@),
        !has_key(l, "skin.name="@),
        !has_key(l, "skin.path="@),
        has_key(l, "hw.cpu.ncore="@) ==> l == "hw.cpu.ncore=1"@,
        has_key(l, "hw.ramSize="@) ==> l == "hw.ramSize=1024"@,
{
    lemma_wear_locked_lines_all(ls, l);
    lemma_fixed_line_keys();
}

/// A log line just shown stays among the recent lines, so the same line right after is
/// not shown again.
pub proof fn law_shown_line_remembered(window: Seq<Seq<char>>, line: Seq<char>)
    requires
        window.len() <= crate::launch::recent_capacity(),
    ensures
        window_after(window, line).contains(line),
        window_after(window, line).len() <= crate::launch::recent_capacity(),
{
    let w = window_after(window, line);
    assert(w[w.len() - 1] == line);
}

/// An AVD shows as running, under the process id that `launch_started` records, from the
/// launch until `emulator_exited` forgets it; its exit changes no other AVD.
pub proof fn law_running_until_stopped(running: Map<Seq<char>, u32>, name: Seq<char>, pid: u32)
    ensures
        running.insert(name, pid).contains_key(name),
        running.insert(name, pid)[name] == pid,
        !running.insert(name, pid).remove(name).contains_key(name),
        forall|other: Seq<char>|
            other != name ==> (running.insert(name, pid).remove(name).contains_key(other)
                == running.contains_key(other)),
{
}

/// The SDK tools see the AVD home twice, as `ANDROID_AVD_HOME` and as
/// `ANDROID_EMULATOR_HOME`, and with a portable JDK its `JAVA_HOME`.
pub proof fn law_tool_env_homes(
    vars: Map<Seq<char>, Seq<char>>,
    java_home: Option<Seq<char>>,
    base: Seq<char>,
    windows: bool,
)
    ensures
        tool_env(vars, java_home, base, windows)["ANDROID_AVD_HOME"@] == spec_avd_dir(base, windows),
        tool_env(vars, java_home, base, windows)["ANDROID_EMULATOR_HOME"@] == spec_avd_dir(
            base,
            windows,
        ),
        java_home matches Some(j) ==> tool_env(vars, java_home, base, windows)["JAVA_HOME"@] == j,
{
    reveal_strlit("ANDROID_AVD_HOME");
    reveal_strlit("ANDROID_EMULATOR_HOME");
    reveal_strlit("QEMU_AUDIO_TIMER_PERIOD");
    reveal_strlit("QEMU_WASAPI_BUF_SIZE");
    reveal_strlit("ANDROID_SDK_ROOT");
    reveal_strlit("JAVA_HOME");
    reveal_strlit("PATH");
    assert("ANDROID_AVD_HOME"@ != "ANDROID_EMULATOR_HOME"@) by {
        assert("ANDROID_AVD_HOME"@.len() != "ANDROID_EMULATOR_HOME"@.len());
    }
    assert("ANDROID_AVD_HOME"@.len() != "QEMU_AUDIO_TIMER_PERIOD"@.len());
    assert("ANDROID_AVD_HOME"@.len() != "QEMU_WASAPI_BUF_SIZE"@.len());
    assert("ANDROID_EMULATOR_HOME"@.len() != "QEMU_AUDIO_TIMER_PERIOD"@.len());
    assert("ANDROID_EMULATOR_HOME"@.len() != "QEMU_WASAPI_BUF_SIZE"@.len());
    assert("JAVA_HOME"@.len() != "PATH"@.len());
    assert("JAVA_HOME"@.len() != "ANDROID_SDK_ROOT"@.len());
    assert("JAVA_HOME"@.len() != "ANDROID_AVD_HOME"@.len());
    assert("JAVA_HOME"@.len() != "ANDROID_EMULATOR_HOME"@.len());
    assert("JAVA_HOME"@.len() != "QEMU_AUDIO_TIMER_PERIOD"@.len());
    assert("JAVA_HOME"@.len() != "QEMU_WASAPI_BUF_SIZE"@.len());
}

/// A finished download of known size reports 100 percent.
pub proof fn law_complete_download(total: u64)
    requires
        total > 0,
        total * 100 <= u64::MAX,
    ensures
        download_percent(total, total) == Some(100u32),
{
    assert((total as int * 100) / (total as int) == 100) by (nonlinear_arith)
        requires
            total > 0,
    ;
}

proof fn lemma_replace_space_free(s: Seq<char>, i: int)
    requires
        0 <= i,
    ensures
        forall|k: int|
            0 <= k < replace_from(s, " "@, "_"@, i).len() ==> replace_from(s, " "@, "_"@, i)[k]
                != ' ',
    decreases s.len() - i,
{
    reveal_strlit(" ");
    reveal_strlit("_");
    if i < s.len() {
        lemma_replace_space_free(s, i + 1);
        let rest = replace_from(s, " "@, "_"@, i + 1);
        let r = replace_from(s, " "@, "_"@, i);
        if crate::text::matches_at(s, " "@, i) {
            assert(r == "_"@ + rest);
            assert forall|k: int| 0 <= k < r.len() implies r[k] != ' ' by {
                if k == 0 {
                    assert(r[0] == '_');
                } else {
                    assert(r[k] == rest[k - 1]);
                }
            }
        } else {
            assert(r == seq![s[i]] + rest);
            if s[i] == ' ' {
                assert(s.subrange(i, i + 1) =~= " "@);
            }
            assert forall|k: int| 0 <= k < r.len() implies r[k] != ' ' by {
                if k > 0 {
                    assert(r[k] == rest[k - 1]);
                }
            }
        }
    }
}

/// A sanitized AVD name holds no space.
pub proof fn law_sanitized_name_has_no_space(name: Seq<char>)
    ensures
        forall|k: int| 0 <= k < sanitized_avd_name(name).len() ==> sanitized_avd_name(name)[k] != ' ',
{
    lemma_replace_space_free(name, 0);
}

/// An argument that is a switch starting `-c`, as the camera switches do.
pub open spec fn dash_c(s: Seq<char>) -> bool {
    s.len() >= 2 && s[0] == '-' && s[1] == 'c'
}

/// No argument of `s` starts `-c`.
pub open spec fn no_dash_c(s: Seq<Seq<char>>) -> bool {
    forall|i: int| 0 <= i < s.len() ==> !dash_c(#[trigger] s[i])
}

proof fn lemma_no_dash_c_concat(a: Seq<Seq<char>>, b: Seq<Seq<char>>)
    requires
        no_dash_c(a),
        no_dash_c(b),
    ensures
        no_dash_c(a + b),
{
    assert forall|i: int| 0 <= i < (a + b).len() implies !dash_c(#[trigger] (a + b)[i]) by {
        if i < a.len() {
            assert((a + b)[i] == a[i]);
        } else {
            assert((a + b)[i] == b[i - a.len()]);
        }
    }
}

/// Without the camera switch, the launch switches hold no argument starting `-c`.
proof fn lemma_flags_without_camera(opts: LaunchOptions, windows: bool)
    requires
        opts.no_camera != Some(true),
    ensures
        no_dash_c(crate::launch::launch_flags(opts, windows)),
{
    reveal_strlit("-audio");
    reveal_strlit("wasapi");
    reveal_strlit("-no-snapshot-load");
    reveal_strlit("-no-snapshot-save");
    reveal_strlit("-read-only");
    reveal_strlit("-wipe-data");
    reveal_strlit("-no-boot-anim");
    reveal_strlit("-no-passive-gps");
    reveal_strlit("-netsim-args");
    reveal_strlit("--no-cli-ui");
    reveal_strlit("--no-bluetooth");
    let f = crate::launch::launch_flags(opts, windows);
    assert forall|i: int| 0 <= i < f.len() implies !dash_c(#[trigger] f[i]) by {}
}

/// A launch disables the cameras exactly when the user asked for it on a tuned launch:
/// its arguments hold `-camera-back` (and `-camera-front`) then, and never otherwise (for
/// an AVD name and accelerator that are not themselves these switches).
pub proof fn law_cameras_off_only_on_request(
    name: Seq<char>,
    opts: LaunchOptions,
    kind: DeviceKind,
    ram: nat,
    windows: bool,
)
    requires
        name != "-camera-back"@,
        name != "-camera-front"@,
        !(opts.accel matches Some(a) && (a@ == "-camera-back"@ || a@ == "-camera-front"@)),
    ensures
        launch_args(name, opts, kind, ram, windows).contains("-camera-back"@) <==> (
        opts.raw_launch != Some(true) && opts.no_camera == Some(true)),
        launch_args(name, opts, kind, ram, windows).contains("-camera-front"@) <==> (
        opts.raw_launch != Some(true) && opts.no_camera == Some(true)),
{
    reveal_strlit("-camera-back");
    reveal_strlit("-camera-front");
    reveal_strlit("none");
    reveal_strlit("-avd");
    reveal_strlit("-wipe-data");
    reveal_strlit("-gpu");
    reveal_strlit("-accel");
    reveal_strlit("-feature");
    reveal_strlit("Vulkan,GLESDynamicVersion");
    reveal_strlit("-logcat");
    reveal_strlit("*:S");
    reveal_strlit("-no-metrics");
    reveal_strlit("-prop");
    reveal_strlit("qemu.dalvik.vm.heapsize=");
    reveal_strlit("qemu.dalvik.vm.heapgrowthlimit=");
    reveal_strlit("qemu.net.tcp.buffersize.default=4096,87380,110208,4096,16384,110208");
    reveal_strlit("qemu.net.tcp.buffersize.wifi=262144,524288,1048576,262144,524288,1048576");
    reveal_strlit("-dns-server");
    reveal_strlit("1.1.1.1");
    reveal_strlit("on");
    reveal_strlit("auto");
    reveal_strlit("host");
    reveal_strlit("software");
    let args = launch_args(name, opts, kind, ram, windows);
    assert(dash_c("-camera-back"@));
    assert(dash_c("-camera-front"@));
    if opts.raw_launch == Some(true) {
        assert forall|i: int| 0 <= i < args.len() implies args[i] != "-camera-back"@ && args[i]
            != "-camera-front"@ by {
            if i >= 2 {
                assert(args[i] == "-wipe-data"@);
                assert(!dash_c("-wipe-data"@));
            }
        }
    } else {
        let (heap, growth) = crate::launch::guest_heap(kind, ram);
        let gpu = normalized_gpu(crate::types::opt_string_view(opts.gpu_mode));
        let accel = normalized_accel(crate::types::opt_string_view(opts.accel), windows);
        let head = seq![
            "-avd"@,
            name,
            "-gpu"@,
            gpu,
            "-accel"@,
            accel,
            "-feature"@,
            "Vulkan,GLESDynamicVersion"@,
            "-logcat"@,
            "*:S"@,
            "-no-metrics"@,
            "-prop"@,
            "qemu.dalvik.vm.heapsize="@ + heap,
            "-prop"@,
            "qemu.dalvik.vm.heapgrowthlimit="@ + growth,
            "-prop"@,
            "qemu.net.tcp.buffersize.default=4096,87380,110208,4096,16384,110208"@,
            "-prop"@,
            "qemu.net.tcp.buffersize.wifi=262144,524288,1048576,262144,524288,1048576"@,
            "-dns-server"@,
            "1.1.1.1"@,
        ];
        let flags = crate::launch::launch_flags(opts, windows);
        assert(args =~= head + flags);
        // Only the name and the accelerator of the head could be a camera switch.
        assert forall|i: int| 0 <= i < head.len() implies head[i] != "-camera-back"@ && head[i]
            != "-camera-front"@ by {
            if i == 12 {
                assert(head[i][0] == 'q');
            } else if i == 14 {
                assert(head[i][0] == 'q');
            } else if i == 3 {
                assert(!dash_c(gpu));
            } else if i == 5 {
                if accel != "on"@ {
                    assert(opts.accel is Some);
                }
            } else if i != 1 {
                assert(!dash_c(head[i]));
            }
        }
        if opts.no_camera == Some(true) {
            let k = head.len() as int;
            let pre = crate::launch::flag_if(windows, seq!["-audio"@, "wasapi"@]) + crate::launch::flag_if(
                opts.quick_boot == Some(false),
                seq!["-no-snapshot-load"@, "-no-snapshot-save"@],
            ) + crate::launch::flag_if(opts.read_only == Some(true), seq!["-read-only"@])
                + crate::launch::flag_if(opts.wipe_data == Some(true), seq!["-wipe-data"@])
                + crate::launch::flag_if(opts.boot_anim == Some(false), seq!["-no-boot-anim"@]);
            let p = pre.len() as int;
            assert(flags[p] == "-camera-back"@);
            assert(flags[p + 2] == "-camera-front"@);
            assert(args[k + p] == "-camera-back"@);
            assert(args[k + p + 2] == "-camera-front"@);
        } else {
            lemma_flags_without_camera(opts, windows);
            assert forall|i: int| 0 <= i < args.len() implies args[i] != "-camera-back"@ && args[i]
                != "-camera-front"@ by {
                if i >= head.len() {
                    assert(args[i] == flags[i - head.len()]);
                    assert(!dash_c(flags[i - head.len()]));
                }
            }
        }
    }
}

/// An image on no TV, Wear OS or Automotive shelf that is a beta (a 16 KB page-size build,
/// one at the newest API level found, or one whose id names a preview or beta) is shown
/// as "Beta / Preview", Play Store or not; an image is shown as a stable Play Store image
/// only when its id names the Play Store and it is no beta.
pub proof fn law_beta_images_on_beta_shelf(c: crate::sdk_packages::CandidateModel, max_api: int)
    ensures
        (!contains(c.id, "android-tv"@) && !contains(c.id, "google-tv"@) && !contains(c.id, "wear"@)
            && !contains(c.id, "android-automotive"@) && (c.is_16k || c.api_level == max_api
            || contains(lowercase(c.id), "preview"@) || contains(lowercase(c.id), "beta"@)))
            ==> crate::sdk_packages::package_category(c, max_api) == "Beta / Preview"@,
        crate::sdk_packages::package_category(c, max_api) == "Stable (Play Store)"@ ==> (contains(
            c.id,
            "playstore"@,
        ) && !c.is_16k && c.api_level != max_api && !contains(lowercase(c.id), "preview"@)
            && !contains(lowercase(c.id), "beta"@)),
{
    reveal_strlit("Stable (Play Store)");
    reveal_strlit("Stable (Google APIs)");
    reveal_strlit("Beta / Preview");
    reveal_strlit("Android TV");
    reveal_strlit("Wear OS");
    reveal_strlit("Automotive");
    if contains(c.id, "android-wear"@) {
        reveal_strlit("android-wear");
        reveal_strlit("wear");
        assert("android-wear"@.subrange(8, 12) =~= "wear"@);
        crate::text::lemma_contains_within(c.id, "android-wear"@, "wear"@, 8);
    }
    let cat = crate::sdk_packages::package_category(c, max_api);
    if cat == "Stable (Play Store)"@ {
        assert(cat[0] == 'S' && cat[7] == '(' && cat[8] == 'P');
    }
}

/// An image for Wear OS, Android TV or Automotive keeps its stock config: no performance
/// profile is written into its AVD. Any other image gets it unless the launch is raw.
pub proof fn law_special_images_keep_stock_config(image: Seq<char>, raw_launch: Option<bool>)
    ensures
        (contains(image, "wear"@) || contains(image, "android-tv"@) || contains(image, "google-tv"@)
            || contains(image, "automotive"@)) ==> !crate::avd::applies_perf_profile(
            image,
            raw_launch,
        ),
        (!contains(image, "wear"@) && !contains(image, "android-tv"@) && !contains(
            image,
            "google-tv"@,
        ) && !contains(image, "automotive"@) && raw_launch != Some(true))
            ==> crate::avd::applies_perf_profile(image, raw_launch),
{
    if contains(image, "android-automotive"@) {
        reveal_strlit("android-automotive");
        reveal_strlit("automotive");
        assert("android-automotive"@.subrange(8, 18) =~= "automotive"@);
        crate::text::lemma_contains_within(image, "android-automotive"@, "automotive"@, 8);
    }
}

/// Every `lspci` line whose lowercase text names a VGA, display or 3D controller gives a
/// GPU (named from the line, dedicated when its vendor is NVIDIA or AMD/Radeon), and no
/// other line does.
pub proof fn law_display_controllers_listed(line: Seq<char>, lower: Seq<char>)
    ensures
        (contains(lower, "vga"@) || contains(lower, "display"@) || contains(lower, "3d"@)) ==> (
        crate::system::lspci_entry(line, lower) == Some(
            (
                crate::system::lspci_name(line),
                contains(lower, "nvidia"@) || contains(lower, "amd"@) || contains(lower, "radeon"@),
            ),
        )),
        !(contains(lower, "vga"@) || contains(lower, "display"@) || contains(lower, "3d"@))
            ==> crate::system::lspci_entry(line, lower) is None,
{
}

/// The command-line tools downloaded for each host are that host's archive
/// (`commandlinetools-win-`, `-linux-`, `-mac-`), so no two hosts get the same one.
pub proof fn law_cmdline_tools_per_host(os: crate::install::HostOs, other: crate::install::HostOs)
    ensures
        crate::install::cmdline_tools_download_url(os) == "https://dl.google.com/android/repository/commandlinetools-"@
            + (match os {
            crate::install::HostOs::Windows => "win"@,
            crate::install::HostOs::Linux => "linux"@,
            crate::install::HostOs::MacOs => "mac"@,
        }) + "-11076708_latest.zip"@,
        os != other ==> crate::install::cmdline_tools_download_url(os)
            != crate::install::cmdline_tools_download_url(other),
{
    reveal_strlit("https://dl.google.com/android/repository/commandlinetools-win-11076708_latest.zip");
    reveal_strlit("https://dl.google.com/android/repository/commandlinetools-linux-11076708_latest.zip");
    reveal_strlit("https://dl.google.com/android/repository/commandlinetools-mac-11076708_latest.zip");
    reveal_strlit("https://dl.google.com/android/repository/commandlinetools-");
    reveal_strlit("win");
    reveal_strlit("linux");
    reveal_strlit("mac");
    reveal_strlit("-11076708_latest.zip");
    let u = crate::install::cmdline_tools_download_url(os);
    let v = crate::install::cmdline_tools_download_url(other);
    assert(u =~= "https://dl.google.com/android/repository/commandlinetools-"@ + (match os {
        crate::install::HostOs::Windows => "win"@,
        crate::install::HostOs::Linux => "linux"@,
        crate::install::HostOs::MacOs => "mac"@,
    }) + "-11076708_latest.zip"@);
    if os != other {
        assert(u[58] != v[58]);
    }
}

/// Each image is shown on the shelf of its kind: an Android TV id on "Android TV", a Wear
/// OS id (not TV) on "Wear OS", an Automotive id (neither) on "Automotive"; an image is
/// shown as a stable Google APIs image only when it is of none of these kinds, no beta
/// and not a Play Store image.
pub proof fn law_image_shelves(c: crate::sdk_packages::CandidateModel, max_api: int)
    ensures
        (contains(c.id, "android-tv"@) || contains(c.id, "google-tv"@))
            ==> crate::sdk_packages::package_category(c, max_api) == "Android TV"@,
        (!contains(c.id, "android-tv"@) && !contains(c.id, "google-tv"@) && contains(c.id, "wear"@))
            ==> crate::sdk_packages::package_category(c, max_api) == "Wear OS"@,
        (!contains(c.id, "android-tv"@) && !contains(c.id, "google-tv"@) && !contains(c.id, "wear"@)
            && contains(c.id, "android-automotive"@)) ==> crate::sdk_packages::package_category(
            c,
            max_api,
        ) == "Automotive"@,
        crate::sdk_packages::package_category(c, max_api) == "Stable (Google APIs)"@ ==> (
        !contains(c.id, "android-tv"@) && !contains(c.id, "google-tv"@) && !contains(c.id, "wear"@)
            && !contains(c.id, "android-automotive"@) && !contains(c.id, "playstore"@) && !c.is_16k
            && c.api_level != max_api && !contains(lowercase(c.id), "preview"@) && !contains(
            lowercase(c.id),
            "beta"@,
        )),
{
    reveal_strlit("Stable (Play Store)");
    reveal_strlit("Stable (Google APIs)");
    reveal_strlit("Beta / Preview");
    reveal_strlit("Android TV");
    reveal_strlit("Wear OS");
    reveal_strlit("Automotive");
    if contains(c.id, "android-wear"@) {
        reveal_strlit("android-wear");
        reveal_strlit("wear");
        assert("android-wear"@.subrange(8, 12) =~= "wear"@);
        crate::text::lemma_contains_within(c.id, "android-wear"@, "wear"@, 8);
    }
    let cat = crate::sdk_packages::package_category(c, max_api);
    if cat == "Stable (Google APIs)"@ {
        assert(cat[0] == 'S' && cat[8] == 'G');
    }
}

/// The name shown for a beta image says " (Beta/Preview)", and for a 16 KB page-size
/// image " [16 KB Page Size]".
pub proof fn law_image_name_marks(c: crate::sdk_packages::CandidateModel, max_api: int)
    ensures
        (c.is_16k || c.api_level == max_api || contains(lowercase(c.id), "preview"@) || contains(
            lowercase(c.id),
            "beta"@,
        )) ==> contains(crate::sdk_packages::package_name(c, max_api), " (Beta/Preview)"@),
        c.is_16k ==> contains(crate::sdk_packages::package_name(c, max_api), " [16 KB Page Size]"@),
{
    let beta = crate::sdk_packages::is_beta(c, max_api);
    let v = uppercase(crate::text::replace(c.variant, "_"@, " "@));
    let a = "Android "@ + crate::sdk_packages::android_version(c.api_level);
    let mid = " (API "@ + crate::number::signed_decimal(c.api_level) + ") · "@ + v;
    let bt = if beta {
        " (Beta/Preview)"@
    } else {
        ""@
    };
    let kt = if c.is_16k {
        " [16 KB Page Size]"@
    } else {
        ""@
    };
    let name = crate::sdk_packages::package_name(c, max_api);
    assert(name =~= a + bt + mid + kt);
    if beta {
        assert(name.subrange(a.len() as int, (a.len() + bt.len()) as int) =~= bt);
        crate::text::lemma_contains_at(name, " (Beta/Preview)"@, a.len() as int);
    }
    if c.is_16k {
        let k = (a + bt + mid).len() as int;
        assert(name.subrange(k, (k + kt.len()) as int) =~= kt);
        crate::text::lemma_contains_at(name, " [16 KB Page Size]"@, k);
    }
}

/// A listing line is offered only as an x86_64 system image of API 30 or later that is
/// not an SDK extension and not a canary or codename build; it is a 16 KB page-size image
/// exactly when its id says `16k`, and installed exactly when it was listed as installed.
pub proof fn law_offered_images(t: Seq<char>, installed: bool)
    ensures
        crate::sdk_packages::parse_candidate(t, installed) matches Some(c) ==> {
            &&& crate::text::starts_with(t, "system-images;"@)
            &&& contains(c.id, "x86_64"@)
            &&& c.api_level >= 30
            &&& !contains(c.id, "-ext"@) && !contains(c.id, "_ext"@)
            &&& !contains(lowercase(c.id), "canary"@) && !contains(lowercase(c.id), "cinnamonbun"@)
            &&& c.is_16k == (contains(c.id, "ps16k"@) || contains(c.id, "16k"@) || contains(
                c.id,
                "16kb"@,
            ))
            &&& c.installed == installed
        },
{
}

/// A 16 KB page-size image is shown only at the newest API level found; every other image
/// is shown, under its own id, version, description and install state.
pub proof fn law_old_16k_images_hidden(c: crate::sdk_packages::CandidateModel, max_api: int)
    ensures
        crate::sdk_packages::package_of(c, max_api) is None <==> (c.is_16k && c.api_level
            != max_api),
        crate::sdk_packages::package_of(c, max_api) matches Some(p) ==> p.id == c.id && p.version
            == c.version && p.desc == c.desc && p.installed == c.installed,
{
}

/// The portable JDK downloaded for each host is that host's build (`windows` as a zip,
/// `linux` and `mac` as tarballs), so no two hosts get the same one.
pub proof fn law_jdk_per_host(os: crate::install::HostOs, other: crate::install::HostOs)
    ensures
        crate::install::jdk_download_url(os) == "https://github.com/adoptium/temurin21-binaries/releases/download/jdk-21.0.4%2B7/OpenJDK21U-jdk_x64_"@
            + (match os {
            crate::install::HostOs::Windows => "windows_hotspot_21.0.4_7.zip"@,
            crate::install::HostOs::Linux => "linux_hotspot_21.0.4_7.tar.gz"@,
            crate::install::HostOs::MacOs => "mac_hotspot_21.0.4_7.tar.gz"@,
        }),
        os != other ==> crate::install::jdk_download_url(os) != crate::install::jdk_download_url(
            other,
        ),
{
    reveal_strlit("https://github.com/adoptium/temurin21-binaries/releases/download/jdk-21.0.4%2B7/OpenJDK21U-jdk_x64_windows_hotspot_21.0.4_7.zip");
    reveal_strlit("https://github.com/adoptium/temurin21-binaries/releases/download/jdk-21.0.4%2B7/OpenJDK21U-jdk_x64_linux_hotspot_21.0.4_7.tar.gz");
    reveal_strlit("https://github.com/adoptium/temurin21-binaries/releases/download/jdk-21.0.4%2B7/OpenJDK21U-jdk_x64_mac_hotspot_21.0.4_7.tar.gz");
    reveal_strlit("https://github.com/adoptium/temurin21-binaries/releases/download/jdk-21.0.4%2B7/OpenJDK21U-jdk_x64_");
    reveal_strlit("windows_hotspot_21.0.4_7.zip");
    reveal_strlit("linux_hotspot_21.0.4_7.tar.gz");
    reveal_strlit("mac_hotspot_21.0.4_7.tar.gz");
    let u = crate::install::jdk_download_url(os);
    let v = crate::install::jdk_download_url(other);
    let base = "https://github.com/adoptium/temurin21-binaries/releases/download/jdk-21.0.4%2B7/OpenJDK21U-jdk_x64_"@;
    assert(u =~= base + (match os {
        crate::install::HostOs::Windows => "windows_hotspot_21.0.4_7.zip"@,
        crate::install::HostOs::Linux => "linux_hotspot_21.0.4_7.tar.gz"@,
        crate::install::HostOs::MacOs => "mac_hotspot_21.0.4_7.tar.gz"@,
    }));
    if os != other {
        assert(u[base.len() as int] != v[base.len() as int]);
    }
}

/// A launch switch that the user's options turn on.
pub open spec fn is_launch_switch(s: Seq<char>) -> bool {
    s == "-audio"@ || s == "-no-snapshot-load"@ || s == "-read-only"@ || s == "-wipe-data"@ || s == "-no-boot-anim"@ || s == "-no-passive-gps"@ || s == "--no-bluetooth"@ || s == "-camera-back"@ || s == "-camera-front"@
}

/// A short mark of a text: its length, its second character and its fourth from the end.
spec fn mark(s: Seq<char>) -> (nat, char, char) {
    (s.len(), s[1], s[s.len() - 4])
}

proof fn lemma_contains_concat(a: Seq<Seq<char>>, b: Seq<Seq<char>>, x: Seq<char>)
    ensures
        (a + b).contains(x) == (a.contains(x) || b.contains(x)),
{
    if (a + b).contains(x) {
        let i = choose|i: int| 0 <= i < (a + b).len() && (a + b)[i] == x;
        if i < a.len() {
            assert(a[i] == x);
        } else {
            assert(b[i - a.len()] == x);
        }
    }
    if a.contains(x) {
        let i = choose|i: int| 0 <= i < a.len() && a[i] == x;
        assert((a + b)[i] == x);
    }
    if b.contains(x) {
        let i = choose|i: int| 0 <= i < b.len() && b[i] == x;
        assert((a + b)[i + a.len()] == x);
    }
}

/// Texts whose marks all differ from `f`'s do not include `f`.
proof fn lemma_not_in(p: Seq<Seq<char>>, f: Seq<char>)
    requires
        forall|i: int| 0 <= i < p.len() ==> mark(#[trigger] p[i]) != mark(f),
    ensures
        !p.contains(f),
{
    if p.contains(f) {
        let i = choose|i: int| 0 <= i < p.len() && p[i] == f;
        assert(mark(p[i]) == mark(f));
    }
}

/// The arguments a tuned launch opens with, before the user's switches.
pub open spec fn tuned_head(name: Seq<char>, opts: LaunchOptions, kind: DeviceKind, ram: nat, windows: bool) -> Seq<Seq<char>> {
    let (heap, growth) = crate::launch::guest_heap(kind, ram);
    seq![
        "-avd"@,
        name,
        "-gpu"@,
        normalized_gpu(crate::types::opt_string_view(opts.gpu_mode)),
        "-accel"@,
        normalized_accel(crate::types::opt_string_view(opts.accel), windows),
        "-feature"@,
        "Vulkan,GLESDynamicVersion"@,
        "-logcat"@,
        "*:S"@,
        "-no-metrics"@,
        "-prop"@,
        "qemu.dalvik.vm.heapsize="@ + heap,
        "-prop"@,
        "qemu.dalvik.vm.heapgrowthlimit="@ + growth,
        "-prop"@,
        "qemu.net.tcp.buffersize.default=4096,87380,110208,4096,16384,110208"@,
        "-prop"@,
        "qemu.net.tcp.buffersize.wifi=262144,524288,1048576,262144,524288,1048576"@,
        "-dns-server"@,
        "1.1.1.1"@,
    ]
}

proof fn lemma_switch_not_in_head(name: Seq<char>, opts: LaunchOptions, kind: DeviceKind, ram: nat, windows: bool, f: Seq<char>)
    requires
        is_launch_switch(f),
        !is_launch_switch(name),
        !(opts.accel matches Some(a) && is_launch_switch(a@)),
    ensures
        !tuned_head(name, opts, kind, ram, windows).contains(f),
{
    reveal_strlit("-audio");
    reveal_strlit("wasapi");
    reveal_strlit("-no-snapshot-load");
    reveal_strlit("-no-snapshot-save");
    reveal_strlit("-read-only");
    reveal_strlit("-wipe-data");
    reveal_strlit("-no-boot-anim");
    reveal_strlit("-camera-back");
    reveal_strlit("none");
    reveal_strlit("-camera-front");
    reveal_strlit("-no-passive-gps");
    reveal_strlit("-netsim-args");
    reveal_strlit("--no-cli-ui");
    reveal_strlit("--no-bluetooth");
    reveal_strlit("-avd");
    reveal_strlit("-gpu");
    reveal_strlit("-accel");
    reveal_strlit("-feature");
    reveal_strlit("Vulkan,GLESDynamicVersion");
    reveal_strlit("-logcat");
    reveal_strlit("*:S");
    reveal_strlit("-no-metrics");
    reveal_strlit("-prop");
    reveal_strlit("-dns-server");
    reveal_strlit("1.1.1.1");
    reveal_strlit("auto");
    reveal_strlit("host");
    reveal_strlit("software");
    reveal_strlit("on");
    reveal_strlit("qemu.dalvik.vm.heapsize=");
    reveal_strlit("qemu.dalvik.vm.heapgrowthlimit=");
    reveal_strlit("qemu.net.tcp.buffersize.default=4096,87380,110208,4096,16384,110208");
    reveal_strlit("qemu.net.tcp.buffersize.wifi=262144,524288,1048576,262144,524288,1048576");
    let head = tuned_head(name, opts, kind, ram, windows);
    assert forall|i: int| 0 <= i < head.len() implies head[i] != f by {
        if i == 12 || i == 14 {
            assert(head[i][0] == 'q');
            assert(f[0] != 'q');
        } else if i == 5 {
            if normalized_accel(crate::types::opt_string_view(opts.accel), windows) != "on"@ {
                assert(opts.accel is Some);
            } else {
                assert(mark(head[i]) != mark(f));
            }
        } else if i != 1 {
            assert(mark(head[i]) != mark(f));
        }
    }
}

/// The options' switches are passed exactly when the user asked for them: on a tuned
/// launch the Windows audio back end on Windows, cold boot without saving, read-only,
/// no boot animation, no passive GPS and no Bluetooth each when set; a wipe of the user
/// data on any launch when asked (for an AVD name and accelerator that are not themselves
/// such switches).
pub proof fn law_switches_only_on_request(
    name: Seq<char>,
    opts: LaunchOptions,
    kind: DeviceKind,
    ram: nat,
    windows: bool,
)
    requires
        !is_launch_switch(name),
        !(opts.accel matches Some(a) && is_launch_switch(a@)),
    ensures
        launch_args(name, opts, kind, ram, windows).contains("-audio"@) <==> (opts.raw_launch
            != Some(true) && windows),
        launch_args(name, opts, kind, ram, windows).contains("-no-snapshot-load"@) <==> (opts.raw_launch
            != Some(true) && opts.quick_boot == Some(false)),
        launch_args(name, opts, kind, ram, windows).contains("-read-only"@) <==> (opts.raw_launch
            != Some(true) && opts.read_only == Some(true)),
        launch_args(name, opts, kind, ram, windows).contains("-wipe-data"@) <==> opts.wipe_data
            == Some(true),
        launch_args(name, opts, kind, ram, windows).contains("-no-boot-anim"@) <==> (opts.raw_launch
            != Some(true) && opts.boot_anim == Some(false)),
        launch_args(name, opts, kind, ram, windows).contains("-no-passive-gps"@) <==> (opts.raw_launch
            != Some(true) && opts.no_gps == Some(true)),
        launch_args(name, opts, kind, ram, windows).contains("--no-bluetooth"@) <==> (opts.raw_launch
            != Some(true) && opts.no_bluetooth == Some(true)),
{
    reveal_strlit("-audio");
    reveal_strlit("wasapi");
    reveal_strlit("-no-snapshot-load");
    reveal_strlit("-no-snapshot-save");
    reveal_strlit("-read-only");
    reveal_strlit("-wipe-data");
    reveal_strlit("-no-boot-anim");
    reveal_strlit("-camera-back");
    reveal_strlit("none");
    reveal_strlit("-camera-front");
    reveal_strlit("-no-passive-gps");
    reveal_strlit("-netsim-args");
    reveal_strlit("--no-cli-ui");
    reveal_strlit("--no-bluetooth");
    reveal_strlit("-avd");
    reveal_strlit("-gpu");
    reveal_strlit("-accel");
    reveal_strlit("-feature");
    reveal_strlit("Vulkan,GLESDynamicVersion");
    reveal_strlit("-logcat");
    reveal_strlit("*:S");
    reveal_strlit("-no-metrics");
    reveal_strlit("-prop");
    reveal_strlit("-dns-server");
    reveal_strlit("1.1.1.1");
    reveal_strlit("auto");
    reveal_strlit("host");
    reveal_strlit("software");
    reveal_strlit("on");
    reveal_strlit("qemu.dalvik.vm.heapsize=");
    reveal_strlit("qemu.dalvik.vm.heapgrowthlimit=");
    reveal_strlit("qemu.net.tcp.buffersize.default=4096,87380,110208,4096,16384,110208");
    reveal_strlit("qemu.net.tcp.buffersize.wifi=262144,524288,1048576,262144,524288,1048576");
    let args = launch_args(name, opts, kind, ram, windows);
    let flags = crate::launch::launch_flags(opts, windows);
    let p1 = crate::launch::flag_if(windows, seq!["-audio"@, "wasapi"@]);
    let p2 = crate::launch::flag_if(opts.quick_boot == Some(false), seq!["-no-snapshot-load"@, "-no-snapshot-save"@]);
    let p3 = crate::launch::flag_if(opts.read_only == Some(true), seq!["-read-only"@]);
    let p4 = crate::launch::flag_if(opts.wipe_data == Some(true), seq!["-wipe-data"@]);
    let p5 = crate::launch::flag_if(opts.boot_anim == Some(false), seq!["-no-boot-anim"@]);
    let p6 = crate::launch::flag_if(opts.no_camera == Some(true), seq!["-camera-back"@, "none"@, "-camera-front"@, "none"@]);
    let p7 = crate::launch::flag_if(opts.no_gps == Some(true), seq!["-no-passive-gps"@]);
    let p8 = seq!["-netsim-args"@, "--no-cli-ui"@];
    let p9 = crate::launch::flag_if(opts.no_bluetooth == Some(true), seq!["-netsim-args"@, "--no-bluetooth"@]);
    assert(flags == p1 + p2 + p3 + p4 + p5 + p6 + p7 + p8 + p9);
    assert(flags.contains("-audio"@) == (windows)) by {
        let f = "-audio"@;
        lemma_contains_concat(p1, p2, f);
        lemma_contains_concat(p1 + p2, p3, f);
        lemma_contains_concat(p1 + p2 + p3, p4, f);
        lemma_contains_concat(p1 + p2 + p3 + p4, p5, f);
        lemma_contains_concat(p1 + p2 + p3 + p4 + p5, p6, f);
        lemma_contains_concat(p1 + p2 + p3 + p4 + p5 + p6, p7, f);
        lemma_contains_concat(p1 + p2 + p3 + p4 + p5 + p6 + p7, p8, f);
        lemma_contains_concat(p1 + p2 + p3 + p4 + p5 + p6 + p7 + p8, p9, f);
        if windows {
            assert(p1[0] == f);
        }
        lemma_not_in(p2, f);
        lemma_not_in(p3, f);
        lemma_not_in(p4, f);
        lemma_not_in(p5, f);
        lemma_not_in(p6, f);
        lemma_not_in(p7, f);
        lemma_not_in(p8, f);
        lemma_not_in(p9, f);
    }
    assert(flags.contains("-no-snapshot-load"@) == (opts.quick_boot == Some(false))) by {
        let f = "-no-snapshot-load"@;
        lemma_contains_concat(p1, p2, f);
        lemma_contains_concat(p1 + p2, p3, f);
        lemma_contains_concat(p1 + p2 + p3, p4, f);
        lemma_contains_concat(p1 + p2 + p3 + p4, p5, f);
        lemma_contains_concat(p1 + p2 + p3 + p4 + p5, p6, f);
        lemma_contains_concat(p1 + p2 + p3 + p4 + p5 + p6, p7, f);
        lemma_contains_concat(p1 + p2 + p3 + p4 + p5 + p6 + p7, p8, f);
        lemma_contains_concat(p1 + p2 + p3 + p4 + p5 + p6 + p7 + p8, p9, f);
        lemma_not_in(p1, f);
        if opts.quick_boot == Some(false) {
            assert(p2[0] == f);
        }
        lemma_not_in(p3, f);
        lemma_not_in(p4, f);
        lemma_not_in(p5, f);
        lemma_not_in(p6, f);
        lemma_not_in(p7, f);
        lemma_not_in(p8, f);
        lemma_not_in(p9, f);
    }
    assert(flags.contains("-read-only"@) == (opts.read_only == Some(true))) by {
        let f = "-read-only"@;
        lemma_contains_concat(p1, p2, f);
        lemma_contains_concat(p1 + p2, p3, f);
        lemma_contains_concat(p1 + p2 + p3, p4, f);
        lemma_contains_concat(p1 + p2 + p3 + p4, p5, f);
        lemma_contains_concat(p1 + p2 + p3 + p4 + p5, p6, f);
        lemma_contains_concat(p1 + p2 + p3 + p4 + p5 + p6, p7, f);
        lemma_contains_concat(p1 + p2 + p3 + p4 + p5 + p6 + p7, p8, f);
        lemma_contains_concat(p1 + p2 + p3 + p4 + p5 + p6 + p7 + p8, p9, f);
        lemma_not_in(p1, f);
        lemma_not_in(p2, f);
        if opts.read_only == Some(true) {
            assert(p3[0] == f);
        }
        lemma_not_in(p4, f);
        lemma_not_in(p5, f);
        lemma_not_in(p6, f);
        lemma_not_in(p7, f);
        lemma_not_in(p8, f);
        lemma_not_in(p9, f);
    }
    assert(flags.contains("-wipe-data"@) == (opts.wipe_data == Some(true))) by {
        let f = "-wipe-data"@;
        lemma_contains_concat(p1, p2, f);
        lemma_contains_concat(p1 + p2, p3, f);
        lemma_contains_concat(p1 + p2 + p3, p4, f);
        lemma_contains_concat(p1 + p2 + p3 + p4, p5, f);
        lemma_contains_concat(p1 + p2 + p3 + p4 + p5, p6, f);
        lemma_contains_concat(p1 + p2 + p3 + p4 + p5 + p6, p7, f);
        lemma_contains_concat(p1 + p2 + p3 + p4 + p5 + p6 + p7, p8, f);
        lemma_contains_concat(p1 + p2 + p3 + p4 + p5 + p6 + p7 + p8, p9, f);
        lemma_not_in(p1, f);
        lemma_not_in(p2, f);
        lemma_not_in(p3, f);
        if opts.wipe_data == Some(true) {
            assert(p4[0] == f);
        }
        lemma_not_in(p5, f);
        lemma_not_in(p6, f);
        lemma_not_in(p7, f);
        lemma_not_in(p8, f);
        lemma_not_in(p9, f);
    }
    assert(flags.contains("-no-boot-anim"@) == (opts.boot_anim == Some(false))) by {
        let f = "-no-boot-anim"@;
        lemma_contains_concat(p1, p2, f);
        lemma_contains_concat(p1 + p2, p3, f);
        lemma_contains_concat(p1 + p2 + p3, p4, f);
        lemma_contains_concat(p1 + p2 + p3 + p4, p5, f);
        lemma_contains_concat(p1 + p2 + p3 + p4 + p5, p6, f);
        lemma_contains_concat(p1 + p2 + p3 + p4 + p5 + p6, p7, f);
        lemma_contains_concat(p1 + p2 + p3 + p4 + p5 + p6 + p7, p8, f);
        lemma_contains_concat(p1 + p2 + p3 + p4 + p5 + p6 + p7 + p8, p9, f);
        lemma_not_in(p1, f);
        lemma_not_in(p2, f);
        lemma_not_in(p3, f);
        lemma_not_in(p4, f);
        if opts.boot_anim == Some(false) {
            assert(p5[0] == f);
        }
        lemma_not_in(p6, f);
        lemma_not_in(p7, f);
        lemma_not_in(p8, f);
        lemma_not_in(p9, f);
    }
    assert(flags.contains("-no-passive-gps"@) == (opts.no_gps == Some(true))) by {
        let f = "-no-passive-gps"@;
        lemma_contains_concat(p1, p2, f);
        lemma_contains_concat(p1 + p2, p3, f);
        lemma_contains_concat(p1 + p2 + p3, p4, f);
        lemma_contains_concat(p1 + p2 + p3 + p4, p5, f);
        lemma_contains_concat(p1 + p2 + p3 + p4 + p5, p6, f);
        lemma_contains_concat(p1 + p2 + p3 + p4 + p5 + p6, p7, f);
        lemma_contains_concat(p1 + p2 + p3 + p4 + p5 + p6 + p7, p8, f);
        lemma_contains_concat(p1 + p2 + p3 + p4 + p5 + p6 + p7 + p8, p9, f);
        lemma_not_in(p1, f);
        lemma_not_in(p2, f);
        lemma_not_in(p3, f);
        lemma_not_in(p4, f);
        lemma_not_in(p5, f);
        lemma_not_in(p6, f);
        if opts.no_gps == Some(true) {
            assert(p7[0] == f);
        }
        lemma_not_in(p8, f);
        lemma_not_in(p9, f);
    }
    assert(flags.contains("--no-bluetooth"@) == (opts.no_bluetooth == Some(true))) by {
        let f = "--no-bluetooth"@;
        lemma_contains_concat(p1, p2, f);
        lemma_contains_concat(p1 + p2, p3, f);
        lemma_contains_concat(p1 + p2 + p3, p4, f);
        lemma_contains_concat(p1 + p2 + p3 + p4, p5, f);
        lemma_contains_concat(p1 + p2 + p3 + p4 + p5, p6, f);
        lemma_contains_concat(p1 + p2 + p3 + p4 + p5 + p6, p7, f);
        lemma_contains_concat(p1 + p2 + p3 + p4 + p5 + p6 + p7, p8, f);
        lemma_contains_concat(p1 + p2 + p3 + p4 + p5 + p6 + p7 + p8, p9, f);
        lemma_not_in(p1, f);
        lemma_not_in(p2, f);
        lemma_not_in(p3, f);
        lemma_not_in(p4, f);
        lemma_not_in(p5, f);
        lemma_not_in(p6, f);
        lemma_not_in(p7, f);
        lemma_not_in(p8, f);
        if opts.no_bluetooth == Some(true) {
            assert(p9[1] == f);
        }
    }
    if opts.raw_launch != Some(true) {
        let head = tuned_head(name, opts, kind, ram, windows);
        assert(args == head + flags);
        lemma_switch_not_in_head(name, opts, kind, ram, windows, "-audio"@);
        lemma_switch_not_in_head(name, opts, kind, ram, windows, "-no-snapshot-load"@);
        lemma_switch_not_in_head(name, opts, kind, ram, windows, "-read-only"@);
        lemma_switch_not_in_head(name, opts, kind, ram, windows, "-wipe-data"@);
        lemma_switch_not_in_head(name, opts, kind, ram, windows, "-no-boot-anim"@);
        lemma_switch_not_in_head(name, opts, kind, ram, windows, "-no-passive-gps"@);
        lemma_switch_not_in_head(name, opts, kind, ram, windows, "--no-bluetooth"@);
        lemma_contains_concat(head, flags, "-audio"@);
        lemma_contains_concat(head, flags, "-no-snapshot-load"@);
        lemma_contains_concat(head, flags, "-read-only"@);
        lemma_contains_concat(head, flags, "-wipe-data"@);
        lemma_contains_concat(head, flags, "-no-boot-anim"@);
        lemma_contains_concat(head, flags, "-no-passive-gps"@);
        lemma_contains_concat(head, flags, "--no-bluetooth"@);
    } else {
        let tail = crate::launch::flag_if(opts.wipe_data == Some(true), seq!["-wipe-data"@]);
        assert(args == seq!["-avd"@, name] + tail);
        lemma_contains_concat(seq!["-avd"@, name], tail, "-audio"@);
        lemma_not_in(seq!["-avd"@], "-audio"@);
        assert(seq!["-avd"@, name] == seq!["-avd"@] + seq![name]);
        lemma_contains_concat(seq!["-avd"@], seq![name], "-audio"@);
        lemma_not_in(tail, "-audio"@);
        lemma_contains_concat(seq!["-avd"@, name], tail, "-no-snapshot-load"@);
        lemma_not_in(seq!["-avd"@], "-no-snapshot-load"@);
        assert(seq!["-avd"@, name] == seq!["-avd"@] + seq![name]);
        lemma_contains_concat(seq!["-avd"@], seq![name], "-no-snapshot-load"@);
        lemma_not_in(tail, "-no-snapshot-load"@);
        lemma_contains_concat(seq!["-avd"@, name], tail, "-read-only"@);
        lemma_not_in(seq!["-avd"@], "-read-only"@);
        assert(seq!["-avd"@, name] == seq!["-avd"@] + seq![name]);
        lemma_contains_concat(seq!["-avd"@], seq![name], "-read-only"@);
        lemma_not_in(tail, "-read-only"@);
        lemma_contains_concat(seq!["-avd"@, name], tail, "-wipe-data"@);
        lemma_not_in(seq!["-avd"@], "-wipe-data"@);
        assert(seq!["-avd"@, name] == seq!["-avd"@] + seq![name]);
        lemma_contains_concat(seq!["-avd"@], seq![name], "-wipe-data"@);
        if opts.wipe_data == Some(true) {
            assert(tail[0] == "-wipe-data"@);
        }
        lemma_contains_concat(seq!["-avd"@, name], tail, "-no-boot-anim"@);
        lemma_not_in(seq!["-avd"@], "-no-boot-anim"@);
        assert(seq!["-avd"@, name] == seq!["-avd"@] + seq![name]);
        lemma_contains_concat(seq!["-avd"@], seq![name], "-no-boot-anim"@);
        lemma_not_in(tail, "-no-boot-anim"@);
        lemma_contains_concat(seq!["-avd"@, name], tail, "-no-passive-gps"@);
        lemma_not_in(seq!["-avd"@], "-no-passive-gps"@);
        assert(seq!["-avd"@, name] == seq!["-avd"@] + seq![name]);
        lemma_contains_concat(seq!["-avd"@], seq![name], "-no-passive-gps"@);
        lemma_not_in(tail, "-no-passive-gps"@);
        lemma_contains_concat(seq!["-avd"@, name], tail, "--no-bluetooth"@);
        lemma_not_in(seq!["-avd"@], "--no-bluetooth"@);
        assert(seq!["-avd"@, name] == seq!["-avd"@] + seq![name]);
        lemma_contains_concat(seq!["-avd"@], seq![name], "--no-bluetooth"@);
        lemma_not_in(tail, "--no-bluetooth"@);
    }
}

/// The snapshots an emulator left are deleted only when it exited within ten seconds of
/// its launch, and then always when there are any.
pub proof fn law_snapshots_cleared_only_after_early_exit(elapsed_secs: u64, snapshots_exist: bool)
    ensures
        crate::launch::clears_snapshots(elapsed_secs, snapshots_exist) <==> (elapsed_secs < 10
            && snapshots_exist),
{
}

/// An adapter is dedicated exactly when its lowercased name mentions NVIDIA, AMD, Radeon,
/// GeForce, RTX or GTX.
pub proof fn law_dedicated_gpu_names(lower: Seq<char>)
    ensures
        crate::system::names_dedicated_gpu(lower) <==> (contains(lower, "nvidia"@) || contains(
            lower,
            "amd"@,
        ) || contains(lower, "radeon"@) || contains(lower, "geforce"@) || contains(lower, "rtx"@)
            || contains(lower, "gtx"@)),
{
}

/// The kind of an AVD comes from its image lines: a `tag.id` naming `wear`, `tv` or
/// `automotive`, or an `image.sysdir.1` naming `wear`, `android-tv` or `google-tv`, or
/// `android-automotive`, makes it a Wear OS, TV or Automotive device.
pub proof fn law_device_kind_from_image_lines(content: Seq<char>, i: int)
    requires
        0 <= i < lines(content).len(),
    ensures
        ({
            let l = lines(content)[i];
            let f = crate::config::field_value(l);
            let tag = has_key(l, "tag.id="@);
            let sys = has_key(l, "image.sysdir.1="@);
            &&& ((tag || sys) && contains(f, "wear"@)) ==> device_kind(content).wear
            &&& ((tag && contains(f, "tv"@)) || (sys && (contains(f, "android-tv"@) || contains(
                f,
                "google-tv"@,
            )))) ==> device_kind(content).tv
            &&& ((tag && contains(f, "automotive"@)) || (sys && contains(f, "android-automotive"@)))
                ==> device_kind(content).automotive
        }),
{
    let l = lines(content)[i];
    assert(crate::config::marks_wear(l) ==> device_kind(content).wear);
    assert(crate::config::marks_tv(l) ==> device_kind(content).tv);
    assert(crate::config::marks_automotive(l) ==> device_kind(content).automotive);
}

/// A phone image keeps the cores and RAM asked for, and gets a 1024 MB heap from 8 GB of
/// RAM up and a 512 MB heap below.
pub proof fn law_phone_resources_kept(cores: nat, ram: nat)
    ensures
        ({
            let phone = DeviceKind { wear: false, tv: false, automotive: false };
            &&& crate::config::clamped_cores(phone, cores) == cores
            &&& crate::config::clamped_ram(phone, ram) == ram
            &&& heap_size_for(phone, ram) == (if ram >= 8192 {
                "1024"@
            } else {
                "512"@
            })
        }),
{
}

} // verus!
