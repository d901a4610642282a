use kb_emulator_manager::config::DeviceKind;
use kb_emulator_manager::launch::{
    compile_package_args, emulator_exited, ini_paths_stale, emulator_launch_args, exit_notice, launch_started, ini_path_values, list_packages_args,
    normalize_accel, normalize_gpu_mode, optimize_progress_message, raw_launch_decision,
    repair_ini_paths, should_clear_snapshots, speed_mode_adb_steps, stop_emulator_args,
    third_party_packages, LaunchOptions, RecentLines,
};

use kb_emulator_manager::registry::RunningEmulators;

fn phone() -> DeviceKind {
    DeviceKind { wear: false, tv: false, automotive: false }
}

fn no_opts() -> LaunchOptions {
    LaunchOptions {
        gpu_mode: None,
        accel: None,
        quick_boot: None,
        boot_anim: None,
        no_camera: None,
        no_gps: None,
        no_bluetooth: None,
        read_only: None,
        wipe_data: None,
        speed_mode: None,
        raw_launch: None,
    }
}

const FIXED_TAIL: [&str; 15] = [
    "-feature",
    "Vulkan,GLESDynamicVersion",
    "-logcat",
    "*:S",
    "-no-metrics",
    "-prop",
    "qemu.dalvik.vm.heapsize=512m",
    "-prop",
    "qemu.dalvik.vm.heapgrowthlimit=256m",
    "-prop",
    "qemu.net.tcp.buffersize.default=4096,87380,110208,4096,16384,110208",
    "-prop",
    "qemu.net.tcp.buffersize.wifi=262144,524288,1048576,262144,524288,1048576",
    "-dns-server",
    "1.1.1.1",
];

#[test]
fn default_tuned_launch_on_linux() {
    let args = emulator_launch_args("P8", &no_opts(), &phone(), 4096, false);
    let mut want: Vec<&str> = vec!["-avd", "P8", "-gpu", "auto", "-accel", "on"];
    want.extend_from_slice(&FIXED_TAIL);
    want.extend_from_slice(&["-netsim-args", "--no-cli-ui"]);
    assert_eq!(args, want);
}

#[test]
fn every_switch_on_windows_with_8_gb() {
    let opts = LaunchOptions {
        gpu_mode: Some("angle_indirect".to_string()),
        accel: Some("kvm".to_string()),
        quick_boot: Some(false),
        boot_anim: Some(false),
        no_camera: Some(true),
        no_gps: Some(true),
        no_bluetooth: Some(true),
        read_only: Some(true),
        wipe_data: Some(true),
        speed_mode: Some(true),
        raw_launch: Some(false),
    };
    let args = emulator_launch_args("P8", &opts, &phone(), 8192, true);
    assert_eq!(args[3], "host");
    assert_eq!(args[5], "kvm");
    assert_eq!(args[12], "qemu.dalvik.vm.heapsize=1024m");
    assert_eq!(args[14], "qemu.dalvik.vm.heapgrowthlimit=512m");
    assert_eq!(
        args[21..].to_vec(),
        vec![
            "-audio",
            "wasapi",
            "-no-snapshot-load",
            "-no-snapshot-save",
            "-read-only",
            "-wipe-data",
            "-no-boot-anim",
            "-camera-back",
            "none",
            "-camera-front",
            "none",
            "-no-passive-gps",
            "-netsim-args",
            "--no-cli-ui",
            "-netsim-args",
            "--no-bluetooth",
        ]
    );
}

#[test]
fn raw_and_special_launches() {
    let mut opts = no_opts();
    opts.raw_launch = Some(true);
    assert_eq!(emulator_launch_args("P8", &opts, &phone(), 4096, true), vec!["-avd", "P8"]);
    opts.wipe_data = Some(true);
    assert_eq!(emulator_launch_args("P8", &opts, &phone(), 4096, true), vec!["-avd", "P8", "-wipe-data"]);
    let wear = DeviceKind { wear: true, tv: false, automotive: false };
    let args = emulator_launch_args("W", &no_opts(), &wear, 8192, false);
    assert_eq!(&args[..2], &["-avd", "W"]);
    assert_eq!(args[12], "qemu.dalvik.vm.heapsize=128m");
    assert_eq!(args[14], "qemu.dalvik.vm.heapgrowthlimit=64m");
    let tv = DeviceKind { wear: false, tv: true, automotive: false };
    let args = emulator_launch_args("T", &no_opts(), &tv, 8192, false);
    assert_eq!(args[12], "qemu.dalvik.vm.heapsize=256m");
    assert_eq!(args[14], "qemu.dalvik.vm.heapgrowthlimit=128m");
    let auto = DeviceKind { wear: false, tv: false, automotive: true };
    let mut wipe = no_opts();
    wipe.wipe_data = Some(true);
    let args = emulator_launch_args("A", &wipe, &auto, 8192, false);
    assert_eq!(args[12], "qemu.dalvik.vm.heapsize=512m");
    assert!(args.contains(&"-wipe-data".to_string()));
    assert!(!raw_launch_decision(None));
    assert!(!raw_launch_decision(Some(false)));
    assert!(raw_launch_decision(Some(true)));
}

#[test]
fn gpu_and_accelerator_normalization() {
    assert_eq!(normalize_gpu_mode(&None), "auto");
    assert_eq!(normalize_gpu_mode(&Some("angle_indirect".into())), "host");
    assert_eq!(normalize_gpu_mode(&Some("swiftshader_indirect".into())), "software");
    assert_eq!(normalize_gpu_mode(&Some("host".into())), "host");
    assert_eq!(normalize_gpu_mode(&Some("software".into())), "software");
    assert_eq!(normalize_gpu_mode(&Some("lavapipe".into())), "auto");
    assert_eq!(normalize_accel(&None, true), "on");
    assert_eq!(normalize_accel(&Some("haxm".into()), true), "on");
    assert_eq!(normalize_accel(&Some("aehd".into()), false), "on");
    assert_eq!(normalize_accel(&Some("kvm".into()), false), "on");
    assert_eq!(normalize_accel(&Some("kvm".into()), true), "kvm");
    assert_eq!(normalize_accel(&Some("off".into()), false), "off");
}

#[test]
fn moved_avd_ini_is_repaired() {
    let ini = "avd.ini.encoding=UTF-8\npath=/old/P8.avd\npath.rel=avd/P8.avd";
    let values = ini_path_values(ini);
    assert_eq!(values, vec![None, Some("/old/P8.avd".to_string()), None]);
    let stale = vec![false, true, false];
    assert_eq!(
        repair_ini_paths(ini, &stale, "/new/P8.avd").unwrap(),
        "avd.ini.encoding=UTF-8\npath=/new/P8.avd\npath.rel=avd/P8.avd"
    );
    assert!(repair_ini_paths(ini, &vec![false, false, false], "/new/P8.avd").is_none());
    // a stale mark on a line that is not a path line changes nothing
    assert!(repair_ini_paths(ini, &vec![true, false, true], "/x").is_none());
    assert_eq!(ini_path_values("path=path=/a"), vec![Some("/a".to_string())]);
}

#[test]
fn emulator_log_is_deduplicated_over_256_lines() {
    let mut recent = RecentLines::new();
    assert_eq!(recent.accept("  boot completed \n"), Some("boot completed".to_string()));
    assert_eq!(recent.accept("boot completed"), None);
    assert_eq!(recent.accept("   "), None);
    for i in 0..256 {
        assert!(recent.accept(&format!("line {}", i)).is_some());
    }
    // "boot completed" has left the window of 256
    assert_eq!(recent.accept("boot completed"), Some("boot completed".to_string()));
    assert_eq!(recent.accept("line 255"), None);
}

#[test]
fn exit_notices() {
    assert_eq!(exit_notice(12, true), None);
    assert_eq!(
        exit_notice(3, true).unwrap(),
        "[KB] Emulator crashed immediately — corrupted snapshot auto-deleted. Please launch again for a clean cold boot."
    );
    assert_eq!(
        exit_notice(9, false).unwrap(),
        "[KB] Emulator exited unexpectedly on launch. Try Wipe & Boot if it happens again."
    );
    assert!(should_clear_snapshots(9, true));
    assert!(!should_clear_snapshots(10, true));
    assert!(!should_clear_snapshots(1, false));
}

#[test]
fn guest_app_optimization() {
    let out = "package:com.example.game\r\n  package:org.app \npackage:\nother\n";
    assert_eq!(third_party_packages(out), vec!["com.example.game", "org.app"]);
    assert!(third_party_packages("").is_empty());
    assert_eq!(
        list_packages_args(),
        vec!["-s", "emulator-5554", "shell", "pm", "list", "packages", "-3"]
    );
    assert_eq!(
        compile_package_args("org.app"),
        vec!["-s", "emulator-5554", "shell", "cmd", "package", "compile", "-m", "speed", "-f", "org.app"]
    );
    assert_eq!(optimize_progress_message(0, 3, "org.app"), "[1/3] Optimizing: org.app...");
}

#[test]
fn speed_mode_and_stop() {
    let steps = speed_mode_adb_steps();
    assert_eq!(steps.len(), 4);
    assert_eq!(steps[1], vec!["root"]);
    assert_eq!(steps[3], vec!["shell", "service", "call", "SurfaceFlinger", "1008", "i32", "1"]);
    assert_eq!(stop_emulator_args(), vec!["-s", "emulator-5554", "emu", "kill"]);
}

#[test]
fn a_launched_avd_runs_until_its_emulator_exits() {
    let mut reg = RunningEmulators::new();
    let r = launch_started(&mut reg, "Pixel_8", 40213);
    assert!(r.ok);
    assert_eq!(r.error, None);
    assert_eq!(r.output, Some("40213".to_string()));
    assert!(reg.is_running("Pixel_8"));
    assert_eq!(reg.pid_of("Pixel_8"), Some(40213));
    launch_started(&mut reg, "Wear_1", 7);
    let (name, code) = emulator_exited(&mut reg, "Pixel_8");
    assert_eq!(name, "Pixel_8");
    assert_eq!(code, 0);
    assert!(!reg.is_running("Pixel_8"));
    assert!(reg.is_running("Wear_1"));
    assert_eq!(launch_started(&mut reg, "x", 0).output, Some("0".to_string()));
}

#[test]
fn stale_ini_paths_are_the_moved_ones() {
    let ini = "avd.ini.encoding=UTF-8\npath=/old/P8.avd\npath.rel=avd/P8.avd\npath=/new/P8.avd";
    assert_eq!(ini_paths_stale(ini, "/new/P8.avd"), vec![false, true, false, false]);
    // a trailing separator does not make another folder
    assert_eq!(ini_paths_stale("path=/new/P8.avd/", "/new/P8.avd"), vec![false]);
}
