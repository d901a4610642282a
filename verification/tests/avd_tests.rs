use kb_emulator_manager::avd::{
    apply_perf_settings, avd_info, avd_name_from_ini, avdmanager_create_args,
    avdmanager_create_script, avdmanager_delete_args, avdmanager_delete_script, build_perf_config,
    config_value_of, is_avd_ini_file, is_special_system_image, sanitize_avd_name,
    should_apply_perf_profile,
};
use kb_emulator_manager::types::CreateAvdOptions;

fn opts(ram: u32, res: &str) -> CreateAvdOptions {
    CreateAvdOptions {
        name: "Pixel 8".to_string(),
        system_image: "system-images;android-34;google_apis;x86_64".to_string(),
        ram,
        cores: 6,
        storage: 8192,
        gpu_mode: "host".to_string(),
        screen_resolution: res.to_string(),
        dpi: 420,
        raw_launch: None,
    }
}

fn pairs(v: &[(&str, &str)]) -> Vec<(String, String)> {
    v.iter().map(|(k, v)| (k.to_string(), v.to_string())).collect()
}

#[test]
fn perf_profile_for_8_gb() {
    let got = build_perf_config(&opts(8192, "1080x2400"));
    let want = pairs(&[
        ("hw.cpu.ncore", "6"),
        ("hw.ramSize", "8192"),
        ("hw.gpu.mode", "host"),
        ("hw.gpu.enabled", "yes"),
        ("hw.audioInput", "yes"),
        ("hw.keyboard", "yes"),
        ("hw.mainKeys", "no"),
        ("hw.lcd.width", "1080"),
        ("hw.lcd.height", "2400"),
        ("hw.lcd.density", "420"),
        ("hw.sdCard", "no"),
        ("disk.dataPartition.size", "8192M"),
        ("hw.accelerometer", "yes"),
        ("hw.gps", "yes"),
        ("hw.sensors.orientation", "yes"),
        ("fastboot.forceColdBoot", "no"),
        ("fastboot.forceChosenSnapshotBoot", "no"),
        ("fastboot.forceFastBoot", "yes"),
        ("vm.heapSize", "1024"),
        ("disk.cachePartition", "yes"),
        ("disk.cachePartition.size", "800M"),
        ("hw.camera.back", "virtualscene"),
        ("hw.camera.front", "emulated"),
    ]);
    assert_eq!(got, want);
}

#[test]
fn perf_profile_below_8_gb_and_without_resolution() {
    let got = build_perf_config(&opts(8191, "fullscreen"));
    assert_eq!(got[18], ("vm.heapSize".to_string(), "512".to_string()));
    assert_eq!(got[7], ("hw.lcd.width".to_string(), "1280".to_string()));
    assert_eq!(got[8], ("hw.lcd.height".to_string(), "720".to_string()));
    let got = build_perf_config(&opts(0, "1x2x3"));
    assert_eq!(got[7].1, "1");
    assert_eq!(got[8].1, "2x3");
    assert_eq!(got[1].1, "0");
}

#[test]
fn settings_replace_the_first_key_occurrence_or_append() {
    let s = pairs(&[("hw.ramSize", "4096"), ("vm.heapSize", "512")]);
    assert_eq!(
        apply_perf_settings("a=1\nhw.ramSize=1536\nb=2", &s),
        "a=1\nhw.ramSize=4096\nb=2\nvm.heapSize=512"
    );
    // the key is searched anywhere in the text, not only at a line start
    let s = pairs(&[("ramSize", "1")]);
    assert_eq!(apply_perf_settings("hw.ramSize=2\n", &s), "hw.ramSize=1\n");
    // the last line has no newline after it
    let s = pairs(&[("k", "v")]);
    assert_eq!(apply_perf_settings("x=0\nk=old", &s), "x=0\nk=v");
    assert_eq!(apply_perf_settings("", &s), "\nk=v");
}

#[test]
fn special_images_keep_the_stock_profile() {
    assert!(is_special_system_image("system-images;android-33;android-wear;x86_64"));
    assert!(is_special_system_image("system-images;android-34;google-tv;x86_64"));
    assert!(is_special_system_image("system-images;android-34;android-automotive;x86_64"));
    assert!(!is_special_system_image("system-images;android-34;google_apis_playstore;x86_64"));
    assert!(should_apply_perf_profile("system-images;android-34;default;x86_64", None));
    assert!(should_apply_perf_profile("system-images;android-34;default;x86_64", Some(false)));
    assert!(!should_apply_perf_profile("system-images;android-34;default;x86_64", Some(true)));
    assert!(!should_apply_perf_profile("system-images;android-33;android-wear;x86_64", None));
}

#[test]
fn avd_names_are_sanitized() {
    assert_eq!(sanitize_avd_name("My Pixel  8"), "My_Pixel__8");
    assert_eq!(sanitize_avd_name("plain"), "plain");
    assert_eq!(sanitize_avd_name(""), "");
}

#[test]
fn avdmanager_calls() {
    assert_eq!(
        avdmanager_create_args("P8", "img"),
        vec!["create", "avd", "--name", "P8", "--package", "img", "--force"]
    );
    assert_eq!(
        avdmanager_create_script("C:\\sdk\\avdmanager.bat", "P8", "img"),
        "echo no | & 'C:\\sdk\\avdmanager.bat' create avd --name 'P8' --package 'img' --force"
    );
    assert_eq!(avdmanager_delete_args("P8"), vec!["delete", "avd", "--name", "P8"]);
    assert_eq!(avdmanager_delete_script("b", "P8"), "& 'b' delete avd --name 'P8'");
}

#[test]
fn avd_home_files() {
    assert!(is_avd_ini_file("Pixel_8.ini"));
    assert!(!is_avd_ini_file("hardware-qemu.ini"));
    assert!(!is_avd_ini_file("emu-update-last-check.ini"));
    assert!(!is_avd_ini_file("Pixel_8.avd"));
    assert_eq!(avd_name_from_ini("Pixel_8.ini"), "Pixel_8");
    assert_eq!(avd_name_from_ini("odd.ini.ini"), "odd");
}

#[test]
fn config_values_and_list_entries() {
    let ini = "avd.ini.encoding=UTF-8\npath=/home/u/avd/Pixel_8.avd \npath.rel=avd/Pixel_8.avd\n";
    let cfg = "tag.display=Google APIs\nimage.sysdir.1=system-images/android-34/google_apis/x86_64/\nhw.ramSize=4096\nhw.cpu.ncore=4\nhw.gpu.mode=auto\n";
    assert_eq!(config_value_of(ini, "path"), "/home/u/avd/Pixel_8.avd");
    assert_eq!(config_value_of(cfg, "missing"), "");
    // the key must start the line
    assert_eq!(config_value_of(" hw.ramSize=1", "hw.ramSize"), "");
    let info = avd_info("Pixel_8".to_string(), ini, cfg, true);
    assert_eq!(info.name, "Pixel_8");
    assert_eq!(info.path, "/home/u/avd/Pixel_8.avd");
    assert_eq!(info.target, "Google APIs");
    assert_eq!(info.api, "system-images/android-34/google_apis/x86_64/");
    assert_eq!(info.ram, "4096");
    assert_eq!(info.cores, "4");
    assert_eq!(info.gpu, "auto");
    assert!(info.running);
}
