use kb_emulator_manager::avd::{avd_info, config_value_of};
use kb_emulator_manager::config::{
    detect_device_kind, edit_avd_config, lock_wear_os_config, repair_special_config, tune_heap,
};

const PHONE: &str = "avd.ini.encoding=UTF-8\nhw.cpu.ncore=4\nhw.ramSize=8192\nimage.sysdir.1=system-images/android-34/google_apis/x86_64/\ntag.id=google_apis\nhw.lcd.width=1080\nvm.heapSize=256\n";

const WEAR: &str = "hw.cpu.ncore=4\nhw.ramSize=2048\ntag.id=android-wear\nimage.sysdir.1=system-images/android-33/android-wear/x86_64/\nhw.lcd.width=384\nhw.lcd.height=384\nhw.lcd.density=320\nskin.name=384x384\nskin.path=_no_skin\nhw.gpu.mode=auto\nhw.gpu.enabled=yes\nvm.heapSize=128\nhw.keyboard=yes";

#[test]
fn device_kind_of_phone_wear_tv_and_automotive() {
    let k = detect_device_kind(PHONE);
    assert!(!k.wear && !k.tv && !k.automotive);
    let k = detect_device_kind(WEAR);
    assert!(k.wear && !k.tv && !k.automotive);
    let k = detect_device_kind("tag.id=google-tv\n");
    assert!(!k.wear && k.tv && !k.automotive);
    let k = detect_device_kind("image.sysdir.1=system-images/android-34/android-automotive/x86_64/\n");
    assert!(!k.wear && !k.tv && k.automotive);
    // the sysdir test for TV asks for "android-tv" or "google-tv", not just "tv"
    let k = detect_device_kind("image.sysdir.1=system-images/tvish/x86_64/\n");
    assert!(!k.tv);
    // only the second `=` field counts, trimmed
    let k = detect_device_kind("  tag.id =wear\ntag.id= wear =x\n");
    assert!(k.wear);
}

#[test]
fn heap_tuning_of_a_phone_with_8_gb() {
    let (ram, out) = tune_heap(PHONE);
    assert_eq!(ram, 8192);
    assert_eq!(
        out,
        "avd.ini.encoding=UTF-8\nhw.cpu.ncore=4\nhw.ramSize=8192\nimage.sysdir.1=system-images/android-34/google_apis/x86_64/\ntag.id=google_apis\nhw.lcd.width=1080\nvm.heapSize=1024"
    );
}

#[test]
fn heap_tuning_appends_a_missing_heap_line() {
    let (ram, out) = tune_heap("hw.ramSize=4096\r\nhw.cpu.ncore=2");
    assert_eq!(ram, 4096);
    assert_eq!(out, "hw.ramSize=4096\nhw.cpu.ncore=2\nvm.heapSize=512");
}

#[test]
fn heap_tuning_ram_defaults_and_last_line_wins() {
    assert_eq!(tune_heap("hw.cpu.ncore=2\n").0, 4096);
    assert_eq!(tune_heap("hw.ramSize=lots\n").0, 4096);
    assert_eq!(tune_heap("hw.ramSize=2048\nhw.ramSize=9000\n").0, 9000);
    assert_eq!(tune_heap("hw.ramSize=9000\nhw.ramSize=x\n").0, 4096);
    assert_eq!(tune_heap("").0, 4096);
    assert_eq!(tune_heap("").1, "vm.heapSize=512");
}

#[test]
fn heap_tuning_gives_special_images_their_heap() {
    let (ram, out) = tune_heap(WEAR);
    assert_eq!(ram, 2048);
    assert_eq!(out, WEAR);
    let (ram, out) = tune_heap("tag.id=google-tv\nhw.ramSize=2048\nvm.heapSize=512\n");
    assert_eq!(ram, 2048);
    assert_eq!(out, "tag.id=google-tv\nhw.ramSize=2048\nvm.heapSize=256");
    let (_, out) = tune_heap("image.sysdir.1=system-images/android-30/android-automotive/x86_64/");
    assert_eq!(out, "image.sysdir.1=system-images/android-30/android-automotive/x86_64/\nvm.heapSize=512");
}

#[test]
fn special_repair_strips_display_overrides() {
    let out = repair_special_config(WEAR).unwrap();
    assert_eq!(
        out,
        "hw.cpu.ncore=4\nhw.ramSize=2048\ntag.id=android-wear\nimage.sysdir.1=system-images/android-33/android-wear/x86_64/\nhw.keyboard=yes"
    );
    assert!(repair_special_config(PHONE).is_none());
    // the wider test of the repair counts a tag with "tv" in it
    assert!(repair_special_config("tag.id=tvbox\nvm.heapSize=1\n").is_some());
}

#[test]
fn wear_lock_sets_one_core_and_one_gigabyte() {
    let out = lock_wear_os_config(WEAR).unwrap();
    assert_eq!(
        out,
        "hw.cpu.ncore=1\nhw.ramSize=1024\ntag.id=android-wear\nimage.sysdir.1=system-images/android-33/android-wear/x86_64/\nhw.gpu.mode=auto\nhw.gpu.enabled=yes\nvm.heapSize=128\nhw.keyboard=yes"
    );
    assert!(lock_wear_os_config(PHONE).is_none());
}

#[test]
fn edit_of_a_phone_rewrites_and_appends() {
    let out = edit_avd_config(PHONE, "6", "12288", "host", Some("1440x2560"), Some("560"));
    assert_eq!(
        out,
        "avd.ini.encoding=UTF-8\nhw.cpu.ncore=6\nhw.ramSize=12288\nimage.sysdir.1=system-images/android-34/google_apis/x86_64/\ntag.id=google_apis\nhw.lcd.width=1440\nvm.heapSize=1024\nhw.gpu.mode=host\nhw.lcd.height=2560\nskin.name=1440x2560\nhw.lcd.density=560"
    );
}

#[test]
fn edit_without_resolution_keeps_display_lines() {
    let out = edit_avd_config("hw.lcd.width=1080\nhw.lcd.density=420\nskin.name=x", "abc", "", "auto", None, None);
    assert_eq!(
        out,
        "hw.lcd.width=1080\nhw.lcd.density=420\nskin.name=x\nhw.cpu.ncore=4\nhw.ramSize=4096\nhw.gpu.mode=auto\nvm.heapSize=512"
    );
}

#[test]
fn edit_with_a_resolution_without_x_uses_1280_by_720() {
    let out = edit_avd_config("", "2", "2048", "software", Some("big"), None);
    assert_eq!(
        out,
        "hw.cpu.ncore=2\nhw.ramSize=2048\nhw.gpu.mode=software\nvm.heapSize=512\nhw.lcd.width=1280\nhw.lcd.height=720\nskin.name=big"
    );
}

#[test]
fn edit_of_a_special_image_keeps_its_locks() {
    assert_eq!(
        edit_avd_config(WEAR, "8", "8192", "host", Some("1080x1920"), Some("420")),
        "hw.cpu.ncore=1\nhw.ramSize=1024\ntag.id=android-wear\nimage.sysdir.1=system-images/android-33/android-wear/x86_64/\nhw.lcd.width=384\nhw.lcd.height=384\nhw.lcd.density=320\nskin.name=384x384\nskin.path=_no_skin\nhw.gpu.mode=host\nhw.gpu.enabled=yes\nvm.heapSize=128\nhw.keyboard=yes"
    );
    assert_eq!(
        edit_avd_config("tag.id=android-automotive\n", "8", "8192", "host", None, None),
        "tag.id=android-automotive\nhw.cpu.ncore=4\nhw.ramSize=4096\nhw.gpu.mode=host\nvm.heapSize=512"
    );
    assert_eq!(
        edit_avd_config("tag.id=google-tv\n", "0", "512", "auto", None, None),
        "tag.id=google-tv\nhw.cpu.ncore=1\nhw.ramSize=1024\nhw.gpu.mode=auto\nvm.heapSize=256"
    );
}

#[test]
fn edit_dpi_default_is_used_only_with_a_dpi() {
    let out = edit_avd_config("hw.lcd.density=100", "1", "1", "g", None, Some("300"));
    assert_eq!(
        out,
        "hw.lcd.density=300\nhw.cpu.ncore=1\nhw.ramSize=1\nhw.gpu.mode=g\nvm.heapSize=512"
    );
}

#[test]
fn heap_tuning_twice_sets_the_same_heap() {
    let (ram, once) = tune_heap("hw.ramSize=8192\r\n  vm.heapSize=256 \n\n");
    assert_eq!(ram, 8192);
    assert_eq!(once, "hw.ramSize=8192\nvm.heapSize=1024\n");
    let (ram2, twice) = tune_heap(&once);
    assert_eq!(ram2, 8192);
    assert_eq!(twice, "hw.ramSize=8192\nvm.heapSize=1024");
    assert_eq!(detect_device_kind(&once).wear, false);
}

#[test]
fn special_repair_twice_rewrites_the_same_lines() {
    let once = repair_special_config("tag.id=android-wear\r\nhw.lcd.width=400\nhw.ramSize=1024\n").unwrap();
    assert_eq!(once, "tag.id=android-wear\nhw.ramSize=1024");
    let twice = repair_special_config(&once).unwrap();
    assert_eq!(twice, once);
    assert!(detect_device_kind(&twice).wear);
}

#[test]
fn update_is_read_back_by_the_avd_list() {
    let content = "tag.id=google_apis\nhw.cpu.ncore=2\r\nhw.ramSize=2048\n";
    let written = edit_avd_config(content, "6", "lots", " host ", None, None);
    assert_eq!(config_value_of(&written, "hw.cpu.ncore"), "6");
    assert_eq!(config_value_of(&written, "hw.ramSize"), "4096");
    assert_eq!(config_value_of(&written, "hw.gpu.mode"), "host");
    let info = avd_info("Pixel".to_string(), "path=/avd/Pixel.avd", &written, false);
    assert_eq!((info.cores.as_str(), info.ram.as_str(), info.gpu.as_str()), ("6", "4096", "host"));
}

#[test]
fn a_second_identical_edit_changes_nothing() {
    let once = edit_avd_config(PHONE, "6", "12288", "host", Some("1440x2560"), Some("560"));
    let twice = edit_avd_config(&once, "6", "12288", "host", Some("1440x2560"), Some("560"));
    assert_eq!(twice, once);
    let once = edit_avd_config(WEAR, "8", "8192", "auto", None, None);
    assert_eq!(edit_avd_config(&once, "8", "8192", "auto", None, None), once);
    // a kept line ending in a carriage return that is followed by appended lines reads back
    // without it, so the second edit writes different text
    let crlf = "abc\r\r\n";
    let once = edit_avd_config(crlf, "2", "2048", "auto", None, None);
    assert_ne!(edit_avd_config(&once, "2", "2048", "auto", None, None), once);
}

#[test]
fn a_second_identical_edit_reads_back_the_same_lines() {
    let settle = |content: &str| {
        let once = edit_avd_config(content, "2", "2048", "auto", Some("1080x1920"), None);
        let twice = edit_avd_config(&once, "2", "2048", "auto", Some("1080x1920"), None);
        once.lines().map(String::from).collect::<Vec<_>>() == twice.lines().map(String::from).collect::<Vec<_>>()
    };
    assert!(settle(PHONE));
    assert!(settle(""));
    // a kept line with one carriage return left, or an empty last line, still settles
    assert!(settle("abc\r\r\n"));
    assert!(settle("abc\n\n"));
    // a kept line left with two carriage returns loses one on each reading
    assert!(!settle("abc\r\r\r\n"));
    // two empty lines after every key: the text written ends in an empty line after an
    // empty one
    let full = "hw.cpu.ncore=4\nhw.ramSize=4096\nhw.gpu.mode=auto\nvm.heapSize=512\nhw.lcd.width=1\nhw.lcd.height=2\nskin.name=x\n\n\n";
    assert!(!settle(full));
}
