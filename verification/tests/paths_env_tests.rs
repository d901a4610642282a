use kb_emulator_manager::env::{build_env, EnvVars};
use kb_emulator_manager::paths::{
    avd_config_file, avd_dir, avd_folder, avd_ini_file, cmdline_dir, emulator_dir, find_jdk_entry,
    java_exe, jdk_dir, join, required_dirs, resolve_sdk_base, sdk_dir, stale_lock_paths,
};
use kb_emulator_manager::registry::RunningEmulators;

#[test]
fn join_follows_unix_rules() {
    assert_eq!(join("/a", "b", false), "/a/b");
    assert_eq!(join("/a/", "b", false), "/a/b");
    assert_eq!(join("", "b", false), "b");
    assert_eq!(join("/a", "/b", false), "/b");
    assert_eq!(join("a\\", "b", false), "a\\/b");
    // no drives and no backslash roots off Windows
    assert_eq!(join("/a", "\\b", false), "/a/\\b");
    assert_eq!(join("/a", "C:b", false), "/a/C:b");
}

#[test]
fn join_follows_windows_rules() {
    assert_eq!(join("C:\\a", "b", true), "C:\\a\\b");
    assert_eq!(join("C:\\a\\", "b", true), "C:\\a\\b");
    assert_eq!(join("C:/a/", "b", true), "C:/a/b");
    assert_eq!(join("C:\\a", "D:\\b", true), "D:\\b");
    // a rooted part keeps the drive of the path
    assert_eq!(join("C:\\a", "\\b", true), "C:\\b");
    assert_eq!(join("C:\\a", "/b", true), "C:/b");
    assert_eq!(join("x\\a", "\\b", true), "\\b");
    // a bare drive gets no separator
    assert_eq!(join("C:", "b", true), "C:b");
    assert_eq!(join("C:a", "b", true), "C:a\\b");
    // a part with a drive replaces the path, even a relative one
    assert_eq!(join("C:\\a", "d:b", true), "d:b");
    // a digit is no drive
    assert_eq!(join("C:\\a", "1:b", true), "C:\\a\\1:b");
    assert_eq!(join("", "b", true), "b");
}

#[test]
fn folders_under_the_base() {
    assert_eq!(jdk_dir("/x/android-sdk", false), "/x/android-sdk/jdk");
    assert_eq!(sdk_dir("/x/android-sdk", false), "/x/android-sdk/sdk");
    assert_eq!(cmdline_dir("/x/android-sdk", false), "/x/android-sdk/sdk/cmdline-tools/latest");
    assert_eq!(emulator_dir("/x/android-sdk", false), "/x/android-sdk/sdk/emulator");
    assert_eq!(avd_dir("/x/android-sdk", false), "/x/android-sdk/avd");
    assert_eq!(cmdline_dir("C:\\kb\\android-sdk", true), "C:\\kb\\android-sdk\\sdk\\cmdline-tools\\latest");
    assert_eq!(
        required_dirs("/b", false),
        vec!["/b".to_string(), "/b/jdk".to_string(), "/b/sdk".to_string(), "/b/avd".to_string()]
    );
}

#[test]
fn sdk_base_next_to_project_or_executable() {
    let anc = vec![
        ("/p/src-tauri/target/debug".to_string(), false),
        ("/p/src-tauri/target".to_string(), false),
        ("/p/src-tauri".to_string(), false),
        ("/p".to_string(), true),
    ];
    assert_eq!(resolve_sdk_base("/p/src-tauri/target/debug", &anc, &None, false), "/p/android-sdk");
    assert_eq!(
        resolve_sdk_base("/opt/app", &vec![("/opt/app".to_string(), false)], &None, false),
        "/opt/app/android-sdk"
    );
    // a profile without an android-sdk folder changes nothing
    let profile = Some(("/home/u".to_string(), false));
    assert_eq!(resolve_sdk_base("/p/src-tauri/target/debug", &anc, &profile, false), "/p/android-sdk");
}

#[test]
fn sdk_base_looks_ten_levels_up_at_most() {
    let mut anc: Vec<(String, bool)> = (0..10).map(|i| (format!("/d{}", i), false)).collect();
    anc.push(("/top".to_string(), true));
    assert_eq!(resolve_sdk_base("/exe", &anc, &None, false), "/exe/android-sdk");
}

#[test]
fn jdk_entry_and_java() {
    let names = vec!["readme".to_string(), "jdk-21.0.4+7".to_string(), "jdk2".to_string()];
    assert_eq!(find_jdk_entry(&names), Some(1));
    assert_eq!(find_jdk_entry(&vec!["x".to_string()]), None);
    assert_eq!(java_exe("/j", false), "/j/bin/java");
    assert_eq!(java_exe("C:\\j", true), "C:\\j\\bin\\java.exe");
}

#[test]
fn avd_files() {
    assert_eq!(avd_folder("/avd", "Pixel", false), "/avd/Pixel.avd");
    assert_eq!(avd_config_file("/avd", "Pixel", false), "/avd/Pixel.avd/config.ini");
    assert_eq!(avd_config_file("C:\\avd", "Pixel", true), "C:\\avd\\Pixel.avd\\config.ini");
    assert_eq!(avd_ini_file("/avd", "Pixel", false), "/avd/Pixel.ini");
    assert_eq!(
        stale_lock_paths("/avd/Pixel.avd", false),
        ("/avd/Pixel.avd/multiinstance.lock".to_string(), "/avd/Pixel.avd/hardware-qemu.ini.lock".to_string())
    );
}

fn lookup(env: &EnvVars, k: &str) -> Option<String> {
    env.get(&k.to_string())
}

#[test]
fn env_set_replaces_and_keeps_keys_unique() {
    let mut env = EnvVars::new();
    env.set("A".to_string(), "1".to_string());
    env.set("B".to_string(), "2".to_string());
    env.set("A".to_string(), "3".to_string());
    assert_eq!(lookup(&env, "A"), Some("3".to_string()));
    assert_eq!(lookup(&env, "B"), Some("2".to_string()));
    assert_eq!(lookup(&env, "C"), None);
    assert_eq!(env.to_pairs().len(), 2);
}

#[test]
fn env_from_pairs_later_wins() {
    let env = EnvVars::from_pairs(vec![
        ("X".to_string(), "1".to_string()),
        ("X".to_string(), "2".to_string()),
    ]);
    assert_eq!(lookup(&env, "X"), Some("2".to_string()));
    assert_eq!(env.to_pairs(), vec![("X".to_string(), "2".to_string())]);
}

#[test]
fn tool_environment_with_portable_jdk() {
    let vars = EnvVars::from_pairs(vec![("PATH".to_string(), "/usr/bin".to_string())]);
    let env = build_env(vars, Some("/b/jdk/jdk-21"), "/b", false);
    assert_eq!(lookup(&env, "JAVA_HOME"), Some("/b/jdk/jdk-21".to_string()));
    assert_eq!(lookup(&env, "PATH"), Some("/b/jdk/jdk-21/bin:/usr/bin".to_string()));
    assert_eq!(lookup(&env, "ANDROID_SDK_ROOT"), Some("/b/sdk".to_string()));
    assert_eq!(lookup(&env, "ANDROID_AVD_HOME"), Some("/b/avd".to_string()));
    assert_eq!(lookup(&env, "ANDROID_EMULATOR_HOME"), Some("/b/avd".to_string()));
    assert_eq!(lookup(&env, "QEMU_AUDIO_TIMER_PERIOD"), Some("0".to_string()));
    assert_eq!(lookup(&env, "QEMU_WASAPI_BUF_SIZE"), Some("512".to_string()));
}

#[test]
fn tool_environment_on_windows_without_path() {
    let env = build_env(EnvVars::new(), Some("C:\\j"), "C:\\b", true);
    assert_eq!(lookup(&env, "PATH"), Some("C:\\j\\bin;".to_string()));
    assert_eq!(lookup(&env, "ANDROID_SDK_ROOT"), Some("C:\\b\\sdk".to_string()));
    assert_eq!(lookup(&env, "ANDROID_AVD_HOME"), Some("C:\\b\\avd".to_string()));
    let env = build_env(EnvVars::new(), None, "/b", false);
    assert_eq!(lookup(&env, "JAVA_HOME"), None);
    assert_eq!(lookup(&env, "PATH"), None);
}

#[test]
fn running_emulators_registry() {
    let mut reg = RunningEmulators::new();
    assert!(!reg.is_running("Pixel"));
    reg.mark_running("Pixel", 42);
    assert!(reg.is_running("Pixel"));
    assert_eq!(reg.pid_of("Pixel"), Some(42));
    reg.mark_running("Pixel", 43);
    assert_eq!(reg.pid_of("Pixel"), Some(43));
    reg.mark_running("Wear", 7);
    reg.mark_stopped("Pixel");
    assert!(!reg.is_running("Pixel"));
    assert_eq!(reg.pid_of("Pixel"), None);
    assert_eq!(reg.pid_of("Wear"), Some(7));
    reg.mark_stopped("Ghost");
    assert!(reg.is_running("Wear"));
}

#[test]
fn sdk_base_in_the_user_profile_comes_first() {
    let anc = vec![("/p".to_string(), true)];
    let profile = Some(("/home/u".to_string(), true));
    assert_eq!(resolve_sdk_base("/p", &anc, &profile, false), "/home/u/android-sdk");
    let profile = Some(("C:\\Users\\u".to_string(), true));
    assert_eq!(resolve_sdk_base("C:\\app", &vec![], &profile, true), "C:\\Users\\u\\android-sdk");
}
