use kb_emulator_manager::install::{
    avdmanager_failure, cmdline_tools_url, exit_code_debug, expand_archive_script,
    installed_packages, jdk_archive_name, jdk_url, license_args, license_script,
    package_command_result, sdkmanager_args, sdkmanager_outcome, sdkmanager_script, tar_args,
    tool_script, unzip_args, HostOs,
};

fn strings(v: &[&str]) -> Vec<String> {
    v.iter().map(|s| s.to_string()).collect()
}

#[test]
fn download_urls_per_os() {
    assert!(jdk_url(HostOs::Windows).ends_with("OpenJDK21U-jdk_x64_windows_hotspot_21.0.4_7.zip"));
    assert!(jdk_url(HostOs::Linux).ends_with("OpenJDK21U-jdk_x64_linux_hotspot_21.0.4_7.tar.gz"));
    assert!(jdk_url(HostOs::MacOs).ends_with("OpenJDK21U-jdk_x64_mac_hotspot_21.0.4_7.tar.gz"));
    assert_eq!(
        cmdline_tools_url(HostOs::Linux),
        "https://dl.google.com/android/repository/commandlinetools-linux-11076708_latest.zip"
    );
    assert_eq!(jdk_archive_name(HostOs::Windows), "jdk.zip");
    assert_eq!(jdk_archive_name(HostOs::MacOs), "jdk.tar.gz");
}

#[test]
fn tool_script_paths() {
    assert_eq!(tool_script("/sdk/cmdline-tools/latest", "sdkmanager", false), "/sdk/cmdline-tools/latest/bin/sdkmanager");
    assert_eq!(tool_script("C:\\sdk\\cmdline-tools\\latest", "avdmanager", true), "C:\\sdk\\cmdline-tools\\latest\\bin\\avdmanager.bat");
}

#[test]
fn sdkmanager_args_end_with_sdk_root() {
    assert_eq!(
        sdkmanager_args(&strings(&["--install", "emulator"]), "/sdk/android-sdk"),
        strings(&["--install", "emulator", "--sdk_root=/sdk/android-sdk"])
    );
}

#[test]
fn sdkmanager_script_quotes_each_argument() {
    assert_eq!(
        sdkmanager_script("C:\\sdk\\sdkmanager.bat", &strings(&["--install", "--sdk_root=C:\\sdk"])),
        "& 'C:\\sdk\\sdkmanager.bat' '--install' '--sdk_root=C:\\sdk'"
    );
}

#[test]
fn exit_codes_are_written_as_debug() {
    assert_eq!(exit_code_debug(Some(1)), "Some(1)");
    assert_eq!(exit_code_debug(Some(-3)), "Some(-3)");
    assert_eq!(exit_code_debug(None), "None");
    assert_eq!(avdmanager_failure(Some(2)), "avdmanager exited with Some(2)");
}

#[test]
fn sdkmanager_outcome_success_and_failure() {
    assert_eq!(sdkmanager_outcome(true, Some(0), "out".to_string()), Ok("out".to_string()));
    assert_eq!(
        sdkmanager_outcome(false, Some(1), "out".to_string()),
        Err("sdkmanager exited with code Some(1)".to_string())
    );
    assert_eq!(
        sdkmanager_outcome(false, None, String::new()),
        Err("sdkmanager exited with code None".to_string())
    );
}

#[test]
fn package_command_result_carries_output_or_error() {
    let ok = package_command_result(Ok("done".to_string()));
    assert!(ok.ok);
    assert_eq!(ok.output, Some("done".to_string()));
    assert_eq!(ok.error, None);
    let err = package_command_result(Err("bad".to_string()));
    assert!(!err.ok);
    assert_eq!(err.error, Some("bad".to_string()));
    assert_eq!(err.output, None);
}

#[test]
fn license_invocations() {
    assert_eq!(license_args("/sdk"), strings(&["--licenses", "--sdk_root=/sdk"]));
    assert_eq!(license_script("sm.bat", "C:\\sdk"), "& 'sm.bat' --licenses '--sdk_root=C:\\sdk'");
}

#[test]
fn installed_package_ids() {
    let images = vec![("android-34".to_string(), "google_apis".to_string(), "x86_64".to_string())];
    assert_eq!(
        installed_packages(true, true, &images),
        strings(&["emulator", "platform-tools", "system-images;android-34;google_apis;x86_64"])
    );
    assert_eq!(installed_packages(false, true, &Vec::new()), strings(&["platform-tools"]));
    assert_eq!(installed_packages(false, false, &Vec::new()), Vec::<String>::new());
}

#[test]
fn archive_commands() {
    assert_eq!(unzip_args("a.zip", "/d"), strings(&["-o", "a.zip", "-d", "/d"]));
    assert_eq!(tar_args("jdk.tar.gz", "/d"), strings(&["-xzf", "jdk.tar.gz", "-C", "/d"]));
    assert_eq!(
        expand_archive_script("C:\\a.zip", "C:\\d"),
        "Expand-Archive -LiteralPath 'C:\\a.zip' -DestinationPath 'C:\\d' -Force"
    );
}
