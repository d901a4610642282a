use kb_emulator_manager::system::{is_dedicated_gpu_name, lspci_gpu_entry, says_true_lowercase};
use kb_emulator_manager::system::{
    bytes_to_mb, command_failure, cpu_model_name, gpu_detection_not_available,
    gpu_preference_outcome, gpu_preference_targets, gpu_preference_unavailable,
    gpu_preference_value, gpus_from_lspci, gpus_from_wmi, gpus_from_wmi_output,
    linux_hypervisor_status, reports_true, whpx_command_result, whpx_unavailable,
    windows_hypervisor_status, wmi_json_body, adapters_of, WmiAdapter, WmiJson,
};

#[test]
fn memory_in_mebibytes() {
    assert_eq!(bytes_to_mb(3 * 1024 * 1024 + 5), 3);
    assert_eq!(bytes_to_mb(1024 * 1024 - 1), 0);
}

#[test]
fn cpu_name_or_unknown() {
    assert_eq!(cpu_model_name(Some("Ryzen 7".to_string())), "Ryzen 7");
    assert_eq!(cpu_model_name(None), "Unknown CPU");
}

#[test]
fn wmi_body_strips_bom_and_space() {
    assert_eq!(wmi_json_body("\u{feff}\u{feff}  [1] \r\n"), "[1]");
    assert_eq!(wmi_json_body("{}"), "{}");
}

#[test]
fn wmi_adapter_list() {
    let adapters = vec![
        WmiAdapter { name: Some("NVIDIA GeForce RTX 3060\u{feff}".to_string()), adapter_ram: Some(4293918720) },
        WmiAdapter { name: None, adapter_ram: None },
    ];
    let gpus = gpus_from_wmi(&adapters);
    assert_eq!(gpus.len(), 2);
    assert_eq!(gpus[0].index, 0);
    assert_eq!(gpus[0].name, "NVIDIA GeForce RTX 3060");
    assert_eq!(gpus[0].vram, "4095 MB");
    assert!(gpus[0].is_dedicated);
    assert_eq!(gpus[1].index, 1);
    assert_eq!(gpus[1].name, "Unknown GPU");
    assert_eq!(gpus[1].vram, "Unknown");
    assert!(!gpus[1].is_dedicated);
}

#[test]
fn wmi_single_adapter() {
    let adapters = vec![WmiAdapter {
        name: Some("\u{1}  Intel(R) UHD Graphics 620 \u{feff}".to_string()),
        adapter_ram: Some(1073741824),
    }];
    let gpus = gpus_from_wmi(&adapters);
    assert_eq!(gpus.len(), 1);
    assert_eq!(gpus[0].name, "Intel(R) UHD Graphics 620");
    assert_eq!(gpus[0].vram, "1024 MB");
    assert!(!gpus[0].is_dedicated);
    assert!(gpus_from_wmi(&Vec::new()).is_empty());
}

#[test]
fn wmi_output_read_as_json() {
    let out = "\u{feff}[{\"Name\":\"NVIDIA GeForce RTX 3060\",\"AdapterRAM\":4293918720},{\"Name\":null,\"AdapterRAM\":-1}]\r\n";
    let gpus = gpus_from_wmi_output(out);
    assert_eq!(gpus.len(), 2);
    assert_eq!(gpus[0].name, "NVIDIA GeForce RTX 3060");
    assert_eq!(gpus[0].vram, "4095 MB");
    assert!(gpus[0].is_dedicated);
    assert_eq!(gpus[1].name, "Unknown GPU");
    assert_eq!(gpus[1].vram, "Unknown");
    let one = gpus_from_wmi_output("{\"Name\":\"Intel(R) UHD Graphics\",\"AdapterRAM\":\"1024\"}");
    assert_eq!(one.len(), 1);
    assert_eq!(one[0].name, "Intel(R) UHD Graphics");
    assert_eq!(one[0].vram, "Unknown");
    assert!(gpus_from_wmi_output("not json").is_empty());
    assert!(gpus_from_wmi_output("42").is_empty());
    assert!(gpus_from_wmi_output("null").is_empty());
    assert!(gpus_from_wmi_output("\"text\"").is_empty());
    assert!(gpus_from_wmi_output("true").is_empty());
    assert!(gpus_from_wmi_output("[]").is_empty());
}

#[test]
fn adapters_of_an_array_an_object_and_the_rest() {
    let a = || WmiAdapter { name: Some("A".to_string()), adapter_ram: Some(1) };
    let b = || WmiAdapter { name: None, adapter_ram: None };
    let list = adapters_of(WmiJson::List(vec![a(), b()]));
    assert_eq!(list.len(), 2);
    assert_eq!(list[0].name, Some("A".to_string()));
    assert_eq!(list[1].adapter_ram, None);
    let one = adapters_of(WmiJson::One(a()));
    assert_eq!(one.len(), 1);
    assert_eq!(one[0].adapter_ram, Some(1));
    for j in [WmiJson::Invalid, WmiJson::Null, WmiJson::Bool, WmiJson::Number, WmiJson::Text] {
        assert!(adapters_of(j).is_empty());
    }
}

#[test]
fn lspci_listing_gives_display_controllers() {
    let text = "00:02.0 \"VGA compatible controller\" \"Intel Corporation\" \"UHD Graphics 620\" -r07 \"Lenovo\" \"Device 2249\"\n\
00:1f.3 \"Audio device\" \"Intel Corporation\" \"Sunrise Point-LP HD Audio\" -r21 \"Lenovo\" \"Device 2249\"\n\
01:00.0 \"3D controller\" \"NVIDIA Corporation\" \"GP108M [GeForce MX150]\" -ra1 \"Lenovo\" \"Device 225e\"\n";
    let gpus = gpus_from_lspci(text);
    assert_eq!(gpus.len(), 2);
    assert_eq!(gpus[0].index, 0);
    assert_eq!(gpus[0].name, "Intel Corporation  \"UHD Graphics 620\" -r07 \"Lenovo\" \"Device 2249");
    assert!(!gpus[0].is_dedicated);
    assert_eq!(gpus[1].index, 1);
    assert_eq!(gpus[1].name, "NVIDIA Corporation  \"GP108M [GeForce MX150]\" -ra1 \"Lenovo\" \"Device 225e");
    assert!(gpus[1].is_dedicated);
    assert_eq!(gpus[1].vram, "Unknown");
}

#[test]
fn lspci_line_without_quotes_is_kept_whole() {
    let gpus = gpus_from_lspci("odd vga line");
    assert_eq!(gpus.len(), 1);
    assert_eq!(gpus[0].name, "odd vga line");
}

#[test]
fn lspci_without_display_controllers() {
    let gpus = gpus_from_lspci("");
    assert_eq!(gpus.len(), 1);
    assert_eq!(gpus[0].name, "GPU detection unavailable");
    assert_eq!(gpus[0].vram, "Unknown");
    assert!(!gpus[0].is_dedicated);
    let na = gpu_detection_not_available();
    assert_eq!(na.name, "GPU detection not available on this platform");
}

#[test]
fn powershell_true_answers() {
    assert!(reports_true(" True\r\n"));
    assert!(reports_true("TRUE"));
    assert!(!reports_true("False"));
    assert!(!reports_true(""));
}

#[test]
fn hypervisor_status_on_windows() {
    let s = windows_hypervisor_status(true, false);
    assert!(s.whpx_enabled && s.vtx_enabled);
    let s = windows_hypervisor_status(false, true);
    assert!(!s.whpx_enabled && s.vtx_enabled);
    let s = windows_hypervisor_status(false, false);
    assert!(!s.whpx_enabled && !s.vtx_enabled);
}

#[test]
fn hypervisor_status_on_linux() {
    let s = linux_hypervisor_status(Some("flags : fpu vmx sse2"), true);
    assert!(s.whpx_enabled && s.vtx_enabled);
    let s = linux_hypervisor_status(Some("flags : fpu svm"), false);
    assert!(!s.whpx_enabled && s.vtx_enabled);
    let s = linux_hypervisor_status(None, false);
    assert!(!s.whpx_enabled && !s.vtx_enabled);
}

#[test]
fn whpx_results() {
    let r = whpx_command_result(true, "done".to_string(), "warn".to_string());
    assert!(r.ok);
    assert_eq!(r.error, None);
    assert_eq!(r.output, Some("done".to_string()));
    let r = whpx_command_result(false, "out".to_string(), "denied".to_string());
    assert!(!r.ok);
    assert_eq!(r.error, Some("denied".to_string()));
    assert_eq!(r.output, Some("out".to_string()));
    let r = command_failure("spawn failed".to_string());
    assert!(!r.ok);
    assert_eq!(r.error, Some("spawn failed".to_string()));
    let r = whpx_unavailable();
    assert!(!r.ok);
    assert!(r.error.unwrap().starts_with("WHPX is a Windows-only feature."));
}

#[test]
fn gpu_preference_values_and_targets() {
    assert_eq!(gpu_preference_value(2), "GpuPreference=2;");
    assert_eq!(gpu_preference_value(0), "GpuPreference=0;");
    assert_eq!(
        gpu_preference_targets("C:\\kb\\sdk\\emulator"),
        vec![
            "C:\\kb\\sdk\\emulator\\emulator.exe".to_string(),
            "C:\\kb\\sdk\\emulator\\qemu\\windows-x86_64\\qemu-system-x86_64.exe".to_string()
        ]
    );
}

#[test]
fn gpu_preference_outcomes() {
    let r = gpu_preference_outcome(2, 0, &Vec::new());
    assert!(!r.ok);
    assert_eq!(r.error, Some("Emulator not installed yet. Install the emulator first.".to_string()));
    let r = gpu_preference_outcome(2, 2, &Vec::new());
    assert!(r.ok);
    assert_eq!(r.output, Some("GPU preference 2 applied to 2 executables".to_string()));
    let r = gpu_preference_outcome(1, 2, &vec!["a failed".to_string(), "b failed".to_string()]);
    assert!(!r.ok);
    assert_eq!(r.error, Some("a failed; b failed".to_string()));
    assert!(!gpu_preference_unavailable().ok);
}

#[test]
fn lowercase_readers_of_names_and_answers() {
    assert!(is_dedicated_gpu_name("nvidia geforce rtx 3060"));
    assert!(is_dedicated_gpu_name("amd radeon rx 6600"));
    assert!(!is_dedicated_gpu_name("intel(r) uhd graphics 620"));
    assert!(!is_dedicated_gpu_name("NVIDIA"));
    assert!(says_true_lowercase("true"));
    assert!(!says_true_lowercase("True"));
    let line = "01:00.0 \"3D controller\" \"NVIDIA Corporation\" \"GP108M\"";
    assert_eq!(
        lspci_gpu_entry(line, &line.to_lowercase()),
        Some(("NVIDIA Corporation  \"GP108M".to_string(), true))
    );
    assert_eq!(lspci_gpu_entry("00:1f.3 \"Audio device\"", "00:1f.3 \"audio device\""), None);
}
