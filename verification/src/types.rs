//! Plain records exchanged with the user interface.
use vstd::prelude::*;

verus! {

/// Host resources shown on the dashboard.
#[derive(Clone)]
pub struct SystemInfo {
    pub total_ram: u64,
    pub free_ram: u64,
    pub cpu_count: usize,
    pub cpu_model: String,
    pub platform: String,
    pub arch: String,
}

/// One graphics adapter of the host.
#[derive(Clone)]
pub struct GpuInfo {
    pub index: usize,
    pub name: String,
    pub vram: String,
    pub is_dedicated: bool,
}

/// What of the SDK is installed.
#[derive(Clone)]
pub struct InstallStatus {
    pub jdk_installed: bool,
    pub cmdline_installed: bool,
    pub emulator_installed: bool,
    pub platform_tools_installed: bool,
    pub avd_dir: String,
    pub sdk_dir: String,
    pub installed_packages: Vec<String>,
    pub licenses_accepted: bool,
}

/// One Android Virtual Device as listed.
#[derive(Clone)]
pub struct AvdInfo {
    pub name: String,
    pub path: String,
    pub target: String,
    pub api: String,
    pub ram: String,
    pub cores: String,
    pub gpu: String,
    pub running: bool,
}

/// What the user asked for when creating an AVD.
pub struct CreateAvdOptions {
    pub name: String,
    pub system_image: String,
    pub ram: u32,
    pub cores: u32,
    pub storage: u32,
    pub gpu_mode: String,
    pub screen_resolution: String,
    pub dpi: u32,
    pub raw_launch: Option<bool>,
}

/// Outcome of a command: success flag, error text, output text.
#[derive(Clone)]
pub struct CommandResult {
    pub ok: bool,
    pub error: Option<String>,
    pub output: Option<String>,
}

/// Whether the host can accelerate the emulator.
#[derive(Clone)]
pub struct HypervisorStatus {
    pub whpx_enabled: bool,
    pub vtx_enabled: bool,
}

/// A system image offered by the SDK repositories.
#[derive(Clone)]
pub struct SdkPackageInfo {
    pub id: String,
    pub name: String,
    pub desc: String,
    pub version: String,
    pub installed: bool,
    pub category: String,
}

pub open spec fn opt_string_view(o: Option<String>) -> Option<Seq<char>> {
    match o {
        Some(s) => Some(s@),
        None => None,
    }
}

} // verus!
