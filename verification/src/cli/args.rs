//! The arguments of each subcommand, as plain values.
//!
//! Paths are UTF-8 strings.

use vstd::prelude::*;

verus! {

/// Arguments of `doctor`.
#[derive(Debug, Clone)]
pub struct DoctorArgs {
    /// Output diagnostics in machine-readable JSON format.
    pub json: bool,
    /// Storage path to inspect for io_uring and TRIM capabilities.
    pub storage_path: String,
    /// Launch interactive TUI doctor visualizer.
    pub tui: bool,
}

/// Arguments of `create`.
#[derive(Debug, Clone)]
pub struct CreateArgs {
    /// Path to official Windows 11 installation ISO.
    pub iso: Option<String>,
    /// Virtual machine domain identifier.
    pub name: String,
    /// Number of vCPUs to allocate (defaults to the first cache domain's size).
    pub cores: Option<u32>,
    /// Memory allocation in MiB.
    pub ram: u64,
    /// Primary virtual disk size in GiB.
    pub disk: u64,
    /// Storage directory for the virtual disk image.
    pub disk_path: String,
    /// Optimization profile.
    pub profile: ProfileChoice,
    /// Graphics and display tier.
    pub gpu_mode: GpuChoice,
    /// PCI address for dedicated GPU passthrough (e.g. 0000:01:00.0).
    pub vfio_pci: Option<String>,
    /// Looking Glass IVSHMEM buffer size in MiB.
    pub looking_glass_shm: u32,
    /// Host directory to share via VirtioFS.
    pub share_dir: Option<String>,
    /// Enable zero-touch unattended setup.
    pub unattended: bool,
    /// Offline Windows administrator username.
    pub username: String,
    /// Offline Windows administrator password.
    pub password: Option<String>,
    /// Output target format.
    pub target: TargetChoice,
    /// Print the synthesized XML or script without creating anything.
    pub dry_run: bool,
    /// Output the configuration as JSON.
    pub json: bool,
    /// Launch the interactive setup wizard.
    pub tui: bool,
}

/// Arguments of `inspect`.
#[derive(Debug, Clone)]
pub struct InspectArgs {
    pub name: String,
    /// Print the synthesized Libvirt domain XML.
    pub xml: bool,
    /// Output in machine-readable JSON.
    pub json: bool,
}

/// Arguments of `list`.
#[derive(Debug, Clone)]
pub struct ListArgs {
    pub json: bool,
}

/// Arguments of `start`.
#[derive(Debug, Clone)]
pub struct StartArgs {
    pub name: String,
    /// Viewer client to launch: "spice", "looking-glass" or "none".
    pub viewer: String,
}

/// Arguments of `stop`.
#[derive(Debug, Clone)]
pub struct StopArgs {
    pub name: String,
    /// Force immediate power-off instead of graceful ACPI shutdown.
    pub force: bool,
}

/// Arguments of `destroy`.
#[derive(Debug, Clone)]
pub struct DestroyArgs {
    pub name: String,
    /// Also delete the underlying virtual disk images.
    pub delete_disks: bool,
}

/// Arguments of `man`.
#[derive(Debug, Clone)]
pub struct ManArgs {
    /// Directory the man page is written to.
    pub output_dir: String,
}

#[derive(Debug, Clone, Copy, PartialEq, Eq, Structural)]
pub enum ProfileChoice {
    Auto,
    Gaming,
    Compute,
}

#[derive(Debug, Clone, Copy, PartialEq, Eq, Structural)]
pub enum GpuChoice {
    Spice,
    LookingGlass,
    Vfio,
}

#[derive(Debug, Clone, Copy, PartialEq, Eq, Structural)]
pub enum TargetChoice {
    Libvirt,
    Standalone,
    Both,
}

} // verus!
