//! What each subcommand decides: the VM configuration `create` and `inspect`
//! build from the host model, and the checks `create` makes first.
//!
//! Inspecting the host, printing and writing files are left to the caller.

use crate::cli::args::{CreateArgs, GpuChoice, ProfileChoice, TargetChoice};
use crate::error::ClerestoryError;
use crate::model::enlightenments::{default_clocks, default_hyperv, ClockTimers, HyperVEnlightenments};
use crate::model::host::{CacheDomain, CpuTopology, HugepageTier, SecurityPrerequisites, StorageCapability};
use crate::model::vm::{GpuMode, OptimizationProfile, OutputTarget, StorageDisk, UnattendedConfig, VmConfig};
use crate::optimizer::cpu_pinning::{ccd_capacity, ccd_plan, hybrid_plan, matches_plan, p_capacity, CpuPinningOptimizer, PinPlan};
use crate::optimizer::io_tuner::IoTuner;
use crate::optimizer::memory_tuner::{first_tier_from, tiers_in_range, MemoryTuner};
use crate::synthesis::libvirt_xml::topology_fits;
use crate::text::{chars_of, clone_opt, eq_str, join_path, opt_chars, path_join, push_str, string_from};
use vstd::prelude::*;

verus! {

pub struct CommandDispatcher;

/// `x` limited to [4, 16].
pub open spec fn clamp_4_16(x: u32) -> u32 {
    if x < 4 { 4 } else if x > 16 { 16 } else { x }
}

/// The vCPU count `create` asks for: the explicit count, else the CPU count
/// of the first cache domain limited to [4, 16], else 8.
pub open spec fn vcpu_request(cores: Option<u32>, doms: Seq<CacheDomain>) -> u32 {
    match cores {
        Some(n) => n,
        None => if doms.len() > 0 { clamp_4_16(doms[0].cpu_ids@.len() as u32) } else { 8 },
    }
}

pub open spec fn profile_for(c: ProfileChoice) -> OptimizationProfile {
    match c {
        ProfileChoice::Auto => OptimizationProfile::Auto,
        ProfileChoice::Gaming => OptimizationProfile::Gaming,
        ProfileChoice::Compute => OptimizationProfile::Compute,
    }
}

pub open spec fn target_for(c: TargetChoice) -> OutputTarget {
    match c {
        TargetChoice::Libvirt => OutputTarget::Libvirt,
        TargetChoice::Standalone => OutputTarget::StandaloneQemu,
        TargetChoice::Both => OutputTarget::Both,
    }
}

/// The pinning the optimizer plans for `n` vCPUs with host threads isolated.
pub open spec fn plan_for(topo: CpuTopology, n: u32, profile: OptimizationProfile) -> Option<PinPlan> {
    if topo.is_hybrid {
        hybrid_plan(topo, n, true)
    } else {
        ccd_plan(topo, n, profile, true)
    }
}

/// The capacity the optimizer reports when it has no plan.
pub open spec fn capacity_for(topo: CpuTopology, n: u32, profile: OptimizationProfile) -> u32 {
    if topo.is_hybrid { p_capacity(topo) } else { ccd_capacity(topo, n, profile) }
}

/// The display the arguments select; VFIO without an address uses 0000:01:00.0.
pub open spec fn gpu_for(g: GpuMode, args: CreateArgs) -> bool {
    match args.gpu_mode {
        GpuChoice::Spice => g is SpiceVirtio,
        GpuChoice::LookingGlass => g matches GpuMode::LookingGlass { shm_size_mb } && shm_size_mb == args.looking_glass_shm,
        GpuChoice::Vfio => g matches GpuMode::VfioPassthrough { pci_address } && pci_address@ == (match args.vfio_pci {
            Some(p) => p@,
            None => "0000:01:00.0"@,
        }),
    }
}

/// The hugepage decision for `ram` MiB: the first tier that can back it.
pub open spec fn hugepage_choice(hp: Seq<HugepageTier>, ram: u64) -> (bool, Option<u64>) {
    match first_tier_from(hp, ram, 0) {
        Some(i) => (true, Some(hp[i].page_size_kb)),
        None => (false, None),
    }
}

/// Everything of a configuration `create` builds but its pinning.
pub open spec fn created_config(
    c: VmConfig,
    args: CreateArgs,
    iso: Seq<char>,
    storage: StorageCapability,
    hp: Seq<HugepageTier>,
    sec: SecurityPrerequisites,
    n: u32,
) -> bool {
    &&& c.name@ == args.name@
    &&& c.memory_mb == args.ram
    &&& (c.use_hugepages, c.hugepage_size_kb) == hugepage_choice(hp, args.ram)
    &&& c.sockets == 1
    &&& c.cores_per_socket == n / 2
    &&& c.threads_per_core == 2
    &&& default_hyperv(c.hyperv)
    &&& default_clocks(c.clocks)
    &&& c.disk.path@ == path_join(args.disk_path@, args.name@ + ".qcow2"@)
    &&& c.disk.size_gb == args.disk
    &&& c.disk.format@ == "qcow2"@
    &&& c.disk.io_engine@ == (if storage.supports_io_uring { "io_uring"@ } else { "native"@ })
    &&& c.disk.cache@ == "none"@
    &&& c.disk.discard_unmap
    &&& c.disk.queues == n
    &&& gpu_for(c.gpu, args)
    &&& opt_chars(c.shared_directory) == opt_chars(args.share_dir)
    &&& c.unattended.enabled == args.unattended
    &&& c.unattended.admin_username@ == args.username@
    &&& opt_chars(c.unattended.admin_password) == opt_chars(args.password)
    &&& c.unattended.bypass_msa
    &&& c.unattended.install_qga
    &&& opt_chars(c.unattended.driver_disk_path) == Some(path_join(args.disk_path@, args.name@ + "_oemdrv.img"@))
    &&& c.target == target_for(args.target)
    &&& c.win11_iso_path@ == iso
    &&& opt_chars(c.swtpm_path) == opt_chars(sec.swtpm_bin)
    &&& opt_chars(c.ovmf_code) == opt_chars(sec.ovmf_code_fd)
    &&& opt_chars(c.ovmf_vars) == opt_chars(sec.ovmf_vars_fd)
}

/// The configuration `inspect` shows for VM `name`: 8 pinned vCPUs as four
/// two-thread cores, 16 GiB, a 100 GiB io_uring disk under the libvirt images
/// directory, Looking Glass with 64 MiB, unattended setup as "Admin".
pub open spec fn inspected_config(c: VmConfig, name: Seq<char>, sec: SecurityPrerequisites) -> bool {
    &&& c.name@ == name
    &&& c.memory_mb == 16384
    &&& !c.use_hugepages
    &&& c.hugepage_size_kb is None
    &&& c.sockets == 1
    &&& c.cores_per_socket == 4
    &&& c.threads_per_core == 2
    &&& default_hyperv(c.hyperv)
    &&& default_clocks(c.clocks)
    &&& c.disk.path@ == "/var/lib/libvirt/images/"@ + name + ".qcow2"@
    &&& c.disk.size_gb == 100
    &&& c.disk.format@ == "qcow2"@
    &&& c.disk.io_engine@ == "io_uring"@
    &&& c.disk.cache@ == "none"@
    &&& c.disk.discard_unmap
    &&& c.disk.queues == 8
    &&& c.gpu == GpuMode::LookingGlass { shm_size_mb: 64 }
    &&& c.shared_directory is None
    &&& c.unattended.enabled
    &&& c.unattended.admin_username@ == "Admin"@
    &&& c.unattended.admin_password is None
    &&& c.unattended.bypass_msa
    &&& c.unattended.install_qga
    &&& c.unattended.driver_disk_path is None
    &&& c.target == OutputTarget::Libvirt
    &&& c.win11_iso_path@ == "/var/lib/libvirt/images/win11.iso"@
    &&& opt_chars(c.swtpm_path) == opt_chars(sec.swtpm_bin)
    &&& opt_chars(c.ovmf_code) == opt_chars(sec.ovmf_code_fd)
    &&& opt_chars(c.ovmf_vars) == opt_chars(sec.ovmf_vars_fd)
}

/// The host is an AMD one.
pub open spec fn amd_vendor(vendor: Seq<char>) -> bool {
    vendor == "AuthenticAMD"@
}

/// `name` followed by `suffix`.
fn with_suffix(name: &str, suffix: &str) -> (r: Vec<char>)
    ensures
        r@ == name@ + suffix@,
{
    let mut s = string_from(name);
    push_str(&mut s, suffix);
    chars_of(s.as_str())
}

impl CommandDispatcher {
    /// The path of a file named `name` followed by `suffix` in directory `dir`
    /// (the disk image, driver disk, domain XML or runner script of a VM).
    pub fn artifact_path(dir: &str, name: &str, suffix: &str) -> (r: String)
        ensures
            r@ == path_join(dir@, name@ + suffix@),
    {
        let file = with_suffix(name, suffix);
        join_path(dir, &file)
    }

    /// Whether the CPU vendor string names AMD.
    pub fn is_amd(vendor: &str) -> (b: bool)
        ensures
            b == amd_vendor(vendor@),
    {
        let v = chars_of(vendor);
        eq_str(&v, "AuthenticAMD")
    }

    /// The Windows 11 ISO must exist unless this is a dry run.
    pub fn check_iso(iso_path: &str, iso_exists: bool, dry_run: bool) -> (r: Result<(), ClerestoryError>)
        ensures
            r is Ok <==> (iso_exists || dry_run),
            r is Err ==> (r matches Err(ClerestoryError::MissingPrerequisite { name, install_hint })
                && name@ == "Windows 11 ISO at "@ + iso_path@
                && install_hint@ == "Provide valid path to official Win11 ISO with --iso"@),
    {
        if !iso_exists && !dry_run {
            let mut name = string_from("Windows 11 ISO at ");
            push_str(&mut name, iso_path);
            return Err(ClerestoryError::MissingPrerequisite {
                name,
                install_hint: string_from("Provide valid path to official Win11 ISO with --iso"),
            });
        }
        Ok(())
    }

    /// The vCPU count `create` asks for.
    pub fn requested_vcpus(cores: Option<u32>, cpu: &CpuTopology) -> (n: u32)
        ensures
            n == vcpu_request(cores, cpu.cache_domains@),
    {
        match cores {
            Some(n) => n,
            None => if cpu.cache_domains.len() > 0 {
                #[verifier::truncate]
                let c = cpu.cache_domains[0].cpu_ids.len() as u32;
                if c < 4 { 4 } else if c > 16 { 16 } else { c }
            } else {
                8
            },
        }
    }

    /// The VM configuration `create` provisions: pinned by the optimizer for
    /// the requested vCPUs with host threads isolated, two threads per core,
    /// hugepages when a tier can back the memory, and disk images named after
    /// the VM in the disk directory. Fails as the optimizer does.
    pub fn plan_create(
        args: &CreateArgs,
        iso_path: &str,
        cpu: &CpuTopology,
        storage: &StorageCapability,
        hugepages: &Vec<HugepageTier>,
        sec: &SecurityPrerequisites,
    ) -> (r: Result<VmConfig, ClerestoryError>)
        requires
            tiers_in_range(hugepages@),
        ensures
            vcpu_request(args.cores, cpu.cache_domains@) == 0 ==> (r matches Err(ClerestoryError::ValidationError(m))
                && m@ == "Requested vCPUs must be at least 1"@),
            vcpu_request(args.cores, cpu.cache_domains@) > 0 ==> match plan_for(*cpu, vcpu_request(args.cores, cpu.cache_domains@), profile_for(args.profile)) {
                Some(p) => r matches Ok(c) && c.pinning matches Some(m) && matches_plan(m, p)
                    && created_config(c, *args, iso_path@, *storage, hugepages@, *sec, vcpu_request(args.cores, cpu.cache_domains@))
                    && topology_fits(c),
                None => r == Err::<VmConfig, ClerestoryError>(ClerestoryError::TopologyCapacityError {
                    requested: vcpu_request(args.cores, cpu.cache_domains@),
                    available: capacity_for(*cpu, vcpu_request(args.cores, cpu.cache_domains@), profile_for(args.profile)),
                }),
            },
    {
        let n = Self::requested_vcpus(args.cores, cpu);
        let profile = match args.profile {
            ProfileChoice::Auto => OptimizationProfile::Auto,
            ProfileChoice::Gaming => OptimizationProfile::Gaming,
            ProfileChoice::Compute => OptimizationProfile::Compute,
        };
        let optimizer = CpuPinningOptimizer::new(cpu);
        let pinning = match optimizer.optimize(n, profile, true) {
            Ok(m) => m,
            Err(e) => return Err(e),
        };
        let (io_engine, queues) = IoTuner::tune(n, storage);
        let (use_hugepages, hugepage_size_kb) = MemoryTuner::select_hugepages(args.ram, hugepages.as_slice());
        let gpu = match args.gpu_mode {
            GpuChoice::Spice => GpuMode::SpiceVirtio,
            GpuChoice::LookingGlass => GpuMode::LookingGlass { shm_size_mb: args.looking_glass_shm },
            GpuChoice::Vfio => GpuMode::VfioPassthrough {
                pci_address: match &args.vfio_pci {
                    Some(p) => string_from(p.as_str()),
                    None => string_from("0000:01:00.0"),
                },
            },
        };
        let target = match args.target {
            TargetChoice::Libvirt => OutputTarget::Libvirt,
            TargetChoice::Standalone => OutputTarget::StandaloneQemu,
            TargetChoice::Both => OutputTarget::Both,
        };
        let disk_file_path = Self::artifact_path(args.disk_path.as_str(), args.name.as_str(), ".qcow2");
        let oem_disk_path = Self::artifact_path(args.disk_path.as_str(), args.name.as_str(), "_oemdrv.img");
        let config = VmConfig {
            name: string_from(args.name.as_str()),
            memory_mb: args.ram,
            use_hugepages,
            hugepage_size_kb,
            sockets: 1,
            cores_per_socket: n / 2,
            threads_per_core: 2,
            pinning: Some(pinning),
            hyperv: HyperVEnlightenments::default(),
            clocks: ClockTimers::default(),
            disk: StorageDisk {
                path: disk_file_path,
                size_gb: args.disk,
                format: string_from("qcow2"),
                io_engine,
                cache: string_from("none"),
                discard_unmap: true,
                queues,
            },
            gpu,
            shared_directory: clone_opt(&args.share_dir),
            unattended: UnattendedConfig {
                enabled: args.unattended,
                admin_username: string_from(args.username.as_str()),
                admin_password: clone_opt(&args.password),
                bypass_msa: true,
                install_qga: true,
                driver_disk_path: Some(oem_disk_path),
            },
            target,
            win11_iso_path: string_from(iso_path),
            swtpm_path: clone_opt(&sec.swtpm_bin),
            ovmf_code: clone_opt(&sec.ovmf_code_fd),
            ovmf_vars: clone_opt(&sec.ovmf_vars_fd),
        };
        Ok(config)
    }

    /// The configuration `inspect` shows for VM `name`, pinned for 8 vCPUs
    /// with the Auto profile and host threads isolated. Fails as the optimizer does.
    pub fn plan_inspect(name: &str, cpu: &CpuTopology, sec: &SecurityPrerequisites) -> (r: Result<VmConfig, ClerestoryError>)
        ensures
            match plan_for(*cpu, 8, OptimizationProfile::Auto) {
                Some(p) => r matches Ok(c) && c.pinning matches Some(m) && matches_plan(m, p)
                    && inspected_config(c, name@, *sec) && topology_fits(c),
                None => r == Err::<VmConfig, ClerestoryError>(ClerestoryError::TopologyCapacityError {
                    requested: 8,
                    available: capacity_for(*cpu, 8, OptimizationProfile::Auto),
                }),
            },
    {
        let optimizer = CpuPinningOptimizer::new(cpu);
        let pinning = match optimizer.optimize(8, OptimizationProfile::Auto, true) {
            Ok(m) => m,
            Err(e) => return Err(e),
        };
        let mut path = string_from("/var/lib/libvirt/images/");
        push_str(&mut path, name);
        push_str(&mut path, ".qcow2");
        let config = VmConfig {
            name: string_from(name),
            memory_mb: 16384,
            use_hugepages: false,
            hugepage_size_kb: None,
            sockets: 1,
            cores_per_socket: 4,
            threads_per_core: 2,
            pinning: Some(pinning),
            hyperv: HyperVEnlightenments::default(),
            clocks: ClockTimers::default(),
            disk: StorageDisk {
                path,
                size_gb: 100,
                format: string_from("qcow2"),
                io_engine: string_from("io_uring"),
                cache: string_from("none"),
                discard_unmap: true,
                queues: 8,
            },
            gpu: GpuMode::LookingGlass { shm_size_mb: 64 },
            shared_directory: None,
            unattended: UnattendedConfig {
                enabled: true,
                admin_username: string_from("Admin"),
                admin_password: None,
                bypass_msa: true,
                install_qga: true,
                driver_disk_path: None,
            },
            target: OutputTarget::Libvirt,
            win11_iso_path: string_from("/var/lib/libvirt/images/win11.iso"),
            swtpm_path: clone_opt(&sec.swtpm_bin),
            ovmf_code: clone_opt(&sec.ovmf_code_fd),
            ovmf_vars: clone_opt(&sec.ovmf_vars_fd),
        };
        Ok(config)
    }
}


/// A configuration `create` builds targets what was asked for: `libvirt`
/// gives a libvirt domain only, `standalone` the standalone QEMU launcher
/// only, `both` both; so different requests never give the same target.
pub proof fn law_create_target(
    c1: VmConfig,
    a1: CreateArgs,
    c2: VmConfig,
    a2: CreateArgs,
    iso: Seq<char>,
    storage: StorageCapability,
    hp: Seq<HugepageTier>,
    sec: SecurityPrerequisites,
    n: u32,
)
    requires
        created_config(c1, a1, iso, storage, hp, sec, n),
        created_config(c2, a2, iso, storage, hp, sec, n),
    ensures
        a1.target == TargetChoice::Libvirt ==> c1.target == OutputTarget::Libvirt,
        a1.target == TargetChoice::Standalone ==> c1.target == OutputTarget::StandaloneQemu,
        a1.target == TargetChoice::Both ==> c1.target == OutputTarget::Both,
        a1.target != a2.target ==> c1.target != c2.target,
{
}

} // verus!
