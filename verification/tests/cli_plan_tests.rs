use clerestory::cli::args::{CreateArgs, GpuChoice, ProfileChoice, TargetChoice};
use clerestory::cli::commands::CommandDispatcher;
use clerestory::error::ClerestoryError;
use clerestory::model::host::{
    CacheDomain, CorePair, CoreType, CpuTopology, HugepageTier, SecurityPrerequisites,
    StorageCapability,
};
use clerestory::model::vm::{GpuMode, OutputTarget};

fn topology() -> CpuTopology {
    let pairs0: Vec<CorePair> = (0..8u32)
        .map(|c| CorePair { physical_core_id: c, socket_id: 0, thread_ids: vec![c, c + 16], core_type: CoreType::Standard, max_freq_khz: 5000000 })
        .collect();
    let pairs1: Vec<CorePair> = (8..16u32)
        .map(|c| CorePair { physical_core_id: c, socket_id: 0, thread_ids: vec![c, c + 16], core_type: CoreType::Standard, max_freq_khz: 5000000 })
        .collect();
    CpuTopology {
        model_name: "AMD Ryzen 9 7950X3D 16-Core Processor".to_string(),
        vendor: "AuthenticAMD".to_string(),
        sockets: 1,
        total_physical_cores: 16,
        total_threads: 32,
        cache_domains: vec![
            CacheDomain { l3_cache_id: 0, socket_id: 0, cpu_ids: (0..8).chain(16..24).collect(), core_pairs: pairs0, size_bytes: 100663296, has_3d_vcache: true },
            CacheDomain { l3_cache_id: 1, socket_id: 0, cpu_ids: (8..16).chain(24..32).collect(), core_pairs: pairs1, size_bytes: 33554432, has_3d_vcache: false },
        ],
        has_smt: true,
        is_hybrid: false,
        has_invtsc: true,
        has_svm_or_vmx: true,
        has_topoext: true,
    }
}

fn args() -> CreateArgs {
    CreateArgs {
        iso: Some("/iso/win11.iso".to_string()),
        name: "win11-apex".to_string(),
        cores: None,
        ram: 16384,
        disk: 100,
        disk_path: "/var/lib/libvirt/images".to_string(),
        profile: ProfileChoice::Gaming,
        gpu_mode: GpuChoice::Vfio,
        vfio_pci: None,
        looking_glass_shm: 64,
        share_dir: None,
        unattended: true,
        username: "Admin".to_string(),
        password: Some("pw".to_string()),
        target: TargetChoice::Both,
        dry_run: true,
        json: false,
        tui: false,
    }
}

fn security() -> SecurityPrerequisites {
    SecurityPrerequisites {
        has_kvm_device: true,
        swtpm_bin: Some("/usr/bin/swtpm".to_string()),
        ovmf_code_fd: Some("/usr/share/edk2/ovmf/OVMF_CODE.secboot.fd".to_string()),
        ovmf_vars_fd: Some("/usr/share/edk2/ovmf/OVMF_VARS.secboot.fd".to_string()),
        supports_nested: false,
    }
}

fn storage() -> StorageCapability {
    StorageCapability { supports_io_uring: true, supports_trim: true, is_rotational: false, target_filesystem: "ext4/btrfs/xfs".to_string() }
}

#[test]
fn test_plan_create_defaults_to_first_domain() {
    let hp = vec![HugepageTier { page_size_kb: 1048576, total_pages: 16, free_pages: 16, mount_point: None }];
    let c = CommandDispatcher::plan_create(&args(), "/iso/win11.iso", &topology(), &storage(), &hp, &security()).unwrap();
    assert_eq!(c.name, "win11-apex");
    assert_eq!(c.cores_per_socket, 8);
    assert_eq!(c.threads_per_core, 2);
    assert!(c.use_hugepages);
    assert_eq!(c.hugepage_size_kb, Some(1048576));
    assert_eq!(c.disk.path, "/var/lib/libvirt/images/win11-apex.qcow2");
    assert_eq!(c.disk.io_engine, "io_uring");
    assert_eq!(c.disk.queues, 16);
    assert_eq!(c.unattended.driver_disk_path, Some("/var/lib/libvirt/images/win11-apex_oemdrv.img".to_string()));
    assert_eq!(c.gpu, GpuMode::VfioPassthrough { pci_address: "0000:01:00.0".to_string() });
    assert_eq!(c.target, OutputTarget::Both);
    assert_eq!(c.win11_iso_path, "/iso/win11.iso");
    assert_eq!(c.swtpm_path, Some("/usr/bin/swtpm".to_string()));
    let pins = &c.pinning.as_ref().unwrap().vcpu_pins;
    assert_eq!(pins.len(), 16);
    assert!(pins.iter().all(|(_, h)| *h < 8 || (16..24).contains(h)));
}

#[test]
fn test_plan_create_explicit_cores_and_no_hugepages() {
    let mut a = args();
    a.cores = Some(4);
    a.gpu_mode = GpuChoice::LookingGlass;
    a.looking_glass_shm = 128;
    let c = CommandDispatcher::plan_create(&a, "/iso/win11.iso", &topology(), &storage(), &Vec::new(), &security()).unwrap();
    assert_eq!(c.cores_per_socket, 2);
    assert!(!c.use_hugepages);
    assert_eq!(c.hugepage_size_kb, None);
    assert_eq!(c.gpu, GpuMode::LookingGlass { shm_size_mb: 128 });
    assert_eq!(c.pinning.unwrap().vcpu_pins.len(), 4);
}

#[test]
fn test_plan_create_rejects_zero_and_oversized() {
    let mut a = args();
    a.cores = Some(0);
    match CommandDispatcher::plan_create(&a, "/iso", &topology(), &storage(), &Vec::new(), &security()) {
        Err(ClerestoryError::ValidationError(m)) => assert_eq!(m, "Requested vCPUs must be at least 1"),
        other => panic!("unexpected {:?}", other),
    }
    a.cores = Some(40);
    match CommandDispatcher::plan_create(&a, "/iso", &topology(), &storage(), &Vec::new(), &security()) {
        Err(ClerestoryError::TopologyCapacityError { requested, available }) => {
            assert_eq!(requested, 40);
            assert_eq!(available, 32);
        }
        other => panic!("unexpected {:?}", other),
    }
    a.cores = Some(4);
    let mut bare = topology();
    bare.cache_domains.clear();
    match CommandDispatcher::plan_create(&a, "/iso", &bare, &storage(), &Vec::new(), &security()) {
        Err(ClerestoryError::TopologyCapacityError { requested, available }) => {
            assert_eq!(requested, 4);
            assert_eq!(available, 0);
        }
        other => panic!("unexpected {:?}", other),
    }
}

#[test]
fn test_requested_vcpus_clamped() {
    let mut t = topology();
    assert_eq!(CommandDispatcher::requested_vcpus(None, &t), 16);
    assert_eq!(CommandDispatcher::requested_vcpus(Some(6), &t), 6);
    t.cache_domains[0].cpu_ids = vec![0, 1];
    assert_eq!(CommandDispatcher::requested_vcpus(None, &t), 4);
    t.cache_domains[0].cpu_ids = (0..40).collect();
    assert_eq!(CommandDispatcher::requested_vcpus(None, &t), 16);
    t.cache_domains.clear();
    assert_eq!(CommandDispatcher::requested_vcpus(None, &t), 8);
}

#[test]
fn test_plan_inspect_fixed_configuration() {
    let c = CommandDispatcher::plan_inspect("win11-apex", &topology(), &security()).unwrap();
    assert_eq!(c.memory_mb, 16384);
    assert_eq!(c.cores_per_socket, 4);
    assert_eq!(c.disk.path, "/var/lib/libvirt/images/win11-apex.qcow2");
    assert_eq!(c.disk.queues, 8);
    assert_eq!(c.gpu, GpuMode::LookingGlass { shm_size_mb: 64 });
    assert_eq!(c.unattended.admin_username, "Admin");
    assert_eq!(c.win11_iso_path, "/var/lib/libvirt/images/win11.iso");
    assert_eq!(c.pinning.unwrap().vcpu_pins.len(), 8);
}

#[test]
fn test_check_iso_and_paths() {
    assert!(CommandDispatcher::check_iso("/iso/win11.iso", true, false).is_ok());
    assert!(CommandDispatcher::check_iso("/iso/win11.iso", false, true).is_ok());
    match CommandDispatcher::check_iso("/iso/win11.iso", false, false) {
        Err(ClerestoryError::MissingPrerequisite { name, install_hint }) => {
            assert_eq!(name, "Windows 11 ISO at /iso/win11.iso");
            assert_eq!(install_hint, "Provide valid path to official Win11 ISO with --iso");
        }
        other => panic!("unexpected {:?}", other),
    }
    assert_eq!(CommandDispatcher::artifact_path("/vms/", "w", ".xml"), "/vms/w.xml");
    assert_eq!(CommandDispatcher::artifact_path("/vms", "w", "_run.sh"), "/vms/w_run.sh");
    assert_eq!(CommandDispatcher::artifact_path("/vms", "/abs", ".xml"), "/abs.xml");
    assert!(CommandDispatcher::is_amd("AuthenticAMD"));
    assert!(!CommandDispatcher::is_amd("GenuineIntel"));
}
