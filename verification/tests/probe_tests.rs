use clerestory::probe::memory::{
    assemble_hugepages, assemble_numa, global_meminfo_fits, hugepage_size_kb, node_meminfo_fits,
    numa_node_id, parse_global_meminfo, parse_kb_line, parse_node_meminfo, HugepageReading,
    NodeReading,
};
use clerestory::probe::security::{
    check_nested_virt, nested_enabled, security_prerequisites, select_ovmf, select_swtpm,
};
use clerestory::probe::storage::{
    block_device_caps, check_io_uring, kernel_version, pick_block_device, storage_capability,
};
use clerestory::probe::sysfs::{resolve, MockSysfs, RealSysfs, SysfsProvider};

fn s(v: &str) -> Option<String> {
    Some(v.to_string())
}

#[test]
fn test_parse_kb_line() {
    assert_eq!(parse_kb_line("MemTotal:       16384 kB"), 16384 * 1024);
    assert_eq!(parse_kb_line("Node 0 MemFree:  2048 kB"), 2048 * 1024);
    assert_eq!(parse_kb_line("MemTotal:"), 0);
    assert_eq!(parse_kb_line("MemTotal: lots kB"), 0);
}

#[test]
fn test_node_meminfo() {
    let content = "Node 0 MemTotal:       32768 kB\nNode 0 MemFree:        1024 kB\nNode 0 MemUsed:  31744 kB\n";
    assert!(node_meminfo_fits(content));
    assert_eq!(parse_node_meminfo(content), (32768 * 1024, 1024 * 1024));
    assert_eq!(parse_node_meminfo(""), (0, 0));
    assert!(!node_meminfo_fits("Node 0 MemTotal: 18446744073709551615 kB"));
}

#[test]
fn test_global_meminfo_prefers_first_nonzero_free() {
    let content = "MemTotal:       65536 kB\nMemFree:        4096 kB\nMemAvailable:   8192 kB\n";
    assert!(global_meminfo_fits(content));
    assert_eq!(parse_global_meminfo(content), (65536 * 1024, 4096 * 1024));
    let zero_first = "MemTotal: 100 kB\nMemFree: 0 kB\nMemAvailable: 50 kB\n";
    assert_eq!(parse_global_meminfo(zero_first), (100 * 1024, 50 * 1024));
}

#[test]
fn test_numa_node_names() {
    assert_eq!(numa_node_id("node0"), Some(0));
    assert_eq!(numa_node_id("node12"), Some(12));
    assert_eq!(numa_node_id("possible"), None);
    assert_eq!(numa_node_id("node"), None);
}

#[test]
fn test_assemble_numa_sorted_by_node() {
    let nodes = vec![
        NodeReading { node_id: 1, cpulist: "8-15\n".to_string(), meminfo: "Node 1 MemTotal: 2048 kB\nNode 1 MemFree: 1024 kB\n".to_string() },
        NodeReading { node_id: 0, cpulist: "0-7\n".to_string(), meminfo: "Node 0 MemTotal: 4096 kB\nNode 0 MemFree: 512 kB\n".to_string() },
    ];
    let r = assemble_numa(&nodes, "");
    assert_eq!(r.len(), 2);
    assert_eq!(r[0].node_id, 0);
    assert_eq!(r[0].cpu_ids, (0..8).collect::<Vec<u32>>());
    assert_eq!(r[0].total_memory_bytes, 4096 * 1024);
    assert_eq!(r[0].free_memory_bytes, 512 * 1024);
    assert_eq!(r[1].node_id, 1);
    assert_eq!(r[1].cpu_ids, (8..16).collect::<Vec<u32>>());
}

#[test]
fn test_assemble_numa_falls_back_to_global() {
    let r = assemble_numa(&Vec::new(), "MemTotal: 1000 kB\nMemAvailable: 600 kB\n");
    assert_eq!(r.len(), 1);
    assert_eq!(r[0].node_id, 0);
    assert!(r[0].cpu_ids.is_empty());
    assert_eq!(r[0].total_memory_bytes, 1000 * 1024);
    assert_eq!(r[0].free_memory_bytes, 600 * 1024);
}

#[test]
fn test_hugepage_tiers() {
    assert_eq!(hugepage_size_kb("hugepages-2048kB"), Some(2048));
    assert_eq!(hugepage_size_kb("hugepages-1048576kB"), Some(1048576));
    assert_eq!(hugepage_size_kb("hugepages-kB"), None);
    assert_eq!(hugepage_size_kb("hugepages-2048MB"), None);
    let entries = vec![
        HugepageReading { page_size_kb: 2048, nr_hugepages: s("512\n"), free_hugepages: s("100\n") },
        HugepageReading { page_size_kb: 1048576, nr_hugepages: s("16\n"), free_hugepages: None },
    ];
    let tiers = assemble_hugepages(&entries, true);
    assert_eq!(tiers.len(), 2);
    assert_eq!(tiers[0].page_size_kb, 1048576);
    assert_eq!(tiers[0].total_pages, 16);
    assert_eq!(tiers[0].free_pages, 0);
    assert_eq!(tiers[0].mount_point, Some("/dev/hugepages".to_string()));
    assert_eq!(tiers[1].page_size_kb, 2048);
    assert_eq!(tiers[1].total_pages, 512);
    assert_eq!(tiers[1].free_pages, 100);
    let unmounted = assemble_hugepages(&entries, false);
    assert_eq!(unmounted[0].mount_point, None);
}

#[test]
fn test_swtpm_and_ovmf_selection() {
    assert_eq!(select_swtpm(&vec![false, true, true]), s("/usr/local/bin/swtpm"));
    assert_eq!(select_swtpm(&vec![false, false, false]), None);
    let mut present = vec![false; 7];
    present[2] = true;
    present[5] = true;
    assert_eq!(
        select_ovmf(&present),
        ("/usr/share/OVMF/OVMF_CODE_4M.ms.fd".to_string(), "/usr/share/OVMF/OVMF_VARS_4M.ms.fd".to_string())
    );
    assert_eq!(
        select_ovmf(&vec![false; 7]),
        (
            "/usr/share/edk2/ovmf/OVMF_CODE.secboot.fd".to_string(),
            "/usr/share/edk2/ovmf/OVMF_VARS.secboot.fd".to_string()
        )
    );
}

#[test]
fn test_nested_virtualization_flags() {
    assert!(nested_enabled("1\n"));
    assert!(nested_enabled("Y"));
    assert!(nested_enabled(" y "));
    assert!(!nested_enabled("N"));
    assert!(!nested_enabled("0"));
    assert!(check_nested_virt(&s("Y\n"), &None));
    assert!(!check_nested_virt(&s("N\n"), &s("Y\n")));
    assert!(check_nested_virt(&None, &s("1")));
    assert!(!check_nested_virt(&None, &None));
    let sec = security_prerequisites(true, &vec![true, false, false], &vec![false; 7], &None, &s("1"));
    assert!(sec.has_kvm_device);
    assert_eq!(sec.swtpm_bin, s("/usr/bin/swtpm"));
    assert_eq!(sec.ovmf_code_fd, s("/usr/share/edk2/ovmf/OVMF_CODE.secboot.fd"));
    assert!(sec.supports_nested);
}

#[test]
fn test_storage_capabilities() {
    assert!(check_io_uring(&None, &None));
    assert!(check_io_uring(&s("0\n"), &s("6.8.0-45-generic\n")));
    assert!(!check_io_uring(&s("1\n"), &s("6.8.0")));
    assert!(!check_io_uring(&s("2"), &None));
    assert!(!check_io_uring(&None, &s("5.4.0-150-generic\n")));
    assert!(check_io_uring(&None, &s("5.10.0-28-amd64\n")));
    assert!(!check_io_uring(&None, &s("4.19.0\n")));
    assert!(check_io_uring(&None, &s("6\n")));
    assert_eq!(kernel_version("5.15.0-91-generic"), Some((5, 15)));
    assert_eq!(kernel_version(" 6.1"), Some((6, 1)));
    assert_eq!(kernel_version("6"), None);
    let names = vec!["loop0".to_string(), "dm-0".to_string(), "sda".to_string(), "nvme0n1".to_string()];
    assert_eq!(pick_block_device(&names), Some(2));
    assert_eq!(pick_block_device(&vec!["loop0".to_string()]), None);
    assert_eq!(block_device_caps(&s("1\n"), &s("512\n")), (true, true));
    assert_eq!(block_device_caps(&s("0\n"), &s("0\n")), (false, false));
    assert_eq!(block_device_caps(&None, &None), (true, false));
    assert_eq!(block_device_caps(&None, &s("junk")), (false, false));
    let cap = storage_capability(&s("1"), &s("6.8.0"), &s("0"), &s("4096"));
    assert!(!cap.supports_io_uring);
    assert!(cap.supports_trim);
    assert!(!cap.is_rotational);
    assert_eq!(cap.target_filesystem, "ext4/btrfs/xfs");
}

#[test]
fn test_sysfs_paths() {
    assert_eq!(RealSysfs.root(), "/");
    let mock = MockSysfs::new("/fixtures/amd".to_string());
    assert_eq!(mock.root(), "/fixtures/amd");
    assert_eq!(resolve("/", "sys/devices/system/cpu/online"), "/sys/devices/system/cpu/online");
    assert_eq!(resolve("/fixtures/amd", "/proc/cpuinfo"), "/fixtures/amd/proc/cpuinfo");
    assert_eq!(resolve("/fixtures/amd/", "//dev/kvm"), "/fixtures/amd/dev/kvm");
    assert_eq!(resolve("", "proc/meminfo"), "proc/meminfo");
}
