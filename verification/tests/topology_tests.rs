use clerestory::model::host::{CoreType, CpuTopology};
use clerestory::model::vm::OptimizationProfile;
use clerestory::optimizer::cpu_pinning::CpuPinningOptimizer;
use clerestory::probe::cpu::parse_cpu_list;
use clerestory::probe::topology::{
    build_topology, online_cpu_ids, parse_size_bytes, read_attr_u32, readings_fit, size_text_fits,
    CpuReading,
};
use clerestory::error::ClerestoryError;

fn s(v: &str) -> Option<String> {
    Some(v.to_string())
}

const AMD_CPUINFO: &str = "processor\t: 0\nvendor_id\t: AuthenticAMD\ncpu family\t: 25\nmodel name\t: AMD Ryzen 9 7950X3D 16-Core Processor\nflags\t\t: fpu vme de pse tsc msr svm constant_tsc topoext invtsc\n\nprocessor\t: 1\nvendor_id\t: AuthenticAMD\nmodel name\t: AMD Ryzen 9 7950X3D 16-Core Processor\nflags\t\t: fpu\n";

const INTEL_CPUINFO: &str = "processor\t: 0\nvendor_id\t: GenuineIntel\nmodel name\t: Intel(R) Core(TM) i9-14900K\nflags\t\t: fpu vmx constant_tsc\n";

/// A Ryzen 9 7950X3D: 16 SMT cores over two CCDs, the first with 96 MiB of 3D V-Cache.
fn amd_readings() -> Vec<CpuReading> {
    (0..32u32)
        .map(|cpu| {
            let core = cpu % 16;
            CpuReading {
                cpu_id: cpu,
                core_id: s(&format!("{}\n", core)),
                physical_package_id: s("0\n"),
                thread_siblings_list: s(&format!("{},{}\n", core, core + 16)),
                core_type: None,
                max_freq_khz: s("5759000\n"),
                l3_id: s(if core < 8 { "0\n" } else { "1\n" }),
                l3_size: s(if core < 8 { "98304K\n" } else { "32768K\n" }),
            }
        })
        .collect()
}

/// A Core i9-14900K: 8 SMT P-cores (CPUs 0-15) and 16 E-cores (CPUs 16-31).
fn intel_readings() -> Vec<CpuReading> {
    (0..32u32)
        .map(|cpu| {
            let (core, siblings, kind) = if cpu < 16 {
                (cpu / 2, format!("{}-{}", (cpu / 2) * 2, (cpu / 2) * 2 + 1), "0")
            } else {
                (cpu - 8, format!("{}", cpu), "1")
            };
            CpuReading {
                cpu_id: cpu,
                core_id: s(&core.to_string()),
                physical_package_id: s("0"),
                thread_siblings_list: s(&siblings),
                core_type: s(kind),
                max_freq_khz: s(if cpu < 16 { "6000000" } else { "4400000" }),
                l3_id: s("0"),
                l3_size: s("36864K"),
            }
        })
        .collect()
}

fn amd_topology() -> CpuTopology {
    let r = amd_readings();
    assert!(readings_fit(&r));
    build_topology(AMD_CPUINFO, &r)
}

fn intel_topology() -> CpuTopology {
    let r = intel_readings();
    assert!(readings_fit(&r));
    build_topology(INTEL_CPUINFO, &r)
}

#[test]
fn test_build_topology_amd_7950x3d() {
    let topology = amd_topology();
    assert_eq!(topology.vendor, "AuthenticAMD");
    assert_eq!(topology.model_name, "AMD Ryzen 9 7950X3D 16-Core Processor");
    assert_eq!(topology.sockets, 1);
    assert_eq!(topology.total_physical_cores, 16);
    assert_eq!(topology.total_threads, 32);
    assert!(topology.has_smt);
    assert!(!topology.is_hybrid);
    assert!(topology.has_invtsc);
    assert!(topology.has_svm_or_vmx);
    assert!(topology.has_topoext);
    assert_eq!(topology.cache_domains.len(), 2);

    let ccd0 = &topology.cache_domains[0];
    assert_eq!(ccd0.l3_cache_id, 0);
    assert!(ccd0.has_3d_vcache);
    assert_eq!(ccd0.size_bytes, 98304 * 1024);
    assert_eq!(ccd0.core_pairs.len(), 8);
    assert_eq!(ccd0.cpu_ids, (0..8).chain(16..24).collect::<Vec<u32>>());
    assert_eq!(ccd0.core_pairs[0].thread_ids, vec![0, 16]);
    assert_eq!(ccd0.core_pairs[0].core_type, CoreType::Standard);
    assert_eq!(ccd0.core_pairs[0].max_freq_khz, 5759000);

    let ccd1 = &topology.cache_domains[1];
    assert_eq!(ccd1.l3_cache_id, 1);
    assert!(!ccd1.has_3d_vcache);
    assert_eq!(ccd1.size_bytes, 32768 * 1024);
    assert_eq!(ccd1.core_pairs.len(), 8);
    assert_eq!(ccd1.cpu_ids.len(), 16);
}

#[test]
fn test_build_topology_intel_14900k_hybrid() {
    let topology = intel_topology();
    assert_eq!(topology.vendor, "GenuineIntel");
    assert_eq!(topology.model_name, "Intel(R) Core(TM) i9-14900K");
    assert_eq!(topology.total_physical_cores, 24);
    assert_eq!(topology.total_threads, 32);
    assert!(topology.is_hybrid);
    assert!(topology.has_invtsc);
    assert!(topology.has_svm_or_vmx);
    assert!(!topology.has_topoext);
    let pairs: Vec<_> = topology.cache_domains.iter().flat_map(|d| &d.core_pairs).collect();
    assert_eq!(pairs.iter().filter(|p| p.core_type == CoreType::Performance).count(), 8);
    assert_eq!(pairs.iter().filter(|p| p.core_type == CoreType::Efficient).count(), 16);
}

#[test]
fn test_missing_attributes_fall_back() {
    let r = vec![CpuReading {
        cpu_id: 5,
        core_id: None,
        physical_package_id: None,
        thread_siblings_list: None,
        core_type: None,
        max_freq_khz: s("garbage"),
        l3_id: None,
        l3_size: None,
    }];
    let t = build_topology("", &r);
    assert_eq!(t.vendor, "Unknown");
    assert_eq!(t.model_name, "Unknown Processor");
    assert_eq!(t.sockets, 1);
    assert_eq!(t.total_physical_cores, 1);
    assert!(!t.has_smt);
    assert_eq!(t.cache_domains.len(), 1);
    let d = &t.cache_domains[0];
    assert_eq!(d.l3_cache_id, 0);
    assert_eq!(d.size_bytes, 33554432);
    assert!(!d.has_3d_vcache);
    assert_eq!(d.core_pairs.len(), 1);
    assert_eq!(d.core_pairs[0].physical_core_id, 5);
    assert_eq!(d.core_pairs[0].thread_ids, vec![5]);
    assert_eq!(d.core_pairs[0].max_freq_khz, 0);
}

#[test]
fn test_two_sockets_counted() {
    let mut r = amd_readings();
    for reading in r.iter_mut().filter(|x| x.cpu_id % 16 >= 8) {
        reading.physical_package_id = s("1");
    }
    let t = build_topology(AMD_CPUINFO, &r);
    assert_eq!(t.sockets, 2);
    assert_eq!(t.cache_domains[1].socket_id, 1);
    assert_eq!(t.cache_domains[1].core_pairs.len(), 8);
}

#[test]
fn test_size_attribute_parsing() {
    assert_eq!(parse_size_bytes("32768K\n"), Some(33554432));
    assert_eq!(parse_size_bytes("96M"), Some(100663296));
    assert_eq!(parse_size_bytes("512"), Some(512));
    assert_eq!(parse_size_bytes("K"), None);
    assert_eq!(parse_size_bytes("abc"), None);
    assert!(size_text_fits("32768K"));
    assert!(!size_text_fits("18446744073709551615K"));
    assert_eq!(read_attr_u32(&s(" 42 \n")), Some(42));
    assert_eq!(read_attr_u32(&None), None);
}

#[test]
fn test_online_cpu_ids() {
    assert_eq!(online_cpu_ids("0-3,8\n").unwrap(), vec![0, 1, 2, 3, 8]);
    match online_cpu_ids("\n") {
        Err(ClerestoryError::ProbeError { path, message }) => {
            assert_eq!(path, "sys/devices/system/cpu/online");
            assert_eq!(message, "No online CPUs found");
        }
        other => panic!("unexpected {:?}", other),
    }
}

#[test]
fn test_parse_cpu_list_forms() {
    assert_eq!(parse_cpu_list("0-7,16-23"), (0..8).chain(16..24).collect::<Vec<u32>>());
    assert_eq!(parse_cpu_list("0,2,4,6"), vec![0, 2, 4, 6]);
    assert_eq!(parse_cpu_list(" 3,1,3 \n"), vec![1, 3]);
    assert_eq!(parse_cpu_list("5-3,x,2"), vec![2]);
    assert_eq!(parse_cpu_list(""), Vec::<u32>::new());
}

#[test]
fn test_amd_gaming_pinning_stays_on_vcache_ccd() {
    let topology = amd_topology();
    let optimizer = CpuPinningOptimizer::new(&topology);
    let pinning = optimizer
        .optimize(8, OptimizationProfile::Gaming, true)
        .expect("Pinning 8 vCPUs must succeed");
    assert_eq!(pinning.vcpu_pins.len(), 8);
    let ccd0_cpus: Vec<u32> = (0..8).chain(16..24).collect();
    for (vcpu, host_cpu) in &pinning.vcpu_pins {
        assert!(ccd0_cpus.contains(host_cpu), "vCPU {} on {}", vcpu, host_cpu);
    }
    assert!(!pinning.emulator_pins.is_empty());
    assert!(!pinning.iothread_pins.is_empty());
    for &cpu in &pinning.emulator_pins {
        assert!((8..32).contains(&cpu) && !(16..24).contains(&cpu));
    }
}

#[test]
fn test_intel_pinning_uses_p_cores() {
    let topology = intel_topology();
    let optimizer = CpuPinningOptimizer::new(&topology);
    let pinning = optimizer
        .optimize(8, OptimizationProfile::Auto, true)
        .expect("Pinning 8 vCPUs must succeed");
    assert_eq!(pinning.vcpu_pins.len(), 8);
    for (_vcpu, host_cpu) in &pinning.vcpu_pins {
        assert!(*host_cpu < 16);
    }
    for &cpu in &pinning.emulator_pins {
        assert!(cpu >= 16);
    }
}

#[test]
fn test_intel_pinning_beyond_p_cores_is_capacity_error() {
    let topology = intel_topology();
    let optimizer = CpuPinningOptimizer::new(&topology);
    match optimizer.optimize(20, OptimizationProfile::Auto, true) {
        Err(ClerestoryError::TopologyCapacityError { requested, available }) => {
            assert_eq!(requested, 20);
            assert_eq!(available, 16);
        }
        other => panic!("unexpected {:?}", other),
    }
}

#[test]
fn test_compute_profile_prefers_standard_ccd() {
    let topology = amd_topology();
    let pinning = CpuPinningOptimizer::new(&topology)
        .optimize(8, OptimizationProfile::Compute, true)
        .expect("pinning");
    let ccd1: Vec<u32> = (8..16).chain(24..32).collect();
    assert!(pinning.vcpu_pins.iter().all(|(_, h)| ccd1.contains(h)));
}

#[test]
fn test_auto_profile_prefers_largest_cache() {
    let topology = amd_topology();
    let pinning = CpuPinningOptimizer::new(&topology)
        .optimize(8, OptimizationProfile::Auto, true)
        .expect("pinning");
    let ccd0: Vec<u32> = (0..8).chain(16..24).collect();
    assert!(pinning.vcpu_pins.iter().all(|(_, h)| ccd0.contains(h)));
}

#[test]
fn test_vcpus_numbered_and_emulator_isolated() {
    let topology = amd_topology();
    for profile in [OptimizationProfile::Auto, OptimizationProfile::Gaming, OptimizationProfile::Compute] {
        let pinning = CpuPinningOptimizer::new(&topology).optimize(6, profile, true).expect("pinning");
        for (i, (vcpu, _)) in pinning.vcpu_pins.iter().enumerate() {
            assert_eq!(*vcpu as usize, i);
        }
        let hosts: Vec<u32> = pinning.vcpu_pins.iter().map(|(_, h)| *h).collect();
        assert!(!hosts.contains(&pinning.emulator_pins[0]));
    }
    match CpuPinningOptimizer::new(&topology).optimize(0, OptimizationProfile::Auto, true) {
        Err(ClerestoryError::ValidationError(m)) => assert_eq!(m, "Requested vCPUs must be at least 1"),
        other => panic!("unexpected {:?}", other),
    }
}

#[test]
fn test_each_cpu_in_exactly_one_domain() {
    for topology in [amd_topology(), intel_topology()] {
        for cpu in 0..32u32 {
            let holders = topology.cache_domains.iter().filter(|d| d.cpu_ids.contains(&cpu)).count();
            assert_eq!(holders, 1);
        }
    }
}

#[test]
fn test_core_pairs_ordered_by_lowest_shared_cpu() {
    // Cores whose sibling CPUs interleave: core 0 = {2, 3}, core 1 = {0, 1}.
    let r: Vec<CpuReading> = (0..4u32)
        .map(|cpu| CpuReading {
            cpu_id: cpu,
            core_id: s(if cpu < 2 { "1" } else { "0" }),
            physical_package_id: s("0"),
            thread_siblings_list: s(if cpu < 2 { "0-1" } else { "2-3" }),
            core_type: None,
            max_freq_khz: None,
            l3_id: s("0"),
            l3_size: s("8M"),
        })
        .collect();
    let t = build_topology("", &r);
    let ids: Vec<u32> = t.cache_domains[0].core_pairs.iter().map(|p| p.physical_core_id).collect();
    assert_eq!(ids, vec![1, 0]);
    assert_eq!(t.cache_domains[0].size_bytes, 8 * 1024 * 1024);
}

#[test]
fn test_ccd_request_beyond_threads_is_capacity_error() {
    let topology = amd_topology();
    match CpuPinningOptimizer::new(&topology).optimize(40, OptimizationProfile::Gaming, true) {
        Err(ClerestoryError::TopologyCapacityError { requested, available }) => {
            assert_eq!(requested, 40);
            assert_eq!(available, 32);
        }
        other => panic!("unexpected {:?}", other),
    }
    let pinning = CpuPinningOptimizer::new(&topology)
        .optimize(32, OptimizationProfile::Gaming, true)
        .expect("all threads");
    assert_eq!(pinning.vcpu_pins.len(), 32);
}

#[test]
fn test_cpu_list_round_trip() {
    for text in ["0-7,16-23", "3,1,3", "5-3,x,2", "", "0,2,4-6"] {
        let r = parse_cpu_list(text);
        let rendered = r.iter().map(|c| c.to_string()).collect::<Vec<_>>().join(",");
        assert_eq!(parse_cpu_list(&rendered), r);
    }
}
