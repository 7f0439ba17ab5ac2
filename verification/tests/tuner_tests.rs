use clerestory::model::host::{HugepageTier, StorageCapability};
use clerestory::optimizer::io_tuner::IoTuner;
use clerestory::optimizer::memory_tuner::MemoryTuner;

fn tier(page_size_kb: u64, free_pages: u64) -> HugepageTier {
    HugepageTier { page_size_kb, total_pages: free_pages, free_pages, mount_point: None }
}

#[test]
fn test_select_hugepages_first_fitting_tier() {
    let tiers = vec![tier(1048576, 8), tier(2048, 16384)];
    assert_eq!(MemoryTuner::select_hugepages(8192, &tiers), (true, Some(1048576)));
    assert_eq!(MemoryTuner::select_hugepages(16384, &tiers), (true, Some(2048)));
    assert_eq!(MemoryTuner::select_hugepages(65536, &tiers), (false, None));
    assert_eq!(MemoryTuner::select_hugepages(0, &[tier(2048, 0)]), (false, None));
    assert_eq!(MemoryTuner::select_hugepages(1024, &[]), (false, None));
}

#[test]
fn test_io_tuner() {
    let mut storage = StorageCapability {
        supports_io_uring: true,
        supports_trim: true,
        is_rotational: false,
        target_filesystem: "ext4/btrfs/xfs".to_string(),
    };
    assert_eq!(IoTuner::tune(8, &storage), ("io_uring".to_string(), 8));
    storage.supports_io_uring = false;
    assert_eq!(IoTuner::tune(0, &storage), ("native".to_string(), 1));
}
