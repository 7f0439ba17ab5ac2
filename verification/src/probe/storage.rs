//! Storage capabilities: io_uring availability, TRIM/discard and rotational media.

use crate::model::host::StorageCapability;
use crate::probe::topology::{attr_u64, read_attr_u64};
use crate::text::{
    chars_of, eq_str, lemma_split_on_nonempty, parse_u32_chars, spec_parse_u32, split_chars, split_on, starts_with,
    starts_with_str, string_from, trim, trim_chars, views,
};
use vstd::prelude::*;

verus! {

/// (major, minor) of a kernel release such as "6.8.0-45-generic": the first
/// '.'-separated field trimmed, and the second up to its first '-', each 0
/// when it is not a number; `None` when the release has no '.'.
pub open spec fn release_version(rel: Seq<char>) -> Option<(u32, u32)> {
    let parts = split_on(rel, '.');
    if parts.len() >= 2 {
        let major = match spec_parse_u32(trim(parts[0])) {
            Some(v) => v,
            None => 0,
        };
        let minor = match spec_parse_u32(split_on(parts[1], '-')[0]) {
            Some(v) => v,
            None => 0,
        };
        Some((major, minor))
    } else {
        None
    }
}

/// The release is older than 5.10.
pub open spec fn release_before_5_10(rel: Seq<char>) -> bool {
    match release_version(rel) {
        Some(v) => !(v.0 > 5 || (v.0 == 5 && v.1 >= 10)),
        None => false,
    }
}

/// io_uring is usable unless the io_uring_disabled sysctl reads "1" or "2",
/// or the kernel release (osrelease) is older than 5.10. An unreadable sysctl
/// or release, or a release without a '.', does not rule it out.
pub open spec fn io_uring_on(disabled: Option<String>, osrelease: Option<String>) -> bool {
    let off = match disabled {
        Some(s) => trim(s@) == "1"@ || trim(s@) == "2"@,
        None => false,
    };
    let old = match osrelease {
        Some(r) => release_before_5_10(r@),
        None => false,
    };
    !off && !old
}

/// The (major, minor) version of a kernel release text.
pub fn kernel_version(rel: &str) -> (r: Option<(u32, u32)>)
    ensures
        r == release_version(rel@),
{
    let v = chars_of(rel);
    let parts = split_chars(&v, '.');
    assert(views(parts@).len() == parts@.len());
    if parts.len() >= 2 {
        assert(views(parts@)[0] == parts@[0]@);
        assert(views(parts@)[1] == parts@[1]@);
        let major = match parse_u32_chars(&trim_chars(&parts[0])) {
            Some(x) => x,
            None => 0,
        };
        let sub = split_chars(&parts[1], '-');
        proof { lemma_split_on_nonempty(parts@[1]@, '-'); }
        assert(views(sub@).len() == sub@.len());
        assert(views(sub@)[0] == sub@[0]@);
        let minor = match parse_u32_chars(&sub[0]) {
            Some(x) => x,
            None => 0,
        };
        Some((major, minor))
    } else {
        None
    }
}

/// Whether io_uring is usable, from the contents of the io_uring_disabled
/// sysctl and of the kernel's osrelease (each `None` when unreadable).
pub fn check_io_uring(disabled: &Option<String>, osrelease: &Option<String>) -> (b: bool)
    ensures
        b == io_uring_on(*disabled, *osrelease),
{
    match disabled {
        Some(s) => {
            let v = chars_of(s.as_str());
            let t = trim_chars(&v);
            if eq_str(&t, "1") || eq_str(&t, "2") {
                return false;
            }
        },
        None => {},
    }
    match osrelease {
        Some(r) => match kernel_version(r.as_str()) {
            Some((major, minor)) => major > 5 || (major == 5 && minor >= 10),
            None => true,
        },
        None => true,
    }
}

/// Block devices considered: NVMe and SCSI/SATA disks.
pub open spec fn block_candidate(name: Seq<char>) -> bool {
    starts_with(name, "nvme"@) || starts_with(name, "sd"@)
}

/// The position of the first NVMe or SCSI/SATA disk among the block devices.
pub fn pick_block_device(names: &Vec<String>) -> (r: Option<usize>)
    ensures
        match r {
            Some(i) => i < names@.len() && block_candidate(names@[i as int]@)
                && forall|j: int| 0 <= j < i ==> !block_candidate(#[trigger] names@[j]@),
            None => forall|j: int| 0 <= j < names@.len() ==> !block_candidate(#[trigger] names@[j]@),
        },
{
    let mut i: usize = 0;
    while i < names.len()
        invariant
            i <= names.len(),
            forall|j: int| 0 <= j < i ==> !block_candidate(#[trigger] names@[j]@),
        decreases names.len() - i,
    {
        let v = chars_of(names[i].as_str());
        if starts_with_str(&v, "nvme") || starts_with_str(&v, "sd") {
            return Some(i);
        }
        i = i + 1;
    }
    None
}

/// The media is rotational when its queue/rotational attribute reads "1".
pub open spec fn rotational_on(rotational: Option<String>) -> bool {
    match rotational {
        Some(s) => trim(s@) == "1"@,
        None => false,
    }
}

/// TRIM is supported unless a readable discard_granularity is zero or not a number.
pub open spec fn trim_on(discard: Option<String>) -> bool {
    match discard {
        Some(_) => match attr_u64(discard) {
            Some(g) => g > 0,
            None => false,
        },
        None => true,
    }
}

/// (TRIM support, rotational) of the chosen disk, from its queue attributes
/// (`None` where an attribute could not be read, or when there is no disk).
pub fn block_device_caps(rotational: &Option<String>, discard: &Option<String>) -> (r: (bool, bool))
    ensures
        r.0 == trim_on(*discard),
        r.1 == rotational_on(*rotational),
{
    let is_rotational = match rotational {
        Some(s) => {
            let v = chars_of(s.as_str());
            let t = trim_chars(&v);
            eq_str(&t, "1")
        },
        None => false,
    };
    let supports_trim = match discard {
        Some(_) => match read_attr_u64(discard) {
            Some(g) => g > 0,
            None => false,
        },
        None => true,
    };
    (supports_trim, is_rotational)
}

/// The storage capabilities, from the io_uring_disabled sysctl, the kernel
/// release and the chosen disk's queue attributes.
pub fn storage_capability(
    io_uring_disabled: &Option<String>,
    osrelease: &Option<String>,
    rotational: &Option<String>,
    discard: &Option<String>,
) -> (r: StorageCapability)
    ensures
        r.supports_io_uring == io_uring_on(*io_uring_disabled, *osrelease),
        r.supports_trim == trim_on(*discard),
        r.is_rotational == rotational_on(*rotational),
        r.target_filesystem@ == "ext4/btrfs/xfs"@,
{
    let (supports_trim, is_rotational) = block_device_caps(rotational, discard);
    StorageCapability {
        supports_io_uring: check_io_uring(io_uring_disabled, osrelease),
        supports_trim,
        is_rotational,
        target_filesystem: string_from("ext4/btrfs/xfs"),
    }
}

} // verus!
