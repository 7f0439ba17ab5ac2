//! VirtIO driver archive location and verification.
//!
//! Whether a file exists is for the caller to find out.

use crate::error::ClerestoryError;
use crate::text::{push_str, string_from};
use vstd::prelude::*;

verus! {

pub const VIRTIO_WIN_STABLE_URL: &'static str =
    "https://fedorapeople.org/groups/virt/virtio-win/direct-downloads/stable-virtio/virtio-win.iso";

/// The places where virtio-win.iso is looked for, in order.
pub open spec fn iso_candidate(i: int) -> Seq<char> {
    if i == 0 {
        "/usr/share/virtio-win/virtio-win.iso"@
    } else if i == 1 {
        "/var/lib/libvirt/images/virtio-win.iso"@
    } else {
        "/tmp/virtio-win.iso"@
    }
}

pub struct VirtioDriverHelper;

impl VirtioDriverHelper {
    /// The virtio-win.iso locations, in the order they are tried.
    pub fn iso_candidates() -> (v: Vec<String>)
        ensures
            v@.len() == 3,
            forall|i: int| 0 <= i < 3 ==> (#[trigger] v@[i])@ == iso_candidate(i),
    {
        let mut v: Vec<String> = Vec::new();
        v.push(string_from("/usr/share/virtio-win/virtio-win.iso"));
        v.push(string_from("/var/lib/libvirt/images/virtio-win.iso"));
        v.push(string_from("/tmp/virtio-win.iso"));
        v
    }

    /// The first location of virtio-win.iso that exists, given which of the
    /// candidates do.
    pub fn find_local_iso(present: &Vec<bool>) -> (r: Option<String>)
        requires
            present@.len() == 3,
        ensures
            match r {
                Some(p) => exists|i: int| 0 <= i < 3 && #[trigger] present@[i]
                    && (forall|j: int| 0 <= j < i ==> !present@[j]) && p@ == iso_candidate(i),
                None => forall|i: int| 0 <= i < 3 ==> !present@[i],
            },
    {
        let c = Self::iso_candidates();
        let mut i: usize = 0;
        while i < 3
            invariant
                i <= 3,
                present@.len() == 3,
                c@.len() == 3,
                forall|q: int| 0 <= q < 3 ==> (#[trigger] c@[q])@ == iso_candidate(q),
                forall|j: int| 0 <= j < i ==> !present@[j],
            decreases 3 - i,
        {
            if present[i] {
                return Some(string_from(c[i].as_str()));
            }
            i = i + 1;
        }
        None
    }

    /// A missing ISO is a missing prerequisite, with the download location as hint.
    pub fn verify_iso(iso_path: &str, iso_exists: bool) -> (r: Result<(), ClerestoryError>)
        ensures
            r is Ok <==> iso_exists,
            r is Err ==> (r matches Err(ClerestoryError::MissingPrerequisite { name, install_hint })
                && name@ == "VirtIO Driver ISO at "@ + iso_path@
                && install_hint@ == "Download from: "@ + VIRTIO_WIN_STABLE_URL@),
    {
        if !iso_exists {
            let mut name = string_from("VirtIO Driver ISO at ");
            push_str(&mut name, iso_path);
            let mut install_hint = string_from("Download from: ");
            push_str(&mut install_hint, VIRTIO_WIN_STABLE_URL);
            return Err(ClerestoryError::MissingPrerequisite { name, install_hint });
        }
        Ok(())
    }
}

} // verus!
