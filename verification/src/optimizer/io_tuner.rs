//! VirtIO-SCSI queue calculation and asynchronous I/O engine selection.

use crate::model::host::StorageCapability;
use crate::text::string_from;
use vstd::prelude::*;

verus! {

pub struct IoTuner;

impl IoTuner {
    /// Selects optimal I/O engine ('io_uring' vs 'native') and queue count:
    /// io_uring when the host supports it, and one queue per vCPU (at least one).
    pub fn tune(vcpus: u32, storage: &StorageCapability) -> (r: (String, u32))
        ensures
            r.0@ == (if storage.supports_io_uring { "io_uring"@ } else { "native"@ }),
            r.1 == (if vcpus >= 1 { vcpus } else { 1 }),
    {
        let engine = if storage.supports_io_uring {
            string_from("io_uring")
        } else {
            string_from("native")
        };
        let queues = if vcpus >= 1 { vcpus } else { 1 };
        (engine, queues)
    }
}

} // verus!
