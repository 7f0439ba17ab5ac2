//! Interpretation of what the host's sysfs and procfs report.
//!
//! Reading the files is left to the caller; these modules turn their contents
//! into the host model.

pub mod cpu;
pub mod memory;
pub mod security;
pub mod storage;
pub mod sysfs;
pub mod topology;
