//! Domain model of the host hardware and of the virtual machine to synthesize.

pub mod enlightenments;
pub mod host;
pub mod vm;

pub use vm::OptimizationProfile;
