//! Topology-aware placement: vCPU pinning, I/O engine and hugepage selection.

pub mod cpu_pinning;
pub mod io_tuner;
pub mod memory_tuner;

pub use cpu_pinning::CpuPinningOptimizer;
pub use io_tuner::IoTuner;
pub use memory_tuner::MemoryTuner;
