//! Hyper-V enlightenments and sub-microsecond timing definitions.

use vstd::prelude::*;

verus! {

/// Hyper-V performance enlightenments matrix for the Windows NT kernel.
#[derive(Debug, Clone, PartialEq, Eq)]
pub struct HyperVEnlightenments {
    pub relaxed: bool,
    pub vapic: bool,
    pub spinlocks_retries: u32,
    pub vpindex: bool,
    pub runtime: bool,
    pub synic: bool,
    pub stimer_direct: bool,
    pub reset: bool,
    pub frequencies: bool,
    pub reenlightenment: bool,
    pub tlbflush: bool,
    pub ipi: bool,
    pub evmcs: bool,
    pub avic: bool,
}

/// The enlightenment set used by default: everything on except eVMCS and
/// AVIC, with 8191 spinlock retries.
pub open spec fn default_hyperv(h: HyperVEnlightenments) -> bool {
    &&& h.relaxed && h.vapic && h.vpindex && h.runtime && h.synic
    &&& h.stimer_direct && h.reset && h.frequencies && h.reenlightenment
    &&& h.tlbflush && h.ipi
    &&& h.spinlocks_retries == 8191
    &&& !h.evmcs && !h.avic
}

impl Default for HyperVEnlightenments {
    /// Every enlightenment on except eVMCS and AVIC, with 8191 spinlock retries.
    fn default() -> (h: Self)
        ensures
            default_hyperv(h),
    {
        HyperVEnlightenments {
            relaxed: true,
            vapic: true,
            spinlocks_retries: 8191,
            vpindex: true,
            runtime: true,
            synic: true,
            stimer_direct: true,
            reset: true,
            frequencies: true,
            reenlightenment: true,
            tlbflush: true,
            ipi: true,
            evmcs: false,
            avic: false,
        }
    }
}

/// Real-time clock and timer invariants configuration.
#[derive(Debug, Clone, PartialEq, Eq)]
pub struct ClockTimers {
    pub rtc_catchup: bool,
    pub pit_discard: bool,
    pub hpet_disabled: bool,
    pub hypervclock_enabled: bool,
    pub tsc_native: bool,
    pub kvmclock_disabled: bool,
}

/// The timer configuration used by default: every tweak enabled.
pub open spec fn default_clocks(t: ClockTimers) -> bool {
    &&& t.rtc_catchup && t.pit_discard && t.hpet_disabled
    &&& t.hypervclock_enabled && t.tsc_native && t.kvmclock_disabled
}

impl Default for ClockTimers {
    /// Every timer tweak enabled.
    fn default() -> (t: Self)
        ensures
            default_clocks(t),
    {
        ClockTimers {
            rtc_catchup: true,
            pit_discard: true,
            hpet_disabled: true,
            hypervclock_enabled: true,
            tsc_native: true,
            kvmclock_disabled: true,
        }
    }
}

} // verus!
