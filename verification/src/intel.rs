//! Register addresses of the Intel RAPL interface.

use vstd::prelude::*;

verus! {

/// Units in which power, energy and time are counted.
pub const MSR_RAPL_POWER_UNIT: u64 = 0x606;

/// Energy consumed by the whole package.
pub const MSR_RAPL_PKG_ENERGY_STAT: u64 = 0x611;

/// Energy consumed by the cores (power plane 0).
pub const INTEL_MSR_RAPL_PP0: u64 = 0x639;

/// Energy consumed by the uncore, mostly the integrated GPU (power plane 1).
pub const INTEL_MSR_RAPL_PP1: u64 = 0x641;

/// Energy consumed by the memory.
pub const INTEL_MSR_RAPL_DRAM: u64 = 0x619;

} // verus!
