//! Register addresses of the AMD RAPL interface.
//!
//! AMD reports the core energy of each core separately, rather than a total
//! over the package as Intel does.

use vstd::prelude::*;

verus! {

/// Units in which power, energy and time are counted (as Intel's `MSR_RAPL_POWER_UNIT`).
pub const MSR_RAPL_POWER_UNIT: u64 = 0xC0010299;

/// Energy consumed by the whole socket (as Intel's package energy status).
pub const MSR_RAPL_PKG_ENERGY_STAT: u64 = 0xC001029B;

/// Energy consumed by the core (as Intel's power plane 0).
pub const AMD_MSR_CORE_ENERGY: u64 = 0xC001029A;

} // verus!
