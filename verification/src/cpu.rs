//! The CPU vendors whose RAPL interface is known, and the registers read on each.

use vstd::prelude::*;
use crate::amd;
use crate::intel;

verus! {

/// A CPU vendor with a known RAPL interface.
#[derive(Clone, Copy, Debug, PartialEq, Eq, Structural)]
pub enum CpuType {
    Intel,
    Amd,
}

/// The register that holds the power, energy and time units on `cpu`.
pub open spec fn power_unit_msr(cpu: CpuType) -> u64 {
    match cpu {
        CpuType::Intel => intel::MSR_RAPL_POWER_UNIT,
        CpuType::Amd => amd::MSR_RAPL_POWER_UNIT,
    }
}

/// The register that holds the package energy counter on `cpu`.
pub open spec fn pkg_energy_msr(cpu: CpuType) -> u64 {
    match cpu {
        CpuType::Intel => intel::MSR_RAPL_PKG_ENERGY_STAT,
        CpuType::Amd => amd::MSR_RAPL_PKG_ENERGY_STAT,
    }
}

/// The name of the vendor, as written in log file names.
pub open spec fn cpu_name(cpu: CpuType) -> Seq<char> {
    match cpu {
        CpuType::Intel => "Intel"@,
        CpuType::Amd => "AMD"@,
    }
}

/// The vendor that a CPU reports through its vendor identification string.
pub open spec fn vendor_cpu_type(vendor_id: Seq<char>) -> Option<CpuType> {
    if vendor_id == "GenuineIntel"@ {
        Some(CpuType::Intel)
    } else if vendor_id == "AuthenticAMD"@ {
        Some(CpuType::Amd)
    } else {
        None
    }
}

impl CpuType {
    /// The register that holds the power, energy and time units.
    pub fn msr_rapl_power_unit(self) -> (res: u64)
        ensures
            res == power_unit_msr(self),
    {
        match self {
            CpuType::Intel => intel::MSR_RAPL_POWER_UNIT,
            CpuType::Amd => amd::MSR_RAPL_POWER_UNIT,
        }
    }

    /// The register that holds the package energy counter.
    pub fn msr_rapl_pkg_energy_stat(self) -> (res: u64)
        ensures
            res == pkg_energy_msr(self),
    {
        match self {
            CpuType::Intel => intel::MSR_RAPL_PKG_ENERGY_STAT,
            CpuType::Amd => amd::MSR_RAPL_PKG_ENERGY_STAT,
        }
    }
}

/// The name of the CPU vendor.
pub fn get_cpu_type(cpu: CpuType) -> (res: &'static str)
    ensures
        res@ == cpu_name(cpu),
{
    match cpu {
        CpuType::Intel => "Intel",
        CpuType::Amd => "AMD",
    }
}

/// The vendor named by a CPU's vendor identification string (`GenuineIntel` or
/// `AuthenticAMD`); `None` for any other vendor.
pub fn cpu_type_from_vendor_id(vendor_id: &str) -> (res: Option<CpuType>)
    ensures
        res == vendor_cpu_type(vendor_id@),
{
    let id = vendor_id.to_owned();
    let intel = "GenuineIntel".to_owned();
    let amd = "AuthenticAMD".to_owned();
    if id == intel {
        Some(CpuType::Intel)
    } else if id == amd {
        proof {
            reveal_strlit("GenuineIntel");
            reveal_strlit("AuthenticAMD");
        }
        Some(CpuType::Amd)
    } else {
        None
    }
}

} // verus!
