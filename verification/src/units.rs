//! The fields of the AMD power unit register.

use vstd::prelude::*;

verus! {

/// Mask of the time unit field (bits 16 to 19).
pub const AMD_TIME_UNIT_MASK: u64 = 0xF0000;

/// Mask of the energy unit field (bits 8 to 12).
pub const AMD_ENERGY_UNIT_MASK: u64 = 0x1F00;

/// Mask of the power unit field (bits 0 to 3).
pub const AMD_POWER_UNIT_MASK: u64 = 0xF;

/// The unit exponents packed in a power unit register value.
#[derive(Clone, Copy, Debug, PartialEq, Eq, Structural)]
pub struct PowerUnits {
    pub time_unit: u64,
    pub energy_unit: u64,
    pub power_unit: u64,
}

/// Splits an AMD power unit register value into its time, energy and power unit fields.
pub fn decode_amd_power_units(raw: u64) -> (res: PowerUnits)
    ensures
        res.time_unit == (raw & AMD_TIME_UNIT_MASK) >> 16u64,
        res.energy_unit == (raw & AMD_ENERGY_UNIT_MASK) >> 8u64,
        res.power_unit == raw & AMD_POWER_UNIT_MASK,
        res.time_unit < 16,
        res.energy_unit < 32,
        res.power_unit < 16,
{
    let time_unit: u64 = (raw & AMD_TIME_UNIT_MASK) >> 16u64;
    let energy_unit: u64 = (raw & AMD_ENERGY_UNIT_MASK) >> 8u64;
    let power_unit: u64 = raw & AMD_POWER_UNIT_MASK;
    proof {
        assert((raw & 0xF0000u64) >> 16u64 < 16) by (bit_vector);
        assert((raw & 0x1F00u64) >> 8u64 < 32) by (bit_vector);
        assert(raw & 0xFu64 < 16) by (bit_vector);
    }
    PowerUnits { time_unit, energy_unit, power_unit }
}

} // verus!
