//! Reading the RAPL (Running Average Power Limit) energy counters of a CPU
//! through its model-specific registers, and logging start/stop readings.

pub mod amd;
pub mod bench;
pub mod cpu;
pub mod csv_log;
pub mod error;
pub mod intel;
pub mod msr;
pub mod session;
pub mod units;
pub mod units_cell;
