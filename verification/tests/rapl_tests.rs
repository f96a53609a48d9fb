use rapl_lib::amd;
use rapl_lib::bench::{bench_test, end_rapl};
use rapl_lib::cpu::{cpu_type_from_vendor_id, get_cpu_type, CpuType};
use rapl_lib::error::RaplError;
use rapl_lib::intel;
use rapl_lib::msr::{msr_request, msr_value, read_msr, read_msr_wrapper};
use rapl_lib::session::{
    read_rapl_pkg_energy_stat, read_rapl_power_unit, read_rapl_values, read_rapl_values_amd,
    read_rapl_values_intel, start_rapl_impl, RaplSession, RaplValues,
};
use rapl_lib::units::decode_amd_power_units;
use std::cell::Cell;

/// A register bank: answers each request with the value stored for that index,
/// and with an error for any index it does not hold.
fn bank(regs: Vec<(u32, u64)>) -> impl Fn([u8; 4]) -> Result<[u8; 8], RaplError> {
    move |req: [u8; 4]| {
        let msr = u32::from_le_bytes(req);
        match regs.iter().find(|(m, _)| *m == msr) {
            Some((_, v)) => Ok(v.to_le_bytes()),
            None => Err(RaplError::Windows(-1)),
        }
    }
}

fn amd_bank(units: u64, pkg: u64, core: u64) -> impl Fn([u8; 4]) -> Result<[u8; 8], RaplError> {
    bank(vec![
        (amd::MSR_RAPL_POWER_UNIT as u32, units),
        (amd::MSR_RAPL_PKG_ENERGY_STAT as u32, pkg),
        (amd::AMD_MSR_CORE_ENERGY as u32, core),
    ])
}

fn intel_bank(
    units: u64,
    pp0: u64,
    pp1: u64,
    dram: u64,
    pkg: u64,
) -> impl Fn([u8; 4]) -> Result<[u8; 8], RaplError> {
    bank(vec![
        (intel::MSR_RAPL_POWER_UNIT as u32, units),
        (intel::INTEL_MSR_RAPL_PP0 as u32, pp0),
        (intel::INTEL_MSR_RAPL_PP1 as u32, pp1),
        (intel::INTEL_MSR_RAPL_DRAM as u32, dram),
        (intel::MSR_RAPL_PKG_ENERGY_STAT as u32, pkg),
    ])
}

#[test]
fn request_bytes_are_little_endian() {
    assert_eq!(msr_request(0x606), [0x06, 0x06, 0x00, 0x00]);
    assert_eq!(msr_request(0xC0010299), [0x99, 0x02, 0x01, 0xC0]);
    assert_eq!(msr_request(0), [0, 0, 0, 0]);
    assert_eq!(msr_request(u32::MAX), [0xff, 0xff, 0xff, 0xff]);
}

#[test]
fn value_bytes_are_little_endian() {
    assert_eq!(msr_value([0x34, 0x12, 0, 0, 0, 0, 0, 0]), 0x1234);
    assert_eq!(msr_value([0, 0, 0, 0, 0, 0, 0, 0x80]), 0x8000_0000_0000_0000);
    assert_eq!(msr_value([0xff; 8]), u64::MAX);
    assert_eq!(msr_value([1, 2, 3, 4, 5, 6, 7, 8]), 0x0807_0605_0403_0201);
}

#[test]
fn request_and_value_round_trip() {
    for m in [0u32, 1, 0x606, 0xC001029A, u32::MAX] {
        let req = msr_request(m);
        let mut wide = [0u8; 8];
        wide[..4].copy_from_slice(&req);
        assert_eq!(msr_value(wide), m as u64);
    }
    for v in [0u64, 42, 0xDEAD_BEEF_0000_0001, u64::MAX] {
        assert_eq!(msr_value(v.to_le_bytes()), v);
    }
}

#[test]
fn read_msr_decodes_the_driver_answer() {
    let dev = bank(vec![(0x606, 0xA1003)]);
    assert_eq!(read_msr_wrapper(0x606, &dev), Ok(0xA1003));
    assert_eq!(read_msr(0x606, &dev), Ok(0xA1003));
}

#[test]
fn read_msr_sends_the_low_32_bits() {
    let asked = Cell::new([0u8; 4]);
    let dev = |req: [u8; 4]| {
        asked.set(req);
        Ok([7, 0, 0, 0, 0, 0, 0, 0])
    };
    assert_eq!(read_msr(0x1_0000_0606, &dev), Ok(7));
    assert_eq!(asked.get(), [0x06, 0x06, 0, 0]);
}

#[test]
fn read_msr_passes_driver_errors_on() {
    let dev = |_req: [u8; 4]| Err(RaplError::Windows(5));
    assert_eq!(read_msr(0x611, &dev), Err(RaplError::Windows(5)));
    let dev = |_req: [u8; 4]| Err(RaplError::Unknown);
    assert_eq!(read_msr_wrapper(0x611, &dev), Err(RaplError::Unknown));
}

#[test]
fn cpu_type_names() {
    assert_eq!(get_cpu_type(CpuType::Intel), "Intel");
    assert_eq!(get_cpu_type(CpuType::Amd), "AMD");
}

#[test]
fn vendor_id_detection() {
    assert_eq!(cpu_type_from_vendor_id("GenuineIntel"), Some(CpuType::Intel));
    assert_eq!(cpu_type_from_vendor_id("AuthenticAMD"), Some(CpuType::Amd));
    assert_eq!(cpu_type_from_vendor_id("CentaurHauls"), None);
    assert_eq!(cpu_type_from_vendor_id(""), None);
    assert_eq!(cpu_type_from_vendor_id("genuineintel"), None);
}

#[test]
fn register_addresses() {
    assert_eq!(CpuType::Intel.msr_rapl_power_unit(), 0x606);
    assert_eq!(CpuType::Intel.msr_rapl_pkg_energy_stat(), 0x611);
    assert_eq!(CpuType::Amd.msr_rapl_power_unit(), 0xC0010299);
    assert_eq!(CpuType::Amd.msr_rapl_pkg_energy_stat(), 0xC001029B);
    assert_eq!(amd::AMD_MSR_CORE_ENERGY, 0xC001029A);
    assert_eq!(intel::INTEL_MSR_RAPL_PP0, 0x639);
    assert_eq!(intel::INTEL_MSR_RAPL_PP1, 0x641);
    assert_eq!(intel::INTEL_MSR_RAPL_DRAM, 0x619);
}

#[test]
fn error_messages() {
    assert_eq!(RaplError::Windows(3).message(), "windows error");
    assert_eq!(RaplError::Unknown.message(), "unknown RAPL error");
}

#[test]
fn amd_power_unit_fields() {
    let u = decode_amd_power_units(0x000A_1003);
    assert_eq!(u.time_unit, 0xA);
    assert_eq!(u.energy_unit, 0x10);
    assert_eq!(u.power_unit, 0x3);
    let u = decode_amd_power_units(u64::MAX);
    assert_eq!((u.time_unit, u.energy_unit, u.power_unit), (15, 31, 15));
    let u = decode_amd_power_units(0);
    assert_eq!((u.time_unit, u.energy_unit, u.power_unit), (0, 0, 0));
}

#[test]
fn bench_counts_to_n() {
    assert_eq!(bench_test(1000), 1000);
    assert_eq!(bench_test(1), 1);
    assert_eq!(bench_test(0), 0);
    assert_eq!(bench_test(-5), 0);
}

#[test]
fn end_rapl_reports_456() {
    assert_eq!(end_rapl(), 456);
}

#[test]
fn power_unit_and_package_reads() {
    let dev = amd_bank(0xA1003, 111, 222);
    assert_eq!(read_rapl_power_unit(CpuType::Amd, &dev), Ok(0xA1003));
    assert_eq!(read_rapl_pkg_energy_stat(CpuType::Amd, &dev), Ok(111));
    let dev = intel_bank(0x606_0000, 1, 2, 3, 4);
    assert_eq!(read_rapl_power_unit(CpuType::Intel, &dev), Ok(0x606_0000));
    assert_eq!(read_rapl_pkg_energy_stat(CpuType::Intel, &dev), Ok(4));
    // an Intel bank holds no AMD registers
    assert_eq!(read_rapl_power_unit(CpuType::Amd, &dev), Err(RaplError::Windows(-1)));
}

#[test]
fn counter_reads() {
    let dev = amd_bank(1, 111, 222);
    assert_eq!(read_rapl_values_amd(&dev), Ok((111, 222)));
    assert_eq!(read_rapl_values(CpuType::Amd, &dev), Ok(RaplValues::Amd { pkg: 111, core: 222 }));
    let dev = intel_bank(1, 10, 20, 30, 40);
    assert_eq!(read_rapl_values_intel(&dev), Ok((10, 20, 30, 40)));
    assert_eq!(
        read_rapl_values(CpuType::Intel, &dev),
        Ok(RaplValues::Intel { pp0: 10, pp1: 20, dram: 30, pkg: 40 })
    );
    // the core register is missing: the error of that read comes back
    let dev = bank(vec![(amd::MSR_RAPL_PKG_ENERGY_STAT as u32, 5)]);
    assert_eq!(read_rapl_values_amd(&dev), Err(RaplError::Windows(-1)));
}

#[test]
fn start_impl_reads_the_amd_power_unit() {
    let dev = amd_bank(0xA1003, 0, 0);
    assert_eq!(start_rapl_impl(&dev), Ok(0xA1003));
    // an Intel register bank has no AMD power unit register
    let dev = intel_bank(0xA0E03, 0, 0, 0, 0);
    assert_eq!(start_rapl_impl(&dev), Err(RaplError::Windows(-1)));
}

#[test]
fn new_session_is_empty() {
    let s = RaplSession::new(CpuType::Amd);
    assert_eq!(s.cpu(), CpuType::Amd);
    assert_eq!(s.power_units(), None);
    assert_eq!(s.start_values(), RaplValues::Amd { pkg: 0, core: 0 });
    assert!(!s.log_open());
    let s = RaplSession::new(CpuType::Intel);
    assert_eq!(s.start_values(), RaplValues::Intel { pp0: 0, pp1: 0, dram: 0, pkg: 0 });
}

#[test]
fn amd_session_logs_header_once_then_rows() {
    let mut s = RaplSession::new(CpuType::Amd);
    s.start_rapl(&amd_bank(0xA1003, 100, 7)).unwrap();
    assert_eq!(s.power_units(), Some(0xA1003));
    assert_eq!(s.start_values(), RaplValues::Amd { pkg: 100, core: 7 });

    let w = s.stop_rapl(&amd_bank(0xA1003, 250, 19)).unwrap();
    assert_eq!(w.file_name, "AMD_659459.csv");
    assert_eq!(w.end, RaplValues::Amd { pkg: 250, core: 19 });
    assert_eq!(
        String::from_utf8(w.bytes).unwrap(),
        "PkgStart,PkgEnd,CoreStart,CoreEnd\n100,250,7,19\n"
    );
    assert!(s.log_open());

    // a second stop without a new start pairs the same start values; no header
    let w = s.stop_rapl(&amd_bank(0xA1003, 300, 20)).unwrap();
    assert_eq!(w.file_name, "AMD_659459.csv");
    assert_eq!(String::from_utf8(w.bytes).unwrap(), "100,300,7,20\n");

    let w = s.stop_rapl(&amd_bank(0xA1003, 350, 25)).unwrap();
    assert_eq!(String::from_utf8(w.bytes).unwrap(), "100,350,7,25\n");

    // a new start records new start values
    s.start_rapl(&amd_bank(0xA1003, 400, 30)).unwrap();
    let w = s.stop_rapl(&amd_bank(0xA1003, 401, 31)).unwrap();
    assert_eq!(String::from_utf8(w.bytes).unwrap(), "400,401,30,31\n");
}

#[test]
fn intel_session_logs_eight_columns() {
    let mut s = RaplSession::new(CpuType::Intel);
    s.start_rapl(&intel_bank(0xA0E03, 1, 2, 3, 4)).unwrap();
    let w = s.stop_rapl(&intel_bank(0xA0E03, 11, 12, 13, 14)).unwrap();
    assert_eq!(w.file_name, "Intel_658947.csv");
    assert_eq!(
        String::from_utf8(w.bytes).unwrap(),
        "PP0Start,PP0End,PP1Start,PP1End,PkgStart,PkgEnd,DramStart,DramEnd\n1,11,2,12,4,14,3,13\n"
    );
}

#[test]
fn power_units_are_read_once() {
    let mut s = RaplSession::new(CpuType::Amd);
    s.start_rapl(&amd_bank(5, 1, 1)).unwrap();
    // the power unit register now reads differently; the session keeps the first value
    s.start_rapl(&amd_bank(9, 2, 2)).unwrap();
    assert_eq!(s.power_units(), Some(5));
    assert_eq!(s.start_values(), RaplValues::Amd { pkg: 2, core: 2 });
    let w = s.stop_rapl(&amd_bank(9, 3, 3)).unwrap();
    assert_eq!(w.file_name, "AMD_5.csv");
}

#[test]
fn failed_power_unit_read_leaves_the_session() {
    let mut s = RaplSession::new(CpuType::Amd);
    let dev = bank(vec![]);
    assert_eq!(s.start_rapl(&dev), Err(RaplError::Windows(-1)));
    assert_eq!(s.power_units(), None);
    assert_eq!(s.start_values(), RaplValues::Amd { pkg: 0, core: 0 });
}

#[test]
fn failed_counter_read_keeps_the_start_values() {
    let mut s = RaplSession::new(CpuType::Amd);
    s.start_rapl(&amd_bank(5, 10, 20)).unwrap();
    let dev = bank(vec![(amd::MSR_RAPL_POWER_UNIT as u32, 5)]);
    assert_eq!(s.start_rapl(&dev), Err(RaplError::Windows(-1)));
    assert_eq!(s.start_values(), RaplValues::Amd { pkg: 10, core: 20 });
    assert_eq!(s.power_units(), Some(5));
}

#[test]
fn failed_stop_logs_nothing() {
    let mut s = RaplSession::new(CpuType::Amd);
    s.start_rapl(&amd_bank(5, 10, 20)).unwrap();
    let dev = |_req: [u8; 4]| Err(RaplError::Windows(2));
    assert!(matches!(s.stop_rapl(&dev), Err(RaplError::Windows(2))));
    assert!(!s.log_open());
    // the header still comes with the first successful stop
    let w = s.stop_rapl(&amd_bank(5, 11, 21)).unwrap();
    assert_eq!(
        String::from_utf8(w.bytes).unwrap(),
        "PkgStart,PkgEnd,CoreStart,CoreEnd\n10,11,20,21\n"
    );
}

#[test]
fn large_counters_are_logged_in_decimal() {
    let mut s = RaplSession::new(CpuType::Amd);
    s.start_rapl(&amd_bank(0, 0, u64::MAX)).unwrap();
    let w = s.stop_rapl(&amd_bank(0, 10, 0)).unwrap();
    assert_eq!(w.file_name, "AMD_0.csv");
    assert_eq!(
        String::from_utf8(w.bytes).unwrap(),
        "PkgStart,PkgEnd,CoreStart,CoreEnd\n0,10,18446744073709551615,0\n"
    );
}
