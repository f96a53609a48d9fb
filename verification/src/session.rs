//! A RAPL measurement session: the power units read once, the counter values read
//! at start, and the CSV log of start/stop readings written at each stop.

use vstd::prelude::*;
use once_cell::sync::OnceCell;
use crate::amd;
use crate::cpu::{
    CpuType,
    cpu_name,
    get_cpu_type,
    pkg_energy_msr,
    power_unit_msr,
};
use crate::csv_log::{
    ascii_bytes,
    csv_line,
    csv_record_bytes,
    csv_row_bytes,
    decimal,
    decimal_fields,
    lemma_decimal_injective,
    log_file_name,
    plain_field,
    str_views,
};
use crate::error::RaplError;
use crate::intel;
use crate::msr::{device_answer, device_ready, device_refuses, lemma_refused_register_never_reads, read_msr};
use crate::units_cell::{cell_contents, cell_get, cell_get_or_init, cell_new};

verus! {

/// The energy counters read at one moment.
#[derive(Clone, Copy, Debug, PartialEq, Eq, Structural)]
pub enum RaplValues {
    /// The package and core counters of an AMD CPU.
    Amd { pkg: u64, core: u64 },
    /// The power plane 0, power plane 1, memory and package counters of an Intel CPU.
    Intel { pp0: u64, pp1: u64, dram: u64, pkg: u64 },
}

/// The counters of `cpu` before any reading: all zero.
pub open spec fn zero_values(cpu: CpuType) -> RaplValues {
    match cpu {
        CpuType::Amd => RaplValues::Amd { pkg: 0, core: 0 },
        CpuType::Intel => RaplValues::Intel { pp0: 0, pp1: 0, dram: 0, pkg: 0 },
    }
}

/// The counters are those of `cpu`.
pub open spec fn values_of(cpu: CpuType, v: RaplValues) -> bool {
    match cpu {
        CpuType::Amd => v is Amd,
        CpuType::Intel => v is Intel,
    }
}

/// `res` is what reading the package and core counters of an AMD CPU through
/// `device` gives: both values, or the error of the first read that failed
/// (the package counter is read first).
pub open spec fn amd_answer<F: Fn([u8; 4]) -> Result<[u8; 8], RaplError>>(
    device: F,
    res: Result<(u64, u64), RaplError>,
) -> bool {
    let pkg_msr: u32 = amd::MSR_RAPL_PKG_ENERGY_STAT as u32;
    let core_msr: u32 = amd::AMD_MSR_CORE_ENERGY as u32;
    match res {
        Ok((pkg, core)) => device_answer(device, pkg_msr, Ok(pkg)) && device_answer(
            device,
            core_msr,
            Ok(core),
        ),
        Err(e) => device_answer(device, pkg_msr, Err(e)) || ((exists|pkg: u64|
            device_answer(device, pkg_msr, Ok(pkg))) && device_answer(device, core_msr, Err(e))),
    }
}

/// `res` is what reading the power plane 0, power plane 1, memory and package counters
/// of an Intel CPU through `device`, in this order, gives: all four values, or the
/// error of the first read that failed.
pub open spec fn intel_answer<F: Fn([u8; 4]) -> Result<[u8; 8], RaplError>>(
    device: F,
    res: Result<(u64, u64, u64, u64), RaplError>,
) -> bool {
    let pp0_msr: u32 = intel::INTEL_MSR_RAPL_PP0 as u32;
    let pp1_msr: u32 = intel::INTEL_MSR_RAPL_PP1 as u32;
    let dram_msr: u32 = intel::INTEL_MSR_RAPL_DRAM as u32;
    let pkg_msr: u32 = intel::MSR_RAPL_PKG_ENERGY_STAT as u32;
    match res {
        Ok((pp0, pp1, dram, pkg)) => device_answer(device, pp0_msr, Ok(pp0)) && device_answer(
            device,
            pp1_msr,
            Ok(pp1),
        ) && device_answer(device, dram_msr, Ok(dram)) && device_answer(device, pkg_msr, Ok(pkg)),
        Err(e) => {
            ||| device_answer(device, pp0_msr, Err(e))
            ||| (exists|v: u64| device_answer(device, pp0_msr, Ok(v))) && device_answer(
                device,
                pp1_msr,
                Err(e),
            )
            ||| (exists|v: u64| device_answer(device, pp0_msr, Ok(v))) && (exists|v: u64|
                device_answer(device, pp1_msr, Ok(v))) && device_answer(device, dram_msr, Err(e))
            ||| (exists|v: u64| device_answer(device, pp0_msr, Ok(v))) && (exists|v: u64|
                device_answer(device, pp1_msr, Ok(v))) && (exists|v: u64|
                device_answer(device, dram_msr, Ok(v))) && device_answer(device, pkg_msr, Err(e))
        },
    }
}

/// `res` is what reading all counters of `cpu` through `device` gives.
pub open spec fn values_answer<F: Fn([u8; 4]) -> Result<[u8; 8], RaplError>>(
    device: F,
    cpu: CpuType,
    res: Result<RaplValues, RaplError>,
) -> bool {
    match cpu {
        CpuType::Amd => match res {
            Ok(RaplValues::Amd { pkg, core }) => amd_answer(device, Ok((pkg, core))),
            Ok(_) => false,
            Err(e) => amd_answer(device, Err(e)),
        },
        CpuType::Intel => match res {
            Ok(RaplValues::Intel { pp0, pp1, dram, pkg }) => intel_answer(
                device,
                Ok((pp0, pp1, dram, pkg)),
            ),
            Ok(_) => false,
            Err(e) => intel_answer(device, Err(e)),
        },
    }
}

/// Reads the register holding the power, energy and time units of `cpu`.
pub fn read_rapl_power_unit<F: Fn([u8; 4]) -> Result<[u8; 8], RaplError>>(
    cpu: CpuType,
    device: &F,
) -> (res: Result<u64, RaplError>)
    requires
        device_ready(*device),
    ensures
        device_answer(*device, power_unit_msr(cpu) as u32, res),
{
    read_msr(cpu.msr_rapl_power_unit(), device)
}

/// Reads the package energy counter of `cpu`.
pub fn read_rapl_pkg_energy_stat<F: Fn([u8; 4]) -> Result<[u8; 8], RaplError>>(
    cpu: CpuType,
    device: &F,
) -> (res: Result<u64, RaplError>)
    requires
        device_ready(*device),
    ensures
        device_answer(*device, pkg_energy_msr(cpu) as u32, res),
{
    read_msr(cpu.msr_rapl_pkg_energy_stat(), device)
}

/// Reads the package and core counters of an AMD CPU, in this order.
pub fn read_rapl_values_amd<F: Fn([u8; 4]) -> Result<[u8; 8], RaplError>>(device: &F) -> (res:
    Result<(u64, u64), RaplError>)
    requires
        device_ready(*device),
    ensures
        amd_answer(*device, res),
{
    let pkg: u64 = match read_rapl_pkg_energy_stat(CpuType::Amd, device) {
        Ok(v) => v,
        Err(e) => return Err(e),
    };
    let core: u64 = match read_msr(amd::AMD_MSR_CORE_ENERGY, device) {
        Ok(v) => v,
        Err(e) => return Err(e),
    };
    Ok((pkg, core))
}

/// Reads the power plane 0, power plane 1, memory and package counters of an Intel
/// CPU, in this order.
pub fn read_rapl_values_intel<F: Fn([u8; 4]) -> Result<[u8; 8], RaplError>>(device: &F) -> (res:
    Result<(u64, u64, u64, u64), RaplError>)
    requires
        device_ready(*device),
    ensures
        intel_answer(*device, res),
{
    let pp0: u64 = match read_msr(intel::INTEL_MSR_RAPL_PP0, device) {
        Ok(v) => v,
        Err(e) => return Err(e),
    };
    let pp1: u64 = match read_msr(intel::INTEL_MSR_RAPL_PP1, device) {
        Ok(v) => v,
        Err(e) => return Err(e),
    };
    let dram: u64 = match read_msr(intel::INTEL_MSR_RAPL_DRAM, device) {
        Ok(v) => v,
        Err(e) => return Err(e),
    };
    let pkg: u64 = match read_rapl_pkg_energy_stat(CpuType::Intel, device) {
        Ok(v) => v,
        Err(e) => return Err(e),
    };
    Ok((pp0, pp1, dram, pkg))
}

/// Reads the AMD power unit register, whatever the vendor of the CPU.
pub fn start_rapl_impl<F: Fn([u8; 4]) -> Result<[u8; 8], RaplError>>(device: &F) -> (res: Result<
    u64,
    RaplError,
>)
    requires
        device_ready(*device),
    ensures
        device_answer(*device, amd::MSR_RAPL_POWER_UNIT as u32, res),
{
    read_msr(amd::MSR_RAPL_POWER_UNIT, device)
}

/// Reads all counters of `cpu`.
pub fn read_rapl_values<F: Fn([u8; 4]) -> Result<[u8; 8], RaplError>>(
    cpu: CpuType,
    device: &F,
) -> (res: Result<RaplValues, RaplError>)
    requires
        device_ready(*device),
    ensures
        values_answer(*device, cpu, res),
{
    match cpu {
        CpuType::Amd => match read_rapl_values_amd(device) {
            Ok((pkg, core)) => Ok(RaplValues::Amd { pkg, core }),
            Err(e) => Err(e),
        },
        CpuType::Intel => match read_rapl_values_intel(device) {
            Ok((pp0, pp1, dram, pkg)) => Ok(RaplValues::Intel { pp0, pp1, dram, pkg }),
            Err(e) => Err(e),
        },
    }
}

/// The CSV header of the log of `cpu`: a start and an end column per counter.
pub open spec fn header_of(cpu: CpuType) -> Seq<Seq<char>> {
    match cpu {
        CpuType::Amd => seq!["PkgStart"@, "PkgEnd"@, "CoreStart"@, "CoreEnd"@],
        CpuType::Intel => seq![
            "PP0Start"@,
            "PP0End"@,
            "PP1Start"@,
            "PP1End"@,
            "PkgStart"@,
            "PkgEnd"@,
            "DramStart"@,
            "DramEnd"@,
        ],
    }
}

/// The CSV row of one measurement: each counter's start value next to its end value,
/// in the order of `header_of`.
pub open spec fn row_of(start: RaplValues, end: RaplValues) -> Seq<u64> {
    match (start, end) {
        (RaplValues::Amd { pkg: ps, core: cs }, RaplValues::Amd { pkg: pe, core: ce }) => seq![
            ps,
            pe,
            cs,
            ce,
        ],
        (
            RaplValues::Intel { pp0: a0, pp1: a1, dram: ad, pkg: ap },
            RaplValues::Intel { pp0: b0, pp1: b1, dram: bd, pkg: bp },
        ) => seq![a0, b0, a1, b1, ap, bp, ad, bd],
        _ => Seq::empty(),
    }
}

/// The abstract state of a session.
pub struct SessionView {
    /// The vendor of the CPU measured.
    pub cpu: CpuType,
    /// The power unit register value, once it has been read.
    pub power_units: Option<u64>,
    /// The counters read at the latest start (all zero before the first).
    pub start: RaplValues,
    /// Whether the log has been opened, its header written.
    pub log_open: bool,
}

impl SessionView {
    /// The start counters belong to the session's CPU, and the log is opened only
    /// once the power units (part of its name) are known.
    pub open spec fn wf(self) -> bool {
        &&& values_of(self.cpu, self.start)
        &&& self.log_open ==> self.power_units is Some
    }

    /// The state after a successful start that read `start`, the power units
    /// being `units` afterwards.
    pub open spec fn after_start(self, units: u64, start: RaplValues) -> SessionView {
        SessionView { power_units: Some(units), start, ..self }
    }

    /// The state after a successful stop: the log is open.
    pub open spec fn after_stop(self) -> SessionView {
        SessionView { log_open: true, ..self }
    }

    /// The name of the log file: vendor name and power units.
    pub open spec fn log_name(self) -> Seq<char> {
        cpu_name(self.cpu) + "_"@ + decimal(self.power_units->0 as nat) + ".csv"@
    }

    /// The bytes that a stop reading `end` appends to the log: the header if the log
    /// is not open yet, then the row pairing the start values with `end`.
    pub open spec fn log_bytes(self, end: RaplValues) -> Seq<u8> {
        let header = if self.log_open {
            Seq::empty()
        } else {
            ascii_bytes(csv_line(header_of(self.cpu)))
        };
        header + ascii_bytes(csv_line(decimal_fields(row_of(self.start, end))))
    }
}

/// The CSV header fields of the log of `cpu`.
fn header_fields(cpu: CpuType) -> (res: Vec<&'static str>)
    ensures
        str_views(res@) == header_of(cpu),
        res@.len() > 0,
        forall|i: int| 0 <= i < res@.len() ==> plain_field(#[trigger] res@[i]@),
{
    let res = match cpu {
        CpuType::Amd => vec!["PkgStart", "PkgEnd", "CoreStart", "CoreEnd"],
        CpuType::Intel => vec![
            "PP0Start",
            "PP0End",
            "PP1Start",
            "PP1End",
            "PkgStart",
            "PkgEnd",
            "DramStart",
            "DramEnd",
        ],
    };
    proof {
        reveal_strlit("PkgStart");
        reveal_strlit("PkgEnd");
        reveal_strlit("CoreStart");
        reveal_strlit("CoreEnd");
        reveal_strlit("PP0Start");
        reveal_strlit("PP0End");
        reveal_strlit("PP1Start");
        reveal_strlit("PP1End");
        reveal_strlit("DramStart");
        reveal_strlit("DramEnd");
        assert(str_views(res@) =~= header_of(cpu));
    }
    res
}

/// The CSV row pairing `start` and `end`.
fn row_values(start: RaplValues, end: RaplValues) -> (res: Vec<u64>)
    requires
        start is Amd && end is Amd || start is Intel && end is Intel,
    ensures
        res@ == row_of(start, end),
        res@.len() > 0,
{
    let res = match (start, end) {
        (RaplValues::Amd { pkg: ps, core: cs }, RaplValues::Amd { pkg: pe, core: ce }) => vec![
            ps,
            pe,
            cs,
            ce,
        ],
        (
            RaplValues::Intel { pp0: a0, pp1: a1, dram: ad, pkg: ap },
            RaplValues::Intel { pp0: b0, pp1: b1, dram: bd, pkg: bp },
        ) => vec![a0, b0, a1, b1, ap, bp, ad, bd],
        _ => vec![0],
    };
    assert(res@ =~= row_of(start, end));
    res
}

/// How the power units evolve over a start: once known they never change; when
/// unknown, they become what `device` answered for the power unit register.
pub open spec fn units_after<F: Fn([u8; 4]) -> Result<[u8; 8], RaplError>>(
    device: F,
    cpu: CpuType,
    before: Option<u64>,
    after: Option<u64>,
) -> bool {
    match before {
        Some(u) => after == Some(u),
        None => match after {
            Some(u) => device_answer(device, power_unit_msr(cpu) as u32, Ok(u)),
            None => false,
        },
    }
}

/// What a start of the session `before` may end in, given the driver `device`: on
/// success the power units evolve by `units_after` and the start counters are what the
/// driver answered; on an error the start counters are kept and the error is that of
/// the power unit read (units still unknown) or of a counter read.
pub open spec fn start_outcome<F: Fn([u8; 4]) -> Result<[u8; 8], RaplError>>(
    device: F,
    before: SessionView,
    after: SessionView,
    res: Result<(), RaplError>,
) -> bool {
    match res {
        Ok(()) => {
            &&& units_after(device, before.cpu, before.power_units, after.power_units)
            &&& values_answer(device, before.cpu, Ok(after.start))
            &&& after == before.after_start(after.power_units->0, after.start)
        },
        Err(e) => {
            &&& after.start == before.start
            &&& {
                ||| before.power_units is None && after.power_units is None && device_answer(
                    device,
                    power_unit_msr(before.cpu) as u32,
                    Err(e),
                )
                ||| units_after(device, before.cpu, before.power_units, after.power_units)
                    && values_answer(device, before.cpu, Err(e))
            }
        },
    }
}

/// What a stop hands back: the bytes to append to the log file, and the counters read.
pub struct LogWrite {
    /// The name of the log file.
    pub file_name: String,
    /// The bytes to append to it.
    pub bytes: Vec<u8>,
    /// The counters read at this stop.
    pub end: RaplValues,
}

/// A measurement session on one CPU.
pub struct RaplSession {
    cpu: CpuType,
    power_units: OnceCell<u64>,
    start: RaplValues,
    log_open: bool,
}

impl View for RaplSession {
    type V = SessionView;

    closed spec fn view(&self) -> SessionView {
        SessionView {
            cpu: self.cpu,
            power_units: cell_contents(self.power_units),
            start: self.start,
            log_open: self.log_open,
        }
    }
}

impl RaplSession {
    /// A session on `cpu` before any start: units unknown, counters zero, log closed.
    pub fn new(cpu: CpuType) -> (res: RaplSession)
        ensures
            res@ == (SessionView {
                cpu,
                power_units: None,
                start: zero_values(cpu),
                log_open: false,
            }),
            res@.wf(),
    {
        let start = match cpu {
            CpuType::Amd => RaplValues::Amd { pkg: 0, core: 0 },
            CpuType::Intel => RaplValues::Intel { pp0: 0, pp1: 0, dram: 0, pkg: 0 },
        };
        RaplSession { cpu, power_units: cell_new(), start, log_open: false }
    }

    /// The vendor of the CPU measured.
    pub fn cpu(&self) -> (res: CpuType)
        ensures
            res == self@.cpu,
    {
        self.cpu
    }

    /// The power unit register value, once it has been read.
    pub fn power_units(&self) -> (res: Option<u64>)
        ensures
            res == self@.power_units,
    {
        cell_get(&self.power_units)
    }

    /// The counters read at the latest start.
    pub fn start_values(&self) -> (res: RaplValues)
        ensures
            res == self@.start,
    {
        self.start
    }

    /// Whether the log has been opened.
    pub fn log_open(&self) -> (res: bool)
        ensures
            res == self@.log_open,
    {
        self.log_open
    }

    /// Starts a measurement: reads the power units if they are not known yet (they are
    /// read at most once per session), then reads and records the start counters.
    /// On an error, the start counters are left as they were.
    pub fn start_rapl<F: Fn([u8; 4]) -> Result<[u8; 8], RaplError>>(&mut self, device: &F) -> (res:
        Result<(), RaplError>)
        requires
            old(self)@.wf(),
            device_ready(*device),
        ensures
            final(self)@.wf(),
            final(self)@.cpu == old(self)@.cpu,
            final(self)@.log_open == old(self)@.log_open,
            start_outcome(*device, old(self)@, final(self)@, res),
    {
        if cell_get(&self.power_units).is_none() {
            match read_rapl_power_unit(self.cpu, device) {
                Ok(units) => {
                    cell_get_or_init(&mut self.power_units, units);
                },
                Err(e) => return Err(e),
            }
        }
        match read_rapl_values(self.cpu, device) {
            Ok(values) => {
                self.start = values;
                Ok(())
            },
            Err(e) => Err(e),
        }
    }

    /// Stops a measurement: reads the end counters and returns what to append to the
    /// log file named after the vendor and the power units: the CSV header on the
    /// first stop of the session, then the row pairing the start and end counters.
    /// On an error nothing is logged and the session is unchanged.
    pub fn stop_rapl<F: Fn([u8; 4]) -> Result<[u8; 8], RaplError>>(&mut self, device: &F) -> (res:
        Result<LogWrite, RaplError>)
        requires
            old(self)@.wf(),
            old(self)@.power_units is Some,
            device_ready(*device),
        ensures
            final(self)@.wf(),
            match res {
                Ok(w) => {
                    &&& values_answer(*device, old(self)@.cpu, Ok(w.end))
                    &&& w.file_name@ == old(self)@.log_name()
                    &&& w.bytes@ == old(self)@.log_bytes(w.end)
                    &&& final(self)@ == old(self)@.after_stop()
                },
                Err(e) => {
                    &&& values_answer(*device, old(self)@.cpu, Err(e))
                    &&& final(self)@ == old(self)@
                },
            },
    {
        let end = match read_rapl_values(self.cpu, device) {
            Ok(v) => v,
            Err(e) => return Err(e),
        };
        let units: u64 = match cell_get(&self.power_units) {
            Some(u) => u,
            None => 0,
        };
        let file_name = log_file_name(get_cpu_type(self.cpu), units);
        let row = row_values(self.start, end);
        let mut row_bytes = csv_row_bytes(&row);
        let mut bytes: Vec<u8> = if self.log_open {
            Vec::new()
        } else {
            let header = header_fields(self.cpu);
            csv_record_bytes(&header)
        };
        bytes.append(&mut row_bytes);
        self.log_open = true;
        Ok(LogWrite { file_name, bytes, end })
    }
}

/// Once known, the power units stay as they are over any start: a session never
/// reads them twice.
pub proof fn lemma_units_read_once<F: Fn([u8; 4]) -> Result<[u8; 8], RaplError>>(
    device: F,
    cpu: CpuType,
    units: u64,
    after: Option<u64>,
)
    requires
        units_after(device, cpu, Some(units), after),
    ensures
        after == Some(units),
{
}

/// A start on a session whose power units are known keeps the log file name.
pub proof fn lemma_log_name_kept_by_start(v: SessionView, start: RaplValues)
    requires
        v.power_units is Some,
    ensures
        v.after_start(v.power_units->0, start).log_name() == v.log_name(),
{
}

/// The row that a stop logs pairs the counters read by the latest start with those
/// read by the stop.
pub proof fn lemma_stop_logs_latest_start(v: SessionView, units: u64, start: RaplValues, end: RaplValues)
    ensures
        v.after_start(units, start).log_bytes(end) == (if v.log_open {
            Seq::empty()
        } else {
            ascii_bytes(csv_line(header_of(v.cpu)))
        }) + ascii_bytes(csv_line(decimal_fields(row_of(start, end)))),
{
}

/// What `ends.len()` successive stops of the session `v` append to the log, the
/// i-th stop reading `ends[i]`: each stop appends `log_bytes` of the state it finds,
/// and leaves the state `after_stop`.
pub open spec fn stops_log(v: SessionView, ends: Seq<RaplValues>) -> Seq<u8>
    decreases ends.len(),
{
    if ends.len() == 0 {
        Seq::empty()
    } else {
        v.log_bytes(ends[0]) + stops_log(v.after_stop(), ends.drop_first())
    }
}

/// The CSV rows pairing `start` with each of `ends`, in order.
pub open spec fn rows_bytes(start: RaplValues, ends: Seq<RaplValues>) -> Seq<u8>
    decreases ends.len(),
{
    if ends.len() == 0 {
        Seq::empty()
    } else {
        ascii_bytes(csv_line(decimal_fields(row_of(start, ends[0])))) + rows_bytes(
            start,
            ends.drop_first(),
        )
    }
}

/// Over any number (at least one) of successive stops, the log receives the header
/// exactly once, on the first stop of a session whose log is not open yet, followed
/// by one row per stop; on an open log, only the rows.
pub proof fn lemma_header_once_per_session(v: SessionView, ends: Seq<RaplValues>)
    requires
        ends.len() > 0,
    ensures
        stops_log(v, ends) == (if v.log_open {
            Seq::empty()
        } else {
            ascii_bytes(csv_line(header_of(v.cpu)))
        }) + rows_bytes(v.start, ends),
    decreases ends.len(),
{
    let rest = ends.drop_first();
    let row0 = ascii_bytes(csv_line(decimal_fields(row_of(v.start, ends[0]))));
    let w = v.after_stop();
    if rest.len() == 0 {
        assert(stops_log(w, rest) =~= Seq::<u8>::empty());
        assert(rows_bytes(v.start, rest) =~= Seq::<u8>::empty());
        assert(rows_bytes(v.start, ends) =~= row0);
    } else {
        lemma_header_once_per_session(w, rest);
        assert(stops_log(w, rest) =~= rows_bytes(v.start, rest));
    }
    let hdr = if v.log_open {
        Seq::empty()
    } else {
        ascii_bytes(csv_line(header_of(v.cpu)))
    };
    assert(v.log_bytes(ends[0]) =~= hdr + row0);
    assert(rows_bytes(v.start, ends) == row0 + rows_bytes(v.start, rest));
    assert((hdr + row0) + rows_bytes(v.start, rest) =~= hdr + (row0 + rows_bytes(v.start, rest)));
}

/// Starts and stops keep a session well formed.
pub proof fn lemma_transitions_keep_wf(v: SessionView, units: u64, start: RaplValues)
    requires
        v.wf(),
        values_of(v.cpu, start),
    ensures
        v.after_start(units, start).wf(),
        v.power_units is Some ==> v.after_stop().wf(),
{
}

/// The value of the counter called `name` (`Pkg`, `Core`, `PP0`, `PP1` or `Dram`) in
/// `v`, if `v` has such a counter.
pub open spec fn counter_value(v: RaplValues, name: Seq<char>) -> Option<u64> {
    match v {
        RaplValues::Amd { pkg, core } => if name == "Pkg"@ {
            Some(pkg)
        } else if name == "Core"@ {
            Some(core)
        } else {
            None
        },
        RaplValues::Intel { pp0, pp1, dram, pkg } => if name == "PP0"@ {
            Some(pp0)
        } else if name == "PP1"@ {
            Some(pp1)
        } else if name == "Dram"@ {
            Some(dram)
        } else if name == "Pkg"@ {
            Some(pkg)
        } else {
            None
        },
    }
}

/// The value that a log column holds, read off its name: a column `<counter>Start`
/// holds that counter at start, a column `<counter>End` holds it at stop.
pub open spec fn column_value(column: Seq<char>, start: RaplValues, end: RaplValues) -> Option<u64> {
    let n = column.len() as int;
    if n >= 5 && column.subrange(n - 5, n) == "Start"@ {
        counter_value(start, column.subrange(0, n - 5))
    } else if n >= 3 && column.subrange(n - 3, n) == "End"@ {
        counter_value(end, column.subrange(0, n - 3))
    } else {
        None
    }
}

proof fn lemma_start_column(counter: Seq<char>, start: RaplValues, end: RaplValues)
    ensures
        column_value(counter + "Start"@, start, end) == counter_value(start, counter),
{
    reveal_strlit("Start");
    let c = counter + "Start"@;
    let n = c.len() as int;
    assert(c.subrange(n - 5, n) =~= "Start"@);
    assert(c.subrange(0, n - 5) =~= counter);
}

proof fn lemma_end_column(counter: Seq<char>, start: RaplValues, end: RaplValues)
    ensures
        column_value(counter + "End"@, start, end) == counter_value(end, counter),
{
    reveal_strlit("Start");
    reveal_strlit("End");
    let c = counter + "End"@;
    let n = c.len() as int;
    if n >= 5 {
        assert(c.subrange(n - 5, n)[2] == 'E');
        assert("Start"@[2] == 'a');
        assert(c.subrange(n - 5, n) != "Start"@);
    }
    assert(c.subrange(n - 3, n) =~= "End"@);
    assert(c.subrange(0, n - 3) =~= counter);
}

proof fn lemma_counter_names()
    ensures
        "Pkg"@ != "Core"@,
        "PP1"@ != "PP0"@,
        "Dram"@ != "PP0"@,
        "Dram"@ != "PP1"@,
        "Pkg"@ != "PP0"@,
        "Pkg"@ != "PP1"@,
        "Pkg"@ != "Dram"@,
        "PkgStart"@ == "Pkg"@ + "Start"@,
        "PkgEnd"@ == "Pkg"@ + "End"@,
        "CoreStart"@ == "Core"@ + "Start"@,
        "CoreEnd"@ == "Core"@ + "End"@,
        "PP0Start"@ == "PP0"@ + "Start"@,
        "PP0End"@ == "PP0"@ + "End"@,
        "PP1Start"@ == "PP1"@ + "Start"@,
        "PP1End"@ == "PP1"@ + "End"@,
        "DramStart"@ == "Dram"@ + "Start"@,
        "DramEnd"@ == "Dram"@ + "End"@,
{
    reveal_strlit("Pkg");
    reveal_strlit("Core");
    reveal_strlit("PP0");
    reveal_strlit("PP1");
    reveal_strlit("Dram");
    reveal_strlit("Start");
    reveal_strlit("End");
    reveal_strlit("PkgStart");
    reveal_strlit("PkgEnd");
    reveal_strlit("CoreStart");
    reveal_strlit("CoreEnd");
    reveal_strlit("PP0Start");
    reveal_strlit("PP0End");
    reveal_strlit("PP1Start");
    reveal_strlit("PP1End");
    reveal_strlit("DramStart");
    reveal_strlit("DramEnd");
    assert("PP1"@[2] != "PP0"@[2]);
    assert("Pkg"@[1] != "PP0"@[1]);
    assert("Pkg"@[1] != "PP1"@[1]);
    assert("PkgStart"@ =~= "Pkg"@ + "Start"@);
    assert("PkgEnd"@ =~= "Pkg"@ + "End"@);
    assert("CoreStart"@ =~= "Core"@ + "Start"@);
    assert("CoreEnd"@ =~= "Core"@ + "End"@);
    assert("PP0Start"@ =~= "PP0"@ + "Start"@);
    assert("PP0End"@ =~= "PP0"@ + "End"@);
    assert("PP1Start"@ =~= "PP1"@ + "Start"@);
    assert("PP1End"@ =~= "PP1"@ + "End"@);
    assert("DramStart"@ =~= "Dram"@ + "Start"@);
    assert("DramEnd"@ =~= "Dram"@ + "End"@);
}

/// The logged row has one field per header column of the CPU, and each field holds
/// the counter value that its column names: `<counter>Start` the value read at start,
/// `<counter>End` the value read at stop.
pub proof fn lemma_row_matches_header(cpu: CpuType, start: RaplValues, end: RaplValues)
    requires
        values_of(cpu, start),
        values_of(cpu, end),
    ensures
        row_of(start, end).len() == header_of(cpu).len(),
        forall|i: int|
            0 <= i < header_of(cpu).len() ==> column_value(#[trigger] header_of(cpu)[i], start, end)
                == Some(row_of(start, end)[i]),
{
    lemma_counter_names();
    lemma_start_column("Pkg"@, start, end);
    lemma_end_column("Pkg"@, start, end);
    lemma_start_column("Core"@, start, end);
    lemma_end_column("Core"@, start, end);
    lemma_start_column("PP0"@, start, end);
    lemma_end_column("PP0"@, start, end);
    lemma_start_column("PP1"@, start, end);
    lemma_end_column("PP1"@, start, end);
    lemma_start_column("Dram"@, start, end);
    lemma_end_column("Dram"@, start, end);
    let h = header_of(cpu);
    let r = row_of(start, end);
    assert forall|i: int| 0 <= i < h.len() implies column_value(#[trigger] h[i], start, end) == Some(r[i]) by {
        match cpu {
            CpuType::Amd => {
                assert(i == 0 || i == 1 || i == 2 || i == 3);
            },
            CpuType::Intel => {
                assert(i == 0 || i == 1 || i == 2 || i == 3 || i == 4 || i == 5 || i == 6 || i == 7);
            },
        }
    }
}

/// Each value of a successful Intel reading is what the driver answered for that
/// counter's register.
pub proof fn lemma_intel_reading_is_read<F: Fn([u8; 4]) -> Result<[u8; 8], RaplError>>(
    device: F,
    pp0: u64,
    pp1: u64,
    dram: u64,
    pkg: u64,
)
    requires
        intel_answer(device, Ok((pp0, pp1, dram, pkg))),
    ensures
        device_answer(device, intel::INTEL_MSR_RAPL_PP0 as u32, Ok(pp0)),
        device_answer(device, intel::INTEL_MSR_RAPL_PP1 as u32, Ok(pp1)),
        device_answer(device, intel::INTEL_MSR_RAPL_DRAM as u32, Ok(dram)),
        device_answer(device, intel::MSR_RAPL_PKG_ENERGY_STAT as u32, Ok(pkg)),
{
}

/// Each value of a successful AMD reading is what the driver answered for that
/// counter's register.
pub proof fn lemma_amd_reading_is_read<F: Fn([u8; 4]) -> Result<[u8; 8], RaplError>>(
    device: F,
    pkg: u64,
    core: u64,
)
    requires
        amd_answer(device, Ok((pkg, core))),
    ensures
        device_answer(device, amd::MSR_RAPL_PKG_ENERGY_STAT as u32, Ok(pkg)),
        device_answer(device, amd::AMD_MSR_CORE_ENERGY as u32, Ok(core)),
{
}

/// A failed Intel reading fails with an error that the driver gave for one of the four
/// counter registers.
pub proof fn lemma_intel_error_is_read<F: Fn([u8; 4]) -> Result<[u8; 8], RaplError>>(
    device: F,
    e: RaplError,
)
    requires
        intel_answer(device, Err(e)),
    ensures
        device_answer(device, intel::INTEL_MSR_RAPL_PP0 as u32, Err(e)) || device_answer(
            device,
            intel::INTEL_MSR_RAPL_PP1 as u32,
            Err(e),
        ) || device_answer(device, intel::INTEL_MSR_RAPL_DRAM as u32, Err(e)) || device_answer(
            device,
            intel::MSR_RAPL_PKG_ENERGY_STAT as u32,
            Err(e),
        ),
{
}

/// A successful reading of the counters of `cpu` holds counters of that CPU, each the
/// value the driver answered for its register.
pub proof fn lemma_reading_is_read<F: Fn([u8; 4]) -> Result<[u8; 8], RaplError>>(
    device: F,
    cpu: CpuType,
    v: RaplValues,
)
    requires
        values_answer(device, cpu, Ok(v)),
    ensures
        match v {
            RaplValues::Amd { pkg, core } => {
                &&& cpu == CpuType::Amd
                &&& device_answer(device, amd::MSR_RAPL_PKG_ENERGY_STAT as u32, Ok(pkg))
                &&& device_answer(device, amd::AMD_MSR_CORE_ENERGY as u32, Ok(core))
            },
            RaplValues::Intel { pp0, pp1, dram, pkg } => {
                &&& cpu == CpuType::Intel
                &&& device_answer(device, intel::INTEL_MSR_RAPL_PP0 as u32, Ok(pp0))
                &&& device_answer(device, intel::INTEL_MSR_RAPL_PP1 as u32, Ok(pp1))
                &&& device_answer(device, intel::INTEL_MSR_RAPL_DRAM as u32, Ok(dram))
                &&& device_answer(device, intel::MSR_RAPL_PKG_ENERGY_STAT as u32, Ok(pkg))
            },
        },
{
    match v {
        RaplValues::Amd { pkg, core } => {
            if cpu == CpuType::Amd {
                lemma_amd_reading_is_read(device, pkg, core);
            }
        },
        RaplValues::Intel { pp0, pp1, dram, pkg } => {
            if cpu == CpuType::Intel {
                lemma_intel_reading_is_read(device, pp0, pp1, dram, pkg);
            }
        },
    }
}

/// When the driver refuses any counter register of `cpu`, reading the counters of
/// `cpu` cannot succeed.
pub proof fn lemma_refused_counter_fails_reading<F: Fn([u8; 4]) -> Result<[u8; 8], RaplError>>(
    device: F,
    cpu: CpuType,
    v: RaplValues,
)
    requires
        match cpu {
            CpuType::Amd => device_refuses(device, amd::MSR_RAPL_PKG_ENERGY_STAT as u32)
                || device_refuses(device, amd::AMD_MSR_CORE_ENERGY as u32),
            CpuType::Intel => device_refuses(device, intel::INTEL_MSR_RAPL_PP0 as u32)
                || device_refuses(device, intel::INTEL_MSR_RAPL_PP1 as u32) || device_refuses(
                device,
                intel::INTEL_MSR_RAPL_DRAM as u32,
            ) || device_refuses(device, intel::MSR_RAPL_PKG_ENERGY_STAT as u32),
        },
    ensures
        !values_answer(device, cpu, Ok(v)),
{
    if values_answer(device, cpu, Ok(v)) {
        lemma_reading_is_read(device, cpu, v);
        match v {
            RaplValues::Amd { pkg, core } => {
                lemma_refused_register_never_reads(device, amd::MSR_RAPL_PKG_ENERGY_STAT as u32, pkg);
                lemma_refused_register_never_reads(device, amd::AMD_MSR_CORE_ENERGY as u32, core);
            },
            RaplValues::Intel { pp0, pp1, dram, pkg } => {
                lemma_refused_register_never_reads(device, intel::INTEL_MSR_RAPL_PP0 as u32, pp0);
                lemma_refused_register_never_reads(device, intel::INTEL_MSR_RAPL_PP1 as u32, pp1);
                lemma_refused_register_never_reads(device, intel::INTEL_MSR_RAPL_DRAM as u32, dram);
                lemma_refused_register_never_reads(
                    device,
                    intel::MSR_RAPL_PKG_ENERGY_STAT as u32,
                    pkg,
                );
            },
        }
    }
}

/// After a successful start, the power units are known: the ones known before, or,
/// when none were, a value the driver answered for the power unit register. The start
/// counters are what the driver answered for the counter registers.
pub proof fn lemma_start_units_come_from_driver<F: Fn([u8; 4]) -> Result<[u8; 8], RaplError>>(
    device: F,
    before: SessionView,
    after: SessionView,
)
    requires
        start_outcome(device, before, after, Ok(())),
    ensures
        after.power_units is Some,
        before.power_units is Some ==> after.power_units == before.power_units,
        before.power_units is None ==> device_answer(
            device,
            power_unit_msr(before.cpu) as u32,
            Ok(after.power_units->0),
        ),
        values_answer(device, before.cpu, Ok(after.start)),
        after.cpu == before.cpu && after.log_open == before.log_open,
{
}

/// A start on a session whose power units are unknown, with a driver that refuses the
/// power unit register, fails and learns nothing: the units stay unknown and the start
/// counters are kept.
pub proof fn lemma_start_with_refused_units<F: Fn([u8; 4]) -> Result<[u8; 8], RaplError>>(
    device: F,
    before: SessionView,
    after: SessionView,
    res: Result<(), RaplError>,
)
    requires
        start_outcome(device, before, after, res),
        before.power_units is None,
        device_refuses(device, power_unit_msr(before.cpu) as u32),
    ensures
        res is Err,
        after.power_units is None,
        after.start == before.start,
{
    if after.power_units is Some {
        lemma_refused_register_never_reads(
            device,
            power_unit_msr(before.cpu) as u32,
            after.power_units->0,
        );
    }
}

/// The log file name depends only on the vendor and the power units: in particular
/// it is the same before and after the log is opened, so every stop of a session
/// appends to the same file.
pub proof fn lemma_log_name_depends_on_vendor_and_units(v: SessionView, w: SessionView)
    requires
        v.cpu == w.cpu,
        v.power_units == w.power_units,
    ensures
        v.log_name() == w.log_name(),
        v.after_stop().log_name() == v.log_name(),
{
}

/// Two sessions on the same vendor whose log names agree have the same power units.
pub proof fn lemma_log_name_determines_units(v: SessionView, w: SessionView)
    requires
        v.cpu == w.cpu,
        v.power_units is Some,
        w.power_units is Some,
        v.log_name() == w.log_name(),
    ensures
        v.power_units == w.power_units,
{
    reveal_strlit("_");
    reveal_strlit(".csv");
    let a = cpu_name(v.cpu) + "_"@;
    let d1 = decimal(v.power_units->0 as nat);
    let d2 = decimal(w.power_units->0 as nat);
    let n1 = a + d1 + ".csv"@;
    let n2 = a + d2 + ".csv"@;
    assert(n1 == v.log_name());
    assert(n2 == w.log_name());
    assert(n1.len() == n2.len());
    assert(d1.len() == d2.len());
    assert(n1.subrange(a.len() as int, (a.len() + d1.len()) as int) =~= d1);
    assert(n2.subrange(a.len() as int, (a.len() + d2.len()) as int) =~= d2);
    lemma_decimal_injective(v.power_units->0 as nat, w.power_units->0 as nat);
}

} // verus!
