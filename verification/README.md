# rapl_lib

Reads the RAPL (Running Average Power Limit) energy counters of Intel and AMD CPUs
through their model-specific registers, and logs start/stop readings as CSV.

- `src/` is the verified library: register addresses per vendor (`intel`, `amd`,
  `cpu`), the little-endian driver protocol (`msr`), the power unit fields (`units`),
  the measurement session with its CSV log (`session`, `csv_log`, `units_cell`),
  errors (`error`) and the benchmark workload (`bench`).
- Register reads go through a driver closure handed in by the caller, so the
  library never touches a device itself.
- `app/` is the program around it: the Linux MSR device, the log file, CPU vendor
  detection and the C entry points.
