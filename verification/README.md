# daly-bms-exporter

Prometheus exporter for Daly BMS telemetry, delivered over the Hlktech WiFi
module. The module POSTs raw Modbus frames in JSON; the exporter decodes them and
serves the telemetry on `/metrics`.

## Layout

- `src/` is the library, verified with Verus.
  - `modbus`: checksums, hexadecimal text, request and response frames.
  - `decode`: registers to telemetry, in the resolution of the registers.
  - `coulomb`: charge and energy accounting, and the write-ahead bookkeeping that
    keeps the exported totals from running ahead of the state file.
  - `families`, `family_ids`: the metric families, and that the registry can tell
    them apart.
  - `series`, `exposition`: the board of families that `prometheus` keeps, and the
    text it is rendered as.
  - `metrics`: what a frame does to the metrics.
  - `config`: knobs and their validation, serial admission.
  - `server`: which bodies are taken and what each of their entries does.
  - `calibration`: the decisions of the current-sensor calibration.
  - `coulomb_laws`, `metrics_laws`: what holds across operations.
  - `system_laws`, `calibration_laws`: what holds of every history, of the
    exporter with its restarts and of the calibrator.
  - `text`, `text_map`: text comparison, rendering and an ordered map.
- `app/` is the program around it: HTTP, files, clocks, floating-point values and
  the line fits of the calibration.
- `tests/` runs the library.

## Units

The library computes in whole numbers: milliamperes, millivolts and microseconds.
An integral is kept as twice the trapezoid, so it is exact: 7.2e12 charge units
make one ampere-hour and 7.2e15 energy units one watt-hour.
