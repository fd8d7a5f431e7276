# sysmon

The verified core of a panel applet that shows CPU usage and temperature,
memory, network and disk throughput and graphics card readings.

- `src/` is the library, checked by Verus: the applet's configuration and its
  defaults, temperature units, the parsing of `/proc/stat` and the per-core
  tick accounting between two readings, the choice of the hardware monitor
  inputs that give the CPU temperature, the throughput histories with their
  last-second windows, and the text of the throughput labels.
- `app/` is ordinary Rust around it: reading `/proc`, `/sys` and `sysinfo`,
  the floating-point percentages, unit conversions and number formatting,
  and serializable copies of the configuration types.
- `tests/` exercises the library on concrete values.
