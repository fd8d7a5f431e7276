//! Sampling, bookkeeping and label logic of a system monitor panel applet:
//! the persisted configuration, temperature units, `/proc/stat` parsing and
//! per-core tick accounting, CPU temperature sensor selection, and the
//! network / disk throughput histories with their label text.
pub mod config;
pub mod sensors;
pub mod text;
