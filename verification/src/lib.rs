//! Daly BMS exporter library.
//!
//! Decodes raw Modbus frames forwarded from the Hlktech WiFi module into typed
//! telemetry, maps it onto Prometheus metrics and accounts for charge and
//! energy. Floating-point values, clocks, files and sockets stay outside: the
//! library counts in whole units and says what is to be done.

pub mod calibration;
pub mod calibration_laws;
pub mod config;
pub mod config_laws;
pub mod coulomb;
pub mod coulomb_laws;
pub mod decode;
pub mod decode_laws;
pub mod error;
pub mod exposition;
pub mod families;
pub mod family_ids;
pub mod frame_laws;
pub mod label_laws;
pub mod metrics;
pub mod metrics_laws;
pub mod modbus;
pub mod modbus_laws;
pub mod payload;
pub mod series;
pub mod server;
pub mod server_laws;
pub mod system_laws;
pub mod text;
pub mod text_map;
