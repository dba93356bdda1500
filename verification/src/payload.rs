//! Wire types for the telemetry POST body (`SaveThingInfo1`).

use vstd::prelude::*;

verus! {

/// Body of `POST /api/v2/http2/SaveThingInfo1`.
#[derive(Debug)]
pub struct TelemetryBody {
    pub device_name: String,
    pub sn: String,
    pub data: Vec<DataEntry>,
}

/// A single request→response Modbus pair inside the telemetry body.
#[derive(Debug)]
pub struct DataEntry {
    /// Hex of the Modbus request (used to dispatch the register block).
    pub command: String,
    /// Hex of the Modbus response (the actual register data).
    pub data: String,
    pub timestamp: Option<String>,
}

} // verus!
