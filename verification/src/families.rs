//! The exported metric families: their names, help texts, labels and units.

use vstd::prelude::*;
use vstd::string::*;
use vstd::utf8::*;

use crate::series::{describable, identifier, label_values};
use crate::text::{bytes_before, decimal, decimal_digits, digit_char, text_before};

verus! {

/// What kind of metric a family holds.
#[derive(Debug, Clone, Copy, PartialEq, Eq, Structural)]
pub enum Kind {
    /// Fractional values that go up and down.
    Gauge,
    /// Whole values that go up and down.
    IntGauge,
    /// Fractional totals.
    Counter,
    /// Whole totals.
    IntCounter,
    /// One fractional value without labels.
    Scalar,
}

/// The resolution of the readings behind a gauge.
#[derive(Debug, Clone, Copy, PartialEq, Eq, Structural)]
pub enum Scale {
    Tenths,
    Thousandths,
    Units,
}

/// All metric families.
#[derive(Debug, Clone, Copy, PartialEq, Eq, Structural)]
pub enum Family {
    PackVoltage,
    Current,
    Soc,
    RemainingCapacity,
    CellVoltage,
    CellVoltageMax,
    CellVoltageMin,
    CellVoltageAvg,
    CellVoltageDelta,
    Temperature,
    TemperatureMax,
    TemperatureMin,
    MosTemperature,
    ChargeCycles,
    ChargeMos,
    DischargeMos,
    BalancerActive,
    BalanceCurrent,
    BalancingCellCount,
    AlarmBits,
    Alarm,
    RatedCapacity,
    CellReferenceVoltage,
    CellVoltageHighLimit,
    CellVoltageLowLimit,
    PackVoltageHighLimit,
    PackVoltageLowLimit,
    ChargeOvercurrentLimit,
    DischargeOvercurrentLimit,
    ChargeTempHighLimit,
    ChargeTempLowLimit,
    DischargeTempHighLimit,
    DiffTempLimit,
    FanOnTemperature,
    BalanceEnable,
    ConfigBalanceCurrent,
    DeviceInfo,
    HttpRequests,
    FramesDecoded,
    FramesDropped,
    LastFrameTimestamp,
    CoulombSamplesRejected,
    StateWriteErrors,
    StateLastWriteTimestamp,
    ChargeAmpHours,
    DischargeAmpHours,
    ChargeWattHours,
    DischargeWattHours,
}

impl Family {
    /// The metric name.
    pub open spec fn name_text(self) -> Seq<char> {
        match self {
            Family::PackVoltage => "daly_bms_pack_voltage_volts"@,
            Family::Current => "daly_bms_current_amperes"@,
            Family::Soc => "daly_bms_soc_percent"@,
            Family::RemainingCapacity => "daly_bms_remaining_capacity_amp_hours"@,
            Family::CellVoltage => "daly_bms_cell_voltage_volts"@,
            Family::CellVoltageMax => "daly_bms_cell_voltage_max_volts"@,
            Family::CellVoltageMin => "daly_bms_cell_voltage_min_volts"@,
            Family::CellVoltageAvg => "daly_bms_cell_voltage_avg_volts"@,
            Family::CellVoltageDelta => "daly_bms_cell_voltage_delta_volts"@,
            Family::Temperature => "daly_bms_temperature_celsius"@,
            Family::TemperatureMax => "daly_bms_temperature_max_celsius"@,
            Family::TemperatureMin => "daly_bms_temperature_min_celsius"@,
            Family::MosTemperature => "daly_bms_mos_temperature_celsius"@,
            Family::ChargeCycles => "daly_bms_charge_cycles"@,
            Family::ChargeMos => "daly_bms_charge_mos"@,
            Family::DischargeMos => "daly_bms_discharge_mos"@,
            Family::BalancerActive => "daly_bms_balancer_active"@,
            Family::BalanceCurrent => "daly_bms_balance_current_amperes"@,
            Family::BalancingCellCount => "daly_bms_balancing_cell_count"@,
            Family::AlarmBits => "daly_bms_alarm_bits"@,
            Family::Alarm => "daly_bms_alarm"@,
            Family::RatedCapacity => "daly_bms_rated_capacity_amp_hours"@,
            Family::CellReferenceVoltage => "daly_bms_cell_reference_voltage_volts"@,
            Family::CellVoltageHighLimit => "daly_bms_cell_voltage_high_limit_volts"@,
            Family::CellVoltageLowLimit => "daly_bms_cell_voltage_low_limit_volts"@,
            Family::PackVoltageHighLimit => "daly_bms_pack_voltage_high_limit_volts"@,
            Family::PackVoltageLowLimit => "daly_bms_pack_voltage_low_limit_volts"@,
            Family::ChargeOvercurrentLimit => "daly_bms_charge_overcurrent_limit_amperes"@,
            Family::DischargeOvercurrentLimit => "daly_bms_discharge_overcurrent_limit_amperes"@,
            Family::ChargeTempHighLimit => "daly_bms_charge_temp_high_limit_celsius"@,
            Family::ChargeTempLowLimit => "daly_bms_charge_temp_low_limit_celsius"@,
            Family::DischargeTempHighLimit => "daly_bms_discharge_temp_high_limit_celsius"@,
            Family::DiffTempLimit => "daly_bms_diff_temp_limit_celsius"@,
            Family::FanOnTemperature => "daly_bms_fan_on_temperature_celsius"@,
            Family::BalanceEnable => "daly_bms_balance_enable"@,
            Family::ConfigBalanceCurrent => "daly_bms_config_balance_current_amperes"@,
            Family::DeviceInfo => "daly_bms_device_info"@,
            Family::HttpRequests => "daly_bms_http_requests_total"@,
            Family::FramesDecoded => "daly_bms_frames_decoded_total"@,
            Family::FramesDropped => "daly_bms_frames_dropped_total"@,
            Family::LastFrameTimestamp => "daly_bms_last_frame_timestamp_seconds"@,
            Family::CoulombSamplesRejected => "daly_bms_coulomb_samples_rejected_total"@,
            Family::StateWriteErrors => "daly_bms_state_write_errors_total"@,
            Family::StateLastWriteTimestamp => "daly_bms_state_last_write_timestamp_seconds"@,
            Family::ChargeAmpHours => "daly_bms_charge_amp_hours_total"@,
            Family::DischargeAmpHours => "daly_bms_discharge_amp_hours_total"@,
            Family::ChargeWattHours => "daly_bms_charge_watt_hours_total"@,
            Family::DischargeWattHours => "daly_bms_discharge_watt_hours_total"@,
        }
    }

    /// The metric name.
    pub fn name(self) -> (r: &'static str)
        ensures
            r@ == self.name_text(),
    {
        match self {
            Family::PackVoltage => "daly_bms_pack_voltage_volts",
            Family::Current => "daly_bms_current_amperes",
            Family::Soc => "daly_bms_soc_percent",
            Family::RemainingCapacity => "daly_bms_remaining_capacity_amp_hours",
            Family::CellVoltage => "daly_bms_cell_voltage_volts",
            Family::CellVoltageMax => "daly_bms_cell_voltage_max_volts",
            Family::CellVoltageMin => "daly_bms_cell_voltage_min_volts",
            Family::CellVoltageAvg => "daly_bms_cell_voltage_avg_volts",
            Family::CellVoltageDelta => "daly_bms_cell_voltage_delta_volts",
            Family::Temperature => "daly_bms_temperature_celsius",
            Family::TemperatureMax => "daly_bms_temperature_max_celsius",
            Family::TemperatureMin => "daly_bms_temperature_min_celsius",
            Family::MosTemperature => "daly_bms_mos_temperature_celsius",
            Family::ChargeCycles => "daly_bms_charge_cycles",
            Family::ChargeMos => "daly_bms_charge_mos",
            Family::DischargeMos => "daly_bms_discharge_mos",
            Family::BalancerActive => "daly_bms_balancer_active",
            Family::BalanceCurrent => "daly_bms_balance_current_amperes",
            Family::BalancingCellCount => "daly_bms_balancing_cell_count",
            Family::AlarmBits => "daly_bms_alarm_bits",
            Family::Alarm => "daly_bms_alarm",
            Family::RatedCapacity => "daly_bms_rated_capacity_amp_hours",
            Family::CellReferenceVoltage => "daly_bms_cell_reference_voltage_volts",
            Family::CellVoltageHighLimit => "daly_bms_cell_voltage_high_limit_volts",
            Family::CellVoltageLowLimit => "daly_bms_cell_voltage_low_limit_volts",
            Family::PackVoltageHighLimit => "daly_bms_pack_voltage_high_limit_volts",
            Family::PackVoltageLowLimit => "daly_bms_pack_voltage_low_limit_volts",
            Family::ChargeOvercurrentLimit => "daly_bms_charge_overcurrent_limit_amperes",
            Family::DischargeOvercurrentLimit => "daly_bms_discharge_overcurrent_limit_amperes",
            Family::ChargeTempHighLimit => "daly_bms_charge_temp_high_limit_celsius",
            Family::ChargeTempLowLimit => "daly_bms_charge_temp_low_limit_celsius",
            Family::DischargeTempHighLimit => "daly_bms_discharge_temp_high_limit_celsius",
            Family::DiffTempLimit => "daly_bms_diff_temp_limit_celsius",
            Family::FanOnTemperature => "daly_bms_fan_on_temperature_celsius",
            Family::BalanceEnable => "daly_bms_balance_enable",
            Family::ConfigBalanceCurrent => "daly_bms_config_balance_current_amperes",
            Family::DeviceInfo => "daly_bms_device_info",
            Family::HttpRequests => "daly_bms_http_requests_total",
            Family::FramesDecoded => "daly_bms_frames_decoded_total",
            Family::FramesDropped => "daly_bms_frames_dropped_total",
            Family::LastFrameTimestamp => "daly_bms_last_frame_timestamp_seconds",
            Family::CoulombSamplesRejected => "daly_bms_coulomb_samples_rejected_total",
            Family::StateWriteErrors => "daly_bms_state_write_errors_total",
            Family::StateLastWriteTimestamp => "daly_bms_state_last_write_timestamp_seconds",
            Family::ChargeAmpHours => "daly_bms_charge_amp_hours_total",
            Family::DischargeAmpHours => "daly_bms_discharge_amp_hours_total",
            Family::ChargeWattHours => "daly_bms_charge_watt_hours_total",
            Family::DischargeWattHours => "daly_bms_discharge_watt_hours_total",
        }
    }

    /// The help text.
    pub open spec fn help_text(self) -> Seq<char> {
        match self {
            Family::PackVoltage => "Pack voltage"@,
            Family::Current => "Pack current (positive = charge)"@,
            Family::Soc => "State of charge"@,
            Family::RemainingCapacity => "Remaining capacity"@,
            Family::CellVoltage => "Per-cell voltage"@,
            Family::CellVoltageMax => "Max cell voltage"@,
            Family::CellVoltageMin => "Min cell voltage"@,
            Family::CellVoltageAvg => "Average cell voltage"@,
            Family::CellVoltageDelta => "Cell voltage spread (max-min)"@,
            Family::Temperature => "External temperature sensor"@,
            Family::TemperatureMax => "Max temperature"@,
            Family::TemperatureMin => "Min temperature"@,
            Family::MosTemperature => "MOSFET temperature"@,
            Family::ChargeCycles => "Charge cycle count (absolute reading from the device)"@,
            Family::ChargeMos => "Charge MOSFET state (1 = on)"@,
            Family::DischargeMos => "Discharge MOSFET state (1 = on)"@,
            Family::BalancerActive => "Balancer running (1 = yes)"@,
            Family::BalanceCurrent => "Active-balancer current"@,
            Family::BalancingCellCount => "Number of cells being balanced"@,
            Family::AlarmBits => "Raw alarm bitmask (register 0x3B)"@,
            Family::Alarm => "Decoded alarm flag (1 = active)"@,
            Family::RatedCapacity => "Rated capacity"@,
            Family::CellReferenceVoltage => "Cell reference voltage"@,
            Family::CellVoltageHighLimit => "Cell over-voltage threshold"@,
            Family::CellVoltageLowLimit => "Cell under-voltage threshold"@,
            Family::PackVoltageHighLimit => "Pack over-voltage threshold"@,
            Family::PackVoltageLowLimit => "Pack under-voltage threshold"@,
            Family::ChargeOvercurrentLimit => "Charge over-current threshold"@,
            Family::DischargeOvercurrentLimit => "Discharge over-current threshold"@,
            Family::ChargeTempHighLimit => "Charge high-temperature threshold"@,
            Family::ChargeTempLowLimit => "Charge low-temperature threshold"@,
            Family::DischargeTempHighLimit => "Discharge high-temperature threshold"@,
            Family::DiffTempLimit => "Differential-temperature protection"@,
            Family::FanOnTemperature => "Fan-on temperature"@,
            Family::BalanceEnable => "Balancing enabled (1 = yes)"@,
            Family::ConfigBalanceCurrent => "Configured active-balancer current"@,
            Family::DeviceInfo => "Device identity (always 1)"@,
            Family::HttpRequests => "HTTP requests handled"@,
            Family::FramesDecoded => "Modbus frames decoded"@,
            Family::FramesDropped => "Frames dropped"@,
            Family::LastFrameTimestamp => "Unix time of the last accepted frame"@,
            Family::CoulombSamplesRejected => "Realtime samples rejected, or their delta clamped, at coulomb/energy integration"@,
            Family::StateWriteErrors => "Failed durable writes of the coulomb/energy state file"@,
            Family::StateLastWriteTimestamp => "Unix time of the last successful coulomb/energy state write"@,
            Family::ChargeAmpHours => "Cumulative charge throughput (coulomb-counted)"@,
            Family::DischargeAmpHours => "Cumulative discharge throughput (coulomb-counted)"@,
            Family::ChargeWattHours => "Cumulative charge energy in watt-hours (integral of measured V*I)"@,
            Family::DischargeWattHours => "Cumulative discharge energy in watt-hours (integral of measured V*I)"@,
        }
    }

    /// The help text.
    pub fn help(self) -> (r: &'static str)
        ensures
            r@ == self.help_text(),
    {
        match self {
            Family::PackVoltage => "Pack voltage",
            Family::Current => "Pack current (positive = charge)",
            Family::Soc => "State of charge",
            Family::RemainingCapacity => "Remaining capacity",
            Family::CellVoltage => "Per-cell voltage",
            Family::CellVoltageMax => "Max cell voltage",
            Family::CellVoltageMin => "Min cell voltage",
            Family::CellVoltageAvg => "Average cell voltage",
            Family::CellVoltageDelta => "Cell voltage spread (max-min)",
            Family::Temperature => "External temperature sensor",
            Family::TemperatureMax => "Max temperature",
            Family::TemperatureMin => "Min temperature",
            Family::MosTemperature => "MOSFET temperature",
            Family::ChargeCycles => "Charge cycle count (absolute reading from the device)",
            Family::ChargeMos => "Charge MOSFET state (1 = on)",
            Family::DischargeMos => "Discharge MOSFET state (1 = on)",
            Family::BalancerActive => "Balancer running (1 = yes)",
            Family::BalanceCurrent => "Active-balancer current",
            Family::BalancingCellCount => "Number of cells being balanced",
            Family::AlarmBits => "Raw alarm bitmask (register 0x3B)",
            Family::Alarm => "Decoded alarm flag (1 = active)",
            Family::RatedCapacity => "Rated capacity",
            Family::CellReferenceVoltage => "Cell reference voltage",
            Family::CellVoltageHighLimit => "Cell over-voltage threshold",
            Family::CellVoltageLowLimit => "Cell under-voltage threshold",
            Family::PackVoltageHighLimit => "Pack over-voltage threshold",
            Family::PackVoltageLowLimit => "Pack under-voltage threshold",
            Family::ChargeOvercurrentLimit => "Charge over-current threshold",
            Family::DischargeOvercurrentLimit => "Discharge over-current threshold",
            Family::ChargeTempHighLimit => "Charge high-temperature threshold",
            Family::ChargeTempLowLimit => "Charge low-temperature threshold",
            Family::DischargeTempHighLimit => "Discharge high-temperature threshold",
            Family::DiffTempLimit => "Differential-temperature protection",
            Family::FanOnTemperature => "Fan-on temperature",
            Family::BalanceEnable => "Balancing enabled (1 = yes)",
            Family::ConfigBalanceCurrent => "Configured active-balancer current",
            Family::DeviceInfo => "Device identity (always 1)",
            Family::HttpRequests => "HTTP requests handled",
            Family::FramesDecoded => "Modbus frames decoded",
            Family::FramesDropped => "Frames dropped",
            Family::LastFrameTimestamp => "Unix time of the last accepted frame",
            Family::CoulombSamplesRejected => "Realtime samples rejected, or their delta clamped, at coulomb/energy integration",
            Family::StateWriteErrors => "Failed durable writes of the coulomb/energy state file",
            Family::StateLastWriteTimestamp => "Unix time of the last successful coulomb/energy state write",
            Family::ChargeAmpHours => "Cumulative charge throughput (coulomb-counted)",
            Family::DischargeAmpHours => "Cumulative discharge throughput (coulomb-counted)",
            Family::ChargeWattHours => "Cumulative charge energy in watt-hours (integral of measured V*I)",
            Family::DischargeWattHours => "Cumulative discharge energy in watt-hours (integral of measured V*I)",
        }
    }

    /// The kind of metric.
    pub open spec fn kind_of(self) -> Kind {
        match self {
            Family::PackVoltage => Kind::Gauge,
            Family::Current => Kind::Gauge,
            Family::Soc => Kind::Gauge,
            Family::RemainingCapacity => Kind::Gauge,
            Family::CellVoltage => Kind::Gauge,
            Family::CellVoltageMax => Kind::Gauge,
            Family::CellVoltageMin => Kind::Gauge,
            Family::CellVoltageAvg => Kind::Gauge,
            Family::CellVoltageDelta => Kind::Gauge,
            Family::Temperature => Kind::Gauge,
            Family::TemperatureMax => Kind::Gauge,
            Family::TemperatureMin => Kind::Gauge,
            Family::MosTemperature => Kind::Gauge,
            Family::ChargeCycles => Kind::IntGauge,
            Family::ChargeMos => Kind::IntGauge,
            Family::DischargeMos => Kind::IntGauge,
            Family::BalancerActive => Kind::IntGauge,
            Family::BalanceCurrent => Kind::Gauge,
            Family::BalancingCellCount => Kind::IntGauge,
            Family::AlarmBits => Kind::IntGauge,
            Family::Alarm => Kind::IntGauge,
            Family::RatedCapacity => Kind::Gauge,
            Family::CellReferenceVoltage => Kind::Gauge,
            Family::CellVoltageHighLimit => Kind::Gauge,
            Family::CellVoltageLowLimit => Kind::Gauge,
            Family::PackVoltageHighLimit => Kind::Gauge,
            Family::PackVoltageLowLimit => Kind::Gauge,
            Family::ChargeOvercurrentLimit => Kind::Gauge,
            Family::DischargeOvercurrentLimit => Kind::Gauge,
            Family::ChargeTempHighLimit => Kind::Gauge,
            Family::ChargeTempLowLimit => Kind::Gauge,
            Family::DischargeTempHighLimit => Kind::Gauge,
            Family::DiffTempLimit => Kind::Gauge,
            Family::FanOnTemperature => Kind::Gauge,
            Family::BalanceEnable => Kind::IntGauge,
            Family::ConfigBalanceCurrent => Kind::Gauge,
            Family::DeviceInfo => Kind::IntGauge,
            Family::HttpRequests => Kind::IntCounter,
            Family::FramesDecoded => Kind::IntCounter,
            Family::FramesDropped => Kind::IntCounter,
            Family::LastFrameTimestamp => Kind::Gauge,
            Family::CoulombSamplesRejected => Kind::IntCounter,
            Family::StateWriteErrors => Kind::IntCounter,
            Family::StateLastWriteTimestamp => Kind::Scalar,
            Family::ChargeAmpHours => Kind::Counter,
            Family::DischargeAmpHours => Kind::Counter,
            Family::ChargeWattHours => Kind::Counter,
            Family::DischargeWattHours => Kind::Counter,
        }
    }

    /// The kind of metric.
    pub fn kind(self) -> (r: Kind)
        ensures
            r == self.kind_of(),
    {
        match self {
            Family::PackVoltage => Kind::Gauge,
            Family::Current => Kind::Gauge,
            Family::Soc => Kind::Gauge,
            Family::RemainingCapacity => Kind::Gauge,
            Family::CellVoltage => Kind::Gauge,
            Family::CellVoltageMax => Kind::Gauge,
            Family::CellVoltageMin => Kind::Gauge,
            Family::CellVoltageAvg => Kind::Gauge,
            Family::CellVoltageDelta => Kind::Gauge,
            Family::Temperature => Kind::Gauge,
            Family::TemperatureMax => Kind::Gauge,
            Family::TemperatureMin => Kind::Gauge,
            Family::MosTemperature => Kind::Gauge,
            Family::ChargeCycles => Kind::IntGauge,
            Family::ChargeMos => Kind::IntGauge,
            Family::DischargeMos => Kind::IntGauge,
            Family::BalancerActive => Kind::IntGauge,
            Family::BalanceCurrent => Kind::Gauge,
            Family::BalancingCellCount => Kind::IntGauge,
            Family::AlarmBits => Kind::IntGauge,
            Family::Alarm => Kind::IntGauge,
            Family::RatedCapacity => Kind::Gauge,
            Family::CellReferenceVoltage => Kind::Gauge,
            Family::CellVoltageHighLimit => Kind::Gauge,
            Family::CellVoltageLowLimit => Kind::Gauge,
            Family::PackVoltageHighLimit => Kind::Gauge,
            Family::PackVoltageLowLimit => Kind::Gauge,
            Family::ChargeOvercurrentLimit => Kind::Gauge,
            Family::DischargeOvercurrentLimit => Kind::Gauge,
            Family::ChargeTempHighLimit => Kind::Gauge,
            Family::ChargeTempLowLimit => Kind::Gauge,
            Family::DischargeTempHighLimit => Kind::Gauge,
            Family::DiffTempLimit => Kind::Gauge,
            Family::FanOnTemperature => Kind::Gauge,
            Family::BalanceEnable => Kind::IntGauge,
            Family::ConfigBalanceCurrent => Kind::Gauge,
            Family::DeviceInfo => Kind::IntGauge,
            Family::HttpRequests => Kind::IntCounter,
            Family::FramesDecoded => Kind::IntCounter,
            Family::FramesDropped => Kind::IntCounter,
            Family::LastFrameTimestamp => Kind::Gauge,
            Family::CoulombSamplesRejected => Kind::IntCounter,
            Family::StateWriteErrors => Kind::IntCounter,
            Family::StateLastWriteTimestamp => Kind::Scalar,
            Family::ChargeAmpHours => Kind::Counter,
            Family::DischargeAmpHours => Kind::Counter,
            Family::ChargeWattHours => Kind::Counter,
            Family::DischargeWattHours => Kind::Counter,
        }
    }

    /// The label names, in order.
    pub open spec fn label_texts(self) -> Seq<Seq<char>> {
        match self {
            Family::CellVoltage => seq!["sn"@, "cell"@],
            Family::Temperature => seq!["sn"@, "sensor"@],
            Family::Alarm => seq!["sn"@, "type"@],
            Family::CellVoltageHighLimit | Family::CellVoltageLowLimit | Family::PackVoltageHighLimit | Family::PackVoltageLowLimit | Family::ChargeOvercurrentLimit | Family::DischargeOvercurrentLimit | Family::ChargeTempHighLimit | Family::ChargeTempLowLimit | Family::DischargeTempHighLimit => seq!["sn"@, "level"@],
            Family::DeviceInfo => seq!["sn"@, "serial"@, "machine_code"@, "sw_version"@, "hw_version"@],
            Family::HttpRequests => seq!["endpoint"@, "status"@],
            Family::FramesDecoded => seq!["block"@],
            Family::FramesDropped | Family::CoulombSamplesRejected => seq!["reason"@],
            Family::StateWriteErrors => seq!["stage"@],
            Family::StateLastWriteTimestamp => seq![],
            _ => seq!["sn"@],
        }
    }

    /// The label names, in order.
    pub fn labels(self) -> (r: Vec<&'static str>)
        ensures
            label_values(r@) == self.label_texts(),
    {
        let r: Vec<&'static str> = match self {
            Family::CellVoltage => vec!["sn", "cell"],
            Family::Temperature => vec!["sn", "sensor"],
            Family::Alarm => vec!["sn", "type"],
            Family::CellVoltageHighLimit | Family::CellVoltageLowLimit | Family::PackVoltageHighLimit | Family::PackVoltageLowLimit | Family::ChargeOvercurrentLimit | Family::DischargeOvercurrentLimit | Family::ChargeTempHighLimit | Family::ChargeTempLowLimit | Family::DischargeTempHighLimit => vec!["sn", "level"],
            Family::DeviceInfo => vec!["sn", "serial", "machine_code", "sw_version", "hw_version"],
            Family::HttpRequests => vec!["endpoint", "status"],
            Family::FramesDecoded => vec!["block"],
            Family::FramesDropped | Family::CoulombSamplesRejected => vec!["reason"],
            Family::StateWriteErrors => vec!["stage"],
            Family::StateLastWriteTimestamp => vec![],
            _ => vec!["sn"],
        };
        proof {
            assert(label_values(r@) =~= self.label_texts());
        }
        r
    }

    /// Name, help and label names together.
    pub open spec fn about(self) -> (Seq<char>, Seq<char>, Seq<Seq<char>>) {
        (self.name_text(), self.help_text(), self.label_texts())
    }

    /// The resolution of the readings that a gauge shows.
    pub open spec fn scale_of(self) -> Scale {
        match self {
            Family::PackVoltage | Family::Current | Family::Soc | Family::RemainingCapacity | Family::BalanceCurrent | Family::RatedCapacity | Family::PackVoltageHighLimit | Family::PackVoltageLowLimit | Family::ChargeOvercurrentLimit | Family::DischargeOvercurrentLimit | Family::ConfigBalanceCurrent => Scale::Tenths,
            Family::CellVoltage | Family::CellVoltageMax | Family::CellVoltageMin | Family::CellVoltageAvg | Family::CellVoltageDelta | Family::CellReferenceVoltage | Family::CellVoltageHighLimit | Family::CellVoltageLowLimit => Scale::Thousandths,
            _ => Scale::Units,
        }
    }

    /// The resolution of the readings that a gauge shows.
    pub fn scale(self) -> (r: Scale)
        ensures
            r == self.scale_of(),
    {
        match self {
            Family::PackVoltage | Family::Current | Family::Soc | Family::RemainingCapacity | Family::BalanceCurrent | Family::RatedCapacity | Family::PackVoltageHighLimit | Family::PackVoltageLowLimit | Family::ChargeOvercurrentLimit | Family::DischargeOvercurrentLimit | Family::ConfigBalanceCurrent => Scale::Tenths,
            Family::CellVoltage | Family::CellVoltageMax | Family::CellVoltageMin | Family::CellVoltageAvg | Family::CellVoltageDelta | Family::CellReferenceVoltage | Family::CellVoltageHighLimit | Family::CellVoltageLowLimit => Scale::Thousandths,
            _ => Scale::Units,
        }
    }

    /// Every family once.
    pub fn all() -> (r: Vec<Family>)
        ensures
            r@.no_duplicates(),
            forall|f: Family| r@.contains(f),
    {
        let r: Vec<Family> = vec![
            Family::PackVoltage,
            Family::Current,
            Family::Soc,
            Family::RemainingCapacity,
            Family::CellVoltage,
            Family::CellVoltageMax,
            Family::CellVoltageMin,
            Family::CellVoltageAvg,
            Family::CellVoltageDelta,
            Family::Temperature,
            Family::TemperatureMax,
            Family::TemperatureMin,
            Family::MosTemperature,
            Family::ChargeCycles,
            Family::ChargeMos,
            Family::DischargeMos,
            Family::BalancerActive,
            Family::BalanceCurrent,
            Family::BalancingCellCount,
            Family::AlarmBits,
            Family::Alarm,
            Family::RatedCapacity,
            Family::CellReferenceVoltage,
            Family::CellVoltageHighLimit,
            Family::CellVoltageLowLimit,
            Family::PackVoltageHighLimit,
            Family::PackVoltageLowLimit,
            Family::ChargeOvercurrentLimit,
            Family::DischargeOvercurrentLimit,
            Family::ChargeTempHighLimit,
            Family::ChargeTempLowLimit,
            Family::DischargeTempHighLimit,
            Family::DiffTempLimit,
            Family::FanOnTemperature,
            Family::BalanceEnable,
            Family::ConfigBalanceCurrent,
            Family::DeviceInfo,
            Family::HttpRequests,
            Family::FramesDecoded,
            Family::FramesDropped,
            Family::LastFrameTimestamp,
            Family::CoulombSamplesRejected,
            Family::StateWriteErrors,
            Family::StateLastWriteTimestamp,
            Family::ChargeAmpHours,
            Family::DischargeAmpHours,
            Family::ChargeWattHours,
            Family::DischargeWattHours,
        ];
        proof {
            assert(r@.len() == 48);
            assert forall|i: int| 0 <= i < r@.len() implies ordinal(#[trigger] r@[i]) == i by {}
            assert forall|f: Family| r@.contains(f) by {
                assert(r@[ordinal(f)] == f);
            }
        }
        r
    }
}

/// The position of a family in the list of all.
spec fn ordinal(f: Family) -> int {
    match f {
        Family::PackVoltage => 0,
        Family::Current => 1,
        Family::Soc => 2,
        Family::RemainingCapacity => 3,
        Family::CellVoltage => 4,
        Family::CellVoltageMax => 5,
        Family::CellVoltageMin => 6,
        Family::CellVoltageAvg => 7,
        Family::CellVoltageDelta => 8,
        Family::Temperature => 9,
        Family::TemperatureMax => 10,
        Family::TemperatureMin => 11,
        Family::MosTemperature => 12,
        Family::ChargeCycles => 13,
        Family::ChargeMos => 14,
        Family::DischargeMos => 15,
        Family::BalancerActive => 16,
        Family::BalanceCurrent => 17,
        Family::BalancingCellCount => 18,
        Family::AlarmBits => 19,
        Family::Alarm => 20,
        Family::RatedCapacity => 21,
        Family::CellReferenceVoltage => 22,
        Family::CellVoltageHighLimit => 23,
        Family::CellVoltageLowLimit => 24,
        Family::PackVoltageHighLimit => 25,
        Family::PackVoltageLowLimit => 26,
        Family::ChargeOvercurrentLimit => 27,
        Family::DischargeOvercurrentLimit => 28,
        Family::ChargeTempHighLimit => 29,
        Family::ChargeTempLowLimit => 30,
        Family::DischargeTempHighLimit => 31,
        Family::DiffTempLimit => 32,
        Family::FanOnTemperature => 33,
        Family::BalanceEnable => 34,
        Family::ConfigBalanceCurrent => 35,
        Family::DeviceInfo => 36,
        Family::HttpRequests => 37,
        Family::FramesDecoded => 38,
        Family::FramesDropped => 39,
        Family::LastFrameTimestamp => 40,
        Family::CoulombSamplesRejected => 41,
        Family::StateWriteErrors => 42,
        Family::StateLastWriteTimestamp => 43,
        Family::ChargeAmpHours => 44,
        Family::DischargeAmpHours => 45,
        Family::ChargeWattHours => 46,
        Family::DischargeWattHours => 47,
    }
}

/// The family that has a name, told by length and telling characters.
spec fn named(name: Seq<char>) -> Family {
    if name.len() == 14 {
        Family::Alarm
    } else if name.len() == 19 {
        if name[9] == 'c' {
            Family::ChargeMos
        } else {
            Family::AlarmBits
        }
    } else if name.len() == 20 {
        if name[9] == 's' {
            Family::Soc
        } else {
            Family::DeviceInfo
        }
    } else if name.len() == 22 {
        if name[9] == 'c' {
            Family::ChargeCycles
        } else {
            Family::DischargeMos
        }
    } else if name.len() == 23 {
        Family::BalanceEnable
    } else if name.len() == 24 {
        if name[9] == 'c' {
            Family::Current
        } else {
            Family::BalancerActive
        }
    } else if name.len() == 27 {
        if name[9] == 'p' {
            Family::PackVoltage
        } else {
            Family::CellVoltage
        }
    } else if name.len() == 28 {
        if name[9] == 't' {
            Family::Temperature
        } else {
            Family::HttpRequests
        }
    } else if name.len() == 29 {
        if name[17] == 'g' {
            Family::BalancingCellCount
        } else if name[17] == 'e' {
            Family::FramesDecoded
        } else {
            Family::FramesDropped
        }
    } else if name.len() == 31 {
        if name[23] == 'a' {
            Family::CellVoltageMax
        } else if name[23] == 'i' {
            Family::CellVoltageMin
        } else if name[23] == 'v' {
            Family::CellVoltageAvg
        } else {
            Family::ChargeAmpHours
        }
    } else if name.len() == 32 {
        if name[9] == 't' {
            if name[22] == 'a' {
                Family::TemperatureMax
            } else {
                Family::TemperatureMin
            }
        } else if name[9] == 'm' {
            Family::MosTemperature
        } else if name[9] == 'b' {
            Family::BalanceCurrent
        } else if name[9] == 'd' {
            Family::DiffTempLimit
        } else {
            Family::ChargeWattHours
        }
    } else if name.len() == 33 {
        if name[9] == 'c' {
            Family::CellVoltageDelta
        } else if name[9] == 'r' {
            Family::RatedCapacity
        } else {
            Family::StateWriteErrors
        }
    } else if name.len() == 34 {
        Family::DischargeAmpHours
    } else if name.len() == 35 {
        if name[9] == 'f' {
            Family::FanOnTemperature
        } else {
            Family::DischargeWattHours
        }
    } else if name.len() == 37 {
        if name[9] == 'r' {
            Family::RemainingCapacity
        } else if name[9] == 'c' {
            if name[14] == 'r' {
                Family::CellReferenceVoltage
            } else {
                Family::CellVoltageLowLimit
            }
        } else if name[9] == 'p' {
            Family::PackVoltageLowLimit
        } else {
            Family::LastFrameTimestamp
        }
    } else if name.len() == 38 {
        if name[10] == 'e' {
            Family::CellVoltageHighLimit
        } else if name[10] == 'a' {
            Family::PackVoltageHighLimit
        } else {
            Family::ChargeTempLowLimit
        }
    } else if name.len() == 39 {
        if name[11] == 'a' {
            Family::ChargeTempHighLimit
        } else if name[11] == 'n' {
            Family::ConfigBalanceCurrent
        } else {
            Family::CoulombSamplesRejected
        }
    } else if name.len() == 41 {
        Family::ChargeOvercurrentLimit
    } else if name.len() == 42 {
        Family::DischargeTempHighLimit
    } else if name.len() == 43 {
        Family::StateLastWriteTimestamp
    } else {
        Family::DischargeOvercurrentLimit
    }
}

proof fn lemma_named(f: Family)
    ensures
        named(f.name_text()) == f,
        identifier(f.name_text(), true),
        f.help_text().len() > 0,
{
    match f {
        Family::PackVoltage => {
            reveal_strlit("daly_bms_pack_voltage_volts");
            reveal_strlit("Pack voltage");
        },
        Family::Current => {
            reveal_strlit("daly_bms_current_amperes");
            reveal_strlit("Pack current (positive = charge)");
        },
        Family::Soc => {
            reveal_strlit("daly_bms_soc_percent");
            reveal_strlit("State of charge");
        },
        Family::RemainingCapacity => {
            reveal_strlit("daly_bms_remaining_capacity_amp_hours");
            reveal_strlit("Remaining capacity");
        },
        Family::CellVoltage => {
            reveal_strlit("daly_bms_cell_voltage_volts");
            reveal_strlit("Per-cell voltage");
        },
        Family::CellVoltageMax => {
            reveal_strlit("daly_bms_cell_voltage_max_volts");
            reveal_strlit("Max cell voltage");
        },
        Family::CellVoltageMin => {
            reveal_strlit("daly_bms_cell_voltage_min_volts");
            reveal_strlit("Min cell voltage");
        },
        Family::CellVoltageAvg => {
            reveal_strlit("daly_bms_cell_voltage_avg_volts");
            reveal_strlit("Average cell voltage");
        },
        Family::CellVoltageDelta => {
            reveal_strlit("daly_bms_cell_voltage_delta_volts");
            reveal_strlit("Cell voltage spread (max-min)");
        },
        Family::Temperature => {
            reveal_strlit("daly_bms_temperature_celsius");
            reveal_strlit("External temperature sensor");
        },
        Family::TemperatureMax => {
            reveal_strlit("daly_bms_temperature_max_celsius");
            reveal_strlit("Max temperature");
        },
        Family::TemperatureMin => {
            reveal_strlit("daly_bms_temperature_min_celsius");
            reveal_strlit("Min temperature");
        },
        Family::MosTemperature => {
            reveal_strlit("daly_bms_mos_temperature_celsius");
            reveal_strlit("MOSFET temperature");
        },
        Family::ChargeCycles => {
            reveal_strlit("daly_bms_charge_cycles");
            reveal_strlit("Charge cycle count (absolute reading from the device)");
        },
        Family::ChargeMos => {
            reveal_strlit("daly_bms_charge_mos");
            reveal_strlit("Charge MOSFET state (1 = on)");
        },
        Family::DischargeMos => {
            reveal_strlit("daly_bms_discharge_mos");
            reveal_strlit("Discharge MOSFET state (1 = on)");
        },
        Family::BalancerActive => {
            reveal_strlit("daly_bms_balancer_active");
            reveal_strlit("Balancer running (1 = yes)");
        },
        Family::BalanceCurrent => {
            reveal_strlit("daly_bms_balance_current_amperes");
            reveal_strlit("Active-balancer current");
        },
        Family::BalancingCellCount => {
            reveal_strlit("daly_bms_balancing_cell_count");
            reveal_strlit("Number of cells being balanced");
        },
        Family::AlarmBits => {
            reveal_strlit("daly_bms_alarm_bits");
            reveal_strlit("Raw alarm bitmask (register 0x3B)");
        },
        Family::Alarm => {
            reveal_strlit("daly_bms_alarm");
            reveal_strlit("Decoded alarm flag (1 = active)");
        },
        Family::RatedCapacity => {
            reveal_strlit("daly_bms_rated_capacity_amp_hours");
            reveal_strlit("Rated capacity");
        },
        Family::CellReferenceVoltage => {
            reveal_strlit("daly_bms_cell_reference_voltage_volts");
            reveal_strlit("Cell reference voltage");
        },
        Family::CellVoltageHighLimit => {
            reveal_strlit("daly_bms_cell_voltage_high_limit_volts");
            reveal_strlit("Cell over-voltage threshold");
        },
        Family::CellVoltageLowLimit => {
            reveal_strlit("daly_bms_cell_voltage_low_limit_volts");
            reveal_strlit("Cell under-voltage threshold");
        },
        Family::PackVoltageHighLimit => {
            reveal_strlit("daly_bms_pack_voltage_high_limit_volts");
            reveal_strlit("Pack over-voltage threshold");
        },
        Family::PackVoltageLowLimit => {
            reveal_strlit("daly_bms_pack_voltage_low_limit_volts");
            reveal_strlit("Pack under-voltage threshold");
        },
        Family::ChargeOvercurrentLimit => {
            reveal_strlit("daly_bms_charge_overcurrent_limit_amperes");
            reveal_strlit("Charge over-current threshold");
        },
        Family::DischargeOvercurrentLimit => {
            reveal_strlit("daly_bms_discharge_overcurrent_limit_amperes");
            reveal_strlit("Discharge over-current threshold");
        },
        Family::ChargeTempHighLimit => {
            reveal_strlit("daly_bms_charge_temp_high_limit_celsius");
            reveal_strlit("Charge high-temperature threshold");
        },
        Family::ChargeTempLowLimit => {
            reveal_strlit("daly_bms_charge_temp_low_limit_celsius");
            reveal_strlit("Charge low-temperature threshold");
        },
        Family::DischargeTempHighLimit => {
            reveal_strlit("daly_bms_discharge_temp_high_limit_celsius");
            reveal_strlit("Discharge high-temperature threshold");
        },
        Family::DiffTempLimit => {
            reveal_strlit("daly_bms_diff_temp_limit_celsius");
            reveal_strlit("Differential-temperature protection");
        },
        Family::FanOnTemperature => {
            reveal_strlit("daly_bms_fan_on_temperature_celsius");
            reveal_strlit("Fan-on temperature");
        },
        Family::BalanceEnable => {
            reveal_strlit("daly_bms_balance_enable");
            reveal_strlit("Balancing enabled (1 = yes)");
        },
        Family::ConfigBalanceCurrent => {
            reveal_strlit("daly_bms_config_balance_current_amperes");
            reveal_strlit("Configured active-balancer current");
        },
        Family::DeviceInfo => {
            reveal_strlit("daly_bms_device_info");
            reveal_strlit("Device identity (always 1)");
        },
        Family::HttpRequests => {
            reveal_strlit("daly_bms_http_requests_total");
            reveal_strlit("HTTP requests handled");
        },
        Family::FramesDecoded => {
            reveal_strlit("daly_bms_frames_decoded_total");
            reveal_strlit("Modbus frames decoded");
        },
        Family::FramesDropped => {
            reveal_strlit("daly_bms_frames_dropped_total");
            reveal_strlit("Frames dropped");
        },
        Family::LastFrameTimestamp => {
            reveal_strlit("daly_bms_last_frame_timestamp_seconds");
            reveal_strlit("Unix time of the last accepted frame");
        },
        Family::CoulombSamplesRejected => {
            reveal_strlit("daly_bms_coulomb_samples_rejected_total");
            reveal_strlit("Realtime samples rejected, or their delta clamped, at coulomb/energy integration");
        },
        Family::StateWriteErrors => {
            reveal_strlit("daly_bms_state_write_errors_total");
            reveal_strlit("Failed durable writes of the coulomb/energy state file");
        },
        Family::StateLastWriteTimestamp => {
            reveal_strlit("daly_bms_state_last_write_timestamp_seconds");
            reveal_strlit("Unix time of the last successful coulomb/energy state write");
        },
        Family::ChargeAmpHours => {
            reveal_strlit("daly_bms_charge_amp_hours_total");
            reveal_strlit("Cumulative charge throughput (coulomb-counted)");
        },
        Family::DischargeAmpHours => {
            reveal_strlit("daly_bms_discharge_amp_hours_total");
            reveal_strlit("Cumulative discharge throughput (coulomb-counted)");
        },
        Family::ChargeWattHours => {
            reveal_strlit("daly_bms_charge_watt_hours_total");
            reveal_strlit("Cumulative charge energy in watt-hours (integral of measured V*I)");
        },
        Family::DischargeWattHours => {
            reveal_strlit("daly_bms_discharge_watt_hours_total");
            reveal_strlit("Cumulative discharge energy in watt-hours (integral of measured V*I)");
        },
    }
}

/// No two families share a name.
pub proof fn law_names_are_distinct(a: Family, b: Family)
    requires
        a.name_text() == b.name_text(),
    ensures
        a == b,
{
    lemma_named(a);
    lemma_named(b);
}

/// Every family can be described to the metrics registry: its name and label
/// names are well-formed, its labels are distinct and it has a help text.
pub proof fn law_families_are_describable(f: Family)
    ensures
        describable(f.name_text(), f.help_text(), f.label_texts()),
{
    lemma_named(f);
    reveal_strlit("sn");
    reveal_strlit("cell");
    reveal_strlit("sensor");
    reveal_strlit("type");
    reveal_strlit("level");
    reveal_strlit("serial");
    reveal_strlit("machine_code");
    reveal_strlit("sw_version");
    reveal_strlit("hw_version");
    reveal_strlit("endpoint");
    reveal_strlit("status");
    reveal_strlit("block");
    reveal_strlit("reason");
    reveal_strlit("stage");
    let labels = f.label_texts();
    assert forall|i: int, j: int| 0 <= i < j < labels.len() implies #[trigger] labels[i]
        != #[trigger] labels[j] by {
        assert(labels[i].len() != labels[j].len() || labels[i][0] != labels[j][0]);
    }
}

// --- Series labels ---
/// A cell or sensor number, padded to two digits.
pub open spec fn padded(n: u32) -> Seq<char> {
    if n < 10 {
        seq!['0'] + decimal_digits(n as nat)
    } else {
        decimal_digits(n as nat)
    }
}

/// Zero-pad a cell/sensor index so string-sorted consumers order them
/// numerically: "01".."32" instead of "1","10","2".
pub fn idx_label(n: u32) -> (r: String)
    ensures
        r@ == padded(n),
{
    if n < 10 {
        proof {
            reveal_strlit("0");
        }
        let mut s = "0".to_owned();
        s.append(decimal(n as u64).as_str());
        proof {
            assert(s@ =~= padded(n));
        }
        s
    } else {
        decimal(n as u64)
    }
}

proof fn lemma_padded(n: u32)
    requires
        n < 100,
    ensures
        padded(n) == seq![digit_char((n / 10) as nat), digit_char((n % 10) as nat)],
        is_ascii_chars(padded(n)),
{
    reveal_with_fuel(decimal_digits, 3);
    assert(padded(n) =~= seq![digit_char((n / 10) as nat), digit_char((n % 10) as nat)]);
}

/// Padded labels sort as the numbers do, as far as two digits reach.
pub proof fn law_padded_labels_sort(a: u32, b: u32)
    requires
        a < b < 100,
    ensures
        text_before(padded(a), padded(b)),
{
    lemma_padded(a);
    lemma_padded(b);
    is_ascii_chars_encode_utf8(padded(a));
    is_ascii_chars_encode_utf8(padded(b));
    reveal_with_fuel(bytes_before, 3);
    let x = encode_utf8(padded(a));
    let y = encode_utf8(padded(b));
    assert(x[0] == 0x30 + a / 10 && x[1] == 0x30 + a % 10);
    assert(y[0] == 0x30 + b / 10 && y[1] == 0x30 + b % 10);
    assert(x.drop_first()[0] == x[1] && y.drop_first()[0] == y[1]);
}

} // verus!
