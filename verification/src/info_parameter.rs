//! [`INFOGET`](https://www.raceresult.com/en/support/kb?id=420-Command-INFOGET) parameter IDs
//! and the values they report.
//!
//! Reply format: `[parameter-id:2];[value:{2,4}]`.
use vstd::prelude::*;

use crate::commands::{BatteryState, BoxType, LoopStatus};
use crate::error::{parsed_as, protocol_error_number, Error};
use crate::utils::{hex_u16, hex_u8, parse_hex_u16, parse_hex_u8, parse_signed_hex_i8, signed_hex_i8};

verus! {

/// General information parameters queryable via `INFOGET;[id]`.
#[derive(Debug, Clone, Copy, PartialEq, Eq)]
pub enum InfoParameter {
    /// Decoder ID (4 hex digits, e.g. `1387` → transponder prefix `A-4999`).
    DecoderId,
    /// Firmware version (`18` → v2.4).
    FirmwareVersion,
    /// Hardware version (`18` → v2.4).
    HardwareVersion,
    /// Device type (`28` = USB timing box).
    BoxType,
    /// Battery voltage in volts (`28` → 4.0 V).
    BatteryVoltage,
    /// Battery state (fault / charging / …).
    BatteryState,
    /// Battery level 0–100 %.
    BatteryLevel,
    /// Internal temperature (FW 2.5: 0–100 °C unsigned; FW 2.6: signed hex).
    InternalTemperature,
    /// Supply voltage in volts.
    SupplyVoltage,
    /// Loop status.
    LoopStatus,
    /// Build revision string (internal use).
    BuiltRevision,
    /// Measured loop power 0–100 % (may differ slightly from configured power).
    MeasuredLoopPower,
    /// This is documented but in my testing the usb timing box doesn't seem to support it.
    /// Channel noise 0–10 (FW 2.6+, same scale as site survey).
    NoiseStatus,
}

impl InfoParameter {
    pub open spec fn spec_id(self) -> u8 {
        match self {
            InfoParameter::DecoderId => 0x01,
            InfoParameter::FirmwareVersion => 0x02,
            InfoParameter::HardwareVersion => 0x03,
            InfoParameter::BoxType => 0x04,
            InfoParameter::BatteryVoltage => 0x05,
            InfoParameter::BatteryState => 0x07,
            InfoParameter::BatteryLevel => 0x08,
            InfoParameter::InternalTemperature => 0x09,
            InfoParameter::SupplyVoltage => 0x0a,
            InfoParameter::LoopStatus => 0x0b,
            InfoParameter::BuiltRevision => 0x0c,
            InfoParameter::MeasuredLoopPower => 0x0d,
            InfoParameter::NoiseStatus => 0x0e,
        }
    }

    /// The parameter's id on the wire.
    #[verifier::when_used_as_spec(spec_id)]
    pub fn id(self) -> (r: u8)
        ensures
            r == self.spec_id(),
    {
        match self {
            InfoParameter::DecoderId => 0x01,
            InfoParameter::FirmwareVersion => 0x02,
            InfoParameter::HardwareVersion => 0x03,
            InfoParameter::BoxType => 0x04,
            InfoParameter::BatteryVoltage => 0x05,
            InfoParameter::BatteryState => 0x07,
            InfoParameter::BatteryLevel => 0x08,
            InfoParameter::InternalTemperature => 0x09,
            InfoParameter::SupplyVoltage => 0x0a,
            InfoParameter::LoopStatus => 0x0b,
            InfoParameter::BuiltRevision => 0x0c,
            InfoParameter::MeasuredLoopPower => 0x0d,
            InfoParameter::NoiseStatus => 0x0e,
        }
    }
}

/// A hexadecimal byte that is at most `max`.
pub open spec fn hex_u8_at_most(s: Seq<char>, max: u8) -> Option<u8> {
    match hex_u8(s) {
        Some(v) => if v <= max {
            Some(v)
        } else {
            None
        },
        None => None,
    }
}

fn parse_hex_u8_at_most(value: &str, max: u8, what: &str) -> (r: Result<u8, Error>)
    ensures
        parsed_as(r, hex_u8_at_most(value@, max)),
{
    let v = parse_hex_u8(value)?;
    if v > max {
        return Err(protocol_error_number(what, v as u64));
    }
    Ok(v)
}

/// The battery level in percent that an `INFOGET` value reports.
pub open spec fn spec_battery_level(value: Seq<char>) -> Option<u8> {
    hex_u8_at_most(value, 100)
}

/// The FW 2.5 internal temperature in °C that an `INFOGET` value reports.
pub open spec fn spec_internal_temperature_fw25(value: Seq<char>) -> Option<u8> {
    hex_u8_at_most(value, 100)
}

/// The measured loop power in percent that an `INFOGET` value reports.
pub open spec fn spec_measured_loop_power(value: Seq<char>) -> Option<u8> {
    hex_u8_at_most(value, 0x64)
}

/// The channel noise that an `INFOGET` value reports.
pub open spec fn spec_noise_status(value: Seq<char>) -> Option<u8> {
    hex_u8_at_most(value, 0x0a)
}

/// Decoder ID (4 hex digits, e.g. `1387` → transponder prefix `A-4999`).
pub fn parse_decoder_id(value: &str) -> (r: Result<u16, Error>)
    ensures
        parsed_as(r, hex_u16(value@)),
{
    parse_hex_u16(value)
}

pub open spec fn spec_box_type(value: Seq<char>) -> Option<BoxType> {
    match hex_u8(value) {
        Some(v) => Some(BoxType::spec_from_raw(v)),
        None => None,
    }
}

pub fn parse_box_type(value: &str) -> (r: Result<BoxType, Error>)
    ensures
        parsed_as(r, spec_box_type(value@)),
{
    Ok(BoxType::from_raw(parse_hex_u8(value)?))
}

pub open spec fn spec_battery_state(value: Seq<char>) -> Option<BatteryState> {
    match hex_u8(value) {
        Some(v) => Some(BatteryState::spec_from_raw(v)),
        None => None,
    }
}

pub fn parse_battery_state(value: &str) -> (r: Result<BatteryState, Error>)
    ensures
        parsed_as(r, spec_battery_state(value@)),
{
    Ok(BatteryState::from_raw(parse_hex_u8(value)?))
}

/// Battery level 0–100 %.
pub fn parse_battery_level_percent(value: &str) -> (r: Result<u8, Error>)
    ensures
        parsed_as(r, spec_battery_level(value@)),
{
    parse_hex_u8_at_most(value, 100, "battery level out of range")
}

/// Internal temperature 0–100 °C (FW 2.5).
pub fn parse_internal_temperature_fw25(value: &str) -> (r: Result<u8, Error>)
    ensures
        parsed_as(r, spec_internal_temperature_fw25(value@)),
{
    parse_hex_u8_at_most(value, 100, "internal temperature out of range")
}

/// Internal temperature in °C (FW 2.6 signed hex).
pub fn parse_internal_temperature_fw26(value: &str) -> (r: Result<i8, Error>)
    ensures
        parsed_as(r, signed_hex_i8(value@)),
{
    parse_signed_hex_i8(value)
}

pub open spec fn spec_loop_status(value: Seq<char>) -> Option<LoopStatus> {
    match hex_u8(value) {
        Some(v) => Some(LoopStatus::spec_from_raw(v)),
        None => None,
    }
}

pub fn parse_loop_status(value: &str) -> (r: Result<LoopStatus, Error>)
    ensures
        parsed_as(r, spec_loop_status(value@)),
{
    Ok(LoopStatus::from_raw(parse_hex_u8(value)?))
}

/// Measured loop power 0–100 % (hex `00..=64`).
pub fn parse_measured_loop_power_percent(value: &str) -> (r: Result<u8, Error>)
    ensures
        parsed_as(r, spec_measured_loop_power(value@)),
{
    parse_hex_u8_at_most(value, 0x64, "measured loop power out of range")
}

/// Channel noise 0–10.
pub fn parse_noise_status(value: &str) -> (r: Result<u8, Error>)
    ensures
        parsed_as(r, spec_noise_status(value@)),
{
    parse_hex_u8_at_most(value, 0x0a, "noise status out of range")
}

/// The ranges of the reported values: a battery level and a FW 2.5 temperature of at most
/// 100, a measured loop power of at most 100 % (hex `64`) and a channel noise of at most 10;
/// a value beyond its range is refused.
pub proof fn lemma_info_value_ranges(value: Seq<char>, v: u8)
    ensures
        spec_battery_level(value) == Some(v) <==> (hex_u8(value) == Some(v) && v <= 100),
        spec_internal_temperature_fw25(value) == Some(v) <==> (hex_u8(value) == Some(v) && v <= 100),
        spec_measured_loop_power(value) == Some(v) <==> (hex_u8(value) == Some(v) && v <= 0x64),
        spec_noise_status(value) == Some(v) <==> (hex_u8(value) == Some(v) && v <= 0x0a),
{
}

/// Every information parameter is asked for by its documented `INFOGET` number.
pub proof fn lemma_info_parameter_ids()
    ensures
        InfoParameter::DecoderId.spec_id() == 0x01,
        InfoParameter::FirmwareVersion.spec_id() == 0x02,
        InfoParameter::HardwareVersion.spec_id() == 0x03,
        InfoParameter::BoxType.spec_id() == 0x04,
        InfoParameter::BatteryVoltage.spec_id() == 0x05,
        InfoParameter::BatteryState.spec_id() == 0x07,
        InfoParameter::BatteryLevel.spec_id() == 0x08,
        InfoParameter::InternalTemperature.spec_id() == 0x09,
        InfoParameter::SupplyVoltage.spec_id() == 0x0a,
        InfoParameter::LoopStatus.spec_id() == 0x0b,
        InfoParameter::BuiltRevision.spec_id() == 0x0c,
        InfoParameter::MeasuredLoopPower.spec_id() == 0x0d,
        InfoParameter::NoiseStatus.spec_id() == 0x0e,
{
}

/// The parameter numbers grow in the documented order of the parameters, so no two
/// parameters share a number.
pub proof fn lemma_info_parameter_ids_ordered()
    ensures
        InfoParameter::DecoderId.spec_id() < InfoParameter::FirmwareVersion.spec_id(),
        InfoParameter::FirmwareVersion.spec_id() < InfoParameter::HardwareVersion.spec_id(),
        InfoParameter::HardwareVersion.spec_id() < InfoParameter::BoxType.spec_id(),
        InfoParameter::BoxType.spec_id() < InfoParameter::BatteryVoltage.spec_id(),
        InfoParameter::BatteryVoltage.spec_id() < InfoParameter::BatteryState.spec_id(),
        InfoParameter::BatteryState.spec_id() < InfoParameter::BatteryLevel.spec_id(),
        InfoParameter::BatteryLevel.spec_id() < InfoParameter::InternalTemperature.spec_id(),
        InfoParameter::InternalTemperature.spec_id() < InfoParameter::SupplyVoltage.spec_id(),
        InfoParameter::SupplyVoltage.spec_id() < InfoParameter::LoopStatus.spec_id(),
        InfoParameter::LoopStatus.spec_id() < InfoParameter::BuiltRevision.spec_id(),
        InfoParameter::BuiltRevision.spec_id() < InfoParameter::MeasuredLoopPower.spec_id(),
        InfoParameter::MeasuredLoopPower.spec_id() < InfoParameter::NoiseStatus.spec_id(),
{
}

} // verus!
