//! Replies of the box to its commands, and the records they carry.
use vstd::prelude::*;

use crate::error::{
    parsed_as, protocol_error, protocol_error_fields, protocol_error_mismatch, Error,
};
use crate::firmware::{Fw25, Fw26};
use crate::passing::{
    spec_passing_fw25, spec_passing_fw26, FirmwarePassing, PassingBatch, PassingFw25,
    PassingFw26,
};
use crate::text::{split, split_fields, strings_view};
use crate::utils::{
    hex_u16, hex_u32, hex_u64, hex_u8, parse_hex_u16, parse_hex_u32, parse_hex_u64, parse_hex_u8,
    parse_signed_hex_i8, signed_hex_i8,
};

verus! {

/// A reply: the echoed command, its return code and the data lines that follow.
#[derive(Debug, Clone)]
pub struct CommandResponse {
    pub command: String,
    /// 0 => success, no error
    /// 10-1f => command specific error, see command description
    /// ff => error unknown command or parameter(s), unless caught by return codes 10-1f
    pub return_code: u8,
    pub data_lines: Vec<String>,
}

/// The mathematical content of a [`CommandResponse`].
pub struct CommandResponseView {
    pub command: Seq<char>,
    pub return_code: u8,
    pub data_lines: Seq<Seq<char>>,
}

impl View for CommandResponse {
    type V = CommandResponseView;

    open spec fn view(&self) -> CommandResponseView {
        CommandResponseView {
            command: self.command@,
            return_code: self.return_code,
            data_lines: strings_view(self.data_lines@),
        }
    }
}

impl CommandResponse {
    /// The data line, when there is exactly one.
    pub fn single_data_line(&self) -> (r: Option<&str>)
        ensures
            match r {
                Some(line) => self@.data_lines.len() == 1 && line@ == self@.data_lines[0],
                None => self@.data_lines.len() != 1,
            },
    {
        if self.data_lines.len() == 1 {
            Some(self.data_lines[0].as_str())
        } else {
            None
        }
    }
}

/// The `i`th field of `fields` as a string slice, with its view.
fn field(fields: &Vec<String>, i: usize) -> (r: &str)
    requires
        i < fields.len(),
    ensures
        r@ == strings_view(fields@)[i as int],
{
    fields[i].as_str()
}

#[derive(Debug, Clone, Copy, PartialEq, Eq)]
pub struct PassingInfo {
    /// Number of passings in buffer.
    pub count: u16,
    /// Index of first passing in buffer.
    pub start_id: u32,
    /// Timestamp of first passing in buffer (low 32 bits in FW 2.6 mode).
    pub start_timestamp: u32,
    /// Index of last passing in buffer.
    pub last_id: u32,
    /// Timestamp of last passing in buffer (low 32 bits in FW 2.6 mode).
    pub last_timestamp: u32,
}

/// The buffer summary that a `PASSINGINFOGET` data line denotes: its first five
/// `;`-separated fields in hexadecimal (any further fields are ignored).
pub open spec fn spec_passing_info(line: Seq<char>) -> Option<PassingInfo> {
    let f = split(line, ';');
    if f.len() >= 5 && hex_u16(f[0]) is Some && hex_u32(f[1]) is Some && hex_u32(f[2]) is Some
        && hex_u32(f[3]) is Some && hex_u32(f[4]) is Some {
        Some(
            PassingInfo {
                count: hex_u16(f[0]).unwrap(),
                start_id: hex_u32(f[1]).unwrap(),
                start_timestamp: hex_u32(f[2]).unwrap(),
                last_id: hex_u32(f[3]).unwrap(),
                last_timestamp: hex_u32(f[4]).unwrap(),
            },
        )
    } else {
        None
    }
}

impl PassingInfo {
    /// Parses a `PASSINGINFOGET` data line: `[Count:4];[StartID:8];[StartTimeStamp:8];[LastID:8];[LastTimeStamp:8]`.
    pub fn from_line(line: &str) -> (r: Result<Self, Error>)
        ensures
            parsed_as(r, spec_passing_info(line@)),
    {
        let fields = split_fields(line, ';');
        proof {
            crate::text::lemma_split_nonempty(line@, ';');
        }
        let count = parse_hex_u16(field(&fields, 0))?;
        if fields.len() < 2 {
            return Err(protocol_error("PASSINGINFOGET missing start_id"));
        }
        let start_id = parse_hex_u32(field(&fields, 1))?;
        if fields.len() < 3 {
            return Err(protocol_error("PASSINGINFOGET missing start_timestamp"));
        }
        let start_timestamp = parse_hex_u32(field(&fields, 2))?;
        if fields.len() < 4 {
            return Err(protocol_error("PASSINGINFOGET missing last_id"));
        }
        let last_id = parse_hex_u32(field(&fields, 3))?;
        if fields.len() < 5 {
            return Err(protocol_error("PASSINGINFOGET missing last_timestamp"));
        }
        let last_timestamp = parse_hex_u32(field(&fields, 4))?;
        Ok(PassingInfo { count, start_id, start_timestamp, last_id, last_timestamp })
    }
}

/// Result of a `PASSINGGET` request.
#[derive(Debug, Clone, PartialEq, Eq)]
pub enum PassingGetResult<F: FirmwarePassing> {
    /// The passings from the requested start index on.
    Batch(PassingBatch<F>),
    /// The start index is not in the internal buffer (also returned when it is too large).
    /// The official docs say: "In case of this error, you need to execute
    /// `PASSINGGET;[MinStartIndex]` again."
    StartIndexNotFound {
        /// indicating the lowest StartIndex that is available in memory
        min_start_index: u32,
    },
    /// The box runs in a mode which does not allow pulling passings from it, most likely
    /// a USB Timing Box in repeat mode. The user needs to switch mode.
    WrongMode,
}

#[derive(Debug, Clone, Copy, PartialEq, Eq)]
pub enum LoopStatus {
    /// Called LoopOk instead of Ok to not conflict with [core::result::Result::Ok]
    LoopOk,
    Fault,
    Limit,
    OverVoltage,
    Unknown(u8),
}

impl LoopStatus {
    pub open spec fn spec_from_raw(raw: u8) -> LoopStatus {
        if raw == 0 {
            LoopStatus::LoopOk
        } else if raw == 1 {
            LoopStatus::Fault
        } else if raw == 2 {
            LoopStatus::Limit
        } else if raw == 4 {
            LoopStatus::OverVoltage
        } else {
            LoopStatus::Unknown(raw)
        }
    }

    #[verifier::when_used_as_spec(spec_from_raw)]
    pub fn from_raw(raw: u8) -> (r: Self)
        ensures
            r == Self::spec_from_raw(raw),
    {
        match raw {
            0x00 => LoopStatus::LoopOk,
            0x01 => LoopStatus::Fault,
            0x02 => LoopStatus::Limit,
            0x04 => LoopStatus::OverVoltage,
            other => LoopStatus::Unknown(other),
        }
    }
}

#[derive(Debug, Clone, Copy, PartialEq, Eq)]
pub enum BeaconMode {
    TimingMode,
    StoreMode,
    RepeatMode,
    RepeatImpulseMode,
    NoTimingDevice,
    TrackingStart,
    TrackingStop,
    Unknown(u8),
}

impl BeaconMode {
    pub open spec fn spec_from_raw(raw: u8) -> BeaconMode {
        if raw == 0x00 {
            BeaconMode::TimingMode
        } else if raw == 0x02 {
            BeaconMode::StoreMode
        } else if raw == 0x03 {
            BeaconMode::RepeatMode
        } else if raw == 0x04 {
            BeaconMode::RepeatImpulseMode
        } else if raw == 0x10 {
            BeaconMode::NoTimingDevice
        } else if raw == 0x21 {
            BeaconMode::TrackingStart
        } else if raw == 0x22 {
            BeaconMode::TrackingStop
        } else {
            BeaconMode::Unknown(raw)
        }
    }

    #[verifier::when_used_as_spec(spec_from_raw)]
    pub fn from_raw(raw: u8) -> (r: Self)
        ensures
            r == Self::spec_from_raw(raw),
    {
        match raw {
            0x00 => BeaconMode::TimingMode,
            0x02 => BeaconMode::StoreMode,
            0x03 => BeaconMode::RepeatMode,
            0x04 => BeaconMode::RepeatImpulseMode,
            0x10 => BeaconMode::NoTimingDevice,
            0x21 => BeaconMode::TrackingStart,
            0x22 => BeaconMode::TrackingStop,
            other => BeaconMode::Unknown(other),
        }
    }
}

#[derive(Debug, Clone, Copy, PartialEq, Eq)]
pub enum PowerConnection {
    Power12V,
    Usb,
    Battery,
    Unknown(u8),
}

impl PowerConnection {
    pub open spec fn spec_from_raw(raw: u8) -> PowerConnection {
        if raw == 0 {
            PowerConnection::Power12V
        } else if raw == 1 {
            PowerConnection::Usb
        } else if raw == 2 {
            PowerConnection::Battery
        } else {
            PowerConnection::Unknown(raw)
        }
    }

    #[verifier::when_used_as_spec(spec_from_raw)]
    pub fn from_raw(raw: u8) -> (r: Self)
        ensures
            r == Self::spec_from_raw(raw),
    {
        match raw {
            0 => PowerConnection::Power12V,
            1 => PowerConnection::Usb,
            2 => PowerConnection::Battery,
            other => PowerConnection::Unknown(other),
        }
    }
}

#[derive(Debug, Clone, Copy, PartialEq, Eq)]
pub enum BoxType {
    ActiveExtension,
    LoopBox,
    ManagementBox,
    UsbTimingBox,
    Ubidium,
    Unknown(u8),
}

impl BoxType {
    pub open spec fn spec_from_raw(raw: u8) -> BoxType {
        if raw == 0x0a {
            BoxType::ActiveExtension
        } else if raw == 0x14 {
            BoxType::LoopBox
        } else if raw == 0x1e {
            BoxType::ManagementBox
        } else if raw == 0x28 {
            BoxType::UsbTimingBox
        } else if raw == 0x50 {
            BoxType::Ubidium
        } else {
            BoxType::Unknown(raw)
        }
    }

    #[verifier::when_used_as_spec(spec_from_raw)]
    pub fn from_raw(raw: u8) -> (r: Self)
        ensures
            r == Self::spec_from_raw(raw),
    {
        match raw {
            0x0a => BoxType::ActiveExtension,
            0x14 => BoxType::LoopBox,
            0x1e => BoxType::ManagementBox,
            0x28 => BoxType::UsbTimingBox,
            0x50 => BoxType::Ubidium,
            other => BoxType::Unknown(other),
        }
    }
}

#[derive(Debug, Clone, Copy, PartialEq, Eq)]
pub enum BatteryState {
    Fault,
    Charging,
    ReducedCharging,
    Discharging,
    Unknown(u8),
}

impl BatteryState {
    pub open spec fn spec_from_raw(raw: u8) -> BatteryState {
        if raw == 0 {
            BatteryState::Fault
        } else if raw == 1 {
            BatteryState::Charging
        } else if raw == 2 {
            BatteryState::ReducedCharging
        } else if raw == 3 {
            BatteryState::Discharging
        } else {
            BatteryState::Unknown(raw)
        }
    }

    #[verifier::when_used_as_spec(spec_from_raw)]
    pub fn from_raw(raw: u8) -> (r: Self)
        ensures
            r == Self::spec_from_raw(raw),
    {
        match raw {
            0 => BatteryState::Fault,
            1 => BatteryState::Charging,
            2 => BatteryState::ReducedCharging,
            3 => BatteryState::Discharging,
            other => BatteryState::Unknown(other),
        }
    }
}

/// The reading behind a beacon's power status, before any unit conversion: hours of
/// battery left, or the supply voltage in tenths of a volt.
#[derive(Debug, Clone, Copy, PartialEq, Eq)]
pub enum PowerReading {
    BatteryHours(u8),
    VoltageTenths(u8),
}

/// On battery the raw power status counts hours; otherwise it is a voltage in tenths.
pub open spec fn spec_power_reading(connection: PowerConnection, raw: u8) -> PowerReading {
    match connection {
        PowerConnection::Battery => PowerReading::BatteryHours(raw),
        _ => PowerReading::VoltageTenths(raw),
    }
}

fn power_reading_of(connection: PowerConnection, raw: u8) -> (r: PowerReading)
    ensures
        r == spec_power_reading(connection, raw),
{
    match connection {
        PowerConnection::Battery => PowerReading::BatteryHours(raw),
        _ => PowerReading::VoltageTenths(raw),
    }
}

/// A received signal strength in dBm: `-90` plus the energy-detect reading.
pub open spec fn energy_rssi_dbm(energy_detect: u8) -> int {
    -90 + energy_detect
}

/// Parsed beacon record (FW 2.5 standard format, 17 fields).
#[derive(Debug, Clone, PartialEq, Eq)]
pub struct BeaconRecordFw25 {
    pub active_device_id: u16,
    pub loop_status: LoopStatus,
    pub mode: BeaconMode,
    pub loop_data: u8,
    pub loop_power: u8,
    pub channel_id: u8,
    pub loop_id: u8,
    pub power_connection: PowerConnection,
    pub power_status_raw: u8,
    pub beacon_index: u16,
    /// Internal box time ticks (32-bit, 256 Hz).
    pub time_ticks: u32,
    pub channel_noise_avg: u8,
    pub transponder_energy_detect: u8,
    pub beacon_energy_detect: u8,
}

/// The beacon that a FW 2.5 `BEACONGET` line denotes: 17 `;`-separated hexadecimal
/// fields, of which fields 11, 13 and 15 are not read.
pub open spec fn spec_beacon_fw25(line: Seq<char>) -> Option<BeaconRecordFw25> {
    let f = split(line, ';');
    if f.len() == 17 && hex_u16(f[0]) is Some && hex_u8(f[1]) is Some && hex_u8(f[2]) is Some
        && hex_u8(f[3]) is Some && hex_u8(f[4]) is Some && hex_u8(f[5]) is Some && hex_u8(
        f[6],
    ) is Some && hex_u8(f[7]) is Some && hex_u8(f[8]) is Some && hex_u16(f[9]) is Some
        && hex_u32(f[10]) is Some && hex_u8(f[12]) is Some && hex_u8(f[14]) is Some && hex_u8(
        f[16],
    ) is Some {
        Some(
            BeaconRecordFw25 {
                active_device_id: hex_u16(f[0]).unwrap(),
                loop_status: LoopStatus::spec_from_raw(hex_u8(f[1]).unwrap()),
                mode: BeaconMode::spec_from_raw(hex_u8(f[2]).unwrap()),
                loop_data: hex_u8(f[3]).unwrap(),
                loop_power: hex_u8(f[4]).unwrap(),
                channel_id: hex_u8(f[5]).unwrap(),
                loop_id: hex_u8(f[6]).unwrap(),
                power_connection: PowerConnection::spec_from_raw(hex_u8(f[7]).unwrap()),
                power_status_raw: hex_u8(f[8]).unwrap(),
                beacon_index: hex_u16(f[9]).unwrap(),
                time_ticks: hex_u32(f[10]).unwrap(),
                channel_noise_avg: hex_u8(f[12]).unwrap(),
                transponder_energy_detect: hex_u8(f[14]).unwrap(),
                beacon_energy_detect: hex_u8(f[16]).unwrap(),
            },
        )
    } else {
        None
    }
}

impl BeaconRecordFw25 {
    pub fn from_line(line: &str) -> (r: Result<Self, Error>)
        ensures
            parsed_as(r, spec_beacon_fw25(line@)),
    {
        let fields = split_fields(line, ';');
        if fields.len() != 17 {
            return Err(
                protocol_error_fields("FW2.5 beacon expected 17 fields", fields.len() as u64, line),
            );
        }
        let active_device_id = parse_hex_u16(field(&fields, 0))?;
        let loop_status = LoopStatus::from_raw(parse_hex_u8(field(&fields, 1))?);
        let mode = BeaconMode::from_raw(parse_hex_u8(field(&fields, 2))?);
        let loop_data = parse_hex_u8(field(&fields, 3))?;
        let loop_power = parse_hex_u8(field(&fields, 4))?;
        let channel_id = parse_hex_u8(field(&fields, 5))?;
        let loop_id = parse_hex_u8(field(&fields, 6))?;
        let power_connection = PowerConnection::from_raw(parse_hex_u8(field(&fields, 7))?);
        let power_status_raw = parse_hex_u8(field(&fields, 8))?;
        let beacon_index = parse_hex_u16(field(&fields, 9))?;
        let time_ticks = parse_hex_u32(field(&fields, 10))?;
        let channel_noise_avg = parse_hex_u8(field(&fields, 12))?;
        let transponder_energy_detect = parse_hex_u8(field(&fields, 14))?;
        let beacon_energy_detect = parse_hex_u8(field(&fields, 16))?;
        Ok(
            BeaconRecordFw25 {
                active_device_id,
                loop_status,
                mode,
                loop_data,
                loop_power,
                channel_id,
                loop_id,
                power_connection,
                power_status_raw,
                beacon_index,
                time_ticks,
                channel_noise_avg,
                transponder_energy_detect,
                beacon_energy_detect,
            },
        )
    }

    pub fn display_channel(&self) -> (r: u8)
        ensures
            r == crate::passing::display_id(self.channel_id),
    {
        self.channel_id.saturating_add(1)
    }

    pub fn display_loop_id(&self) -> (r: u8)
        ensures
            r == crate::passing::display_id(self.loop_id),
    {
        self.loop_id.saturating_add(1)
    }

    pub fn transponder_rssi_dbm(&self) -> (r: i16)
        ensures
            r == energy_rssi_dbm(self.transponder_energy_detect),
    {
        -90 + self.transponder_energy_detect as i16
    }

    pub fn beacon_rssi_dbm(&self) -> (r: i16)
        ensures
            r == energy_rssi_dbm(self.beacon_energy_detect),
    {
        -90 + self.beacon_energy_detect as i16
    }

    /// The power status before unit conversion (see [`PowerReading`]).
    pub fn power_reading(&self) -> (r: PowerReading)
        ensures
            r == spec_power_reading(self.power_connection, self.power_status_raw),
    {
        power_reading_of(self.power_connection, self.power_status_raw)
    }
}

/// Parsed beacon record (FW 2.6 format, 26 fields).
#[derive(Debug, Clone, PartialEq, Eq)]
pub struct BeaconRecordFw26 {
    pub active_device_id: u16,
    pub loop_status: LoopStatus,
    pub mode: BeaconMode,
    pub loop_data: u8,
    pub loop_power: u8,
    pub channel_id: u8,
    pub loop_id: u8,
    pub power_connection: PowerConnection,
    pub power_status_raw: u8,
    pub beacon_index: u16,
    /// Internal box time ticks (40-bit, 2048 Hz, 10 hex digits).
    pub time_ticks: u64,
    pub beacon_version: u8,
    pub channel_noise_avg: u8,
    pub transponder_energy_detect: u8,
    pub beacon_energy_detect: u8,
    pub beacon_success_rate: u8,
    pub fw_version_raw: u8,
    pub box_type: BoxType,
    pub box_mode_raw: u8,
    pub temperature_celsius: i8,
    pub buffer_overflow: bool,
    pub buffer_fill_state_percent: u8,
    pub avg_transponder_retries: u8,
    pub avg_repeat_retries: u8,
}

/// Whether the 26 fields of a FW 2.6 beacon line all read as their types.
pub open spec fn beacon_fw26_fields_ok(f: Seq<Seq<char>>) -> bool {
    &&& f.len() == 26
    &&& hex_u16(f[0]) is Some
    &&& hex_u8(f[1]) is Some
    &&& hex_u8(f[2]) is Some
    &&& hex_u8(f[3]) is Some
    &&& hex_u8(f[4]) is Some
    &&& hex_u8(f[5]) is Some
    &&& hex_u8(f[6]) is Some
    &&& hex_u8(f[7]) is Some
    &&& hex_u8(f[8]) is Some
    &&& hex_u16(f[9]) is Some
    &&& hex_u64(f[10]) is Some
    &&& hex_u8(f[11]) is Some
    &&& hex_u8(f[12]) is Some
    &&& hex_u8(f[14]) is Some
    &&& hex_u8(f[16]) is Some
    &&& hex_u8(f[17]) is Some
    &&& hex_u8(f[18]) is Some
    &&& hex_u8(f[19]) is Some
    &&& hex_u8(f[20]) is Some
    &&& signed_hex_i8(f[21]) is Some
    &&& hex_u8(f[22]) is Some
    &&& hex_u8(f[23]) is Some
    &&& hex_u8(f[24]) is Some
    &&& hex_u8(f[25]) is Some
}

/// The beacon that a FW 2.6 `BEACONGET` line denotes: 26 `;`-separated fields, of which
/// fields 13 and 15 are not read and field 21 is a signed temperature.
pub open spec fn spec_beacon_fw26(line: Seq<char>) -> Option<BeaconRecordFw26> {
    let f = split(line, ';');
    if beacon_fw26_fields_ok(f) {
        Some(
            BeaconRecordFw26 {
                active_device_id: hex_u16(f[0]).unwrap(),
                loop_status: LoopStatus::spec_from_raw(hex_u8(f[1]).unwrap()),
                mode: BeaconMode::spec_from_raw(hex_u8(f[2]).unwrap()),
                loop_data: hex_u8(f[3]).unwrap(),
                loop_power: hex_u8(f[4]).unwrap(),
                channel_id: hex_u8(f[5]).unwrap(),
                loop_id: hex_u8(f[6]).unwrap(),
                power_connection: PowerConnection::spec_from_raw(hex_u8(f[7]).unwrap()),
                power_status_raw: hex_u8(f[8]).unwrap(),
                beacon_index: hex_u16(f[9]).unwrap(),
                time_ticks: hex_u64(f[10]).unwrap(),
                beacon_version: hex_u8(f[11]).unwrap(),
                channel_noise_avg: hex_u8(f[12]).unwrap(),
                transponder_energy_detect: hex_u8(f[14]).unwrap(),
                beacon_energy_detect: hex_u8(f[16]).unwrap(),
                beacon_success_rate: hex_u8(f[17]).unwrap(),
                fw_version_raw: hex_u8(f[18]).unwrap(),
                box_type: BoxType::spec_from_raw(hex_u8(f[19]).unwrap()),
                box_mode_raw: hex_u8(f[20]).unwrap(),
                temperature_celsius: signed_hex_i8(f[21]).unwrap(),
                buffer_overflow: hex_u8(f[22]).unwrap() != 0,
                buffer_fill_state_percent: hex_u8(f[23]).unwrap(),
                avg_transponder_retries: hex_u8(f[24]).unwrap(),
                avg_repeat_retries: hex_u8(f[25]).unwrap(),
            },
        )
    } else {
        None
    }
}

impl BeaconRecordFw26 {
    pub fn from_line(line: &str) -> (r: Result<Self, Error>)
        ensures
            parsed_as(r, spec_beacon_fw26(line@)),
    {
        let fields = split_fields(line, ';');
        if fields.len() != 26 {
            return Err(
                protocol_error_fields("FW2.6 beacon expected 26 fields", fields.len() as u64, line),
            );
        }
        let active_device_id = parse_hex_u16(field(&fields, 0))?;
        let loop_status = LoopStatus::from_raw(parse_hex_u8(field(&fields, 1))?);
        let mode = BeaconMode::from_raw(parse_hex_u8(field(&fields, 2))?);
        let loop_data = parse_hex_u8(field(&fields, 3))?;
        let loop_power = parse_hex_u8(field(&fields, 4))?;
        let channel_id = parse_hex_u8(field(&fields, 5))?;
        let loop_id = parse_hex_u8(field(&fields, 6))?;
        let power_connection = PowerConnection::from_raw(parse_hex_u8(field(&fields, 7))?);
        let power_status_raw = parse_hex_u8(field(&fields, 8))?;
        let beacon_index = parse_hex_u16(field(&fields, 9))?;
        let time_ticks = parse_hex_u64(field(&fields, 10))?;
        let beacon_version = parse_hex_u8(field(&fields, 11))?;
        let channel_noise_avg = parse_hex_u8(field(&fields, 12))?;
        let transponder_energy_detect = parse_hex_u8(field(&fields, 14))?;
        let beacon_energy_detect = parse_hex_u8(field(&fields, 16))?;
        let beacon_success_rate = parse_hex_u8(field(&fields, 17))?;
        let fw_version_raw = parse_hex_u8(field(&fields, 18))?;
        let box_type = BoxType::from_raw(parse_hex_u8(field(&fields, 19))?);
        let box_mode_raw = parse_hex_u8(field(&fields, 20))?;
        let temperature_celsius = parse_signed_hex_i8(field(&fields, 21))?;
        let buffer_overflow = parse_hex_u8(field(&fields, 22))? != 0;
        let buffer_fill_state_percent = parse_hex_u8(field(&fields, 23))?;
        let avg_transponder_retries = parse_hex_u8(field(&fields, 24))?;
        let avg_repeat_retries = parse_hex_u8(field(&fields, 25))?;
        Ok(
            BeaconRecordFw26 {
                active_device_id,
                loop_status,
                mode,
                loop_data,
                loop_power,
                channel_id,
                loop_id,
                power_connection,
                power_status_raw,
                beacon_index,
                time_ticks,
                beacon_version,
                channel_noise_avg,
                transponder_energy_detect,
                beacon_energy_detect,
                beacon_success_rate,
                fw_version_raw,
                box_type,
                box_mode_raw,
                temperature_celsius,
                buffer_overflow,
                buffer_fill_state_percent,
                avg_transponder_retries,
                avg_repeat_retries,
            },
        )
    }

    pub fn display_channel(&self) -> (r: u8)
        ensures
            r == crate::passing::display_id(self.channel_id),
    {
        self.channel_id.saturating_add(1)
    }

    pub fn display_loop_id(&self) -> (r: u8)
        ensures
            r == crate::passing::display_id(self.loop_id),
    {
        self.loop_id.saturating_add(1)
    }

    pub fn transponder_rssi_dbm(&self) -> (r: i16)
        ensures
            r == energy_rssi_dbm(self.transponder_energy_detect),
    {
        -90 + self.transponder_energy_detect as i16
    }

    pub fn beacon_rssi_dbm(&self) -> (r: i16)
        ensures
            r == energy_rssi_dbm(self.beacon_energy_detect),
    {
        -90 + self.beacon_energy_detect as i16
    }

    /// The power status before unit conversion (see [`PowerReading`]).
    pub fn power_reading(&self) -> (r: PowerReading)
        ensures
            r == spec_power_reading(self.power_connection, self.power_status_raw),
    {
        power_reading_of(self.power_connection, self.power_status_raw)
    }
}

/// Operating modes of the USB Timing Box (configuration parameter `05`).
#[derive(Debug, Clone, Copy, PartialEq, Eq)]
pub enum OperationMode {
    /// for testing transponders, showing total number of passings and last transponder ID on the display.
    /// CH# and Loop# are automatically set, avoiding any collisions with other r|r Active Systems.
    Kiosk,
    /// Standard Timing Mode. CH# and Loop# are selected by computer.
    Timing,
    /// Transponder will create a stored passing. V2 transponders will send a passing copy to this USB Timing Box.
    StoreAndCopy,
    /// USB Timing Box is in repeat mode. Getting passings is not possible in this mode.
    RepeatImpulse,
}

impl OperationMode {
    pub open spec fn spec_code(self) -> u8 {
        match self {
            OperationMode::Kiosk => 0x05,
            OperationMode::Timing => 0x06,
            OperationMode::StoreAndCopy => 0x07,
            OperationMode::RepeatImpulse => 0x08,
        }
    }

    /// The value that selects this mode.
    #[verifier::when_used_as_spec(spec_code)]
    pub fn code(self) -> (r: u8)
        ensures
            r == self.spec_code(),
    {
        match self {
            OperationMode::Kiosk => 0x05,
            OperationMode::Timing => 0x06,
            OperationMode::StoreAndCopy => 0x07,
            OperationMode::RepeatImpulse => 0x08,
        }
    }
}

/// Box ticks elapsed from `reference` to `ticks`, modulo 2^32.
pub open spec fn wrapping_delta_u32(ticks: u32, reference: u32) -> u32 {
    if ticks >= reference {
        (ticks - reference) as u32
    } else {
        (ticks + 0x1_0000_0000 - reference) as u32
    }
}

/// Box ticks elapsed from `reference` to `ticks`, modulo 2^64.
pub open spec fn wrapping_delta_u64(ticks: u64, reference: u64) -> u64 {
    if ticks >= reference {
        (ticks - reference) as u64
    } else {
        (ticks + 0x1_0000_0000_0000_0000 - reference) as u64
    }
}

/// Counting the delta on from the reference timestamp gives the passing timestamp back
/// (modulo 2^32), and the reference itself is zero ticks away.
pub proof fn lemma_delta_ticks_u32(ticks: u32, reference: u32)
    ensures
        (reference + wrapping_delta_u32(ticks, reference)) % 0x1_0000_0000 == ticks,
        wrapping_delta_u32(reference, reference) == 0,
{
}

/// Counting the delta on from the reference timestamp gives the passing timestamp back
/// (modulo 2^64), and the reference itself is zero ticks away.
pub proof fn lemma_delta_ticks_u64(ticks: u64, reference: u64)
    ensures
        (reference + wrapping_delta_u64(ticks, reference)) % 0x1_0000_0000_0000_0000 == ticks,
        wrapping_delta_u64(reference, reference) == 0,
{
}

/// Epoch reference pair (FW 2.5, 256 Hz timestamps).
#[derive(Debug, Clone, Copy, PartialEq, Eq)]
pub struct EpochReferenceFw25 {
    pub unix_time_seconds: u32,
    /// Reference box timestamp in 256th-second ticks (32-bit).
    pub timestamp_ticks: u32,
}

/// The epoch reference that an `EPOCHREFGET`/`EPOCHREFSET` data line denotes: its first two
/// `;`-separated fields in hexadecimal.
pub open spec fn spec_epoch_fw25(line: Seq<char>) -> Option<EpochReferenceFw25> {
    let f = split(line, ';');
    if f.len() >= 2 && hex_u32(f[0]) is Some && hex_u32(f[1]) is Some {
        Some(
            EpochReferenceFw25 {
                unix_time_seconds: hex_u32(f[0]).unwrap(),
                timestamp_ticks: hex_u32(f[1]).unwrap(),
            },
        )
    } else {
        None
    }
}

impl EpochReferenceFw25 {
    pub fn parse(line: &str) -> (r: Result<Self, Error>)
        ensures
            parsed_as(r, spec_epoch_fw25(line@)),
    {
        let fields = split_fields(line, ';');
        proof {
            crate::text::lemma_split_nonempty(line@, ';');
        }
        let unix_time_seconds = parse_hex_u32(field(&fields, 0))?;
        if fields.len() < 2 {
            return Err(protocol_error("missing timestamp ticks"));
        }
        let timestamp_ticks = parse_hex_u32(field(&fields, 1))?;
        Ok(EpochReferenceFw25 { unix_time_seconds, timestamp_ticks })
    }

    /// Ticks from the reference timestamp to a passing timestamp (wrapping), the
    /// numerator of `pass_time = ref_computer_time + delta / 256`.
    pub fn delta_ticks(&self, passing_timestamp_ticks: u32) -> (r: u32)
        ensures
            r == wrapping_delta_u32(passing_timestamp_ticks, self.timestamp_ticks),
    {
        if passing_timestamp_ticks >= self.timestamp_ticks {
            passing_timestamp_ticks - self.timestamp_ticks
        } else {
            ((passing_timestamp_ticks as u64 + 0x1_0000_0000u64) - self.timestamp_ticks as u64) as u32
        }
    }
}

/// Epoch reference pair (FW 2.6, 2048 Hz / 40-bit timestamps).
#[derive(Debug, Clone, Copy, PartialEq, Eq)]
pub struct EpochReferenceFw26 {
    pub unix_time_seconds: u32,
    /// Reference box timestamp in 2048th-second ticks (40-bit, 10 hex digits on the wire).
    pub timestamp_ticks: u64,
}

/// The FW 2.6 epoch reference that a data line denotes.
pub open spec fn spec_epoch_fw26(line: Seq<char>) -> Option<EpochReferenceFw26> {
    let f = split(line, ';');
    if f.len() >= 2 && hex_u32(f[0]) is Some && hex_u64(f[1]) is Some {
        Some(
            EpochReferenceFw26 {
                unix_time_seconds: hex_u32(f[0]).unwrap(),
                timestamp_ticks: hex_u64(f[1]).unwrap(),
            },
        )
    } else {
        None
    }
}

impl EpochReferenceFw26 {
    pub fn parse(line: &str) -> (r: Result<Self, Error>)
        ensures
            parsed_as(r, spec_epoch_fw26(line@)),
    {
        let fields = split_fields(line, ';');
        proof {
            crate::text::lemma_split_nonempty(line@, ';');
        }
        let unix_time_seconds = parse_hex_u32(field(&fields, 0))?;
        if fields.len() < 2 {
            return Err(protocol_error("missing timestamp ticks"));
        }
        let timestamp_ticks = parse_hex_u64(field(&fields, 1))?;
        Ok(EpochReferenceFw26 { unix_time_seconds, timestamp_ticks })
    }

    /// Ticks from the reference timestamp to a passing timestamp (wrapping), the
    /// numerator of `pass_time = ref_computer_time + delta / 2048`.
    pub fn delta_ticks(self, passing_timestamp_ticks: u64) -> (r: u64)
        ensures
            r == wrapping_delta_u64(passing_timestamp_ticks, self.timestamp_ticks),
    {
        if passing_timestamp_ticks >= self.timestamp_ticks {
            passing_timestamp_ticks - self.timestamp_ticks
        } else {
            (u64::MAX - self.timestamp_ticks) + passing_timestamp_ticks + 1
        }
    }
}

/// The count that a `PASSINGGET` header line announces, when the header echoes `start_index`:
/// `[StartIndex:8];[Count:2]`.
pub open spec fn spec_passing_get_header(start_index: u32, lines: Seq<Seq<char>>) -> Option<u8> {
    if lines.len() >= 1 {
        let f = split(lines[0], ';');
        if hex_u32(f[0]) == Some(start_index) && f.len() >= 2 && hex_u8(f[1]) is Some {
            hex_u8(f[1])
        } else {
            None
        }
    } else {
        None
    }
}

/// The lowest available start index that a `PASSINGGET;10` reply reports, when its single
/// data line echoes `start_index`: `[StartIndex:8];[MinStartIndex:8]`.
pub open spec fn spec_min_start_index(start_index: u32, lines: Seq<Seq<char>>) -> Option<u32> {
    if lines.len() == 1 {
        let f = split(lines[0], ';');
        if hex_u32(f[0]) == Some(start_index) && f.len() >= 2 && hex_u32(f[1]) is Some {
            hex_u32(f[1])
        } else {
            None
        }
    } else {
        None
    }
}

/// `e` reports that the command of `resp` failed, with the reply's own content.
pub open spec fn is_command_failed(e: Error, resp: CommandResponseView) -> bool {
    &&& e matches Error::CommandFailed { command, return_code, data_lines }
    &&& command@ == resp.command
    &&& return_code == resp.return_code
    &&& strings_view(data_lines@) == resp.data_lines
}

/// What a `PASSINGGET` reply with a non-zero return code means: `10` reports the lowest
/// available start index, `11` the wrong mode, and any other code a failed command.
pub open spec fn passing_get_error_outcome<F: FirmwarePassing>(
    start_index: u32,
    resp: CommandResponseView,
    r: Result<PassingGetResult<F>, Error>,
) -> bool {
    if resp.return_code == 0x10 {
        match spec_min_start_index(start_index, resp.data_lines) {
            Some(m) => r == Ok::<PassingGetResult<F>, Error>(
                PassingGetResult::StartIndexNotFound { min_start_index: m },
            ),
            None => r matches Err(e) && e is Protocol,
        }
    } else if resp.return_code == 0x11 {
        r == Ok::<PassingGetResult<F>, Error>(PassingGetResult::WrongMode)
    } else {
        r matches Err(e) && is_command_failed(e, resp)
    }
}

/// Whether a successful FW 2.5 `PASSINGGET` reply is well formed: its header echoes the
/// start index, every further line is a passing, and their number is the announced count.
pub open spec fn passing_batch_fw25_ok(start_index: u32, lines: Seq<Seq<char>>) -> bool {
    &&& spec_passing_get_header(start_index, lines) is Some
    &&& lines.len() - 1 == spec_passing_get_header(start_index, lines).unwrap()
    &&& forall|i: int| 1 <= i < lines.len() ==> spec_passing_fw25(#[trigger] lines[i]) is Some
}

/// Whether a successful FW 2.6 `PASSINGGET` reply is well formed.
pub open spec fn passing_batch_fw26_ok(start_index: u32, lines: Seq<Seq<char>>) -> bool {
    &&& spec_passing_get_header(start_index, lines) is Some
    &&& lines.len() - 1 == spec_passing_get_header(start_index, lines).unwrap()
    &&& forall|i: int| 1 <= i < lines.len() ==> spec_passing_fw26(#[trigger] lines[i]) is Some
}

/// What a FW 2.5 `PASSINGGET` reply means.
pub open spec fn passing_get_fw25_outcome(
    start_index: u32,
    resp: CommandResponseView,
    r: Result<PassingGetResult<Fw25>, Error>,
) -> bool {
    if resp.return_code == 0 {
        if passing_batch_fw25_ok(start_index, resp.data_lines) {
            &&& r matches Ok(PassingGetResult::Batch(batch))
            &&& batch.requested_start == start_index
            &&& batch.passings.len() == resp.data_lines.len() - 1
            &&& forall|i: int|
                0 <= i < batch.passings.len() ==> spec_passing_fw25(resp.data_lines[i + 1])
                    == Some((#[trigger] batch.passings[i])@)
        } else {
            r matches Err(e) && e is Protocol
        }
    } else {
        passing_get_error_outcome(start_index, resp, r)
    }
}

/// What a FW 2.6 `PASSINGGET` reply means.
pub open spec fn passing_get_fw26_outcome(
    start_index: u32,
    resp: CommandResponseView,
    r: Result<PassingGetResult<Fw26>, Error>,
) -> bool {
    if resp.return_code == 0 {
        if passing_batch_fw26_ok(start_index, resp.data_lines) {
            &&& r matches Ok(PassingGetResult::Batch(batch))
            &&& batch.requested_start == start_index
            &&& batch.passings.len() == resp.data_lines.len() - 1
            &&& forall|i: int|
                0 <= i < batch.passings.len() ==> spec_passing_fw26(resp.data_lines[i + 1])
                    == Some((#[trigger] batch.passings[i])@)
        } else {
            r matches Err(e) && e is Protocol
        }
    } else {
        passing_get_error_outcome(start_index, resp, r)
    }
}

/// Reads the header line of a `PASSINGGET` reply and returns the announced count.
pub fn parse_passing_get_header(start_index: u32, response: &CommandResponse) -> (r: Result<
    u8,
    Error,
>)
    ensures
        parsed_as(r, spec_passing_get_header(start_index, response@.data_lines)),
{
    if response.data_lines.len() == 0 {
        return Err(protocol_error("PASSINGGET missing header line"));
    }
    let header = response.data_lines[0].as_str();
    proof {
        assert(strings_view(response.data_lines@)[0] == response.data_lines@[0]@);
    }
    let parts = split_fields(header, ';');
    proof {
        crate::text::lemma_split_nonempty(header@, ';');
    }
    let echoed_start = parse_hex_u32(field(&parts, 0))?;
    if echoed_start != start_index {
        return Err(
            protocol_error_mismatch(
                "PASSINGGET echoed start mismatch",
                echoed_start as u64,
                "requested",
                start_index as u64,
            ),
        );
    }
    if parts.len() < 2 {
        return Err(protocol_error("PASSINGGET missing count"));
    }
    parse_hex_u8(field(&parts, 1))
}

/// Interprets a `PASSINGGET` reply whose return code is not `00`.
pub fn passing_get_error<F: FirmwarePassing>(start_index: u32, response: CommandResponse) -> (r:
    Result<PassingGetResult<F>, Error>)
    ensures
        response.return_code != 0 ==> passing_get_error_outcome(start_index, response@, r),
        response.return_code == 0 ==> (r matches Err(e) && is_command_failed(e, response@)),
{
    if response.return_code == 0x10 {
        let line = match response.single_data_line() {
            Some(line) => line,
            None => {
                return Err(protocol_error("PASSINGGET;10 missing data line"));
            },
        };
        let parts = split_fields(line, ';');
        proof {
            crate::text::lemma_split_nonempty(line@, ';');
        }
        let echoed_start = parse_hex_u32(field(&parts, 0))?;
        if echoed_start != start_index {
            return Err(
                protocol_error_mismatch(
                    "PASSINGGET;10 echoed start mismatch",
                    echoed_start as u64,
                    "requested",
                    start_index as u64,
                ),
            );
        }
        if parts.len() < 2 {
            return Err(protocol_error("PASSINGGET;10 missing min start"));
        }
        let min_start_index = parse_hex_u32(field(&parts, 1))?;
        Ok(PassingGetResult::StartIndexNotFound { min_start_index })
    } else if response.return_code == 0x11 {
        Ok(PassingGetResult::WrongMode)
    } else {
        let return_code = response.return_code;
        Err(
            Error::CommandFailed {
                command: response.command,
                return_code,
                data_lines: response.data_lines,
            },
        )
    }
}

/// Interprets a FW 2.5 `PASSINGGET` reply.
pub fn passing_get_from_response_fw25(start_index: u32, response: CommandResponse) -> (r: Result<
    PassingGetResult<Fw25>,
    Error,
>)
    ensures
        passing_get_fw25_outcome(start_index, response@, r),
{
    if response.return_code != 0 {
        return passing_get_error(start_index, response);
    }
    let ghost lines = response@.data_lines;
    let count = parse_passing_get_header(start_index, &response)?;
    let n = response.data_lines.len();
    let mut passings: Vec<PassingFw25> = Vec::new();
    let mut i: usize = 1;
    while i < n
        invariant
            1 <= i <= n,
            n == lines.len(),
            lines == strings_view(response.data_lines@),
            response.return_code == 0,
            passings.len() == i - 1,
            forall|j: int| 1 <= j < i ==> spec_passing_fw25(#[trigger] lines[j]) is Some,
            forall|j: int|
                0 <= j < passings.len() ==> spec_passing_fw25(lines[j + 1]) == Some(
                    (#[trigger] passings[j])@,
                ),
        decreases n - i,
    {
        proof {
            assert(lines[i as int] == response.data_lines@[i as int]@);
        }
        let passing = match PassingFw25::from_line(response.data_lines[i].as_str()) {
            Ok(p) => p,
            Err(e) => {
                proof {
                    assert(spec_passing_fw25(lines[i as int]) is None);
                    assert(!passing_batch_fw25_ok(start_index, lines));
                }
                return Err(e);
            },
        };
        passings.push(passing);
        i = i + 1;
    }
    if passings.len() != count as usize {
        return Err(
            protocol_error_mismatch(
                "PASSINGGET count mismatch",
                count as u64,
                "records",
                passings.len() as u64,
            ),
        );
    }
    Ok(PassingGetResult::Batch(PassingBatch { requested_start: start_index, passings }))
}

/// Interprets a FW 2.6 `PASSINGGET` reply.
pub fn passing_get_from_response_fw26(start_index: u32, response: CommandResponse) -> (r: Result<
    PassingGetResult<Fw26>,
    Error,
>)
    ensures
        passing_get_fw26_outcome(start_index, response@, r),
{
    if response.return_code != 0 {
        return passing_get_error(start_index, response);
    }
    let ghost lines = response@.data_lines;
    let count = parse_passing_get_header(start_index, &response)?;
    let n = response.data_lines.len();
    let mut passings: Vec<PassingFw26> = Vec::new();
    let mut i: usize = 1;
    while i < n
        invariant
            1 <= i <= n,
            n == lines.len(),
            lines == strings_view(response.data_lines@),
            response.return_code == 0,
            passings.len() == i - 1,
            forall|j: int| 1 <= j < i ==> spec_passing_fw26(#[trigger] lines[j]) is Some,
            forall|j: int|
                0 <= j < passings.len() ==> spec_passing_fw26(lines[j + 1]) == Some(
                    (#[trigger] passings[j])@,
                ),
        decreases n - i,
    {
        proof {
            assert(lines[i as int] == response.data_lines@[i as int]@);
        }
        let passing = match PassingFw26::from_line(response.data_lines[i].as_str()) {
            Ok(p) => p,
            Err(e) => {
                proof {
                    assert(spec_passing_fw26(lines[i as int]) is None);
                    assert(!passing_batch_fw26_ok(start_index, lines));
                }
                return Err(e);
            },
        };
        passings.push(passing);
        i = i + 1;
    }
    if passings.len() != count as usize {
        return Err(
            protocol_error_mismatch(
                "PASSINGGET count mismatch",
                count as u64,
                "records",
                passings.len() as u64,
            ),
        );
    }
    Ok(PassingGetResult::Batch(PassingBatch { requested_start: start_index, passings }))
}

/// The loop status codes of a beacon: `00` ok, `01` fault, `02` limit, `04` over-voltage;
/// any other code is kept as unknown.
pub proof fn lemma_loop_status_codes(raw: u8)
    ensures
        LoopStatus::spec_from_raw(0x00) == LoopStatus::LoopOk,
        LoopStatus::spec_from_raw(0x01) == LoopStatus::Fault,
        LoopStatus::spec_from_raw(0x02) == LoopStatus::Limit,
        LoopStatus::spec_from_raw(0x04) == LoopStatus::OverVoltage,
        raw != 0x00 && raw != 0x01 && raw != 0x02 && raw != 0x04 ==> LoopStatus::spec_from_raw(raw)
            == LoopStatus::Unknown(raw),
{
}

/// The beacon mode codes: `00` timing, `02` store, `03` repeat, `04` repeat impulse,
/// `10` no timing device, `21` tracking start, `22` tracking stop; any other is unknown.
pub proof fn lemma_beacon_mode_codes(raw: u8)
    ensures
        BeaconMode::spec_from_raw(0x00) == BeaconMode::TimingMode,
        BeaconMode::spec_from_raw(0x02) == BeaconMode::StoreMode,
        BeaconMode::spec_from_raw(0x03) == BeaconMode::RepeatMode,
        BeaconMode::spec_from_raw(0x04) == BeaconMode::RepeatImpulseMode,
        BeaconMode::spec_from_raw(0x10) == BeaconMode::NoTimingDevice,
        BeaconMode::spec_from_raw(0x21) == BeaconMode::TrackingStart,
        BeaconMode::spec_from_raw(0x22) == BeaconMode::TrackingStop,
        raw != 0x00 && raw != 0x02 && raw != 0x03 && raw != 0x04 && raw != 0x10 && raw != 0x21
            && raw != 0x22 ==> BeaconMode::spec_from_raw(raw) == BeaconMode::Unknown(raw),
{
}

/// The power connection codes: `00` 12 V, `01` USB, `02` battery; any other is unknown.
pub proof fn lemma_power_connection_codes(raw: u8)
    ensures
        PowerConnection::spec_from_raw(0x00) == PowerConnection::Power12V,
        PowerConnection::spec_from_raw(0x01) == PowerConnection::Usb,
        PowerConnection::spec_from_raw(0x02) == PowerConnection::Battery,
        raw > 0x02 ==> PowerConnection::spec_from_raw(raw) == PowerConnection::Unknown(raw),
{
}

/// The device type codes: `0A` active extension, `14` loop box, `1E` management box,
/// `28` USB Timing Box, `50` Ubidium; any other is unknown.
pub proof fn lemma_box_type_codes(raw: u8)
    ensures
        BoxType::spec_from_raw(0x0a) == BoxType::ActiveExtension,
        BoxType::spec_from_raw(0x14) == BoxType::LoopBox,
        BoxType::spec_from_raw(0x1e) == BoxType::ManagementBox,
        BoxType::spec_from_raw(0x28) == BoxType::UsbTimingBox,
        BoxType::spec_from_raw(0x50) == BoxType::Ubidium,
        raw != 0x0a && raw != 0x14 && raw != 0x1e && raw != 0x28 && raw != 0x50
            ==> BoxType::spec_from_raw(raw) == BoxType::Unknown(raw),
{
}

/// The battery state codes: `00` fault, `01` charging, `02` reduced charging,
/// `03` discharging; any other is unknown.
pub proof fn lemma_battery_state_codes(raw: u8)
    ensures
        BatteryState::spec_from_raw(0x00) == BatteryState::Fault,
        BatteryState::spec_from_raw(0x01) == BatteryState::Charging,
        BatteryState::spec_from_raw(0x02) == BatteryState::ReducedCharging,
        BatteryState::spec_from_raw(0x03) == BatteryState::Discharging,
        raw > 0x03 ==> BatteryState::spec_from_raw(raw) == BatteryState::Unknown(raw),
{
}

/// The operation modes select the documented values `05` kiosk, `06` timing,
/// `07` store & copy and `08` repeat impulse, in that order.
pub proof fn lemma_operation_mode_codes()
    ensures
        OperationMode::Kiosk.spec_code() == 0x05,
        OperationMode::Timing.spec_code() == 0x06,
        OperationMode::StoreAndCopy.spec_code() == 0x07,
        OperationMode::RepeatImpulse.spec_code() == 0x08,
{
}

/// On battery a beacon's power status counts hours left; on any other connection it is
/// the voltage in tenths of a volt.
pub proof fn lemma_power_reading(connection: PowerConnection, raw: u8)
    ensures
        connection == PowerConnection::Battery ==> spec_power_reading(connection, raw)
            == PowerReading::BatteryHours(raw),
        connection != PowerConnection::Battery ==> spec_power_reading(connection, raw)
            == PowerReading::VoltageTenths(raw),
{
}

/// Each value of a `PASSINGINFOGET` line is the hexadecimal number in its own field:
/// count in field 0, first index 1, first timestamp 2, last index 3, last timestamp 4.
pub proof fn lemma_passing_info_fields(line: Seq<char>, info: PassingInfo)
    requires
        spec_passing_info(line) == Some(info),
    ensures
        split(line, ';').len() >= 5,
        hex_u16(split(line, ';')[0]) == Some(info.count),
        hex_u32(split(line, ';')[1]) == Some(info.start_id),
        hex_u32(split(line, ';')[2]) == Some(info.start_timestamp),
        hex_u32(split(line, ';')[3]) == Some(info.last_id),
        hex_u32(split(line, ';')[4]) == Some(info.last_timestamp),
{
}

/// Each value of a FW 2.5 beacon line is the hexadecimal number in its own field
/// (0-based, `;`-separated).
pub proof fn lemma_beacon_fw25_fields(line: Seq<char>, b: BeaconRecordFw25)
    requires
        spec_beacon_fw25(line) == Some(b),
    ensures
        split(line, ';').len() == 17,
        hex_u16(split(line, ';')[0]) == Some(b.active_device_id),
        hex_u8(split(line, ';')[1]) matches Some(raw) && b.loop_status
            == LoopStatus::spec_from_raw(raw),
        hex_u8(split(line, ';')[2]) matches Some(raw) && b.mode == BeaconMode::spec_from_raw(raw),
        hex_u8(split(line, ';')[3]) == Some(b.loop_data),
        hex_u8(split(line, ';')[4]) == Some(b.loop_power),
        hex_u8(split(line, ';')[5]) == Some(b.channel_id),
        hex_u8(split(line, ';')[6]) == Some(b.loop_id),
        hex_u8(split(line, ';')[7]) matches Some(raw) && b.power_connection
            == PowerConnection::spec_from_raw(raw),
        hex_u8(split(line, ';')[8]) == Some(b.power_status_raw),
        hex_u16(split(line, ';')[9]) == Some(b.beacon_index),
        hex_u32(split(line, ';')[10]) == Some(b.time_ticks),
        hex_u8(split(line, ';')[12]) == Some(b.channel_noise_avg),
        hex_u8(split(line, ';')[14]) == Some(b.transponder_energy_detect),
        hex_u8(split(line, ';')[16]) == Some(b.beacon_energy_detect),
{
}

/// Each value of a FW 2.6 beacon line is the number in its own field (0-based,
/// `;`-separated): hexadecimal, but for the signed temperature in field 21 and the
/// overflow flag in field 22, which is set when that field is not zero.
pub proof fn lemma_beacon_fw26_fields(line: Seq<char>, b: BeaconRecordFw26)
    requires
        spec_beacon_fw26(line) == Some(b),
    ensures
        split(line, ';').len() == 26,
        hex_u16(split(line, ';')[0]) == Some(b.active_device_id),
        hex_u8(split(line, ';')[1]) matches Some(raw) && b.loop_status
            == LoopStatus::spec_from_raw(raw),
        hex_u8(split(line, ';')[2]) matches Some(raw) && b.mode == BeaconMode::spec_from_raw(raw),
        hex_u8(split(line, ';')[3]) == Some(b.loop_data),
        hex_u8(split(line, ';')[4]) == Some(b.loop_power),
        hex_u8(split(line, ';')[5]) == Some(b.channel_id),
        hex_u8(split(line, ';')[6]) == Some(b.loop_id),
        hex_u8(split(line, ';')[7]) matches Some(raw) && b.power_connection
            == PowerConnection::spec_from_raw(raw),
        hex_u8(split(line, ';')[8]) == Some(b.power_status_raw),
        hex_u16(split(line, ';')[9]) == Some(b.beacon_index),
        hex_u64(split(line, ';')[10]) == Some(b.time_ticks),
        hex_u8(split(line, ';')[11]) == Some(b.beacon_version),
        hex_u8(split(line, ';')[12]) == Some(b.channel_noise_avg),
        hex_u8(split(line, ';')[14]) == Some(b.transponder_energy_detect),
        hex_u8(split(line, ';')[16]) == Some(b.beacon_energy_detect),
        hex_u8(split(line, ';')[17]) == Some(b.beacon_success_rate),
        hex_u8(split(line, ';')[18]) == Some(b.fw_version_raw),
        hex_u8(split(line, ';')[19]) matches Some(raw) && b.box_type == BoxType::spec_from_raw(raw),
        hex_u8(split(line, ';')[20]) == Some(b.box_mode_raw),
        signed_hex_i8(split(line, ';')[21]) == Some(b.temperature_celsius),
        hex_u8(split(line, ';')[22]) matches Some(n) && b.buffer_overflow == (n != 0),
        hex_u8(split(line, ';')[23]) == Some(b.buffer_fill_state_percent),
        hex_u8(split(line, ';')[24]) == Some(b.avg_transponder_retries),
        hex_u8(split(line, ';')[25]) == Some(b.avg_repeat_retries),
{
}

/// An epoch reference line carries the UNIX seconds in its first field and the box
/// timestamp in its second, both hexadecimal.
pub proof fn lemma_epoch_fields(line: Seq<char>)
    ensures
        spec_epoch_fw25(line) matches Some(e) ==> hex_u32(split(line, ';')[0]) == Some(
            e.unix_time_seconds,
        ) && hex_u32(split(line, ';')[1]) == Some(e.timestamp_ticks),
        spec_epoch_fw26(line) matches Some(e) ==> hex_u32(split(line, ';')[0]) == Some(
            e.unix_time_seconds,
        ) && hex_u64(split(line, ';')[1]) == Some(e.timestamp_ticks),
{
}

/// A `PASSINGGET` header that is accepted echoes the requested start index in its first
/// field and announces the count in its second.
pub proof fn lemma_passing_get_header_fields(start_index: u32, lines: Seq<Seq<char>>, count: u8)
    requires
        spec_passing_get_header(start_index, lines) == Some(count),
    ensures
        lines.len() >= 1,
        hex_u32(split(lines[0], ';')[0]) == Some(start_index),
        hex_u8(split(lines[0], ';')[1]) == Some(count),
{
}

/// A `PASSINGGET` reply that did not deliver passings means the same for both firmware
/// formats: with return code `10` and a line that echoes the start index, the lowest
/// available index is the hexadecimal number in the line's second field; with `11` the box
/// is in the wrong mode; with any other code the command failed, with the reply's content.
pub proof fn lemma_passing_get_without_batch(
    start_index: u32,
    resp: CommandResponseView,
    r25: Result<PassingGetResult<Fw25>, Error>,
    r26: Result<PassingGetResult<Fw26>, Error>,
)
    requires
        resp.return_code != 0,
        passing_get_fw25_outcome(start_index, resp, r25),
        passing_get_fw26_outcome(start_index, resp, r26),
    ensures
        resp.return_code == 0x10 && resp.data_lines.len() == 1 && hex_u32(
            split(resp.data_lines[0], ';')[0],
        ) == Some(start_index) && split(resp.data_lines[0], ';').len() >= 2 ==> match hex_u32(
            split(resp.data_lines[0], ';')[1],
        ) {
            Some(m) => {
                &&& r25 == Ok::<PassingGetResult<Fw25>, Error>(
                    PassingGetResult::StartIndexNotFound { min_start_index: m },
                )
                &&& r26 == Ok::<PassingGetResult<Fw26>, Error>(
                    PassingGetResult::StartIndexNotFound { min_start_index: m },
                )
            },
            None => r25 is Err && r26 is Err,
        },
        resp.return_code == 0x11 ==> r25 == Ok::<PassingGetResult<Fw25>, Error>(
            PassingGetResult::WrongMode,
        ) && r26 == Ok::<PassingGetResult<Fw26>, Error>(PassingGetResult::WrongMode),
        resp.return_code != 0x10 && resp.return_code != 0x11 ==> (r25 matches Err(
            Error::CommandFailed { command, return_code, data_lines },
        ) && command@ == resp.command && return_code == resp.return_code && strings_view(
            data_lines@,
        ) == resp.data_lines) && (r26 matches Err(
            Error::CommandFailed { command, return_code, data_lines },
        ) && command@ == resp.command && return_code == resp.return_code && strings_view(
            data_lines@,
        ) == resp.data_lines),
{
}

} // verus!
