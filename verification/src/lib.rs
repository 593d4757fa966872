//! Host-side logic for the race result USB Timing Box ASCII protocol: the command lines
//! a client sends, and the meaning of every reply, record and value the box sends back.
//!
//! The box speaks lines of `;`-separated fields. Numbers are hexadecimal, texts are
//! taken as they stand. Firmware 2.5 and 2.6 differ in their passing and beacon
//! records; [`Fw25`] and [`Fw26`] name the two formats.
use vstd::prelude::*;

pub mod commands;
pub mod config_parameter;
pub mod error;
pub mod firmware;
pub mod info_parameter;
pub mod passing;
pub mod text;
pub mod usb_timing_box;
pub mod utils;

pub use commands::{
    BatteryState, BeaconMode, BeaconRecordFw25, BeaconRecordFw26, BoxType, CommandResponse,
    EpochReferenceFw25, EpochReferenceFw26, LoopStatus, OperationMode, PassingGetResult,
    PassingInfo, PowerConnection, PowerReading,
};
pub use config_parameter::ConfigParameter;
pub use error::Error;
pub use firmware::{Fw25, Fw26, FW25_TICKS_PER_SECOND, FW26_TICKS_PER_SECOND};
pub use info_parameter::InfoParameter;
pub use passing::{PassingBatch, PassingFw25, PassingFw26, StrengthCombined};
pub use usb_timing_box::{ReplyReader, UsbTimingBoxBuilder};

verus! {

/// The serial line speed the box uses unless told otherwise.
pub const DEFAULT_BAUD_RATE: u32 = 19_200;

} // verus!
