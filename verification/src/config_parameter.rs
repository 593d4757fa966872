//! `CONFGET`/`CONFSET` parameter ids.
use vstd::prelude::*;

verus! {

#[derive(Debug, Clone, Copy, PartialEq, Eq)]
pub enum ConfigParameter {
    /// Push pre-warn messages prior to real passing (non persistent).
    ///
    /// Allowed values:
    /// - `00` = disabled (default)
    /// - `01` = enabled
    PushPrewarn,

    /// Blink LED on reception of a repeated passing (non persistent).
    ///
    /// Allowed values:
    /// - `00` = disabled
    /// - `01` = enabled (default)
    BlinkOnRepeatedPassing,

    /// Use the headphone jack as impulse input to generate a fake passing.
    ///
    /// Allowed values:
    /// - `00` = impulse-in
    /// - `01` = beep-out (default)
    ImpulseInputOrBeepOutput,

    /// Switch off the box on power loss. Can be used if timing is finished and you want the USB Timing Box to shut down with the computer
    /// (non persistent).
    ///
    /// Allowed values:
    /// - `00` = disabled (default)
    /// - `01` = enabled
    AutoShutdownOnPowerLoss,

    /// See [`crate::commands::OperationMode`]
    ///
    /// Allowed values:
    /// - `05` = usb-kiosk
    /// - `06` = usb-timing (default)
    /// - `07` = usb-store&copy
    /// - `08` = usb-repeat-impulse
    OperationMode,

    /// CH# used for wireless communication. Please note that the channels on the display are shown with an offset of +1, from 1-8.
    ///
    /// Allowed values: `00..=07` (displayed as `1..=8`)
    ChannelId,

    /// Loop# of the wire loop. Please note that the IDs on the display are shown with an offset of +1, from 1-8.
    ///
    /// Allowed values: `00..=07` (displayed as `1..=8`)
    LoopId,

    /// Sets the power of the loop, from 0:off to 100:full (hex 64) power.
    ///
    /// Allowed values: `00..=64`
    LoopPower,

    /// Leave set to 15 (hex 0F), don't change!
    ///
    /// Allowed values: `02..=FF` (default `0F`)
    BlinkDeadTime,

    /// If the timing computer itself is running on battery, it might not be good idea to charge the USB Timing Box.
    ///
    /// Allowed values:
    /// - `00` = disabled
    /// - `01` = enabled (default)
    UsbCharging,

    /// The DTR line is used for improved timing accuracy, see Timebase Control section.
    ///
    /// Allowed values:
    /// - `00` = disabled
    /// - `01` = enabled (default)
    UseDtr,

    /// Sets the power of the loop, from 0:off to 100:full (hex 64) power.
    ///
    /// Allowed values: `01..=64` (default `0F`)
    TrayScanPower,

    /// Time span for which a single row or column is powered.
    ///
    /// Allowed values: `01..=FF` in ticks (1/256th) (default `50`)
    TrayScanInterval,

    /// Time to ramp up loop power, before first scan
    ///
    /// Allowed values: `01..=FF` in ticks (1/256th) (default `E0`)
    TrayScanRampUpDelay,

    /// Rows are scanned with scan interval first, then there is a delay, then columns are scanned with scan interval.
    ///
    /// Allowed values: `01..=FF` in ticks (1/256th) (default `E0`)
    TrayScanRowColumnDelay,

    /// Cycle thru rows 1 + N times.
    /// Cycle thru column 1 + N times.
    ///
    /// Allowed values: `01..=0A` (default `00`)
    TrayScanRepeatCycles,
    /// Enable CheckSum for all ASCII Protocol communication (see here)
    /// Only applies to FW 2.5.22868 and up.
    ///
    /// Allowed values: `0..=1` (default `0`)
    EnableChecksum,

    /// Push Passings enable. Only applies to FW 2.6 and up.
    /// Values of 1 and 255 lead to endless pushing of passings
    /// Values > 1 and <= 254 tell the box to push exactly this number of passings. You need to refresh this value again if you want to receive the next passings.
    ///
    /// Allowed values (default `0`):
    /// - `00` = disabled
    /// - `01` or `FF` (255) = push passings endlessly
    /// - `02..=FE` (2..254) = push exactly this many passings
    PushPassings,

    /// Enable FW Version 2.6 data reporting format (Signed Temperature, New Beacons Info, Timestamps with 2048th and dayadj)
    /// 0 - 1 (default 0)
    EnableFw26DataFormat,

    /// Enable Status Push Message every second:
    /// `#S;[TickCount:8];[MainLoopCycles:4];[LoopStatus:2];[MeasuredLoopPower:2];[ChannelNoise:2];[BattPercent:2]\n\n`
    /// #S;015405f2;11f7;00;2c;01;3b\n\n
    ///
    /// Allowed values: `0..=1` (default `0`)
    EnableStatusPush,
}

impl ConfigParameter {
    pub open spec fn spec_id(self) -> u8 {
        match self {
            ConfigParameter::PushPrewarn => 0x01,
            ConfigParameter::BlinkOnRepeatedPassing => 0x02,
            ConfigParameter::ImpulseInputOrBeepOutput => 0x03,
            ConfigParameter::AutoShutdownOnPowerLoss => 0x04,
            ConfigParameter::OperationMode => 0x05,
            ConfigParameter::ChannelId => 0x06,
            ConfigParameter::LoopId => 0x07,
            ConfigParameter::LoopPower => 0x08,
            ConfigParameter::BlinkDeadTime => 0x09,
            ConfigParameter::UsbCharging => 0x0a,
            ConfigParameter::UseDtr => 0x0b,
            ConfigParameter::TrayScanPower => 0xa0,
            ConfigParameter::TrayScanInterval => 0xa1,
            ConfigParameter::TrayScanRampUpDelay => 0xa2,
            ConfigParameter::TrayScanRowColumnDelay => 0xa3,
            ConfigParameter::TrayScanRepeatCycles => 0xa4,
            ConfigParameter::EnableChecksum => 0xb1,
            ConfigParameter::PushPassings => 0xb2,
            ConfigParameter::EnableFw26DataFormat => 0xb3,
            ConfigParameter::EnableStatusPush => 0xb4,
        }
    }

    /// The parameter's id on the wire.
    #[verifier::when_used_as_spec(spec_id)]
    pub fn id(self) -> (r: u8)
        ensures
            r == self.spec_id(),
    {
        match self {
            ConfigParameter::PushPrewarn => 0x01,
            ConfigParameter::BlinkOnRepeatedPassing => 0x02,
            ConfigParameter::ImpulseInputOrBeepOutput => 0x03,
            ConfigParameter::AutoShutdownOnPowerLoss => 0x04,
            ConfigParameter::OperationMode => 0x05,
            ConfigParameter::ChannelId => 0x06,
            ConfigParameter::LoopId => 0x07,
            ConfigParameter::LoopPower => 0x08,
            ConfigParameter::BlinkDeadTime => 0x09,
            ConfigParameter::UsbCharging => 0x0a,
            ConfigParameter::UseDtr => 0x0b,
            ConfigParameter::TrayScanPower => 0xa0,
            ConfigParameter::TrayScanInterval => 0xa1,
            ConfigParameter::TrayScanRampUpDelay => 0xa2,
            ConfigParameter::TrayScanRowColumnDelay => 0xa3,
            ConfigParameter::TrayScanRepeatCycles => 0xa4,
            ConfigParameter::EnableChecksum => 0xb1,
            ConfigParameter::PushPassings => 0xb2,
            ConfigParameter::EnableFw26DataFormat => 0xb3,
            ConfigParameter::EnableStatusPush => 0xb4,
        }
    }
}

/// Every configuration parameter is addressed by its documented `CONFGET`/`CONFSET`
/// number.
pub proof fn lemma_config_parameter_ids()
    ensures
        ConfigParameter::PushPrewarn.spec_id() == 0x01,
        ConfigParameter::BlinkOnRepeatedPassing.spec_id() == 0x02,
        ConfigParameter::ImpulseInputOrBeepOutput.spec_id() == 0x03,
        ConfigParameter::AutoShutdownOnPowerLoss.spec_id() == 0x04,
        ConfigParameter::OperationMode.spec_id() == 0x05,
        ConfigParameter::ChannelId.spec_id() == 0x06,
        ConfigParameter::LoopId.spec_id() == 0x07,
        ConfigParameter::LoopPower.spec_id() == 0x08,
        ConfigParameter::BlinkDeadTime.spec_id() == 0x09,
        ConfigParameter::UsbCharging.spec_id() == 0x0a,
        ConfigParameter::UseDtr.spec_id() == 0x0b,
        ConfigParameter::TrayScanPower.spec_id() == 0xa0,
        ConfigParameter::TrayScanInterval.spec_id() == 0xa1,
        ConfigParameter::TrayScanRampUpDelay.spec_id() == 0xa2,
        ConfigParameter::TrayScanRowColumnDelay.spec_id() == 0xa3,
        ConfigParameter::TrayScanRepeatCycles.spec_id() == 0xa4,
        ConfigParameter::EnableChecksum.spec_id() == 0xb1,
        ConfigParameter::PushPassings.spec_id() == 0xb2,
        ConfigParameter::EnableFw26DataFormat.spec_id() == 0xb3,
        ConfigParameter::EnableStatusPush.spec_id() == 0xb4,
{
}

/// The parameter numbers grow in the documented order of the parameters, so no two
/// parameters share a number.
pub proof fn lemma_config_parameter_ids_ordered()
    ensures
        ConfigParameter::PushPrewarn.spec_id() < ConfigParameter::BlinkOnRepeatedPassing.spec_id(),
        ConfigParameter::BlinkOnRepeatedPassing.spec_id() < ConfigParameter::ImpulseInputOrBeepOutput.spec_id(),
        ConfigParameter::ImpulseInputOrBeepOutput.spec_id() < ConfigParameter::AutoShutdownOnPowerLoss.spec_id(),
        ConfigParameter::AutoShutdownOnPowerLoss.spec_id() < ConfigParameter::OperationMode.spec_id(),
        ConfigParameter::OperationMode.spec_id() < ConfigParameter::ChannelId.spec_id(),
        ConfigParameter::ChannelId.spec_id() < ConfigParameter::LoopId.spec_id(),
        ConfigParameter::LoopId.spec_id() < ConfigParameter::LoopPower.spec_id(),
        ConfigParameter::LoopPower.spec_id() < ConfigParameter::BlinkDeadTime.spec_id(),
        ConfigParameter::BlinkDeadTime.spec_id() < ConfigParameter::UsbCharging.spec_id(),
        ConfigParameter::UsbCharging.spec_id() < ConfigParameter::UseDtr.spec_id(),
        ConfigParameter::UseDtr.spec_id() < ConfigParameter::TrayScanPower.spec_id(),
        ConfigParameter::TrayScanPower.spec_id() < ConfigParameter::TrayScanInterval.spec_id(),
        ConfigParameter::TrayScanInterval.spec_id() < ConfigParameter::TrayScanRampUpDelay.spec_id(),
        ConfigParameter::TrayScanRampUpDelay.spec_id() < ConfigParameter::TrayScanRowColumnDelay.spec_id(),
        ConfigParameter::TrayScanRowColumnDelay.spec_id() < ConfigParameter::TrayScanRepeatCycles.spec_id(),
        ConfigParameter::TrayScanRepeatCycles.spec_id() < ConfigParameter::EnableChecksum.spec_id(),
        ConfigParameter::EnableChecksum.spec_id() < ConfigParameter::PushPassings.spec_id(),
        ConfigParameter::PushPassings.spec_id() < ConfigParameter::EnableFw26DataFormat.spec_id(),
        ConfigParameter::EnableFw26DataFormat.spec_id() < ConfigParameter::EnableStatusPush.spec_id(),
{
}

} // verus!
