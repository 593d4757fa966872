use usb_timing_box_rs::commands::BoxType;
use usb_timing_box_rs::info_parameter::{
    parse_battery_level_percent, parse_battery_state, parse_box_type, parse_decoder_id,
    parse_internal_temperature_fw25, parse_internal_temperature_fw26, parse_loop_status,
    parse_measured_loop_power_percent, parse_noise_status, InfoParameter,
};
use usb_timing_box_rs::utils::{
    hex2, hex8, parse_hex_u16, parse_hex_u32, parse_hex_u64, parse_hex_u8, parse_signed_hex_i8,
    unix_time_from_secs, unix_time_now,
};
use usb_timing_box_rs::{BatteryState, ConfigParameter, LoopStatus};

#[test]
fn parse_info_decoder_id_doc_example() {
    assert_eq!(parse_decoder_id("1387").unwrap(), 0x1387);
}

#[test]
fn parse_info_box_type_usb_timing_box() {
    assert_eq!(parse_box_type("28").unwrap(), BoxType::UsbTimingBox);
}

#[test]
fn parse_info_battery_level_doc_example() {
    assert_eq!(parse_battery_level_percent("4e").unwrap(), 78);
}

#[test]
fn info_value_ranges() {
    assert_eq!(parse_battery_level_percent("64").unwrap(), 100);
    assert!(parse_battery_level_percent("65").is_err());
    assert_eq!(parse_internal_temperature_fw25("64").unwrap(), 100);
    assert!(parse_internal_temperature_fw25("65").is_err());
    assert_eq!(parse_internal_temperature_fw26("-0a").unwrap(), -10);
    assert_eq!(parse_measured_loop_power_percent("64").unwrap(), 0x64);
    assert!(parse_measured_loop_power_percent("65").is_err());
    assert_eq!(parse_noise_status("0a").unwrap(), 10);
    assert!(parse_noise_status("0b").is_err());
    assert_eq!(parse_battery_state("1").unwrap(), BatteryState::Charging);
    assert_eq!(parse_loop_status("04").unwrap(), LoopStatus::OverVoltage);
    assert!(parse_box_type("x").is_err());
}

#[test]
fn parameter_ids() {
    assert_eq!(ConfigParameter::PushPrewarn.id(), 0x01);
    assert_eq!(ConfigParameter::OperationMode.id(), 0x05);
    assert_eq!(ConfigParameter::ChannelId.id(), 0x06);
    assert_eq!(ConfigParameter::LoopId.id(), 0x07);
    assert_eq!(ConfigParameter::LoopPower.id(), 0x08);
    assert_eq!(ConfigParameter::TrayScanPower.id(), 0xa0);
    assert_eq!(ConfigParameter::EnableFw26DataFormat.id(), 0xb3);
    assert_eq!(ConfigParameter::EnableStatusPush.id(), 0xb4);
    assert_eq!(InfoParameter::DecoderId.id(), 0x01);
    assert_eq!(InfoParameter::BatteryState.id(), 0x07);
    assert_eq!(InfoParameter::SupplyVoltage.id(), 0x0a);
    assert_eq!(InfoParameter::NoiseStatus.id(), 0x0e);
}

#[test]
fn hex_parsing_accepts_what_from_str_radix_accepts() {
    assert_eq!(parse_hex_u8("ff").unwrap(), 255);
    assert_eq!(parse_hex_u8("FF").unwrap(), 255);
    assert_eq!(parse_hex_u8(" 0a\t").unwrap(), 10);
    assert_eq!(parse_hex_u8("+1").unwrap(), 1);
    assert_eq!(parse_hex_u8("0000000ff").unwrap(), 255);
    assert_eq!(parse_hex_u16("a153").unwrap(), 0xa153);
    assert_eq!(parse_hex_u32("093a9eb4").unwrap(), 0x093a_9eb4);
    assert_eq!(parse_hex_u64("ffffffffffffffff").unwrap(), u64::MAX);
    assert_eq!(parse_hex_u64("\u{3000}10\u{a0}").unwrap(), 16);
}

#[test]
fn hex_parsing_rejects_what_from_str_radix_rejects() {
    assert!(parse_hex_u8("").is_err());
    assert!(parse_hex_u8("   ").is_err());
    assert!(parse_hex_u8("+").is_err());
    assert!(parse_hex_u8("-1").is_err());
    assert!(parse_hex_u8("100").is_err());
    assert!(parse_hex_u8("g").is_err());
    assert!(parse_hex_u8("1 2").is_err());
    assert!(parse_hex_u8("++1").is_err());
    assert!(parse_hex_u16("10000").is_err());
    assert!(parse_hex_u32("100000000").is_err());
    assert!(parse_hex_u64("10000000000000000").is_err());
    assert!(matches!(parse_hex_u8("x"), Err(usb_timing_box_rs::Error::Protocol(_))));
}

#[test]
fn signed_hex_parsing() {
    assert_eq!(parse_signed_hex_i8("+15").unwrap(), 0x15);
    assert_eq!(parse_signed_hex_i8("+1a").unwrap(), 0x1a);
    assert_eq!(parse_signed_hex_i8("1a").unwrap(), 0x1a);
    assert_eq!(parse_signed_hex_i8(" -05 ").unwrap(), -5);
    assert_eq!(parse_signed_hex_i8("-80").unwrap(), -128);
    assert_eq!(parse_signed_hex_i8("7f").unwrap(), 127);
    assert_eq!(parse_signed_hex_i8("+-5").unwrap(), -5);
    assert_eq!(parse_signed_hex_i8("--5").unwrap(), 5);
    assert!(parse_signed_hex_i8("80").is_err());
    assert!(parse_signed_hex_i8("-81").is_err());
    assert!(parse_signed_hex_i8("+").is_err());
    assert!(parse_signed_hex_i8("").is_err());
    assert!(parse_signed_hex_i8("- 5").is_err());
    assert!(parse_signed_hex_i8("8000").is_err());
    assert!(parse_signed_hex_i8("--8000").is_err());
}

#[test]
fn hex_formatting() {
    assert_eq!(hex2(0), "00");
    assert_eq!(hex2(0xb3), "b3");
    assert_eq!(hex2(7), "07");
    assert_eq!(hex8(0), "00000000");
    assert_eq!(hex8(0x093a_9eb4), "093a9eb4");
    assert_eq!(hex8(u32::MAX), "ffffffff");
}

#[test]
fn hex_formatting_roundtrip() {
    for v in [0u8, 1, 15, 16, 0x7f, 0xff] {
        assert_eq!(parse_hex_u8(&hex2(v)).unwrap(), v);
    }
    for v in [0u32, 1, 0xabcdef, u32::MAX] {
        assert_eq!(parse_hex_u32(&hex8(v)).unwrap(), v);
    }
}

#[test]
fn unix_time_conversion() {
    assert_eq!(unix_time_from_secs(Some(1_725_029_869)).unwrap(), 1_725_029_869);
    assert_eq!(unix_time_from_secs(Some(u32::MAX as u64)).unwrap(), u32::MAX);
    assert!(unix_time_from_secs(Some(u32::MAX as u64 + 1)).is_err());
    assert!(unix_time_from_secs(None).is_err());
    assert!(unix_time_now().unwrap() > 1_600_000_000);
}

fn protocol_text<T: std::fmt::Debug>(r: Result<T, usb_timing_box_rs::Error>) -> String {
    match r {
        Err(usb_timing_box_rs::Error::Protocol(text)) => text,
        other => panic!("expected a protocol error, got {other:?}"),
    }
}

#[test]
fn hex_errors_give_the_reason() {
    assert_eq!(protocol_text(parse_hex_u8("zz")), "invalid hex u8 'zz': invalid digit found in string");
    assert_eq!(protocol_text(parse_hex_u8("  ")), "invalid hex u8 '  ': cannot parse integer from empty string");
    assert_eq!(protocol_text(parse_hex_u8("+")), "invalid hex u8 '+': invalid digit found in string");
    assert_eq!(protocol_text(parse_hex_u8("100")), "invalid hex u8 '100': number too large to fit in target type");
    assert_eq!(protocol_text(parse_hex_u16("-1")), "invalid hex u16 '-1': invalid digit found in string");
    assert_eq!(
        protocol_text(parse_hex_u32("1x00000000")),
        "invalid hex u32 '1x00000000': invalid digit found in string"
    );
    assert_eq!(
        protocol_text(parse_hex_u64("10000000000000000")),
        "invalid hex u64 '10000000000000000': number too large to fit in target type"
    );
}

#[test]
fn signed_hex_errors_give_the_reason() {
    assert_eq!(
        protocol_text(parse_signed_hex_i8("-81")),
        "signed hex i8 out of range '-81': out of range integral type conversion attempted"
    );
    assert_eq!(protocol_text(parse_signed_hex_i8("+")), "invalid signed hex i8 '+': cannot parse integer from empty string");
    assert_eq!(protocol_text(parse_signed_hex_i8("+-")), "invalid signed hex i8 '+-': invalid digit found in string");
    assert_eq!(
        protocol_text(parse_signed_hex_i8("--8001")),
        "invalid signed hex i8 '--8001': number too small to fit in target type"
    );
    assert_eq!(
        protocol_text(parse_signed_hex_i8("8000")),
        "invalid signed hex i8 '8000': number too large to fit in target type"
    );
}

#[test]
fn range_errors_name_the_value_in_decimal() {
    assert_eq!(protocol_text(parse_battery_level_percent("65")), "battery level out of range: 101");
    assert_eq!(protocol_text(parse_noise_status("ff")), "noise status out of range: 255");
    assert_eq!(protocol_text(unix_time_from_secs(None)), "system time before UNIX_EPOCH: second time provided was later than self");
    assert_eq!(
        protocol_text(unix_time_from_secs(Some(0x1_0000_0000))),
        "unix time does not fit u32: out of range integral type conversion attempted"
    );
}
