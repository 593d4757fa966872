use usb_timing_box_rs::commands::{
    passing_get_error, passing_get_from_response_fw25, passing_get_from_response_fw26,
    parse_passing_get_header, BatteryState, BeaconMode, BeaconRecordFw25, BeaconRecordFw26,
    BoxType, CommandResponse, EpochReferenceFw25, EpochReferenceFw26, LoopStatus,
    OperationMode, PassingGetResult, PassingInfo, PowerConnection, PowerReading,
};
use usb_timing_box_rs::{Error, Fw25, Fw26};

fn response(command: &str, return_code: u8, lines: &[&str]) -> CommandResponse {
    CommandResponse {
        command: command.to_string(),
        return_code,
        data_lines: lines.iter().map(|l| l.to_string()).collect(),
    }
}

#[test]
fn test_25_beaconget() {
    let lines = ["039;1;10;17;64;7;1;1;31;245d;00000000;03;00;00;21;00;00"];
    for line in lines {
        BeaconRecordFw25::from_line(line).unwrap();
    }
}

#[test]
fn test_26_beaconget() {
    let lines = [
        "06f6;0;03;25;32;5;2;0;7b;11fd;095fe75000;03;02;00;00;99;24;00;1a;14;21;+20;0;00;00;00",
        "9dd0;1;00;05;1e;5;0;0;a9;00b5;095fe72300;03;0a;00;00;bf;2d;00;1a;50;81;+26;0;00;00;00",
        "3039;1;10;15;64;5;1;1;31;255e;095fe72302;03;06;00;20;00;00;00;1a;1e;35;+1d;0;04;00;00",
    ];
    for line in lines {
        BeaconRecordFw26::from_line(line).unwrap();
    }
}

#[test]
fn parse_passinginfo_empty_buffer() {
    let info = PassingInfo::from_line("0000;00000000;00000000;00000000;00000000").unwrap();
    assert_eq!(info.count, 0);
    assert_eq!(info.start_id, 0);
    assert_eq!(info.start_timestamp, 0);
    assert_eq!(info.last_id, 0);
    assert_eq!(info.last_timestamp, 0);
}

/// `PASSINGINFOGET` example from the command reference (2 passings in buffer).
#[test]
fn parse_passinginfo_doc_example() {
    let info = PassingInfo::from_line("0002;00000000;002b6efc;00000001;00823aa8").unwrap();
    assert_eq!(info.count, 2);
    assert_eq!(info.start_id, 0);
    assert_eq!(info.start_timestamp, 0x002b_6efc);
    assert_eq!(info.last_id, 1);
    assert_eq!(info.last_timestamp, 0x0082_3aa8);
}

#[test]
fn passinginfo_missing_field_is_error() {
    assert!(PassingInfo::from_line("0002;00000000;002b6efc;00000001").is_err());
    let info = PassingInfo::from_line("0002;00000000;002b6efc;00000001;00823aa8;extra").unwrap();
    assert_eq!(info.count, 2);
}

#[test]
fn beacon_fw25_fields() {
    let b = BeaconRecordFw25::from_line("039;1;10;17;64;7;1;2;31;245d;00000000;03;00;00;21;00;00").unwrap();
    assert_eq!(b.active_device_id, 0x39);
    assert_eq!(b.loop_status, LoopStatus::Fault);
    assert_eq!(b.mode, BeaconMode::NoTimingDevice);
    assert_eq!(b.loop_data, 0x17);
    assert_eq!(b.loop_power, 0x64);
    assert_eq!(b.channel_id, 7);
    assert_eq!(b.loop_id, 1);
    assert_eq!(b.power_connection, PowerConnection::Battery);
    assert_eq!(b.power_status_raw, 0x31);
    assert_eq!(b.beacon_index, 0x245d);
    assert_eq!(b.time_ticks, 0);
    assert_eq!(b.channel_noise_avg, 0);
    assert_eq!(b.transponder_energy_detect, 0x21);
    assert_eq!(b.beacon_energy_detect, 0);
    assert_eq!(b.display_channel(), 8);
    assert_eq!(b.display_loop_id(), 2);
    assert_eq!(b.transponder_rssi_dbm(), -90 + 0x21);
    assert_eq!(b.beacon_rssi_dbm(), -90);
    assert_eq!(b.power_reading(), PowerReading::BatteryHours(0x31));
}

#[test]
fn beacon_fw25_ignores_unread_fields() {
    let b = BeaconRecordFw25::from_line("039;1;10;17;64;7;1;1;31;245d;00000000;zz;00;zz;21;zz;00").unwrap();
    assert_eq!(b.power_reading(), PowerReading::VoltageTenths(0x31));
    assert!(BeaconRecordFw25::from_line("039;1;10;17;64;7;1;1;31;245d;00000000;03;00;00;21;00").is_err());
}

#[test]
fn beacon_fw26_fields() {
    let b = BeaconRecordFw26::from_line(
        "06f6;0;03;25;32;5;2;0;7b;11fd;095fe75000;03;02;00;00;99;24;00;1a;14;21;+20;1;00;00;00",
    )
    .unwrap();
    assert_eq!(b.active_device_id, 0x06f6);
    assert_eq!(b.loop_status, LoopStatus::LoopOk);
    assert_eq!(b.mode, BeaconMode::RepeatMode);
    assert_eq!(b.time_ticks, 0x095f_e750_00);
    assert_eq!(b.beacon_version, 3);
    assert_eq!(b.channel_noise_avg, 2);
    assert_eq!(b.transponder_energy_detect, 0);
    assert_eq!(b.beacon_energy_detect, 0x24);
    assert_eq!(b.fw_version_raw, 0x1a);
    assert_eq!(b.box_type, BoxType::LoopBox);
    assert_eq!(b.box_mode_raw, 0x21);
    assert_eq!(b.temperature_celsius, 0x20);
    assert!(b.buffer_overflow);
    assert_eq!(b.power_connection, PowerConnection::Power12V);
    assert_eq!(b.power_reading(), PowerReading::VoltageTenths(0x7b));
    assert_eq!(b.transponder_rssi_dbm(), -90);
    assert_eq!(b.beacon_rssi_dbm(), -90 + 0x24);
    assert_eq!(b.display_channel(), 6);
    assert_eq!(b.display_loop_id(), 3);
}

#[test]
fn beacon_fw26_wrong_count_is_error() {
    assert!(BeaconRecordFw26::from_line("06f6;0;03").is_err());
}

#[test]
fn from_raw_mappings() {
    assert_eq!(LoopStatus::from_raw(0), LoopStatus::LoopOk);
    assert_eq!(LoopStatus::from_raw(2), LoopStatus::Limit);
    assert_eq!(LoopStatus::from_raw(4), LoopStatus::OverVoltage);
    assert_eq!(LoopStatus::from_raw(3), LoopStatus::Unknown(3));
    assert_eq!(BeaconMode::from_raw(0x00), BeaconMode::TimingMode);
    assert_eq!(BeaconMode::from_raw(0x02), BeaconMode::StoreMode);
    assert_eq!(BeaconMode::from_raw(0x04), BeaconMode::RepeatImpulseMode);
    assert_eq!(BeaconMode::from_raw(0x21), BeaconMode::TrackingStart);
    assert_eq!(BeaconMode::from_raw(0x22), BeaconMode::TrackingStop);
    assert_eq!(BeaconMode::from_raw(0x01), BeaconMode::Unknown(1));
    assert_eq!(PowerConnection::from_raw(1), PowerConnection::Usb);
    assert_eq!(PowerConnection::from_raw(9), PowerConnection::Unknown(9));
    assert_eq!(BoxType::from_raw(0x0a), BoxType::ActiveExtension);
    assert_eq!(BoxType::from_raw(0x1e), BoxType::ManagementBox);
    assert_eq!(BoxType::from_raw(0x28), BoxType::UsbTimingBox);
    assert_eq!(BoxType::from_raw(0x50), BoxType::Ubidium);
    assert_eq!(BoxType::from_raw(0x29), BoxType::Unknown(0x29));
    assert_eq!(BatteryState::from_raw(0), BatteryState::Fault);
    assert_eq!(BatteryState::from_raw(1), BatteryState::Charging);
    assert_eq!(BatteryState::from_raw(2), BatteryState::ReducedCharging);
    assert_eq!(BatteryState::from_raw(3), BatteryState::Discharging);
    assert_eq!(BatteryState::from_raw(4), BatteryState::Unknown(4));
}

#[test]
fn operation_mode_codes() {
    assert_eq!(OperationMode::Kiosk.code(), 0x05);
    assert_eq!(OperationMode::Timing.code(), 0x06);
    assert_eq!(OperationMode::StoreAndCopy.code(), 0x07);
    assert_eq!(OperationMode::RepeatImpulse.code(), 0x08);
}

#[test]
fn single_data_line_only_for_one_line() {
    assert_eq!(response("X", 0, &["a"]).single_data_line(), Some("a"));
    assert_eq!(response("X", 0, &[]).single_data_line(), None);
    assert_eq!(response("X", 0, &["a", "b"]).single_data_line(), None);
}

#[test]
fn epoch_reference_parsing_and_delta() {
    let e = EpochReferenceFw25::parse("5f5e1000;00010000").unwrap();
    assert_eq!(e.unix_time_seconds, 0x5f5e_1000);
    assert_eq!(e.timestamp_ticks, 0x0001_0000);
    assert_eq!(e.delta_ticks(0x0001_0100), 0x100);
    assert_eq!(e.delta_ticks(0x0000_ffff), u32::MAX);
    assert!(EpochReferenceFw25::parse("5f5e1000").is_err());
    let e26 = EpochReferenceFw26::parse("5f5e1000;095fe75000").unwrap();
    assert_eq!(e26.timestamp_ticks, 0x095f_e750_00);
    assert_eq!(e26.delta_ticks(0x095f_e758_00), 0x800);
    assert_eq!(e26.delta_ticks(0x095f_e74f_ff), u64::MAX);
    assert!(EpochReferenceFw26::parse("zz;1").is_err());
}

#[test]
fn passing_get_header_checks_echo() {
    assert_eq!(parse_passing_get_header(5, &response("PASSINGGET", 0, &["00000005;02"])).unwrap(), 2);
    assert!(parse_passing_get_header(6, &response("PASSINGGET", 0, &["00000005;02"])).is_err());
    assert!(parse_passing_get_header(5, &response("PASSINGGET", 0, &["00000005"])).is_err());
    assert!(parse_passing_get_header(5, &response("PASSINGGET", 0, &[])).is_err());
}

#[test]
fn passing_get_fw25_batch() {
    let resp = response(
        "PASSINGGET",
        0,
        &["00000000;02", "GLBAS60;0718;01521527;0c;08;9f;1a;0;1;2;00;0", "ZBAAA03;04c6;002b6efc;11;19;1d;15;0;1;1;00;0"],
    );
    match passing_get_from_response_fw25(0, resp).unwrap() {
        PassingGetResult::Batch(batch) => {
            assert_eq!(batch.requested_start, 0);
            assert_eq!(batch.passings.len(), 2);
            assert_eq!(batch.passings[1].transponder_id, "ZBAAA03");
            assert_eq!(batch.next_start_index(), 2);
        }
        other => panic!("unexpected {other:?}"),
    }
}

#[test]
fn passing_get_fw25_count_mismatch_is_error() {
    let resp = response("PASSINGGET", 0, &["00000000;03", "GLBAS60;0718;01521527;0c;08;9f;1a;0;1;2;00;0"]);
    assert!(matches!(passing_get_from_response_fw25(0, resp), Err(Error::Protocol(_))));
}

#[test]
fn passing_get_empty_batch() {
    let resp = response("PASSINGGET", 0, &["0000000a;00"]);
    match passing_get_from_response_fw26(10, resp).unwrap() {
        PassingGetResult::Batch(batch) => assert!(batch.passings.is_empty()),
        other => panic!("unexpected {other:?}"),
    }
}

#[test]
fn passing_get_fw26_batch_with_checksums() {
    let resp = response(
        "PASSINGGET",
        0,
        &[
            "00000003;02",
            "IKNWZ06;a153;093a9eb470;fe;71;1d;+15;0;1;7;00;0;00;1=85",
            "ZILAL95;9087;093ab54210;fe;71;1d;+1a;0;1;7;00;0;00;0=42",
        ],
    );
    match passing_get_from_response_fw26(3, resp).unwrap() {
        PassingGetResult::Batch(batch) => {
            assert_eq!(batch.passings[0].temperature_celsius, 0x15);
            assert_eq!(batch.next_start_index(), 5);
        }
        other => panic!("unexpected {other:?}"),
    }
}

#[test]
fn passing_get_start_index_not_found() {
    let resp = response("PASSINGGET", 0x10, &["00000009;00000004"]);
    assert_eq!(
        passing_get_from_response_fw25(9, resp).unwrap(),
        PassingGetResult::StartIndexNotFound { min_start_index: 4 }
    );
    let resp = response("PASSINGGET", 0x10, &["00000009;00000004"]);
    assert!(passing_get_from_response_fw26(8, resp).is_err());
}

#[test]
fn passing_get_wrong_mode_and_failure() {
    let resp = response("PASSINGGET", 0x11, &[]);
    assert_eq!(passing_get_from_response_fw26(1, resp).unwrap(), PassingGetResult::WrongMode);
    let resp = response("PASSINGGET", 0xff, &["x"]);
    match passing_get_from_response_fw25(1, resp) {
        Err(Error::CommandFailed { command, return_code, data_lines }) => {
            assert_eq!(command, "PASSINGGET");
            assert_eq!(return_code, 0xff);
            assert_eq!(data_lines, vec!["x".to_string()]);
        }
        other => panic!("unexpected {other:?}"),
    }
    let generic: Result<PassingGetResult<Fw26>, Error> = passing_get_error(1, response("PASSINGGET", 0x11, &[]));
    assert_eq!(generic.unwrap(), PassingGetResult::WrongMode);
    let generic: Result<PassingGetResult<Fw25>, Error> = passing_get_error(1, response("PASSINGGET", 0, &[]));
    assert!(matches!(generic, Err(Error::CommandFailed { return_code: 0, .. })));
}

fn protocol_text<T: std::fmt::Debug>(r: Result<T, Error>) -> String {
    match r {
        Err(Error::Protocol(text)) => text,
        other => panic!("expected a protocol error, got {other:?}"),
    }
}

#[test]
fn reply_errors_say_what_was_wrong() {
    assert_eq!(
        protocol_text(BeaconRecordFw25::from_line("1;2")),
        "FW2.5 beacon expected 17 fields, got 2 (line: 1;2)"
    );
    assert_eq!(protocol_text(PassingInfo::from_line("0001;zz")), "invalid hex u32 'zz': invalid digit found in string");
    assert_eq!(protocol_text(PassingInfo::from_line("0001;2;3")), "PASSINGINFOGET missing last_id");
    assert_eq!(protocol_text(EpochReferenceFw25::parse("5f5e1000")), "missing timestamp ticks");
    assert_eq!(
        protocol_text(parse_passing_get_header(0x10, &response("PASSINGGET", 0, &["0000000f;01"]))),
        "PASSINGGET echoed start mismatch: header=15, requested=16"
    );
    assert_eq!(
        protocol_text(passing_get_from_response_fw25(0, response("PASSINGGET", 0, &["00000000;02"]))),
        "PASSINGGET count mismatch: header=2, records=0"
    );
}
