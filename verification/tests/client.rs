use usb_timing_box_rs::commands::{CommandResponse, OperationMode};
use usb_timing_box_rs::usb_timing_box::{
    beacons_fw25_from_response, beacons_fw26_from_response, command_line, command_name,
    conf_get_line, conf_get_value, conf_set_line, consume_line, ensure_code,
    epoch_fw25_from_response, epoch_fw26_from_response, epoch_ref_set_line, info_get_line,
    info_get_value, is_autoboot_line, line_with_newline, passing_get_line,
    passing_info_from_response, set_channel_id_line, set_loop_id_line, set_loop_power_line,
    set_mode_line, site_survey_from_response, sync_target, sync_target_reached, timestamp_fw25_from_response,
    timestamp_fw26_from_response, ReplyReader, UsbTimingBoxBuilder,
};
use usb_timing_box_rs::{ConfigParameter, Error, InfoParameter, DEFAULT_BAUD_RATE};

fn response(command: &str, return_code: u8, lines: &[&str]) -> CommandResponse {
    CommandResponse {
        command: command.to_string(),
        return_code,
        data_lines: lines.iter().map(|l| l.to_string()).collect(),
    }
}

#[test]
fn builder_defaults_and_setters() {
    let b = UsbTimingBoxBuilder::new("COM3");
    assert_eq!(b.port_name_str(), "COM3");
    assert_eq!(b.baud_rate_value(), DEFAULT_BAUD_RATE);
    assert_eq!(b.timeout_value(), std::time::Duration::from_millis(200));
    assert!(b.dtr_low_on_open_value());
    assert!(b.rts_low_on_open_value());
    let b = b
        .baud_rate(9600)
        .timeout(std::time::Duration::from_secs(1))
        .dtr_low_on_open(false)
        .rts_low_on_open(false);
    assert_eq!(b.baud_rate_value(), 9600);
    assert_eq!(b.timeout_value(), std::time::Duration::from_secs(1));
    assert!(!b.dtr_low_on_open_value());
    assert!(!b.rts_low_on_open_value());
    assert_eq!(b.port_name_str(), "COM3");
}

#[test]
fn command_lines() {
    assert_eq!(command_line("ASCII", &[]), "ASCII\n");
    assert_eq!(command_line("CONFSET", &["b3".to_string(), "01".to_string()]), "CONFSET;b3;01\n");
    assert_eq!(conf_get_line(ConfigParameter::ChannelId), "CONFGET;06\n");
    assert_eq!(conf_set_line(ConfigParameter::EnableFw26DataFormat, 1), "CONFSET;b3;01\n");
    assert_eq!(info_get_line(InfoParameter::BatteryLevel), "INFOGET;08\n");
    assert_eq!(epoch_ref_set_line(0x66d1_a5ed), "EPOCHREFSET;66d1a5ed\n");
    assert_eq!(passing_get_line(0x2a), "PASSINGGET;0000002a\n");
    assert_eq!(set_mode_line(OperationMode::Timing), "CONFSET;05;06\n");
    assert_eq!(line_with_newline("PASSINGGET;00000000"), "PASSINGGET;00000000\n");
    assert_eq!(command_name("PASSINGGET;00000000"), "PASSINGGET");
    assert_eq!(command_name("RESET"), "RESET");
    assert_eq!(command_name(""), "");
}

#[test]
fn setting_lines_check_ranges() {
    assert_eq!(set_channel_id_line(7).unwrap(), "CONFSET;06;07\n");
    assert!(matches!(set_channel_id_line(8), Err(Error::Protocol(_))));
    assert_eq!(set_loop_id_line(0).unwrap(), "CONFSET;07;00\n");
    assert!(set_loop_id_line(8).is_err());
    assert_eq!(set_loop_power_line(100).unwrap(), "CONFSET;08;64\n");
    assert!(set_loop_power_line(101).is_err());
}

#[test]
fn consume_line_cuts_at_newline() {
    let mut scratch = b"AUTOBOOT\r\nCONF".to_vec();
    assert_eq!(consume_line(&mut scratch).as_deref(), Some("AUTOBOOT"));
    assert_eq!(scratch, b"CONF".to_vec());
    assert_eq!(consume_line(&mut scratch), None);
    assert_eq!(scratch, b"CONF".to_vec());
    scratch.extend_from_slice(b"GET;00\n\n");
    assert_eq!(consume_line(&mut scratch).as_deref(), Some("CONFGET;00"));
    assert_eq!(consume_line(&mut scratch).as_deref(), Some(""));
    assert!(scratch.is_empty());
    let mut odd = vec![0xffu8, b'\n'];
    assert_eq!(consume_line(&mut odd).as_deref(), Some("\u{fffd}"));
}

#[test]
fn reply_reader_assembles_reply() {
    let mut reader = ReplyReader::new("CONFGET");
    assert!(reader.feed("").is_none());
    assert!(reader.feed("#S;015405f2;11f7;00;2c;01;3b").is_none());
    assert!(reader.feed("CONFGET;00").is_none());
    assert!(reader.feed("06;05").is_none());
    assert!(reader.feed("#kept").is_none());
    let resp = reader.feed("").unwrap().unwrap();
    assert_eq!(resp.command, "CONFGET");
    assert_eq!(resp.return_code, 0);
    assert_eq!(resp.data_lines, vec!["06;05".to_string(), "#kept".to_string()]);
}

#[test]
fn reply_reader_starts_over_after_a_reply() {
    let mut reader = ReplyReader::new("CONFGET");
    assert!(reader.feed("CONFGET;00").is_none());
    assert!(reader.feed("01;02").is_none());
    let first = reader.feed("").unwrap().unwrap();
    assert_eq!(first.data_lines, vec!["01;02".to_string()]);
    assert!(reader.feed("CONFGET;03").is_none());
    let second = reader.feed("").unwrap().unwrap();
    assert_eq!(second.return_code, 3);
    assert!(second.data_lines.is_empty());
}

#[test]
fn reply_reader_rejects_wrong_echo() {
    let mut reader = ReplyReader::new("CONFGET");
    assert!(matches!(reader.feed("CONFSET;00"), Some(Err(Error::Protocol(_)))));
    let mut reader = ReplyReader::new("CONFGET");
    assert!(matches!(reader.feed("CONFGET"), Some(Err(Error::Protocol(_)))));
    let mut reader = ReplyReader::new("CONFGET");
    assert!(matches!(reader.feed("CONFGET;zz"), Some(Err(Error::Protocol(_)))));
}

#[test]
fn ensure_code_reports_failed_command() {
    assert!(ensure_code(&response("RESET", 0, &[]), 0).is_ok());
    match ensure_code(&response("RESET", 0xff, &["a"]), 0) {
        Err(Error::CommandFailed { command, return_code, data_lines }) => {
            assert_eq!(command, "RESET");
            assert_eq!(return_code, 0xff);
            assert_eq!(data_lines, vec!["a".to_string()]);
        }
        other => panic!("unexpected {other:?}"),
    }
}

#[test]
fn single_line_replies() {
    assert_eq!(conf_get_value(&response("CONFGET", 0, &["06;05"])).unwrap(), 5);
    assert!(conf_get_value(&response("CONFGET", 0, &["zz;05"])).is_err());
    assert!(conf_get_value(&response("CONFGET", 0, &["06"])).is_err());
    assert!(conf_get_value(&response("CONFGET", 0, &["06;05", "x"])).is_err());
    assert!(matches!(conf_get_value(&response("CONFGET", 0x10, &["06;05"])), Err(Error::CommandFailed { .. })));
    assert_eq!(info_get_value(0x08, &response("INFOGET", 0, &["08;4e"])).unwrap(), "4e");
    assert!(info_get_value(0x09, &response("INFOGET", 0, &["08;4e"])).is_err());
    let info = passing_info_from_response(&response("PASSINGINFOGET", 0, &["0002;00000000;002b6efc;00000001;00823aa8"])).unwrap();
    assert_eq!(info.last_timestamp, 0x0082_3aa8);
    let e = epoch_fw25_from_response(&response("EPOCHREFGET", 0, &["66d1a5ed;00010000"])).unwrap();
    assert_eq!(e.unix_time_seconds, 0x66d1_a5ed);
    let e = epoch_fw26_from_response(&response("EPOCHREFSET", 0, &["66d1a5ed;095fe75000"])).unwrap();
    assert_eq!(e.timestamp_ticks, 0x095f_e750_00);
    assert_eq!(timestamp_fw25_from_response(&response("TIMESTAMPGET", 0, &["0152ab00"])).unwrap(), 0x0152_ab00);
    assert_eq!(timestamp_fw26_from_response(&response("TIMESTAMPGET", 0, &["095fe75000"])).unwrap(), 0x095f_e750_00);
    assert!(timestamp_fw25_from_response(&response("TIMESTAMPGET", 0, &["095fe75000"])).is_err());
}

#[test]
fn site_survey_table() {
    let lines = ["00;00", "01;0a", "02;03", "03;00", "04;00", "05;01", "06;00", "07;05"];
    let table = site_survey_from_response(&response("SITESURVEY", 0, &lines)).unwrap();
    assert_eq!(table, [0, 10, 3, 0, 0, 1, 0, 5]);
    let unordered = ["07;05", "00;01", "07;02", "01;01", "02;01", "03;01", "04;01", "05;01"];
    let table = site_survey_from_response(&response("SITESURVEY", 0, &unordered)).unwrap();
    assert_eq!(table, [1, 1, 1, 1, 1, 1, 0, 2]);
    assert!(site_survey_from_response(&response("SITESURVEY", 0, &lines[..7])).is_err());
    let bad = ["08;00", "01;0a", "02;03", "03;00", "04;00", "05;01", "06;00", "07;05"];
    assert!(site_survey_from_response(&response("SITESURVEY", 0, &bad)).is_err());
}

#[test]
fn beacon_lists() {
    let resp = response("BEACONGET", 0, &["01", "039;1;10;17;64;7;1;1;31;245d;00000000;03;00;00;21;00;00"]);
    let beacons = beacons_fw25_from_response(&resp).unwrap();
    assert_eq!(beacons.len(), 1);
    assert_eq!(beacons[0].beacon_index, 0x245d);
    let resp = response("BEACONGET", 0, &["02", "039;1;10;17;64;7;1;1;31;245d;00000000;03;00;00;21;00;00"]);
    assert!(beacons_fw25_from_response(&resp).is_err());
    let resp = response(
        "BEACONGET",
        0,
        &["01", "9dd0;1;00;05;1e;5;0;0;a9;00b5;095fe72300;03;0a;00;00;bf;2d;00;1a;50;81;+26;0;00;00;00"],
    );
    let beacons = beacons_fw26_from_response(&resp).unwrap();
    assert_eq!(beacons[0].temperature_celsius, 0x26);
    assert!(beacons_fw26_from_response(&response("BEACONGET", 0, &[])).is_err());
}

#[test]
fn autoboot_line_detection() {
    assert!(is_autoboot_line("AUTOBOOT"));
    assert!(is_autoboot_line("AUTOBOOT \r"));
    assert!(!is_autoboot_line(" AUTOBOOT"));
    assert!(!is_autoboot_line("AUTOBOOT2"));
}

#[test]
fn epoch_sync_target() {
    assert_eq!(sync_target(1_725_029_869), 1_725_029_870);
    assert_eq!(sync_target(u32::MAX), u32::MAX);
    assert!(!sync_target_reached(9, 10));
    assert!(sync_target_reached(10, 10));
    assert!(sync_target_reached(11, 10));
}

fn protocol_text<T: std::fmt::Debug>(r: Result<T, Error>) -> String {
    match r {
        Err(Error::Protocol(text)) => text,
        other => panic!("expected a protocol error, got {other:?}"),
    }
}

#[test]
fn client_errors_say_what_was_wrong() {
    let mut reader = ReplyReader::new("CONFGET");
    assert_eq!(
        protocol_text(reader.feed("CONFSET;00").unwrap()),
        "unexpected command echo: expected CONFGET, got CONFSET"
    );
    assert_eq!(protocol_text(set_channel_id_line(8)), "channel out of range: 8");
    assert_eq!(protocol_text(set_loop_power_line(101)), "loop power out of range: 101");
    assert_eq!(protocol_text(conf_get_value(&response("CONFGET", 0, &[]))), "CONFGET missing data line");
    assert_eq!(protocol_text(conf_get_value(&response("CONFGET", 0, &["06"]))), "CONFGET missing value");
    assert_eq!(
        protocol_text(info_get_value(0x09, &response("INFOGET", 0, &["0a;15"]))),
        "INFOGET id mismatch: expected 09, got 0a"
    );
    let short = ["00;00", "01;0a"];
    assert_eq!(
        protocol_text(site_survey_from_response(&response("SITESURVEY", 0, &short))),
        "SITESURVEY expected 8 data lines, got 2"
    );
    let bad = ["08;00", "01;0a", "02;03", "03;00", "04;00", "05;01", "06;00", "07;05"];
    assert_eq!(
        protocol_text(site_survey_from_response(&response("SITESURVEY", 0, &bad))),
        "invalid channel in SITESURVEY: 8"
    );
    let no_noise = ["00", "01;0a", "02;03", "03;00", "04;00", "05;01", "06;00", "07;05"];
    assert_eq!(protocol_text(site_survey_from_response(&response("SITESURVEY", 0, &no_noise))), "missing noise");
    assert_eq!(
        protocol_text(beacons_fw25_from_response(&response("BEACONGET", 0, &["01"]))),
        "BEACONGET count mismatch: header=1, records=0"
    );
}
