use usb_timing_box_rs::passing::{strip_line_checksum, PassingBatch, PassingFw25, PassingFw26, StrengthCombined};
use usb_timing_box_rs::Fw25;

/// Quick-start example (`GLBAS60;…`).
#[test]
fn parse_fw25_quick_start_example() {
    let p = PassingFw25::from_line("GLBAS60;0718;01521527;0c;08;9f;1a;0;1;2;00;0").unwrap();
    assert_eq!(p.transponder_id, "GLBAS60");
    assert_eq!(p.wakeup_counter, 0x0718);
    assert_eq!(p.timestamp_ticks, 0x0152_1527);
    assert_eq!(p.hits, 0x0c);
    assert_eq!(p.strength.0, 0x08);
}

/// `PASSINGGET` standard format example from the command reference.
#[test]
fn parse_fw25_doc_passingget_standard() {
    let p = PassingFw25::from_line("IKNWZ06;a153;093a9eb4;fe;71;1d;15;0;1;7;00;0").unwrap();
    assert_eq!(p.transponder_id, "IKNWZ06");
    assert_eq!(p.wakeup_counter, 0xa153);
    assert_eq!(p.timestamp_ticks, 0x093a_9eb4);
    assert_eq!(p.hits, 0xfe);
    assert_eq!(p.strength.0, 0x71);
    assert_eq!(p.battery_raw, 0x1d);
    assert_eq!(p.temperature_raw, 0x15);
    assert!(!p.loop_only);
    assert_eq!(p.loop_id, 1);
    assert_eq!(p.channel_id, 7);
    assert_eq!(p.display_loop_id(), 2);
    assert_eq!(p.display_channel_id(), 8);
    assert_eq!(p.status, "00");
    assert_eq!(p.internal_data, "0");
}

/// FW 2.6 `PASSINGGET` example (14 fields, extra code in field 13).
#[test]
fn parse_fw26_doc_passingget_single() {
    let p = PassingFw26::from_line("IKNWZ06;a153;093a9eb470;fe;71;1d;+15;0;1;7;00;0;00;1").unwrap();
    assert_eq!(p.transponder_id, "IKNWZ06");
    assert_eq!(p.wakeup_counter, 0xa153);
    assert_eq!(p.timestamp_ticks, 0x093a_9eb470);
    assert_eq!(p.hits, 0xfe);
    assert_eq!(p.strength.0, 0x71);
    assert_eq!(p.battery_raw, 0x1d);
    assert_eq!(p.temperature_celsius, 0x15);
    assert_eq!(p.loop_id, 1);
    assert_eq!(p.channel_id, 7);
    assert_eq!(p.status, "00");
    assert_eq!(p.internal_data, "0");
    assert_eq!(p.rfu, "00");
    assert_eq!(p.extra, "1");
    assert_eq!(p.extra_code, None);
}

/// FW 2.6 example with two passings; second transponder reports extra code `A-1000`.
#[test]
fn parse_fw26_doc_passingget_extra_code() {
    let second = PassingFw26::from_line("ZILAL95;9087;093ab54213;fe;71;1d;+1a;0;1;7;00;0;00;0;A-1000").unwrap();
    assert_eq!(second.transponder_id, "ZILAL95");
    assert_eq!(second.wakeup_counter, 0x9087);
    assert_eq!(second.timestamp_ticks, 0x093a_b54213);
    assert_eq!(second.temperature_celsius, 0x1a);
    assert_eq!(second.extra, "0");
    assert_eq!(second.extra_code.as_deref(), Some("A-1000"));
}

/// FW 2.6 batch example with checksum suffixes (`=XX`) on each line.
#[test]
fn parse_fw26_doc_passingget_with_checksum() {
    let lines = [
        "IKNWZ06;a153;093a9eb470;fe;71;1d;+15;0;1;7;00;0;00;1=85",
        "ZILAL95;9087;093ab54210;fe;71;1d;+1a;0;1;7;00;0;00;0=42",
        "ZILAL95;908e;093ad85370;fe;71;1d;+1a;0;1;7;00;0;00;0=7D",
        "ZILAL95;915c;093ee28f50;fe;71;1d;+1a;0;1;7;00;0;00;0=AC",
    ];

    for line in lines {
        PassingFw26::from_line(line).unwrap();
    }
}

#[test]
fn parse_fw26_doc_passingget_all_eight_checksum_lines() {
    let lines = [
        "IKNWZ06;a153;093a9eb470;fe;71;1d;+15;0;1;7;00;0;00;1=85",
        "ZILAL95;9087;093ab54210;fe;71;1d;+1a;0;1;7;00;0;00;0=42",
        "ZILAL95;908e;093ad85370;fe;71;1d;+1a;0;1;7;00;0;00;0=7D",
        "ZILAL95;9093;093af16d30;fe;71;1d;+1a;0;1;7;00;0;00;0=75",
        "ZILAL95;90a9;093b5fe320;fe;71;1d;+1a;0;1;7;00;0;00;0=A5",
        "ZILAL95;90b6;093ba10a00;fe;71;1d;+1a;0;1;7;00;0;00;0=91",
        "ZILAL95;9144;093e6a2150;fe;71;1d;+1a;0;1;7;00;0;00;0=41",
        "ZILAL95;915c;093ee28f50;fe;71;1d;+1a;0;1;7;00;0;00;0=AC",
    ];
    for line in lines {
        PassingFw26::from_line(line).unwrap();
    }
}

#[test]
fn fw25_passing() {
    let passing = PassingFw25::from_line("ZBAAA03;04c6;002b6efc;11;19;1d;15;0;1;1;00;0").unwrap();
    assert_eq!(passing.transponder_id, "ZBAAA03");
}

#[test]
fn fw25_wrong_field_count_is_protocol_error() {
    let err = PassingFw25::from_line("ZBAAA03;04c6;002b6efc;11;19;1d;15;0;1;1;00").unwrap_err();
    assert!(matches!(err, usb_timing_box_rs::Error::Protocol(_)));
    assert!(PassingFw25::from_line("ZBAAA03;04c6;002b6efc;11;19;1d;15;0;1;1;00;0;x").is_err());
}

#[test]
fn fw25_bad_hex_field_is_error() {
    assert!(PassingFw25::from_line("ZBAAA03;04g6;002b6efc;11;19;1d;15;0;1;1;00;0").is_err());
    assert!(PassingFw25::from_line("ZBAAA03;04c6;002b6efc;111;19;1d;15;0;1;1;00;0").is_err());
}

#[test]
fn fw25_loop_only_flag_and_untrimmed_texts() {
    let p = PassingFw25::from_line(" ID ;04c6; 002b6efc ;11;19;1d;15;2;1;1; 00 ;0").unwrap();
    assert!(p.loop_only);
    assert_eq!(p.transponder_id, " ID ");
    assert_eq!(p.timestamp_ticks, 0x002b_6efc);
    assert_eq!(p.status, " 00 ");
}

#[test]
fn fw25_to_line_roundtrip() {
    let line = "IKNWZ06;a153;093a9eb4;fe;71;1d;15;0;1;7;00;0";
    let p = PassingFw25::from_line(line).unwrap();
    assert_eq!(p.to_line(), line);
    let q = PassingFw25::from_line(&p.to_line()).unwrap();
    assert_eq!(p, q);
}

#[test]
fn fw25_to_line_pads_hex_fields() {
    let p = PassingFw25::from_line("X;1;2;3;4;5;6;1;a;b;s;i").unwrap();
    assert_eq!(p.to_line(), "X;0001;00000002;03;04;05;06;1;a;b;s;i");
}

#[test]
fn fw26_to_line_roundtrip_with_extra_code() {
    let line = "ZILAL95;9087;093ab54213;fe;71;1d;+1a;0;1;7;00;0;00;0;A-1000";
    let p = PassingFw26::from_line(line).unwrap();
    assert_eq!(p.to_line(), line);
    assert_eq!(PassingFw26::from_line(&p.to_line()).unwrap(), p);
}

#[test]
fn fw26_small_temperature_has_no_padding_after_sign() {
    let p = PassingFw26::from_line("A;1;2;3;4;5;+5;0;0;0;s;i;r;e").unwrap();
    assert_eq!(p.temperature_celsius, 5);
    assert_eq!(p.to_line(), "A;0001;0000000002;03;04;05;+5;0;0;0;s;i;r;e");
}

#[test]
fn fw26_negative_temperature_displays_sign_and_magnitude() {
    let p = PassingFw26::from_line("A;1;2;3;4;5;-05;0;0;0;s;i;r;e").unwrap();
    assert_eq!(p.temperature_celsius, -5);
    let line = p.to_line();
    assert_eq!(line, "A;0001;0000000002;03;04;05;-5;0;0;0;s;i;r;e");
    assert_eq!(PassingFw26::from_line(&line).unwrap(), p);
    let coldest = PassingFw26::from_line("A;1;2;3;4;5;-80;0;0;0;s;i;r;e").unwrap();
    assert_eq!(coldest.to_line(), "A;0001;0000000002;03;04;05;-80;0;0;0;s;i;r;e");
    assert_eq!(PassingFw26::from_line(&coldest.to_line()).unwrap(), coldest);
}

#[test]
fn fw26_fields_are_trimmed_and_checksum_stripped() {
    let p = PassingFw26::from_line("  IK ; a153 ;093a9eb470;fe;71;1d;+15;0;1;7; 00 ;0;00; 1 =85").unwrap();
    assert_eq!(p.transponder_id, "IK");
    assert_eq!(p.status, "00");
    assert_eq!(p.extra, "1");
    assert_eq!(p.wakeup_counter, 0xa153);
}

#[test]
fn fw26_wrong_field_count_is_error() {
    assert!(PassingFw26::from_line("IKNWZ06;a153;093a9eb470;fe;71;1d;+15;0;1;7;00;0;00").is_err());
    assert!(PassingFw26::from_line("IKNWZ06;a153;093a9eb470;fe;71;1d;+15;0;1;7;00;0;00;1;A;B").is_err());
}

#[test]
fn fw26_temperature_out_of_range_is_error() {
    assert!(PassingFw26::from_line("A;1;2;3;4;5;+80;0;0;0;s;i;r;e").is_err());
    let p = PassingFw26::from_line("A;1;2;3;4;5;-80;0;0;0;s;i;r;e").unwrap();
    assert_eq!(p.temperature_celsius, -128);
}

#[test]
fn strip_line_checksum_examples() {
    assert_eq!(strip_line_checksum("abc;def=85"), "abc;def");
    assert_eq!(strip_line_checksum("  abc  "), "abc");
    assert_eq!(strip_line_checksum("a=b=c"), "a");
    assert_eq!(strip_line_checksum(""), "");
}

#[test]
fn strength_combined_decoding() {
    let s = StrengthCombined(0x71);
    assert_eq!(s.rssi_dbm(), -90 + 4 * 7);
    assert_eq!(s.loop_strength_db(), 2);
    let z = StrengthCombined(0x00);
    assert_eq!(z.rssi_dbm(), -90);
    assert_eq!(z.loop_strength_db(), 1);
    let f = StrengthCombined(0xff);
    assert_eq!(f.rssi_dbm(), -62);
    assert_eq!(f.loop_strength_db(), 16);
}

#[test]
fn display_ids_saturate() {
    let p = PassingFw25::from_line("X;1;2;3;4;5;6;0;ff;0;s;i").unwrap();
    assert_eq!(p.display_loop_id(), 255);
    assert_eq!(p.display_channel_id(), 1);
}

#[test]
fn passing_batch_next_start_index() {
    let p = PassingFw25::from_line("X;1;2;3;4;5;6;0;0;0;s;i").unwrap();
    let batch: PassingBatch<Fw25> = PassingBatch { requested_start: 10, passings: vec![p.clone(), p] };
    assert_eq!(batch.next_start_index(), 12);
    let empty: PassingBatch<Fw25> = PassingBatch { requested_start: 7, passings: vec![] };
    assert_eq!(empty.next_start_index(), 7);
    let p = PassingFw25::from_line("X;1;2;3;4;5;6;0;0;0;s;i").unwrap();
    let wrapping: PassingBatch<Fw25> = PassingBatch { requested_start: u32::MAX, passings: vec![p.clone(), p] };
    assert_eq!(wrapping.next_start_index(), 1);
}

#[test]
fn wrong_field_counts_are_named() {
    match PassingFw25::from_line("a;b") {
        Err(usb_timing_box_rs::Error::Protocol(text)) => {
            assert_eq!(text, "FW2.5 passing expected 12 fields, got 2 (line: a;b)")
        }
        other => panic!("unexpected {other:?}"),
    }
    match PassingFw26::from_line("a ; b") {
        Err(usb_timing_box_rs::Error::Protocol(text)) => {
            assert_eq!(text, "FW2.6 passing expected 14 or 15 fields, got 2 (line: a;b)")
        }
        other => panic!("unexpected {other:?}"),
    }
}
