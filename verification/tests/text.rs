use usb_timing_box_rs::text::{chars_of, is_white_space_char, split_fields, trim_end_str, trim_str};

#[test]
fn split_fields_like_str_split() {
    for line in ["", ";", "a", "a;b", ";a;;b;", "GLBAS60;0718;01521527", "é;ü;"] {
        let expected: Vec<String> = line.split(';').map(|s| s.to_string()).collect();
        assert_eq!(split_fields(line, ';'), expected);
    }
    assert_eq!(split_fields("a=b", '='), vec!["a".to_string(), "b".to_string()]);
}

#[test]
fn trimming_like_str_trim() {
    for line in ["", "  ", " a ", "\ta b\n", "\u{3000}x\u{2028}", "\u{85}y\u{a0}", "z\u{200b}"] {
        assert_eq!(trim_str(line), line.trim());
        assert_eq!(trim_end_str(line), line.trim_end());
    }
}

#[test]
fn white_space_like_char_is_whitespace() {
    for c in ['\t', '\n', '\u{b}', '\u{c}', '\r', ' ', '\u{85}', '\u{a0}', '\u{1680}', '\u{2000}', '\u{200a}', '\u{2028}', '\u{2029}', '\u{202f}', '\u{205f}', '\u{3000}', 'a', '\u{200b}', '\u{180e}', '\u{feff}', ';'] {
        assert_eq!(is_white_space_char(c), c.is_whitespace(), "{c:?}");
    }
}

#[test]
fn chars_of_collects_all_characters() {
    assert_eq!(chars_of("aé€😀"), vec!['a', 'é', '€', '😀']);
    assert!(chars_of("").is_empty());
}
