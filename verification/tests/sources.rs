use qr_fountain_gen::source::SourceError;
use qr_fountain_gen::{prepare_hex, prepare_text, Entry};

fn args(list: &[&str]) -> Vec<String> {
    list.iter().map(|s| s.to_string()).collect()
}

#[test]
fn hex_digits_become_bytes() {
    assert_eq!(prepare_hex("48656c6c6f"), Ok(b"Hello".to_vec()));
    assert_eq!(prepare_hex("00ff7F80"), Ok(vec![0x00, 0xff, 0x7f, 0x80]));
    assert_eq!(prepare_hex("aBcDeF"), Ok(vec![0xab, 0xcd, 0xef]));
}

#[test]
fn white_space_round_the_digits_is_dropped() {
    assert_eq!(prepare_hex("  0102\n"), Ok(vec![1, 2]));
    assert_eq!(prepare_hex("\t\r\n0102\u{a0}\u{3000}\u{2028}"), Ok(vec![1, 2]));
    assert_eq!(prepare_hex("\u{85}\u{1680}\u{2000}\u{200a}ff\u{2029}\u{202f}\u{205f}\u{b}\u{c}"), Ok(vec![255]));
}

#[test]
fn empty_text_is_an_empty_payload() {
    assert_eq!(prepare_hex(""), Ok(Vec::new()));
    assert_eq!(prepare_hex(" \n "), Ok(Vec::new()));
}

#[test]
fn odd_number_of_digits_is_refused() {
    assert_eq!(prepare_hex("123"), Err(SourceError::InvalidHex));
}

#[test]
fn other_characters_are_refused() {
    assert_eq!(prepare_hex("zz"), Err(SourceError::InvalidHex));
    assert_eq!(prepare_hex("01 02"), Err(SourceError::InvalidHex));
    assert_eq!(prepare_hex("0x01"), Err(SourceError::InvalidHex));
    assert_eq!(prepare_hex("\u{e9}"), Err(SourceError::InvalidHex));
    assert_eq!(prepare_hex("\u{200b}01"), Err(SourceError::InvalidHex));
}

#[test]
fn text_becomes_its_bytes() {
    assert_eq!(prepare_text("Hello"), b"Hello".to_vec());
    assert_eq!(prepare_text(" a\n"), vec![0x20, 0x61, 0x0a]);
    assert_eq!(prepare_text("\u{e9}\u{20ac}"), vec![0xc3, 0xa9, 0xe2, 0x82, 0xac]);
    assert_eq!(prepare_text(""), Vec::<u8>::new());
}

#[test]
fn entry_needs_a_file_name() {
    assert_eq!(Entry::new(args(&[])).err(), Some("Didn't get a file name"));
    assert_eq!(Entry::new(args(&["prog"])).err(), Some("Didn't get a file name"));
}

#[test]
fn entry_with_payload_file_only() {
    let entry = Entry::new(args(&["prog", "data.txt"])).unwrap();
    assert_eq!(entry.filename, "data.txt");
    assert_eq!(entry.setupname, None);
    assert_eq!(entry.setup_file(), "default_constants");
}

#[test]
fn entry_with_settings_file() {
    let entry = Entry::new(args(&["prog", "data.txt", "setup", "more"])).unwrap();
    assert_eq!(entry.filename, "data.txt");
    assert_eq!(entry.setupname, Some("setup".to_string()));
    assert_eq!(entry.setup_file(), "setup");
}
