use note_secretary::files::index::file_name;
use note_secretary::files::index::has_suffix;
use note_secretary::files::index::index_of_name;
use note_secretary::files::index::parse_index;

#[test]
fn parse_index_reads_decimal_digits() {
    assert_eq!(parse_index(b"0"), Some(0));
    assert_eq!(parse_index(b"0001"), Some(1));
    assert_eq!(parse_index(b"65535"), Some(65535));
    assert_eq!(parse_index(b"000000065535"), Some(65535));
    assert_eq!(parse_index(b"+12"), Some(12));
}

#[test]
fn parse_index_is_strict() {
    assert_eq!(parse_index(b""), None);
    assert_eq!(parse_index(b"+"), None);
    assert_eq!(parse_index(b"-1"), None);
    assert_eq!(parse_index(b"++1"), None);
    assert_eq!(parse_index(b"12a"), None);
    assert_eq!(parse_index(b" 12"), None);
    assert_eq!(parse_index(b"1.5"), None);
    assert_eq!(parse_index(b"65536"), None);
    assert_eq!(parse_index(b"99999999999999999999"), None);
    assert_eq!(parse_index("\u{661}".as_bytes()), None);
}

#[test]
fn parse_index_agrees_with_the_standard_library() {
    let samples: [&str; 12] = [
        "0", "7", "0007", "+7", "-7", "65535", "65536", "", "+", "1_000", "٣", "12 ",
    ];
    for s in samples {
        assert_eq!(parse_index(s.as_bytes()), s.parse::<u16>().ok(), "{:?}", s);
    }
}

#[test]
fn every_index_survives_its_file_name() {
    for n in [0u16, 1, 9, 10, 99, 100, 999, 1000, 9999, 10000, 12345, 65535] {
        let name = file_name(n);
        assert!(has_suffix(&name));
        assert_eq!(index_of_name(&name), Some(n));
        assert_eq!(String::from_utf8(name).unwrap(), format!("{:04}.message", n));
    }
}

#[test]
fn suffix_needs_a_stem() {
    assert!(has_suffix(b"a.message"));
    assert!(has_suffix(b"..message"));
    assert!(!has_suffix(b".message"));
    assert!(!has_suffix(b"message"));
    assert!(!has_suffix(b"0001.messages"));
    assert!(!has_suffix(b"0001.MESSAGE"));
    assert!(!has_suffix(b""));
}

#[test]
fn suffix_agrees_with_the_extension_of_a_path() {
    let samples = [
        "0001.message",
        "1.message",
        ".message",
        "..message",
        "a.b.message",
        "message",
        "x.messages",
        "x.message.tmp",
        "x.Message",
        "files",
        "",
        "x.message.message",
        "+5.message",
    ];
    for s in samples {
        let path = std::path::Path::new(s);
        let by_path = path.extension().map(|e| e == "message").unwrap_or(false);
        assert_eq!(has_suffix(s.as_bytes()), by_path, "{:?}", s);
        if by_path {
            let stem = path.file_stem().and_then(|t| t.to_str()).unwrap();
            assert_eq!(index_of_name(s.as_bytes()), stem.parse::<u16>().ok(), "{:?}", s);
        }
    }
}
