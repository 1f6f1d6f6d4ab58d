use clipboard_manager::text::{decimal_string, display_string, escape, unescape};
use clipboard_manager::utf16::{from_utf16_lossy, wz};

#[test]
fn escape_writes_backslash_and_line_breaks() {
    assert_eq!(escape("a\\b\r\nc"), "a\\\\b\\r\\nc");
    assert_eq!(escape("plain"), "plain");
    assert_eq!(escape(""), "");
}

#[test]
fn unescape_reads_escape_sequences() {
    assert_eq!(unescape("a\\\\b\\r\\nc"), "a\\b\r\nc");
    assert_eq!(unescape("\\t\\x"), "tx");
    assert_eq!(unescape("end\\"), "end");
    assert_eq!(unescape("\\"), "");
}

#[test]
fn unescape_undoes_escape() {
    for s in ["", "x", "\\", "\\n", "line1\nline2\r\n", "日本語\\テキスト\n", "\\\\\\r"] {
        assert_eq!(unescape(&escape(s)), s);
        assert!(!escape(s).contains('\n'));
        assert!(!escape(s).contains('\r'));
    }
}

#[test]
fn decimal_string_has_no_leading_zeros() {
    assert_eq!(decimal_string(0), "0");
    assert_eq!(decimal_string(7), "7");
    assert_eq!(decimal_string(1000), "1000");
    assert_eq!(decimal_string(u64::MAX), "18446744073709551615");
}

#[test]
fn display_string_flattens_and_trims() {
    assert_eq!(display_string("  a\nb\tc\r  "), "a b c");
    assert_eq!(display_string("\n\n"), "");
    assert_eq!(display_string("\u{3000}全角空白\u{3000}"), "全角空白");
}

#[test]
fn display_string_cuts_at_eighty_characters() {
    let long: String = std::iter::repeat('x').take(100).collect();
    let shown = display_string(&long);
    assert_eq!(shown.chars().count(), 81);
    assert!(shown.ends_with('…'));
    let exact: String = std::iter::repeat('y').take(80).collect();
    assert_eq!(display_string(&exact), exact);
}

#[test]
fn wz_encodes_utf16_with_terminator() {
    assert_eq!(wz("a\u{3042}\u{1F600}"), vec![0x61, 0x3042, 0xD83D, 0xDE00, 0]);
    assert_eq!(wz(""), vec![0]);
}

#[test]
fn from_utf16_lossy_replaces_unpaired_surrogates() {
    assert_eq!(from_utf16_lossy(&vec![0x61, 0xD83D, 0xDE00]), "a\u{1F600}");
    assert_eq!(from_utf16_lossy(&vec![0xD800, 0x62]), "\u{FFFD}b");
    assert_eq!(from_utf16_lossy(&vec![0xDC00]), "\u{FFFD}");
    assert_eq!(from_utf16_lossy(&vec![]), "");
}

#[test]
fn utf16_round_trip() {
    for s in ["", "abc", "クリップボード", "\u{1F4CB} clip", "\u{FFFF}\u{10000}"] {
        let mut units = wz(s);
        assert_eq!(units.pop(), Some(0));
        assert_eq!(from_utf16_lossy(&units), s);
    }
}

#[test]
fn zero_terminated_read_back() {
    for s in ["", "text", "日本語\r\n", "\u{1F600}x"] {
        let units = wz(s);
        let end = units.iter().position(|&u| u == 0).unwrap();
        assert_eq!(end, units.len() - 1);
        assert_eq!(from_utf16_lossy(&units[..end].to_vec()), s);
    }
}
