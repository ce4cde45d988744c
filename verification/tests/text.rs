use url_uploader::text::{
    contains_char, ends_with_str, starts_with_str, str_equal, strip_prefix_all_str, trim_quotes_str,
    trim_ws_str,
};

#[test]
fn trim_agrees_with_std_on_every_white_space() {
    for cp in 0u32..0x3100 {
        if let Some(c) = char::from_u32(cp) {
            let s = format!("{c}a{c}b{c}");
            assert_eq!(trim_ws_str(&s), s.trim(), "char {:#x}", cp);
        }
    }
}

#[test]
fn trim_quotes_matches_std() {
    for s in ["\"a\"", "\"\"a", "a\"\"", "\"\"\"", "", "a\"b", " \"a\" "] {
        assert_eq!(trim_quotes_str(s), s.trim_matches('"'));
    }
}

#[test]
fn strip_prefix_all_matches_std() {
    for s in ["filename=x", "filename=filename=x", "x", "filename", "filename="] {
        assert_eq!(strip_prefix_all_str(s, "filename="), s.trim_start_matches("filename="));
        assert_eq!(strip_prefix_all_str(s, ""), s.trim_start_matches(""));
    }
}

#[test]
fn prefix_suffix_and_equality() {
    assert!(starts_with_str("video/mp4; codecs=x", "video/mp4"));
    assert!(!starts_with_str("video/mp", "video/mp4"));
    assert!(ends_with_str("a.mp4", ".mp4"));
    assert!(!ends_with_str("mp4", ".mp4"));
    assert!(ends_with_str("", ""));
    assert!(str_equal("start", "start"));
    assert!(!str_equal("start", "starts"));
    assert!(contains_char("a.b", '.'));
    assert!(!contains_char("ab", '.'));
}
