use artifact_server::router::artifacts_handler;
use artifact_server::text::all_whitespace;
use artifact_server::text::split_slash;
use artifact_server::text::str_eq;

#[test]
fn whitespace_test_agrees_with_str_trim() {
    // every scalar value up to a little past the highest whitespace
    // character, plus a few beyond
    let mut checked = 0;
    for u in 0u32..=0x3100 {
        if let Some(c) = char::from_u32(u) {
            let s = c.to_string();
            assert_eq!(all_whitespace(&s), s.trim().is_empty(), "scalar {:#x}", u);
            checked += 1;
        }
    }
    assert!(checked > 0x3000);
    for s in ["", " \t\r\n", "\u{00A0}\u{2003}", " x ", "x"] {
        assert_eq!(all_whitespace(s), s.trim().is_empty());
    }
}

#[test]
fn split_keeps_empty_segments_like_str_split() {
    for s in ["", "/", "/artifacts", "/artifacts/", "/a//b/", "no-slash", "//"] {
        let mine = split_slash(s);
        let std_split: Vec<&str> = s.split('/').collect();
        assert_eq!(mine, std_split);
    }
}

#[test]
fn string_equality_is_exact() {
    assert!(str_eq("artifacts", "artifacts"));
    assert!(!str_eq("artifacts", "Artifacts"));
    assert!(!str_eq("artifacts", "artifacts "));
    assert!(!str_eq("", "a"));
    assert!(str_eq("", ""));
}

#[test]
fn unicode_whitespace_id_segment_returns_the_full_list() {
    let bare = artifacts_handler("GET", "/artifacts");
    let padded = artifacts_handler("GET", "/artifacts/\u{00A0}\u{2003}");
    assert_eq!(padded.status_code, 200);
    assert_eq!(padded.body, bare.body);
}
