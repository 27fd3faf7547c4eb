use feed_ranker::text::{remove_all, trim_text};

#[test]
fn remove_all_scans_left_to_right() {
    assert_eq!(remove_all("```json\n[1]\n```", "```"), "json\n[1]\n");
    assert_eq!(remove_all("aaaa", "aa"), "");
    assert_eq!(remove_all("aaa", "aa"), "a");
    assert_eq!(remove_all("abc", "x"), "abc");
}

#[test]
fn trim_removes_unicode_white_space() {
    assert_eq!(trim_text("\u{00A0}\t x y \u{3000}\n"), "x y");
    assert_eq!(trim_text("   "), "");
    assert_eq!(trim_text("z"), "z");
}
