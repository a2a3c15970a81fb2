use blossom::text::{split_first, trim, zero_pad};
use blossom::text::{contains, replace_all, starts_with, str_eq, strip_prefix};

#[test]
fn contains_matches_substrings() {
    assert!(contains("hello world", "lo w"));
    assert!(contains("hello", ""));
    assert!(contains("", ""));
    assert!(!contains("hello", "world"));
    assert!(!contains("ab", "abc"));
    assert!(contains("aaab", "aab"));
}

#[test]
fn replace_all_scans_left_to_right() {
    assert_eq!(replace_all("aaa", "aa", "b"), "ba");
    assert_eq!(replace_all("x BLOSSOM_FG2 y", "BLOSSOM_FG", "#fff"), "x #fff2 y");
    assert_eq!(replace_all("abcabc", "bc", ""), "aa");
    assert_eq!(replace_all("none", "zz", "q"), "none");
    assert_eq!(replace_all("", "a", "b"), "");
}

#[test]
fn prefixes() {
    assert!(starts_with("org.mpris.MediaPlayer2.spotify", "org.mpris.MediaPlayer2."));
    assert!(!starts_with("org.freedesktop.DBus", "org.mpris.MediaPlayer2."));
    assert_eq!(strip_prefix("abcdef", "abc"), Some("def".to_string()));
    assert_eq!(strip_prefix("abcdef", "abd"), None);
}

#[test]
fn equality() {
    assert!(str_eq("Playing", "Playing"));
    assert!(!str_eq("Playing", "playing"));
    assert!(!str_eq("Play", "Playing"));
}

#[test]
fn fields_trimming_and_padding() {
    assert_eq!(split_first("Georgia, serif", ','), "Georgia");
    assert_eq!(split_first("Mono", ','), "Mono");
    assert_eq!(split_first(",x", ','), "");
    assert_eq!(trim("  Georgia \t"), "Georgia");
    assert_eq!(trim("\u{3000}a b\u{a0}"), "a b");
    assert_eq!(trim("   "), "");
    assert_eq!(zero_pad(7, 2), "07");
    assert_eq!(zero_pad(2024, 4), "2024");
    assert_eq!(zero_pad(12345, 4), "12345");
    assert_eq!(zero_pad(0, 3), "000");
    assert_eq!(zero_pad(0, 0), "0");
}
