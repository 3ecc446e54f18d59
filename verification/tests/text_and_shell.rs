use amuxd::shell::{shell_asset_content_type, shell_asset_path};
use amuxd::text::{
    chars_of, str_concat, contains, ends_with, lines, parse_i64, parse_u16, split_char, starts_with,
    str_eq, string_from_chars, trim,
};

#[test]
fn shell_assets_are_looked_up_under_assets() {
    assert_eq!(shell_asset_path("app.js"), Some("assets/app.js".to_string()));
    assert_eq!(shell_asset_path("../secret"), None);
    assert_eq!(shell_asset_path("a..b.css"), None);
    assert_eq!(shell_asset_content_type("app.css"), "text/css; charset=utf-8");
    assert_eq!(shell_asset_content_type("app.min.js"), "text/javascript; charset=utf-8");
    assert_eq!(shell_asset_content_type("index.html"), "text/html; charset=utf-8");
    assert_eq!(shell_asset_content_type("core.wasm"), "application/wasm");
    assert_eq!(shell_asset_content_type("README"), "application/octet-stream");
    assert_eq!(shell_asset_content_type("font.woff2"), "application/octet-stream");
}

#[test]
fn trimming_and_splitting_follow_std() {
    assert_eq!(trim("  a b \t\n"), "a b");
    assert_eq!(trim("\u{3000}x\u{a0}"), "x");
    assert_eq!(trim(""), "");
    assert_eq!(split_char("a|b||c", '|'), vec!["a", "b", "", "c"]);
    assert_eq!(split_char("", '|'), vec![""]);
    assert_eq!(lines("a\nb\r\n\nc"), vec!["a", "b", "", "c"]);
    assert_eq!(lines("a\n"), vec!["a"]);
    assert!(lines("").is_empty());
    assert_eq!(lines("x\r"), vec!["x\r"]);
}

#[test]
fn integers_parse_as_from_str_does() {
    assert_eq!(parse_u16("65535"), Some(65535));
    assert_eq!(parse_u16("65536"), None);
    assert_eq!(parse_u16("+7"), Some(7));
    assert_eq!(parse_u16("-0"), None);
    assert_eq!(parse_u16(""), None);
    assert_eq!(parse_u16("+"), None);
    assert_eq!(parse_i64("-9223372036854775808"), Some(i64::MIN));
    assert_eq!(parse_i64("9223372036854775807"), Some(i64::MAX));
    assert_eq!(parse_i64("9223372036854775808"), None);
    assert_eq!(parse_i64("-12"), Some(-12));
    assert_eq!(parse_i64("1 "), None);
}

#[test]
fn string_helpers() {
    assert_eq!(chars_of("héllo"), vec!['h', 'é', 'l', 'l', 'o']);
    let chars = chars_of("terminal");
    assert_eq!(string_from_chars(&chars, 2, 5), "rmi");
    assert_eq!(str_concat("tmux ", "ok"), "tmux ok");
    assert!(str_eq("a", "a") && !str_eq("a", "b"));
    assert!(starts_with("refs/heads/main", "refs/heads/"));
    assert!(!starts_with("refs", "refs/heads/"));
    assert!(ends_with("origin/HEAD", "/HEAD"));
    assert!(contains("no server running on x", "no server running"));
    assert!(!contains("no serve", "no server"));
    assert!(contains("abc", ""));
}
