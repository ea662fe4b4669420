use subburn::paths::{ensure_mp4_extension, escape_filter_path, trim_path, unescape_filter_path};

#[test]
fn escape_round_trip() {
    let original = "C:\\Users\\a:b\\sub.ass";
    let escaped = escape_filter_path(original);
    assert_eq!(escaped, "C\\:/Users/a\\:b/sub.ass");

    // No unescaped colon: every colon is immediately preceded by a backslash.
    let chars: Vec<char> = escaped.chars().collect();
    for i in 0..chars.len() {
        if chars[i] == ':' {
            assert!(i > 0 && chars[i - 1] == '\\');
        }
    }

    // Undoing the escaping recovers the forward-slash form of the original.
    let recovered = unescape_filter_path(&escaped);
    assert_eq!(recovered, "C:/Users/a:b/sub.ass");
    assert_eq!(recovered, original.replace('\\', "/"));
}

#[test]
fn escape_plain_path_unchanged() {
    let escaped = escape_filter_path("/home/user/sub.ass");
    assert_eq!(escaped, "/home/user/sub.ass");
    assert_eq!(unescape_filter_path(&escaped), "/home/user/sub.ass");
}

#[test]
fn extension_appended_when_missing() {
    assert_eq!(ensure_mp4_extension("out"), "out.mp4");
    assert_eq!(ensure_mp4_extension(""), ".mp4");
    assert_eq!(ensure_mp4_extension("movie.mkv"), "movie.mkv.mp4");
}

#[test]
fn extension_kept_when_present() {
    assert_eq!(ensure_mp4_extension("out.mp4"), "out.mp4");
    assert_eq!(ensure_mp4_extension(".mp4"), ".mp4");
}

#[test]
fn extension_rule_idempotent() {
    let once = ensure_mp4_extension("render/out");
    let twice = ensure_mp4_extension(&once);
    assert_eq!(once, "render/out.mp4");
    assert_eq!(twice, once);
}

#[test]
fn trim_keeps_short_path() {
    assert_eq!(trim_path("C:\\video.mp4"), "C:\\video.mp4");
}

#[test]
fn trim_cuts_long_path() {
    let long: String = "C:\\folder\\".repeat(6) + "video.mp4";
    let trimmed = trim_path(&long);
    let tail: String = long.chars().skip(long.chars().count() - 40).collect();
    assert_eq!(trimmed, format!("...{}", tail));
    assert_eq!(trimmed.chars().count(), 43);
}
