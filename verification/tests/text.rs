use maint::text::{
    join, lines, rsplit_once, rsplit_once_str, split_once, split_whitespace, starts_with,
    strip_prefix, text_eq, trim, trim_end_matches,
};

#[test]
fn trim_matches_std() {
    for s in ["", "   ", " a ", "\t\nab c\r\n", "\u{3000}x\u{85}", "x", "  inner  space  "] {
        assert_eq!(trim(s), s.trim());
    }
}

#[test]
fn lines_match_std() {
    for s in [
        "",
        "a",
        "a\n",
        "a\nb",
        "a\r\nb\r\n",
        "\n\n",
        "a\rb\nc\r",
        "one\n\ntwo\n",
    ] {
        let ours: Vec<&str> = lines(s);
        let std: Vec<&str> = s.lines().collect();
        assert_eq!(ours, std, "lines of {:?}", s);
    }
}

#[test]
fn words_match_std() {
    for s in ["", "  ", "a", " a  b\tc\n", "x\u{2003}y", "lib dep1   dep2 "] {
        let ours: Vec<&str> = split_whitespace(s);
        let std: Vec<&str> = s.split_whitespace().collect();
        assert_eq!(ours, std, "words of {:?}", s);
    }
}

#[test]
fn split_once_matches_std() {
    for s in ["", "a/b", "a/b/c", "/", "abc", "é/ü/x"] {
        assert_eq!(split_once(s, '/'), s.split_once('/'));
        assert_eq!(rsplit_once(s, '/'), s.rsplit_once('/'));
    }
}

#[test]
fn rsplit_once_str_matches_std() {
    for s in ["foo-1.0.tar.gz", "a.tgz", "none", ".t", "x.t.t", "pkg.tar.zst"] {
        assert_eq!(rsplit_once_str(s, ".t"), s.rsplit_once(".t"));
    }
}

#[test]
fn prefixes_and_suffixes() {
    assert!(starts_with("#d fixed", "#d"));
    assert!(!starts_with("#", "#d"));
    assert_eq!(strip_prefix("#d  note ", "#d"), Some("  note "));
    assert_eq!(strip_prefix("VERS=1", "#d"), None);
    assert_eq!(trim_end_matches("2-repo.git.git", ".git"), "2-repo");
    assert_eq!(trim_end_matches("2-repo", ".git"), "2-repo");
    assert!(text_eq("abc", "abc"));
    assert!(!text_eq("abc", "abd"));
    assert!(!text_eq("abc", "ab"));
}

#[test]
fn join_matches_std() {
    let parts = vec!["a".to_string(), "".to_string(), "c".to_string()];
    assert_eq!(join(&parts, "\n"), parts.join("\n"));
    let none: Vec<String> = vec![];
    assert_eq!(join(&none, "\n"), "");
}
