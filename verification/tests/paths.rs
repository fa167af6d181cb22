use std::path::PathBuf;

use maint::paths::path_join;

#[test]
fn join_matches_pathbuf() {
    for (a, b) in [
        ("/usr/ports", "core"),
        ("/usr/ports/", "core"),
        ("/usr/ports", "/abs"),
        ("/usr/ports", ""),
        ("", "x"),
        ("a", "b/c"),
    ] {
        assert_eq!(PathBuf::from(path_join(a, b)), PathBuf::from(a).join(b), "{} + {}", a, b);
        assert_eq!(path_join(a, b), PathBuf::from(a).join(b).to_str().unwrap());
    }
}
