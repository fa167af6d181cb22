use maint::maintarg::MaintArg;

#[test]
fn arg_with_version() {
    let a = MaintArg::new("core/zlib=1.3.1");
    assert_eq!(a.repo, "core");
    assert_eq!(a.name, "zlib");
    assert_eq!(a.version, Some("1.3.1"));
}

#[test]
fn arg_without_version() {
    let a = MaintArg::new("  extra/vim \n");
    assert_eq!(a.repo, "extra");
    assert_eq!(a.name, "vim");
    assert_eq!(a.version, None);
}

#[test]
fn arg_name_is_untrimmed_rest_without_version() {
    // The argument is trimmed as a whole; the rest after `/` keeps its
    // inner whitespace when there is no `=`.
    let a = MaintArg::new("core/ zlib");
    assert_eq!(a.repo, "core");
    assert_eq!(a.name, " zlib");
    assert_eq!(a.version, None);
}

#[test]
fn arg_name_from_trimmed_rest_with_version() {
    let a = MaintArg::new("core/ zlib=1");
    assert_eq!(a.name, "zlib");
    assert_eq!(a.version, Some("1"));
}

#[test]
fn arg_splits_at_first_slash_and_equals() {
    let a = MaintArg::new("a/b/c=1=2");
    assert_eq!(a.repo, "a");
    assert_eq!(a.name, "b/c");
    assert_eq!(a.version, Some("1=2"));
}

#[test]
fn arg_without_slash_is_refused() {
    assert!(MaintArg::try_new("zlib=1").is_none());
    assert!(MaintArg::try_new("").is_none());
    assert!(MaintArg::try_new("x/").is_some());
}
