use maint::dl::{content_length, dl_url, normalize_tarball, try_dl_url, try_normalize_tarball, DlError, Fetch, TarballError};
use maint::package::Package;

fn pkg(source: &str) -> Package {
    Package::new("core", "zlib", &format!("1.3\n\n\n\n{source}\nhttps://e.org/p/fix.patch\n\n\n"), "t")
}

#[test]
fn tarball_names_are_normalized() {
    let p = pkg("");
    let cases = [
        ("zlib-1.3.tar.bz2", "zlib=1.3.tar.bz2"),
        ("zlib-1.3.tbz", "zlib=1.3.tar.bz2"),
        ("zlib-1.3.tb2", "zlib=1.3.tar.bz2"),
        ("zlib-1.3.tbz2", "zlib=1.3.tar.bz2"),
        ("zlib-1.3.tz2", "zlib=1.3.tar.bz2"),
        ("zlib-1.3.tar.gz", "zlib=1.3.tar.gz"),
        ("zlib-1.3.tgz", "zlib=1.3.tar.gz"),
        ("zlib-1.3.taz", "zlib=1.3.tar.gz"),
        ("zlib-1.3.tar.lz", "zlib=1.3.tar.lz"),
        ("zlib-1.3.tar.lzma", "zlib=1.3.tar.lzma"),
        ("zlib-1.3.tlz", "zlib=1.3.tar.lzma"),
        ("zlib-1.3.tar.lzo", "zlib=1.3.tar.lzo"),
        ("zlib-1.3.tar.xz", "zlib=1.3.tar.xz"),
        ("zlib-1.3.txz", "zlib=1.3.tar.xz"),
        ("zlib-1.3.tar.zst", "zlib=1.3.tar.zst"),
        ("zlib-1.3.tzst", "zlib=1.3.tar.zst"),
    ];
    for (tb, want) in cases {
        assert_eq!(normalize_tarball(&p, tb), want, "{}", tb);
        assert_eq!(normalize_tarball(&p, want), want, "{}", want);
    }
}

#[test]
fn tarball_errors() {
    let p = pkg("");
    assert_eq!(try_normalize_tarball(&p, "zlib.zip"), Err(TarballError::NoExtension));
    assert_eq!(
        try_normalize_tarball(&p, "zlib.tar"),
        Err(TarballError::Unsupported(".tar".to_string()))
    );
    assert_eq!(
        try_normalize_tarball(&p, "zlib.tar.gz.tmp"),
        Err(TarballError::Unsupported(".tmp".to_string()))
    );
}

#[test]
fn source_tarball_goes_under_normalized_name() {
    let p = pkg("https://zlib.net/zlib-1.3.tar.xz");
    let f = dl_url("https://zlib.net/zlib-1.3.tar.xz", &p);
    assert_eq!(
        f,
        Fetch {
            out: "/usr/ports/core/zlib/.sources/zlib=1.3.tar.xz".to_string(),
            sources_dir: Some("/usr/ports/core/zlib/.sources".to_string()),
        }
    );
}

#[test]
fn other_url_goes_under_last_segment() {
    let p = pkg("https://zlib.net/zlib-1.3.tar.xz");
    let f = dl_url("https://e.org/p/fix.patch", &p);
    assert_eq!(f.out, "/usr/ports/core/zlib/.sources/fix.patch");
    assert_eq!(f.sources_dir, None);
}

#[test]
fn download_errors() {
    let p = pkg("https://zlib.net/zlib-1.3.zip");
    assert_eq!(
        try_dl_url("https://zlib.net/zlib-1.3.zip", &p),
        Err(DlError::Tarball(TarballError::NoExtension))
    );
    assert_eq!(try_dl_url("nofile", &p), Err(DlError::NoFileName));
    let q = pkg("");
    assert_eq!(try_dl_url("", &q), Err(DlError::NoFileName));
}

#[test]
fn content_length_reads_header() {
    assert_eq!(content_length(None), 8192);
    assert_eq!(content_length(Some("1234")), 1234);
    assert_eq!(content_length(Some("+7")), 7);
    assert_eq!(content_length(Some("")), 8192);
    assert_eq!(content_length(Some("+")), 8192);
    assert_eq!(content_length(Some("-1")), 8192);
    assert_eq!(content_length(Some("12a")), 8192);
    assert_eq!(content_length(Some("18446744073709551615")), u64::MAX);
    assert_eq!(content_length(Some("18446744073709551616")), 8192);
    assert_eq!(content_length(Some("99999999999999999999x")), 8192);
    for s in ["0", "007", "+0", " 1", "1 ", "42"] {
        assert_eq!(content_length(Some(s)), s.parse::<u64>().unwrap_or(8192), "{}", s);
    }
}
