use maint::package::{Package, Url};

const OUTPUT: &str = "1.3.1\n  A compression library \nlibs  core\n\nhttps://zlib.net/zlib-1.3.1.tar.xz\nhttps://a.org/x.patch  https://b.org/y.patch\nhttps://zlib.net\ncurl -s https://zlib.net | grep tar\n";

#[test]
fn package_from_build_output() {
    let p = Package::new("core", "zlib", OUTPUT, "2024-01-01 00:00:00");
    assert_eq!(p.repo, "core");
    assert_eq!(p.name, "zlib");
    assert_eq!(p.version, "1.3.1");
    assert_eq!(p.description.as_deref(), Some("A compression library"));
    assert_eq!(p.categories, Some(vec!["libs".to_string(), "core".to_string()]));
    assert_eq!(p.dependencies, None);
    let src = p.source.as_ref().unwrap();
    assert_eq!(src.url, "https://zlib.net/zlib-1.3.1.tar.xz");
    assert_eq!(src.hash, "");
    let extra = p.extra.as_ref().unwrap();
    assert_eq!(extra.len(), 2);
    assert_eq!(extra[0].url, "https://a.org/x.patch");
    assert_eq!(extra[1].url, "https://b.org/y.patch");
    assert_eq!(extra[1].hash, "");
    assert_eq!(p.upstream.as_deref(), Some("https://zlib.net"));
    assert_eq!(p.version_command.as_deref(), Some("curl -s https://zlib.net | grep tar"));
    assert_eq!(p.timestamp, "2024-01-01 00:00:00");
}

#[test]
fn package_with_empty_fields() {
    let p = Package::new("core", "tiny", "0.1\n\n\n\n\n\n\n\n", "t");
    assert_eq!(p.version, "0.1");
    assert_eq!(p.description, None);
    assert_eq!(p.categories, None);
    assert_eq!(p.dependencies, None);
    assert!(p.source.is_none());
    assert!(p.extra.is_none());
    assert_eq!(p.upstream, None);
    assert_eq!(p.version_command, None);
}

#[test]
fn package_paths_and_text() {
    let p = Package::new("core", "zlib", OUTPUT, "t");
    assert_eq!(p.dir(), "/usr/ports/core/zlib");
    assert_eq!(p.build_path(), "/usr/ports/core/zlib/BUILD");
    assert_eq!(p.lock_path(), "/usr/ports/core/zlib/LOCK");
    assert_eq!(p.sources_dir(), "/usr/ports/core/zlib/.sources/");
    assert_eq!(p.to_string(), "core/zlib=1.3.1");
}

#[test]
fn package_query_command() {
    let repo = "core";
    let name = "zlib";
    let expected = format!(r#"source /usr/ports/{repo}/{name}/BUILD; echo "$VERS"; echo "$DESC"; echo "${{CATG[@]}}"; echo "${{DEPS[@]}}"; echo "$SOURCE"; echo "${{EXTRA[@]}}"; echo "$UPST"; echo "$VCMD""#);
    assert_eq!(Package::query_command(repo, name), expected);
}

#[test]
fn package_text_reads_back_as_argument() {
    let p = Package::new("core", "zlib", OUTPUT, "t");
    let text = p.to_string();
    let a = maint::maintarg::MaintArg::new(&text);
    assert_eq!(a.repo, p.repo);
    assert_eq!(a.name, p.name);
    assert_eq!(a.version, Some(p.version.as_str()));
}

#[test]
fn url_new_and_hash() {
    let u = Url::new("https://x.org/a.tar.gz");
    assert_eq!(u.url, "https://x.org/a.tar.gz");
    assert_eq!(u.hash, "");
    let h = u.hash(b"abc");
    assert_eq!(h.url, "https://x.org/a.tar.gz");
    assert_eq!(h.hash, "ungWv48Bz-pBQUDeXa4iI7ADYaOWF3qctBD_YfIAFa0");
}

#[test]
fn file_hash_known_values() {
    assert_eq!(maint::hash::file_hash(b""), "47DEQpj8HBSa-_TImW-5JCeuQeRkm5NMpJWZG3hSuFU");
    assert_eq!(
        maint::hash::file_hash(b"hello world\n"),
        "qUiQTy8PR5uPgZdpSzAYSw0u0cHNKh7A-4XSmaGSpEc"
    );
    let h = maint::hash::file_hash(b"some file contents");
    assert_eq!(h.len(), 43);
    assert!(h.chars().all(|c| c.is_ascii_alphanumeric() || c == '-' || c == '_'));
}

#[test]
fn url_safe_replaces_and_trims() {
    assert_eq!(maint::hash::url_safe("a+b/c=="), "a-b_c");
    assert_eq!(maint::hash::url_safe("=a="), "=a");
    assert_eq!(maint::hash::url_safe(""), "");
}
