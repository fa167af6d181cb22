//! Where downloaded sources go: the canonical name of a source tarball and
//! the file that each URL of a package is saved to.
use vstd::prelude::*;
use vstd::string::*;

use crate::package::Package;
use crate::text::{
    cat, lemma_rsplit_last_segment, last_occurrence, lemma_last_occurrence_unique, occurs_at, opt_view, owned, parse_u64,
    parse_u64_of, rsplit_once, rsplit_once_of, rsplit_once_str, rsplit_once_str_of, starts_with_of, text_eq,
};

verus! {

/// The extension of a tarball name: `.t` and all that follows its last
/// occurrence.
pub open spec fn tarball_ext_of(tb: Seq<char>) -> Option<Seq<char>> {
    match rsplit_once_str_of(tb, ".t"@) {
        Some((_, e)) => Some(".t"@ + e),
        None => None,
    }
}

/// The canonical form of a supported tarball extension.
pub open spec fn canonical_ext_of(ext: Seq<char>) -> Option<Seq<char>> {
    if ext == ".tar.bz2"@ || ext == ".tbz"@ || ext == ".tb2"@ || ext == ".tbz2"@ || ext
        == ".tz2"@ {
        Some(".tar.bz2"@)
    } else if ext == ".tar.gz"@ || ext == ".tgz"@ || ext == ".taz"@ {
        Some(".tar.gz"@)
    } else if ext == ".tar.lz"@ {
        Some(".tar.lz"@)
    } else if ext == ".tar.lzma"@ || ext == ".tlz"@ {
        Some(".tar.lzma"@)
    } else if ext == ".tar.lzo"@ {
        Some(".tar.lzo"@)
    } else if ext == ".tar.xz"@ || ext == ".txz"@ {
        Some(".tar.xz"@)
    } else if ext == ".tar.zst"@ || ext == ".tzst"@ {
        Some(".tar.zst"@)
    } else {
        None
    }
}

/// The name a tarball is saved under: `NAME=VERS` and the canonical form
/// of its extension; nothing when it has no extension or an unsupported one.
pub open spec fn normalized_tarball_of(name: Seq<char>, version: Seq<char>, tb: Seq<char>) -> Option<
    Seq<char>,
> {
    match tarball_ext_of(tb) {
        None => None,
        Some(ext) => match canonical_ext_of(ext) {
            Some(c) => Some(name + "="@ + version + c),
            None => None,
        },
    }
}

/// Why a tarball name cannot be normalized.
#[derive(Debug, PartialEq, Eq)]
pub enum TarballError {
    /// The name holds no `.t`.
    NoExtension,
    /// The extension (given) is not one of the supported ones.
    Unsupported(String),
}

/// The canonical form of the extension `ext`, if it is supported.
fn canonical_ext(ext: &str) -> (res: Option<&'static str>)
    ensures
        match res {
            Some(c) => canonical_ext_of(ext@) == Some(c@),
            None => canonical_ext_of(ext@) is None,
        },
{
    if text_eq(ext, ".tar.bz2") || text_eq(ext, ".tbz") || text_eq(ext, ".tb2") || text_eq(
        ext,
        ".tbz2",
    ) || text_eq(ext, ".tz2") {
        Some(".tar.bz2")
    } else if text_eq(ext, ".tar.gz") || text_eq(ext, ".tgz") || text_eq(ext, ".taz") {
        Some(".tar.gz")
    } else if text_eq(ext, ".tar.lz") {
        Some(".tar.lz")
    } else if text_eq(ext, ".tar.lzma") || text_eq(ext, ".tlz") {
        Some(".tar.lzma")
    } else if text_eq(ext, ".tar.lzo") {
        Some(".tar.lzo")
    } else if text_eq(ext, ".tar.xz") || text_eq(ext, ".txz") {
        Some(".tar.xz")
    } else if text_eq(ext, ".tar.zst") || text_eq(ext, ".tzst") {
        Some(".tar.zst")
    } else {
        None
    }
}

/// The name that tarball `tb` of package `p` is saved under, or why it has
/// none.
pub fn try_normalize_tarball(p: &Package, tb: &str) -> (res: Result<String, TarballError>)
    ensures
        match res {
            Ok(n) => normalized_tarball_of(p.name@, p.version@, tb@) == Some(n@),
            Err(TarballError::NoExtension) => tarball_ext_of(tb@) is None,
            Err(TarballError::Unsupported(e)) => tarball_ext_of(tb@) == Some(e@)
                && canonical_ext_of(e@) is None,
        },
{
    proof {
        reveal_strlit(".t");
    }
    match rsplit_once_str(tb, ".t") {
        None => Err(TarballError::NoExtension),
        Some((_, e)) => {
            let ext = cat(".t", e);
            match canonical_ext(ext.as_str()) {
                None => Err(TarballError::Unsupported(ext)),
                Some(c) => {
                    let mut n = owned(p.name.as_str());
                    n.append("=");
                    n.append(p.version.as_str());
                    n.append(c);
                    Ok(n)
                },
            }
        },
    }
}

/// The name that tarball `tb` of package `p` is saved under: `NAME=VERS`
/// and the canonical form of the tarball's extension.
pub fn normalize_tarball(p: &Package, tb: &str) -> (res: String)
    requires
        normalized_tarball_of(p.name@, p.version@, tb@) is Some,
    ensures
        normalized_tarball_of(p.name@, p.version@, tb@) == Some(res@),
{
    match try_normalize_tarball(p, tb) {
        Ok(n) => n,
        Err(_) => {
            proof {
                assert(false);
            }
            String::new()
        },
    }
}

/// A normalized tarball name normalizes to itself.
pub proof fn lemma_normalize_idempotent(name: Seq<char>, version: Seq<char>, tb: Seq<char>)
    requires
        normalized_tarball_of(name, version, tb) is Some,
    ensures
        normalized_tarball_of(name, version, normalized_tarball_of(name, version, tb)->0)
            == normalized_tarball_of(name, version, tb),
{
    reveal_strlit(".t");
    reveal_strlit("=");
    reveal_strlit(".tar.bz2");
    reveal_strlit(".tar.gz");
    reveal_strlit(".tar.lz");
    reveal_strlit(".tar.lzma");
    reveal_strlit(".tar.lzo");
    reveal_strlit(".tar.xz");
    reveal_strlit(".tar.zst");
    reveal_strlit(".tbz");
    reveal_strlit(".tb2");
    reveal_strlit(".tbz2");
    reveal_strlit(".tz2");
    reveal_strlit(".tgz");
    reveal_strlit(".taz");
    reveal_strlit(".tlz");
    reveal_strlit(".txz");
    reveal_strlit(".tzst");
    let ext = tarball_ext_of(tb)->0;
    let c = canonical_ext_of(ext)->0;
    let pre = name + "="@ + version;
    let out = pre + c;
    let k = pre.len() as int;
    assert(c.len() >= 7);
    assert(c[0] == '.' && c[1] == 't');
    assert(out.subrange(k, k + 2) =~= ".t"@);
    assert forall|j: int| k < j implies !#[trigger] occurs_at(out, ".t"@, j) by {
        if occurs_at(out, ".t"@, j) {
            assert(out.subrange(j, j + 2)[0] == out[j]);
            assert(out.subrange(j, j + 2)[1] == out[j + 1]);
            assert(out[j] == c[j - k]);
            assert(out[j + 1] == c[j + 1 - k]);
        }
    }
    assert(last_occurrence(out, ".t"@, k));
    let i = choose|i: int| last_occurrence(out, ".t"@, i);
    lemma_last_occurrence_unique(out, ".t"@, k, i);
    assert(".t"@ + out.skip(k + 2) =~= c);
    assert(canonical_ext_of(c) == Some(c));
}

/// A name that ends with `x`, where `x` begins with `.t` and holds no
/// other `.t`, has `x` as its extension, whatever precedes it.
proof fn lemma_tarball_ext_suffix(a: Seq<char>, x: Seq<char>)
    requires
        x.len() >= 2,
        x[0] == '.',
        x[1] == 't',
        forall|j: int| 0 < j && j + 1 < x.len() ==> !(#[trigger] x[j] == '.' && x[j + 1] == 't'),
    ensures
        tarball_ext_of(a + x) == Some(x),
{
    reveal_strlit(".t");
    let s = a + x;
    let k = a.len() as int;
    assert(s.subrange(k, k + 2) =~= ".t"@);
    assert forall|j: int| k < j implies !#[trigger] occurs_at(s, ".t"@, j) by {
        if occurs_at(s, ".t"@, j) {
            assert(s.subrange(j, j + 2)[0] == s[j]);
            assert(s.subrange(j, j + 2)[1] == s[j + 1]);
            let m = j - k;
            assert(s[j] == x[m]);
            assert(s[j + 1] == x[m + 1]);
        }
    }
    assert(last_occurrence(s, ".t"@, k));
    let i = choose|i: int| last_occurrence(s, ".t"@, i);
    lemma_last_occurrence_unique(s, ".t"@, k, i);
    assert(".t"@ + s.skip(k + 2) =~= x);
}

/// The canonical forms of the bzip2 and gzip tarball extensions.
#[verifier::spinoff_prover]
proof fn lemma_canonical_bz2_gz()
    ensures
        canonical_ext_of(".tar.bz2"@) == Some(".tar.bz2"@),
        canonical_ext_of(".tbz"@) == Some(".tar.bz2"@),
        canonical_ext_of(".tb2"@) == Some(".tar.bz2"@),
        canonical_ext_of(".tbz2"@) == Some(".tar.bz2"@),
        canonical_ext_of(".tz2"@) == Some(".tar.bz2"@),
        canonical_ext_of(".tar.gz"@) == Some(".tar.gz"@),
        canonical_ext_of(".tgz"@) == Some(".tar.gz"@),
        canonical_ext_of(".taz"@) == Some(".tar.gz"@),
{
    reveal_strlit(".tar.bz2");
    reveal_strlit(".tar.gz");
    reveal_strlit(".taz");
    reveal_strlit(".tb2");
    reveal_strlit(".tbz");
    reveal_strlit(".tbz2");
    reveal_strlit(".tgz");
    reveal_strlit(".tz2");
    assert(".tbz"@.len() != ".tar.bz2"@.len());
    assert(".tb2"@.len() != ".tar.bz2"@.len());
    assert(".tb2"@[3] != ".tbz"@[3]);
    assert(".tbz2"@.len() != ".tar.bz2"@.len());
    assert(".tbz2"@.len() != ".tbz"@.len());
    assert(".tbz2"@.len() != ".tb2"@.len());
    assert(".tz2"@.len() != ".tar.bz2"@.len());
    assert(".tz2"@[2] != ".tbz"@[2]);
    assert(".tz2"@[2] != ".tb2"@[2]);
    assert(".tz2"@.len() != ".tbz2"@.len());
    assert(".tar.gz"@.len() != ".tar.bz2"@.len());
    assert(".tar.gz"@.len() != ".tbz"@.len());
    assert(".tar.gz"@.len() != ".tb2"@.len());
    assert(".tar.gz"@.len() != ".tbz2"@.len());
    assert(".tar.gz"@.len() != ".tz2"@.len());
    assert(".tgz"@.len() != ".tar.bz2"@.len());
    assert(".tgz"@[2] != ".tbz"@[2]);
    assert(".tgz"@[2] != ".tb2"@[2]);
    assert(".tgz"@.len() != ".tbz2"@.len());
    assert(".tgz"@[2] != ".tz2"@[2]);
    assert(".tgz"@.len() != ".tar.gz"@.len());
    assert(".taz"@.len() != ".tar.bz2"@.len());
    assert(".taz"@[2] != ".tbz"@[2]);
    assert(".taz"@[2] != ".tb2"@[2]);
    assert(".taz"@.len() != ".tbz2"@.len());
    assert(".taz"@[2] != ".tz2"@[2]);
    assert(".taz"@.len() != ".tar.gz"@.len());
    assert(".taz"@[2] != ".tgz"@[2]);
}

/// The canonical forms of the other supported tarball extensions.
#[verifier::spinoff_prover]
proof fn lemma_canonical_others()
    ensures
        canonical_ext_of(".tar.lz"@) == Some(".tar.lz"@),
        canonical_ext_of(".tar.lzma"@) == Some(".tar.lzma"@),
        canonical_ext_of(".tlz"@) == Some(".tar.lzma"@),
        canonical_ext_of(".tar.lzo"@) == Some(".tar.lzo"@),
        canonical_ext_of(".tar.xz"@) == Some(".tar.xz"@),
        canonical_ext_of(".txz"@) == Some(".tar.xz"@),
        canonical_ext_of(".tar.zst"@) == Some(".tar.zst"@),
        canonical_ext_of(".tzst"@) == Some(".tar.zst"@),
{
    reveal_strlit(".tar.bz2");
    reveal_strlit(".tar.gz");
    reveal_strlit(".tar.lz");
    reveal_strlit(".tar.lzma");
    reveal_strlit(".tar.lzo");
    reveal_strlit(".tar.xz");
    reveal_strlit(".tar.zst");
    reveal_strlit(".taz");
    reveal_strlit(".tb2");
    reveal_strlit(".tbz");
    reveal_strlit(".tbz2");
    reveal_strlit(".tgz");
    reveal_strlit(".tlz");
    reveal_strlit(".txz");
    reveal_strlit(".tz2");
    reveal_strlit(".tzst");
    assert(".tar.lz"@.len() != ".tar.bz2"@.len());
    assert(".tar.lz"@.len() != ".tbz"@.len());
    assert(".tar.lz"@.len() != ".tb2"@.len());
    assert(".tar.lz"@.len() != ".tbz2"@.len());
    assert(".tar.lz"@.len() != ".tz2"@.len());
    assert(".tar.lz"@[5] != ".tar.gz"@[5]);
    assert(".tar.lz"@.len() != ".tgz"@.len());
    assert(".tar.lz"@.len() != ".taz"@.len());
    assert(".tar.lzma"@.len() != ".tar.bz2"@.len());
    assert(".tar.lzma"@.len() != ".tbz"@.len());
    assert(".tar.lzma"@.len() != ".tb2"@.len());
    assert(".tar.lzma"@.len() != ".tbz2"@.len());
    assert(".tar.lzma"@.len() != ".tz2"@.len());
    assert(".tar.lzma"@.len() != ".tar.gz"@.len());
    assert(".tar.lzma"@.len() != ".tgz"@.len());
    assert(".tar.lzma"@.len() != ".taz"@.len());
    assert(".tar.lzma"@.len() != ".tar.lz"@.len());
    assert(".tlz"@.len() != ".tar.bz2"@.len());
    assert(".tlz"@[2] != ".tbz"@[2]);
    assert(".tlz"@[2] != ".tb2"@[2]);
    assert(".tlz"@.len() != ".tbz2"@.len());
    assert(".tlz"@[2] != ".tz2"@[2]);
    assert(".tlz"@.len() != ".tar.gz"@.len());
    assert(".tlz"@[2] != ".tgz"@[2]);
    assert(".tlz"@[2] != ".taz"@[2]);
    assert(".tlz"@.len() != ".tar.lz"@.len());
    assert(".tlz"@.len() != ".tar.lzma"@.len());
    assert(".tar.lzo"@[5] != ".tar.bz2"@[5]);
    assert(".tar.lzo"@.len() != ".tbz"@.len());
    assert(".tar.lzo"@.len() != ".tb2"@.len());
    assert(".tar.lzo"@.len() != ".tbz2"@.len());
    assert(".tar.lzo"@.len() != ".tz2"@.len());
    assert(".tar.lzo"@.len() != ".tar.gz"@.len());
    assert(".tar.lzo"@.len() != ".tgz"@.len());
    assert(".tar.lzo"@.len() != ".taz"@.len());
    assert(".tar.lzo"@.len() != ".tar.lz"@.len());
    assert(".tar.lzo"@.len() != ".tar.lzma"@.len());
    assert(".tar.lzo"@.len() != ".tlz"@.len());
    assert(".tar.xz"@.len() != ".tar.bz2"@.len());
    assert(".tar.xz"@.len() != ".tbz"@.len());
    assert(".tar.xz"@.len() != ".tb2"@.len());
    assert(".tar.xz"@.len() != ".tbz2"@.len());
    assert(".tar.xz"@.len() != ".tz2"@.len());
    assert(".tar.xz"@[5] != ".tar.gz"@[5]);
    assert(".tar.xz"@.len() != ".tgz"@.len());
    assert(".tar.xz"@.len() != ".taz"@.len());
    assert(".tar.xz"@[5] != ".tar.lz"@[5]);
    assert(".tar.xz"@.len() != ".tar.lzma"@.len());
    assert(".tar.xz"@.len() != ".tlz"@.len());
    assert(".tar.xz"@.len() != ".tar.lzo"@.len());
    assert(".txz"@.len() != ".tar.bz2"@.len());
    assert(".txz"@[2] != ".tbz"@[2]);
    assert(".txz"@[2] != ".tb2"@[2]);
    assert(".txz"@.len() != ".tbz2"@.len());
    assert(".txz"@[2] != ".tz2"@[2]);
    assert(".txz"@.len() != ".tar.gz"@.len());
    assert(".txz"@[2] != ".tgz"@[2]);
    assert(".txz"@[2] != ".taz"@[2]);
    assert(".txz"@.len() != ".tar.lz"@.len());
    assert(".txz"@.len() != ".tar.lzma"@.len());
    assert(".txz"@[2] != ".tlz"@[2]);
    assert(".txz"@.len() != ".tar.lzo"@.len());
    assert(".txz"@.len() != ".tar.xz"@.len());
    assert(".tar.zst"@[5] != ".tar.bz2"@[5]);
    assert(".tar.zst"@.len() != ".tbz"@.len());
    assert(".tar.zst"@.len() != ".tb2"@.len());
    assert(".tar.zst"@.len() != ".tbz2"@.len());
    assert(".tar.zst"@.len() != ".tz2"@.len());
    assert(".tar.zst"@.len() != ".tar.gz"@.len());
    assert(".tar.zst"@.len() != ".tgz"@.len());
    assert(".tar.zst"@.len() != ".taz"@.len());
    assert(".tar.zst"@.len() != ".tar.lz"@.len());
    assert(".tar.zst"@.len() != ".tar.lzma"@.len());
    assert(".tar.zst"@.len() != ".tlz"@.len());
    assert(".tar.zst"@[5] != ".tar.lzo"@[5]);
    assert(".tar.zst"@.len() != ".tar.xz"@.len());
    assert(".tar.zst"@.len() != ".txz"@.len());
    assert(".tzst"@.len() != ".tar.bz2"@.len());
    assert(".tzst"@.len() != ".tbz"@.len());
    assert(".tzst"@.len() != ".tb2"@.len());
    assert(".tzst"@[2] != ".tbz2"@[2]);
    assert(".tzst"@.len() != ".tz2"@.len());
    assert(".tzst"@.len() != ".tar.gz"@.len());
    assert(".tzst"@.len() != ".tgz"@.len());
    assert(".tzst"@.len() != ".taz"@.len());
    assert(".tzst"@.len() != ".tar.lz"@.len());
    assert(".tzst"@.len() != ".tar.lzma"@.len());
    assert(".tzst"@.len() != ".tlz"@.len());
    assert(".tzst"@.len() != ".tar.lzo"@.len());
    assert(".tzst"@.len() != ".tar.xz"@.len());
    assert(".tzst"@.len() != ".txz"@.len());
    assert(".tzst"@.len() != ".tar.zst"@.len());
}

/// A tarball whose name ends with a supported extension is saved as
/// `NAME=VERS` and that extension's canonical form, whatever the name holds
/// before it.
/// The bzip2 and gzip extensions are found as such after any stem.
#[verifier::spinoff_prover]
proof fn lemma_tarball_exts_bz2_gz(stem: Seq<char>)
    ensures
        tarball_ext_of(stem + ".tar.bz2"@) == Some(".tar.bz2"@),
        tarball_ext_of(stem + ".tbz"@) == Some(".tbz"@),
        tarball_ext_of(stem + ".tb2"@) == Some(".tb2"@),
        tarball_ext_of(stem + ".tbz2"@) == Some(".tbz2"@),
        tarball_ext_of(stem + ".tz2"@) == Some(".tz2"@),
        tarball_ext_of(stem + ".tar.gz"@) == Some(".tar.gz"@),
        tarball_ext_of(stem + ".tgz"@) == Some(".tgz"@),
        tarball_ext_of(stem + ".taz"@) == Some(".taz"@),
{
    reveal_strlit(".tar.bz2");
    reveal_strlit(".tbz");
    reveal_strlit(".tb2");
    reveal_strlit(".tbz2");
    reveal_strlit(".tz2");
    reveal_strlit(".tar.gz");
    reveal_strlit(".tgz");
    reveal_strlit(".taz");
    lemma_tarball_ext_suffix(stem, ".tar.bz2"@);
    lemma_tarball_ext_suffix(stem, ".tbz"@);
    lemma_tarball_ext_suffix(stem, ".tb2"@);
    lemma_tarball_ext_suffix(stem, ".tbz2"@);
    lemma_tarball_ext_suffix(stem, ".tz2"@);
    lemma_tarball_ext_suffix(stem, ".tar.gz"@);
    lemma_tarball_ext_suffix(stem, ".tgz"@);
    lemma_tarball_ext_suffix(stem, ".taz"@);
}

/// The other supported extensions are found as such after any stem.
#[verifier::spinoff_prover]
proof fn lemma_tarball_exts_others(stem: Seq<char>)
    ensures
        tarball_ext_of(stem + ".tar.lz"@) == Some(".tar.lz"@),
        tarball_ext_of(stem + ".tar.lzma"@) == Some(".tar.lzma"@),
        tarball_ext_of(stem + ".tlz"@) == Some(".tlz"@),
        tarball_ext_of(stem + ".tar.lzo"@) == Some(".tar.lzo"@),
        tarball_ext_of(stem + ".tar.xz"@) == Some(".tar.xz"@),
        tarball_ext_of(stem + ".txz"@) == Some(".txz"@),
        tarball_ext_of(stem + ".tar.zst"@) == Some(".tar.zst"@),
        tarball_ext_of(stem + ".tzst"@) == Some(".tzst"@),
{
    reveal_strlit(".tar.lz");
    reveal_strlit(".tar.lzma");
    reveal_strlit(".tlz");
    reveal_strlit(".tar.lzo");
    reveal_strlit(".tar.xz");
    reveal_strlit(".txz");
    reveal_strlit(".tar.zst");
    reveal_strlit(".tzst");
    lemma_tarball_ext_suffix(stem, ".tar.lz"@);
    lemma_tarball_ext_suffix(stem, ".tar.lzma"@);
    lemma_tarball_ext_suffix(stem, ".tlz"@);
    lemma_tarball_ext_suffix(stem, ".tar.lzo"@);
    lemma_tarball_ext_suffix(stem, ".tar.xz"@);
    lemma_tarball_ext_suffix(stem, ".txz"@);
    lemma_tarball_ext_suffix(stem, ".tar.zst"@);
    lemma_tarball_ext_suffix(stem, ".tzst"@);
}

/// A tarball whose name ends with a supported extension is saved as
/// `NAME=VERS` and that extension's canonical form, whatever the name holds
/// before it.
pub proof fn lemma_tarball_names(name: Seq<char>, version: Seq<char>, stem: Seq<char>)
    ensures
        normalized_tarball_of(name, version, stem + ".tar.bz2"@) == Some(name + "="@ + version + ".tar.bz2"@),
        normalized_tarball_of(name, version, stem + ".tbz"@) == Some(name + "="@ + version + ".tar.bz2"@),
        normalized_tarball_of(name, version, stem + ".tb2"@) == Some(name + "="@ + version + ".tar.bz2"@),
        normalized_tarball_of(name, version, stem + ".tbz2"@) == Some(name + "="@ + version + ".tar.bz2"@),
        normalized_tarball_of(name, version, stem + ".tz2"@) == Some(name + "="@ + version + ".tar.bz2"@),
        normalized_tarball_of(name, version, stem + ".tar.gz"@) == Some(name + "="@ + version + ".tar.gz"@),
        normalized_tarball_of(name, version, stem + ".tgz"@) == Some(name + "="@ + version + ".tar.gz"@),
        normalized_tarball_of(name, version, stem + ".taz"@) == Some(name + "="@ + version + ".tar.gz"@),
        normalized_tarball_of(name, version, stem + ".tar.lz"@) == Some(name + "="@ + version + ".tar.lz"@),
        normalized_tarball_of(name, version, stem + ".tar.lzma"@) == Some(name + "="@ + version + ".tar.lzma"@),
        normalized_tarball_of(name, version, stem + ".tlz"@) == Some(name + "="@ + version + ".tar.lzma"@),
        normalized_tarball_of(name, version, stem + ".tar.lzo"@) == Some(name + "="@ + version + ".tar.lzo"@),
        normalized_tarball_of(name, version, stem + ".tar.xz"@) == Some(name + "="@ + version + ".tar.xz"@),
        normalized_tarball_of(name, version, stem + ".txz"@) == Some(name + "="@ + version + ".tar.xz"@),
        normalized_tarball_of(name, version, stem + ".tar.zst"@) == Some(name + "="@ + version + ".tar.zst"@),
        normalized_tarball_of(name, version, stem + ".tzst"@) == Some(name + "="@ + version + ".tar.zst"@),
{
    lemma_tarball_exts_bz2_gz(stem);
    lemma_tarball_exts_others(stem);
    lemma_canonical_bz2_gz();
    lemma_canonical_others();
}

/// A tarball whose name holds no `.t` has no name to be saved under.
pub proof fn lemma_tarball_without_extension(name: Seq<char>, version: Seq<char>, tb: Seq<char>)
    requires
        forall|j: int| 0 <= j && j + 1 < tb.len() ==> !(tb[j] == '.' && #[trigger] tb[j + 1] == 't'),
    ensures
        normalized_tarball_of(name, version, tb) is None,
{
    reveal_strlit(".t");
    if exists|i: int| last_occurrence(tb, ".t"@, i) {
        let i = choose|i: int| last_occurrence(tb, ".t"@, i);
        assert(tb.subrange(i, i + 2)[0] == tb[i]);
        assert(tb.subrange(i, i + 2)[1] == tb[i + 1]);
    }
}

/// Where a download goes: the file it is saved to, and the directory that
/// must be created first, if any.
#[derive(Debug, PartialEq, Eq)]
pub struct Fetch {
    pub out: String,
    pub sources_dir: Option<String>,
}

/// `url` is the package's non-empty source URL: it is saved as a tarball.
pub open spec fn is_tarball_source(url: Seq<char>, p: &Package) -> bool {
    &&& p.source matches Some(s)
    &&& s.url@ == url
    &&& url.len() > 0
}

/// The last `/`-separated segment of `url` (all of it when it has no `/`).
pub open spec fn last_segment_of(url: Seq<char>) -> Seq<char> {
    match rsplit_once_of(url, '/') {
        Some((_, r)) => r,
        None => url,
    }
}

/// Why a URL of a package has nowhere to be saved.
#[derive(Debug, PartialEq, Eq)]
pub enum DlError {
    /// The source tarball's name cannot be normalized.
    Tarball(TarballError),
    /// The URL holds no `/`.
    NoFileName,
}

/// `url` of package `p` has a place to be saved.
pub open spec fn dl_url_ok(url: Seq<char>, p: &Package) -> bool {
    if is_tarball_source(url, p) {
        normalized_tarball_of(p.name@, p.version@, last_segment_of(url)) is Some
    } else {
        rsplit_once_of(url, '/') is Some
    }
}

/// The file that `url` of package `p` is saved to: the source tarball under
/// its normalized name, any other URL under its last segment, both in the
/// package's `.sources` directory.
pub open spec fn fetch_out_of(url: Seq<char>, p: &Package) -> Seq<char> {
    if is_tarball_source(url, p) {
        p.dir_of() + "/.sources"@ + "/"@ + normalized_tarball_of(
            p.name@,
            p.version@,
            last_segment_of(url),
        )->0
    } else {
        p.dir_of() + "/.sources/"@ + (rsplit_once_of(url, '/')->0).1
    }
}

/// A URL is saved in the package's `.sources` directory under its last
/// `/`-separated segment (the source tarball under that segment's
/// normalized name), whatever precedes that segment.
pub proof fn lemma_fetch_last_segment(pkg: &Package, p: Seq<char>, t: Seq<char>)
    requires
        forall|k: int| 0 <= k < t.len() ==> #[trigger] t[k] != '/',
    ensures
        !is_tarball_source(p + seq!['/'] + t, pkg) ==> fetch_out_of(p + seq!['/'] + t, pkg)
            == pkg.dir_of() + "/.sources/"@ + t,
        is_tarball_source(p + seq!['/'] + t, pkg) ==> fetch_out_of(p + seq!['/'] + t, pkg)
            == pkg.dir_of() + "/.sources/"@ + normalized_tarball_of(pkg.name@, pkg.version@, t)->0,
{
    reveal_strlit("/.sources");
    reveal_strlit("/");
    reveal_strlit("/.sources/");
    lemma_rsplit_last_segment(p, t);
    let d = pkg.dir_of();
    assert(d + "/.sources"@ + "/"@ =~= d + "/.sources/"@);
}

/// Where `url` of package `p` is saved, or why it cannot be.
pub fn try_dl_url(url: &str, p: &Package) -> (res: Result<Fetch, DlError>)
    ensures
        match res {
            Ok(f) => {
                &&& dl_url_ok(url@, p)
                &&& f.out@ == fetch_out_of(url@, p)
                &&& opt_view(f.sources_dir) == if is_tarball_source(url@, p) {
                    Some(p.dir_of() + "/.sources"@)
                } else {
                    None
                }
            },
            Err(DlError::Tarball(e)) => is_tarball_source(url@, p) && match e {
                TarballError::NoExtension => tarball_ext_of(last_segment_of(url@)) is None,
                TarballError::Unsupported(x) => tarball_ext_of(last_segment_of(url@)) == Some(x@)
                    && canonical_ext_of(x@) is None,
            },
            Err(DlError::NoFileName) => !is_tarball_source(url@, p) && rsplit_once_of(url@, '/')
                is None,
        },
{
    let mut tarball = false;
    match &p.source {
        Some(src) => {
            if text_eq(src.url.as_str(), url) && url.unicode_len() > 0 {
                tarball = true;
            }
        },
        None => {},
    }
    if tarball {
        let file_name = match rsplit_once(url, '/') {
            Some((_, r)) => r,
            None => url,
        };
        match try_normalize_tarball(p, file_name) {
            Err(e) => Err(DlError::Tarball(e)),
            Ok(n) => {
                let mut srcpath = p.dir();
                srcpath.append("/.sources");
                let mut out = owned(srcpath.as_str());
                out.append("/");
                out.append(n.as_str());
                Ok(Fetch { out, sources_dir: Some(srcpath) })
            },
        }
    } else {
        match rsplit_once(url, '/') {
            None => Err(DlError::NoFileName),
            Some((_, f)) => {
                let mut out = p.dir();
                out.append("/.sources/");
                out.append(f);
                Ok(Fetch { out, sources_dir: None })
            },
        }
    }
}

/// Where `url` of package `p` is saved.  The file always lies in the
/// package's `.sources` directory.
pub fn dl_url(url: &str, p: &Package) -> (res: Fetch)
    requires
        dl_url_ok(url@, p),
    ensures
        res.out@ == fetch_out_of(url@, p),
        opt_view(res.sources_dir) == if is_tarball_source(url@, p) {
            Some(p.dir_of() + "/.sources"@)
        } else {
            None
        },
        starts_with_of(res.out@, p.dir_of() + "/.sources/"@),
{
    match try_dl_url(url, p) {
        Ok(f) => {
            proof {
                reveal_strlit("/.sources");
                reveal_strlit("/");
                reveal_strlit("/.sources/");
                let d = p.dir_of() + "/.sources/"@;
                if is_tarball_source(url@, p) {
                    assert(p.dir_of() + "/.sources"@ + "/"@ =~= d);
                }
                assert(f.out@.take(d.len() as int) =~= d);
            }
            f
        },
        Err(_) => {
            proof {
                assert(false);
            }
            Fetch { out: String::new(), sources_dir: None }
        },
    }
}

/// The length a download is expected to have: the `Content-Length` header's
/// value when there is one that reads as a `u64`, else 8192.
pub open spec fn content_length_of(header: Option<Seq<char>>) -> u64 {
    match header {
        Some(h) => match parse_u64_of(h) {
            Some(n) => n,
            None => 8192,
        },
        None => 8192,
    }
}

/// The length a download is expected to have, from its `Content-Length`
/// header (as text), if any.
pub fn content_length(header: Option<&str>) -> (res: u64)
    ensures
        res == content_length_of(
            match header {
                Some(h) => Some(h@),
                None => None,
            },
        ),
{
    match header {
        Some(h) => match parse_u64(h) {
            Some(n) => n,
            None => 8192,
        },
        None => 8192,
    }
}

} // verus!
