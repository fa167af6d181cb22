//! Filesystem paths held as strings: joining, the parent directory, path
//! equality and the quoted form a path takes in a shell command.
use vstd::prelude::*;
use vstd::string::*;

use std::path::Path;

use crate::text::split_once_of;

verus! {

/// `comp` appended to `base` the way `PathBuf::push` does on Unix: an
/// absolute `comp` (one that begins with `/`) replaces `base`; otherwise a
/// `/` is put between them unless `base` is empty or already ends with `/`.
pub open spec fn path_join_of(base: Seq<char>, comp: Seq<char>) -> Seq<char> {
    if comp.len() > 0 && comp[0] == '/' {
        comp
    } else if base.len() > 0 && base.last() != '/' {
        base + seq!['/'] + comp
    } else {
        base + comp
    }
}

/// `comp` appended to `base` as a path.
pub fn path_join(base: &str, comp: &str) -> (res: String)
    ensures
        res@ == path_join_of(base@, comp@),
{
    let nc = comp.unicode_len();
    if nc > 0 && comp.get_char(0) == '/' {
        return String::from_str(comp);
    }
    let nb = base.unicode_len();
    let mut res = String::from_str(base);
    if nb > 0 && base.get_char(nb - 1) != '/' {
        res.append("/");
        proof {
            reveal_strlit("/");
        }
    }
    res.append(comp);
    res
}

/// The parent directory of path `p` as `Path::parent` gives it, `None` for
/// a path that ends in the root or is empty.
pub uninterp spec fn path_parent_of(p: Seq<char>) -> Option<Seq<char>>;

/// `p` holds a character other than `/` and `.`, so it has a normal
/// component.
pub open spec fn has_name_char(p: Seq<char>) -> bool {
    exists|i: int| 0 <= i < p.len() && p[i] != '/' && p[i] != '.'
}

/// Calls `std::path::Path::parent` on `p` and converts the parent back to a
/// string.  Claimed: the result is the parent named `path_parent_of(p)`, and
/// a path with a normal component (one holding a character other than `/`
/// and `.`) has a parent: `parent` gives `None` only for a path that ends in
/// the root or is empty.
#[verifier::external_body]
pub(crate) fn path_parent(p: &str) -> (res: Option<String>)
    ensures
        match res {
            Some(q) => path_parent_of(p@) == Some(q@),
            None => path_parent_of(p@) is None,
        },
        has_name_char(p@) ==> res is Some,
{
    Path::new(p).parent().map(|q| q.to_string_lossy().into_owned())
}

/// Whether paths `a` and `b` are equal as `Path == Path` compares them
/// (component by component).
pub uninterp spec fn same_path_of(a: Seq<char>, b: Seq<char>) -> bool;

/// `s` without its leading `/`s.
pub open spec fn drop_slashes(s: Seq<char>) -> Seq<char>
    decreases s.len(),
{
    if s.len() > 0 && s[0] == '/' {
        drop_slashes(s.drop_first())
    } else {
        s
    }
}

/// The first segment of `s`: what precedes the first `/` once the leading
/// `/`s are dropped.
pub open spec fn first_segment(s: Seq<char>) -> Seq<char> {
    match split_once_of(drop_slashes(s), '/') {
        Some((h, _)) => h,
        None => drop_slashes(s),
    }
}

/// A segment that is a component of its own: neither empty nor `.`.
pub open spec fn is_name_segment(s: Seq<char>) -> bool {
    s.len() > 0 && s != seq!['.']
}

/// `a` and `b` share their first `k` characters, the last of them a `/`,
/// and then go on with different first segments, neither empty nor `.`: the
/// two paths have the same components up to there and a different one next.
pub open spec fn diverge_at(a: Seq<char>, b: Seq<char>, k: int) -> bool {
    &&& 0 < k <= a.len()
    &&& k <= b.len()
    &&& a.take(k) == b.take(k)
    &&& a[k - 1] == '/'
    &&& is_name_segment(first_segment(a.skip(k)))
    &&& is_name_segment(first_segment(b.skip(k)))
    &&& first_segment(a.skip(k)) != first_segment(b.skip(k))
}

/// Calls `<std::path::Path as PartialEq>::eq`.  Claimed: the result is the
/// comparison named `same_path_of(a, b)`; equal strings are equal paths
/// (`Path` is `Eq`, so reflexive); and paths that share a prefix ending in
/// `/` and then go on with different components are not equal (paths are
/// compared component by component, with repeated `/` and `.` components
/// ignored).
#[verifier::external_body]
pub(crate) fn same_path(a: &str, b: &str) -> (res: bool)
    ensures
        res == same_path_of(a@, b@),
        a@ == b@ ==> res,
        forall|k: int| #[trigger] diverge_at(a@, b@, k) ==> !res,
{
    Path::new(a) == Path::new(b)
}

/// The `Debug` form of path `p`: quoted, with special characters escaped.
pub uninterp spec fn path_debug_of(p: Seq<char>) -> Seq<char>;

/// Formats `std::path::Path::new(p)` with `{:?}` (`<Path as Debug>::fmt`).
/// Claimed: the result is the form named `path_debug_of(p)`.
#[verifier::external_body]
pub(crate) fn quoted(p: &str) -> (res: String)
    ensures
        res@ == path_debug_of(p@),
{
    format!("{:?}", Path::new(p))
}

} // verus!
