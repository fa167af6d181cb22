//! The maintainer operations.  Each one decides, from the package, the
//! arguments and what the filesystem holds, whether it goes ahead, and which
//! commands it runs and which files it writes.
use vstd::prelude::*;
use vstd::string::*;

use crate::commands::{
    add_edit_text, add_edit_text_of, add_finalize_text, add_finalize_text_of, alias_text,
    alias_text_of, cp_text, cp_text_of, gen_text, gen_text_of, move_text, move_text_of,
    newrepo_text, newrepo_text_of, restore_text, restore_text_of, rev_commit_text,
    rev_commit_text_of, rev_edit_text, rev_edit_text_of, rm_text, rm_text_of, template_text,
    template_text_of, upd_commit_text, upd_commit_text_of, upd_edit_text, upd_edit_text_of,
    view_text, view_text_of, lemma_move_untracks_origin, lemma_cp_text_copies, lemma_move_text_moves,
    lemma_alias_text_links, lemma_restore_text_restores, lemma_revision_commit_carries_description,
    lemma_update_commit_carries_description,
};
use crate::hash::{file_hash_of, sha256_input_limit};
use crate::maintarg::MaintArg;
use crate::package::{url_opt_view, url_view, urls_opt_view, Package, Url};
use crate::paths::{
    diverge_at, drop_slashes, first_segment, has_name_char, is_name_segment, path_debug_of,
    path_join, path_join_of, path_parent, path_parent_of, quoted, same_path, same_path_of,
};
use crate::text::{
    first_at, join, joined, lemma_split_once_at, lines, lines_of, opt_view, owned, rsplit_once, rsplit_once_of, split_once,
    split_once_of, starts_with, starts_with_of, string_views, strip_prefix, strip_prefix_of,
    to_strings, trim, trim_end_matches, trim_end_matches_of, trimmed, is_white_space,
    lemma_trimmed_core, occurs_at, last_at, lemma_trim_end_matches_prefix, lemma_rsplit_last_segment, lemma_rsplit_once_at, ends_with_of,
};

verus! {

/// Why an operation refuses to go ahead.
#[derive(Debug, PartialEq, Eq)]
pub enum MaintError {
    AliasExists,
    AliasRepoMissing,
    OriginMissing,
    AliasIdentical,
    DestinationExists,
    Fatherless,
    DestinationRepoMissing,
    DestinationIdentical,
    PackageMissing,
    PackageDirMissing,
    /// The package (written `REPO/NAME=VERS`) has no directory.
    NoSuchPackage(String),
}

impl MaintError {
    /// The message the maintainer is shown.
    pub open spec fn message_of(&self) -> Seq<char> {
        match self {
            MaintError::AliasExists => "Alias exists!"@,
            MaintError::AliasRepoMissing => "Alias repo doesn't exist!"@,
            MaintError::OriginMissing => "Origin doesn't exist!"@,
            MaintError::AliasIdentical => "Alias and origin are identical!"@,
            MaintError::DestinationExists => "Destination exists!"@,
            MaintError::Fatherless => "Fatherless."@,
            MaintError::DestinationRepoMissing => "Destination repo doesn't exist!"@,
            MaintError::DestinationIdentical => "Destination and origin are identical!"@,
            MaintError::PackageMissing => "Package does not exist"@,
            MaintError::PackageDirMissing => "Package directory does not exist"@,
            MaintError::NoSuchPackage(p) => "Package '"@ + p@ + "' does not exist!"@,
        }
    }

    /// The message the maintainer is shown.
    pub fn message(&self) -> (res: String)
        ensures
            res@ == self.message_of(),
    {
        match self {
            MaintError::AliasExists => String::from_str("Alias exists!"),
            MaintError::AliasRepoMissing => String::from_str("Alias repo doesn't exist!"),
            MaintError::OriginMissing => String::from_str("Origin doesn't exist!"),
            MaintError::AliasIdentical => String::from_str("Alias and origin are identical!"),
            MaintError::DestinationExists => String::from_str("Destination exists!"),
            MaintError::Fatherless => String::from_str("Fatherless."),
            MaintError::DestinationRepoMissing => String::from_str(
                "Destination repo doesn't exist!",
            ),
            MaintError::DestinationIdentical => String::from_str(
                "Destination and origin are identical!",
            ),
            MaintError::PackageMissing => String::from_str("Package does not exist"),
            MaintError::PackageDirMissing => String::from_str("Package directory does not exist"),
            MaintError::NoSuchPackage(p) => {
                let mut m = String::from_str("Package '");
                m.append(p.as_str());
                m.append("' does not exist!");
                m
            },
        }
    }
}

/// The command an operation runs, or why it refuses, with the command as a
/// character sequence.
pub open spec fn outcome_view(r: Result<String, MaintError>) -> Result<Seq<char>, MaintError> {
    match r {
        Ok(c) => Ok(c@),
        Err(e) => Err(e),
    }
}

/// `ROOT/REPO/NAME`, joined as paths.
pub open spec fn port_path_of(root: Seq<char>, repo: Seq<char>, name: Seq<char>) -> Seq<char> {
    path_join_of(path_join_of(root, repo), name)
}

/// `ROOT/REPO/NAME`, joined as paths.
fn port_path(root: &str, repo: &str, name: &str) -> (res: String)
    ensures
        res@ == port_path_of(root@, repo@, name@),
{
    let r = path_join(root, repo);
    path_join(r.as_str(), name)
}

// ---------------------------------------------------------------------------
// Where packages live
// ---------------------------------------------------------------------------
/// `s` does not begin with `/`, so joining it to a path extends that path.
pub open spec fn no_lead_slash(s: Seq<char>) -> bool {
    s.len() == 0 || s[0] != '/'
}

/// `s` is a single path component: non-empty, not `.`, and without `/`.
pub open spec fn plain_segment(s: Seq<char>) -> bool {
    &&& s.len() > 0
    &&& s != seq!['.']
    &&& forall|i: int| 0 <= i < s.len() ==> s[i] != '/'
}

/// The first segment of a path that begins with segment `h`.
proof fn lemma_first_segment(t: Seq<char>, h: Seq<char>)
    requires
        h.len() > 0,
        forall|i: int| 0 <= i < h.len() ==> h[i] != '/',
        t == h || starts_with_of(t, h + seq!['/']),
    ensures
        first_segment(t) == h,
{
    if t != h {
        assert(t.take(h.len() as int + 1)[0] == t[0]);
        assert((h + seq!['/'])[0] == h[0]);
    }
    assert(t[0] == h[0]);
    assert(drop_slashes(t) == t);
    if t == h {
        assert forall|i: int| !first_at(t, '/', i) by {}
    } else {
        assert(t.take(h.len() as int + 1) == h + seq!['/']);
        assert(t[h.len() as int] == '/') by {
            assert(t.take(h.len() as int + 1)[h.len() as int] == '/');
        }
        assert forall|j: int| 0 <= j < h.len() implies t[j] != '/' by {
            assert(t.take(h.len() as int + 1)[j] == h[j]);
        }
        assert(first_at(t, '/', h.len() as int));
        lemma_split_once_at(t, '/', h.len() as int);
        assert(t.take(h.len() as int) =~= h) by {
            assert forall|j: int| 0 <= j < h.len() implies t.take(h.len() as int)[j] == h[j] by {
                assert(t.take(h.len() as int + 1)[j] == h[j]);
            }
        }
    }
}

/// A destination under `/var/ports` whose repository and name are not
/// absolute paths begins with `/var/`.
proof fn lemma_destination_prefix(to: &MaintArg)
    requires
        no_lead_slash(to.repo@),
        no_lead_slash(to.name@),
    ensures
        destination_of(to).len() >= 5,
        destination_of(to).take(5) == seq!['/', 'v', 'a', 'r', '/'],
{
    reveal_strlit("/var/ports");
    let b = "/var/ports"@;
    let b2 = path_join_of(b, to.repo@);
    assert(b2 == b + seq!['/'] + to.repo@);
    let d = path_join_of(b2, to.name@);
    assert(d.take(b2.len() as int) == b2);
    assert(d.take(5) =~= b2.take(5));
    assert(b2.take(5) =~= seq!['/', 'v', 'a', 'r', '/']);
}

/// A package's directory begins with `/usr/`.
proof fn lemma_dir_prefix(p: &Package)
    ensures
        p.dir_of().len() >= 5,
        p.dir_of().take(5) == seq!['/', 'u', 's', 'r', '/'],
{
    reveal_strlit("/usr/ports/");
    assert(p.dir_of().take(5) =~= seq!['/', 'u', 's', 'r', '/']);
}

/// `/usr/ports` joined with a single component and a non-absolute name.
proof fn lemma_usr_port_path(r: Seq<char>, n: Seq<char>)
    requires
        plain_segment(r),
        no_lead_slash(n),
    ensures
        port_path_of("/usr/ports"@, r, n) == "/usr/ports/"@ + r + seq!['/'] + n,
        path_join_of("/usr/ports"@, r) == "/usr/ports/"@ + r,
{
    reveal_strlit("/usr/ports");
    reveal_strlit("/usr/ports/");
    assert("/usr/ports"@ + seq!['/'] =~= "/usr/ports/"@);
    let b2 = "/usr/ports/"@ + r;
    assert(b2.last() == r.last());
    assert(path_join_of("/usr/ports"@, r) == b2);
}

/// A destination under `/var/ports` is neither the root nor the same path
/// as a package's directory under `/usr/ports`.
proof fn lemma_destination_apart(from: &Package, to: &MaintArg)
    requires
        no_lead_slash(to.repo@),
        no_lead_slash(to.name@),
    ensures
        has_name_char(destination_of(to)),
        diverge_at(destination_of(to), from.dir_of(), 1),
{
    lemma_destination_prefix(to);
    lemma_dir_prefix(from);
    let d = destination_of(to);
    let f = from.dir_of();
    assert(d[1] == d.take(5)[1]);
    assert(d.take(1) =~= f.take(1)) by {
        assert(d[0] == d.take(5)[0]);
        assert(f[0] == f.take(5)[0]);
    }
    assert(d[0] == d.take(5)[0]);
    let var = seq!['v', 'a', 'r'];
    let usr = seq!['u', 's', 'r'];
    assert(d.skip(1).take(4) =~= var + seq!['/']) by {
        assert forall|j: int| 0 <= j < 4 implies d.skip(1).take(4)[j] == d.take(5)[j + 1] by {}
    }
    assert(f.skip(1).take(4) =~= usr + seq!['/']) by {
        assert forall|j: int| 0 <= j < 4 implies f.skip(1).take(4)[j] == f.take(5)[j + 1] by {}
    }
    lemma_first_segment(d.skip(1), var);
    lemma_first_segment(f.skip(1), usr);
    assert(var != usr) by {
        assert(var[0] != usr[0]);
    }
    assert(var != seq!['.']);
    assert(usr != seq!['.']);
}

/// The paths of two different packages under `/usr/ports`, with plain
/// repositories and names, are apart.
proof fn lemma_ports_apart(r1: Seq<char>, n1: Seq<char>, r2: Seq<char>, n2: Seq<char>)
    requires
        plain_segment(r1),
        plain_segment(n1),
        plain_segment(r2),
        plain_segment(n2),
        r1 != r2 || n1 != n2,
    ensures
        exists|k: int|
            #[trigger] diverge_at(
                port_path_of("/usr/ports"@, r1, n1),
                port_path_of("/usr/ports"@, r2, n2),
                k,
            ),
{
    lemma_usr_port_path(r1, n1);
    lemma_usr_port_path(r2, n2);
    reveal_strlit("/usr/ports/");
    let p = "/usr/ports/"@;
    let a = p + r1 + seq!['/'] + n1;
    let b = p + r2 + seq!['/'] + n2;
    assert(p.len() == 11 && p[10] == '/');
    if r1 != r2 {
        let k = p.len() as int;
        assert(a.take(k) =~= p);
        assert(b.take(k) =~= p);
        assert(a.skip(k) =~= r1 + seq!['/'] + n1);
        assert(b.skip(k) =~= r2 + seq!['/'] + n2);
        assert((r1 + seq!['/'] + n1).take(r1.len() as int + 1) =~= r1 + seq!['/']);
        assert((r2 + seq!['/'] + n2).take(r2.len() as int + 1) =~= r2 + seq!['/']);
        lemma_first_segment(a.skip(k), r1);
        lemma_first_segment(b.skip(k), r2);
        assert(diverge_at(a, b, k));
    } else {
        let k = p.len() + r1.len() + 1int;
        assert(a.take(k) =~= p + r1 + seq!['/']);
        assert(b.take(k) =~= p + r2 + seq!['/']);
        assert(a.skip(k) =~= n1);
        assert(b.skip(k) =~= n2);
        lemma_first_segment(n1, n1);
        lemma_first_segment(n2, n2);
        assert(diverge_at(a, b, k));
    }
}

// ---------------------------------------------------------------------------
// Copying and moving
// ---------------------------------------------------------------------------
/// The paths that a copy or move depends on: the package's directory, the
/// destination `/var/ports/REPO/NAME`, the destination's parent, whether the
/// two directories are the same path, and their quoted forms.
#[derive(Debug, PartialEq, Eq)]
pub struct Transfer {
    pub from_dir: String,
    pub to_dir: String,
    pub to_parent: Option<String>,
    pub identical: bool,
    pub from_quoted: String,
    pub to_quoted: String,
}

/// The destination of a copy or move of a package to `to`.
pub open spec fn destination_of(to: &MaintArg) -> Seq<char> {
    port_path_of("/var/ports"@, to.repo@, to.name@)
}

/// The paths that a copy or move of `from` to `to` depends on.
pub fn transfer_paths(from: &Package, to: &MaintArg) -> (res: Transfer)
    ensures
        res.from_dir@ == from.dir_of(),
        res.to_dir@ == destination_of(to),
        opt_view(res.to_parent) == path_parent_of(destination_of(to)),
        res.identical == same_path_of(destination_of(to), from.dir_of()),
        has_name_char(destination_of(to)) ==> res.to_parent is Some,
        forall|k: int| #[trigger] diverge_at(destination_of(to), from.dir_of(), k) ==> !res.identical,
        res.from_quoted@ == path_debug_of(from.dir_of()),
        res.to_quoted@ == path_debug_of(destination_of(to)),
{
    let from_dir = from.dir();
    let to_dir = port_path("/var/ports", to.repo, to.name);
    let to_parent = path_parent(to_dir.as_str());
    let identical = same_path(to_dir.as_str(), from_dir.as_str());
    let from_quoted = quoted(from_dir.as_str());
    let to_quoted = quoted(to_dir.as_str());
    Transfer { from_dir, to_dir, to_parent, identical, from_quoted, to_quoted }
}

/// What copying `from` to `to` does, given its paths and whether the
/// destination, its parent and the origin exist: the first failed check, in
/// this order, or the command that copies and commits.
pub open spec fn cp_given_of(
    from: &Package,
    to: &MaintArg,
    paths: &Transfer,
    to_exists: bool,
    parent_exists: bool,
    from_exists: bool,
) -> Result<Seq<char>, MaintError> {
    if to_exists {
        Err(MaintError::DestinationExists)
    } else if paths.to_parent is None {
        Err(MaintError::Fatherless)
    } else if !parent_exists {
        Err(MaintError::DestinationRepoMissing)
    } else if !from_exists {
        Err(MaintError::OriginMissing)
    } else if paths.identical {
        Err(MaintError::DestinationIdentical)
    } else {
        Ok(
            cp_text_of(
                paths.from_quoted@,
                paths.to_quoted@,
                from.repo@,
                from.name@,
                to.repo@,
                to.name@,
            ),
        )
    }
}

/// Copies package `from` to `to`, given the paths of the copy: the command
/// that does it, or why not.
pub fn cp_given(
    from: &Package,
    to: &MaintArg,
    paths: &Transfer,
    to_exists: bool,
    parent_exists: bool,
    from_exists: bool,
) -> (res: Result<String, MaintError>)
    ensures
        outcome_view(res) == cp_given_of(from, to, paths, to_exists, parent_exists, from_exists),
{
    if to_exists {
        return Err(MaintError::DestinationExists);
    }
    if paths.to_parent.is_none() {
        return Err(MaintError::Fatherless);
    }
    if !parent_exists {
        return Err(MaintError::DestinationRepoMissing);
    }
    if !from_exists {
        return Err(MaintError::OriginMissing);
    }
    if paths.identical {
        return Err(MaintError::DestinationIdentical);
    }
    Ok(
        cp_text(
            paths.from_quoted.as_str(),
            paths.to_quoted.as_str(),
            from.repo.as_str(),
            from.name.as_str(),
            to.repo,
            to.name,
        ),
    )
}

/// What copying `from` to `to` does, given whether the destination, its
/// parent and the origin exist: the first failed check, in this order, or
/// the command that copies and commits.
pub open spec fn cp_outcome_of(
    from: &Package,
    to: &MaintArg,
    to_exists: bool,
    parent_exists: bool,
    from_exists: bool,
) -> Result<Seq<char>, MaintError> {
    let to_dir = destination_of(to);
    let from_dir = from.dir_of();
    if to_exists {
        Err(MaintError::DestinationExists)
    } else if path_parent_of(to_dir) is None {
        Err(MaintError::Fatherless)
    } else if !parent_exists {
        Err(MaintError::DestinationRepoMissing)
    } else if !from_exists {
        Err(MaintError::OriginMissing)
    } else if same_path_of(to_dir, from_dir) {
        Err(MaintError::DestinationIdentical)
    } else {
        Ok(
            cp_text_of(
                path_debug_of(from_dir),
                path_debug_of(to_dir),
                from.repo@,
                from.name@,
                to.repo@,
                to.name@,
            ),
        )
    }
}

/// Copies package `from` to `to`: the command that does it, or why not.
/// `to_exists`, `parent_exists` and `from_exists` say whether the paths of
/// `transfer_paths(from, to)` exist.
pub fn cp(from: &Package, to: &MaintArg, to_exists: bool, parent_exists: bool, from_exists: bool) -> (res:
    Result<String, MaintError>)
    ensures
        outcome_view(res) == cp_outcome_of(from, to, to_exists, parent_exists, from_exists),
        !to_exists && parent_exists && from_exists && no_lead_slash(to.repo@) && no_lead_slash(
            to.name@,
        ) ==> res is Ok,
{
    let paths = transfer_paths(from, to);
    proof {
        assert(opt_view(paths.to_parent) is None <==> paths.to_parent is None);
        if no_lead_slash(to.repo@) && no_lead_slash(to.name@) {
            lemma_destination_apart(from, to);
        }
    }
    cp_given(from, to, &paths, to_exists, parent_exists, from_exists)
}

/// What moving `from` to `to` does, given its paths and whether the
/// destination, its parent and the origin exist: the first failed check, in
/// this order, or the command that moves and commits.
pub open spec fn move_given_of(
    from: &Package,
    to: &MaintArg,
    paths: &Transfer,
    to_exists: bool,
    parent_exists: bool,
    from_exists: bool,
) -> Result<Seq<char>, MaintError> {
    if to_exists {
        Err(MaintError::DestinationExists)
    } else if paths.to_parent is None {
        Err(MaintError::Fatherless)
    } else if !parent_exists {
        Err(MaintError::DestinationRepoMissing)
    } else if !from_exists {
        Err(MaintError::OriginMissing)
    } else {
        Ok(
            move_text_of(
                paths.from_quoted@,
                paths.to_quoted@,
                from.repo@,
                from.name@,
                to.repo@,
                to.name@,
            ),
        )
    }
}

/// Moves package `from` to `to`, given the paths of the move: the command
/// that does it, or why not.
pub fn move_given(
    from: &Package,
    to: &MaintArg,
    paths: &Transfer,
    to_exists: bool,
    parent_exists: bool,
    from_exists: bool,
) -> (res: Result<String, MaintError>)
    ensures
        outcome_view(res) == move_given_of(from, to, paths, to_exists, parent_exists, from_exists),
{
    if to_exists {
        return Err(MaintError::DestinationExists);
    }
    if paths.to_parent.is_none() {
        return Err(MaintError::Fatherless);
    }
    if !parent_exists {
        return Err(MaintError::DestinationRepoMissing);
    }
    if !from_exists {
        return Err(MaintError::OriginMissing);
    }
    Ok(
        move_text(
            paths.from_quoted.as_str(),
            paths.to_quoted.as_str(),
            from.repo.as_str(),
            from.name.as_str(),
            to.repo,
            to.name,
        ),
    )
}

/// What moving `from` to `to` does, given whether the destination, its
/// parent and the origin exist: the first failed check, in this order, or
/// the command that moves and commits.
pub open spec fn move_outcome_of(
    from: &Package,
    to: &MaintArg,
    to_exists: bool,
    parent_exists: bool,
    from_exists: bool,
) -> Result<Seq<char>, MaintError> {
    let to_dir = destination_of(to);
    let from_dir = from.dir_of();
    if to_exists {
        Err(MaintError::DestinationExists)
    } else if path_parent_of(to_dir) is None {
        Err(MaintError::Fatherless)
    } else if !parent_exists {
        Err(MaintError::DestinationRepoMissing)
    } else if !from_exists {
        Err(MaintError::OriginMissing)
    } else {
        Ok(
            move_text_of(
                path_debug_of(from_dir),
                path_debug_of(to_dir),
                from.repo@,
                from.name@,
                to.repo@,
                to.name@,
            ),
        )
    }
}

/// Moves package `from` to `to`: the command that does it, or why not.
/// `to_exists`, `parent_exists` and `from_exists` say whether the paths of
/// `transfer_paths(from, to)` exist.
pub fn move_package(
    from: &Package,
    to: &MaintArg,
    to_exists: bool,
    parent_exists: bool,
    from_exists: bool,
) -> (res: Result<String, MaintError>)
    ensures
        outcome_view(res) == move_outcome_of(from, to, to_exists, parent_exists, from_exists),
        !to_exists && parent_exists && from_exists && no_lead_slash(to.repo@) && no_lead_slash(
            to.name@,
        ) ==> res is Ok,
{
    let paths = transfer_paths(from, to);
    proof {
        assert(opt_view(paths.to_parent) is None <==> paths.to_parent is None);
        if no_lead_slash(to.repo@) && no_lead_slash(to.name@) {
            lemma_destination_apart(from, to);
        }
    }
    move_given(from, to, &paths, to_exists, parent_exists, from_exists)
}

/// Every move that goes ahead takes the origin's name out of the origin's
/// repository, whatever the destination: its command enters
/// `/var/ports/FROM_REPO` and after that runs `git rm -r "FROM_NAME"`.
pub proof fn lemma_move_untracks_origin_package(
    from: &Package,
    to: &MaintArg,
    to_exists: bool,
    parent_exists: bool,
    from_exists: bool,
)
    ensures
        move_outcome_of(from, to, to_exists, parent_exists, from_exists) is Ok ==> exists|
            i: int,
            j: int,
        |
            i < j && occurs_at(
                move_outcome_of(from, to, to_exists, parent_exists, from_exists)->Ok_0,
                "cd /var/ports/"@ + from.repo@ + seq!['\n'],
                i,
            ) && occurs_at(
                move_outcome_of(from, to, to_exists, parent_exists, from_exists)->Ok_0,
                "git rm -r \""@ + from.name@ + seq!['"'],
                j,
            ),
{
    let c = move_text_of(
        path_debug_of(from.dir_of()),
        path_debug_of(destination_of(to)),
        from.repo@,
        from.name@,
        to.repo@,
        to.name@,
    );
    lemma_move_untracks_origin(
        path_debug_of(from.dir_of()),
        path_debug_of(destination_of(to)),
        from.repo@,
        from.name@,
        to.repo@,
        to.name@,
    );
    let cd = "cd /var/ports/"@ + from.repo@ + seq!['\n'];
    let rm = "git rm -r \""@ + from.name@ + seq!['"'];
    let (i, j) = choose|i: int, j: int| i < j && occurs_at(c, cd, i) && occurs_at(c, rm, j);
    assert(i < j && occurs_at(c, cd, i) && occurs_at(c, rm, j));
    if move_outcome_of(from, to, to_exists, parent_exists, from_exists) is Ok {
        assert(move_outcome_of(from, to, to_exists, parent_exists, from_exists)->Ok_0 == c);
    }
}

/// The same, for a move given its paths.
pub proof fn lemma_move_given_untracks_origin(
    from: &Package,
    to: &MaintArg,
    paths: &Transfer,
    to_exists: bool,
    parent_exists: bool,
    from_exists: bool,
)
    ensures
        move_given_of(from, to, paths, to_exists, parent_exists, from_exists) is Ok ==> exists|
            i: int,
            j: int,
        |
            i < j && occurs_at(
                move_given_of(from, to, paths, to_exists, parent_exists, from_exists)->Ok_0,
                "cd /var/ports/"@ + from.repo@ + seq!['\n'],
                i,
            ) && occurs_at(
                move_given_of(from, to, paths, to_exists, parent_exists, from_exists)->Ok_0,
                "git rm -r \""@ + from.name@ + seq!['"'],
                j,
            ),
{
    let c = move_text_of(
        paths.from_quoted@,
        paths.to_quoted@,
        from.repo@,
        from.name@,
        to.repo@,
        to.name@,
    );
    lemma_move_untracks_origin(
        paths.from_quoted@,
        paths.to_quoted@,
        from.repo@,
        from.name@,
        to.repo@,
        to.name@,
    );
    let cd = "cd /var/ports/"@ + from.repo@ + seq!['\n'];
    let rm = "git rm -r \""@ + from.name@ + seq!['"'];
    let (i, j) = choose|i: int, j: int| i < j && occurs_at(c, cd, i) && occurs_at(c, rm, j);
    assert(i < j && occurs_at(c, cd, i) && occurs_at(c, rm, j));
    if move_given_of(from, to, paths, to_exists, parent_exists, from_exists) is Ok {
        assert(move_given_of(from, to, paths, to_exists, parent_exists, from_exists)->Ok_0 == c);
    }
}

/// A copy is refused for every reason a move is, with the same error: the
/// two differ only in that a copy onto the package's own directory is
/// refused too.
pub proof fn lemma_cp_refuses_when_move_does(
    from: &Package,
    to: &MaintArg,
    to_exists: bool,
    parent_exists: bool,
    from_exists: bool,
)
    ensures
        move_outcome_of(from, to, to_exists, parent_exists, from_exists) is Err ==> cp_outcome_of(
            from,
            to,
            to_exists,
            parent_exists,
            from_exists,
        ) == move_outcome_of(from, to, to_exists, parent_exists, from_exists),
        cp_outcome_of(from, to, to_exists, parent_exists, from_exists) is Err
            && move_outcome_of(from, to, to_exists, parent_exists, from_exists) is Ok
            ==> cp_outcome_of(from, to, to_exists, parent_exists, from_exists)
            == Err::<Seq<char>, MaintError>(MaintError::DestinationIdentical),
{
}

// ---------------------------------------------------------------------------
// Aliases
// ---------------------------------------------------------------------------
/// The paths that an alias depends on, whether the alias and the origin are
/// the same path, and the quoted forms that the command uses.
#[derive(Debug, PartialEq, Eq)]
pub struct AliasPaths {
    pub origin_path: String,
    pub alias_repo_dir: String,
    pub alias_path: String,
    pub identical: bool,
    pub alias_repo_quoted: String,
    pub origin_quoted: String,
}

/// `/usr/ports/REPO/NAME` of the origin.
pub open spec fn origin_path_of(origin: &Package) -> Seq<char> {
    port_path_of("/usr/ports"@, origin.repo@, origin.name@)
}

/// `/usr/ports/REPO` of the alias.
pub open spec fn alias_repo_dir_of(alias: &MaintArg) -> Seq<char> {
    path_join_of("/usr/ports"@, alias.repo@)
}

/// `/usr/ports/REPO/NAME` of the alias.
pub open spec fn alias_path_of(alias: &MaintArg) -> Seq<char> {
    path_join_of(alias_repo_dir_of(alias), alias.name@)
}

/// The paths that aliasing `origin` as `alias` depends on.
pub fn alias_paths(origin: &Package, alias: &MaintArg) -> (res: AliasPaths)
    ensures
        res.origin_path@ == origin_path_of(origin),
        res.alias_repo_dir@ == alias_repo_dir_of(alias),
        res.alias_path@ == alias_path_of(alias),
        res.identical == same_path_of(alias_path_of(alias), origin_path_of(origin)),
        alias_path_of(alias) == origin_path_of(origin) ==> res.identical,
        forall|k: int|
            #[trigger] diverge_at(alias_path_of(alias), origin_path_of(origin), k) ==> !res.identical,
        res.alias_repo_quoted@ == path_debug_of(alias_repo_dir_of(alias)),
        res.origin_quoted@ == path_debug_of(origin_path_of(origin)),
{
    let origin_path = port_path("/usr/ports", origin.repo.as_str(), origin.name.as_str());
    let alias_repo_dir = path_join("/usr/ports", alias.repo);
    let alias_path = path_join(alias_repo_dir.as_str(), alias.name);
    let identical = same_path(alias_path.as_str(), origin_path.as_str());
    let alias_repo_quoted = quoted(alias_repo_dir.as_str());
    let origin_quoted = quoted(origin_path.as_str());
    AliasPaths {
        origin_path,
        alias_repo_dir,
        alias_path,
        identical,
        alias_repo_quoted,
        origin_quoted,
    }
}

/// What aliasing `origin` as `target` does, given its paths and whether the
/// alias, the alias's repository and the origin exist: the first failed
/// check, in this order, or the command that links and commits.
pub open spec fn alias_given_of(
    origin: &Package,
    target: &MaintArg,
    paths: &AliasPaths,
    alias_exists: bool,
    alias_repo_exists: bool,
    origin_exists: bool,
) -> Result<Seq<char>, MaintError> {
    if alias_exists {
        Err(MaintError::AliasExists)
    } else if !alias_repo_exists {
        Err(MaintError::AliasRepoMissing)
    } else if !origin_exists {
        Err(MaintError::OriginMissing)
    } else if paths.identical {
        Err(MaintError::AliasIdentical)
    } else {
        Ok(
            alias_text_of(
                paths.alias_repo_quoted@,
                target.repo@,
                origin.repo@,
                origin.name@,
                target.name@,
                paths.origin_quoted@,
            ),
        )
    }
}

/// Makes `target` an alias of package `origin`, given the paths of the
/// alias: the command that does it, or why not.
pub fn alias_given(
    origin: &Package,
    target: &MaintArg,
    paths: &AliasPaths,
    alias_exists: bool,
    alias_repo_exists: bool,
    origin_exists: bool,
) -> (res: Result<String, MaintError>)
    ensures
        outcome_view(res) == alias_given_of(
            origin,
            target,
            paths,
            alias_exists,
            alias_repo_exists,
            origin_exists,
        ),
{
    if alias_exists {
        return Err(MaintError::AliasExists);
    }
    if !alias_repo_exists {
        return Err(MaintError::AliasRepoMissing);
    }
    if !origin_exists {
        return Err(MaintError::OriginMissing);
    }
    if paths.identical {
        return Err(MaintError::AliasIdentical);
    }
    Ok(
        alias_text(
            paths.alias_repo_quoted.as_str(),
            target.repo,
            origin.repo.as_str(),
            origin.name.as_str(),
            target.name,
            paths.origin_quoted.as_str(),
        ),
    )
}

/// What aliasing `origin` as `alias` does, given whether the alias, the
/// alias's repository and the origin exist: the first failed check, in this
/// order, or the command that links and commits.
pub open spec fn alias_outcome_of(
    origin: &Package,
    alias: &MaintArg,
    alias_exists: bool,
    alias_repo_exists: bool,
    origin_exists: bool,
) -> Result<Seq<char>, MaintError> {
    if alias_exists {
        Err(MaintError::AliasExists)
    } else if !alias_repo_exists {
        Err(MaintError::AliasRepoMissing)
    } else if !origin_exists {
        Err(MaintError::OriginMissing)
    } else if same_path_of(alias_path_of(alias), origin_path_of(origin)) {
        Err(MaintError::AliasIdentical)
    } else {
        Ok(
            alias_text_of(
                path_debug_of(alias_repo_dir_of(alias)),
                alias.repo@,
                origin.repo@,
                origin.name@,
                alias.name@,
                path_debug_of(origin_path_of(origin)),
            ),
        )
    }
}

/// Makes `target` an alias of package `origin` (a link to it): the command
/// that does it, or why not.  `alias_exists`, `alias_repo_exists` and
/// `origin_exists` say whether the paths of `alias_paths(origin, target)`
/// exist.
pub fn alias(
    origin: &Package,
    target: &MaintArg,
    alias_exists: bool,
    alias_repo_exists: bool,
    origin_exists: bool,
) -> (res: Result<String, MaintError>)
    ensures
        outcome_view(res) == alias_outcome_of(
            origin,
            target,
            alias_exists,
            alias_repo_exists,
            origin_exists,
        ),
        target.repo@ == origin.repo@ && target.name@ == origin.name@ && !alias_exists
            && alias_repo_exists && origin_exists ==> res == Err::<String, MaintError>(
            MaintError::AliasIdentical,
        ),
        !alias_exists && alias_repo_exists && origin_exists && plain_segment(target.repo@)
            && plain_segment(target.name@) && plain_segment(origin.repo@) && plain_segment(
            origin.name@,
        ) && (target.repo@ != origin.repo@ || target.name@ != origin.name@) ==> res is Ok,
{
    let paths = alias_paths(origin, target);
    proof {
        if plain_segment(target.repo@) && plain_segment(target.name@) && plain_segment(
            origin.repo@,
        ) && plain_segment(origin.name@) && (target.repo@ != origin.repo@ || target.name@
            != origin.name@) {
            lemma_ports_apart(target.repo@, target.name@, origin.repo@, origin.name@);
            let k = choose|k: int|
                #[trigger] diverge_at(
                    port_path_of("/usr/ports"@, target.repo@, target.name@),
                    port_path_of("/usr/ports"@, origin.repo@, origin.name@),
                    k,
                );
            assert(diverge_at(alias_path_of(target), origin_path_of(origin), k));
        }
    }
    alias_given(origin, target, &paths, alias_exists, alias_repo_exists, origin_exists)
}

// ---------------------------------------------------------------------------
// Restoring, viewing, removing
// ---------------------------------------------------------------------------
/// `/usr/ports/REPO/NAME` of a package named on the command line.
pub open spec fn restore_dir_of(package: &MaintArg) -> Seq<char> {
    port_path_of("/usr/ports"@, package.repo@, package.name@)
}

/// The directory that a restore depends on: `/usr/ports/REPO/NAME`.
pub fn restore_dir(package: &MaintArg) -> (res: String)
    ensures
        res@ == restore_dir_of(package),
{
    port_path("/usr/ports", package.repo, package.name)
}

/// What restoring `package` to `commit` does, given whether its directory
/// exists.
pub open spec fn restore_outcome_of(package: &MaintArg, commit: Seq<char>, dir_exists: bool) -> Result<
    Seq<char>,
    MaintError,
> {
    if !dir_exists {
        Err(MaintError::PackageDirMissing)
    } else {
        Ok(restore_text_of(path_debug_of(restore_dir_of(package)), commit, package.name@))
    }
}

/// Restores the files of `package` as they were at `commit`: the command
/// that does it, or why not.  `dir_exists` says whether
/// `restore_dir(package)` exists.
pub fn restore(package: &MaintArg, commit: &str, dir_exists: bool) -> (res: Result<
    String,
    MaintError,
>)
    ensures
        outcome_view(res) == restore_outcome_of(package, commit@, dir_exists),
{
    let dir = restore_dir(package);
    if !dir_exists {
        return Err(MaintError::PackageDirMissing);
    }
    let dir_q = quoted(dir.as_str());
    Ok(restore_text(dir_q.as_str(), commit, package.name))
}

/// The command of every copy that goes ahead holds `cp -av FROM TO` (the
/// origin's and the destination's directories, quoted), `cd TO`, and the
/// message `Copied FROM_REPO/FROM_NAME -> TO_REPO/TO_NAME`.
pub proof fn lemma_cp_copies_package(
    from: &Package,
    to: &MaintArg,
    to_exists: bool,
    parent_exists: bool,
    from_exists: bool,
)
    ensures
        cp_outcome_of(from, to, to_exists, parent_exists, from_exists) is Ok ==> exists|i: int|
            occurs_at(
                cp_outcome_of(from, to, to_exists, parent_exists, from_exists)->Ok_0,
                "cp -av "@ + path_debug_of(from.dir_of()) + " "@ + path_debug_of(destination_of(to)) + "\n"@,
                i,
            ),
        cp_outcome_of(from, to, to_exists, parent_exists, from_exists) is Ok ==> exists|i: int|
            occurs_at(
                cp_outcome_of(from, to, to_exists, parent_exists, from_exists)->Ok_0,
                "cd "@ + path_debug_of(destination_of(to)) + "\n"@,
                i,
            ),
        cp_outcome_of(from, to, to_exists, parent_exists, from_exists) is Ok ==> exists|i: int|
            occurs_at(
                cp_outcome_of(from, to, to_exists, parent_exists, from_exists)->Ok_0,
                "MSG=\"Copied "@ + from.repo@ + "/"@ + from.name@ + " -> "@ + to.repo@ + "/"@ + to.name@ + "\""@,
                i,
            ),
{
    lemma_cp_text_copies(path_debug_of(from.dir_of()), path_debug_of(destination_of(to)), from.repo@, from.name@, to.repo@, to.name@);
    let c = cp_text_of(path_debug_of(from.dir_of()), path_debug_of(destination_of(to)), from.repo@, from.name@, to.repo@, to.name@);
    if cp_outcome_of(from, to, to_exists, parent_exists, from_exists) is Ok {
        assert(cp_outcome_of(from, to, to_exists, parent_exists, from_exists)->Ok_0 == c);
        let i0 = choose|i: int| occurs_at(c, "cp -av "@ + path_debug_of(from.dir_of()) + " "@ + path_debug_of(destination_of(to)) + "\n"@, i);
        assert(occurs_at(c, "cp -av "@ + path_debug_of(from.dir_of()) + " "@ + path_debug_of(destination_of(to)) + "\n"@, i0));
        let i1 = choose|i: int| occurs_at(c, "cd "@ + path_debug_of(destination_of(to)) + "\n"@, i);
        assert(occurs_at(c, "cd "@ + path_debug_of(destination_of(to)) + "\n"@, i1));
        let i2 = choose|i: int| occurs_at(c, "MSG=\"Copied "@ + from.repo@ + "/"@ + from.name@ + " -> "@ + to.repo@ + "/"@ + to.name@ + "\""@, i);
        assert(occurs_at(c, "MSG=\"Copied "@ + from.repo@ + "/"@ + from.name@ + " -> "@ + to.repo@ + "/"@ + to.name@ + "\""@, i2));
    }
}

/// The same, for a copy given its paths.
pub proof fn lemma_cp_given_copies_package(
    from: &Package,
    to: &MaintArg,
    paths: &Transfer,
    to_exists: bool,
    parent_exists: bool,
    from_exists: bool,
)
    ensures
        cp_given_of(from, to, paths, to_exists, parent_exists, from_exists) is Ok ==> exists|i: int|
            occurs_at(
                cp_given_of(from, to, paths, to_exists, parent_exists, from_exists)->Ok_0,
                "cp -av "@ + paths.from_quoted@ + " "@ + paths.to_quoted@ + "\n"@,
                i,
            ),
        cp_given_of(from, to, paths, to_exists, parent_exists, from_exists) is Ok ==> exists|i: int|
            occurs_at(
                cp_given_of(from, to, paths, to_exists, parent_exists, from_exists)->Ok_0,
                "cd "@ + paths.to_quoted@ + "\n"@,
                i,
            ),
        cp_given_of(from, to, paths, to_exists, parent_exists, from_exists) is Ok ==> exists|i: int|
            occurs_at(
                cp_given_of(from, to, paths, to_exists, parent_exists, from_exists)->Ok_0,
                "MSG=\"Copied "@ + from.repo@ + "/"@ + from.name@ + " -> "@ + to.repo@ + "/"@ + to.name@ + "\""@,
                i,
            ),
{
    lemma_cp_text_copies(paths.from_quoted@, paths.to_quoted@, from.repo@, from.name@, to.repo@, to.name@);
    let c = cp_text_of(paths.from_quoted@, paths.to_quoted@, from.repo@, from.name@, to.repo@, to.name@);
    if cp_given_of(from, to, paths, to_exists, parent_exists, from_exists) is Ok {
        assert(cp_given_of(from, to, paths, to_exists, parent_exists, from_exists)->Ok_0 == c);
        let i0 = choose|i: int| occurs_at(c, "cp -av "@ + paths.from_quoted@ + " "@ + paths.to_quoted@ + "\n"@, i);
        assert(occurs_at(c, "cp -av "@ + paths.from_quoted@ + " "@ + paths.to_quoted@ + "\n"@, i0));
        let i1 = choose|i: int| occurs_at(c, "cd "@ + paths.to_quoted@ + "\n"@, i);
        assert(occurs_at(c, "cd "@ + paths.to_quoted@ + "\n"@, i1));
        let i2 = choose|i: int| occurs_at(c, "MSG=\"Copied "@ + from.repo@ + "/"@ + from.name@ + " -> "@ + to.repo@ + "/"@ + to.name@ + "\""@, i);
        assert(occurs_at(c, "MSG=\"Copied "@ + from.repo@ + "/"@ + from.name@ + " -> "@ + to.repo@ + "/"@ + to.name@ + "\""@, i2));
    }
}

/// The command of every move that goes ahead holds `mv -v FROM TO` (the
/// origin's and the destination's directories, quoted), the message
/// `Moved FROM_REPO/FROM_NAME -> TO_REPO/TO_NAME`, and `cd TO` followed by
/// `git add .`.
pub proof fn lemma_move_moves_package(
    from: &Package,
    to: &MaintArg,
    to_exists: bool,
    parent_exists: bool,
    from_exists: bool,
)
    ensures
        move_outcome_of(from, to, to_exists, parent_exists, from_exists) is Ok ==> exists|i: int|
            occurs_at(
                move_outcome_of(from, to, to_exists, parent_exists, from_exists)->Ok_0,
                "mv -v "@ + path_debug_of(from.dir_of()) + " "@ + path_debug_of(destination_of(to)) + "\n"@,
                i,
            ),
        move_outcome_of(from, to, to_exists, parent_exists, from_exists) is Ok ==> exists|i: int|
            occurs_at(
                move_outcome_of(from, to, to_exists, parent_exists, from_exists)->Ok_0,
                "MSG=\"Moved "@ + from.repo@ + "/"@ + from.name@ + " -> "@ + to.repo@ + "/"@ + to.name@ + "\""@,
                i,
            ),
        move_outcome_of(from, to, to_exists, parent_exists, from_exists) is Ok ==> exists|i: int|
            occurs_at(
                move_outcome_of(from, to, to_exists, parent_exists, from_exists)->Ok_0,
                "cd "@ + path_debug_of(destination_of(to)) + "\n        git add ."@,
                i,
            ),
{
    lemma_move_text_moves(path_debug_of(from.dir_of()), path_debug_of(destination_of(to)), from.repo@, from.name@, to.repo@, to.name@);
    let c = move_text_of(path_debug_of(from.dir_of()), path_debug_of(destination_of(to)), from.repo@, from.name@, to.repo@, to.name@);
    if move_outcome_of(from, to, to_exists, parent_exists, from_exists) is Ok {
        assert(move_outcome_of(from, to, to_exists, parent_exists, from_exists)->Ok_0 == c);
        let i0 = choose|i: int| occurs_at(c, "mv -v "@ + path_debug_of(from.dir_of()) + " "@ + path_debug_of(destination_of(to)) + "\n"@, i);
        assert(occurs_at(c, "mv -v "@ + path_debug_of(from.dir_of()) + " "@ + path_debug_of(destination_of(to)) + "\n"@, i0));
        let i1 = choose|i: int| occurs_at(c, "MSG=\"Moved "@ + from.repo@ + "/"@ + from.name@ + " -> "@ + to.repo@ + "/"@ + to.name@ + "\""@, i);
        assert(occurs_at(c, "MSG=\"Moved "@ + from.repo@ + "/"@ + from.name@ + " -> "@ + to.repo@ + "/"@ + to.name@ + "\""@, i1));
        let i2 = choose|i: int| occurs_at(c, "cd "@ + path_debug_of(destination_of(to)) + "\n        git add ."@, i);
        assert(occurs_at(c, "cd "@ + path_debug_of(destination_of(to)) + "\n        git add ."@, i2));
    }
}

/// The same, for a move given its paths.
pub proof fn lemma_move_given_moves_package(
    from: &Package,
    to: &MaintArg,
    paths: &Transfer,
    to_exists: bool,
    parent_exists: bool,
    from_exists: bool,
)
    ensures
        move_given_of(from, to, paths, to_exists, parent_exists, from_exists) is Ok ==> exists|i: int|
            occurs_at(
                move_given_of(from, to, paths, to_exists, parent_exists, from_exists)->Ok_0,
                "mv -v "@ + paths.from_quoted@ + " "@ + paths.to_quoted@ + "\n"@,
                i,
            ),
        move_given_of(from, to, paths, to_exists, parent_exists, from_exists) is Ok ==> exists|i: int|
            occurs_at(
                move_given_of(from, to, paths, to_exists, parent_exists, from_exists)->Ok_0,
                "MSG=\"Moved "@ + from.repo@ + "/"@ + from.name@ + " -> "@ + to.repo@ + "/"@ + to.name@ + "\""@,
                i,
            ),
        move_given_of(from, to, paths, to_exists, parent_exists, from_exists) is Ok ==> exists|i: int|
            occurs_at(
                move_given_of(from, to, paths, to_exists, parent_exists, from_exists)->Ok_0,
                "cd "@ + paths.to_quoted@ + "\n        git add ."@,
                i,
            ),
{
    lemma_move_text_moves(paths.from_quoted@, paths.to_quoted@, from.repo@, from.name@, to.repo@, to.name@);
    let c = move_text_of(paths.from_quoted@, paths.to_quoted@, from.repo@, from.name@, to.repo@, to.name@);
    if move_given_of(from, to, paths, to_exists, parent_exists, from_exists) is Ok {
        assert(move_given_of(from, to, paths, to_exists, parent_exists, from_exists)->Ok_0 == c);
        let i0 = choose|i: int| occurs_at(c, "mv -v "@ + paths.from_quoted@ + " "@ + paths.to_quoted@ + "\n"@, i);
        assert(occurs_at(c, "mv -v "@ + paths.from_quoted@ + " "@ + paths.to_quoted@ + "\n"@, i0));
        let i1 = choose|i: int| occurs_at(c, "MSG=\"Moved "@ + from.repo@ + "/"@ + from.name@ + " -> "@ + to.repo@ + "/"@ + to.name@ + "\""@, i);
        assert(occurs_at(c, "MSG=\"Moved "@ + from.repo@ + "/"@ + from.name@ + " -> "@ + to.repo@ + "/"@ + to.name@ + "\""@, i1));
        let i2 = choose|i: int| occurs_at(c, "cd "@ + paths.to_quoted@ + "\n        git add ."@, i);
        assert(occurs_at(c, "cd "@ + paths.to_quoted@ + "\n        git add ."@, i2));
    }
}

/// The command of every alias that goes ahead enters the alias's
/// repository directory (quoted), holds the links `ln -sv ORIGIN_NAME
/// ALIAS_NAME` (one repository) and `ln -sv ../ORIGIN_REPO/ORIGIN_NAME
/// ALIAS_NAME` (two), and the message
/// `Added alias ALIAS_REPO/ALIAS_NAME for ORIGIN_REPO/ORIGIN_NAME`.
pub proof fn lemma_alias_links_package(
    origin: &Package,
    alias: &MaintArg,
    alias_exists: bool,
    alias_repo_exists: bool,
    origin_exists: bool,
)
    ensures
        alias_outcome_of(origin, alias, alias_exists, alias_repo_exists, origin_exists) is Ok ==> exists|i: int|
            occurs_at(
                alias_outcome_of(origin, alias, alias_exists, alias_repo_exists, origin_exists)->Ok_0,
                "cd "@ + path_debug_of(alias_repo_dir_of(alias)) + "\n"@,
                i,
            ),
        alias_outcome_of(origin, alias, alias_exists, alias_repo_exists, origin_exists) is Ok ==> exists|i: int|
            occurs_at(
                alias_outcome_of(origin, alias, alias_exists, alias_repo_exists, origin_exists)->Ok_0,
                "ln -sv "@ + origin.name@ + " "@ + alias.name@ + "\n"@,
                i,
            ),
        alias_outcome_of(origin, alias, alias_exists, alias_repo_exists, origin_exists) is Ok ==> exists|i: int|
            occurs_at(
                alias_outcome_of(origin, alias, alias_exists, alias_repo_exists, origin_exists)->Ok_0,
                "ln -sv ../"@ + origin.repo@ + "/"@ + origin.name@ + " "@ + alias.name@ + "\n"@,
                i,
            ),
        alias_outcome_of(origin, alias, alias_exists, alias_repo_exists, origin_exists) is Ok ==> exists|i: int|
            occurs_at(
                alias_outcome_of(origin, alias, alias_exists, alias_repo_exists, origin_exists)->Ok_0,
                "MSG=\"Added alias "@ + alias.repo@ + "/"@ + alias.name@ + " for "@ + origin.repo@ + "/"@ + origin.name@ + "\""@,
                i,
            ),
{
    lemma_alias_text_links(path_debug_of(alias_repo_dir_of(alias)), alias.repo@, origin.repo@, origin.name@, alias.name@, path_debug_of(origin_path_of(origin)));
    let c = alias_text_of(path_debug_of(alias_repo_dir_of(alias)), alias.repo@, origin.repo@, origin.name@, alias.name@, path_debug_of(origin_path_of(origin)));
    if alias_outcome_of(origin, alias, alias_exists, alias_repo_exists, origin_exists) is Ok {
        assert(alias_outcome_of(origin, alias, alias_exists, alias_repo_exists, origin_exists)->Ok_0 == c);
        let i0 = choose|i: int| occurs_at(c, "cd "@ + path_debug_of(alias_repo_dir_of(alias)) + "\n"@, i);
        assert(occurs_at(c, "cd "@ + path_debug_of(alias_repo_dir_of(alias)) + "\n"@, i0));
        let i1 = choose|i: int| occurs_at(c, "ln -sv "@ + origin.name@ + " "@ + alias.name@ + "\n"@, i);
        assert(occurs_at(c, "ln -sv "@ + origin.name@ + " "@ + alias.name@ + "\n"@, i1));
        let i2 = choose|i: int| occurs_at(c, "ln -sv ../"@ + origin.repo@ + "/"@ + origin.name@ + " "@ + alias.name@ + "\n"@, i);
        assert(occurs_at(c, "ln -sv ../"@ + origin.repo@ + "/"@ + origin.name@ + " "@ + alias.name@ + "\n"@, i2));
        let i3 = choose|i: int| occurs_at(c, "MSG=\"Added alias "@ + alias.repo@ + "/"@ + alias.name@ + " for "@ + origin.repo@ + "/"@ + origin.name@ + "\""@, i);
        assert(occurs_at(c, "MSG=\"Added alias "@ + alias.repo@ + "/"@ + alias.name@ + " for "@ + origin.repo@ + "/"@ + origin.name@ + "\""@, i3));
    }
}

/// The same, for an alias given its paths.
pub proof fn lemma_alias_given_links_package(
    origin: &Package,
    target: &MaintArg,
    paths: &AliasPaths,
    alias_exists: bool,
    alias_repo_exists: bool,
    origin_exists: bool,
)
    ensures
        alias_given_of(origin, target, paths, alias_exists, alias_repo_exists, origin_exists) is Ok ==> exists|i: int|
            occurs_at(
                alias_given_of(origin, target, paths, alias_exists, alias_repo_exists, origin_exists)->Ok_0,
                "cd "@ + paths.alias_repo_quoted@ + "\n"@,
                i,
            ),
        alias_given_of(origin, target, paths, alias_exists, alias_repo_exists, origin_exists) is Ok ==> exists|i: int|
            occurs_at(
                alias_given_of(origin, target, paths, alias_exists, alias_repo_exists, origin_exists)->Ok_0,
                "ln -sv "@ + origin.name@ + " "@ + target.name@ + "\n"@,
                i,
            ),
        alias_given_of(origin, target, paths, alias_exists, alias_repo_exists, origin_exists) is Ok ==> exists|i: int|
            occurs_at(
                alias_given_of(origin, target, paths, alias_exists, alias_repo_exists, origin_exists)->Ok_0,
                "ln -sv ../"@ + origin.repo@ + "/"@ + origin.name@ + " "@ + target.name@ + "\n"@,
                i,
            ),
        alias_given_of(origin, target, paths, alias_exists, alias_repo_exists, origin_exists) is Ok ==> exists|i: int|
            occurs_at(
                alias_given_of(origin, target, paths, alias_exists, alias_repo_exists, origin_exists)->Ok_0,
                "MSG=\"Added alias "@ + target.repo@ + "/"@ + target.name@ + " for "@ + origin.repo@ + "/"@ + origin.name@ + "\""@,
                i,
            ),
{
    lemma_alias_text_links(paths.alias_repo_quoted@, target.repo@, origin.repo@, origin.name@, target.name@, paths.origin_quoted@);
    let c = alias_text_of(paths.alias_repo_quoted@, target.repo@, origin.repo@, origin.name@, target.name@, paths.origin_quoted@);
    if alias_given_of(origin, target, paths, alias_exists, alias_repo_exists, origin_exists) is Ok {
        assert(alias_given_of(origin, target, paths, alias_exists, alias_repo_exists, origin_exists)->Ok_0 == c);
        let i0 = choose|i: int| occurs_at(c, "cd "@ + paths.alias_repo_quoted@ + "\n"@, i);
        assert(occurs_at(c, "cd "@ + paths.alias_repo_quoted@ + "\n"@, i0));
        let i1 = choose|i: int| occurs_at(c, "ln -sv "@ + origin.name@ + " "@ + target.name@ + "\n"@, i);
        assert(occurs_at(c, "ln -sv "@ + origin.name@ + " "@ + target.name@ + "\n"@, i1));
        let i2 = choose|i: int| occurs_at(c, "ln -sv ../"@ + origin.repo@ + "/"@ + origin.name@ + " "@ + target.name@ + "\n"@, i);
        assert(occurs_at(c, "ln -sv ../"@ + origin.repo@ + "/"@ + origin.name@ + " "@ + target.name@ + "\n"@, i2));
        let i3 = choose|i: int| occurs_at(c, "MSG=\"Added alias "@ + target.repo@ + "/"@ + target.name@ + " for "@ + origin.repo@ + "/"@ + origin.name@ + "\""@, i);
        assert(occurs_at(c, "MSG=\"Added alias "@ + target.repo@ + "/"@ + target.name@ + " for "@ + origin.repo@ + "/"@ + origin.name@ + "\""@, i3));
    }
}

/// The command of every restore that goes ahead holds `cd "DIR"` (the
/// package's directory, quoted), `--source=COMMIT -- `, and the message
/// `Restored NAME: Back to COMMIT`.
pub proof fn lemma_restore_goes_back(
    package: &MaintArg,
    commit: Seq<char>,
    dir_exists: bool,
)
    ensures
        restore_outcome_of(package, commit, dir_exists) is Ok ==> exists|i: int|
            occurs_at(
                restore_outcome_of(package, commit, dir_exists)->Ok_0,
                "cd \""@ + path_debug_of(restore_dir_of(package)) + "\""@,
                i,
            ),
        restore_outcome_of(package, commit, dir_exists) is Ok ==> exists|i: int|
            occurs_at(
                restore_outcome_of(package, commit, dir_exists)->Ok_0,
                "--source="@ + commit + " -- "@,
                i,
            ),
        restore_outcome_of(package, commit, dir_exists) is Ok ==> exists|i: int|
            occurs_at(
                restore_outcome_of(package, commit, dir_exists)->Ok_0,
                "MSG=\"Restored "@ + package.name@ + ": Back to "@ + commit + "\""@,
                i,
            ),
{
    lemma_restore_text_restores(path_debug_of(restore_dir_of(package)), commit, package.name@);
    let c = restore_text_of(path_debug_of(restore_dir_of(package)), commit, package.name@);
    if restore_outcome_of(package, commit, dir_exists) is Ok {
        assert(restore_outcome_of(package, commit, dir_exists)->Ok_0 == c);
        let i0 = choose|i: int| occurs_at(c, "cd \""@ + path_debug_of(restore_dir_of(package)) + "\""@, i);
        assert(occurs_at(c, "cd \""@ + path_debug_of(restore_dir_of(package)) + "\""@, i0));
        let i1 = choose|i: int| occurs_at(c, "--source="@ + commit + " -- "@, i);
        assert(occurs_at(c, "--source="@ + commit + " -- "@, i1));
        let i2 = choose|i: int| occurs_at(c, "MSG=\"Restored "@ + package.name@ + ": Back to "@ + commit + "\""@, i);
        assert(occurs_at(c, "MSG=\"Restored "@ + package.name@ + ": Back to "@ + commit + "\""@, i2));
    }
}

/// Shows the `BUILD` of `package`: the command that does it, or why not.
/// `build_exists` says whether `package.build_path()` exists.
pub fn view(package: &Package, build_exists: bool) -> (res: Result<String, MaintError>)
    ensures
        outcome_view(res) == if build_exists {
            Ok(view_text_of(package.dir_of()))
        } else {
            Err(MaintError::PackageMissing)
        },
{
    if !build_exists {
        return Err(MaintError::PackageMissing);
    }
    Ok(view_text(package.dir().as_str()))
}

/// Removes `package`: the command that commits the removal (after its
/// directory is deleted), or why not.  `dir_exists` says whether
/// `package.dir()` exists.
pub fn rm(package: &Package, dir_exists: bool) -> (res: Result<String, MaintError>)
    ensures
        dir_exists <==> res is Ok,
        res matches Ok(c) ==> c@ == rm_text_of(package.repo@, package.name@, package.version@),
        res matches Err(e) ==> (e matches MaintError::NoSuchPackage(t) && t@ == package.text_of()),
{
    if !dir_exists {
        return Err(MaintError::NoSuchPackage(package.to_string()));
    }
    Ok(rm_text(package.repo.as_str(), package.name.as_str(), package.version.as_str()))
}

// ---------------------------------------------------------------------------
// Generating
// ---------------------------------------------------------------------------
/// The URLs with the hashes of the given file contents, in order.
pub open spec fn hashed_urls(v: Seq<Url>, contents: Seq<Vec<u8>>) -> Seq<(Seq<char>, Seq<char>)> {
    Seq::new(v.len(), |i: int| (v[i].url@, file_hash_of(contents[i]@)))
}

fn hash_urls(v: &Vec<Url>, contents: &Vec<Vec<u8>>) -> (res: Vec<Url>)
    requires
        contents@.len() == v@.len(),
        forall|i: int| 0 <= i < contents@.len() ==> #[trigger] contents@[i]@.len() < sha256_input_limit(),
    ensures
        res@.map_values(|u: Url| url_view(u)) == hashed_urls(v@, contents@),
{
    let mut res: Vec<Url> = Vec::new();
    let mut i: usize = 0;
    while i < v.len()
        invariant
            i <= v@.len(),
            contents@.len() == v@.len(),
            forall|j: int| 0 <= j < contents@.len() ==> #[trigger] contents@[j]@.len() < sha256_input_limit(),
            res@.map_values(|u: Url| url_view(u)) == hashed_urls(v@, contents@).take(i as int),
        decreases v@.len() - i,
    {
        let ghost prev = res@;
        let c = &contents[i];
        let u = v[i].hash(c.as_slice());
        res.push(u);
        assert(res@.map_values(|u: Url| url_view(u)) =~= prev.map_values(|u: Url| url_view(u)).push(
            url_view(u),
        ));
        assert(hashed_urls(v@, contents@).take(i + 1) =~= hashed_urls(v@, contents@).take(
            i as int,
        ).push(url_view(u)));
        i = i + 1;
    }
    assert(hashed_urls(v@, contents@).take(v@.len() as int) =~= hashed_urls(v@, contents@));
    res
}

/// Hashes the files of a package's sources and gives the command that
/// commits the package's lock.  `source_contents` is the contents of the
/// source's file, `extra_contents` those of the extra sources' files, in
/// order.  Every other field of the package stays as it was.
pub fn gen(package: &mut Package, source_contents: &Option<Vec<u8>>, extra_contents: &Vec<Vec<u8>>) -> (command:
    String)
    requires
        old(package).source is Some <==> source_contents is Some,
        source_contents matches Some(c) ==> c@.len() < sha256_input_limit(),
        old(package).extra matches Some(v) ==> extra_contents@.len() == v@.len(),
        forall|i: int|
            0 <= i < extra_contents@.len() ==> #[trigger] extra_contents@[i]@.len()
                < sha256_input_limit(),
    ensures
        url_opt_view(final(package).source) == match (old(package).source, *source_contents) {
            (Some(u), Some(c)) => Some((u.url@, file_hash_of(c@))),
            _ => None,
        },
        urls_opt_view(final(package).extra) == match old(package).extra {
            Some(v) => Some(hashed_urls(v@, extra_contents@)),
            None => None,
        },
        final(package).repo == old(package).repo,
        final(package).name == old(package).name,
        final(package).version == old(package).version,
        final(package).description == old(package).description,
        final(package).categories == old(package).categories,
        final(package).timestamp == old(package).timestamp,
        final(package).dependencies == old(package).dependencies,
        final(package).upstream == old(package).upstream,
        final(package).version_command == old(package).version_command,
        command@ == gen_text_of(old(package).dir_of(), old(package).name@, old(package).version@),
{
    let source = match (&package.source, source_contents) {
        (Some(u), Some(c)) => Some(u.hash(c.as_slice())),
        _ => None,
    };
    let extra = match &package.extra {
        Some(v) => Some(hash_urls(v, extra_contents)),
        None => None,
    };
    package.source = source;
    package.extra = extra;
    let dir = package.dir();
    gen_text(dir.as_str(), package.name.as_str(), package.version.as_str())
}

// ---------------------------------------------------------------------------
// Adding
// ---------------------------------------------------------------------------
/// What adding a package involves: its directory and `BUILD`, the `BUILD`
/// it starts from, the command that opens the `BUILD` in the editor, and
/// the command that commits the new package.
#[derive(Debug, PartialEq, Eq)]
pub struct AddPlan {
    pub dir: String,
    pub build_path: String,
    pub template: String,
    pub edit_command: String,
    pub finalize_command: String,
}

/// `/var/ports/REPO/NAME`, written out.
pub open spec fn new_port_dir_of(repo: Seq<char>, name: Seq<char>) -> Seq<char> {
    "/var/ports/"@ + repo + "/"@ + name
}

/// Adds `package`, which must name its version.
pub fn add(package: &MaintArg) -> (res: AddPlan)
    requires
        package.version is Some,
    ensures
        res.dir@ == new_port_dir_of(package.repo@, package.name@),
        res.build_path@ == path_join_of(new_port_dir_of(package.repo@, package.name@), "BUILD"@),
        res.template@ == template_text_of(package.name@, package.version->0@),
        res.edit_command@ == add_edit_text_of(new_port_dir_of(package.repo@, package.name@)),
        res.finalize_command@ == add_finalize_text_of(
            new_port_dir_of(package.repo@, package.name@),
            package.name@,
            package.version->0@,
        ),
{
    let version = match package.version {
        Some(v) => v,
        None => {
            proof {
                assert(false);
            }
            ""
        },
    };
    let mut dir = String::from_str("/var/ports/");
    dir.append(package.repo);
    dir.append("/");
    dir.append(package.name);
    let build_path = path_join(dir.as_str(), "BUILD");
    let template = template_text(package.name, version);
    let edit_command = add_edit_text(dir.as_str());
    let finalize_command = add_finalize_text(dir.as_str(), package.name, version);
    AddPlan { dir, build_path, template, edit_command, finalize_command }
}

// ---------------------------------------------------------------------------
// Revising and updating
// ---------------------------------------------------------------------------
/// The lines without those that begin with `#d` (commit descriptions).
pub open spec fn without_descriptions(ls: Seq<Seq<char>>) -> Seq<Seq<char>>
    decreases ls.len(),
{
    if ls.len() == 0 {
        seq![]
    } else {
        let rest = without_descriptions(ls.drop_last());
        if starts_with_of(ls.last(), "#d"@) {
            rest
        } else {
            rest.push(ls.last())
        }
    }
}

fn drop_descriptions(ls: &Vec<String>) -> (res: Vec<String>)
    ensures
        string_views(res@) == without_descriptions(string_views(ls@)),
{
    let ghost views = string_views(ls@);
    let mut res: Vec<String> = Vec::new();
    let mut i: usize = 0;
    while i < ls.len()
        invariant
            i <= ls@.len(),
            views == string_views(ls@),
            string_views(res@) == without_descriptions(views.take(i as int)),
        decreases ls@.len() - i,
    {
        let ghost prev = res@;
        assert(views.take(i + 1).drop_last() =~= views.take(i as int));
        assert(views.take(i + 1).last() == ls@[i as int]@);
        if !starts_with(ls[i].as_str(), "#d") {
            res.push(owned(ls[i].as_str()));
            assert(string_views(res@) =~= string_views(prev).push(ls@[i as int]@));
        }
        i = i + 1;
    }
    assert(views.take(ls@.len() as int) =~= views);
    res
}

/// A `BUILD` with its commit descriptions taken out: its lines without
/// those that begin with `#d`, joined with `\n`.
pub open spec fn stripped_build_of(contents: Seq<char>) -> Seq<char> {
    joined(without_descriptions(lines_of(contents)), "\n"@)
}

/// The commit description written in a `BUILD`: its last line after `#d`,
/// trimmed (empty when the last line does not begin with `#d`).
pub open spec fn description_of(contents: Seq<char>) -> Seq<char> {
    trimmed(
        match strip_prefix_of(lines_of(contents).last(), "#d"@) {
            Some(r) => r,
            None => Seq::<char>::empty(),
        },
    )
}

/// The commit description written in a `BUILD`, which must have a line.
fn description(contents: &str) -> (res: String)
    requires
        lines_of(contents@).len() > 0,
    ensures
        res@ == description_of(contents@),
{
    let ls = lines(contents);
    let last = ls[ls.len() - 1];
    assert(last@ == lines_of(contents@).last());
    let rest = match strip_prefix(last, "#d") {
        Some(r) => r,
        None => "",
    };
    proof {
        reveal_strlit("");
    }
    owned(trim(rest))
}

/// A `BUILD` to be written back and the command that opens it in the editor.
#[derive(Debug, PartialEq, Eq)]
pub struct Edit {
    pub contents: String,
    pub command: String,
}

/// Starts revising `package`: the `BUILD` (its contents, `None` when it
/// does not exist) with its commit descriptions taken out, and the command
/// that opens it in the editor; or why not.
pub fn rev(package: &Package, build_contents: Option<&str>) -> (res: Result<Edit, MaintError>)
    ensures
        match build_contents {
            None => res == Err::<Edit, MaintError>(MaintError::PackageMissing),
            Some(c) => res matches Ok(e) && e.contents@ == stripped_build_of(c@) && e.command@
                == rev_edit_text_of(package.dir_of()),
        },
{
    match build_contents {
        None => Err(MaintError::PackageMissing),
        Some(c) => {
            let ls = to_strings(&lines(c));
            let kept = drop_descriptions(&ls);
            let contents = join(&kept, "\n");
            Ok(Edit { contents, command: rev_edit_text(package.dir().as_str()) })
        },
    }
}

/// Finishes revising `package`: the command that commits the revision, with
/// the description written in the edited `BUILD` (which must have a line).
pub fn rev_finish(package: &Package, edited: &str) -> (res: String)
    requires
        lines_of(edited@).len() > 0,
    ensures
        res@ == rev_commit_text_of(package.dir_of(), package.name@, description_of(edited@)),
{
    let desc = description(edited);
    rev_commit_text(package.dir().as_str(), package.name.as_str(), desc.as_str())
}

/// No line that a revision or an update keeps begins with `#d`.
pub proof fn lemma_descriptions_removed(ls: Seq<Seq<char>>)
    ensures
        forall|k: int|
            0 <= k < without_descriptions(ls).len() ==> !starts_with_of(
                #[trigger] without_descriptions(ls)[k],
                "#d"@,
            ),
        without_descriptions(ls).len() <= ls.len(),
    decreases ls.len(),
{
    if ls.len() > 0 {
        lemma_descriptions_removed(ls.drop_last());
        let rest = without_descriptions(ls.drop_last());
        if !starts_with_of(ls.last(), "#d"@) {
            assert forall|k: int|
                0 <= k < without_descriptions(ls).len() implies !starts_with_of(
                #[trigger] without_descriptions(ls)[k],
                "#d"@,
            ) by {
                if k < rest.len() {
                    assert(without_descriptions(ls)[k] == rest[k]);
                }
            }
        }
    }
}

/// Taking out the commit descriptions keeps, in their order, exactly the
/// lines that do not begin with `#d`: every other line (a shell comment
/// among them) stays.
pub proof fn lemma_descriptions_filtered(ls: Seq<Seq<char>>)
    ensures
        without_descriptions(ls) == ls.filter(|l: Seq<char>| !starts_with_of(l, "#d"@)),
    decreases ls.len(),
{
    reveal(Seq::filter);
    if ls.len() > 0 {
        lemma_descriptions_filtered(ls.drop_last());
    }
}

/// A revised `BUILD` is the given `BUILD`'s lines that do not begin with `#d`,
/// in order, joined with `\n`.
pub proof fn lemma_stripped_build_filtered(contents: Seq<char>)
    ensures
        stripped_build_of(contents) == joined(
            lines_of(contents).filter(|l: Seq<char>| !starts_with_of(l, "#d"@)),
            "\n"@,
        ),
{
    lemma_descriptions_filtered(lines_of(contents));
}

/// An updated `BUILD` is the given `BUILD`'s lines, with the version line
/// replaced, but those that begin with `#d`, in order, joined with `\n`.
pub proof fn lemma_updated_build_filtered(contents: Seq<char>, old: Seq<char>, new: Seq<char>)
    ensures
        updated_build_of(contents, old, new) == joined(
            with_version(lines_of(contents), old, new).filter(
                |l: Seq<char>| !starts_with_of(l, "#d"@),
            ),
            "\n"@,
        ),
{
    lemma_descriptions_filtered(with_version(lines_of(contents), old, new));
}

/// An updated `BUILD` is the given `BUILD`'s lines, each that begins with
/// `VERS="OLD"` made `VERS="NEW"` and every other kept as it is, less those
/// that begin with `#d`, in order, joined with `\n`.
pub proof fn lemma_updated_build_lines(contents: Seq<char>, old: Seq<char>, new: Seq<char>)
    ensures
        updated_build_of(contents, old, new) == joined(
            lines_of(contents).map_values(
                |l: Seq<char>|
                    if starts_with_of(l, "VERS=\""@ + old + "\""@) {
                        "VERS=\""@ + new + "\""@
                    } else {
                        l
                    },
            ).filter(|l: Seq<char>| !starts_with_of(l, "#d"@)),
            "\n"@,
        ),
{
    let m = lines_of(contents).map_values(
        |l: Seq<char>|
            if starts_with_of(l, "VERS=\""@ + old + "\""@) {
                "VERS=\""@ + new + "\""@
            } else {
                l
            },
    );
    assert(with_version(lines_of(contents), old, new) =~= m);
    lemma_descriptions_filtered(m);
}

/// The description of an edited `BUILD` whose last line is `#d`, then
/// whitespace, then `d` (with no whitespace at either end), then
/// whitespace, is `d`.
pub proof fn lemma_description_read(edited: Seq<char>, w1: Seq<char>, d: Seq<char>, w2: Seq<char>)
    requires
        lines_of(edited).len() > 0,
        lines_of(edited).last() == "#d"@ + w1 + d + w2,
        forall|k: int| 0 <= k < w1.len() ==> is_white_space(#[trigger] w1[k]),
        forall|k: int| 0 <= k < w2.len() ==> is_white_space(#[trigger] w2[k]),
        d.len() == 0 || (!is_white_space(d[0]) && !is_white_space(d.last())),
    ensures
        description_of(edited) == d,
{
    reveal_strlit("#d");
    let last = lines_of(edited).last();
    assert(last.take(2) =~= "#d"@);
    assert(last.skip(2) =~= w1 + d + w2);
    lemma_trimmed_core(w1, d, w2);
}

/// Finishing an update commits with the description written on the last
/// line of the edited `BUILD` (`#d DESC`): the commit message body is
/// `DESC`, and so is what the CHANGELOG line ends with.
pub proof fn lemma_update_commits_edited_description(
    package: &Package,
    edited: Seq<char>,
    w1: Seq<char>,
    d: Seq<char>,
    w2: Seq<char>,
)
    requires
        lines_of(edited).len() > 0,
        lines_of(edited).last() == "#d"@ + w1 + d + w2,
        forall|k: int| 0 <= k < w1.len() ==> is_white_space(#[trigger] w1[k]),
        forall|k: int| 0 <= k < w2.len() ==> is_white_space(#[trigger] w2[k]),
        d.len() == 0 || (!is_white_space(d[0]) && !is_white_space(d.last())),
    ensures
        exists|i: int|
            occurs_at(
                upd_commit_text_of(
                    package.dir_of(),
                    package.name@,
                    package.version@,
                    description_of(edited),
                ),
                "-m \""@ + d + "\" && git rev-parse HEAD"@,
                i,
            ),
        exists|i: int|
            occurs_at(
                upd_commit_text_of(
                    package.dir_of(),
                    package.name@,
                    package.version@,
                    description_of(edited),
                ),
                "| $MSG: "@ + d + "\" >> CHANGELOG\n"@,
                i,
            ),
{
    lemma_description_read(edited, w1, d, w2);
    lemma_update_commit_carries_description(
        package.dir_of(),
        package.name@,
        package.version@,
        d,
    );
}

/// Finishing a revision commits with the description written on the last
/// line of the edited `BUILD` (`#d DESC`): the commit message body is
/// `DESC`, and so is what the CHANGELOG line ends with.
pub proof fn lemma_revision_commits_edited_description(
    package: &Package,
    edited: Seq<char>,
    w1: Seq<char>,
    d: Seq<char>,
    w2: Seq<char>,
)
    requires
        lines_of(edited).len() > 0,
        lines_of(edited).last() == "#d"@ + w1 + d + w2,
        forall|k: int| 0 <= k < w1.len() ==> is_white_space(#[trigger] w1[k]),
        forall|k: int| 0 <= k < w2.len() ==> is_white_space(#[trigger] w2[k]),
        d.len() == 0 || (!is_white_space(d[0]) && !is_white_space(d.last())),
    ensures
        exists|i: int|
            occurs_at(
                rev_commit_text_of(package.dir_of(), package.name@, description_of(edited)),
                "-m \""@ + d + "\" && git rev-parse HEAD"@,
                i,
            ),
        exists|i: int|
            occurs_at(
                rev_commit_text_of(package.dir_of(), package.name@, description_of(edited)),
                "| $MSG: "@ + d + "\" >> CHANGELOG\n"@,
                i,
            ),
{
    lemma_description_read(edited, w1, d, w2);
    lemma_revision_commit_carries_description(package.dir_of(), package.name@, d);
}

/// Updating a `BUILD` that has no `VERS="OLD"` line writes the same `BUILD`
/// as revising it.
pub proof fn lemma_update_without_version_line(contents: Seq<char>, old: Seq<char>, new: Seq<char>)
    requires
        forall|k: int|
            0 <= k < lines_of(contents).len() ==> !starts_with_of(
                #[trigger] lines_of(contents)[k],
                vers_line_of(old),
            ),
    ensures
        updated_build_of(contents, old, new) == stripped_build_of(contents),
{
    assert(with_version(lines_of(contents), old, new) =~= lines_of(contents));
}

/// `VERS="V"`.
pub open spec fn vers_line_of(v: Seq<char>) -> Seq<char> {
    "VERS=\""@ + v + "\""@
}

/// `new` when `l` begins with `old`, else `l`.
pub open spec fn replace_line(l: Seq<char>, old: Seq<char>, new: Seq<char>) -> Seq<char> {
    if starts_with_of(l, old) {
        new
    } else {
        l
    }
}

/// The lines, each that begins with `VERS="OLD"` replaced by `VERS="NEW"`.
pub open spec fn with_version(ls: Seq<Seq<char>>, old: Seq<char>, new: Seq<char>) -> Seq<Seq<char>> {
    ls.map_values(|l: Seq<char>| replace_line(l, vers_line_of(old), vers_line_of(new)))
}

fn replace_version(ls: &Vec<String>, old_line: &str, new_line: &str) -> (res: Vec<String>)
    ensures
        string_views(res@) == string_views(ls@).map_values(
            |l: Seq<char>| replace_line(l, old_line@, new_line@),
        ),
{
    let mut res: Vec<String> = Vec::new();
    let mut i: usize = 0;
    while i < ls.len()
        invariant
            i <= ls@.len(),
            string_views(res@) == string_views(ls@).take(i as int).map_values(
                |l: Seq<char>| replace_line(l, old_line@, new_line@),
            ),
        decreases ls@.len() - i,
    {
        let ghost prev = res@;
        let ghost r = replace_line(ls@[i as int]@, old_line@, new_line@);
        if starts_with(ls[i].as_str(), old_line) {
            res.push(owned(new_line));
        } else {
            res.push(owned(ls[i].as_str()));
        }
        assert(string_views(res@) =~= string_views(prev).push(r));
        assert(string_views(ls@).take(i + 1).map_values(
            |l: Seq<char>| replace_line(l, old_line@, new_line@),
        ) =~= string_views(ls@).take(i as int).map_values(
            |l: Seq<char>| replace_line(l, old_line@, new_line@),
        ).push(r));
        i = i + 1;
    }
    assert(string_views(ls@).take(ls@.len() as int) =~= string_views(ls@));
    res
}

/// A `BUILD` updated from version `old` to `new`: each line that begins
/// with `VERS="OLD"` made `VERS="NEW"`, the commit descriptions taken out,
/// the lines joined with `\n`.
pub open spec fn updated_build_of(contents: Seq<char>, old: Seq<char>, new: Seq<char>) -> Seq<char> {
    joined(without_descriptions(with_version(lines_of(contents), old, new)), "\n"@)
}

fn vers_line(v: &str) -> (res: String)
    ensures
        res@ == vers_line_of(v@),
{
    let mut l = String::from_str("VERS=\"");
    l.append(v);
    l.append("\"");
    l
}

/// Starts updating `package` to the version that `new` names: the `BUILD`
/// (its contents, `None` when it does not exist) with the version replaced
/// and its commit descriptions taken out, and the command that opens it in
/// the editor; or why not.
pub fn upd(package: &Package, new: &MaintArg, build_contents: Option<&str>) -> (res: Result<
    Edit,
    MaintError,
>)
    requires
        new.version is Some,
    ensures
        match build_contents {
            None => res == Err::<Edit, MaintError>(MaintError::PackageMissing),
            Some(c) => res matches Ok(e) && e.contents@ == updated_build_of(
                c@,
                package.version@,
                new.version->0@,
            ) && e.command@ == upd_edit_text_of(package.dir_of()),
        },
{
    let new_version = match new.version {
        Some(v) => v,
        None => {
            proof {
                assert(false);
            }
            ""
        },
    };
    match build_contents {
        None => Err(MaintError::PackageMissing),
        Some(c) => {
            let ls = to_strings(&lines(c));
            let old_line = vers_line(package.version.as_str());
            let new_line = vers_line(new_version);
            let replaced = replace_version(&ls, old_line.as_str(), new_line.as_str());
            let kept = drop_descriptions(&replaced);
            let contents = join(&kept, "\n");
            proof {
                assert(string_views(replaced@) =~= with_version(
                    lines_of(c@),
                    package.version@,
                    new_version@,
                ));
            }
            Ok(Edit { contents, command: upd_edit_text(package.dir().as_str()) })
        },
    }
}

/// Finishes updating `package`: the command that commits the update, with
/// the description written in the edited `BUILD` (which must have a line),
/// and prints the new version.
pub fn upd_finish(package: &Package, edited: &str) -> (res: String)
    requires
        lines_of(edited@).len() > 0,
    ensures
        res@ == upd_commit_text_of(
            package.dir_of(),
            package.name@,
            package.version@,
            description_of(edited@),
        ),
{
    let desc = description(edited);
    upd_commit_text(
        package.dir().as_str(),
        package.name.as_str(),
        package.version.as_str(),
        desc.as_str(),
    )
}

/// The new version, from what the commit command of an update printed.
pub fn upd_version(output: &str) -> (res: String)
    ensures
        res@ == trimmed(output@),
{
    owned(trim(output))
}

// ---------------------------------------------------------------------------
// New repositories
// ---------------------------------------------------------------------------
/// Why a repository URL gives no repository name.
#[derive(Debug, PartialEq, Eq)]
pub enum RepoNameError {
    /// The URL holds no `/`.
    InvalidUrl,
    /// The last segment of the URL holds no `-`.
    InvalidRepoName,
    /// Nothing follows the first `-` of the last segment.
    NoRepoName,
}

/// The name of the repository at `url`: what follows the first `-` of the
/// URL's last `/`-separated segment, with every trailing `.git` removed.
pub open spec fn repo_name_of(url: Seq<char>) -> Result<Seq<char>, RepoNameError> {
    match rsplit_once_of(url, '/') {
        None => Err(RepoNameError::InvalidUrl),
        Some((_, tail)) => match split_once_of(trim_end_matches_of(tail, ".git"@), '-') {
            None => Err(RepoNameError::InvalidRepoName),
            Some((_, name)) => if name.len() == 0 {
                Err(RepoNameError::NoRepoName)
            } else {
                Ok(name)
            },
        },
    }
}

/// The repository name depends on the URL's last `/`-separated segment
/// alone: whatever comes before that segment (a host or user name with a
/// `-` in it among others) changes nothing.
pub proof fn lemma_repo_name_last_segment(p: Seq<char>, q: Seq<char>, t: Seq<char>)
    requires
        forall|k: int| 0 <= k < t.len() ==> #[trigger] t[k] != '/',
    ensures
        repo_name_of(p + seq!['/'] + t) == repo_name_of(q + seq!['/'] + t),
{
    lemma_rsplit_last_segment(p, t);
    lemma_rsplit_last_segment(q, t);
}

/// A repository name holds no `/`.
pub proof fn lemma_repo_name_no_slash(url: Seq<char>)
    ensures
        repo_name_of(url) is Ok ==> forall|k: int|
            0 <= k < (repo_name_of(url)->Ok_0).len() ==> #[trigger] (repo_name_of(url)->Ok_0)[k]
                != '/',
{
    if repo_name_of(url) is Ok {
        let i = choose|i: int| last_at(url, '/', i);
        lemma_rsplit_once_at(url, '/', i);
        let tail = url.skip(i + 1);
        let t = trim_end_matches_of(tail, ".git"@);
        lemma_trim_end_matches_prefix(tail, ".git"@);
        assert forall|k: int| 0 <= k < t.len() implies t[k] != '/' by {
            assert(t[k] == tail.take(t.len() as int)[k]);
            assert(tail[k] == url[i + 1 + k]);
        }
        let j = choose|j: int| first_at(t, '-', j);
        lemma_split_once_at(t, '-', j);
        let n = t.skip(j + 1);
        assert(repo_name_of(url)->Ok_0 == n);
        assert forall|k: int| 0 <= k < n.len() implies n[k] != '/' by {
            assert(n[k] == t[j + 1 + k]);
        }
    }
}

/// The repository at `.../A-NAME.git` or `.../A-NAME` (where `A` holds no
/// `-` and `NAME` is not empty and does not end with `.git`) is named
/// `NAME`.
pub proof fn lemma_repo_name_of_segment(p: Seq<char>, a: Seq<char>, n: Seq<char>)
    requires
        forall|k: int| 0 <= k < a.len() ==> #[trigger] a[k] != '/' && a[k] != '-',
        forall|k: int| 0 <= k < n.len() ==> #[trigger] n[k] != '/',
        n.len() > 0,
        !ends_with_of(n, ".git"@),
    ensures
        repo_name_of(p + seq!['/'] + a + seq!['-'] + n + ".git"@) == Ok::<
            Seq<char>,
            RepoNameError,
        >(n),
        repo_name_of(p + seq!['/'] + a + seq!['-'] + n) == Ok::<Seq<char>, RepoNameError>(n),
{
    reveal_strlit(".git");
    let g = ".git"@;
    let t = a + seq!['-'] + n;
    let tg = t + g;
    assert(!ends_with_of(t, g)) by {
        if ends_with_of(t, g) {
            if n.len() >= 4 {
                assert(t.skip(t.len() - 4) =~= n.skip(n.len() - 4));
            } else {
                let k = t.len() - 1 - n.len();
                assert(t[k] == '-');
                assert(t.skip(t.len() - 4)[k - (t.len() - 4)] == t[k]);
            }
        }
    }
    assert(trim_end_matches_of(t, g) == t);
    assert(tg.skip(tg.len() - 4) =~= g);
    assert(tg.take(tg.len() - 4) =~= t);
    assert(trim_end_matches_of(tg, g) == t);
    assert(first_at(t, '-', a.len() as int));
    lemma_split_once_at(t, '-', a.len() as int);
    assert(t.skip(a.len() as int + 1) =~= n);
    assert forall|k: int| 0 <= k < t.len() implies #[trigger] t[k] != '/' by {
        if k < a.len() {
            assert(t[k] == a[k]);
        } else if k > a.len() {
            assert(t[k] == n[k - a.len() - 1]);
        }
    }
    assert forall|k: int| 0 <= k < tg.len() implies #[trigger] tg[k] != '/' by {
        if k < t.len() {
            assert(tg[k] == t[k]);
        } else {
            assert(tg[k] == g[k - t.len()]);
        }
    }
    lemma_rsplit_last_segment(p, t);
    lemma_rsplit_last_segment(p, tg);
    assert(p + seq!['/'] + a + seq!['-'] + n =~= p + seq!['/'] + t);
    assert(p + seq!['/'] + a + seq!['-'] + n + g =~= p + seq!['/'] + tg);
}

/// The name of the repository at `url`, or why it has none.
pub fn repo_name(url: &str) -> (res: Result<String, RepoNameError>)
    ensures
        match res {
            Ok(n) => repo_name_of(url@) == Ok::<Seq<char>, RepoNameError>(n@),
            Err(e) => repo_name_of(url@) == Err::<Seq<char>, RepoNameError>(e),
        },
{
    proof {
        reveal_strlit(".git");
    }
    match rsplit_once(url, '/') {
        None => Err(RepoNameError::InvalidUrl),
        Some((_, tail)) => {
            let t = trim_end_matches(tail, ".git");
            match split_once(t, '-') {
                None => Err(RepoNameError::InvalidRepoName),
                Some((_, name)) => {
                    if name.unicode_len() == 0 {
                        Err(RepoNameError::NoRepoName)
                    } else {
                        Ok(owned(name))
                    }
                },
            }
        },
    }
}

/// What setting up a new repository involves: its name, its directory and
/// the command that fills, commits and pushes it.
#[derive(Debug, PartialEq, Eq)]
pub struct NewRepoPlan {
    pub name: String,
    pub dir: String,
    pub command: String,
}

/// Sets up the repository at `url`, whose URL must name it.
pub fn newrepo(url: &str) -> (res: NewRepoPlan)
    requires
        repo_name_of(url@) is Ok,
    ensures
        repo_name_of(url@) == Ok::<Seq<char>, RepoNameError>(res.name@),
        res.dir@ == "/var/ports/"@ + res.name@,
        res.command@ == newrepo_text_of(path_debug_of(res.dir@), res.name@, url@),
{
    let name = match repo_name(url) {
        Ok(n) => n,
        Err(_) => {
            proof {
                assert(false);
            }
            String::new()
        },
    };
    let mut dir = String::from_str("/var/ports/");
    dir.append(name.as_str());
    let dir_q = quoted(dir.as_str());
    let command = newrepo_text(dir_q.as_str(), name.as_str(), url);
    NewRepoPlan { name, dir, command }
}

} // verus!
