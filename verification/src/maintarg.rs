//! The `REPO/NAME[=VERS]` arguments that the maintainer passes on the
//! command line.
use vstd::prelude::*;
use vstd::string::*;

use crate::text::{
    first_at, is_white_space, lemma_split_once_at, lemma_trim_end_stops, lemma_trim_start_stops,
    lemma_trimmed_is_infix, split_once, split_once_of, trim, trimmed,
};

verus! {

/// A package named on the command line: `REPO/NAME` or `REPO/NAME=VERS`.
/// The fields borrow from the argument they were parsed from.
#[derive(Debug, Copy, Clone)]
pub struct MaintArg<'a> {
    pub repo: &'a str,
    pub name: &'a str,
    pub version: Option<&'a str>,
}

/// The character sequence of an optional slice.
pub open spec fn opt_str_view(o: Option<&str>) -> Option<Seq<char>> {
    match o {
        Some(s) => Some(s@),
        None => None,
    }
}

/// What an argument parses to, as `(repo, name, version)`: the argument is
/// trimmed and split at its first `/`; the rest, trimmed, is split at its
/// first `=` into name and version; without a `=` the untrimmed rest is the
/// name.  `None` when the trimmed argument holds no `/`.
pub open spec fn parse_arg(s: Seq<char>) -> Option<(Seq<char>, Seq<char>, Option<Seq<char>>)> {
    match split_once_of(trimmed(s), '/') {
        None => None,
        Some((repo, rest)) => match split_once_of(trimmed(rest), '=') {
            Some((name, version)) => Some((repo, name, Some(version))),
            None => Some((repo, rest, None)),
        },
    }
}

impl<'a> MaintArg<'a> {
    /// The fields as character sequences.
    pub open spec fn fields(self) -> (Seq<char>, Seq<char>, Option<Seq<char>>) {
        (self.repo@, self.name@, opt_str_view(self.version))
    }

    /// Parses `REPO/NAME` or `REPO/NAME=VERS`.
    pub fn new(str: &'a str) -> (res: Self)
        requires
            parse_arg(str@) is Some,
        ensures
            parse_arg(str@) == Some(res.fields()),
    {
        match Self::try_new(str) {
            Some(a) => a,
            None => {
                proof {
                    assert(false);
                }
                MaintArg { repo: str, name: str, version: None }
            },
        }
    }

    /// Parses `REPO/NAME` or `REPO/NAME=VERS`; `None` when the argument has
    /// no `/`.
    pub fn try_new(str: &'a str) -> (res: Option<Self>)
        ensures
            match res {
                Some(a) => parse_arg(str@) == Some(a.fields()),
                None => parse_arg(str@) is None,
            },
    {
        let t = trim(str);
        match split_once(t, '/') {
            None => None,
            Some((repo, rest)) => {
                let r = trim(rest);
                match split_once(r, '=') {
                    Some((name, version)) => Some(MaintArg { repo, name, version: Some(version) }),
                    None => Some(MaintArg { repo, name: rest, version: None }),
                }
            },
        }
    }
}

/// The repository of a parsed argument holds no `/`, and a name that comes
/// with a version holds no `=`.
pub proof fn lemma_parsed_fields(s: Seq<char>)
    requires
        parse_arg(s) is Some,
    ensures
        forall|i: int| 0 <= i < (parse_arg(s)->0).0.len() ==> (parse_arg(s)->0).0[i] != '/',
        (parse_arg(s)->0).2 is Some ==> forall|i: int|
            0 <= i < (parse_arg(s)->0).1.len() ==> (parse_arg(s)->0).1[i] != '=',
{
    let t = trimmed(s);
    let k = choose|k: int| first_at(t, '/', k);
    let rest = t.skip(k + 1);
    assert forall|i: int| 0 <= i < (parse_arg(s)->0).0.len() implies (parse_arg(s)->0).0[i]
        != '/' by {
        assert((parse_arg(s)->0).0[i] == t[i]);
    }
    if (parse_arg(s)->0).2 is Some {
        let r = trimmed(rest);
        let m = choose|m: int| first_at(r, '=', m);
        assert forall|i: int| 0 <= i < (parse_arg(s)->0).1.len() implies (parse_arg(s)->0).1[i]
            != '=' by {
            assert((parse_arg(s)->0).1[i] == r[i]);
        }
    }
}

/// `REPO/NAME=VERS` as the maintainer writes it.
pub open spec fn arg_text(repo: Seq<char>, name: Seq<char>, version: Seq<char>) -> Seq<char> {
    repo + seq!['/'] + name + seq!['='] + version
}

/// A repository, name and version written as `REPO/NAME=VERS` parse back to
/// themselves, provided that the repository holds no `/`, the name holds no
/// `=`, and neither the repository nor the name begins, nor the version ends,
/// with whitespace.
pub proof fn lemma_arg_round_trip(repo: Seq<char>, name: Seq<char>, version: Seq<char>)
    requires
        forall|i: int| 0 <= i < repo.len() ==> repo[i] != '/',
        forall|i: int| 0 <= i < name.len() ==> name[i] != '=',
        repo.len() == 0 || !is_white_space(repo[0]),
        name.len() == 0 || !is_white_space(name[0]),
        version.len() == 0 || !is_white_space(version.last()),
    ensures
        parse_arg(arg_text(repo, name, version)) == Some((repo, name, Some(version))),
{
    let s = arg_text(repo, name, version);
    let rest = name + seq!['='] + version;
    assert(s =~= repo + seq!['/'] + rest);
    assert(!is_white_space(s[0])) by {
        if repo.len() == 0 {
            assert(s[0] == '/');
        } else {
            assert(s[0] == repo[0]);
        }
    }
    assert(!is_white_space(s.last())) by {
        if version.len() == 0 {
            assert(s.last() == '=');
        } else {
            assert(s.last() == version.last());
        }
    }
    lemma_trim_start_stops(s);
    lemma_trim_end_stops(s);
    assert(trimmed(s) == s);
    assert(first_at(s, '/', repo.len() as int));
    lemma_split_once_at(s, '/', repo.len() as int);
    assert(s.take(repo.len() as int) =~= repo);
    assert(s.skip(repo.len() as int + 1) =~= rest);
    assert(!is_white_space(rest[0])) by {
        if name.len() == 0 {
            assert(rest[0] == '=');
        } else {
            assert(rest[0] == name[0]);
        }
    }
    assert(!is_white_space(rest.last())) by {
        if version.len() == 0 {
            assert(rest.last() == '=');
        } else {
            assert(rest.last() == version.last());
        }
    }
    lemma_trim_start_stops(rest);
    lemma_trim_end_stops(rest);
    assert(trimmed(rest) == rest);
    assert(first_at(rest, '=', name.len() as int));
    lemma_split_once_at(rest, '=', name.len() as int);
    assert(rest.take(name.len() as int) =~= name);
    assert(rest.skip(name.len() as int + 1) =~= version);
}

/// A repository and name written as `REPO/NAME` parse back to themselves
/// with no version, provided that the repository holds no `/`, the name holds
/// no `=`, the repository does not begin with whitespace and the name does not
/// end with it.
pub proof fn lemma_arg_round_trip_unversioned(repo: Seq<char>, name: Seq<char>)
    requires
        forall|i: int| 0 <= i < repo.len() ==> repo[i] != '/',
        forall|i: int| 0 <= i < name.len() ==> name[i] != '=',
        repo.len() == 0 || !is_white_space(repo[0]),
        name.len() == 0 || !is_white_space(name.last()),
    ensures
        parse_arg(repo + seq!['/'] + name) == Some((repo, name, None::<Seq<char>>)),
{
    let s = repo + seq!['/'] + name;
    assert(!is_white_space(s[0])) by {
        if repo.len() == 0 {
            assert(s[0] == '/');
        } else {
            assert(s[0] == repo[0]);
        }
    }
    assert(!is_white_space(s.last())) by {
        if name.len() == 0 {
            assert(s.last() == '/');
        } else {
            assert(s.last() == name.last());
        }
    }
    lemma_trim_start_stops(s);
    lemma_trim_end_stops(s);
    assert(first_at(s, '/', repo.len() as int));
    lemma_split_once_at(s, '/', repo.len() as int);
    assert(s.take(repo.len() as int) =~= repo);
    assert(s.skip(repo.len() as int + 1) =~= name);
    lemma_trimmed_is_infix(name);
    let (a, b) = choose|a: int, b: int|
        0 <= a <= b <= name.len() && #[trigger] name.subrange(a, b) == trimmed(name) && (forall|
            k: int,
        | 0 <= k < a ==> is_white_space(name[k])) && (forall|k: int|
            b <= k < name.len() ==> is_white_space(name[k])) && (a == b || (!is_white_space(
            name[a],
        ) && !is_white_space(name[b - 1])));
    assert forall|i: int| !first_at(trimmed(name), '=', i) by {
        if 0 <= i < trimmed(name).len() {
            assert(trimmed(name)[i] == name[a + i]);
        }
    }
}

} // verus!
