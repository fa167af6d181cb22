//! A port: the package described by `/usr/ports/REPO/NAME/BUILD`, and the
//! source URLs it lists.
use vstd::prelude::*;
use vstd::string::*;

use crate::hash::{file_hash, file_hash_of, sha256_input_limit};
use crate::maintarg::{arg_text, lemma_arg_round_trip, parse_arg};
use crate::paths::{path_join, path_join_of};
use crate::text::{
    is_white_space, lines, lines_of, opt_view, owned, split_whitespace, str_views, string_views,
    to_strings, trim, trimmed, words_of,
};

verus! {

/// A source URL of a package and the hash of the file it points to (empty
/// until the file has been hashed).
#[derive(Debug, Clone)]
pub struct Url {
    pub url: String,
    pub hash: String,
}

/// The URL and hash of a `Url`, as character sequences.
pub open spec fn url_view(u: Url) -> (Seq<char>, Seq<char>) {
    (u.url@, u.hash@)
}

impl Url {
    /// A URL whose file has not been hashed yet.
    pub fn new(url: &str) -> (res: Self)
        ensures
            res.url@ == url@,
            res.hash@ == Seq::<char>::empty(),
    {
        Url { url: String::from_str(url), hash: String::new() }
    }

    /// The same URL with the hash of the file it points to, given that file's
    /// contents.
    pub fn hash(&self, contents: &[u8]) -> (res: Self)
        requires
            contents@.len() < sha256_input_limit(),
        ensures
            res.url@ == self.url@,
            res.hash@ == file_hash_of(contents@),
            res.hash@.len() == 43,
    {
        Url { url: owned(self.url.as_str()), hash: file_hash(contents) }
    }
}

/// A package, with the variables that its `BUILD` file sets.
#[derive(Debug)]
pub struct Package {
    pub repo: String,
    pub name: String,
    pub version: String,
    pub description: Option<String>,
    pub categories: Option<Vec<String>>,
    pub timestamp: String,
    pub dependencies: Option<Vec<String>>,
    pub source: Option<Url>,
    pub extra: Option<Vec<Url>>,
    pub upstream: Option<String>,
    pub version_command: Option<String>,
}

/// The character sequences of an optional list of strings.
pub open spec fn strings_opt_view(o: Option<Vec<String>>) -> Option<Seq<Seq<char>>> {
    match o {
        Some(v) => Some(string_views(v@)),
        None => None,
    }
}

/// The URL and hash of an optional `Url`.
pub open spec fn url_opt_view(o: Option<Url>) -> Option<(Seq<char>, Seq<char>)> {
    match o {
        Some(u) => Some(url_view(u)),
        None => None,
    }
}

/// The URLs and hashes of an optional list of `Url`s.
pub open spec fn urls_opt_view(o: Option<Vec<Url>>) -> Option<Seq<(Seq<char>, Seq<char>)>> {
    match o {
        Some(v) => Some(v@.map_values(|u: Url| url_view(u))),
        None => None,
    }
}

/// `t`, or nothing when `t` is empty.
pub open spec fn nonempty(t: Seq<char>) -> Option<Seq<char>> {
    if t.len() == 0 {
        None
    } else {
        Some(t)
    }
}

/// The words of `t`, or nothing when `t` is empty.
pub open spec fn word_list(t: Seq<char>) -> Option<Seq<Seq<char>>> {
    if t.len() == 0 {
        None
    } else {
        Some(words_of(t))
    }
}

/// Unhashed URLs for the given addresses.
pub open spec fn fresh_urls(ws: Seq<Seq<char>>) -> Seq<(Seq<char>, Seq<char>)> {
    ws.map_values(|w: Seq<char>| (w, Seq::<char>::empty()))
}

/// Line `i` of the output of the `BUILD` query, trimmed.
pub open spec fn field_line(out: Seq<char>, i: int) -> Seq<char> {
    trimmed(lines_of(out)[i])
}

/// The query that sources a package's `BUILD` and prints, one per line, its
/// version, description, categories, dependencies, source, extra sources,
/// upstream and version command.
pub open spec fn query_command_of(repo: Seq<char>, name: Seq<char>) -> Seq<char> {
    "source /usr/ports/"@ + repo + "/"@ + name
        + "/BUILD; echo \"$VERS\"; echo \"$DESC\"; echo \"${CATG[@]}\"; echo \"${DEPS[@]}\"; echo \"$SOURCE\"; echo \"${EXTRA[@]}\"; echo \"$UPST\"; echo \"$VCMD\""@
}

/// `/usr/ports/REPO/NAME`.
pub open spec fn port_dir_of(repo: Seq<char>, name: Seq<char>) -> Seq<char> {
    "/usr/ports/"@ + repo + "/"@ + name
}

/// Unhashed URLs for the given addresses.
fn to_urls(v: &Vec<&str>) -> (res: Vec<Url>)
    ensures
        res@.map_values(|u: Url| url_view(u)) == fresh_urls(str_views(v@)),
{
    let mut res: Vec<Url> = Vec::new();
    let mut i: usize = 0;
    while i < v.len()
        invariant
            i <= v@.len(),
            res@.map_values(|u: Url| url_view(u)) == fresh_urls(str_views(v@.take(i as int))),
        decreases v@.len() - i,
    {
        let ghost prev = res@;
        res.push(Url::new(v[i]));
        assert(fresh_urls(str_views(v@.take(i + 1))) =~= fresh_urls(
            str_views(v@.take(i as int)),
        ).push((v@[i as int]@, Seq::<char>::empty())));
        assert(res@.map_values(|u: Url| url_view(u)) =~= prev.map_values(|u: Url| url_view(u)).push(
            url_view(res@.last()),
        ));
        i = i + 1;
    }
    assert(v@.take(v@.len() as int) =~= v@);
    res
}

impl Package {
    /// The shell command whose output `new` reads: it sources the package's
    /// `BUILD` and prints its variables, one per line.
    pub fn query_command(repo: &str, name: &str) -> (res: String)
        ensures
            res@ == query_command_of(repo@, name@),
    {
        let mut c = String::from_str("source /usr/ports/");
        c.append(repo);
        c.append("/");
        c.append(name);
        c.append(
            "/BUILD; echo \"$VERS\"; echo \"$DESC\"; echo \"${CATG[@]}\"; echo \"${DEPS[@]}\"; echo \"$SOURCE\"; echo \"${EXTRA[@]}\"; echo \"$UPST\"; echo \"$VCMD\"",
        );
        c
    }

    /// The package `repo/name`, from the eight lines that the `BUILD` query
    /// printed (`build_output`) and the time of generation.  Each line is
    /// trimmed; an empty line leaves its field unset; categories,
    /// dependencies and extra sources are split at whitespace.
    pub fn new(repo: &str, name: &str, build_output: &str, timestamp: &str) -> (res: Self)
        requires
            lines_of(build_output@).len() == 8,
        ensures
            res.repo@ == repo@,
            res.name@ == name@,
            res.version@ == field_line(build_output@, 0),
            opt_view(res.description) == nonempty(field_line(build_output@, 1)),
            strings_opt_view(res.categories) == word_list(field_line(build_output@, 2)),
            strings_opt_view(res.dependencies) == word_list(field_line(build_output@, 3)),
            url_opt_view(res.source) == match nonempty(field_line(build_output@, 4)) {
                Some(u) => Some((u, Seq::<char>::empty())),
                None => None,
            },
            urls_opt_view(res.extra) == match word_list(field_line(build_output@, 5)) {
                Some(ws) => Some(fresh_urls(ws)),
                None => None,
            },
            opt_view(res.upstream) == nonempty(field_line(build_output@, 6)),
            opt_view(res.version_command) == nonempty(field_line(build_output@, 7)),
            res.timestamp@ == timestamp@,
    {
        let ls = lines(build_output);
        let vers = trim(ls[0]);
        let desc = trim(ls[1]);
        let catg = trim(ls[2]);
        let deps = trim(ls[3]);
        let source = trim(ls[4]);
        let extra = trim(ls[5]);
        let upstream = trim(ls[6]);
        let vcmd = trim(ls[7]);
        proof {
            assert forall|i: int| 0 <= i < 8 implies #[trigger] str_views(ls@)[i] == ls@[i]@ by {}
        }
        let description = if desc.unicode_len() == 0 {
            None
        } else {
            Some(owned(desc))
        };
        let categories = if catg.unicode_len() == 0 {
            None
        } else {
            Some(to_strings(&split_whitespace(catg)))
        };
        let dependencies = if deps.unicode_len() == 0 {
            None
        } else {
            Some(to_strings(&split_whitespace(deps)))
        };
        let source = if source.unicode_len() == 0 {
            None
        } else {
            Some(Url::new(source))
        };
        let extra = if extra.unicode_len() == 0 {
            None
        } else {
            Some(to_urls(&split_whitespace(extra)))
        };
        let upstream = if upstream.unicode_len() == 0 {
            None
        } else {
            Some(owned(upstream))
        };
        let version_command = if vcmd.unicode_len() == 0 {
            None
        } else {
            Some(owned(vcmd))
        };
        Package {
            repo: owned(repo),
            name: owned(name),
            version: owned(vers),
            description,
            categories,
            timestamp: owned(timestamp),
            dependencies,
            source,
            extra,
            upstream,
            version_command,
        }
    }

    /// The package's directory, as a character sequence.
    pub open spec fn dir_of(&self) -> Seq<char> {
        port_dir_of(self.repo@, self.name@)
    }

    /// The package's directory: `/usr/ports/REPO/NAME`.
    pub fn dir(&self) -> (res: String)
        ensures
            res@ == self.dir_of(),
    {
        let mut d = String::from_str("/usr/ports/");
        d.append(self.repo.as_str());
        d.append("/");
        d.append(self.name.as_str());
        d
    }

    /// The package's `BUILD` file: its directory joined with `BUILD`.
    pub fn build_path(&self) -> (res: String)
        ensures
            res@ == path_join_of(self.dir_of(), "BUILD"@),
    {
        path_join(self.dir().as_str(), "BUILD")
    }

    /// The file that the package's lock is written to: `DIR/LOCK`.
    pub fn lock_path(&self) -> (res: String)
        ensures
            res@ == self.dir_of() + "/LOCK"@,
    {
        let mut p = self.dir();
        p.append("/LOCK");
        p
    }

    /// The directory that downloaded sources go to: `DIR/.sources/`.
    pub fn sources_dir(&self) -> (res: String)
        ensures
            res@ == self.dir_of() + "/.sources/"@,
    {
        let mut p = self.dir();
        p.append("/.sources/");
        p
    }

    /// `REPO/NAME=VERS`, as a character sequence.
    pub open spec fn text_of(&self) -> Seq<char> {
        arg_text(self.repo@, self.name@, self.version@)
    }

    /// The package as the maintainer writes it: `REPO/NAME=VERS`.
    pub fn to_string(&self) -> (res: String)
        ensures
            res@ == self.text_of(),
    {
        let mut t = String::from_str(self.repo.as_str());
        t.append("/");
        t.append(self.name.as_str());
        t.append("=");
        t.append(self.version.as_str());
        proof {
            reveal_strlit("/");
            reveal_strlit("=");
        }
        t
    }
}

/// A package written as `REPO/NAME=VERS` names itself again when read back
/// as an argument, provided that the repository holds no `/`, the name holds
/// no `=`, and neither the repository nor the name begins, nor the version
/// ends, with whitespace.
pub proof fn lemma_package_text_parses_back(p: &Package)
    requires
        forall|i: int| 0 <= i < p.repo@.len() ==> p.repo@[i] != '/',
        forall|i: int| 0 <= i < p.name@.len() ==> p.name@[i] != '=',
        p.repo@.len() == 0 || !is_white_space(p.repo@[0]),
        p.name@.len() == 0 || !is_white_space(p.name@[0]),
        p.version@.len() == 0 || !is_white_space(p.version@.last()),
    ensures
        parse_arg(p.text_of()) == Some((p.repo@, p.name@, Some(p.version@))),
{
    lemma_arg_round_trip(p.repo@, p.name@, p.version@);
}

} // verus!
