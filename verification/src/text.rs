//! Character-level text handling on `str`: whitespace trimming, splitting on
//! a character, lines, words, prefixes and joining.  Each function is stated
//! over the character sequence (`s@`) of its input.
use vstd::prelude::*;
use vstd::string::*;

verus! {

/// The characters with the Unicode `White_Space` property, which is what
/// `char::is_whitespace` tests.
pub open spec fn is_white_space(c: char) -> bool {
    let n = c as u32;
    ||| 0x09 <= n <= 0x0d
    ||| n == 0x20
    ||| n == 0x85
    ||| n == 0xa0
    ||| n == 0x1680
    ||| 0x2000 <= n <= 0x200a
    ||| n == 0x2028
    ||| n == 0x2029
    ||| n == 0x202f
    ||| n == 0x205f
    ||| n == 0x3000
}

/// Whether `c` is a whitespace character.
pub fn is_ws(c: char) -> (res: bool)
    ensures
        res == is_white_space(c),
{
    let n = c as u32;
    (0x09 <= n && n <= 0x0d) || n == 0x20 || n == 0x85 || n == 0xa0 || n == 0x1680 || (0x2000
        <= n && n <= 0x200a) || n == 0x2028 || n == 0x2029 || n == 0x202f || n == 0x205f || n
        == 0x3000
}

// ---------------------------------------------------------------------------
// Views of collections of strings
// ---------------------------------------------------------------------------
/// The character sequences of a sequence of string slices.
pub open spec fn str_views(v: Seq<&str>) -> Seq<Seq<char>> {
    v.map_values(|x: &str| x@)
}

/// The character sequences of a sequence of strings.
pub open spec fn string_views(v: Seq<String>) -> Seq<Seq<char>> {
    v.map_values(|x: String| x@)
}

/// The character sequence of an optional string.
pub open spec fn opt_view(o: Option<String>) -> Option<Seq<char>> {
    match o {
        Some(s) => Some(s@),
        None => None,
    }
}

// ---------------------------------------------------------------------------
// Trimming
// ---------------------------------------------------------------------------
/// `s` without its leading whitespace.
pub open spec fn trim_start_of(s: Seq<char>) -> Seq<char>
    decreases s.len(),
{
    if s.len() > 0 && is_white_space(s[0]) {
        trim_start_of(s.drop_first())
    } else {
        s
    }
}

/// `s` without its trailing whitespace.
pub open spec fn trim_end_of(s: Seq<char>) -> Seq<char>
    decreases s.len(),
{
    if s.len() > 0 && is_white_space(s.last()) {
        trim_end_of(s.drop_last())
    } else {
        s
    }
}

/// `s` without leading and trailing whitespace (what `str::trim` gives).
pub open spec fn trimmed(s: Seq<char>) -> Seq<char> {
    trim_end_of(trim_start_of(s))
}

/// A sequence whose first character is not whitespace is its own start-trim.
pub proof fn lemma_trim_start_stops(s: Seq<char>)
    requires
        s.len() == 0 || !is_white_space(s[0]),
    ensures
        trim_start_of(s) == s,
{
}

/// A sequence whose last character is not whitespace is its own end-trim.
pub proof fn lemma_trim_end_stops(s: Seq<char>)
    requires
        s.len() == 0 || !is_white_space(s.last()),
    ensures
        trim_end_of(s) == s,
{
}

/// Leading whitespace `w` makes no difference to the start-trim.
pub proof fn lemma_trim_start_skips(w: Seq<char>, x: Seq<char>)
    requires
        forall|k: int| 0 <= k < w.len() ==> is_white_space(#[trigger] w[k]),
    ensures
        trim_start_of(w + x) == trim_start_of(x),
    decreases w.len(),
{
    if w.len() == 0 {
        assert(w + x =~= x);
    } else {
        assert((w + x)[0] == w[0]);
        assert((w + x).drop_first() =~= w.drop_first() + x);
        lemma_trim_start_skips(w.drop_first(), x);
    }
}

/// Trailing whitespace `w` makes no difference to the end-trim.
pub proof fn lemma_trim_end_skips(x: Seq<char>, w: Seq<char>)
    requires
        forall|k: int| 0 <= k < w.len() ==> is_white_space(#[trigger] w[k]),
    ensures
        trim_end_of(x + w) == trim_end_of(x),
    decreases w.len(),
{
    if w.len() == 0 {
        assert(x + w =~= x);
    } else {
        assert((x + w).last() == w.last());
        assert((x + w).drop_last() =~= x + w.drop_last());
        lemma_trim_end_skips(x, w.drop_last());
    }
}

/// Trimming `w1 + d + w2`, where `w1` and `w2` are whitespace and `d` has
/// none at either end, gives `d`.
pub proof fn lemma_trimmed_core(w1: Seq<char>, d: Seq<char>, w2: Seq<char>)
    requires
        forall|k: int| 0 <= k < w1.len() ==> is_white_space(#[trigger] w1[k]),
        forall|k: int| 0 <= k < w2.len() ==> is_white_space(#[trigger] w2[k]),
        d.len() == 0 || (!is_white_space(d[0]) && !is_white_space(d.last())),
    ensures
        trimmed(w1 + d + w2) == d,
{
    assert(w1 + d + w2 =~= w1 + (d + w2));
    lemma_trim_start_skips(w1, d + w2);
    if d.len() == 0 {
        assert(d + w2 =~= w2 + d);
        lemma_trim_start_skips(w2, d);
        assert(trim_start_of(d) == d);
    } else {
        assert((d + w2)[0] == d[0]);
        lemma_trim_start_stops(d + w2);
        lemma_trim_end_skips(d, w2);
        lemma_trim_end_stops(d);
    }
}

/// Trimming removes a (possibly empty) run of whitespace at each end and
/// keeps the characters in between in order.
pub proof fn lemma_trimmed_is_infix(s: Seq<char>)
    ensures
        exists|a: int, b: int|
            0 <= a <= b <= s.len() && #[trigger] s.subrange(a, b) == trimmed(s) && (forall|k: int|
                0 <= k < a ==> is_white_space(s[k])) && (forall|k: int|
                b <= k < s.len() ==> is_white_space(s[k])) && (a == b || (!is_white_space(s[a])
                && !is_white_space(s[b - 1]))),
{
    let (a, b) = trim_bounds_of(s);
    assert(s.subrange(a, b) == trimmed(s));
}

/// The bounds `(a, b)` such that `trimmed(s) == s.subrange(a, b)`.
proof fn trim_bounds_of(s: Seq<char>) -> (r: (int, int))
    ensures
        0 <= r.0 <= r.1 <= s.len(),
        s.subrange(r.0, r.1) == trimmed(s),
        forall|k: int| 0 <= k < r.0 ==> is_white_space(s[k]),
        forall|k: int| r.1 <= k < s.len() ==> is_white_space(s[k]),
        r.0 == r.1 || (!is_white_space(s[r.0]) && !is_white_space(s[r.1 - 1])),
{
    let a = start_bound(s);
    let t = s.skip(a);
    let b = end_bound(t);
    assert(s.subrange(a, a + b) =~= t.take(b));
    assert forall|k: int| a + b <= k < s.len() implies is_white_space(s[k]) by {
        assert(s[k] == t[k - a]);
    }
    if b > 0 {
        assert(s[a + b - 1] == t[b - 1]);
    }
    (a, a + b)
}

proof fn start_bound(s: Seq<char>) -> (a: int)
    ensures
        0 <= a <= s.len(),
        trim_start_of(s) == s.skip(a),
        forall|k: int| 0 <= k < a ==> is_white_space(s[k]),
        a == s.len() || !is_white_space(s[a]),
    decreases s.len(),
{
    if s.len() > 0 && is_white_space(s[0]) {
        let a = start_bound(s.drop_first());
        assert(s.drop_first().skip(a) =~= s.skip(a + 1));
        assert forall|k: int| 0 <= k < a + 1 implies is_white_space(s[k]) by {
            if k > 0 {
                assert(s[k] == s.drop_first()[k - 1]);
            }
        }
        a + 1
    } else {
        assert(s.skip(0) =~= s);
        0
    }
}

proof fn end_bound(s: Seq<char>) -> (b: int)
    ensures
        0 <= b <= s.len(),
        trim_end_of(s) == s.take(b),
        forall|k: int| b <= k < s.len() ==> is_white_space(s[k]),
        b == 0 || !is_white_space(s[b - 1]),
    decreases s.len(),
{
    if s.len() > 0 && is_white_space(s.last()) {
        let b = end_bound(s.drop_last());
        assert(s.drop_last().take(b) =~= s.take(b));
        assert forall|k: int| b <= k < s.len() implies is_white_space(s[k]) by {
            if k < s.len() - 1 {
                assert(s[k] == s.drop_last()[k]);
            }
        }
        b
    } else {
        assert(s.take(s.len() as int) =~= s);
        s.len() as int
    }
}

/// `s` with leading and trailing whitespace removed.
pub fn trim<'a>(s: &'a str) -> (res: &'a str)
    ensures
        res@ == trimmed(s@),
{
    let n = s.unicode_len();
    let mut a: usize = 0;
    assert(s@.skip(0) =~= s@);
    while a < n && is_ws(s.get_char(a))
        invariant
            a <= n,
            n == s@.len(),
            trim_start_of(s@) == trim_start_of(s@.skip(a as int)),
        decreases n - a,
    {
        assert(s@.skip(a as int).drop_first() =~= s@.skip(a + 1));
        a = a + 1;
    }
    assert(trim_start_of(s@.skip(a as int)) == s@.skip(a as int)) by {
        lemma_trim_start_stops(s@.skip(a as int));
    }
    let mut b: usize = n;
    while b > a && is_ws(s.get_char(b - 1))
        invariant
            a <= b <= n,
            n == s@.len(),
            trim_start_of(s@) == s@.skip(a as int),
            trim_end_of(s@.skip(a as int)) == trim_end_of(s@.subrange(a as int, b as int)),
        decreases b,
    {
        assert(s@.subrange(a as int, b as int).drop_last() =~= s@.subrange(a as int, b - 1));
        b = b - 1;
    }
    assert(s@.skip(a as int) =~= s@.subrange(a as int, n as int));
    proof {
        lemma_trim_end_stops(s@.subrange(a as int, b as int));
    }
    s.substring_char(a, b)
}

// ---------------------------------------------------------------------------
// Searching for a character
// ---------------------------------------------------------------------------
/// `i` is the first position of `c` in `s`.
pub open spec fn first_at(s: Seq<char>, c: char, i: int) -> bool {
    &&& 0 <= i < s.len()
    &&& s[i] == c
    &&& forall|j: int| 0 <= j < i ==> s[j] != c
}

/// `i` is the last position of `c` in `s`.
pub open spec fn last_at(s: Seq<char>, c: char, i: int) -> bool {
    &&& 0 <= i < s.len()
    &&& s[i] == c
    &&& forall|j: int| i < j < s.len() ==> s[j] != c
}

/// `s` split around the first `c` (what `str::split_once` gives for a
/// character pattern).
pub open spec fn split_once_of(s: Seq<char>, c: char) -> Option<(Seq<char>, Seq<char>)> {
    if exists|i: int| first_at(s, c, i) {
        let i = choose|i: int| first_at(s, c, i);
        Some((s.take(i), s.skip(i + 1)))
    } else {
        None
    }
}

/// `s` split around the last `c` (what `str::rsplit_once` gives for a
/// character pattern).
pub open spec fn rsplit_once_of(s: Seq<char>, c: char) -> Option<(Seq<char>, Seq<char>)> {
    if exists|i: int| last_at(s, c, i) {
        let i = choose|i: int| last_at(s, c, i);
        Some((s.take(i), s.skip(i + 1)))
    } else {
        None
    }
}

/// The first position of `c` in `s` is unique.
pub proof fn lemma_first_at_unique(s: Seq<char>, c: char, i: int, k: int)
    requires
        first_at(s, c, i),
        first_at(s, c, k),
    ensures
        i == k,
{
    if i < k {
        assert(s[i] != c);
    } else if k < i {
        assert(s[k] != c);
    }
}

/// The last position of `c` in `s` is unique.
pub proof fn lemma_last_at_unique(s: Seq<char>, c: char, i: int, k: int)
    requires
        last_at(s, c, i),
        last_at(s, c, k),
    ensures
        i == k,
{
    if i < k {
        assert(s[k] != c);
    } else if k < i {
        assert(s[i] != c);
    }
}

/// The split of `s` around its first `c`, once that position is known.
pub proof fn lemma_split_once_at(s: Seq<char>, c: char, i: int)
    requires
        first_at(s, c, i),
    ensures
        split_once_of(s, c) == Some((s.take(i), s.skip(i + 1))),
{
    let k = choose|k: int| first_at(s, c, k);
    lemma_first_at_unique(s, c, i, k);
}

/// The split of `s` around its last `c`, once that position is known.
pub proof fn lemma_rsplit_once_at(s: Seq<char>, c: char, i: int)
    requires
        last_at(s, c, i),
    ensures
        rsplit_once_of(s, c) == Some((s.take(i), s.skip(i + 1))),
{
    let k = choose|k: int| last_at(s, c, k);
    lemma_last_at_unique(s, c, i, k);
}

/// Split at its last `/`, `p/t` (with no `/` in `t`) gives `p` and `t`.
pub proof fn lemma_rsplit_last_segment(p: Seq<char>, t: Seq<char>)
    requires
        forall|k: int| 0 <= k < t.len() ==> #[trigger] t[k] != '/',
    ensures
        rsplit_once_of(p + seq!['/'] + t, '/') == Some((p, t)),
{
    let u = p + seq!['/'] + t;
    assert forall|j: int| p.len() < j < u.len() implies u[j] != '/' by {
        assert(u[j] == t[j - p.len() - 1]);
    }
    assert(last_at(u, '/', p.len() as int));
    lemma_rsplit_once_at(u, '/', p.len() as int);
    assert(u.take(p.len() as int) =~= p);
    assert(u.skip(p.len() as int + 1) =~= t);
}

/// The position of the first `c` in `s`, counted in characters.
pub fn find_char(s: &str, c: char) -> (res: Option<usize>)
    ensures
        match res {
            Some(i) => first_at(s@, c, i as int),
            None => forall|j: int| 0 <= j < s@.len() ==> s@[j] != c,
        },
{
    let n = s.unicode_len();
    let mut i: usize = 0;
    while i < n
        invariant
            i <= n,
            n == s@.len(),
            forall|j: int| 0 <= j < i ==> s@[j] != c,
        decreases n - i,
    {
        if s.get_char(i) == c {
            return Some(i);
        }
        i = i + 1;
    }
    None
}

/// The position of the last `c` in `s`, counted in characters.
pub fn rfind_char(s: &str, c: char) -> (res: Option<usize>)
    ensures
        match res {
            Some(i) => last_at(s@, c, i as int),
            None => forall|j: int| 0 <= j < s@.len() ==> s@[j] != c,
        },
{
    let n = s.unicode_len();
    let mut i: usize = n;
    while i > 0
        invariant
            i <= n,
            n == s@.len(),
            forall|j: int| i <= j < n ==> s@[j] != c,
        decreases i,
    {
        if s.get_char(i - 1) == c {
            return Some(i - 1);
        }
        i = i - 1;
    }
    None
}

/// The character sequences of an optional pair of slices.
pub open spec fn pair_view(p: Option<(&str, &str)>) -> Option<(Seq<char>, Seq<char>)> {
    match p {
        Some((a, b)) => Some((a@, b@)),
        None => None,
    }
}

/// `s` split around its first `c`.
pub fn split_once<'a>(s: &'a str, c: char) -> (res: Option<(&'a str, &'a str)>)
    ensures
        pair_view(res) == split_once_of(s@, c),
{
    match find_char(s, c) {
        Some(i) => {
            proof {
                lemma_split_once_at(s@, c, i as int);
            }
            let n = s.unicode_len();
            Some((s.substring_char(0, i), s.substring_char(i + 1, n)))
        },
        None => None,
    }
}

/// `s` split around its last `c`.
pub fn rsplit_once<'a>(s: &'a str, c: char) -> (res: Option<(&'a str, &'a str)>)
    ensures
        pair_view(res) == rsplit_once_of(s@, c),
{
    match rfind_char(s, c) {
        Some(i) => {
            proof {
                lemma_rsplit_once_at(s@, c, i as int);
            }
            let n = s.unicode_len();
            Some((s.substring_char(0, i), s.substring_char(i + 1, n)))
        },
        None => None,
    }
}

// ---------------------------------------------------------------------------
// Prefixes, suffixes and substrings
// ---------------------------------------------------------------------------
/// `s` begins with `p`.
pub open spec fn starts_with_of(s: Seq<char>, p: Seq<char>) -> bool {
    p.len() <= s.len() && s.take(p.len() as int) == p
}

/// `s` ends with `p`.
pub open spec fn ends_with_of(s: Seq<char>, p: Seq<char>) -> bool {
    p.len() <= s.len() && s.skip(s.len() - p.len()) == p
}

/// `p` occurs in `s` at position `i`.
pub open spec fn occurs_at(s: Seq<char>, p: Seq<char>, i: int) -> bool {
    0 <= i && i + p.len() <= s.len() && s.subrange(i, i + p.len()) == p
}

/// `i` is the last position at which `p` occurs in `s`.
pub open spec fn last_occurrence(s: Seq<char>, p: Seq<char>, i: int) -> bool {
    occurs_at(s, p, i) && forall|j: int| i < j ==> !#[trigger] occurs_at(s, p, j)
}

/// `s` split around the last occurrence of `p` (what `str::rsplit_once`
/// gives for a non-empty string pattern).
pub open spec fn rsplit_once_str_of(s: Seq<char>, p: Seq<char>) -> Option<(Seq<char>, Seq<char>)> {
    if exists|i: int| last_occurrence(s, p, i) {
        let i = choose|i: int| last_occurrence(s, p, i);
        Some((s.take(i), s.skip(i + p.len())))
    } else {
        None
    }
}

/// The last occurrence of `p` in `s` is unique.
pub proof fn lemma_last_occurrence_unique(s: Seq<char>, p: Seq<char>, i: int, k: int)
    requires
        last_occurrence(s, p, i),
        last_occurrence(s, p, k),
    ensures
        i == k,
{
    if i < k {
        assert(!occurs_at(s, p, k));
    } else if k < i {
        assert(!occurs_at(s, p, i));
    }
}

/// Where `a` ends with `pre` and `b` starts with `post`, `pre + x + post`
/// occurs in `a + x + b` where that `pre` begins.
pub proof fn lemma_occurs_across(
    a: Seq<char>,
    x: Seq<char>,
    b: Seq<char>,
    pre: Seq<char>,
    post: Seq<char>,
)
    requires
        ends_with_of(a, pre),
        starts_with_of(b, post),
    ensures
        occurs_at(a + x + b, pre + x + post, a.len() - pre.len()),
{
    let s = a + x + b;
    let i = a.len() - pre.len();
    let p = pre + x + post;
    assert forall|k: int| 0 <= k < p.len() implies s.subrange(i, i + p.len())[k] == p[k] by {
        if k < pre.len() {
            assert(a.skip(i)[k] == pre[k]);
        } else if k >= pre.len() + x.len() {
            assert(b.take(post.len() as int)[k - pre.len() - x.len()] == post[k - pre.len()
                - x.len()]);
        }
    }
    assert(s.subrange(i, i + p.len()) =~= p);
}

/// What occurs in `s` at `i` occurs at `i` in `s` followed by anything.
pub proof fn lemma_occurs_extended(s: Seq<char>, t: Seq<char>, p: Seq<char>, i: int)
    requires
        occurs_at(s, p, i),
    ensures
        occurs_at(s + t, p, i),
{
    assert((s + t).subrange(i, i + p.len()) =~= s.subrange(i, i + p.len()));
}

/// Whether `p` occurs in `s` at character position `i`.
pub fn occurs_at_pos(s: &str, p: &str, i: usize) -> (res: bool)
    ensures
        res == occurs_at(s@, p@, i as int),
{
    let n = s.unicode_len();
    let m = p.unicode_len();
    if i > n || m > n - i {
        return false;
    }
    let mut k: usize = 0;
    while k < m
        invariant
            k <= m,
            n == s@.len(),
            m == p@.len(),
            i + m <= n,
            forall|j: int| 0 <= j < k ==> s@[i + j] == p@[j],
        decreases m - k,
    {
        if s.get_char(i + k) != p.get_char(k) {
            assert(s@.subrange(i as int, i + m)[k as int] != p@[k as int]);
            return false;
        }
        k = k + 1;
    }
    assert(s@.subrange(i as int, i + m) =~= p@);
    true
}

/// Whether `s` begins with `p`.
pub fn starts_with(s: &str, p: &str) -> (res: bool)
    ensures
        res == starts_with_of(s@, p@),
{
    let r = occurs_at_pos(s, p, 0);
    assert(s@.subrange(0, p@.len() as int) == s@.take(p@.len() as int));
    r
}

/// Whether `s` ends with `p`.
pub fn ends_with(s: &str, p: &str) -> (res: bool)
    ensures
        res == ends_with_of(s@, p@),
{
    let n = s.unicode_len();
    let m = p.unicode_len();
    if m > n {
        return false;
    }
    let r = occurs_at_pos(s, p, n - m);
    assert(s@.subrange(n - m, n as int) == s@.skip(n - m));
    r
}

/// Whether `a` and `b` hold the same characters.
pub fn text_eq(a: &str, b: &str) -> (res: bool)
    ensures
        res == (a@ == b@),
{
    if a.unicode_len() != b.unicode_len() {
        return false;
    }
    let r = starts_with(a, b);
    assert(r ==> a@ =~= a@.take(b@.len() as int));
    assert(a@ == b@ ==> a@.take(b@.len() as int) =~= b@);
    r
}

/// `s` split around the last occurrence of the non-empty pattern `p`.
pub fn rsplit_once_str<'a>(s: &'a str, p: &str) -> (res: Option<(&'a str, &'a str)>)
    requires
        p@.len() > 0,
    ensures
        pair_view(res) == rsplit_once_str_of(s@, p@),
{
    let n = s.unicode_len();
    let m = p.unicode_len();
    if m > n {
        assert forall|i: int| !last_occurrence(s@, p@, i) by {
            assert(!occurs_at(s@, p@, i));
        }
        return None;
    }
    let mut i: usize = n - m + 1;
    while i > 0
        invariant
            i <= n - m + 1,
            n == s@.len(),
            m == p@.len(),
            m <= n,
            forall|j: int| i <= j ==> !#[trigger] occurs_at(s@, p@, j),
        decreases i,
    {
        if occurs_at_pos(s, p, i - 1) {
            let k = i - 1;
            proof {
                assert(last_occurrence(s@, p@, k as int));
                let c = choose|c: int| last_occurrence(s@, p@, c);
                lemma_last_occurrence_unique(s@, p@, k as int, c);
            }
            return Some((s.substring_char(0, k), s.substring_char(k + m, n)));
        }
        i = i - 1;
    }
    assert forall|j: int| !last_occurrence(s@, p@, j) by {
        if j < 0 {
            assert(!occurs_at(s@, p@, j));
        }
    }
    None
}

/// `s` without `p` at its front, if it is there (what `str::strip_prefix`
/// gives).
pub open spec fn strip_prefix_of(s: Seq<char>, p: Seq<char>) -> Option<Seq<char>> {
    if starts_with_of(s, p) {
        Some(s.skip(p.len() as int))
    } else {
        None
    }
}

/// `s` without `p` at its front, if it is there.
pub fn strip_prefix<'a>(s: &'a str, p: &str) -> (res: Option<&'a str>)
    ensures
        match res {
            Some(r) => strip_prefix_of(s@, p@) == Some(r@),
            None => strip_prefix_of(s@, p@) is None,
        },
{
    if starts_with(s, p) {
        let n = s.unicode_len();
        let m = p.unicode_len();
        Some(s.substring_char(m, n))
    } else {
        None
    }
}

/// `s` with every trailing repetition of the non-empty `p` removed (what
/// `str::trim_end_matches` gives for a string pattern).
pub open spec fn trim_end_matches_of(s: Seq<char>, p: Seq<char>) -> Seq<char>
    decreases s.len(),
{
    if p.len() > 0 && ends_with_of(s, p) {
        trim_end_matches_of(s.take(s.len() - p.len()), p)
    } else {
        s
    }
}

/// What `trim_end_matches_of` leaves of `s` is a prefix of `s`.
pub proof fn lemma_trim_end_matches_prefix(s: Seq<char>, p: Seq<char>)
    ensures
        trim_end_matches_of(s, p).len() <= s.len(),
        trim_end_matches_of(s, p) == s.take(trim_end_matches_of(s, p).len() as int),
    decreases s.len(),
{
    if p.len() > 0 && ends_with_of(s, p) {
        let t = s.take(s.len() - p.len());
        lemma_trim_end_matches_prefix(t, p);
        let r = trim_end_matches_of(t, p);
        assert(t.take(r.len() as int) =~= s.take(r.len() as int));
    } else {
        assert(s.take(s.len() as int) =~= s);
    }
}

/// `s` with every trailing repetition of the non-empty `p` removed.
pub fn trim_end_matches<'a>(s: &'a str, p: &str) -> (res: &'a str)
    requires
        p@.len() > 0,
    ensures
        res@ == trim_end_matches_of(s@, p@),
{
    let m = p.unicode_len();
    let mut cur: &'a str = s;
    while ends_with(cur, p)
        invariant
            m == p@.len(),
            m > 0,
            trim_end_matches_of(s@, p@) == trim_end_matches_of(cur@, p@),
        decreases cur@.len(),
    {
        let n = cur.unicode_len();
        cur = cur.substring_char(0, n - m);
    }
    cur
}

// ---------------------------------------------------------------------------
// Lines and words
// ---------------------------------------------------------------------------
/// `l` without a final carriage return.
pub open spec fn strip_cr(l: Seq<char>) -> Seq<char> {
    if l.len() > 0 && l.last() == '\r' {
        l.drop_last()
    } else {
        l
    }
}

/// The lines of `s` (what `str::lines` gives): split at each `\n`, a `\r`
/// right before it dropped, and no empty line after a final `\n`.
pub open spec fn lines_of(s: Seq<char>) -> Seq<Seq<char>>
    decreases s.len(),
{
    if s.len() == 0 {
        seq![]
    } else if exists|i: int| first_at(s, '\n', i) {
        let i = choose|i: int| first_at(s, '\n', i);
        seq![strip_cr(s.take(i))] + lines_of(s.skip(i + 1))
    } else {
        seq![s]
    }
}

/// The lines of `s`.
pub fn lines<'a>(s: &'a str) -> (res: Vec<&'a str>)
    ensures
        str_views(res@) == lines_of(s@),
{
    let n = s.unicode_len();
    let mut out: Vec<&'a str> = Vec::new();
    let mut start: usize = 0;
    assert(s@.skip(0) =~= s@);
    while start < n
        invariant
            start <= n,
            n == s@.len(),
            lines_of(s@) == str_views(out@) + lines_of(s@.skip(start as int)),
        decreases n - start,
    {
        let ghost rest = s@.skip(start as int);
        let mut j: usize = start;
        while j < n && s.get_char(j) != '\n'
            invariant
                start <= j <= n,
                n == s@.len(),
                forall|k: int| start <= k < j ==> s@[k] != '\n',
            decreases n - j,
        {
            j = j + 1;
        }
        let ghost prev = out@;
        if j < n {
            let end = if j > start && s.get_char(j - 1) == '\r' {
                j - 1
            } else {
                j
            };
            let line = s.substring_char(start, end);
            proof {
                let i = j - start;
                assert(first_at(rest, '\n', i));
                let c = choose|c: int| first_at(rest, '\n', c);
                lemma_first_at_unique(rest, '\n', i, c);
                assert(rest.take(i) =~= s@.subrange(start as int, j as int));
                assert(line@ == strip_cr(rest.take(i))) by {
                    if j > start && s@[j - 1] == '\r' {
                        assert(rest.take(i).drop_last() =~= line@);
                    } else {
                        assert(rest.take(i) =~= line@);
                    }
                }
                assert(rest.skip(i + 1) =~= s@.skip(j + 1));
            }
            out.push(line);
            start = j + 1;
        } else {
            let line = s.substring_char(start, n);
            proof {
                assert(forall|i: int| !first_at(rest, '\n', i));
                assert(line@ =~= rest);
                assert(s@.skip(n as int) =~= Seq::<char>::empty());
            }
            out.push(line);
            start = n;
        }
        proof {
            assert(str_views(out@) =~= str_views(prev).push(out@.last()@));
            assert(lines_of(s@) == str_views(out@) + lines_of(s@.skip(start as int)));
        }
    }
    assert(s@.skip(n as int) =~= Seq::<char>::empty());
    assert(str_views(out@) + seq![] =~= str_views(out@));
    out
}

/// `i` is the first whitespace position in `s`.
pub open spec fn first_ws_at(s: Seq<char>, i: int) -> bool {
    &&& 0 <= i < s.len()
    &&& is_white_space(s[i])
    &&& forall|j: int| 0 <= j < i ==> !is_white_space(s[j])
}

/// The whitespace-separated words of `s` (what `str::split_whitespace`
/// gives): the pieces between whitespace characters, empty pieces left out.
pub open spec fn words_of(s: Seq<char>) -> Seq<Seq<char>>
    decreases s.len(),
{
    if s.len() == 0 {
        seq![]
    } else if is_white_space(s[0]) {
        words_of(s.drop_first())
    } else if exists|i: int| first_ws_at(s, i) {
        let i = choose|i: int| first_ws_at(s, i);
        seq![s.take(i)] + words_of(s.skip(i))
    } else {
        seq![s]
    }
}

proof fn lemma_first_ws_unique(s: Seq<char>, i: int, k: int)
    requires
        first_ws_at(s, i),
        first_ws_at(s, k),
    ensures
        i == k,
{
    if i < k {
        assert(!is_white_space(s[i]));
    } else if k < i {
        assert(!is_white_space(s[k]));
    }
}

/// The whitespace-separated words of `s`.
pub fn split_whitespace<'a>(s: &'a str) -> (res: Vec<&'a str>)
    ensures
        str_views(res@) == words_of(s@),
{
    let n = s.unicode_len();
    let mut out: Vec<&'a str> = Vec::new();
    let mut start: usize = 0;
    assert(s@.skip(0) =~= s@);
    while start < n
        invariant
            start <= n,
            n == s@.len(),
            words_of(s@) == str_views(out@) + words_of(s@.skip(start as int)),
        decreases n - start,
    {
        let ghost rest = s@.skip(start as int);
        if is_ws(s.get_char(start)) {
            assert(rest.drop_first() =~= s@.skip(start + 1));
            start = start + 1;
        } else {
            let mut j: usize = start + 1;
            while j < n && !is_ws(s.get_char(j))
                invariant
                    start < j <= n,
                    n == s@.len(),
                    forall|k: int| start <= k < j ==> !is_white_space(s@[k]),
                decreases n - j,
            {
                j = j + 1;
            }
            let word = s.substring_char(start, j);
            let ghost prev = out@;
            proof {
                assert(word@ =~= rest.take(j - start));
                if j < n {
                    assert(first_ws_at(rest, j - start));
                    let c = choose|c: int| first_ws_at(rest, c);
                    lemma_first_ws_unique(rest, j - start, c);
                    assert(rest.skip(j - start) =~= s@.skip(j as int));
                } else {
                    assert forall|c: int| !first_ws_at(rest, c) by {
                        if 0 <= c < rest.len() {
                            assert(rest[c] == s@[start + c]);
                        }
                    }
                    assert(word@ =~= rest);
                    assert(s@.skip(j as int) =~= Seq::<char>::empty());
                }
            }
            out.push(word);
            proof {
                assert(str_views(out@) =~= str_views(prev).push(word@));
            }
            start = j;
        }
    }
    assert(s@.skip(n as int) =~= Seq::<char>::empty());
    assert(str_views(out@) + seq![] =~= str_views(out@));
    out
}

/// A character that occurs in `s` has a first position.
pub proof fn lemma_first_exists(s: Seq<char>, c: char, j: int)
    requires
        0 <= j < s.len(),
        s[j] == c,
    ensures
        exists|i: int| first_at(s, c, i),
    decreases j,
{
    if forall|q: int| 0 <= q < j ==> s[q] != c {
        assert(first_at(s, c, j));
    } else {
        let q = choose|q: int| 0 <= q < j && s[q] == c;
        lemma_first_exists(s, c, q);
    }
}

/// A whitespace character in `s` has a first position.
proof fn lemma_first_ws_exists(s: Seq<char>, j: int)
    requires
        0 <= j < s.len(),
        is_white_space(s[j]),
    ensures
        exists|i: int| first_ws_at(s, i),
    decreases j,
{
    if forall|q: int| 0 <= q < j ==> !is_white_space(s[q]) {
        assert(first_ws_at(s, j));
    } else {
        let q = choose|q: int| 0 <= q < j && is_white_space(s[q]);
        lemma_first_ws_exists(s, q);
    }
}

/// No line holds a `\n`.
pub proof fn lemma_lines_hold_no_newline(s: Seq<char>)
    ensures
        forall|k: int, j: int|
            0 <= k < lines_of(s).len() && 0 <= j < lines_of(s)[k].len() ==> #[trigger] lines_of(
                s,
            )[k][j] != '\n',
    decreases s.len(),
{
    if s.len() == 0 {
    } else if exists|i: int| first_at(s, '\n', i) {
        let i = choose|i: int| first_at(s, '\n', i);
        let first = strip_cr(s.take(i));
        let rest = s.skip(i + 1);
        lemma_lines_hold_no_newline(rest);
        assert(lines_of(s) == seq![first] + lines_of(rest));
        assert forall|k: int, j: int|
            0 <= k < lines_of(s).len() && 0 <= j < lines_of(s)[k].len() implies #[trigger] lines_of(
            s,
        )[k][j] != '\n' by {
            if k == 0 {
                assert(lines_of(s)[0] == first);
                assert(first[j] == s[j]);
            } else {
                assert(lines_of(s)[k] == lines_of(rest)[k - 1]);
            }
        }
    } else {
        assert(lines_of(s) == seq![s]);
        assert forall|k: int, j: int|
            0 <= k < lines_of(s).len() && 0 <= j < lines_of(s)[k].len() implies #[trigger] lines_of(
            s,
        )[k][j] != '\n' by {
            assert(!first_at(s, '\n', j));
            if s[j] == '\n' {
                lemma_first_exists(s, '\n', j);
            }
        }
    }
}

/// Every word is non-empty and holds no whitespace.
pub proof fn lemma_words_are_words(s: Seq<char>)
    ensures
        forall|k: int| 0 <= k < words_of(s).len() ==> #[trigger] words_of(s)[k].len() > 0,
        forall|k: int, j: int|
            0 <= k < words_of(s).len() && 0 <= j < words_of(s)[k].len() ==> !is_white_space(
                #[trigger] words_of(s)[k][j],
            ),
    decreases s.len(),
{
    if s.len() == 0 {
    } else if is_white_space(s[0]) {
        lemma_words_are_words(s.drop_first());
        assert(words_of(s) == words_of(s.drop_first()));
    } else if exists|i: int| first_ws_at(s, i) {
        let i = choose|i: int| first_ws_at(s, i);
        let rest = s.skip(i);
        lemma_words_are_words(rest);
        assert(words_of(s) == seq![s.take(i)] + words_of(rest));
        assert forall|k: int| 0 <= k < words_of(s).len() implies #[trigger] words_of(s)[k].len()
            > 0 by {
            if k > 0 {
                assert(words_of(s)[k] == words_of(rest)[k - 1]);
            }
        }
        assert forall|k: int, j: int|
            0 <= k < words_of(s).len() && 0 <= j < words_of(s)[k].len() implies !is_white_space(
            #[trigger] words_of(s)[k][j],
        ) by {
            if k == 0 {
                assert(words_of(s)[0][j] == s[j]);
            } else {
                assert(words_of(s)[k] == words_of(rest)[k - 1]);
            }
        }
    } else {
        assert(words_of(s) == seq![s]);
        assert forall|k: int, j: int|
            0 <= k < words_of(s).len() && 0 <= j < words_of(s)[k].len() implies !is_white_space(
            #[trigger] words_of(s)[k][j],
        ) by {
            if is_white_space(s[j]) {
                lemma_first_ws_exists(s, j);
            }
        }
    }
}

// ---------------------------------------------------------------------------
// Numbers
// ---------------------------------------------------------------------------
/// An ASCII decimal digit.
pub open spec fn is_digit(c: char) -> bool {
    '0' <= c <= '9'
}

/// The value of a decimal digit.
pub open spec fn digit_value(c: char) -> int {
    c as int - '0' as int
}

/// The value of a string of decimal digits.
pub open spec fn decimal_value(d: Seq<char>) -> int
    decreases d.len(),
{
    if d.len() == 0 {
        0
    } else {
        decimal_value(d.drop_last()) * 10 + digit_value(d.last())
    }
}

/// The `u64` that `s` denotes, as `str::parse::<u64>` reads it: an optional
/// `+` and then one or more decimal digits, of a value that fits.
pub open spec fn parse_u64_of(s: Seq<char>) -> Option<u64> {
    parse_u64_of_digits(
        if s.len() > 0 && s[0] == '+' {
            s.drop_first()
        } else {
            s
        },
    )
}

/// The value of a digit string is at least that of each of its prefixes.
proof fn lemma_decimal_prefix(d: Seq<char>, k: int)
    requires
        0 <= k <= d.len(),
        forall|i: int| 0 <= i < d.len() ==> is_digit(#[trigger] d[i]),
    ensures
        0 <= decimal_value(d.take(k)) <= decimal_value(d),
    decreases d.len(),
{
    if d.len() > 0 {
        if k == d.len() {
            assert(d.take(k) =~= d);
            lemma_decimal_prefix(d.drop_last(), k - 1);
            assert(d.drop_last().take(k - 1) =~= d.drop_last());
        } else {
            lemma_decimal_prefix(d.drop_last(), k);
            assert(d.drop_last().take(k) =~= d.take(k));
            assert(d.drop_last().take(d.len() - 1) =~= d.drop_last());
            lemma_decimal_prefix(d.drop_last(), d.len() - 1);
        }
    } else {
        assert(d.take(k) =~= d);
    }
}

/// The `u64` that `s` denotes, if any.
pub fn parse_u64(s: &str) -> (res: Option<u64>)
    ensures
        res == parse_u64_of(s@),
{
    let n = s.unicode_len();
    let start: usize = if n > 0 && s.get_char(0) == '+' {
        1
    } else {
        0
    };
    let ghost d = s@.skip(start as int);
    assert(d =~= if s@.len() > 0 && s@[0] == '+' {
        s@.drop_first()
    } else {
        s@
    });
    if start == n {
        return None;
    }
    let mut v: u64 = 0;
    let mut i: usize = start;
    assert(d.take(0) =~= Seq::<char>::empty());
    while i < n
        invariant
            start <= i <= n,
            n == s@.len(),
            d == s@.skip(start as int),
            parse_u64_of(s@) == parse_u64_of_digits(d),
            forall|j: int| 0 <= j < i - start ==> is_digit(#[trigger] d[j]),
            v == decimal_value(d.take(i - start)),
        decreases n - i,
    {
        let c = s.get_char(i);
        assert(c == d[i - start]);
        if !('0' <= c && c <= '9') {
            assert(!is_digit(d[i - start]));
            return None;
        }
        let digit = (c as u32 - '0' as u32) as u64;
        proof {
            let k = i - start;
            assert(d.take(k + 1).drop_last() =~= d.take(k));
            assert(d.take(k + 1).last() == c);
            assert(digit == digit_value(c));
            assert(decimal_value(d.take(k + 1)) == v * 10 + digit);
            assert(forall|j: int| 0 <= j < k + 1 ==> is_digit(#[trigger] d[j]));
        }
        match v.checked_mul(10) {
            None => {
                proof {
                    self::lemma_overflow_rest(d, i - start + 1);
                }
                return None;
            },
            Some(m) => match m.checked_add(digit) {
                None => {
                    proof {
                        self::lemma_overflow_rest(d, i - start + 1);
                    }
                    return None;
                },
                Some(w) => {
                    v = w;
                },
            },
        }
        i = i + 1;
    }
    assert(d.take(n - start) =~= d);
    Some(v)
}

/// Once a prefix of a digit string is too large, so is the whole.
proof fn lemma_overflow_rest(d: Seq<char>, k: int)
    requires
        0 <= k <= d.len(),
        forall|j: int| 0 <= j < k ==> is_digit(#[trigger] d[j]),
        decimal_value(d.take(k)) > u64::MAX,
    ensures
        parse_u64_of_digits(d) is None,
{
    if forall|i: int| 0 <= i < d.len() ==> is_digit(#[trigger] d[i]) {
        lemma_decimal_prefix(d, k);
    }
}

/// `d` read as a non-empty string of digits whose value fits.
pub open spec fn parse_u64_of_digits(d: Seq<char>) -> Option<u64> {
    if d.len() > 0 && (forall|i: int| 0 <= i < d.len() ==> is_digit(#[trigger] d[i]))
        && decimal_value(d) <= u64::MAX {
        Some(decimal_value(d) as u64)
    } else {
        None
    }
}

// ---------------------------------------------------------------------------
// Joining
// ---------------------------------------------------------------------------
/// The parts joined with `sep` between consecutive ones (what
/// `[String]::join` gives).
pub open spec fn joined(parts: Seq<Seq<char>>, sep: Seq<char>) -> Seq<char>
    decreases parts.len(),
{
    if parts.len() == 0 {
        seq![]
    } else if parts.len() == 1 {
        parts[0]
    } else {
        joined(parts.drop_last(), sep) + sep + parts.last()
    }
}

/// The strings joined with `sep` between consecutive ones.
pub fn join(parts: &Vec<String>, sep: &str) -> (res: String)
    ensures
        res@ == joined(string_views(parts@), sep@),
{
    let mut res = String::new();
    let ghost views = string_views(parts@);
    let mut i: usize = 0;
    while i < parts.len()
        invariant
            i <= parts@.len(),
            views == string_views(parts@),
            res@ == joined(views.take(i as int), sep@),
        decreases parts@.len() - i,
    {
        if i != 0 {
            res.append(sep);
        }
        res.append(parts[i].as_str());
        proof {
            assert(views.take(i + 1).drop_last() =~= views.take(i as int));
            if i == 0 {
                assert(res@ =~= views.take(1)[0]);
            }
        }
        i = i + 1;
    }
    assert(views.take(parts@.len() as int) =~= views);
    res
}

/// The owned copies of the given slices.
pub fn to_strings(v: &Vec<&str>) -> (res: Vec<String>)
    ensures
        string_views(res@) == str_views(v@),
{
    let mut res: Vec<String> = Vec::new();
    let mut i: usize = 0;
    while i < v.len()
        invariant
            i <= v@.len(),
            string_views(res@) == str_views(v@.take(i as int)),
        decreases v@.len() - i,
    {
        res.push(owned(v[i]));
        assert(str_views(v@.take(i + 1)) =~= str_views(v@.take(i as int)).push(v@[i as int]@));
        assert(string_views(res@) =~= string_views(res@.drop_last()).push(res@.last()@));
        assert(res@.drop_last() =~= res@.take(i as int));
        i = i + 1;
    }
    assert(v@.take(v@.len() as int) =~= v@);
    res
}

/// A copy of `s` as an owned string.
pub fn owned(s: &str) -> (res: String)
    ensures
        res@ == s@,
{
    String::from_str(s)
}

/// The concatenation of `a` and `b`.
pub fn cat(a: &str, b: &str) -> (res: String)
    ensures
        res@ == a@ + b@,
{
    let mut r = String::from_str(a);
    r.append(b);
    r
}

} // verus!
