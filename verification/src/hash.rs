//! The hash recorded for each downloaded source: the SHA-256 digest of the
//! file, in Base64, made safe for URLs and file names.
use vstd::prelude::*;
use vstd::string::*;

use base64::engine::general_purpose::STANDARD;
use base64::Engine;
use sha2::{Digest, Sha256};

use crate::text::{ends_with_of, trim_end_matches, trim_end_matches_of};

verus! {

/// Larger inputs overflow the bit counter of the SHA-256 implementation.
pub open spec fn sha256_input_limit() -> nat {
    0x2000_0000_0000_0000
}

/// The SHA-256 digest of `data`.
pub uninterp spec fn sha256_of(data: Seq<u8>) -> Seq<u8>;

/// Calls `<sha2::Sha256 as sha2::Digest>::digest`.  Claimed: the result is
/// the digest named `sha256_of(data)` and is 32 bytes long.  The bound on the
/// input keeps the digest's bit count `8 * (64 * blocks + pos)` within `u64`.
#[verifier::external_body]
fn sha256(data: &[u8]) -> (res: Vec<u8>)
    requires
        data@.len() < sha256_input_limit(),
    ensures
        res@ == sha256_of(data@),
        res@.len() == 32,
{
    Sha256::digest(data).to_vec()
}

/// A character of the standard Base64 alphabet (`A`-`Z`, `a`-`z`, `0`-`9`,
/// `+`, `/`).
pub open spec fn is_base64_char(c: char) -> bool {
    ||| 'A' <= c <= 'Z'
    ||| 'a' <= c <= 'z'
    ||| '0' <= c <= '9'
    ||| c == '+'
    ||| c == '/'
}

/// The number of `=` that pad the Base64 encoding of `n` bytes.
pub open spec fn base64_padding(n: nat) -> nat {
    if n % 3 == 0 {
        0
    } else {
        (3 - n % 3) as nat
    }
}

/// The character of the standard Base64 alphabet for the 6-bit value `v`:
/// `A`-`Z` for 0-25, `a`-`z` for 26-51, `0`-`9` for 52-61, `+` for 62 and
/// `/` for 63.
pub open spec fn base64_digit(v: int) -> char {
    if v < 26 {
        (v + 65) as char
    } else if v < 52 {
        (v - 26 + 97) as char
    } else if v < 62 {
        (v - 52 + 48) as char
    } else if v == 62 {
        '+'
    } else {
        '/'
    }
}

/// The standard, padded Base64 encoding of `data` (RFC 4648): each group of
/// three bytes, read as 24 bits, becomes four characters of six bits each; a
/// final group of one or two bytes is filled with zero bits and the missing
/// characters are written `=`.
pub open spec fn base64_standard_of(d: Seq<u8>) -> Seq<char>
    decreases d.len(),
{
    if d.len() == 0 {
        seq![]
    } else if d.len() == 1 {
        seq![base64_digit(d[0] as int / 4), base64_digit((d[0] as int % 4) * 16), '=', '=']
    } else if d.len() == 2 {
        seq![
            base64_digit(d[0] as int / 4),
            base64_digit((d[0] as int % 4) * 16 + d[1] as int / 16),
            base64_digit((d[1] as int % 16) * 4),
            '=',
        ]
    } else {
        seq![
            base64_digit(d[0] as int / 4),
            base64_digit((d[0] as int % 4) * 16 + d[1] as int / 16),
            base64_digit((d[1] as int % 16) * 4 + d[2] as int / 64),
            base64_digit(d[2] as int % 64),
        ] + base64_standard_of(d.skip(3))
    }
}

/// Every 6-bit value has an alphabet character, which is not `=`.
proof fn lemma_base64_digit(v: int)
    requires
        0 <= v < 64,
    ensures
        is_base64_char(base64_digit(v)),
        base64_digit(v) != '=',
{
}

/// The encoding of `n` bytes has `4 * ceil(n / 3)` characters, all from the
/// standard alphabet except the padding `=`, which are exactly the last
/// `base64_padding(n)` characters.
pub proof fn lemma_base64_shape(d: Seq<u8>)
    ensures
        base64_standard_of(d).len() == 4 * ((d.len() + 2) / 3),
        forall|i: int|
            0 <= i < base64_standard_of(d).len() ==> (#[trigger] base64_standard_of(d)[i] == '='
                <==> i >= base64_standard_of(d).len() - base64_padding(d.len())),
        forall|i: int|
            0 <= i < base64_standard_of(d).len() && base64_standard_of(d)[i] != '='
                ==> is_base64_char(#[trigger] base64_standard_of(d)[i]),
    decreases d.len(),
{
    let e = base64_standard_of(d);
    if d.len() == 0 {
    } else if d.len() == 1 {
        lemma_base64_digit(d[0] as int / 4);
        lemma_base64_digit((d[0] as int % 4) * 16);
    } else if d.len() == 2 {
        lemma_base64_digit(d[0] as int / 4);
        lemma_base64_digit((d[0] as int % 4) * 16 + d[1] as int / 16);
        lemma_base64_digit((d[1] as int % 16) * 4);
    } else {
        let rest = d.skip(3);
        lemma_base64_shape(rest);
        lemma_base64_digit(d[0] as int / 4);
        lemma_base64_digit((d[0] as int % 4) * 16 + d[1] as int / 16);
        lemma_base64_digit((d[1] as int % 16) * 4 + d[2] as int / 64);
        lemma_base64_digit(d[2] as int % 64);
        let r = base64_standard_of(rest);
        assert(base64_padding(d.len()) == base64_padding(rest.len()));
        assert forall|i: int| 0 <= i < e.len() implies (#[trigger] e[i] == '=' <==> i >= e.len()
            - base64_padding(d.len())) by {
            if i >= 4 {
                assert(e[i] == r[i - 4]);
            }
        }
        assert forall|i: int| 0 <= i < e.len() && e[i] != '=' implies is_base64_char(
            #[trigger] e[i],
        ) by {
            if i >= 4 {
                assert(e[i] == r[i - 4]);
            }
        }
    }
}

/// Calls `base64::Engine::encode` on `base64::engine::general_purpose::STANDARD`
/// (standard alphabet, with padding).  Claimed: the result is the padded
/// standard encoding `base64_standard_of(data)`.  The bound on the input
/// keeps the length computation of `encoded_len` from overflowing.
#[verifier::external_body]
fn base64_standard(data: &[u8]) -> (res: String)
    requires
        data@.len() / 3 * 4 + 4 <= usize::MAX,
    ensures
        res@ == base64_standard_of(data@),
{
    STANDARD.encode(data)
}

/// `c` with `+` made `-` and `/` made `_`.
pub open spec fn url_safe_char(c: char) -> char {
    if c == '+' {
        '-'
    } else if c == '/' {
        '_'
    } else {
        c
    }
}

/// `s` with `+` made `-`, `/` made `_`, and the trailing `=` removed.
pub open spec fn url_safe_of(s: Seq<char>) -> Seq<char> {
    trim_end_matches_of(s.map_values(|c: char| url_safe_char(c)), seq!['='])
}

/// `s` with `+` made `-`, `/` made `_`, and the trailing `=` removed.
pub fn url_safe(s: &str) -> (res: String)
    ensures
        res@ == url_safe_of(s@),
{
    let n = s.unicode_len();
    let mut out = String::new();
    let mut i: usize = 0;
    while i < n
        invariant
            i <= n,
            n == s@.len(),
            out@ == s@.take(i as int).map_values(|c: char| url_safe_char(c)),
        decreases n - i,
    {
        let c = s.get_char(i);
        if c == '+' {
            out.append("-");
            proof {
                reveal_strlit("-");
            }
        } else if c == '/' {
            out.append("_");
            proof {
                reveal_strlit("_");
            }
        } else {
            out.append(s.substring_char(i, i + 1));
        }
        proof {
            assert(s@.take(i + 1).map_values(|c: char| url_safe_char(c)) =~= s@.take(
                i as int,
            ).map_values(|c: char| url_safe_char(c)).push(url_safe_char(c)));
        }
        i = i + 1;
    }
    assert(s@.take(n as int) =~= s@);
    proof {
        reveal_strlit("=");
        assert("="@ =~= seq!['=']);
    }
    String::from_str(trim_end_matches(out.as_str(), "="))
}

/// A character of the URL-safe Base64 alphabet (`A`-`Z`, `a`-`z`, `0`-`9`,
/// `-`, `_`).
pub open spec fn is_url_safe_char(c: char) -> bool {
    ||| 'A' <= c <= 'Z'
    ||| 'a' <= c <= 'z'
    ||| '0' <= c <= '9'
    ||| c == '-'
    ||| c == '_'
}

/// The hash of a file's contents: its SHA-256 digest in Base64, with `+`
/// made `-`, `/` made `_` and the padding removed.
pub open spec fn file_hash_of(contents: Seq<u8>) -> Seq<char> {
    url_safe_of(base64_standard_of(sha256_of(contents)))
}

proof fn lemma_trim_padding(m: Seq<char>, k: int)
    requires
        0 <= k <= m.len(),
        forall|i: int| 0 <= i < m.len() ==> (m[i] == '=' <==> i >= k),
    ensures
        trim_end_matches_of(m, seq!['=']) == m.take(k),
    decreases m.len(),
{
    let p = seq!['='];
    if m.len() > k {
        assert(m.skip(m.len() - 1) =~= p);
        assert(ends_with_of(m, p));
        lemma_trim_padding(m.take(m.len() - 1), k);
        assert(m.take(m.len() - 1).take(k) =~= m.take(k));
    } else {
        assert(m.take(k) =~= m);
        if m.len() > 0 {
            assert(m[m.len() - 1] != '=');
            assert(m.skip(m.len() - 1)[0] != '=');
            assert(m.skip(m.len() - 1) != p);
        }
    }
}

/// The hash of a file's contents.  It is 43 characters long and made of
/// letters, digits, `-` and `_` alone.
pub fn file_hash(contents: &[u8]) -> (res: String)
    requires
        contents@.len() < sha256_input_limit(),
    ensures
        res@ == file_hash_of(contents@),
        res@.len() == 43,
        forall|i: int| 0 <= i < res@.len() ==> is_url_safe_char(#[trigger] res@[i]),
{
    let digest = sha256(contents);
    let encoded = base64_standard(digest.as_slice());
    let res = url_safe(encoded.as_str());
    proof {
        lemma_base64_shape(digest@);
        let e = encoded@;
        assert(e.len() == 44);
        assert(base64_padding(32) == 1);
        let m = e.map_values(|c: char| url_safe_char(c));
        assert forall|i: int| 0 <= i < m.len() implies (m[i] == '=' <==> i >= 43) by {
            assert(e[i] == '=' <==> i >= 43);
        }
        lemma_trim_padding(m, 43);
        assert forall|i: int| 0 <= i < res@.len() implies is_url_safe_char(#[trigger] res@[i]) by {
            assert(res@[i] == m[i]);
            assert(e[i] != '=');
            assert(is_base64_char(e[i]));
        }
    }
    res
}

} // verus!
