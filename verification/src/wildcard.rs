//! Wildcard matching of model names against route and mapping patterns.
//!
//! A pattern is matched byte by byte: `*` stands for any run of bytes, `?`
//! for any one byte. The matcher scans left to right and, on a mismatch,
//! returns to just after the most recent `*` while moving one byte on in the
//! value from where it stands; it does not move the value back.

use vstd::prelude::*;
use vstd::utf8::encode_utf8;

verus! {

/// The byte `*`.
pub open spec fn star_byte() -> u8 {
    42
}

/// The byte `?`.
pub open spec fn any_byte() -> u8 {
    63
}

/// Whether every byte of `p` from `pi` on is `*`.
pub open spec fn trailing_stars(p: Seq<u8>, pi: int) -> bool {
    forall|k: int| pi <= k < p.len() ==> p[k] == star_byte()
}

/// The matcher's outcome from pattern position `pi` and value position `vi`,
/// with `star` the position of the most recent `*` seen.
pub open spec fn match_from(p: Seq<u8>, v: Seq<u8>, pi: int, vi: int, star: Option<int>) -> bool
    decreases v.len() - vi, p.len() - pi,
{
    if !(0 <= pi <= p.len() && 0 <= vi <= v.len()) {
        false
    } else if vi < v.len() {
        if pi < p.len() && p[pi] == star_byte() {
            match_from(p, v, pi + 1, vi, Some(pi))
        } else if pi < p.len() && (p[pi] == any_byte() || p[pi] == v[vi]) {
            match_from(p, v, pi + 1, vi + 1, star)
        } else {
            match star {
                Some(s) => if 0 <= s < p.len() {
                    match_from(p, v, s + 1, vi + 1, star)
                } else {
                    false
                },
                None => false,
            }
        }
    } else {
        trailing_stars(p, pi)
    }
}

/// Whether `p` holds neither `*` nor `?`.
pub open spec fn no_wildcards(p: Seq<u8>) -> bool {
    forall|k: int| 0 <= k < p.len() ==> p[k] != star_byte() && p[k] != any_byte()
}

/// Whether the pattern bytes `p` match the value bytes `v`: the lone
/// pattern `*` matches every value, a pattern without `*` and `?` matches
/// only itself, and any other pattern is run through [`match_from`].
pub open spec fn wildcard_matches(p: Seq<u8>, v: Seq<u8>) -> bool {
    if p == seq![star_byte()] {
        true
    } else if no_wildcards(p) {
        p == v
    } else {
        match_from(p, v, 0, 0, None)
    }
}

/// Whether the pattern `p` matches the value `v`, both taken as UTF-8.
pub open spec fn wildcard_matches_str(p: Seq<char>, v: Seq<char>) -> bool {
    wildcard_matches(encode_utf8(p), encode_utf8(v))
}

/// Once the pattern is used up right after a `*`, the rest of the value is
/// taken by that `*`.
proof fn lemma_star_takes_rest(p: Seq<u8>, v: Seq<u8>, vi: int)
    requires
        p.len() > 0,
        p[p.len() - 1] == star_byte(),
        0 <= vi <= v.len(),
    ensures
        match_from(p, v, p.len() as int, vi, Some(p.len() - 1)),
    decreases v.len() - vi,
{
    if vi < v.len() {
        lemma_star_takes_rest(p, v, vi + 1);
    }
}

/// A pattern made of a wildcard-free `prefix` and one `*` after it, read
/// from position `i` of both pattern and value, matches exactly when the
/// value goes on with the rest of `prefix`.
proof fn lemma_prefix_star_from(prefix: Seq<u8>, v: Seq<u8>, i: int)
    requires
        no_wildcards(prefix),
        0 <= i <= prefix.len(),
        i <= v.len(),
    ensures
        match_from(prefix.push(star_byte()), v, i, i, None) == (prefix.len() <= v.len()
            && v.subrange(i, prefix.len() as int) == prefix.subrange(i, prefix.len() as int)),
    decreases prefix.len() - i,
{
    let p = prefix.push(star_byte());
    if i == prefix.len() {
        assert(v.subrange(i, i) =~= prefix.subrange(i, i));
        if i < v.len() {
            lemma_star_takes_rest(p, v, i);
        }
    } else if i < v.len() {
        assert(p[i] == prefix[i]);
        if prefix[i] == v[i] {
            lemma_prefix_star_from(prefix, v, i + 1);
            if prefix.len() <= v.len() {
                if v.subrange(i + 1, prefix.len() as int) == prefix.subrange(i + 1, prefix.len() as int) {
                    assert(v.subrange(i, prefix.len() as int) =~= prefix.subrange(i, prefix.len() as int)) by {
                        assert forall|k: int| 0 <= k < prefix.len() - i implies v.subrange(i, prefix.len() as int)[k]
                            == prefix.subrange(i, prefix.len() as int)[k] by {
                            if k > 0 {
                                assert(v.subrange(i, prefix.len() as int)[k] == v.subrange(i + 1, prefix.len() as int)[k - 1]);
                                assert(prefix.subrange(i, prefix.len() as int)[k] == prefix.subrange(i + 1, prefix.len() as int)[k - 1]);
                            }
                        }
                    }
                } else if v.subrange(i, prefix.len() as int) == prefix.subrange(i, prefix.len() as int) {
                    assert(v.subrange(i + 1, prefix.len() as int) =~= v.subrange(i, prefix.len() as int).skip(1));
                    assert(prefix.subrange(i + 1, prefix.len() as int) =~= prefix.subrange(i, prefix.len() as int).skip(1));
                }
            }
        } else {
            if prefix.len() <= v.len() && v.subrange(i, prefix.len() as int) == prefix.subrange(i, prefix.len() as int) {
                assert(v.subrange(i, prefix.len() as int)[0] == prefix.subrange(i, prefix.len() as int)[0]);
            }
        }
    } else {
        assert(p[i] == prefix[i]);
        assert(p[i] != star_byte());
        assert(!trailing_stars(p, i));
    }
}

/// A pattern that is a wildcard-free `prefix` followed by one `*` matches
/// exactly the values that begin with `prefix`.
pub proof fn law_prefix_star_matches_prefix(prefix: Seq<u8>, v: Seq<u8>)
    requires
        no_wildcards(prefix),
    ensures
        wildcard_matches(prefix.push(star_byte()), v) == (prefix.len() <= v.len()
            && v.take(prefix.len() as int) == prefix),
{
    let p = prefix.push(star_byte());
    lemma_prefix_star_from(prefix, v, 0);
    assert(prefix.subrange(0, prefix.len() as int) =~= prefix);
    if prefix.len() <= v.len() {
        assert(v.subrange(0, prefix.len() as int) =~= v.take(prefix.len() as int));
    }
    if p == seq![star_byte()] {
        assert(prefix.len() == 0);
        assert(v.take(0) =~= prefix);
    } else {
        assert(!no_wildcards(p)) by {
            assert(p[prefix.len() as int] == star_byte());
        }
    }
}

/// The lone pattern `*` matches every value.
pub proof fn law_star_matches_all(v: Seq<u8>)
    ensures
        wildcard_matches(seq![star_byte()], v),
{
}

/// A pattern without `*` and `?` matches a value exactly when the two are
/// equal.
pub proof fn law_literal_matches_only_itself(p: Seq<u8>, v: Seq<u8>)
    requires
        no_wildcards(p),
    ensures
        wildcard_matches(p, v) == (p == v),
{
    if p == seq![star_byte()] {
        assert(p[0] == star_byte());
    }
}

/// Whether `p` holds no `*`.
pub open spec fn no_star(p: Seq<u8>) -> bool {
    forall|k: int| 0 <= k < p.len() ==> p[k] != star_byte()
}

/// Whether every position of `p` from `i` on is `?` or the byte of `v`
/// there.
pub open spec fn fits_from(p: Seq<u8>, v: Seq<u8>, i: int) -> bool {
    forall|k: int| i <= k < p.len() ==> p[k] == any_byte() || p[k] == v[k]
}

proof fn lemma_no_star_from(p: Seq<u8>, v: Seq<u8>, i: int)
    requires
        no_star(p),
        0 <= i <= p.len(),
        i <= v.len(),
    ensures
        match_from(p, v, i, i, None) == (p.len() == v.len() && fits_from(p, v, i)),
    decreases p.len() - i,
{
    if i < v.len() {
        if i < p.len() {
            if p[i] == any_byte() || p[i] == v[i] {
                lemma_no_star_from(p, v, i + 1);
            } else {
                assert(!fits_from(p, v, i));
            }
        }
    } else if i < p.len() {
        assert(p[i] != star_byte());
        assert(!trailing_stars(p, i));
    }
}

/// In a pattern without `*`, `?` stands for any one byte: the pattern
/// matches a value exactly when both have the same length and every
/// position of the pattern is `?` or the value's byte there.
pub proof fn law_question_mark_matches_any_byte(p: Seq<u8>, v: Seq<u8>)
    requires
        no_star(p),
    ensures
        wildcard_matches(p, v) == (p.len() == v.len() && fits_from(p, v, 0)),
{
    if p == seq![star_byte()] {
        assert(p[0] == star_byte());
    } else if no_wildcards(p) {
        if p.len() == v.len() && fits_from(p, v, 0) {
            assert(p =~= v);
        }
    } else {
        if p.len() <= v.len() {
            lemma_no_star_from(p, v, 0);
        } else {
            assert(!fits_from(p, v, 0) || p.len() != v.len());
            // The matcher runs out of value before the pattern ends.
            lemma_no_star_short(p, v, 0);
        }
    }
}

proof fn lemma_no_star_short(p: Seq<u8>, v: Seq<u8>, i: int)
    requires
        no_star(p),
        0 <= i <= v.len(),
        v.len() < p.len(),
    ensures
        !match_from(p, v, i, i, None),
    decreases v.len() - i,
{
    if i < v.len() {
        if p[i] == any_byte() || p[i] == v[i] {
            lemma_no_star_short(p, v, i + 1);
        }
    } else {
        assert(p[i] != star_byte());
        assert(!trailing_stars(p, i));
    }
}

/// Whether the bytes are the single byte `*`.
fn is_lone_star(pb: &[u8]) -> (r: bool)
    ensures
        r == (pb@ == seq![star_byte()]),
{
    if pb.len() == 1 && pb[0] == 42u8 {
        assert(pb@ =~= seq![star_byte()]);
        true
    } else {
        false
    }
}

/// Whether the bytes hold neither `*` nor `?`.
fn has_no_wildcards(pb: &[u8]) -> (r: bool)
    ensures
        r == no_wildcards(pb@),
{
    let mut i: usize = 0;
    while i < pb.len()
        invariant
            i <= pb@.len(),
            forall|k: int| 0 <= k < i ==> pb@[k] != star_byte() && pb@[k] != any_byte(),
        decreases pb.len() - i,
    {
        if pb[i] == 42u8 || pb[i] == 63u8 {
            return false;
        }
        i = i + 1;
    }
    true
}

/// Whether two byte strings are equal.
fn bytes_equal(a: &[u8], b: &[u8]) -> (r: bool)
    ensures
        r == (a@ == b@),
{
    if a.len() != b.len() {
        return false;
    }
    let mut i: usize = 0;
    while i < a.len()
        invariant
            i <= a@.len(),
            a@.len() == b@.len(),
            forall|k: int| 0 <= k < i ==> a@[k] == b@[k],
        decreases a.len() - i,
    {
        if a[i] != b[i] {
            return false;
        }
        i = i + 1;
    }
    assert(a@ =~= b@);
    true
}

/// Whether `pattern` matches `value`: `"*"` matches everything, a pattern
/// without `*` and `?` matches only itself, and any other pattern is run
/// through the matcher that [`match_from`] describes.
pub fn wildcard_match(pattern: &str, value: &str) -> (r: bool)
    ensures
        r == wildcard_matches_str(pattern@, value@),
{
    let pb = pattern.as_bytes();
    let vb = value.as_bytes();
    let ghost p = pb@;
    let ghost v = vb@;
    if is_lone_star(pb) {
        return true;
    }
    if has_no_wildcards(pb) {
        return bytes_equal(pb, vb);
    }
    let mut pi: usize = 0;
    let mut vi: usize = 0;
    let mut star: Option<usize> = None;
    while vi < vb.len()
        invariant
            p == pb@,
            v == vb@,
            p == encode_utf8(pattern@),
            v == encode_utf8(value@),
            p != seq![star_byte()],
            !no_wildcards(p),
            pi <= p.len(),
            vi <= v.len(),
            star matches Some(s) ==> s < p.len(),
            match_from(p, v, 0, 0, None) == match_from(
                p,
                v,
                pi as int,
                vi as int,
                match star {
                    Some(s) => Some(s as int),
                    None => None,
                },
            ),
        decreases vb.len() - vi, pb.len() - pi,
    {
        if pi < pb.len() && pb[pi] == 42u8 {
            star = Some(pi);
            pi = pi + 1;
        } else if pi < pb.len() && (pb[pi] == 63u8 || pb[pi] == vb[vi]) {
            pi = pi + 1;
            vi = vi + 1;
        } else {
            match star {
                Some(s) => {
                    pi = s + 1;
                    vi = vi + 1;
                },
                None => {
                    assert(!match_from(p, v, pi as int, vi as int, None));
                    return false;
                },
            }
        }
    }
    let ghost pi0 = pi as int;
    assert(match_from(p, v, 0, 0, None) == trailing_stars(p, pi0));
    while pi < pb.len() && pb[pi] == 42u8
        invariant
            p == pb@,
            pi0 <= pi <= p.len(),
            forall|k: int| pi0 <= k < pi ==> p[k] == star_byte(),
        decreases pb.len() - pi,
    {
        pi = pi + 1;
    }
    if pi < pb.len() {
        assert(!trailing_stars(p, pi0)) by {
            assert(p[pi as int] != star_byte());
        }
    }
    pi == pb.len()
}

} // verus!
