//! Path normalization and route-pattern matching.
//!
//! An inbound request path is normalized before matching: runs of repeated
//! slashes collapse to one, surrounding whitespace is trimmed, and a leading
//! slash is forced.  A route pattern either matches exactly (after the same
//! normalization) or, when it ends in `/*`, matches every path that begins
//! with the pattern minus the trailing `*` and its preceding slash.

use vstd::prelude::*;
use crate::text::push_char;

verus! {

/// Whitespace that is trimmed from the ends of a request path and of a
/// cookie segment: the Unicode White_Space set, the characters that
/// std's trim removes.
pub open spec fn is_path_space(c: char) -> bool {
    ('\u{9}' <= c && c <= '\u{d}') || c == ' ' || c == '\u{85}' || c == '\u{a0}'
        || c == '\u{1680}' || ('\u{2000}' <= c && c <= '\u{200a}') || c == '\u{2028}'
        || c == '\u{2029}' || c == '\u{202f}' || c == '\u{205f}' || c == '\u{3000}'
}

/// `s` with every run of repeated `/` collapsed to its first `/`.
pub open spec fn collapse_slashes(s: Seq<char>) -> Seq<char>
    decreases s.len(),
{
    if s.len() == 0 {
        Seq::empty()
    } else {
        let rest = collapse_slashes(s.drop_last());
        if s.last() == '/' && s.len() >= 2 && s[s.len() - 2] == '/' {
            rest
        } else {
            rest.push(s.last())
        }
    }
}

/// `s` without its longest prefix of characters satisfying `p`.
pub open spec fn drop_front_while(s: Seq<char>, p: spec_fn(char) -> bool) -> Seq<char>
    decreases s.len(),
{
    if s.len() > 0 && p(s.first()) {
        drop_front_while(s.drop_first(), p)
    } else {
        s
    }
}

/// `s` without its longest suffix of characters satisfying `p`.
pub open spec fn drop_back_while(s: Seq<char>, p: spec_fn(char) -> bool) -> Seq<char>
    decreases s.len(),
{
    if s.len() > 0 && p(s.last()) {
        drop_back_while(s.drop_last(), p)
    } else {
        s
    }
}

/// `s` with leading and trailing whitespace removed.
pub open spec fn trim_spaces(s: Seq<char>) -> Seq<char> {
    drop_back_while(drop_front_while(s, |c: char| is_path_space(c)), |c: char| is_path_space(c))
}

/// `s`, prefixed with `/` unless it already starts with one.
pub open spec fn ensure_leading_slash(s: Seq<char>) -> Seq<char> {
    if s.len() > 0 && s.first() == '/' {
        s
    } else {
        seq!['/'] + s
    }
}

/// The normal form of a request path: slashes collapsed, whitespace trimmed,
/// exactly one leading slash.
pub open spec fn normalize_spec(s: Seq<char>) -> Seq<char> {
    ensure_leading_slash(trim_spaces(collapse_slashes(s)))
}

/// No two adjacent characters of `s` are both `/`.
pub open spec fn single_slashes(s: Seq<char>) -> bool {
    forall|i: int| 0 <= i < s.len() - 1 ==> !((#[trigger] s[i]) == '/' && s[i + 1] == '/')
}

proof fn lemma_drop_front_while(s: Seq<char>, p: spec_fn(char) -> bool, k: int)
    requires
        0 <= k <= s.len(),
        forall|j: int| 0 <= j < k ==> p(s[j]),
        k < s.len() ==> !p(s[k]),
    ensures
        drop_front_while(s, p) == s.subrange(k, s.len() as int),
    decreases s.len(),
{
    if s.len() > 0 && p(s.first()) {
        lemma_drop_front_while(s.drop_first(), p, k - 1);
        assert(s.drop_first().subrange(k - 1, s.drop_first().len() as int) =~= s.subrange(
            k,
            s.len() as int,
        ));
    } else {
        assert(s.subrange(0, s.len() as int) =~= s);
    }
}

proof fn lemma_drop_back_while(s: Seq<char>, p: spec_fn(char) -> bool, b: int)
    requires
        0 <= b <= s.len(),
        forall|j: int| b <= j < s.len() ==> p(s[j]),
        b > 0 ==> !p(s[b - 1]),
    ensures
        drop_back_while(s, p) == s.subrange(0, b),
    decreases s.len(),
{
    if s.len() > 0 && p(s.last()) {
        lemma_drop_back_while(s.drop_last(), p, b);
        assert(s.drop_last().subrange(0, b) =~= s.subrange(0, b));
    } else {
        assert(s.subrange(0, s.len() as int) =~= s);
    }
}

/// Collapsing keeps the sequence nonempty and keeps its last character.
proof fn lemma_collapse_last(s: Seq<char>)
    requires
        s.len() > 0,
    ensures
        collapse_slashes(s).len() > 0,
        collapse_slashes(s).last() == s.last(),
    decreases s.len(),
{
    if s.len() >= 2 && s.last() == '/' && s[s.len() - 2] == '/' {
        lemma_collapse_last(s.drop_last());
    }
}

/// Collapsing leaves no run of repeated slashes.
proof fn lemma_collapse_single(s: Seq<char>)
    ensures
        single_slashes(collapse_slashes(s)),
    decreases s.len(),
{
    if s.len() > 0 {
        lemma_collapse_single(s.drop_last());
        if !(s.last() == '/' && s.len() >= 2 && s[s.len() - 2] == '/') {
            let rest = collapse_slashes(s.drop_last());
            if s.len() >= 2 {
                lemma_collapse_last(s.drop_last());
            }
            let out = rest.push(s.last());
            assert forall|i: int| 0 <= i < out.len() - 1 implies !((#[trigger] out[i]) == '/'
                && out[i + 1] == '/') by {
                if i + 1 < out.len() - 1 {
                    assert(out[i] == rest[i] && out[i + 1] == rest[i + 1]);
                }
            }
        }
    }
}

/// A sequence with no slash runs collapses to itself.
proof fn lemma_collapse_fixed(s: Seq<char>)
    requires
        single_slashes(s),
    ensures
        collapse_slashes(s) == s,
    decreases s.len(),
{
    if s.len() > 0 {
        assert(single_slashes(s.drop_last())) by {
            assert forall|i: int| 0 <= i < s.drop_last().len() - 1 implies !((#[trigger] s.drop_last()[i]) == '/' && s.drop_last()[i + 1] == '/') by {
                assert(s.drop_last()[i] == s[i] && s.drop_last()[i + 1] == s[i + 1]);
            }
        }
        lemma_collapse_fixed(s.drop_last());
        if s.len() >= 2 && s.last() == '/' && s[s.len() - 2] == '/' {
            assert(false);
        }
        assert(s.drop_last().push(s.last()) =~= s);
    }
}

/// Dropping characters at either end preserves the absence of slash runs.
proof fn lemma_single_subrange(s: Seq<char>, a: int, b: int)
    requires
        single_slashes(s),
        0 <= a <= b <= s.len(),
    ensures
        single_slashes(s.subrange(a, b)),
{
    let t = s.subrange(a, b);
    assert forall|i: int| 0 <= i < t.len() - 1 implies !((#[trigger] t[i]) == '/' && t[i + 1] == '/') by {
        assert(t[i] == s[a + i] && t[i + 1] == s[a + i + 1]);
    }
}

/// After trimming, the last character (if any) is not whitespace.
proof fn lemma_drop_back_boundary(s: Seq<char>, p: spec_fn(char) -> bool)
    ensures
        drop_back_while(s, p).len() > 0 ==> !p(drop_back_while(s, p).last()),
        drop_back_while(s, p).len() <= s.len(),
    decreases s.len(),
{
    if s.len() > 0 && p(s.last()) {
        lemma_drop_back_boundary(s.drop_last(), p);
    }
}

/// The normal form starts with exactly one slash and has no slash runs.
pub proof fn lemma_normalize_form(s: Seq<char>)
    ensures
        normalize_spec(s).len() > 0,
        normalize_spec(s).first() == '/',
        single_slashes(normalize_spec(s)),
{
    let c = collapse_slashes(s);
    lemma_collapse_single(s);
    let space = |ch: char| is_path_space(ch);
    let f = drop_front_while(c, space);
    lemma_drop_front_is_subrange(c, space);
    let k = choose|k: int| 0 <= k <= c.len() && f == c.subrange(k, c.len() as int);
    lemma_single_subrange(c, k, c.len() as int);
    let t = drop_back_while(f, space);
    lemma_drop_back_is_subrange(f, space);
    let b = choose|b: int| 0 <= b <= f.len() && t == f.subrange(0, b);
    lemma_single_subrange(f, 0, b);
    let n = ensure_leading_slash(t);
    if t.len() > 0 && t.first() == '/' {
        assert(n == t);
    } else {
        assert(n == seq!['/'] + t);
        assert forall|i: int| 0 <= i < n.len() - 1 implies !((#[trigger] n[i]) == '/' && n[i + 1] == '/') by {
            if i == 0 {
                assert(n[1] == t[0]);
                assert(!(t.len() > 0 && t.first() == '/'));
            } else {
                assert(n[i] == t[i - 1] && n[i + 1] == t[i]);
            }
        }
    }
}

/// Trimming removes a (possibly empty) prefix.
proof fn lemma_drop_front_is_subrange(s: Seq<char>, p: spec_fn(char) -> bool)
    ensures
        exists|k: int|
            0 <= k <= s.len() && drop_front_while(s, p) == s.subrange(k, s.len() as int),
    decreases s.len(),
{
    if s.len() > 0 && p(s.first()) {
        lemma_drop_front_is_subrange(s.drop_first(), p);
        let k = choose|k: int|
            0 <= k <= s.drop_first().len() && drop_front_while(s.drop_first(), p)
                == s.drop_first().subrange(k, s.drop_first().len() as int);
        assert(s.drop_first().subrange(k, s.drop_first().len() as int) =~= s.subrange(
            k + 1,
            s.len() as int,
        ));
        assert(0 <= k + 1 <= s.len() && drop_front_while(s, p) == s.subrange(
            k + 1,
            s.len() as int,
        ));
    } else {
        assert(s.subrange(0, s.len() as int) =~= s);
        assert(0 <= 0 <= s.len() && drop_front_while(s, p) == s.subrange(0, s.len() as int));
    }
}

/// Trimming removes a (possibly empty) suffix.
proof fn lemma_drop_back_is_subrange(s: Seq<char>, p: spec_fn(char) -> bool)
    ensures
        exists|b: int| 0 <= b <= s.len() && drop_back_while(s, p) == s.subrange(0, b),
    decreases s.len(),
{
    if s.len() > 0 && p(s.last()) {
        lemma_drop_back_is_subrange(s.drop_last(), p);
        let b = choose|b: int|
            0 <= b <= s.drop_last().len() && drop_back_while(s.drop_last(), p)
                == s.drop_last().subrange(0, b);
        assert(s.drop_last().subrange(0, b) =~= s.subrange(0, b));
        assert(0 <= b <= s.len() && drop_back_while(s, p) == s.subrange(0, b));
    } else {
        assert(s.subrange(0, s.len() as int) =~= s);
        assert(0 <= s.len() && drop_back_while(s, p) == s.subrange(0, s.len() as int));
    }
}

/// Normalization is idempotent: a path already in normal form is unchanged.
pub proof fn lemma_normalize_idempotent(s: Seq<char>)
    ensures
        normalize_spec(normalize_spec(s)) == normalize_spec(s),
{
    let space = |ch: char| is_path_space(ch);
    let n = normalize_spec(s);
    lemma_normalize_form(s);
    lemma_collapse_fixed(n);
    assert(!is_path_space(n.first()));
    assert(drop_front_while(n, space) == n);
    let t0 = trim_spaces(collapse_slashes(s));
    lemma_drop_back_boundary(drop_front_while(collapse_slashes(s), space), space);
    if t0.len() > 0 && t0.first() == '/' {
        assert(n == t0);
        assert(drop_back_while(n, space) == n);
    } else {
        assert(n == seq!['/'] + t0);
        if t0.len() == 0 {
            assert(n =~= seq!['/']);
            assert(!is_path_space(n.last()));
        } else {
            assert(n.last() == t0.last());
            assert(!is_path_space(t0.last()));
        }
        assert(drop_back_while(n, space) == n);
    }
    assert(trim_spaces(n) == n);
    assert(ensure_leading_slash(n) == n);
}

fn is_space_exec(c: char) -> (r: bool)
    ensures
        r == is_path_space(c),
{
    ('\u{9}' <= c && c <= '\u{d}') || c == ' ' || c == '\u{85}' || c == '\u{a0}'
        || c == '\u{1680}' || ('\u{2000}' <= c && c <= '\u{200a}') || c == '\u{2028}'
        || c == '\u{2029}' || c == '\u{202f}' || c == '\u{205f}' || c == '\u{3000}'
}

/// Normalize a request path: collapse repeated slashes, trim surrounding
/// whitespace, and force exactly one leading slash.
pub fn normalize_route(path: &str) -> (r: String)
    ensures
        r@ == normalize_spec(path@),
{
    let len = path.unicode_len();
    let mut collapsed: Vec<char> = Vec::new();
    let mut i: usize = 0;
    while i < len
        invariant
            i <= len,
            len == path@.len(),
            collapsed@ == collapse_slashes(path@.subrange(0, i as int)),
        decreases len - i,
    {
        let c = path.get_char(i);
        let dup = c == '/' && i > 0 && path.get_char(i - 1) == '/';
        proof {
            let pre = path@.subrange(0, i + 1);
            assert(pre.drop_last() =~= path@.subrange(0, i as int));
            assert(pre.last() == path@[i as int]);
            if i > 0 {
                assert(pre[pre.len() - 2] == path@[i - 1]);
            }
        }
        if !dup {
            collapsed.push(c);
        }
        i += 1;
    }
    proof {
        assert(path@.subrange(0, len as int) =~= path@);
    }

    let clen = collapsed.len();
    let mut start: usize = 0;
    while start < clen && is_space_exec(collapsed[start])
        invariant
            start <= clen,
            clen == collapsed@.len(),
            forall|j: int| 0 <= j < start ==> is_path_space(collapsed@[j]),
        decreases clen - start,
    {
        start += 1;
    }
    let mut end: usize = clen;
    while end > start && is_space_exec(collapsed[end - 1])
        invariant
            start <= end <= clen,
            clen == collapsed@.len(),
            forall|j: int| end <= j < clen ==> is_path_space(collapsed@[j]),
        decreases end,
    {
        end -= 1;
    }

    let ghost space = |ch: char| is_path_space(ch);
    proof {
        lemma_drop_front_while(collapsed@, space, start as int);
        let f = collapsed@.subrange(start as int, clen as int);
        lemma_drop_back_while(f, space, end - start);
        assert(f.subrange(0, end - start) =~= collapsed@.subrange(start as int, end as int));
        assert(trim_spaces(collapsed@) == collapsed@.subrange(start as int, end as int));
    }

    let mut out = String::new();
    let needs_slash = end == start || collapsed[start] != '/';
    if needs_slash {
        push_char(&mut out, '/');
    }
    let mut k: usize = start;
    while k < end
        invariant
            start <= k <= end <= clen,
            clen == collapsed@.len(),
            out@ == if needs_slash {
                seq!['/'] + collapsed@.subrange(start as int, k as int)
            } else {
                collapsed@.subrange(start as int, k as int)
            },
            needs_slash == (end == start || collapsed@[start as int] != '/'),
        decreases end - k,
    {
        push_char(&mut out, collapsed[k]);
        proof {
            assert(collapsed@.subrange(start as int, k as int).push(collapsed@[k as int])
                =~= collapsed@.subrange(start as int, k + 1));
        }
        k += 1;
    }
    proof {
        let t = collapsed@.subrange(start as int, end as int);
        if needs_slash {
            assert(out@ == seq!['/'] + t);
            assert(!(t.len() > 0 && t.first() == '/'));
        } else {
            assert(t.len() > 0 && t.first() == '/');
            assert(out@ == t);
        }
        assert(out@ == ensure_leading_slash(trim_spaces(collapse_slashes(path@))));
    }
    out
}

/// `s` with leading and trailing whitespace removed.
pub fn trim_path_spaces(s: &str) -> (r: String)
    ensures
        r@ == trim_spaces(s@),
{
    let n = s.unicode_len();
    let mut start: usize = 0;
    while start < n && is_space_exec(s.get_char(start))
        invariant
            start <= n,
            n == s@.len(),
            forall|j: int| 0 <= j < start ==> is_path_space(s@[j]),
        decreases n - start,
    {
        start += 1;
    }
    let mut end: usize = n;
    while end > start && is_space_exec(s.get_char(end - 1))
        invariant
            start <= end <= n,
            n == s@.len(),
            forall|j: int| end <= j < n ==> is_path_space(s@[j]),
        decreases end,
    {
        end -= 1;
    }
    let ghost space = |ch: char| is_path_space(ch);
    proof {
        lemma_drop_front_while(s@, space, start as int);
        let f = s@.subrange(start as int, n as int);
        lemma_drop_back_while(f, space, end - start);
        assert(f.subrange(0, end - start) =~= s@.subrange(start as int, end as int));
    }
    let mut out = String::new();
    let mut k: usize = start;
    while k < end
        invariant
            start <= k <= end <= n,
            n == s@.len(),
            out@ == s@.subrange(start as int, k as int),
        decreases end - k,
    {
        push_char(&mut out, s.get_char(k));
        proof {
            assert(s@.subrange(start as int, k as int).push(s@[k as int]) =~= s@.subrange(
                start as int,
                k + 1,
            ));
        }
        k += 1;
    }
    proof {
        assert(out@ == trim_spaces(s@));
    }
    out
}

/// `pattern` ends in `/*`, so it matches by prefix.
pub open spec fn is_prefix_pattern(pattern: Seq<char>) -> bool {
    pattern.len() >= 2 && pattern[pattern.len() - 1] == '*' && pattern[pattern.len() - 2] == '/'
}

/// The prefix a `/*` pattern matches against: the pattern minus its trailing
/// `*`s and the slashes before them.
pub open spec fn prefix_pattern_base(pattern: Seq<char>) -> Seq<char> {
    drop_back_while(drop_back_while(pattern, |c: char| c == '*'), |c: char| c == '/')
}

/// Whether a (normalized) path matches a declared route pattern.
pub open spec fn path_matches_spec(path: Seq<char>, pattern: Seq<char>) -> bool {
    if is_prefix_pattern(pattern) {
        prefix_pattern_base(pattern).is_prefix_of(path)
    } else {
        normalize_spec(pattern) == path
    }
}

/// Whether `path` (already normalized by the caller) matches `pattern`.
pub fn path_matches(path: &str, pattern: &str) -> (r: bool)
    ensures
        r == path_matches_spec(path@, pattern@),
{
    let plen = pattern.unicode_len();
    if plen >= 2 && pattern.get_char(plen - 1) == '*' && pattern.get_char(plen - 2) == '/' {
        let mut b: usize = plen;
        while b > 0 && pattern.get_char(b - 1) == '*'
            invariant
                b <= plen,
                plen == pattern@.len(),
                forall|j: int| b <= j < plen ==> pattern@[j] == '*',
            decreases b,
        {
            b -= 1;
        }
        proof {
            lemma_drop_back_while(pattern@, |c: char| c == '*', b as int);
        }
        let ghost stripped = pattern@.subrange(0, b as int);
        let mut e: usize = b;
        while e > 0 && pattern.get_char(e - 1) == '/'
            invariant
                e <= b <= plen,
                plen == pattern@.len(),
                forall|j: int| e <= j < b ==> pattern@[j] == '/',
            decreases e,
        {
            e -= 1;
        }
        proof {
            assert forall|j: int| e <= j < stripped.len() implies stripped[j] == '/' by {
                assert(stripped[j] == pattern@[j]);
            }
            if e > 0 {
                assert(stripped[e - 1] == pattern@[e - 1]);
            }
            lemma_drop_back_while(stripped, |c: char| c == '/', e as int);
            assert(stripped.subrange(0, e as int) =~= pattern@.subrange(0, e as int));
        }
        // prefix check of pattern[..e] against path
        let pathlen = path.unicode_len();
        if e > pathlen {
            proof {
                assert(!prefix_pattern_base(pattern@).is_prefix_of(path@));
            }
            return false;
        }
        let mut i: usize = 0;
        while i < e
            invariant
                i <= e <= pathlen,
                pathlen == path@.len(),
                e <= plen,
                plen == pattern@.len(),
                is_prefix_pattern(pattern@),
                prefix_pattern_base(pattern@) == pattern@.subrange(0, e as int),
                forall|j: int| 0 <= j < i ==> path@[j] == pattern@[j],
            decreases e - i,
        {
            if path.get_char(i) != pattern.get_char(i) {
                proof {
                    assert(prefix_pattern_base(pattern@) == pattern@.subrange(0, e as int));
                    assert(pattern@.subrange(0, e as int)[i as int] == pattern@[i as int]);
                }
                return false;
            }
            i += 1;
        }
        proof {
            assert(pattern@.subrange(0, e as int) =~= path@.subrange(0, e as int));
        }
        true
    } else {
        let normalized = normalize_route(pattern);
        crate::text::str_eq(normalized.as_str(), path)
    }
}

} // verus!
