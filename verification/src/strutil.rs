//! Verified text helpers: ASCII-whitespace trimming, prefix tests, character
//! search and string comparison, each tied to a spec-level definition.

use vstd::prelude::*;
use vstd::string::*;

verus! {

broadcast use vstd::seq::group_seq_axioms;

/// ASCII whitespace: the characters stripped from tag payloads.
pub open spec fn is_ws(c: char) -> bool {
    c == ' ' || c == '\t' || c == '\n' || c == '\r'
}

/// Index of the first character at or after `i` that is not ASCII whitespace;
/// the length of `s` when there is none.
pub open spec fn first_non_ws(s: Seq<char>, i: int) -> int
    recommends
        0 <= i <= s.len(),
    decreases s.len() - i,
{
    if i < 0 || i >= s.len() {
        s.len() as int
    } else if !is_ws(s[i]) {
        i
    } else {
        first_non_ws(s, i + 1)
    }
}

/// One past the last character strictly below `i` that is not ASCII
/// whitespace; zero when there is none.
pub open spec fn last_non_ws_end(s: Seq<char>, i: int) -> int
    recommends
        0 <= i <= s.len(),
    decreases i,
{
    if i <= 0 || i > s.len() {
        0
    } else if !is_ws(s[i - 1]) {
        i
    } else {
        last_non_ws_end(s, i - 1)
    }
}

/// `s` with ASCII whitespace removed from both ends.
pub open spec fn trim_spec(s: Seq<char>) -> Seq<char> {
    let a = first_non_ws(s, 0);
    let b = last_non_ws_end(s, s.len() as int);
    if a < b {
        s.subrange(a, b)
    } else {
        Seq::empty()
    }
}

/// Whether trimming `s` leaves it unchanged.
pub open spec fn is_trimmed(s: Seq<char>) -> bool {
    trim_spec(s) == s
}

pub proof fn lemma_first_non_ws(s: Seq<char>, i: int)
    requires
        0 <= i <= s.len(),
    ensures
        i <= first_non_ws(s, i) <= s.len(),
        forall|j: int| i <= j < first_non_ws(s, i) ==> is_ws(s[j]),
        first_non_ws(s, i) < s.len() ==> !is_ws(s[first_non_ws(s, i)]),
    decreases s.len() - i,
{
    if i < s.len() && is_ws(s[i]) {
        lemma_first_non_ws(s, i + 1);
    }
}

pub proof fn lemma_last_non_ws_end(s: Seq<char>, i: int)
    requires
        0 <= i <= s.len(),
    ensures
        0 <= last_non_ws_end(s, i) <= i,
        forall|j: int| last_non_ws_end(s, i) <= j < i ==> is_ws(s[j]),
        last_non_ws_end(s, i) > 0 ==> !is_ws(s[last_non_ws_end(s, i) - 1]),
    decreases i,
{
    if i > 0 && is_ws(s[i - 1]) {
        lemma_last_non_ws_end(s, i - 1);
    }
}

/// A string that neither starts nor ends with ASCII whitespace is unchanged
/// by trimming.
pub proof fn lemma_trimmed_ends(s: Seq<char>)
    requires
        s.len() > 0,
        !is_ws(s[0]),
        !is_ws(s[s.len() - 1]),
    ensures
        trim_spec(s) == s,
{
    assert(first_non_ws(s, 0) == 0);
    assert(last_non_ws_end(s, s.len() as int) == s.len());
    assert(s.subrange(0, s.len() as int) =~= s);
}

/// The empty string trims to itself.
pub proof fn lemma_trim_empty()
    ensures
        forall|s: Seq<char>| s.len() == 0 ==> trim_spec(s) == s,
{
    assert forall|s: Seq<char>| s.len() == 0 implies trim_spec(s) == s by {
        assert(trim_spec(s) =~= s);
    }
}

fn is_ws_char(c: char) -> (r: bool)
    ensures
        r == is_ws(c),
{
    c == ' ' || c == '\t' || c == '\n' || c == '\r'
}

/// `s` with ASCII whitespace removed from both ends.
#[verifier::loop_isolation(false)]
pub fn trim(s: &str) -> (r: &str)
    ensures
        r@ == trim_spec(s@),
{
    let n = s.unicode_len();
    let mut a: usize = 0;
    while a < n && is_ws_char(s.get_char(a))
        invariant
            0 <= a <= n,
            first_non_ws(s@, 0) == first_non_ws(s@, a as int),
        decreases n - a,
    {
        a = a + 1;
    }
    assert(first_non_ws(s@, a as int) == a as int || first_non_ws(s@, a as int) == s@.len());
    if a == n {
        proof {
            lemma_last_non_ws_end(s@, s@.len() as int);
            lemma_first_non_ws(s@, 0);
            if last_non_ws_end(s@, s@.len() as int) > first_non_ws(s@, 0) {
                assert(!is_ws(s@[last_non_ws_end(s@, s@.len() as int) - 1]));
                assert(false);
            }
            assert(trim_spec(s@) =~= s@.subrange(n as int, n as int));
        }
        return s.substring_char(n, n);
    }
    let mut b: usize = n;
    while b > a && is_ws_char(s.get_char(b - 1))
        invariant
            a <= b <= n,
            last_non_ws_end(s@, n as int) == last_non_ws_end(s@, b as int),
        decreases b,
    {
        b = b - 1;
    }
    proof {
        assert(!is_ws(s@[a as int]));
        lemma_last_non_ws_end(s@, s@.len() as int);
        if last_non_ws_end(s@, s@.len() as int) <= a as int {
            assert(is_ws(s@[a as int]));
        }
        lemma_last_non_ws_end(s@, b as int);
        assert(b > a);
        assert(last_non_ws_end(s@, b as int) == b as int);
        assert(first_non_ws(s@, 0) == a as int);
    }
    s.substring_char(a, b)
}

/// Whether `p` is a prefix of `s`.
pub open spec fn starts_with_spec(s: Seq<char>, p: Seq<char>) -> bool {
    p.len() <= s.len() && s.subrange(0, p.len() as int) == p
}

/// Whether the text `s` starts with the prefix `p`.
#[verifier::loop_isolation(false)]
pub fn starts_with(s: &str, p: &str) -> (r: bool)
    ensures
        r == starts_with_spec(s@, p@),
{
    let np = p.unicode_len();
    let ns = s.unicode_len();
    if np > ns {
        return false;
    }
    let mut i: usize = 0;
    while i < np
        invariant
            0 <= i <= np,
            forall|j: int| 0 <= j < i ==> s@[j] == p@[j],
        decreases np - i,
    {
        if s.get_char(i) != p.get_char(i) {
            assert(s@.subrange(0, p@.len() as int)[i as int] != p@[i as int]);
            return false;
        }
        i = i + 1;
    }
    assert(s@.subrange(0, p@.len() as int) =~= p@);
    true
}

/// Index of the first occurrence of `c` at or after `i`; `None` when there is
/// none.
pub open spec fn find_from(s: Seq<char>, i: int, c: char) -> Option<int>
    recommends
        0 <= i <= s.len(),
    decreases s.len() - i,
{
    if i < 0 || i >= s.len() {
        None
    } else if s[i] == c {
        Some(i)
    } else {
        find_from(s, i + 1, c)
    }
}

pub proof fn lemma_find_from(s: Seq<char>, i: int, c: char)
    requires
        0 <= i <= s.len(),
    ensures
        match find_from(s, i, c) {
            Some(k) => i <= k < s.len() && s[k] == c && forall|j: int| i <= j < k ==> s[j] != c,
            None => forall|j: int| i <= j < s.len() ==> s[j] != c,
        },
    decreases s.len() - i,
{
    if i < s.len() && s[i] != c {
        lemma_find_from(s, i + 1, c);
    }
}

/// Where the first `k` characters differ from `c` and `s[k] == c`, the search
/// finds exactly `k`.
pub proof fn lemma_find_from_exact(s: Seq<char>, i: int, c: char, k: int)
    requires
        0 <= i <= k < s.len(),
        s[k] == c,
        forall|j: int| i <= j < k ==> s[j] != c,
    ensures
        find_from(s, i, c) == Some(k),
    decreases k - i,
{
    if i < k {
        lemma_find_from_exact(s, i + 1, c, k);
    }
}

/// First occurrence of `c` in `s` at or after `from`.
#[verifier::loop_isolation(false)]
pub fn find_char(s: &str, from: usize, c: char) -> (r: Option<usize>)
    requires
        from <= s@.len(),
    ensures
        match r {
            Some(k) => from <= k < s@.len() && find_from(s@, from as int, c) == Some(k as int),
            None => find_from(s@, from as int, c) is None,
        },
{
    let n = s.unicode_len();
    let mut i: usize = from;
    while i < n
        invariant
            from <= i <= n,
            find_from(s@, from as int, c) == find_from(s@, i as int, c),
        decreases n - i,
    {
        if s.get_char(i) == c {
            return Some(i);
        }
        i = i + 1;
    }
    None
}

/// Character-wise equality of two text slices.
#[verifier::loop_isolation(false)]
pub fn str_eq(a: &str, b: &str) -> (r: bool)
    ensures
        r == (a@ == b@),
{
    let na = a.unicode_len();
    let nb = b.unicode_len();
    if na != nb {
        return false;
    }
    let mut i: usize = 0;
    while i < na
        invariant
            0 <= i <= na,
            forall|j: int| 0 <= j < i ==> a@[j] == b@[j],
        decreases na - i,
    {
        if a.get_char(i) != b.get_char(i) {
            return false;
        }
        i = i + 1;
    }
    assert(a@ =~= b@);
    true
}

/// Trimming is idempotent.
pub proof fn lemma_trim_idempotent(s: Seq<char>)
    ensures
        is_trimmed(trim_spec(s)),
{
    let t = trim_spec(s);
    if t.len() == 0 {
        lemma_trim_empty();
    } else {
        lemma_first_non_ws(s, 0);
        lemma_last_non_ws_end(s, s.len() as int);
        let a = first_non_ws(s, 0);
        let b = last_non_ws_end(s, s.len() as int);
        assert(t[0] == s[a]);
        assert(t[t.len() - 1] == s[b - 1]);
        lemma_trimmed_ends(t);
    }
}

/// When no occurrence exists at or after `i`, the search returns `None`.
pub proof fn lemma_find_from_none(s: Seq<char>, i: int, c: char)
    requires
        0 <= i <= s.len(),
        forall|j: int| i <= j < s.len() ==> s[j] != c,
    ensures
        find_from(s, i, c) is None,
    decreases s.len() - i,
{
    if i < s.len() {
        lemma_find_from_none(s, i + 1, c);
    }
}

/// Searching from `base` is the same as searching the tail that starts there.
pub proof fn lemma_find_subrange(s: Seq<char>, base: int, c: char)
    requires
        0 <= base <= s.len(),
    ensures
        match find_from(s, base, c) {
            Some(k) => find_from(s.subrange(base, s.len() as int), 0, c) == Some(k - base),
            None => find_from(s.subrange(base, s.len() as int), 0, c) is None,
        },
{
    let rest = s.subrange(base, s.len() as int);
    lemma_find_from(s, base, c);
    match find_from(s, base, c) {
        Some(k) => {
            assert(rest[k - base] == s[k]);
            assert(forall|j: int| 0 <= j < k - base ==> rest[j] == s[base + j] && s[base + j] != c);
            lemma_find_from_exact(rest, 0, c, k - base);
        },
        None => {
            assert(forall|j: int| 0 <= j < rest.len() ==> rest[j] == s[base + j] && s[base + j] != c);
            lemma_find_from_none(rest, 0, c);
        },
    }
}

/// Strict lexicographic order on character sequences, by Unicode scalar value.
pub open spec fn lex_lt(a: Seq<char>, b: Seq<char>) -> bool
    decreases a.len(),
{
    if b.len() == 0 {
        false
    } else if a.len() == 0 {
        true
    } else if a[0] != b[0] {
        a[0] < b[0]
    } else {
        lex_lt(a.drop_first(), b.drop_first())
    }
}

} // verus!
