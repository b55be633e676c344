//! Verified text utilities: whitespace trimming, whitespace tokenization,
//! prefix tests, string equality and lexicographic comparison.
//!
//! These are the primitives the command dispatcher is specified with: a line
//! is classified by its whitespace-separated tokens, and listings and session
//! names are ordered lexicographically.

use vstd::prelude::*;

verus! {

/// The whitespace characters the shell recognizes between tokens.
pub open spec fn is_space_char(c: char) -> bool {
    c == ' ' || c == '\t' || c == '\n' || c == '\r'
}

/// Executable mirror of [`is_space_char`].
pub fn is_space(c: char) -> (r: bool)
    ensures
        r == is_space_char(c),
{
    c == ' ' || c == '\t' || c == '\n' || c == '\r'
}

/// A string consisting of whitespace alone (or empty).
pub open spec fn all_space(s: Seq<char>) -> bool {
    forall|k: int| 0 <= k < s.len() ==> is_space_char(s[k])
}

/// What is left of `s` after removing leading whitespace.
pub open spec fn spec_trim_start(s: Seq<char>) -> Seq<char>
    decreases s.len(),
{
    if s.len() == 0 {
        s
    } else if is_space_char(s[0]) {
        spec_trim_start(s.drop_first())
    } else {
        s
    }
}

/// What is left of `s` after removing trailing whitespace.
pub open spec fn spec_trim_end(s: Seq<char>) -> Seq<char>
    decreases s.len(),
{
    if s.len() == 0 {
        s
    } else if is_space_char(s.last()) {
        spec_trim_end(s.drop_last())
    } else {
        s
    }
}

/// What is left of `s` after removing leading and trailing whitespace.
pub open spec fn spec_trim(s: Seq<char>) -> Seq<char> {
    spec_trim_end(spec_trim_start(s))
}

/// The index just past the token starting at `i`: the first position at or
/// after `i` holding whitespace, or the end of the string.
pub open spec fn token_end(s: Seq<char>, i: int) -> int
    decreases s.len() - i,
{
    if i < 0 || i >= s.len() || is_space_char(s[i]) {
        i
    } else {
        token_end(s, i + 1)
    }
}

pub proof fn lemma_token_end_bounds(s: Seq<char>, i: int)
    requires
        0 <= i <= s.len(),
    ensures
        i <= token_end(s, i) <= s.len(),
        i < s.len() && !is_space_char(s[i]) ==> token_end(s, i) > i,
    decreases s.len() - i,
{
    if i < s.len() && !is_space_char(s[i]) {
        lemma_token_end_bounds(s, i + 1);
    }
}

/// The whitespace-separated tokens of `s`, starting the scan at index `i`.
pub open spec fn spec_tokens_from(s: Seq<char>, i: int) -> Seq<Seq<char>>
    decreases s.len() - i,
    when 0 <= i
{
    if i >= s.len() {
        Seq::empty()
    } else if is_space_char(s[i]) {
        spec_tokens_from(s, i + 1)
    } else {
        proof {
            lemma_token_end_bounds(s, i);
        }
        seq![s.subrange(i, token_end(s, i))] + spec_tokens_from(s, token_end(s, i))
    }
}

/// The whitespace-separated tokens of `s`, in order. Tokens are maximal runs
/// of non-whitespace characters; each is non-empty.
pub open spec fn spec_tokens(s: Seq<char>) -> Seq<Seq<char>> {
    spec_tokens_from(s, 0)
}

/// A string tokenizes to nothing exactly when it is all whitespace.
pub proof fn lemma_tokens_from_empty(s: Seq<char>, i: int)
    requires
        0 <= i <= s.len(),
    ensures
        spec_tokens_from(s, i).len() == 0 <==> (forall|k: int|
            i <= k < s.len() ==> is_space_char(s[k])),
    decreases s.len() - i,
{
    if i < s.len() {
        if is_space_char(s[i]) {
            lemma_tokens_from_empty(s, i + 1);
        }
    }
}

/// Trimming to nothing and tokenizing to nothing coincide: a line is blank
/// exactly when it has no tokens.
pub proof fn lemma_blank_iff_no_tokens(s: Seq<char>)
    ensures
        spec_trim(s).len() == 0 <==> spec_tokens(s).len() == 0,
{
    lemma_tokens_from_empty(s, 0);
    lemma_trim_start_all_space(s);
    lemma_trim_end_all_space(spec_trim_start(s));
}

/// `spec_trim_start` erases the string exactly when it is all whitespace;
/// otherwise it keeps a suffix whose characters are a sub-run of `s`.
proof fn lemma_trim_start_all_space(s: Seq<char>)
    ensures
        spec_trim_start(s).len() == 0 <==> all_space(s),
        all_space(s) ==> all_space(spec_trim_start(s)),
        !all_space(s) ==> !all_space(spec_trim_start(s)),
    decreases s.len(),
{
    if s.len() > 0 && is_space_char(s[0]) {
        lemma_trim_start_all_space(s.drop_first());
        assert(all_space(s.drop_first()) ==> all_space(s)) by {
            if all_space(s.drop_first()) {
                assert forall|k: int| 0 <= k < s.len() implies is_space_char(s[k]) by {
                    if k > 0 {
                        assert(s.drop_first()[k - 1] == s[k]);
                    }
                }
            }
        }
        assert(all_space(s) ==> all_space(s.drop_first())) by {
            if all_space(s) {
                assert forall|k: int| 0 <= k < s.drop_first().len() implies is_space_char(
                    s.drop_first()[k],
                ) by {
                    assert(s.drop_first()[k] == s[k + 1]);
                }
            }
        }
    } else {
        if s.len() > 0 {
            assert(!all_space(s) ==> !all_space(spec_trim_start(s)));
        }
    }
}

proof fn lemma_trim_end_all_space(s: Seq<char>)
    ensures
        spec_trim_end(s).len() == 0 <==> all_space(s),
    decreases s.len(),
{
    if s.len() > 0 && is_space_char(s.last()) {
        lemma_trim_end_all_space(s.drop_last());
        assert(all_space(s.drop_last()) ==> all_space(s)) by {
            if all_space(s.drop_last()) {
                assert forall|k: int| 0 <= k < s.len() implies is_space_char(s[k]) by {
                    if k < s.len() - 1 {
                        assert(s.drop_last()[k] == s[k]);
                    }
                }
            }
        }
        assert(all_space(s) ==> all_space(s.drop_last()));
    } else {
        if s.len() > 0 {
            assert(!is_space_char(s[s.len() - 1]));
        }
    }
}

/// If everything before `a` is whitespace and `a` is not (or is the end),
/// trimming the front keeps exactly the suffix from `a`.
proof fn lemma_trim_start_at(s: Seq<char>, a: int)
    requires
        0 <= a <= s.len(),
        forall|k: int| 0 <= k < a ==> is_space_char(s[k]),
        a < s.len() ==> !is_space_char(s[a]),
    ensures
        spec_trim_start(s) == s.subrange(a, s.len() as int),
    decreases s.len(),
{
    if s.len() == 0 {
        assert(spec_trim_start(s) =~= s.subrange(a, s.len() as int));
    } else if a == 0 {
        if is_space_char(s[0]) {
            assert(false);
        } else {
            assert(spec_trim_start(s) =~= s.subrange(0, s.len() as int));
        }
    } else {
        let t = s.drop_first();
        assert(forall|k: int| 0 <= k < a - 1 ==> t[k] == s[k + 1]);
        lemma_trim_start_at(t, a - 1);
        assert(t.subrange(a - 1, t.len() as int) =~= s.subrange(a, s.len() as int));
    }
}

/// If everything at and after `b` is whitespace and the character before `b`
/// is not (or `b` is the start), trimming the back keeps exactly the prefix
/// up to `b`.
proof fn lemma_trim_end_at(s: Seq<char>, b: int)
    requires
        0 <= b <= s.len(),
        forall|k: int| b <= k < s.len() ==> is_space_char(s[k]),
        b > 0 ==> !is_space_char(s[b - 1]),
    ensures
        spec_trim_end(s) == s.subrange(0, b),
    decreases s.len(),
{
    if s.len() == 0 {
        assert(spec_trim_end(s) =~= s.subrange(0, b));
    } else if b == s.len() {
        assert(!is_space_char(s.last()));
        assert(spec_trim_end(s) =~= s.subrange(0, b));
    } else {
        let t = s.drop_last();
        assert(forall|k: int| 0 <= k < t.len() ==> t[k] == s[k]);
        lemma_trim_end_at(t, b);
        assert(t.subrange(0, b) =~= s.subrange(0, b));
    }
}

/// Remove leading and trailing whitespace.
pub fn trim(s: &str) -> (r: String)
    ensures
        r@ == spec_trim(s@),
{
    let n = s.unicode_len();
    let mut a: usize = 0;
    while a < n && is_space(s.get_char(a))
        invariant
            n == s@.len(),
            0 <= a <= n,
            forall|k: int| 0 <= k < a ==> is_space_char(s@[k]),
        decreases n - a,
    {
        a += 1;
    }
    proof {
        lemma_trim_start_at(s@, a as int);
    }
    if a == n {
        proof {
            lemma_trim_end_at(s@.subrange(a as int, n as int), 0);
            assert(spec_trim(s@) =~= Seq::<char>::empty()) by {
                assert(s@.subrange(a as int, n as int).len() == 0);
            }
        }
        return String::new();
    }
    let mut b: usize = n;
    while b > a && is_space(s.get_char(b - 1))
        invariant
            n == s@.len(),
            0 <= a <= b <= n,
            forall|k: int| b <= k < n ==> is_space_char(s@[k]),
        decreases b,
    {
        b -= 1;
    }
    // the scan cannot pass `a`, which holds a non-space character
    assert(b > a);
    let piece = s.substring_char(a, b);
    proof {
        let t = s@.subrange(a as int, n as int);
        assert(forall|k: int| (b - a) <= k < t.len() ==> t[k] == s@[k + a]);
        assert(b - a > 0 && !is_space_char(t[b - a - 1]));
        lemma_trim_end_at(t, b - a);
        assert(t.subrange(0, b - a) =~= s@.subrange(a as int, b as int));
    }
    piece.to_owned()
}

/// Split into whitespace-separated tokens.
pub fn tokenize(s: &str) -> (r: Vec<String>)
    ensures
        r@.map_values(|t: String| t@) == spec_tokens(s@),
{
    let n = s.unicode_len();
    let mut toks: Vec<String> = Vec::new();
    let mut i: usize = 0;
    while i < n
        invariant
            n == s@.len(),
            0 <= i <= n,
            toks@.map_values(|t: String| t@) + spec_tokens_from(s@, i as int) == spec_tokens(s@),
        decreases n - i,
    {
        let c = s.get_char(i);
        if is_space(c) {
            i += 1;
        } else {
            let start = i;
            let mut j = i + 1;
            proof {
                lemma_token_end_bounds(s@, start as int);
            }
            while j < n && !is_space(s.get_char(j))
                invariant
                    n == s@.len(),
                    start < j <= n,
                    token_end(s@, start as int) == token_end(s@, j as int),
                decreases n - j,
            {
                j += 1;
            }
            assert(token_end(s@, j as int) == j);
            let tok = s.substring_char(start, j);
            let ghost old_map = toks@.map_values(|t: String| t@);
            toks.push(tok.to_owned());
            proof {
                assert(toks@.map_values(|t: String| t@) =~= old_map.push(tok@));
                assert(spec_tokens_from(s@, start as int) == seq![
                    s@.subrange(start as int, j as int),
                ] + spec_tokens_from(s@, j as int));
                assert(old_map.push(tok@) + spec_tokens_from(s@, j as int) =~= old_map + (seq![
                    s@.subrange(start as int, j as int),
                ] + spec_tokens_from(s@, j as int)));
            }
            i = j;
        }
    }
    toks
}

/// Whether two string slices hold the same characters.
pub fn str_eq(a: &str, b: &str) -> (r: bool)
    ensures
        r == (a@ == b@),
{
    let sa = a.to_owned();
    let sb = b.to_owned();
    sa == sb
}

/// Lexicographic order on character sequences: the order listings and
/// session registries are reported in.
pub open spec fn lex_le(a: Seq<char>, b: Seq<char>) -> bool
    decreases a.len(),
{
    if a.len() == 0 {
        true
    } else if b.len() == 0 {
        false
    } else if a[0] != b[0] {
        a[0] < b[0]
    } else {
        lex_le(a.drop_first(), b.drop_first())
    }
}

/// Any two strings are comparable under [`lex_le`].
pub proof fn lemma_lex_le_total(a: Seq<char>, b: Seq<char>)
    ensures
        lex_le(a, b) || lex_le(b, a),
    decreases a.len(),
{
    if a.len() > 0 && b.len() > 0 && a[0] == b[0] {
        lemma_lex_le_total(a.drop_first(), b.drop_first());
    }
}

/// [`lex_le`] is transitive.
pub proof fn lemma_lex_le_trans(a: Seq<char>, b: Seq<char>, c: Seq<char>)
    requires
        lex_le(a, b),
        lex_le(b, c),
    ensures
        lex_le(a, c),
    decreases a.len(),
{
    if a.len() > 0 && b.len() > 0 && c.len() > 0 && a[0] == b[0] && b[0] == c[0] {
        lemma_lex_le_trans(a.drop_first(), b.drop_first(), c.drop_first());
    }
}

/// Executable lexicographic comparison, character by character.
pub fn str_le(a: &str, b: &str) -> (r: bool)
    ensures
        r == lex_le(a@, b@),
{
    let na = a.unicode_len();
    let nb = b.unicode_len();
    let mut i: usize = 0;
    proof {
        assert(a@.skip(0) =~= a@);
        assert(b@.skip(0) =~= b@);
    }
    loop
        invariant
            na == a@.len(),
            nb == b@.len(),
            0 <= i <= na,
            0 <= i <= nb,
            lex_le(a@, b@) == lex_le(a@.skip(i as int), b@.skip(i as int)),
        decreases na - i,
    {
        if i == na {
            assert(a@.skip(i as int).len() == 0);
            return true;
        }
        if i == nb {
            assert(b@.skip(i as int).len() == 0 && a@.skip(i as int).len() > 0);
            return false;
        }
        let ca = a.get_char(i);
        let cb = b.get_char(i);
        assert(a@.skip(i as int)[0] == a@[i as int] && b@.skip(i as int)[0] == b@[i as int]);
        if ca != cb {
            return ca < cb;
        }
        proof {
            assert(a@.skip(i as int).drop_first() =~= a@.skip(i as int + 1));
            assert(b@.skip(i as int).drop_first() =~= b@.skip(i as int + 1));
        }
        i += 1;
    }
}

/// Whether `s` begins with the characters of `p`.
pub open spec fn spec_starts_with(s: Seq<char>, p: Seq<char>) -> bool {
    s.len() >= p.len() && s.subrange(0, p.len() as int) == p
}

/// Executable prefix test, character by character.
pub fn starts_with(s: &str, p: &str) -> (r: bool)
    ensures
        r == spec_starts_with(s@, p@),
{
    let n = s.unicode_len();
    let m = p.unicode_len();
    if n < m {
        assert(!spec_starts_with(s@, p@));
        return false;
    }
    let mut i: usize = 0;
    while i < m
        invariant
            m <= n,
            n == s@.len(),
            m == p@.len(),
            0 <= i <= m,
            forall|k: int| 0 <= k < i ==> s@[k] == p@[k],
        decreases m - i,
    {
        if s.get_char(i) != p.get_char(i) {
            assert(s@.subrange(0, p@.len() as int)[i as int] != p@[i as int]);
            return false;
        }
        i += 1;
    }
    assert(s@.subrange(0, p@.len() as int) =~= p@);
    true
}

} // verus!
