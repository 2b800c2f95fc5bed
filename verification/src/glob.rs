//! Glob matching (`*`, `?`, backslash escapes) over the characters of
//! lowercased strings, with the greedy single-backtrack matcher proved
//! equal to the recursive definition of a glob match.
use vstd::prelude::*;

use crate::text::{
    ascii_lower, ascii_lower_seq, chars_of, eq_ignore_ascii_case_spec, is_ascii_seq,
    to_lowercase, unicode_lowercase,
};

verus! {

/// One element of a compiled glob pattern.
#[derive(Clone, Copy, PartialEq, Eq, Debug)]
pub enum GlobToken {
    /// `*`: any run of characters, possibly empty.
    Star,
    /// `?`: exactly one character.
    AnyChar,
    /// A literal character, by its code point (possibly written escaped with
    /// a backslash).
    Lit(u32),
}

/// The tokens of a pattern: `*` and `?` are wildcards, a backslash makes the
/// next character literal, and a trailing backslash stands for itself.
pub open spec fn tokenize(p: Seq<char>) -> Seq<GlobToken>
    decreases p.len(),
{
    if p.len() == 0 {
        Seq::empty()
    } else if p[0] == '*' {
        seq![GlobToken::Star] + tokenize(p.subrange(1, p.len() as int))
    } else if p[0] == '?' {
        seq![GlobToken::AnyChar] + tokenize(p.subrange(1, p.len() as int))
    } else if is_backslash(p[0]) && p.len() >= 2 {
        seq![GlobToken::Lit(p[1] as u32)] + tokenize(p.subrange(2, p.len() as int))
    } else {
        seq![GlobToken::Lit(p[0] as u32)] + tokenize(p.subrange(1, p.len() as int))
    }
}

/// A token other than `*` accepts the character `b`.
pub open spec fn accepts(t: GlobToken, b: char) -> bool {
    match t {
        GlobToken::Star => false,
        GlobToken::AnyChar => true,
        GlobToken::Lit(x) => x == b as u32,
    }
}

/// The tokens `t[i..]` match the characters `s[j..]` exactly.
pub open spec fn matches_from(t: Seq<GlobToken>, s: Seq<char>, i: int, j: int) -> bool
    decreases t.len() - i + s.len() - j,
{
    if i < 0 || j < 0 || i > t.len() || j > s.len() {
        false
    } else if i == t.len() {
        j == s.len()
    } else if t[i] is Star {
        matches_from(t, s, i + 1, j) || (j < s.len() && matches_from(t, s, i, j + 1))
    } else {
        j < s.len() && accepts(t[i], s[j]) && matches_from(t, s, i + 1, j + 1)
    }
}

/// The whole token sequence matches the whole character sequence.
pub open spec fn tokens_match(t: Seq<GlobToken>, s: Seq<char>) -> bool {
    matches_from(t, s, 0, 0)
}

/// What `glob_match(pattern, input)` decides: both sides are lowercased,
/// then the pattern's tokens must match the input's characters.
pub open spec fn glob_spec(pattern: Seq<char>, input: Seq<char>) -> bool {
    tokens_match(
        tokenize(unicode_lowercase(pattern)),
        unicode_lowercase(input),
    )
}

/// `matches_from(i, j)` for some `j <= k <= s.len()`.
pub open spec fn star_tail(t: Seq<GlobToken>, s: Seq<char>, i: int, j: int) -> bool {
    exists|k: int| j <= k <= s.len() && #[trigger] matches_from(t, s, i, k)
}

/// Tokens `t[a..a+len]` hold no `*` and accept the characters `s[b..b+len]`.
pub open spec fn segment_accepts(t: Seq<GlobToken>, s: Seq<char>, a: int, b: int, len: int) -> bool {
    &&& 0 <= a && a + len <= t.len()
    &&& 0 <= b && b + len <= s.len()
    &&& forall|k: int| 0 <= k < len ==> !(#[trigger] t[a + k] is Star) && accepts(t[a + k], s[b + k])
}

/// Tokens `t[a..a+len]` hold no `*`.
pub open spec fn star_free(t: Seq<GlobToken>, a: int, len: int) -> bool {
    &&& 0 <= a && 0 <= len && a + len <= t.len()
    &&& forall|k: int| 0 <= k < len ==> !(#[trigger] t[a + k] is Star)
}

proof fn lemma_star_unfold(t: Seq<GlobToken>, s: Seq<char>, i: int, j: int)
    requires
        0 <= i < t.len(),
        t[i] is Star,
        0 <= j <= s.len(),
    ensures
        matches_from(t, s, i, j) == star_tail(t, s, i + 1, j),
    decreases s.len() - j,
{
    if j < s.len() {
        lemma_star_unfold(t, s, i, j + 1);
        if matches_from(t, s, i, j) {
            if matches_from(t, s, i + 1, j) {
                assert(matches_from(t, s, i + 1, j));
            } else {
                let k = choose|k: int| j + 1 <= k <= s.len() && #[trigger] matches_from(t, s, i + 1, k);
                assert(matches_from(t, s, i + 1, k));
            }
        }
        if star_tail(t, s, i + 1, j) {
            let k = choose|k: int| j <= k <= s.len() && #[trigger] matches_from(t, s, i + 1, k);
            if k > j {
                assert(star_tail(t, s, i + 1, j + 1));
            }
        }
    } else {
        if star_tail(t, s, i + 1, j) {
            let k = choose|k: int| j <= k <= s.len() && #[trigger] matches_from(t, s, i + 1, k);
            assert(k == j);
        }
        if matches_from(t, s, i, j) {
            assert(matches_from(t, s, i + 1, j));
        }
    }
}

proof fn lemma_segment_shift(t: Seq<GlobToken>, s: Seq<char>, a: int, b: int, len: int)
    requires
        0 <= len,
        segment_accepts(t, s, a, b, len),
    ensures
        matches_from(t, s, a, b) == matches_from(t, s, a + len, b + len),
    decreases len,
{
    if len > 0 {
        assert(!(t[a + 0] is Star) && accepts(t[a + 0], s[b + 0]));
        assert(segment_accepts(t, s, a + 1, b + 1, len - 1)) by {
            assert forall|k: int| 0 <= k < len - 1 implies !(#[trigger] t[a + 1 + k] is Star) && accepts(t[a + 1 + k], s[b + 1 + k]) by {
                assert(!(t[a + (k + 1)] is Star) && accepts(t[a + (k + 1)], s[b + (k + 1)]));
            }
        }
        lemma_segment_shift(t, s, a + 1, b + 1, len - 1);
    }
}

proof fn lemma_segment_too_long(t: Seq<GlobToken>, s: Seq<char>, a: int, b: int, len: int)
    requires
        star_free(t, a, len),
        0 <= b <= s.len(),
        s.len() - b < len,
    ensures
        !matches_from(t, s, a, b),
    decreases len,
{
    assert(!(t[a + 0] is Star));
    if b < s.len() {
        assert(star_free(t, a + 1, len - 1)) by {
            assert forall|k: int| 0 <= k < len - 1 implies !(#[trigger] t[a + 1 + k] is Star) by {
                assert(!(t[a + (k + 1)] is Star));
            }
        }
        lemma_segment_too_long(t, s, a + 1, b + 1, len - 1);
    }
}

proof fn lemma_segment_consumes(t: Seq<GlobToken>, s: Seq<char>, a: int, b: int, len: int)
    requires
        star_free(t, a, len),
        0 <= b <= s.len(),
        matches_from(t, s, a, b),
    ensures
        b + len <= s.len(),
        segment_accepts(t, s, a, b, len),
        matches_from(t, s, a + len, b + len),
    decreases len,
{
    if len > 0 {
        assert(!(t[a + 0] is Star));
        assert(star_free(t, a + 1, len - 1)) by {
            assert forall|k: int| 0 <= k < len - 1 implies !(#[trigger] t[a + 1 + k] is Star) by {
                assert(!(t[a + (k + 1)] is Star));
            }
        }
        lemma_segment_consumes(t, s, a + 1, b + 1, len - 1);
        assert forall|k: int| 0 <= k < len implies !(#[trigger] t[a + k] is Star) && accepts(t[a + k], s[b + k]) by {
            if k > 0 {
                assert(!(t[a + 1 + (k - 1)] is Star) && accepts(t[a + 1 + (k - 1)], s[b + 1 + (k - 1)]));
            }
        }
    }
}

proof fn lemma_at_end(t: Seq<GlobToken>, s: Seq<char>, i: int)
    requires
        0 <= i <= t.len(),
    ensures
        matches_from(t, s, i, s.len() as int) == (forall|k: int| i <= k < t.len() ==> #[trigger] t[k] is Star),
    decreases t.len() - i,
{
    if i < t.len() {
        lemma_at_end(t, s, i + 1);
    }
}

/// The escape character of glob patterns, `\\` (U+005C).
pub open spec fn is_backslash(c: char) -> bool {
    c as u32 == 92
}

/// Compiles a pattern's characters into tokens.
pub fn tokenize_chars(p: &Vec<char>) -> (r: Vec<GlobToken>)
    ensures
        r@ == tokenize(p@),
{
    let mut out: Vec<GlobToken> = Vec::new();
    let mut i: usize = 0;
    assert(p@.subrange(0, p@.len() as int) =~= p@);
    while i < p.len()
        invariant
            i <= p.len(),
            out@ + tokenize(p@.subrange(i as int, p@.len() as int)) == tokenize(p@),
        decreases p.len() - i,
    {
        let ghost rest = p@.subrange(i as int, p@.len() as int);
        let ghost before = out@;
        let c = p[i];
        assert(rest[0] == c);
        let escape = c as u32 == 92;
        if escape && i + 1 < p.len() {
            let tok = GlobToken::Lit(p[i + 1] as u32);
            let ghost tail = p@.subrange(i + 2, p@.len() as int);
            assert(rest.len() >= 2 && rest[1] == p@[i + 1]);
                        assert(rest.subrange(2, rest.len() as int) =~= tail);
            assert(tokenize(rest) == seq![tok] + tokenize(tail));
            out.push(tok);
            assert(out@ + tokenize(tail) =~= before + tokenize(rest));
            i += 2;
        } else {
            let tok = if escape {
                GlobToken::Lit(c as u32)
            } else if c == '*' {
                GlobToken::Star
            } else if c == '?' {
                GlobToken::AnyChar
            } else {
                GlobToken::Lit(c as u32)
            };
            let ghost tail = p@.subrange(i + 1, p@.len() as int);
            assert(rest.subrange(1, rest.len() as int) =~= tail);
            assert(tokenize(rest) == seq![tok] + tokenize(tail));
            out.push(tok);
            assert(out@ + tokenize(tail) =~= before + tokenize(rest));
            i += 1;
        }
    }
    assert(p@.subrange(i as int, p@.len() as int) =~= Seq::<char>::empty());
    assert(out@ =~= out@ + tokenize(Seq::<char>::empty()));
    out
}

fn token_accepts(t: GlobToken, b: char) -> (r: bool)
    ensures
        r == accepts(t, b),
{
    match t {
        GlobToken::Star => false,
        GlobToken::AnyChar => true,
        GlobToken::Lit(x) => x == b as u32,
    }
}

/// Matches tokens against characters with a single backtracking point: the
/// most recent `*` absorbs one more character whenever the literal run after
/// it fails.
pub fn match_tokens(t: &Vec<GlobToken>, s: &Vec<char>) -> (r: bool)
    ensures
        r == tokens_match(t@, s@),
{
    let m = t.len();
    let n = s.len();
    let mut pi: usize = 0;
    let mut ii: usize = 0;
    let mut has_star: bool = false;
    let mut star_pi: usize = 0;
    let mut star_ii: usize = 0;
    while ii < n
        invariant
            m == t@.len(),
            n == s@.len(),
            pi <= m,
            ii <= n,
            !has_star ==> (tokens_match(t@, s@) == matches_from(t@, s@, pi as int, ii as int)),
            has_star ==> {
                &&& star_pi < pi
                &&& t@[star_pi as int] is Star
                &&& star_ii <= ii
                &&& pi - star_pi - 1 == ii - star_ii
                &&& segment_accepts(t@, s@, star_pi + 1, star_ii as int, ii - star_ii)
                &&& tokens_match(t@, s@) == star_tail(t@, s@, star_pi + 1, star_ii as int)
            },
        decreases (if has_star { n - star_ii } else { n + 1 }), (n - ii) + (m - pi),
    {
        if pi < m && matches!(t[pi], GlobToken::Star) {
            proof {
                lemma_star_unfold(t@, s@, pi as int, ii as int);
                if has_star {
                    let a = star_pi + 1;
                    let len = ii - star_ii;
                    assert(star_free(t@, a, len));
                    if star_tail(t@, s@, a, star_ii as int) {
                        let k = choose|k: int| star_ii <= k <= s@.len() && #[trigger] matches_from(t@, s@, a, k);
                        lemma_segment_consumes(t@, s@, a, k, len);
                        lemma_star_unfold(t@, s@, pi as int, k + len);
                        let k2 = choose|k2: int| k + len <= k2 <= s@.len() && #[trigger] matches_from(t@, s@, pi + 1, k2);
                        assert(matches_from(t@, s@, pi + 1, k2));
                    }
                    if star_tail(t@, s@, pi + 1, ii as int) {
                        lemma_segment_shift(t@, s@, a, star_ii as int, len);
                        assert(matches_from(t@, s@, a, star_ii as int));
                    }
                }
            }
            has_star = true;
            star_pi = pi;
            star_ii = ii;
            pi += 1;
        } else if pi < m && token_accepts(t[pi], s[ii]) {
            proof {
                if has_star {
                    assert forall|k: int| 0 <= k < ii + 1 - star_ii implies !(#[trigger] t@[star_pi + 1 + k] is Star) && accepts(t@[star_pi + 1 + k], s@[star_ii + k]) by {
                        if k < ii - star_ii {
                            assert(segment_accepts(t@, s@, star_pi + 1, star_ii as int, ii - star_ii));
                        }
                    }
                }
            }
            pi += 1;
            ii += 1;
        } else if has_star {
            proof {
                let a = star_pi + 1;
                let len = ii - star_ii;
                lemma_segment_shift(t@, s@, a, star_ii as int, len);
                assert(!matches_from(t@, s@, pi as int, ii as int));
                assert(!matches_from(t@, s@, a, star_ii as int));
                if star_tail(t@, s@, a, star_ii as int) {
                    let k = choose|k: int| star_ii <= k <= s@.len() && #[trigger] matches_from(t@, s@, a, k);
                    assert(k != star_ii);
                    assert(star_tail(t@, s@, a, star_ii + 1));
                }
                if star_tail(t@, s@, a, star_ii + 1) {
                    let k = choose|k: int| star_ii + 1 <= k <= s@.len() && #[trigger] matches_from(t@, s@, a, k);
                    assert(star_tail(t@, s@, a, star_ii as int));
                }
            }
            pi = star_pi + 1;
            star_ii = star_ii + 1;
            ii = star_ii;
        } else {
            return false;
        }
    }
    proof {
        if has_star {
            let a = star_pi + 1;
            let len = ii - star_ii;
            lemma_segment_shift(t@, s@, a, star_ii as int, len);
            assert(star_free(t@, a, len));
            if star_tail(t@, s@, a, star_ii as int) {
                let k = choose|k: int| star_ii <= k <= s@.len() && #[trigger] matches_from(t@, s@, a, k);
                if k > star_ii {
                    lemma_segment_too_long(t@, s@, a, k, len);
                }
            }
        }
        lemma_at_end(t@, s@, pi as int);
    }
    let ghost pi0 = pi;
    while pi < m && matches!(t[pi], GlobToken::Star)
        invariant
            pi0 <= pi <= m,
            m == t@.len(),
            forall|k: int| pi0 <= k < pi ==> #[trigger] t@[k] is Star,
        decreases m - pi,
    {
        pi += 1;
    }
    pi == m
}

/// Simple glob matching supporting `*` (any run of characters) and `?` (a
/// single character); a backslash makes the next character literal.
/// Matching is case-insensitive: both sides are lowercased first.
pub fn glob_match(pattern: &str, input: &str) -> (r: bool)
    ensures
        r == glob_spec(pattern@, input@),
        is_ascii_seq(pattern@) ==> r == tokens_match(ascii_pattern_tokens(pattern@), unicode_lowercase(input@)),
        is_ascii_seq(pattern@) && is_ascii_seq(input@) ==> r == tokens_match(
            ascii_pattern_tokens(pattern@),
            ascii_lower_seq(input@),
        ),
{
    let pattern_lower = to_lowercase(pattern);
    let input_lower = to_lowercase(input);
    let tokens = tokenize_chars(&chars_of(pattern_lower.as_str()));
    match_tokens(&tokens, &chars_of(input_lower.as_str()))
}

/// The tokens of an all-ASCII pattern, lowercased (as `glob_match` reads
/// it).
pub open spec fn ascii_pattern_tokens(pattern: Seq<char>) -> Seq<GlobToken> {
    tokenize(ascii_lower_seq(pattern))
}

/// The token a character stands for in a pattern without backslashes.
pub open spec fn token_of(b: char) -> GlobToken {
    if b == '*' {
        GlobToken::Star
    } else if b == '?' {
        GlobToken::AnyChar
    } else {
        GlobToken::Lit(b as u32)
    }
}

proof fn lemma_tokenize_plain(p: Seq<char>)
    requires
        forall|k: int| 0 <= k < p.len() ==> !is_backslash(#[trigger] p[k]),
    ensures
        tokenize(p) == p.map_values(|b: char| token_of(b)),
    decreases p.len(),
{
    if p.len() > 0 {
        let rest = p.subrange(1, p.len() as int);
        lemma_tokenize_plain(rest);
        assert(p.map_values(|b: char| token_of(b)) =~= seq![token_of(p[0])] + rest.map_values(|b: char| token_of(b)));
    } else {
        assert(p.map_values(|b: char| token_of(b)) =~= Seq::<GlobToken>::empty());
    }
}

proof fn lemma_stars_match(t: Seq<GlobToken>, s: Seq<char>, i: int, j: int)
    requires
        forall|k: int| 0 <= k < t.len() ==> #[trigger] t[k] is Star,
        0 <= i < t.len(),
        0 <= j <= s.len(),
    ensures
        matches_from(t, s, i, j),
    decreases t.len() - i + s.len() - j,
{
    assert(t[i] is Star);
    if j < s.len() {
        lemma_stars_match(t, s, i, j + 1);
    } else if i + 1 < t.len() {
        lemma_stars_match(t, s, i + 1, j);
    } else {
        assert(matches_from(t, s, i + 1, j));
    }
}

proof fn lemma_starless_match(t: Seq<GlobToken>, s: Seq<char>, i: int, j: int)
    requires
        forall|k: int| 0 <= k < t.len() ==> !(#[trigger] t[k] is Star),
        0 <= i <= t.len(),
        0 <= j <= s.len(),
    ensures
        matches_from(t, s, i, j) <==> (t.len() - i == s.len() - j && forall|k: int|
            0 <= k < t.len() - i ==> accepts(#[trigger] t[i + k], s[j + k])),
    decreases t.len() - i,
{
    if i < t.len() && j < s.len() {
        lemma_starless_match(t, s, i + 1, j + 1);
        if matches_from(t, s, i, j) {
            assert forall|k: int| 0 <= k < t.len() - i implies accepts(#[trigger] t[i + k], s[j + k]) by {
                if k > 0 {
                    assert(t[(i + 1) + (k - 1)] == t[i + k]);
                }
            }
        }
        if t.len() - i == s.len() - j && forall|k: int| 0 <= k < t.len() - i ==> accepts(#[trigger] t[i + k], s[j + k]) {
            assert(accepts(t[i + 0], s[j + 0]));
            assert forall|k: int| 0 <= k < t.len() - (i + 1) implies accepts(#[trigger] t[(i + 1) + k], s[(j + 1) + k]) by {
                assert(t[i + (k + 1)] == t[(i + 1) + k]);
            }
        }
    }
}

/// A non-empty pattern of only `*` matches every (lowercased) input.
pub proof fn law_stars_match_anything(pattern: Seq<char>, input: Seq<char>)
    requires
        pattern.len() > 0,
        forall|k: int| 0 <= k < pattern.len() ==> #[trigger] pattern[k] == '*',
    ensures
        is_ascii_seq(pattern),
        tokens_match(ascii_pattern_tokens(pattern), input),
{
    let b = ascii_lower_seq(pattern);
    assert forall|k: int| 0 <= k < b.len() implies #[trigger] b[k] == '*' by {
        assert(pattern[k] == '*');
    }
    lemma_tokenize_plain(b);
    let t = tokenize(b);
    assert forall|k: int| 0 <= k < t.len() implies #[trigger] t[k] is Star by {
        assert(b[k] == '*');
    }
    lemma_stars_match(t, input, 0, 0);
}

/// A pattern of `n` question marks matches exactly the (lowercased) inputs
/// of `n` characters.
pub proof fn law_question_marks_match_length(pattern: Seq<char>, input: Seq<char>)
    requires
        forall|k: int| 0 <= k < pattern.len() ==> #[trigger] pattern[k] == '?',
    ensures
        is_ascii_seq(pattern),
        tokens_match(ascii_pattern_tokens(pattern), input) <==> input.len() == pattern.len(),
{
    let b = ascii_lower_seq(pattern);
    assert forall|k: int| 0 <= k < b.len() implies #[trigger] b[k] == '?' by {
        assert(pattern[k] == '?');
    }
    lemma_tokenize_plain(b);
    let t = tokenize(b);
    assert forall|k: int| 0 <= k < t.len() implies #[trigger] t[k] is AnyChar by {
        assert(b[k] == '?');
    }
    lemma_starless_match(t, input, 0, 0);
    assert forall|k: int| 0 <= k < t.len() - 0 implies accepts(#[trigger] t[0 + k], input[0 + k]) by {
        assert(t[k] is AnyChar);
    }
}

/// A pattern without `*`, `?` or backslash is an equality test that
/// ignores ASCII case (for ASCII pattern and input).
pub proof fn law_literal_glob_is_case_insensitive_equality(pattern: Seq<char>, input: Seq<char>)
    requires
        is_ascii_seq(pattern),
        is_ascii_seq(input),
        forall|k: int| 0 <= k < pattern.len() ==> #[trigger] pattern[k] != '*' && pattern[k] != '?' && !is_backslash(pattern[k]),
    ensures
        tokens_match(ascii_pattern_tokens(pattern), ascii_lower_seq(input)) == eq_ignore_ascii_case_spec(pattern, input),
{
    let pl = ascii_lower_seq(pattern);
    let il = ascii_lower_seq(input);
    assert forall|k: int| 0 <= k < pl.len() implies !is_backslash(#[trigger] pl[k]) && pl[k] != '*' && pl[k] != '?' by {
        assert(pl[k] == ascii_lower(pattern[k]));
    }
    lemma_tokenize_plain(pl);
    let t = tokenize(pl);
    assert forall|k: int| 0 <= k < t.len() implies !(#[trigger] t[k] is Star) && t[k] == GlobToken::Lit(pl[k] as u32) by {
        assert(pl[k] != '*' && pl[k] != '?');
    }
    lemma_starless_match(t, il, 0, 0);
    if tokens_match(t, il) {
        assert forall|k: int| 0 <= k < pattern.len() implies ascii_lower(#[trigger] pattern[k]) == ascii_lower(input[k]) by {
            assert(accepts(t[0 + k], il[0 + k]));
        }
    }
    if eq_ignore_ascii_case_spec(pattern, input) {
        assert forall|k: int| 0 <= k < t.len() - 0 implies accepts(#[trigger] t[0 + k], il[0 + k]) by {
            assert(pl[k] == il[k]);
        }
    }
}

} // verus!
