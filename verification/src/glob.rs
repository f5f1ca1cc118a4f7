//! Wildcard patterns over window labels and host names.
//!
//! A pattern is matched against a whole text. `*` stands for any run of
//! characters, the empty one included, `?` for exactly one character, and
//! every other character for itself.

use crate::text::chars_of;
use vstd::prelude::*;

verus! {

/// Whether pattern `p` matches the whole of text `t`.
pub open spec fn glob_match(p: Seq<char>, t: Seq<char>) -> bool
    decreases p.len(), t.len(),
{
    if p.len() == 0 {
        t.len() == 0
    } else if p[0] == '*' {
        glob_match(p.drop_first(), t) || (t.len() > 0 && glob_match(p, t.drop_first()))
    } else {
        t.len() > 0 && (p[0] == '?' || p[0] == t[0]) && glob_match(
            p.drop_first(),
            t.drop_first(),
        )
    }
}

/// The lower-case form of an ASCII capital, any other character unchanged.
pub open spec fn lower_char(c: char) -> char {
    if 'A' <= c && c <= 'Z' {
        ((c as u8) + 32) as char
    } else {
        c
    }
}

/// A text with its ASCII capitals in lower case.
pub open spec fn lower(s: Seq<char>) -> Seq<char> {
    s.map_values(|c: char| lower_char(c))
}

/// Whether host pattern `p` matches host `host`, capitals and small letters
/// of ASCII counting as the same.
pub open spec fn host_match(p: Seq<char>, host: Seq<char>) -> bool {
    glob_match(lower(p), lower(host))
}

/// Whether any pattern of `patterns` matches `t`.
pub open spec fn any_glob_match(patterns: Seq<Seq<char>>, t: Seq<char>) -> bool {
    exists|i: int| 0 <= i < patterns.len() && glob_match(#[trigger] patterns[i], t)
}

/// Whether any host pattern of `patterns` matches `host`.
pub open spec fn any_host_match(patterns: Seq<Seq<char>>, host: Seq<char>) -> bool {
    exists|i: int| 0 <= i < patterns.len() && host_match(#[trigger] patterns[i], host)
}

/// A pattern without wildcards matches its own text and no other.
pub proof fn lemma_literal_pattern(p: Seq<char>, t: Seq<char>)
    requires
        forall|i: int| 0 <= i < p.len() ==> p[i] != '*' && p[i] != '?',
    ensures
        glob_match(p, t) <==> p == t,
    decreases p.len(),
{
    if p.len() == 0 {
        assert(glob_match(p, t) <==> p =~= t);
    } else if t.len() == 0 {
    } else {
        lemma_literal_pattern(p.drop_first(), t.drop_first());
        if p[0] == t[0] && p.drop_first() == t.drop_first() {
            assert(p =~= seq![p[0]] + p.drop_first());
            assert(t =~= seq![t[0]] + t.drop_first());
        }
    }
}

/// The pattern `*` matches every text.
pub proof fn lemma_star_matches_all(p: Seq<char>, t: Seq<char>)
    requires
        p.len() == 1,
        p[0] == '*',
    ensures
        glob_match(p, t),
    decreases t.len(),
{
    if t.len() > 0 {
        lemma_star_matches_all(p, t.drop_first());
    } else {
        assert(p.drop_first().len() == 0);
        assert(glob_match(p.drop_first(), t));
    }
}

/// How matching a pattern's tail against a text's tail unfolds by one step.
proof fn lemma_match_step(p: Seq<char>, t: Seq<char>, i: int, j: int)
    requires
        0 <= i < p.len(),
        0 <= j <= t.len(),
    ensures
        p[i] == '*' ==> (glob_match(p.skip(i), t.skip(j)) <==> (glob_match(
            p.skip(i + 1),
            t.skip(j),
        ) || (j < t.len() && glob_match(p.skip(i), t.skip(j + 1))))),
        p[i] != '*' ==> (glob_match(p.skip(i), t.skip(j)) <==> (j < t.len() && (p[i] == '?'
            || p[i] == t[j]) && glob_match(p.skip(i + 1), t.skip(j + 1)))),
{
    let ps = p.skip(i);
    let ts = t.skip(j);
    assert(ps.len() > 0 && ps[0] == p[i]);
    assert(ps.drop_first() =~= p.skip(i + 1));
    if j < t.len() {
        assert(ts[0] == t[j]);
        assert(ts.drop_first() =~= t.skip(j + 1));
    }
}

/// Lower case of one character.
pub fn to_lower(c: char) -> (r: char)
    ensures
        r == lower_char(c),
{
    if 'A' <= c && c <= 'Z' {
        ((c as u8) + 32) as char
    } else {
        c
    }
}

/// The characters of `s` with the ASCII capitals in lower case.
pub fn lower_chars(s: &str) -> (out: Vec<char>)
    ensures
        out@ == lower(s@),
{
    let chars = chars_of(s);
    let mut out: Vec<char> = Vec::new();
    let mut i: usize = 0;
    while i < chars.len()
        invariant
            i <= chars.len(),
            out.len() == i,
            forall|k: int| 0 <= k < i ==> #[trigger] out[k] == lower_char(chars[k]),
        decreases chars.len() - i,
    {
        out.push(to_lower(chars[i]));
        i += 1;
    }
    assert(out@ =~= lower(s@));
    out
}

/// Matches the characters of a pattern against the characters of a text, in
/// time proportional to the product of their lengths.
pub fn chars_match(p: &Vec<char>, t: &Vec<char>) -> (r: bool)
    ensures
        r == glob_match(p@, t@),
{
    let m = p.len();
    let n = t.len();
    // `next[j]` tells whether the pattern from `i` on matches the text from `j` on.
    let mut next: Vec<bool> = Vec::new();
    let mut j: usize = 0;
    while j < n
        invariant
            j <= n,
            n == t.len(),
            next.len() == j,
            forall|k: int| 0 <= k < j ==> !#[trigger] next[k],
        decreases n - j,
    {
        next.push(false);
        j += 1;
    }
    next.push(true);
    proof {
        assert forall|k: int| 0 <= k <= n implies #[trigger] next[k] == glob_match(
            p@.skip(m as int),
            t@.skip(k),
        ) by {
            assert(p@.skip(m as int).len() == 0);
            assert(t@.skip(k).len() == n - k);
        }
    }
    let mut i: usize = m;
    while i > 0
        invariant
            i <= m,
            m == p.len(),
            n == t.len(),
            next.len() == n + 1,
            forall|k: int| 0 <= k <= n ==> #[trigger] next[k] == glob_match(
                p@.skip(i as int),
                t@.skip(k),
            ),
        decreases i,
    {
        i -= 1;
        let c = p[i];
        let mut cur: Vec<bool> = Vec::new();
        let mut f: usize = 0;
        while f < n
            invariant
                f <= n,
                cur.len() == f,
            decreases n - f,
        {
            cur.push(false);
            f += 1;
        }
        let last = c == '*' && next[n];
        cur.push(last);
        proof {
            lemma_match_step(p@, t@, i as int, n as int);
        }
        let mut j: usize = n;
        while j > 0
            invariant
                j <= n,
                i < m,
                m == p.len(),
                n == t.len(),
                c == p[i as int],
                next.len() == n + 1,
                cur.len() == n + 1,
                forall|k: int| 0 <= k <= n ==> #[trigger] next[k] == glob_match(
                    p@.skip(i + 1),
                    t@.skip(k),
                ),
                forall|k: int| j <= k <= n ==> #[trigger] cur[k] == glob_match(
                    p@.skip(i as int),
                    t@.skip(k),
                ),
            decreases j,
        {
            j -= 1;
            let v = if c == '*' {
                next[j] || cur[j + 1]
            } else {
                (c == '?' || c == t[j]) && next[j + 1]
            };
            proof {
                lemma_match_step(p@, t@, i as int, j as int);
            }
            cur[j] = v;
        }
        next = cur;
    }
    proof {
        assert(p@.skip(0) =~= p@);
        assert(t@.skip(0) =~= t@);
    }
    next[0]
}

/// A wildcard pattern, read once and matched many times.
#[derive(Clone, Debug, PartialEq, Eq)]
pub struct Pattern {
    chars: Vec<char>,
}

impl View for Pattern {
    type V = Seq<char>;

    closed spec fn view(&self) -> Seq<char> {
        self.chars@
    }
}

impl Pattern {
    /// Reads a pattern.
    pub fn new(pattern: &str) -> (p: Pattern)
        ensures
            p@ == pattern@,
    {
        Pattern { chars: chars_of(pattern) }
    }

    /// Reads a host pattern, for matching that does not tell ASCII capitals
    /// from small letters.
    pub fn for_host(pattern: &str) -> (p: Pattern)
        ensures
            p@ == lower(pattern@),
    {
        Pattern { chars: lower_chars(pattern) }
    }

    /// Whether the pattern matches the whole of `text`.
    pub fn matches(&self, text: &str) -> (r: bool)
        ensures
            r == glob_match(self@, text@),
    {
        let t = chars_of(text);
        chars_match(&self.chars, &t)
    }

    /// Whether the pattern matches the whole of the text that `text` holds
    /// character by character.
    pub fn matches_chars(&self, text: &Vec<char>) -> (r: bool)
        ensures
            r == glob_match(self@, text@),
    {
        chars_match(&self.chars, text)
    }

    /// Whether the pattern matches the whole of `host` once its ASCII
    /// capitals are put in lower case.
    pub fn matches_host(&self, host: &str) -> (r: bool)
        ensures
            r == glob_match(self@, lower(host@)),
    {
        let t = lower_chars(host);
        chars_match(&self.chars, &t)
    }
}

/// Whether window pattern `pattern` matches `label`.
pub fn glob_matches(pattern: &str, label: &str) -> (r: bool)
    ensures
        r == glob_match(pattern@, label@),
{
    Pattern::new(pattern).matches(label)
}

/// Whether host pattern `pattern` matches `host`, without regard to the case
/// of ASCII letters.
pub fn host_matches(pattern: &str, host: &str) -> (r: bool)
    ensures
        r == host_match(pattern@, host@),
{
    Pattern::for_host(pattern).matches_host(host)
}

} // verus!
