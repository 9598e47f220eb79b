//! Elementary text operations the tokenizer is built from: whitespace
//! trimming, prefix tests, and stripping one layer of surrounding quotes.

use vstd::prelude::*;

verus! {

/// The whitespace characters the tokenizer trims around fields.
pub open spec fn is_space(c: char) -> bool {
    c == ' ' || c == '\t' || c == '\r' || c == '\n'
}

/// `s` with its leading whitespace removed.
pub open spec fn ltrim(s: Seq<char>) -> Seq<char>
    decreases s.len(),
{
    if s.len() > 0 && is_space(s[0]) {
        ltrim(s.drop_first())
    } else {
        s
    }
}

/// `s` with its trailing whitespace removed.
pub open spec fn rtrim(s: Seq<char>) -> Seq<char>
    decreases s.len(),
{
    if s.len() > 0 && is_space(s.last()) {
        rtrim(s.drop_last())
    } else {
        s
    }
}

/// `s` with both leading and trailing whitespace removed.
pub open spec fn trim_spec(s: Seq<char>) -> Seq<char> {
    rtrim(ltrim(s))
}

/// If the first `lo` characters of `s` are whitespace and the one at `lo`
/// (when there is one) is not, `ltrim` drops exactly those `lo` characters.
proof fn lemma_ltrim_skip(s: Seq<char>, lo: int)
    requires
        0 <= lo <= s.len(),
        forall|j: int| 0 <= j < lo ==> is_space(s[j]),
        lo == s.len() || !is_space(s[lo]),
    ensures
        ltrim(s) == s.skip(lo),
    decreases s.len(),
{
    if lo == 0 {
        assert(s.skip(0) =~= s);
    } else {
        lemma_ltrim_skip(s.drop_first(), lo - 1);
        assert(s.drop_first().skip(lo - 1) =~= s.skip(lo));
    }
}

/// If the characters of `s` from `hi` on are whitespace and the one at
/// `hi - 1` (when there is one) is not, `rtrim` keeps exactly the first `hi`.
proof fn lemma_rtrim_take(s: Seq<char>, hi: int)
    requires
        0 <= hi <= s.len(),
        forall|j: int| hi <= j < s.len() ==> is_space(s[j]),
        hi == 0 || !is_space(s[hi - 1]),
    ensures
        rtrim(s) == s.take(hi),
    decreases s.len(),
{
    if hi == s.len() {
        assert(s.take(hi) =~= s);
    } else {
        lemma_rtrim_take(s.drop_last(), hi);
        assert(s.drop_last().take(hi) =~= s.take(hi));
    }
}

/// A string of whitespace alone trims to the empty string.
pub proof fn lemma_trim_all_space_empty(s: Seq<char>)
    requires
        forall|j: int| 0 <= j < s.len() ==> is_space(s[j]),
    ensures
        trim_spec(s).len() == 0,
{
    lemma_ltrim_skip(s, s.len() as int);
    assert(s.skip(s.len() as int) =~= Seq::<char>::empty());
}

/// Whether `c` is one of the characters trimmed around fields.
pub fn is_space_char(c: char) -> (r: bool)
    ensures
        r == is_space(c),
{
    c == ' ' || c == '\t' || c == '\r' || c == '\n'
}

/// A copy of `s` with surrounding whitespace removed.
pub fn trim_str(s: &str) -> (r: String)
    ensures
        r@ == trim_spec(s@),
{
    let n = s.unicode_len();
    let mut lo: usize = 0;
    while lo < n && is_space_char(s.get_char(lo))
        invariant
            0 <= lo <= n,
            n == s@.len(),
            forall|j: int| 0 <= j < lo ==> is_space(s@[j]),
        decreases n - lo,
    {
        lo = lo + 1;
    }
    if lo == n {
        proof {
            lemma_trim_all_space_empty(s@);
        }
        return String::new();
    }
    let mut hi: usize = n;
    while hi > lo && is_space_char(s.get_char(hi - 1))
        invariant
            lo <= hi <= n,
            n == s@.len(),
            lo < n,
            !is_space(s@[lo as int]),
            forall|j: int| hi <= j < n ==> is_space(s@[j]),
        decreases hi,
    {
        hi = hi - 1;
    }
    proof {
        lemma_ltrim_skip(s@, lo as int);
        let t = s@.skip(lo as int);
        lemma_rtrim_take(t, hi - lo);
        assert(t.take(hi - lo) =~= s@.subrange(lo as int, hi as int));
    }
    let piece = s.substring_char(lo, hi);
    piece.to_owned()
}

/// The field with one layer of surrounding double quotes removed: both the
/// leading and the trailing quote must be present for either to go.
pub open spec fn unquote_spec(s: Seq<char>) -> Seq<char> {
    if s.len() >= 2 && s[0] == '"' && s.last() == '"' {
        s.subrange(1, s.len() - 1)
    } else {
        s
    }
}

/// A copy of `s` with one layer of surrounding double quotes removed.
pub fn unquote_str(s: &str) -> (r: String)
    ensures
        r@ == unquote_spec(s@),
{
    let n = s.unicode_len();
    if n >= 2 && s.get_char(0) == '"' && s.get_char(n - 1) == '"' {
        let piece = s.substring_char(1, n - 1);
        piece.to_owned()
    } else {
        s.to_owned()
    }
}

/// Whether `p` is a prefix of `s`.
pub fn str_starts_with(s: &str, p: &str) -> (r: bool)
    ensures
        r == p@.is_prefix_of(s@),
{
    let np = p.unicode_len();
    let ns = s.unicode_len();
    if np > ns {
        return false;
    }
    let mut i: usize = 0;
    while i < np
        invariant
            0 <= i <= np,
            np == p@.len(),
            ns == s@.len(),
            np <= ns,
            forall|j: int| 0 <= j < i ==> p@[j] == s@[j],
        decreases np - i,
    {
        if p.get_char(i) != s.get_char(i) {
            assert(!p@.is_prefix_of(s@)) by {
                if p@.is_prefix_of(s@) {
                    assert(p@[i as int] == s@.subrange(0, p@.len() as int)[i as int]);
                }
            }
            return false;
        }
        i = i + 1;
    }
    assert(p@ =~= s@.subrange(0, np as int));
    true
}

} // verus!
