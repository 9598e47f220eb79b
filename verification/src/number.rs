//! Permissive numeric cells. A numeric field is kept only when its trimmed
//! text conforms to the grammar that Rust's float parser documents; an empty
//! or unparseable cell is absent, never an error and never zero.

use vstd::prelude::*;
use crate::text::{is_space, trim_spec, trim_str, lemma_trim_all_space_empty};

verus! {

/// A decimal digit.
pub open spec fn is_digit(c: char) -> bool {
    c == '0' || c == '1' || c == '2' || c == '3' || c == '4' || c == '5' || c == '6' || c == '7'
        || c == '8' || c == '9'
}

/// A leading sign.
pub open spec fn is_sign(c: char) -> bool {
    c == '+' || c == '-'
}

/// `s` with one leading sign removed, when there is one.
pub open spec fn strip_sign(s: Seq<char>) -> Seq<char> {
    if s.len() > 0 && is_sign(s[0]) {
        s.drop_first()
    } else {
        s
    }
}

/// The uppercase form of the lowercase letters that the special float words
/// are spelled with; any other character is left alone.
pub open spec fn upper_of(c: char) -> char {
    if c == 'i' {
        'I'
    } else if c == 'n' {
        'N'
    } else if c == 'f' {
        'F'
    } else if c == 't' {
        'T'
    } else if c == 'y' {
        'Y'
    } else if c == 'a' {
        'A'
    } else {
        c
    }
}

/// `s` spells the lowercase word `w`, ignoring letter case.
pub open spec fn word_ci(s: Seq<char>, w: Seq<char>) -> bool {
    s.len() == w.len() && forall|j: int|
        0 <= j < s.len() ==> s[j] == w[j] || s[j] == upper_of(#[trigger] w[j])
}

/// The words the float grammar accepts besides numbers: infinity in its two
/// spellings, and not-a-number, in any letter case.
pub open spec fn is_special_word(s: Seq<char>) -> bool {
    word_ci(s, seq!['i', 'n', 'f']) || word_ci(s, seq!['i', 'n', 'f', 'i', 'n', 'i', 't', 'y'])
        || word_ci(s, seq!['n', 'a', 'n'])
}

/// A mantissa: at least one digit, every character a digit or a decimal
/// point, and at most one decimal point.
pub open spec fn is_mantissa(m: Seq<char>) -> bool {
    &&& m.len() > 0
    &&& forall|j: int| 0 <= j < m.len() ==> is_digit(#[trigger] m[j]) || m[j] == '.'
    &&& forall|j: int, l: int| 0 <= j < m.len() && 0 <= l < m.len() && m[j] == '.' && m[l] == '.' ==> j == l
    &&& exists|j: int| 0 <= j < m.len() && is_digit(#[trigger] m[j])
}

/// An optionally signed, nonempty run of digits.
pub open spec fn is_signed_digits(s: Seq<char>) -> bool {
    strip_sign(s).len() > 0 && forall|j: int|
        0 <= j < strip_sign(s).len() ==> is_digit(#[trigger] strip_sign(s)[j])
}

/// The tail of a number after its mantissa: either nothing, or an exponent
/// marker followed by an optionally signed run of digits.
pub open spec fn is_exp_part(s: Seq<char>) -> bool {
    s.len() == 0 || ((s[0] == 'e' || s[0] == 'E') && is_signed_digits(s.drop_first()))
}

/// An unsigned number: a mantissa, optionally followed by an exponent.
pub open spec fn is_number_text(s: Seq<char>) -> bool {
    exists|k: int| 0 <= k <= s.len() && is_mantissa(#[trigger] s.take(k)) && is_exp_part(s.skip(k))
}

/// Text that Rust's float parser accepts: an optional sign, then a special
/// word or a number.
pub open spec fn is_float_text(s: Seq<char>) -> bool {
    is_special_word(strip_sign(s)) || is_number_text(strip_sign(s))
}

/// Whether `c` is a decimal digit.
pub fn digit_char(c: char) -> (r: bool)
    ensures
        r == is_digit(c),
{
    c == '0' || c == '1' || c == '2' || c == '3' || c == '4' || c == '5' || c == '6' || c == '7'
        || c == '8' || c == '9'
}

/// Whether the character at `j` of `b` matches `lo` ignoring letter case.
fn char_ci(b: &str, j: usize, lo: char, up: char) -> (r: bool)
    requires
        j < b@.len(),
        up == upper_of(lo),
    ensures
        r == (b@[j as int] == lo || b@[j as int] == upper_of(lo)),
{
    let c = b.get_char(j);
    c == lo || c == up
}

/// Whether `b` spells one of the special float words, in any letter case.
fn check_special_word(b: &str) -> (r: bool)
    ensures
        r == is_special_word(b@),
{
    let n = b.unicode_len();
    if n == 3 {
        let inf = char_ci(b, 0, 'i', 'I') && char_ci(b, 1, 'n', 'N') && char_ci(b, 2, 'f', 'F');
        let nan = char_ci(b, 0, 'n', 'N') && char_ci(b, 1, 'a', 'A') && char_ci(b, 2, 'n', 'N');
        inf || nan
    } else if n == 8 {
        char_ci(b, 0, 'i', 'I') && char_ci(b, 1, 'n', 'N') && char_ci(b, 2, 'f', 'F')
            && char_ci(b, 3, 'i', 'I') && char_ci(b, 4, 'n', 'N') && char_ci(b, 5, 'i', 'I')
            && char_ci(b, 6, 't', 'T') && char_ci(b, 7, 'y', 'Y')
    } else {
        false
    }
}

/// Whether `b` is an unsigned number of the float grammar: a mantissa and
/// an optional exponent.
fn check_number(b: &str) -> (r: bool)
    ensures
        r == is_number_text(b@),
{
    let n = b.unicode_len();
    // The mantissa may not contain an exponent marker and the exponent tail
    // may not either, so the only split that can succeed is at the first one.
    let mut k: usize = 0;
    while k < n && b.get_char(k) != 'e' && b.get_char(k) != 'E'
        invariant
            0 <= k <= n,
            n == b@.len(),
            forall|j: int| 0 <= j < k ==> b@[j] != 'e' && b@[j] != 'E',
        decreases n - k,
    {
        k = k + 1;
    }
    let mantissa_ok = check_mantissa(b, k);
    let exp_ok = if k == n {
        true
    } else {
        check_exp_tail(b, k + 1)
    };
    proof {
        if k < n {
            assert(b@[k as int] == 'e' || b@[k as int] == 'E');
            assert(b@.skip(k as int)[0] == b@[k as int]);
            assert(b@.skip(k as int).drop_first() =~= b@.skip(k as int + 1));
        }
        assert(exp_ok == is_exp_part(b@.skip(k as int)));
        if mantissa_ok && exp_ok {
            assert(is_mantissa(b@.take(k as int)) && is_exp_part(b@.skip(k as int)));
        } else {
            assert forall|j: int| 0 <= j <= n implies !(is_mantissa(#[trigger] b@.take(j))
                && is_exp_part(b@.skip(j))) by {
                if j < k {
                    assert(b@.skip(j)[0] == b@[j]);
                    assert(b@.skip(j).len() > 0);
                } else if j > k {
                    assert(b@.take(j)[k as int] == b@[k as int]);
                    assert(!is_digit(b@[k as int]) && b@[k as int] != '.');
                }
            }
        }
    }
    mantissa_ok && exp_ok
}

/// Whether the first `k` characters of `b` form a mantissa.
fn check_mantissa(b: &str, k: usize) -> (r: bool)
    requires
        k <= b@.len(),
    ensures
        r == is_mantissa(b@.take(k as int)),
{
    let ghost m = b@.take(k as int);
    if k == 0 {
        return false;
    }
    let mut i: usize = 0;
    let mut seen_dot = false;
    let mut seen_digit = false;
    while i < k
        invariant
            0 <= i <= k <= b@.len(),
            m == b@.take(k as int),
            forall|j: int| 0 <= j < i ==> is_digit(#[trigger] m[j]) || m[j] == '.',
            forall|j: int, l: int| 0 <= j < i && 0 <= l < i && m[j] == '.' && m[l] == '.' ==> j == l,
            seen_dot <==> exists|j: int| 0 <= j < i && #[trigger] m[j] == '.',
            seen_digit <==> exists|j: int| 0 <= j < i && is_digit(#[trigger] m[j]),
        decreases k - i,
    {
        let c = b.get_char(i);
        proof {
            assert(m[i as int] == b@[i as int]);
        }
        if digit_char(c) {
            seen_digit = true;
        } else if c == '.' {
            if seen_dot {
                return false;
            }
            seen_dot = true;
        } else {
            return false;
        }
        i = i + 1;
    }
    seen_digit
}

/// Whether the characters of `b` from `from` on are an optionally signed,
/// nonempty run of digits.
fn check_exp_tail(b: &str, from: usize) -> (r: bool)
    requires
        from <= b@.len(),
    ensures
        r == is_signed_digits(b@.skip(from as int)),
{
    let n = b.unicode_len();
    let start = if from < n {
        let c0 = b.get_char(from);
        if c0 == '+' || c0 == '-' {
            from + 1
        } else {
            from
        }
    } else {
        from
    };
    proof {
        assert(strip_sign(b@.skip(from as int)) =~= b@.skip(start as int));
    }
    if start == n {
        return false;
    }
    let mut i: usize = start;
    while i < n
        invariant
            from <= start <= i <= n,
            n == b@.len(),
            strip_sign(b@.skip(from as int)) == b@.skip(start as int),
            forall|j: int| start <= j < i ==> is_digit(#[trigger] b@[j]),
        decreases n - i,
    {
        if !digit_char(b.get_char(i)) {
            proof {
                assert(strip_sign(b@.skip(from as int))[i - start] == b@[i as int]);
            }
            return false;
        }
        i = i + 1;
    }
    proof {
        let u = strip_sign(b@.skip(from as int));
        assert forall|j: int| 0 <= j < u.len() implies is_digit(#[trigger] u[j]) by {
            assert(u[j] == b@[start + j]);
        }
    }
    true
}

/// Whether `s` conforms to the grammar that Rust's float parser accepts.
pub fn check_float_text(s: &str) -> (r: bool)
    ensures
        r == is_float_text(s@),
{
    let n = s.unicode_len();
    let body = if n > 0 {
        let c0 = s.get_char(0);
        if c0 == '+' || c0 == '-' {
            s.substring_char(1, n)
        } else {
            s
        }
    } else {
        s
    };
    proof {
        assert(body@ =~= strip_sign(s@));
    }
    check_special_word(body) || check_number(body)
}

/// What a numeric cell holds: absent when the trimmed text is empty or does
/// not conform to the float grammar, and the trimmed text itself otherwise.
pub open spec fn opt_num_spec(s: Seq<char>) -> Option<Seq<char>> {
    let t = trim_spec(s);
    if t.len() == 0 {
        None
    } else if is_float_text(t) {
        Some(t)
    } else {
        None
    }
}

/// Parse a numeric cell permissively: empty or whitespace-only text is
/// absent, text outside the float grammar is absent, and conforming text is
/// kept, trimmed, for the caller to evaluate.
pub fn parse_opt_number(s: &str) -> (r: Option<String>)
    ensures
        r is Some <==> opt_num_spec(s@) is Some,
        r matches Some(v) ==> opt_num_spec(s@) == Some(v@),
{
    let t = trim_str(s);
    if t.as_str().unicode_len() == 0 {
        None
    } else if check_float_text(t.as_str()) {
        Some(t)
    } else {
        None
    }
}

/// A numeric cell of whitespace alone is always absent: it is never an
/// error and never a number.
pub proof fn lemma_blank_cell_absent(s: Seq<char>)
    requires
        forall|j: int| 0 <= j < s.len() ==> is_space(s[j]),
    ensures
        opt_num_spec(s) is None,
{
    lemma_trim_all_space_empty(s);
}

} // verus!
