//! Line tokenizer: split a raw line on commas, trim each field, strip one
//! layer of surrounding quotes, and drop lines that carry no signal. No
//! escaping of commas embedded inside quoted fields is attempted: that is a
//! known limitation kept on purpose, matching the shape of the exports this
//! parser reads.

use vstd::prelude::*;
use crate::text::{trim_spec, trim_str, unquote_spec, unquote_str};

verus! {

/// The pieces of `s` between its commas, in order. A string without commas
/// is one piece; every comma ends a piece, so `n` commas give `n + 1` pieces.
pub open spec fn split_commas(s: Seq<char>) -> Seq<Seq<char>>
    decreases s.len(),
{
    if s.len() == 0 {
        seq![Seq::<char>::empty()]
    } else if s[0] == ',' {
        seq![Seq::<char>::empty()] + split_commas(s.drop_first())
    } else {
        let rest = split_commas(s.drop_first());
        seq![seq![s[0]] + rest[0]] + rest.drop_first()
    }
}

/// Splitting always yields at least one piece.
pub proof fn lemma_split_commas_nonempty(s: Seq<char>)
    ensures
        split_commas(s).len() >= 1,
    decreases s.len(),
{
    if s.len() > 0 {
        lemma_split_commas_nonempty(s.drop_first());
    }
}

/// A string without commas splits into itself alone.
pub proof fn lemma_split_no_comma(s: Seq<char>)
    requires
        forall|j: int| 0 <= j < s.len() ==> s[j] != ',',
    ensures
        split_commas(s) == seq![s],
    decreases s.len(),
{
    if s.len() == 0 {
        assert(s =~= Seq::<char>::empty());
        assert(split_commas(s) =~= seq![s]);
    } else {
        lemma_split_no_comma(s.drop_first());
        let rest = split_commas(s.drop_first());
        assert(rest[0] == s.drop_first());
        assert(seq![s[0]] + s.drop_first() =~= s);
        assert(rest.drop_first() =~= Seq::<Seq<char>>::empty());
        assert(split_commas(s) =~= seq![s]);
    }
}

/// With the first comma of `s` at position `k`, the pieces of `s` are the
/// part before that comma followed by the pieces of the part after it.
pub proof fn lemma_split_first_comma(s: Seq<char>, k: int)
    requires
        0 <= k < s.len(),
        s[k] == ',',
        forall|j: int| 0 <= j < k ==> s[j] != ',',
    ensures
        split_commas(s) == seq![s.take(k)] + split_commas(s.skip(k + 1)),
    decreases s.len(),
{
    if k == 0 {
        assert(s.take(0) =~= Seq::<char>::empty());
        assert(s.drop_first() =~= s.skip(1));
    } else {
        lemma_split_first_comma(s.drop_first(), k - 1);
        let rest = split_commas(s.drop_first());
        assert(rest == seq![s.drop_first().take(k - 1)] + split_commas(s.drop_first().skip(k)));
        assert(s.drop_first().take(k - 1) =~= s.take(k).drop_first());
        assert(s.drop_first().skip(k) =~= s.skip(k + 1));
        assert(seq![s[0]] + s.take(k).drop_first() =~= s.take(k));
        assert(rest.drop_first() =~= split_commas(s.skip(k + 1)));
        assert(split_commas(s) =~= seq![s.take(k)] + split_commas(s.skip(k + 1)));
    }
}

/// The fields of a line before quote stripping: split on commas, trim each.
pub open spec fn raw_fields(line: Seq<char>) -> Seq<Seq<char>> {
    split_commas(line).map_values(|f: Seq<char>| trim_spec(f))
}

/// A line is blank when every one of its fields trims to nothing; such
/// lines carry no signal and never reach the state machine.
pub open spec fn line_is_blank(line: Seq<char>) -> bool {
    forall|j: int| 0 <= j < raw_fields(line).len() ==> (#[trigger] raw_fields(line)[j]).len() == 0
}

/// The fields of a line as the state machine sees them: split on commas,
/// trimmed, then one layer of surrounding quotes removed.
pub open spec fn line_fields(line: Seq<char>) -> Seq<Seq<char>> {
    raw_fields(line).map_values(|f: Seq<char>| unquote_spec(f))
}

/// Tokenize one raw line. Returns `None` for a blank line (every field
/// trims to nothing), and the trimmed, unquoted fields otherwise.
pub fn tokenize_line(line: &str) -> (r: Option<Vec<String>>)
    ensures
        r is Some <==> !line_is_blank(line@),
        r matches Some(fields) ==> fields@.map_values(|s: String| s@) == line_fields(line@),
{
    let n = line.unicode_len();
    let mut fields: Vec<String> = Vec::new();
    let mut start: usize = 0;
    let mut i: usize = 0;
    let mut any_nonblank = false;
    proof {
        lemma_split_commas_nonempty(line@);
        assert(line@.skip(0) =~= line@);
    }
    loop
        invariant
            0 <= start <= i <= n,
            n == line@.len(),
            fields.len() <= split_commas(line@).len(),
            split_commas(line@).skip(fields.len() as int) == split_commas(line@.skip(start as int)),
            forall|j: int| start <= j < i ==> line@[j] != ',',
            forall|j: int| 0 <= j < fields.len() ==> (#[trigger] fields@[j])@ == line_fields(line@)[j],
            any_nonblank <==> exists|j: int| 0 <= j < fields.len() && (#[trigger] raw_fields(line@)[j]).len() > 0,
        decreases n - i + 1 + (n - start),
    {
        if i == n || line.get_char(i) == ',' {
            let ghost k = fields.len() as int;
            let ghost tail = line@.skip(start as int);
            let piece = line.substring_char(start, i);
            proof {
                lemma_split_commas_nonempty(tail);
                if i < n {
                    lemma_split_first_comma(tail, i - start);
                    assert(tail.take(i - start) =~= piece@);
                    assert(tail.skip(i - start + 1) =~= line@.skip(i + 1));
                    assert(split_commas(line@).skip(k)[0] == piece@);
                    assert(split_commas(line@)[k] == piece@);
                    assert(split_commas(line@).skip(k).drop_first() =~= split_commas(line@).skip(k + 1));
                    assert(split_commas(line@).skip(k + 1) == split_commas(line@.skip(i + 1)));
                } else {
                    assert(forall|j: int| 0 <= j < tail.len() ==> tail[j] != ',');
                    lemma_split_no_comma(tail);
                    assert(tail =~= piece@);
                    assert(split_commas(line@).skip(k)[0] == piece@);
                    assert(split_commas(line@)[k] == piece@);
                }
                assert(raw_fields(line@)[k] == trim_spec(piece@));
                assert(line_fields(line@)[k] == unquote_spec(trim_spec(piece@)));
            }
            let trimmed = trim_str(piece);
            if trimmed.as_str().unicode_len() > 0 {
                any_nonblank = true;
            }
            let field = unquote_str(trimmed.as_str());
            fields.push(field);
            if i == n {
                proof {
                    assert(split_commas(line@).skip(k).len() == 1);
                    assert(fields.len() == split_commas(line@).len());
                    assert(raw_fields(line@).len() == split_commas(line@).len());
                    if any_nonblank {
                        assert(!line_is_blank(line@));
                    } else {
                        assert(forall|j: int| 0 <= j < raw_fields(line@).len()
                            ==> (#[trigger] raw_fields(line@)[j]).len() == 0);
                    }
                }
                if any_nonblank {
                    proof {
                        assert(fields@.map_values(|s: String| s@) =~= line_fields(line@));
                    }
                    return Some(fields);
                } else {
                    return None;
                }
            }
            start = i + 1;
            i = i + 1;
        } else {
            i = i + 1;
        }
    }
}

} // verus!
