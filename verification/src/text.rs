//! Character-level scanning primitives for the configuration and time-of-day
//! parsers: trimming, prefix tests, splitting, token removal, digit parsing.

use vstd::prelude::*;
use vstd::string::StrSliceExecFns;
use vstd::string::StringExecFns;

verus! {

/// ASCII whitespace among characters: space and the control characters
/// HT, LF, VT, FF, CR.
pub open spec fn is_ws_char(c: char) -> bool {
    c == ' ' || c == '\t' || c == '\n' || c == '\u{b}' || c == '\u{c}' || c == '\r'
}

pub open spec fn trim_start_chars(s: Seq<char>) -> Seq<char>
    decreases s.len(),
{
    if s.len() > 0 && is_ws_char(s[0]) {
        trim_start_chars(s.skip(1))
    } else {
        s
    }
}

pub open spec fn trim_end_chars(s: Seq<char>) -> Seq<char>
    decreases s.len(),
{
    if s.len() > 0 && is_ws_char(s[s.len() - 1]) {
        trim_end_chars(s.take(s.len() - 1))
    } else {
        s
    }
}

/// The text with whitespace removed at both ends.
pub open spec fn trim_chars(s: Seq<char>) -> Seq<char> {
    trim_end_chars(trim_start_chars(s))
}

pub proof fn lemma_trim_start_chars_at(s: Seq<char>, i: int)
    requires
        0 <= i <= s.len(),
        forall|k: int| 0 <= k < i ==> is_ws_char(s[k]),
        i == s.len() || !is_ws_char(s[i]),
    ensures
        trim_start_chars(s) == s.skip(i),
    decreases i,
{
    if i == 0 {
        assert(s.skip(0) =~= s);
    } else {
        lemma_trim_start_chars_at(s.skip(1), i - 1);
        assert(s.skip(1).skip(i - 1) =~= s.skip(i));
    }
}

pub proof fn lemma_trim_end_chars_at(s: Seq<char>, j: int)
    requires
        0 <= j <= s.len(),
        forall|k: int| j <= k < s.len() ==> is_ws_char(s[k]),
        j == 0 || !is_ws_char(s[j - 1]),
    ensures
        trim_end_chars(s) == s.take(j),
    decreases s.len() - j,
{
    if j == s.len() {
        assert(s.take(j as int) =~= s);
    } else {
        lemma_trim_end_chars_at(s.take(s.len() - 1), j);
        assert(s.take(s.len() - 1).take(j) =~= s.take(j));
    }
}

fn ws_char(c: char) -> (r: bool)
    ensures
        r == is_ws_char(c),
{
    c == ' ' || c == '\t' || c == '\n' || c == '\u{b}' || c == '\u{c}' || c == '\r'
}

/// `str::trim`, restricted to ASCII whitespace.
pub fn trim_text(s: &str) -> (r: String)
    ensures
        r@ == trim_chars(s@),
{
    let n = s.unicode_len();
    let mut i: usize = 0;
    while i < n && ws_char(s.get_char(i))
        invariant
            0 <= i <= s@.len(),
            n == s@.len(),
            forall|k: int| 0 <= k < i ==> is_ws_char(s@[k]),
        decreases s@.len() - i,
    {
        i = i + 1;
    }
    proof {
        lemma_trim_start_chars_at(s@, i as int);
    }
    let mut j: usize = n;
    while j > i && ws_char(s.get_char(j - 1))
        invariant
            i <= j <= s@.len(),
            n == s@.len(),
            forall|k: int| j <= k < s@.len() ==> is_ws_char(s@[k]),
        decreases j,
    {
        j = j - 1;
    }
    proof {
        lemma_trim_end_chars_at(s@.skip(i as int), j - i);
        assert(s@.skip(i as int).take(j - i) =~= s@.subrange(i as int, j as int));
    }
    String::from_str(s.substring_char(i, j))
}

/// Index of the first occurrence of `c` in `s`, if any.
pub open spec fn find_char_spec(s: Seq<char>, c: char) -> Option<int>
    decreases s.len(),
{
    if s.len() == 0 {
        None
    } else if s[0] == c {
        Some(0int)
    } else {
        match find_char_spec(s.skip(1), c) {
            Some(i) => Some(i + 1),
            None => None,
        }
    }
}

pub proof fn lemma_find_char_at(s: Seq<char>, c: char, i: int)
    requires
        0 <= i <= s.len(),
        forall|k: int| 0 <= k < i ==> s[k] != c,
        i == s.len() || s[i] == c,
    ensures
        find_char_spec(s, c) == if i == s.len() {
            None::<int>
        } else {
            Some(i)
        },
    decreases i,
{
    if i == 0 {
    } else {
        lemma_find_char_at(s.skip(1), c, i - 1);
    }
}

pub fn find_char(s: &str, c: char) -> (r: Option<usize>)
    ensures
        match r {
            Some(i) => i < s@.len() && s@[i as int] == c && find_char_spec(s@, c) == Some(
                i as int,
            ),
            None => find_char_spec(s@, c) is None,
        },
{
    let n = s.unicode_len();
    let mut i: usize = 0;
    while i < n
        invariant
            0 <= i <= s@.len(),
            n == s@.len(),
            forall|k: int| 0 <= k < i ==> s@[k] != c,
        decreases s@.len() - i,
    {
        if s.get_char(i) == c {
            proof {
                lemma_find_char_at(s@, c, i as int);
            }
            return Some(i);
        }
        i = i + 1;
    }
    proof {
        lemma_find_char_at(s@, c, i as int);
    }
    None
}

pub open spec fn matches_at_chars(s: Seq<char>, i: int, p: Seq<char>) -> bool {
    0 <= i && i + p.len() <= s.len() && s.subrange(i, i + p.len()) == p
}

pub open spec fn starts_with_chars(s: Seq<char>, p: Seq<char>) -> bool {
    matches_at_chars(s, 0, p)
}

fn matches_at_text(s: &str, i: usize, p: &str) -> (r: bool)
    requires
        i <= s@.len(),
    ensures
        r == matches_at_chars(s@, i as int, p@),
{
    let n = s.unicode_len();
    let m = p.unicode_len();
    if n - i < m {
        return false;
    }
    let mut j: usize = 0;
    while j < m
        invariant
            0 <= j <= p@.len(),
            i + p@.len() <= s@.len(),
            n == s@.len(),
            m == p@.len(),
            forall|k: int| 0 <= k < j ==> s@[i + k] == p@[k],
        decreases p@.len() - j,
    {
        if s.get_char(i + j) != p.get_char(j) {
            proof {
                assert(s@.subrange(i as int, i + p@.len())[j as int] == s@[i + j]);
            }
            return false;
        }
        j = j + 1;
    }
    proof {
        assert(s@.subrange(i as int, i + p@.len()) =~= p@);
    }
    true
}

pub fn starts_with_text(s: &str, p: &str) -> (r: bool)
    ensures
        r == starts_with_chars(s@, p@),
{
    matches_at_text(s, 0, p)
}

/// Every occurrence of the non-empty token `tok` removed, leftmost first and
/// without rescanning, as `str::replace(tok, "")` does it.
pub open spec fn remove_tok_chars(s: Seq<char>, tok: Seq<char>) -> Seq<char>
    decreases s.len(),
{
    if tok.len() == 0 || s.len() == 0 {
        s
    } else if matches_at_chars(s, 0, tok) {
        remove_tok_chars(s.skip(tok.len() as int), tok)
    } else {
        seq![s[0]] + remove_tok_chars(s.skip(1), tok)
    }
}

pub fn remove_token_text(s: &str, tok: &str) -> (r: String)
    requires
        tok@.len() > 0,
    ensures
        r@ == remove_tok_chars(s@, tok@),
{
    let n = s.unicode_len();
    let m = tok.unicode_len();
    let mut out = String::new();
    let mut i: usize = 0;
    proof {
        assert(s@.skip(0) =~= s@);
    }
    while i < n
        invariant
            0 <= i <= s@.len(),
            n == s@.len(),
            m == tok@.len(),
            tok@.len() > 0,
            remove_tok_chars(s@, tok@) == out@ + remove_tok_chars(s@.skip(i as int), tok@),
        decreases s@.len() - i,
    {
        if matches_at_text(s, i, tok) {
            proof {
                assert(s@.skip(i as int).subrange(0, tok@.len() as int) =~= s@.subrange(
                    i as int,
                    i + tok@.len(),
                ));
                assert(matches_at_chars(s@.skip(i as int), 0, tok@));
                assert(s@.skip(i as int).skip(tok@.len() as int) =~= s@.skip(i + tok@.len()));
            }
            i = i + m;
        } else {
            proof {
                if matches_at_chars(s@.skip(i as int), 0, tok@) {
                    assert(s@.skip(i as int).subrange(0, tok@.len() as int) =~= s@.subrange(
                        i as int,
                        i + tok@.len(),
                    ));
                }
                assert(s@.skip(i as int)[0] == s@[i as int]);
                assert(s@.skip(i as int).skip(1) =~= s@.skip(i + 1));
                assert(s@.subrange(i as int, i + 1) =~= seq![s@[i as int]]);
                assert((out@ + remove_tok_chars(s@.skip(i as int), tok@)) =~= ((out@ + seq![
                    s@[i as int],
                ]) + remove_tok_chars(s@.skip(i + 1), tok@)));
            }
            out.append(s.substring_char(i, i + 1));
            i = i + 1;
        }
    }
    proof {
        assert(s@.skip(i as int) =~= Seq::<char>::empty());
        assert(out@ + remove_tok_chars(s@.skip(i as int), tok@) =~= out@);
    }
    out
}

pub proof fn lemma_find_char_some(s: Seq<char>, c: char)
    ensures
        match find_char_spec(s, c) {
            Some(i) => 0 <= i < s.len() && s[i] == c,
            None => true,
        },
    decreases s.len(),
{
    if s.len() > 0 && s[0] != c {
        lemma_find_char_some(s.skip(1), c);
    }
}

/// One trailing carriage return removed, as `str::lines` does per line.
pub open spec fn strip_cr_chars(s: Seq<char>) -> Seq<char> {
    if s.len() > 0 && s[s.len() - 1] == '\r' {
        s.take(s.len() - 1)
    } else {
        s
    }
}

/// The text split at line feeds, one trailing carriage return dropped from
/// each line; a final empty piece after a trailing line feed does not count.
/// These are the semantics of `str::lines`.
pub open spec fn split_lines_chars(s: Seq<char>) -> Seq<Seq<char>>
    decreases s.len(),
    via split_lines_chars_dec
{
    if s.len() == 0 {
        Seq::empty()
    } else {
        match find_char_spec(s, '\n') {
            Some(p) => seq![strip_cr_chars(s.take(p))] + split_lines_chars(s.skip(p + 1)),
            None => seq![strip_cr_chars(s)],
        }
    }
}

#[via_fn]
proof fn split_lines_chars_dec(s: Seq<char>) {
    lemma_find_char_some(s, '\n');
}

/// One piece of the text, ending before position `upto`, stripped of a
/// trailing carriage return.
fn piece_without_cr(s: &str, from: usize, upto: usize) -> (r: String)
    requires
        from <= upto <= s@.len(),
    ensures
        r@ == strip_cr_chars(s@.subrange(from as int, upto as int)),
{
    let end: usize = if upto > from && s.get_char(upto - 1) == '\r' {
        upto - 1
    } else {
        upto
    };
    proof {
        if from < upto && s@[upto - 1] == '\r' {
            assert(s@.subrange(from as int, upto as int).take(upto - 1 - from) =~= s@.subrange(
                from as int,
                upto - 1,
            ));
        }
    }
    String::from_str(s.substring_char(from, end))
}

/// `str::lines`, each line a fresh string.
pub fn split_lines_text(s: &str) -> (r: Vec<String>)
    ensures
        r.deep_view() == split_lines_chars(s@),
{
    let n = s.unicode_len();
    let mut out: Vec<String> = Vec::new();
    let mut i: usize = 0;
    proof {
        assert(s@.skip(0) =~= s@);
        assert(out.deep_view() =~= Seq::<Seq<char>>::empty());
    }
    while i < n
        invariant
            0 <= i <= n,
            n == s@.len(),
            split_lines_chars(s@) =~~= out.deep_view() + split_lines_chars(s@.skip(i as int)),
        decreases n - i,
    {
        let rest = s.substring_char(i, n);
        proof {
            assert(rest@ =~= s@.skip(i as int));
        }
        match find_char(rest, '\n') {
            Some(p) => {
                let line = piece_without_cr(s, i, i + p);
                let ghost prev = out.deep_view();
                proof {
                    assert(s@.skip(i as int).take(p as int) =~= s@.subrange(i as int, i + p));
                    assert(s@.skip(i as int).skip(p + 1) =~= s@.skip(i + p + 1));
                }
                out.push(line);
                proof {
                    assert(out.deep_view() =~~= prev.push(line@));
                    assert(prev.push(line@) + split_lines_chars(s@.skip(i + p + 1)) =~~= prev + (
                    seq![line@] + split_lines_chars(s@.skip(i + p + 1))));
                }
                i = i + p + 1;
            },
            None => {
                let line = piece_without_cr(s, i, n);
                let ghost prev = out.deep_view();
                proof {
                    assert(s@.subrange(i as int, n as int) =~= s@.skip(i as int));
                }
                out.push(line);
                proof {
                    assert(out.deep_view() =~~= prev.push(line@));
                    assert(prev.push(line@) =~~= prev + seq![line@]);
                }
                i = n;
            },
        }
    }
    proof {
        assert(s@.skip(i as int) =~= Seq::<char>::empty());
        assert(out.deep_view() + split_lines_chars(s@.skip(i as int)) =~~= out.deep_view());
    }
    out
}

/// A quote character, as the configuration tool wraps values in.
pub open spec fn is_quote_char(c: char) -> bool {
    c == '\'' || c == '"'
}

pub open spec fn unquote_start_chars(s: Seq<char>) -> Seq<char>
    decreases s.len(),
{
    if s.len() > 0 && is_quote_char(s[0]) {
        unquote_start_chars(s.skip(1))
    } else {
        s
    }
}

pub open spec fn unquote_end_chars(s: Seq<char>) -> Seq<char>
    decreases s.len(),
{
    if s.len() > 0 && is_quote_char(s[s.len() - 1]) {
        unquote_end_chars(s.take(s.len() - 1))
    } else {
        s
    }
}

/// Quote characters removed from both ends, as `str::trim_matches` does.
pub open spec fn unquote_chars(s: Seq<char>) -> Seq<char> {
    unquote_end_chars(unquote_start_chars(s))
}

pub proof fn lemma_unquote_start_chars_at(s: Seq<char>, i: int)
    requires
        0 <= i <= s.len(),
        forall|k: int| 0 <= k < i ==> is_quote_char(s[k]),
        i == s.len() || !is_quote_char(s[i]),
    ensures
        unquote_start_chars(s) == s.skip(i),
    decreases i,
{
    if i == 0 {
        assert(s.skip(0) =~= s);
    } else {
        lemma_unquote_start_chars_at(s.skip(1), i - 1);
        assert(s.skip(1).skip(i - 1) =~= s.skip(i));
    }
}

pub proof fn lemma_unquote_end_chars_at(s: Seq<char>, j: int)
    requires
        0 <= j <= s.len(),
        forall|k: int| j <= k < s.len() ==> is_quote_char(s[k]),
        j == 0 || !is_quote_char(s[j - 1]),
    ensures
        unquote_end_chars(s) == s.take(j),
    decreases s.len() - j,
{
    if j == s.len() {
        assert(s.take(j as int) =~= s);
    } else {
        lemma_unquote_end_chars_at(s.take(s.len() - 1), j);
        assert(s.take(s.len() - 1).take(j) =~= s.take(j));
    }
}

fn quote_char(c: char) -> (r: bool)
    ensures
        r == is_quote_char(c),
{
    c == '\'' || c == '"'
}

/// `str::trim_matches` with the two quote characters.
pub fn unquote_text(s: &str) -> (r: String)
    ensures
        r@ == unquote_chars(s@),
{
    let n = s.unicode_len();
    let mut i: usize = 0;
    while i < n && quote_char(s.get_char(i))
        invariant
            0 <= i <= s@.len(),
            n == s@.len(),
            forall|k: int| 0 <= k < i ==> is_quote_char(s@[k]),
        decreases s@.len() - i,
    {
        i = i + 1;
    }
    proof {
        lemma_unquote_start_chars_at(s@, i as int);
    }
    let mut j: usize = n;
    while j > i && quote_char(s.get_char(j - 1))
        invariant
            i <= j <= s@.len(),
            n == s@.len(),
            forall|k: int| j <= k < s@.len() ==> is_quote_char(s@[k]),
        decreases j,
    {
        j = j - 1;
    }
    proof {
        lemma_unquote_end_chars_at(s@.skip(i as int), j - i);
        assert(s@.skip(i as int).take(j - i) =~= s@.subrange(i as int, j as int));
    }
    String::from_str(s.substring_char(i, j))
}

/// A decimal digit.
pub open spec fn is_digit_char(c: char) -> bool {
    '0' <= c && c <= '9'
}

pub open spec fn all_digit_chars(s: Seq<char>) -> bool {
    forall|k: int| 0 <= k < s.len() ==> is_digit_char(s[k])
}

/// The number the digit text denotes.
pub open spec fn digits_value_chars(s: Seq<char>) -> int
    decreases s.len(),
{
    if s.len() == 0 {
        0
    } else {
        digits_value_chars(s.drop_last()) * 10 + (s.last() as int - '0' as int)
    }
}

pub proof fn lemma_digits_value_nonneg(s: Seq<char>)
    requires
        all_digit_chars(s),
    ensures
        digits_value_chars(s) >= 0,
    decreases s.len(),
{
    if s.len() > 0 {
        lemma_digits_value_nonneg(s.drop_last());
    }
}

/// A digit text's value never shrinks as digits are appended.
pub proof fn lemma_digits_value_monotone(s: Seq<char>, i: int)
    requires
        all_digit_chars(s),
        0 <= i <= s.len(),
    ensures
        digits_value_chars(s.take(i)) <= digits_value_chars(s),
    decreases s.len() - i,
{
    if i == s.len() {
        assert(s.take(i) =~= s);
    } else {
        assert(s.take(s.len() - 1).take(i) =~= s.take(i));
        lemma_digits_value_monotone(s.take(s.len() - 1), i);
        assert(s.drop_last() =~= s.take(s.len() - 1));
        lemma_digits_value_nonneg(s.drop_last());
    }
}

/// `str::parse` for an unsigned integer type with maximum `max`: an optional
/// leading plus sign, then one or more digits and nothing else, denoting a
/// value within range.
pub open spec fn parse_uint_chars(s: Seq<char>, max: int) -> Option<int> {
    let d = if s.len() > 0 && s[0] == '+' {
        s.skip(1)
    } else {
        s
    };
    if d.len() > 0 && all_digit_chars(d) && digits_value_chars(d) <= max {
        Some(digits_value_chars(d))
    } else {
        None
    }
}

/// `str::parse` for unsigned integers, up to the given maximum.
pub fn parse_uint_text(s: &str, max: u64) -> (r: Option<u64>)
    ensures
        match r {
            Some(v) => v <= max && parse_uint_chars(s@, max as int) == Some(v as int),
            None => parse_uint_chars(s@, max as int) is None,
        },
{
    let n = s.unicode_len();
    let start: usize = if n > 0 && s.get_char(0) == '+' {
        1
    } else {
        0
    };
    let ghost d = if s@.len() > 0 && s@[0] == '+' {
        s@.skip(1)
    } else {
        s@
    };
    proof {
        assert(d =~= s@.subrange(start as int, n as int));
    }
    if n == start {
        return None;
    }
    let mut acc: u64 = 0;
    let mut i: usize = start;
    proof {
        assert(d.take(0) =~= Seq::<char>::empty());
    }
    while i < n
        invariant
            start <= i <= n,
            n == s@.len(),
            start <= 1,
            d == (if s@.len() > 0 && s@[0] == '+' {
                s@.skip(1)
            } else {
                s@
            }),
            d =~= s@.subrange(start as int, n as int),
            all_digit_chars(d.take(i - start)),
            acc <= max,
            acc as int == digits_value_chars(d.take(i - start)),
        decreases n - i,
    {
        let c = s.get_char(i);
        if c < '0' || c > '9' {
            proof {
                assert(d[i - start] == s@[i as int]);
                assert(!is_digit_char(d[i - start]));
                assert(!all_digit_chars(d));
            }
            return None;
        }
        let digit: u64 = (c as u32 as u64) - 48;
        proof {
            assert(d.take(i + 1 - start).drop_last() =~= d.take(i - start));
            assert(d.take(i + 1 - start).last() == s@[i as int]);
        }
        let wide: u128 = (acc as u128) * 10 + (digit as u128);
        if wide > max as u128 {
            proof {
                assert(all_digit_chars(d.take(i + 1 - start)));
                assert(digits_value_chars(d.take(i + 1 - start)) == wide as int);
                if all_digit_chars(d) {
                    lemma_digits_value_monotone(d, i + 1 - start);
                }
            }
            return None;
        }
        acc = wide as u64;
        i = i + 1;
    }
    proof {
        assert(d.take(i - start) =~= d);
    }
    Some(acc)
}

} // verus!
