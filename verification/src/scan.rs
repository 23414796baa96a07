//! Byte-level scanning primitives the framing engine is specified with:
//! ASCII trimming, prefix tests, substring search, token removal.

use vstd::prelude::*;
use vstd::string::StringSliceAdditionalSpecFns;

verus! {

/// The UTF-8 bytes of a string, as a fresh vector.
pub fn str_bytes(s: &str) -> (r: Vec<u8>)
    ensures
        r@ == s.spec_bytes(),
{
    vstd::slice::slice_to_vec(s.as_bytes())
}

/// ASCII whitespace: space and the control characters HT, LF, VT, FF, CR.
pub open spec fn is_ws(b: u8) -> bool {
    b == 0x20 || 0x09 <= b && b <= 0x0d
}

/// The sequence with leading whitespace removed.
pub open spec fn trim_start_spec(s: Seq<u8>) -> Seq<u8>
    decreases s.len(),
{
    if s.len() > 0 && is_ws(s[0]) {
        trim_start_spec(s.skip(1))
    } else {
        s
    }
}

/// The sequence with trailing whitespace removed.
pub open spec fn trim_end_spec(s: Seq<u8>) -> Seq<u8>
    decreases s.len(),
{
    if s.len() > 0 && is_ws(s[s.len() - 1]) {
        trim_end_spec(s.take(s.len() - 1))
    } else {
        s
    }
}

/// The sequence with whitespace removed at both ends.
pub open spec fn trim_spec(s: Seq<u8>) -> Seq<u8> {
    trim_end_spec(trim_start_spec(s))
}

pub proof fn lemma_trim_start_at(s: Seq<u8>, i: int)
    requires
        0 <= i <= s.len(),
        forall|k: int| 0 <= k < i ==> is_ws(s[k]),
        i == s.len() || !is_ws(s[i]),
    ensures
        trim_start_spec(s) == s.skip(i),
    decreases i,
{
    if i == 0 {
        assert(s.skip(0) =~= s);
    } else {
        lemma_trim_start_at(s.skip(1), i - 1);
        assert(s.skip(1).skip(i - 1) =~= s.skip(i));
    }
}

pub proof fn lemma_trim_end_at(s: Seq<u8>, j: int)
    requires
        0 <= j <= s.len(),
        forall|k: int| j <= k < s.len() ==> is_ws(s[k]),
        j == 0 || !is_ws(s[j - 1]),
    ensures
        trim_end_spec(s) == s.take(j),
    decreases s.len() - j,
{
    if j == s.len() {
        assert(s.take(j as int) =~= s);
    } else {
        lemma_trim_end_at(s.take(s.len() - 1), j);
        assert(s.take(s.len() - 1).take(j) =~= s.take(j));
    }
}

fn ws(b: u8) -> (r: bool)
    ensures
        r == is_ws(b),
{
    b == 0x20 || 0x09 <= b && b <= 0x0d
}

/// `str::trim` on ASCII text, carried out on the bytes.
pub fn trim_bytes(s: &[u8]) -> (r: Vec<u8>)
    ensures
        r@ == trim_spec(s@),
{
    let mut i: usize = 0;
    while i < s.len() && ws(s[i])
        invariant
            0 <= i <= s@.len(),
            forall|k: int| 0 <= k < i ==> is_ws(s@[k]),
        decreases s@.len() - i,
    {
        i = i + 1;
    }
    proof {
        lemma_trim_start_at(s@, i as int);
    }
    let mut j: usize = s.len();
    while j > i && ws(s[j - 1])
        invariant
            i <= j <= s@.len(),
            forall|k: int| j <= k < s@.len() ==> is_ws(s@[k]),
        decreases j,
    {
        j = j - 1;
    }
    proof {
        lemma_trim_end_at(s@.skip(i as int), j - i);
        assert(s@.skip(i as int).take(j - i) =~= s@.subrange(i as int, j as int));
    }
    let part = vstd::slice::slice_subrange(s, i, j);
    vstd::slice::slice_to_vec(part)
}

/// `str::trim_end` on ASCII text, carried out on the bytes.
pub fn trim_end_bytes(s: &[u8]) -> (r: Vec<u8>)
    ensures
        r@ == trim_end_spec(s@),
{
    let mut j: usize = s.len();
    while j > 0 && ws(s[j - 1])
        invariant
            0 <= j <= s@.len(),
            forall|k: int| j <= k < s@.len() ==> is_ws(s@[k]),
        decreases j,
    {
        j = j - 1;
    }
    proof {
        lemma_trim_end_at(s@, j as int);
        assert(s@.take(j as int) =~= s@.subrange(0, j as int));
    }
    let part = vstd::slice::slice_subrange(s, 0, j);
    vstd::slice::slice_to_vec(part)
}

/// The token `p` occurs in `s` at position `i`.
pub open spec fn matches_at(s: Seq<u8>, i: int, p: Seq<u8>) -> bool {
    0 <= i && i + p.len() <= s.len() && s.subrange(i, i + p.len()) == p
}

/// The token `p` occurs somewhere in `s`.
pub open spec fn contains_tok(s: Seq<u8>, p: Seq<u8>) -> bool {
    exists|i: int| matches_at(s, i, p)
}

pub open spec fn starts_with_spec(s: Seq<u8>, p: Seq<u8>) -> bool {
    matches_at(s, 0, p)
}

pub open spec fn ends_with_spec(s: Seq<u8>, p: Seq<u8>) -> bool {
    p.len() <= s.len() && matches_at(s, s.len() - p.len(), p)
}

fn matches_at_exec(s: &[u8], i: usize, p: &[u8]) -> (r: bool)
    requires
        i <= s@.len(),
    ensures
        r == matches_at(s@, i as int, p@),
{
    if s.len() - i < p.len() {
        return false;
    }
    let n = s.len();
    let mut j: usize = 0;
    while j < p.len()
        invariant
            0 <= j <= p@.len(),
            i + p@.len() <= s@.len(),
            n == s@.len(),
            forall|k: int| 0 <= k < j ==> s@[i + k] == p@[k],
        decreases p@.len() - j,
    {
        if s[i + j] != p[j] {
            proof {
                assert(s@.subrange(i as int, i + p@.len())[j as int] == s@[i + j]);
            }
            return false;
        }
        j = j + 1;
    }
    proof {
        assert(s@.subrange(i as int, i + p@.len()) =~= p@);
    }
    true
}

pub fn starts_with_bytes(s: &[u8], p: &[u8]) -> (r: bool)
    ensures
        r == starts_with_spec(s@, p@),
{
    matches_at_exec(s, 0, p)
}

pub fn ends_with_bytes(s: &[u8], p: &[u8]) -> (r: bool)
    ensures
        r == ends_with_spec(s@, p@),
{
    if p.len() > s.len() {
        return false;
    }
    matches_at_exec(s, s.len() - p.len(), p)
}

/// Substring search, the specification `str::contains` is used under.
pub fn contains_bytes(s: &[u8], p: &[u8]) -> (r: bool)
    ensures
        r == contains_tok(s@, p@),
{
    if p.len() > s.len() {
        return false;
    }
    if p.len() == 0 {
        proof {
            assert(matches_at(s@, 0, p@)) by {
                assert(s@.subrange(0, 0) =~= p@);
            }
        }
        return true;
    }
    let n = s.len();
    let mut i: usize = 0;
    while i <= n - p.len()
        invariant
            0 < p@.len() <= s@.len(),
            n == s@.len(),
            0 <= i <= s@.len() - p@.len() + 1,
            forall|k: int| 0 <= k < i ==> !matches_at(s@, k, p@),
        decreases s@.len() - p@.len() + 1 - i,
    {
        if matches_at_exec(s, i, p) {
            return true;
        }
        i = i + 1;
    }
    false
}

/// Index of the first occurrence of byte `b` in `s`, if any.
pub open spec fn find_byte_spec(s: Seq<u8>, b: u8) -> Option<int>
    decreases s.len(),
{
    if s.len() == 0 {
        None
    } else if s[0] == b {
        Some(0int)
    } else {
        match find_byte_spec(s.skip(1), b) {
            Some(i) => Some(i + 1),
            None => None,
        }
    }
}

pub proof fn lemma_find_byte_at(s: Seq<u8>, b: u8, i: int)
    requires
        0 <= i <= s.len(),
        forall|k: int| 0 <= k < i ==> s[k] != b,
        i == s.len() || s[i] == b,
    ensures
        find_byte_spec(s, b) == if i == s.len() {
            None::<int>
        } else {
            Some(i)
        },
    decreases i,
{
    if i == 0 {
    } else {
        lemma_find_byte_at(s.skip(1), b, i - 1);
    }
}

pub proof fn lemma_find_byte_some(s: Seq<u8>, b: u8)
    ensures
        match find_byte_spec(s, b) {
            Some(i) => 0 <= i < s.len() && s[i] == b,
            None => true,
        },
    decreases s.len(),
{
    if s.len() > 0 && s[0] != b {
        lemma_find_byte_some(s.skip(1), b);
    }
}

pub fn find_byte(s: &[u8], b: u8) -> (r: Option<usize>)
    ensures
        match r {
            Some(i) => i < s@.len() && s@[i as int] == b && find_byte_spec(s@, b) == Some(
                i as int,
            ),
            None => find_byte_spec(s@, b) is None,
        },
{
    let mut i: usize = 0;
    while i < s.len()
        invariant
            0 <= i <= s@.len(),
            forall|k: int| 0 <= k < i ==> s@[k] != b,
        decreases s@.len() - i,
    {
        if s[i] == b {
            proof {
                lemma_find_byte_at(s@, b, i as int);
            }
            return Some(i);
        }
        i = i + 1;
    }
    proof {
        lemma_find_byte_at(s@, b, i as int);
    }
    None
}

/// Every occurrence of the non-empty token `tok` removed from `s`, leftmost
/// first and without rescanning what was joined, as `str::replace(tok, "")`
/// does it.
pub open spec fn remove_tok_spec(s: Seq<u8>, tok: Seq<u8>) -> Seq<u8>
    decreases s.len(),
{
    if tok.len() == 0 || s.len() == 0 {
        s
    } else if matches_at(s, 0, tok) {
        remove_tok_spec(s.skip(tok.len() as int), tok)
    } else {
        seq![s[0]] + remove_tok_spec(s.skip(1), tok)
    }
}

pub fn remove_token(s: &[u8], tok: &[u8]) -> (r: Vec<u8>)
    requires
        tok@.len() > 0,
    ensures
        r@ == remove_tok_spec(s@, tok@),
{
    let mut out: Vec<u8> = Vec::new();
    let mut i: usize = 0;
    proof {
        assert(s@.skip(0) =~= s@);
    }
    while i < s.len()
        invariant
            0 <= i <= s@.len(),
            tok@.len() > 0,
            remove_tok_spec(s@, tok@) == out@ + remove_tok_spec(s@.skip(i as int), tok@),
        decreases s@.len() - i,
    {
        if matches_at_exec(s, i, tok) {
            proof {
                assert(s@.skip(i as int).subrange(0, tok@.len() as int) =~= s@.subrange(
                    i as int,
                    i + tok@.len(),
                ));
                assert(matches_at(s@.skip(i as int), 0, tok@));
                assert(s@.skip(i as int).skip(tok@.len() as int) =~= s@.skip(
                    i + tok@.len(),
                ));
            }
            i = i + tok.len();
        } else {
            proof {
                if matches_at(s@.skip(i as int), 0, tok@) {
                    assert(s@.skip(i as int).subrange(0, tok@.len() as int) =~= s@.subrange(
                        i as int,
                        i + tok@.len(),
                    ));
                }
                assert(s@.skip(i as int)[0] == s@[i as int]);
                assert(s@.skip(i as int).skip(1) =~= s@.skip(i + 1));
                assert((out@ + remove_tok_spec(s@.skip(i as int), tok@)) =~= (out@.push(
                    s@[i as int],
                ) + remove_tok_spec(s@.skip(i + 1), tok@)));
            }
            out.push(s[i]);
            i = i + 1;
        }
    }
    proof {
        assert(s@.skip(i as int) =~= Seq::<u8>::empty());
        assert(out@ + remove_tok_spec(s@.skip(i as int), tok@) =~= out@);
    }
    out
}

/// Occurrences in a suffix are occurrences in the whole, shifted.
pub proof fn lemma_matches_at_skip(s: Seq<u8>, n: int, i: int, p: Seq<u8>)
    requires
        0 <= n <= s.len(),
    ensures
        matches_at(s.skip(n), i, p) <==> (0 <= i && matches_at(s, i + n, p)),
{
    if 0 <= i && i + p.len() <= s.len() - n {
        assert(s.skip(n).subrange(i, i + p.len()) =~= s.subrange(i + n, i + n + p.len()));
    }
}

/// Removing a token leaves a prefix alone when no occurrence of the token
/// begins inside that prefix.
pub proof fn lemma_remove_skips_clean_prefix(a: Seq<u8>, b: Seq<u8>, tok: Seq<u8>)
    requires
        tok.len() > 0,
        forall|i: int| 0 <= i < a.len() ==> !matches_at(a + b, i, tok),
    ensures
        remove_tok_spec(a + b, tok) == a + remove_tok_spec(b, tok),
    decreases a.len(),
{
    if a.len() == 0 {
        assert(a + b =~= b);
        assert(a + remove_tok_spec(b, tok) =~= remove_tok_spec(b, tok));
    } else {
        let s = a + b;
        assert(!matches_at(s, 0, tok));
        assert(s.skip(1) =~= a.skip(1) + b);
        assert forall|i: int| 0 <= i < a.skip(1).len() implies !matches_at(
            a.skip(1) + b,
            i,
            tok,
        ) by {
            lemma_matches_at_skip(s, 1, i, tok);
        }
        lemma_remove_skips_clean_prefix(a.skip(1), b, tok);
        assert(seq![s[0]] + (a.skip(1) + remove_tok_spec(b, tok)) =~= a + remove_tok_spec(
            b,
            tok,
        ));
    }
}

/// Removing a token that occurs nowhere changes nothing.
pub proof fn lemma_remove_absent(s: Seq<u8>, tok: Seq<u8>)
    requires
        tok.len() > 0,
        forall|i: int| !matches_at(s, i, tok),
    ensures
        remove_tok_spec(s, tok) == s,
    decreases s.len(),
{
    if s.len() == 0 {
    } else {
        assert(!matches_at(s, 0, tok));
        assert forall|i: int| !matches_at(s.skip(1), i, tok) by {
            if 0 <= i {
                lemma_matches_at_skip(s, 1, i, tok);
            }
        }
        lemma_remove_absent(s.skip(1), tok);
        assert(seq![s[0]] + s.skip(1) =~= s);
    }
}

/// Removing a token cannot destroy an occurrence of a text that shares no
/// byte with the token.
pub proof fn lemma_remove_keeps_disjoint_token(s: Seq<u8>, tok: Seq<u8>, m: Seq<u8>)
    requires
        tok.len() > 0,
        m.len() > 0,
        contains_tok(s, m),
        forall|x: int, y: int| 0 <= x < tok.len() && 0 <= y < m.len() ==> tok[x] != m[y],
    ensures
        contains_tok(remove_tok_spec(s, tok), m),
    decreases s.len(),
{
    let p = choose|p: int| matches_at(s, p, m);
    assert(s.len() > 0);
    if matches_at(s, 0, tok) {
        assert(p >= tok.len()) by {
            if p < tok.len() {
                assert(s.subrange(p, p + m.len())[0] == s[p]);
                assert(s.subrange(0, tok.len() as int)[p] == s[p]);
                assert(false);
            }
        }
        lemma_matches_at_skip(s, tok.len() as int, p - tok.len(), m);
        assert(matches_at(s.skip(tok.len() as int), p - tok.len(), m));
        lemma_remove_keeps_disjoint_token(s.skip(tok.len() as int), tok, m);
    } else if p == 0 {
        assert forall|i: int| 0 <= i < m.len() implies !matches_at(s, i, tok) by {
            if matches_at(s, i, tok) {
                assert(s.subrange(i, i + tok.len())[0] == s[i]);
                assert(s.subrange(0, m.len() as int)[i] == s[i]);
                assert(false);
            }
        }
        assert(s =~= m + s.skip(m.len() as int));
        lemma_remove_skips_clean_prefix(m, s.skip(m.len() as int), tok);
        let rest = remove_tok_spec(s.skip(m.len() as int), tok);
        assert(matches_at(m + rest, 0, m)) by {
            assert((m + rest).subrange(0, m.len() as int) =~= m);
        }
    } else {
        lemma_matches_at_skip(s, 1, p - 1, m);
        assert(matches_at(s.skip(1), p - 1, m));
        lemma_remove_keeps_disjoint_token(s.skip(1), tok, m);
        let rest = remove_tok_spec(s.skip(1), tok);
        let q = choose|q: int| matches_at(rest, q, m);
        assert(matches_at(seq![s[0]] + rest, q + 1, m)) by {
            assert((seq![s[0]] + rest).subrange(q + 1, q + 1 + m.len()) =~= rest.subrange(
                q,
                q + m.len(),
            ));
        }
    }
}

/// Trimming the front cannot destroy an occurrence of whitespace-free text.
pub proof fn lemma_trim_start_keeps_token(s: Seq<u8>, m: Seq<u8>)
    requires
        m.len() > 0,
        contains_tok(s, m),
        forall|j: int| 0 <= j < m.len() ==> !is_ws(m[j]),
    ensures
        contains_tok(trim_start_spec(s), m),
    decreases s.len(),
{
    let p = choose|p: int| matches_at(s, p, m);
    if s.len() > 0 && is_ws(s[0]) {
        assert(p >= 1) by {
            if p == 0 {
                assert(s.subrange(0, m.len() as int)[0] == s[0]);
                assert(false);
            }
        }
        lemma_matches_at_skip(s, 1, p - 1, m);
        assert(matches_at(s.skip(1), p - 1, m));
        lemma_trim_start_keeps_token(s.skip(1), m);
    }
}

/// Trimming the back cannot destroy an occurrence of whitespace-free text.
pub proof fn lemma_trim_end_keeps_token(s: Seq<u8>, m: Seq<u8>)
    requires
        m.len() > 0,
        contains_tok(s, m),
        forall|j: int| 0 <= j < m.len() ==> !is_ws(m[j]),
    ensures
        contains_tok(trim_end_spec(s), m),
    decreases s.len(),
{
    let p = choose|p: int| matches_at(s, p, m);
    if s.len() > 0 && is_ws(s[s.len() - 1]) {
        assert(p + m.len() < s.len()) by {
            if p + m.len() == s.len() {
                assert(s.subrange(p, p + m.len())[m.len() - 1] == s[s.len() - 1]);
                assert(false);
            }
        }
        assert(matches_at(s.take(s.len() - 1), p, m)) by {
            assert(s.take(s.len() - 1).subrange(p, p + m.len()) =~= s.subrange(p, p + m.len()));
        }
        lemma_trim_end_keeps_token(s.take(s.len() - 1), m);
    }
}

/// Trimming cannot destroy an occurrence of whitespace-free text.
pub proof fn lemma_trim_keeps_token(s: Seq<u8>, m: Seq<u8>)
    requires
        m.len() > 0,
        contains_tok(s, m),
        forall|j: int| 0 <= j < m.len() ==> !is_ws(m[j]),
    ensures
        contains_tok(trim_spec(s), m),
{
    lemma_trim_start_keeps_token(s, m);
    lemma_trim_end_keeps_token(trim_start_spec(s), m);
}

pub proof fn lemma_trim_start_len(s: Seq<u8>)
    ensures
        trim_start_spec(s).len() <= s.len(),
    decreases s.len(),
{
    if s.len() > 0 && is_ws(s[0]) {
        lemma_trim_start_len(s.skip(1));
    }
}

pub proof fn lemma_trim_end_len(s: Seq<u8>)
    ensures
        trim_end_spec(s).len() <= s.len(),
    decreases s.len(),
{
    if s.len() > 0 && is_ws(s[s.len() - 1]) {
        lemma_trim_end_len(s.take(s.len() - 1));
    }
}

/// A non-empty fixpoint of trimming is whitespace-free at both ends.
pub proof fn lemma_trimmed_ends(s: Seq<u8>)
    requires
        trim_spec(s) == s,
        s.len() > 0,
    ensures
        !is_ws(s[0]),
        !is_ws(s[s.len() - 1]),
{
    if is_ws(s[0]) {
        lemma_trim_start_len(s.skip(1));
        lemma_trim_end_len(trim_start_spec(s));
        assert(false);
    }
    if is_ws(s[s.len() - 1]) {
        lemma_trim_end_len(s.take(s.len() - 1));
        assert(false);
    }
}

/// The two slices joined into a fresh vector.
pub fn concat_bytes(a: &[u8], b: &[u8]) -> (r: Vec<u8>)
    ensures
        r@ == a@ + b@,
{
    let mut out = vstd::slice::slice_to_vec(a);
    let mut i: usize = 0;
    while i < b.len()
        invariant
            0 <= i <= b@.len(),
            out@ == a@ + b@.take(i as int),
        decreases b@.len() - i,
    {
        out.push(b[i]);
        proof {
            assert(a@ + b@.take(i + 1) =~= (a@ + b@.take(i as int)).push(b@[i as int]));
        }
        i = i + 1;
    }
    proof {
        assert(b@.take(i as int) =~= b@);
    }
    out
}

/// The suffix of `s` from position `i` on, as a fresh vector.
pub fn tail_from(s: &[u8], i: usize) -> (r: Vec<u8>)
    requires
        i <= s@.len(),
    ensures
        r@ == s@.skip(i as int),
{
    let part = vstd::slice::slice_subrange(s, i, s.len());
    proof {
        assert(s@.subrange(i as int, s@.len() as int) =~= s@.skip(i as int));
    }
    vstd::slice::slice_to_vec(part)
}

} // verus!
