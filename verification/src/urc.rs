//! Classification of unsolicited result codes (URCs): the reader task splits
//! what the transport hands back into lines and publishes every line that
//! looks like a notification — non-empty after trimming, free of keep-alive
//! noise, and carrying a vendor (`^`) or standard (`+`) report marker.

use vstd::prelude::*;

use crate::engine::ping_tok;
use crate::scan::contains_bytes;
use crate::scan::contains_tok;
use crate::scan::find_byte;
use crate::scan::find_byte_spec;
use crate::scan::lemma_find_byte_some;
use crate::scan::trim_bytes;
use crate::scan::trim_spec;

verus! {

/// One trailing carriage return removed, as line splitting does per line.
pub open spec fn strip_cr_spec(s: Seq<u8>) -> Seq<u8> {
    if s.len() > 0 && s[s.len() - 1] == 13u8 {
        s.take(s.len() - 1)
    } else {
        s
    }
}

/// The bytes split at line feeds, one trailing carriage return dropped from
/// each line; a final empty piece after a trailing line feed does not count.
/// These are the semantics of `str::lines`, carried out on bytes.
pub open spec fn split_lines_spec(s: Seq<u8>) -> Seq<Seq<u8>>
    decreases s.len(),
    via split_lines_spec_dec
{
    if s.len() == 0 {
        Seq::empty()
    } else {
        match find_byte_spec(s, 10u8) {
            Some(p) => seq![strip_cr_spec(s.take(p))] + split_lines_spec(s.skip(p + 1)),
            None => seq![strip_cr_spec(s)],
        }
    }
}

#[via_fn]
proof fn split_lines_spec_dec(s: Seq<u8>) {
    lemma_find_byte_some(s, 10u8);
}

/// One piece of the bytes, ending before `upto`, stripped of a trailing
/// carriage return.
fn piece_without_cr(s: &[u8], from: usize, upto: usize) -> (r: Vec<u8>)
    requires
        from <= upto <= s@.len(),
    ensures
        r@ == strip_cr_spec(s@.subrange(from as int, upto as int)),
{
    let end: usize = if upto > from && s[upto - 1] == 13 {
        upto - 1
    } else {
        upto
    };
    proof {
        if from < upto && s@[upto - 1] == 13u8 {
            assert(s@.subrange(from as int, upto as int).take(upto - 1 - from) =~= s@.subrange(
                from as int,
                upto - 1,
            ));
        }
    }
    let part = vstd::slice::slice_subrange(s, from, end);
    vstd::slice::slice_to_vec(part)
}

/// The bytes split into lines, as `str::lines` would split the text.
pub fn split_lines(s: &[u8]) -> (r: Vec<Vec<u8>>)
    ensures
        r.deep_view() == split_lines_spec(s@),
{
    let n = s.len();
    let mut out: Vec<Vec<u8>> = Vec::new();
    let mut i: usize = 0;
    proof {
        assert(s@.skip(0) =~= s@);
        assert(out.deep_view() =~= Seq::<Seq<u8>>::empty());
    }
    while i < n
        invariant
            0 <= i <= n,
            n == s@.len(),
            split_lines_spec(s@) =~~= out.deep_view() + split_lines_spec(s@.skip(i as int)),
        decreases n - i,
    {
        let rest = vstd::slice::slice_subrange(s, i, n);
        proof {
            assert(rest@ =~= s@.skip(i as int));
        }
        match find_byte(rest, 10) {
            Some(p) => {
                let line = piece_without_cr(s, i, i + p);
                let ghost prev = out.deep_view();
                proof {
                    assert(s@.skip(i as int).take(p as int) =~= s@.subrange(i as int, i + p));
                    assert(s@.skip(i as int).skip(p + 1) =~= s@.skip(i + p + 1));
                }
                out.push(line);
                proof {
                    assert(out.deep_view() =~~= prev.push(line@));
                    assert(prev.push(line@) + split_lines_spec(s@.skip(i + p + 1)) =~~= prev + (
                    seq![line@] + split_lines_spec(s@.skip(i + p + 1))));
                }
                i = i + p + 1;
            },
            None => {
                let line = piece_without_cr(s, i, n);
                let ghost prev = out.deep_view();
                proof {
                    assert(s@.subrange(i as int, n as int) =~= s@.skip(i as int));
                }
                out.push(line);
                proof {
                    assert(out.deep_view() =~~= prev.push(line@));
                    assert(prev.push(line@) =~~= prev + seq![line@]);
                }
                i = n;
            },
        }
    }
    proof {
        assert(s@.skip(i as int) =~= Seq::<u8>::empty());
        assert(out.deep_view() + split_lines_spec(s@.skip(i as int)) =~~= out.deep_view());
    }
    out
}

/// ASCII lowercase of one byte.
pub open spec fn lower_byte(b: u8) -> u8 {
    if 65 <= b && b <= 90 {
        (b + 32) as u8
    } else {
        b
    }
}

/// ASCII lowercase of the whole text, the case-blind keep-alive check works
/// on.
pub open spec fn lower_spec(s: Seq<u8>) -> Seq<u8> {
    s.map_values(|b: u8| lower_byte(b))
}

pub fn to_ascii_lower(s: &[u8]) -> (r: Vec<u8>)
    ensures
        r@ == lower_spec(s@),
{
    let mut out: Vec<u8> = Vec::new();
    let mut i: usize = 0;
    while i < s.len()
        invariant
            0 <= i <= s@.len(),
            out@ =~= s@.take(i as int).map_values(|b: u8| lower_byte(b)),
        decreases s@.len() - i,
    {
        let b = s[i];
        if 65 <= b && b <= 90 {
            out.push(b + 32);
        } else {
            out.push(b);
        }
        proof {
            assert(s@.take(i + 1).map_values(|b: u8| lower_byte(b)) =~= s@.take(
                i as int,
            ).map_values(|b: u8| lower_byte(b)).push(lower_byte(s@[i as int])));
        }
        i = i + 1;
    }
    proof {
        assert(s@.take(i as int) =~= s@);
    }
    out
}

/// The vendor-report marker.
pub open spec fn caret_marker() -> Seq<u8> {
    seq![94u8]
}

/// The standard-report marker.
pub open spec fn plus_marker() -> Seq<u8> {
    seq![43u8]
}

/// A line of modem output counts as a notification when, trimmed, it is
/// non-empty, its lowercase form does not carry the keep-alive token, and it
/// shows one of the report markers. The marker test is a heuristic: a command
/// echo that survived stripping can satisfy it too.
pub open spec fn is_urc_line_spec(line: Seq<u8>) -> bool {
    let l = trim_spec(line);
    &&& l.len() > 0
    &&& !contains_tok(lower_spec(l), ping_tok())
    &&& (contains_tok(l, caret_marker()) || contains_tok(l, plus_marker()))
}

pub fn is_urc_line(line: &[u8]) -> (r: bool)
    ensures
        r == is_urc_line_spec(line@),
{
    let l = trim_bytes(line);
    if l.len() == 0 {
        return false;
    }
    let low = to_ascii_lower(l.as_slice());
    let ping = crate::engine::ping_bytes();
    if contains_bytes(low.as_slice(), ping.as_slice()) {
        return false;
    }
    let mut caret: Vec<u8> = Vec::new();
    caret.push(94);
    let mut plus: Vec<u8> = Vec::new();
    plus.push(43);
    proof {
        assert(caret@ =~= caret_marker());
        assert(plus@ =~= plus_marker());
    }
    contains_bytes(l.as_slice(), caret.as_slice()) || contains_bytes(l.as_slice(), plus.as_slice())
}

/// The notification lines of one received chunk, in order: each line that
/// classifies as a notification, kept as received (untrimmed).
pub open spec fn urc_lines_spec(chunk: Seq<u8>) -> Seq<Seq<u8>> {
    split_lines_spec(chunk).filter(|l: Seq<u8>| is_urc_line_spec(l))
}

pub fn urc_lines(chunk: &[u8]) -> (r: Vec<Vec<u8>>)
    ensures
        r.deep_view() == urc_lines_spec(chunk@),
{
    let lines = split_lines(chunk);
    let ghost pred = |l: Seq<u8>| is_urc_line_spec(l);
    let mut out: Vec<Vec<u8>> = Vec::new();
    let mut i: usize = 0;
    proof {
        reveal(Seq::filter);
        assert(lines.deep_view().take(0) =~= Seq::<Seq<u8>>::empty());
        assert(out.deep_view() =~= Seq::<Seq<u8>>::empty());
    }
    while i < lines.len()
        invariant
            0 <= i <= lines@.len(),
            out.deep_view() =~~= lines.deep_view().take(i as int).filter(
                |l: Seq<u8>| is_urc_line_spec(l),
            ),
        decreases lines@.len() - i,
    {
        let ghost prev = out.deep_view();
        proof {
            reveal(Seq::filter);
            assert(lines.deep_view().take(i + 1).drop_last() =~= lines.deep_view().take(i as int));
            assert(lines.deep_view().take(i + 1).last() == lines@[i as int]@);
        }
        if is_urc_line(lines[i].as_slice()) {
            let line = vstd::slice::slice_to_vec(lines[i].as_slice());
            out.push(line);
            proof {
                assert(out.deep_view() =~~= prev.push(lines@[i as int]@));
            }
        }
        i = i + 1;
    }
    proof {
        assert(lines.deep_view().take(i as int) =~= lines.deep_view());
    }
    out
}

/// What one turn of the reader loop does, by connection state.
pub enum ReaderTurn {
    /// Disconnected: attempt to connect; on success the warm-up sequence is
    /// started without blocking the loop, on failure the state stays and the
    /// loop idles briefly.
    Reconnect,
    /// Connected: drain the transport and publish the notification lines.
    Drain,
}

/// The reader/reconnector's decision at the top of each iteration: the
/// transport's connectivity alone drives the two-state machine.
pub fn reader_turn(connected: bool) -> (r: ReaderTurn)
    ensures
        r == if connected {
            ReaderTurn::Drain
        } else {
            ReaderTurn::Reconnect
        },
{
    if connected {
        ReaderTurn::Drain
    } else {
        ReaderTurn::Reconnect
    }
}

} // verus!
