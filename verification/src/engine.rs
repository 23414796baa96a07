//! The command/response framing engine: it normalizes a command line,
//! accumulates the bytes a transport hands back, decides when polling may
//! stop, cleans the accumulated reply of keep-alive noise and of the echoed
//! command, and classifies the outcome.
//!
//! The engine holds no transport and performs no waiting itself: the caller
//! owns the byte stream and the clock and reports both through `on_data` and
//! `on_tick`. Whoever serializes calls to it (the gateway does so with one
//! exclusive lock per transport) gets the guarantee of `run_commands`: one
//! whole write per command, never interleaved.

use vstd::prelude::*;
use vstd::string::StringSliceAdditionalSpecFns;

use crate::error::ProtocolError;
use crate::scan::contains_bytes;
use crate::scan::contains_tok;
use crate::scan::ends_with_bytes;
use crate::scan::ends_with_spec;
use crate::scan::find_byte;
use crate::scan::find_byte_spec;
use crate::scan::remove_tok_spec;
use crate::scan::remove_token;
use crate::scan::starts_with_bytes;
use crate::scan::starts_with_spec;
use crate::scan::str_bytes;
use crate::scan::tail_from;
use crate::scan::trim_bytes;
use crate::scan::trim_end_bytes;
use crate::scan::trim_end_spec;
use crate::scan::trim_spec;

verus! {

/// Line terminator a transmitted command ends with.
pub open spec fn crlf() -> Seq<u8> {
    "\r\n".spec_bytes()
}

/// Success terminator: once the accumulated reply holds it, polling stops.
pub open spec fn ok_terminator() -> Seq<u8> {
    "OK\r\n".spec_bytes()
}

/// Error marker: its presence anywhere classifies the reply as remote error.
pub open spec fn err_marker() -> Seq<u8> {
    "ERROR".spec_bytes()
}

/// Keep-alive token; stripped from replies so the liveness probe's traffic
/// never masquerades as a command response.
pub open spec fn ping_tok() -> Seq<u8> {
    "ping".spec_bytes()
}

/// What the keep-alive sender writes, bypassing the framing logic.
pub open spec fn keep_alive_probe_spec() -> Seq<u8> {
    "ping\r\n".spec_bytes()
}

pub fn crlf_bytes() -> (r: Vec<u8>)
    ensures
        r@ == crlf(),
{
    str_bytes("\r\n")
}

pub fn ok_terminator_bytes() -> (r: Vec<u8>)
    ensures
        r@ == ok_terminator(),
{
    str_bytes("OK\r\n")
}

pub fn err_marker_bytes() -> (r: Vec<u8>)
    ensures
        r@ == err_marker(),
{
    str_bytes("ERROR")
}

pub fn ping_bytes() -> (r: Vec<u8>)
    ensures
        r@ == ping_tok(),
{
    str_bytes("ping")
}

/// What the keep-alive sender writes, bypassing the framing logic.
pub fn keep_alive_probe() -> (r: Vec<u8>)
    ensures
        r@ == keep_alive_probe_spec(),
{
    str_bytes("ping\r\n")
}

/// Overall window a command waits for its response, in milliseconds.
pub const RESPONSE_WINDOW_MS: u64 = 1000;

/// Pause between two polls of the transport, in milliseconds.
pub const POLL_INTERVAL_MS: u64 = 10;

/// Window for draining stale buffered bytes before transmitting.
pub const DRAIN_TIMEOUT_MS: u64 = 10;

/// Bound on one transport read, in milliseconds.
pub const RECEIVE_TIMEOUT_MS: u64 = 25;

/// Period of the keep-alive probe, in seconds.
pub const KEEP_ALIVE_PERIOD_S: u64 = 30;

/// The command as it goes on the wire: unchanged if it already ends with the
/// canonical terminator, otherwise right-trimmed and terminated.
pub open spec fn normalize_spec(cmd: Seq<u8>) -> Seq<u8> {
    if ends_with_spec(cmd, crlf()) {
        cmd
    } else {
        trim_end_spec(cmd) + crlf()
    }
}

pub fn normalize_command(cmd: &[u8]) -> (r: Vec<u8>)
    ensures
        r@ == normalize_spec(cmd@),
{
    let t = crlf_bytes();
    if ends_with_bytes(cmd, t.as_slice()) {
        vstd::slice::slice_to_vec(cmd)
    } else {
        let mut v = trim_end_bytes(cmd);
        proof {
            lemma_token_bytes();
        }
        v.push(13);
        v.push(10);
        proof {
            assert(v@ =~= trim_end_spec(cmd@) + crlf());
        }
        v
    }
}

/// Echo removal: when the cleaned reply still begins with the command that
/// was sent, everything up to and including the first line feed goes.
pub open spec fn strip_echo_spec(c: Seq<u8>, cmd: Seq<u8>) -> Seq<u8> {
    if starts_with_spec(c, cmd) {
        match find_byte_spec(c, 10u8) {
            Some(p) => c.skip(p + 1),
            None => c,
        }
    } else {
        c
    }
}

/// The reply as reported: keep-alive tokens removed, trimmed, the echo of the
/// command dropped, trimmed again.
pub open spec fn clean_spec(raw: Seq<u8>, cmd: Seq<u8>) -> Seq<u8> {
    trim_spec(strip_echo_spec(trim_spec(remove_tok_spec(raw, ping_tok())), cmd))
}

pub fn clean_response(raw: &[u8], cmd_trimmed: &[u8]) -> (r: Vec<u8>)
    ensures
        r@ == clean_spec(raw@, cmd_trimmed@),
{
    let ping = ping_bytes();
    proof {
        lemma_token_bytes();
    }
    let no_noise = remove_token(raw, ping.as_slice());
    let t1 = trim_bytes(no_noise.as_slice());
    let t1_len = t1.len();
    proof {
        // binds the length as a machine integer, so the echo cut below
        // cannot overflow
        assert(t1_len == t1@.len());
    }
    let stripped: Vec<u8> = if starts_with_bytes(t1.as_slice(), cmd_trimmed) {
        match find_byte(t1.as_slice(), 10) {
            Some(p) => tail_from(t1.as_slice(), p + 1),
            None => t1,
        }
    } else {
        t1
    };
    trim_bytes(stripped.as_slice())
}

/// How a finished exchange is classified, over the accumulated raw bytes,
/// the trimmed command and the elapsed time.
pub enum Verdict {
    Success(Seq<u8>),
    Remote(Seq<u8>),
    TimedOut,
}

pub open spec fn verdict_spec(raw: Seq<u8>, cmd: Seq<u8>, elapsed_ms: u64) -> Verdict {
    let cleaned = clean_spec(raw, cmd);
    if contains_tok(cleaned, err_marker()) {
        Verdict::Remote(cleaned)
    } else if cleaned.len() == 0 && elapsed_ms >= RESPONSE_WINDOW_MS {
        Verdict::TimedOut
    } else {
        Verdict::Success(cleaned)
    }
}

/// One command/response exchange against the transport: the normalized wire
/// form, the bytes received so far, and the time spent waiting.
pub struct CommandExchange {
    cmd: Vec<u8>,
    wire: Vec<u8>,
    raw: Vec<u8>,
    elapsed_ms: u64,
    terminated: bool,
}

impl CommandExchange {
    /// Trimmed text of the command as the caller wrote it, used for echo
    /// stripping.
    pub closed spec fn cmd_view(&self) -> Seq<u8> {
        self.cmd@
    }

    /// The bytes that go on the wire.
    pub closed spec fn wire_view(&self) -> Seq<u8> {
        self.wire@
    }

    /// Everything received within the window so far.
    pub closed spec fn raw_view(&self) -> Seq<u8> {
        self.raw@
    }

    /// Milliseconds spent waiting so far.
    pub closed spec fn elapsed(&self) -> u64 {
        self.elapsed_ms
    }

    /// A terminator has been observed; polling may stop early.
    pub closed spec fn terminated(&self) -> bool {
        self.terminated
    }

    /// The early-stop flag tracks exactly whether the accumulated bytes hold
    /// a success terminator or the error marker.
    pub open spec fn wf(&self) -> bool {
        self.terminated() == (contains_tok(self.raw_view(), ok_terminator()) || contains_tok(
            self.raw_view(),
            err_marker(),
        ))
    }

    pub fn new(command: &[u8]) -> (ex: Self)
        ensures
            ex.cmd_view() == trim_spec(command@),
            ex.wire_view() == normalize_spec(command@),
            ex.raw_view() == Seq::<u8>::empty(),
            ex.elapsed() == 0,
            !ex.terminated(),
            ex.wf(),
    {
        let ex = CommandExchange {
            cmd: trim_bytes(command),
            wire: normalize_command(command),
            raw: Vec::new(),
            elapsed_ms: 0,
            terminated: false,
        };
        proof {
            lemma_token_bytes();
            assert(!contains_tok(ex.raw@, ok_terminator()));
            assert(!contains_tok(ex.raw@, err_marker()));
        }
        ex
    }

    pub fn wire_bytes(&self) -> (r: &Vec<u8>)
        ensures
            r@ == self.wire_view(),
    {
        &self.wire
    }

    /// Whether the poll loop goes on: no terminator yet and time remains.
    pub fn keep_polling(&self) -> (r: bool)
        ensures
            r == (!self.terminated() && self.elapsed() < RESPONSE_WINDOW_MS),
    {
        !self.terminated && self.elapsed_ms < RESPONSE_WINDOW_MS
    }

    /// Account for a chunk of bytes the transport handed back.
    pub fn on_data(&mut self, chunk: &[u8])
        ensures
            final(self).raw_view() == old(self).raw_view() + chunk@,
            final(self).cmd_view() == old(self).cmd_view(),
            final(self).wire_view() == old(self).wire_view(),
            final(self).elapsed() == old(self).elapsed(),
            final(self).wf(),
    {
        self.raw.extend_from_slice(chunk);
        proof {
            assert(self.raw@ =~= old(self).raw@ + chunk@);
        }
        let ok = ok_terminator_bytes();
        let err = err_marker_bytes();
        self.terminated = contains_bytes(self.raw.as_slice(), ok.as_slice()) || contains_bytes(
            self.raw.as_slice(),
            err.as_slice(),
        );
    }

    /// Account for time spent waiting; saturates at the integer's limit.
    pub fn on_tick(&mut self, ms: u64)
        ensures
            final(self).elapsed() == if old(self).elapsed() + ms <= u64::MAX {
                old(self).elapsed() + ms
            } else {
                u64::MAX as int
            },
            final(self).raw_view() == old(self).raw_view(),
            final(self).cmd_view() == old(self).cmd_view(),
            final(self).wire_view() == old(self).wire_view(),
            final(self).terminated() == old(self).terminated(),
            old(self).wf() ==> final(self).wf(),
    {
        if ms <= u64::MAX - self.elapsed_ms {
            self.elapsed_ms = self.elapsed_ms + ms;
        } else {
            self.elapsed_ms = u64::MAX;
        }
    }

    /// Clean and classify what was received: a reply holding the error marker
    /// is a remote error; an empty cleaned reply after the full window is a
    /// timeout; anything else is the successful response text.
    pub fn finish(&self) -> (r: Result<Vec<u8>, ProtocolError>)
        ensures
            ({
                let v = verdict_spec(self.raw_view(), self.cmd_view(), self.elapsed());
                match r {
                    Ok(text) => v == Verdict::Success(text@),
                    Err(e) => match e {
                        ProtocolError::Remote(m) => v == Verdict::Remote(m@),
                        ProtocolError::Timeout => v == Verdict::TimedOut,
                        _ => false,
                    },
                }
            }),
    {
        let cleaned = clean_response(self.raw.as_slice(), self.cmd.as_slice());
        let err = err_marker_bytes();
        if contains_bytes(cleaned.as_slice(), err.as_slice()) {
            Err(ProtocolError::Remote(cleaned))
        } else if cleaned.len() == 0 && self.elapsed_ms >= RESPONSE_WINDOW_MS {
            Err(ProtocolError::Timeout)
        } else {
            Ok(cleaned)
        }
    }
}

/// The warm-up commands `init_module` issues, in order; each is sent
/// best-effort and its failure ignored.
pub fn init_module_commands() -> (r: Vec<Vec<u8>>)
    ensures
        r@.len() == 4,
        r@[0]@ == "ATE0".spec_bytes(),
        r@[1]@ == "AT+CNMI=2,1,0,2,0".spec_bytes(),
        r@[2]@ == "AT+CMGF=0".spec_bytes(),
        r@[3]@ == "AT+CLIP=1".spec_bytes(),
{
    let mut v: Vec<Vec<u8>> = Vec::new();
    v.push(str_bytes("ATE0"));
    v.push(str_bytes("AT+CNMI=2,1,0,2,0"));
    v.push(str_bytes("AT+CMGF=0"));
    v.push(str_bytes("AT+CLIP=1"));
    v
}

/// All bytes handed to the transport, one entry per write call.
pub struct WriteLog {
    pub writes: Vec<Vec<u8>>,
}

impl WriteLog {
    /// The writes in order, as byte sequences.
    pub open spec fn log(&self) -> Seq<Seq<u8>> {
        self.writes.deep_view()
    }

    pub fn new() -> (r: Self)
        ensures
            r.log() == Seq::<Seq<u8>>::empty(),
    {
        let r = WriteLog { writes: Vec::new() };
        proof {
            assert(r.log() =~~= Seq::<Seq<u8>>::empty());
        }
        r
    }
}

impl CommandExchange {
    /// Hand the whole normalized command to the transport as one write.
    pub fn send_wire(&self, log: &mut WriteLog)
        ensures
            final(log).log() == old(log).log().push(self.wire_view()),
    {
        log.writes.push(vstd::slice::slice_to_vec(self.wire.as_slice()));
        proof {
            assert(log.log() =~~= old(log).log().push(self.wire_view()));
        }
    }
}

/// Serialized execution of a queue of commands against one transport: each
/// command contributes exactly one write, carrying its whole normalized text,
/// in queue order.
pub fn run_commands(cmds: &Vec<Vec<u8>>, log: &mut WriteLog) -> (exchanges: Vec<CommandExchange>)
    ensures
        final(log).log() == old(log).log() + cmds.deep_view().map_values(
            |c: Seq<u8>| normalize_spec(c),
        ),
        exchanges@.len() == cmds@.len(),
        forall|k: int|
            0 <= k < cmds@.len() ==> (#[trigger] exchanges@[k]).wire_view() == normalize_spec(
                cmds.deep_view()[k],
            ),
{
    let ghost target = cmds.deep_view().map_values(|c: Seq<u8>| normalize_spec(c));
    let mut exchanges: Vec<CommandExchange> = Vec::new();
    let mut i: usize = 0;
    while i < cmds.len()
        invariant
            0 <= i <= cmds@.len(),
            target == cmds.deep_view().map_values(|c: Seq<u8>| normalize_spec(c)),
            log.log() == old(log).log() + target.take(i as int),
            exchanges@.len() == i,
            forall|k: int|
                0 <= k < i ==> (#[trigger] exchanges@[k]).wire_view() == normalize_spec(
                    cmds.deep_view()[k],
                ),
        decreases cmds@.len() - i,
    {
        let ex = CommandExchange::new(cmds[i].as_slice());
        ex.send_wire(log);
        proof {
            assert(cmds.deep_view()[i as int] == cmds@[i as int]@);
            assert(old(log).log() + target.take(i + 1) =~= (old(log).log() + target.take(
                i as int,
            )).push(target[i as int]));
        }
        exchanges.push(ex);
        i = i + 1;
    }
    proof {
        assert(target.take(i as int) =~= target);
    }
    exchanges
}

/// The protocol tokens, byte by byte.
pub proof fn lemma_token_bytes()
    ensures
        crlf() =~= seq![13u8, 10u8],
        ok_terminator() =~= seq![79u8, 75u8, 13u8, 10u8],
        err_marker() =~= seq![69u8, 82u8, 82u8, 79u8, 82u8],
        ping_tok() =~= seq![112u8, 105u8, 110u8, 103u8],
        "OK".spec_bytes() =~= seq![79u8, 75u8],
{
    reveal_strlit("\r\n");
    reveal_strlit("OK\r\n");
    reveal_strlit("ERROR");
    reveal_strlit("ping");
    reveal_strlit("OK");
    assert(vstd::utf8::is_ascii_chars("\r\n"@));
    assert(vstd::utf8::is_ascii_chars("OK\r\n"@));
    assert(vstd::utf8::is_ascii_chars("ERROR"@));
    assert(vstd::utf8::is_ascii_chars("ping"@));
    assert(vstd::utf8::is_ascii_chars("OK"@));
    vstd::string::is_ascii_spec_bytes("\r\n");
    vstd::string::is_ascii_spec_bytes("OK\r\n");
    vstd::string::is_ascii_spec_bytes("ERROR");
    vstd::string::is_ascii_spec_bytes("ping");
    vstd::string::is_ascii_spec_bytes("OK");
}

/// Error detection: a raw reply holding the error marker anywhere is
/// classified as a remote error, whatever OK-like text stands before it.
/// The one proviso: the reply, noise-stripped and trimmed, must not begin
/// with the command's own text, since the echoed command line is dropped
/// wholesale and would carry a marker inside it away.
pub proof fn lemma_error_marker_detected(raw: Seq<u8>, cmd: Seq<u8>, elapsed_ms: u64)
    requires
        contains_tok(raw, err_marker()),
        !starts_with_spec(trim_spec(remove_tok_spec(raw, ping_tok())), cmd),
    ensures
        contains_tok(clean_spec(raw, cmd), err_marker()),
        verdict_spec(raw, cmd, elapsed_ms) == Verdict::Remote(clean_spec(raw, cmd)),
{
    lemma_token_bytes();
    let tok = ping_tok();
    let m = err_marker();
    assert(forall|x: int, y: int| 0 <= x < tok.len() && 0 <= y < m.len() ==> tok[x] != m[y]);
    assert(forall|j: int| 0 <= j < m.len() ==> !crate::scan::is_ws(m[j]));
    crate::scan::lemma_remove_keeps_disjoint_token(raw, tok, m);
    crate::scan::lemma_trim_keeps_token(remove_tok_spec(raw, tok), m);
    let t1 = trim_spec(remove_tok_spec(raw, tok));
    assert(strip_echo_spec(t1, cmd) == t1);
    crate::scan::lemma_trim_keeps_token(t1, m);
}

/// Timeout: while nothing but noise has arrived, the engine keeps polling
/// strictly until the response window has elapsed — the early-stop flag never
/// fires — and from the moment the window has elapsed it reports a timeout.
pub proof fn lemma_timeout_exact(ex: CommandExchange)
    requires
        ex.wf(),
        !contains_tok(ex.raw_view(), ok_terminator()),
        !contains_tok(ex.raw_view(), err_marker()),
        clean_spec(ex.raw_view(), ex.cmd_view()).len() == 0,
    ensures
        !ex.terminated(),
        ex.elapsed() >= RESPONSE_WINDOW_MS ==> verdict_spec(
            ex.raw_view(),
            ex.cmd_view(),
            ex.elapsed(),
        ) == Verdict::TimedOut,
        ex.elapsed() < RESPONSE_WINDOW_MS ==> verdict_spec(
            ex.raw_view(),
            ex.cmd_view(),
            ex.elapsed(),
        ) != Verdict::TimedOut,
{
    lemma_token_bytes();
    let cleaned = clean_spec(ex.raw_view(), ex.cmd_view());
    assert(!contains_tok(cleaned, err_marker())) by {
        if contains_tok(cleaned, err_marker()) {
            let i = choose|i: int| crate::scan::matches_at(cleaned, i, err_marker());
            assert(false);
        }
    }
}

/// Echo and noise stripping: a raw reply that is exactly the echoed command,
/// a line break, one keep-alive token and the success terminator cleans to
/// exactly "OK".
pub proof fn lemma_clean_strips_echo_and_noise(cmd: Seq<u8>)
    requires
        cmd.len() > 0,
        trim_spec(cmd) == cmd,
        forall|k: int| 0 <= k < cmd.len() ==> cmd[k] != 10u8 && cmd[k] != 13u8,
        !contains_tok(cmd, ping_tok()),
    ensures
        clean_spec(cmd + crlf() + ping_tok() + ok_terminator(), cmd) == "OK".spec_bytes(),
{
    lemma_token_bytes();
    crate::scan::lemma_trimmed_ends(cmd);
    let n = cmd.len() as int;
    let raw = cmd + crlf() + ping_tok() + ok_terminator();
    let tok = ping_tok();

    // Step 1: noise removal leaves the echo line and the terminator.
    let a = cmd + crlf();
    let b = ping_tok() + ok_terminator();
    assert(raw =~= a + b);
    assert forall|i: int| 0 <= i < a.len() implies !crate::scan::matches_at(a + b, i, tok) by {
        if crate::scan::matches_at(a + b, i, tok) {
            let s = a + b;
            if i + tok.len() <= n {
                assert(crate::scan::matches_at(cmd, i, tok)) by {
                    assert(cmd.subrange(i, i + tok.len()) =~= s.subrange(i, i + tok.len()));
                }
                assert(false);
            } else if i <= n {
                // the match would cover the carriage return after the command
                assert(s.subrange(i, i + tok.len())[n - i] == s[n]);
                assert(false);
            } else {
                // i == n + 1: the match would start at the line feed
                assert(s.subrange(i, i + tok.len())[0] == s[i]);
                assert(false);
            }
        }
    }
    crate::scan::lemma_remove_skips_clean_prefix(a, b, tok);
    assert(remove_tok_spec(b, tok) == remove_tok_spec(ok_terminator(), tok)) by {
        assert(crate::scan::matches_at(b, 0, tok)) by {
            assert(b.subrange(0, tok.len() as int) =~= tok);
        }
        assert(b.skip(tok.len() as int) =~= ok_terminator());
    }
    assert forall|i: int| !crate::scan::matches_at(ok_terminator(), i, tok) by {
        if crate::scan::matches_at(ok_terminator(), i, tok) {
            assert(ok_terminator().subrange(i, i + tok.len())[0] == ok_terminator()[i]);
            assert(false);
        }
    }
    crate::scan::lemma_remove_absent(ok_terminator(), tok);
    let cleaned0 = cmd + crlf() + ok_terminator();
    assert(remove_tok_spec(raw, tok) =~= cleaned0);

    // Step 2: trimming drops exactly the trailing terminator bytes.
    assert(cleaned0.len() == n + 6);
    crate::scan::lemma_trim_start_at(cleaned0, 0);
    crate::scan::lemma_trim_end_at(cleaned0, n + 4);
    let t1 = trim_spec(cleaned0);
    assert(t1 =~= cmd + seq![13u8, 10u8, 79u8, 75u8]);

    // Step 3: the echo line is recognized and dropped through its line feed.
    assert(starts_with_spec(t1, cmd)) by {
        assert(t1.subrange(0, n) =~= cmd);
    }
    crate::scan::lemma_find_byte_at(t1, 10u8, n + 1);
    assert(strip_echo_spec(t1, cmd) =~= seq![79u8, 75u8]);

    // Step 4: the remaining terminator text is already trimmed.
    crate::scan::lemma_trim_start_at(seq![79u8, 75u8], 0);
    crate::scan::lemma_trim_end_at(seq![79u8, 75u8], 2);
    assert(clean_spec(raw, cmd) =~= seq![79u8, 75u8]);
}

/// Mutual exclusion at the transport, spelled out: when a run of the engine
/// appends a queue of commands to the write log, the k-th new write is the
/// whole normalized k-th command, so all of command k's bytes reach the
/// transport before command k+1's first byte.
pub proof fn lemma_writes_do_not_interleave(
    before: Seq<Seq<u8>>,
    after: Seq<Seq<u8>>,
    cmds: Seq<Seq<u8>>,
)
    requires
        after == before + cmds.map_values(|c: Seq<u8>| normalize_spec(c)),
    ensures
        after.len() == before.len() + cmds.len(),
        forall|k: int|
            0 <= k < cmds.len() ==> after[before.len() + k] == normalize_spec(cmds[k]),
{
}

} // verus!

