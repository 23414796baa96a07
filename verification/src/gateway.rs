//! The WebSocket gateway's session logic: the structured JSON envelopes the
//! server sends, the authentication gate, and the per-session state machine
//! that decides what each inbound frame or notification leads to. The runner
//! that owns the socket performs the sends and feeds events in; everything it
//! may do is decided here.

use vstd::prelude::*;
use vstd::string::StringSliceAdditionalSpecFns;

use crate::error::ProtocolError;
use crate::scan::concat_bytes;
use crate::scan::str_bytes;

verus! {

/// The JSON escape of one byte: quote and backslash get a backslash, the
/// usual control characters their short escapes, the remaining control bytes
/// a four-digit escape, and everything else passes through.
pub open spec fn json_escape_byte(b: u8) -> Seq<u8> {
    if b == 34 {
        seq![92u8, 34u8]
    } else if b == 92 {
        seq![92u8, 92u8]
    } else if b == 8 {
        seq![92u8, 98u8]
    } else if b == 9 {
        seq![92u8, 116u8]
    } else if b == 10 {
        seq![92u8, 110u8]
    } else if b == 12 {
        seq![92u8, 102u8]
    } else if b == 13 {
        seq![92u8, 114u8]
    } else if b < 32 {
        seq![92u8, 117u8, 48u8, 48u8, hex_digit(b / 16), hex_digit(b % 16)]
    } else {
        seq![b]
    }
}

/// A lowercase hexadecimal digit.
pub open spec fn hex_digit(n: u8) -> u8 {
    if n < 10 {
        (48 + n) as u8
    } else {
        (87 + n) as u8
    }
}

/// The text escaped for a JSON string, byte by byte.
pub open spec fn json_escape_spec(s: Seq<u8>) -> Seq<u8>
    decreases s.len(),
{
    if s.len() == 0 {
        Seq::empty()
    } else {
        json_escape_byte(s[0]) + json_escape_spec(s.skip(1))
    }
}

pub fn json_escape(s: &[u8]) -> (r: Vec<u8>)
    ensures
        r@ == json_escape_spec(s@),
{
    let mut out: Vec<u8> = Vec::new();
    let mut i: usize = 0;
    proof {
        assert(s@.skip(0) =~= s@);
    }
    while i < s.len()
        invariant
            0 <= i <= s@.len(),
            json_escape_spec(s@) == out@ + json_escape_spec(s@.skip(i as int)),
        decreases s@.len() - i,
    {
        let ghost prev = out@;
        let b = s[i];
        if b == 34 {
            out.push(92);
            out.push(34);
        } else if b == 92 {
            out.push(92);
            out.push(92);
        } else if b == 8 {
            out.push(92);
            out.push(98);
        } else if b == 9 {
            out.push(92);
            out.push(116);
        } else if b == 10 {
            out.push(92);
            out.push(110);
        } else if b == 12 {
            out.push(92);
            out.push(102);
        } else if b == 13 {
            out.push(92);
            out.push(114);
        } else if b < 32 {
            out.push(92);
            out.push(117);
            out.push(48);
            out.push(48);
            let hi = b / 16;
            let lo = b % 16;
            out.push(if hi < 10 {
                48 + hi
            } else {
                87 + hi
            });
            out.push(if lo < 10 {
                48 + lo
            } else {
                87 + lo
            });
        } else {
            out.push(b);
        }
        proof {
            assert(out@ =~= prev + json_escape_byte(s@[i as int]));
            assert(s@.skip(i as int).skip(1) =~= s@.skip(i + 1));
            assert(prev + (json_escape_byte(s@[i as int]) + json_escape_spec(s@.skip(i + 1)))
                =~= (prev + json_escape_byte(s@[i as int])) + json_escape_spec(s@.skip(i + 1)));
        }
        i = i + 1;
    }
    proof {
        assert(s@.skip(i as int) =~= Seq::<u8>::empty());
        assert(out@ + json_escape_spec(s@.skip(i as int)) =~= out@);
    }
    out
}

/// `{"success":true,"data":"<text>","error":null}` — a command's reply.
pub open spec fn success_envelope_spec(data: Seq<u8>) -> Seq<u8> {
    "{\"success\":true,\"data\":\"".spec_bytes() + json_escape_spec(data)
        + "\",\"error\":null}".spec_bytes()
}

/// `{"success":false,"data":null,"error":"<text>"}` — a command's failure.
pub open spec fn error_envelope_spec(msg: Seq<u8>) -> Seq<u8> {
    "{\"success\":false,\"data\":null,\"error\":\"".spec_bytes() + json_escape_spec(msg)
        + "\"}".spec_bytes()
}

/// `{"type":"raw_data","data":"<line>"}` — a pushed notification.
pub open spec fn urc_envelope_spec(line: Seq<u8>) -> Seq<u8> {
    "{\"type\":\"raw_data\",\"data\":\"".spec_bytes() + json_escape_spec(line)
        + "\"}".spec_bytes()
}

/// The acknowledgement after a successful authentication.
pub open spec fn auth_ok_envelope_spec() -> Seq<u8> {
    "{\"success\":true,\"message\":\"authentication succeeded\"}".spec_bytes()
}

/// The refusal before closing an unauthenticated session.
pub open spec fn auth_fail_envelope_spec() -> Seq<u8> {
    "{\"error\":\"Authentication failed\",\"message\":\"auth key rejected\"}".spec_bytes()
}

pub fn success_envelope(data: &[u8]) -> (r: Vec<u8>)
    ensures
        r@ == success_envelope_spec(data@),
{
    let head = str_bytes("{\"success\":true,\"data\":\"");
    let tail = str_bytes("\",\"error\":null}");
    let esc = json_escape(data);
    let front = concat_bytes(head.as_slice(), esc.as_slice());
    concat_bytes(front.as_slice(), tail.as_slice())
}

pub fn error_envelope(msg: &[u8]) -> (r: Vec<u8>)
    ensures
        r@ == error_envelope_spec(msg@),
{
    let head = str_bytes("{\"success\":false,\"data\":null,\"error\":\"");
    let tail = str_bytes("\"}");
    let esc = json_escape(msg);
    let front = concat_bytes(head.as_slice(), esc.as_slice());
    concat_bytes(front.as_slice(), tail.as_slice())
}

pub fn urc_envelope(line: &[u8]) -> (r: Vec<u8>)
    ensures
        r@ == urc_envelope_spec(line@),
{
    let head = str_bytes("{\"type\":\"raw_data\",\"data\":\"");
    let tail = str_bytes("\"}");
    let esc = json_escape(line);
    let front = concat_bytes(head.as_slice(), esc.as_slice());
    concat_bytes(front.as_slice(), tail.as_slice())
}

pub fn auth_ok_envelope() -> (r: Vec<u8>)
    ensures
        r@ == auth_ok_envelope_spec(),
{
    str_bytes("{\"success\":true,\"message\":\"authentication succeeded\"}")
}

pub fn auth_fail_envelope() -> (r: Vec<u8>)
    ensures
        r@ == auth_fail_envelope_spec(),
{
    str_bytes("{\"error\":\"Authentication failed\",\"message\":\"auth key rejected\"}")
}

/// The envelope a command outcome is reported in: the cleaned reply on
/// success, the failure's message otherwise.
pub fn response_envelope(outcome: &Result<Vec<u8>, ProtocolError>) -> (r: Vec<u8>)
    ensures
        match outcome {
            Ok(data) => r@ == success_envelope_spec(data@),
            Err(e) => r@ == error_envelope_spec(e.message_spec()),
        },
{
    match outcome {
        Ok(data) => success_envelope(data.as_slice()),
        Err(e) => {
            let msg = e.message_bytes();
            error_envelope(msg.as_slice())
        },
    }
}

/// The `auth_key` field of the client's first JSON message, a function of
/// the text alone; nothing when the text is not a JSON object carrying a
/// string under that name.
pub uninterp spec fn auth_key_of(msg: Seq<char>) -> Option<Seq<char>>;

/// Relies on `serde_json::from_str`, `Value::get` and `Value::as_str`: the
/// string under `"auth_key"` in a JSON object, a function of the text alone.
#[verifier::external_body]
fn parse_auth_key(msg: &str) -> (r: Option<String>)
    ensures
        match r {
            Some(k) => auth_key_of(msg@) == Some(k@),
            None => auth_key_of(msg@) is None,
        },
{
    match serde_json::from_str::<serde_json::Value>(msg) {
        Ok(v) => match v.get("auth_key") {
            Some(k) => k.as_str().map(|s| s.to_string()),
            None => None,
        },
        Err(_) => None,
    }
}

/// The authentication decision: the message parses as JSON and carries
/// exactly the configured key.
pub fn auth_matches(msg: &str, key: &String) -> (r: bool)
    ensures
        r == (auth_key_of(msg@) == Some(key@)),
{
    match parse_auth_key(msg) {
        Some(k) => k == *key,
        None => false,
    }
}

/// Where a session stands: waiting for the authentication message, pumping
/// frames and notifications, or finished.
pub enum SessionPhase {
    AwaitAuth,
    Active,
    Closed,
}

/// What arrives at a session while it runs.
pub enum SessionEvent {
    /// An inbound text frame.
    Text(String),
    /// An inbound frame of any other kind, or the peer closed.
    OtherFrame,
    /// The authentication window elapsed with no acceptable message.
    AuthExpired,
    /// A notification from the broadcast channel.
    Urc(Vec<u8>),
    /// The outbound side failed to send.
    SendFailed,
}

/// What the session tells its runner to do in response.
pub enum SessionAction {
    /// Send this envelope outbound.
    Send(Vec<u8>),
    /// Forward this text to the command engine as an AT command, then send
    /// the reply's envelope.
    Forward(String),
    /// Send this envelope outbound, then close the session.
    SendAndClose(Vec<u8>),
    /// Close the session.
    Close,
    /// Nothing.
    Ignore,
}

/// The phase the session moves to on an event. A session with no key
/// configured starts out active; one with a key waits for a matching
/// authentication message and closes on anything else.
pub open spec fn next_phase(phase: SessionPhase, key: Seq<char>, ev: &SessionEvent) -> SessionPhase {
    match phase {
        SessionPhase::AwaitAuth => match ev {
            SessionEvent::Text(m) => if auth_key_of(m@) == Some(key) {
                SessionPhase::Active
            } else {
                SessionPhase::Closed
            },
            SessionEvent::Urc(_) => SessionPhase::AwaitAuth,
            _ => SessionPhase::Closed,
        },
        SessionPhase::Active => match ev {
            SessionEvent::Text(_) => SessionPhase::Active,
            SessionEvent::Urc(_) => SessionPhase::Active,
            SessionEvent::AuthExpired => SessionPhase::Active,
            _ => SessionPhase::Closed,
        },
        SessionPhase::Closed => SessionPhase::Closed,
    }
}

/// The command text an event makes the session forward, if any: only a text
/// frame of an active session reaches the command engine.
pub open spec fn forwards(phase: SessionPhase, ev: &SessionEvent) -> Option<Seq<char>> {
    match (phase, ev) {
        (SessionPhase::Active, SessionEvent::Text(m)) => Some(m@),
        _ => None,
    }
}

/// One gateway session: its phase and the configured key (empty for none).
pub struct GatewaySession {
    phase: SessionPhase,
    auth_key: String,
}

impl GatewaySession {
    pub closed spec fn phase(&self) -> SessionPhase {
        self.phase
    }

    /// The configured key's text; empty means no authentication.
    pub closed spec fn key(&self) -> Seq<char> {
        self.auth_key@
    }

    /// A fresh session for one accepted connection.
    pub fn new(auth_key: String) -> (s: Self)
        ensures
            s.key() == auth_key@,
            s.phase() == if auth_key@.len() > 0 {
                SessionPhase::AwaitAuth
            } else {
                SessionPhase::Active
            },
    {
        let awaiting = !auth_key.as_str().is_empty();
        GatewaySession {
            phase: if awaiting {
                SessionPhase::AwaitAuth
            } else {
                SessionPhase::Active
            },
            auth_key,
        }
    }

    /// Whether the runner must wait for an authentication message first.
    pub fn awaiting_auth(&self) -> (r: bool)
        ensures
            r == (self.phase() is AwaitAuth),
    {
        match self.phase {
            SessionPhase::AwaitAuth => true,
            _ => false,
        }
    }

    /// Whether the session is finished.
    pub fn closed(&self) -> (r: bool)
        ensures
            r == (self.phase() is Closed),
    {
        match self.phase {
            SessionPhase::Closed => true,
            _ => false,
        }
    }

    /// One step of the session: the phase moves as `next_phase` says, and the
    /// action is fully determined — in particular, a command is forwarded
    /// exactly when `forwards` allows it.
    pub fn on_event(&mut self, ev: SessionEvent) -> (r: SessionAction)
        ensures
            final(self).key() == old(self).key(),
            final(self).phase() == next_phase(old(self).phase(), old(self).key(), &ev),
            (match r {
                SessionAction::Forward(c) => forwards(old(self).phase(), &ev) == Some(c@),
                _ => forwards(old(self).phase(), &ev) is None,
            }),
            (match (old(self).phase(), &ev) {
                (SessionPhase::AwaitAuth, SessionEvent::Text(m)) => {
                    if auth_key_of(m@) == Some(old(self).key()) {
                        r matches SessionAction::Send(e) && e@ == auth_ok_envelope_spec()
                    } else {
                        r matches SessionAction::SendAndClose(e) && e@ == auth_fail_envelope_spec()
                    }
                },
                (SessionPhase::AwaitAuth, SessionEvent::Urc(_)) => r is Ignore,
                (SessionPhase::AwaitAuth, _) => r matches SessionAction::SendAndClose(e) && e@
                    == auth_fail_envelope_spec(),
                (SessionPhase::Active, SessionEvent::Text(m)) => r matches SessionAction::Forward(
                    c,
                ) && c@ == m@,
                (SessionPhase::Active, SessionEvent::Urc(line)) => r matches SessionAction::Send(e)
                    && e@ == urc_envelope_spec(line@),
                (SessionPhase::Active, SessionEvent::AuthExpired) => r is Ignore,
                (SessionPhase::Active, _) => r is Close,
                (SessionPhase::Closed, _) => r is Ignore,
            }),
    {
        match self.phase {
            SessionPhase::AwaitAuth => match ev {
                SessionEvent::Text(m) => {
                    if auth_matches(m.as_str(), &self.auth_key) {
                        self.phase = SessionPhase::Active;
                        SessionAction::Send(auth_ok_envelope())
                    } else {
                        self.phase = SessionPhase::Closed;
                        SessionAction::SendAndClose(auth_fail_envelope())
                    }
                },
                SessionEvent::Urc(_) => SessionAction::Ignore,
                _ => {
                    self.phase = SessionPhase::Closed;
                    SessionAction::SendAndClose(auth_fail_envelope())
                },
            },
            SessionPhase::Active => match ev {
                SessionEvent::Text(m) => SessionAction::Forward(m),
                SessionEvent::Urc(line) => SessionAction::Send(urc_envelope(line.as_slice())),
                SessionEvent::AuthExpired => SessionAction::Ignore,
                _ => {
                    self.phase = SessionPhase::Closed;
                    SessionAction::Close
                },
            },
            SessionPhase::Closed => SessionAction::Ignore,
        }
    }
}

/// The phase a fresh session reaches after a run of events.
pub open spec fn phase_after(key: Seq<char>, evs: Seq<SessionEvent>) -> SessionPhase
    decreases evs.len(),
{
    if evs.len() == 0 {
        if key.len() > 0 {
            SessionPhase::AwaitAuth
        } else {
            SessionPhase::Active
        }
    } else {
        next_phase(phase_after(key, evs.drop_last()), key, &evs.last())
    }
}

/// An event that authenticates against the configured key.
pub open spec fn authenticates(ev: SessionEvent, key: Seq<char>) -> bool {
    ev matches SessionEvent::Text(m) && auth_key_of(m@) == Some(key)
}

/// A session is active only after it authenticated: with a key configured,
/// some earlier event was a text frame carrying exactly that key.
pub proof fn lemma_active_needs_auth(key: Seq<char>, evs: Seq<SessionEvent>)
    requires
        key.len() > 0,
        phase_after(key, evs) is Active,
    ensures
        exists|j: int| 0 <= j < evs.len() && authenticates(evs[j], key),
    decreases evs.len(),
{
    if evs.len() == 0 {
        assert(false);
    } else {
        let prev = phase_after(key, evs.drop_last());
        match prev {
            SessionPhase::Active => {
                lemma_active_needs_auth(key, evs.drop_last());
                let j = choose|j: int|
                    0 <= j < evs.drop_last().len() && authenticates(evs.drop_last()[j], key);
                assert(evs.drop_last()[j] == evs[j]);
                assert(authenticates(evs[j], key));
            },
            SessionPhase::AwaitAuth => {
                assert(authenticates(evs.last(), key));
                assert(evs[evs.len() - 1] == evs.last());
            },
            SessionPhase::Closed => {
                assert(false);
            },
        }
    }
}

/// The authentication gate: with a key configured, no command is forwarded
/// to the engine before a text frame carrying exactly that key arrived.
pub proof fn lemma_auth_gate(key: Seq<char>, evs: Seq<SessionEvent>, i: int)
    requires
        key.len() > 0,
        0 <= i < evs.len(),
        forwards(phase_after(key, evs.take(i)), &evs[i]) is Some,
    ensures
        exists|j: int| 0 <= j < i && authenticates(evs[j], key),
{
    assert(phase_after(key, evs.take(i)) is Active);
    lemma_active_needs_auth(key, evs.take(i));
    let j = choose|j: int| 0 <= j < evs.take(i).len() && authenticates(evs.take(i)[j], key);
    assert(evs.take(i)[j] == evs[j]);
    assert(authenticates(evs[j], key));
}

} // verus!
