//! Transport selection and the subprocess-helper transport. The two stream
//! transports only move bytes over a serial line or a TCP socket; the
//! subprocess variant below holds real state and decisions: it runs an
//! external helper once per command and buffers the captured output as one
//! synthetic reply. The helper invocation itself is I/O the runner performs
//! between `send_prepare` and `send_finish`.

use vstd::prelude::*;
use vstd::string::StringExecFns;

use crate::config::AtConfig;
use crate::error::ProtocolError;
use crate::scan::trim_bytes;
use crate::scan::trim_spec;

verus! {

/// The three transport variants.
pub enum TransportKind {
    /// A TCP stream to the modem's network endpoint.
    Network,
    /// The subprocess helper, invoked once per command.
    TomModem,
    /// A serial-port stream.
    Serial,
}

/// The construction decision: the `NETWORK` connection type selects the TCP
/// stream; otherwise the serial method selects the subprocess helper or the
/// serial stream.
pub fn select_transport(at: &AtConfig) -> (r: TransportKind)
    ensures
        r == (if at.conn_type@ == "NETWORK"@ {
            TransportKind::Network
        } else if at.serial.method@ == "TOM_MODEM"@ {
            TransportKind::TomModem
        } else {
            TransportKind::Serial
        }),
{
    let network = String::from_str("NETWORK");
    if at.conn_type == network {
        TransportKind::Network
    } else {
        let tom = String::from_str("TOM_MODEM");
        if at.serial.method == tom {
            TransportKind::TomModem
        } else {
            TransportKind::Serial
        }
    }
}

/// Capacity of the notification broadcast channel.
pub const URC_CHANNEL_CAPACITY: usize = 1024;

/// One helper run, assembled and ready: the positional arguments are the
/// device, `-c`, the command text, and the flag when one is present.
pub struct HelperInvocation {
    /// The device argument.
    pub port: String,
    /// The command text, trimmed.
    pub command: Vec<u8>,
    /// The feature flag argument (a dash followed by the feature), if any.
    pub flag: Option<String>,
    /// Seconds the run may take before it is abandoned.
    pub timeout: u64,
}

/// How a helper run ended: its captured standard output, or its diagnostic
/// output on a nonzero exit.
pub enum HelperOutcome {
    Success(Vec<u8>),
    Failure(Vec<u8>),
}

/// The subprocess-invocation transport: `connect` only marks it ready,
/// `send` runs the helper and caches its output, `receive` drains that
/// cache.
pub struct TomModemATConn {
    port: String,
    timeout: u64,
    feature: String,
    is_connected: bool,
    response: Option<Vec<u8>>,
}

impl TomModemATConn {
    pub closed spec fn port_view(&self) -> Seq<char> {
        self.port@
    }

    pub closed spec fn feature_view(&self) -> Seq<char> {
        self.feature@
    }

    pub closed spec fn timeout_s(&self) -> u64 {
        self.timeout
    }

    /// Ready to run the helper.
    pub closed spec fn connected(&self) -> bool {
        self.is_connected
    }

    /// The buffered synthetic reply, if one awaits `receive`.
    pub closed spec fn pending(&self) -> Option<Seq<u8>> {
        match self.response {
            Some(ref v) => Some(v@),
            None => None,
        }
    }

    /// Whether the configured feature adds a flag argument: it does unless it
    /// is empty or reads `NONE`.
    pub open spec fn has_flag(&self) -> bool {
        self.feature_view().len() > 0 && self.feature_view() != "NONE"@
    }

    pub fn new(port: String, timeout: u64, feature: String) -> (r: Self)
        ensures
            r.port_view() == port@,
            r.timeout_s() == timeout,
            r.feature_view() == feature@,
            !r.connected(),
            r.pending() is None,
    {
        TomModemATConn { port, timeout, feature, is_connected: false, response: None }
    }

    /// `connect` is a no-op that marks the transport ready.
    pub fn connect(&mut self) -> (r: Result<(), ProtocolError>)
        ensures
            r is Ok,
            final(self).connected(),
            final(self).pending() == old(self).pending(),
            final(self).port_view() == old(self).port_view(),
            final(self).feature_view() == old(self).feature_view(),
            final(self).timeout_s() == old(self).timeout_s(),
    {
        self.is_connected = true;
        Ok(())
    }

    pub fn is_connected(&self) -> (r: bool)
        ensures
            r == self.connected(),
    {
        self.is_connected
    }

    /// The decision half of `send`: refused when never connected; otherwise
    /// the helper invocation, assembled from the trimmed command, the device
    /// and the feature flag.
    pub fn send_prepare(&self, data: &[u8]) -> (r: Result<HelperInvocation, ProtocolError>)
        ensures
            match r {
                Ok(inv) => {
                    &&& self.connected()
                    &&& inv.port@ == self.port_view()
                    &&& inv.command@ == trim_spec(data@)
                    &&& inv.timeout == self.timeout_s()
                    &&& (self.has_flag() ==> (inv.flag matches Some(f) && f@ == seq!['-']
                        + self.feature_view()))
                    &&& (!self.has_flag() ==> inv.flag is None)
                },
                Err(e) => !self.connected() && e is Disconnected,
            },
    {
        if !self.is_connected {
            return Err(ProtocolError::Disconnected);
        }
        let command = trim_bytes(data);
        let flag: Option<String> = if !self.feature.as_str().is_empty() && !feature_is_none(
            &self.feature,
        ) {
            let f = String::from_str("-").concat(self.feature.as_str());
            proof {
                reveal_strlit("-");
                assert(f@ =~= seq!['-'] + self.feature@);
            }
            Some(f)
        } else {
            None
        };
        Ok(
            HelperInvocation {
                port: self.port.clone(),
                command,
                flag,
                timeout: self.timeout,
            },
        )
    }

    /// The bookkeeping half of `send`, after the helper ran: on success the
    /// captured output becomes the pending synthetic reply and the byte count
    /// handed in is reported written; a nonzero exit surfaces as a failure
    /// carrying the diagnostic output, and nothing is buffered.
    pub fn send_finish(&mut self, data_len: usize, outcome: HelperOutcome) -> (r: Result<
        usize,
        ProtocolError,
    >)
        requires
            old(self).connected(),
        ensures
            final(self).connected(),
            final(self).port_view() == old(self).port_view(),
            final(self).feature_view() == old(self).feature_view(),
            final(self).timeout_s() == old(self).timeout_s(),
            match outcome {
                HelperOutcome::Success(out) => {
                    &&& r matches Ok(n) && n == data_len
                    &&& final(self).pending() == Some(out@)
                },
                HelperOutcome::Failure(diag) => {
                    &&& r matches Err(e) && e matches ProtocolError::HelperFailed(m) && m@ == diag@
                    &&& final(self).pending() == old(self).pending()
                },
            },
    {
        match outcome {
            HelperOutcome::Success(out) => {
                self.response = Some(out);
                Ok(data_len)
            },
            HelperOutcome::Failure(diag) => Err(ProtocolError::HelperFailed(diag)),
        }
    }

    /// `receive` drains the buffered reply; with none pending it returns an
    /// empty chunk, never an error.
    pub fn receive(&mut self) -> (r: Result<Vec<u8>, ProtocolError>)
        ensures
            final(self).pending() is None,
            final(self).connected() == old(self).connected(),
            final(self).port_view() == old(self).port_view(),
            final(self).feature_view() == old(self).feature_view(),
            final(self).timeout_s() == old(self).timeout_s(),
            match old(self).pending() {
                Some(d) => r matches Ok(v) && v@ == d,
                None => r matches Ok(v) && v@.len() == 0,
            },
    {
        let mut taken: Option<Vec<u8>> = None;
        core::mem::swap(&mut taken, &mut self.response);
        match taken {
            Some(v) => Ok(v),
            None => Ok(Vec::new()),
        }
    }
}

/// Whether the feature text reads exactly `NONE`.
fn feature_is_none(feature: &String) -> (r: bool)
    ensures
        r == (feature@ == "NONE"@),
{
    let none_text = String::from_str("NONE");
    *feature == none_text
}

} // verus!
