//! The dual-stack listener's startup decision: one attempt at an IPv6 socket
//! that also accepts IPv4-mapped peers, one fallback to a plain IPv4
//! listener, and failure only after both. The socket calls themselves are the
//! runner's; the order and the fallback are decided here, once per startup.

use vstd::prelude::*;
use vstd::string::StringExecFns;

verus! {

/// Where the one-time bind procedure stands.
pub enum BindStep {
    /// Next: bind the IPv6 wildcard with the v6-only restriction disabled.
    TryDualStack,
    /// The dual-stack attempt failed; next: bind the plain IPv4 endpoint.
    TryIpv4,
    /// A listener is bound.
    Done,
    /// Both attempts failed: startup fails.
    Failed,
}

/// The bind procedure: dual-stack first, IPv4 on its failure, fatal only
/// after both.
pub struct BindPlan {
    step: BindStep,
}

impl BindPlan {
    pub closed spec fn step(&self) -> BindStep {
        self.step
    }

    pub fn new() -> (r: Self)
        ensures
            r.step() is TryDualStack,
    {
        BindPlan { step: BindStep::TryDualStack }
    }

    /// What to attempt next, if anything.
    pub fn next_attempt(&self) -> (r: BindStep)
        ensures
            r == self.step(),
    {
        match self.step {
            BindStep::TryDualStack => BindStep::TryDualStack,
            BindStep::TryIpv4 => BindStep::TryIpv4,
            BindStep::Done => BindStep::Done,
            BindStep::Failed => BindStep::Failed,
        }
    }

    /// Record one attempt's outcome: success ends the procedure; a failed
    /// dual-stack attempt falls back to IPv4; a failed IPv4 attempt is fatal.
    pub fn on_outcome(&mut self, bound: bool)
        requires
            old(self).step() is TryDualStack || old(self).step() is TryIpv4,
        ensures
            final(self).step() == (if bound {
                BindStep::Done
            } else if old(self).step() is TryDualStack {
                BindStep::TryIpv4
            } else {
                BindStep::Failed
            }),
    {
        if bound {
            self.step = BindStep::Done;
        } else {
            match self.step {
                BindStep::TryDualStack => {
                    self.step = BindStep::TryIpv4;
                },
                _ => {
                    self.step = BindStep::Failed;
                },
            }
        }
    }
}

/// Whether the configured IPv6 host is the wildcard, which is taken as the
/// unspecified address without parsing.
pub fn ipv6_host_is_wildcard(host: &str) -> (r: bool)
    ensures
        r == (host@ == "::"@),
{
    let wildcard = String::from_str("::");
    let h = String::from_str(host);
    h == wildcard
}

} // verus!
