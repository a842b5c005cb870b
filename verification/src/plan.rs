//! What a caller chooses for a probe session.

use vstd::prelude::*;

verus! {

/// The multicast group to which probes are sent.
pub const DISCOVERY_GROUP: &'static str = "239.255.255.250";

/// The port to which probes are sent.
pub const DISCOVERY_PORT: u16 = 3702;

/// The parameters of a probe session.
#[derive(Debug, Clone, Copy, PartialEq, Eq, Structural)]
pub struct ProbePlan {
    /// How many rounds of probes are sent, each with one probe for every
    /// device type.
    pub rounds: u32,
    /// The pause after each probe, in milliseconds.
    pub pause_millis: u64,
    /// How long one read of the socket may take before the listener looks
    /// for the stop signal again, in milliseconds.
    pub read_timeout_millis: u64,
    /// The number of distinct devices at which the session ends without
    /// waiting further, if any.
    pub limit: Option<usize>,
}

impl ProbePlan {
    /// Three rounds, a tenth of a second between probes, reads of one second
    /// and no limit on the devices found.
    pub open spec fn usual() -> ProbePlan {
        ProbePlan { rounds: 3, pause_millis: 100, read_timeout_millis: 1000, limit: None }
    }
}

impl Default for ProbePlan {
    fn default() -> (r: Self)
        ensures
            r == ProbePlan::usual(),
    {
        ProbePlan { rounds: 3, pause_millis: 100, read_timeout_millis: 1000, limit: None }
    }
}

} // verus!
