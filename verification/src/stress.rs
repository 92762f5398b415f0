//! The channel stability test: the tally that the timed probe loop feeds,
//! one outcome at a time.

use vstd::prelude::*;
use crate::adb::AdbClient;
use crate::rate::sat_u64;

verus! {

/// Runs the stability test over the command channel.
pub struct StressRunner {
    pub client: AdbClient,
}

/// Counts of successful and failed probes, saturating rather than
/// wrapping on a run that somehow exhausts the counters.
#[derive(Clone, Copy, Debug, PartialEq, Eq, Structural)]
pub struct StressTally {
    pub success: u64,
    pub failed: u64,
}

impl StressRunner {
    pub fn new(c: AdbClient) -> (r: StressRunner)
        ensures
            r.client == c,
    {
        StressRunner { client: c }
    }
}

impl StressTally {
    /// A tally before any probe.
    pub fn new() -> (t: StressTally)
        ensures
            t.success == 0,
            t.failed == 0,
    {
        StressTally { success: 0, failed: 0 }
    }

    /// Records one probe's outcome.
    pub fn record(&mut self, ok: bool)
        ensures
            ok ==> final(self).success == sat_u64(old(self).success + 1) && final(self).failed
                == old(self).failed,
            !ok ==> final(self).failed == sat_u64(old(self).failed + 1) && final(self).success
                == old(self).success,
    {
        if ok {
            self.success = self.success.saturating_add(1);
        } else {
            self.failed = self.failed.saturating_add(1);
        }
    }
}

} // verus!
