//! Opportunistic fprintd device claim: the "skip the fingerprint" lever.
//!
//! While the greeter holds the device claim, pam_fprintd in a freshly created
//! greetd session fails its own claim instantly and the PAM stack falls
//! straight through to the password. The claim is retried briefly, because a
//! dying session's pam_fprintd may lag its release; a claim that is had is
//! held until nobody wants it any more.

use vstd::prelude::*;

verus! {

/// How often the claim is tried.
pub const ATTEMPTS: u32 = 20;

/// Milliseconds between two attempts.
pub const RETRY_PAUSE: u64 = 50;

/// What to do next about the claim.
#[derive(Debug, Clone, Copy, PartialEq, Eq, Structural)]
pub enum Step {
    /// Try to claim the reader.
    Claim,
    /// Pause this long, then try again.
    Retry(u64),
    /// Hold the claim until it is no longer wanted, then release it.
    Hold,
    /// Leave the reader alone.
    GiveUp,
}

/// What an attempt leads to, after so many that failed.
pub open spec fn step_after(failed: u32, claimed: bool, wanted: bool) -> Step {
    if claimed {
        Step::Hold
    } else if !wanted || failed + 1 == ATTEMPTS {
        Step::GiveUp
    } else {
        Step::Retry(RETRY_PAUSE)
    }
}

/// One claim in the making.
#[derive(Debug, Clone, Copy, PartialEq, Eq, Structural)]
pub struct Handle {
    tries: u32,
}

impl Handle {
    /// Failed attempts so far.
    pub closed spec fn failed(&self) -> u32 {
        self.tries
    }

    /// There are attempts left.
    pub open spec fn wf(&self) -> bool {
        self.failed() < ATTEMPTS
    }

    /// A claim that has not been tried yet.
    pub fn claim() -> (r: (Handle, Step))
        ensures
            r.0.wf(),
            r.0.failed() == 0,
            r.1 == Step::Claim,
    {
        (Handle { tries: 0 }, Step::Claim)
    }

    /// An attempt ended; `wanted` tells whether somebody still holds on to
    /// the claim.
    pub fn attempted(&mut self, claimed: bool, wanted: bool) -> (r: Step)
        requires
            old(self).wf(),
        ensures
            r == step_after(old(self).failed(), claimed, wanted),
            final(self).failed() == if claimed {
                old(self).failed() as int
            } else {
                old(self).failed() + 1
            },
            r is Retry ==> final(self).wf(),
    {
        if claimed {
            return Step::Hold;
        }
        self.tries += 1;
        if !wanted || self.tries == ATTEMPTS {
            Step::GiveUp
        } else {
            Step::Retry(RETRY_PAUSE)
        }
    }
}

/// A claim that is had is held. One that is not is tried again every 50
/// milliseconds for as long as it is wanted, twenty times in all.
pub proof fn law_a_claim_is_tried_twenty_times(failed: u32, wanted: bool)
    requires
        failed < 20,
    ensures
        step_after(failed, true, wanted) is Hold,
        step_after(failed, false, false) is GiveUp,
        step_after(failed, false, true) == if failed < 19 {
            Step::Retry(50)
        } else {
            Step::GiveUp
        },
        ATTEMPTS == 20,
{
}

} // verus!
