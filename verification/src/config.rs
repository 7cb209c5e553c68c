//! What the operator configures: the mailbox account and the polling.

use vstd::prelude::*;

verus! {

/// The account with which the agent reads its mailbox and sends its replies.
#[derive(Clone, Debug)]
pub struct MailboxCredentials {
    pub username: String,
    pub secret: String,
}

/// How often the mailbox is polled, and the tag by which command requests are known.
#[derive(Clone, Debug)]
pub struct PollConfig {
    /// The time between the starts of two poll runs, in seconds. Never zero.
    pub interval_seconds: u64,
    /// The tag that the subject of a command request carries. Its case does not matter.
    pub command_tag: String,
}

impl PollConfig {
    /// The interval is positive.
    pub open spec fn well_formed(&self) -> bool {
        self.interval_seconds > 0
    }

    /// The configuration for polling every `interval_minutes` minutes for requests tagged
    /// `command_tag`. There is none for an interval of zero, nor for one whose seconds do
    /// not fit in 64 bits.
    pub fn new(interval_minutes: u64, command_tag: String) -> (config: Option<PollConfig>)
        ensures
            match config {
                Some(c) => {
                    &&& c.well_formed()
                    &&& c.interval_seconds == interval_minutes * 60
                    &&& c.command_tag@ == command_tag@
                },
                None => interval_minutes == 0 || interval_minutes * 60 > u64::MAX,
            },
    {
        if interval_minutes == 0 {
            return None;
        }
        match interval_minutes.checked_mul(60) {
            Some(interval_seconds) => Some(PollConfig { interval_seconds, command_tag }),
            None => None,
        }
    }
}

} // verus!
