//! The scheduler: the outermost loop of the agent, as the rule that its caller follows.
//!
//! A poll run is launched, then the interval is waited out, then the next run is launched,
//! and so on without end. A run is launched on its own: the scheduler neither waits for it
//! nor learns how it ended, so that a run that hangs or fails holds up nothing.
//!
//! The price is that runs can overlap. A run that takes longer than the interval is still
//! at work when the next one lists the mailbox, and both may then fetch, run and answer the
//! same request. Nothing here prevents that; a caller that cannot afford it waits for each
//! run before it asks for the next tick.

use crate::config::PollConfig;
use vstd::prelude::*;

verus! {

/// What the scheduler has its caller do next.
#[derive(Clone, Copy, Debug, PartialEq, Eq, Structural)]
pub enum Tick {
    /// Launch one poll run, detached, and come back at once.
    Launch,
    /// Wait for this many seconds.
    Wait(u64),
}

/// The scheduler of the poll runs.
#[derive(Clone, Copy, Debug)]
pub struct Scheduler {
    /// The time between two launches, in seconds.
    pub interval_seconds: u64,
    /// Whether a run was launched since the last wait.
    pub launched: bool,
}

/// What a scheduler in the state `scheduler` does next.
pub open spec fn tick_of(scheduler: Scheduler) -> Tick {
    if scheduler.launched {
        Tick::Wait(scheduler.interval_seconds)
    } else {
        Tick::Launch
    }
}

/// The first `n` things that a scheduler in the state `scheduler` does, in order.
pub open spec fn ticks_of(scheduler: Scheduler, n: nat) -> Seq<Tick>
    decreases n,
{
    if n == 0 {
        Seq::empty()
    } else {
        seq![tick_of(scheduler)] + ticks_of(
            Scheduler { launched: !scheduler.launched, ..scheduler },
            (n - 1) as nat,
        )
    }
}

impl Scheduler {
    /// The scheduler for `config`. It begins with a launch.
    pub fn new(config: &PollConfig) -> (scheduler: Scheduler)
        ensures
            scheduler == (Scheduler { interval_seconds: config.interval_seconds, launched: false }),
    {
        Scheduler { interval_seconds: config.interval_seconds, launched: false }
    }

    /// What is to be done next: a launch after each wait, a wait of the interval after each
    /// launch.
    pub fn next(&mut self) -> (tick: Tick)
        ensures
            tick == tick_of(*old(self)),
            *final(self) == (Scheduler { launched: !old(self).launched, ..*old(self) }),
    {
        if self.launched {
            self.launched = false;
            Tick::Wait(self.interval_seconds)
        } else {
            self.launched = true;
            Tick::Launch
        }
    }
}

/// A scheduler never ends and never changes its pace: of what a new scheduler does, every
/// other thing is a launch, the first one too, and between two launches lies one wait of the
/// configured interval.
pub proof fn lemma_launches_and_waits_alternate(interval_seconds: u64, n: nat, i: int)
    requires
        0 <= i < n,
    ensures
        ticks_of(Scheduler { interval_seconds, launched: false }, n).len() == n,
        ticks_of(Scheduler { interval_seconds, launched: false }, n)[i] == if i % 2 == 0 {
            Tick::Launch
        } else {
            Tick::Wait(interval_seconds)
        },
{
    lemma_ticks(Scheduler { interval_seconds, launched: false }, n, i);
}

proof fn lemma_ticks(scheduler: Scheduler, n: nat, i: int)
    requires
        0 <= i < n,
    ensures
        ticks_of(scheduler, n).len() == n,
        ticks_of(scheduler, n)[i] == if (i % 2 == 0) != scheduler.launched {
            Tick::Launch
        } else {
            Tick::Wait(scheduler.interval_seconds)
        },
    decreases n,
{
    let rest = Scheduler { launched: !scheduler.launched, ..scheduler };
    if n > 1 {
        if i > 0 {
            lemma_ticks(rest, (n - 1) as nat, i - 1);
        } else {
            lemma_ticks(rest, (n - 1) as nat, 0);
        }
    } else {
        assert(ticks_of(rest, 0).len() == 0);
    }
}

} // verus!
