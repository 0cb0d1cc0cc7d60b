//! Rounds of termination attempts and the record of carrying one out.
//!
//! A round lists its candidates in the order in which they are tried. The
//! driver asks for the next candidate, tries to terminate it, and records
//! the outcome, until no candidate is pending.

use vstd::prelude::*;
use crate::monitor::ProcessInfo;
use crate::notify::Notice;

verus! {

/// Why a round of terminations is made.
#[derive(Debug, Clone, Copy, PartialEq, Eq, Structural)]
pub enum Cause {
    /// The engine is in emergency mode.
    Emergency,
    /// CPU usage is over the profile's limit.
    CpuLimit,
    /// Memory usage is over the profile's limit.
    RamLimit,
    /// The temperature is over the warning threshold.
    TemperatureWarning,
    /// A profile that names processes to kill was activated.
    Activation,
}

/// One round of termination attempts.
#[derive(Debug)]
pub struct KillRound {
    pub cause: Cause,
    /// The notice to fire before the first attempt, if any.
    pub announce: Option<Notice>,
    /// The candidates, in the order in which they are tried.
    pub targets: Vec<ProcessInfo>,
    /// Whether every candidate is tried, or only up to the first success.
    pub every_target: bool,
    /// Whether each attempt starts with the polite signal.
    pub graceful: bool,
}

/// How far a round has been carried out.
pub struct Progress {
    /// How many candidates were tried.
    pub attempted: nat,
    /// How many of them were terminated.
    pub killed: nat,
    /// Whether the round ended before its last candidate.
    pub stopped: bool,
}

/// The record that the driver keeps of a round while it carries it out.
#[derive(Debug)]
pub struct RoundProgress {
    attempted: usize,
    killed: usize,
    stopped: bool,
}

impl View for RoundProgress {
    type V = Progress;

    closed spec fn view(&self) -> Progress {
        Progress {
            attempted: self.attempted as nat,
            killed: self.killed as nat,
            stopped: self.stopped,
        }
    }
}

impl RoundProgress {
    /// What holds of every record: no more kills than attempts.
    #[verifier::type_invariant]
    spec fn kills_bounded(&self) -> bool {
        self.killed <= self.attempted
    }

    /// How many candidates were tried.
    pub fn attempted(&self) -> (n: usize)
        ensures
            n == self@.attempted,
    {
        self.attempted
    }

    /// How many candidates were terminated.
    pub fn killed(&self) -> (n: usize)
        ensures
            n == self@.killed,
            self@.killed <= self@.attempted,
    {
        proof {
            use_type_invariant(self);
        }
        self.killed
    }

    /// Whether the round ended before its last candidate.
    pub fn stopped(&self) -> (yes: bool)
        ensures
            yes == self@.stopped,
    {
        self.stopped
    }
}

impl KillRound {
    /// Whether `progress` can be progress of this round.
    pub open spec fn admits(&self, progress: Progress) -> bool {
        progress.killed <= progress.attempted <= self.targets@.len()
    }

    /// The index of the candidate to try next, if the round is not over.
    pub open spec fn pending(&self, progress: Progress) -> Option<int> {
        if !progress.stopped && progress.attempted < self.targets@.len() {
            Some(progress.attempted as int)
        } else {
            None
        }
    }

    /// The progress after the pending attempt ended with `success`. A
    /// round that tries every candidate goes on whatever the outcome; the
    /// others stop at the first success. Where nothing is pending, nothing
    /// changes.
    pub open spec fn recorded(&self, progress: Progress, success: bool) -> Progress {
        if self.pending(progress) is None {
            progress
        } else {
            Progress {
                attempted: progress.attempted + 1,
                killed: if success {
                    progress.killed + 1
                } else {
                    progress.killed
                },
                stopped: success && !self.every_target,
            }
        }
    }

    /// The progress of a round of which nothing was tried yet.
    pub open spec fn started() -> Progress {
        Progress { attempted: 0, killed: 0, stopped: false }
    }

    /// The progress after the attempts ended with `outcomes`, in order.
    pub open spec fn run(&self, outcomes: Seq<bool>) -> Progress
        decreases outcomes.len(),
    {
        if outcomes.len() == 0 {
            Self::started()
        } else {
            self.recorded(self.run(outcomes.drop_last()), outcomes.last())
        }
    }

    /// Whether `notice` is the one that closes this round at `progress`:
    /// a sweep reports how many processes it killed, a single-kill round
    /// names the process it killed, which is the last one it tried; an
    /// activation reports nothing, and so does a round that killed
    /// nothing or whose progress is not its own.
    pub open spec fn closes(&self, progress: Progress, notice: Option<Notice>) -> bool {
        if progress.killed == 0 || self.cause == Cause::Activation || !self.admits(progress) {
            notice is None
        } else if self.cause == Cause::Emergency {
            notice matches Some(Notice::ProcessKilled { pid, name, count }) && pid == 0 && name@
                == "emergency"@ && count == progress.killed
        } else {
            notice matches Some(Notice::ProcessKilled { pid, name, count }) && pid
                == self.targets@[progress.attempted - 1].pid && name@
                == self.targets@[progress.attempted - 1].name@ && count == 1
        }
    }

    /// Starts the round.
    pub fn begin(&self) -> (progress: RoundProgress)
        ensures
            progress@ == Self::started(),
            self.admits(progress@),
    {
        RoundProgress { attempted: 0, killed: 0, stopped: false }
    }

    /// The candidate to try next, or nothing when the round is over.
    pub fn next_target(&self, progress: &RoundProgress) -> (target: Option<&ProcessInfo>)
        ensures
            target == match self.pending(progress@) {
                Some(i) => Some(&self.targets@[i]),
                None => None,
            },
    {
        if !progress.stopped && progress.attempted < self.targets.len() {
            Some(&self.targets[progress.attempted])
        } else {
            None
        }
    }

    /// Records that the pending attempt ended with `success`.
    pub fn record(&self, progress: &mut RoundProgress, success: bool)
        ensures
            final(progress)@ == self.recorded(old(progress)@, success),
            self.admits(old(progress)@) ==> self.admits(final(progress)@),
    {
        proof {
            use_type_invariant(&*progress);
        }
        if !progress.stopped && progress.attempted < self.targets.len() {
            progress.attempted = progress.attempted + 1;
            if success {
                progress.killed = progress.killed + 1;
            }
            progress.stopped = success && !self.every_target;
        }
    }

    /// Whether the round has terminated any process so far.
    pub fn action_taken(&self, progress: &RoundProgress) -> (taken: bool)
        ensures
            taken == (progress@.killed > 0),
    {
        progress.killed > 0
    }

    /// The notice to fire when the round is over, if any.
    pub fn closing_notice(&self, progress: &RoundProgress) -> (notice: Option<Notice>)
        ensures
            self.closes(progress@, notice),
    {
        proof {
            use_type_invariant(progress);
        }
        if progress.killed == 0 || progress.attempted > self.targets.len() {
            return None;
        }
        match self.cause {
            Cause::Activation => None,
            Cause::Emergency => Some(
                Notice::ProcessKilled {
                    pid: 0,
                    name: "emergency".to_owned(),
                    count: progress.killed,
                },
            ),
            _ => {
                let target = &self.targets[progress.attempted - 1];
                Some(Notice::ProcessKilled { pid: target.pid, name: target.name.clone(), count: 1 })
            },
        }
    }
}

/// However its attempts end, a round never tries more candidates than it
/// has, and never counts more kills than attempts.
pub proof fn lemma_run_admitted(round: KillRound, outcomes: Seq<bool>)
    ensures
        round.admits(round.run(outcomes)),
        round.run(outcomes).attempted <= outcomes.len(),
    decreases outcomes.len(),
{
    if outcomes.len() > 0 {
        lemma_run_admitted(round, outcomes.drop_last());
    }
}

/// A round that tries every candidate tries them all, one after the
/// other, whatever the outcomes: after `k` outcomes the `k`-th candidate
/// is pending, and after as many outcomes as candidates the round is
/// over.
pub proof fn lemma_sweep_tries_every_target(round: KillRound, outcomes: Seq<bool>)
    requires
        round.every_target,
        outcomes.len() <= round.targets@.len(),
    ensures
        round.run(outcomes).attempted == outcomes.len(),
        !round.run(outcomes).stopped,
        outcomes.len() < round.targets@.len() ==> round.pending(round.run(outcomes)) == Some(
            outcomes.len() as int,
        ),
        outcomes.len() == round.targets@.len() ==> round.pending(round.run(outcomes)) is None,
    decreases outcomes.len(),
{
    if outcomes.len() > 0 {
        lemma_sweep_tries_every_target(round, outcomes.drop_last());
    }
}

/// A single-kill round goes down its candidates while the attempts fail:
/// after `k` failures the `k`-th candidate is pending, and nothing was
/// killed.
pub proof fn lemma_single_kill_continues_after_failures(round: KillRound, outcomes: Seq<bool>)
    requires
        !round.every_target,
        outcomes.len() <= round.targets@.len(),
        forall|i: int| 0 <= i < outcomes.len() ==> !outcomes[i],
    ensures
        round.run(outcomes).attempted == outcomes.len(),
        round.run(outcomes).killed == 0,
        !round.run(outcomes).stopped,
        outcomes.len() < round.targets@.len() ==> round.pending(round.run(outcomes)) == Some(
            outcomes.len() as int,
        ),
    decreases outcomes.len(),
{
    if outcomes.len() > 0 {
        lemma_single_kill_continues_after_failures(round, outcomes.drop_last());
    }
}

/// A single-kill round ends with its first success: when the attempts
/// before the last failed and the last succeeded, exactly one process was
/// killed, it is the last one tried, and nothing is pending.
pub proof fn lemma_single_kill_stops_at_first_success(round: KillRound, outcomes: Seq<bool>)
    requires
        !round.every_target,
        0 < outcomes.len() <= round.targets@.len(),
        forall|i: int| 0 <= i < outcomes.len() - 1 ==> !outcomes[i],
        outcomes.last(),
    ensures
        round.run(outcomes).attempted == outcomes.len(),
        round.run(outcomes).killed == 1,
        round.pending(round.run(outcomes)) is None,
        forall|more: bool| round.recorded(round.run(outcomes), more) == round.run(outcomes),
{
    lemma_single_kill_continues_after_failures(round, outcomes.drop_last());
}

} // verus!
