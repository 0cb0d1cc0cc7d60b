//! Requests of the user to kill every process of one name.

use vstd::prelude::*;
use crate::config::KernConfig;
use crate::killer::{
    find_processes_by_name, is_critical_name, is_critical_process, is_protected, listed, named,
};
use crate::monitor::ProcessInfo;
use crate::text::{str_eq, trim, trimmed};

verus! {

/// What is to become of a request to kill every process of one name.
#[derive(Debug)]
pub enum ManualKill {
    /// No process of that name is running.
    NotRunning,
    /// The name is critical: the request is refused.
    Critical,
    /// The name is protected by the configuration: the request is refused.
    Protected,
    /// More processes than the configured threshold would be killed: the
    /// user is to confirm first.
    Confirm { pids: Vec<u32> },
    /// These processes are to be killed.
    Kill { pids: Vec<u32> },
}

/// Decides on a request to kill every process called `name`, given the
/// process table.
///
/// A name that is not running is reported as such, whatever it is. A
/// critical name is refused, then a protected one. More processes than
/// `kill_confirmation_threshold` need the user's confirmation.
pub fn kill_process_by_name(name: &str, processes: &Vec<ProcessInfo>, config: &KernConfig) -> (decision:
    ManualKill)
    ensures
        ({
            let found = named(processes@, name@).map_values(|p: ProcessInfo| p.pid);
            if found.len() == 0 {
                decision is NotRunning
            } else if is_critical_name(name@) {
                decision is Critical
            } else if listed(name@, config.protected_processes@) {
                decision is Protected
            } else if found.len() > config.kill_confirmation_threshold {
                decision matches ManualKill::Confirm { pids } && pids@ == found
            } else {
                decision matches ManualKill::Kill { pids } && pids@ == found
            }
        }),
{
    let pids = find_processes_by_name(processes, name);
    if pids.len() == 0 {
        return ManualKill::NotRunning;
    }
    if is_critical_process(name) {
        return ManualKill::Critical;
    }
    if is_protected(name, config.protected_processes.as_slice()) {
        return ManualKill::Protected;
    }
    if pids.len() > config.kill_confirmation_threshold {
        ManualKill::Confirm { pids }
    } else {
        ManualKill::Kill { pids }
    }
}

/// The answers that confirm a kill: `yes` and `y`, in any mix of upper and
/// lower case.
pub open spec fn confirming_answers() -> Seq<Seq<char>> {
    seq![
        "y"@,
        "Y"@,
        "yes"@,
        "yeS"@,
        "yEs"@,
        "yES"@,
        "Yes"@,
        "YeS"@,
        "YEs"@,
        "YES"@,
    ]
}

/// Whether `answer` is one of the answers that confirm a kill.
pub fn is_confirming_answer(answer: &str) -> (confirmed: bool)
    ensures
        confirmed == confirming_answers().contains(answer@),
{
    let answers: [&str; 10] = ["y", "Y", "yes", "yeS", "yEs", "yES", "Yes", "YeS", "YEs", "YES"];
    assert(confirming_answers().len() == 10);
    assert(forall|k: int| 0 <= k < 10 ==> (#[trigger] answers@[k])@ == confirming_answers()[k]);
    let mut i: usize = 0;
    while i < 10
        invariant
            i <= 10,
            answers@.len() == 10,
            confirming_answers().len() == 10,
            forall|k: int| 0 <= k < 10 ==> (#[trigger] answers@[k])@ == confirming_answers()[k],
            forall|k: int| 0 <= k < i ==> confirming_answers()[k] != answer@,
        decreases 10 - i,
    {
        if str_eq(answers[i], answer) {
            assert(confirming_answers()[i as int] == answer@);
            return true;
        }
        i += 1;
    }
    false
}

/// Whether the line that the user typed confirms the kill. Whitespace
/// around the answer is ignored.
pub fn is_confirmation(input: &str) -> (confirmed: bool)
    ensures
        confirmed == confirming_answers().contains(trimmed(input@)),
{
    is_confirming_answer(trim(input))
}

} // verus!
