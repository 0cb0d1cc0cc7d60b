//! Classification of process names, the termination protocol and the
//! records of the kill log.

use vstd::prelude::*;
use crate::monitor::ProcessInfo;
use crate::text::{decimal, push_decimal, str_eq};
use vstd::string::StringExecFns;

verus! {

/// Whether `name` occurs in `list`, compared character by character.
pub open spec fn listed(name: Seq<char>, list: Seq<String>) -> bool {
    exists|i: int| 0 <= i < list.len() && (#[trigger] list[i])@ == name
}

/// Exact, case-sensitive membership of `name` in `protected_list`.
pub fn is_protected(name: &str, protected_list: &[String]) -> (found: bool)
    ensures
        found == listed(name@, protected_list@),
{
    let mut i: usize = 0;
    while i < protected_list.len()
        invariant
            i <= protected_list.len(),
            forall|k: int| 0 <= k < i ==> (#[trigger] protected_list@[k])@ != name@,
        decreases protected_list.len() - i,
    {
        if str_eq(protected_list[i].as_str(), name) {
            return true;
        }
        i += 1;
    }
    false
}

/// The names that are never a termination target, whatever the
/// configuration says.
pub open spec fn critical_names() -> Seq<Seq<char>> {
    seq![
        "systemd"@,
        "gnome-shell"@,
        "Xwayland"@,
        "X"@,
        "Xvfb"@,
        "dbus-daemon"@,
        "bluetoothd"@,
        "wpa_supplicant"@,
        "NetworkManager"@,
        "ModemManager"@,
        "upowerd"@,
        "systemd-logind"@,
        "login"@,
        "sshd"@,
        "sudo"@,
    ]
}

/// Whether `name` is one of the critical names.
pub open spec fn is_critical_name(name: Seq<char>) -> bool {
    critical_names().contains(name)
}

/// Exact match of `name` against the fixed set of critical process names.
pub fn is_critical_process(name: &str) -> (critical: bool)
    ensures
        critical == is_critical_name(name@),
{
    let names: [&str; 15] = [
        "systemd",
        "gnome-shell",
        "Xwayland",
        "X",
        "Xvfb",
        "dbus-daemon",
        "bluetoothd",
        "wpa_supplicant",
        "NetworkManager",
        "ModemManager",
        "upowerd",
        "systemd-logind",
        "login",
        "sshd",
        "sudo",
    ];
    assert(names@.len() == 15);
    assert(critical_names().len() == 15);
    assert(forall|k: int| 0 <= k < 15 ==> (#[trigger] names@[k])@ == critical_names()[k]);
    let mut i: usize = 0;
    while i < 15
        invariant
            i <= 15,
            names@.len() == 15,
            critical_names().len() == 15,
            forall|k: int| 0 <= k < 15 ==> (#[trigger] names@[k])@ == critical_names()[k],
            forall|k: int| 0 <= k < i ==> critical_names()[k] != name@,
        decreases 15 - i,
    {
        if str_eq(names[i], name) {
            assert(critical_names()[i as int] == name@);
            return true;
        }
        i += 1;
    }
    false
}

/// The processes of `processes` that are called `name`, in their order.
pub open spec fn named(processes: Seq<ProcessInfo>, name: Seq<char>) -> Seq<ProcessInfo> {
    processes.filter(|p: ProcessInfo| p.name@ == name)
}

/// Appends to `list` the processes of `processes` that are called `name`.
pub fn push_named(list: &mut Vec<ProcessInfo>, processes: &Vec<ProcessInfo>, name: &str)
    ensures
        final(list)@ == old(list)@ + named(processes@, name@),
{
    let ghost keep = |p: ProcessInfo| p.name@ == name@;
    let mut i: usize = 0;
    proof {
        reveal(Seq::filter);
        assert(processes@.take(0) =~= Seq::<ProcessInfo>::empty());
        assert(list@ =~= old(list)@ + processes@.take(0).filter(keep));
    }
    while i < processes.len()
        invariant
            i <= processes.len(),
            keep == |p: ProcessInfo| p.name@ == name@,
            list@ == old(list)@ + processes@.take(i as int).filter(keep),
        decreases processes.len() - i,
    {
        let p = &processes[i];
        let hit = str_eq(p.name.as_str(), name);
        proof {
            reveal(Seq::filter);
            let next = processes@.take(i + 1);
            assert(next.drop_last() =~= processes@.take(i as int));
            assert(next.last() == processes@[i as int]);
            assert(hit == keep(processes@[i as int]));
        }
        if hit {
            list.push(p.duplicate());
            assert(list@ =~= old(list)@ + processes@.take(i + 1).filter(keep));
        }
        i += 1;
    }
    proof {
        assert(processes@.take(i as int) =~= processes@);
    }
}

/// The identifiers of the processes of `processes` that are called
/// exactly `name`, in their order.
pub fn find_processes_by_name(processes: &Vec<ProcessInfo>, name: &str) -> (pids: Vec<u32>)
    ensures
        pids@ == named(processes@, name@).map_values(|p: ProcessInfo| p.pid),
{
    let mut found: Vec<ProcessInfo> = Vec::new();
    push_named(&mut found, processes, name);
    assert(found@ =~= named(processes@, name@));
    let mut pids: Vec<u32> = Vec::new();
    let mut i: usize = 0;
    while i < found.len()
        invariant
            i <= found.len(),
            pids@.len() == i,
            forall|k: int| 0 <= k < i ==> pids@[k] == found@[k].pid,
        decreases found.len() - i,
    {
        pids.push(found[i].pid);
        i += 1;
    }
    assert(pids@ =~= found@.map_values(|p: ProcessInfo| p.pid));
    pids
}

/// Milliseconds between two liveness checks of a graceful termination.
pub const POLL_INTERVAL_MS: u64 = 100;

/// Liveness checks made before a graceful termination turns forceful:
/// five seconds' worth.
pub const POLL_LIMIT: u32 = 50;

/// The two signals of the protocol.
#[derive(Debug, Clone, Copy, PartialEq, Eq, Structural)]
pub enum Signal {
    /// The polite request to exit.
    Terminate,
    /// The forceful kill.
    Kill,
}

/// What became of a signal that was sent.
#[derive(Debug, Clone, Copy, PartialEq, Eq, Structural)]
pub enum SignalOutcome {
    /// The process was there and the signal was delivered.
    Delivered,
    /// There is no such process: it has exited.
    NoSuchProcess,
    /// The signal could not be sent; `errno` says why.
    Failed { errno: i32 },
}

/// The signal whose failure ended a termination.
#[derive(Debug, Clone, Copy, PartialEq, Eq, Structural)]
pub enum KillStage {
    /// The first polite signal of a graceful termination.
    Terminate,
    /// The forceful signal that follows the waiting time.
    ForceKill,
    /// The forceful signal of an immediate termination.
    Kill,
}

/// A termination that failed.
#[derive(Debug, Clone, Copy, PartialEq, Eq, Structural)]
pub struct KillError {
    pub stage: KillStage,
    pub pid: u32,
    /// What became of the signal; never `Delivered`.
    pub outcome: SignalOutcome,
}

/// What the driver is asked to do next.
#[derive(Debug, Clone, Copy, PartialEq, Eq)]
pub enum KillStep {
    /// Send this signal to the process and report the outcome.
    Send(Signal),
    /// Sleep for so many milliseconds and report back.
    Wait(u64),
    /// Nothing more: the termination ended with this result.
    Done(Result<(), KillError>),
}

/// What the driver reports.
#[derive(Debug, Clone, Copy, PartialEq, Eq, Structural)]
pub enum KillEvent {
    /// The signal that was asked for was sent, with this outcome.
    Signalled(SignalOutcome),
    /// The waiting time that was asked for has passed.
    Waited,
}

/// Where a termination stands.
#[derive(Debug, Clone, Copy, PartialEq, Eq)]
pub enum Phase {
    /// The first polite signal is out.
    Terminating,
    /// Waiting before the next liveness check; so many checks were made.
    Sleeping(u32),
    /// A liveness check is out; so many were made before it.
    Polling(u32),
    /// The waiting time is over and the forceful signal is out.
    Escalating,
    /// The forceful signal of an immediate termination is out.
    Killing,
    /// Over.
    Finished(Result<(), KillError>),
}

/// One termination in progress: the escalation from the polite signal to
/// the forceful one, as a machine that the driver steps.
#[derive(Debug, Clone, Copy, PartialEq, Eq)]
pub struct Termination {
    pub pid: u32,
    pub phase: Phase,
}

impl Termination {
    /// A termination of `pid` of which nothing was done yet but to ask for
    /// the first signal.
    pub open spec fn started(pid: u32, graceful: bool) -> Termination {
        Termination {
            pid,
            phase: if graceful {
                Phase::Terminating
            } else {
                Phase::Killing
            },
        }
    }

    /// The request that the driver has yet to answer. A liveness check
    /// repeats the polite signal.
    pub open spec fn spec_pending(&self) -> KillStep {
        match self.phase {
            Phase::Terminating => KillStep::Send(Signal::Terminate),
            Phase::Sleeping(_) => KillStep::Wait(POLL_INTERVAL_MS),
            Phase::Polling(_) => KillStep::Send(Signal::Terminate),
            Phase::Escalating => KillStep::Send(Signal::Kill),
            Phase::Killing => KillStep::Send(Signal::Kill),
            Phase::Finished(result) => KillStep::Done(result),
        }
    }

    /// Whether `event` answers the pending request.
    pub open spec fn answers(self, event: KillEvent) -> bool {
        match self.spec_pending() {
            KillStep::Send(_) => event is Signalled,
            KillStep::Wait(_) => event is Waited,
            KillStep::Done(_) => false,
        }
    }

    /// The failure of this termination at `stage`.
    pub open spec fn failure(self, stage: KillStage, outcome: SignalOutcome) -> Phase {
        Phase::Finished(Err(KillError { stage, pid: self.pid, outcome }))
    }

    /// The termination after `event`. An event that does not answer the
    /// pending request changes nothing.
    ///
    /// A process that is gone at the first polite signal or at a liveness
    /// check was terminated. After the last liveness check the forceful
    /// signal goes out; it, like the forceful signal of an immediate
    /// termination, has to be delivered.
    pub open spec fn next(self, event: KillEvent) -> Termination {
        let phase = match (self.phase, event) {
            (Phase::Terminating, KillEvent::Signalled(SignalOutcome::Delivered)) => {
                Phase::Sleeping(0)
            },
            (Phase::Terminating, KillEvent::Signalled(SignalOutcome::NoSuchProcess)) => {
                Phase::Finished(Ok(()))
            },
            (Phase::Terminating, KillEvent::Signalled(outcome)) => self.failure(
                KillStage::Terminate,
                outcome,
            ),
            (Phase::Sleeping(made), KillEvent::Waited) => Phase::Polling(made),
            (Phase::Polling(_), KillEvent::Signalled(SignalOutcome::NoSuchProcess)) => {
                Phase::Finished(Ok(()))
            },
            (Phase::Polling(made), KillEvent::Signalled(_)) => if made + 1 < POLL_LIMIT {
                Phase::Sleeping((made + 1) as u32)
            } else {
                Phase::Escalating
            },
            (Phase::Escalating, KillEvent::Signalled(SignalOutcome::Delivered)) => Phase::Finished(
                Ok(()),
            ),
            (Phase::Escalating, KillEvent::Signalled(outcome)) => self.failure(
                KillStage::ForceKill,
                outcome,
            ),
            (Phase::Killing, KillEvent::Signalled(SignalOutcome::Delivered)) => Phase::Finished(
                Ok(()),
            ),
            (Phase::Killing, KillEvent::Signalled(outcome)) => self.failure(
                KillStage::Kill,
                outcome,
            ),
            (phase, _) => phase,
        };
        Termination { pid: self.pid, phase }
    }

    /// The request that the driver has yet to answer.
    #[verifier::when_used_as_spec(spec_pending)]
    pub fn pending(&self) -> (step: KillStep)
        ensures
            step == self.spec_pending(),
    {
        match self.phase {
            Phase::Terminating => KillStep::Send(Signal::Terminate),
            Phase::Sleeping(_) => KillStep::Wait(POLL_INTERVAL_MS),
            Phase::Polling(_) => KillStep::Send(Signal::Terminate),
            Phase::Escalating => KillStep::Send(Signal::Kill),
            Phase::Killing => KillStep::Send(Signal::Kill),
            Phase::Finished(result) => KillStep::Done(result),
        }
    }

    /// The result, once the termination is over.
    pub fn result(&self) -> (result: Option<Result<(), KillError>>)
        ensures
            result == match self.phase {
                Phase::Finished(r) => Some(r),
                _ => None,
            },
    {
        match self.phase {
            Phase::Finished(r) => Some(r),
            _ => None,
        }
    }

    fn fail(&self, stage: KillStage, outcome: SignalOutcome) -> (phase: Phase)
        ensures
            phase == self.failure(stage, outcome),
    {
        Phase::Finished(Err(KillError { stage, pid: self.pid, outcome }))
    }

    /// Takes the driver's report and hands back the next request.
    pub fn advance(&mut self, event: KillEvent) -> (step: KillStep)
        ensures
            *final(self) == old(self).next(event),
            step == final(self).spec_pending(),
    {
        let phase = match self.phase {
            Phase::Terminating => match event {
                KillEvent::Signalled(SignalOutcome::Delivered) => Phase::Sleeping(0),
                KillEvent::Signalled(SignalOutcome::NoSuchProcess) => Phase::Finished(Ok(())),
                KillEvent::Signalled(outcome) => self.fail(KillStage::Terminate, outcome),
                KillEvent::Waited => Phase::Terminating,
            },
            Phase::Sleeping(made) => match event {
                KillEvent::Waited => Phase::Polling(made),
                KillEvent::Signalled(_) => Phase::Sleeping(made),
            },
            Phase::Polling(made) => match event {
                KillEvent::Signalled(SignalOutcome::NoSuchProcess) => Phase::Finished(Ok(())),
                KillEvent::Signalled(_) => if made < POLL_LIMIT - 1 {
                    Phase::Sleeping(made + 1)
                } else {
                    Phase::Escalating
                },
                KillEvent::Waited => Phase::Polling(made),
            },
            Phase::Escalating => match event {
                KillEvent::Signalled(SignalOutcome::Delivered) => Phase::Finished(Ok(())),
                KillEvent::Signalled(outcome) => self.fail(KillStage::ForceKill, outcome),
                KillEvent::Waited => Phase::Escalating,
            },
            Phase::Killing => match event {
                KillEvent::Signalled(SignalOutcome::Delivered) => Phase::Finished(Ok(())),
                KillEvent::Signalled(outcome) => self.fail(KillStage::Kill, outcome),
                KillEvent::Waited => Phase::Killing,
            },
            Phase::Finished(result) => Phase::Finished(result),
        };
        self.phase = phase;
        self.pending()
    }
}

/// Starts the termination of `pid`: graceful with the polite signal
/// first, otherwise with the forceful signal at once.
pub fn kill_process(pid: u32, graceful: bool) -> (termination: Termination)
    ensures
        termination == Termination::started(pid, graceful),
        termination.spec_pending() == KillStep::Send(
            if graceful {
                Signal::Terminate
            } else {
                Signal::Kill
            },
        ),
{
    Termination {
        pid,
        phase: if graceful {
            Phase::Terminating
        } else {
            Phase::Killing
        },
    }
}

/// The report of a driver whose target never exits: every signal is
/// delivered and every waiting time is served.
pub open spec fn alive_answer(step: KillStep) -> KillEvent {
    match step {
        KillStep::Wait(_) => KillEvent::Waited,
        _ => KillEvent::Signalled(SignalOutcome::Delivered),
    }
}

/// The termination `start` after `n` reports of such a driver.
pub open spec fn alive_after(start: Termination, n: nat) -> Termination
    decreases n,
{
    if n == 0 {
        start
    } else {
        let before = alive_after(start, (n - 1) as nat);
        before.next(alive_answer(before.spec_pending()))
    }
}

/// The milliseconds that the first `n` requests of `start` to such a
/// driver ask it to wait.
pub open spec fn alive_waited(start: Termination, n: nat) -> nat
    decreases n,
{
    if n == 0 {
        0
    } else {
        alive_waited(start, (n - 1) as nat) + match alive_after(
            start,
            (n - 1) as nat,
        ).spec_pending() {
            KillStep::Wait(ms) => ms as nat,
            _ => 0,
        }
    }
}

proof fn lemma_alive_shape(pid: u32, n: nat)
    requires
        n <= 2 * POLL_LIMIT + 1,
    ensures
        ({
            let start = Termination::started(pid, true);
            let now = alive_after(start, n);
            &&& now.pid == pid
            &&& n == 0 ==> now.phase == Phase::Terminating && alive_waited(start, n) == 0
            &&& n % 2 == 1 && n < 2 * POLL_LIMIT + 1 ==> now.phase == Phase::Sleeping(
                ((n - 1) / 2) as u32,
            ) && alive_waited(start, n) == POLL_INTERVAL_MS * ((n - 1) / 2)
            &&& n >= 2 && n % 2 == 0 ==> now.phase == Phase::Polling(((n - 2) / 2) as u32)
                && alive_waited(start, n) == POLL_INTERVAL_MS * (n / 2)
            &&& n == 2 * POLL_LIMIT + 1 ==> now.phase == Phase::Escalating && alive_waited(
                start,
                n,
            ) == POLL_INTERVAL_MS * POLL_LIMIT
        }),
    decreases n,
{
    if n > 0 {
        lemma_alive_shape(pid, (n - 1) as nat);
    }
}

proof fn lemma_alive_finished(pid: u32, n: nat)
    requires
        n >= 2 * POLL_LIMIT + 2,
    ensures
        alive_after(Termination::started(pid, true), n).phase == Phase::Finished(Ok(())),
    decreases n,
{
    if n == 2 * POLL_LIMIT + 2 {
        lemma_alive_shape(pid, (n - 1) as nat);
    } else {
        lemma_alive_finished(pid, (n - 1) as nat);
    }
}

/// Escalation: a graceful termination of a process that never exits
/// sends the forceful signal exactly once, as its request number 101,
/// after fifty liveness checks; the requests before it ask the driver to
/// wait five seconds in all; and the termination then ends in success.
pub proof fn lemma_escalation(pid: u32, i: nat)
    ensures
        ({
            let start = Termination::started(pid, true);
            &&& alive_after(start, i).spec_pending() == KillStep::Send(Signal::Kill) <==> i == 2
                * POLL_LIMIT + 1
            &&& alive_waited(start, (2 * POLL_LIMIT + 1) as nat) == 5000
            &&& i > 2 * POLL_LIMIT + 1 ==> alive_after(start, i).spec_pending() == KillStep::Done(
                Ok(()),
            )
        }),
{
    lemma_alive_shape(pid, (2 * POLL_LIMIT + 1) as nat);
    if i <= 2 * POLL_LIMIT + 1 {
        lemma_alive_shape(pid, i);
    } else {
        lemma_alive_finished(pid, i);
    }
}

/// A process that is gone when the first polite signal or a liveness
/// check reaches it counts as terminated, and no forceful signal follows.
pub proof fn lemma_exit_is_success(termination: Termination)
    requires
        termination.phase is Terminating || termination.phase is Polling,
    ensures
        termination.next(KillEvent::Signalled(SignalOutcome::NoSuchProcess)).phase
            == Phase::Finished(Ok(())),
{
}

/// A termination that is over stays as it is, whatever is reported.
pub proof fn lemma_finished_is_final(termination: Termination, event: KillEvent)
    requires
        termination.phase is Finished,
    ensures
        termination.next(event) == termination,
{
}

/// The termination of several processes, one after the other, that ends
/// with the first one that fails.
#[derive(Debug, Clone)]
pub struct BatchTermination {
    pub pids: Vec<u32>,
    pub graceful: bool,
    /// How many processes were terminated.
    pub index: usize,
    /// The termination in progress, while `index` is within `pids`.
    pub current: Termination,
}

impl BatchTermination {
    /// Whether the termination in progress is that of the process at
    /// `index`, and is not yet known to have succeeded.
    pub open spec fn wf(&self) -> bool {
        &&& self.index <= self.pids@.len()
        &&& self.index < self.pids@.len() ==> self.current.pid == self.pids@[self.index as int]
            && !(self.current.phase matches Phase::Finished(Ok(_)))
    }

    /// The batch over `pids` of which nothing was done yet.
    pub open spec fn started(pids: Seq<u32>, graceful: bool, batch: BatchTermination) -> bool {
        &&& batch.pids@ == pids
        &&& batch.graceful == graceful
        &&& batch.index == 0
        &&& pids.len() > 0 ==> batch.current == Termination::started(pids[0], graceful)
    }

    /// The request that the driver has yet to answer: that of the
    /// termination in progress, or the end in success when no process is
    /// left.
    pub open spec fn spec_pending(&self) -> KillStep {
        if self.index >= self.pids@.len() {
            KillStep::Done(Ok(()))
        } else {
            self.current.spec_pending()
        }
    }

    /// The index and the termination in progress after `event`. When the
    /// termination in progress succeeds, that of the next process starts;
    /// when it fails, the batch stays at it.
    pub open spec fn next(&self, event: KillEvent) -> (int, Termination) {
        if self.index >= self.pids@.len() {
            (self.index as int, self.current)
        } else {
            let stepped = self.current.next(event);
            if stepped.phase matches Phase::Finished(Ok(_)) {
                if self.index + 1 < self.pids@.len() {
                    (
                        self.index + 1,
                        Termination::started(self.pids@[self.index + 1], self.graceful),
                    )
                } else {
                    (self.index + 1, stepped)
                }
            } else {
                (self.index as int, stepped)
            }
        }
    }

    /// The request that the driver has yet to answer.
    #[verifier::when_used_as_spec(spec_pending)]
    pub fn pending(&self) -> (step: KillStep)
        ensures
            step == self.spec_pending(),
    {
        if self.index >= self.pids.len() {
            KillStep::Done(Ok(()))
        } else {
            self.current.pending()
        }
    }

    /// Takes the driver's report and hands back the next request.
    pub fn advance(&mut self, event: KillEvent) -> (step: KillStep)
        ensures
            old(self).wf() ==> final(self).wf(),
            final(self).pids == old(self).pids,
            final(self).graceful == old(self).graceful,
            (final(self).index as int, final(self).current) == old(self).next(event),
            step == final(self).spec_pending(),
    {
        if self.index < self.pids.len() {
            self.current.advance(event);
            let succeeded = match self.current.phase {
                Phase::Finished(Ok(_)) => true,
                _ => false,
            };
            if succeeded {
                self.index = self.index + 1;
                if self.index < self.pids.len() {
                    self.current = kill_process(self.pids[self.index], self.graceful);
                }
            }
        }
        self.pending()
    }
}

/// Starts the termination of the processes `pids`, in their order. The
/// batch ends with the first termination that fails, and with that
/// failure; it ends in success when every process was terminated.
pub fn kill_processes(pids: &[u32], graceful: bool) -> (batch: BatchTermination)
    ensures
        batch.wf(),
        BatchTermination::started(pids@, graceful, batch),
{
    let mut list: Vec<u32> = Vec::new();
    let mut i: usize = 0;
    while i < pids.len()
        invariant
            i <= pids.len(),
            list@ == pids@.take(i as int),
        decreases pids.len() - i,
    {
        list.push(pids[i]);
        assert(list@ =~= pids@.take(i + 1));
        i += 1;
    }
    assert(pids@.take(i as int) =~= pids@);
    let first: u32 = if pids.len() > 0 {
        pids[0]
    } else {
        0
    };
    BatchTermination { pids: list, graceful, index: 0, current: kill_process(first, graceful) }
}

/// A batch ends with the first failure: once the termination in progress
/// has failed, the batch reports that failure whatever else is reported
/// to it, and terminates no further process.
pub proof fn lemma_batch_stops_at_failure(batch: BatchTermination, event: KillEvent)
    requires
        batch.wf(),
        batch.index < batch.pids@.len(),
        batch.current.phase is Finished,
    ensures
        batch.spec_pending() == KillStep::Done(batch.current.phase->Finished_0),
        batch.spec_pending() matches KillStep::Done(Err(_)),
        batch.next(event) == (batch.index as int, batch.current),
{
}

/// A batch ends in success only when no process is left.
pub proof fn lemma_batch_success_is_complete(batch: BatchTermination)
    requires
        batch.wf(),
        batch.spec_pending() == KillStep::Done(Ok(())),
    ensures
        batch.index == batch.pids@.len(),
{
}

/// The kill-log record of one termination attempt: the timestamp in
/// square brackets, the process identifier in decimal, the name in double
/// quotes, the requested mode, the outcome, and a line feed.
pub open spec fn kill_log_entry(
    timestamp: Seq<char>,
    pid: u32,
    name: Seq<char>,
    success: bool,
    graceful: bool,
) -> Seq<char> {
    "["@ + timestamp + "] KILL [PID: "@ + decimal(pid as nat) + "] name=\""@ + name
        + "\" graceful="@ + (if graceful {
        "true"@
    } else {
        "false"@
    }) + " status="@ + (if success {
        "ok"@
    } else {
        "failed"@
    }) + "\n"@
}

/// Writes the kill-log record of one termination attempt, made at the
/// time that `timestamp` spells out.
pub fn kill_record(timestamp: &str, pid: u32, name: &str, success: bool, graceful: bool) -> (entry:
    String)
    ensures
        entry@ == kill_log_entry(timestamp@, pid, name@, success, graceful),
{
    let mut entry = String::new();
    entry.append("[");
    entry.append(timestamp);
    entry.append("] KILL [PID: ");
    push_decimal(&mut entry, pid);
    entry.append("] name=\"");
    entry.append(name);
    entry.append("\" graceful=");
    entry.append(
        if graceful {
            "true"
        } else {
            "false"
        },
    );
    entry.append(" status=");
    entry.append(
        if success {
            "ok"
        } else {
            "failed"
        },
    );
    entry.append("\n");
    assert(entry@ =~= kill_log_entry(timestamp@, pid, name@, success, graceful));
    entry
}

/// The date and time of day, written as `2024-05-01 12:30:00`, that a
/// clock shows which runs `offset_seconds` ahead of UTC, at the instant
/// `epoch_seconds` seconds after the start of 1970 in UTC; as the crate
/// `chrono` writes it, and nothing where `chrono` cannot hold the instant
/// or the offset.
pub uninterp spec fn timestamp_text(epoch_seconds: i64, offset_seconds: i32) -> Option<Seq<char>>;

/// Has `chrono` write a local date and time: `DateTime::format` with the
/// pattern `%Y-%m-%d %H:%M:%S`, on the instant that
/// `DateTime::from_timestamp` makes of the seconds, seen in the zone that
/// `FixedOffset::east_opt` makes of the offset. Either of the two may
/// refuse its argument; then there is no text. The contract only names
/// the result.
#[verifier::external_body]
fn format_timestamp(epoch_seconds: i64, offset_seconds: i32) -> (text: Option<String>)
    ensures
        match text {
            Some(t) => timestamp_text(epoch_seconds, offset_seconds) == Some(t@),
            None => timestamp_text(epoch_seconds, offset_seconds) is None,
        },
{
    let zone = chrono::FixedOffset::east_opt(offset_seconds)?;
    let instant = chrono::DateTime::from_timestamp(epoch_seconds, 0)?;
    Some(instant.with_timezone(&zone).format("%Y-%m-%d %H:%M:%S").to_string())
}

/// Writes the kill-log record of a termination attempt that was made at
/// the instant `epoch_seconds` seconds after the start of 1970 in UTC, by
/// a clock that runs `offset_seconds` ahead of UTC. The record is appended
/// to the log by the caller. There is no record where the time cannot be
/// written.
pub fn log_kill_action(
    epoch_seconds: i64,
    offset_seconds: i32,
    pid: u32,
    name: &str,
    success: bool,
    graceful: bool,
) -> (entry: Option<String>)
    ensures
        match entry {
            Some(e) => timestamp_text(epoch_seconds, offset_seconds) matches Some(t) && e@
                == kill_log_entry(t, pid, name@, success, graceful),
            None => timestamp_text(epoch_seconds, offset_seconds) is None,
        },
{
    match format_timestamp(epoch_seconds, offset_seconds) {
        Some(timestamp) => Some(kill_record(timestamp.as_str(), pid, name, success, graceful)),
        None => None,
    }
}

/// The kill-log records that a query for the `limit` most recent ones is
/// answered with, `lines` being the log from its oldest record to its
/// newest: the last `limit` records, newest first; and the whole log in
/// its own order where `limit` is zero or less.
pub open spec fn recent_records(lines: Seq<String>, limit: i32) -> Seq<String> {
    if limit <= 0 {
        lines
    } else {
        Seq::new(
            if limit < lines.len() {
                limit as nat
            } else {
                lines.len()
            },
            |i: int| lines[lines.len() - 1 - i],
        )
    }
}

/// Picks the most recent kill-log records out of `lines`.
pub fn get_process_kill_log(lines: &Vec<String>, limit: i32) -> (recent: Vec<String>)
    ensures
        recent@ == recent_records(lines@, limit),
{
    let mut recent: Vec<String> = Vec::new();
    if limit <= 0 {
        let mut i: usize = 0;
        while i < lines.len()
            invariant
                i <= lines.len(),
                recent@ == lines@.take(i as int),
            decreases lines.len() - i,
        {
            recent.push(lines[i].clone());
            assert(recent@ =~= lines@.take(i + 1));
            i += 1;
        }
        assert(lines@.take(i as int) =~= lines@);
        return recent;
    }
    let wanted: usize = limit as usize;
    let count: usize = if wanted < lines.len() {
        wanted
    } else {
        lines.len()
    };
    let mut i: usize = 0;
    while i < count
        invariant
            i <= count <= lines.len(),
            recent@.len() == i,
            forall|k: int| 0 <= k < i ==> recent@[k] == lines@[lines@.len() - 1 - k],
        decreases count - i,
    {
        recent.push(lines[lines.len() - 1 - i].clone());
        i += 1;
    }
    assert(recent@ =~= recent_records(lines@, limit));
    recent
}

} // verus!
