//! The enforcement engine: one evaluation per cycle, from a snapshot to
//! the processes that are to be terminated.
//!
//! The engine performs no I/O. An evaluation hands back a plan of rounds;
//! the driver carries each round out and reports the outcomes to it.

use vstd::prelude::*;
use crate::config::KernConfig;
use crate::killer::{
    is_critical_name, is_critical_process, is_protected, listed, named, push_named,
};
use crate::monitor::{
    by_descending_memory, lemma_selection_keeps_order, ProcessInfo, SystemStats,
};
use crate::notify::{NotifierState, Notice, NotificationManager};
use crate::profiles::Profile;
use crate::rounds::{Cause, KillRound};

verus! {

/// Whether a process called `name` may be a termination target: it is on
/// neither protected list and is not critical.
pub open spec fn eligible(
    name: Seq<char>,
    profile_protected: Seq<String>,
    global_protected: Seq<String>,
) -> bool {
    &&& !listed(name, profile_protected)
    &&& !listed(name, global_protected)
    &&& !is_critical_name(name)
}

/// The processes of `processes` that may be terminated, in their order.
pub open spec fn eligible_processes(
    processes: Seq<ProcessInfo>,
    profile_protected: Seq<String>,
    global_protected: Seq<String>,
) -> Seq<ProcessInfo> {
    processes.filter(|p: ProcessInfo| eligible(p.name@, profile_protected, global_protected))
}

/// What an evaluation did to the engine's mode.
#[derive(Debug, Clone, Copy, PartialEq, Eq, Structural)]
pub enum Transition {
    /// No snapshot was to be had: nothing was evaluated.
    Skipped,
    /// The engine is in the mode it was in.
    Stayed,
    /// Normal to emergency.
    EnteredEmergency,
    /// Emergency to normal.
    LeftEmergency,
}

/// What one evaluation asks the driver to do.
#[derive(Debug)]
pub struct CyclePlan {
    pub transition: Transition,
    /// The notice to fire for the transition, if any.
    pub announce: Option<Notice>,
    /// The rounds to carry out, in order.
    pub rounds: Vec<KillRound>,
}

/// The state of the engine.
pub struct EngineState {
    pub config: KernConfig,
    pub profile: Profile,
    pub emergency: bool,
    pub emergency_since: Option<u64>,
    pub last_run: u64,
    pub notifier: NotifierState,
}

impl EngineState {
    /// The invariant of the engine: emergency mode has a start time and
    /// normal mode has none, and the critical threshold lies above the
    /// warning threshold.
    pub open spec fn wf(self) -> bool {
        &&& self.emergency <==> self.emergency_since is Some
        &&& self.config.temperature.warning < self.config.temperature.critical
    }

    /// What an evaluation of `stats` does to the mode.
    pub open spec fn transition(self, stats: SystemStats) -> Transition {
        if self.emergency {
            if stats.temperature < self.config.temperature.warning {
                Transition::LeftEmergency
            } else {
                Transition::Stayed
            }
        } else if stats.temperature > self.config.temperature.critical {
            Transition::EnteredEmergency
        } else {
            Transition::Stayed
        }
    }

    /// The limits that `stats` breaches, in the order in which they are
    /// checked: CPU, memory, warning temperature.
    pub open spec fn breaches(self, stats: SystemStats) -> Seq<Cause> {
        let cpu = if stats.cpu_usage > self.profile.limits.max_cpu_percent {
            seq![Cause::CpuLimit]
        } else {
            Seq::<Cause>::empty()
        };
        let ram = if stats.memory_percentage > self.profile.limits.max_ram_percent {
            seq![Cause::RamLimit]
        } else {
            Seq::<Cause>::empty()
        };
        let temp = if self.config.temperature.warning < stats.temperature
            <= self.config.temperature.critical {
            seq![Cause::TemperatureWarning]
        } else {
            Seq::<Cause>::empty()
        };
        cpu + ram + temp
    }

    /// The causes of the rounds that an evaluation of `stats` plans, in
    /// order. Leaving emergency mode plans none; emergency mode plans one
    /// sweep; normal mode plans one round for each breached limit.
    pub open spec fn causes(self, stats: SystemStats) -> Seq<Cause> {
        match self.transition(stats) {
            Transition::LeftEmergency => Seq::<Cause>::empty(),
            Transition::EnteredEmergency => seq![Cause::Emergency],
            _ => if self.emergency {
                seq![Cause::Emergency]
            } else {
                self.breaches(stats)
            },
        }
    }

    /// The engine after an evaluation of `stats` at time `now`.
    pub open spec fn evaluated(self, stats: SystemStats, now: u64) -> EngineState {
        match self.transition(stats) {
            Transition::LeftEmergency => EngineState {
                emergency: false,
                emergency_since: None,
                last_run: now,
                ..self
            },
            Transition::EnteredEmergency => EngineState {
                emergency: true,
                emergency_since: Some(now),
                last_run: now,
                ..self
            },
            _ => EngineState { last_run: now, ..self },
        }
    }

    /// The processes of `stats` that may be terminated under this state.
    pub open spec fn candidates(self, stats: SystemStats) -> Seq<ProcessInfo> {
        eligible_processes(
            stats.top_processes@,
            self.profile.protected@,
            self.config.protected_processes@,
        )
    }

    /// Whether `notice` is the one that opens a round made for `cause`.
    pub open spec fn opens(self, stats: SystemStats, cause: Cause, notice: Option<Notice>) -> bool {
        match cause {
            Cause::CpuLimit => notice matches Some(Notice::ResourceLimitExceeded {
                resource,
                current,
                limit,
            }) && resource@ == "CPU"@ && current == stats.cpu_usage && limit
                == self.profile.limits.max_cpu_percent,
            Cause::RamLimit => notice matches Some(Notice::ResourceLimitExceeded {
                resource,
                current,
                limit,
            }) && resource@ == "RAM"@ && current == stats.memory_percentage && limit
                == self.profile.limits.max_ram_percent,
            Cause::TemperatureWarning => notice == Some(
                Notice::TemperatureWarning {
                    temperature: stats.temperature,
                    warning: self.config.temperature.warning,
                },
            ),
            _ => notice is None,
        }
    }

    /// Whether `round` is the round that an evaluation of `stats` plans
    /// for `cause`.
    pub open spec fn plans_round(self, stats: SystemStats, cause: Cause, round: KillRound) -> bool {
        &&& round.cause == cause
        &&& round.targets@ == self.candidates(stats)
        &&& round.every_target == (cause == Cause::Emergency)
        &&& round.graceful == self.config.kill_graceful
        &&& self.opens(stats, cause, round.announce)
    }

    /// Whether `plan` is what an evaluation of `stats` hands back.
    pub open spec fn plans(self, stats: SystemStats, plan: CyclePlan) -> bool {
        &&& plan.transition == self.transition(stats)
        &&& plan.announce == match self.transition(stats) {
            Transition::EnteredEmergency => Some(
                Notice::EmergencyMode {
                    temperature: stats.temperature,
                    critical: self.config.temperature.critical,
                },
            ),
            Transition::LeftEmergency => Some(
                Notice::EmergencyResolved { temperature: stats.temperature },
            ),
            _ => None,
        }
        &&& plan.rounds@.len() == self.causes(stats).len()
        &&& forall|i: int|
            0 <= i < plan.rounds@.len() ==> self.plans_round(
                stats,
                self.causes(stats)[i],
                #[trigger] plan.rounds@[i],
            )
    }
}

/// The processes to terminate when a profile that asks for `names` is
/// activated: for each name in turn that is not critical, every process of
/// `processes` that is called so.
pub open spec fn activation_targets(names: Seq<String>, processes: Seq<ProcessInfo>) -> Seq<
    ProcessInfo,
>
    decreases names.len(),
{
    if names.len() == 0 {
        Seq::<ProcessInfo>::empty()
    } else {
        activation_targets(names.drop_last(), processes) + if is_critical_name(names.last()@) {
            Seq::<ProcessInfo>::empty()
        } else {
            named(processes, names.last()@)
        }
    }
}

/// What a change of profile asks the driver to do.
#[derive(Debug)]
pub struct Activation {
    /// The terminations that the new profile asks for.
    pub round: KillRound,
    /// The notice to fire when the round is over.
    pub announce: Notice,
}

/// The enforcement engine. It owns the emergency state and the
/// notifier, and is changed only by its own evaluations.
#[derive(Debug)]
pub struct Enforcer {
    config: KernConfig,
    current_profile: Profile,
    emergency_since: Option<u64>,
    last_enforcement: u64,
    notification_manager: NotificationManager,
}

impl View for Enforcer {
    type V = EngineState;

    closed spec fn view(&self) -> EngineState {
        EngineState {
            config: self.config,
            profile: self.current_profile,
            emergency: self.emergency_since is Some,
            emergency_since: self.emergency_since,
            last_run: self.last_enforcement,
            notifier: self.notification_manager@,
        }
    }
}

/// The processes of `processes` that are on neither list and not
/// critical, in their order.
pub fn select_eligible(
    processes: &Vec<ProcessInfo>,
    profile_protected: &Vec<String>,
    global_protected: &Vec<String>,
) -> (list: Vec<ProcessInfo>)
    ensures
        list@ == eligible_processes(processes@, profile_protected@, global_protected@),
{
    let ghost keep = |p: ProcessInfo| eligible(p.name@, profile_protected@, global_protected@);
    let mut list: Vec<ProcessInfo> = Vec::new();
    let mut i: usize = 0;
    proof {
        reveal(Seq::filter);
        assert(processes@.take(0) =~= Seq::<ProcessInfo>::empty());
    }
    while i < processes.len()
        invariant
            i <= processes.len(),
            keep == |p: ProcessInfo| eligible(p.name@, profile_protected@, global_protected@),
            list@ == processes@.take(i as int).filter(keep),
        decreases processes.len() - i,
    {
        let p = &processes[i];
        let skip = is_protected(p.name.as_str(), profile_protected.as_slice()) || is_protected(
            p.name.as_str(),
            global_protected.as_slice(),
        ) || is_critical_process(p.name.as_str());
        proof {
            reveal(Seq::filter);
            let next = processes@.take(i + 1);
            assert(next.drop_last() =~= processes@.take(i as int));
            assert(next.last() == processes@[i as int]);
            assert(skip == !keep(processes@[i as int]));
        }
        if !skip {
            list.push(p.duplicate());
        }
        i += 1;
    }
    proof {
        assert(processes@.take(i as int) =~= processes@);
    }
    list
}

impl Enforcer {
    /// What holds of every engine: the critical threshold lies above the
    /// warning threshold.
    #[verifier::type_invariant]
    spec fn thresholds_ordered(&self) -> bool {
        self.config.temperature.warning < self.config.temperature.critical
    }

    /// An engine in normal mode under `current_profile`, created at time
    /// `now`, with a notifier that has let nothing through.
    pub fn new(config: KernConfig, current_profile: Profile, now: u64) -> (engine: Self)
        requires
            config.temperature.warning < config.temperature.critical,
        ensures
            engine@.wf(),
            engine@.config == config,
            engine@.profile == current_profile,
            !engine@.emergency,
            engine@.emergency_since is None,
            engine@.last_run == now,
            engine@.notifier == (NotifierState {
                enabled: config.notifications.enabled,
                show_on_kill: config.notifications.show_on_kill,
                show_on_profile_switch: config.notifications.show_on_profile_switch,
                last_kill: None,
                last_emergency: None,
                last_warning: None,
                min_interval: crate::notify::ROUTINE_INTERVAL_MS,
            }),
    {
        let notification_manager = NotificationManager::new(&config.notifications);
        Enforcer {
            config,
            current_profile,
            emergency_since: None,
            last_enforcement: now,
            notification_manager,
        }
    }

    fn round_for(&self, stats: &SystemStats, cause: Cause) -> (round: KillRound)
        requires
            cause != Cause::Activation,
        ensures
            self@.plans_round(*stats, cause, round),
    {
        let targets = select_eligible(
            &stats.top_processes,
            &self.current_profile.protected,
            &self.config.protected_processes,
        );
        let announce = match cause {
            Cause::CpuLimit => Some(
                Notice::ResourceLimitExceeded {
                    resource: "CPU".to_owned(),
                    current: stats.cpu_usage,
                    limit: self.current_profile.limits.max_cpu_percent,
                },
            ),
            Cause::RamLimit => Some(
                Notice::ResourceLimitExceeded {
                    resource: "RAM".to_owned(),
                    current: stats.memory_percentage,
                    limit: self.current_profile.limits.max_ram_percent,
                },
            ),
            Cause::TemperatureWarning => Some(
                Notice::TemperatureWarning {
                    temperature: stats.temperature,
                    warning: self.config.temperature.warning,
                },
            ),
            _ => None,
        };
        KillRound {
            cause,
            announce,
            targets,
            every_target: cause == Cause::Emergency,
            graceful: self.config.kill_graceful,
        }
    }

    /// Evaluates one cycle at time `now`.
    ///
    /// Without a snapshot the cycle is skipped and nothing changes. With
    /// one, the mode is updated first: emergency mode is left below the
    /// warning threshold and entered above the critical one. Then the
    /// rounds are planned: none on leaving emergency mode, one sweep over
    /// every eligible process in emergency mode, and in normal mode one
    /// single-kill round for each breached limit, in the order CPU, memory,
    /// warning temperature.
    pub fn enforce_once(&mut self, stats: Option<&SystemStats>, now: u64) -> (plan: CyclePlan)
        ensures
            old(self)@.wf(),
            final(self)@.wf(),
            stats is None ==> plan.transition == Transition::Skipped && plan.announce is None
                && plan.rounds@.len() == 0 && final(self)@ == old(self)@,
            stats matches Some(s) ==> old(self)@.plans(*s, plan) && final(self)@ == old(
                self,
            )@.evaluated(*s, now),
    {
        proof {
            use_type_invariant(&*self);
        }
        let stats = match stats {
            Some(s) => s,
            None => {
                return CyclePlan {
                    transition: Transition::Skipped,
                    announce: None,
                    rounds: Vec::new(),
                };
            },
        };
        let ghost before = self@;
        let mut rounds: Vec<KillRound> = Vec::new();
        let emergency = self.emergency_since.is_some();
        if emergency && stats.temperature < self.config.temperature.warning {
            self.emergency_since = None;
            self.last_enforcement = now;
            return CyclePlan {
                transition: Transition::LeftEmergency,
                announce: Some(Notice::EmergencyResolved { temperature: stats.temperature }),
                rounds,
            };
        }
        if !emergency && stats.temperature > self.config.temperature.critical {
            let round = self.round_for(stats, Cause::Emergency);
            rounds.push(round);
            self.emergency_since = Some(now);
            self.last_enforcement = now;
            return CyclePlan {
                transition: Transition::EnteredEmergency,
                announce: Some(
                    Notice::EmergencyMode {
                        temperature: stats.temperature,
                        critical: self.config.temperature.critical,
                    },
                ),
                rounds,
            };
        }
        if emergency {
            let round = self.round_for(stats, Cause::Emergency);
            rounds.push(round);
        } else {
            if stats.cpu_usage > self.current_profile.limits.max_cpu_percent {
                let round = self.round_for(stats, Cause::CpuLimit);
                rounds.push(round);
            }
            if stats.memory_percentage > self.current_profile.limits.max_ram_percent {
                let round = self.round_for(stats, Cause::RamLimit);
                rounds.push(round);
            }
            if stats.temperature > self.config.temperature.warning {
                let round = self.round_for(stats, Cause::TemperatureWarning);
                rounds.push(round);
            }
            proof {
                assert(rounds@.len() == before.breaches(*stats).len());
            }
        }
        self.last_enforcement = now;
        CyclePlan { transition: Transition::Stayed, announce: None, rounds }
    }

    /// Whether the engine is in emergency mode.
    pub fn is_emergency_mode(&self) -> (on: bool)
        ensures
            on == self@.emergency,
    {
        self.emergency_since.is_some()
    }

    /// How long emergency mode has lasted at time `now`, if it is on.
    pub fn emergency_duration(&self, now: u64) -> (lasted: Option<u64>)
        ensures
            lasted == match self@.emergency_since {
                Some(since) => Some(crate::notify::elapsed(since, now) as u64),
                None => None,
            },
    {
        match self.emergency_since {
            Some(since) => Some(
                if now >= since {
                    now - since
                } else {
                    0
                },
            ),
            None => None,
        }
    }

    /// The active profile.
    pub fn profile(&self) -> (p: &Profile)
        ensures
            *p == self@.profile,
    {
        &self.current_profile
    }

    /// The configuration the engine was made with.
    pub fn config(&self) -> (c: &KernConfig)
        ensures
            *c == self@.config,
    {
        &self.config
    }

    /// When the last evaluation was made.
    pub fn last_enforcement_time(&self) -> (t: u64)
        ensures
            t == self@.last_run,
    {
        self.last_enforcement
    }

    /// When emergency mode was entered, if it is on.
    pub fn emergency_since(&self) -> (t: Option<u64>)
        ensures
            t == self@.emergency_since,
    {
        self.emergency_since
    }

    /// Makes `new_profile` the active profile and leaves emergency mode.
    ///
    /// The activation that is handed back sweeps over every process of
    /// `processes` whose name the new profile lists under
    /// `kill_on_activate`, but for the critical names; the protected lists
    /// are not consulted.
    pub fn switch_profile(&mut self, new_profile: Profile, processes: &Vec<ProcessInfo>) -> (activation:
        Activation)
        ensures
            old(self)@.wf(),
            final(self)@.wf(),
            final(self)@ == (EngineState {
                profile: new_profile,
                emergency: false,
                emergency_since: None,
                ..old(self)@
            }),
            activation.round.cause == Cause::Activation,
            activation.round.announce is None,
            activation.round.every_target,
            activation.round.graceful == old(self)@.config.kill_graceful,
            activation.round.targets@ == activation_targets(
                new_profile.kill_on_activate@,
                processes@,
            ),
            activation.announce matches Notice::ProfileSwitched { old_profile, new_profile: name }
                && old_profile@ == old(self)@.profile.name@ && name@ == new_profile.name@,
    {
        let old_name = self.current_profile.name.clone();
        let mut targets: Vec<ProcessInfo> = Vec::new();
        let mut i: usize = 0;
        proof {
            assert(new_profile.kill_on_activate@.take(0) =~= Seq::<String>::empty());
        }
        while i < new_profile.kill_on_activate.len()
            invariant
                i <= new_profile.kill_on_activate.len(),
                targets@ == activation_targets(
                    new_profile.kill_on_activate@.take(i as int),
                    processes@,
                ),
            decreases new_profile.kill_on_activate.len() - i,
        {
            let name = new_profile.kill_on_activate[i].as_str();
            proof {
                let next = new_profile.kill_on_activate@.take(i + 1);
                assert(next.drop_last() =~= new_profile.kill_on_activate@.take(i as int));
                assert(next.last() == new_profile.kill_on_activate@[i as int]);
            }
            if !is_critical_process(name) {
                push_named(&mut targets, processes, name);
            } else {
                assert(targets@ =~= targets@ + Seq::<ProcessInfo>::empty());
            }
            i += 1;
        }
        proof {
            assert(new_profile.kill_on_activate@.take(i as int) =~= new_profile.kill_on_activate@);
        }
        let announce = Notice::ProfileSwitched {
            old_profile: old_name,
            new_profile: new_profile.name.clone(),
        };
        let round = KillRound {
            cause: Cause::Activation,
            announce: None,
            targets,
            every_target: true,
            graceful: self.config.kill_graceful,
        };
        proof {
            use_type_invariant(&*self);
        }
        self.current_profile = new_profile;
        self.emergency_since = None;
        Activation { round, announce }
    }

    /// Fires `notice` through the engine's notifier at time `now`: hands it
    /// back when it is to be delivered. The engine's mode and profile are
    /// not touched.
    pub fn notify(&mut self, notice: Notice, now: u64) -> (delivered: Option<Notice>)
        ensures
            delivered == if old(self)@.notifier.admits(notice.spec_category(), now) {
                Some(notice)
            } else {
                None
            },
            final(self)@ == (EngineState {
                notifier: old(self)@.notifier.after(notice.spec_category(), now),
                ..old(self)@
            }),
    {
        proof {
            use_type_invariant(&*self);
        }
        self.notification_manager.notify(notice, now)
    }
}

/// Above the critical temperature the engine is in emergency mode after
/// the evaluation, whatever mode it was in, and plans exactly one round:
/// a sweep over every eligible process of the snapshot.
pub proof fn lemma_overheating_sweeps(state: EngineState, stats: SystemStats, now: u64, plan: CyclePlan)
    requires
        state.wf(),
        stats.temperature > state.config.temperature.critical,
        state.plans(stats, plan),
    ensures
        state.evaluated(stats, now).emergency,
        state.evaluated(stats, now).emergency_since is Some,
        !state.emergency ==> state.evaluated(stats, now).emergency_since == Some(now),
        plan.rounds@.len() == 1,
        plan.rounds@[0].cause == Cause::Emergency,
        plan.rounds@[0].every_target,
        plan.rounds@[0].targets@ == state.candidates(stats),
{
    assert(state.causes(stats) =~= seq![Cause::Emergency]);
    assert(state.plans_round(stats, state.causes(stats)[0], plan.rounds@[0]));
}

/// Whatever the mode and the snapshot, every candidate of every planned
/// round is eligible: on neither protected list and not critical. And
/// every eligible process of the snapshot is a candidate of every round.
pub proof fn lemma_targets_are_the_eligible(
    state: EngineState,
    stats: SystemStats,
    plan: CyclePlan,
    r: int,
)
    requires
        state.plans(stats, plan),
        0 <= r < plan.rounds@.len(),
    ensures
        forall|j: int|
            0 <= j < plan.rounds@[r].targets@.len() ==> eligible(
                (#[trigger] plan.rounds@[r].targets@[j]).name@,
                state.profile.protected@,
                state.config.protected_processes@,
            ),
        forall|j: int|
            0 <= j < plan.rounds@[r].targets@.len() ==> stats.top_processes@.contains(
                #[trigger] plan.rounds@[r].targets@[j],
            ),
        forall|i: int|
            0 <= i < stats.top_processes@.len() && eligible(
                (#[trigger] stats.top_processes@[i]).name@,
                state.profile.protected@,
                state.config.protected_processes@,
            ) ==> plan.rounds@[r].targets@.contains(stats.top_processes@[i]),
{
    let keep = |p: ProcessInfo|
        eligible(p.name@, state.profile.protected@, state.config.protected_processes@);
    let all = stats.top_processes@;
    let targets = plan.rounds@[r].targets@;
    assert(state.plans_round(stats, state.causes(stats)[r], plan.rounds@[r]));
    assert(targets == all.filter(keep));
    assert forall|j: int| 0 <= j < targets.len() implies eligible(
        (#[trigger] targets[j]).name@,
        state.profile.protected@,
        state.config.protected_processes@,
    ) && all.contains(targets[j]) by {
        all.lemma_filter_pred(keep, j);
        assert(all.filter(keep).contains(targets[j]));
        all.lemma_filter_contains_rev(keep, targets[j]);
    }
    assert forall|i: int|
        0 <= i < all.len() && eligible(
            (#[trigger] all[i]).name@,
            state.profile.protected@,
            state.config.protected_processes@,
        ) implies targets.contains(all[i]) by {
        all.lemma_filter_contains(keep, i);
    }
}

/// In emergency mode, a snapshot below the warning temperature brings the
/// engine back to normal mode: the start time is unset and no round is
/// planned.
pub proof fn lemma_cooling_leaves_emergency(
    state: EngineState,
    stats: SystemStats,
    now: u64,
    plan: CyclePlan,
)
    requires
        state.wf(),
        state.emergency,
        stats.temperature < state.config.temperature.warning,
        state.plans(stats, plan),
    ensures
        plan.transition == Transition::LeftEmergency,
        !state.evaluated(stats, now).emergency,
        state.evaluated(stats, now).emergency_since is None,
        plan.rounds@.len() == 0,
        state.evaluated(stats, now).wf(),
{
}

/// Whether `stats` breaches none of the limits that apply in `state`.
pub open spec fn within_limits(state: EngineState, stats: SystemStats) -> bool {
    &&& stats.cpu_usage <= state.profile.limits.max_cpu_percent
    &&& stats.memory_percentage <= state.profile.limits.max_ram_percent
    &&& stats.temperature <= state.config.temperature.warning
}

/// In normal mode, a snapshot that breaches no limit plans no round and
/// no notice, and leaves the engine as it was but for the time of the
/// last evaluation.
pub proof fn lemma_quiet_cycle_changes_nothing(
    state: EngineState,
    stats: SystemStats,
    now: u64,
    plan: CyclePlan,
)
    requires
        state.wf(),
        !state.emergency,
        within_limits(state, stats),
        state.plans(stats, plan),
    ensures
        plan.transition == Transition::Stayed,
        plan.announce is None,
        plan.rounds@.len() == 0,
        state.evaluated(stats, now) == (EngineState { last_run: now, ..state }),
        now == state.last_run ==> state.evaluated(stats, now) == state,
{
    assert(state.breaches(stats) =~= Seq::<Cause>::empty());
}

/// The mode invariant survives every evaluation.
pub proof fn lemma_evaluation_keeps_invariant(state: EngineState, stats: SystemStats, now: u64)
    requires
        state.wf(),
    ensures
        state.evaluated(stats, now).wf(),
{
}

/// An activation reaches every running process that the new profile
/// wants killed, and nothing else: a process is among the targets exactly
/// if it is in the process table, its name is listed, and the name is not
/// critical.
pub proof fn lemma_activation_targets(names: Seq<String>, processes: Seq<ProcessInfo>, p: ProcessInfo)
    ensures
        activation_targets(names, processes).contains(p) <==> (processes.contains(p) && listed(
            p.name@,
            names,
        ) && !is_critical_name(p.name@)),
    decreases names.len(),
{
    if names.len() == 0 {
        assert(!activation_targets(names, processes).contains(p));
    } else {
        let rest = names.drop_last();
        let last = names.last();
        lemma_activation_targets(rest, processes, p);
        let head = activation_targets(rest, processes);
        let tail = if is_critical_name(last@) {
            Seq::<ProcessInfo>::empty()
        } else {
            named(processes, last@)
        };
        let same = |q: ProcessInfo| q.name@ == last@;
        assert(activation_targets(names, processes) == head + tail);
        // membership in a concatenation
        if (head + tail).contains(p) {
            let k = choose|k: int| 0 <= k < (head + tail).len() && (head + tail)[k] == p;
            if k < head.len() {
                assert(head[k] == p);
                assert(head.contains(p));
                let w = choose|w: int| 0 <= w < rest.len() && (#[trigger] rest[w])@ == p.name@;
                assert(names[w] == rest[w]);
            } else {
                assert(tail[k - head.len()] == p);
                assert(tail.contains(p));
                processes.lemma_filter_pred(same, k - head.len());
                processes.lemma_filter_contains_rev(same, p);
                assert(names[names.len() - 1]@ == p.name@);
            }
        }
        if processes.contains(p) && listed(p.name@, names) && !is_critical_name(p.name@) {
            let w = choose|w: int| 0 <= w < names.len() && (#[trigger] names[w])@ == p.name@;
            if w < names.len() - 1 {
                assert(rest[w] == names[w]);
                assert(listed(p.name@, rest));
                assert(head.contains(p));
                let k = choose|k: int| 0 <= k < head.len() && head[k] == p;
                assert((head + tail)[k] == p);
            } else {
                assert(last@ == p.name@);
                let i = choose|i: int| 0 <= i < processes.len() && processes[i] == p;
                processes.lemma_filter_contains(same, i);
                assert(tail.contains(p));
                let k = choose|k: int| 0 <= k < tail.len() && tail[k] == p;
                assert((head + tail)[head.len() + k] == p);
            }
        }
    }
}

/// The first candidate of a snapshot that lists its processes by
/// descending memory is the heaviest eligible process: no other candidate
/// holds more memory. A single-kill round, which starts with it, so goes
/// for the heaviest eligible process first.
pub proof fn lemma_first_candidate_is_heaviest(state: EngineState, stats: SystemStats, j: int)
    requires
        by_descending_memory(stats.top_processes@),
        0 <= j < state.candidates(stats).len(),
    ensures
        state.candidates(stats)[0].memory_bytes >= state.candidates(stats)[j].memory_bytes,
{
    lemma_selection_keeps_order(
        stats.top_processes@,
        |p: ProcessInfo|
            eligible(p.name@, state.profile.protected@, state.config.protected_processes@),
    );
}

} // verus!
