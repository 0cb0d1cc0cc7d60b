use kern::config::KernConfig;
use kern::enforcer::{select_eligible, CyclePlan, Enforcer, Transition};
use kern::rounds::{Cause, KillRound};
use kern::monitor::{ProcessInfo, SystemStats};
use kern::notify::Notice;
use kern::profiles::Profile;

/// A reading in the library's unit, thousandths.
fn units(value: f64) -> i64 {
    (value * 1000.0).round() as i64
}

fn process(pid: u32, name: &str, memory_bytes: u64) -> ProcessInfo {
    ProcessInfo { pid, name: name.to_string(), memory_bytes, cpu_percentage: 0 }
}

fn snapshot(cpu: f64, ram: f64, temp: f64, processes: Vec<ProcessInfo>) -> SystemStats {
    SystemStats {
        cpu_usage: units(cpu),
        total_memory_bytes: 16 << 30,
        used_memory_bytes: 8 << 30,
        memory_percentage: units(ram),
        temperature: units(temp),
        top_processes: processes,
    }
}

fn usual_processes() -> Vec<ProcessInfo> {
    vec![
        process(10, "shell", 900),
        process(11, "browser", 800),
        process(12, "systemd", 700),
        process(13, "editor", 600),
        process(14, "kern", 500),
    ]
}

fn profile_protecting(names: &[&str]) -> Profile {
    Profile {
        name: "work".to_string(),
        protected: names.iter().map(|n| n.to_string()).collect(),
        ..Default::default()
    }
}

fn target_pids(round: &KillRound) -> Vec<u32> {
    round.targets.iter().map(|p| p.pid).collect()
}

/// Carries a round out against outcomes given per process identifier, and
/// returns the identifiers that were tried, in order.
fn carry_out(round: &KillRound, succeeds: &dyn Fn(u32) -> bool) -> (Vec<u32>, usize) {
    let mut progress = round.begin();
    let mut tried = Vec::new();
    loop {
        let pid = match round.next_target(&progress) {
            Some(target) => target.pid,
            None => break,
        };
        tried.push(pid);
        round.record(&mut progress, succeeds(pid));
    }
    (tried, progress.killed())
}

#[test]
fn test_enforcer_creation() {
    let config = KernConfig::default();
    let profile = Profile::default();
    let enforcer = Enforcer::new(config, profile, 0);

    assert!(!enforcer.is_emergency_mode());
    assert!(enforcer.emergency_duration(0).is_none());
}

#[test]
fn test_emergency_mode_activation() {
    let mut config = KernConfig::default();
    config.temperature.critical = units(80.0);

    let profile = Profile::default();
    let mut enforcer = Enforcer::new(config, profile, 0);

    assert!(!enforcer.is_emergency_mode());

    // Emergency mode starts when the temperature exceeds the critical one.
    let hot = snapshot(10.0, 10.0, 81.0, vec![]);
    enforcer.enforce_once(Some(&hot), 1_000);

    assert!(enforcer.is_emergency_mode());
    assert!(enforcer.emergency_duration(1_500).is_some());
    assert_eq!(enforcer.emergency_duration(1_500), Some(500));
    assert_eq!(enforcer.emergency_since(), Some(1_000));
}

#[test]
fn test_profile_switching() {
    let config = KernConfig::default();
    let profile1 = Profile { name: "profile1".to_string(), ..Default::default() };
    let profile2 = Profile { name: "profile2".to_string(), ..Default::default() };

    let mut enforcer = Enforcer::new(config, profile1, 0);
    assert_eq!(enforcer.profile().name, "profile1");

    enforcer.switch_profile(profile2, &vec![]);
    assert_eq!(enforcer.profile().name, "profile2");
}

#[test]
fn test_emergency_mode_exit() {
    let config = KernConfig::default();
    let profile = Profile::default();
    let mut enforcer = Enforcer::new(config, profile, 0);

    let hot = snapshot(10.0, 10.0, 90.0, vec![]);
    enforcer.enforce_once(Some(&hot), 1_000);
    assert!(enforcer.is_emergency_mode());

    // Cooling below the warning temperature ends emergency mode.
    let cool = snapshot(10.0, 10.0, 60.0, vec![]);
    let plan = enforcer.enforce_once(Some(&cool), 2_000);

    assert_eq!(plan.transition, Transition::LeftEmergency);
    assert!(!enforcer.is_emergency_mode());
    assert!(enforcer.emergency_duration(2_000).is_none());
}

#[test]
fn cpu_breach_kills_the_heaviest_eligible_process() {
    // cpu 95 over a limit of 90, memory 50 under 85, 60 degrees under 75.
    let mut enforcer =
        Enforcer::new(KernConfig::default(), profile_protecting(&[]), 0);
    let stats = snapshot(95.0, 50.0, 60.0, usual_processes());
    let plan = enforcer.enforce_once(Some(&stats), 100);

    assert_eq!(plan.transition, Transition::Stayed);
    assert!(!enforcer.is_emergency_mode());
    assert!(plan.announce.is_none());
    assert_eq!(plan.rounds.len(), 1);
    let round = &plan.rounds[0];
    assert_eq!(round.cause, Cause::CpuLimit);
    assert!(!round.every_target);
    assert!(round.graceful);
    match &round.announce {
        Some(Notice::ResourceLimitExceeded { resource, current, limit }) => {
            assert_eq!((resource.as_str(), *current, *limit), ("CPU", 95_000, 90_000));
        }
        other => panic!("unexpected: {:?}", other),
    }
    // systemd is critical and kern is protected by the configuration.
    assert_eq!(target_pids(round), vec![10, 11, 13]);

    let (tried, killed) = carry_out(round, &|_| true);
    assert_eq!(tried, vec![10]);
    assert_eq!(killed, 1);
}

#[test]
fn overheating_sweeps_every_eligible_process() {
    let mut enforcer =
        Enforcer::new(KernConfig::default(), profile_protecting(&["editor"]), 0);
    let stats = snapshot(10.0, 10.0, 90.0, usual_processes());
    let plan = enforcer.enforce_once(Some(&stats), 7_000);

    assert_eq!(plan.transition, Transition::EnteredEmergency);
    assert!(enforcer.is_emergency_mode());
    assert_eq!(enforcer.emergency_since(), Some(7_000));
    match &plan.announce {
        Some(Notice::EmergencyMode { temperature, critical }) => {
            assert_eq!((*temperature, *critical), (90_000, 85_000));
        }
        other => panic!("unexpected: {:?}", other),
    }
    assert_eq!(plan.rounds.len(), 1);
    let round = &plan.rounds[0];
    assert_eq!(round.cause, Cause::Emergency);
    assert!(round.every_target);
    assert!(round.announce.is_none());
    assert_eq!(target_pids(round), vec![10, 11]);

    // A failed attempt does not keep the sweep from the next process.
    let (tried, killed) = carry_out(round, &|pid| pid != 10);
    assert_eq!(tried, vec![10, 11]);
    assert_eq!(killed, 1);
}

#[test]
fn a_protected_heaviest_process_is_skipped() {
    let mut enforcer =
        Enforcer::new(KernConfig::default(), profile_protecting(&["shell"]), 0);
    let stats = snapshot(95.0, 50.0, 60.0, usual_processes());
    let plan = enforcer.enforce_once(Some(&stats), 100);
    assert_eq!(plan.rounds.len(), 1);
    assert_eq!(target_pids(&plan.rounds[0]), vec![11, 13]);
    let (tried, _) = carry_out(&plan.rounds[0], &|_| true);
    assert_eq!(tried, vec![11]);

    // With nothing eligible the breach is announced and nothing is tried.
    let mut enforcer = Enforcer::new(
        KernConfig::default(),
        profile_protecting(&["shell", "browser", "editor"]),
        0,
    );
    let plan = enforcer.enforce_once(Some(&stats), 100);
    assert_eq!(plan.rounds.len(), 1);
    assert!(plan.rounds[0].announce.is_some());
    assert!(plan.rounds[0].targets.is_empty());
    let (tried, killed) = carry_out(&plan.rounds[0], &|_| true);
    assert!(tried.is_empty());
    assert_eq!(killed, 0);
    assert!(plan.rounds[0].closing_notice(&plan.rounds[0].begin()).is_none());
}

#[test]
fn a_quiet_cycle_changes_nothing() {
    let mut enforcer = Enforcer::new(KernConfig::default(), profile_protecting(&[]), 5);
    let stats = snapshot(50.0, 50.0, 60.0, usual_processes());
    let plan = enforcer.enforce_once(Some(&stats), 9);
    assert_eq!(plan.transition, Transition::Stayed);
    assert!(plan.announce.is_none());
    assert!(plan.rounds.is_empty());
    assert!(!enforcer.is_emergency_mode());
    assert_eq!(enforcer.emergency_since(), None);
    assert_eq!(enforcer.profile().name, "work");
    assert_eq!(enforcer.last_enforcement_time(), 9);
}

#[test]
fn a_cycle_without_snapshot_is_skipped() {
    let mut enforcer = Enforcer::new(KernConfig::default(), Profile::default(), 5);
    let plan = enforcer.enforce_once(None, 9);
    assert_eq!(plan.transition, Transition::Skipped);
    assert!(plan.announce.is_none());
    assert!(plan.rounds.is_empty());
    assert_eq!(enforcer.last_enforcement_time(), 5);

    // Also in emergency mode nothing changes.
    let hot = snapshot(10.0, 10.0, 90.0, vec![]);
    enforcer.enforce_once(Some(&hot), 10);
    let plan = enforcer.enforce_once(None, 11);
    assert_eq!(plan.transition, Transition::Skipped);
    assert!(enforcer.is_emergency_mode());
    assert_eq!(enforcer.emergency_since(), Some(10));
    assert_eq!(enforcer.last_enforcement_time(), 10);
}

#[test]
fn limits_are_checked_in_order() {
    let mut enforcer = Enforcer::new(KernConfig::default(), profile_protecting(&[]), 0);
    let stats = snapshot(95.0, 90.0, 80.0, usual_processes());
    let plan = enforcer.enforce_once(Some(&stats), 1);
    let causes: Vec<Cause> = plan.rounds.iter().map(|r| r.cause).collect();
    assert_eq!(causes, vec![Cause::CpuLimit, Cause::RamLimit, Cause::TemperatureWarning]);
    for round in &plan.rounds {
        assert_eq!(target_pids(round), vec![10, 11, 13]);
        assert!(!round.every_target);
    }
    match &plan.rounds[1].announce {
        Some(Notice::ResourceLimitExceeded { resource, current, limit }) => {
            assert_eq!((resource.as_str(), *current, *limit), ("RAM", 90_000, 85_000));
        }
        other => panic!("unexpected: {:?}", other),
    }
    match &plan.rounds[2].announce {
        Some(Notice::TemperatureWarning { temperature, warning }) => {
            assert_eq!((*temperature, *warning), (80_000, 75_000));
        }
        other => panic!("unexpected: {:?}", other),
    }
}

#[test]
fn thresholds_are_exclusive_and_critical_still_warns() {
    let mut enforcer = Enforcer::new(KernConfig::default(), profile_protecting(&[]), 0);
    // At the limits nothing is breached.
    let at = snapshot(90.0, 85.0, 75.0, usual_processes());
    assert!(enforcer.enforce_once(Some(&at), 1).rounds.is_empty());
    // At the critical temperature the engine warns and stays normal.
    let critical = snapshot(10.0, 10.0, 85.0, usual_processes());
    let plan = enforcer.enforce_once(Some(&critical), 2);
    assert_eq!(plan.transition, Transition::Stayed);
    assert_eq!(plan.rounds.len(), 1);
    assert_eq!(plan.rounds[0].cause, Cause::TemperatureWarning);
    assert!(!enforcer.is_emergency_mode());
    // Just above it emergency mode starts.
    let above = snapshot(10.0, 10.0, 85.001, usual_processes());
    let plan = enforcer.enforce_once(Some(&above), 3);
    assert_eq!(plan.transition, Transition::EnteredEmergency);
}

#[test]
fn emergency_lasts_until_below_warning() {
    let mut enforcer = Enforcer::new(KernConfig::default(), profile_protecting(&[]), 0);
    let hot = snapshot(95.0, 95.0, 90.0, usual_processes());
    enforcer.enforce_once(Some(&hot), 1_000);

    // Between the thresholds the sweep goes on and the start time stays.
    let warm = snapshot(95.0, 95.0, 80.0, usual_processes());
    let plan = enforcer.enforce_once(Some(&warm), 2_000);
    assert_eq!(plan.transition, Transition::Stayed);
    assert!(enforcer.is_emergency_mode());
    assert_eq!(enforcer.emergency_since(), Some(1_000));
    assert_eq!(plan.rounds.len(), 1);
    assert_eq!(plan.rounds[0].cause, Cause::Emergency);
    assert!(plan.announce.is_none());

    // At the warning temperature it is not yet over.
    let at = snapshot(95.0, 95.0, 75.0, usual_processes());
    let plan = enforcer.enforce_once(Some(&at), 3_000);
    assert_eq!(plan.transition, Transition::Stayed);
    assert!(enforcer.is_emergency_mode());

    // Below it, it is; and no process is killed in that cycle even though
    // CPU and memory are over their limits.
    let cool = snapshot(95.0, 95.0, 74.9, usual_processes());
    let plan = enforcer.enforce_once(Some(&cool), 4_000);
    assert_eq!(plan.transition, Transition::LeftEmergency);
    assert!(plan.rounds.is_empty());
    match &plan.announce {
        Some(Notice::EmergencyResolved { temperature }) => assert_eq!(*temperature, 74_900),
        other => panic!("unexpected: {:?}", other),
    }
    assert_eq!(enforcer.emergency_since(), None);
    assert_eq!(enforcer.last_enforcement_time(), 4_000);

    // The next cycle enforces the limits again.
    let plan = enforcer.enforce_once(Some(&cool), 5_000);
    assert_eq!(plan.rounds.len(), 2);
}

#[test]
fn a_single_kill_round_tries_the_next_candidate_after_a_failure() {
    let mut enforcer = Enforcer::new(KernConfig::default(), profile_protecting(&[]), 0);
    let stats = snapshot(95.0, 50.0, 60.0, usual_processes());
    let plan = enforcer.enforce_once(Some(&stats), 1);
    let round = &plan.rounds[0];

    let (tried, killed) = carry_out(round, &|pid| pid == 13);
    assert_eq!(tried, vec![10, 11, 13]);
    assert_eq!(killed, 1);

    let (tried, killed) = carry_out(round, &|_| false);
    assert_eq!(tried, vec![10, 11, 13]);
    assert_eq!(killed, 0);

    let (tried, killed) = carry_out(round, &|pid| pid == 11);
    assert_eq!(tried, vec![10, 11]);
    assert_eq!(killed, 1);
}

#[test]
fn rounds_close_with_the_right_notice() {
    let mut enforcer = Enforcer::new(KernConfig::default(), profile_protecting(&[]), 0);
    let stats = snapshot(95.0, 50.0, 60.0, usual_processes());
    let plan = enforcer.enforce_once(Some(&stats), 1);
    let round = &plan.rounds[0];
    let mut progress = round.begin();
    assert!(!round.action_taken(&progress));
    round.record(&mut progress, false);
    round.record(&mut progress, true);
    assert!(round.action_taken(&progress));
    assert!(round.next_target(&progress).is_none());
    // Nothing is pending: a further report changes nothing.
    round.record(&mut progress, true);
    assert_eq!((progress.attempted(), progress.killed(), progress.stopped()), (2, 1, true));
    match round.closing_notice(&progress) {
        Some(Notice::ProcessKilled { pid, name, count }) => {
            assert_eq!((pid, name.as_str(), count), (11, "browser", 1));
        }
        other => panic!("unexpected: {:?}", other),
    }

    let hot = snapshot(10.0, 10.0, 90.0, usual_processes());
    let plan = enforcer.enforce_once(Some(&hot), 2);
    let round = &plan.rounds[0];
    let mut progress = round.begin();
    round.record(&mut progress, true);
    round.record(&mut progress, false);
    round.record(&mut progress, true);
    assert_eq!((progress.attempted(), progress.killed(), progress.stopped()), (3, 2, false));
    assert!(round.next_target(&progress).is_none());
    match round.closing_notice(&progress) {
        Some(Notice::ProcessKilled { pid, name, count }) => {
            assert_eq!((pid, name.as_str(), count), (0, "emergency", 2));
        }
        other => panic!("unexpected: {:?}", other),
    }
}

#[test]
fn switching_resets_emergency_and_kills_what_the_profile_names() {
    let mut enforcer = Enforcer::new(KernConfig::default(), profile_protecting(&["shell"]), 0);
    let hot = snapshot(10.0, 10.0, 90.0, vec![]);
    enforcer.enforce_once(Some(&hot), 1_000);
    assert!(enforcer.is_emergency_mode());

    let gaming = Profile {
        name: "gaming".to_string(),
        protected: vec!["browser".to_string()],
        kill_on_activate: vec![
            "browser".to_string(),
            "systemd".to_string(),
            "absent".to_string(),
            "shell".to_string(),
        ],
        ..Default::default()
    };
    let table = vec![
        process(1, "systemd", 10),
        process(20, "shell", 10),
        process(21, "browser", 10),
        process(22, "editor", 10),
        process(23, "browser", 10),
        process(24, "shell", 10),
    ];
    let activation = enforcer.switch_profile(gaming, &table);

    assert!(!enforcer.is_emergency_mode());
    assert_eq!(enforcer.emergency_since(), None);
    assert_eq!(enforcer.profile().name, "gaming");
    assert_eq!(enforcer.last_enforcement_time(), 1_000);

    // Every running process that is named, by name in the profile's order;
    // the protected lists do not count, the critical names do.
    assert_eq!(activation.round.cause, Cause::Activation);
    assert!(activation.round.every_target);
    assert!(activation.round.announce.is_none());
    assert_eq!(target_pids(&activation.round), vec![21, 23, 20, 24]);
    let (tried, killed) = carry_out(&activation.round, &|pid| pid != 21);
    assert_eq!(tried, vec![21, 23, 20, 24]);
    assert_eq!(killed, 3);
    let mut progress = activation.round.begin();
    activation.round.record(&mut progress, true);
    assert!(activation.round.closing_notice(&progress).is_none());
    match activation.announce {
        Notice::ProfileSwitched { old_profile, new_profile } => {
            assert_eq!((old_profile.as_str(), new_profile.as_str()), ("work", "gaming"));
        }
        other => panic!("unexpected: {:?}", other),
    }
}

#[test]
fn the_engine_passes_notices_through_its_own_limits() {
    let mut enforcer = Enforcer::new(KernConfig::default(), Profile::default(), 0);
    let notice = Notice::ProcessKilled { pid: 1, name: "a".to_string(), count: 1 };
    assert!(enforcer.notify(notice.clone(), 100).is_some());
    assert!(enforcer.notify(notice.clone(), 200).is_none());
    assert!(enforcer.notify(notice, 3_100).is_some());
    assert_eq!(enforcer.config().monitor_interval, 2);
}

#[test]
fn forceful_configuration_reaches_the_rounds() {
    let mut config = KernConfig::default();
    config.kill_graceful = false;
    let mut enforcer = Enforcer::new(config, Profile::default(), 0);
    let stats = snapshot(95.0, 50.0, 60.0, usual_processes());
    let plan: CyclePlan = enforcer.enforce_once(Some(&stats), 1);
    assert!(!plan.rounds[0].graceful);
}

#[test]
fn selection_keeps_order_and_drops_the_ineligible() {
    let kept = select_eligible(
        &usual_processes(),
        &vec!["browser".to_string()],
        &vec!["kern".to_string()],
    );
    let pids: Vec<u32> = kept.iter().map(|p| p.pid).collect();
    assert_eq!(pids, vec![10, 13]);
    assert_eq!(kept[0].name, "shell");
    assert_eq!(kept[0].memory_bytes, 900);
}

#[test]
fn progress_of_another_round_closes_with_nothing() {
    let mut enforcer = Enforcer::new(KernConfig::default(), profile_protecting(&[]), 0);
    let stats = snapshot(95.0, 50.0, 60.0, usual_processes());
    let plan = enforcer.enforce_once(Some(&stats), 1);
    let long = &plan.rounds[0];
    let mut progress = long.begin();
    long.record(&mut progress, false);
    long.record(&mut progress, false);
    long.record(&mut progress, true);

    let few = snapshot(95.0, 50.0, 60.0, vec![process(10, "shell", 900)]);
    let plan = enforcer.enforce_once(Some(&few), 2);
    let short = &plan.rounds[0];
    assert!(short.closing_notice(&progress).is_none());
    assert!(short.next_target(&progress).is_none());
}
