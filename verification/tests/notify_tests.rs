use kern::config::NotificationConfig;
use kern::notify::{Category, Notice, NotificationManager, Urgency};

#[test]
fn test_notification_manager_creation() {
    let config = NotificationConfig::default();
    let manager = NotificationManager::new(&config);
    assert!(manager.is_enabled());
}

#[test]
fn test_notification_manager_disabled() {
    let mut config = NotificationConfig::default();
    config.enabled = false;
    let manager = NotificationManager::new(&config);
    assert!(!manager.is_enabled());
}

#[test]
fn test_notification_toggle() {
    let config = NotificationConfig::default();
    let mut manager = NotificationManager::new(&config);
    assert!(manager.is_enabled());

    manager.set_enabled(false);
    assert!(!manager.is_enabled());

    manager.set_enabled(true);
    assert!(manager.is_enabled());
}

#[test]
fn test_rate_limiting() {
    let config = NotificationConfig::default();
    let mut manager = NotificationManager::new(&config);

    // First kill notification should work
    assert!(manager.notify_process_killed(1234, "test", 1, 10_000).is_some());

    // Second one should be rate limited
    assert!(manager.notify_process_killed(5678, "test", 1, 10_001).is_none());

    // But the timestamp should still be set
    assert!(manager.last_kill_notification().is_some());
    assert_eq!(manager.last_kill_notification(), Some(10_000));
}

#[test]
fn test_notification_disabled() {
    let mut config = NotificationConfig::default();
    config.enabled = false;
    let mut manager = NotificationManager::new(&config);

    // No notifications should be sent when disabled
    assert!(manager.notify_process_killed(1234, "test", 1, 0).is_none());
    assert!(manager.notify_emergency_mode(90_000, 85_000, 0).is_none());
    assert!(manager.notify_profile_switched("old", "new", 0).is_none());
    assert!(manager.notify_emergency_mode_resolved(60_000, 0).is_none());
    assert!(manager.notify_resource_limit_exceeded("CPU", 95_000, 90_000, 0).is_none());
    assert!(manager.notify_temperature_warning(80_000, 75_000, 0).is_none());
    assert!(manager.notify_info("title", "message").is_none());
    assert!(manager.last_kill_notification().is_none());
    assert!(manager.last_emergency_notification().is_none());
    assert!(manager.last_warning_notification().is_none());
}

#[test]
fn test_kill_notification_disabled() {
    let mut config = NotificationConfig::default();
    config.show_on_kill = false;
    let mut manager = NotificationManager::new(&config);

    // Kill notification should not be sent when show_on_kill is false
    assert!(manager.notify_process_killed(1234, "test", 1, 0).is_none());
    assert!(manager.last_kill_notification().is_none());
}

#[test]
fn test_profile_switch_notification_disabled() {
    let mut config = NotificationConfig::default();
    config.show_on_profile_switch = false;
    let mut manager = NotificationManager::new(&config);

    // Profile switch notification should not be sent
    assert!(manager.notify_profile_switched("old", "new", 0).is_none());
}

#[test]
fn routine_notices_are_three_seconds_apart() {
    let mut manager = NotificationManager::new(&NotificationConfig::default());
    assert!(manager.notify_process_killed(1, "a", 1, 1_000).is_some());
    assert!(manager.notify_process_killed(2, "b", 1, 3_999).is_none());
    // The dropped notice does not move the time that counts.
    assert_eq!(manager.last_kill_notification(), Some(1_000));
    assert!(manager.notify_process_killed(3, "c", 1, 4_000).is_some());
    assert_eq!(manager.last_kill_notification(), Some(4_000));
}

#[test]
fn emergency_notices_are_five_seconds_apart() {
    let mut manager = NotificationManager::new(&NotificationConfig::default());
    assert!(manager.notify_emergency_mode(90_000, 85_000, 0).is_some());
    assert!(manager.notify_emergency_mode(91_000, 85_000, 3_000).is_none());
    assert!(manager.notify_emergency_mode(91_000, 85_000, 4_999).is_none());
    assert!(manager.notify_emergency_mode(92_000, 85_000, 5_000).is_some());
    assert_eq!(manager.last_emergency_notification(), Some(5_000));
}

#[test]
fn categories_are_limited_independently() {
    let mut manager = NotificationManager::new(&NotificationConfig::default());
    assert!(manager.notify_process_killed(1, "a", 1, 100).is_some());
    assert!(manager.notify_emergency_mode(90_000, 85_000, 100).is_some());
    assert!(manager.notify_resource_limit_exceeded("CPU", 95_000, 90_000, 100).is_some());
    // The temperature warning shares the limit of the resource limits.
    assert!(manager.notify_temperature_warning(80_000, 75_000, 200).is_none());
    assert!(manager.notify_temperature_warning(80_000, 75_000, 3_100).is_some());
    assert_eq!(manager.last_warning_notification(), Some(3_100));
}

#[test]
fn resolved_and_switch_notices_are_not_limited() {
    let mut manager = NotificationManager::new(&NotificationConfig::default());
    assert!(manager.notify_emergency_mode_resolved(70_000, 5).is_some());
    assert!(manager.notify_emergency_mode_resolved(70_000, 5).is_some());
    assert!(manager.notify_profile_switched("a", "b", 5).is_some());
    assert!(manager.notify_profile_switched("b", "c", 5).is_some());
    assert!(manager.notify_info("t", "m").is_some());
}

#[test]
fn a_clock_that_ran_backwards_counts_as_no_time() {
    let mut manager = NotificationManager::new(&NotificationConfig::default());
    assert!(manager.notify_process_killed(1, "a", 1, 10_000).is_some());
    assert!(manager.notify_process_killed(1, "a", 1, 2_000).is_none());
    assert_eq!(manager.last_kill_notification(), Some(10_000));
}

#[test]
fn notices_carry_their_payload() {
    let mut manager = NotificationManager::new(&NotificationConfig::default());
    match manager.notify_process_killed(1234, "test", 2, 0) {
        Some(Notice::ProcessKilled { pid, name, count }) => {
            assert_eq!((pid, name.as_str(), count), (1234, "test", 2));
        }
        other => panic!("unexpected: {:?}", other),
    }
    match manager.notify_emergency_mode(90_500, 85_000, 0) {
        Some(Notice::EmergencyMode { temperature, critical }) => {
            assert_eq!((temperature, critical), (90_500, 85_000));
        }
        other => panic!("unexpected: {:?}", other),
    }
    match manager.notify_resource_limit_exceeded("RAM", 91_000, 85_000, 0) {
        Some(Notice::ResourceLimitExceeded { resource, current, limit }) => {
            assert_eq!((resource.as_str(), current, limit), ("RAM", 91_000, 85_000));
        }
        other => panic!("unexpected: {:?}", other),
    }
    match manager.notify_profile_switched("old", "new", 0) {
        Some(Notice::ProfileSwitched { old_profile, new_profile }) => {
            assert_eq!((old_profile.as_str(), new_profile.as_str()), ("old", "new"));
        }
        other => panic!("unexpected: {:?}", other),
    }
    match manager.notify_info("title", "message") {
        Some(Notice::Info { title, message }) => {
            assert_eq!((title.as_str(), message.as_str()), ("title", "message"));
        }
        other => panic!("unexpected: {:?}", other),
    }
}

#[test]
fn notices_have_category_and_urgency() {
    let killed = Notice::ProcessKilled { pid: 1, name: "a".to_string(), count: 1 };
    assert_eq!(killed.category(), Category::Kill);
    assert_eq!(killed.urgency(), Urgency::Normal);
    let hot = Notice::EmergencyMode { temperature: 90_000, critical: 85_000 };
    assert_eq!(hot.category(), Category::Emergency);
    assert_eq!(hot.urgency(), Urgency::Critical);
    let cool = Notice::EmergencyResolved { temperature: 70_000 };
    assert_eq!(cool.category(), Category::Resolved);
    assert_eq!(cool.urgency(), Urgency::Normal);
    let warm = Notice::TemperatureWarning { temperature: 80_000, warning: 75_000 };
    assert_eq!(warm.category(), Category::Warning);
    assert_eq!(warm.urgency(), Urgency::Critical);
    let over = Notice::ResourceLimitExceeded {
        resource: "CPU".to_string(),
        current: 95_000,
        limit: 90_000,
    };
    assert_eq!(over.category(), Category::Warning);
    assert_eq!(over.urgency(), Urgency::Critical);
    let switched =
        Notice::ProfileSwitched { old_profile: "a".to_string(), new_profile: "b".to_string() };
    assert_eq!(switched.category(), Category::ProfileSwitch);
    let info = Notice::Info { title: "t".to_string(), message: "m".to_string() };
    assert_eq!(info.category(), Category::Info);
}

#[test]
fn generic_entry_files_by_category() {
    let mut manager = NotificationManager::new(&NotificationConfig::default());
    let first = Notice::TemperatureWarning { temperature: 80_000, warning: 75_000 };
    assert!(manager.notify(first, 50).is_some());
    let second = Notice::ResourceLimitExceeded {
        resource: "CPU".to_string(),
        current: 95_000,
        limit: 90_000,
    };
    assert!(manager.notify(second, 60).is_none());
    assert_eq!(manager.last_warning_notification(), Some(50));
}
