use kern::config::{
    config_base, ConfigBase, ConfigError, KernConfig, NotificationConfig, ResourceLimits,
    TemperatureConfig,
};

/// A whole-number reading in the library's unit, thousandths.
fn thousandths(value: f64) -> i64 {
    (value * 1000.0).round() as i64
}

#[test]
fn test_default_config() {
    let config = KernConfig::default();
    assert_eq!(config.default_profile, "normal");
    assert_eq!(config.monitor_interval, 2);
    assert_eq!(config.limits.max_cpu_percent, thousandths(90.0));
    assert_eq!(config.limits.max_ram_percent, thousandths(85.0));
}

#[test]
fn test_config_validation_interval() {
    let mut config = KernConfig::default();

    // Invalid: too low
    config.monitor_interval = 0;
    assert!(config.validate().is_err());

    // Invalid: too high
    config.monitor_interval = 7200;
    assert!(config.validate().is_err());

    // Valid
    config.monitor_interval = 5;
    assert!(config.validate().is_ok());
}

#[test]
fn test_config_validation_cpu_percent() {
    let mut config = KernConfig::default();

    config.limits.max_cpu_percent = thousandths(-1.0);
    assert!(config.validate().is_err());

    config.limits.max_cpu_percent = thousandths(101.0);
    assert!(config.validate().is_err());

    config.limits.max_cpu_percent = thousandths(50.0);
    assert!(config.validate().is_ok());
}

#[test]
fn test_config_validation_temperature() {
    let mut config = KernConfig::default();

    // Invalid: critical not higher than warning
    config.temperature.critical = thousandths(70.0);
    config.temperature.warning = thousandths(75.0);
    assert!(config.validate().is_err());

    // Valid
    config.temperature.warning = thousandths(70.0);
    config.temperature.critical = thousandths(80.0);
    assert!(config.validate().is_ok());

    // Invalid: temperature out of range
    config.temperature.warning = thousandths(-5.0);
    assert!(config.validate().is_err());
}

#[test]
fn default_config_is_complete() {
    let config = KernConfig::default();
    assert_eq!(config.temperature.warning, 75_000);
    assert_eq!(config.temperature.critical, 85_000);
    assert_eq!(
        config.protected_processes,
        vec!["systemd".to_string(), "gnome-shell".to_string(), "kern".to_string()]
    );
    assert!(config.notifications.enabled);
    assert!(config.notifications.show_on_kill);
    assert!(config.notifications.show_on_profile_switch);
    assert!(config.kill_graceful);
    assert_eq!(config.kill_confirmation_threshold, 5);
    assert_eq!(config.validate(), Ok(()));
}

#[test]
fn part_defaults() {
    let t = TemperatureConfig::default();
    assert_eq!((t.warning, t.critical), (75_000, 85_000));
    let l = ResourceLimits::default();
    assert_eq!((l.max_cpu_percent, l.max_ram_percent), (90_000, 85_000));
    let n = NotificationConfig::default();
    assert!(n.enabled && n.show_on_kill && n.show_on_profile_switch);
    assert_eq!(kern::config::default_profile(), "normal");
    assert_eq!(kern::config::default_monitor_interval(), 2);
    assert_eq!(kern::config::default_temp_warning(), 75_000);
    assert_eq!(kern::config::default_temp_critical(), 85_000);
    assert_eq!(kern::config::default_max_cpu(), 90_000);
    assert_eq!(kern::config::default_max_ram(), 85_000);
    assert!(kern::config::default_notifications_enabled());
    assert!(kern::config::default_show_on_kill());
    assert!(kern::config::default_show_on_profile_switch());
    assert_eq!(kern::config::default_protected_processes().len(), 3);
}

#[test]
fn each_config_error_has_its_input() {
    let mut c = KernConfig::default();
    c.monitor_interval = 0;
    assert_eq!(c.validate(), Err(ConfigError::IntervalTooShort));

    let mut c = KernConfig::default();
    c.monitor_interval = 3601;
    assert_eq!(c.validate(), Err(ConfigError::IntervalTooLong));

    let mut c = KernConfig::default();
    c.limits.max_cpu_percent = 100_001;
    assert_eq!(c.validate(), Err(ConfigError::CpuLimitOutOfRange));

    let mut c = KernConfig::default();
    c.limits.max_ram_percent = -1;
    assert_eq!(c.validate(), Err(ConfigError::RamLimitOutOfRange));

    let mut c = KernConfig::default();
    c.temperature.warning = 120_001;
    assert_eq!(c.validate(), Err(ConfigError::WarningOutOfRange));

    let mut c = KernConfig::default();
    c.temperature.critical = 120_001;
    assert_eq!(c.validate(), Err(ConfigError::CriticalOutOfRange));

    let mut c = KernConfig::default();
    c.temperature.critical = c.temperature.warning;
    assert_eq!(c.validate(), Err(ConfigError::ThresholdsNotOrdered));
}

#[test]
fn config_limits_are_inclusive() {
    let mut c = KernConfig::default();
    c.monitor_interval = 1;
    c.limits.max_cpu_percent = 0;
    c.limits.max_ram_percent = 100_000;
    c.temperature.warning = 0;
    c.temperature.critical = 120_000;
    assert_eq!(c.validate(), Ok(()));
    c.monitor_interval = 3600;
    assert_eq!(c.validate(), Ok(()));
}

#[test]
fn first_broken_rule_is_reported() {
    let mut c = KernConfig::default();
    c.monitor_interval = 0;
    c.limits.max_cpu_percent = -1;
    c.temperature.critical = 0;
    assert_eq!(c.validate(), Err(ConfigError::IntervalTooShort));
    c.monitor_interval = 2;
    assert_eq!(c.validate(), Err(ConfigError::CpuLimitOutOfRange));
}

#[test]
fn the_xdg_directory_takes_precedence() {
    let both = config_base(Some("/x".to_string()), Some("/home/u".to_string()));
    assert!(matches!(both, ConfigBase::Xdg(dir) if dir == "/x"));
    let xdg = config_base(Some("/x".to_string()), None);
    assert!(matches!(xdg, ConfigBase::Xdg(dir) if dir == "/x"));
    let home = config_base(None, Some("/home/u".to_string()));
    assert!(matches!(home, ConfigBase::Home(dir) if dir == "/home/u"));
    assert!(matches!(config_base(None, None), ConfigBase::Unknown));
}
