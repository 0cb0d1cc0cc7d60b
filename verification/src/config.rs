//! Global configuration of the watchdog and its validation.
//!
//! Percentages and temperatures are whole numbers of thousandths, as in
//! the snapshots they are compared with.

use vstd::prelude::*;

verus! {

/// Thousandths in one whole percent or degree.
pub const UNIT: i64 = 1000;

/// The largest percentage a limit may hold: 100 %.
pub const MAX_PERCENT: i64 = 100_000;

/// The largest temperature a threshold may hold: 120 degrees Celsius.
pub const MAX_TEMPERATURE: i64 = 120_000;

/// The longest monitoring interval, in seconds.
pub const MAX_INTERVAL: u64 = 3600;

/// Temperature thresholds, in thousandths of a degree Celsius.
#[derive(Debug, Clone, Copy)]
pub struct TemperatureConfig {
    /// Above this the engine cools pre-emptively.
    pub warning: i64,
    /// Above this the engine enters emergency mode.
    pub critical: i64,
}

/// Default resource limits, in thousandths of a percent.
#[derive(Debug, Clone, Copy)]
pub struct ResourceLimits {
    pub max_cpu_percent: i64,
    pub max_ram_percent: i64,
}

/// Which notifications are wanted.
#[derive(Debug, Clone, Copy)]
pub struct NotificationConfig {
    pub enabled: bool,
    pub show_on_kill: bool,
    pub show_on_profile_switch: bool,
}

/// The whole configuration.
#[derive(Debug, Clone)]
pub struct KernConfig {
    pub default_profile: String,
    /// Seconds between two evaluation cycles.
    pub monitor_interval: u64,
    pub temperature: TemperatureConfig,
    pub limits: ResourceLimits,
    /// Names that are never a termination target, under any profile.
    pub protected_processes: Vec<String>,
    pub notifications: NotificationConfig,
    /// Whether terminations start with the polite signal.
    pub kill_graceful: bool,
    /// A manual kill of more processes than this asks for confirmation.
    pub kill_confirmation_threshold: usize,
}

/// Why a configuration is rejected.
#[derive(Debug, Clone, Copy, PartialEq, Eq, Structural)]
pub enum ConfigError {
    /// `monitor_interval` is below one second.
    IntervalTooShort,
    /// `monitor_interval` is above an hour.
    IntervalTooLong,
    /// `limits.max_cpu_percent` is outside 0 to 100 %.
    CpuLimitOutOfRange,
    /// `limits.max_ram_percent` is outside 0 to 100 %.
    RamLimitOutOfRange,
    /// `temperature.warning` is outside 0 to 120 degrees.
    WarningOutOfRange,
    /// `temperature.critical` is outside 0 to 120 degrees.
    CriticalOutOfRange,
    /// `temperature.critical` is not above `temperature.warning`.
    ThresholdsNotOrdered,
}

/// Whether `value` is a percentage between 0 and 100 %.
pub open spec fn percent_in_range(value: i64) -> bool {
    0 <= value <= MAX_PERCENT
}

/// Whether `value` is a temperature between 0 and 120 degrees.
pub open spec fn temperature_in_range(value: i64) -> bool {
    0 <= value <= MAX_TEMPERATURE
}

pub fn default_profile() -> (name: String)
    ensures
        name@ == "normal"@,
{
    "normal".to_owned()
}

pub fn default_monitor_interval() -> (seconds: u64)
    ensures
        seconds == 2,
{
    2
}

pub fn default_temp_warning() -> (value: i64)
    ensures
        value == 75 * UNIT,
{
    75 * UNIT
}

pub fn default_temp_critical() -> (value: i64)
    ensures
        value == 85 * UNIT,
{
    85 * UNIT
}

pub fn default_max_cpu() -> (value: i64)
    ensures
        value == 90 * UNIT,
{
    90 * UNIT
}

pub fn default_max_ram() -> (value: i64)
    ensures
        value == 85 * UNIT,
{
    85 * UNIT
}

/// The names protected when the configuration names none.
pub open spec fn default_protected_names() -> Seq<Seq<char>> {
    seq!["systemd"@, "gnome-shell"@, "kern"@]
}

pub fn default_protected_processes() -> (list: Vec<String>)
    ensures
        list@.len() == 3,
        forall|i: int| 0 <= i < 3 ==> (#[trigger] list@[i])@ == default_protected_names()[i],
{
    let mut list: Vec<String> = Vec::new();
    list.push("systemd".to_owned());
    list.push("gnome-shell".to_owned());
    list.push("kern".to_owned());
    list
}

pub fn default_notifications_enabled() -> (on: bool)
    ensures
        on,
{
    true
}

pub fn default_show_on_kill() -> (on: bool)
    ensures
        on,
{
    true
}

pub fn default_show_on_profile_switch() -> (on: bool)
    ensures
        on,
{
    true
}

impl Default for TemperatureConfig {
    fn default() -> (r: Self)
        ensures
            r.warning == 75 * UNIT,
            r.critical == 85 * UNIT,
    {
        TemperatureConfig { warning: default_temp_warning(), critical: default_temp_critical() }
    }
}

impl Default for ResourceLimits {
    fn default() -> (r: Self)
        ensures
            r.max_cpu_percent == 90 * UNIT,
            r.max_ram_percent == 85 * UNIT,
    {
        ResourceLimits { max_cpu_percent: default_max_cpu(), max_ram_percent: default_max_ram() }
    }
}

impl Default for NotificationConfig {
    fn default() -> (r: Self)
        ensures
            r.enabled,
            r.show_on_kill,
            r.show_on_profile_switch,
    {
        NotificationConfig {
            enabled: default_notifications_enabled(),
            show_on_kill: default_show_on_kill(),
            show_on_profile_switch: default_show_on_profile_switch(),
        }
    }
}

impl Default for KernConfig {
    fn default() -> (r: Self)
        ensures
            r.default_profile@ == "normal"@,
            r.monitor_interval == 2,
            r.temperature.warning == 75 * UNIT,
            r.temperature.critical == 85 * UNIT,
            r.limits.max_cpu_percent == 90 * UNIT,
            r.limits.max_ram_percent == 85 * UNIT,
            r.protected_processes@.len() == 3,
            forall|i: int|
                0 <= i < 3 ==> (#[trigger] r.protected_processes@[i])@
                    == default_protected_names()[i],
            r.notifications.enabled,
            r.notifications.show_on_kill,
            r.notifications.show_on_profile_switch,
            r.kill_graceful,
            r.kill_confirmation_threshold == 5,
            r.check() is Ok,
    {
        KernConfig {
            default_profile: default_profile(),
            monitor_interval: default_monitor_interval(),
            temperature: TemperatureConfig::default(),
            limits: ResourceLimits::default(),
            protected_processes: default_protected_processes(),
            notifications: NotificationConfig::default(),
            kill_graceful: true,
            kill_confirmation_threshold: 5,
        }
    }
}

impl KernConfig {
    /// The verdict on this configuration: the first rule it breaks, in the
    /// order interval, CPU limit, RAM limit, warning, critical, ordering.
    pub open spec fn check(&self) -> Result<(), ConfigError> {
        if self.monitor_interval < 1 {
            Err(ConfigError::IntervalTooShort)
        } else if self.monitor_interval > MAX_INTERVAL {
            Err(ConfigError::IntervalTooLong)
        } else if !percent_in_range(self.limits.max_cpu_percent) {
            Err(ConfigError::CpuLimitOutOfRange)
        } else if !percent_in_range(self.limits.max_ram_percent) {
            Err(ConfigError::RamLimitOutOfRange)
        } else if !temperature_in_range(self.temperature.warning) {
            Err(ConfigError::WarningOutOfRange)
        } else if !temperature_in_range(self.temperature.critical) {
            Err(ConfigError::CriticalOutOfRange)
        } else if self.temperature.critical <= self.temperature.warning {
            Err(ConfigError::ThresholdsNotOrdered)
        } else {
            Ok(())
        }
    }

    /// Whether every rule holds.
    pub open spec fn is_valid(&self) -> bool {
        &&& 1 <= self.monitor_interval <= MAX_INTERVAL
        &&& percent_in_range(self.limits.max_cpu_percent)
        &&& percent_in_range(self.limits.max_ram_percent)
        &&& temperature_in_range(self.temperature.warning)
        &&& temperature_in_range(self.temperature.critical)
        &&& self.temperature.warning < self.temperature.critical
    }

    /// Accepts the configuration or names the first rule it breaks.
    pub fn validate(&self) -> (verdict: Result<(), ConfigError>)
        ensures
            verdict == self.check(),
            verdict is Ok <==> self.is_valid(),
    {
        if self.monitor_interval < 1 {
            return Err(ConfigError::IntervalTooShort);
        }
        if self.monitor_interval > MAX_INTERVAL {
            return Err(ConfigError::IntervalTooLong);
        }
        if self.limits.max_cpu_percent < 0 || self.limits.max_cpu_percent > MAX_PERCENT {
            return Err(ConfigError::CpuLimitOutOfRange);
        }
        if self.limits.max_ram_percent < 0 || self.limits.max_ram_percent > MAX_PERCENT {
            return Err(ConfigError::RamLimitOutOfRange);
        }
        if self.temperature.warning < 0 || self.temperature.warning > MAX_TEMPERATURE {
            return Err(ConfigError::WarningOutOfRange);
        }
        if self.temperature.critical < 0 || self.temperature.critical > MAX_TEMPERATURE {
            return Err(ConfigError::CriticalOutOfRange);
        }
        if self.temperature.critical <= self.temperature.warning {
            return Err(ConfigError::ThresholdsNotOrdered);
        }
        Ok(())
    }
}

/// The directory under which the user's files are kept.
#[derive(Debug, Clone)]
pub enum ConfigBase {
    /// The directory that `XDG_CONFIG_HOME` names: the files are in its
    /// subdirectory `kern`.
    Xdg(String),
    /// The home directory: the files are in its subdirectory
    /// `.config/kern`.
    Home(String),
    /// Neither is known.
    Unknown,
}

/// Finds the directory under which the user's files are kept, from the
/// values of `XDG_CONFIG_HOME` and `HOME` where they are set. The first
/// takes precedence.
pub fn config_base(xdg_config_home: Option<String>, home: Option<String>) -> (base: ConfigBase)
    ensures
        base == match (xdg_config_home, home) {
            (Some(dir), _) => ConfigBase::Xdg(dir),
            (None, Some(dir)) => ConfigBase::Home(dir),
            (None, None) => ConfigBase::Unknown,
        },
{
    match xdg_config_home {
        Some(dir) => ConfigBase::Xdg(dir),
        None => match home {
            Some(dir) => ConfigBase::Home(dir),
            None => ConfigBase::Unknown,
        },
    }
}

} // verus!
