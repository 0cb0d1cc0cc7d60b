//! The notifier: decides which alerts reach the user.
//!
//! The notifier holds no clock. Every call is given the current time in
//! milliseconds on a monotonic scale, and answers with the notice to
//! deliver, or with nothing when the notice is dropped.

use vstd::prelude::*;
use crate::config::NotificationConfig;

verus! {

/// Minimum distance between two routine notices of one category.
pub const ROUTINE_INTERVAL_MS: u64 = 3000;

/// Minimum distance between two emergency notices.
pub const EMERGENCY_INTERVAL_MS: u64 = 5000;

/// How pressing a notice is.
#[derive(Debug, Clone, Copy, PartialEq, Eq, Structural)]
pub enum Urgency {
    Normal,
    Critical,
}

/// The groups of notices that the notifier tells apart.
#[derive(Debug, Clone, Copy, PartialEq, Eq, Structural)]
pub enum Category {
    /// A process was killed.
    Kill,
    /// Emergency mode was entered.
    Emergency,
    /// Emergency mode was left.
    Resolved,
    /// A limit or the warning temperature was exceeded.
    Warning,
    /// The active profile changed.
    ProfileSwitch,
    /// Anything else.
    Info,
}

/// What a notice tells the user. Temperatures and percentages are in
/// thousandths.
#[derive(Debug, Clone)]
pub enum Notice {
    ProcessKilled { pid: u32, name: String, count: usize },
    EmergencyMode { temperature: i64, critical: i64 },
    EmergencyResolved { temperature: i64 },
    ResourceLimitExceeded { resource: String, current: i64, limit: i64 },
    TemperatureWarning { temperature: i64, warning: i64 },
    ProfileSwitched { old_profile: String, new_profile: String },
    Info { title: String, message: String },
}

impl Notice {
    /// The category under which the notifier files this notice.
    pub open spec fn spec_category(&self) -> Category {
        match self {
            Notice::ProcessKilled { .. } => Category::Kill,
            Notice::EmergencyMode { .. } => Category::Emergency,
            Notice::EmergencyResolved { .. } => Category::Resolved,
            Notice::ResourceLimitExceeded { .. } => Category::Warning,
            Notice::TemperatureWarning { .. } => Category::Warning,
            Notice::ProfileSwitched { .. } => Category::ProfileSwitch,
            Notice::Info { .. } => Category::Info,
        }
    }

    /// The urgency with which this notice is shown.
    pub open spec fn spec_urgency(&self) -> Urgency {
        match self {
            Notice::EmergencyMode { .. } => Urgency::Critical,
            Notice::ResourceLimitExceeded { .. } => Urgency::Critical,
            Notice::TemperatureWarning { .. } => Urgency::Critical,
            _ => Urgency::Normal,
        }
    }

    #[verifier::when_used_as_spec(spec_category)]
    pub fn category(&self) -> (c: Category)
        ensures
            c == self.spec_category(),
        no_unwind
    {
        match self {
            Notice::ProcessKilled { .. } => Category::Kill,
            Notice::EmergencyMode { .. } => Category::Emergency,
            Notice::EmergencyResolved { .. } => Category::Resolved,
            Notice::ResourceLimitExceeded { .. } => Category::Warning,
            Notice::TemperatureWarning { .. } => Category::Warning,
            Notice::ProfileSwitched { .. } => Category::ProfileSwitch,
            Notice::Info { .. } => Category::Info,
        }
    }

    #[verifier::when_used_as_spec(spec_urgency)]
    pub fn urgency(&self) -> (u: Urgency)
        ensures
            u == self.spec_urgency(),
    {
        match self {
            Notice::EmergencyMode { .. } => Urgency::Critical,
            Notice::ResourceLimitExceeded { .. } => Urgency::Critical,
            Notice::TemperatureWarning { .. } => Urgency::Critical,
            _ => Urgency::Normal,
        }
    }
}

/// What the notifier remembers.
pub struct NotifierState {
    pub enabled: bool,
    pub show_on_kill: bool,
    pub show_on_profile_switch: bool,
    /// When the last kill notice was let through.
    pub last_kill: Option<u64>,
    /// When the last emergency notice was let through.
    pub last_emergency: Option<u64>,
    /// When the last warning notice was let through.
    pub last_warning: Option<u64>,
    /// Minimum distance between two routine notices, in milliseconds.
    pub min_interval: u64,
}

/// The time from `since` to `now`; none where the clock ran backwards.
pub open spec fn elapsed(since: u64, now: u64) -> int {
    if now >= since {
        now - since
    } else {
        0
    }
}

/// Whether a notice at `now` comes less than `interval` after `last`.
pub open spec fn too_soon(last: Option<u64>, now: u64, interval: u64) -> bool {
    last matches Some(t) && elapsed(t, now) < interval
}

impl NotifierState {
    /// Whether the configuration wants notices of `category` at all.
    pub open spec fn wants(self, category: Category) -> bool {
        self.enabled && match category {
            Category::Kill => self.show_on_kill,
            Category::ProfileSwitch => self.show_on_profile_switch,
            _ => true,
        }
    }

    /// The minimum distance between two notices of `category`; zero where
    /// the category is not rate-limited.
    pub open spec fn interval(self, category: Category) -> u64 {
        match category {
            Category::Kill => self.min_interval,
            Category::Warning => self.min_interval,
            Category::Emergency => EMERGENCY_INTERVAL_MS,
            _ => 0,
        }
    }

    /// When the last notice of `category` was let through.
    pub open spec fn last(self, category: Category) -> Option<u64> {
        match category {
            Category::Kill => self.last_kill,
            Category::Warning => self.last_warning,
            Category::Emergency => self.last_emergency,
            _ => None,
        }
    }

    /// Whether a notice of `category` fired at `now` is delivered.
    pub open spec fn admits(self, category: Category, now: u64) -> bool {
        self.wants(category) && !too_soon(self.last(category), now, self.interval(category))
    }

    /// The notifier after a notice of `category` was fired at `now`.
    pub open spec fn after(self, category: Category, now: u64) -> NotifierState {
        if !self.admits(category, now) {
            self
        } else {
            match category {
                Category::Kill => NotifierState { last_kill: Some(now), ..self },
                Category::Warning => NotifierState { last_warning: Some(now), ..self },
                Category::Emergency => NotifierState { last_emergency: Some(now), ..self },
                _ => self,
            }
        }
    }
}

/// Rate-limits and routes the alerts that the engine raises.
#[derive(Debug, Clone)]
pub struct NotificationManager {
    enabled: bool,
    show_on_kill: bool,
    show_on_profile_switch: bool,
    last_kill_notification: Option<u64>,
    last_emergency_notification: Option<u64>,
    last_warning_notification: Option<u64>,
    min_interval_between_notifications: u64,
}

impl View for NotificationManager {
    type V = NotifierState;

    closed spec fn view(&self) -> NotifierState {
        NotifierState {
            enabled: self.enabled,
            show_on_kill: self.show_on_kill,
            show_on_profile_switch: self.show_on_profile_switch,
            last_kill: self.last_kill_notification,
            last_emergency: self.last_emergency_notification,
            last_warning: self.last_warning_notification,
            min_interval: self.min_interval_between_notifications,
        }
    }
}

fn elapsed_less(last: Option<u64>, now: u64, interval: u64) -> (soon: bool)
    ensures
        soon == too_soon(last, now, interval),
    no_unwind
{
    match last {
        Some(t) => if now < t {
            0 < interval
        } else {
            now - t < interval
        },
        None => false,
    }
}

impl NotificationManager {
    /// A notifier that has let nothing through yet.
    pub fn new(config: &NotificationConfig) -> (notifier: Self)
        ensures
            notifier@ == (NotifierState {
                enabled: config.enabled,
                show_on_kill: config.show_on_kill,
                show_on_profile_switch: config.show_on_profile_switch,
                last_kill: None,
                last_emergency: None,
                last_warning: None,
                min_interval: ROUTINE_INTERVAL_MS,
            }),
    {
        NotificationManager {
            enabled: config.enabled,
            show_on_kill: config.show_on_kill,
            show_on_profile_switch: config.show_on_profile_switch,
            last_kill_notification: None,
            last_emergency_notification: None,
            last_warning_notification: None,
            min_interval_between_notifications: ROUTINE_INTERVAL_MS,
        }
    }

    /// Fires `notice` at time `now`: hands it back when it is to be
    /// delivered, and remembers the time for its category.
    pub fn notify(&mut self, notice: Notice, now: u64) -> (delivered: Option<Notice>)
        ensures
            delivered == if old(self)@.admits(notice.spec_category(), now) {
                Some(notice)
            } else {
                None
            },
            final(self)@ == old(self)@.after(notice.spec_category(), now),
        no_unwind
    {
        if !self.enabled {
            return None;
        }
        match notice.category() {
            Category::Kill => {
                if !self.show_on_kill {
                    return None;
                }
                if elapsed_less(
                    self.last_kill_notification,
                    now,
                    self.min_interval_between_notifications,
                ) {
                    return None;
                }
                self.last_kill_notification = Some(now);
            },
            Category::Warning => {
                if elapsed_less(
                    self.last_warning_notification,
                    now,
                    self.min_interval_between_notifications,
                ) {
                    return None;
                }
                self.last_warning_notification = Some(now);
            },
            Category::Emergency => {
                if elapsed_less(self.last_emergency_notification, now, EMERGENCY_INTERVAL_MS) {
                    return None;
                }
                self.last_emergency_notification = Some(now);
            },
            Category::ProfileSwitch => {
                if !self.show_on_profile_switch {
                    return None;
                }
            },
            Category::Resolved => {},
            Category::Info => {},
        }
        Some(notice)
    }

    /// Announces that `count` processes were killed; `pid` and `name` name
    /// the process where it is one.
    pub fn notify_process_killed(&mut self, pid: u32, name: &str, count: usize, now: u64) -> (delivered:
        Option<Notice>)
        ensures
            delivered is Some <==> old(self)@.admits(Category::Kill, now),
            delivered matches Some(n) ==> (n matches Notice::ProcessKilled {
                pid: p,
                name: m,
                count: c,
            } && p == pid && m@ == name@ && c == count),
            final(self)@ == old(self)@.after(Category::Kill, now),
    {
        self.notify(Notice::ProcessKilled { pid, name: name.to_owned(), count }, now)
    }

    /// Announces that emergency mode was entered.
    pub fn notify_emergency_mode(&mut self, temperature: i64, critical_temp: i64, now: u64) -> (delivered:
        Option<Notice>)
        ensures
            delivered is Some <==> old(self)@.admits(Category::Emergency, now),
            delivered matches Some(n) ==> n == (Notice::EmergencyMode {
                temperature,
                critical: critical_temp,
            }),
            final(self)@ == old(self)@.after(Category::Emergency, now),
    {
        self.notify(Notice::EmergencyMode { temperature, critical: critical_temp }, now)
    }

    /// Announces that emergency mode was left. Not rate-limited.
    pub fn notify_emergency_mode_resolved(&mut self, temperature: i64, now: u64) -> (delivered:
        Option<Notice>)
        ensures
            delivered is Some <==> old(self)@.enabled,
            delivered matches Some(n) ==> n == (Notice::EmergencyResolved { temperature }),
            final(self)@ == old(self)@,
    {
        self.notify(Notice::EmergencyResolved { temperature }, now)
    }

    /// Announces that usage of `resource_type` is over its limit.
    pub fn notify_resource_limit_exceeded(
        &mut self,
        resource_type: &str,
        current: i64,
        limit: i64,
        now: u64,
    ) -> (delivered: Option<Notice>)
        ensures
            delivered is Some <==> old(self)@.admits(Category::Warning, now),
            delivered matches Some(n) ==> (n matches Notice::ResourceLimitExceeded {
                resource: r,
                current: c,
                limit: l,
            } && r@ == resource_type@ && c == current && l == limit),
            final(self)@ == old(self)@.after(Category::Warning, now),
    {
        self.notify(
            Notice::ResourceLimitExceeded { resource: resource_type.to_owned(), current, limit },
            now,
        )
    }

    /// Announces that the warning temperature was exceeded. Shares its rate
    /// limit with the resource limits.
    pub fn notify_temperature_warning(&mut self, temperature: i64, warning_temp: i64, now: u64) -> (delivered:
        Option<Notice>)
        ensures
            delivered is Some <==> old(self)@.admits(Category::Warning, now),
            delivered matches Some(n) ==> n == (Notice::TemperatureWarning {
                temperature,
                warning: warning_temp,
            }),
            final(self)@ == old(self)@.after(Category::Warning, now),
    {
        self.notify(Notice::TemperatureWarning { temperature, warning: warning_temp }, now)
    }

    /// Announces a change of profile. Not rate-limited.
    pub fn notify_profile_switched(&mut self, old_profile: &str, new_profile: &str, now: u64) -> (delivered:
        Option<Notice>)
        ensures
            delivered is Some <==> old(self)@.enabled && old(self)@.show_on_profile_switch,
            delivered matches Some(n) ==> (n matches Notice::ProfileSwitched {
                old_profile: a,
                new_profile: b,
            } && a@ == old_profile@ && b@ == new_profile@),
            final(self)@ == old(self)@,
    {
        self.notify(
            Notice::ProfileSwitched {
                old_profile: old_profile.to_owned(),
                new_profile: new_profile.to_owned(),
            },
            now,
        )
    }

    /// A free-form notice, delivered whenever notifications are enabled.
    pub fn notify_info(&self, title: &str, message: &str) -> (delivered: Option<Notice>)
        ensures
            delivered is Some <==> self@.enabled,
            delivered matches Some(n) ==> (n matches Notice::Info { title: t, message: m } && t@
                == title@ && m@ == message@),
    {
        if !self.enabled {
            return None;
        }
        Some(Notice::Info { title: title.to_owned(), message: message.to_owned() })
    }

    pub fn is_enabled(&self) -> (on: bool)
        ensures
            on == self@.enabled,
    {
        self.enabled
    }

    pub fn set_enabled(&mut self, enabled: bool)
        ensures
            final(self)@ == (NotifierState { enabled, ..old(self)@ }),
    {
        self.enabled = enabled;
    }

    /// When the last kill notice was let through.
    pub fn last_kill_notification(&self) -> (t: Option<u64>)
        ensures
            t == self@.last_kill,
    {
        self.last_kill_notification
    }

    /// When the last emergency notice was let through.
    pub fn last_emergency_notification(&self) -> (t: Option<u64>)
        ensures
            t == self@.last_emergency,
    {
        self.last_emergency_notification
    }

    /// When the last warning notice was let through.
    pub fn last_warning_notification(&self) -> (t: Option<u64>)
        ensures
            t == self@.last_warning,
    {
        self.last_warning_notification
    }
}

/// Two notices of one rate-limited category, the second less than the
/// category's minimum interval after the first: when the first is
/// delivered, the second is dropped, so exactly one of the two is
/// delivered.
pub proof fn lemma_rate_limit(notifier: NotifierState, category: Category, first: u64, second: u64)
    requires
        category == Category::Kill || category == Category::Warning || category
            == Category::Emergency,
        first <= second,
        second - first < notifier.interval(category),
        notifier.admits(category, first),
    ensures
        !notifier.after(category, first).admits(category, second),
        notifier.after(category, first).after(category, second) == notifier.after(category, first),
{
}

/// A fresh notifier that wants the category delivers the first notice of it,
/// whenever it is fired.
pub proof fn lemma_first_notice_delivered(notifier: NotifierState, category: Category, now: u64)
    requires
        notifier.wants(category),
        notifier.last(category) is None,
    ensures
        notifier.admits(category, now),
{
}

/// A notice fired at least the category's minimum interval after the last
/// delivered one is delivered again.
pub proof fn lemma_delivered_after_interval(
    notifier: NotifierState,
    category: Category,
    first: u64,
    second: u64,
)
    requires
        notifier.admits(category, first),
        second - first >= notifier.interval(category),
    ensures
        notifier.after(category, first).admits(category, second),
{
}

/// Categories are limited independently: firing a notice of one category
/// changes nothing for a notice of another.
pub proof fn lemma_categories_independent(
    notifier: NotifierState,
    fired: Category,
    other: Category,
    first: u64,
    second: u64,
)
    requires
        fired != other,
    ensures
        notifier.after(fired, first).admits(other, second) == notifier.admits(other, second),
{
}

} // verus!
