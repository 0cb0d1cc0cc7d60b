//! Profiles: named bundles of limits, protected processes and processes to
//! terminate on activation; and the store that holds them.

use vstd::prelude::*;
use crate::config::{percent_in_range, temperature_in_range, MAX_PERCENT, MAX_TEMPERATURE, UNIT};
use crate::text::{
    lemma_text_lt_irreflexive, lemma_text_lt_total, lemma_text_lt_transitive, str_eq, str_lt,
    text_lt, trim, trimmed,
};

verus! {

/// The limits of one profile: percentages in thousandths of a percent, the
/// temperature in thousandths of a degree Celsius.
#[derive(Debug, Clone, Copy)]
pub struct ProfileResourceLimits {
    pub max_cpu_percent: i64,
    pub max_ram_percent: i64,
    pub max_temp: i64,
}

/// One rule that may activate a profile by itself.
#[derive(Debug, Clone)]
pub struct AutoActivateTrigger {
    pub trigger_type: Option<String>,
    pub command_contains: Option<String>,
}

/// When a profile activates by itself.
#[derive(Debug, Clone)]
pub struct AutoActivateConfig {
    pub enabled: bool,
    pub triggers: Vec<AutoActivateTrigger>,
}

/// A named policy.
#[derive(Debug, Clone)]
pub struct Profile {
    pub name: String,
    pub description: String,
    /// Processes that are never killed while this profile is active.
    pub protected: Vec<String>,
    /// Processes that are killed when this profile is activated.
    pub kill_on_activate: Vec<String>,
    pub limits: ProfileResourceLimits,
    pub auto_activate: AutoActivateConfig,
}

/// Why a profile is rejected.
#[derive(Debug, Clone, Copy, PartialEq, Eq, Structural)]
pub enum ProfileError {
    /// The name is empty.
    EmptyName,
    /// `limits.max_cpu_percent` is outside 0 to 100 %.
    CpuLimitOutOfRange,
    /// `limits.max_ram_percent` is outside 0 to 100 %.
    RamLimitOutOfRange,
    /// `limits.max_temp` is outside 0 to 120 degrees.
    TemperatureLimitOutOfRange,
}

pub fn default_max_cpu() -> (value: i64)
    ensures
        value == 90 * UNIT,
{
    90 * UNIT
}

pub fn default_max_ram() -> (value: i64)
    ensures
        value == 85 * UNIT,
{
    85 * UNIT
}

pub fn default_max_temp() -> (value: i64)
    ensures
        value == 85 * UNIT,
{
    85 * UNIT
}

impl Default for ProfileResourceLimits {
    fn default() -> (r: Self)
        ensures
            r.max_cpu_percent == 90 * UNIT,
            r.max_ram_percent == 85 * UNIT,
            r.max_temp == 85 * UNIT,
    {
        ProfileResourceLimits {
            max_cpu_percent: default_max_cpu(),
            max_ram_percent: default_max_ram(),
            max_temp: default_max_temp(),
        }
    }
}

impl Default for AutoActivateConfig {
    fn default() -> (r: Self)
        ensures
            !r.enabled,
            r.triggers@.len() == 0,
    {
        AutoActivateConfig { enabled: false, triggers: Vec::new() }
    }
}

impl Default for Profile {
    fn default() -> (r: Self)
        ensures
            r.name@.len() == 0,
            r.description@.len() == 0,
            r.protected@.len() == 0,
            r.kill_on_activate@.len() == 0,
            r.limits.max_cpu_percent == 90 * UNIT,
            r.limits.max_ram_percent == 85 * UNIT,
            r.limits.max_temp == 85 * UNIT,
            !r.auto_activate.enabled,
            r.auto_activate.triggers@.len() == 0,
    {
        Profile {
            name: String::new(),
            description: String::new(),
            protected: Vec::new(),
            kill_on_activate: Vec::new(),
            limits: ProfileResourceLimits::default(),
            auto_activate: AutoActivateConfig::default(),
        }
    }
}

impl Profile {
    /// The verdict on this profile: the first rule it breaks, in the order
    /// name, CPU limit, RAM limit, temperature limit.
    pub open spec fn check(&self) -> Result<(), ProfileError> {
        if self.name@.len() == 0 {
            Err(ProfileError::EmptyName)
        } else if !percent_in_range(self.limits.max_cpu_percent) {
            Err(ProfileError::CpuLimitOutOfRange)
        } else if !percent_in_range(self.limits.max_ram_percent) {
            Err(ProfileError::RamLimitOutOfRange)
        } else if !temperature_in_range(self.limits.max_temp) {
            Err(ProfileError::TemperatureLimitOutOfRange)
        } else {
            Ok(())
        }
    }

    /// Whether every rule holds.
    pub open spec fn is_valid(&self) -> bool {
        &&& self.name@.len() > 0
        &&& percent_in_range(self.limits.max_cpu_percent)
        &&& percent_in_range(self.limits.max_ram_percent)
        &&& temperature_in_range(self.limits.max_temp)
    }

    /// Accepts the profile or names the first rule it breaks.
    pub fn validate(&self) -> (verdict: Result<(), ProfileError>)
        ensures
            verdict == self.check(),
            verdict is Ok <==> self.is_valid(),
    {
        if self.name.as_str().is_empty() {
            return Err(ProfileError::EmptyName);
        }
        if self.limits.max_cpu_percent < 0 || self.limits.max_cpu_percent > MAX_PERCENT {
            return Err(ProfileError::CpuLimitOutOfRange);
        }
        if self.limits.max_ram_percent < 0 || self.limits.max_ram_percent > MAX_PERCENT {
            return Err(ProfileError::RamLimitOutOfRange);
        }
        if self.limits.max_temp < 0 || self.limits.max_temp > MAX_TEMPERATURE {
            return Err(ProfileError::TemperatureLimitOutOfRange);
        }
        Ok(())
    }
}

/// Why the store could not be made or changed.
#[derive(Debug, Clone)]
pub enum StoreError {
    /// Not one profile passed validation.
    NoProfiles,
    /// No profile has the requested name; `available` lists the names
    /// that exist, in ascending order.
    NotFound { requested: String, available: Vec<String> },
}

/// Whether `names` is in strictly ascending order.
pub open spec fn ascending(names: Seq<Seq<char>>) -> bool {
    forall|i: int, j: int| 0 <= i < j < names.len() ==> text_lt(names[i], names[j])
}

/// What the store holds.
pub struct StoreView {
    /// The names under which profiles are stored, in ascending order.
    pub names: Seq<Seq<char>>,
    /// The profile stored under each name, in the order of `names`.
    pub profiles: Seq<Profile>,
    /// The name of the active profile.
    pub current: Seq<char>,
    /// The directory that the store was loaded from.
    pub config_dir: Seq<char>,
}

impl StoreView {
    /// The invariant of the store: every name has its profile, no name
    /// occurs twice, and exactly one stored profile is active.
    pub open spec fn wf(self) -> bool {
        &&& self.names.len() == self.profiles.len()
        &&& ascending(self.names)
        &&& self.names.contains(self.current)
    }

    /// The stored profiles by name.
    pub open spec fn entries(self) -> Map<Seq<char>, Profile> {
        Map::new(
            |name: Seq<char>| self.names.contains(name),
            |name: Seq<char>| self.profiles[self.names.index_of(name)],
        )
    }

    /// The profile stored under `name`, if there is one.
    pub open spec fn get(self, name: Seq<char>) -> Option<Profile> {
        if self.names.contains(name) {
            Some(self.profiles[self.names.index_of(name)])
        } else {
            None
        }
    }
}

/// The profiles that loading `candidates` stores: each valid candidate
/// under its name, a later one replacing an earlier one of the same name.
pub open spec fn loaded(candidates: Seq<(String, Profile)>) -> Map<Seq<char>, Profile>
    decreases candidates.len(),
{
    if candidates.len() == 0 {
        Map::empty()
    } else {
        let before = loaded(candidates.drop_last());
        let (name, profile) = candidates.last();
        if profile.is_valid() {
            before.insert(name@, profile)
        } else {
            before
        }
    }
}

/// The name that a freshly loaded store activates: `normal` where it
/// exists, else the least name.
pub open spec fn initial_name(names: Seq<Seq<char>>) -> Seq<char> {
    if names.contains("normal"@) {
        "normal"@
    } else {
        names[0]
    }
}

/// The names of `entries`, in their order.
pub open spec fn names_of(entries: Seq<(String, Profile)>) -> Seq<Seq<char>> {
    entries.map_values(|e: (String, Profile)| e.0@)
}

/// The profiles of `entries`, in their order.
pub open spec fn profiles_of(entries: Seq<(String, Profile)>) -> Seq<Profile> {
    entries.map_values(|e: (String, Profile)| e.1)
}

/// Holds the profiles that were loaded and knows which one is active.
#[derive(Debug)]
pub struct ProfileManager {
    entries: Vec<(String, Profile)>,
    current_profile: String,
    config_dir: String,
}

impl View for ProfileManager {
    type V = StoreView;

    closed spec fn view(&self) -> StoreView {
        StoreView {
            names: names_of(self.entries@),
            profiles: profiles_of(self.entries@),
            current: self.current_profile@,
            config_dir: self.config_dir@,
        }
    }
}

proof fn lemma_ascending_distinct(names: Seq<Seq<char>>, i: int, j: int)
    requires
        ascending(names),
        0 <= i < names.len(),
        0 <= j < names.len(),
        names[i] == names[j],
    ensures
        i == j,
{
    lemma_text_lt_irreflexive(names[i]);
}

proof fn lemma_index_of(names: Seq<Seq<char>>, i: int)
    requires
        ascending(names),
        0 <= i < names.len(),
    ensures
        names.contains(names[i]),
        names.index_of(names[i]) == i,
{
    let k = names.index_of(names[i]);
    assert(0 <= k < names.len() && names[k] == names[i]);
    lemma_ascending_distinct(names, i, k);
}

/// The position of `name` in `entries`, if it is there.
fn find(entries: &Vec<(String, Profile)>, name: &str) -> (at: Option<usize>)
    ensures
        match at {
            Some(i) => i < entries@.len() && names_of(entries@)[i as int] == name@,
            None => !names_of(entries@).contains(name@),
        },
{
    let mut i: usize = 0;
    while i < entries.len()
        invariant
            i <= entries.len(),
            forall|k: int| 0 <= k < i ==> names_of(entries@)[k] != name@,
        decreases entries.len() - i,
    {
        if str_eq(entries[i].0.as_str(), name) {
            return Some(i);
        }
        i += 1;
    }
    None
}

/// The stored profiles of the entries `entries`, by name.
spec fn entries_view(entries: Seq<(String, Profile)>) -> Map<Seq<char>, Profile> {
    (StoreView {
        names: names_of(entries),
        profiles: profiles_of(entries),
        current: Seq::empty(),
        config_dir: Seq::empty(),
    }).entries()
}

/// Stores `profile` under `name`, in place of what was stored there.
fn store(entries: &mut Vec<(String, Profile)>, name: String, profile: Profile)
    requires
        ascending(names_of(old(entries)@)),
    ensures
        ascending(names_of(final(entries)@)),
        entries_view(final(entries)@) == entries_view(old(entries)@).insert(name@, profile),
{
    let ghost before_names = names_of(entries@);
    let ghost before_profiles = profiles_of(entries@);
    let ghost before = entries_view(entries@);
    let ghost key = name@;
    let mut p: usize = 0;
    while p < entries.len() && str_lt(entries[p].0.as_str(), name.as_str())
        invariant
            p <= entries.len(),
            names_of(entries@) == before_names,
            forall|k: int| 0 <= k < p ==> text_lt(#[trigger] before_names[k], name@),
        decreases entries.len() - p,
    {
        p += 1;
    }
    if p < entries.len() && str_eq(entries[p].0.as_str(), name.as_str()) {
        entries.set(p, (name, profile));
        proof {
            let after_names = names_of(entries@);
            let after_profiles = profiles_of(entries@);
            assert(after_names =~= before_names);
            assert(after_profiles =~= before_profiles.update(p as int, profile));
            lemma_index_of(before_names, p as int);
            assert forall|k: Seq<char>| #[trigger]
                entries_view(entries@).contains_key(k) implies entries_view(entries@)[k]
                == before.insert(key, profile)[k] by {
                let i = after_names.index_of(k);
                if k == key {
                    assert(i == p);
                } else {
                    assert(i != p);
                }
            }
            assert(entries_view(entries@).dom() =~= before.insert(key, profile).dom());
            assert(entries_view(entries@) =~= before.insert(key, profile));
        }
    } else {
        proof {
            if p < before_names.len() {
                if !text_lt(key, before_names[p as int]) {
                    lemma_text_lt_total(key, before_names[p as int]);
                }
                assert forall|k: int| p <= k < before_names.len() implies text_lt(
                    key,
                    #[trigger] before_names[k],
                ) by {
                    if k > p {
                        lemma_text_lt_transitive(key, before_names[p as int], before_names[k]);
                    }
                }
            }
        }
        entries.insert(p, (name, profile));
        proof {
            let after_names = names_of(entries@);
            let after_profiles = profiles_of(entries@);
            assert(after_names =~= before_names.insert(p as int, key));
            assert(after_profiles =~= before_profiles.insert(p as int, profile));
            assert(ascending(after_names)) by {
                assert forall|i: int, j: int| 0 <= i < j < after_names.len() implies text_lt(
                    after_names[i],
                    after_names[j],
                ) by {
                    if i < p && j == p {
                        assert(after_names[i] == before_names[i]);
                    } else if i < p && j > p {
                        assert(after_names[i] == before_names[i]);
                        assert(after_names[j] == before_names[j - 1]);
                    } else if i == p {
                        assert(after_names[j] == before_names[j - 1]);
                    } else if i > p {
                        assert(after_names[i] == before_names[i - 1]);
                        assert(after_names[j] == before_names[j - 1]);
                    } else {
                        assert(after_names[i] == before_names[i]);
                        assert(after_names[j] == before_names[j]);
                    }
                }
            }
            assert(after_names[p as int] == key);
            lemma_index_of(after_names, p as int);
            assert forall|k: Seq<char>|
                before_names.contains(k) implies #[trigger] after_names.contains(k)
                && after_profiles[after_names.index_of(k)]
                == before_profiles[before_names.index_of(k)] by {
                let i = before_names.index_of(k);
                lemma_index_of(before_names, i);
                let moved = if i < p {
                    i
                } else {
                    i + 1
                };
                assert(after_names[moved] == k);
                lemma_index_of(after_names, moved);
            }
            assert forall|k: Seq<char>| #[trigger]
                after_names.contains(k) && k != key implies before_names.contains(k) by {
                let i = after_names.index_of(k);
                if i < p {
                    assert(before_names[i] == k);
                } else {
                    assert(before_names[i - 1] == k);
                }
            }
            assert(!before_names.contains(key)) by {
                if before_names.contains(key) {
                    lemma_text_lt_irreflexive(key);
                }
            }
            assert(entries_view(entries@).dom() =~= before.insert(key, profile).dom());
            assert(entries_view(entries@) =~= before.insert(key, profile));
        }
    }
}

impl ProfileManager {
    /// What holds of every store: the names are in strictly ascending
    /// order, so that none occurs twice, and the active name is one of
    /// them.
    #[verifier::type_invariant]
    spec fn well_formed(&self) -> bool {
        &&& ascending(names_of(self.entries@))
        &&& names_of(self.entries@).contains(self.current_profile@)
    }

    /// Loads the store from `candidates`, the profiles that were read
    /// from `config_dir`, each with the name it is to be stored under.
    ///
    /// A candidate that fails validation is left out. The store activates
    /// the profile `normal` where there is one, else the one with the
    /// least name. Loading fails only when no candidate is valid.
    pub fn new(candidates: Vec<(String, Profile)>, config_dir: String) -> (made: Result<
        Self,
        StoreError,
    >)
        ensures
            made is Ok <==> exists|i: int|
                0 <= i < candidates@.len() && (#[trigger] candidates@[i]).1.is_valid(),
            made matches Ok(store) ==> {
                &&& store@.wf()
                &&& store@.entries() == loaded(candidates@)
                &&& store@.current == initial_name(store@.names)
                &&& store@.config_dir == config_dir@
            },
            made matches Err(e) ==> e is NoProfiles,
    {
        let ghost all = candidates@;
        let mut rest = candidates;
        let mut entries: Vec<(String, Profile)> = Vec::new();
        proof {
            assert(all.take(0) =~= Seq::<(String, Profile)>::empty());
            assert(entries_view(entries@) =~= loaded(all.take(0)));
        }
        while rest.len() > 0
            invariant
                rest@.len() <= all.len(),
                rest@ == all.skip(all.len() - rest@.len()),
                ascending(names_of(entries@)),
                entries_view(entries@) == loaded(all.take(all.len() - rest@.len())),
                entries@.len() > 0 <==> exists|i: int|
                    0 <= i < all.len() - rest@.len() && (#[trigger] all[i]).1.is_valid(),
            decreases rest.len(),
        {
            let ghost n = all.len() - rest@.len();
            let (name, profile) = rest.remove(0);
            proof {
                assert(rest@ =~= all.skip(n + 1));
                assert(all.take(n + 1).drop_last() =~= all.take(n));
                assert(all.take(n + 1).last() == all[n]);
                assert((name, profile) == all[n]);
            }
            if profile.validate().is_ok() {
                let ghost key = name@;
                store(&mut entries, name, profile);
                proof {
                    assert(entries_view(entries@).contains_key(key));
                    assert(names_of(entries@).contains(key));
                    assert(all[n].1.is_valid());
                }
            } else {
                proof {
                    assert forall|i: int|
                        0 <= i < n + 1 && (#[trigger] all[i]).1.is_valid() implies 0 <= i < n by {}
                }
            }
        }
        proof {
            assert(all.take(all.len() as int) =~= all);
        }
        if entries.len() == 0 {
            return Err(StoreError::NoProfiles);
        }
        let current_profile = match find(&entries, "normal") {
            Some(_) => "normal".to_owned(),
            None => entries[0].0.clone(),
        };
        proof {
            assert(names_of(entries@)[0] == entries@[0].0@);
            assert(names_of(entries@).contains(names_of(entries@)[0]));
        }
        Ok(ProfileManager { entries, current_profile, config_dir })
    }

    /// The active profile. There always is one.
    pub fn current(&self) -> (profile: Option<&Profile>)
        ensures
            self@.wf(),
            profile matches Some(p) && self@.get(self@.current) == Some(*p),
    {
        proof {
            use_type_invariant(self);
        }
        self.get(self.current_profile.as_str())
    }

    /// Makes the profile called `profile_name` the active one. Where there
    /// is none of that name nothing changes, and the error lists the
    /// names that exist.
    pub fn switch_to(&mut self, profile_name: &str) -> (switched: Result<(), StoreError>)
        ensures
            final(self)@.wf(),
            switched is Ok <==> old(self)@.names.contains(profile_name@),
            switched is Ok ==> final(self)@ == (StoreView {
                current: profile_name@,
                ..old(self)@
            }),
            switched matches Err(e) ==> final(self)@ == old(self)@ && (e matches StoreError::NotFound {
                requested,
                available,
            } && requested@ == profile_name@ && available@.map_values(|s: String| s@) == old(
                self,
            )@.names),
    {
        proof {
            use_type_invariant(&*self);
        }
        match find(&self.entries, profile_name) {
            Some(_) => {
                self.current_profile = profile_name.to_owned();
                Ok(())
            },
            None => Err(
                StoreError::NotFound {
                    requested: profile_name.to_owned(),
                    available: self.list_names(),
                },
            ),
        }
    }

    /// The profile stored under `profile_name`, if there is one.
    pub fn get(&self, profile_name: &str) -> (profile: Option<&Profile>)
        ensures
            match profile {
                Some(p) => self@.get(profile_name@) == Some(*p),
                None => self@.get(profile_name@) is None,
            },
    {
        proof {
            use_type_invariant(self);
        }
        match find(&self.entries, profile_name) {
            Some(i) => {
                proof {
                    lemma_index_of(self@.names, i as int);
                }
                Some(&self.entries[i].1)
            },
            None => None,
        }
    }

    /// The names of the stored profiles, in ascending order.
    pub fn list_names(&self) -> (names: Vec<String>)
        ensures
            names@.map_values(|s: String| s@) == self@.names,
            ascending(self@.names),
    {
        proof {
            use_type_invariant(self);
        }
        let mut names: Vec<String> = Vec::new();
        let mut i: usize = 0;
        while i < self.entries.len()
            invariant
                i <= self.entries.len(),
                names@.len() == i,
                forall|k: int| 0 <= k < i ==> (#[trigger] names@[k])@ == self@.names[k],
            decreases self.entries.len() - i,
        {
            names.push(self.entries[i].0.clone());
            i += 1;
        }
        assert(names@.map_values(|s: String| s@) =~= self@.names);
        names
    }

    /// The stored profiles with their names, in ascending order of the
    /// names.
    pub fn list_all(&self) -> (all: Vec<(&str, &Profile)>)
        ensures
            all@.len() == self@.names.len(),
            forall|i: int|
                0 <= i < all@.len() ==> (#[trigger] all@[i]).0@ == self@.names[i] && *all@[i].1
                    == self@.profiles[i],
            ascending(self@.names),
    {
        proof {
            use_type_invariant(self);
        }
        let mut all: Vec<(&str, &Profile)> = Vec::new();
        let mut i: usize = 0;
        while i < self.entries.len()
            invariant
                i <= self.entries.len(),
                all@.len() == i,
                forall|k: int|
                    0 <= k < i ==> (#[trigger] all@[k]).0@ == self@.names[k] && *all@[k].1
                        == self@.profiles[k],
            decreases self.entries.len() - i,
        {
            all.push((self.entries[i].0.as_str(), &self.entries[i].1));
            i += 1;
        }
        all
    }

    /// The name of the active profile. This is what is to be kept across
    /// restarts.
    pub fn current_name(&self) -> (name: &str)
        ensures
            name@ == self@.current,
            self@.names.contains(self@.current),
    {
        proof {
            use_type_invariant(self);
        }
        self.current_profile.as_str()
    }

    /// The directory that the store was loaded from.
    pub fn config_dir(&self) -> (dir: &str)
        ensures
            dir@ == self@.config_dir,
    {
        self.config_dir.as_str()
    }

    /// Makes the profile called `profile_name` the active one, if there is
    /// one of that name; else nothing changes.
    pub fn restore(&mut self, profile_name: &str)
        ensures
            final(self)@.wf(),
            final(self)@ == if old(self)@.names.contains(profile_name@) {
                StoreView { current: profile_name@, ..old(self)@ }
            } else {
                old(self)@
            },
    {
        proof {
            use_type_invariant(&*self);
        }
        match find(&self.entries, profile_name) {
            Some(_) => {
                self.current_profile = profile_name.to_owned();
            },
            None => {},
        }
    }

    /// Restores the selection that was kept across a restart: `saved` is
    /// what was kept. Surrounding whitespace is ignored. Where the name
    /// is still that of a stored profile it becomes the active one, and
    /// else nothing changes.
    pub fn load_state(&mut self, saved: &str)
        ensures
            final(self)@.wf(),
            final(self)@ == if old(self)@.names.contains(trimmed(saved@)) {
                StoreView { current: trimmed(saved@), ..old(self)@ }
            } else {
                old(self)@
            },
    {
        self.restore(trim(saved));
    }
}

/// The store's invariant says that exactly one profile is active: the
/// active name is that of exactly one stored profile.
pub proof fn lemma_one_profile_active(store: StoreView)
    requires
        store.wf(),
    ensures
        store.get(store.current) is Some,
        forall|i: int, j: int|
            0 <= i < store.names.len() && 0 <= j < store.names.len() && store.names[i]
                == store.current && store.names[j] == store.current ==> i == j,
{
    assert forall|i: int, j: int|
        0 <= i < store.names.len() && 0 <= j < store.names.len() && store.names[i]
            == store.current && store.names[j] == store.current implies i == j by {
        lemma_ascending_distinct(store.names, i, j);
    }
}

} // verus!
