//! What is usual: the behaviour of each process, and of the whole machine.
use vstd::prelude::*;

use crate::paths::is_directory_of;
use crate::statistics::{
    no_hours, no_values, with_hour, with_value, HourlyModel, HourlyPattern, RollingModel,
    RollingStats, MAX_SERIES,
};
use crate::telemetry::{current_timestamp, ProcessEvent};
use crate::text::{characters, lowercase, opt_text, to_lowercase};
use crate::textmap::TextMap;
use crate::textset::TextSet;

verus! {

/// One, in the thousandths of a statistic.
pub const EVENT: i32 = 1000;

/// The milliseconds of an hour.
pub const HOUR_MS: u64 = 3_600_000;

/// One more, up to the largest number.
pub open spec fn counted(n: u64) -> u64 {
    if n == u64::MAX {
        n
    } else {
        (n + 1) as u64
    }
}

/// One more, up to the largest number.
pub fn count_up(n: u64) -> (r: u64)
    ensures
        r == counted(n),
{
    if n == u64::MAX {
        n
    } else {
        n + 1
    }
}

/// The hour of the day at a time, in milliseconds since the Unix epoch.
pub open spec fn hour_of_day(timestamp: u64) -> int {
    (timestamp / HOUR_MS) as int % 24
}

/// The hour of the day at a time, in milliseconds since the Unix epoch.
pub fn hour_at(timestamp: u64) -> (hour: usize)
    ensures
        hour == hour_of_day(timestamp),
        hour < 24,
{
    ((timestamp / HOUR_MS) % 24) as usize
}

/// The first position from `i` on at which `c` stands, or the length.
pub open spec fn position_from(text: Seq<char>, c: char, i: int) -> int
    decreases text.len() - i,
{
    if i < 0 || i >= text.len() {
        text.len() as int
    } else if text[i] == c {
        i
    } else {
        position_from(text, c, i + 1)
    }
}

fn find_from(text: &Vec<char>, c: char, from: usize) -> (r: usize)
    requires
        from <= text@.len(),
    ensures
        r == position_from(text@, c, from as int),
        from <= r <= text@.len(),
{
    let mut i: usize = from;
    while i < text.len() && text[i] != c
        invariant
            from <= i <= text@.len(),
            position_from(text@, c, i as int) == position_from(text@, c, from as int),
        decreases text@.len() - i,
    {
        i += 1;
    }
    i
}

/// The first two levels of a registry key, where it has two.
pub open spec fn key_prefix(key: Seq<char>) -> Option<Seq<char>> {
    let first = position_from(key, '\\', 0);
    if first >= key.len() {
        None
    } else {
        Some(key.take(position_from(key, '\\', first + 1)))
    }
}

fn key_prefix_of(key: &str) -> (r: Option<String>)
    ensures
        opt_text(r) == key_prefix(key@),
{
    let chars = characters(key);
    let first: usize = find_from(&chars, '\\', 0);
    if first >= chars.len() {
        return None;
    }
    let second: usize = find_from(&chars, '\\', first + 1);
    assert(key@.subrange(0, second as int) =~= key@.take(second as int));
    Some(key.substring_char(0, second).to_string())
}

/// What is usual for a process.
pub struct ProcessBaseline {
    /// In lower case.
    pub name: String,
    pub known_parents: TextSet,
    pub known_children: TextSet,
    pub known_network_destinations: TextSet,
    /// Directories.
    pub known_file_patterns: TextSet,
    /// The first two levels of keys.
    pub known_registry_patterns: TextSet,
    pub event_rate_stats: RollingStats,
    pub network_rate_stats: RollingStats,
    pub file_rate_stats: RollingStats,
    pub hourly_pattern: HourlyPattern,
    pub observation_count: u64,
    pub last_seen: u64,
    /// Whether someone has approved of it.
    pub approved: bool,
}

/// What a baseline says.
#[verifier::ext_equal]
pub struct BaselineModel {
    pub name: Seq<char>,
    pub parents: Set<Seq<char>>,
    pub children: Set<Seq<char>>,
    pub destinations: Set<Seq<char>>,
    pub directories: Set<Seq<char>>,
    pub registry_keys: Set<Seq<char>>,
    pub event_rate: RollingModel,
    pub network_rate: RollingModel,
    pub file_rate: RollingModel,
    pub hours: HourlyModel,
    pub observations: u64,
    pub last_seen: u64,
    pub approved: bool,
}

impl View for ProcessBaseline {
    type V = BaselineModel;

    open spec fn view(&self) -> BaselineModel {
        BaselineModel {
            name: self.name@,
            parents: self.known_parents@,
            children: self.known_children@,
            destinations: self.known_network_destinations@,
            directories: self.known_file_patterns@,
            registry_keys: self.known_registry_patterns@,
            event_rate: self.event_rate_stats@,
            network_rate: self.network_rate_stats@,
            file_rate: self.file_rate_stats@,
            hours: self.hourly_pattern@,
            observations: self.observation_count,
            last_seen: self.last_seen,
            approved: self.approved,
        }
    }
}

/// Nothing known of a process.
pub open spec fn unknown_process(name: Seq<char>) -> BaselineModel {
    BaselineModel {
        name: lowercase(name),
        parents: Set::empty(),
        children: Set::empty(),
        destinations: Set::empty(),
        directories: Set::empty(),
        registry_keys: Set::empty(),
        event_rate: no_values(1000),
        network_rate: no_values(500),
        file_rate: no_values(500),
        hours: no_hours(),
        observations: 0,
        last_seen: 0,
        approved: false,
    }
}

/// A baseline after the process started.
pub open spec fn after_start(m: BaselineModel, parent: Option<Seq<char>>, timestamp: u64) -> BaselineModel {
    BaselineModel {
        parents: match parent {
            Some(p) => m.parents.insert(lowercase(p)),
            None => m.parents,
        },
        hours: with_hour(m.hours, hour_of_day(timestamp)),
        observations: counted(m.observations),
        last_seen: timestamp,
        ..m
    }
}

/// A baseline after the process started another.
pub open spec fn after_child(m: BaselineModel, child: Seq<char>) -> BaselineModel {
    BaselineModel { children: m.children.insert(lowercase(child)), ..m }
}

/// A baseline after a network connection.
pub open spec fn after_connection(m: BaselineModel, destination: Seq<char>, timestamp: u64) -> BaselineModel {
    BaselineModel {
        destinations: m.destinations.insert(lowercase(destination)),
        network_rate: with_value(m.network_rate, EVENT, timestamp),
        ..m
    }
}

/// A baseline after an operation on a file in a directory.
pub open spec fn after_file(m: BaselineModel, directory: Option<Seq<char>>, timestamp: u64) -> BaselineModel {
    BaselineModel {
        directories: match directory {
            Some(d) => m.directories.insert(lowercase(d)),
            None => m.directories,
        },
        file_rate: with_value(m.file_rate, EVENT, timestamp),
        ..m
    }
}

/// A baseline after an operation on a registry key.
pub open spec fn after_registry(m: BaselineModel, key: Seq<char>) -> BaselineModel {
    BaselineModel {
        registry_keys: match key_prefix(key) {
            Some(p) => m.registry_keys.insert(lowercase(p)),
            None => m.registry_keys,
        },
        ..m
    }
}

impl ProcessBaseline {
    /// The statistics are well formed, and those whose number of values is itself
    /// held against them are no longer than memory is.
    pub open spec fn wf(&self) -> bool {
        &&& self@.network_rate.max_size <= MAX_SERIES
        &&& self@.file_rate.max_size <= MAX_SERIES
        &&& self.event_rate_stats.wf()
        &&& self.network_rate_stats.wf()
        &&& self.file_rate_stats.wf()
        &&& self.hourly_pattern.wf()
    }

    /// Nothing known of a process.
    pub fn new(name: &str) -> (r: ProcessBaseline)
        ensures
            r.wf(),
            r@ == unknown_process(name@),
    {
        ProcessBaseline {
            name: to_lowercase(name),
            known_parents: TextSet::new(),
            known_children: TextSet::new(),
            known_network_destinations: TextSet::new(),
            known_file_patterns: TextSet::new(),
            known_registry_patterns: TextSet::new(),
            event_rate_stats: RollingStats::new(1000),
            network_rate_stats: RollingStats::new(500),
            file_rate_stats: RollingStats::new(500),
            hourly_pattern: HourlyPattern::default(),
            observation_count: 0,
            last_seen: 0,
            approved: false,
        }
    }

    /// Notes that the process started.
    pub fn update_from_process(&mut self, event: &ProcessEvent, timestamp: u64)
        requires
            old(self).wf(),
        ensures
            final(self).wf(),
            final(self)@ == after_start(old(self)@, opt_text(event.parent_name), timestamp),
    {
        if let Some(parent) = &event.parent_name {
            self.known_parents.insert(to_lowercase(parent.as_str()));
        }
        self.hourly_pattern.record(hour_at(timestamp));
        self.observation_count = count_up(self.observation_count);
        self.last_seen = timestamp;
    }

    /// Notes that the process started another.
    pub fn record_child(&mut self, child_name: &str)
        requires
            old(self).wf(),
        ensures
            final(self).wf(),
            final(self)@ == after_child(old(self)@, child_name@),
    {
        self.known_children.insert(to_lowercase(child_name));
    }

    /// Notes a network connection.
    pub fn record_network(&mut self, destination: &str, timestamp: u64)
        requires
            old(self).wf(),
        ensures
            final(self).wf(),
            final(self)@ == after_connection(old(self)@, destination@, timestamp),
    {
        self.known_network_destinations.insert(to_lowercase(destination));
        self.network_rate_stats.add(EVENT, timestamp);
    }

    /// Notes an operation on a file in a directory.
    pub fn record_file_in(&mut self, directory: Option<&str>, timestamp: u64)
        requires
            old(self).wf(),
        ensures
            final(self).wf(),
            final(self)@ == after_file(
                old(self)@,
                match directory {
                    Some(d) => Some(d@),
                    None => None,
                },
                timestamp,
            ),
    {
        if let Some(d) = directory {
            self.known_file_patterns.insert(to_lowercase(d));
        }
        self.file_rate_stats.add(EVENT, timestamp);
    }

    /// Notes an operation on a file. Which directory the file is in the
    /// machine's rules for paths decide.
    pub fn record_file_op(&mut self, path: &str, timestamp: u64)
        requires
            old(self).wf(),
        ensures
            final(self).wf(),
            exists|directory: Option<Seq<char>>|
                final(self)@ == #[trigger] after_file(old(self)@, directory, timestamp)
                    && is_directory_of(directory, path@),
    {
        let directory = crate::paths::parent_directory(path);
        match &directory {
            Some(d) => {
                self.record_file_in(Some(d.as_str()), timestamp);
            },
            None => {
                self.record_file_in(None, timestamp);
            },
        }
        assert(self@ == after_file(old(self)@, opt_text(directory), timestamp));
    }

    /// Notes an operation on a registry key.
    pub fn record_registry_op(&mut self, key: &str)
        requires
            old(self).wf(),
        ensures
            final(self).wf(),
            final(self)@ == after_registry(old(self)@, key@),
    {
        if let Some(prefix) = key_prefix_of(key) {
            self.known_registry_patterns.insert(to_lowercase(prefix.as_str()));
        }
    }
}

/// What is usual on the whole machine.
pub struct SystemBaseline {
    /// By the process's name in lower case.
    pub process_baselines: TextMap<ProcessBaseline>,
    /// How often each destination was seen.
    pub global_network_destinations: TextMap<u64>,
    /// A destination is rare until it was seen this often.
    pub rare_destinations_threshold: u64,
    pub learning_start_time: u64,
    pub learning_complete: bool,
    pub last_save_time: u64,
}

/// What a machine's baseline says.
#[verifier::ext_equal]
pub struct SystemModel {
    pub processes: Map<Seq<char>, BaselineModel>,
    pub destinations: Map<Seq<char>, u64>,
    pub rare_below: u64,
    pub learning_start: u64,
    pub learning_complete: bool,
    pub last_save: u64,
}

/// What the baselines of processes say.
pub open spec fn baselines_view(m: Map<Seq<char>, ProcessBaseline>) -> Map<
    Seq<char>,
    BaselineModel,
> {
    m.map_values(|p: ProcessBaseline| p@)
}

impl View for SystemBaseline {
    type V = SystemModel;

    open spec fn view(&self) -> SystemModel {
        SystemModel {
            processes: baselines_view(self.process_baselines@),
            destinations: self.global_network_destinations@,
            rare_below: self.rare_destinations_threshold,
            learning_start: self.learning_start_time,
            learning_complete: self.learning_complete,
            last_save: self.last_save_time,
        }
    }
}

/// Nothing known of a machine.
pub open spec fn unknown_system(now: u64) -> SystemModel {
    SystemModel {
        processes: Map::empty(),
        destinations: Map::empty(),
        rare_below: 5,
        learning_start: now,
        learning_complete: false,
        last_save: 0,
    }
}

/// The baseline of a process, a new one where there is none.
pub open spec fn process_of(m: SystemModel, name: Seq<char>) -> BaselineModel {
    if m.processes.contains_key(lowercase(name)) {
        m.processes[lowercase(name)]
    } else {
        unknown_process(lowercase(name))
    }
}

/// A machine's baseline with another one of a process.
pub open spec fn with_process(m: SystemModel, name: Seq<char>, p: BaselineModel) -> SystemModel {
    SystemModel { processes: m.processes.insert(lowercase(name), p), ..m }
}

/// How often a destination was seen.
pub open spec fn times_seen(m: SystemModel, destination: Seq<char>) -> u64 {
    if m.destinations.contains_key(lowercase(destination)) {
        m.destinations[lowercase(destination)]
    } else {
        0
    }
}

/// Whether a destination was seen less often than the usual ones.
pub open spec fn rare(m: SystemModel, destination: Seq<char>) -> bool {
    !m.destinations.contains_key(lowercase(destination)) || m.destinations[lowercase(destination)]
        < m.rare_below
}

/// A machine's baseline after a destination was seen.
pub open spec fn after_destination(m: SystemModel, destination: Seq<char>) -> SystemModel {
    SystemModel {
        destinations: m.destinations.insert(
            lowercase(destination),
            counted(times_seen(m, destination)),
        ),
        ..m
    }
}

impl SystemBaseline {
    /// The baselines of processes are well formed.
    pub open spec fn wf(&self) -> bool {
        &&& self.process_baselines.wf()
        &&& self.global_network_destinations.wf()
        &&& forall|k: Seq<char>|
            self.process_baselines@.contains_key(k) ==> (#[trigger] self.process_baselines@[k]).wf()
    }

    /// Nothing known of a machine; learning starts at `now`.
    pub fn starting_at(now: u64) -> (r: SystemBaseline)
        ensures
            r.wf(),
            r@ == unknown_system(now),
    {
        let r = SystemBaseline {
            process_baselines: TextMap::new(),
            global_network_destinations: TextMap::new(),
            rare_destinations_threshold: 5,
            learning_start_time: now,
            learning_complete: false,
            last_save_time: 0,
        };
        assert(r@ =~= unknown_system(now));
        r
    }

    /// The baseline of a process, a new one where there is none.
    pub fn get_or_create_process(&mut self, name: &str) -> (r: &mut ProcessBaseline)
        requires
            old(self).wf(),
        ensures
            r.wf(),
            r@ == process_of(old(self)@, name@),
            final(r).wf() ==> final(self).wf(),
            final(self)@ == with_process(old(self)@, name@, final(r)@),
    {
        let name_lower = to_lowercase(name);
        let fresh = ProcessBaseline::new(name_lower.as_str());
        let ghost before = self.process_baselines@;
        proof {
            assert forall|p: ProcessBaseline| baselines_view(before.insert(lowercase(name@), p))
                == #[trigger] baselines_view(before).insert(lowercase(name@), p@) by {
                assert(baselines_view(before.insert(lowercase(name@), p)) =~= baselines_view(
                    before,
                ).insert(lowercase(name@), p@));
            }
        }
        self.process_baselines.get_or_insert(name_lower, fresh)
    }

    /// Whether a destination is rare on the machine.
    pub fn is_rare_destination(&self, destination: &str) -> (r: bool)
        ensures
            r == rare(self@, destination@),
    {
        match self.global_network_destinations.get(to_lowercase(destination).as_str()) {
            Some(n) => *n < self.rare_destinations_threshold,
            None => true,
        }
    }

    /// Counts a destination.
    pub fn record_destination(&mut self, destination: &str)
        requires
            old(self).wf(),
        ensures
            final(self).wf(),
            final(self)@ == after_destination(old(self)@, destination@),
            final(self).process_baselines == old(self).process_baselines,
    {
        let key = to_lowercase(destination);
        let n: u64 = match self.global_network_destinations.get(key.as_str()) {
            Some(n) => *n,
            None => 0,
        };
        self.global_network_destinations.insert(key, count_up(n));
    }
}

impl Default for SystemBaseline {
    fn default() -> (r: SystemBaseline)
        ensures
            r.wf(),
            r@ == unknown_system(r.learning_start_time),
    {
        SystemBaseline::starting_at(current_timestamp())
    }
}

/// A destination stays rare until it was counted often enough, and is not rare
/// from then on.
pub proof fn law_counting_ends_rarity(m: SystemModel, destination: Seq<char>)
    requires
        m.rare_below < u64::MAX,
    ensures
        rare(after_destination(m, destination), destination) <==> times_seen(m, destination) + 1
            < m.rare_below,
        !rare(m, destination) ==> !rare(after_destination(m, destination), destination),
{
}

/// After a connection its destination is known, and so is all that was known.
pub proof fn law_connection_is_remembered(m: BaselineModel, destination: Seq<char>, timestamp: u64)
    ensures
        after_connection(m, destination, timestamp).destinations.contains(lowercase(destination)),
        m.destinations.subset_of(after_connection(m, destination, timestamp).destinations),
{
}

/// After a start the parent is among the known ones, and so is all that was
/// known.
pub proof fn law_parent_is_remembered(m: BaselineModel, parent: Seq<char>, timestamp: u64)
    ensures
        after_start(m, Some(parent), timestamp).parents.contains(lowercase(parent)),
        m.parents.subset_of(after_start(m, Some(parent), timestamp).parents),
{
}

/// What a process did is remembered under the name of what it did it with, and all that
/// was known stays known.
pub proof fn law_what_was_done_is_remembered(
    m: BaselineModel,
    child: Seq<char>,
    directory: Seq<char>,
    key: Seq<char>,
    timestamp: u64,
)
    ensures
        forall|x: Seq<char>| #[trigger]
            after_child(m, child).children.contains(x) <==> m.children.contains(x) || x
                == lowercase(child),
        forall|x: Seq<char>| #[trigger]
            after_file(m, Some(directory), timestamp).directories.contains(x)
                <==> m.directories.contains(x) || x == lowercase(directory),
        forall|x: Seq<char>| #[trigger]
            after_registry(m, key).registry_keys.contains(x) <==> m.registry_keys.contains(x) || (
            key_prefix(key) matches Some(p) && x == lowercase(p)),
        after_file(m, None, timestamp).directories == m.directories,
        after_start(m, None, timestamp).parents == m.parents,
        after_start(m, None, timestamp).last_seen == timestamp,
        m.observations < u64::MAX ==> after_start(m, None, timestamp).observations
            == m.observations + 1,
{
}

proof fn lemma_position(text: Seq<char>, c: char, i: int, k: int)
    requires
        0 <= i <= k <= text.len(),
        forall|j: int| i <= j < k ==> text[j] != c,
        k < text.len() ==> text[k] == c,
    ensures
        position_from(text, c, i) == k,
    decreases k - i,
{
    if i < k {
        lemma_position(text, c, i + 1, k);
    }
}

/// Of a registry key its first two levels are taken, without what is below them; of one
/// with a single level nothing is.
pub proof fn law_keys_are_taken_by_two_levels(
    hive: Seq<char>,
    second: Seq<char>,
    below: Seq<char>,
)
    requires
        !hive.contains('\\'),
        !second.contains('\\'),
    ensures
        key_prefix(hive) is None,
        key_prefix(hive + seq!['\\'] + second) == Some(hive + seq!['\\'] + second),
        key_prefix(hive + seq!['\\'] + second + seq!['\\'] + below) == Some(
            hive + seq!['\\'] + second,
        ),
{
    let n = hive.len() as int;
    lemma_position(hive, '\\', 0, n);
    let two = hive + seq!['\\'] + second;
    assert forall|j: int| 0 <= j < n implies two[j] != '\\' by {
        assert(two[j] == hive[j]);
    }
    assert forall|j: int| n + 1 <= j < two.len() implies two[j] != '\\' by {
        assert(two[j] == second[j - n - 1]);
    }
    assert(two[n] == '\\');
    lemma_position(two, '\\', 0, n);
    lemma_position(two, '\\', n + 1, two.len() as int);
    assert(two.take(two.len() as int) =~= two);
    let whole = two + seq!['\\'] + below;
    assert forall|j: int| 0 <= j < n implies whole[j] != '\\' by {
        assert(whole[j] == two[j]);
    }
    assert forall|j: int| n + 1 <= j < two.len() implies whole[j] != '\\' by {
        assert(whole[j] == two[j]);
    }
    assert(whole[n] == two[n]);
    assert(whole[two.len() as int] == '\\');
    lemma_position(whole, '\\', 0, n);
    lemma_position(whole, '\\', n + 1, two.len() as int);
    assert(whole.take(two.len() as int) =~= two);
}

/// The hour of the day is the number of whole hours since midnight.
pub proof fn law_hours_since_midnight(days: nat, hour: nat, rest: nat)
    requires
        hour < 24,
        rest < 3_600_000,
        days * 86_400_000 + hour * 3_600_000 + rest <= u64::MAX,
    ensures
        hour_of_day((days * 86_400_000 + hour * 3_600_000 + rest) as u64) == hour,
{
    let t = (days * 86_400_000 + hour * 3_600_000 + rest) as u64;
    assert(t / HOUR_MS == days * 24 + hour);
    assert((days * 24 + hour) as int % 24 == hour);
}

/// What is kept for a process is found under its name again, and nothing kept for another
/// changes.
pub proof fn law_processes_have_their_own_baselines(
    m: SystemModel,
    name: Seq<char>,
    p: BaselineModel,
    other: Seq<char>,
)
    ensures
        process_of(with_process(m, name, p), name) == p,
        lowercase(other) != lowercase(name) ==> process_of(with_process(m, name, p), other)
            == process_of(m, other),
        !m.processes.contains_key(lowercase(name)) ==> process_of(m, name).observations == 0
            && process_of(m, name).parents == Set::<Seq<char>>::empty() && !process_of(
            m,
            name,
        ).approved,
{
}

/// Seeing a destination counts it and no other.
pub proof fn law_destinations_are_counted(
    m: SystemModel,
    destination: Seq<char>,
    other: Seq<char>,
)
    requires
        times_seen(m, destination) < u64::MAX,
    ensures
        times_seen(after_destination(m, destination), destination) == times_seen(m, destination)
            + 1,
        lowercase(other) != lowercase(destination) ==> times_seen(
            after_destination(m, destination),
            other,
        ) == times_seen(m, other),
        m.rare_below > 0 ==> (rare(m, destination) <==> times_seen(m, destination)
            < m.rare_below),
{
}

} // verus!
