//! Processes that change their command line after they were started.
//!
//! The command line of a process is recorded when the process starts and held
//! against the one that it shows later.
use vstd::prelude::*;

use crate::baseline::{count_up, counted};
use crate::collect::{
    first_index, lemma_filter_distinct, lemma_filter_map, lemma_filter_members, lemma_first_index,
    lemma_first_index_is, lemma_first_index_map, position_where, retain,
};
use crate::pattern::{regex_search, search};
use crate::similarity::{
    law_only_equal_texts_are_alike, law_similarity_is_symmetric, lcs, lcs_length, likeness,
    similarity,
};
use crate::telemetry::ONE;
use crate::text::{
    any_occurs, bytes_of, contains, contains_any, from_utf8, join, joined, lowercase, occurs, owned,
    push_text, same, str_texts, texts, to_lowercase,
};
use crate::textset::TextSet;
use crate::words::{
    blank, char_count, control, count_char, is_blank, is_control, law_blank_text_has_no_words, words,
    words_of,
};

verus! {

/// How a changed command line was noticed.
#[derive(Debug, Clone, Copy, PartialEq, Eq, Structural)]
pub enum DetectionMethod {
    /// The command line that the process shows differs from the recorded one.
    PebValidation,
    /// A write to the process parameters was seen.
    MemoryWriteMonitor,
    /// A trace reported other arguments than the process shows.
    EtwComparison,
    /// A callback of the kernel saw the command line before the change.
    KernelCallback,
    /// A pattern gave it away.
    PatternAnalysis,
}

/// What was done to a command line.
#[derive(Debug, Clone, Copy, PartialEq, Eq, Structural)]
pub enum SpoofingPattern {
    /// It was filled with spaces.
    SpacePadding,
    /// It was filled with nulls.
    NullPadding,
    /// It was cut.
    Truncation,
    /// Some arguments were replaced.
    ArgumentSubstitution,
    /// All of it was replaced.
    CompleteReplacement,
    /// It bears the mark of a known tool.
    KnownToolSignature,
    /// It holds odd characters.
    SuspiciousCharacters,
    /// It was changed in some other way.
    GenericModification,
}

/// The memory that holds a command line.
#[derive(Debug)]
pub struct MemoryRegionInfo {
    /// Where the process parameters lie.
    pub process_parameters_base: u64,
    /// Where the command line lies.
    pub cmdline_buffer_address: u64,
    /// The size of the command line.
    pub cmdline_buffer_size: usize,
    /// How the memory is protected.
    pub protection: u32,
    /// How the memory is protected, in words.
    pub protection_str: String,
}

/// What a memory region is.
#[verifier::ext_equal]
pub struct RegionModel {
    pub process_parameters_base: u64,
    pub cmdline_buffer_address: u64,
    pub cmdline_buffer_size: usize,
    pub protection: u32,
    pub protection_str: Seq<char>,
}

impl View for MemoryRegionInfo {
    type V = RegionModel;

    open spec fn view(&self) -> RegionModel {
        RegionModel {
            process_parameters_base: self.process_parameters_base,
            cmdline_buffer_address: self.cmdline_buffer_address,
            cmdline_buffer_size: self.cmdline_buffer_size,
            protection: self.protection,
            protection_str: self.protection_str@,
        }
    }
}

/// What is known of a region, if any is.
pub open spec fn region_view(region: Option<MemoryRegionInfo>) -> Option<RegionModel> {
    match region {
        Some(r) => Some(r@),
        None => None,
    }
}

impl MemoryRegionInfo {
    /// What the address of the process environment block alone tells.
    pub fn of_environment_block(address: u64) -> (r: MemoryRegionInfo)
        ensures
            r@ == (RegionModel {
                process_parameters_base: address,
                cmdline_buffer_address: 0,
                cmdline_buffer_size: 0,
                protection: 0,
                protection_str: "Unknown"@,
            }),
    {
        MemoryRegionInfo {
            process_parameters_base: address,
            cmdline_buffer_address: 0,
            cmdline_buffer_size: 0,
            protection: 0,
            protection_str: "Unknown".to_string(),
        }
    }
}

/// What stands around a changed command line.
#[derive(Debug)]
pub struct SpoofingContext {
    /// The process that started the process.
    pub parent_pid: u32,
    /// The name of the process that started it.
    pub parent_name: String,
    /// Whether the process is elevated.
    pub is_elevated: bool,
    /// Whether its file is signed.
    pub is_signed: bool,
    /// When the process started, in milliseconds.
    pub process_start_time: u64,
    /// How long it took from the start to the finding, in milliseconds.
    pub time_to_detection_ms: u64,
    /// The memory that holds the command line, if known.
    pub memory_region: Option<MemoryRegionInfo>,
}

/// What a context says.
#[verifier::ext_equal]
pub struct ContextModel {
    pub parent_pid: u32,
    pub parent_name: Seq<char>,
    pub is_elevated: bool,
    pub is_signed: bool,
    pub process_start_time: u64,
    pub time_to_detection_ms: u64,
    pub memory_region: Option<RegionModel>,
}

impl View for SpoofingContext {
    type V = ContextModel;

    open spec fn view(&self) -> ContextModel {
        ContextModel {
            parent_pid: self.parent_pid,
            parent_name: self.parent_name@,
            is_elevated: self.is_elevated,
            is_signed: self.is_signed,
            process_start_time: self.process_start_time,
            time_to_detection_ms: self.time_to_detection_ms,
            memory_region: region_view(self.memory_region),
        }
    }
}

/// A process whose command line was changed.
#[derive(Debug)]
pub struct CmdlineSpoofingAlert {
    /// The process.
    pub pid: u32,
    /// Its name.
    pub process_name: String,
    /// Its file.
    pub process_path: String,
    /// The command line at the start.
    pub original_cmdline: String,
    /// The command line now.
    pub current_cmdline: String,
    /// The bytes of the command line at the start.
    pub original_length: usize,
    /// The bytes of the command line now.
    pub current_length: usize,
    /// How alike the two are, in millionths.
    pub similarity_score: u32,
    /// How the change was noticed.
    pub detection_method: DetectionMethod,
    /// What was done.
    pub spoofing_pattern: SpoofingPattern,
    /// How sure the finding is, in millionths.
    pub confidence: u32,
    /// When it was noticed, in milliseconds.
    pub detected_at_ms: u64,
    /// What stands around it.
    pub context: SpoofingContext,
}

/// What an alert says.
#[verifier::ext_equal]
pub struct AlertModel {
    pub pid: u32,
    pub process_name: Seq<char>,
    pub process_path: Seq<char>,
    pub original_cmdline: Seq<char>,
    pub current_cmdline: Seq<char>,
    pub original_length: nat,
    pub current_length: nat,
    pub similarity_score: u32,
    pub detection_method: DetectionMethod,
    pub spoofing_pattern: SpoofingPattern,
    pub confidence: u32,
    pub detected_at_ms: u64,
    pub context: ContextModel,
}

impl View for CmdlineSpoofingAlert {
    type V = AlertModel;

    open spec fn view(&self) -> AlertModel {
        AlertModel {
            pid: self.pid,
            process_name: self.process_name@,
            process_path: self.process_path@,
            original_cmdline: self.original_cmdline@,
            current_cmdline: self.current_cmdline@,
            original_length: self.original_length as nat,
            current_length: self.current_length as nat,
            similarity_score: self.similarity_score,
            detection_method: self.detection_method,
            spoofing_pattern: self.spoofing_pattern,
            confidence: self.confidence,
            detected_at_ms: self.detected_at_ms,
            context: self.context@,
        }
    }
}

/// What some alerts say.
pub open spec fn alerts_view(alerts: Seq<CmdlineSpoofingAlert>) -> Seq<AlertModel> {
    alerts.map_values(|a: CmdlineSpoofingAlert| a@)
}

/// What an alert says, if there is one.
pub open spec fn alert_view(alert: Option<CmdlineSpoofingAlert>) -> Option<AlertModel> {
    match alert {
        Some(a) => Some(a@),
        None => None,
    }
}

/// What is looked for, and how much is remembered.
#[derive(Debug)]
pub struct SpoofingDetectorConfig {
    /// How many processes are followed.
    pub max_cache_size: usize,
    /// Below which likeness, in millionths, a change is reported.
    pub similarity_threshold: u32,
    /// How often to look, in milliseconds.
    pub validation_interval_ms: u64,
    /// How many processes to look at in one go.
    pub max_validations_per_cycle: usize,
    /// How long a process is followed, in seconds.
    pub cache_ttl_secs: u64,
    /// The names of processes that are left alone.
    pub excluded_processes: Vec<String>,
    /// Whether writes to memory are watched.
    pub enable_memory_monitoring: bool,
    /// The least change of the length, in bytes, that counts: a smaller one is no
    /// truncation and makes nothing surer.
    pub min_length_diff: usize,
}

/// From where on a change counts.
#[derive(Debug, Clone, Copy)]
pub struct Limits {
    /// Below which likeness, in millionths, a change is reported.
    pub similarity_threshold: u32,
    /// The least change of the length, in bytes, that counts.
    pub min_length_diff: usize,
}

/// From where on a change counts by some settings.
pub open spec fn limits_of(c: SpoofingDetectorConfig) -> Limits {
    Limits { similarity_threshold: c.similarity_threshold, min_length_diff: c.min_length_diff }
}

/// The processes that are left alone by default: they change their command line
/// for good reasons.
pub const EXCLUDED_PROCESSES: [&'static str; 8] = [
    "java.exe",
    "javaw.exe",
    "dotnet.exe",
    "python.exe",
    "python3.exe",
    "node.exe",
    "pwsh.exe",
    "powershell.exe",
];

/// Whether settings are the usual ones.
pub open spec fn is_usual(c: SpoofingDetectorConfig) -> bool {
    &&& c.max_cache_size == 10_000
    &&& c.similarity_threshold == 700_000
    &&& c.validation_interval_ms == 5_000
    &&& c.max_validations_per_cycle == 100
    &&& c.cache_ttl_secs == 3_600
    &&& texts(c.excluded_processes@) == str_texts(EXCLUDED_PROCESSES@)
    &&& c.enable_memory_monitoring
    &&& c.min_length_diff == 10
}

impl Default for SpoofingDetectorConfig {
    /// The usual settings.
    fn default() -> (r: SpoofingDetectorConfig)
        ensures
            is_usual(r),
    {
        SpoofingDetectorConfig {
            max_cache_size: 10_000,
            similarity_threshold: 700_000,
            validation_interval_ms: 5_000,
            max_validations_per_cycle: 100,
            cache_ttl_secs: 3_600,
            excluded_processes: owned(&EXCLUDED_PROCESSES),
            enable_memory_monitoring: true,
            min_length_diff: 10,
        }
    }
}

/// The marks of known tools: the name, the pattern, whether the pattern is looked
/// for in the command line at the start (and has to be gone since) or in the one
/// now, and the family, if it has one.
pub const KNOWN_SIGNATURES: [(&'static str, &'static str, bool, &'static str); 5] = [
    ("Cobalt Strike Beacon", "(?i)beacon|cobaltstrike|\\.cna", true, "CobaltStrike"),
    ("Space Padding", "^\\s{10,}$", false, ""),
    ("Metasploit Meterpreter", "(?i)meterpreter|metsvc|reverse_tcp", true, "Metasploit"),
    (
        "LOLBin Abuse",
        "(?i)regsvr32.*scrobj|rundll32.*javascript|mshta.*vbscript",
        true,
        "",
    ),
    ("Encoded PowerShell", "(?i)-e(nc(odedcommand)?)?[ ]+[A-Za-z0-9+/=]{50,}", true, ""),
];

/// Whether a mark is on a changed command line, by what the search for it in the
/// command line at the start and in the one now found.
pub open spec fn mark_on(at_start: bool, then: Option<bool>, now: Option<bool>) -> bool {
    if at_start {
        then == Some(true) && now == Some(false)
    } else {
        now == Some(true)
    }
}

/// Whether a mark is on a changed command line, by what the search for it in the
/// command line at the start and in the one now found.
pub fn is_mark_on(at_start: bool, then: Option<bool>, now: Option<bool>) -> (r: bool)
    ensures
        r == mark_on(at_start, then, now),
{
    match (at_start, then, now) {
        (true, Some(first), Some(second)) => first && !second,
        (false, _, Some(second)) => second,
        _ => false,
    }
}

/// Whether a mark is on a changed command line.
pub open spec fn marked(
    pattern: Seq<char>,
    at_start: bool,
    original: Seq<char>,
    current: Seq<char>,
) -> bool {
    mark_on(at_start, regex_search(pattern, original), regex_search(pattern, current))
}

/// Whether the mark of a known tool is on a changed command line.
pub open spec fn known_tool(original: Seq<char>, current: Seq<char>) -> bool {
    exists|i: int|
        0 <= i < KNOWN_SIGNATURES@.len() && #[trigger] marked(
            KNOWN_SIGNATURES@[i].1@,
            KNOWN_SIGNATURES@[i].2,
            original,
            current,
        )
}

fn is_known_tool(original: &str, current: &str) -> (r: bool)
    ensures
        r == known_tool(original@, current@),
{
    let mut i: usize = 0;
    while i < KNOWN_SIGNATURES.len()
        invariant
            i <= KNOWN_SIGNATURES@.len(),
            forall|j: int|
                0 <= j < i ==> !#[trigger] marked(
                    KNOWN_SIGNATURES@[j].1@,
                    KNOWN_SIGNATURES@[j].2,
                    original@,
                    current@,
                ),
        decreases KNOWN_SIGNATURES@.len() - i,
    {
        let pattern = KNOWN_SIGNATURES[i].1;
        let found = is_mark_on(
            KNOWN_SIGNATURES[i].2,
            search(pattern, original),
            search(pattern, current),
        );
        if found {
            assert(marked(
                KNOWN_SIGNATURES@[i as int].1@,
                KNOWN_SIGNATURES@[i as int].2,
                original@,
                current@,
            ));
            return true;
        }
        i += 1;
    }
    false
}

/// Whether a word stands in both texts.
pub open spec fn share_a_word(a: Seq<char>, b: Seq<char>) -> bool {
    exists|w: Seq<char>| #[trigger] words(a).contains(w) && words(b).contains(w)
}

/// How many different words a text has.
pub open spec fn vocabulary(text: Seq<char>) -> nat {
    words(text).to_set().len()
}

/// Whether an odd character stands in a text.
pub open spec fn odd_characters(text: Seq<char>) -> bool {
    exists|i: int|
        0 <= i < text.len() && control(#[trigger] text[i]) && text[i] != ' ' && text[i] != '\t'
}

fn holds_odd_characters(text: &str) -> (r: bool)
    ensures
        r == odd_characters(text@),
{
    let chars = crate::text::characters(text);
    let mut i: usize = 0;
    while i < chars.len()
        invariant
            i <= chars@.len(),
            chars@ == text@,
            forall|j: int|
                0 <= j < i ==> !(control(#[trigger] text@[j]) && text@[j] != ' ' && text@[j]
                    != '\t'),
        decreases chars@.len() - i,
    {
        if is_control(chars[i]) && chars[i] != ' ' && chars[i] != '\t' {
            assert(control(text@[i as int]));
            return true;
        }
        i += 1;
    }
    false
}

fn distinct_words(text: &str) -> (r: TextSet)
    ensures
        r.wf(),
        r@ == words(text@).to_set(),
{
    let list = words_of(text);
    let ghost all = words(text@);
    let mut r = TextSet::new();
    let mut i: usize = 0;
    assert(all.take(0).to_set() =~= Set::empty());
    while i < list.len()
        invariant
            i <= list@.len(),
            texts(list@) == all,
            r.wf(),
            r@ == all.take(i as int).to_set(),
        decreases list@.len() - i,
    {
        r.insert(list[i].clone());
        proof {
            assert(all.take(i + 1) =~= all.take(i as int).push(all[i as int]));
            assert(all[i as int] == list@[i as int]@);
            assert(all.take(i + 1).to_set() =~= all.take(i as int).to_set().insert(all[i as int]))
                by {
                let before = all.take(i as int);
                let after = all.take(i + 1);
                assert forall|w: Seq<char>| after.contains(w) <==> before.contains(w) || w
                    == all[i as int] by {
                    if after.contains(w) {
                        let k = choose|k: int| 0 <= k < after.len() && after[k] == w;
                        if k < i {
                            assert(before[k] == w);
                        }
                    }
                    if before.contains(w) {
                        let k = choose|k: int| 0 <= k < before.len() && before[k] == w;
                        assert(after[k] == w);
                    }
                    assert(after[i as int] == all[i as int]);
                }
            }
        }
        i += 1;
    }
    assert(all.take(i as int) =~= all);
    r
}

fn shares_a_word(a: &TextSet, b: &TextSet) -> (r: bool)
    ensures
        r == exists|w: Seq<char>| #[trigger] a@.contains(w) && b@.contains(w),
{
    let list = a.list();
    let ghost all = texts(list@);
    proof {
        a.lemma_view();
    }
    let mut i: usize = 0;
    while i < list.len()
        invariant
            i <= list@.len(),
            all == texts(list@),
            a@ == all.to_set(),
            forall|j: int| 0 <= j < i ==> !b@.contains(#[trigger] all[j]),
        decreases list@.len() - i,
    {
        if b.contains(list[i].as_str()) {
            assert(all[i as int] == list@[i as int]@);
            assert(all.contains(all[i as int]));
            assert(a@.contains(all[i as int]) && b@.contains(all[i as int]));
            return true;
        }
        assert(all[i as int] == list@[i as int]@);
        i += 1;
    }
    assert forall|w: Seq<char>| #[trigger] a@.contains(w) implies !b@.contains(w) by {
        assert(all.contains(w));
        let k = choose|k: int| 0 <= k < all.len() && all[k] == w;
        assert(!b@.contains(all[k]));
    }
    false
}

/// Whether a command line has changed in length by as much as counts.
pub open spec fn length_changed(
    min_length_diff: usize,
    original: Seq<char>,
    current: Seq<char>,
) -> bool {
    distance(bytes_of(original), bytes_of(current)) >= min_length_diff
}

/// What was done to a command line.
pub open spec fn spoofing_pattern(
    min_length_diff: usize,
    original: Seq<char>,
    current: Seq<char>,
) -> SpoofingPattern {
    pattern_given(min_length_diff, original, current, known_tool(original, current))
}

/// What was done to a command line, given whether the mark of a known tool is on it.
pub open spec fn pattern_given(
    min_length_diff: usize,
    original: Seq<char>,
    current: Seq<char>,
    known: bool,
) -> SpoofingPattern {
    if char_count(current, ' ', current.len()) > bytes_of(current) / 2 {
        SpoofingPattern::SpacePadding
    } else if bytes_of(original) > 20 && bytes_of(current) < bytes_of(original) / 2
        && length_changed(min_length_diff, original, current) {
        SpoofingPattern::Truncation
    } else if blank(current) && !blank(original) {
        SpoofingPattern::NullPadding
    } else if known {
        SpoofingPattern::KnownToolSignature
    } else if !share_a_word(original, current) && !blank(original) && !blank(current) {
        SpoofingPattern::CompleteReplacement
    } else if share_a_word(original, current) && vocabulary(original) > vocabulary(current) {
        SpoofingPattern::ArgumentSubstitution
    } else if odd_characters(current) {
        SpoofingPattern::SuspiciousCharacters
    } else {
        SpoofingPattern::GenericModification
    }
}

/// What makes a command line more suspicious.
pub const SUSPICIOUS_KEYWORDS: [&'static str; 7] = [
    "invoke",
    "iex",
    "downloadstring",
    "-enc",
    "bypass",
    "hidden",
    "nop",
];

/// A confidence raised by an amount, at most to certainty.
pub open spec fn raised(confidence: u32, by: u32) -> u32 {
    if confidence + by >= ONE {
        ONE
    } else {
        (confidence + by) as u32
    }
}

fn raise(confidence: u32, by: u32) -> (r: u32)
    requires
        confidence <= ONE,
        by <= ONE,
    ensures
        r == raised(confidence, by),
        r <= ONE,
{
    if confidence + by >= ONE {
        ONE
    } else {
        confidence + by
    }
}

/// A confidence that is at least `least`.
pub open spec fn at_least(confidence: u32, least: u32) -> u32 {
    if confidence >= least {
        confidence
    } else {
        least
    }
}

/// The confidence that the pattern gives to a change of some likeness.
pub open spec fn pattern_confidence(alike: u32, pattern: SpoofingPattern) -> u32 {
    let base = (ONE - alike) as u32;
    match pattern {
        SpoofingPattern::KnownToolSignature => at_least(base, 950_000),
        SpoofingPattern::SpacePadding => at_least(base, 900_000),
        SpoofingPattern::NullPadding => at_least(base, 900_000),
        SpoofingPattern::Truncation => raised(base, 100_000),
        SpoofingPattern::CompleteReplacement => raised(base, 150_000),
        _ => base,
    }
}

/// How far apart two lengths are.
pub open spec fn distance(a: nat, b: nat) -> nat {
    if a >= b {
        (a - b) as nat
    } else {
        (b - a) as nat
    }
}

/// How sure a finding is.
pub open spec fn change_confidence(
    min_length_diff: usize,
    original: Seq<char>,
    current: Seq<char>,
    alike: u32,
    pattern: SpoofingPattern,
) -> u32 {
    let first = pattern_confidence(alike, pattern);
    let second = if distance(bytes_of(original), bytes_of(current)) > 50 && length_changed(
        min_length_diff,
        original,
        current,
    ) {
        raised(first, 100_000)
    } else {
        first
    };
    if any_occurs(SUSPICIOUS_KEYWORDS@, lowercase(original)) {
        raised(second, 50_000)
    } else {
        second
    }
}

/// A command line as it is compared: its words, a space between them, in lower
/// case.
pub open spec fn normalized(cmdline: Seq<char>) -> Seq<char> {
    lowercase(joined(words(cmdline), " "@))
}

/// A process that is followed.
#[derive(Debug)]
pub struct ProcessCacheEntry {
    /// The process.
    pub pid: u32,
    /// Its name.
    pub name: String,
    /// Its file.
    pub path: String,
    /// Its command line at the start.
    pub original_cmdline: String,
    /// When it was recorded, in milliseconds.
    pub created_at: u64,
    /// When it started, in milliseconds.
    pub process_start_time: u64,
    /// The process that started it.
    pub parent_pid: u32,
    /// The name of the process that started it.
    pub parent_name: String,
    /// Whether it was looked at.
    pub checked: bool,
    /// How often it was looked at.
    pub validation_count: u32,
    /// When it was last looked at, in milliseconds.
    pub last_validated: u64,
    /// Where its environment block lies, if known.
    pub peb_address: Option<u64>,
    /// Where its parameters lie, if known.
    pub process_parameters_address: Option<u64>,
}

/// What is known of a process that is followed.
#[verifier::ext_equal]
pub struct EntryModel {
    pub pid: u32,
    pub name: Seq<char>,
    pub path: Seq<char>,
    pub original_cmdline: Seq<char>,
    pub created_at: u64,
    pub process_start_time: u64,
    pub parent_pid: u32,
    pub parent_name: Seq<char>,
    pub checked: bool,
    pub validation_count: u32,
    pub last_validated: u64,
    pub peb_address: Option<u64>,
    pub process_parameters_address: Option<u64>,
}

impl View for ProcessCacheEntry {
    type V = EntryModel;

    open spec fn view(&self) -> EntryModel {
        EntryModel {
            pid: self.pid,
            name: self.name@,
            path: self.path@,
            original_cmdline: self.original_cmdline@,
            created_at: self.created_at,
            process_start_time: self.process_start_time,
            parent_pid: self.parent_pid,
            parent_name: self.parent_name@,
            checked: self.checked,
            validation_count: self.validation_count,
            last_validated: self.last_validated,
            peb_address: self.peb_address,
            process_parameters_address: self.process_parameters_address,
        }
    }
}

/// What is known of an entry.
pub open spec fn of_entry() -> spec_fn(ProcessCacheEntry) -> EntryModel {
    |e: ProcessCacheEntry| e@
}

/// What is known of some entries.
pub open spec fn entries_view(entries: Seq<ProcessCacheEntry>) -> Seq<EntryModel> {
    entries.map_values(of_entry())
}

/// Whether an entry is of a process.
pub open spec fn of_process(pid: u32) -> spec_fn(EntryModel) -> bool {
    |e: EntryModel| e.pid == pid
}

/// Where the entry of a process stands.
pub open spec fn position(entries: Seq<EntryModel>, pid: u32) -> Option<int> {
    first_index(entries, of_process(pid))
}

/// The entry of a process, if it is followed.
pub open spec fn entry_of(entries: Seq<EntryModel>, pid: u32) -> Option<EntryModel> {
    match position(entries, pid) {
        Some(i) => Some(entries[i]),
        None => None,
    }
}

/// Whether each process has one entry.
pub open spec fn distinct(entries: Seq<EntryModel>) -> bool {
    forall|i: int, j: int|
        0 <= i < j < entries.len() ==> (#[trigger] entries[i]).pid != (#[trigger] entries[j]).pid
}

/// The first of the oldest of the first `n` entries.
pub open spec fn oldest(entries: Seq<EntryModel>, n: nat) -> int
    decreases n,
{
    if n <= 1 {
        0
    } else {
        let before = oldest(entries, (n - 1) as nat);
        if entries[n - 1].created_at < entries[before].created_at {
            n - 1
        } else {
            before
        }
    }
}

/// The entries without the `n` oldest.
pub open spec fn evicted(entries: Seq<EntryModel>, n: nat) -> Seq<EntryModel>
    decreases n,
{
    if n == 0 || entries.len() == 0 {
        entries
    } else {
        evicted(entries.remove(oldest(entries, entries.len())), (n - 1) as nat)
    }
}

/// How many entries make room for more: a tenth of those that are allowed, and at
/// least one.
pub open spec fn room(max: usize) -> nat {
    if max < 10 {
        1
    } else {
        (max / 10) as nat
    }
}

/// The entries with room for one more.
pub open spec fn with_room(entries: Seq<EntryModel>, max: usize) -> Seq<EntryModel> {
    if entries.len() >= max {
        evicted(entries, room(max))
    } else {
        entries
    }
}

/// The entries with one for a process put in the place of its old one, or behind
/// the others.
pub open spec fn with_entry(entries: Seq<EntryModel>, entry: EntryModel) -> Seq<EntryModel> {
    match position(entries, entry.pid) {
        Some(i) => entries.update(i, entry),
        None => entries.push(entry),
    }
}

/// Whether a process is left alone.
pub open spec fn excluded(names: Seq<Seq<char>>, name: Seq<char>) -> bool {
    exists|i: int|
        0 <= i < names.len() && occurs(#[trigger] lowercase(names[i]), lowercase(name))
}

/// What a detector knows.
#[verifier::ext_equal]
pub struct DetectorModel {
    pub entries: Seq<EntryModel>,
    pub recorded: u64,
    pub validated: u64,
    pub alerted: u64,
}

/// What a detector knows once a process was recorded.
pub open spec fn after_record(
    m: DetectorModel,
    names: Seq<Seq<char>>,
    max: usize,
    entry: EntryModel,
) -> DetectorModel {
    if excluded(names, entry.name) {
        m
    } else {
        DetectorModel {
            entries: with_entry(with_room(m.entries, max), entry),
            recorded: counted(m.recorded),
            ..m
        }
    }
}

/// What was read of a process.
#[derive(Debug)]
pub struct ProcessReading {
    /// The process.
    pub pid: u32,
    /// The command line that it shows, if it could be read.
    pub current: Option<String>,
    /// Whether it is elevated.
    pub is_elevated: bool,
    /// Whether its file is signed.
    pub is_signed: bool,
    /// The memory that holds the command line, if known.
    pub memory_region: Option<MemoryRegionInfo>,
    /// When it was read, in milliseconds.
    pub now: u64,
}

/// What a reading says.
#[verifier::ext_equal]
pub struct ReadingModel {
    pub pid: u32,
    pub current: Option<Seq<char>>,
    pub is_elevated: bool,
    pub is_signed: bool,
    pub memory_region: Option<RegionModel>,
    pub now: u64,
}

impl View for ProcessReading {
    type V = ReadingModel;

    open spec fn view(&self) -> ReadingModel {
        ReadingModel {
            pid: self.pid,
            current: crate::text::opt_text(self.current),
            is_elevated: self.is_elevated,
            is_signed: self.is_signed,
            memory_region: region_view(self.memory_region),
            now: self.now,
        }
    }
}

/// What some readings say.
pub open spec fn readings_view(readings: Seq<ProcessReading>) -> Seq<ReadingModel> {
    readings.map_values(|r: ProcessReading| r@)
}

/// What the comparison of the two command lines of a process gives: an alert
/// where they are less alike than the threshold.
pub open spec fn compared(
    limits: Limits,
    entry: EntryModel,
    current: Seq<char>,
    reading: ReadingModel,
) -> Option<AlertModel> {
    let original = entry.original_cmdline;
    let alike = similarity(normalized(original), normalized(current));
    if normalized(original) == normalized(current) || alike >= limits.similarity_threshold {
        None
    } else {
        let pattern = spoofing_pattern(limits.min_length_diff, original, current);
        Some(
            AlertModel {
                pid: reading.pid,
                process_name: entry.name,
                process_path: entry.path,
                original_cmdline: original,
                current_cmdline: current,
                original_length: bytes_of(original),
                current_length: bytes_of(current),
                similarity_score: alike,
                detection_method: DetectionMethod::PebValidation,
                spoofing_pattern: pattern,
                confidence: change_confidence(
                    limits.min_length_diff,
                    original,
                    current,
                    alike,
                    pattern,
                ),
                detected_at_ms: reading.now,
                context: ContextModel {
                    parent_pid: entry.parent_pid,
                    parent_name: entry.parent_name,
                    is_elevated: reading.is_elevated,
                    is_signed: reading.is_signed,
                    process_start_time: entry.process_start_time,
                    time_to_detection_ms: if reading.now >= entry.process_start_time {
                        (reading.now - entry.process_start_time) as u64
                    } else {
                        0
                    },
                    memory_region: reading.memory_region,
                },
            },
        )
    }
}

/// An entry that was looked at once more.
pub open spec fn looked_at(entry: EntryModel, now: u64) -> EntryModel {
    EntryModel {
        checked: true,
        validation_count: if entry.validation_count == u32::MAX {
            entry.validation_count
        } else {
            (entry.validation_count + 1) as u32
        },
        last_validated: now,
        ..entry
    }
}

/// The alert that a reading gives, if any.
pub open spec fn judged(m: DetectorModel, limits: Limits, reading: ReadingModel) -> Option<
    AlertModel,
> {
    match (entry_of(m.entries, reading.pid), reading.current) {
        (Some(entry), Some(current)) => compared(limits, entry, current, reading),
        _ => None,
    }
}

/// What a detector knows after a reading.
pub open spec fn after_reading(
    m: DetectorModel,
    limits: Limits,
    reading: ReadingModel,
) -> DetectorModel {
    match (position(m.entries, reading.pid), reading.current) {
        (Some(i), Some(current)) => DetectorModel {
            entries: m.entries.update(i, looked_at(m.entries[i], reading.now)),
            validated: counted(m.validated),
            alerted: if judged(m, limits, reading) is Some {
                counted(m.alerted)
            } else {
                m.alerted
            },
            ..m
        },
        _ => m,
    }
}

/// What a detector knows after the first `n` readings.
pub open spec fn after_readings(
    m: DetectorModel,
    limits: Limits,
    readings: Seq<ReadingModel>,
    n: nat,
) -> DetectorModel
    decreases n,
{
    if n == 0 {
        m
    } else {
        after_reading(
            after_readings(m, limits, readings, (n - 1) as nat),
            limits,
            readings[n - 1],
        )
    }
}

/// The alerts that the first `n` readings give.
pub open spec fn batch_alerts(
    m: DetectorModel,
    limits: Limits,
    readings: Seq<ReadingModel>,
    n: nat,
) -> Seq<AlertModel>
    decreases n,
{
    if n == 0 {
        Seq::empty()
    } else {
        let before = batch_alerts(m, limits, readings, (n - 1) as nat);
        match judged(
            after_readings(m, limits, readings, (n - 1) as nat),
            limits,
            readings[n - 1],
        ) {
            Some(alert) => before.push(alert),
            None => before,
        }
    }
}

/// Whether a process is still followed: it lives, and was recorded not too long
/// ago.
pub open spec fn still_followed(live: Seq<u32>, ttl_secs: u64, now: u64) -> spec_fn(
    EntryModel,
) -> bool {
    |e: EntryModel| live.contains(e.pid) && now - e.created_at <= ttl_secs * 1000
}

fn is_still_followed(entry: &ProcessCacheEntry, live: &[u32], ttl_secs: u64, now: u64) -> (r: bool)
    ensures
        r == still_followed(live@, ttl_secs, now)(entry@),
{
    let mut found = false;
    let mut i: usize = 0;
    while i < live.len()
        invariant
            i <= live@.len(),
            found == live@.take(i as int).contains(entry.pid),
        decreases live@.len() - i,
    {
        let ghost before = live@.take(i as int);
        let ghost after = live@.take(i + 1);
        assert(after =~= before.push(live@[i as int]));
        proof {
            if before.contains(entry.pid) {
                let k = choose|k: int| 0 <= k < before.len() && before[k] == entry.pid;
                assert(after[k] == entry.pid);
            }
            if after.contains(entry.pid) {
                let k = choose|k: int| 0 <= k < after.len() && after[k] == entry.pid;
                if k < before.len() {
                    assert(before[k] == entry.pid);
                }
            }
            assert(after[i as int] == live@[i as int]);
        }
        if live[i] == entry.pid {
            found = true;
        }
        i += 1;
    }
    assert(live@.take(i as int) =~= live@);
    let age: u64 = if now >= entry.created_at {
        now - entry.created_at
    } else {
        0
    };
    found && age as u128 <= ttl_secs as u128 * 1000
}

/// Follows processes and reports those whose command line was changed.
#[derive(Debug)]
pub struct EnhancedCmdlineSpoofingDetector {
    /// What is looked for.
    pub config: SpoofingDetectorConfig,
    /// The processes that are followed.
    pub cache: Vec<ProcessCacheEntry>,
    /// How many processes were recorded.
    pub processes_recorded: u64,
    /// How many command lines were compared.
    pub validations_performed: u64,
    /// How many changes were reported.
    pub alerts_generated: u64,
}

impl View for EnhancedCmdlineSpoofingDetector {
    type V = DetectorModel;

    open spec fn view(&self) -> DetectorModel {
        DetectorModel {
            entries: entries_view(self.cache@),
            recorded: self.processes_recorded,
            validated: self.validations_performed,
            alerted: self.alerts_generated,
        }
    }
}

impl Default for EnhancedCmdlineSpoofingDetector {
    /// A detector with the usual settings.
    fn default() -> (r: EnhancedCmdlineSpoofingDetector)
        ensures
            r.wf(),
            r@ == empty_detector(),
            is_usual(r.config),
    {
        EnhancedCmdlineSpoofingDetector::new()
    }
}

/// A detector that knows nothing yet.
pub open spec fn empty_detector() -> DetectorModel {
    DetectorModel { entries: Seq::empty(), recorded: 0, validated: 0, alerted: 0 }
}

impl EnhancedCmdlineSpoofingDetector {
    /// Whether each process has one entry.
    pub open spec fn wf(&self) -> bool {
        distinct(self@.entries)
    }

    /// A detector with the usual settings.
    pub fn new() -> (r: EnhancedCmdlineSpoofingDetector)
        ensures
            r.wf(),
            r@ == empty_detector(),
            is_usual(r.config),
    {
        EnhancedCmdlineSpoofingDetector::with_config(SpoofingDetectorConfig::default())
    }

    /// A detector with settings of its own.
    pub fn with_config(config: SpoofingDetectorConfig) -> (r: EnhancedCmdlineSpoofingDetector)
        ensures
            r.wf(),
            r.config == config,
            r@ == empty_detector(),
    {
        let r = EnhancedCmdlineSpoofingDetector {
            config,
            cache: Vec::new(),
            processes_recorded: 0,
            validations_performed: 0,
            alerts_generated: 0,
        };
        assert(entries_view(r.cache@) =~= Seq::empty());
        r
    }

    fn index_of(&self, pid: u32) -> (r: Option<usize>)
        ensures
            match r {
                Some(i) => position(self@.entries, pid) == Some(i as int) && i < self.cache@.len()
                    && self.cache@[i as int].pid == pid,
                None => position(self@.entries, pid) is None,
            },
    {
        let ghost p = |e: ProcessCacheEntry| of_process(pid)(e@);
        let meets = |e: &ProcessCacheEntry| -> (b: bool)
            ensures
                b == of_process(pid)(e@),
            { e.pid == pid };
        let r = position_where(&self.cache, meets, Ghost(p));
        proof {
            lemma_first_index_map(self.cache@, of_entry(), p, of_process(pid));
        }
        r
    }

    fn is_excluded(&self, name: &str) -> (r: bool)
        ensures
            r == excluded(texts(self.config.excluded_processes@), name@),
    {
        let lower = to_lowercase(name);
        let list = &self.config.excluded_processes;
        let ghost all = texts(list@);
        let mut i: usize = 0;
        while i < list.len()
            invariant
                i <= list@.len(),
                all == texts(list@),
                list@ == self.config.excluded_processes@,
                lower@ == lowercase(name@),
                forall|j: int|
                    0 <= j < i ==> !occurs(#[trigger] lowercase(all[j]), lowercase(name@)),
            decreases list@.len() - i,
        {
            let other = to_lowercase(list[i].as_str());
            assert(all[i as int] == list@[i as int]@);
            if contains(lower.as_str(), other.as_str()) {
                assert(occurs(lowercase(all[i as int]), lowercase(name@)));
                return true;
            }
            i += 1;
        }
        false
    }

    fn evict_oldest_entries(&mut self, count: usize)
        requires
            old(self).wf(),
        ensures
            final(self).wf(),
            final(self).config == old(self).config,
            final(self)@ == (DetectorModel {
                entries: evicted(old(self)@.entries, count as nat),
                ..old(self)@
            }),
    {
        let ghost goal = evicted(self@.entries, count as nat);
        let mut left: usize = count;
        while left > 0 && self.cache.len() > 0
            invariant
                self.wf(),
                self.config == old(self).config,
                self.processes_recorded == old(self).processes_recorded,
                self.validations_performed == old(self).validations_performed,
                self.alerts_generated == old(self).alerts_generated,
                evicted(self@.entries, left as nat) == goal,
            decreases left,
        {
            let ghost entries = self@.entries;
            let mut first: usize = 0;
            let mut i: usize = 1;
            while i < self.cache.len()
                invariant
                    entries == entries_view(self.cache@),
                    1 <= i <= self.cache@.len(),
                    first < i,
                    first == oldest(entries, i as nat),
                decreases self.cache@.len() - i,
            {
                assert(entries[i as int] == self.cache@[i as int]@);
                assert(entries[first as int] == self.cache@[first as int]@);
                if self.cache[i].created_at < self.cache[first].created_at {
                    first = i;
                }
                i += 1;
            }
            self.cache.remove(first);
            proof {
                assert(self@.entries =~= entries.remove(first as int));
                lemma_removed_distinct(entries, first as int);
            }
            left -= 1;
        }
    }

    fn record(&mut self, entry: ProcessCacheEntry)
        requires
            old(self).wf(),
        ensures
            final(self).wf(),
            final(self).config == old(self).config,
            final(self)@ == after_record(
                old(self)@,
                texts(old(self).config.excluded_processes@),
                old(self).config.max_cache_size,
                entry@,
            ),
    {
        if self.is_excluded(entry.name.as_str()) {
            return;
        }
        if self.cache.len() >= self.config.max_cache_size {
            let tenth: usize = self.config.max_cache_size / 10;
            let count: usize = if tenth == 0 { 1 } else { tenth };
            self.evict_oldest_entries(count);
        }
        let ghost entries = self@.entries;
        proof {
            lemma_entry_distinct(entries, entry@);
        }
        match self.index_of(entry.pid) {
            Some(i) => {
                let ghost new = entry@;
                self.cache.set(i, entry);
                assert(self@.entries =~= entries.update(i as int, new));
            },
            None => {
                let ghost new = entry@;
                self.cache.push(entry);
                assert(self@.entries =~= entries.push(new));
            },
        }
        self.processes_recorded = count_up(self.processes_recorded);
    }

    /// Records a process at its start, unless it is left alone. Where there are too
    /// many, the oldest are no longer followed.
    pub fn record_creation(
        &mut self,
        pid: u32,
        name: &str,
        path: &str,
        cmdline: &str,
        parent_pid: u32,
        parent_name: &str,
        process_start_time: u64,
        now: u64,
    )
        requires
            old(self).wf(),
        ensures
            final(self).wf(),
            final(self).config == old(self).config,
            final(self)@ == after_record(
                old(self)@,
                texts(old(self).config.excluded_processes@),
                old(self).config.max_cache_size,
                EntryModel {
                    pid,
                    name: name@,
                    path: path@,
                    original_cmdline: cmdline@,
                    created_at: now,
                    process_start_time,
                    parent_pid,
                    parent_name: parent_name@,
                    checked: false,
                    validation_count: 0,
                    last_validated: now,
                    peb_address: None,
                    process_parameters_address: None,
                },
            ),
    {
        self.record(
            ProcessCacheEntry {
                pid,
                name: name.to_string(),
                path: path.to_string(),
                original_cmdline: cmdline.to_string(),
                created_at: now,
                process_start_time,
                parent_pid,
                parent_name: parent_name.to_string(),
                checked: false,
                validation_count: 0,
                last_validated: now,
                peb_address: None,
                process_parameters_address: None,
            },
        );
    }

    /// Records a process at its start, with where its environment block and its
    /// parameters lie.
    pub fn record_creation_with_peb(
        &mut self,
        pid: u32,
        name: &str,
        path: &str,
        cmdline: &str,
        parent_pid: u32,
        parent_name: &str,
        process_start_time: u64,
        peb_address: u64,
        process_parameters_address: u64,
        now: u64,
    )
        requires
            old(self).wf(),
        ensures
            final(self).wf(),
            final(self).config == old(self).config,
            final(self)@ == after_record(
                old(self)@,
                texts(old(self).config.excluded_processes@),
                old(self).config.max_cache_size,
                EntryModel {
                    pid,
                    name: name@,
                    path: path@,
                    original_cmdline: cmdline@,
                    created_at: now,
                    process_start_time,
                    parent_pid,
                    parent_name: parent_name@,
                    checked: false,
                    validation_count: 0,
                    last_validated: now,
                    peb_address: Some(peb_address),
                    process_parameters_address: Some(process_parameters_address),
                },
            ),
    {
        self.record(
            ProcessCacheEntry {
                pid,
                name: name.to_string(),
                path: path.to_string(),
                original_cmdline: cmdline.to_string(),
                created_at: now,
                process_start_time,
                parent_pid,
                parent_name: parent_name.to_string(),
                checked: false,
                validation_count: 0,
                last_validated: now,
                peb_address: Some(peb_address),
                process_parameters_address: Some(process_parameters_address),
            },
        );
    }

    /// Holds the command line that a process shows against the one at its start.
    /// A process that is not followed or could not be read gives nothing.
    pub fn validate_process(&mut self, reading: ProcessReading) -> (r: Option<
        CmdlineSpoofingAlert,
    >)
        requires
            old(self).wf(),
        ensures
            final(self).wf(),
            final(self).config == old(self).config,
            alert_view(r) == judged(old(self)@, limits_of(old(self).config), reading@),
            final(self)@ == after_reading(old(self)@, limits_of(old(self).config), reading@),
    {
        let ghost seen = reading@;
        let i: usize = match self.index_of(reading.pid) {
            Some(i) => i,
            None => {
                return None;
            },
        };
        let current = match reading.current {
            Some(current) => current,
            None => {
                return None;
            },
        };
        let ghost entries = self@.entries;
        let ghost entry = self.cache@[i as int]@;
        assert(entries[i as int] == entry);
        let alert = compare_cmdlines(
            Limits {
                similarity_threshold: self.config.similarity_threshold,
                min_length_diff: self.config.min_length_diff,
            },
            &self.cache[i],
            current,
            reading.is_elevated,
            reading.is_signed,
            reading.memory_region,
            reading.pid,
            reading.now,
        );
        let mut old_entry = self.cache.remove(i);
        old_entry.validation_count = if old_entry.validation_count == u32::MAX {
            u32::MAX
        } else {
            old_entry.validation_count + 1
        };
        old_entry.last_validated = reading.now;
        old_entry.checked = true;
        self.cache.insert(i, old_entry);
        proof {
            assert(self@.entries =~= entries.update(i as int, looked_at(entry, seen.now)));
            lemma_updated_distinct(entries, i as int, looked_at(entry, seen.now));
        }
        self.validations_performed = count_up(self.validations_performed);
        if alert.is_some() {
            self.alerts_generated = count_up(self.alerts_generated);
        }
        alert
    }

    /// Looks at several processes, as many as one go allows, and gives the alerts.
    pub fn validate_batch(&mut self, readings: Vec<ProcessReading>) -> (alerts: Vec<
        CmdlineSpoofingAlert,
    >)
        requires
            old(self).wf(),
        ensures
            final(self).wf(),
            final(self).config == old(self).config,
            ({
                let limits = limits_of(old(self).config);
                let all = readings_view(readings@);
                let n = if all.len() <= old(self).config.max_validations_per_cycle {
                    all.len()
                } else {
                    old(self).config.max_validations_per_cycle as nat
                };
                &&& final(self)@ == after_readings(old(self)@, limits, all, n)
                &&& alerts_view(alerts@) == batch_alerts(old(self)@, limits, all, n)
            }),
    {
        let ghost all = readings_view(readings@);
        let total: usize = readings.len();
        let n: usize = if total <= self.config.max_validations_per_cycle {
            total
        } else {
            self.config.max_validations_per_cycle
        };
        let mut rest = readings;
        let mut alerts: Vec<CmdlineSpoofingAlert> = Vec::new();
        let ghost limits = limits_of(self.config);
        assert(alerts_view(alerts@) =~= Seq::empty());
        assert(readings_view(rest@) =~= all.skip(0));
        let mut i: usize = 0;
        while i < n
            invariant
                i <= n <= all.len(),
                self.wf(),
                self.config == old(self).config,
                limits == limits_of(old(self).config),
                readings_view(rest@) == all.skip(i as int),
                self@ == after_readings(old(self)@, limits, all, i as nat),
                alerts_view(alerts@) == batch_alerts(old(self)@, limits, all, i as nat),
            decreases n - i,
        {
            let ghost before = alerts_view(alerts@);
            assert(readings_view(rest@).len() == rest@.len());
            assert(readings_view(rest@)[0] == all[i as int]);
            let ghost left = rest@;
            let reading = rest.remove(0);
            assert forall|k: int| 0 <= k < rest@.len() implies readings_view(rest@)[k] == all.skip(
                i + 1,
            )[k] by {
                assert(rest@[k] == left[k + 1]);
                assert(readings_view(left)[k + 1] == all.skip(i as int)[k + 1]);
            }
            assert(readings_view(rest@) =~= all.skip(i + 1));
            assert(reading@ == all[i as int]);
            match self.validate_process(reading) {
                Some(alert) => {
                    alerts.push(alert);
                    assert(alerts_view(alerts@) =~= before.push(alert@));
                },
                None => {},
            }
            i += 1;
        }
        alerts
    }

    /// What was done to a command line.
    pub fn identify_spoofing_pattern(&self, original: &str, current: &str) -> (r: SpoofingPattern)
        ensures
            r == spoofing_pattern(self.config.min_length_diff, original@, current@),
    {
        identify_pattern(self.config.min_length_diff, original, current)
    }

    /// How sure a finding is.
    pub fn calculate_confidence(
        &self,
        original: &str,
        current: &str,
        similarity: u32,
        pattern: &SpoofingPattern,
    ) -> (r: u32)
        requires
            similarity <= ONE,
        ensures
            r == change_confidence(
                self.config.min_length_diff,
                original@,
                current@,
                similarity,
                *pattern,
            ),
            r <= ONE,
    {
        confidence_of_change(
            self.config.min_length_diff,
            original,
            current,
            similarity,
            *pattern,
        )
    }

    /// A command line as it is compared.
    pub fn normalize_cmdline(cmdline: &str) -> (r: String)
        ensures
            r@ == normalized(cmdline@),
    {
        to_lowercase(join(&words_of(cmdline), " ").as_str())
    }

    /// How alike two texts are, in millionths.
    pub fn calculate_similarity(s1: &str, s2: &str) -> (r: u32)
        ensures
            r == similarity(s1@, s2@),
            r <= ONE,
    {
        likeness(s1, s2)
    }

    /// The length of the longest common subsequence of two texts.
    pub fn longest_common_subsequence_length(s1: &str, s2: &str) -> (r: usize)
        ensures
            r == lcs(s1@, s2@),
    {
        lcs_length(s1, s2)
    }

    /// Follows a process no longer.
    pub fn remove_process(&mut self, pid: u32)
        requires
            old(self).wf(),
        ensures
            final(self).wf(),
            final(self).config == old(self).config,
            final(self)@ == without_process(old(self)@, pid),
    {
        let ghost entries = self@.entries;
        match self.index_of(pid) {
            Some(i) => {
                self.cache.remove(i);
                proof {
                    assert(self@.entries =~= entries.remove(i as int));
                    lemma_removed_distinct(entries, i as int);
                }
            },
            None => {},
        }
    }

    /// How many processes are followed.
    pub fn tracked_count(&self) -> (n: usize)
        ensures
            n == self@.entries.len(),
    {
        self.cache.len()
    }

    /// The processes that are followed.
    pub fn tracked_pids(&self) -> (pids: Vec<u32>)
        ensures
            pids@ == self@.entries.map_values(|e: EntryModel| e.pid),
    {
        let ghost all = self@.entries.map_values(|e: EntryModel| e.pid);
        let mut pids: Vec<u32> = Vec::new();
        let mut i: usize = 0;
        assert(pids@ =~= all.take(0));
        while i < self.cache.len()
            invariant
                i <= self.cache@.len(),
                all == self@.entries.map_values(|e: EntryModel| e.pid),
                pids@ == all.take(i as int),
            decreases self.cache@.len() - i,
        {
            pids.push(self.cache[i].pid);
            assert(all[i as int] == self.cache@[i as int].pid);
            assert(pids@ =~= all.take(i + 1));
            i += 1;
        }
        assert(pids@ =~= all);
        pids
    }

    /// Follows no longer the processes that are gone or were recorded too long ago.
    pub fn gc_dead_processes(&mut self, live_pids: &[u32], now: u64)
        requires
            old(self).wf(),
        ensures
            final(self).wf(),
            final(self).config == old(self).config,
            final(self)@ == (DetectorModel {
                entries: old(self)@.entries.filter(
                    still_followed(live_pids@, old(self).config.cache_ttl_secs, now),
                ),
                ..old(self)@
            }),
    {
        let ttl: u64 = self.config.cache_ttl_secs;
        let ghost before = self.cache@;
        let ghost q = still_followed(live_pids@, ttl, now);
        let ghost p = |e: ProcessCacheEntry| q(e@);
        let keep = |e: &ProcessCacheEntry| -> (b: bool)
            ensures
                b == q(e@),
            { is_still_followed(e, live_pids, ttl, now) };
        retain(&mut self.cache, keep, Ghost(p));
        proof {
            lemma_filter_map(before, of_entry(), p, q);
            let key = |e: EntryModel| e.pid;
            let entries = old(self)@.entries;
            assert(forall|i: int, j: int|
                0 <= i < j < entries.len() ==> key(#[trigger] entries[i]) != key(
                    #[trigger] entries[j],
                ));
            lemma_filter_distinct(entries, q, key);
            assert forall|i: int, j: int| 0 <= i < j < self@.entries.len() implies (
            #[trigger] self@.entries[i]).pid != (#[trigger] self@.entries[j]).pid by {
                assert(key(entries.filter(q)[i]) != key(entries.filter(q)[j]));
            }
        }
    }

    /// How many processes were recorded, how many command lines compared and how
    /// many changes reported.
    pub fn get_stats(&self) -> (r: (u64, u64, u64))
        ensures
            r == (self@.recorded, self@.validated, self@.alerted),
    {
        (self.processes_recorded, self.validations_performed, self.alerts_generated)
    }
}

/// What a detector knows once a process is no longer followed.
pub open spec fn without_process(m: DetectorModel, pid: u32) -> DetectorModel {
    match position(m.entries, pid) {
        Some(i) => DetectorModel { entries: m.entries.remove(i), ..m },
        None => m,
    }
}

/// How far apart two lengths are.
fn length_between(a: usize, b: usize) -> (r: usize)
    ensures
        r == distance(a as nat, b as nat),
{
    if a >= b {
        a - b
    } else {
        b - a
    }
}

fn identify_pattern(min_length_diff: usize, original: &str, current: &str) -> (r: SpoofingPattern)
    ensures
        r == spoofing_pattern(min_length_diff, original@, current@),
{
    identify_given(min_length_diff, original, current, is_known_tool(original, current))
}

/// What was done to a command line, given whether the mark of a known tool is on it.
pub fn identify_given(min_length_diff: usize, original: &str, current: &str, known: bool) -> (r:
    SpoofingPattern)
    ensures
        r == pattern_given(min_length_diff, original@, current@, known),
{
    let original_bytes: usize = original.as_bytes().len();
    let current_bytes: usize = current.as_bytes().len();
    if count_char(current, ' ') > current_bytes / 2 {
        return SpoofingPattern::SpacePadding;
    }
    if original_bytes > 20 && current_bytes < original_bytes / 2 && length_between(
        original_bytes,
        current_bytes,
    ) >= min_length_diff {
        return SpoofingPattern::Truncation;
    }
    let original_blank = is_blank(original);
    let current_blank = is_blank(current);
    if current_blank && !original_blank {
        return SpoofingPattern::NullPadding;
    }
    if known {
        return SpoofingPattern::KnownToolSignature;
    }
    let original_words = distinct_words(original);
    let current_words = distinct_words(current);
    let common = shares_a_word(&original_words, &current_words);
    proof {
        assert(forall|w: Seq<char>| #[trigger]
            original_words@.contains(w) <==> words(original@).contains(w));
        assert(forall|w: Seq<char>| #[trigger]
            current_words@.contains(w) <==> words(current@).contains(w));
        if common {
            let w = choose|w: Seq<char>| #[trigger]
                original_words@.contains(w) && current_words@.contains(w);
            assert(words(original@).contains(w) && words(current@).contains(w));
        }
        if share_a_word(original@, current@) {
            let w = choose|w: Seq<char>| #[trigger]
                words(original@).contains(w) && words(current@).contains(w);
            assert(original_words@.contains(w) && current_words@.contains(w));
        }
        assert(common == share_a_word(original@, current@));
    }
    if !common && !original_blank && !current_blank {
        return SpoofingPattern::CompleteReplacement;
    }
    if common && original_words.len() > current_words.len() {
        return SpoofingPattern::ArgumentSubstitution;
    }
    if holds_odd_characters(current) {
        return SpoofingPattern::SuspiciousCharacters;
    }
    SpoofingPattern::GenericModification
}

fn confidence_of_change(
    min_length_diff: usize,
    original: &str,
    current: &str,
    alike: u32,
    pattern: SpoofingPattern,
) -> (r: u32)
    requires
        alike <= ONE,
    ensures
        r == change_confidence(min_length_diff, original@, current@, alike, pattern),
        r <= ONE,
{
    let base: u32 = ONE - alike;
    let first: u32 = match pattern {
        SpoofingPattern::KnownToolSignature => if base >= 950_000 {
            base
        } else {
            950_000
        },
        SpoofingPattern::SpacePadding | SpoofingPattern::NullPadding => if base >= 900_000 {
            base
        } else {
            900_000
        },
        SpoofingPattern::Truncation => raise(base, 100_000),
        SpoofingPattern::CompleteReplacement => raise(base, 150_000),
        _ => base,
    };
    let apart: usize = length_between(original.as_bytes().len(), current.as_bytes().len());
    let second: u32 = if apart > 50 && apart >= min_length_diff {
        raise(first, 100_000)
    } else {
        first
    };
    if contains_any(to_lowercase(original).as_str(), &SUSPICIOUS_KEYWORDS) {
        raise(second, 50_000)
    } else {
        second
    }
}

fn compare_cmdlines(
    limits: Limits,
    entry: &ProcessCacheEntry,
    current: String,
    is_elevated: bool,
    is_signed: bool,
    memory_region: Option<MemoryRegionInfo>,
    pid: u32,
    now: u64,
) -> (r: Option<CmdlineSpoofingAlert>)
    ensures
        alert_view(r) == compared(
            limits,
            entry@,
            current@,
            ReadingModel {
                pid,
                current: Some(current@),
                is_elevated,
                is_signed,
                memory_region: region_view(memory_region),
                now,
            },
        ),
{
    let original = entry.original_cmdline.as_str();
    let a = EnhancedCmdlineSpoofingDetector::normalize_cmdline(original);
    let b = EnhancedCmdlineSpoofingDetector::normalize_cmdline(current.as_str());
    if same(a.as_str(), b.as_str()) {
        return None;
    }
    let alike: u32 = likeness(a.as_str(), b.as_str());
    if alike >= limits.similarity_threshold {
        return None;
    }
    let pattern = identify_pattern(limits.min_length_diff, original, current.as_str());
    let confidence: u32 = confidence_of_change(
        limits.min_length_diff,
        original,
        current.as_str(),
        alike,
        pattern,
    );
    let time_to_detection_ms: u64 = if now >= entry.process_start_time {
        now - entry.process_start_time
    } else {
        0
    };
    Some(
        CmdlineSpoofingAlert {
            pid,
            process_name: entry.name.clone(),
            process_path: entry.path.clone(),
            original_cmdline: entry.original_cmdline.clone(),
            original_length: original.as_bytes().len(),
            current_length: current.as_str().as_bytes().len(),
            current_cmdline: current,
            similarity_score: alike,
            detection_method: DetectionMethod::PebValidation,
            spoofing_pattern: pattern,
            confidence,
            detected_at_ms: now,
            context: SpoofingContext {
                parent_pid: entry.parent_pid,
                parent_name: entry.parent_name.clone(),
                is_elevated,
                is_signed,
                process_start_time: entry.process_start_time,
                time_to_detection_ms,
                memory_region,
            },
        },
    )
}

proof fn lemma_removed_distinct(entries: Seq<EntryModel>, i: int)
    requires
        distinct(entries),
        0 <= i < entries.len(),
    ensures
        distinct(entries.remove(i)),
{
    let left = entries.remove(i);
    assert forall|a: int, b: int| 0 <= a < b < left.len() implies (#[trigger] left[a]).pid != (
    #[trigger] left[b]).pid by {
        let x = if a < i {
            a
        } else {
            a + 1
        };
        let y = if b < i {
            b
        } else {
            b + 1
        };
        assert(left[a] == entries[x]);
        assert(left[b] == entries[y]);
    }
}

proof fn lemma_updated_distinct(entries: Seq<EntryModel>, i: int, entry: EntryModel)
    requires
        distinct(entries),
        0 <= i < entries.len(),
        entries[i].pid == entry.pid,
    ensures
        distinct(entries.update(i, entry)),
{
    let new = entries.update(i, entry);
    assert forall|a: int, b: int| 0 <= a < b < new.len() implies (#[trigger] new[a]).pid != (
    #[trigger] new[b]).pid by {
        assert(new[a].pid == entries[a].pid);
        assert(new[b].pid == entries[b].pid);
    }
}

proof fn lemma_entry_distinct(entries: Seq<EntryModel>, entry: EntryModel)
    requires
        distinct(entries),
    ensures
        distinct(with_entry(entries, entry)),
{
    lemma_first_index(entries, of_process(entry.pid));
    match position(entries, entry.pid) {
        Some(i) => {
            lemma_updated_distinct(entries, i, entry);
        },
        None => {
            let new = entries.push(entry);
            assert forall|a: int, b: int| 0 <= a < b < new.len() implies (#[trigger] new[a]).pid
                != (#[trigger] new[b]).pid by {
                assert(new[a] == entries[a]);
                assert(!of_process(entry.pid)(entries[a]));
                if b < entries.len() {
                    assert(new[b] == entries[b]);
                }
            }
        },
    }
}

/// Dropping the oldest entries keeps none that is older than one dropped.
pub proof fn law_the_newest_stay(entries: Seq<EntryModel>, n: nat, gone: int, kept: int)
    requires
        distinct(entries),
        0 <= gone < entries.len(),
        entry_of(evicted(entries, n), entries[gone].pid) is None,
        0 <= kept < evicted(entries, n).len(),
    ensures
        entries[gone].created_at <= evicted(entries, n)[kept].created_at,
    decreases n,
{
    lemma_evicted_members(entries, n);
    let left = evicted(entries, n);
    if n == 0 || entries.len() == 0 {
        lemma_first_index(entries, of_process(entries[gone].pid));
        assert(of_process(entries[gone].pid)(entries[gone]));
    } else {
        let i = oldest(entries, entries.len());
        lemma_oldest(entries, entries.len());
        let rest = entries.remove(i);
        lemma_removed_distinct(entries, i);
        if gone == i {
            assert(entries.contains(left[kept]));
            let k = choose|k: int| 0 <= k < entries.len() && entries[k] == left[kept];
            assert(entries[i].created_at <= entries[k].created_at);
        } else {
            let next = if gone < i {
                gone
            } else {
                gone - 1
            };
            assert(rest[next] == entries[gone]);
            law_the_newest_stay(rest, (n - 1) as nat, next, kept);
        }
    }
}

proof fn lemma_oldest(entries: Seq<EntryModel>, n: nat)
    requires
        1 <= n <= entries.len(),
    ensures
        0 <= oldest(entries, n) < n,
        forall|j: int|
            0 <= j < n ==> entries[oldest(entries, n)].created_at <= (
            #[trigger] entries[j]).created_at,
    decreases n,
{
    if n > 1 {
        lemma_oldest(entries, (n - 1) as nat);
    }
}

proof fn lemma_evicted_members(entries: Seq<EntryModel>, n: nat)
    ensures
        forall|k: int|
            0 <= k < evicted(entries, n).len() ==> entries.contains(
                #[trigger] evicted(entries, n)[k],
            ),
        evicted(entries, n).len() == if n <= entries.len() {
            entries.len() - n
        } else {
            0
        },
    decreases n,
{
    if n == 0 || entries.len() == 0 {
    } else {
        let i = oldest(entries, entries.len());
        lemma_oldest(entries, entries.len());
        let rest = entries.remove(i);
        lemma_evicted_members(rest, (n - 1) as nat);
        assert forall|k: int| 0 <= k < evicted(entries, n).len() implies entries.contains(
            #[trigger] evicted(entries, n)[k],
        ) by {
            let e = evicted(rest, (n - 1) as nat)[k];
            assert(rest.contains(e));
            let j = choose|j: int| 0 <= j < rest.len() && rest[j] == e;
            if j < i {
                assert(entries[j] == e);
            } else {
                assert(entries[j + 1] == e);
            }
        }
    }
}

/// No more processes are followed than the settings allow, where they allow any.
pub proof fn law_followed_processes_are_bounded(
    m: DetectorModel,
    names: Seq<Seq<char>>,
    max: usize,
    entry: EntryModel,
)
    requires
        m.entries.len() <= max,
        max >= 1,
    ensures
        after_record(m, names, max, entry).entries.len() <= max,
{
    lemma_evicted_members(m.entries, room(max));
    lemma_first_index(with_room(m.entries, max), of_process(entry.pid));
}

/// A process that was recorded is followed, with what was recorded of it; one
/// that is left alone changes nothing.
pub proof fn law_recorded_process_is_followed(
    m: DetectorModel,
    names: Seq<Seq<char>>,
    max: usize,
    entry: EntryModel,
)
    ensures
        if excluded(names, entry.name) {
            after_record(m, names, max, entry) == m
        } else {
            entry_of(after_record(m, names, max, entry).entries, entry.pid) == Some(entry)
        },
{
    let room = with_room(m.entries, max);
    lemma_first_index(room, of_process(entry.pid));
    let new = with_entry(room, entry);
    match position(room, entry.pid) {
        Some(i) => {
            assert forall|j: int| 0 <= j < i implies !of_process(entry.pid)(#[trigger] new[j]) by {
                assert(!of_process(entry.pid)(room[j]));
            }
            lemma_first_index_is(new, of_process(entry.pid), i);
        },
        None => {
            assert forall|j: int| 0 <= j < room.len() implies !of_process(entry.pid)(
                #[trigger] new[j],
            ) by {
                assert(!of_process(entry.pid)(room[j]));
            }
            lemma_first_index_is(new, of_process(entry.pid), room.len() as int);
        },
    }
}

/// A process that was removed is no longer followed.
pub proof fn law_removed_process_is_not_followed(m: DetectorModel, pid: u32)
    requires
        distinct(m.entries),
    ensures
        entry_of(without_process(m, pid).entries, pid) is None,
{
    lemma_first_index(m.entries, of_process(pid));
    let left = without_process(m, pid).entries;
    lemma_first_index(left, of_process(pid));
    match position(m.entries, pid) {
        Some(i) => {
            if let Some(k) = position(left, pid) {
                let j = if k < i {
                    k
                } else {
                    k + 1
                };
                assert(left[k] == m.entries[j]);
                assert(of_process(pid)(left[k]));
                if j < i {
                    assert(m.entries[j].pid != m.entries[i].pid);
                } else {
                    assert(m.entries[i].pid != m.entries[j].pid);
                }
            }
        },
        None => {},
    }
}

/// A process whose command line differs in nothing but white space and the case
/// of letters is not reported.
pub proof fn law_unchanged_command_line_is_silent(
    m: DetectorModel,
    limits: Limits,
    reading: ReadingModel,
)
    requires
        entry_of(m.entries, reading.pid) matches Some(entry) && reading.current matches Some(
            current,
        ) && normalized(entry.original_cmdline) == normalized(current),
    ensures
        judged(m, limits, reading) is None,
{
}

/// What is reported is less alike than the threshold, and is reported with a
/// confidence of at most certainty.
pub proof fn law_reports_are_below_the_threshold(
    m: DetectorModel,
    limits: Limits,
    reading: ReadingModel,
)
    ensures
        judged(m, limits, reading) matches Some(alert) ==> alert.similarity_score
            < limits.similarity_threshold && alert.similarity_score < ONE && alert.confidence
            <= ONE,
{
    if let Some(alert) = judged(m, limits, reading) {
        law_similarity_is_symmetric(
            normalized(alert.original_cmdline),
            normalized(alert.current_cmdline),
        );
        law_only_equal_texts_are_alike(
            normalized(alert.original_cmdline),
            normalized(alert.current_cmdline),
        );
    }
}

/// What is still followed after the dead were dropped lives.
pub proof fn law_the_dead_are_dropped(
    entries: Seq<EntryModel>,
    live: Seq<u32>,
    ttl_secs: u64,
    now: u64,
    pid: u32,
)
    requires
        !live.contains(pid),
    ensures
        entry_of(entries.filter(still_followed(live, ttl_secs, now)), pid) is None,
{
    let q = still_followed(live, ttl_secs, now);
    lemma_filter_members(entries, q);
    let left = entries.filter(q);
    lemma_first_index(left, of_process(pid));
    if let Some(k) = position(left, pid) {
        assert(q(left[k]));
        assert(of_process(pid)(left[k]));
    }
}

/// The command line that the bytes of a process list: its parts stand between
/// nulls, and those that are no text are left out.
pub open spec fn listed_parts(bytes: Seq<u8>, n: nat, start: nat) -> Seq<Seq<char>>
    decreases bytes.len() - n,
    when n <= bytes.len()
{
    if n == bytes.len() {
        text_part(bytes.subrange(start as int, n as int))
    } else if bytes[n as int] == 0 {
        text_part(bytes.subrange(start as int, n as int)) + listed_parts(bytes, n + 1, n + 1)
    } else {
        listed_parts(bytes, n + 1, start)
    }
}

/// A part, where its bytes are a text.
pub open spec fn text_part(bytes: Seq<u8>) -> Seq<Seq<char>> {
    if vstd::utf8::valid_utf8(bytes) {
        seq![vstd::utf8::decode_utf8(bytes)]
    } else {
        Seq::empty()
    }
}

/// The command line that the bytes of a process list, if there is one.
pub open spec fn listed_cmdline(bytes: Seq<u8>) -> Option<Seq<char>> {
    let line = joined(listed_parts(bytes, 0, 0), " "@);
    if line.len() == 0 {
        None
    } else {
        Some(line)
    }
}

/// The command line that the bytes of a process list, if there is one.
pub fn cmdline_from_bytes(bytes: &[u8]) -> (r: Option<String>)
    ensures
        crate::text::opt_text(r) == listed_cmdline(bytes@),
{
    let ghost goal = listed_parts(bytes@, 0, 0);
    let mut parts: Vec<String> = Vec::new();
    let mut start: usize = 0;
    let mut n: usize = 0;
    assert(texts(parts@) =~= Seq::empty());
    assert(texts(parts@) + listed_parts(bytes@, 0, 0) =~= goal);
    while n < bytes.len()
        invariant
            start <= n <= bytes@.len(),
            texts(parts@) + listed_parts(bytes@, n as nat, start as nat) == goal,
        decreases bytes@.len() - n,
    {
        if bytes[n] == 0 {
            let ghost before = texts(parts@);
            push_part(&mut parts, vstd::slice::slice_subrange(bytes, start, n));
            assert(texts(parts@) + listed_parts(bytes@, (n + 1) as nat, (n + 1) as nat) =~= before
                + listed_parts(bytes@, n as nat, start as nat));
            start = n + 1;
        }
        n += 1;
    }
    let ghost before = texts(parts@);
    push_part(&mut parts, vstd::slice::slice_subrange(bytes, start, n));
    assert(texts(parts@) =~= before + listed_parts(bytes@, n as nat, start as nat));
    let line = join(&parts, " ");
    if line.as_str().is_empty() {
        None
    } else {
        Some(line)
    }
}

fn push_part(parts: &mut Vec<String>, bytes: &[u8])
    ensures
        texts(final(parts)@) == texts(old(parts)@) + text_part(bytes@),
{
    let ghost before = texts(parts@);
    match from_utf8(bytes) {
        Some(text) => {
            push_text(parts, text);
            assert(texts(parts@) =~= before + text_part(bytes@));
        },
        None => {
            assert(texts(parts@) =~= before + text_part(bytes@));
        },
    }
}

/// A process that is followed and could be read is reported exactly where the words of
/// its command lines, whatever white space stands between them and whatever the case of
/// letters, differ and are less alike than the threshold. Nothing else is reported.
pub proof fn law_changes_are_reported(m: DetectorModel, limits: Limits, reading: ReadingModel)
    ensures
        judged(m, limits, reading) is Some <==> (exists|entry: EntryModel, current: Seq<char>|
            entry_of(m.entries, reading.pid) == Some(entry) && reading.current == Some(current) && {
                let then = lowercase(joined(words(#[trigger] entry.original_cmdline), " "@));
                let now = lowercase(joined(#[trigger] words(current), " "@));
                then != now && similarity(then, now) < limits.similarity_threshold
            }),
{
    if let (Some(entry), Some(current)) = (entry_of(m.entries, reading.pid), reading.current) {
        let then = lowercase(joined(words(entry.original_cmdline), " "@));
        let now = lowercase(joined(words(current), " "@));
        assert(then == normalized(entry.original_cmdline) && now == normalized(current));
    }
}

/// An alert says of which process it is, by what its record says, and what its command
/// line was and is.
pub proof fn law_alerts_tell_of_the_process(m: DetectorModel, limits: Limits, reading: ReadingModel)
    ensures
        judged(m, limits, reading) matches Some(alert) ==> {
            &&& entry_of(m.entries, reading.pid) matches Some(entry)
            &&& alert.pid == reading.pid
            &&& alert.process_name == entry.name
            &&& alert.process_path == entry.path
            &&& alert.original_cmdline == entry.original_cmdline
            &&& Some(alert.current_cmdline) == reading.current
            &&& alert.original_length == bytes_of(entry.original_cmdline)
            &&& alert.current_length == bytes_of(alert.current_cmdline)
            &&& alert.similarity_score == similarity(
                lowercase(joined(words(alert.original_cmdline), " "@)),
                lowercase(joined(words(alert.current_cmdline), " "@)),
            )
            &&& alert.detected_at_ms == reading.now
            &&& alert.context.parent_pid == entry.parent_pid
            &&& alert.context.parent_name == entry.parent_name
            &&& alert.context.is_elevated == reading.is_elevated
            &&& alert.context.is_signed == reading.is_signed
            &&& alert.context.memory_region == reading.memory_region
            &&& reading.now >= entry.process_start_time ==> entry.process_start_time
                + alert.context.time_to_detection_ms == reading.now
        },
{
}

/// What each pattern means. The first that fits counts: mostly spaces; cut to less than
/// half, where it was longer than twenty bytes and the change is as long as counts;
/// blank where it was not; marked by a known tool; no word left; some words left and
/// fewer different ones; odd characters.
pub proof fn law_patterns_mean(min_length_diff: usize, original: Seq<char>, current: Seq<char>)
    ensures
        ({
            let pattern = spoofing_pattern(min_length_diff, original, current);
            let padded = 2 * char_count(current, ' ', current.len()) > bytes_of(current);
            let cut = bytes_of(original) > 20 && 2 * bytes_of(current) + 2 <= bytes_of(original)
                && bytes_of(original) - bytes_of(current) >= min_length_diff;
            let emptied = blank(current) && !blank(original);
            let known = known_tool(original, current);
            let shared = exists|w: Seq<char>|
                #[trigger] words(original).contains(w) && words(current).contains(w);
            &&& pattern == SpoofingPattern::SpacePadding <==> padded
            &&& pattern == SpoofingPattern::Truncation <==> !padded && cut
            &&& pattern == SpoofingPattern::NullPadding <==> !padded && !cut && emptied
            &&& pattern == SpoofingPattern::KnownToolSignature <==> !padded && !cut && !emptied
                && known
            &&& pattern == SpoofingPattern::CompleteReplacement <==> !padded && !cut && !known
                && !shared && !blank(original) && !blank(current)
            &&& pattern == SpoofingPattern::ArgumentSubstitution <==> !padded && !cut && !known
                && shared && words(original).to_set().len() > words(current).to_set().len()
            &&& pattern == SpoofingPattern::SuspiciousCharacters ==> odd_characters(current)
            &&& pattern == SpoofingPattern::GenericModification ==> !odd_characters(current)
        }),
{
    let shared = exists|w: Seq<char>|
        #[trigger] words(original).contains(w) && words(current).contains(w);
    assert(shared == share_a_word(original, current));
    if shared {
        let w = choose|w: Seq<char>|
            #[trigger] words(original).contains(w) && words(current).contains(w);
        assert(words(current).len() > 0 && words(original).len() > 0);
        law_blank_text_has_no_words(original);
        law_blank_text_has_no_words(current);
    }
}

/// How sure a finding is: as far from alike as the command lines are, at least as sure
/// as its pattern is by itself, and surer where it is cut or replaced, where more than
/// fifty bytes changed, and where the command line at the start held a suspicious word;
/// never more than certain.
pub proof fn law_confidence_adds_up(
    min_length_diff: usize,
    original: Seq<char>,
    current: Seq<char>,
    alike: u32,
    pattern: SpoofingPattern,
)
    requires
        alike <= 1_000_000,
    ensures
        ({
            let sure = change_confidence(min_length_diff, original, current, alike, pattern);
            let base = 1_000_000 - alike;
            let least: int = match pattern {
                SpoofingPattern::KnownToolSignature => 950_000,
                SpoofingPattern::SpacePadding => 900_000,
                SpoofingPattern::NullPadding => 900_000,
                _ => 0,
            };
            let more: int = match pattern {
                SpoofingPattern::Truncation => 100_000,
                SpoofingPattern::CompleteReplacement => 150_000,
                _ => 0,
            };
            let grown: int = bytes_of(current) - bytes_of(original);
            let far = (grown > 50 || grown < -50) && (grown >= min_length_diff || -grown
                >= min_length_diff);
            let word = exists|k: int|
                0 <= k < SUSPICIOUS_KEYWORDS@.len() && occurs(
                    #[trigger] SUSPICIOUS_KEYWORDS@[k]@,
                    lowercase(original),
                );
            let sum = (if base >= least {
                base
            } else {
                least
            }) + more + (if far {
                100_000int
            } else {
                0
            }) + (if word {
                50_000int
            } else {
                0
            });
            sure == if sum >= 1_000_000 {
                1_000_000
            } else {
                sum
            }
        }),
{
    assert(any_occurs(SUSPICIOUS_KEYWORDS@, lowercase(original)) == (exists|k: int|
        0 <= k < SUSPICIOUS_KEYWORDS@.len() && occurs(
            #[trigger] SUSPICIOUS_KEYWORDS@[k]@,
            lowercase(original),
        )));
}

/// Looking at a process changes nothing of what is found later, in it or in another.
pub proof fn law_looking_changes_no_judgement(
    m: DetectorModel,
    limits: Limits,
    first: ReadingModel,
    second: ReadingModel,
)
    ensures
        judged(after_reading(m, limits, first), limits, second) == judged(m, limits, second),
{
    let after = after_reading(m, limits, first);
    lemma_first_index(m.entries, of_process(second.pid));
    lemma_first_index(m.entries, of_process(first.pid));
    lemma_first_index(after.entries, of_process(second.pid));
    assert(after.entries.len() == m.entries.len());
    assert(forall|i: int|
        0 <= i < m.entries.len() ==> (#[trigger] after.entries[i]).pid == m.entries[i].pid);
    match position(m.entries, second.pid) {
        Some(k) => {
            assert forall|j: int| 0 <= j < k implies !of_process(second.pid)(
                #[trigger] after.entries[j],
            ) by {
                assert(!of_process(second.pid)(m.entries[j]));
            }
            assert(of_process(second.pid)(after.entries[k]));
            lemma_first_index_is(after.entries, of_process(second.pid), k);
        },
        None => {
            if position(after.entries, second.pid) is Some {
                let k = position(after.entries, second.pid)->0;
                assert(!of_process(second.pid)(m.entries[k]));
            }
        },
    }
}

/// Each reading of many is judged as if it were the only one.
pub proof fn law_readings_are_judged_one_by_one(
    m: DetectorModel,
    limits: Limits,
    readings: Seq<ReadingModel>,
    n: nat,
    alert: AlertModel,
)
    requires
        n <= readings.len(),
    ensures
        batch_alerts(m, limits, readings, n).contains(alert) <==> exists|i: int|
            0 <= i < n && judged(m, limits, #[trigger] readings[i]) == Some(alert),
    decreases n,
{
    if n > 0 {
        law_readings_are_judged_one_by_one(m, limits, readings, (n - 1) as nat, alert);
        lemma_judged_after(m, limits, readings, (n - 1) as nat, readings[n - 1]);
        let before = batch_alerts(m, limits, readings, (n - 1) as nat);
        let after = batch_alerts(m, limits, readings, n);
        if before.contains(alert) {
            let k = choose|k: int| 0 <= k < before.len() && before[k] == alert;
            assert(after[k] == alert);
            let i = choose|i: int|
                0 <= i < n - 1 && judged(m, limits, #[trigger] readings[i]) == Some(alert);
            assert(judged(m, limits, readings[i]) == Some(alert));
        }
        if judged(m, limits, readings[n - 1]) == Some(alert) {
            assert(after.last() == alert);
        }
        if after.contains(alert) && !before.contains(alert) {
            let k = choose|k: int| 0 <= k < after.len() && after[k] == alert;
            if k < before.len() {
                assert(before[k] == alert);
            }
            assert(judged(m, limits, readings[n - 1]) == Some(alert));
        }
        if exists|i: int| 0 <= i < n && judged(m, limits, #[trigger] readings[i]) == Some(alert) {
            let i = choose|i: int|
                0 <= i < n && judged(m, limits, #[trigger] readings[i]) == Some(alert);
            if i < n - 1 {
                assert(judged(m, limits, readings[i]) == Some(alert));
                assert(before.contains(alert));
            }
        }
    }
}

proof fn lemma_judged_after(
    m: DetectorModel,
    limits: Limits,
    readings: Seq<ReadingModel>,
    n: nat,
    reading: ReadingModel,
)
    ensures
        judged(after_readings(m, limits, readings, n), limits, reading) == judged(
            m,
            limits,
            reading,
        ),
    decreases n,
{
    if n > 0 {
        lemma_judged_after(m, limits, readings, (n - 1) as nat, reading);
        law_looking_changes_no_judgement(
            after_readings(m, limits, readings, (n - 1) as nat),
            limits,
            readings[n - 1],
            reading,
        );
    }
}

/// Who lives and was recorded no longer ago than is kept is still followed, and no one
/// else is.
pub proof fn law_the_living_stay(
    entries: Seq<EntryModel>,
    live: Seq<u32>,
    ttl_secs: u64,
    now: u64,
    e: EntryModel,
)
    ensures
        entries.filter(still_followed(live, ttl_secs, now)).contains(e) <==> entries.contains(e)
            && live.contains(e.pid) && now - e.created_at <= ttl_secs * 1000,
{
    let q = still_followed(live, ttl_secs, now);
    let left = entries.filter(q);
    lemma_filter_members(entries, q);
    if left.contains(e) {
        let k = choose|k: int| 0 <= k < left.len() && left[k] == e;
        assert(q(left[k]));
    }
    if entries.contains(e) && live.contains(e.pid) && now - e.created_at <= ttl_secs * 1000 {
        let k = choose|k: int| 0 <= k < entries.len() && entries[k] == e;
        assert(q(entries[k]));
    }
}

/// A known tool is found by its mark: the names of two tools, a command that misuses a
/// program of the system and an encoded command, where they stood in the command line at
/// the start and are gone; and a command line of nothing but space.
pub proof fn law_tools_leave_their_marks(original: Seq<char>, current: Seq<char>)
    ensures
        ({
            let gone = |pattern: Seq<char>|
                regex_search(pattern, original) == Some(true) && regex_search(pattern, current)
                    == Some(false);
            known_tool(original, current) <==> gone("(?i)beacon|cobaltstrike|\\.cna"@) || gone(
                "(?i)meterpreter|metsvc|reverse_tcp"@,
            ) || gone("(?i)regsvr32.*scrobj|rundll32.*javascript|mshta.*vbscript"@) || gone(
                "(?i)-e(nc(odedcommand)?)?[ ]+[A-Za-z0-9+/=]{50,}"@,
            ) || regex_search("^\\s{10,}$"@, current) == Some(true)
        }),
{
    let t = KNOWN_SIGNATURES@;
    assert(t.len() == 5);
    let at = |i: int| marked(t[i].1@, t[i].2, original, current);
    assert(at(0) || at(1) || at(2) || at(3) || at(4) ==> known_tool(original, current)) by {
        assert(at(0) ==> marked(t[0].1@, t[0].2, original, current));
        assert(at(1) ==> marked(t[1].1@, t[1].2, original, current));
        assert(at(2) ==> marked(t[2].1@, t[2].2, original, current));
        assert(at(3) ==> marked(t[3].1@, t[3].2, original, current));
        assert(at(4) ==> marked(t[4].1@, t[4].2, original, current));
    }
    if known_tool(original, current) {
        let i = choose|i: int|
            0 <= i < KNOWN_SIGNATURES@.len() && #[trigger] marked(
                KNOWN_SIGNATURES@[i].1@,
                KNOWN_SIGNATURES@[i].2,
                original,
                current,
            );
        assert(i == 0 || i == 1 || i == 2 || i == 3 || i == 4);
    }
}

proof fn lemma_parts_shift(front: Seq<u8>, bytes: Seq<u8>, n: nat, start: nat)
    requires
        start <= n <= bytes.len(),
    ensures
        listed_parts(front + bytes, front.len() + n, front.len() + start) == listed_parts(
            bytes,
            n,
            start,
        ),
    decreases bytes.len() - n,
{
    let whole = front + bytes;
    assert(whole.subrange((front.len() + start) as int, (front.len() + n) as int)
        =~= bytes.subrange(start as int, n as int));
    if n < bytes.len() {
        assert(whole[(front.len() + n) as int] == bytes[n as int]);
        if bytes[n as int] == 0 {
            lemma_parts_shift(front, bytes, n + 1, n + 1);
        } else {
            lemma_parts_shift(front, bytes, n + 1, start);
        }
    }
}

proof fn lemma_first_part(bytes: Seq<u8>, n: nat, k: nat)
    requires
        n <= k <= bytes.len(),
        forall|i: int| n <= i < k ==> (#[trigger] bytes[i]) != 0,
    ensures
        listed_parts(bytes, n, 0) == listed_parts(bytes, k, 0),
    decreases k - n,
{
    if n < k {
        assert(bytes[n as int] != 0);
        lemma_first_part(bytes, n + 1, k);
    }
}

/// The parts of a listed command line stand between nulls: what is a text in front of the
/// first is the first part, and what is none is left out; the parts of what follows are
/// the others.
pub proof fn law_parts_stand_between_nulls(part: Seq<char>, bytes: Seq<u8>, rest: Seq<u8>)
    requires
        !bytes.contains(0u8),
    ensures
        ({
            let first = listed_parts(bytes, 0, 0);
            &&& bytes == vstd::utf8::encode_utf8(part) ==> first == seq![part]
            &&& !vstd::utf8::valid_utf8(bytes) ==> first.len() == 0
            &&& listed_parts(bytes + (seq![0u8] + rest), 0, 0) == first + listed_parts(rest, 0, 0)
        }),
{
    let n = bytes.len();
    assert forall|i: int| 0 <= i < n implies (#[trigger] bytes[i]) != 0 by {
        assert(bytes.contains(bytes[i]));
    }
    lemma_first_part(bytes, 0, n);
    assert(bytes.subrange(0, n as int) =~= bytes);
    if bytes == vstd::utf8::encode_utf8(part) {
        vstd::utf8::encode_utf8_valid_utf8(part);
        vstd::utf8::encode_utf8_decode_utf8(part);
    }
    let whole = bytes + (seq![0u8] + rest);
    assert forall|i: int| 0 <= i < n implies (#[trigger] whole[i]) != 0 by {
        assert(whole[i] == bytes[i]);
    }
    lemma_first_part(whole, 0, n);
    assert(whole[n as int] == 0);
    assert(whole.subrange(0, n as int) =~= bytes);
    let front = bytes + seq![0u8];
    assert(whole =~= front + rest);
    lemma_parts_shift(front, rest, 0, 0);
}

} // verus!
