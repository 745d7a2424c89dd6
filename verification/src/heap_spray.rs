//! Detection of heap sprays: memory that is filled with many copies of one
//! content, so that an exploit lands in one of them.
use std::collections::hash_map::DefaultHasher;
use std::collections::HashMap;
use std::collections::HashSet;
use std::collections::VecDeque;
use std::hash::Hasher;

use vstd::prelude::*;
use vstd::std_specs::hash::DefaultHasherAdditionalSpecFns;
use vstd::utf8::is_ascii_chars;

use crate::bytes::{count_bytes, find_bytes, found, le32, matches_at, occurrences, read_le32};
use crate::collect::{
    count_where, first_index, lemma_filter_distinct, lemma_filter_members, lemma_filter_nothing,
    lemma_filter_step, position_where, retain,
};
use crate::telemetry::{
    current_timestamp, detections_view, Detection, DetectionModel, DetectionType, EventPayload,
    EventType, MemoryPermissionEvent, MemoryPermissionModel, Severity, TelemetryEvent, ONE,
};
use crate::text::{
    ascii_lowered, contains, decimal, decimal_text, hex_padded_text, hex_upper, hex_upper_text,
    holds, hundredths, hundredths_text, join, joined, lowercase, occurs, opt_text, owned, padded,
    push_text, round_to, rounded, str_texts, tenths, tenths_text, texts, to_lowercase,
};

verus! {

broadcast use vstd::std_specs::hash::group_hash_axioms;

/// Addresses that sprays aim at.
pub const SPRAY_TARGET_ADDRESSES: [u64; 12] = [
    0x0c0c0c0c,
    0x0d0d0d0d,
    0x0a0a0a0a,
    0x04040404,
    0x05050505,
    0x06060606,
    0x07070707,
    0x08080808,
    0x0b0b0b0b,
    0x0e0e0e0e,
    0x41414141,
    0x42424242,
];

/// Block sizes that sprays use.
pub const COMMON_SPRAY_SIZES: [usize; 12] = [
    0x10000,
    0x20000,
    0x40000,
    0x80000,
    0x100000,
    0x200000,
    0x1000,
    0x2000,
    0x4000,
    0x8000,
    0xFFFF0,
    0x7FFE0,
];

/// Block sizes that script engines' sprays use.
pub const JS_SPRAY_SIZES: [usize; 7] = [
    0x10000,
    0x20000,
    0x40000,
    0x80000,
    0xFFFC,
    0x1FFFC,
    0x3FFFC,
];

/// Processes that allocate many similar regions as a matter of course.
pub const EXCLUDED_PROCESSES: [&'static str; 6] = [
    "chrome.exe",
    "firefox.exe",
    "msedge.exe",
    "sqlservr.exe",
    "java.exe",
    "javaw.exe",
];

/// How long an allocation is tracked, in milliseconds.
pub const ALLOCATION_LIFETIME_MS: u64 = 60_000;

/// How often the detector tidies up at most, in milliseconds.
pub const CLEANUP_INTERVAL_MS: u64 = 30_000;

/// The kind of a spray.
#[derive(Clone, Copy, Debug, PartialEq, Eq, Structural, Hash)]
pub enum SprayType {
    NopSled,
    BrowserSpray,
    JavaScriptSpray,
    ShellcodeSpray,
    RopGadgetSpray,
    GenericSpray,
    VBScriptSpray,
    TypedArraySpray,
    Unknown,
}

impl SprayType {
    /// The name of the kind.
    pub open spec fn spec_as_str(&self) -> Seq<char> {
        match self {
            SprayType::NopSled => "nop_sled"@,
            SprayType::BrowserSpray => "browser_spray"@,
            SprayType::JavaScriptSpray => "javascript_spray"@,
            SprayType::ShellcodeSpray => "shellcode_spray"@,
            SprayType::RopGadgetSpray => "rop_gadget_spray"@,
            SprayType::GenericSpray => "generic_spray"@,
            SprayType::VBScriptSpray => "vbscript_spray"@,
            SprayType::TypedArraySpray => "typed_array_spray"@,
            SprayType::Unknown => "unknown"@,
        }
    }

    /// What the kind is.
    pub open spec fn spec_description(&self) -> Seq<char> {
        match self {
            SprayType::NopSled => "Classic NOP sled heap spray detected"@,
            SprayType::BrowserSpray => "Browser-specific heap spray (OR AL pattern)"@,
            SprayType::JavaScriptSpray => "JavaScript string/array heap spray"@,
            SprayType::ShellcodeSpray => "Heap spray with embedded shellcode"@,
            SprayType::RopGadgetSpray => "ROP gadget chain heap spray"@,
            SprayType::GenericSpray => "Generic repetitive allocation spray"@,
            SprayType::VBScriptSpray => "VBScript-based heap spray"@,
            SprayType::TypedArraySpray => "TypedArray-based heap spray"@,
            SprayType::Unknown => "Unknown heap spray type"@,
        }
    }

    /// How severe the kind is.
    pub open spec fn spec_severity(&self) -> Severity {
        match self {
            SprayType::NopSled => Severity::High,
            SprayType::BrowserSpray => Severity::High,
            SprayType::JavaScriptSpray => Severity::High,
            SprayType::ShellcodeSpray => Severity::Critical,
            SprayType::RopGadgetSpray => Severity::Critical,
            SprayType::GenericSpray => Severity::High,
            SprayType::VBScriptSpray => Severity::High,
            SprayType::TypedArraySpray => Severity::High,
            SprayType::Unknown => Severity::Medium,
        }
    }

    /// The name of the kind.
    pub fn as_str(&self) -> (r: &'static str)
        ensures
            r@ == self.spec_as_str(),
    {
        match self {
            SprayType::NopSled => "nop_sled",
            SprayType::BrowserSpray => "browser_spray",
            SprayType::JavaScriptSpray => "javascript_spray",
            SprayType::ShellcodeSpray => "shellcode_spray",
            SprayType::RopGadgetSpray => "rop_gadget_spray",
            SprayType::GenericSpray => "generic_spray",
            SprayType::VBScriptSpray => "vbscript_spray",
            SprayType::TypedArraySpray => "typed_array_spray",
            SprayType::Unknown => "unknown",
        }
    }

    /// What the kind is.
    pub fn description(&self) -> (r: &'static str)
        ensures
            r@ == self.spec_description(),
    {
        match self {
            SprayType::NopSled => "Classic NOP sled heap spray detected",
            SprayType::BrowserSpray => "Browser-specific heap spray (OR AL pattern)",
            SprayType::JavaScriptSpray => "JavaScript string/array heap spray",
            SprayType::ShellcodeSpray => "Heap spray with embedded shellcode",
            SprayType::RopGadgetSpray => "ROP gadget chain heap spray",
            SprayType::GenericSpray => "Generic repetitive allocation spray",
            SprayType::VBScriptSpray => "VBScript-based heap spray",
            SprayType::TypedArraySpray => "TypedArray-based heap spray",
            SprayType::Unknown => "Unknown heap spray type",
        }
    }

    /// How severe the kind is.
    pub fn severity(&self) -> (r: Severity)
        ensures
            r == self.spec_severity(),
    {
        match self {
            SprayType::NopSled => Severity::High,
            SprayType::BrowserSpray => Severity::High,
            SprayType::JavaScriptSpray => Severity::High,
            SprayType::ShellcodeSpray => Severity::Critical,
            SprayType::RopGadgetSpray => Severity::Critical,
            SprayType::GenericSpray => Severity::High,
            SprayType::VBScriptSpray => Severity::High,
            SprayType::TypedArraySpray => Severity::High,
            SprayType::Unknown => Severity::Medium,
        }
    }
}

/// The patterns of sleds.
pub open spec fn nop_patterns() -> Seq<(Seq<char>, Seq<u8>)> {
    seq![
        ("x86_nop"@, seq![0x90, 0x90, 0x90, 0x90]),
        ("or_al_0c"@, seq![0x0C, 0x0C, 0x0C, 0x0C]),
        ("or_eax_0d"@, seq![0x0D, 0x0D, 0x0D, 0x0D]),
        ("padding_41"@, seq![0x41, 0x41, 0x41, 0x41]),
        ("padding_42"@, seq![0x42, 0x42, 0x42, 0x42]),
        ("padding_43"@, seq![0x43, 0x43, 0x43, 0x43]),
        ("null_slide"@, seq![0x00, 0x00, 0x00, 0x00]),
        ("x64_nop"@, seq![0x90, 0x90, 0x90, 0x90, 0x90, 0x90, 0x90, 0x90]),
        ("heap_align_0a"@, seq![0x0A, 0x0A, 0x0A, 0x0A]),
        ("int3_sled"@, seq![0xCC, 0xCC, 0xCC, 0xCC]),
    ]
}

/// The patterns of shellcode.
pub open spec fn shellcode_patterns() -> Seq<(Seq<char>, Seq<u8>)> {
    seq![
        ("peb_access_x64"@, seq![0x65, 0x48, 0x8B, 0x04, 0x25, 0x60]),
        ("peb_access_x86_fs"@, seq![0x64, 0xA1, 0x30, 0x00, 0x00, 0x00]),
        ("peb_access_x86_mov"@, seq![0x64, 0x8B, 0x15, 0x30, 0x00, 0x00]),
        ("msf_shikata"@, seq![0xDA, 0xC1, 0xD9, 0x74, 0x24]),
        ("msf_reverse_tcp"@, seq![0xFC, 0xE8, 0x82, 0x00, 0x00]),
        ("msf_meterpreter"@, seq![0xFC, 0x48, 0x83, 0xE4, 0xF0]),
        ("egg_hunter_ntaccess"@, seq![0x66, 0x81, 0xCA, 0xFF, 0x0F]),
        ("egg_hunter_seh"@, seq![0xEB, 0x21, 0x5F, 0xB9]),
        ("jmp_esp"@, seq![0xFF, 0xE4]),
        ("jmp_eax"@, seq![0xFF, 0xE0]),
        ("call_esp"@, seq![0xFF, 0xD4]),
        ("call_eax"@, seq![0xFF, 0xD0]),
        ("push_ret"@, seq![0x50, 0xC3]),
        ("pop_pop_ret"@, seq![0x5F, 0x5E, 0xC3]),
        ("xchg_eax_esp"@, seq![0x94, 0xC3]),
        ("cs_beacon_start"@, seq![0x4D, 0x5A, 0xE8]),
        ("cs_shellcode_x64"@, seq![0xFC, 0x48, 0x83, 0xE4]),
        ("kernel32_hash"@, seq![0x68, 0x8E, 0x4E, 0x0E, 0xEC]),
        ("winexec_hash"@, seq![0x68, 0xA8, 0xA2, 0x4D, 0xBC]),
    ]
}

/// What a table of patterns says.
pub open spec fn table_view(v: Seq<(&'static str, Vec<u8>)>) -> Seq<(Seq<char>, Seq<u8>)> {
    v.map_values(|e: (&'static str, Vec<u8>)| (e.0@, e.1@))
}

fn nop_table() -> (r: Vec<(&'static str, Vec<u8>)>)
    ensures
        table_view(r@) == nop_patterns(),
{
    let r: Vec<(&'static str, Vec<u8>)> = vec![
        ("x86_nop", vec![0x90, 0x90, 0x90, 0x90]),
        ("or_al_0c", vec![0x0C, 0x0C, 0x0C, 0x0C]),
        ("or_eax_0d", vec![0x0D, 0x0D, 0x0D, 0x0D]),
        ("padding_41", vec![0x41, 0x41, 0x41, 0x41]),
        ("padding_42", vec![0x42, 0x42, 0x42, 0x42]),
        ("padding_43", vec![0x43, 0x43, 0x43, 0x43]),
        ("null_slide", vec![0x00, 0x00, 0x00, 0x00]),
        ("x64_nop", vec![0x90, 0x90, 0x90, 0x90, 0x90, 0x90, 0x90, 0x90]),
        ("heap_align_0a", vec![0x0A, 0x0A, 0x0A, 0x0A]),
        ("int3_sled", vec![0xCC, 0xCC, 0xCC, 0xCC]),
    ];
    assert(table_view(r@) =~~= nop_patterns());
    r
}

fn shellcode_table() -> (r: Vec<(&'static str, Vec<u8>)>)
    ensures
        table_view(r@) == shellcode_patterns(),
{
    let r: Vec<(&'static str, Vec<u8>)> = vec![
        ("peb_access_x64", vec![0x65, 0x48, 0x8B, 0x04, 0x25, 0x60]),
        ("peb_access_x86_fs", vec![0x64, 0xA1, 0x30, 0x00, 0x00, 0x00]),
        ("peb_access_x86_mov", vec![0x64, 0x8B, 0x15, 0x30, 0x00, 0x00]),
        ("msf_shikata", vec![0xDA, 0xC1, 0xD9, 0x74, 0x24]),
        ("msf_reverse_tcp", vec![0xFC, 0xE8, 0x82, 0x00, 0x00]),
        ("msf_meterpreter", vec![0xFC, 0x48, 0x83, 0xE4, 0xF0]),
        ("egg_hunter_ntaccess", vec![0x66, 0x81, 0xCA, 0xFF, 0x0F]),
        ("egg_hunter_seh", vec![0xEB, 0x21, 0x5F, 0xB9]),
        ("jmp_esp", vec![0xFF, 0xE4]),
        ("jmp_eax", vec![0xFF, 0xE0]),
        ("call_esp", vec![0xFF, 0xD4]),
        ("call_eax", vec![0xFF, 0xD0]),
        ("push_ret", vec![0x50, 0xC3]),
        ("pop_pop_ret", vec![0x5F, 0x5E, 0xC3]),
        ("xchg_eax_esp", vec![0x94, 0xC3]),
        ("cs_beacon_start", vec![0x4D, 0x5A, 0xE8]),
        ("cs_shellcode_x64", vec![0xFC, 0x48, 0x83, 0xE4]),
        ("kernel32_hash", vec![0x68, 0x8E, 0x4E, 0x0E, 0xEC]),
        ("winexec_hash", vec![0x68, 0xA8, 0xA2, 0x4D, 0xBC]),
    ];
    assert(table_view(r@) =~~= shellcode_patterns());
    r
}

/// What kind of repetition a buffer shows.
#[derive(Clone, Copy, Debug, PartialEq, Eq, Structural)]
pub enum SprayPatternType {
    NopSled,
    Shellcode,
    RepetitiveContent,
    JumpTrampoline,
}

/// A pattern that a buffer shows.
pub struct SprayPattern {
    pub pattern_type: SprayPatternType,
    pub pattern_name: String,
    pub repetition_count: usize,
    /// In millionths.
    pub confidence: u32,
}

/// What a pattern in a buffer says.
#[verifier::ext_equal]
pub struct SprayPatternModel {
    pub pattern_type: SprayPatternType,
    pub pattern_name: Seq<char>,
    pub repetition_count: nat,
    pub confidence: u32,
}

impl View for SprayPattern {
    type V = SprayPatternModel;

    open spec fn view(&self) -> SprayPatternModel {
        SprayPatternModel {
            pattern_type: self.pattern_type,
            pattern_name: self.pattern_name@,
            repetition_count: self.repetition_count as nat,
            confidence: self.confidence,
        }
    }
}

/// How sure a repeated pattern of four bytes is: half as much again as the part
/// of the data that it covers, at most one.
pub open spec fn pattern_confidence(repetitions: nat, data_len: nat) -> u32 {
    if data_len == 0 || repetitions * 6_000_000 / data_len >= ONE {
        ONE
    } else {
        (repetitions * 6_000_000 / data_len) as u32
    }
}

/// How sure a repeated pattern of four bytes is.
pub fn calculate_pattern_confidence(repetitions: usize, data_len: usize) -> (r: u32)
    ensures
        r == pattern_confidence(repetitions as nat, data_len as nat),
        r <= ONE,
{
    if data_len == 0 {
        return ONE;
    }
    let coverage: u128 = (repetitions as u128) * 6_000_000 / (data_len as u128);
    if coverage >= ONE as u128 {
        ONE
    } else {
        coverage as u32
    }
}

/// How often a pattern must stand in data to count as a sled: in a quarter of
/// the data, and ten times.
pub open spec fn sled_threshold(data_len: nat, pattern_len: nat) -> nat {
    let quarter = data_len / pattern_len / 4;
    if quarter < 10 { 10 } else { quarter }
}

/// Whether data shows a sled of a pattern.
pub open spec fn shows_sled(data: Seq<u8>, pattern: Seq<u8>) -> bool {
    occurrences(data, pattern) >= sled_threshold(data.len(), pattern.len())
}

/// The first of the sleds that data shows, from pattern `i` on.
pub open spec fn first_sled(data: Seq<u8>, table: Seq<(Seq<char>, Seq<u8>)>, i: int) -> Option<int>
    decreases table.len() - i,
{
    if i < 0 || i >= table.len() {
        None
    } else if shows_sled(data, table[i].1) {
        Some(i)
    } else {
        first_sled(data, table, i + 1)
    }
}

/// The first of the patterns that stand in data, from pattern `i` on.
pub open spec fn first_found(data: Seq<u8>, table: Seq<(Seq<char>, Seq<u8>)>, i: int) -> Option<int>
    decreases table.len() - i,
{
    if i < 0 || i >= table.len() {
        None
    } else if found(data, table[i].1) {
        Some(i)
    } else {
        first_found(data, table, i + 1)
    }
}

/// Whether a pattern of the table stands in data.
pub open spec fn in_data(data: Seq<u8>) -> spec_fn((Seq<char>, Seq<u8>)) -> bool {
    |e: (Seq<char>, Seq<u8>)| found(data, e.1)
}

/// The names of the patterns that stand in data.
pub open spec fn found_names(data: Seq<u8>, table: Seq<(Seq<char>, Seq<u8>)>) -> Seq<Seq<char>> {
    table.filter(in_data(data)).map_values(|e: (Seq<char>, Seq<u8>)| e.0)
}

/// The four bytes at a position, as a number.
pub open spec fn word_at(data: Seq<u8>, i: int) -> u32 {
    le32(data, i) as u32
}

/// At how many of the first `n` positions a word stands.
pub open spec fn word_count(data: Seq<u8>, word: u32, n: nat) -> nat
    decreases n,
{
    if n == 0 {
        0
    } else {
        word_count(data, word, (n - 1) as nat) + if word_at(data, n - 1) == word {
            1nat
        } else {
            0nat
        }
    }
}

/// The number of positions at which four bytes stand.
pub open spec fn word_positions(data: Seq<u8>) -> nat {
    if data.len() < 4 { 0 } else { (data.len() - 3) as nat }
}

/// Whether a word is one of the most common in data.
pub open spec fn is_most_common_word(data: Seq<u8>, word: u32) -> bool {
    let n = word_positions(data);
    &&& word_count(data, word, n) > 0
    &&& forall|other: u32| #[trigger] word_count(data, other, n) <= word_count(data, word, n)
}

/// Calculates a hash of content. Contents that are equal have equal hashes.
pub open spec fn content_hash(data: Seq<u8>) -> u64 {
    DefaultHasher::spec_finish(seq![number_bytes(data.len() as u64), data])
}

/// The eight bytes of a number, the lowest first.
pub open spec fn number_bytes(n: u64) -> Seq<u8> {
    seq![
        (n % 0x100) as u8,
        (n / 0x100 % 0x100) as u8,
        (n / 0x1_0000 % 0x100) as u8,
        (n / 0x100_0000 % 0x100) as u8,
        (n / 0x1_0000_0000 % 0x100) as u8,
        (n / 0x100_0000_0000 % 0x100) as u8,
        (n / 0x1_0000_0000_0000 % 0x100) as u8,
        (n / 0x100_0000_0000_0000 % 0x100) as u8,
    ]
}

fn le_bytes(n: u64) -> (r: [u8; 8])
    ensures
        r@ == number_bytes(n),
{
    let r: [u8; 8] = [
        (n % 0x100) as u8,
        (n / 0x100 % 0x100) as u8,
        (n / 0x1_0000 % 0x100) as u8,
        (n / 0x100_0000 % 0x100) as u8,
        (n / 0x1_0000_0000 % 0x100) as u8,
        (n / 0x100_0000_0000 % 0x100) as u8,
        (n / 0x1_0000_0000_0000 % 0x100) as u8,
        (n / 0x100_0000_0000_0000 % 0x100) as u8,
    ];
    assert(r@ =~= number_bytes(n));
    r
}

/// Calculates a hash of content, length first.
pub fn calculate_content_hash(data: &[u8]) -> (r: u64)
    ensures
        r == content_hash(data@),
{
    let prefix = le_bytes(data.len() as u64);
    let mut hasher = DefaultHasher::new();
    hasher.write(&prefix);
    hasher.write(data);
    assert(hasher@ =~= seq![number_bytes(data@.len() as u64), data@]);
    hasher.finish()
}

/// Whether bits `i` and `i + 1` of a number differ.
pub open spec fn changes_at(hash: u64, i: int) -> bool {
    (hash >> (i as u64)) & 1 != (hash >> ((i + 1) as u64)) & 1
}

/// How many of the first `n` pairs of neighbouring bits differ.
pub open spec fn bit_changes(hash: u64, n: nat) -> nat
    decreases n,
{
    if n == 0 {
        0
    } else {
        bit_changes(hash, (n - 1) as nat) + if changes_at(hash, n - 1) { 1nat } else { 0nat }
    }
}

/// Estimates an entropy, between zero and eight bits, from how often
/// neighbouring bits of a hash differ.
pub fn estimate_entropy_from_hash(hash: u64) -> (r: u32)
    ensures
        r == bit_changes(hash, 63) * 8_000_000 / 63,
        r <= 8_000_000,
{
    let mut changes: u32 = 0;
    let mut i: u64 = 0;
    while i < 63
        invariant
            i <= 63,
            changes <= i,
            changes == bit_changes(hash, i as nat),
        decreases 63 - i,
    {
        if (hash >> i) & 1 != (hash >> (i + 1)) & 1 {
            changes += 1;
        }
        i += 1;
    }
    changes * 8_000_000 / 63
}

/// At how many positions a pattern stands in data; an empty one stands nowhere.
pub fn count_pattern_occurrences(data: &[u8], pattern: &[u8]) -> (n: usize)
    ensures
        n == if pattern@.len() == 0 {
            0
        } else {
            occurrences(data@, pattern@)
        },
{
    if pattern.len() == 0 {
        return 0;
    }
    count_bytes(data, pattern)
}

/// Whether a pattern stands in data; an empty one does not.
pub fn contains_pattern(data: &[u8], pattern: &[u8]) -> (r: bool)
    ensures
        r == (pattern@.len() > 0 && found(data@, pattern@)),
{
    pattern.len() > 0 && find_bytes(data, pattern)
}

/// One of the most common sequences of four bytes, as a little-endian number,
/// and how often it stands in the data.
pub fn find_most_common_sequence(data: &[u8], n: usize) -> (r: Option<(u32, usize)>)
    ensures
        r is Some <==> data@.len() >= 4 && n == 4,
        r matches Some(w) ==> is_most_common_word(data@, w.0) && w.1 == word_count(
            data@,
            w.0,
            word_positions(data@),
        ),
{
    if data.len() < n || n != 4 {
        return None;
    }
    let mut counts: HashMap<u32, usize> = HashMap::new();
    let mut best: u32 = 0;
    let mut best_count: usize = 0;
    let total: usize = data.len() - 3;
    let mut i: usize = 0;
    while i < total
        invariant
            i <= total,
            total + 3 == data@.len(),
            data@.len() <= usize::MAX,
            forall|w: u32|
                #![trigger counts@.contains_key(w)]
                #![trigger word_count(data@, w, i as nat)]
                if counts@.contains_key(w) {
                    counts@[w] == word_count(data@, w, i as nat)
                } else {
                    word_count(data@, w, i as nat) == 0
                },
            forall|w: u32| #[trigger] word_count(data@, w, i as nat) <= best_count,
            best_count <= i,
            i > 0 ==> best_count > 0,
            best_count > 0 ==> best_count == word_count(data@, best, i as nat),
        decreases total - i,
    {
        let word: u32 = read_le32(data, i);
        let so_far: usize = match counts.get(&word) {
            Some(c) => *c,
            None => 0,
        };
        assert(so_far == word_count(data@, word, i as nat));
        let ghost before = counts@;
        counts.insert(word, so_far + 1);
        assert(forall|w: u32|
            #[trigger] word_count(data@, w, (i + 1) as nat) == word_count(data@, w, i as nat) + if w
                == word {
                1nat
            } else {
                0nat
            });
        assert forall|w: u32| #![trigger counts@.contains_key(w)]
            if counts@.contains_key(w) {
                counts@[w] == word_count(data@, w, (i + 1) as nat)
            } else {
                word_count(data@, w, (i + 1) as nat) == 0
            } by {
            assert(before.contains_key(w) || !before.contains_key(w));
            assert(word_count(data@, w, i as nat) >= 0);
        }
        if so_far + 1 > best_count {
            best = word;
            best_count = so_far + 1;
        }
        let ghost most = best_count;
        assert forall|w: u32| #[trigger] word_count(data@, w, (i + 1) as nat) <= most by {
            assert(word_count(data@, w, i as nat) <= most);
        }
        i += 1;
        assert forall|w: u32| #[trigger] word_count(data@, w, i as nat) <= best_count by {
            assert(word_count(data@, w, (i - 1 + 1) as nat) <= most);
        }
    }
    Some((best, best_count))
}

/// The matcher of patterns.
pub struct PatternMatcher {
    pub nop_patterns: Vec<(&'static str, Vec<u8>)>,
    pub shellcode_patterns: Vec<(&'static str, Vec<u8>)>,
}

/// Whether data whose entropy is known repeats itself: one word of the most
/// common stands more often than in an eighth of it.
pub open spec fn repeats_word(data: Seq<u8>, entropy: u32, word: u32) -> bool {
    &&& entropy < 1_500_000
    &&& data.len() >= 1024
    &&& is_most_common_word(data, word)
    &&& word_count(data, word, word_positions(data)) > data.len() / 8
}

/// What detection of a pattern in data returns.
pub open spec fn is_spray_pattern(data: Seq<u8>, entropy: u32, r: Option<SprayPatternModel>) -> bool {
    if data.len() < 16 {
        r is None
    } else if first_sled(data, nop_patterns(), 0) is Some {
        let entry = nop_patterns()[first_sled(data, nop_patterns(), 0)->0];
        r == Some(
            SprayPatternModel {
                pattern_type: SprayPatternType::NopSled,
                pattern_name: entry.0,
                repetition_count: occurrences(data, entry.1),
                confidence: pattern_confidence(occurrences(data, entry.1), data.len()),
            },
        )
    } else if first_found(data, shellcode_patterns(), 0) is Some {
        r == Some(
            SprayPatternModel {
                pattern_type: SprayPatternType::Shellcode,
                pattern_name: shellcode_patterns()[first_found(data, shellcode_patterns(), 0)->0].0,
                repetition_count: 1,
                confidence: 900_000,
            },
        )
    } else {
        match r {
            Some(p) => exists|word: u32| #[trigger]
                repeats_word(data, entropy, word) && p == (SprayPatternModel {
                    pattern_type: SprayPatternType::RepetitiveContent,
                    pattern_name: "0x"@ + padded(word as nat, 16, true, 8),
                    repetition_count: word_count(data, word, word_positions(data)),
                    confidence: pattern_confidence(
                        word_count(data, word, word_positions(data)),
                        data.len(),
                    ),
                }),
            None => forall|word: u32| !#[trigger] repeats_word(data, entropy, word),
        }
    }
}

/// What an optional pattern says.
pub open spec fn pattern_view(p: Option<SprayPattern>) -> Option<SprayPatternModel> {
    match p {
        Some(p) => Some(p@),
        None => None,
    }
}

impl PatternMatcher {
    /// Whether the tables are the ones above.
    pub open spec fn wf(&self) -> bool {
        &&& table_view(self.nop_patterns@) == nop_patterns()
        &&& table_view(self.shellcode_patterns@) == shellcode_patterns()
    }

    /// A matcher.
    pub fn new() -> (m: PatternMatcher)
        ensures
            m.wf(),
    {
        PatternMatcher { nop_patterns: nop_table(), shellcode_patterns: shellcode_table() }
    }

    /// Detects a pattern in data whose entropy, in millionths of a bit, is known.
    pub fn detect_spray_pattern(&self, data: &[u8], entropy: u32) -> (r: Option<SprayPattern>)
        requires
            self.wf(),
        ensures
            is_spray_pattern(data@, entropy, pattern_view(r)),
    {
        if data.len() < 16 {
            return None;
        }
        if let Some((name, repetitions)) = self.detect_nop_sled(data) {
            return Some(
                SprayPattern {
                    pattern_type: SprayPatternType::NopSled,
                    pattern_name: name.to_string(),
                    repetition_count: repetitions,
                    confidence: calculate_pattern_confidence(repetitions, data.len()),
                },
            );
        }
        if let Some(name) = self.detect_shellcode(data) {
            return Some(
                SprayPattern {
                    pattern_type: SprayPatternType::Shellcode,
                    pattern_name: name.to_string(),
                    repetition_count: 1,
                    confidence: 900_000,
                },
            );
        }
        if entropy < 1_500_000 && data.len() >= 1024 {
            if let Some((word, count)) = find_most_common_sequence(data, 4) {
                if count > data.len() / 8 {
                    assert(repeats_word(data@, entropy, word));
                    return Some(
                        SprayPattern {
                            pattern_type: SprayPatternType::RepetitiveContent,
                            pattern_name: "0x".to_string().concat(
                                hex_padded_text(word as u64, 8).as_str(),
                            ),
                            repetition_count: count,
                            confidence: calculate_pattern_confidence(count, data.len()),
                        },
                    );
                }
                assert forall|other: u32| !#[trigger] repeats_word(data@, entropy, other) by {
                    let n = word_positions(data@);
                    assert(word_count(data@, other, n) <= word_count(data@, word, n));
                }
            }
        }
        None
    }

    /// The first sled that data shows, and how often its pattern stands there.
    pub fn detect_nop_sled(&self, data: &[u8]) -> (r: Option<(&'static str, usize)>)
        requires
            self.wf(),
        ensures
            match first_sled(data@, nop_patterns(), 0) {
                Some(i) => r matches Some(s) && 0 <= i < nop_patterns().len() && s.0@
                    == nop_patterns()[i].0 && s.1 == occurrences(data@, nop_patterns()[i].1),
                None => r is None,
            },
    {
        let ghost all = nop_patterns();
        assert(self.nop_patterns@.len() == table_view(self.nop_patterns@).len());
        assert(forall|k: int| 0 <= k < all.len() ==> (#[trigger] all[k]).1.len() > 0);
        let mut i: usize = 0;
        while i < self.nop_patterns.len()
            invariant
                i <= self.nop_patterns@.len(),
                self.wf(),
                all == nop_patterns(),
                self.nop_patterns@.len() == all.len(),
                forall|k: int| 0 <= k < all.len() ==> (#[trigger] all[k]).1.len() > 0,
                first_sled(data@, all, 0) == first_sled(data@, all, i as int),
            decreases self.nop_patterns@.len() - i,
        {
            let entry = &self.nop_patterns[i];
            assert(all[i as int] == table_view(self.nop_patterns@)[i as int]);
            assert(all[i as int] == (entry.0@, entry.1@));
            let count: usize = count_pattern_occurrences(data, entry.1.as_slice());
            let quarter: usize = data.len() / entry.1.len() / 4;
            let threshold: usize = if quarter < 10 { 10 } else { quarter };
            if count >= threshold {
                return Some((entry.0, count));
            }
            i += 1;
        }
        None
    }

    /// The first pattern of shellcode that stands in data.
    pub fn detect_shellcode(&self, data: &[u8]) -> (r: Option<&'static str>)
        requires
            self.wf(),
        ensures
            match first_found(data@, shellcode_patterns(), 0) {
                Some(i) => r matches Some(s) && 0 <= i < shellcode_patterns().len() && s@
                    == shellcode_patterns()[i].0,
                None => r is None,
            },
    {
        let ghost all = shellcode_patterns();
        assert(self.shellcode_patterns@.len() == table_view(self.shellcode_patterns@).len());
        assert(forall|k: int| 0 <= k < all.len() ==> (#[trigger] all[k]).1.len() > 0);
        let mut i: usize = 0;
        while i < self.shellcode_patterns.len()
            invariant
                i <= self.shellcode_patterns@.len(),
                self.wf(),
                all == shellcode_patterns(),
                self.shellcode_patterns@.len() == all.len(),
                forall|k: int| 0 <= k < all.len() ==> (#[trigger] all[k]).1.len() > 0,
                first_found(data@, all, 0) == first_found(data@, all, i as int),
            decreases self.shellcode_patterns@.len() - i,
        {
            let entry = &self.shellcode_patterns[i];
            assert(all[i as int] == table_view(self.shellcode_patterns@)[i as int]);
            if contains_pattern(data, entry.1.as_slice()) {
                return Some(entry.0);
            }
            i += 1;
        }
        None
    }

    /// The names of the patterns of shellcode that stand in data.
    pub fn contains_shellcode(&self, data: &[u8]) -> (r: Vec<String>)
        requires
            self.wf(),
        ensures
            texts(r@) == found_names(data@, shellcode_patterns()),
    {
        let ghost all = shellcode_patterns();
        let ghost name_of = |e: (Seq<char>, Seq<u8>)| e.0;
        assert(self.shellcode_patterns@.len() == table_view(self.shellcode_patterns@).len());
        assert(forall|k: int| 0 <= k < all.len() ==> (#[trigger] all[k]).1.len() > 0);
        let mut r: Vec<String> = Vec::new();
        let mut i: usize = 0;
        proof {
            lemma_filter_nothing(all, in_data(data@));
            assert(texts(r@) =~= all.take(0).filter(in_data(data@)).map_values(name_of));
        }
        while i < self.shellcode_patterns.len()
            invariant
                i <= self.shellcode_patterns@.len(),
                self.wf(),
                all == shellcode_patterns(),
                name_of == (|e: (Seq<char>, Seq<u8>)| e.0),
                self.shellcode_patterns@.len() == all.len(),
                forall|k: int| 0 <= k < all.len() ==> (#[trigger] all[k]).1.len() > 0,
                texts(r@) == all.take(i as int).filter(in_data(data@)).map_values(name_of),
            decreases self.shellcode_patterns@.len() - i,
        {
            let entry = &self.shellcode_patterns[i];
            proof {
                assert(all[i as int] == table_view(self.shellcode_patterns@)[i as int]);
                lemma_filter_step(all, i as int, in_data(data@));
            }
            let ghost before = all.take(i as int).filter(in_data(data@));
            if contains_pattern(data, entry.1.as_slice()) {
                push_text(&mut r, entry.0.to_string());
                assert(texts(r@) =~= before.push(all[i as int]).map_values(name_of));
            }
            i += 1;
        }
        assert(all.take(i as int) =~= all);
        r
    }
}

impl Default for PatternMatcher {
    fn default() -> (m: PatternMatcher)
        ensures
            m.wf(),
    {
        PatternMatcher::new()
    }
}

/// An allocation that is tracked.
#[derive(Clone, Copy, Debug, PartialEq, Eq, Structural)]
pub struct TrackedAllocation {
    pub address: usize,
    pub size: usize,
    pub content_hash: u64,
    /// In millionths of a bit.
    pub entropy: u32,
    /// In milliseconds.
    pub timestamp: u64,
    pub protection: u32,
}

/// How many allocations have a content with a hash.
pub open spec fn hash_count(entries: Seq<TrackedAllocation>, hash: u64) -> nat
    decreases entries.len(),
{
    if entries.len() == 0 {
        0
    } else {
        hash_count(entries.drop_last(), hash) + if entries.last().content_hash == hash {
            1nat
        } else {
            0nat
        }
    }
}

proof fn lemma_hash_count_front(entries: Seq<TrackedAllocation>, hash: u64)
    requires
        entries.len() > 0,
    ensures
        hash_count(entries, hash) == hash_count(entries.drop_first(), hash) + if entries[0].content_hash
            == hash {
            1nat
        } else {
            0nat
        },
    decreases entries.len(),
{
    if entries.len() == 1 {
        assert(entries.drop_first() =~= Seq::empty());
        assert(entries.drop_last() =~= Seq::empty());
    } else {
        lemma_hash_count_front(entries.drop_last(), hash);
        assert(entries.drop_last().drop_first() =~= entries.drop_first().drop_last());
    }
}

proof fn lemma_hash_count_bound(entries: Seq<TrackedAllocation>, hash: u64)
    ensures
        hash_count(entries, hash) <= entries.len(),
    decreases entries.len(),
{
    if entries.len() > 0 {
        lemma_hash_count_bound(entries.drop_last(), hash);
    }
}

/// The hash that is the first, in the order of the first `n` allocations, to be
/// the most common of theirs, and how common it is.
pub open spec fn best_hash(entries: Seq<TrackedAllocation>, n: nat) -> Option<(u64, nat)>
    decreases n,
{
    if n == 0 || n > entries.len() {
        None
    } else {
        let hash = entries[n - 1].content_hash;
        let count = hash_count(entries, hash);
        match best_hash(entries, (n - 1) as nat) {
            None => Some((hash, count)),
            Some(b) => if count > b.1 {
                Some((hash, count))
            } else {
                Some(b)
            },
        }
    }
}

/// The most common hash, and how common it is.
pub open spec fn most_common_hash(entries: Seq<TrackedAllocation>) -> Option<(u64, nat)> {
    best_hash(entries, entries.len())
}

proof fn lemma_best_hash(entries: Seq<TrackedAllocation>, n: nat)
    requires
        n <= entries.len(),
    ensures
        n > 0 <==> best_hash(entries, n) is Some,
        best_hash(entries, n) matches Some(b) ==> b.1 == hash_count(entries, b.0),
        best_hash(entries, n) matches Some(b) ==> forall|i: int|
            0 <= i < n ==> hash_count(entries, (#[trigger] entries[i]).content_hash) <= b.1,
    decreases n,
{
    if n > 0 {
        lemma_best_hash(entries, (n - 1) as nat);
    }
}

proof fn lemma_counted_hash_occurs(entries: Seq<TrackedAllocation>, hash: u64) -> (i: int)
    requires
        hash_count(entries, hash) > 0,
    ensures
        0 <= i < entries.len(),
        entries[i].content_hash == hash,
    decreases entries.len(),
{
    if entries.last().content_hash == hash {
        entries.len() - 1
    } else {
        lemma_counted_hash_occurs(entries.drop_last(), hash)
    }
}

/// No hash is more common than the most common one.
pub proof fn law_most_common_hash_is_maximal(entries: Seq<TrackedAllocation>, hash: u64)
    requires
        entries.len() > 0,
    ensures
        most_common_hash(entries) matches Some(b) && hash_count(entries, hash) <= b.1 && b.1
            == hash_count(entries, b.0),
{
    lemma_best_hash(entries, entries.len());
    if hash_count(entries, hash) > 0 {
        let i = lemma_counted_hash_occurs(entries, hash);
        assert(hash_count(entries, entries[i].content_hash) <= (best_hash(
            entries,
            entries.len(),
        )->0).1);
    }
}

/// The sum of the sizes.
pub open spec fn total_size(entries: Seq<TrackedAllocation>) -> nat
    decreases entries.len(),
{
    if entries.len() == 0 {
        0
    } else {
        total_size(entries.drop_last()) + entries.last().size as nat
    }
}

/// The sum of the entropies.
pub open spec fn total_entropy(entries: Seq<TrackedAllocation>) -> nat
    decreases entries.len(),
{
    if entries.len() == 0 {
        0
    } else {
        total_entropy(entries.drop_last()) + entries.last().entropy as nat
    }
}

proof fn lemma_total_size_grows(entries: Seq<TrackedAllocation>, n: int)
    requires
        0 <= n <= entries.len(),
    ensures
        total_size(entries.take(n)) <= total_size(entries),
    decreases entries.len() - n,
{
    if n < entries.len() {
        lemma_total_size_grows(entries, n + 1);
        assert(entries.take(n + 1).drop_last() =~= entries.take(n));
    } else {
        assert(entries.take(n) =~= entries);
    }
}

/// The hashes of the allocations.
pub open spec fn hashes_of(entries: Seq<TrackedAllocation>) -> Set<u64> {
    entries.map_values(|a: TrackedAllocation| a.content_hash).to_set()
}

/// Whether an allocation has outlived its time.
pub open spec fn is_expired(a: TrackedAllocation, now: u64) -> bool {
    now - a.timestamp > ALLOCATION_LIFETIME_MS
}

/// The allocations without the expired ones at the front.
pub open spec fn without_expired(entries: Seq<TrackedAllocation>, now: u64) -> Seq<
    TrackedAllocation,
>
    decreases entries.len(),
{
    if entries.len() > 0 && is_expired(entries[0], now) {
        without_expired(entries.drop_first(), now)
    } else {
        entries
    }
}

/// The last `n` of the allocations.
pub open spec fn newest(entries: Seq<TrackedAllocation>, n: nat) -> Seq<TrackedAllocation> {
    if entries.len() > n {
        entries.skip(entries.len() - n)
    } else {
        entries
    }
}

/// The allocations of a process, and how many have each content.
pub struct ProcessAllocations {
    pub pid: u32,
    pub entries: VecDeque<TrackedAllocation>,
    pub hash_counts: HashMap<u64, usize>,
}

impl ProcessAllocations {
    /// The counts are those of the allocations.
    pub open spec fn wf(&self) -> bool {
        forall|h: u64|
            #![trigger self.hash_counts@.contains_key(h)]
            #![trigger hash_count(self.entries@, h)]
            if self.hash_counts@.contains_key(h) {
                self.hash_counts@[h] == hash_count(self.entries@, h) && self.hash_counts@[h] > 0
            } else {
                hash_count(self.entries@, h) == 0
            }
    }

    fn new(pid: u32) -> (p: ProcessAllocations)
        ensures
            p.wf(),
            p.pid == pid,
            p.entries@ == Seq::<TrackedAllocation>::empty(),
    {
        ProcessAllocations { pid, entries: VecDeque::new(), hash_counts: HashMap::new() }
    }

    fn count_of(&self, hash: u64) -> (n: usize)
        requires
            self.wf(),
        ensures
            n == hash_count(self.entries@, hash),
    {
        match self.hash_counts.get(&hash) {
            Some(c) => *c,
            None => 0,
        }
    }

    fn append(&mut self, a: TrackedAllocation)
        requires
            old(self).wf(),
            old(self).entries@.len() < usize::MAX,
        ensures
            final(self).wf(),
            final(self).pid == old(self).pid,
            final(self).entries@ == old(self).entries@.push(a),
    {
        let count: usize = self.count_of(a.content_hash);
        let ghost before = self.entries@;
        let ghost counts = self.hash_counts@;
        proof {
            lemma_hash_count_bound(before, a.content_hash);
        }
        self.hash_counts.insert(a.content_hash, count + 1);
        self.entries.push_back(a);
        assert(self.entries@.drop_last() =~= before);
        assert forall|h: u64| #![trigger self.hash_counts@.contains_key(h)]
            if self.hash_counts@.contains_key(h) {
                self.hash_counts@[h] == hash_count(self.entries@, h) && self.hash_counts@[h] > 0
            } else {
                hash_count(self.entries@, h) == 0
            } by {
            assert(counts.contains_key(h) || !counts.contains_key(h));
            assert(hash_count(before, h) >= 0);
        }
    }

    fn drop_oldest(&mut self)
        requires
            old(self).wf(),
            old(self).entries@.len() > 0,
        ensures
            final(self).wf(),
            final(self).pid == old(self).pid,
            final(self).entries@ == old(self).entries@.drop_first(),
    {
        let ghost before = self.entries@;
        let ghost counts = self.hash_counts@;
        let hash: u64 = self.entries[0].content_hash;
        proof {
            assert forall|h: u64| hash_count(before, h) == #[trigger] hash_count(
                before.drop_first(),
                h,
            ) + if before[0].content_hash == h {
                1nat
            } else {
                0nat
            } by {
                lemma_hash_count_front(before, h);
            }
        }
        let count: usize = self.count_of(hash);
        self.entries.pop_front();
        assert(self.entries@ =~= before.drop_first());
        assert(hash_count(before, hash) == hash_count(before.drop_first(), hash) + 1);
        if count <= 1 {
            self.hash_counts.remove(&hash);
        } else {
            self.hash_counts.insert(hash, count - 1);
        }
        assert forall|h: u64| #![trigger self.hash_counts@.contains_key(h)]
            if self.hash_counts@.contains_key(h) {
                self.hash_counts@[h] == hash_count(self.entries@, h) && self.hash_counts@[h] > 0
            } else {
                hash_count(self.entries@, h) == 0
            } by {
            assert(counts.contains_key(h) || !counts.contains_key(h));
            assert(hash_count(before, h) == hash_count(before.drop_first(), h) + if hash == h {
                1nat
            } else {
                0nat
            });
        }
    }

    fn trim(&mut self, max: usize)
        requires
            old(self).wf(),
        ensures
            final(self).wf(),
            final(self).pid == old(self).pid,
            final(self).entries@ == newest(old(self).entries@, max as nat),
    {
        let ghost all = self.entries@;
        while self.entries.len() > max
            invariant
                self.wf(),
                self.pid == old(self).pid,
                newest(self.entries@, max as nat) == newest(all, max as nat),
            decreases self.entries@.len(),
        {
            let ghost before = self.entries@;
            self.drop_oldest();
            assert(newest(before.drop_first(), max as nat) =~= newest(before, max as nat));
        }
    }

    fn expire(&mut self, now: u64)
        requires
            old(self).wf(),
        ensures
            final(self).wf(),
            final(self).pid == old(self).pid,
            final(self).entries@ == without_expired(old(self).entries@, now),
    {
        let ghost all = self.entries@;
        while self.entries.len() > 0 && now >= self.entries[0].timestamp && now
            - self.entries[0].timestamp > ALLOCATION_LIFETIME_MS
            invariant
                self.wf(),
                self.pid == old(self).pid,
                without_expired(self.entries@, now) == without_expired(all, now),
            decreases self.entries@.len(),
        {
            self.drop_oldest();
        }
    }

    fn most_common(&self) -> (r: Option<(u64, usize)>)
        requires
            self.wf(),
        ensures
            match most_common_hash(self.entries@) {
                Some(b) => r matches Some(m) && m.0 == b.0 && m.1 == b.1,
                None => r is None,
            },
    {
        let mut best: Option<(u64, usize)> = None;
        let mut i: usize = 0;
        while i < self.entries.len()
            invariant
                i <= self.entries@.len(),
                self.wf(),
                match best_hash(self.entries@, i as nat) {
                    Some(b) => best matches Some(m) && m.0 == b.0 && m.1 == b.1,
                    None => best is None,
                },
            decreases self.entries@.len() - i,
        {
            let hash: u64 = self.entries[i].content_hash;
            let count: usize = self.count_of(hash);
            match best {
                None => {
                    best = Some((hash, count));
                },
                Some((_, most)) => {
                    if count > most {
                        best = Some((hash, count));
                    }
                },
            }
            i += 1;
        }
        best
    }
}

/// Figures about a process's allocations.
#[derive(Clone, Copy, Debug, PartialEq, Eq, Structural)]
pub struct AllocationStats {
    pub allocation_count: usize,
    pub total_size: usize,
    /// In millionths of a bit.
    pub average_entropy: u32,
    pub unique_content_count: usize,
    pub most_common_hash_count: usize,
}

/// The figures about allocations.
pub open spec fn stats_of(entries: Seq<TrackedAllocation>) -> AllocationStats {
    if entries.len() == 0 {
        AllocationStats {
            allocation_count: 0,
            total_size: 0,
            average_entropy: 0,
            unique_content_count: 0,
            most_common_hash_count: 0,
        }
    } else {
        AllocationStats {
            allocation_count: entries.len() as usize,
            total_size: total_size(entries) as usize,
            average_entropy: (total_entropy(entries) / entries.len()) as u32,
            unique_content_count: hashes_of(entries).len() as usize,
            most_common_hash_count: (most_common_hash(entries)->0).1 as usize,
        }
    }
}

impl Default for AllocationStats {
    fn default() -> (s: AllocationStats)
        ensures
            s == stats_of(Seq::empty()),
    {
        AllocationStats {
            allocation_count: 0,
            total_size: 0,
            average_entropy: 0,
            unique_content_count: 0,
            most_common_hash_count: 0,
        }
    }
}

/// The records of a process.
pub open spec fn of_process(pid: u32) -> spec_fn(ProcessAllocations) -> bool {
    |p: ProcessAllocations| p.pid == pid
}

/// The allocations that are tracked of a process.
pub open spec fn entries_of(processes: Seq<ProcessAllocations>, pid: u32) -> Seq<
    TrackedAllocation,
> {
    match first_index(processes, of_process(pid)) {
        Some(i) => processes[i].entries@,
        None => Seq::empty(),
    }
}

/// Whether no process has two records.
pub open spec fn distinct_pids(processes: Seq<ProcessAllocations>) -> bool {
    forall|i: int, j: int|
        0 <= i < j < processes.len() ==> (#[trigger] processes[i]).pid != (
        #[trigger] processes[j]).pid
}

proof fn lemma_entries_at(processes: Seq<ProcessAllocations>, i: int)
    requires
        distinct_pids(processes),
        0 <= i < processes.len(),
    ensures
        entries_of(processes, processes[i].pid) == processes[i].entries@,
{
    let p = of_process(processes[i].pid);
    assert forall|j: int| 0 <= j < i implies !p(#[trigger] processes[j]) by {
        assert(processes[j].pid != processes[i].pid);
    }
    crate::collect::lemma_first_index_is(processes, p, i);
}

proof fn lemma_no_entries(processes: Seq<ProcessAllocations>, pid: u32)
    requires
        forall|j: int| 0 <= j < processes.len() ==> (#[trigger] processes[j]).pid != pid,
    ensures
        entries_of(processes, pid) == Seq::<TrackedAllocation>::empty(),
{
    crate::collect::lemma_first_index(processes, of_process(pid));
}

/// The tracker of all processes' allocations.
pub struct AllocationTracker {
    pub processes: Vec<ProcessAllocations>,
    pub max_allocations_per_process: usize,
}

impl AllocationTracker {
    /// Each process has at most one record, whose counts are right and which
    /// holds no more allocations than the limit.
    pub open spec fn wf(&self) -> bool {
        &&& distinct_pids(self.processes@)
        &&& self.max_allocations_per_process < usize::MAX
        &&& forall|i: int|
            0 <= i < self.processes@.len() ==> (#[trigger] self.processes@[i]).wf()
                && self.processes@[i].entries@.len() <= self.max_allocations_per_process
    }

    /// The allocations that are tracked of a process.
    pub open spec fn entries(&self, pid: u32) -> Seq<TrackedAllocation> {
        entries_of(self.processes@, pid)
    }

    /// A tracker of nothing.
    pub fn new() -> (t: AllocationTracker)
        ensures
            t.wf(),
            t.max_allocations_per_process == 10_000,
            forall|pid: u32| #[trigger] t.entries(pid) == Seq::<TrackedAllocation>::empty(),
    {
        let t = AllocationTracker { processes: Vec::new(), max_allocations_per_process: 10_000 };
        proof {
            assert forall|pid: u32| #[trigger] t.entries(pid) == Seq::<
                TrackedAllocation,
            >::empty() by {
                lemma_no_entries(t.processes@, pid);
            }
        }
        t
    }

    fn index_of(&self, pid: u32) -> (r: Option<usize>)
        requires
            self.wf(),
        ensures
            match r {
                Some(i) => i < self.processes@.len() && self.processes@[i as int].pid == pid
                    && self.entries(pid) == self.processes@[i as int].entries@,
                None => self.entries(pid) == Seq::<TrackedAllocation>::empty() && forall|j: int|
                    0 <= j < self.processes@.len() ==> (#[trigger] self.processes@[j]).pid != pid,
            },
    {
        let meets = |p: &ProcessAllocations| -> (b: bool)
            ensures
                b == (p.pid == pid),
            { p.pid == pid };
        let r = position_where(&self.processes, meets, Ghost(of_process(pid)));
        proof {
            assert(forall|j: int|
                0 <= j < self.processes@.len() ==> of_process(pid)(#[trigger] self.processes@[j])
                    == (self.processes@[j].pid == pid));
        }
        r
    }

    /// Tracks an allocation of a process. Where there are too many, the oldest
    /// are dropped.
    pub fn track_allocation(
        &mut self,
        pid: u32,
        addr: usize,
        size: usize,
        content_hash: u64,
        entropy: u32,
        protection: u32,
        now: u64,
    )
        requires
            old(self).wf(),
        ensures
            final(self).wf(),
            final(self).max_allocations_per_process == old(self).max_allocations_per_process,
            final(self).entries(pid) == newest(
                old(self).entries(pid).push(
                    TrackedAllocation {
                        address: addr,
                        size,
                        content_hash,
                        entropy,
                        timestamp: now,
                        protection,
                    },
                ),
                old(self).max_allocations_per_process as nat,
            ),
            forall|other: u32|
                other != pid ==> #[trigger] final(self).entries(other) == old(self).entries(other),
    {
        let allocation = TrackedAllocation {
            address: addr,
            size,
            content_hash,
            entropy,
            timestamp: now,
            protection,
        };
        let ghost before = self.processes@;
        let found_at = self.index_of(pid);
        let i: usize = match found_at {
            Some(i) => i,
            None => {
                let i: usize = self.processes.len();
                self.processes.push(ProcessAllocations::new(pid));
                i
            },
        };
        let ghost opened = self.processes@;
        assert(opened[i as int].entries@ == entries_of(before, pid));
        let max: usize = self.max_allocations_per_process;
        self.processes[i].append(allocation);
        self.processes[i].trim(max);
        let ghost after = self.processes@;
        assert(after[i as int].pid == pid);
        assert forall|j: int| 0 <= j < after.len() && j != i implies #[trigger] after[j]
            == opened[j] by {}
        assert(distinct_pids(after)) by {
            assert forall|a: int, b: int| 0 <= a < b < after.len() implies (#[trigger] after[a]).pid
                != (#[trigger] after[b]).pid by {
                assert(opened[a].pid != opened[b].pid);
            }
        }
        proof {
            lemma_entries_at(after, i as int);
            assert forall|other: u32| other != pid implies #[trigger] entries_of(after, other)
                == entries_of(before, other) by {
                lemma_other_entries(before, after, i as int, other);
            }
        }
    }

    /// The allocations that are tracked of a process, the oldest first.
    pub fn get_allocations(&self, pid: u32) -> (r: Vec<TrackedAllocation>)
        requires
            self.wf(),
        ensures
            r@ == self.entries(pid),
    {
        let mut r: Vec<TrackedAllocation> = Vec::new();
        if let Some(k) = self.index_of(pid) {
            let mut i: usize = 0;
            while i < self.processes[k].entries.len()
                invariant
                    k < self.processes@.len(),
                    i <= self.processes@[k as int].entries@.len(),
                    r@ == self.processes@[k as int].entries@.take(i as int),
                decreases self.processes@[k as int].entries@.len() - i,
            {
                r.push(self.processes[k].entries[i]);
                i += 1;
            }
            assert(self.processes@[k as int].entries@.take(i as int)
                =~= self.processes@[k as int].entries@);
        }
        r
    }

    /// How many of a process's allocations have a content with a hash.
    pub fn get_hash_count(&self, pid: u32, content_hash: u64) -> (n: usize)
        requires
            self.wf(),
        ensures
            n == hash_count(self.entries(pid), content_hash),
    {
        match self.index_of(pid) {
            Some(i) => self.processes[i].count_of(content_hash),
            None => 0,
        }
    }

    /// The most common hash of a process's allocations, and how common it is.
    pub fn get_most_common_hash(&self, pid: u32) -> (r: Option<(u64, usize)>)
        requires
            self.wf(),
        ensures
            match most_common_hash(self.entries(pid)) {
                Some(b) => r matches Some(m) && m.0 == b.0 && m.1 == b.1,
                None => r is None,
            },
    {
        match self.index_of(pid) {
            Some(i) => self.processes[i].most_common(),
            None => None,
        }
    }

    /// Drops the allocations that have outlived their time.
    pub fn cleanup(&mut self, now: u64)
        requires
            old(self).wf(),
        ensures
            final(self).wf(),
            final(self).max_allocations_per_process == old(self).max_allocations_per_process,
            forall|pid: u32|
                #[trigger] final(self).entries(pid) == without_expired(old(self).entries(pid), now),
            forall|i: int|
                0 <= i < final(self).processes@.len() ==> (
                #[trigger] final(self).processes@[i]).entries@.len() > 0,
    {
        let ghost before = self.processes@;
        let mut i: usize = 0;
        while i < self.processes.len()
            invariant
                i <= self.processes@.len(),
                self.processes@.len() == before.len(),
                old(self).wf(),
                old(self).processes@ == before,
                self.max_allocations_per_process == old(self).max_allocations_per_process,
                forall|j: int|
                    0 <= j < before.len() ==> (#[trigger] self.processes@[j]).pid == before[j].pid
                        && self.processes@[j].wf() && self.processes@[j].entries@ == if j < i {
                        without_expired(before[j].entries@, now)
                    } else {
                        before[j].entries@
                    },
            decreases self.processes@.len() - i,
        {
            self.processes[i].expire(now);
            i += 1;
        }
        let ghost expired = self.processes@;
        assert(distinct_pids(expired)) by {
            assert forall|a: int, b: int| 0 <= a < b < expired.len() implies (
            #[trigger] expired[a]).pid != (#[trigger] expired[b]).pid by {
                assert(before[a].pid != before[b].pid);
            }
        }
        let ghost p = |q: ProcessAllocations| q.entries@.len() > 0;
        let keep = |q: &ProcessAllocations| -> (b: bool)
            ensures
                b == (q.entries@.len() > 0),
            { q.entries.len() > 0 };
        retain(&mut self.processes, keep, Ghost(p));
        proof {
            let kept = self.processes@;
            crate::collect::lemma_filter_members(expired, p);
            let key = |q: ProcessAllocations| q.pid;
            assert forall|a: int, b: int| 0 <= a < b < expired.len() implies key(
                #[trigger] expired[a],
            ) != key(#[trigger] expired[b]) by {
                assert(expired[a].pid != expired[b].pid);
            }
            crate::collect::lemma_filter_distinct(expired, p, key);
            assert forall|a: int, b: int| 0 <= a < b < kept.len() implies (#[trigger] kept[a]).pid
                != (#[trigger] kept[b]).pid by {
                assert(key(kept[a]) != key(kept[b]));
            }
            assert forall|a: int| 0 <= a < kept.len() implies (#[trigger] kept[a]).wf()
                && kept[a].entries@.len() <= self.max_allocations_per_process
                && kept[a].entries@.len() > 0 by {
                assert(expired.contains(kept[a]));
                let k = choose|k: int| 0 <= k < expired.len() && expired[k] == kept[a];
                lemma_expiring_shrinks(before[k].entries@, now);
            }
            assert forall|pid: u32| #[trigger] entries_of(kept, pid) == without_expired(
                entries_of(before, pid),
                now,
            ) by {
                lemma_entries_after_cleanup(before, expired, kept, pid, now);
            }
        }
    }

    /// Whether the sizes of a process's allocations can be added up.
    pub fn can_total(&self, pid: u32) -> (r: bool)
        requires
            self.wf(),
        ensures
            r == (total_size(self.entries(pid)) <= usize::MAX),
    {
        let allocations = self.get_allocations(pid);
        let mut sum: usize = 0;
        let mut i: usize = 0;
        while i < allocations.len()
            invariant
                i <= allocations@.len(),
                allocations@ == self.entries(pid),
                sum == total_size(allocations@.take(i as int)),
            decreases allocations@.len() - i,
        {
            proof {
                assert(allocations@.take(i + 1).drop_last() =~= allocations@.take(i as int));
                lemma_total_size_grows(allocations@, i + 1);
            }
            if allocations[i].size > usize::MAX - sum {
                return false;
            }
            sum = sum + allocations[i].size;
            i += 1;
        }
        assert(allocations@.take(i as int) =~= allocations@);
        true
    }

    /// Figures about a process's allocations.
    pub fn get_stats(&self, pid: u32) -> (s: AllocationStats)
        requires
            self.wf(),
            total_size(self.entries(pid)) <= usize::MAX,
        ensures
            s == stats_of(self.entries(pid)),
            s.total_size == total_size(self.entries(pid)),
            s.allocation_count == self.entries(pid).len(),
            s.unique_content_count == hashes_of(self.entries(pid)).len(),
            self.entries(pid).len() > 0 ==> s.most_common_hash_count == (most_common_hash(
                self.entries(pid),
            )->0).1,
    {
        let allocations = self.get_allocations(pid);
        let ghost entries = self.entries(pid);
        let count: usize = allocations.len();
        if count == 0 {
            assert(hashes_of(entries) =~= Set::empty());
            return AllocationStats::default();
        }
        let mut sum: usize = 0;
        let mut entropy_sum: u128 = 0;
        let mut unique: HashSet<u64> = HashSet::new();
        let ghost hashes = entries.map_values(|a: TrackedAllocation| a.content_hash);
        assert(unique@ =~= hashes.take(0).to_set());
        let mut i: usize = 0;
        while i < allocations.len()
            invariant
                i <= allocations@.len(),
                allocations@ == entries,
                total_size(entries) <= usize::MAX,
                hashes == entries.map_values(|a: TrackedAllocation| a.content_hash),
                sum == total_size(entries.take(i as int)),
                entropy_sum == total_entropy(entries.take(i as int)),
                entropy_sum <= i * 0xFFFF_FFFF,
                i <= usize::MAX,
                unique@ == hashes.take(i as int).to_set(),
            decreases allocations@.len() - i,
        {
            proof {
                assert(entries.take(i + 1).drop_last() =~= entries.take(i as int));
                lemma_total_size_grows(entries, i + 1);
                assert(hashes.take(i + 1) =~= hashes.take(i as int).push(hashes[i as int]));
                hashes.take(i as int).lemma_push_to_set_commute(hashes[i as int]);
                assert((i + 1) * 0xFFFF_FFFF <= 0xFFFF_FFFF * 0x1_0000_0000_0000_0000) by (
                nonlinear_arith)
                    requires
                        i < usize::MAX,
                ;
            }
            let a = allocations[i];
            sum = sum + a.size;
            entropy_sum = entropy_sum + a.entropy as u128;
            unique.insert(a.content_hash);
            i += 1;
        }
        assert(entries.take(i as int) =~= entries);
        assert(hashes.take(i as int) =~= hashes);
        let average: u128 = entropy_sum / (count as u128);
        assert(average <= 0xFFFF_FFFF) by (nonlinear_arith)
            requires
                entropy_sum <= count * 0xFFFF_FFFF,
                count > 0,
                average == entropy_sum / (count as u128),
        ;
        let most_common: usize = match self.get_most_common_hash(pid) {
            Some((_, c)) => c,
            None => 0,
        };
        proof {
            lemma_best_hash(entries, entries.len());
        }
        AllocationStats {
            allocation_count: count,
            total_size: sum,
            average_entropy: average as u32,
            unique_content_count: unique.len(),
            most_common_hash_count: most_common,
        }
    }
}

proof fn lemma_other_entries(
    before: Seq<ProcessAllocations>,
    after: Seq<ProcessAllocations>,
    i: int,
    other: u32,
)
    requires
        distinct_pids(before),
        distinct_pids(after),
        0 <= i <= before.len(),
        after.len() == (if i == before.len() { before.len() + 1 } else { before.len() }),
        after[i].pid != other,
        i < before.len() ==> before[i].pid != other,
        forall|j: int| 0 <= j < before.len() && j != i ==> #[trigger] after[j] == before[j],
    ensures
        entries_of(after, other) == entries_of(before, other),
{
    crate::collect::lemma_first_index(before, of_process(other));
    match first_index(before, of_process(other)) {
        Some(k) => {
            assert(after[k] == before[k]);
            lemma_entries_at(after, k);
            lemma_entries_at(before, k);
        },
        None => {
            assert forall|j: int| 0 <= j < after.len() implies (#[trigger] after[j]).pid
                != other by {
                if j != i && j < before.len() {
                    assert(!of_process(other)(before[j]));
                }
            }
            lemma_no_entries(after, other);
        },
    }
}

proof fn lemma_expiring_shrinks(entries: Seq<TrackedAllocation>, now: u64)
    ensures
        without_expired(entries, now).len() <= entries.len(),
    decreases entries.len(),
{
    if entries.len() > 0 && is_expired(entries[0], now) {
        lemma_expiring_shrinks(entries.drop_first(), now);
    }
}

proof fn lemma_entries_after_cleanup(
    before: Seq<ProcessAllocations>,
    expired: Seq<ProcessAllocations>,
    kept: Seq<ProcessAllocations>,
    pid: u32,
    now: u64,
)
    requires
        distinct_pids(before),
        distinct_pids(kept),
        before.len() == expired.len(),
        forall|j: int|
            0 <= j < before.len() ==> (#[trigger] expired[j]).pid == before[j].pid
                && expired[j].entries@ == without_expired(before[j].entries@, now),
        forall|j: int| 0 <= j < kept.len() ==> expired.contains(#[trigger] kept[j]),
        forall|j: int|
            0 <= j < expired.len() && (#[trigger] expired[j]).entries@.len() > 0 ==> kept.contains(
                expired[j],
            ),
    ensures
        entries_of(kept, pid) == without_expired(entries_of(before, pid), now),
{
    crate::collect::lemma_first_index(before, of_process(pid));
    match first_index(before, of_process(pid)) {
        Some(k) => {
            assert(expired[k].pid == pid);
            lemma_entries_at(before, k);
            if expired[k].entries@.len() > 0 {
                assert(kept.contains(expired[k]));
                let m = choose|m: int| 0 <= m < kept.len() && kept[m] == expired[k];
                lemma_entries_at(kept, m);
            } else {
                assert(expired[k].entries@ =~= Seq::empty());
                crate::collect::lemma_first_index(kept, of_process(pid));
                match first_index(kept, of_process(pid)) {
                    Some(m) => {
                        assert(expired.contains(kept[m]));
                        let j = choose|j: int| 0 <= j < expired.len() && expired[j] == kept[m];
                        if j < k {
                            assert(before[j].pid != before[k].pid);
                        } else if k < j {
                            assert(before[k].pid != before[j].pid);
                        }
                    },
                    None => {},
                }
            }
        },
        None => {
            assert forall|j: int| 0 <= j < kept.len() implies (#[trigger] kept[j]).pid != pid by {
                assert(expired.contains(kept[j]));
                let m = choose|m: int| 0 <= m < expired.len() && expired[m] == kept[j];
                assert(!of_process(pid)(before[m]));
            }
            lemma_no_entries(kept, pid);
        },
    }
}

impl Default for AllocationTracker {
    fn default() -> (t: AllocationTracker)
        ensures
            t.wf(),
            t.max_allocations_per_process == 10_000,
            forall|pid: u32| #[trigger] t.entries(pid) == Seq::<TrackedAllocation>::empty(),
    {
        AllocationTracker::new()
    }
}

/// What speaks for a spray.
pub struct HeapSprayIndicators {
    pub large_identical_allocations: bool,
    pub nop_sled_detected: bool,
    pub shellcode_patterns: bool,
    pub predictable_addresses: bool,
    pub excessive_string_allocations: bool,
    pub total_spray_size: usize,
    pub low_entropy_detected: bool,
    pub nop_pattern_name: Option<String>,
    pub shellcode_pattern_name: Option<String>,
    pub same_content_count: usize,
    pub common_spray_size_match: bool,
    pub rapid_allocations: bool,
}

/// What speaks for a spray, as a mathematical value.
#[verifier::ext_equal]
pub struct IndicatorsModel {
    pub large_identical_allocations: bool,
    pub nop_sled_detected: bool,
    pub shellcode_patterns: bool,
    pub predictable_addresses: bool,
    pub excessive_string_allocations: bool,
    pub total_spray_size: usize,
    pub low_entropy_detected: bool,
    pub nop_pattern_name: Option<Seq<char>>,
    pub shellcode_pattern_name: Option<Seq<char>>,
    pub same_content_count: usize,
    pub common_spray_size_match: bool,
    pub rapid_allocations: bool,
}

impl View for HeapSprayIndicators {
    type V = IndicatorsModel;

    open spec fn view(&self) -> IndicatorsModel {
        IndicatorsModel {
            large_identical_allocations: self.large_identical_allocations,
            nop_sled_detected: self.nop_sled_detected,
            shellcode_patterns: self.shellcode_patterns,
            predictable_addresses: self.predictable_addresses,
            excessive_string_allocations: self.excessive_string_allocations,
            total_spray_size: self.total_spray_size,
            low_entropy_detected: self.low_entropy_detected,
            nop_pattern_name: opt_text(self.nop_pattern_name),
            shellcode_pattern_name: opt_text(self.shellcode_pattern_name),
            same_content_count: self.same_content_count,
            common_spray_size_match: self.common_spray_size_match,
            rapid_allocations: self.rapid_allocations,
        }
    }
}

/// Nothing speaks for a spray.
pub open spec fn no_indicators() -> IndicatorsModel {
    IndicatorsModel {
        large_identical_allocations: false,
        nop_sled_detected: false,
        shellcode_patterns: false,
        predictable_addresses: false,
        excessive_string_allocations: false,
        total_spray_size: 0,
        low_entropy_detected: false,
        nop_pattern_name: None,
        shellcode_pattern_name: None,
        same_content_count: 0,
        common_spray_size_match: false,
        rapid_allocations: false,
    }
}

/// A weight where it counts.
#[verifier::opaque]
pub open spec fn weight_if(b: bool, weight: int) -> int {
    if b { weight } else { 0 }
}

/// How sure a spray is, in millionths.
pub open spec fn indicator_confidence(i: IndicatorsModel) -> u32 {
    let sum = weight_if(i.large_identical_allocations, 250_000) + weight_if(
        i.nop_sled_detected,
        200_000,
    ) + weight_if(i.shellcode_patterns, 300_000) + weight_if(i.predictable_addresses, 150_000)
        + weight_if(i.excessive_string_allocations, 100_000) + weight_if(
        i.low_entropy_detected,
        100_000,
    ) + weight_if(i.common_spray_size_match, 50_000) + weight_if(i.rapid_allocations, 100_000) + (
    if i.same_content_count >= 100 {
        150_000int
    } else if i.same_content_count >= 50 {
        100_000
    } else if i.same_content_count >= 20 {
        50_000
    } else {
        0
    });
    if sum < ONE { sum as u32 } else { ONE }
}

/// The kind of spray that is most likely.
pub open spec fn likely_spray(i: IndicatorsModel) -> SprayType {
    if i.shellcode_patterns {
        SprayType::ShellcodeSpray
    } else if i.nop_sled_detected {
        match i.nop_pattern_name {
            Some(n) => if occurs("0c"@, n) || occurs("0d"@, n) {
                SprayType::BrowserSpray
            } else {
                SprayType::NopSled
            },
            None => SprayType::NopSled,
        }
    } else if i.excessive_string_allocations {
        SprayType::JavaScriptSpray
    } else if i.large_identical_allocations {
        SprayType::GenericSpray
    } else {
        SprayType::Unknown
    }
}

impl Default for HeapSprayIndicators {
    fn default() -> (i: HeapSprayIndicators)
        ensures
            i@ == no_indicators(),
    {
        HeapSprayIndicators {
            large_identical_allocations: false,
            nop_sled_detected: false,
            shellcode_patterns: false,
            predictable_addresses: false,
            excessive_string_allocations: false,
            total_spray_size: 0,
            low_entropy_detected: false,
            nop_pattern_name: None,
            shellcode_pattern_name: None,
            same_content_count: 0,
            common_spray_size_match: false,
            rapid_allocations: false,
        }
    }
}

impl HeapSprayIndicators {
    /// How sure a spray is, in millionths.
    pub fn calculate_confidence(&self) -> (r: u32)
        ensures
            r == indicator_confidence(self@),
            r <= ONE,
    {
        let repeated: u32 = if self.same_content_count >= 100 {
            150_000
        } else if self.same_content_count >= 50 {
            100_000
        } else if self.same_content_count >= 20 {
            50_000
        } else {
            0
        };
        let confidence: u32 = weigh(self.large_identical_allocations, 250_000) + weigh(
            self.nop_sled_detected,
            200_000,
        ) + weigh(self.shellcode_patterns, 300_000) + weigh(self.predictable_addresses, 150_000)
            + weigh(self.excessive_string_allocations, 100_000) + weigh(
            self.low_entropy_detected,
            100_000,
        ) + weigh(self.common_spray_size_match, 50_000) + weigh(self.rapid_allocations, 100_000)
            + repeated;
        if confidence < ONE { confidence } else { ONE }
    }
}

fn weigh(b: bool, weight: u32) -> (r: u32)
    ensures
        r == weight_if(b, weight as int),
        r <= weight,
{
    reveal(weight_if);
    if b { weight } else { 0 }
}

/// The kind of spray that is most likely.
pub fn determine_spray_type(indicators: &HeapSprayIndicators) -> (r: SprayType)
    ensures
        r == likely_spray(indicators@),
{
    if indicators.shellcode_patterns {
        SprayType::ShellcodeSpray
    } else if indicators.nop_sled_detected {
        match &indicators.nop_pattern_name {
            Some(n) => if contains(n.as_str(), "0c") || contains(n.as_str(), "0d") {
                SprayType::BrowserSpray
            } else {
                SprayType::NopSled
            },
            None => SprayType::NopSled,
        }
    } else if indicators.excessive_string_allocations {
        SprayType::JavaScriptSpray
    } else if indicators.large_identical_allocations {
        SprayType::GenericSpray
    } else {
        SprayType::Unknown
    }
}

/// An alert about a spray.
pub struct HeapSprayAlert {
    pub pid: u32,
    pub process_name: String,
    pub process_path: String,
    pub spray_type: SprayType,
    pub estimated_size: usize,
    pub pattern_detected: String,
    pub affected_memory_range: (usize, usize),
    /// In millionths.
    pub confidence: u32,
    pub identical_allocation_count: usize,
    pub indicators: HeapSprayIndicators,
    pub evidence: Vec<String>,
    pub mitre_id: &'static str,
    /// In milliseconds since the Unix epoch.
    pub timestamp: u64,
}

/// What an alert says.
#[verifier::ext_equal]
pub struct AlertModel {
    pub pid: u32,
    pub process_name: Seq<char>,
    pub process_path: Seq<char>,
    pub spray_type: SprayType,
    pub estimated_size: usize,
    pub pattern_detected: Seq<char>,
    pub affected_memory_range: (usize, usize),
    pub confidence: u32,
    pub identical_allocation_count: usize,
    pub indicators: IndicatorsModel,
    pub evidence: Seq<Seq<char>>,
    pub mitre_id: Seq<char>,
    pub timestamp: u64,
}

impl View for HeapSprayAlert {
    type V = AlertModel;

    open spec fn view(&self) -> AlertModel {
        AlertModel {
            pid: self.pid,
            process_name: self.process_name@,
            process_path: self.process_path@,
            spray_type: self.spray_type,
            estimated_size: self.estimated_size,
            pattern_detected: self.pattern_detected@,
            affected_memory_range: self.affected_memory_range,
            confidence: self.confidence,
            identical_allocation_count: self.identical_allocation_count,
            indicators: self.indicators@,
            evidence: texts(self.evidence@),
            mitre_id: self.mitre_id@,
            timestamp: self.timestamp,
        }
    }
}

/// What an optional alert says.
pub open spec fn alert_view(a: Option<HeapSprayAlert>) -> Option<AlertModel> {
    match a {
        Some(a) => Some(a@),
        None => None,
    }
}

/// The configuration of a detector.
pub struct HeapSprayConfig {
    /// How many allocations have to be alike for an alert.
    pub min_identical_allocations: usize,
    /// How many bytes they have to take up together.
    pub min_spray_size: usize,
    /// In millionths of a bit.
    pub max_spray_entropy: u32,
    /// In millionths.
    pub min_confidence: u32,
    pub rapid_allocation_window_secs: u64,
    pub rapid_allocation_threshold: usize,
    pub verbose: bool,
    /// In lower case.
    pub excluded_processes: Vec<String>,
}

/// Whether a configuration is the usual one.
pub open spec fn is_usual(c: HeapSprayConfig) -> bool {
    &&& c.min_identical_allocations == 20
    &&& c.min_spray_size == 10 * 1024 * 1024
    &&& c.max_spray_entropy == 2_500_000
    &&& c.min_confidence == 600_000
    &&& c.rapid_allocation_window_secs == 5
    &&& c.rapid_allocation_threshold == 50
    &&& !c.verbose
    &&& texts(c.excluded_processes@) == str_texts(EXCLUDED_PROCESSES@)
}

impl Default for HeapSprayConfig {
    fn default() -> (c: HeapSprayConfig)
        ensures
            is_usual(c),
    {
        HeapSprayConfig {
            min_identical_allocations: 20,
            min_spray_size: 10 * 1024 * 1024,
            max_spray_entropy: 2_500_000,
            min_confidence: 600_000,
            rapid_allocation_window_secs: 5,
            rapid_allocation_threshold: 50,
            verbose: false,
            excluded_processes: owned(&EXCLUDED_PROCESSES),
        }
    }
}

/// Whether an allocation was made within a window of seconds.
pub open spec fn is_recent(now: u64, window_secs: u64) -> spec_fn(TrackedAllocation) -> bool {
    |a: TrackedAllocation| now - a.timestamp < window_secs * 1000
}

/// Whether an allocation has one of the sizes that sprays use.
pub open spec fn has_spray_size(a: TrackedAllocation) -> bool {
    COMMON_SPRAY_SIZES@.contains(a.size)
}

/// The lowest address, of one allocation or more.
pub open spec fn lowest_address(entries: Seq<TrackedAllocation>) -> usize
    decreases entries.len(),
{
    if entries.len() <= 1 {
        entries[0].address
    } else {
        let rest = lowest_address(entries.drop_last());
        if entries.last().address < rest { entries.last().address } else { rest }
    }
}

/// The highest end, of one allocation or more.
pub open spec fn highest_end(entries: Seq<TrackedAllocation>) -> int
    decreases entries.len(),
{
    let end = entries.last().address + entries.last().size;
    if entries.len() <= 1 {
        end
    } else {
        let rest = highest_end(entries.drop_last());
        if end > rest { end } else { rest }
    }
}

/// What a process's allocations show.
pub open spec fn allocation_indicators(
    config: HeapSprayConfig,
    entries: Seq<TrackedAllocation>,
    now: u64,
) -> IndicatorsModel {
    let stats = stats_of(entries);
    let identical = stats.most_common_hash_count >= config.min_identical_allocations;
    IndicatorsModel {
        large_identical_allocations: identical,
        same_content_count: if identical { stats.most_common_hash_count } else { 0 },
        low_entropy_detected: stats.average_entropy < config.max_spray_entropy,
        total_spray_size: if stats.total_size >= config.min_spray_size { stats.total_size } else { 0
        },
        common_spray_size_match: exists|i: int|
            0 <= i < entries.len() && has_spray_size(#[trigger] entries[i]),
        rapid_allocations: entries.filter(is_recent(now, config.rapid_allocation_window_secs)).len()
            >= config.rapid_allocation_threshold,
        ..no_indicators()
    }
}

/// The evidence that a process's allocations give.
pub open spec fn allocation_evidence(
    i: IndicatorsModel,
    average_entropy: u32,
    recent: nat,
    window_secs: u64,
) -> Seq<Seq<char>> {
    let none = Seq::<Seq<char>>::empty();
    let a = if i.large_identical_allocations {
        none.push(
            decimal(i.same_content_count as nat) + " allocations with identical content detected"@,
        )
    } else {
        none
    };
    let b = if i.low_entropy_detected {
        a.push(
            "Low average entropy ("@ + hundredths(rounded(average_entropy as nat, 10_000))
                + ") indicates repetitive content"@,
        )
    } else {
        a
    };
    let c = if i.total_spray_size > 0 {
        b.push(
            "Total spray size: "@ + decimal(i.total_spray_size as nat / (1024 * 1024)) + " MB"@,
        )
    } else {
        b
    };
    if i.rapid_allocations {
        c.push(
            decimal(recent) + " allocations in "@ + decimal(window_secs as nat) + " second window"@,
        )
    } else {
        c
    }
}

/// The alert that a process's allocations give rise to.
pub open spec fn allocation_alert(
    config: HeapSprayConfig,
    known: Seq<(u32, u64)>,
    entries: Seq<TrackedAllocation>,
    pid: u32,
    name: Seq<char>,
    path: Seq<char>,
    now: u64,
) -> Option<AlertModel> {
    let stats = stats_of(entries);
    let indicators = allocation_indicators(config, entries, now);
    let confidence = indicator_confidence(indicators);
    if entries.len() == 0 || stats.most_common_hash_count < config.min_identical_allocations
        || stats.total_size < config.min_spray_size || confidence < config.min_confidence
        || known.contains((pid, (most_common_hash(entries)->0).0)) {
        None
    } else {
        let spray_type = likely_spray(indicators);
        Some(
            AlertModel {
                pid,
                process_name: name,
                process_path: path,
                spray_type,
                estimated_size: stats.total_size,
                pattern_detected: spray_type.spec_as_str(),
                affected_memory_range: (lowest_address(entries), highest_end(entries) as usize),
                confidence,
                identical_allocation_count: stats.most_common_hash_count,
                indicators,
                evidence: allocation_evidence(
                    indicators,
                    stats.average_entropy,
                    entries.filter(is_recent(now, config.rapid_allocation_window_secs)).len(),
                    config.rapid_allocation_window_secs,
                ),
                mitre_id: "T1203"@,
                timestamp: now,
            },
        )
    }
}

/// Indicators and the evidence for them.
#[verifier::ext_equal]
pub struct ContentFindings {
    pub indicators: IndicatorsModel,
    pub evidence: Seq<Seq<char>>,
}

/// What the pattern of a content shows.
pub open spec fn pattern_findings(p: Option<SprayPatternModel>) -> ContentFindings {
    let none = Seq::<Seq<char>>::empty();
    match p {
        Some(p) => match p.pattern_type {
            SprayPatternType::NopSled => ContentFindings {
                indicators: IndicatorsModel {
                    nop_sled_detected: true,
                    nop_pattern_name: Some(p.pattern_name),
                    ..no_indicators()
                },
                evidence: none.push(
                    "NOP sled pattern '"@ + p.pattern_name + "' detected ("@ + decimal(
                        p.repetition_count,
                    ) + " repetitions)"@,
                ),
            },
            SprayPatternType::Shellcode => ContentFindings {
                indicators: IndicatorsModel {
                    shellcode_patterns: true,
                    shellcode_pattern_name: Some(p.pattern_name),
                    ..no_indicators()
                },
                evidence: none.push("Shellcode signature '"@ + p.pattern_name + "' detected"@),
            },
            SprayPatternType::RepetitiveContent => ContentFindings {
                indicators: IndicatorsModel {
                    large_identical_allocations: true,
                    ..no_indicators()
                },
                evidence: none.push(
                    "Highly repetitive content pattern "@ + p.pattern_name + " ("@ + decimal(
                        p.repetition_count,
                    ) + " repetitions)"@,
                ),
            },
            SprayPatternType::JumpTrampoline => ContentFindings {
                indicators: no_indicators(),
                evidence: none,
            },
        },
        None => ContentFindings { indicators: no_indicators(), evidence: none },
    }
}

/// The first of the target addresses, from `i` on, that stands in a content.
pub open spec fn first_target(content: Seq<u8>, i: int) -> Option<u64>
    decreases 12 - i,
{
    if i < 0 || i >= 12 {
        None
    } else if found(content, number_bytes(SPRAY_TARGET_ADDRESSES@[i])) {
        Some(SPRAY_TARGET_ADDRESSES@[i])
    } else {
        first_target(content, i + 1)
    }
}

/// All that a content shows.
pub open spec fn content_findings(
    max_entropy: u32,
    content: Seq<u8>,
    entropy: u32,
    p: Option<SprayPatternModel>,
) -> ContentFindings {
    let a = pattern_findings(p);
    let names = found_names(content, shellcode_patterns());
    let b = if names.len() > 0 {
        ContentFindings {
            indicators: IndicatorsModel {
                shellcode_patterns: true,
                shellcode_pattern_name: Some(names[0]),
                ..a.indicators
            },
            evidence: a.evidence.push("Shellcode signatures found: "@ + joined(names, ", "@)),
        }
    } else {
        a
    };
    let c = if entropy < max_entropy {
        ContentFindings {
            indicators: IndicatorsModel { low_entropy_detected: true, ..b.indicators },
            evidence: b.evidence.push(
                "Low entropy ("@ + hundredths(rounded(entropy as nat, 10_000))
                    + ") indicates spray content"@,
            ),
        }
    } else {
        b
    };
    let d = match first_target(content, 0) {
        Some(t) => ContentFindings {
            indicators: IndicatorsModel { predictable_addresses: true, ..c.indicators },
            evidence: c.evidence.push(
                "Spray target address 0x"@ + padded(t as nat, 16, true, 8) + " found in content"@,
            ),
        },
        None => c,
    };
    ContentFindings {
        indicators: IndicatorsModel {
            total_spray_size: content.len() as usize,
            ..d.indicators
        },
        ..d
    }
}

/// The alert that a content gives rise to, given the pattern that it shows.
pub open spec fn content_alert(
    config: HeapSprayConfig,
    pid: u32,
    address: usize,
    content: Seq<u8>,
    entropy: u32,
    p: Option<SprayPatternModel>,
    name: Seq<char>,
    path: Seq<char>,
    now: u64,
) -> Option<AlertModel> {
    let f = content_findings(config.max_spray_entropy, content, entropy, p);
    let confidence = indicator_confidence(f.indicators);
    if content.len() < 1024 || confidence < config.min_confidence {
        None
    } else {
        let spray_type = likely_spray(f.indicators);
        Some(
            AlertModel {
                pid,
                process_name: name,
                process_path: path,
                spray_type,
                estimated_size: content.len() as usize,
                pattern_detected: match f.indicators.shellcode_pattern_name {
                    Some(n) => n,
                    None => match f.indicators.nop_pattern_name {
                        Some(n) => n,
                        None => spray_type.spec_as_str(),
                    },
                },
                affected_memory_range: (address, (address + content.len()) as usize),
                confidence,
                identical_allocation_count: 1,
                indicators: f.indicators,
                evidence: f.evidence,
                mitre_id: "T1203"@,
                timestamp: now,
            },
        )
    }
}

fn is_common_spray_size(size: usize) -> (r: bool)
    ensures
        r == COMMON_SPRAY_SIZES@.contains(size),
{
    let mut i: usize = 0;
    while i < 12
        invariant
            i <= 12,
            forall|j: int| 0 <= j < i ==> COMMON_SPRAY_SIZES@[j] != size,
        decreases 12 - i,
    {
        if COMMON_SPRAY_SIZES[i] == size {
            assert(COMMON_SPRAY_SIZES@[i as int] == size);
            return true;
        }
        i += 1;
    }
    false
}

/// A detector of sprays.
pub struct HeapSprayDetector {
    pub allocation_tracker: AllocationTracker,
    pub pattern_matcher: PatternMatcher,
    pub config: HeapSprayConfig,
    /// The processes and the hashes that were reported.
    pub known_alerts: Vec<(u32, u64)>,
    /// In milliseconds.
    pub last_cleanup: u64,
}

/// The name of a process whose own name cannot be found out.
pub fn unnamed_process(pid: u32) -> (r: String)
    ensures
        r@ == "pid_"@ + decimal(pid as nat),
{
    "pid_".to_string().concat(decimal_text(pid as u64).as_str())
}

/// How many alerts stay known when there are too many.
pub const MAX_KNOWN_ALERTS: usize = 1000;

/// The last of the known alerts, as many as stay.
pub open spec fn last_known(known: Seq<(u32, u64)>) -> Seq<(u32, u64)> {
    if known.len() > MAX_KNOWN_ALERTS {
        known.skip(known.len() - MAX_KNOWN_ALERTS)
    } else {
        known
    }
}

/// The alerts that are known once one is.
pub open spec fn with_known(known: Seq<(u32, u64)>, pid: u32, content_hash: u64) -> Seq<
    (u32, u64),
> {
    if known.contains((pid, content_hash)) {
        known
    } else {
        known.push((pid, content_hash))
    }
}

impl HeapSprayDetector {
    /// The tracker and the matcher are in order.
    pub open spec fn wf(&self) -> bool {
        self.allocation_tracker.wf() && self.pattern_matcher.wf()
    }

    /// Whether everything but the tracked allocations is the same.
    pub open spec fn same_setup(&self, other: &HeapSprayDetector) -> bool {
        &&& self.config == other.config
        &&& self.known_alerts == other.known_alerts
        &&& self.last_cleanup == other.last_cleanup
        &&& self.allocation_tracker.max_allocations_per_process
            == other.allocation_tracker.max_allocations_per_process
    }

    /// Whether a detector is this one after it was cleaned up: not before the
    /// interval is over, then without the allocations that expired, and with the
    /// last alerts where there are too many.
    pub open spec fn cleaned_up(&self, after: &HeapSprayDetector, now: u64) -> bool {
        if now - self.last_cleanup > CLEANUP_INTERVAL_MS {
            &&& after.config == self.config
            &&& after.last_cleanup == now
            &&& after.known_alerts@ == last_known(self.known_alerts@)
            &&& after.allocation_tracker.max_allocations_per_process
                == self.allocation_tracker.max_allocations_per_process
            &&& forall|pid: u32| #[trigger]
                after.allocation_tracker.entries(pid) == without_expired(
                    self.allocation_tracker.entries(pid),
                    now,
                )
        } else {
            after.same_setup(self) && after.allocation_tracker == self.allocation_tracker
        }
    }

    /// A detector with a configuration.
    pub fn new(config: HeapSprayConfig, now: u64) -> (d: HeapSprayDetector)
        ensures
            d.wf(),
            d.config == config,
            d.known_alerts@ == Seq::<(u32, u64)>::empty(),
            d.last_cleanup == now,
            forall|pid: u32|
                #[trigger] d.allocation_tracker.entries(pid) == Seq::<TrackedAllocation>::empty(),
            d.allocation_tracker.max_allocations_per_process == 10_000,
    {
        HeapSprayDetector {
            allocation_tracker: AllocationTracker::new(),
            pattern_matcher: PatternMatcher::new(),
            config,
            known_alerts: Vec::new(),
            last_cleanup: now,
        }
    }

    /// Tracks an allocation of which the hash is known, and not the content.
    pub fn track_allocation(
        &mut self,
        pid: u32,
        addr: usize,
        size: usize,
        content_hash: u64,
        now: u64,
    )
        requires
            old(self).wf(),
        ensures
            final(self).wf(),
            final(self).same_setup(old(self)),
            final(self).allocation_tracker.max_allocations_per_process == old(
                self,
            ).allocation_tracker.max_allocations_per_process,
            final(self).allocation_tracker.entries(pid) == newest(
                old(self).allocation_tracker.entries(pid).push(
                    TrackedAllocation {
                        address: addr,
                        size,
                        content_hash,
                        entropy: (bit_changes(content_hash, 63) * 8_000_000 / 63) as u32,
                        timestamp: now,
                        protection: 0,
                    },
                ),
                old(self).allocation_tracker.max_allocations_per_process as nat,
            ),
            forall|other: u32|
                other != pid ==> #[trigger] final(self).allocation_tracker.entries(other) == old(
                    self,
                ).allocation_tracker.entries(other),
    {
        let entropy: u32 = estimate_entropy_from_hash(content_hash);
        self.allocation_tracker.track_allocation(pid, addr, size, content_hash, entropy, 0, now);
    }

    /// Tracks an allocation with its content, whose entropy is known.
    pub fn track_allocation_with_content(
        &mut self,
        pid: u32,
        addr: usize,
        size: usize,
        content: &[u8],
        entropy: u32,
        now: u64,
    )
        requires
            old(self).wf(),
        ensures
            final(self).wf(),
            final(self).same_setup(old(self)),
            final(self).allocation_tracker.entries(pid) == newest(
                old(self).allocation_tracker.entries(pid).push(
                    TrackedAllocation {
                        address: addr,
                        size,
                        content_hash: content_hash(content@),
                        entropy,
                        timestamp: now,
                        protection: 0,
                    },
                ),
                old(self).allocation_tracker.max_allocations_per_process as nat,
            ),
            forall|other: u32|
                other != pid ==> #[trigger] final(self).allocation_tracker.entries(other) == old(
                    self,
                ).allocation_tracker.entries(other),
    {
        let hash: u64 = calculate_content_hash(content);
        self.allocation_tracker.track_allocation(pid, addr, size, hash, entropy, 0, now);
    }

    fn knows(&self, pid: u32, hash: u64) -> (r: bool)
        ensures
            r == self.known_alerts@.contains((pid, hash)),
    {
        let mut i: usize = 0;
        while i < self.known_alerts.len()
            invariant
                i <= self.known_alerts@.len(),
                forall|j: int| 0 <= j < i ==> self.known_alerts@[j] != (pid, hash),
            decreases self.known_alerts@.len() - i,
        {
            let entry = self.known_alerts[i];
            if entry.0 == pid && entry.1 == hash {
                assert(self.known_alerts@[i as int] == (pid, hash));
                return true;
            }
            i += 1;
        }
        false
    }

    /// Looks for a spray among the allocations of a process, whose name and path
    /// are given.
    pub fn analyze(
        &self,
        pid: u32,
        process_name: String,
        process_path: String,
        now: u64,
    ) -> (r: Option<HeapSprayAlert>)
        requires
            self.wf(),
            total_size(self.allocation_tracker.entries(pid)) <= usize::MAX,
            forall|i: int|
                0 <= i < self.allocation_tracker.entries(pid).len() ==> (
                #[trigger] self.allocation_tracker.entries(pid)[i]).address
                    + self.allocation_tracker.entries(pid)[i].size <= usize::MAX,
        ensures
            alert_view(r) == allocation_alert(
                self.config,
                self.known_alerts@,
                self.allocation_tracker.entries(pid),
                pid,
                process_name@,
                process_path@,
                now,
            ),
    {
        let ghost entries = self.allocation_tracker.entries(pid);
        let stats = self.allocation_tracker.get_stats(pid);
        if stats.most_common_hash_count < self.config.min_identical_allocations || stats.total_size
            < self.config.min_spray_size {
            return None;
        }
        let allocations = self.allocation_tracker.get_allocations(pid);
        if allocations.len() == 0 {
            return None;
        }
        let mut indicators = HeapSprayIndicators::default();
        if stats.most_common_hash_count >= self.config.min_identical_allocations {
            indicators.large_identical_allocations = true;
            indicators.same_content_count = stats.most_common_hash_count;
        }
        if stats.average_entropy < self.config.max_spray_entropy {
            indicators.low_entropy_detected = true;
        }
        if stats.total_size >= self.config.min_spray_size {
            indicators.total_spray_size = stats.total_size;
        }
        let window: u64 = self.config.rapid_allocation_window_secs;
        let mut lowest: usize = allocations[0].address;
        let mut highest: usize = allocations[0].address + allocations[0].size;
        let mut size_match = has_common_size(&allocations[0]);
        let mut i: usize = 1;
        assert(entries.take(1) =~= seq![entries[0]]);
        while i < allocations.len()
            invariant
                1 <= i <= allocations@.len(),
                allocations@ == entries,
                forall|k: int|
                    0 <= k < entries.len() ==> (#[trigger] entries[k]).address + entries[k].size
                        <= usize::MAX,
                lowest == lowest_address(entries.take(i as int)),
                highest == highest_end(entries.take(i as int)),
                size_match == exists|k: int| 0 <= k < i && has_spray_size(#[trigger] entries[k]),
            decreases allocations@.len() - i,
        {
            assert(entries.take(i + 1).drop_last() =~= entries.take(i as int));
            let a = allocations[i];
            assert(a == entries[i as int]);
            if a.address < lowest {
                lowest = a.address;
            }
            if a.address + a.size > highest {
                highest = a.address + a.size;
            }
            size_match = size_match || has_common_size(&a);
            i += 1;
        }
        assert(entries.take(i as int) =~= entries);
        if size_match {
            indicators.common_spray_size_match = true;
        }
        let meets = |a: &TrackedAllocation| -> (b: bool)
            ensures
                b == (now - a.timestamp < window * 1000),
            { made_within(a.timestamp, now, window) };
        let recent_count: usize = count_where(
            &allocations,
            meets,
            Ghost(is_recent(now, window)),
        );
        if recent_count >= self.config.rapid_allocation_threshold {
            indicators.rapid_allocations = true;
        }
        assert(indicators@ =~= allocation_indicators(self.config, entries, now));
        let confidence: u32 = indicators.calculate_confidence();
        if confidence < self.config.min_confidence {
            return None;
        }
        proof {
            lemma_best_hash(entries, entries.len());
        }
        match self.allocation_tracker.get_most_common_hash(pid) {
            None => {
                return None;
            },
            Some((hash, _)) => {
                if self.knows(pid, hash) {
                    return None;
                }
            },
        }
        let spray_type = determine_spray_type(&indicators);
        let mut evidence: Vec<String> = Vec::new();
        assert(texts(evidence@) =~= Seq::empty());
        if indicators.large_identical_allocations {
            push_text(
                &mut evidence,
                decimal_text(indicators.same_content_count as u64).concat(
                    " allocations with identical content detected",
                ),
            );
        }
        if indicators.low_entropy_detected {
            push_text(
                &mut evidence,
                "Low average entropy (".to_string().concat(
                    hundredths_text(round_to(stats.average_entropy as u64, 10_000)).as_str(),
                ).concat(") indicates repetitive content"),
            );
        }
        if indicators.total_spray_size > 0 {
            push_text(
                &mut evidence,
                "Total spray size: ".to_string().concat(
                    decimal_text((indicators.total_spray_size / (1024 * 1024)) as u64).as_str(),
                ).concat(" MB"),
            );
        }
        if indicators.rapid_allocations {
            push_text(
                &mut evidence,
                decimal_text(recent_count as u64).concat(" allocations in ").concat(
                    decimal_text(window).as_str(),
                ).concat(" second window"),
            );
        }
        Some(
            HeapSprayAlert {
                pid,
                process_name,
                process_path,
                spray_type,
                estimated_size: stats.total_size,
                pattern_detected: spray_type.as_str().to_string(),
                affected_memory_range: (lowest, highest),
                confidence,
                identical_allocation_count: stats.most_common_hash_count,
                indicators,
                evidence,
                mitre_id: "T1203",
                timestamp: now,
            },
        )
    }

    /// Looks for a spray in a content, whose entropy is known, of a process whose
    /// name and path are given.
    pub fn analyze_memory_content(
        &self,
        pid: u32,
        address: usize,
        content: &[u8],
        entropy: u32,
        process_name: String,
        process_path: String,
        now: u64,
    ) -> (r: Option<HeapSprayAlert>)
        requires
            self.wf(),
            address + content@.len() <= usize::MAX,
        ensures
            exists|p: Option<SprayPatternModel>| #[trigger]
                is_spray_pattern(content@, entropy, p) && alert_view(r) == content_alert(
                    self.config,
                    pid,
                    address,
                    content@,
                    entropy,
                    p,
                    process_name@,
                    process_path@,
                    now,
                ),
    {
        let pattern = self.pattern_matcher.detect_spray_pattern(content, entropy);
        let ghost p = pattern_view(pattern);
        assert(is_spray_pattern(content@, entropy, p));
        if content.len() < 1024 {
            return None;
        }
        let mut indicators = HeapSprayIndicators::default();
        let mut evidence: Vec<String> = Vec::new();
        assert(texts(evidence@) =~= Seq::empty());
        if let Some(pattern) = pattern {
            match pattern.pattern_type {
                SprayPatternType::NopSled => {
                    indicators.nop_sled_detected = true;
                    indicators.nop_pattern_name = Some(pattern.pattern_name.clone());
                    push_text(
                        &mut evidence,
                        "NOP sled pattern '".to_string().concat(
                            pattern.pattern_name.as_str(),
                        ).concat("' detected (").concat(
                            decimal_text(pattern.repetition_count as u64).as_str(),
                        ).concat(" repetitions)"),
                    );
                },
                SprayPatternType::Shellcode => {
                    indicators.shellcode_patterns = true;
                    indicators.shellcode_pattern_name = Some(pattern.pattern_name.clone());
                    push_text(
                        &mut evidence,
                        "Shellcode signature '".to_string().concat(
                            pattern.pattern_name.as_str(),
                        ).concat("' detected"),
                    );
                },
                SprayPatternType::RepetitiveContent => {
                    indicators.large_identical_allocations = true;
                    push_text(
                        &mut evidence,
                        "Highly repetitive content pattern ".to_string().concat(
                            pattern.pattern_name.as_str(),
                        ).concat(" (").concat(
                            decimal_text(pattern.repetition_count as u64).as_str(),
                        ).concat(" repetitions)"),
                    );
                },
                SprayPatternType::JumpTrampoline => {},
            }
        }
        assert(indicators@ =~= pattern_findings(p).indicators);
        let shellcode_found = self.pattern_matcher.contains_shellcode(content);
        if shellcode_found.len() > 0 {
            indicators.shellcode_patterns = true;
            indicators.shellcode_pattern_name = Some(shellcode_found[0].clone());
            assert(texts(shellcode_found@)[0] == shellcode_found@[0]@);
            push_text(
                &mut evidence,
                "Shellcode signatures found: ".to_string().concat(
                    join(&shellcode_found, ", ").as_str(),
                ),
            );
        }
        if entropy < self.config.max_spray_entropy {
            indicators.low_entropy_detected = true;
            push_text(
                &mut evidence,
                "Low entropy (".to_string().concat(
                    hundredths_text(round_to(entropy as u64, 10_000)).as_str(),
                ).concat(") indicates spray content"),
            );
        }
        if let Some(target) = find_target(content) {
            indicators.predictable_addresses = true;
            push_text(
                &mut evidence,
                "Spray target address 0x".to_string().concat(
                    hex_padded_text(target, 8).as_str(),
                ).concat(" found in content"),
            );
        }
        indicators.total_spray_size = content.len();
        assert(indicators@ =~= content_findings(
            self.config.max_spray_entropy,
            content@,
            entropy,
            p,
        ).indicators);
        let confidence: u32 = indicators.calculate_confidence();
        if confidence < self.config.min_confidence {
            return None;
        }
        let spray_type = determine_spray_type(&indicators);
        let pattern_detected = match &indicators.shellcode_pattern_name {
            Some(n) => n.clone(),
            None => match &indicators.nop_pattern_name {
                Some(n) => n.clone(),
                None => spray_type.as_str().to_string(),
            },
        };
        Some(
            HeapSprayAlert {
                pid,
                process_name,
                process_path,
                spray_type,
                estimated_size: content.len(),
                pattern_detected,
                affected_memory_range: (address, address + content.len()),
                confidence,
                identical_allocation_count: 1,
                indicators,
                evidence,
                mitre_id: "T1203",
                timestamp: now,
            },
        )
    }

    /// Notes that a content of a process was reported.
    pub fn mark_alert_known(&mut self, pid: u32, content_hash: u64)
        ensures
            final(self).known_alerts@ == with_known(old(self).known_alerts@, pid, content_hash),
            final(self).config == old(self).config,
            final(self).last_cleanup == old(self).last_cleanup,
            final(self).allocation_tracker == old(self).allocation_tracker,
            final(self).pattern_matcher == old(self).pattern_matcher,
    {
        if !self.knows(pid, content_hash) {
            self.known_alerts.push((pid, content_hash));
        }
    }

    /// Tidies up, where that was not done lately: drops expired allocations, and the
    /// first of too long a list of reports.
    pub fn cleanup(&mut self, now: u64)
        requires
            old(self).wf(),
        ensures
            final(self).wf(),
            old(self).cleaned_up(final(self), now),
    {
        if now >= self.last_cleanup && now - self.last_cleanup > CLEANUP_INTERVAL_MS {
            self.allocation_tracker.cleanup(now);
            if self.known_alerts.len() > MAX_KNOWN_ALERTS {
                let first: usize = self.known_alerts.len() - MAX_KNOWN_ALERTS;
                let ghost known = self.known_alerts@;
                let kept = self.known_alerts.split_off(first);
                self.known_alerts = kept;
                assert(self.known_alerts@ =~= known.skip(first as int));
            }
            self.last_cleanup = now;
        }
    }

    /// Whether a process is one to monitor, in any case of its letters.
    pub fn should_monitor_process(&self, process_name: &str) -> (r: bool)
        ensures
            r == !texts(self.config.excluded_processes@).contains(lowercase(process_name@)),
            is_ascii_chars(process_name@) ==> r == !texts(
                self.config.excluded_processes@,
            ).contains(ascii_lowered(process_name@)),
    {
        let name = to_lowercase(process_name);
        !holds(&self.config.excluded_processes, name.as_str())
    }
}

fn has_common_size(a: &TrackedAllocation) -> (r: bool)
    ensures
        r == has_spray_size(*a),
{
    is_common_spray_size(a.size)
}

fn made_within(timestamp: u64, now: u64, window_secs: u64) -> (r: bool)
    ensures
        r == (now - timestamp < window_secs * 1000),
{
    if now < timestamp {
        true
    } else {
        ((now - timestamp) as u128) < (window_secs as u128) * 1000
    }
}

fn find_target(content: &[u8]) -> (r: Option<u64>)
    ensures
        r == first_target(content@, 0),
{
    let mut i: usize = 0;
    while i < 12
        invariant
            i <= 12,
            first_target(content@, 0) == first_target(content@, i as int),
        decreases 12 - i,
    {
        let target: u64 = SPRAY_TARGET_ADDRESSES[i];
        let bytes = le_bytes(target);
        if find_bytes(content, &bytes) {
            return Some(target);
        }
        i += 1;
    }
    None
}

/// What a pattern in memory is.
#[derive(Clone, Copy, Debug, PartialEq, Eq, Structural)]
pub enum PatternType {
    NopSled,
    Shellcode,
    JumpTrampoline,
    RopGadget,
    Padding,
}

/// What the pattern of a region is.
pub open spec fn region_pattern_type(t: SprayPatternType) -> PatternType {
    match t {
        SprayPatternType::NopSled => PatternType::NopSled,
        SprayPatternType::Shellcode => PatternType::Shellcode,
        _ => PatternType::Padding,
    }
}

/// A pattern in memory.
pub struct DetectedPattern {
    pub name: String,
    pub pattern_type: PatternType,
    pub offset: usize,
    pub length: usize,
}

/// What a pattern in memory says.
#[verifier::ext_equal]
pub struct DetectedPatternModel {
    pub name: Seq<char>,
    pub pattern_type: PatternType,
    pub offset: usize,
    pub length: usize,
}

impl View for DetectedPattern {
    type V = DetectedPatternModel;

    open spec fn view(&self) -> DetectedPatternModel {
        DetectedPatternModel {
            name: self.name@,
            pattern_type: self.pattern_type,
            offset: self.offset,
            length: self.length,
        }
    }
}

/// A region that shows a pattern.
pub struct SuspiciousRegion {
    pub address: usize,
    pub size: usize,
    pub reason: String,
    pub pattern: Option<DetectedPattern>,
    pub content_hash: u64,
    /// In millionths of a bit.
    pub entropy: u32,
}

/// What a region that shows a pattern says.
#[verifier::ext_equal]
pub struct SuspiciousRegionModel {
    pub address: usize,
    pub size: usize,
    pub reason: Seq<char>,
    pub pattern: Option<DetectedPatternModel>,
    pub content_hash: u64,
    pub entropy: u32,
}

impl View for SuspiciousRegion {
    type V = SuspiciousRegionModel;

    open spec fn view(&self) -> SuspiciousRegionModel {
        SuspiciousRegionModel {
            address: self.address,
            size: self.size,
            reason: self.reason@,
            pattern: match self.pattern {
                Some(p) => Some(p@),
                None => None,
            },
            content_hash: self.content_hash,
            entropy: self.entropy,
        }
    }
}

/// The entropies of the regions that were read, in millionths of a bit.
#[derive(Clone, Copy, Debug, PartialEq, Eq, Structural)]
pub struct EntropyResult {
    pub average_entropy: u32,
    pub min_entropy: u32,
    pub max_entropy: u32,
    /// How many lie below two bits.
    pub low_entropy_count: usize,
}

/// What the layout of a process's memory shows.
pub struct MemoryAnalysis {
    pub suspicious_regions: Vec<SuspiciousRegion>,
    pub total_rw_memory: usize,
    pub identical_region_count: usize,
    pub entropy_analysis: EntropyResult,
    pub detected_patterns: Vec<DetectedPattern>,
}

/// A region of a process's memory, with its first bytes where they were read.
pub struct ScannedRegion {
    pub base: usize,
    pub size: usize,
    pub state: u32,
    pub mem_type: u32,
    pub protection: u32,
    /// Empty where nothing was read.
    pub content: Vec<u8>,
    /// Of the content, in millionths of a bit.
    pub entropy: u32,
}

/// Whether a region is committed, private, and readable and writable.
pub open spec fn is_heap_region(state: u32, mem_type: u32, protection: u32) -> bool {
    state & 0x1000 != 0 && mem_type & 0x20000 != 0 && protection & 0x04 != 0
}

/// How many bytes at the start of a region are read: none of a region that is
/// no heap or is small.
pub fn layout_read_size(size: usize, state: u32, mem_type: u32, protection: u32) -> (r: usize)
    ensures
        r == if is_heap_region(state, mem_type, protection) && size >= 0x10000 {
            4096usize
        } else {
            0usize
        },
{
    if state & 0x1000 != 0 && mem_type & 0x20000 != 0 && protection & 0x04 != 0 && size
        >= 0x10000 {
        4096
    } else {
        0
    }
}

/// Where the region behind one begins, if there is one.
pub fn next_region_address(base: usize, size: usize) -> (r: Option<usize>)
    ensures
        r == if base + size <= usize::MAX {
            Some((base + size) as usize)
        } else {
            None
        },
{
    base.checked_add(size)
}

/// Whether a region's content is looked at.
pub open spec fn is_read(r: ScannedRegion) -> bool {
    is_heap_region(r.state, r.mem_type, r.protection) && r.size >= 0x10000 && r.content@.len() > 0
}

/// Whether a region is heap.
pub open spec fn is_heap(r: ScannedRegion) -> bool {
    is_heap_region(r.state, r.mem_type, r.protection)
}

/// The sum of the sizes of the heap regions.
pub open spec fn heap_size(regions: Seq<ScannedRegion>) -> nat
    decreases regions.len(),
{
    if regions.len() == 0 {
        0
    } else {
        heap_size(regions.drop_last()) + if is_heap(regions.last()) {
            regions.last().size as nat
        } else {
            0
        }
    }
}

/// Whether patterns are those of the first `n` regions.
pub open spec fn are_patterns(
    regions: Seq<ScannedRegion>,
    patterns: Seq<Option<SprayPatternModel>>,
    n: nat,
) -> bool {
    &&& patterns.len() == n
    &&& forall|i: int|
        0 <= i < n && is_read(regions[i]) ==> is_spray_pattern(
            regions[i].content@,
            regions[i].entropy,
            #[trigger] patterns[i],
        )
}

/// The regions, among the first `n`, that show a pattern.
pub open spec fn suspicious_regions(
    regions: Seq<ScannedRegion>,
    patterns: Seq<Option<SprayPatternModel>>,
    n: nat,
) -> Seq<SuspiciousRegionModel>
    decreases n,
{
    if n == 0 {
        Seq::empty()
    } else {
        let before = suspicious_regions(regions, patterns, (n - 1) as nat);
        let region = regions[n - 1];
        match patterns[n - 1] {
            Some(p) => if is_read(region) {
                before.push(
                    SuspiciousRegionModel {
                        address: region.base,
                        size: region.size,
                        reason: "Spray pattern detected: "@ + p.pattern_name + " ("@ + decimal(
                            p.repetition_count,
                        ) + "x)"@,
                        pattern: Some(
                            DetectedPatternModel {
                                name: p.pattern_name,
                                pattern_type: region_pattern_type(p.pattern_type),
                                offset: 0,
                                length: 4,
                            },
                        ),
                        content_hash: content_hash(region.content@),
                        entropy: region.entropy,
                    },
                )
            } else {
                before
            },
            None => before,
        }
    }
}

/// The patterns that the first `n` regions show.
pub open spec fn shown_patterns(
    regions: Seq<ScannedRegion>,
    patterns: Seq<Option<SprayPatternModel>>,
    n: nat,
) -> Seq<DetectedPatternModel>
    decreases n,
{
    if n == 0 {
        Seq::empty()
    } else {
        let before = shown_patterns(regions, patterns, (n - 1) as nat);
        let region = regions[n - 1];
        match patterns[n - 1] {
            Some(p) => if is_read(region) {
                before.push(
                    DetectedPatternModel {
                        name: p.pattern_name,
                        pattern_type: region_pattern_type(p.pattern_type),
                        offset: region.base,
                        length: region.size,
                    },
                )
            } else {
                before
            },
            None => before,
        }
    }
}

/// The hashes of the contents that are looked at, among the first `n` regions.
pub open spec fn read_hashes(regions: Seq<ScannedRegion>, n: nat) -> Seq<u64>
    decreases n,
{
    if n == 0 {
        Seq::empty()
    } else {
        let before = read_hashes(regions, (n - 1) as nat);
        if is_read(regions[n - 1]) {
            before.push(content_hash(regions[n - 1].content@))
        } else {
            before
        }
    }
}

/// The entropies of the contents that are looked at, among the first `n` regions.
pub open spec fn read_entropies(regions: Seq<ScannedRegion>, n: nat) -> Seq<u32>
    decreases n,
{
    if n == 0 {
        Seq::empty()
    } else {
        let before = read_entropies(regions, (n - 1) as nat);
        if is_read(regions[n - 1]) {
            before.push(regions[n - 1].entropy)
        } else {
            before
        }
    }
}

/// Whether a number is a given one.
pub open spec fn is_number(x: u64) -> spec_fn(u64) -> bool {
    |y: u64| y == x
}

/// How often a number stands in a sequence.
pub open spec fn times(s: Seq<u64>, x: u64) -> nat {
    s.filter(is_number(x)).len()
}

/// Whether a number stands in a sequence more than once.
pub open spec fn is_repeated(s: Seq<u64>) -> spec_fn(u64) -> bool {
    |x: u64| times(s, x) > 1
}

/// The sum of numbers.
pub open spec fn sum_of(s: Seq<u32>) -> nat
    decreases s.len(),
{
    if s.len() == 0 {
        0
    } else {
        sum_of(s.drop_last()) + s.last() as nat
    }
}

/// Whether figures are those of entropies.
pub open spec fn is_entropy_result(s: Seq<u32>, r: EntropyResult) -> bool {
    if s.len() == 0 {
        r == (EntropyResult {
            average_entropy: 0,
            min_entropy: 0,
            max_entropy: 0,
            low_entropy_count: 0,
        })
    } else {
        &&& r.average_entropy == sum_of(s) / s.len()
        &&& s.contains(r.min_entropy)
        &&& s.contains(r.max_entropy)
        &&& forall|i: int| 0 <= i < s.len() ==> r.min_entropy <= #[trigger] s[i] <= r.max_entropy
        &&& r.low_entropy_count == s.filter(|e: u32| e < 2_000_000).len()
    }
}

/// What regions that show a pattern say.
pub open spec fn suspicious_view(v: Seq<SuspiciousRegion>) -> Seq<SuspiciousRegionModel> {
    v.map_values(|r: SuspiciousRegion| r@)
}

/// What patterns in memory say.
pub open spec fn shown_view(v: Seq<DetectedPattern>) -> Seq<DetectedPatternModel> {
    v.map_values(|p: DetectedPattern| p@)
}

fn entropy_figures(s: &Vec<u32>) -> (r: EntropyResult)
    ensures
        is_entropy_result(s@, r),
{
    if s.len() == 0 {
        return EntropyResult {
            average_entropy: 0,
            min_entropy: 0,
            max_entropy: 0,
            low_entropy_count: 0,
        };
    }
    let mut sum: u128 = 0;
    let mut low: u32 = s[0];
    let mut high: u32 = s[0];
    let mut i: usize = 0;
    while i < s.len()
        invariant
            i <= s@.len(),
            s@.len() > 0,
            sum == sum_of(s@.take(i as int)),
            sum <= i * 0xFFFF_FFFF,
            s@.contains(low),
            s@.contains(high),
            forall|j: int| 0 <= j < i ==> low <= #[trigger] s@[j] <= high,
        decreases s@.len() - i,
    {
        proof {
            assert(s@.take(i + 1).drop_last() =~= s@.take(i as int));
            assert((i + 1) * 0xFFFF_FFFF <= 0xFFFF_FFFF * 0x1_0000_0000_0000_0000) by (
            nonlinear_arith)
                requires
                    i < usize::MAX,
            ;
        }
        let e: u32 = s[i];
        assert(s@[i as int] == e);
        sum = sum + e as u128;
        if e < low {
            low = e;
        }
        if e > high {
            high = e;
        }
        i += 1;
    }
    assert(s@.take(i as int) =~= s@);
    let count: usize = s.len();
    let average: u128 = sum / (count as u128);
    assert(average <= 0xFFFF_FFFF) by (nonlinear_arith)
        requires
            sum <= count * 0xFFFF_FFFF,
            count > 0,
            average == sum / (count as u128),
    ;
    let meets = |e: &u32| -> (b: bool)
        ensures
            b == (*e < 2_000_000),
        { *e < 2_000_000 };
    let low_count: usize = count_where(s, meets, Ghost(|e: u32| e < 2_000_000));
    EntropyResult {
        average_entropy: average as u32,
        min_entropy: low,
        max_entropy: high,
        low_entropy_count: low_count,
    }
}

fn times_in(s: &Vec<u64>, x: u64) -> (n: usize)
    ensures
        n == times(s@, x),
{
    let meets = |y: &u64| -> (b: bool)
        ensures
            b == (*y == x),
        { *y == x };
    count_where(s, meets, Ghost(is_number(x)))
}

fn repeated_count(s: &Vec<u64>) -> (n: usize)
    ensures
        n == s@.filter(is_repeated(s@)).len(),
{
    let meets = |x: &u64| -> (b: bool)
        ensures
            b == (times(s@, *x) > 1),
        { times_in(s, *x) > 1 };
    count_where(s, meets, Ghost(is_repeated(s@)))
}

fn region_type(t: SprayPatternType) -> (r: PatternType)
    ensures
        r == region_pattern_type(t),
{
    match t {
        SprayPatternType::NopSled => PatternType::NopSled,
        SprayPatternType::Shellcode => PatternType::Shellcode,
        _ => PatternType::Padding,
    }
}

/// Looks for signs of a spray in the regions of a process's memory. Of a process
/// that cannot be read there are no regions.
pub fn analyze_memory_layout(regions: &Vec<ScannedRegion>) -> (r: MemoryAnalysis)
    requires
        heap_size(regions@) <= usize::MAX,
    ensures
        r.total_rw_memory == heap_size(regions@),
        r.identical_region_count == ({
            let hashes = read_hashes(regions@, regions@.len());
            hashes.filter(is_repeated(hashes)).len()
        }),
        is_entropy_result(read_entropies(regions@, regions@.len()), r.entropy_analysis),
        exists|patterns: Seq<Option<SprayPatternModel>>| #[trigger]
            are_patterns(regions@, patterns, regions@.len()) && suspicious_view(
                r.suspicious_regions@,
            ) == suspicious_regions(regions@, patterns, regions@.len()) && shown_view(
                r.detected_patterns@,
            ) == shown_patterns(regions@, patterns, regions@.len()),
{
    let matcher = PatternMatcher::new();
    let mut suspicious: Vec<SuspiciousRegion> = Vec::new();
    let mut shown: Vec<DetectedPattern> = Vec::new();
    let mut total: usize = 0;
    let mut hashes: Vec<u64> = Vec::new();
    let mut entropies: Vec<u32> = Vec::new();
    let ghost mut patterns: Seq<Option<SprayPatternModel>> = Seq::empty();
    assert(suspicious_view(suspicious@) =~= Seq::empty());
    assert(shown_view(shown@) =~= Seq::empty());
    let mut i: usize = 0;
    while i < regions.len()
        invariant
            i <= regions@.len(),
            matcher.wf(),
            heap_size(regions@) <= usize::MAX,
            total == heap_size(regions@.take(i as int)),
            hashes@ == read_hashes(regions@, i as nat),
            entropies@ == read_entropies(regions@, i as nat),
            are_patterns(regions@, patterns, i as nat),
            suspicious_view(suspicious@) == suspicious_regions(regions@, patterns, i as nat),
            shown_view(shown@) == shown_patterns(regions@, patterns, i as nat),
        decreases regions@.len() - i,
    {
        let region = &regions[i];
        proof {
            assert(regions@.take(i + 1).drop_last() =~= regions@.take(i as int));
            lemma_heap_size_grows(regions@, i + 1);
        }
        let heap = region.state & 0x1000 != 0 && region.mem_type & 0x20000 != 0
            && region.protection & 0x04 != 0;
        let ghost before = patterns;
        let ghost mut shown_here: Option<SprayPatternModel> = None;
        if heap {
            total = total + region.size;
        }
        if heap && region.size >= 0x10000 && region.content.len() > 0 {
            let hash: u64 = calculate_content_hash(region.content.as_slice());
            hashes.push(hash);
            entropies.push(region.entropy);
            let pattern = matcher.detect_spray_pattern(region.content.as_slice(), region.entropy);
            proof {
                shown_here = pattern_view(pattern);
                patterns = patterns.push(shown_here);
                lemma_patterns_prefix(regions@, before, patterns, i as nat);
            }
            if let Some(p) = pattern {
                let ghost s0 = suspicious@;
                let ghost d0 = shown@;
                suspicious.push(
                    SuspiciousRegion {
                        address: region.base,
                        size: region.size,
                        reason: "Spray pattern detected: ".to_string().concat(
                            p.pattern_name.as_str(),
                        ).concat(" (").concat(
                            decimal_text(p.repetition_count as u64).as_str(),
                        ).concat("x)"),
                        pattern: Some(
                            DetectedPattern {
                                name: p.pattern_name.clone(),
                                pattern_type: region_type(p.pattern_type),
                                offset: 0,
                                length: 4,
                            },
                        ),
                        content_hash: hash,
                        entropy: region.entropy,
                    },
                );
                assert(suspicious_view(suspicious@) =~= suspicious_view(s0).push(
                    suspicious@.last()@,
                ));
                shown.push(
                    DetectedPattern {
                        name: p.pattern_name,
                        pattern_type: region_type(p.pattern_type),
                        offset: region.base,
                        length: region.size,
                    },
                );
                assert(shown_view(shown@) =~= shown_view(d0).push(shown@.last()@));
            }
        } else {
            proof {
                patterns = patterns.push(None);
                lemma_patterns_prefix(regions@, before, patterns, i as nat);
            }
        }
        assert(are_patterns(regions@, patterns, (i + 1) as nat)) by {
            assert forall|j: int| 0 <= j < i + 1 && is_read(regions@[j]) implies is_spray_pattern(
                regions@[j].content@,
                regions@[j].entropy,
                #[trigger] patterns[j],
            ) by {
                if j < i {
                    assert(patterns[j] == before[j]);
                }
            }
        }
        i += 1;
    }
    assert(regions@.take(i as int) =~= regions@);
    let identical: usize = repeated_count(&hashes);
    MemoryAnalysis {
        suspicious_regions: suspicious,
        total_rw_memory: total,
        identical_region_count: identical,
        entropy_analysis: entropy_figures(&entropies),
        detected_patterns: shown,
    }
}

proof fn lemma_heap_size_grows(regions: Seq<ScannedRegion>, n: int)
    requires
        0 <= n <= regions.len(),
    ensures
        heap_size(regions.take(n)) <= heap_size(regions),
    decreases regions.len() - n,
{
    if n < regions.len() {
        lemma_heap_size_grows(regions, n + 1);
        assert(regions.take(n + 1).drop_last() =~= regions.take(n));
    } else {
        assert(regions.take(n) =~= regions);
    }
}

proof fn lemma_patterns_prefix(
    regions: Seq<ScannedRegion>,
    a: Seq<Option<SprayPatternModel>>,
    b: Seq<Option<SprayPatternModel>>,
    n: nat,
)
    requires
        n <= a.len(),
        n <= b.len(),
        forall|i: int| 0 <= i < n ==> a[i] == b[i],
    ensures
        suspicious_regions(regions, a, n) == suspicious_regions(regions, b, n),
        shown_patterns(regions, a, n) == shown_patterns(regions, b, n),
    decreases n,
{
    if n > 0 {
        lemma_patterns_prefix(regions, a, b, (n - 1) as nat);
    }
}

/// What allocations say about a spray by a script.
pub struct JsSprayIndicator {
    pub pattern: String,
    pub spray_count: usize,
    pub total_memory: usize,
    /// In millionths.
    pub confidence: u32,
}

/// How many allocations have a size.
pub open spec fn size_count(entries: Seq<TrackedAllocation>, size: usize) -> nat
    decreases entries.len(),
{
    if entries.len() == 0 {
        0
    } else {
        size_count(entries.drop_last(), size) + if entries.last().size == size {
            1nat
        } else {
            0nat
        }
    }
}

/// Whether a size is one of the most common.
pub open spec fn is_most_common_size(entries: Seq<TrackedAllocation>, size: usize) -> bool {
    forall|other: usize| #[trigger] size_count(entries, other) <= size_count(entries, size)
}

/// Whether an allocation's content is repetitive.
pub open spec fn is_low_entropy(a: TrackedAllocation) -> bool {
    a.entropy < 2_500_000
}

/// The part of a confidence that a share of all gives: the whole where it is more
/// than four fifths, half where it is more than a half.
pub open spec fn share_weight(part: nat, all: nat, whole: int) -> int {
    if 5 * part > 4 * all {
        whole
    } else if 2 * part > all {
        whole / 2
    } else {
        0
    }
}

/// How sure a spray by a script is, in millionths.
pub open spec fn js_confidence(entries: Seq<TrackedAllocation>, size: usize) -> int {
    share_weight(size_count(entries, size), entries.len(), 400_000) + share_weight(
        entries.filter(|a: TrackedAllocation| is_low_entropy(a)).len(),
        entries.len(),
        300_000,
    ) + (if JS_SPRAY_SIZES@.contains(size) { 200_000int } else { 0 }) + (if total_size(entries) > 50
        * 1024 * 1024 {
        100_000int
    } else {
        0
    })
}

fn weigh_share(part: usize, all: usize, whole: u32) -> (r: u32)
    ensures
        r == share_weight(part as nat, all as nat, whole as int),
        r <= whole,
{
    if 5 * (part as u128) > 4 * (all as u128) {
        whole
    } else if 2 * (part as u128) > all as u128 {
        whole / 2
    } else {
        0
    }
}

/// Looks for a spray by a script among allocations: many of one size, with
/// repetitive content.
pub fn detect_js_heap_spray(allocations: &Vec<TrackedAllocation>) -> (r: Option<JsSprayIndicator>)
    requires
        total_size(allocations@) <= usize::MAX,
    ensures
        allocations@.len() < 50 ==> r is None,
        allocations@.len() >= 50 ==> exists|size: usize| #[trigger]
            is_most_common_size(allocations@, size) && size_count(allocations@, size) > 0 && (
            match r {
                Some(j) => js_confidence(allocations@, size) >= 600_000 && j.pattern@
                    == "JavaScript spray ("@ + decimal(size as nat / 1024) + "KB blocks)"@
                    && j.spray_count == size_count(allocations@, size) && j.total_memory
                    == total_size(allocations@) && j.confidence == js_confidence(
                    allocations@,
                    size,
                ),
                None => js_confidence(allocations@, size) < 600_000,
            }),
{
    if allocations.len() < 50 {
        return None;
    }
    let ghost entries = allocations@;
    let mut counts: HashMap<usize, usize> = HashMap::new();
    let mut best: usize = 0;
    let mut best_count: usize = 0;
    let mut total: usize = 0;
    let mut i: usize = 0;
    while i < allocations.len()
        invariant
            i <= allocations@.len(),
            entries == allocations@,
            total_size(entries) <= usize::MAX,
            total == total_size(entries.take(i as int)),
            forall|s: usize|
                #![trigger counts@.contains_key(s)]
                #![trigger size_count(entries.take(i as int), s)]
                if counts@.contains_key(s) {
                    counts@[s] == size_count(entries.take(i as int), s)
                } else {
                    size_count(entries.take(i as int), s) == 0
                },
            forall|s: usize| #[trigger] size_count(entries.take(i as int), s) <= best_count,
            best_count <= i,
            i > 0 ==> best_count > 0,
            best_count > 0 ==> best_count == size_count(entries.take(i as int), best),
        decreases allocations@.len() - i,
    {
        proof {
            assert(entries.take(i + 1).drop_last() =~= entries.take(i as int));
            lemma_total_size_grows(entries, i + 1);
        }
        let size: usize = allocations[i].size;
        let so_far: usize = match counts.get(&size) {
            Some(c) => *c,
            None => 0,
        };
        assert(so_far == size_count(entries.take(i as int), size));
        let ghost before = counts@;
        counts.insert(size, so_far + 1);
        total = total + size;
        assert(forall|s: usize|
            #[trigger] size_count(entries.take(i + 1), s) == size_count(entries.take(i as int), s)
                + if s == size {
                1nat
            } else {
                0nat
            });
        assert forall|s: usize| #![trigger counts@.contains_key(s)]
            if counts@.contains_key(s) {
                counts@[s] == size_count(entries.take(i + 1), s)
            } else {
                size_count(entries.take(i + 1), s) == 0
            } by {
            assert(before.contains_key(s) || !before.contains_key(s));
            assert(size_count(entries.take(i as int), s) >= 0);
        }
        if so_far + 1 > best_count {
            best = size;
            best_count = so_far + 1;
        }
        i += 1;
    }
    assert(entries.take(i as int) =~= entries);
    assert(is_most_common_size(entries, best));
    let meets = |a: &TrackedAllocation| -> (b: bool)
        ensures
            b == is_low_entropy(*a),
        { a.entropy < 2_500_000 };
    let low_count: usize = count_where(
        allocations,
        meets,
        Ghost(|a: TrackedAllocation| is_low_entropy(a)),
    );
    let mut confidence: u32 = weigh_share(best_count, allocations.len(), 400_000) + weigh_share(
        low_count,
        allocations.len(),
        300_000,
    );
    if is_js_spray_size(best) {
        confidence = confidence + 200_000;
    }
    if total > 50 * 1024 * 1024 {
        confidence = confidence + 100_000;
    }
    if confidence >= 600_000 {
        Some(
            JsSprayIndicator {
                pattern: "JavaScript spray (".to_string().concat(
                    decimal_text((best / 1024) as u64).as_str(),
                ).concat("KB blocks)"),
                spray_count: best_count,
                total_memory: total,
                confidence,
            },
        )
    } else {
        None
    }
}

fn is_js_spray_size(size: usize) -> (r: bool)
    ensures
        r == JS_SPRAY_SIZES@.contains(size),
{
    let mut i: usize = 0;
    while i < 7
        invariant
            i <= 7,
            forall|j: int| 0 <= j < i ==> JS_SPRAY_SIZES@[j] != size,
        decreases 7 - i,
    {
        if JS_SPRAY_SIZES[i] == size {
            assert(JS_SPRAY_SIZES@[i as int] == size);
            return true;
        }
        i += 1;
    }
    false
}

/// A size in the largest unit that it reaches, with one decimal place.
pub open spec fn size_text(bytes: nat) -> Seq<char> {
    if bytes >= 1024 * 1024 * 1024 {
        tenths(rounded(bytes * 10, 1024 * 1024 * 1024)) + " GB"@
    } else if bytes >= 1024 * 1024 {
        tenths(rounded(bytes * 10, 1024 * 1024)) + " MB"@
    } else if bytes >= 1024 {
        tenths(rounded(bytes * 10, 1024)) + " KB"@
    } else {
        decimal(bytes) + " B"@
    }
}

/// A size in the largest unit that it reaches, with one decimal place.
pub fn format_size(bytes: usize) -> (r: String)
    ensures
        r@ == size_text(bytes as nat),
{
    let b: u64 = bytes as u64;
    if b >= 1024 * 1024 * 1024 {
        tenths_text(gigabyte_tenths(b)).concat(" GB")
    } else if b >= 1024 * 1024 {
        tenths_text(round_to(b * 10, 1024 * 1024)).concat(" MB")
    } else if b >= 1024 {
        tenths_text(round_to(b * 10, 1024)).concat(" KB")
    } else {
        decimal_text(b).concat(" B")
    }
}

fn gigabyte_tenths(bytes: u64) -> (r: u64)
    ensures
        r == rounded(bytes as nat * 10, 1024 * 1024 * 1024),
{
    let n: u128 = bytes as u128 * 10;
    let low: u128 = n / 1_073_741_824;
    let rest: u128 = n % 1_073_741_824;
    if 2 * rest > 1_073_741_824 || (2 * rest == 1_073_741_824 && low % 2 == 1) {
        (low + 1) as u64
    } else {
        low as u64
    }
}

/// The payload of an alert's event.
pub open spec fn alert_payload(a: AlertModel) -> MemoryPermissionModel {
    MemoryPermissionModel {
        pid: a.pid,
        process_name: a.process_name,
        process_path: a.process_path,
        base_address: a.affected_memory_range.0 as u64,
        region_size: (a.affected_memory_range.1 - a.affected_memory_range.0) as u64,
        old_protection: 0,
        new_protection: 0x04,
        old_protection_str: Seq::empty(),
        new_protection_str: "PAGE_READWRITE"@,
        mem_type: 0x20000,
        mem_type_str: "MEM_PRIVATE"@,
        entropy: 0,
        transition_type: "heap_spray_detection"@,
        thread_from_unbacked: false,
        thread_id: None,
        thread_start_address: None,
    }
}

/// The detection of an alert's event.
pub open spec fn alert_detection(a: AlertModel) -> DetectionModel {
    DetectionModel {
        detection_type: DetectionType::MemoryThreat,
        rule_name: "heap_spray_"@ + a.spray_type.spec_as_str(),
        confidence: a.confidence,
        description: a.spray_type.spec_description() + ": "@ + a.process_name + " (PID: "@
            + decimal(a.pid as nat) + ") - "@ + decimal(a.identical_allocation_count as nat)
            + " identical allocations, "@ + size_text(a.estimated_size as nat) + " total"@,
        mitre_tactics: seq!["execution"@, "defense-evasion"@],
        mitre_techniques: seq![a.mitre_id],
    }
}

/// A fact that is added where it holds.
pub open spec fn with_flag(
    facts: Map<Seq<char>, Seq<char>>,
    holds: bool,
    name: Seq<char>,
) -> Map<Seq<char>, Seq<char>> {
    if holds {
        facts.insert(name, "true"@)
    } else {
        facts
    }
}

/// The facts of an alert's event.
pub open spec fn alert_facts(a: AlertModel) -> Map<Seq<char>, Seq<char>> {
    let base = Map::<Seq<char>, Seq<char>>::empty().insert(
        "spray_type"@,
        a.spray_type.spec_as_str(),
    ).insert("estimated_size"@, decimal(a.estimated_size as nat)).insert(
        "identical_allocation_count"@,
        decimal(a.identical_allocation_count as nat),
    ).insert("pattern_detected"@, a.pattern_detected).insert(
        "confidence"@,
        hundredths(rounded(a.confidence as nat, 10_000)),
    ).insert("mitre_technique"@, a.mitre_id);
    let nops = with_flag(base, a.indicators.nop_sled_detected, "nop_sled_detected"@);
    let shellcode = with_flag(nops, a.indicators.shellcode_patterns, "shellcode_detected"@);
    let targets = with_flag(
        shellcode,
        a.indicators.predictable_addresses,
        "predictable_addresses"@,
    );
    let rapid = with_flag(targets, a.indicators.rapid_allocations, "rapid_allocations"@);
    let evidence = if a.evidence.len() > 0 {
        rapid.insert("evidence"@, joined(a.evidence, "; "@))
    } else {
        rapid
    };
    evidence.insert(
        "memory_range"@,
        "0x"@ + hex_upper(a.affected_memory_range.0 as nat) + "-0x"@ + hex_upper(
            a.affected_memory_range.1 as nat,
        ),
    )
}

/// Whether an event reports an alert.
pub open spec fn reports(event: TelemetryEvent, a: AlertModel) -> bool {
    &&& event.event_type == EventType::MemoryScan
    &&& event.severity == a.spray_type.spec_severity()
    &&& event.payload matches EventPayload::MemoryPermission(p) && p@ == alert_payload(a)
    &&& detections_view(event.detections@) == seq![alert_detection(a)]
    &&& event.metadata@ == alert_facts(a)
}

impl HeapSprayDetector {
    /// The event that reports an alert.
    pub fn create_telemetry_event(alert: &HeapSprayAlert) -> (event: TelemetryEvent)
        requires
            alert.affected_memory_range.0 <= alert.affected_memory_range.1,
        ensures
            reports(event, alert@),
    {
        let mut event = TelemetryEvent::new(
            EventType::MemoryScan,
            alert.spray_type.severity(),
            EventPayload::MemoryPermission(
                MemoryPermissionEvent {
                    pid: alert.pid,
                    process_name: alert.process_name.clone(),
                    process_path: alert.process_path.clone(),
                    base_address: alert.affected_memory_range.0 as u64,
                    region_size: (alert.affected_memory_range.1 - alert.affected_memory_range.0)
                        as u64,
                    old_protection: 0,
                    new_protection: 0x04,
                    old_protection_str: String::new(),
                    new_protection_str: "PAGE_READWRITE".to_string(),
                    mem_type: 0x20000,
                    mem_type_str: "MEM_PRIVATE".to_string(),
                    entropy: 0,
                    transition_type: "heap_spray_detection".to_string(),
                    thread_from_unbacked: false,
                    thread_id: None,
                    thread_start_address: None,
                },
            ),
        );
        let description = alert.spray_type.description().to_string().concat(": ").concat(
            alert.process_name.as_str(),
        ).concat(" (PID: ").concat(decimal_text(alert.pid as u64).as_str()).concat(") - ").concat(
            decimal_text(alert.identical_allocation_count as u64).as_str(),
        ).concat(" identical allocations, ").concat(
            format_size(alert.estimated_size).as_str(),
        ).concat(" total");
        let detection = Detection {
            detection_type: DetectionType::MemoryThreat,
            rule_name: "heap_spray_".to_string().concat(alert.spray_type.as_str()),
            confidence: alert.confidence,
            description,
            mitre_tactics: vec!["execution".to_string(), "defense-evasion".to_string()],
            mitre_techniques: vec![alert.mitre_id.to_string()],
        };
        assert(detection@ =~= alert_detection(alert@));
        event.add_detection(detection);
        event.metadata.insert("spray_type".to_string(), alert.spray_type.as_str().to_string());
        event.metadata.insert(
            "estimated_size".to_string(),
            decimal_text(alert.estimated_size as u64),
        );
        event.metadata.insert(
            "identical_allocation_count".to_string(),
            decimal_text(alert.identical_allocation_count as u64),
        );
        event.metadata.insert("pattern_detected".to_string(), alert.pattern_detected.clone());
        event.metadata.insert(
            "confidence".to_string(),
            hundredths_text(round_to(alert.confidence as u64, 10_000)),
        );
        event.metadata.insert("mitre_technique".to_string(), alert.mitre_id.to_string());
        if alert.indicators.nop_sled_detected {
            event.metadata.insert("nop_sled_detected".to_string(), "true".to_string());
        }
        if alert.indicators.shellcode_patterns {
            event.metadata.insert("shellcode_detected".to_string(), "true".to_string());
        }
        if alert.indicators.predictable_addresses {
            event.metadata.insert("predictable_addresses".to_string(), "true".to_string());
        }
        if alert.indicators.rapid_allocations {
            event.metadata.insert("rapid_allocations".to_string(), "true".to_string());
        }
        if alert.evidence.len() > 0 {
            event.metadata.insert("evidence".to_string(), join(&alert.evidence, "; "));
        }
        event.metadata.insert(
            "memory_range".to_string(),
            "0x".to_string().concat(
                hex_upper_text(alert.affected_memory_range.0 as u64).as_str(),
            ).concat("-0x").concat(hex_upper_text(alert.affected_memory_range.1 as u64).as_str()),
        );
        assert(detections_view(event.detections@) =~= seq![alert_detection(alert@)]);
        event
    }
}

/// Which processes a monitor has looked at, and when it looks again.
pub struct SprayMonitor {
    pub detector: HeapSprayDetector,
    pub analyzed: Vec<u32>,
}

/// Whether what the layout of a process's memory shows calls for a closer look.
pub open spec fn calls_for_look(a: MemoryAnalysis) -> bool {
    a.suspicious_regions@.len() > 0 || a.identical_region_count >= 10
        || a.entropy_analysis.low_entropy_count >= 5
}

impl SprayMonitor {
    /// A monitor that has looked at nothing.
    pub fn new(now: u64) -> (m: SprayMonitor)
        ensures
            m.detector.wf(),
            is_usual(m.detector.config),
            m.detector.last_cleanup == now,
            m.detector.known_alerts@ == Seq::<(u32, u64)>::empty(),
            forall|pid: u32| #[trigger]
                m.detector.allocation_tracker.entries(pid) == Seq::<TrackedAllocation>::empty(),
            m.detector.allocation_tracker.max_allocations_per_process == 10_000,
            m.analyzed@ == Seq::<u32>::empty(),
    {
        SprayMonitor {
            detector: HeapSprayDetector::new(HeapSprayConfig::default(), now),
            analyzed: Vec::new(),
        }
    }

    fn has_analyzed(&self, pid: u32) -> (r: bool)
        ensures
            r == self.analyzed@.contains(pid),
    {
        let mut i: usize = 0;
        while i < self.analyzed.len()
            invariant
                i <= self.analyzed@.len(),
                forall|j: int| 0 <= j < i ==> self.analyzed@[j] != pid,
            decreases self.analyzed@.len() - i,
        {
            if self.analyzed[i] == pid {
                return true;
            }
            i += 1;
        }
        false
    }

    /// Whether a process is one to look at: none of the system's, not this one,
    /// not excluded and not looked at before.
    pub fn wants(&self, pid: u32, own_pid: u32, process_name: &str) -> (r: bool)
        ensures
            r == (pid > 10 && pid != own_pid && !texts(
                self.detector.config.excluded_processes@,
            ).contains(lowercase(process_name@)) && !self.analyzed@.contains(pid)),
    {
        pid > 10 && pid != own_pid && self.detector.should_monitor_process(process_name)
            && !self.has_analyzed(pid)
    }

    /// Whether the layout of a process's memory calls for a closer look.
    pub fn is_suspicious(analysis: &MemoryAnalysis) -> (r: bool)
        ensures
            r == calls_for_look(*analysis),
    {
        analysis.suspicious_regions.len() > 0 || analysis.identical_region_count >= 10
            || analysis.entropy_analysis.low_entropy_count >= 5
    }

    /// Tracks the suspicious regions of a process and notes that it was looked
    /// at.
    pub fn take_regions(&mut self, pid: u32, regions: &Vec<SuspiciousRegion>, now: u64)
        requires
            old(self).detector.wf(),
        ensures
            final(self).detector.wf(),
            final(self).detector.same_setup(&old(self).detector),
            final(self).analyzed@ == (if old(self).analyzed@.contains(pid) {
                old(self).analyzed@
            } else {
                old(self).analyzed@.push(pid)
            }),
            final(self).detector.allocation_tracker.entries(pid) == tracked_regions(
                old(self).detector.allocation_tracker.entries(pid),
                old(self).detector.allocation_tracker.max_allocations_per_process as nat,
                regions@,
                regions@.len(),
                now,
            ),
            forall|other: u32|
                other != pid ==> #[trigger] final(self).detector.allocation_tracker.entries(other)
                    == old(self).detector.allocation_tracker.entries(other),
    {
        let ghost start = self.detector.allocation_tracker.entries(pid);
        let ghost max = self.detector.allocation_tracker.max_allocations_per_process;
        let mut i: usize = 0;
        while i < regions.len()
            invariant
                i <= regions@.len(),
                self.detector.wf(),
                self.detector.same_setup(&old(self).detector),
                self.analyzed == old(self).analyzed,
                self.detector.allocation_tracker.max_allocations_per_process == max,
                self.detector.allocation_tracker.entries(pid) == tracked_regions(
                    start,
                    max as nat,
                    regions@,
                    i as nat,
                    now,
                ),
                forall|other: u32|
                    other != pid ==> #[trigger] self.detector.allocation_tracker.entries(other)
                        == old(self).detector.allocation_tracker.entries(other),
            decreases regions@.len() - i,
        {
            let region = &regions[i];
            self.detector.track_allocation(
                pid,
                region.address,
                region.size,
                region.content_hash,
                now,
            );
            i += 1;
        }
        if !self.has_analyzed(pid) {
            self.analyzed.push(pid);
        }
    }

    /// Takes note that the most common content of a process was reported.
    pub fn note_reported(&mut self, pid: u32)
        requires
            old(self).detector.wf(),
        ensures
            final(self).detector.wf(),
            final(self).analyzed == old(self).analyzed,
            final(self).detector.allocation_tracker == old(self).detector.allocation_tracker,
            final(self).detector.config == old(self).detector.config,
            final(self).detector.last_cleanup == old(self).detector.last_cleanup,
            final(self).detector.known_alerts@ == match most_common_hash(
                old(self).detector.allocation_tracker.entries(pid),
            ) {
                Some(b) => with_known(old(self).detector.known_alerts@, pid, b.0),
                None => old(self).detector.known_alerts@,
            },
    {
        if let Some((hash, _)) = self.detector.allocation_tracker.get_most_common_hash(pid) {
            self.detector.mark_alert_known(pid, hash);
        }
    }

    /// Tidies up. Too long a list of processes is dropped, so that they are
    /// looked at again.
    pub fn tidy(&mut self, now: u64)
        requires
            old(self).detector.wf(),
        ensures
            final(self).detector.wf(),
            old(self).detector.cleaned_up(&final(self).detector, now),
            final(self).analyzed@ == (if old(self).analyzed@.len() > 500 {
                Seq::empty()
            } else {
                old(self).analyzed@
            }),
    {
        self.detector.cleanup(now);
        if self.analyzed.len() > 500 {
            self.analyzed = Vec::new();
        }
    }
}

/// The allocations after the first `n` regions were tracked.
pub open spec fn tracked_regions(
    entries: Seq<TrackedAllocation>,
    max: nat,
    regions: Seq<SuspiciousRegion>,
    n: nat,
    now: u64,
) -> Seq<TrackedAllocation>
    decreases n,
{
    if n == 0 {
        entries
    } else {
        let region = regions[n - 1];
        newest(
            tracked_regions(entries, max, regions, (n - 1) as nat, now).push(
                TrackedAllocation {
                    address: region.address,
                    size: region.size,
                    content_hash: region.content_hash,
                    entropy: (bit_changes(region.content_hash, 63) * 8_000_000 / 63) as u32,
                    timestamp: now,
                    protection: 0,
                },
            ),
            max,
        )
    }
}

/// A process whose most common content was reported raises no alert about its
/// allocations.
pub proof fn law_reported_content_is_silent(
    config: HeapSprayConfig,
    known: Seq<(u32, u64)>,
    entries: Seq<TrackedAllocation>,
    pid: u32,
    name: Seq<char>,
    path: Seq<char>,
    now: u64,
)
    requires
        entries.len() > 0,
        known.contains((pid, (most_common_hash(entries)->0).0)),
    ensures
        allocation_alert(config, known, entries, pid, name, path, now) is None,
{
}

/// Shellcode decides the kind of a spray, whatever else speaks for one.
pub proof fn law_shellcode_decides_kind(i: IndicatorsModel)
    requires
        i.shellcode_patterns,
    ensures
        likely_spray(i) == SprayType::ShellcodeSpray,
        likely_spray(i).spec_severity() == Severity::Critical,
{
}

impl Default for HeapSprayDetector {
    fn default() -> (d: HeapSprayDetector)
        ensures
            d.wf(),
            is_usual(d.config),
            d.known_alerts@ == Seq::<(u32, u64)>::empty(),
            forall|pid: u32| #[trigger]
                d.allocation_tracker.entries(pid) == Seq::<TrackedAllocation>::empty(),
            d.allocation_tracker.max_allocations_per_process == 10_000,
    {
        HeapSprayDetector::new(HeapSprayConfig::default(), current_timestamp())
    }
}

proof fn lemma_first_of_filter<T>(s: Seq<T>, p: spec_fn(T) -> bool, i: int)
    requires
        0 <= i < s.len(),
        p(s[i]),
        forall|j: int| 0 <= j < i ==> !p(#[trigger] s[j]),
    ensures
        s.filter(p).len() > 0,
        s.filter(p)[0] == s[i],
    decreases s.len(),
{
    reveal(Seq::filter);
    let rest = s.drop_last();
    if i < rest.len() {
        lemma_first_of_filter(rest, p, i);
    } else {
        lemma_filter_members(rest, p);
        if rest.filter(p).len() > 0 {
            let first = rest.filter(p)[0];
            assert(rest.contains(first) && p(first));
            let k = choose|k: int| 0 <= k < rest.len() && rest[k] == first;
            assert(!p(s[k]));
        }
    }
}

proof fn lemma_first_found(data: Seq<u8>, table: Seq<(Seq<char>, Seq<u8>)>, from: int)
    requires
        0 <= from <= table.len(),
    ensures
        match first_found(data, table, from) {
            Some(i) => from <= i < table.len() && found(data, table[i].1) && forall|j: int|
                from <= j < i ==> !found(data, (#[trigger] table[j]).1),
            None => forall|j: int|
                from <= j < table.len() ==> !found(data, (#[trigger] table[j]).1),
        },
    decreases table.len() - from,
{
    if from < table.len() && !found(data, table[from].1) {
        lemma_first_found(data, table, from + 1);
    }
}

/// The one pattern that is answered is the first of all that stand in data, and none
/// is where none does.
pub proof fn law_first_of_the_names(data: Seq<u8>, table: Seq<(Seq<char>, Seq<u8>)>)
    ensures
        match first_found(data, table, 0) {
            Some(i) => found_names(data, table).len() > 0 && found_names(data, table)[0]
                == table[i].0,
            None => found_names(data, table).len() == 0,
        },
{
    let p = in_data(data);
    lemma_first_found(data, table, 0);
    match first_found(data, table, 0) {
        Some(i) => {
            assert(p(table[i]));
            assert forall|j: int| 0 <= j < i implies !p(#[trigger] table[j]) by {
                assert(!found(data, table[j].1));
            }
            lemma_first_of_filter(table, p, i);
        },
        None => {
            lemma_filter_members(table, p);
            if table.filter(p).len() > 0 {
                let first = table.filter(p)[0];
                assert(table.contains(first) && p(first));
                let k = choose|k: int| 0 <= k < table.len() && table[k] == first;
                assert(!found(data, table[k].1));
            }
        },
    }
}

/// A name is answered exactly where its pattern stands in data.
pub proof fn law_names_are_of_what_stands(
    data: Seq<u8>,
    table: Seq<(Seq<char>, Seq<u8>)>,
    name: Seq<char>,
)
    ensures
        found_names(data, table).contains(name) <==> exists|i: int|
            0 <= i < table.len() && (#[trigger] table[i]).0 == name && found(data, table[i].1),
{
    let p = in_data(data);
    let kept = table.filter(p);
    lemma_filter_members(table, p);
    if found_names(data, table).contains(name) {
        let k = choose|k: int|
            0 <= k < found_names(data, table).len() && found_names(data, table)[k] == name;
        assert(table.contains(kept[k]) && p(kept[k]));
        let i = choose|i: int| 0 <= i < table.len() && table[i] == kept[k];
        assert(table[i].0 == name && found(data, table[i].1));
    }
    if exists|i: int|
        0 <= i < table.len() && (#[trigger] table[i]).0 == name && found(data, table[i].1) {
        let i = choose|i: int|
            0 <= i < table.len() && (#[trigger] table[i]).0 == name && found(data, table[i].1);
        assert(p(table[i]));
        assert(kept.contains(table[i]));
        let k = choose|k: int| 0 <= k < kept.len() && kept[k] == table[i];
        assert(found_names(data, table)[k] == name);
    }
}

/// Data with more before it or behind it keeps every name.
pub proof fn law_longer_data_keeps_names(
    before: Seq<u8>,
    data: Seq<u8>,
    behind: Seq<u8>,
    table: Seq<(Seq<char>, Seq<u8>)>,
    name: Seq<char>,
)
    requires
        found_names(data, table).contains(name),
    ensures
        found_names(before + data + behind, table).contains(name),
{
    let more = before + data + behind;
    law_names_are_of_what_stands(data, table, name);
    let i = choose|i: int|
        0 <= i < table.len() && (#[trigger] table[i]).0 == name && found(data, table[i].1);
    let pattern = table[i].1;
    let at = choose|at: int| matches_at(data, pattern, at);
    assert(more.subrange(before.len() + at, before.len() + at + pattern.len()) =~= data.subrange(
        at,
        at + pattern.len(),
    ));
    assert(matches_at(more, pattern, before.len() + at));
    law_names_are_of_what_stands(more, table, name);
}

proof fn lemma_shellcode_names_differ()
    ensures
        forall|i: int, j: int|
            0 <= i < j < shellcode_patterns().len() ==> (#[trigger] shellcode_patterns()[i]).0 != (
            #[trigger] shellcode_patterns()[j]).0,
{
    reveal_strlit("peb_access_x64");
    reveal_strlit("peb_access_x86_fs");
    reveal_strlit("peb_access_x86_mov");
    reveal_strlit("msf_shikata");
    reveal_strlit("msf_reverse_tcp");
    reveal_strlit("msf_meterpreter");
    reveal_strlit("egg_hunter_ntaccess");
    reveal_strlit("egg_hunter_seh");
    reveal_strlit("jmp_esp");
    reveal_strlit("jmp_eax");
    reveal_strlit("call_esp");
    reveal_strlit("call_eax");
    reveal_strlit("push_ret");
    reveal_strlit("pop_pop_ret");
    reveal_strlit("xchg_eax_esp");
    reveal_strlit("cs_beacon_start");
    reveal_strlit("cs_shellcode_x64");
    reveal_strlit("kernel32_hash");
    reveal_strlit("winexec_hash");
    assert("peb_access_x64"@ != "egg_hunter_seh"@) by {
        assert("peb_access_x64"@[0] != "egg_hunter_seh"@[0]);
    }
    assert("msf_shikata"@ != "pop_pop_ret"@) by {
        assert("msf_shikata"@[0] != "pop_pop_ret"@[0]);
    }
    assert("msf_reverse_tcp"@ != "msf_meterpreter"@) by {
        assert("msf_reverse_tcp"@[4] != "msf_meterpreter"@[4]);
    }
    assert("msf_reverse_tcp"@ != "cs_beacon_start"@) by {
        assert("msf_reverse_tcp"@[0] != "cs_beacon_start"@[0]);
    }
    assert("msf_meterpreter"@ != "cs_beacon_start"@) by {
        assert("msf_meterpreter"@[0] != "cs_beacon_start"@[0]);
    }
    assert("jmp_esp"@ != "jmp_eax"@) by {
        assert("jmp_esp"@[5] != "jmp_eax"@[5]);
    }
    assert("call_esp"@ != "call_eax"@) by {
        assert("call_esp"@[6] != "call_eax"@[6]);
    }
    assert("call_esp"@ != "push_ret"@) by {
        assert("call_esp"@[0] != "push_ret"@[0]);
    }
    assert("call_eax"@ != "push_ret"@) by {
        assert("call_eax"@[0] != "push_ret"@[0]);
    }
    assert("xchg_eax_esp"@ != "winexec_hash"@) by {
        assert("xchg_eax_esp"@[0] != "winexec_hash"@[0]);
    }
    let table = shellcode_patterns();
    assert forall|i: int, j: int| 0 <= i < j < table.len() implies (#[trigger] table[i]).0 != (
    #[trigger] table[j]).0 by {
        assert(table[i].0.len() != table[j].0.len() || table[i].0 != table[j].0);
    }
}

/// No name of a pattern of shellcode is answered twice.
pub proof fn law_names_come_once(data: Seq<u8>, i: int, j: int)
    requires
        0 <= i < j < found_names(data, shellcode_patterns()).len(),
    ensures
        found_names(data, shellcode_patterns())[i] != found_names(data, shellcode_patterns())[j],
{
    let name_of = |e: (Seq<char>, Seq<u8>)| e.0;
    lemma_shellcode_names_differ();
    lemma_filter_distinct(shellcode_patterns(), in_data(data), name_of);
    let kept = shellcode_patterns().filter(in_data(data));
    assert(name_of(kept[i]) != name_of(kept[j]));
}

/// Too few allocations alike, or too little memory, are no alert, however sure.
pub proof fn law_small_sprays_are_silent(
    config: HeapSprayConfig,
    known: Seq<(u32, u64)>,
    entries: Seq<TrackedAllocation>,
    pid: u32,
    name: Seq<char>,
    path: Seq<char>,
    now: u64,
)
    requires
        stats_of(entries).most_common_hash_count < config.min_identical_allocations || stats_of(
            entries,
        ).total_size < config.min_spray_size,
    ensures
        allocation_alert(config, known, entries, pid, name, path, now) is None,
{
}

proof fn lemma_first_sled(data: Seq<u8>, table: Seq<(Seq<char>, Seq<u8>)>, i: int)
    requires
        0 <= i <= table.len(),
    ensures
        match first_sled(data, table, i) {
            Some(k) => i <= k < table.len() && shows_sled(data, table[k].1) && forall|j: int|
                i <= j < k ==> !shows_sled(data, #[trigger] table[j].1),
            None => forall|j: int| i <= j < table.len() ==> !shows_sled(data, #[trigger] table[j].1),
        },
    decreases table.len() - i,
{
    if i < table.len() && !shows_sled(data, table[i].1) {
        lemma_first_sled(data, table, i + 1);
    }
}

/// What is found in data: a sled where one of the patterns of sleds stands in a quarter of
/// it, and at least ten times; otherwise shellcode where one of its patterns stands in
/// it; otherwise a repetition where the data is long, of low entropy, and four bytes
/// stand at more places than an eighth of its length. In less than sixteen bytes nothing
/// is found.
pub proof fn law_what_data_shows(data: Seq<u8>, entropy: u32, r: Option<SprayPatternModel>)
    requires
        is_spray_pattern(data, entropy, r),
    ensures
        ({
            let sled = exists|i: int|
                0 <= i < nop_patterns().len() && {
                    let pattern = #[trigger] nop_patterns()[i].1;
                    occurrences(data, pattern) >= 10 && occurrences(data, pattern) >= data.len()
                        / pattern.len() / 4
                };
            let code = exists|i: int|
                0 <= i < shellcode_patterns().len() && found(
                    data,
                    #[trigger] shellcode_patterns()[i].1,
                );
            let repeated = entropy < 1_500_000 && data.len() >= 1024 && exists|word: u32|
                #[trigger] word_count(data, word, (data.len() - 3) as nat) > data.len() / 8;
            let kind = if r is Some {
                Some(r->0.pattern_type)
            } else {
                None
            };
            &&& data.len() < 16 ==> r is None
            &&& data.len() >= 16 ==> {
                &&& kind == Some(SprayPatternType::NopSled) <==> sled
                &&& kind == Some(SprayPatternType::Shellcode) <==> !sled && code
                &&& kind == Some(SprayPatternType::RepetitiveContent) <==> !sled && !code && repeated
                &&& r is None <==> !sled && !code && !repeated
            }
            &&& kind == Some(SprayPatternType::Shellcode) ==> r->0.confidence == 900_000
        }),
{
    lemma_first_sled(data, nop_patterns(), 0);
    lemma_first_found(data, shellcode_patterns(), 0);
    if data.len() >= 1024 {
        let n = (data.len() - 3) as nat;
        assert(word_positions(data) == n);
        if r is Some && r->0.pattern_type == SprayPatternType::RepetitiveContent && first_sled(
            data,
            nop_patterns(),
            0,
        ) is None {
            let word = choose|word: u32| #[trigger] repeats_word(data, entropy, word);
            assert(word_count(data, word, n) > data.len() / 8);
        }
        if exists|word: u32| #[trigger] word_count(data, word, n) > data.len() / 8 {
            let some = choose|word: u32| #[trigger] word_count(data, word, n) > data.len() / 8;
            let most = lemma_a_most_common_word(data, some);
            assert(word_count(data, most, n) >= word_count(data, some, n));
            if entropy < 1_500_000 {
                assert(repeats_word(data, entropy, most));
            }
        }
    }
}

proof fn lemma_word_count_bound(data: Seq<u8>, word: u32, n: nat)
    ensures
        word_count(data, word, n) <= n,
    decreases n,
{
    if n > 0 {
        lemma_word_count_bound(data, word, (n - 1) as nat);
    }
}

proof fn lemma_a_most_common_word(data: Seq<u8>, word: u32) -> (most: u32)
    requires
        word_count(data, word, word_positions(data)) > 0,
    ensures
        is_most_common_word(data, most),
    decreases word_positions(data) - word_count(data, word, word_positions(data)),
{
    let n = word_positions(data);
    lemma_word_count_bound(data, word, n);
    if forall|other: u32| #[trigger] word_count(data, other, n) <= word_count(data, word, n) {
        word
    } else {
        let better = choose|other: u32|
            #[trigger] word_count(data, other, n) > word_count(data, word, n);
        lemma_word_count_bound(data, better, n);
        lemma_a_most_common_word(data, better)
    }
}

/// How sure a spray is: the weights of all that speaks for it add up, to certainty at
/// most.
pub proof fn law_indicators_add_up(i: IndicatorsModel)
    ensures
        ({
            let one = |b: bool, weight: int|
                if b {
                    weight
                } else {
                    0
                };
            let sum = one(i.shellcode_patterns, 300_000) + one(
                i.large_identical_allocations,
                250_000,
            ) + one(i.nop_sled_detected, 200_000) + one(i.predictable_addresses, 150_000) + one(
                i.excessive_string_allocations,
                100_000,
            ) + one(i.low_entropy_detected, 100_000) + one(i.rapid_allocations, 100_000) + one(
                i.common_spray_size_match,
                50_000,
            ) + one(i.same_content_count >= 20, 50_000) + one(i.same_content_count >= 50, 50_000)
                + one(i.same_content_count >= 100, 50_000);
            indicator_confidence(i) == if sum < 1_000_000 {
                sum
            } else {
                1_000_000
            }
        }),
{
    reveal(weight_if);
}

/// The kind of a spray: by shellcode, then by a sled, which is one of a browser where its
/// name says so, then by strings, then by allocations that are alike.
pub proof fn law_kinds_of_sprays(i: IndicatorsModel)
    ensures
        ({
            let browser = i.nop_pattern_name matches Some(n) && (occurs("0c"@, n) || occurs(
                "0d"@,
                n,
            ));
            &&& likely_spray(i) == SprayType::ShellcodeSpray <==> i.shellcode_patterns
            &&& likely_spray(i) == SprayType::BrowserSpray <==> !i.shellcode_patterns
                && i.nop_sled_detected && browser
            &&& likely_spray(i) == SprayType::NopSled <==> !i.shellcode_patterns
                && i.nop_sled_detected && !browser
            &&& likely_spray(i) == SprayType::JavaScriptSpray <==> !i.shellcode_patterns
                && !i.nop_sled_detected && i.excessive_string_allocations
            &&& likely_spray(i) == SprayType::GenericSpray <==> !i.shellcode_patterns
                && !i.nop_sled_detected && !i.excessive_string_allocations
                && i.large_identical_allocations
            &&& likely_spray(i) == SprayType::Unknown <==> !i.shellcode_patterns
                && !i.nop_sled_detected && !i.excessive_string_allocations
                && !i.large_identical_allocations
        }),
{
}

/// The allocations of a process are an alert exactly where enough of them have one
/// content, they take up enough memory, that content was not reported of the process,
/// and what speaks for a spray makes it sure enough: that they are alike, that their
/// entropy is low on average, that one has a size that sprays use, that many were made
/// lately, and how many are alike.
pub proof fn law_sprays_are_reported(
    config: HeapSprayConfig,
    known: Seq<(u32, u64)>,
    entries: Seq<TrackedAllocation>,
    pid: u32,
    name: Seq<char>,
    path: Seq<char>,
    now: u64,
)
    requires
        0 < entries.len() <= usize::MAX,
        total_size(entries) <= usize::MAX,
        total_entropy(entries) / entries.len() <= u32::MAX,
    ensures
        ({
            let alert = allocation_alert(config, known, entries, pid, name, path, now);
            let most = most_common_hash(entries)->0;
            let one = |b: bool, weight: int|
                if b {
                    weight
                } else {
                    0
                };
            let sum = 250_000 + one(
                total_entropy(entries) / entries.len() < config.max_spray_entropy,
                100_000,
            ) + one(
                exists|i: int|
                    0 <= i < entries.len() && COMMON_SPRAY_SIZES@.contains(
                        (#[trigger] entries[i]).size,
                    ),
                50_000,
            ) + one(
                entries.filter(is_recent(now, config.rapid_allocation_window_secs)).len()
                    >= config.rapid_allocation_threshold,
                100_000,
            ) + one(most.1 >= 20, 50_000) + one(most.1 >= 50, 50_000) + one(most.1 >= 100, 50_000);
            &&& alert is Some <==> most.1 >= config.min_identical_allocations && total_size(entries)
                >= config.min_spray_size && sum >= config.min_confidence && !known.contains(
                (pid, most.0),
            )
            &&& alert is Some ==> {
                &&& alert->0.confidence == sum
                &&& alert->0.identical_allocation_count == most.1
                &&& alert->0.estimated_size == total_size(entries)
                &&& alert->0.spray_type == SprayType::GenericSpray
                &&& alert->0.mitre_id == "T1203"@
                &&& alert->0.pid == pid
                &&& alert->0.process_name == name
                &&& alert->0.process_path == path
                &&& alert->0.timestamp == now
            }
        }),
{
    reveal(weight_if);
    let most = most_common_hash(entries)->0;
    law_most_common_hash_is_maximal(entries, most.0);
    lemma_hash_count_bound(entries, most.0);
    assert((exists|i: int| 0 <= i < entries.len() && has_spray_size(#[trigger] entries[i])) == (
    exists|i: int|
        0 <= i < entries.len() && COMMON_SPRAY_SIZES@.contains((#[trigger] entries[i]).size)));
}

proof fn lemma_first_target(content: Seq<u8>, i: int)
    requires
        0 <= i <= 12,
    ensures
        first_target(content, i) is Some <==> exists|k: int|
            i <= k < 12 && found(content, number_bytes(#[trigger] SPRAY_TARGET_ADDRESSES@[k])),
    decreases 12 - i,
{
    if i < 12 {
        lemma_first_target(content, i + 1);
        if first_target(content, i + 1) is Some {
            let k = choose|k: int|
                i + 1 <= k < 12 && found(
                    content,
                    number_bytes(#[trigger] SPRAY_TARGET_ADDRESSES@[k]),
                );
            assert(found(content, number_bytes(SPRAY_TARGET_ADDRESSES@[k])));
        }
    }
}

/// A content of a kilobyte or more is an alert exactly where what it shows is sure enough:
/// a sled, shellcode, a repetition, low entropy, and an address that sprays aim at.
pub proof fn law_contents_are_reported(
    config: HeapSprayConfig,
    pid: u32,
    address: usize,
    content: Seq<u8>,
    entropy: u32,
    p: Option<SprayPatternModel>,
    name: Seq<char>,
    path: Seq<char>,
    now: u64,
)
    ensures
        ({
            let alert = content_alert(
                config,
                pid,
                address,
                content,
                entropy,
                p,
                name,
                path,
                now,
            );
            let shows = |t: SprayPatternType| p matches Some(q) && q.pattern_type == t;
            let one = |b: bool, weight: int|
                if b {
                    weight
                } else {
                    0
                };
            let code = shows(SprayPatternType::Shellcode) || exists|i: int|
                0 <= i < shellcode_patterns().len() && found(
                    content,
                    (#[trigger] shellcode_patterns()[i]).1,
                );
            let sum = one(code, 300_000) + one(shows(SprayPatternType::NopSled), 200_000) + one(
                shows(SprayPatternType::RepetitiveContent),
                250_000,
            ) + one(entropy < config.max_spray_entropy, 100_000) + one(
                exists|k: int|
                    0 <= k < 12 && found(
                        content,
                        number_bytes(#[trigger] SPRAY_TARGET_ADDRESSES@[k]),
                    ),
                150_000,
            );
            &&& alert is Some <==> content.len() >= 1024 && sum >= config.min_confidence
            &&& alert is Some ==> {
                &&& alert->0.confidence == sum
                &&& alert->0.spray_type == SprayType::ShellcodeSpray <==> code
                &&& alert->0.affected_memory_range.0 == address
                &&& alert->0.mitre_id == "T1203"@
                &&& alert->0.pid == pid
                &&& alert->0.process_name == name
                &&& alert->0.process_path == path
                &&& alert->0.timestamp == now
            }
        }),
{
    reveal(weight_if);
    lemma_first_target(content, 0);
    let table = shellcode_patterns();
    law_first_of_the_names(content, table);
    lemma_first_found(content, table, 0);
    let names = found_names(content, table);
    assert(names.len() > 0 <==> exists|i: int|
        0 <= i < table.len() && found(content, (#[trigger] table[i]).1)) by {
        if first_found(content, table, 0) is Some {
            let i = first_found(content, table, 0)->0;
            assert(found(content, table[i].1));
        }
    }
}

/// Of the allocations of a process the last ones are kept, and those at the front whose
/// time is over are dropped.
pub proof fn law_the_newest_allocations_stay(
    entries: Seq<TrackedAllocation>,
    a: TrackedAllocation,
    n: nat,
    now: u64,
)
    ensures
        n > 0 ==> newest(entries.push(a), n).last() == a,
        newest(entries, n).len() == if entries.len() > n {
            n
        } else {
            entries.len()
        },
        entries.len() > 0 && now - entries[0].timestamp <= ALLOCATION_LIFETIME_MS
            ==> without_expired(entries, now) == entries,
        entries.len() > 0 && now - entries[0].timestamp > ALLOCATION_LIFETIME_MS
            ==> without_expired(entries, now) == without_expired(entries.drop_first(), now),
{
}

/// The regions that a look at a process finds are those of the heap that are large enough,
/// could be read and show a pattern, each with where it lies, how large it is and what it
/// shows.
pub proof fn law_regions_that_show_patterns_are_found(
    regions: Seq<ScannedRegion>,
    patterns: Seq<Option<SprayPatternModel>>,
    n: nat,
    i: int,
)
    requires
        n <= regions.len(),
        n <= patterns.len(),
        0 <= i < n,
    ensures
        ({
            let found = suspicious_regions(regions, patterns, n);
            &&& patterns[i] is Some && is_heap(regions[i]) && regions[i].size >= 65_536
                && regions[i].content@.len() > 0 ==> exists|k: int|
                0 <= k < found.len() && (#[trigger] found[k]).address == regions[i].base
                    && found[k].size == regions[i].size && found[k].entropy == regions[i].entropy
                    && found[k].pattern is Some && found[k].pattern->0.name == patterns[i]->0.pattern_name
            &&& forall|k: int|
                0 <= k < found.len() ==> exists|j: int|
                    0 <= j < n && patterns[j] is Some && is_heap(#[trigger] regions[j])
                        && regions[j].base == (#[trigger] found[k]).address
        }),
    decreases n,
{
    let m = (n - 1) as nat;
    let before = suspicious_regions(regions, patterns, m);
    let found = suspicious_regions(regions, patterns, n);
    if i < m {
        law_regions_that_show_patterns_are_found(regions, patterns, m, i);
        if patterns[i] is Some && is_heap(regions[i]) && regions[i].size >= 65_536
            && regions[i].content@.len() > 0 {
            let k = choose|k: int|
                0 <= k < before.len() && (#[trigger] before[k]).address == regions[i].base
                    && before[k].size == regions[i].size && before[k].entropy == regions[i].entropy
                    && before[k].pattern is Some && before[k].pattern->0.name
                    == patterns[i]->0.pattern_name;
            assert(found[k] == before[k]);
        }
    } else {
        if patterns[i] is Some && is_read(regions[i]) {
            assert(found.last().address == regions[i].base);
        }
    }
    if m > 0 {
        law_regions_that_show_patterns_are_found(regions, patterns, m, 0);
    }
    assert forall|k: int| 0 <= k < found.len() implies exists|j: int|
        0 <= j < n && patterns[j] is Some && is_heap(#[trigger] regions[j]) && regions[j].base == (
        #[trigger] found[k]).address by {
        if k < before.len() {
            assert(found[k] == before[k]);
            assert(m > 0);
            let j = choose|j: int|
                0 <= j < m && patterns[j] is Some && is_heap(#[trigger] regions[j])
                    && regions[j].base == before[k].address;
            assert(regions[j].base == found[k].address);
        } else {
            assert(is_heap(regions[n - 1]));
        }
    }
}

/// How sure it is that a script sprays: more where most allocations have one size, where
/// most are of low entropy, where that size is one that scripts use, and where they take up
/// more than fifty megabytes.
pub proof fn law_how_sure_a_spray_of_scripts_is(entries: Seq<TrackedAllocation>, size: usize)
    ensures
        ({
            let one = |b: bool, n: int|
                if b {
                    n
                } else {
                    0
                };
            let all = entries.len();
            let alike = size_count(entries, size);
            let low = entries.filter(|a: TrackedAllocation| is_low_entropy(a)).len();
            js_confidence(entries, size) == one(alike * 2 > all, 200_000) + one(
                alike * 5 > all * 4,
                200_000,
            ) + one(low * 2 > all, 150_000) + one(low * 5 > all * 4, 150_000) + one(
                JS_SPRAY_SIZES@.contains(size),
                200_000,
            ) + one(total_size(entries) > 52_428_800, 100_000)
        }),
{
}

/// A region is heap exactly where it is committed, private and can be read and written to.
pub proof fn law_what_is_heap(state: u32, mem_type: u32, protection: u32)
    ensures
        is_heap_region(state, mem_type, protection) <==> (state / 0x1000) % 2 == 1 && (mem_type
            / 0x2_0000) % 2 == 1 && (protection / 4) % 2 == 1,
{
    assert((state & 0x1000 != 0) <==> (state / 0x1000) % 2 == 1) by (bit_vector);
    assert((mem_type & 0x20000 != 0) <==> (mem_type / 0x2_0000) % 2 == 1) by (bit_vector);
    assert((protection & 0x04 != 0) <==> (protection / 4) % 2 == 1) by (bit_vector);
}

/// Each of the known pieces of shellcode is named wherever its bytes stand in data.
pub proof fn law_known_shellcode_is_named(data: Seq<u8>)
    ensures
        ({
            let names = found_names(data, shellcode_patterns());
            &&& found(data, seq![0x65u8, 0x48, 0x8B, 0x04, 0x25, 0x60]) ==> names.contains("peb_access_x64"@)
            &&& found(data, seq![0x64u8, 0xA1, 0x30, 0x00, 0x00, 0x00]) ==> names.contains("peb_access_x86_fs"@)
            &&& found(data, seq![0x64u8, 0x8B, 0x15, 0x30, 0x00, 0x00]) ==> names.contains("peb_access_x86_mov"@)
            &&& found(data, seq![0xDAu8, 0xC1, 0xD9, 0x74, 0x24]) ==> names.contains("msf_shikata"@)
            &&& found(data, seq![0xFCu8, 0xE8, 0x82, 0x00, 0x00]) ==> names.contains("msf_reverse_tcp"@)
            &&& found(data, seq![0xFCu8, 0x48, 0x83, 0xE4, 0xF0]) ==> names.contains("msf_meterpreter"@)
            &&& found(data, seq![0x66u8, 0x81, 0xCA, 0xFF, 0x0F]) ==> names.contains("egg_hunter_ntaccess"@)
            &&& found(data, seq![0xEBu8, 0x21, 0x5F, 0xB9]) ==> names.contains("egg_hunter_seh"@)
            &&& found(data, seq![0xFFu8, 0xE4]) ==> names.contains("jmp_esp"@)
            &&& found(data, seq![0xFFu8, 0xE0]) ==> names.contains("jmp_eax"@)
            &&& found(data, seq![0xFFu8, 0xD4]) ==> names.contains("call_esp"@)
            &&& found(data, seq![0xFFu8, 0xD0]) ==> names.contains("call_eax"@)
            &&& found(data, seq![0x50u8, 0xC3]) ==> names.contains("push_ret"@)
            &&& found(data, seq![0x5Fu8, 0x5E, 0xC3]) ==> names.contains("pop_pop_ret"@)
            &&& found(data, seq![0x94u8, 0xC3]) ==> names.contains("xchg_eax_esp"@)
            &&& found(data, seq![0x4Du8, 0x5A, 0xE8]) ==> names.contains("cs_beacon_start"@)
            &&& found(data, seq![0xFCu8, 0x48, 0x83, 0xE4]) ==> names.contains("cs_shellcode_x64"@)
            &&& found(data, seq![0x68u8, 0x8E, 0x4E, 0x0E, 0xEC]) ==> names.contains("kernel32_hash"@)
            &&& found(data, seq![0x68u8, 0xA8, 0xA2, 0x4D, 0xBC]) ==> names.contains("winexec_hash"@)
        }),
{
    let table = shellcode_patterns();
    assert forall|i: int|
        0 <= i < table.len() && found(data, (#[trigger] table[i]).1) implies found_names(
        data,
        table,
    ).contains(table[i].0) by {
        law_names_are_of_what_stands(data, table, table[i].0);
    }
    assert(table[0] == ("peb_access_x64"@, seq![0x65u8, 0x48, 0x8B, 0x04, 0x25, 0x60]));
    assert(table[1] == ("peb_access_x86_fs"@, seq![0x64u8, 0xA1, 0x30, 0x00, 0x00, 0x00]));
    assert(table[2] == ("peb_access_x86_mov"@, seq![0x64u8, 0x8B, 0x15, 0x30, 0x00, 0x00]));
    assert(table[3] == ("msf_shikata"@, seq![0xDAu8, 0xC1, 0xD9, 0x74, 0x24]));
    assert(table[4] == ("msf_reverse_tcp"@, seq![0xFCu8, 0xE8, 0x82, 0x00, 0x00]));
    assert(table[5] == ("msf_meterpreter"@, seq![0xFCu8, 0x48, 0x83, 0xE4, 0xF0]));
    assert(table[6] == ("egg_hunter_ntaccess"@, seq![0x66u8, 0x81, 0xCA, 0xFF, 0x0F]));
    assert(table[7] == ("egg_hunter_seh"@, seq![0xEBu8, 0x21, 0x5F, 0xB9]));
    assert(table[8] == ("jmp_esp"@, seq![0xFFu8, 0xE4]));
    assert(table[9] == ("jmp_eax"@, seq![0xFFu8, 0xE0]));
    assert(table[10] == ("call_esp"@, seq![0xFFu8, 0xD4]));
    assert(table[11] == ("call_eax"@, seq![0xFFu8, 0xD0]));
    assert(table[12] == ("push_ret"@, seq![0x50u8, 0xC3]));
    assert(table[13] == ("pop_pop_ret"@, seq![0x5Fu8, 0x5E, 0xC3]));
    assert(table[14] == ("xchg_eax_esp"@, seq![0x94u8, 0xC3]));
    assert(table[15] == ("cs_beacon_start"@, seq![0x4Du8, 0x5A, 0xE8]));
    assert(table[16] == ("cs_shellcode_x64"@, seq![0xFCu8, 0x48, 0x83, 0xE4]));
    assert(table[17] == ("kernel32_hash"@, seq![0x68u8, 0x8E, 0x4E, 0x0E, 0xEC]));
    assert(table[18] == ("winexec_hash"@, seq![0x68u8, 0xA8, 0xA2, 0x4D, 0xBC]));
}

} // verus!
