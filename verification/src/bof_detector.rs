//! Detection of Beacon Object Files: COFF objects that are loaded into memory
//! and run there.
use vstd::prelude::*;
use vstd::utf8::{encode_utf8, is_ascii_chars};

use crate::bytes::{
    count_bytes, find_bytes, found, le16, le32, matches_at, occurrences, patterns_view, read_le16,
    read_le32, BytePattern, BytePatternModel,
};
use crate::collect::{lemma_filter_distinct, lemma_filter_members, lemma_filter_step, retain};
use crate::telemetry::{
    detections_view, Detection, DetectionModel, DetectionType, EventPayload, EventType,
    MemoryPermissionEvent, MemoryPermissionModel, Severity, TelemetryEvent, ONE,
};
use crate::text::{
    any_occurs, ascii_lowered, begins, contains_any, decimal, decimal_text, from_utf8_lossy,
    hex_lower, hex_lower_text, holds, hundredths, hundredths_text, join, joined, lowercase, owned,
    push_text, same, starts_with, str_texts, texts, to_lowercase,
    utf8_lossy,
};

verus! {

/// The COFF machine number of x64.
pub const COFF_MAGIC_X64: u16 = 0x8664;

/// The COFF machine number of x86.
pub const COFF_MAGIC_X86: u16 = 0x014C;

/// The COFF machine number of ARM64.
pub const COFF_MAGIC_ARM64: u16 = 0xAA64;

/// The size of a COFF file header.
pub const COFF_HEADER_SIZE: usize = 20;

/// The size of a COFF section header.
pub const COFF_SECTION_HEADER_SIZE: usize = 40;

/// Set where the relocations were stripped.
pub const IMAGE_FILE_RELOCS_STRIPPED: u16 = 0x0001;

/// Set where the file is an executable image.
pub const IMAGE_FILE_EXECUTABLE_IMAGE: u16 = 0x0002;

/// How long a region that raised an alert is left alone, in milliseconds.
pub const CACHE_EXPIRY_MS: u64 = 300_000;

/// Names that Beacon Object Files refer to.
pub const BEACON_API_STRINGS: [&'static str; 29] = [
    "BeaconPrintf",
    "BeaconOutput",
    "BeaconDataParse",
    "BeaconDataInt",
    "BeaconDataShort",
    "BeaconDataLength",
    "BeaconDataExtract",
    "BeaconFormatAlloc",
    "BeaconFormatReset",
    "BeaconFormatAppend",
    "BeaconFormatPrintf",
    "BeaconFormatToString",
    "BeaconFormatFree",
    "BeaconFormatInt",
    "BeaconUseToken",
    "BeaconRevertToken",
    "BeaconIsAdmin",
    "BeaconGetSpawnTo",
    "BeaconSpawnTemporaryProcess",
    "BeaconInjectProcess",
    "BeaconInjectTemporaryProcess",
    "BeaconCleanupProcess",
    "toWideChar",
    "KERNEL32",
    "NTDLL",
    "GetProcAddress",
    "LoadLibraryA",
    "VirtualAlloc",
    "VirtualProtect",
];

/// Section names that Beacon Object Files have.
pub const BOF_SECTION_NAMES: [&'static str; 7] = [
    ".text",
    ".data",
    ".rdata",
    ".bss",
    ".reloc",
    ".pdata",
    ".xdata",
];

/// Build tools that handle COFF objects as a matter of course.
pub const SKIPPED_BUILD_TOOLS: [&'static str; 7] = [
    "link.exe",
    "cl.exe",
    "lib.exe",
    "dumpbin.exe",
    "ml64.exe",
    "armasm64.exe",
    "objdump.exe",
];

/// What speaks for a Beacon Object File.
#[derive(Clone, Copy, Debug, PartialEq, Eq, Structural, Hash)]
pub enum BofDetectionType {
    CoffHeaderInMemory,
    BeaconApiPattern,
    CoffRelocationPattern,
    BofEntryPoint,
    ApiHashingPattern,
    BofFunctionSequence,
    CoffParsingActivity,
    CombinedIndicators,
}

impl BofDetectionType {
    /// The name of the kind.
    pub open spec fn spec_as_str(&self) -> Seq<char> {
        match self {
            BofDetectionType::CoffHeaderInMemory => "coff_header_in_memory"@,
            BofDetectionType::BeaconApiPattern => "beacon_api_pattern"@,
            BofDetectionType::CoffRelocationPattern => "coff_relocation_pattern"@,
            BofDetectionType::BofEntryPoint => "bof_entry_point"@,
            BofDetectionType::ApiHashingPattern => "api_hashing_pattern"@,
            BofDetectionType::BofFunctionSequence => "bof_function_sequence"@,
            BofDetectionType::CoffParsingActivity => "coff_parsing_activity"@,
            BofDetectionType::CombinedIndicators => "combined_indicators"@,
        }
    }

    /// What the kind means.
    pub open spec fn spec_description(&self) -> Seq<char> {
        match self {
            BofDetectionType::CoffHeaderInMemory => "COFF object file header detected in unbacked/private memory"@,
            BofDetectionType::BeaconApiPattern => "Cobalt Strike Beacon API resolution pattern detected"@,
            BofDetectionType::CoffRelocationPattern => "COFF relocation fixup processing pattern detected"@,
            BofDetectionType::BofEntryPoint => "BOF-style entry point (go function) pattern detected"@,
            BofDetectionType::ApiHashingPattern => "API hashing for dynamic function resolution detected"@,
            BofDetectionType::BofFunctionSequence => "BOF helper function call sequence detected"@,
            BofDetectionType::CoffParsingActivity => "In-memory COFF parsing/loading activity detected"@,
            BofDetectionType::CombinedIndicators => "Multiple BOF indicators detected in process"@,
        }
    }

    /// How severe the kind is.
    pub open spec fn spec_severity(&self) -> Severity {
        match self {
            BofDetectionType::CoffRelocationPattern => Severity::High,
            BofDetectionType::ApiHashingPattern => Severity::High,
            BofDetectionType::CoffParsingActivity => Severity::High,
            _ => Severity::Critical,
        }
    }

    /// The ATT&CK techniques of the kind.
    pub open spec fn spec_mitre_techniques(&self) -> Seq<Seq<char>> {
        match self {
            BofDetectionType::CoffHeaderInMemory => seq!["T1620"@, "T1055"@],
            BofDetectionType::BeaconApiPattern => seq!["T1106"@, "T1071.001"@],
            BofDetectionType::CoffRelocationPattern => seq!["T1620"@],
            BofDetectionType::BofEntryPoint => seq!["T1106"@, "T1059"@],
            BofDetectionType::ApiHashingPattern => seq!["T1027"@, "T1106"@],
            BofDetectionType::BofFunctionSequence => seq!["T1106"@, "T1071.001"@],
            BofDetectionType::CoffParsingActivity => seq!["T1620"@, "T1055"@],
            BofDetectionType::CombinedIndicators => seq!["T1620"@, "T1055"@, "T1106"@, "T1071.001"@],
        }
    }

    /// The name of the kind.
    pub fn as_str(&self) -> (r: &'static str)
        ensures
            r@ == self.spec_as_str(),
    {
        match self {
            BofDetectionType::CoffHeaderInMemory => "coff_header_in_memory",
            BofDetectionType::BeaconApiPattern => "beacon_api_pattern",
            BofDetectionType::CoffRelocationPattern => "coff_relocation_pattern",
            BofDetectionType::BofEntryPoint => "bof_entry_point",
            BofDetectionType::ApiHashingPattern => "api_hashing_pattern",
            BofDetectionType::BofFunctionSequence => "bof_function_sequence",
            BofDetectionType::CoffParsingActivity => "coff_parsing_activity",
            BofDetectionType::CombinedIndicators => "combined_indicators",
        }
    }

    /// What the kind means.
    pub fn description(&self) -> (r: &'static str)
        ensures
            r@ == self.spec_description(),
    {
        match self {
            BofDetectionType::CoffHeaderInMemory => "COFF object file header detected in unbacked/private memory",
            BofDetectionType::BeaconApiPattern => "Cobalt Strike Beacon API resolution pattern detected",
            BofDetectionType::CoffRelocationPattern => "COFF relocation fixup processing pattern detected",
            BofDetectionType::BofEntryPoint => "BOF-style entry point (go function) pattern detected",
            BofDetectionType::ApiHashingPattern => "API hashing for dynamic function resolution detected",
            BofDetectionType::BofFunctionSequence => "BOF helper function call sequence detected",
            BofDetectionType::CoffParsingActivity => "In-memory COFF parsing/loading activity detected",
            BofDetectionType::CombinedIndicators => "Multiple BOF indicators detected in process",
        }
    }

    /// How severe the kind is.
    pub fn severity(&self) -> (r: Severity)
        ensures
            r == self.spec_severity(),
    {
        match self {
            BofDetectionType::CoffRelocationPattern => Severity::High,
            BofDetectionType::ApiHashingPattern => Severity::High,
            BofDetectionType::CoffParsingActivity => Severity::High,
            _ => Severity::Critical,
        }
    }

    /// The ATT&CK techniques of the kind.
    pub fn mitre_techniques(&self) -> (r: Vec<&'static str>)
        ensures
            str_texts(r@) == self.spec_mitre_techniques(),
    {
        let r = match self {
            BofDetectionType::CoffHeaderInMemory => vec!["T1620", "T1055"],
            BofDetectionType::BeaconApiPattern => vec!["T1106", "T1071.001"],
            BofDetectionType::CoffRelocationPattern => vec!["T1620"],
            BofDetectionType::BofEntryPoint => vec!["T1106", "T1059"],
            BofDetectionType::ApiHashingPattern => vec!["T1027", "T1106"],
            BofDetectionType::BofFunctionSequence => vec!["T1106", "T1071.001"],
            BofDetectionType::CoffParsingActivity => vec!["T1620", "T1055"],
            BofDetectionType::CombinedIndicators => vec!["T1620", "T1055", "T1106", "T1071.001"],
        };
        assert(str_texts(r@) =~= self.spec_mitre_techniques());
        r
    }
}

/// The machine that a COFF object is for.
#[derive(Clone, Copy, Debug, PartialEq, Eq, Structural)]
pub enum CoffMachine {
    X64,
    X86,
    Arm64,
    Unknown(u16),
}

impl CoffMachine {
    /// The machine with a number.
    pub open spec fn spec_from_magic(magic: u16) -> CoffMachine {
        if magic == COFF_MAGIC_X64 {
            CoffMachine::X64
        } else if magic == COFF_MAGIC_X86 {
            CoffMachine::X86
        } else if magic == COFF_MAGIC_ARM64 {
            CoffMachine::Arm64
        } else {
            CoffMachine::Unknown(magic)
        }
    }

    /// The name of the machine.
    pub open spec fn spec_as_str(&self) -> Seq<char> {
        match self {
            CoffMachine::X64 => "x64"@,
            CoffMachine::X86 => "x86"@,
            CoffMachine::Arm64 => "arm64"@,
            CoffMachine::Unknown(_) => "unknown"@,
        }
    }

    /// The machine with a number.
    pub fn from_magic(magic: u16) -> (r: CoffMachine)
        ensures
            r == CoffMachine::spec_from_magic(magic),
    {
        if magic == COFF_MAGIC_X64 {
            CoffMachine::X64
        } else if magic == COFF_MAGIC_X86 {
            CoffMachine::X86
        } else if magic == COFF_MAGIC_ARM64 {
            CoffMachine::Arm64
        } else {
            CoffMachine::Unknown(magic)
        }
    }

    /// The name of the machine.
    pub fn as_str(&self) -> (r: &'static str)
        ensures
            r@ == self.spec_as_str(),
    {
        match self {
            CoffMachine::X64 => "x64",
            CoffMachine::X86 => "x86",
            CoffMachine::Arm64 => "arm64",
            CoffMachine::Unknown(_) => "unknown",
        }
    }
}

/// What a COFF header tells.
pub struct CoffInfo {
    pub machine: CoffMachine,
    pub num_sections: u16,
    pub timestamp: u32,
    pub characteristics: u16,
    pub sections: Vec<String>,
    pub symbols: Vec<String>,
    pub is_likely_bof: bool,
}

/// What a COFF header tells, as a mathematical value.
#[verifier::ext_equal]
pub struct CoffModel {
    pub machine: CoffMachine,
    pub num_sections: u16,
    pub timestamp: u32,
    pub characteristics: u16,
    pub sections: Seq<Seq<char>>,
    pub symbols: Seq<Seq<char>>,
    pub is_likely_bof: bool,
}

impl View for CoffInfo {
    type V = CoffModel;

    open spec fn view(&self) -> CoffModel {
        CoffModel {
            machine: self.machine,
            num_sections: self.num_sections,
            timestamp: self.timestamp,
            characteristics: self.characteristics,
            sections: texts(self.sections@),
            symbols: texts(self.symbols@),
            is_likely_bof: self.is_likely_bof,
        }
    }
}

/// What the optional header information tells.
pub open spec fn coff_view(info: Option<CoffInfo>) -> Option<CoffModel> {
    match info {
        Some(i) => Some(i@),
        None => None,
    }
}

/// Whether a Beacon name stands in the bytes.
pub open spec fn api_in(bytes: Seq<u8>) -> spec_fn(Seq<char>) -> bool {
    |api: Seq<char>| found(bytes, encode_utf8(api))
}

/// The Beacon names that stand in the bytes, in the order of the table.
pub open spec fn beacon_apis_in(bytes: Seq<u8>) -> Seq<Seq<char>> {
    str_texts(BEACON_API_STRINGS@).filter(api_in(bytes))
}

/// Where the header of section `i` begins.
pub open spec fn section_offset(buffer: Seq<u8>, i: int) -> int {
    COFF_HEADER_SIZE + le16(buffer, 16) + i * COFF_SECTION_HEADER_SIZE
}

/// Bytes up to their first zero, all of them where there is none.
pub open spec fn up_to_zero(bytes: Seq<u8>) -> Seq<u8>
    decreases bytes.len(),
{
    if bytes.len() == 0 || bytes[0] == 0 {
        Seq::empty()
    } else {
        seq![bytes[0]] + up_to_zero(bytes.drop_first())
    }
}

/// The name of section `i`: the text of eight bytes up to their first zero, or of
/// all eight.
pub open spec fn section_name(buffer: Seq<u8>, i: int) -> Seq<char> {
    let at = section_offset(buffer, i);
    utf8_lossy(up_to_zero(buffer.subrange(at, at + 8)))
}

/// How many bytes stand in front of the first zero.
fn length_to_zero(bytes: &[u8]) -> (n: usize)
    ensures
        n <= bytes@.len(),
        bytes@.take(n as int) == up_to_zero(bytes@),
{
    let mut n: usize = 0;
    assert(bytes@.skip(0) =~= bytes@);
    assert(bytes@.take(0) + up_to_zero(bytes@) =~= up_to_zero(bytes@));
    while n < bytes.len() && bytes[n] != 0
        invariant
            n <= bytes@.len(),
            bytes@.take(n as int) + up_to_zero(bytes@.skip(n as int)) == up_to_zero(bytes@),
        decreases bytes@.len() - n,
    {
        proof {
            let rest = bytes@.skip(n as int);
            assert(rest.drop_first() =~= bytes@.skip(n + 1));
            assert(bytes@.take(n + 1) =~= bytes@.take(n as int) + seq![rest[0]]);
            assert(bytes@.take(n + 1) + up_to_zero(rest.drop_first()) =~= bytes@.take(n as int)
                + up_to_zero(rest));
        }
        n += 1;
    }
    assert(up_to_zero(bytes@.skip(n as int)) =~= Seq::empty());
    assert(bytes@.take(n as int) + Seq::<u8>::empty() =~= bytes@.take(n as int));
    n
}

/// The names, as far as they are not empty, of those of the first `n` sections
/// whose name lies within the buffer.
pub open spec fn section_names(buffer: Seq<u8>, n: nat) -> Seq<Seq<char>>
    decreases n,
{
    if n == 0 {
        Seq::empty()
    } else {
        let before = section_names(buffer, (n - 1) as nat);
        if section_offset(buffer, n - 1) + 8 <= buffer.len() && section_name(buffer, n - 1).len()
            > 0 {
            before.push(section_name(buffer, n - 1))
        } else {
            before
        }
    }
}

/// Where the string table begins, behind the symbol table.
pub open spec fn string_table_offset(buffer: Seq<u8>) -> int {
    le32(buffer, 8) + le32(buffer, 12) * 18
}

/// The Beacon names in the string table, where there is one within the buffer.
pub open spec fn symbol_names(buffer: Seq<u8>) -> Seq<Seq<char>> {
    let at = string_table_offset(buffer);
    if le32(buffer, 8) > 0 && le32(buffer, 12) > 0 && at + 4 < buffer.len() && at + le32(buffer, at)
        <= buffer.len() {
        beacon_apis_in(buffer.subrange(at, at + le32(buffer, at)))
    } else {
        Seq::empty()
    }
}

/// What the COFF header at the start of a buffer tells, where there is one.
pub open spec fn coff_header(buffer: Seq<u8>) -> Option<CoffModel> {
    if buffer.len() < COFF_HEADER_SIZE {
        None
    } else {
        let machine = CoffMachine::spec_from_magic(le16(buffer, 0) as u16);
        let num_sections = le16(buffer, 2) as u16;
        let characteristics = le16(buffer, 18) as u16;
        let sections = section_names(buffer, num_sections as nat);
        if machine is Unknown || num_sections == 0 || num_sections > 96 {
            None
        } else {
            Some(
                CoffModel {
                    machine,
                    num_sections,
                    timestamp: le32(buffer, 4) as u32,
                    characteristics,
                    sections,
                    symbols: symbol_names(buffer),
                    is_likely_bof: characteristics & IMAGE_FILE_EXECUTABLE_IMAGE == 0
                        && characteristics & IMAGE_FILE_RELOCS_STRIPPED == 0 && sections.contains(
                        ".text"@,
                    ) && num_sections <= 10,
                },
            )
        }
    }
}

/// Byte patterns of code in Beacon Object Files.
pub open spec fn bof_byte_patterns() -> Seq<BytePatternModel> {
    seq![
        BytePatternModel {
            name: "bof_prologue_x64_1"@,
            bytes: seq![0x55, 0x48, 0x89, 0xE5, 0x48, 0x83, 0xEC],
            weight: 700_000,
        },
        BytePatternModel {
            name: "bof_prologue_x64_2"@,
            bytes: seq![0x53, 0x48, 0x83, 0xEC],
            weight: 600_000,
        },
        BytePatternModel {
            name: "beacon_data_parse_setup"@,
            bytes: seq![0x48, 0x8D, 0x54, 0x24],
            weight: 750_000,
        },
        BytePatternModel {
            name: "api_hash_ror13"@,
            bytes: seq![0xC1, 0xC8, 0x0D, 0x01, 0xC8],
            weight: 850_000,
        },
        BytePatternModel {
            name: "api_hash_ror13_v2"@,
            bytes: seq![0xC1, 0xCA, 0x0D, 0x01, 0xC2],
            weight: 850_000,
        },
        BytePatternModel {
            name: "peb_access_x64"@,
            bytes: seq![0x65, 0x48, 0x8B, 0x04, 0x25, 0x60, 0x00, 0x00, 0x00],
            weight: 800_000,
        },
        BytePatternModel {
            name: "ldr_module_list"@,
            bytes: seq![0x48, 0x8B, 0x40, 0x10],
            weight: 500_000,
        },
        BytePatternModel {
            name: "syscall_stub"@,
            bytes: seq![0x4C, 0x8B, 0xD1, 0xB8],
            weight: 900_000,
        },
        BytePatternModel {
            name: "reloc_base_adjustment"@,
            bytes: seq![0x48, 0x03, 0x05],
            weight: 500_000,
        },
        BytePatternModel {
            name: "bof_cleanup_x64"@,
            bytes: seq![0x33, 0xC0, 0x48, 0x83, 0xC4],
            weight: 600_000,
        },
        BytePatternModel {
            name: "beacon_buffer_write"@,
            bytes: seq![0x48, 0x89, 0x51],
            weight: 400_000,
        },
    ]
}

fn byte_pattern_table() -> (r: Vec<BytePattern>)
    ensures
        patterns_view(r@) == bof_byte_patterns(),
{
    let r = vec![
        BytePattern {
            name: "bof_prologue_x64_1",
            bytes: vec![0x55, 0x48, 0x89, 0xE5, 0x48, 0x83, 0xEC],
            weight: 700_000,
        },
        BytePattern {
            name: "bof_prologue_x64_2",
            bytes: vec![0x53, 0x48, 0x83, 0xEC],
            weight: 600_000,
        },
        BytePattern {
            name: "beacon_data_parse_setup",
            bytes: vec![0x48, 0x8D, 0x54, 0x24],
            weight: 750_000,
        },
        BytePattern {
            name: "api_hash_ror13",
            bytes: vec![0xC1, 0xC8, 0x0D, 0x01, 0xC8],
            weight: 850_000,
        },
        BytePattern {
            name: "api_hash_ror13_v2",
            bytes: vec![0xC1, 0xCA, 0x0D, 0x01, 0xC2],
            weight: 850_000,
        },
        BytePattern {
            name: "peb_access_x64",
            bytes: vec![0x65, 0x48, 0x8B, 0x04, 0x25, 0x60, 0x00, 0x00, 0x00],
            weight: 800_000,
        },
        BytePattern {
            name: "ldr_module_list",
            bytes: vec![0x48, 0x8B, 0x40, 0x10],
            weight: 500_000,
        },
        BytePattern {
            name: "syscall_stub",
            bytes: vec![0x4C, 0x8B, 0xD1, 0xB8],
            weight: 900_000,
        },
        BytePattern {
            name: "reloc_base_adjustment",
            bytes: vec![0x48, 0x03, 0x05],
            weight: 500_000,
        },
        BytePattern {
            name: "bof_cleanup_x64",
            bytes: vec![0x33, 0xC0, 0x48, 0x83, 0xC4],
            weight: 600_000,
        },
        BytePattern {
            name: "beacon_buffer_write",
            bytes: vec![0x48, 0x89, 0x51],
            weight: 400_000,
        },
    ];
    assert(patterns_view(r@) =~~= bof_byte_patterns());
    r
}

/// Whether the buffer has code that hashes names: a rotation by thirteen, and
/// two of the three instructions of a hashing loop's frame.
pub open spec fn hashes_names(buffer: Seq<u8>) -> bool {
    let ror = found(buffer, seq![0xC1, 0xC8, 0x0D]) || found(buffer, seq![0xC1, 0xCA, 0x0D])
        || found(buffer, seq![0xC1, 0xCB, 0x0D]) || found(buffer, seq![0xC1, 0xC9, 0x0D]) || found(
        buffer,
        seq![0xC0, 0xC8, 0x0D],
    );
    let clear_a = found(buffer, seq![0x31, 0xC0]);
    let clear_b = found(buffer, seq![0x33, 0xC0]);
    let load = found(buffer, seq![0xAC]);
    ror && (clear_a && clear_b || clear_a && load || clear_b && load)
}

/// How many instructions of the buffer load an address relative to the
/// instruction pointer.
pub open spec fn relative_loads(buffer: Seq<u8>) -> nat {
    occurrences(buffer, seq![0x48, 0x8D, 0x05]) + occurrences(buffer, seq![0x48, 0x8D, 0x0D])
        + occurrences(buffer, seq![0x48, 0x8D, 0x15]) + occurrences(buffer, seq![0x4C, 0x8D, 0x05])
}

/// What a scan has found so far.
pub struct Findings {
    pub patterns: Vec<String>,
    pub apis: Vec<String>,
    pub evidence: Vec<String>,
    /// The sum of the weights, in millionths.
    pub total: u64,
    pub count: u64,
}

/// What a scan has found so far, as a mathematical value.
#[verifier::ext_equal]
pub struct FindingsModel {
    pub patterns: Seq<Seq<char>>,
    pub apis: Seq<Seq<char>>,
    pub evidence: Seq<Seq<char>>,
    pub total: nat,
    pub count: nat,
}

impl View for Findings {
    type V = FindingsModel;

    open spec fn view(&self) -> FindingsModel {
        FindingsModel {
            patterns: texts(self.patterns@),
            apis: texts(self.apis@),
            evidence: texts(self.evidence@),
            total: self.total as nat,
            count: self.count as nat,
        }
    }
}

/// Nothing found.
pub open spec fn no_findings() -> FindingsModel {
    FindingsModel {
        patterns: Seq::empty(),
        apis: Seq::empty(),
        evidence: Seq::empty(),
        total: 0,
        count: 0,
    }
}

/// With a note of each section whose name Beacon Object Files have.
pub open spec fn with_sections(f: FindingsModel, sections: Seq<Seq<char>>) -> FindingsModel
    decreases sections.len(),
{
    if sections.len() == 0 {
        f
    } else {
        let g = with_sections(f, sections.drop_last());
        let name = sections.last();
        if str_texts(BOF_SECTION_NAMES@).contains(name) {
            FindingsModel { evidence: g.evidence.push("BOF section: "@ + name), ..g }
        } else {
            g
        }
    }
}

/// With each symbol that holds a Beacon name.
pub open spec fn with_symbols(f: FindingsModel, symbols: Seq<Seq<char>>) -> FindingsModel
    decreases symbols.len(),
{
    if symbols.len() == 0 {
        f
    } else {
        let g = with_symbols(f, symbols.drop_last());
        let symbol = symbols.last();
        if any_occurs(BEACON_API_STRINGS@, symbol) {
            FindingsModel {
                apis: g.apis.push(symbol),
                evidence: g.evidence.push("Beacon API symbol: "@ + symbol),
                total: g.total + 200_000,
                ..g
            }
        } else {
            g
        }
    }
}

/// With what a COFF header tells.
pub open spec fn with_coff(f: FindingsModel, info: CoffModel) -> FindingsModel {
    let headed = FindingsModel {
        patterns: f.patterns.push("coff_header"@),
        evidence: f.evidence.push(
            "COFF header detected: machine="@ + info.machine.spec_as_str() + ", sections="@
                + decimal(info.num_sections as nat),
        ),
        total: f.total + 400_000,
        count: f.count + 1,
        ..f
    };
    let judged = if info.is_likely_bof {
        FindingsModel {
            patterns: headed.patterns.push("bof_characteristics"@),
            evidence: headed.evidence.push(
                "COFF characteristics indicate BOF (relocatable, no entry point)"@,
            ),
            total: headed.total + 300_000,
            ..headed
        }
    } else {
        headed
    };
    with_symbols(with_sections(judged, info.sections), info.symbols)
}

/// With each Beacon name that was not there yet.
pub open spec fn with_apis(f: FindingsModel, apis: Seq<Seq<char>>) -> FindingsModel
    decreases apis.len(),
{
    if apis.len() == 0 {
        f
    } else {
        let g = with_apis(f, apis.drop_last());
        let api = apis.last();
        if g.apis.contains(api) {
            g
        } else {
            FindingsModel {
                apis: g.apis.push(api),
                patterns: g.patterns.push("beacon_api:"@ + api),
                total: g.total + 150_000,
                count: g.count + 1,
                ..g
            }
        }
    }
}

/// With each byte pattern that stands in the buffer.
pub open spec fn with_patterns(
    f: FindingsModel,
    buffer: Seq<u8>,
    table: Seq<BytePatternModel>,
) -> FindingsModel
    decreases table.len(),
{
    if table.len() == 0 {
        f
    } else {
        let g = with_patterns(f, buffer, table.drop_last());
        let p = table.last();
        if found(buffer, p.bytes) {
            FindingsModel {
                patterns: g.patterns.push(p.name),
                evidence: g.evidence.push("BOF pattern detected: "@ + p.name),
                total: g.total + p.weight as nat,
                count: g.count + 1,
                ..g
            }
        } else {
            g
        }
    }
}

/// With a note where code hashes names.
pub open spec fn with_hashing(f: FindingsModel, hashing: bool) -> FindingsModel {
    if hashing {
        FindingsModel {
            patterns: f.patterns.push("api_hashing"@),
            evidence: f.evidence.push("API hashing/resolution loop detected"@),
            total: f.total + 250_000,
            count: f.count + 1,
            ..f
        }
    } else {
        f
    }
}

/// With a note where code applies relocations.
pub open spec fn with_relocations(f: FindingsModel, relocations: bool) -> FindingsModel {
    if relocations {
        FindingsModel {
            patterns: f.patterns.push("coff_relocations"@),
            evidence: f.evidence.push("COFF relocation fixup patterns detected"@),
            total: f.total + 200_000,
            count: f.count + 1,
            ..f
        }
    } else {
        f
    }
}

/// The scans that a configuration asks for.
pub struct ScanSwitches {
    pub coff_headers: bool,
    pub beacon_apis: bool,
    pub api_hashing: bool,
}

/// The COFF header that a scan sees.
pub open spec fn scanned_coff(switches: ScanSwitches, buffer: Seq<u8>) -> Option<CoffModel> {
    if switches.coff_headers {
        coff_header(buffer)
    } else {
        None
    }
}

/// All that a scan of a buffer finds.
pub open spec fn scan_findings(switches: ScanSwitches, buffer: Seq<u8>) -> FindingsModel {
    let headed = match scanned_coff(switches, buffer) {
        Some(info) => with_coff(no_findings(), info),
        None => no_findings(),
    };
    let named = if switches.beacon_apis {
        with_apis(headed, beacon_apis_in(buffer))
    } else {
        headed
    };
    let patterned = with_patterns(named, buffer, bof_byte_patterns());
    let hashed = with_hashing(patterned, switches.api_hashing && hashes_names(buffer));
    with_relocations(hashed, relative_loads(buffer) >= 3)
}

/// The mean weight of what was found, at most one.
pub open spec fn scan_confidence(f: FindingsModel) -> nat {
    let mean = f.total / (if f.count == 0 { 1 } else { f.count });
    if mean < ONE { mean } else { ONE as nat }
}

/// What a scan that raises an alert calls it.
pub open spec fn classified(has_coff: bool, f: FindingsModel) -> BofDetectionType {
    if has_coff && f.apis.len() > 0 {
        BofDetectionType::CombinedIndicators
    } else if has_coff {
        BofDetectionType::CoffHeaderInMemory
    } else if f.apis.len() > 0 {
        BofDetectionType::BeaconApiPattern
    } else if f.patterns.contains("api_hashing"@) {
        BofDetectionType::ApiHashingPattern
    } else if exists|i: int|
        0 <= i < f.patterns.len() && begins(#[trigger] f.patterns[i], "bof_prologue"@) {
        BofDetectionType::BofEntryPoint
    } else {
        BofDetectionType::BofFunctionSequence
    }
}

/// A region of a process's memory that raised an alert, and when it did.
#[derive(Clone, Copy, PartialEq, Eq, Structural)]
pub struct ScanMark {
    pub pid: u32,
    pub address: u64,
    pub at: u64,
}

/// Whether a mark is younger than the expiry.
pub open spec fn is_fresh(mark: ScanMark, now: u64) -> bool {
    now - mark.at < CACHE_EXPIRY_MS
}

/// Whether a region raised an alert that has not expired.
pub open spec fn recently_alerted(
    marks: Seq<ScanMark>,
    pid: u32,
    address: u64,
    now: u64,
) -> bool {
    exists|i: int|
        0 <= i < marks.len() && (#[trigger] marks[i]).pid == pid && marks[i].address == address
            && is_fresh(marks[i], now)
}

/// Whether no region is marked twice.
pub open spec fn distinct_marks(marks: Seq<ScanMark>) -> bool {
    forall|i: int, j: int|
        0 <= i < j < marks.len() ==> (#[trigger] marks[i]).pid != (#[trigger] marks[j]).pid
            || marks[i].address != marks[j].address
}

/// The marks of the regions other than one.
pub open spec fn without_region(marks: Seq<ScanMark>, pid: u32, address: u64) -> Seq<ScanMark> {
    marks.filter(|m: ScanMark| m.pid != pid || m.address != address)
}

/// The configuration of a detector.
pub struct BofDetectorConfig {
    pub scan_coff_headers: bool,
    pub scan_beacon_apis: bool,
    pub scan_api_hashing: bool,
    /// In millionths.
    pub confidence_threshold: u32,
    /// Larger regions are not scanned.
    pub max_scan_size: usize,
    pub scan_interval_ms: u64,
    /// In lower case.
    pub skip_processes: Vec<String>,
}

impl BofDetectorConfig {
    /// The scans that the configuration asks for.
    pub open spec fn switches(&self) -> ScanSwitches {
        ScanSwitches {
            coff_headers: self.scan_coff_headers,
            beacon_apis: self.scan_beacon_apis,
            api_hashing: self.scan_api_hashing,
        }
    }
}

impl Default for BofDetectorConfig {
    fn default() -> (r: BofDetectorConfig)
        ensures
            r.scan_coff_headers,
            r.scan_beacon_apis,
            r.scan_api_hashing,
            r.confidence_threshold == 650_000,
            r.max_scan_size == 10 * 1024 * 1024,
            r.scan_interval_ms == 30_000,
            texts(r.skip_processes@) == str_texts(SKIPPED_BUILD_TOOLS@),
    {
        BofDetectorConfig {
            scan_coff_headers: true,
            scan_beacon_apis: true,
            scan_api_hashing: true,
            confidence_threshold: 650_000,
            max_scan_size: 10 * 1024 * 1024,
            scan_interval_ms: 30_000,
            skip_processes: owned(&SKIPPED_BUILD_TOOLS),
        }
    }
}

/// An alert about a Beacon Object File.
pub struct BofDetection {
    pub pid: u32,
    pub process_name: String,
    pub process_path: String,
    pub memory_address: u64,
    pub region_size: usize,
    pub detection_type: BofDetectionType,
    /// In millionths.
    pub confidence: u32,
    pub detected_patterns: Vec<String>,
    pub coff_info: Option<CoffInfo>,
    pub beacon_apis: Vec<String>,
    pub evidence: Vec<String>,
}

/// What an alert says.
#[verifier::ext_equal]
pub struct BofDetectionModel {
    pub pid: u32,
    pub process_name: Seq<char>,
    pub process_path: Seq<char>,
    pub memory_address: u64,
    pub region_size: usize,
    pub detection_type: BofDetectionType,
    pub confidence: u32,
    pub detected_patterns: Seq<Seq<char>>,
    pub coff_info: Option<CoffModel>,
    pub beacon_apis: Seq<Seq<char>>,
    pub evidence: Seq<Seq<char>>,
}

impl View for BofDetection {
    type V = BofDetectionModel;

    open spec fn view(&self) -> BofDetectionModel {
        BofDetectionModel {
            pid: self.pid,
            process_name: self.process_name@,
            process_path: self.process_path@,
            memory_address: self.memory_address,
            region_size: self.region_size,
            detection_type: self.detection_type,
            confidence: self.confidence,
            detected_patterns: texts(self.detected_patterns@),
            coff_info: coff_view(self.coff_info),
            beacon_apis: texts(self.beacon_apis@),
            evidence: texts(self.evidence@),
        }
    }
}

fn beacon_apis_of(buffer: &[u8]) -> (found_apis: Vec<String>)
    ensures
        texts(found_apis@) == beacon_apis_in(buffer@),
        found_apis@.len() <= 29,
{
    let mut r: Vec<String> = Vec::new();
    let mut i: usize = 0;
    let ghost all = str_texts(BEACON_API_STRINGS@);
    assert(all.take(0).filter(api_in(buffer@)) =~= Seq::empty()) by {
        reveal(Seq::filter);
    }
    while i < 29
        invariant
            i <= 29,
            all == str_texts(BEACON_API_STRINGS@),
            all.len() == 29,
            texts(r@) == all.take(i as int).filter(api_in(buffer@)),
            r@.len() <= i,
        decreases 29 - i,
    {
        let api: &str = BEACON_API_STRINGS[i];
        proof {
            lemma_filter_step(all, i as int, api_in(buffer@));
            assert(all[i as int] == api@);
        }
        if find_bytes(buffer, api.as_bytes()) {
            let ghost before = r@;
            r.push(api.to_string());
            assert(texts(r@) =~= texts(before).push(api@));
        }
        i += 1;
    }
    assert(all.take(29) =~= all);
    r
}

fn is_bof_section(name: &str) -> (r: bool)
    ensures
        r == str_texts(BOF_SECTION_NAMES@).contains(name@),
{
    let mut i: usize = 0;
    let ghost all = str_texts(BOF_SECTION_NAMES@);
    while i < 7
        invariant
            i <= 7,
            all == str_texts(BOF_SECTION_NAMES@),
            all.len() == 7,
            forall|j: int| 0 <= j < i ==> all[j] != name@,
        decreases 7 - i,
    {
        let known: &str = BOF_SECTION_NAMES[i];
        assert(all[i as int] == known@);
        if same(known, name) {
            return true;
        }
        i += 1;
    }
    false
}

impl Findings {
    fn new() -> (f: Findings)
        ensures
            f@ == no_findings(),
    {
        let f = Findings {
            patterns: Vec::new(),
            apis: Vec::new(),
            evidence: Vec::new(),
            total: 0,
            count: 0,
        };
        assert(f@ =~= no_findings());
        f
    }

    fn add_coff(&mut self, info: &CoffInfo)
        requires
            old(self)@ == no_findings(),
            info.symbols@.len() <= 29,
        ensures
            final(self)@ == with_coff(old(self)@, info@),
            final(self).total <= 700_000 + 200_000 * 29,
            final(self).count == 1,
    {
        push_text(&mut self.patterns, "coff_header".to_string());
        push_text(
            &mut self.evidence,
            "COFF header detected: machine=".to_string().concat(info.machine.as_str()).concat(
                ", sections=",
            ).concat(decimal_text(info.num_sections as u64).as_str()),
        );
        self.total = self.total + 400_000;
        self.count = self.count + 1;
        if info.is_likely_bof {
            push_text(&mut self.patterns, "bof_characteristics".to_string());
            push_text(
                &mut self.evidence,
                "COFF characteristics indicate BOF (relocatable, no entry point)".to_string(),
            );
            self.total = self.total + 300_000;
        }
        let ghost judged = self@;
        let ghost sections = texts(info.sections@);
        let mut i: usize = 0;
        assert(sections.take(0) =~= Seq::empty());
        while i < info.sections.len()
            invariant
                i <= info.sections@.len(),
                sections == texts(info.sections@),
                self@ == with_sections(judged, sections.take(i as int)),
                self.total == judged.total,
                self.count == judged.count,
            decreases info.sections@.len() - i,
        {
            assert(sections.take(i + 1).drop_last() =~= sections.take(i as int));
            let name = info.sections[i].as_str();
            assert(sections.take(i + 1).last() == name@);
            if is_bof_section(name) {
                push_text(&mut self.evidence, "BOF section: ".to_string().concat(name));
            }
            i += 1;
        }
        assert(sections.take(i as int) =~= sections);
        let ghost sectioned = self@;
        let ghost symbols = texts(info.symbols@);
        let mut k: usize = 0;
        assert(symbols.take(0) =~= Seq::empty());
        while k < info.symbols.len()
            invariant
                k <= info.symbols@.len() <= 29,
                symbols == texts(info.symbols@),
                self@ == with_symbols(sectioned, symbols.take(k as int)),
                self.total <= 700_000 + 200_000 * k,
                self.count == sectioned.count,
            decreases info.symbols@.len() - k,
        {
            assert(symbols.take(k + 1).drop_last() =~= symbols.take(k as int));
            let symbol = info.symbols[k].as_str();
            assert(symbols.take(k + 1).last() == symbol@);
            if contains_any(symbol, &BEACON_API_STRINGS) {
                push_text(&mut self.apis, symbol.to_string());
                push_text(
                    &mut self.evidence,
                    "Beacon API symbol: ".to_string().concat(symbol),
                );
                self.total = self.total + 200_000;
            }
            k += 1;
        }
        assert(symbols.take(k as int) =~= symbols);
    }

    fn add_apis(&mut self, found_apis: &Vec<String>)
        requires
            found_apis@.len() <= 29,
            old(self).total <= 10_000_000,
            old(self).count <= 10,
        ensures
            final(self)@ == with_apis(old(self)@, texts(found_apis@)),
            final(self).total <= old(self).total + 150_000 * 29,
            final(self).count <= old(self).count + 29,
    {
        let ghost before = self@;
        let ghost apis = texts(found_apis@);
        let mut i: usize = 0;
        assert(apis.take(0) =~= Seq::empty());
        while i < found_apis.len()
            invariant
                i <= found_apis@.len() <= 29,
                apis == texts(found_apis@),
                self@ == with_apis(before, apis.take(i as int)),
                self.total <= before.total + 150_000 * i,
                self.count <= before.count + i,
                before.total <= 10_000_000,
                before.count <= 10,
            decreases found_apis@.len() - i,
        {
            assert(apis.take(i + 1).drop_last() =~= apis.take(i as int));
            let api = found_apis[i].as_str();
            assert(apis.take(i + 1).last() == api@);
            if !holds(&self.apis, api) {
                push_text(&mut self.apis, api.to_string());
                push_text(&mut self.patterns, "beacon_api:".to_string().concat(api));
                self.total = self.total + 150_000;
                self.count = self.count + 1;
            }
            i += 1;
        }
        assert(apis.take(i as int) =~= apis);
    }

    fn add_patterns(&mut self, buffer: &[u8])
        requires
            old(self).total <= 20_000_000,
            old(self).count <= 100,
        ensures
            final(self)@ == with_patterns(old(self)@, buffer@, bof_byte_patterns()),
            final(self).total <= old(self).total + 11_000_000,
            final(self).count <= old(self).count + 11,
    {
        let table = byte_pattern_table();
        let ghost before = self@;
        let ghost all = bof_byte_patterns();
        let mut i: usize = 0;
        assert(all.take(0) =~= Seq::empty());
        assert(table@.len() == patterns_view(table@).len());
        assert(all.len() == 11);
        while i < table.len()
            invariant
                i <= table@.len(),
                table@.len() == 11,
                all == bof_byte_patterns(),
                patterns_view(table@) == all,
                self@ == with_patterns(before, buffer@, all.take(i as int)),
                self.total <= before.total + 1_000_000 * i,
                self.count <= before.count + i,
                before.total <= 20_000_000,
                before.count <= 100,
            decreases table@.len() - i,
        {
            assert(all.take(i + 1).drop_last() =~= all.take(i as int));
            assert(all[i as int] == table@[i as int]@);
            assert(all.take(i + 1).last() == table@[i as int]@);
            assert(all[i as int].weight <= 1_000_000);
            if find_bytes(buffer, table[i].bytes.as_slice()) {
                push_text(&mut self.patterns, table[i].name.to_string());
                push_text(
                    &mut self.evidence,
                    "BOF pattern detected: ".to_string().concat(table[i].name),
                );
                self.total = self.total + table[i].weight as u64;
                self.count = self.count + 1;
            }
            i += 1;
        }
        assert(all.take(i as int) =~= all);
    }
}

/// The facts that an alert's event holds about the header, added to others.
pub open spec fn coff_facts(
    facts: Map<Seq<char>, Seq<char>>,
    info: Option<CoffModel>,
) -> Map<Seq<char>, Seq<char>> {
    match info {
        Some(i) => facts.insert("coff_machine"@, i.machine.spec_as_str()).insert(
            "coff_sections"@,
            decimal(i.num_sections as nat),
        ).insert("coff_section_names"@, joined(i.sections, ", "@)).insert(
            "is_likely_bof"@,
            if i.is_likely_bof { "true"@ } else { "false"@ },
        ),
        None => facts,
    }
}

/// The facts that an alert's event holds.
pub open spec fn alert_facts(d: BofDetectionModel) -> Map<Seq<char>, Seq<char>> {
    coff_facts(
        Map::<Seq<char>, Seq<char>>::empty().insert(
            "bof_detection_type"@,
            d.detection_type.spec_as_str(),
        ).insert("detected_patterns"@, joined(d.detected_patterns, ", "@)).insert(
            "beacon_apis"@,
            joined(d.beacon_apis, ", "@),
        ).insert("evidence"@, joined(d.evidence, "; "@)).insert(
            "confidence"@,
            hundredths(crate::text::rounded(d.confidence as nat, 10_000)),
        ),
        d.coff_info,
    )
}

/// The detection that an alert's event holds.
pub open spec fn alert_detection(d: BofDetectionModel) -> DetectionModel {
    DetectionModel {
        detection_type: DetectionType::MemoryThreat,
        rule_name: "bof_detection_"@ + d.detection_type.spec_as_str(),
        confidence: d.confidence,
        description: d.detection_type.spec_description() + ": "@ + d.process_name + " (PID: "@
            + decimal(d.pid as nat) + ") at 0x"@ + hex_lower(d.memory_address as nat) + " - "@
            + decimal(d.detected_patterns.len()) + " patterns detected, "@ + decimal(
            d.beacon_apis.len(),
        ) + " Beacon APIs found"@,
        mitre_tactics: seq!["execution"@, "defense-evasion"@],
        mitre_techniques: d.detection_type.spec_mitre_techniques(),
    }
}

/// The payload of an alert's event.
pub open spec fn alert_payload(d: BofDetectionModel) -> MemoryPermissionModel {
    MemoryPermissionModel {
        pid: d.pid,
        process_name: d.process_name,
        process_path: d.process_path,
        base_address: d.memory_address,
        region_size: d.region_size as u64,
        old_protection: 0,
        new_protection: 0,
        old_protection_str: Seq::empty(),
        new_protection_str: "EXECUTE"@,
        mem_type: 0x20000,
        mem_type_str: "MEM_PRIVATE"@,
        entropy: 0,
        transition_type: "bof_detection"@,
        thread_from_unbacked: false,
        thread_id: None,
        thread_start_address: None,
    }
}

/// A detector of Beacon Object Files in memory.
pub struct BofDetector {
    pub config: BofDetectorConfig,
    /// The regions that raised alerts.
    pub scan_cache: Vec<ScanMark>,
}

impl BofDetector {
    /// Whether each region is marked at most once.
    pub open spec fn wf(&self) -> bool {
        distinct_marks(self.scan_cache@)
    }

    /// A detector with the default configuration.
    pub fn new() -> (d: BofDetector)
        ensures
            d.wf(),
            d.scan_cache@ == Seq::<ScanMark>::empty(),
            d.config.switches() == (ScanSwitches {
                coff_headers: true,
                beacon_apis: true,
                api_hashing: true,
            }),
            d.config.confidence_threshold == 650_000,
            d.config.max_scan_size == 10 * 1024 * 1024,
            d.config.scan_interval_ms == 30_000,
            texts(d.config.skip_processes@) == str_texts(SKIPPED_BUILD_TOOLS@),
    {
        BofDetector::with_config(BofDetectorConfig::default())
    }

    /// A detector with a configuration.
    pub fn with_config(config: BofDetectorConfig) -> (d: BofDetector)
        ensures
            d.wf(),
            d.config == config,
            d.scan_cache@ == Seq::<ScanMark>::empty(),
    {
        BofDetector { config, scan_cache: Vec::new() }
    }

    /// Forgets the alerts that have expired.
    pub fn cleanup_cache(&mut self, now: u64)
        requires
            old(self).wf(),
        ensures
            final(self).wf(),
            final(self).config == old(self).config,
            final(self).scan_cache@ == old(self).scan_cache@.filter(
                |m: ScanMark| is_fresh(m, now),
            ),
    {
        let ghost p = |m: ScanMark| is_fresh(m, now);
        proof {
            lemma_marks_distinct_after(self.scan_cache@, p);
        }
        let keep = |m: &ScanMark| -> (r: bool)
            ensures
                r == is_fresh(*m, now),
            { mark_is_fresh(m, now) };
        retain(&mut self.scan_cache, keep, Ghost(p));
    }

    /// Whether a process is one of those to skip, in any case of its letters.
    pub fn should_skip_process(&self, process_name: &str) -> (r: bool)
        ensures
            r == texts(self.config.skip_processes@).contains(lowercase(process_name@)),
            is_ascii_chars(process_name@) ==> r == texts(self.config.skip_processes@).contains(
                ascii_lowered(process_name@),
            ),
    {
        let name = to_lowercase(process_name);
        holds(&self.config.skip_processes, name.as_str())
    }

    /// Reads the COFF header at the start of a buffer.
    pub fn parse_coff_header(&self, buffer: &[u8]) -> (r: Option<CoffInfo>)
        ensures
            coff_view(r) == coff_header(buffer@),
            r matches Some(info) ==> info.symbols@.len() <= 29,
    {
        if buffer.len() < COFF_HEADER_SIZE {
            return None;
        }
        let machine = CoffMachine::from_magic(read_le16(buffer, 0));
        if matches!(machine, CoffMachine::Unknown(_)) {
            return None;
        }
        let num_sections: u16 = read_le16(buffer, 2);
        let timestamp: u32 = read_le32(buffer, 4);
        let symbol_table: u32 = read_le32(buffer, 8);
        let num_symbols: u32 = read_le32(buffer, 12);
        let optional_header_size: u16 = read_le16(buffer, 16);
        let characteristics: u16 = read_le16(buffer, 18);
        if num_sections == 0 || num_sections > 96 {
            return None;
        }
        let mut sections: Vec<String> = Vec::new();
        let mut i: usize = 0;
        assert(texts(sections@) =~= section_names(buffer@, 0));
        while i < num_sections as usize
            invariant
                i <= num_sections <= 96,
                20 <= buffer@.len() <= usize::MAX,
                optional_header_size == le16(buffer@, 16),
                texts(sections@) == section_names(buffer@, i as nat),
            decreases num_sections - i,
        {
            let at: usize = COFF_HEADER_SIZE + optional_header_size as usize + i
                * COFF_SECTION_HEADER_SIZE;
            if at + 8 <= buffer.len() {
                let name_bytes = vstd::slice::slice_subrange(buffer, at, at + 8);
                let n: usize = length_to_zero(name_bytes);
                assert(name_bytes@.subrange(0, n as int) =~= name_bytes@.take(n as int));
                let name = from_utf8_lossy(vstd::slice::slice_subrange(name_bytes, 0, n));
                if !name.as_str().is_empty() {
                    push_text(&mut sections, name);
                }
            }
            i += 1;
        }
        let mut symbols: Vec<String> = Vec::new();
        assert(texts(symbols@) =~= Seq::empty());
        if symbol_table > 0 && num_symbols > 0 {
            let table_offset: u64 = symbol_table as u64 + (num_symbols as u64) * 18;
            if table_offset + 4 < buffer.len() as u64 {
                let at: usize = table_offset as usize;
                let size: u32 = read_le32(buffer, at);
                if table_offset + size as u64 <= buffer.len() as u64 {
                    let end: usize = at + size as usize;
                    symbols = beacon_apis_of(vstd::slice::slice_subrange(buffer, at, end));
                }
            }
        }
        let is_likely_bof = characteristics & IMAGE_FILE_EXECUTABLE_IMAGE == 0 && characteristics
            & IMAGE_FILE_RELOCS_STRIPPED == 0 && holds(&sections, ".text") && num_sections <= 10;
        Some(
            CoffInfo {
                machine,
                num_sections,
                timestamp,
                characteristics,
                sections,
                symbols,
                is_likely_bof,
            },
        )
    }

    /// The Beacon names that stand in a buffer.
    pub fn scan_beacon_api_strings(&self, buffer: &[u8]) -> (found_apis: Vec<String>)
        ensures
            texts(found_apis@) == beacon_apis_in(buffer@),
    {
        beacon_apis_of(buffer)
    }

    /// Whether a byte pattern stands in a buffer.
    pub fn find_pattern(&self, buffer: &[u8], pattern: &[u8]) -> (r: bool)
        requires
            pattern@.len() > 0,
        ensures
            r == found(buffer@, pattern@),
    {
        find_bytes(buffer, pattern)
    }

    /// Whether a buffer has code that hashes names.
    pub fn detect_api_hashing(&self, buffer: &[u8]) -> (r: bool)
        ensures
            r == hashes_names(buffer@),
    {
        let ror = find3(buffer, 0xC1, 0xC8, 0x0D) || find3(buffer, 0xC1, 0xCA, 0x0D) || find3(
            buffer,
            0xC1,
            0xCB,
            0x0D,
        ) || find3(buffer, 0xC1, 0xC9, 0x0D) || find3(buffer, 0xC0, 0xC8, 0x0D);
        let clear_a_bytes: [u8; 2] = [0x31, 0xC0];
        let clear_b_bytes: [u8; 2] = [0x33, 0xC0];
        let load_bytes: [u8; 1] = [0xAC];
        assert(clear_a_bytes@ =~= seq![0x31u8, 0xC0u8]);
        assert(clear_b_bytes@ =~= seq![0x33u8, 0xC0u8]);
        assert(load_bytes@ =~= seq![0xACu8]);
        let clear_a = find_bytes(buffer, &clear_a_bytes);
        let clear_b = find_bytes(buffer, &clear_b_bytes);
        let load = find_bytes(buffer, &load_bytes);
        ror && (clear_a && clear_b || clear_a && load || clear_b && load)
    }

    /// Whether a buffer has code that applies relocations: three or more loads
    /// relative to the instruction pointer.
    pub fn detect_coff_relocations(&self, buffer: &[u8]) -> (r: bool)
        ensures
            r == (relative_loads(buffer@) >= 3),
    {
        let a: usize = count3(buffer, 0x48, 0x8D, 0x05);
        let b: usize = count3(buffer, 0x48, 0x8D, 0x0D);
        let c: usize = count3(buffer, 0x48, 0x8D, 0x15);
        let d: usize = count3(buffer, 0x4C, 0x8D, 0x05);
        a >= 3 || b >= 3 || c >= 3 || d >= 3 || a + b + c + d >= 3
    }

    /// Scans a region of a process's memory. A region that raised an alert is
    /// left alone until the alert expires, and so is one that is too large.
    pub fn scan_buffer(
        &mut self,
        pid: u32,
        process_name: &str,
        process_path: &str,
        memory_address: u64,
        buffer: &[u8],
        now: u64,
    ) -> (r: Option<BofDetection>)
        requires
            old(self).wf(),
        ensures
            final(self).wf(),
            final(self).config == old(self).config,
            ({
                let f = scan_findings(old(self).config.switches(), buffer@);
                let coff = scanned_coff(old(self).config.switches(), buffer@);
                let alert = 0 < buffer@.len() <= old(self).config.max_scan_size && !recently_alerted(
                    old(self).scan_cache@,
                    pid,
                    memory_address,
                    now,
                ) && scan_confidence(f) >= old(self).config.confidence_threshold && f.count >= 2;
                &&& r is Some <==> alert
                &&& alert ==> final(self).scan_cache@ == without_region(
                    old(self).scan_cache@,
                    pid,
                    memory_address,
                ).push(ScanMark { pid, address: memory_address, at: now })
                &&& !alert ==> final(self).scan_cache@ == old(self).scan_cache@
                &&& r matches Some(d) ==> d.confidence <= ONE
                &&& r matches Some(d) ==> d@ == (BofDetectionModel {
                    pid,
                    process_name: process_name@,
                    process_path: process_path@,
                    memory_address,
                    region_size: buffer@.len() as usize,
                    detection_type: classified(coff is Some, f),
                    confidence: scan_confidence(f) as u32,
                    detected_patterns: f.patterns,
                    coff_info: coff,
                    beacon_apis: f.apis,
                    evidence: f.evidence,
                })
            }),
    {
        if buffer.len() == 0 || buffer.len() > self.config.max_scan_size {
            return None;
        }
        if self.has_recent_alert(pid, memory_address, now) {
            return None;
        }
        let mut f = Findings::new();
        let coff_info = if self.config.scan_coff_headers {
            self.parse_coff_header(buffer)
        } else {
            None
        };
        if let Some(info) = &coff_info {
            f.add_coff(info);
        }
        if self.config.scan_beacon_apis {
            let found_apis = beacon_apis_of(buffer);
            f.add_apis(&found_apis);
        }
        f.add_patterns(buffer);
        if self.config.scan_api_hashing {
            if self.detect_api_hashing(buffer) {
                push_text(&mut f.patterns, "api_hashing".to_string());
                push_text(&mut f.evidence, "API hashing/resolution loop detected".to_string());
                f.total = f.total + 250_000;
                f.count = f.count + 1;
            }
        }
        if self.detect_coff_relocations(buffer) {
            push_text(&mut f.patterns, "coff_relocations".to_string());
            push_text(&mut f.evidence, "COFF relocation fixup patterns detected".to_string());
            f.total = f.total + 200_000;
            f.count = f.count + 1;
        }
        assert(f@ == scan_findings(self.config.switches(), buffer@));
        let divisor: u64 = if f.count == 0 { 1 } else { f.count };
        let mean: u64 = f.total / divisor;
        let confidence: u32 = if mean < ONE as u64 { mean as u32 } else { ONE };
        if confidence >= self.config.confidence_threshold && f.count >= 2 {
            self.mark(pid, memory_address, now);
            let detection_type = classify(coff_info.is_some(), &f);
            Some(
                BofDetection {
                    pid,
                    process_name: process_name.to_string(),
                    process_path: process_path.to_string(),
                    memory_address,
                    region_size: buffer.len(),
                    detection_type,
                    confidence,
                    detected_patterns: f.patterns,
                    coff_info,
                    beacon_apis: f.apis,
                    evidence: f.evidence,
                },
            )
        } else {
            None
        }
    }

    fn has_recent_alert(&self, pid: u32, address: u64, now: u64) -> (r: bool)
        ensures
            r == recently_alerted(self.scan_cache@, pid, address, now),
    {
        let mut i: usize = 0;
        while i < self.scan_cache.len()
            invariant
                i <= self.scan_cache@.len(),
                forall|j: int|
                    0 <= j < i ==> !((#[trigger] self.scan_cache@[j]).pid == pid
                        && self.scan_cache@[j].address == address && is_fresh(
                        self.scan_cache@[j],
                        now,
                    )),
            decreases self.scan_cache@.len() - i,
        {
            let mark = self.scan_cache[i];
            if mark.pid == pid && mark.address == address && (now < mark.at || now - mark.at
                < CACHE_EXPIRY_MS) {
                assert(self.scan_cache@[i as int] == mark);
                return true;
            }
            i += 1;
        }
        false
    }

    fn mark(&mut self, pid: u32, address: u64, now: u64)
        requires
            old(self).wf(),
        ensures
            final(self).wf(),
            final(self).config == old(self).config,
            final(self).scan_cache@ == without_region(old(self).scan_cache@, pid, address).push(
                ScanMark { pid, address, at: now },
            ),
    {
        let ghost p = |m: ScanMark| m.pid != pid || m.address != address;
        proof {
            lemma_marks_distinct_after(self.scan_cache@, p);
            lemma_filter_members(self.scan_cache@, p);
        }
        let keep = |m: &ScanMark| -> (r: bool)
            ensures
                r == (m.pid != pid || m.address != address),
            { m.pid != pid || m.address != address };
        retain(&mut self.scan_cache, keep, Ghost(p));
        self.scan_cache.push(ScanMark { pid, address, at: now });
    }

    /// The event that reports an alert.
    pub fn create_telemetry_event(detection: &BofDetection) -> (event: TelemetryEvent)
        ensures
            event.event_type == EventType::MemoryScan,
            event.severity == detection.detection_type.spec_severity(),
            event.payload matches EventPayload::MemoryPermission(p) && p@ == alert_payload(
                detection@,
            ),
            detections_view(event.detections@) == seq![alert_detection(detection@)],
            event.metadata@ == alert_facts(detection@),
    {
        let mut event = TelemetryEvent::new(
            EventType::MemoryScan,
            detection.detection_type.severity(),
            EventPayload::MemoryPermission(
                MemoryPermissionEvent {
                    pid: detection.pid,
                    process_name: detection.process_name.clone(),
                    process_path: detection.process_path.clone(),
                    base_address: detection.memory_address,
                    region_size: detection.region_size as u64,
                    old_protection: 0,
                    new_protection: 0,
                    old_protection_str: String::new(),
                    new_protection_str: "EXECUTE".to_string(),
                    mem_type: 0x20000,
                    mem_type_str: "MEM_PRIVATE".to_string(),
                    entropy: 0,
                    transition_type: "bof_detection".to_string(),
                    thread_from_unbacked: false,
                    thread_id: None,
                    thread_start_address: None,
                },
            ),
        );
        let description = detection.detection_type.description().to_string().concat(": ").concat(
            detection.process_name.as_str(),
        ).concat(" (PID: ").concat(decimal_text(detection.pid as u64).as_str()).concat(
            ") at 0x",
        ).concat(hex_lower_text(detection.memory_address).as_str()).concat(" - ").concat(
            decimal_text(detection.detected_patterns.len() as u64).as_str(),
        ).concat(" patterns detected, ").concat(
            decimal_text(detection.beacon_apis.len() as u64).as_str(),
        ).concat(" Beacon APIs found");
        let techniques = detection.detection_type.mitre_techniques();
        let d = Detection {
            detection_type: DetectionType::MemoryThreat,
            rule_name: "bof_detection_".to_string().concat(detection.detection_type.as_str()),
            confidence: detection.confidence,
            description,
            mitre_tactics: vec!["execution".to_string(), "defense-evasion".to_string()],
            mitre_techniques: owned(techniques.as_slice()),
        };
        assert(d@ =~= alert_detection(detection@));
        event.add_detection(d);
        event.metadata.insert(
            "bof_detection_type".to_string(),
            detection.detection_type.as_str().to_string(),
        );
        event.metadata.insert(
            "detected_patterns".to_string(),
            join(&detection.detected_patterns, ", "),
        );
        event.metadata.insert("beacon_apis".to_string(), join(&detection.beacon_apis, ", "));
        event.metadata.insert("evidence".to_string(), join(&detection.evidence, "; "));
        event.metadata.insert(
            "confidence".to_string(),
            hundredths_text(crate::text::round_to(detection.confidence as u64, 10_000)),
        );
        if let Some(info) = &detection.coff_info {
            event.metadata.insert("coff_machine".to_string(), info.machine.as_str().to_string());
            event.metadata.insert(
                "coff_sections".to_string(),
                decimal_text(info.num_sections as u64),
            );
            event.metadata.insert("coff_section_names".to_string(), join(&info.sections, ", "));
            event.metadata.insert(
                "is_likely_bof".to_string(),
                (if info.is_likely_bof { "true" } else { "false" }).to_string(),
            );
        }
        assert(detections_view(event.detections@) =~= seq![alert_detection(detection@)]);
        event
    }
}

impl Default for BofDetector {
    fn default() -> (d: BofDetector)
        ensures
            d.wf(),
            d.scan_cache@ == Seq::<ScanMark>::empty(),
            d.config.switches() == (ScanSwitches {
                coff_headers: true,
                beacon_apis: true,
                api_hashing: true,
            }),
            d.config.confidence_threshold == 650_000,
            d.config.max_scan_size == 10 * 1024 * 1024,
            d.config.scan_interval_ms == 30_000,
            texts(d.config.skip_processes@) == str_texts(SKIPPED_BUILD_TOOLS@),
    {
        BofDetector::new()
    }
}

fn mark_is_fresh(mark: &ScanMark, now: u64) -> (r: bool)
    ensures
        r == is_fresh(*mark, now),
{
    now < mark.at || now - mark.at < CACHE_EXPIRY_MS
}

fn find3(buffer: &[u8], a: u8, b: u8, c: u8) -> (r: bool)
    ensures
        r == found(buffer@, seq![a, b, c]),
{
    let pattern: [u8; 3] = [a, b, c];
    assert(pattern@ =~= seq![a, b, c]);
    find_bytes(buffer, &pattern)
}

fn count3(buffer: &[u8], a: u8, b: u8, c: u8) -> (n: usize)
    ensures
        n == occurrences(buffer@, seq![a, b, c]),
{
    let pattern: [u8; 3] = [a, b, c];
    assert(pattern@ =~= seq![a, b, c]);
    count_bytes(buffer, &pattern)
}

fn classify(has_coff: bool, f: &Findings) -> (r: BofDetectionType)
    ensures
        r == classified(has_coff, f@),
{
    if has_coff && f.apis.len() > 0 {
        BofDetectionType::CombinedIndicators
    } else if has_coff {
        BofDetectionType::CoffHeaderInMemory
    } else if f.apis.len() > 0 {
        BofDetectionType::BeaconApiPattern
    } else if holds(&f.patterns, "api_hashing") {
        BofDetectionType::ApiHashingPattern
    } else {
        let mut i: usize = 0;
        while i < f.patterns.len()
            invariant
                i <= f.patterns@.len(),
                !has_coff,
                f@.apis.len() == 0,
                !f@.patterns.contains("api_hashing"@),
                forall|j: int|
                    0 <= j < i ==> !begins(#[trigger] f@.patterns[j], "bof_prologue"@),
            decreases f.patterns@.len() - i,
        {
            if starts_with(f.patterns[i].as_str(), "bof_prologue") {
                assert(begins(f@.patterns[i as int], "bof_prologue"@));
                return BofDetectionType::BofEntryPoint;
            }
            i += 1;
        }
        BofDetectionType::BofFunctionSequence
    }
}

proof fn lemma_marks_distinct_after(marks: Seq<ScanMark>, p: spec_fn(ScanMark) -> bool)
    requires
        distinct_marks(marks),
    ensures
        distinct_marks(marks.filter(p)),
{
    let key = |m: ScanMark| (m.pid, m.address);
    assert forall|i: int, j: int| 0 <= i < j < marks.len() implies key(#[trigger] marks[i]) != key(
        #[trigger] marks[j],
    ) by {
        assert(marks[i].pid != marks[j].pid || marks[i].address != marks[j].address);
    }
    lemma_filter_distinct(marks, p, key);
    let kept = marks.filter(p);
    assert forall|i: int, j: int| 0 <= i < j < kept.len() implies (#[trigger] kept[i]).pid != (
    #[trigger] kept[j]).pid || kept[i].address != kept[j].address by {
        assert(key(kept[i]) != key(kept[j]));
    }
}

/// A region that raised an alert raises no other until the alert expires.
pub proof fn law_alert_silences_region(
    marks: Seq<ScanMark>,
    pid: u32,
    address: u64,
    at: u64,
    now: u64,
)
    requires
        now - at < CACHE_EXPIRY_MS,
    ensures
        recently_alerted(
            without_region(marks, pid, address).push(ScanMark { pid, address, at }),
            pid,
            address,
            now,
        ),
{
    let after = without_region(marks, pid, address).push(ScanMark { pid, address, at });
    assert(after[after.len() - 1] == (ScanMark { pid, address, at }));
}

/// An alert on one region leaves every other region as it was.
pub proof fn law_alert_leaves_other_regions(
    marks: Seq<ScanMark>,
    pid: u32,
    address: u64,
    at: u64,
    other_pid: u32,
    other_address: u64,
    now: u64,
)
    requires
        other_pid != pid || other_address != address,
    ensures
        recently_alerted(
            without_region(marks, pid, address).push(ScanMark { pid, address, at }),
            other_pid,
            other_address,
            now,
        ) == recently_alerted(marks, other_pid, other_address, now),
{
    let p = |m: ScanMark| m.pid != pid || m.address != address;
    let kept = marks.filter(p);
    let after = kept.push(ScanMark { pid, address, at });
    lemma_filter_members(marks, p);
    if recently_alerted(marks, other_pid, other_address, now) {
        let i = choose|i: int|
            0 <= i < marks.len() && (#[trigger] marks[i]).pid == other_pid && marks[i].address
                == other_address && is_fresh(marks[i], now);
        assert(p(marks[i]));
        assert(kept.contains(marks[i]));
        let j = choose|j: int| 0 <= j < kept.len() && kept[j] == marks[i];
        assert(after[j] == marks[i]);
    }
    if recently_alerted(after, other_pid, other_address, now) {
        let j = choose|j: int|
            0 <= j < after.len() && (#[trigger] after[j]).pid == other_pid && after[j].address
                == other_address && is_fresh(after[j], now);
        assert(kept[j] == after[j]);
        assert(marks.contains(kept[j]));
        let i = choose|i: int| 0 <= i < marks.len() && marks[i] == kept[j];
        assert(marks[i].pid == other_pid);
    }
}

/// Forgetting expired alerts changes no later answer.
pub proof fn law_cleanup_keeps_answers(
    marks: Seq<ScanMark>,
    now: u64,
    pid: u32,
    address: u64,
    later: u64,
)
    requires
        now <= later,
    ensures
        recently_alerted(marks.filter(|m: ScanMark| is_fresh(m, now)), pid, address, later)
            == recently_alerted(marks, pid, address, later),
{
    let p = |m: ScanMark| is_fresh(m, now);
    let kept = marks.filter(p);
    lemma_filter_members(marks, p);
    if recently_alerted(marks, pid, address, later) {
        let i = choose|i: int|
            0 <= i < marks.len() && (#[trigger] marks[i]).pid == pid && marks[i].address == address
                && is_fresh(marks[i], later);
        assert(p(marks[i]));
        assert(kept.contains(marks[i]));
        let j = choose|j: int| 0 <= j < kept.len() && kept[j] == marks[i];
        assert(kept[j].pid == pid);
    }
    if recently_alerted(kept, pid, address, later) {
        let j = choose|j: int|
            0 <= j < kept.len() && (#[trigger] kept[j]).pid == pid && kept[j].address == address
                && is_fresh(kept[j], later);
        assert(marks.contains(kept[j]));
        let i = choose|i: int| 0 <= i < marks.len() && marks[i] == kept[j];
        assert(marks[i].pid == pid);
    }
}

/// The header of an object is recognized exactly where the buffer begins with the number
/// of one of three machines, the lower byte first, and tells of one to ninety-six
/// sections. The object is likely one for a Beacon where it is no executable, its
/// relocations were not stripped, and it has at most ten sections and one for code.
pub proof fn law_objects_are_recognized(buffer: Seq<u8>)
    ensures
        coff_header(buffer) is Some <==> buffer.len() >= 20 && ((buffer[0] == 0x64 && buffer[1]
            == 0x86) || (buffer[0] == 0x4C && buffer[1] == 0x01) || (buffer[0] == 0x64 && buffer[1]
            == 0xAA)) && 1 <= buffer[2] + 256 * buffer[3] <= 96,
        coff_header(buffer) matches Some(info) ==> {
            &&& info.num_sections == buffer[2] + 256 * buffer[3]
            &&& info.machine == CoffMachine::X64 <==> buffer[1] == 0x86
            &&& info.machine == CoffMachine::X86 <==> buffer[1] == 0x01
            &&& info.machine == CoffMachine::Arm64 <==> buffer[1] == 0xAA
            &&& info.is_likely_bof <==> buffer[18] % 4 == 0 && info.num_sections <= 10
                && info.sections.contains(".text"@)
        },
{
    if buffer.len() >= 20 {
        let c = le16(buffer, 18) as u16;
        let low = buffer[18];
        let high = buffer[19];
        assert(c == low + 256 * high);
        assert((c & 2u16 == 0 && c & 1u16 == 0) <==> c % 4 == 0) by (bit_vector);
        assert(c % 4 == low % 4) by (nonlinear_arith)
            requires
                c == low + 256 * high,
        ;
    }
}

proof fn lemma_sections_keep(f: FindingsModel, sections: Seq<Seq<char>>)
    ensures
        with_sections(f, sections).apis == f.apis,
        with_sections(f, sections).patterns == f.patterns,
        with_sections(f, sections).total == f.total,
        with_sections(f, sections).count == f.count,
    decreases sections.len(),
{
    if sections.len() > 0 {
        lemma_sections_keep(f, sections.drop_last());
    }
}

proof fn lemma_last_or_before<T>(s: Seq<T>, x: T)
    requires
        s.len() > 0,
    ensures
        s.contains(x) <==> s.drop_last().contains(x) || s.last() == x,
{
    let rest = s.drop_last();
    if s.contains(x) {
        let i = choose|i: int| 0 <= i < s.len() && s[i] == x;
        if i < rest.len() {
            assert(rest[i] == x);
        }
    }
    if rest.contains(x) {
        let i = choose|i: int| 0 <= i < rest.len() && rest[i] == x;
        assert(s[i] == x);
    }
    assert(s[s.len() - 1] == s.last());
}

proof fn lemma_symbols(f: FindingsModel, symbols: Seq<Seq<char>>, api: Seq<char>)
    ensures
        with_symbols(f, symbols).apis.contains(api) <==> f.apis.contains(api) || (symbols.contains(
            api,
        ) && any_occurs(BEACON_API_STRINGS@, api)),
        with_symbols(f, symbols).patterns == f.patterns,
        with_symbols(f, symbols).count == f.count,
    decreases symbols.len(),
{
    if symbols.len() > 0 {
        lemma_symbols(f, symbols.drop_last(), api);
        lemma_last_or_before(symbols, api);
        let g = with_symbols(f, symbols.drop_last());
        let h = with_symbols(f, symbols);
        if any_occurs(BEACON_API_STRINGS@, symbols.last()) {
            assert(h.apis.drop_last() =~= g.apis);
            lemma_last_or_before(h.apis, api);
        }
    }
}

proof fn lemma_apis(f: FindingsModel, apis: Seq<Seq<char>>, api: Seq<char>)
    ensures
        with_apis(f, apis).apis.contains(api) <==> f.apis.contains(api) || apis.contains(api),
    decreases apis.len(),
{
    if apis.len() > 0 {
        lemma_apis(f, apis.drop_last(), api);
        lemma_last_or_before(apis, api);
        let g = with_apis(f, apis.drop_last());
        let h = with_apis(f, apis);
        if !g.apis.contains(apis.last()) {
            assert(h.apis.drop_last() =~= g.apis);
            lemma_last_or_before(h.apis, api);
        }
    }
}

proof fn lemma_patterns_keep(f: FindingsModel, buffer: Seq<u8>, table: Seq<BytePatternModel>)
    ensures
        with_patterns(f, buffer, table).apis == f.apis,
    decreases table.len(),
{
    if table.len() > 0 {
        lemma_patterns_keep(f, buffer, table.drop_last());
    }
}

proof fn lemma_api_names(bytes: Seq<u8>, api: Seq<char>)
    ensures
        beacon_apis_in(bytes).contains(api) <==> str_texts(BEACON_API_STRINGS@).contains(api)
            && found(bytes, encode_utf8(api)),
{
    let all = str_texts(BEACON_API_STRINGS@);
    let kept = beacon_apis_in(bytes);
    lemma_filter_members(all, api_in(bytes));
    if kept.contains(api) {
        let i = choose|i: int| 0 <= i < kept.len() && kept[i] == api;
        assert(all.contains(kept[i]) && api_in(bytes)(kept[i]));
    }
    if all.contains(api) && found(bytes, encode_utf8(api)) {
        let i = choose|i: int| 0 <= i < all.len() && all[i] == api;
        assert(api_in(bytes)(all[i]));
    }
}

proof fn lemma_found_in_part(buffer: Seq<u8>, from: int, to: int, pattern: Seq<u8>)
    requires
        0 <= from <= to <= buffer.len(),
        found(buffer.subrange(from, to), pattern),
    ensures
        found(buffer, pattern),
{
    let part = buffer.subrange(from, to);
    let i = choose|i: int| matches_at(part, pattern, i);
    assert(buffer.subrange(from + i, from + i + pattern.len()) =~= part.subrange(
        i,
        i + pattern.len(),
    ));
    assert(matches_at(buffer, pattern, from + i));
}

/// Where a scan looks for them, the names that it finds are exactly those of the known ones
/// whose bytes stand in the buffer.
pub proof fn law_names_that_a_scan_finds(switches: ScanSwitches, buffer: Seq<u8>, api: Seq<char>)
    requires
        switches.beacon_apis,
    ensures
        scan_findings(switches, buffer).apis.contains(api) <==> str_texts(
            BEACON_API_STRINGS@,
        ).contains(api) && found(buffer, encode_utf8(api)),
{
    let headed = match scanned_coff(switches, buffer) {
        Some(info) => with_coff(no_findings(), info),
        None => no_findings(),
    };
    let named = with_apis(headed, beacon_apis_in(buffer));
    lemma_patterns_keep(named, buffer, bof_byte_patterns());
    lemma_apis(headed, beacon_apis_in(buffer), api);
    lemma_api_names(buffer, api);
    if let Some(info) = scanned_coff(switches, buffer) {
        let first = FindingsModel {
            patterns: no_findings().patterns.push("coff_header"@),
            evidence: no_findings().evidence.push(
                "COFF header detected: machine="@ + info.machine.spec_as_str() + ", sections="@
                    + decimal(info.num_sections as nat),
            ),
            total: no_findings().total + 400_000,
            count: no_findings().count + 1,
            ..no_findings()
        };
        let judged = if info.is_likely_bof {
            FindingsModel {
                patterns: first.patterns.push("bof_characteristics"@),
                evidence: first.evidence.push(
                    "COFF characteristics indicate BOF (relocatable, no entry point)"@,
                ),
                total: first.total + 300_000,
                ..first
            }
        } else {
            first
        };
        lemma_sections_keep(judged, info.sections);
        lemma_symbols(with_sections(judged, info.sections), info.symbols, api);
        if info.symbols.contains(api) {
            let at = string_table_offset(buffer);
            lemma_api_names(buffer.subrange(at, at + le32(buffer, at)), api);
            lemma_found_in_part(buffer, at, at + le32(buffer, at), encode_utf8(api));
        }
    }
}

/// What each thing that a scan finds weighs: a header, an object that is likely one for a
/// Beacon, a name among its symbols, a name anywhere else that was not there yet, a
/// pattern of bytes, a loop that hashes names, and relocations.
pub proof fn law_what_findings_weigh(
    f: FindingsModel,
    info: CoffModel,
    apis: Seq<Seq<char>>,
    api: Seq<char>,
    buffer: Seq<u8>,
    table: Seq<BytePatternModel>,
    p: BytePatternModel,
)
    ensures
        info.symbols.len() == 0 ==> with_coff(f, info).total == f.total + if info.is_likely_bof {
            700_000int
        } else {
            400_000
        },
        with_coff(f, info).count == f.count + 1,
        with_symbols(f, apis.push(api)).total == with_symbols(f, apis).total + if any_occurs(
            BEACON_API_STRINGS@,
            api,
        ) {
            200_000int
        } else {
            0
        },
        with_apis(f, apis.push(api)).total == with_apis(f, apis).total + if f.apis.contains(api)
            || apis.contains(api) {
            0
        } else {
            150_000int
        },
        with_apis(f, apis.push(api)).count == with_apis(f, apis).count + if f.apis.contains(api)
            || apis.contains(api) {
            0
        } else {
            1int
        },
        with_patterns(f, buffer, table.push(p)).total == with_patterns(f, buffer, table).total
            + if found(buffer, p.bytes) {
            p.weight as int
        } else {
            0
        },
        with_patterns(f, buffer, table.push(p)).count == with_patterns(f, buffer, table).count
            + if found(buffer, p.bytes) {
            1int
        } else {
            0
        },
        with_hashing(f, true).total == f.total + 250_000,
        with_hashing(f, true).count == f.count + 1,
        with_hashing(f, false) == f,
        with_relocations(f, true).total == f.total + 200_000,
        with_relocations(f, true).count == f.count + 1,
        with_relocations(f, false) == f,
{
    assert(apis.push(api).drop_last() =~= apis);
    assert(table.push(p).drop_last() =~= table);
    lemma_apis(f, apis, api);
    let first = FindingsModel {
        patterns: f.patterns.push("coff_header"@),
        evidence: f.evidence.push(
            "COFF header detected: machine="@ + info.machine.spec_as_str() + ", sections="@
                + decimal(info.num_sections as nat),
        ),
        total: f.total + 400_000,
        count: f.count + 1,
        ..f
    };
    let judged = if info.is_likely_bof {
        FindingsModel {
            patterns: first.patterns.push("bof_characteristics"@),
            evidence: first.evidence.push(
                "COFF characteristics indicate BOF (relocatable, no entry point)"@,
            ),
            total: first.total + 300_000,
            ..first
        }
    } else {
        first
    };
    lemma_sections_keep(judged, info.sections);
    lemma_symbols(with_sections(judged, info.sections), info.symbols, api);
}

/// A scan is as sure as what it found weighs on average, and never more than certain.
pub proof fn law_scans_are_sure_on_average(f: FindingsModel)
    requires
        f.count > 0,
    ensures
        scan_confidence(f) <= 1_000_000,
        f.total < 1_000_000 * f.count ==> scan_confidence(f) * f.count <= f.total && f.total < (
        scan_confidence(f) + 1) * f.count,
        f.total >= 1_000_000 * f.count ==> scan_confidence(f) == 1_000_000,
{
    let t = f.total as int;
    let c = f.count as int;
    let m = t / c;
    assert(m * c <= t < (m + 1) * c) by (nonlinear_arith)
        requires
            c > 0,
            m == t / c,
    ;
    assert(t < 1_000_000 * c ==> m < 1_000_000) by (nonlinear_arith)
        requires
            c > 0,
            m * c <= t < (m + 1) * c,
    ;
    assert(t >= 1_000_000 * c ==> m >= 1_000_000) by (nonlinear_arith)
        requires
            c > 0,
            m * c <= t < (m + 1) * c,
    ;
}

/// Code hashes names where it rotates by thirteen and has at least two of the three
/// instructions of such a loop's frame; more code around it changes nothing of that.
pub proof fn law_hashing_of_names(before: Seq<u8>, buffer: Seq<u8>, behind: Seq<u8>)
    ensures
        ({
            let one = |b: bool|
                if b {
                    1int
                } else {
                    0
                };
            let rotates = found(buffer, seq![0xC1, 0xC8, 0x0D]) || found(
                buffer,
                seq![0xC1, 0xC9, 0x0D],
            ) || found(buffer, seq![0xC1, 0xCA, 0x0D]) || found(buffer, seq![0xC1, 0xCB, 0x0D])
                || found(buffer, seq![0xC0, 0xC8, 0x0D]);
            hashes_names(buffer) <==> rotates && one(found(buffer, seq![0x31, 0xC0])) + one(
                found(buffer, seq![0x33, 0xC0]),
            ) + one(found(buffer, seq![0xAC])) >= 2
        }),
        hashes_names(buffer) ==> hashes_names(before + buffer + behind),
{
    let all = before + buffer + behind;
    let from = before.len() as int;
    let to = from + buffer.len();
    assert(all.subrange(from, to) =~= buffer);
    assert forall|pattern: Seq<u8>| #[trigger] found(buffer, pattern) implies found(
        all,
        pattern,
    ) by {
        lemma_found_in_part(all, from, to, pattern);
    }
    if found(buffer, seq![0xC1, 0xC8, 0x0D]) {
        assert(found(all, seq![0xC1, 0xC8, 0x0D]));
    }
    if found(buffer, seq![0xC1, 0xCA, 0x0D]) {
        assert(found(all, seq![0xC1, 0xCA, 0x0D]));
    }
    if found(buffer, seq![0xC1, 0xCB, 0x0D]) {
        assert(found(all, seq![0xC1, 0xCB, 0x0D]));
    }
    if found(buffer, seq![0xC1, 0xC9, 0x0D]) {
        assert(found(all, seq![0xC1, 0xC9, 0x0D]));
    }
    if found(buffer, seq![0xC0, 0xC8, 0x0D]) {
        assert(found(all, seq![0xC0, 0xC8, 0x0D]));
    }
    if found(buffer, seq![0x31, 0xC0]) {
        assert(found(all, seq![0x31, 0xC0]));
    }
    if found(buffer, seq![0x33, 0xC0]) {
        assert(found(all, seq![0x33, 0xC0]));
    }
    if found(buffer, seq![0xAC]) {
        assert(found(all, seq![0xAC]));
    }
}

/// What a scan calls what it found: by a header and names together, by either of them, by
/// a loop that hashes names, by the beginning of a function, and by a sequence of others.
pub proof fn law_what_a_scan_calls_it(has_coff: bool, f: FindingsModel)
    ensures
        ({
            let t = classified(has_coff, f);
            let named = f.apis.len() > 0;
            let hashing = f.patterns.contains("api_hashing"@);
            let prologue = exists|i: int|
                0 <= i < f.patterns.len() && begins(#[trigger] f.patterns[i], "bof_prologue"@);
            &&& t == BofDetectionType::CombinedIndicators <==> has_coff && named
            &&& t == BofDetectionType::CoffHeaderInMemory <==> has_coff && !named
            &&& t == BofDetectionType::BeaconApiPattern <==> !has_coff && named
            &&& t == BofDetectionType::ApiHashingPattern <==> !has_coff && !named && hashing
            &&& t == BofDetectionType::BofEntryPoint <==> !has_coff && !named && !hashing && prologue
            &&& t == BofDetectionType::BofFunctionSequence <==> !has_coff && !named && !hashing
                && !prologue
        }),
{
}

/// The name of a section is what stands in its field in front of the first null.
pub proof fn law_names_end_at_nulls(name: Seq<u8>, rest: Seq<u8>)
    requires
        !name.contains(0u8),
    ensures
        up_to_zero(name) == name,
        up_to_zero(name + (seq![0u8] + rest)) == name,
    decreases name.len(),
{
    let whole = name + (seq![0u8] + rest);
    if name.len() == 0 {
        assert(whole[0] == 0);
        assert(up_to_zero(whole) =~= name);
        assert(up_to_zero(name) =~= name);
    } else {
        let shorter = name.drop_first();
        assert(name.contains(name[0]));
        assert(!shorter.contains(0u8)) by {
            if shorter.contains(0u8) {
                let i = choose|i: int| 0 <= i < shorter.len() && shorter[i] == 0u8;
                assert(name[i + 1] == 0u8);
            }
        }
        law_names_end_at_nulls(shorter, rest);
        assert(whole[0] == name[0]);
        assert(whole.drop_first() =~= shorter + (seq![0u8] + rest));
        assert(seq![name[0]] + shorter =~= name);
    }
}

/// The sections of an object are told by the names of those whose field lies in the buffer
/// and that have one, and by no others.
pub proof fn law_sections_are_told_by_name(buffer: Seq<u8>, n: nat, x: Seq<char>)
    ensures
        section_names(buffer, n).contains(x) <==> x.len() > 0 && exists|i: int|
            0 <= i < n && section_offset(buffer, i) + 8 <= buffer.len() && #[trigger] section_name(
                buffer,
                i,
            ) == x,
    decreases n,
{
    if n > 0 {
        let m = (n - 1) as nat;
        law_sections_are_told_by_name(buffer, m, x);
        let before = section_names(buffer, m);
        let after = section_names(buffer, n);
        if before.contains(x) {
            let k = choose|k: int| 0 <= k < before.len() && before[k] == x;
            assert(after[k] == x);
        }
        if after.contains(x) {
            let k = choose|k: int| 0 <= k < after.len() && after[k] == x;
            if k < before.len() {
                assert(before[k] == x);
            } else {
                assert(section_name(buffer, n - 1) == x);
            }
        }
        if x.len() > 0 && exists|i: int|
            0 <= i < n && section_offset(buffer, i) + 8 <= buffer.len() && #[trigger] section_name(
                buffer,
                i,
            ) == x {
            let i = choose|i: int|
                0 <= i < n && section_offset(buffer, i) + 8 <= buffer.len()
                    && #[trigger] section_name(buffer, i) == x;
            if i == n - 1 {
                assert(after.last() == x);
            } else {
                assert(section_name(buffer, i) == x);
            }
        }
    }
}

/// An alert says what was found, how surely, in which process and where.
pub proof fn law_alerts_say_what_was_found(d: BofDetectionModel)
    ensures
        alert_detection(d).confidence == d.confidence,
        alert_detection(d).rule_name == "bof_detection_"@ + d.detection_type.spec_as_str(),
        alert_detection(d).detection_type == DetectionType::MemoryThreat,
        alert_payload(d).pid == d.pid,
        alert_payload(d).process_name == d.process_name,
        alert_payload(d).process_path == d.process_path,
        alert_payload(d).base_address == d.memory_address,
        alert_payload(d).region_size == d.region_size,
{
}

proof fn lemma_pattern_noted(
    f: FindingsModel,
    buffer: Seq<u8>,
    table: Seq<BytePatternModel>,
    i: int,
)
    requires
        0 <= i < table.len(),
        found(buffer, table[i].bytes),
    ensures
        with_patterns(f, buffer, table).patterns.contains(table[i].name),
        with_patterns(f, buffer, table).total >= f.total + table[i].weight,
    decreases table.len(),
{
    let rest = table.drop_last();
    let before = with_patterns(f, buffer, rest);
    let after = with_patterns(f, buffer, table);
    if i < rest.len() {
        lemma_pattern_noted(f, buffer, rest, i);
        let k = choose|k: int|
            0 <= k < before.patterns.len() && before.patterns[k] == table[i].name;
        assert(after.patterns[k] == before.patterns[k]);
    } else {
        lemma_patterns_only_add(f, buffer, rest);
        assert(after.patterns.last() == table[i].name);
    }
}

proof fn lemma_patterns_only_add(f: FindingsModel, buffer: Seq<u8>, table: Seq<BytePatternModel>)
    ensures
        with_patterns(f, buffer, table).total >= f.total,
    decreases table.len(),
{
    if table.len() > 0 {
        lemma_patterns_only_add(f, buffer, table.drop_last());
    }
}

/// Each of the known patterns of bytes is noted wherever it stands in a buffer, and weighs
/// at least what it weighs by itself.
pub proof fn law_known_patterns_are_noted(f: FindingsModel, buffer: Seq<u8>)
    ensures
        ({
            let after = with_patterns(f, buffer, bof_byte_patterns());
            &&& found(buffer, seq![0x55u8, 0x48, 0x89, 0xE5, 0x48, 0x83, 0xEC]) ==> after.patterns.contains(
                "bof_prologue_x64_1"@,
            ) && after.total >= f.total + 700_000
            &&& found(buffer, seq![0x53u8, 0x48, 0x83, 0xEC]) ==> after.patterns.contains(
                "bof_prologue_x64_2"@,
            ) && after.total >= f.total + 600_000
            &&& found(buffer, seq![0x48u8, 0x8D, 0x54, 0x24]) ==> after.patterns.contains(
                "beacon_data_parse_setup"@,
            ) && after.total >= f.total + 750_000
            &&& found(buffer, seq![0xC1u8, 0xC8, 0x0D, 0x01, 0xC8]) ==> after.patterns.contains(
                "api_hash_ror13"@,
            ) && after.total >= f.total + 850_000
            &&& found(buffer, seq![0xC1u8, 0xCA, 0x0D, 0x01, 0xC2]) ==> after.patterns.contains(
                "api_hash_ror13_v2"@,
            ) && after.total >= f.total + 850_000
            &&& found(buffer, seq![0x65u8, 0x48, 0x8B, 0x04, 0x25, 0x60, 0x00, 0x00, 0x00]) ==> after.patterns.contains(
                "peb_access_x64"@,
            ) && after.total >= f.total + 800_000
            &&& found(buffer, seq![0x48u8, 0x8B, 0x40, 0x10]) ==> after.patterns.contains(
                "ldr_module_list"@,
            ) && after.total >= f.total + 500_000
            &&& found(buffer, seq![0x4Cu8, 0x8B, 0xD1, 0xB8]) ==> after.patterns.contains(
                "syscall_stub"@,
            ) && after.total >= f.total + 900_000
            &&& found(buffer, seq![0x48u8, 0x03, 0x05]) ==> after.patterns.contains(
                "reloc_base_adjustment"@,
            ) && after.total >= f.total + 500_000
            &&& found(buffer, seq![0x33u8, 0xC0, 0x48, 0x83, 0xC4]) ==> after.patterns.contains(
                "bof_cleanup_x64"@,
            ) && after.total >= f.total + 600_000
            &&& found(buffer, seq![0x48u8, 0x89, 0x51]) ==> after.patterns.contains(
                "beacon_buffer_write"@,
            ) && after.total >= f.total + 400_000
        }),
{
    let table = bof_byte_patterns();
    assert forall|i: int| 0 <= i < table.len() && found(buffer, (#[trigger] table[i]).bytes) implies
        with_patterns(f, buffer, table).patterns.contains(table[i].name) && with_patterns(
        f,
        buffer,
        table,
    ).total >= f.total + table[i].weight by {
        lemma_pattern_noted(f, buffer, table, i);
    }
    assert(table[0].bytes == seq![0x55u8, 0x48, 0x89, 0xE5, 0x48, 0x83, 0xEC] && table[0].name == "bof_prologue_x64_1"@ && table[0].weight == 700_000);
    assert(table[1].bytes == seq![0x53u8, 0x48, 0x83, 0xEC] && table[1].name == "bof_prologue_x64_2"@ && table[1].weight == 600_000);
    assert(table[2].bytes == seq![0x48u8, 0x8D, 0x54, 0x24] && table[2].name == "beacon_data_parse_setup"@ && table[2].weight == 750_000);
    assert(table[3].bytes == seq![0xC1u8, 0xC8, 0x0D, 0x01, 0xC8] && table[3].name == "api_hash_ror13"@ && table[3].weight == 850_000);
    assert(table[4].bytes == seq![0xC1u8, 0xCA, 0x0D, 0x01, 0xC2] && table[4].name == "api_hash_ror13_v2"@ && table[4].weight == 850_000);
    assert(table[5].bytes == seq![0x65u8, 0x48, 0x8B, 0x04, 0x25, 0x60, 0x00, 0x00, 0x00] && table[5].name == "peb_access_x64"@ && table[5].weight == 800_000);
    assert(table[6].bytes == seq![0x48u8, 0x8B, 0x40, 0x10] && table[6].name == "ldr_module_list"@ && table[6].weight == 500_000);
    assert(table[7].bytes == seq![0x4Cu8, 0x8B, 0xD1, 0xB8] && table[7].name == "syscall_stub"@ && table[7].weight == 900_000);
    assert(table[8].bytes == seq![0x48u8, 0x03, 0x05] && table[8].name == "reloc_base_adjustment"@ && table[8].weight == 500_000);
    assert(table[9].bytes == seq![0x33u8, 0xC0, 0x48, 0x83, 0xC4] && table[9].name == "bof_cleanup_x64"@ && table[9].weight == 600_000);
    assert(table[10].bytes == seq![0x48u8, 0x89, 0x51] && table[10].name == "beacon_buffer_write"@ && table[10].weight == 400_000);
}

} // verus!
