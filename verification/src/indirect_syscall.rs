//! Detection of system calls that are made around the hooks on the system
//! library: by code that resolves system service numbers itself, and by jumps to
//! system call instructions.
use std::collections::HashSet;
use std::collections::VecDeque;

use vstd::prelude::*;

use crate::bytes::{bytes_match_at, find_bytes, found, le16, le32, matches_at, read_le16, read_le32};
use crate::collect::{
    count_where, first_index, lemma_filter_distinct, lemma_filter_members, lemma_first_index,
    position_where, retain,
};
use crate::telemetry::{
    detections_view, fields_view, CustomModel, CustomValue, Detection, DetectionModel,
    DetectionType, EventPayload, EventType, Severity, TelemetryEvent, ONE,
};
use crate::text::{
    copies, decimal, decimal_text, hex_padded_text, join, joined, opt_copy, opt_text, padded,
    push_text, texts,
};

verus! {

broadcast use vstd::std_specs::hash::group_hash_axioms;

/// How code gets around the hooks on system calls.
#[derive(Clone, Copy, Debug, PartialEq, Eq, Structural, Hash)]
pub enum IndirectSyscallTechnique {
    HellsGate,
    HalosGate,
    TartarusGate,
    SysWhispers1,
    SysWhispers2,
    SysWhispers3,
    FreshyCalls,
    RecycledGate,
    HwSyscalls,
    SyscallsInline,
    GenericIndirect,
    GenericDirect,
    RopSyscall,
    NtdllScanning,
    SuspiciousThreadSyscall,
    Unknown,
}

impl IndirectSyscallTechnique {
    /// The name of the technique.
    pub open spec fn spec_as_str(&self) -> Seq<char> {
        match self {
            IndirectSyscallTechnique::HellsGate => "hells_gate"@,
            IndirectSyscallTechnique::HalosGate => "halos_gate"@,
            IndirectSyscallTechnique::TartarusGate => "tartarus_gate"@,
            IndirectSyscallTechnique::SysWhispers1 => "syswhispers_v1"@,
            IndirectSyscallTechnique::SysWhispers2 => "syswhispers_v2"@,
            IndirectSyscallTechnique::SysWhispers3 => "syswhispers_v3"@,
            IndirectSyscallTechnique::FreshyCalls => "freshycalls"@,
            IndirectSyscallTechnique::RecycledGate => "recycled_gate"@,
            IndirectSyscallTechnique::HwSyscalls => "hw_syscalls"@,
            IndirectSyscallTechnique::SyscallsInline => "syscalls_inline"@,
            IndirectSyscallTechnique::GenericIndirect => "generic_indirect"@,
            IndirectSyscallTechnique::GenericDirect => "generic_direct"@,
            IndirectSyscallTechnique::RopSyscall => "rop_syscall"@,
            IndirectSyscallTechnique::NtdllScanning => "ntdll_scanning"@,
            IndirectSyscallTechnique::SuspiciousThreadSyscall => "suspicious_thread_syscall"@,
            IndirectSyscallTechnique::Unknown => "unknown"@,
        }
    }

    /// How severe the technique is.
    pub open spec fn spec_severity(&self) -> Severity {
        match self {
            IndirectSyscallTechnique::HellsGate => Severity::Critical,
            IndirectSyscallTechnique::HalosGate => Severity::Critical,
            IndirectSyscallTechnique::TartarusGate => Severity::Critical,
            IndirectSyscallTechnique::SysWhispers1 => Severity::Medium,
            IndirectSyscallTechnique::SysWhispers2 => Severity::Critical,
            IndirectSyscallTechnique::SysWhispers3 => Severity::Critical,
            IndirectSyscallTechnique::FreshyCalls => Severity::High,
            IndirectSyscallTechnique::RecycledGate => Severity::High,
            IndirectSyscallTechnique::HwSyscalls => Severity::Critical,
            IndirectSyscallTechnique::SyscallsInline => Severity::Medium,
            IndirectSyscallTechnique::GenericIndirect => Severity::High,
            IndirectSyscallTechnique::GenericDirect => Severity::High,
            IndirectSyscallTechnique::RopSyscall => Severity::Critical,
            IndirectSyscallTechnique::NtdllScanning => Severity::High,
            IndirectSyscallTechnique::SuspiciousThreadSyscall => Severity::High,
            IndirectSyscallTechnique::Unknown => Severity::Medium,
        }
    }

    /// What the technique is.
    pub open spec fn spec_description(&self) -> Seq<char> {
        match self {
            IndirectSyscallTechnique::HellsGate => "Hell's Gate SSN resolution via ntdll export table parsing"@,
            IndirectSyscallTechnique::HalosGate => "Halo's Gate neighbor function SSN recovery for hooked stubs"@,
            IndirectSyscallTechnique::TartarusGate => "Tartarus's Gate hybrid SSN resolution technique"@,
            IndirectSyscallTechnique::SysWhispers1 => "SysWhispers v1 compile-time SSN embedding"@,
            IndirectSyscallTechnique::SysWhispers2 => "SysWhispers v2 runtime SSN resolution with direct syscall"@,
            IndirectSyscallTechnique::SysWhispers3 => "SysWhispers v3 indirect syscall via jump to ntdll"@,
            IndirectSyscallTechnique::FreshyCalls => "FreshyCalls TEB-based SSN lookup"@,
            IndirectSyscallTechnique::RecycledGate => "RecycledGate reusing existing ntdll syscall gadgets"@,
            IndirectSyscallTechnique::HwSyscalls => "Hardware breakpoint-based syscall execution"@,
            IndirectSyscallTechnique::SyscallsInline => "Manually inlined syscall stub in non-ntdll code"@,
            IndirectSyscallTechnique::GenericIndirect => "Indirect syscall via jump to ntdll syscall instruction"@,
            IndirectSyscallTechnique::GenericDirect => "Direct syscall instruction outside ntdll"@,
            IndirectSyscallTechnique::RopSyscall => "ROP chain pivoting to syscall gadget"@,
            IndirectSyscallTechnique::NtdllScanning => "Process scanning ntdll memory for syscall instructions"@,
            IndirectSyscallTechnique::SuspiciousThreadSyscall => "Syscall from thread with suspicious start address"@,
            IndirectSyscallTechnique::Unknown => "Unknown indirect syscall technique"@,
        }
    }

    /// The name of the technique.
    pub fn as_str(&self) -> (r: &'static str)
        ensures
            r@ == self.spec_as_str(),
    {
        match self {
            IndirectSyscallTechnique::HellsGate => "hells_gate",
            IndirectSyscallTechnique::HalosGate => "halos_gate",
            IndirectSyscallTechnique::TartarusGate => "tartarus_gate",
            IndirectSyscallTechnique::SysWhispers1 => "syswhispers_v1",
            IndirectSyscallTechnique::SysWhispers2 => "syswhispers_v2",
            IndirectSyscallTechnique::SysWhispers3 => "syswhispers_v3",
            IndirectSyscallTechnique::FreshyCalls => "freshycalls",
            IndirectSyscallTechnique::RecycledGate => "recycled_gate",
            IndirectSyscallTechnique::HwSyscalls => "hw_syscalls",
            IndirectSyscallTechnique::SyscallsInline => "syscalls_inline",
            IndirectSyscallTechnique::GenericIndirect => "generic_indirect",
            IndirectSyscallTechnique::GenericDirect => "generic_direct",
            IndirectSyscallTechnique::RopSyscall => "rop_syscall",
            IndirectSyscallTechnique::NtdllScanning => "ntdll_scanning",
            IndirectSyscallTechnique::SuspiciousThreadSyscall => "suspicious_thread_syscall",
            IndirectSyscallTechnique::Unknown => "unknown",
        }
    }

    /// How severe the technique is.
    pub fn severity(&self) -> (r: Severity)
        ensures
            r == self.spec_severity(),
    {
        match self {
            IndirectSyscallTechnique::HellsGate => Severity::Critical,
            IndirectSyscallTechnique::HalosGate => Severity::Critical,
            IndirectSyscallTechnique::TartarusGate => Severity::Critical,
            IndirectSyscallTechnique::SysWhispers1 => Severity::Medium,
            IndirectSyscallTechnique::SysWhispers2 => Severity::Critical,
            IndirectSyscallTechnique::SysWhispers3 => Severity::Critical,
            IndirectSyscallTechnique::FreshyCalls => Severity::High,
            IndirectSyscallTechnique::RecycledGate => Severity::High,
            IndirectSyscallTechnique::HwSyscalls => Severity::Critical,
            IndirectSyscallTechnique::SyscallsInline => Severity::Medium,
            IndirectSyscallTechnique::GenericIndirect => Severity::High,
            IndirectSyscallTechnique::GenericDirect => Severity::High,
            IndirectSyscallTechnique::RopSyscall => Severity::Critical,
            IndirectSyscallTechnique::NtdllScanning => Severity::High,
            IndirectSyscallTechnique::SuspiciousThreadSyscall => Severity::High,
            IndirectSyscallTechnique::Unknown => Severity::Medium,
        }
    }

    /// What the technique is.
    pub fn description(&self) -> (r: &'static str)
        ensures
            r@ == self.spec_description(),
    {
        match self {
            IndirectSyscallTechnique::HellsGate => "Hell's Gate SSN resolution via ntdll export table parsing",
            IndirectSyscallTechnique::HalosGate => "Halo's Gate neighbor function SSN recovery for hooked stubs",
            IndirectSyscallTechnique::TartarusGate => "Tartarus's Gate hybrid SSN resolution technique",
            IndirectSyscallTechnique::SysWhispers1 => "SysWhispers v1 compile-time SSN embedding",
            IndirectSyscallTechnique::SysWhispers2 => "SysWhispers v2 runtime SSN resolution with direct syscall",
            IndirectSyscallTechnique::SysWhispers3 => "SysWhispers v3 indirect syscall via jump to ntdll",
            IndirectSyscallTechnique::FreshyCalls => "FreshyCalls TEB-based SSN lookup",
            IndirectSyscallTechnique::RecycledGate => "RecycledGate reusing existing ntdll syscall gadgets",
            IndirectSyscallTechnique::HwSyscalls => "Hardware breakpoint-based syscall execution",
            IndirectSyscallTechnique::SyscallsInline => "Manually inlined syscall stub in non-ntdll code",
            IndirectSyscallTechnique::GenericIndirect => "Indirect syscall via jump to ntdll syscall instruction",
            IndirectSyscallTechnique::GenericDirect => "Direct syscall instruction outside ntdll",
            IndirectSyscallTechnique::RopSyscall => "ROP chain pivoting to syscall gadget",
            IndirectSyscallTechnique::NtdllScanning => "Process scanning ntdll memory for syscall instructions",
            IndirectSyscallTechnique::SuspiciousThreadSyscall => "Syscall from thread with suspicious start address",
            IndirectSyscallTechnique::Unknown => "Unknown indirect syscall technique",
        }
    }
}

/// A byte pattern of a technique. Behind a prefix the system service number
/// follows; otherwise it stands in front. Some stubs end in certain bytes behind the
/// four of the number.
pub struct SyscallPattern {
    pub name: &'static str,
    pub bytes: Vec<u8>,
    pub technique: IndirectSyscallTechnique,
    pub is_prefix: bool,
    pub ending: Vec<u8>,
}

/// What a pattern says.
#[verifier::ext_equal]
pub struct SyscallPatternModel {
    pub name: Seq<char>,
    pub bytes: Seq<u8>,
    pub technique: IndirectSyscallTechnique,
    pub is_prefix: bool,
    pub ending: Seq<u8>,
}

impl View for SyscallPattern {
    type V = SyscallPatternModel;

    open spec fn view(&self) -> SyscallPatternModel {
        SyscallPatternModel {
            name: self.name@,
            bytes: self.bytes@,
            technique: self.technique,
            is_prefix: self.is_prefix,
            ending: self.ending@,
        }
    }
}

/// What a table of patterns says.
pub open spec fn patterns_view(v: Seq<SyscallPattern>) -> Seq<SyscallPatternModel> {
    v.map_values(|p: SyscallPattern| p@)
}

/// The patterns of 64-bit code.
pub open spec fn syscall_patterns() -> Seq<SyscallPatternModel> {
    seq![
        SyscallPatternModel {
            name: "syswhispers2_direct"@,
            bytes: seq![0x4C, 0x8B, 0xD1, 0xB8],
            technique: IndirectSyscallTechnique::SysWhispers2,
            is_prefix: true,
            ending: seq![0x0F, 0x05],
        },
        SyscallPatternModel {
            name: "syswhispers3_jmp_r11"@,
            bytes: seq![0x4C, 0x8B, 0xD1, 0xB8],
            technique: IndirectSyscallTechnique::SysWhispers3,
            is_prefix: true,
            ending: seq![0x41, 0xFF, 0xE3],
        },
        SyscallPatternModel {
            name: "syswhispers3_call_r11"@,
            bytes: seq![0x41, 0xFF, 0xD3],
            technique: IndirectSyscallTechnique::SysWhispers3,
            is_prefix: false,
            ending: Seq::empty(),
        },
        SyscallPatternModel {
            name: "syswhispers3_jmp_rax"@,
            bytes: seq![0xFF, 0xE0],
            technique: IndirectSyscallTechnique::SysWhispers3,
            is_prefix: false,
            ending: Seq::empty(),
        },
        SyscallPatternModel {
            name: "hells_gate_ssn_read"@,
            bytes: seq![0x8B, 0x40, 0x04],
            technique: IndirectSyscallTechnique::HellsGate,
            is_prefix: false,
            ending: Seq::empty(),
        },
        SyscallPatternModel {
            name: "hells_gate_export_walk"@,
            bytes: seq![0x4A, 0x8B, 0x04, 0xC0],
            technique: IndirectSyscallTechnique::HellsGate,
            is_prefix: false,
            ending: Seq::empty(),
        },
        SyscallPatternModel {
            name: "halos_gate_syscall_check"@,
            bytes: seq![0x66, 0x81, 0x38, 0x0F, 0x05],
            technique: IndirectSyscallTechnique::HalosGate,
            is_prefix: false,
            ending: Seq::empty(),
        },
        SyscallPatternModel {
            name: "halos_gate_stub_check"@,
            bytes: seq![0x80, 0x38, 0x4C],
            technique: IndirectSyscallTechnique::HalosGate,
            is_prefix: false,
            ending: Seq::empty(),
        },
        SyscallPatternModel {
            name: "halos_gate_hook_detect"@,
            bytes: seq![0x80, 0x38, 0xE9],
            technique: IndirectSyscallTechnique::HalosGate,
            is_prefix: false,
            ending: Seq::empty(),
        },
        SyscallPatternModel {
            name: "tartarus_gate_resolve"@,
            bytes: seq![0x48, 0x8B, 0x41, 0x10, 0x4C, 0x8B, 0x40],
            technique: IndirectSyscallTechnique::TartarusGate,
            is_prefix: true,
            ending: Seq::empty(),
        },
        SyscallPatternModel {
            name: "freshycalls_teb_access"@,
            bytes: seq![0x65, 0x48, 0x8B, 0x04, 0x25, 0x30, 0x00, 0x00, 0x00],
            technique: IndirectSyscallTechnique::FreshyCalls,
            is_prefix: false,
            ending: Seq::empty(),
        },
        SyscallPatternModel {
            name: "freshycalls_tls"@,
            bytes: seq![0x65, 0x4C, 0x8B, 0x14, 0x25, 0x30, 0x00],
            technique: IndirectSyscallTechnique::FreshyCalls,
            is_prefix: true,
            ending: Seq::empty(),
        },
        SyscallPatternModel {
            name: "recycled_gate_save"@,
            bytes: seq![0x48, 0x89, 0x4C, 0x24, 0x08, 0x48, 0x8B, 0xC1],
            technique: IndirectSyscallTechnique::RecycledGate,
            is_prefix: true,
            ending: Seq::empty(),
        },
        SyscallPatternModel {
            name: "hw_syscalls_dr7"@,
            bytes: seq![0x0F, 0x23, 0xF8],
            technique: IndirectSyscallTechnique::HwSyscalls,
            is_prefix: false,
            ending: Seq::empty(),
        },
        SyscallPatternModel {
            name: "hw_syscalls_dr0"@,
            bytes: seq![0x0F, 0x23, 0xC0],
            technique: IndirectSyscallTechnique::HwSyscalls,
            is_prefix: false,
            ending: Seq::empty(),
        },
        SyscallPatternModel {
            name: "direct_syscall"@,
            bytes: seq![0x0F, 0x05],
            technique: IndirectSyscallTechnique::GenericDirect,
            is_prefix: false,
            ending: Seq::empty(),
        },
        SyscallPatternModel {
            name: "int2e_syscall"@,
            bytes: seq![0xCD, 0x2E],
            technique: IndirectSyscallTechnique::GenericDirect,
            is_prefix: false,
            ending: Seq::empty(),
        },
        SyscallPatternModel {
            name: "sysenter"@,
            bytes: seq![0x0F, 0x34],
            technique: IndirectSyscallTechnique::GenericDirect,
            is_prefix: false,
            ending: Seq::empty(),
        },
        SyscallPatternModel {
            name: "heavens_gate"@,
            bytes: seq![0x6A, 0x33, 0xE8, 0x00, 0x00, 0x00, 0x00, 0x83, 0x04, 0x24, 0x05, 0xCB],
            technique: IndirectSyscallTechnique::Unknown,
            is_prefix: false,
            ending: Seq::empty(),
        },
        SyscallPatternModel {
            name: "rop_pop_rax_ret"@,
            bytes: seq![0x58, 0xC3],
            technique: IndirectSyscallTechnique::RopSyscall,
            is_prefix: false,
            ending: Seq::empty(),
        },
        SyscallPatternModel {
            name: "rop_mov_r10_ret"@,
            bytes: seq![0x4C, 0x8B, 0xD1, 0xC3],
            technique: IndirectSyscallTechnique::RopSyscall,
            is_prefix: false,
            ending: Seq::empty(),
        },
        SyscallPatternModel {
            name: "rop_syscall_ret"@,
            bytes: seq![0x0F, 0x05, 0xC3],
            technique: IndirectSyscallTechnique::RopSyscall,
            is_prefix: false,
            ending: Seq::empty(),
        },
    ]
}

/// The patterns of 64-bit code.
pub fn indirect_syscall_patterns() -> (r: Vec<SyscallPattern>)
    ensures
        patterns_view(r@) == syscall_patterns(),
{
    let r = vec![
        SyscallPattern {
            name: "syswhispers2_direct",
            bytes: vec![0x4C, 0x8B, 0xD1, 0xB8],
            technique: IndirectSyscallTechnique::SysWhispers2,
            is_prefix: true,
            ending: vec![0x0F, 0x05],
        },
        SyscallPattern {
            name: "syswhispers3_jmp_r11",
            bytes: vec![0x4C, 0x8B, 0xD1, 0xB8],
            technique: IndirectSyscallTechnique::SysWhispers3,
            is_prefix: true,
            ending: vec![0x41, 0xFF, 0xE3],
        },
        SyscallPattern {
            name: "syswhispers3_call_r11",
            bytes: vec![0x41, 0xFF, 0xD3],
            technique: IndirectSyscallTechnique::SysWhispers3,
            is_prefix: false,
            ending: Vec::new(),
        },
        SyscallPattern {
            name: "syswhispers3_jmp_rax",
            bytes: vec![0xFF, 0xE0],
            technique: IndirectSyscallTechnique::SysWhispers3,
            is_prefix: false,
            ending: Vec::new(),
        },
        SyscallPattern {
            name: "hells_gate_ssn_read",
            bytes: vec![0x8B, 0x40, 0x04],
            technique: IndirectSyscallTechnique::HellsGate,
            is_prefix: false,
            ending: Vec::new(),
        },
        SyscallPattern {
            name: "hells_gate_export_walk",
            bytes: vec![0x4A, 0x8B, 0x04, 0xC0],
            technique: IndirectSyscallTechnique::HellsGate,
            is_prefix: false,
            ending: Vec::new(),
        },
        SyscallPattern {
            name: "halos_gate_syscall_check",
            bytes: vec![0x66, 0x81, 0x38, 0x0F, 0x05],
            technique: IndirectSyscallTechnique::HalosGate,
            is_prefix: false,
            ending: Vec::new(),
        },
        SyscallPattern {
            name: "halos_gate_stub_check",
            bytes: vec![0x80, 0x38, 0x4C],
            technique: IndirectSyscallTechnique::HalosGate,
            is_prefix: false,
            ending: Vec::new(),
        },
        SyscallPattern {
            name: "halos_gate_hook_detect",
            bytes: vec![0x80, 0x38, 0xE9],
            technique: IndirectSyscallTechnique::HalosGate,
            is_prefix: false,
            ending: Vec::new(),
        },
        SyscallPattern {
            name: "tartarus_gate_resolve",
            bytes: vec![0x48, 0x8B, 0x41, 0x10, 0x4C, 0x8B, 0x40],
            technique: IndirectSyscallTechnique::TartarusGate,
            is_prefix: true,
            ending: Vec::new(),
        },
        SyscallPattern {
            name: "freshycalls_teb_access",
            bytes: vec![0x65, 0x48, 0x8B, 0x04, 0x25, 0x30, 0x00, 0x00, 0x00],
            technique: IndirectSyscallTechnique::FreshyCalls,
            is_prefix: false,
            ending: Vec::new(),
        },
        SyscallPattern {
            name: "freshycalls_tls",
            bytes: vec![0x65, 0x4C, 0x8B, 0x14, 0x25, 0x30, 0x00],
            technique: IndirectSyscallTechnique::FreshyCalls,
            is_prefix: true,
            ending: Vec::new(),
        },
        SyscallPattern {
            name: "recycled_gate_save",
            bytes: vec![0x48, 0x89, 0x4C, 0x24, 0x08, 0x48, 0x8B, 0xC1],
            technique: IndirectSyscallTechnique::RecycledGate,
            is_prefix: true,
            ending: Vec::new(),
        },
        SyscallPattern {
            name: "hw_syscalls_dr7",
            bytes: vec![0x0F, 0x23, 0xF8],
            technique: IndirectSyscallTechnique::HwSyscalls,
            is_prefix: false,
            ending: Vec::new(),
        },
        SyscallPattern {
            name: "hw_syscalls_dr0",
            bytes: vec![0x0F, 0x23, 0xC0],
            technique: IndirectSyscallTechnique::HwSyscalls,
            is_prefix: false,
            ending: Vec::new(),
        },
        SyscallPattern {
            name: "direct_syscall",
            bytes: vec![0x0F, 0x05],
            technique: IndirectSyscallTechnique::GenericDirect,
            is_prefix: false,
            ending: Vec::new(),
        },
        SyscallPattern {
            name: "int2e_syscall",
            bytes: vec![0xCD, 0x2E],
            technique: IndirectSyscallTechnique::GenericDirect,
            is_prefix: false,
            ending: Vec::new(),
        },
        SyscallPattern {
            name: "sysenter",
            bytes: vec![0x0F, 0x34],
            technique: IndirectSyscallTechnique::GenericDirect,
            is_prefix: false,
            ending: Vec::new(),
        },
        SyscallPattern {
            name: "heavens_gate",
            bytes: vec![0x6A, 0x33, 0xE8, 0x00, 0x00, 0x00, 0x00, 0x83, 0x04, 0x24, 0x05, 0xCB],
            technique: IndirectSyscallTechnique::Unknown,
            is_prefix: false,
            ending: Vec::new(),
        },
        SyscallPattern {
            name: "rop_pop_rax_ret",
            bytes: vec![0x58, 0xC3],
            technique: IndirectSyscallTechnique::RopSyscall,
            is_prefix: false,
            ending: Vec::new(),
        },
        SyscallPattern {
            name: "rop_mov_r10_ret",
            bytes: vec![0x4C, 0x8B, 0xD1, 0xC3],
            technique: IndirectSyscallTechnique::RopSyscall,
            is_prefix: false,
            ending: Vec::new(),
        },
        SyscallPattern {
            name: "rop_syscall_ret",
            bytes: vec![0x0F, 0x05, 0xC3],
            technique: IndirectSyscallTechnique::RopSyscall,
            is_prefix: false,
            ending: Vec::new(),
        },
    ];
    assert(patterns_view(r@) =~~= syscall_patterns());
    r
}

/// A use of a system call that a scan found.
pub struct IndirectSyscallEvent {
    pub technique: IndirectSyscallTechnique,
    pub pid: u32,
    pub tid: u32,
    pub process_name: String,
    pub process_path: String,
    pub cmdline: String,
    pub user: String,
    pub ssn: Option<u32>,
    pub syscall_name: Option<String>,
    pub return_address: Option<u64>,
    pub return_module: Option<String>,
    pub syscall_instruction_addr: Option<u64>,
    pub from_ntdll: bool,
    pub stub_region_base: Option<u64>,
    pub stub_region_size: Option<u64>,
    pub stub_region_protection: Option<String>,
    pub matched_pattern: Option<String>,
    pub pattern_name: Option<String>,
    pub indicators: Vec<String>,
    /// In millionths.
    pub confidence: u32,
    pub details: String,
}

/// What a found use says.
#[verifier::ext_equal]
pub struct SyscallEventModel {
    pub technique: IndirectSyscallTechnique,
    pub pid: u32,
    pub tid: u32,
    pub process_name: Seq<char>,
    pub process_path: Seq<char>,
    pub cmdline: Seq<char>,
    pub user: Seq<char>,
    pub ssn: Option<u32>,
    pub syscall_name: Option<Seq<char>>,
    pub return_address: Option<u64>,
    pub return_module: Option<Seq<char>>,
    pub syscall_instruction_addr: Option<u64>,
    pub from_ntdll: bool,
    pub stub_region_base: Option<u64>,
    pub stub_region_size: Option<u64>,
    pub stub_region_protection: Option<Seq<char>>,
    pub matched_pattern: Option<Seq<char>>,
    pub pattern_name: Option<Seq<char>>,
    pub indicators: Seq<Seq<char>>,
    pub confidence: u32,
    pub details: Seq<char>,
}

impl View for IndirectSyscallEvent {
    type V = SyscallEventModel;

    open spec fn view(&self) -> SyscallEventModel {
        SyscallEventModel {
            technique: self.technique,
            pid: self.pid,
            tid: self.tid,
            process_name: self.process_name@,
            process_path: self.process_path@,
            cmdline: self.cmdline@,
            user: self.user@,
            ssn: self.ssn,
            syscall_name: opt_text(self.syscall_name),
            return_address: self.return_address,
            return_module: opt_text(self.return_module),
            syscall_instruction_addr: self.syscall_instruction_addr,
            from_ntdll: self.from_ntdll,
            stub_region_base: self.stub_region_base,
            stub_region_size: self.stub_region_size,
            stub_region_protection: opt_text(self.stub_region_protection),
            matched_pattern: opt_text(self.matched_pattern),
            pattern_name: opt_text(self.pattern_name),
            indicators: texts(self.indicators@),
            confidence: self.confidence,
            details: self.details@,
        }
    }
}

/// What a sequence of found uses says.
pub open spec fn events_view(v: Seq<IndirectSyscallEvent>) -> Seq<SyscallEventModel> {
    v.map_values(|e: IndirectSyscallEvent| e@)
}

/// A read of the system library's memory.
#[derive(Clone, Copy, Debug, PartialEq, Eq, Structural)]
pub struct NtdllReadEvent {
    pub pid: u32,
    pub tid: u32,
    pub read_address: u64,
    pub read_size: usize,
    /// In milliseconds.
    pub timestamp: u64,
}

/// How long reads count as recent, in milliseconds.
pub const RECENT_READS_MS: u64 = 5_000;

/// How long an idle profile stays when room is needed, in milliseconds.
pub const PROFILE_IDLE_MS: u64 = 300_000;

/// The reads without the stale ones at the front.
pub open spec fn without_stale(reads: Seq<NtdllReadEvent>, now: u64) -> Seq<NtdllReadEvent>
    decreases reads.len(),
{
    if reads.len() > 0 && reads[0].timestamp < now - RECENT_READS_MS {
        without_stale(reads.drop_first(), now)
    } else {
        reads
    }
}

/// The addresses that were read.
pub open spec fn read_addresses(reads: Seq<NtdllReadEvent>) -> Set<u64> {
    reads.map_values(|r: NtdllReadEvent| r.read_address).to_set()
}

/// Whether reads look like a scan: more than fifty, at more than thirty addresses.
pub open spec fn looks_like_scan(reads: Seq<NtdllReadEvent>) -> bool {
    reads.len() > 50 && read_addresses(reads).len() > 30
}

/// What is known of a process's system calls.
pub struct ProcessSyscallProfile {
    pub pid: u32,
    pub process_name: String,
    pub total_syscalls: u64,
    pub ntdll_syscalls: u64,
    pub non_ntdll_syscalls: u64,
    pub return_addresses: HashSet<u64>,
    pub ssns_used: HashSet<u32>,
    pub ntdll_reads: VecDeque<NtdllReadEvent>,
    pub detected_techniques: Vec<IndirectSyscallTechnique>,
    /// In milliseconds.
    pub first_seen: u64,
    /// In milliseconds.
    pub last_seen: u64,
    /// In millionths.
    pub anomaly_score: u32,
}

/// The anomaly score of a profile: four tenths of the share of calls from
/// elsewhere, two or one tenths for many return addresses, two for scanning, two
/// for known techniques.
pub open spec fn anomaly(
    total: u64,
    elsewhere: u64,
    addresses: nat,
    scanning: bool,
    techniques: bool,
) -> int {
    if total == 0 {
        0
    } else {
        let share = (400_000 * elsewhere) / total as int;
        let spread = if 2 * addresses > total {
            200_000int
        } else if 5 * addresses > total {
            100_000
        } else {
            0
        };
        share + spread + (if scanning { 200_000int } else { 0 }) + (if techniques {
            200_000int
        } else {
            0
        })
    }
}

impl ProcessSyscallProfile {
    /// Each call counts once, as one of the library or from elsewhere.
    pub open spec fn wf(&self) -> bool {
        &&& self.total_syscalls == self.ntdll_syscalls + self.non_ntdll_syscalls
        &&& self.anomaly_score <= ONE
    }

    /// A profile without calls.
    pub fn new(pid: u32, name: String, now: u64) -> (p: ProcessSyscallProfile)
        ensures
            p.wf(),
            p.pid == pid,
            p.process_name == name,
            p.total_syscalls == 0,
            p.ntdll_syscalls == 0,
            p.non_ntdll_syscalls == 0,
            p.return_addresses@ == Set::<u64>::empty(),
            p.ssns_used@ == Set::<u32>::empty(),
            p.ntdll_reads@ == Seq::<NtdllReadEvent>::empty(),
            p.detected_techniques@ == Seq::<IndirectSyscallTechnique>::empty(),
            p.first_seen == now,
            p.last_seen == now,
            p.anomaly_score == 0,
    {
        ProcessSyscallProfile {
            pid,
            process_name: name,
            total_syscalls: 0,
            ntdll_syscalls: 0,
            non_ntdll_syscalls: 0,
            return_addresses: HashSet::new(),
            ssns_used: HashSet::new(),
            ntdll_reads: VecDeque::new(),
            detected_techniques: Vec::new(),
            first_seen: now,
            last_seen: now,
            anomaly_score: 0,
        }
    }

    /// The profile after one more call, but for its score.
    pub open spec fn counted(
        &self,
        after: &ProcessSyscallProfile,
        from_ntdll: bool,
        return_addr: u64,
        ssn: Option<u32>,
        now: u64,
    ) -> bool {
        &&& after.pid == self.pid
        &&& after.process_name == self.process_name
        &&& after.total_syscalls == self.total_syscalls + 1
        &&& after.ntdll_syscalls == self.ntdll_syscalls + (if from_ntdll { 1int } else { 0 })
        &&& after.non_ntdll_syscalls == self.non_ntdll_syscalls + (if from_ntdll {
            0int
        } else {
            1
        })
        &&& after.return_addresses@ == self.return_addresses@.insert(return_addr)
        &&& after.ssns_used@ == match ssn {
            Some(s) => self.ssns_used@.insert(s),
            None => self.ssns_used@,
        }
        &&& after.ntdll_reads@ == self.ntdll_reads@
        &&& after.detected_techniques@ == self.detected_techniques@
        &&& after.first_seen == self.first_seen
        &&& after.last_seen == now
    }

    /// The score that the profile's numbers give.
    pub open spec fn current_anomaly(&self) -> int {
        anomaly(
            self.total_syscalls,
            self.non_ntdll_syscalls,
            self.return_addresses@.len(),
            looks_like_scan(self.ntdll_reads@),
            self.detected_techniques@.len() > 0,
        )
    }

    /// Counts a call.
    pub fn record_syscall(
        &mut self,
        from_ntdll: bool,
        return_addr: u64,
        ssn: Option<u32>,
        now: u64,
    )
        requires
            old(self).wf(),
            old(self).total_syscalls < u64::MAX,
        ensures
            final(self).wf(),
            old(self).counted(final(self), from_ntdll, return_addr, ssn, now),
            final(self).anomaly_score == final(self).current_anomaly(),
    {
        self.total_syscalls = self.total_syscalls + 1;
        self.last_seen = now;
        if from_ntdll {
            self.ntdll_syscalls = self.ntdll_syscalls + 1;
        } else {
            self.non_ntdll_syscalls = self.non_ntdll_syscalls + 1;
        }
        self.return_addresses.insert(return_addr);
        if let Some(s) = ssn {
            self.ssns_used.insert(s);
        }
        self.update_anomaly_score();
    }

    /// The profile after one more read of the system library's memory.
    pub open spec fn noted(
        &self,
        after: &ProcessSyscallProfile,
        read: NtdllReadEvent,
        now: u64,
    ) -> bool {
        &&& after.ntdll_reads@ == without_stale(self.ntdll_reads@, now).push(read)
        &&& after.last_seen == now
        &&& after.pid == self.pid
        &&& after.process_name == self.process_name
        &&& after.total_syscalls == self.total_syscalls
        &&& after.ntdll_syscalls == self.ntdll_syscalls
        &&& after.non_ntdll_syscalls == self.non_ntdll_syscalls
        &&& after.return_addresses == self.return_addresses
        &&& after.ssns_used == self.ssns_used
        &&& after.detected_techniques == self.detected_techniques
        &&& after.first_seen == self.first_seen
        &&& after.anomaly_score == self.anomaly_score
    }

    /// Notes a read of the system library's memory and forgets stale ones.
    pub fn record_ntdll_read(&mut self, read: NtdllReadEvent, now: u64)
        requires
            old(self).wf(),
        ensures
            final(self).wf(),
            old(self).noted(final(self), read, now),
    {
        let ghost all = self.ntdll_reads@;
        while self.ntdll_reads.len() > 0 && now >= RECENT_READS_MS && self.ntdll_reads[0].timestamp
            < now - RECENT_READS_MS
            invariant
                without_stale(self.ntdll_reads@, now) == without_stale(all, now),
                self.pid == old(self).pid,
                self.process_name == old(self).process_name,
                self.total_syscalls == old(self).total_syscalls,
                self.ntdll_syscalls == old(self).ntdll_syscalls,
                self.non_ntdll_syscalls == old(self).non_ntdll_syscalls,
                self.return_addresses == old(self).return_addresses,
                self.ssns_used == old(self).ssns_used,
                self.detected_techniques == old(self).detected_techniques,
                self.first_seen == old(self).first_seen,
                self.anomaly_score == old(self).anomaly_score,
            decreases self.ntdll_reads@.len(),
        {
            let ghost before = self.ntdll_reads@;
            self.ntdll_reads.pop_front();
            assert(self.ntdll_reads@ =~= before.drop_first());
        }
        self.ntdll_reads.push_back(read);
        self.last_seen = now;
    }

    /// Whether the process seems to scan the system library.
    pub fn is_scanning_ntdll(&self) -> (r: bool)
        ensures
            r == looks_like_scan(self.ntdll_reads@),
    {
        if self.ntdll_reads.len() <= 50 {
            return false;
        }
        let mut addresses: HashSet<u64> = HashSet::new();
        let mut i: usize = 0;
        let ghost all = self.ntdll_reads@.map_values(|r: NtdllReadEvent| r.read_address);
        assert(addresses@ =~= all.take(0).to_set());
        while i < self.ntdll_reads.len()
            invariant
                i <= self.ntdll_reads@.len(),
                all == self.ntdll_reads@.map_values(|r: NtdllReadEvent| r.read_address),
                addresses@ == all.take(i as int).to_set(),
            decreases self.ntdll_reads@.len() - i,
        {
            let address: u64 = self.ntdll_reads[i].read_address;
            addresses.insert(address);
            proof {
                assert(all[i as int] == address);
                assert(all.take(i + 1) =~= all.take(i as int).push(address));
                all.take(i as int).lemma_push_to_set_commute(address);
            }
            i += 1;
        }
        assert(all.take(i as int) =~= all);
        addresses.len() > 30
    }

    fn update_anomaly_score(&mut self)
        requires
            old(self).total_syscalls == old(self).ntdll_syscalls + old(self).non_ntdll_syscalls,
        ensures
            final(self).anomaly_score == final(self).current_anomaly(),
            final(self).anomaly_score <= ONE,
            final(self).pid == old(self).pid,
            final(self).process_name == old(self).process_name,
            final(self).total_syscalls == old(self).total_syscalls,
            final(self).ntdll_syscalls == old(self).ntdll_syscalls,
            final(self).non_ntdll_syscalls == old(self).non_ntdll_syscalls,
            final(self).return_addresses == old(self).return_addresses,
            final(self).ssns_used == old(self).ssns_used,
            final(self).ntdll_reads == old(self).ntdll_reads,
            final(self).detected_techniques == old(self).detected_techniques,
            final(self).first_seen == old(self).first_seen,
            final(self).last_seen == old(self).last_seen,
    {
        if self.total_syscalls == 0 {
            self.anomaly_score = 0;
            return;
        }
        let total: u128 = self.total_syscalls as u128;
        let elsewhere: u128 = self.non_ntdll_syscalls as u128;
        let share: u128 = 400_000 * elsewhere / total;
        assert(share <= 400_000) by (nonlinear_arith)
            requires
                share == (400_000 * elsewhere) / (total as int),
                elsewhere <= total,
                total > 0,
        ;
        let addresses: u128 = self.return_addresses.len() as u128;
        let mut score: u32 = share as u32;
        if 2 * addresses > total {
            score = score + 200_000;
        } else if 5 * addresses > total {
            score = score + 100_000;
        }
        if self.is_scanning_ntdll() {
            score = score + 200_000;
        }
        if self.detected_techniques.len() > 0 {
            score = score + 200_000;
        }
        self.anomaly_score = score;
    }
}

/// The positions below `n` at which `needle` stands.
pub open spec fn positions_below(haystack: Seq<u8>, needle: Seq<u8>, n: nat) -> Seq<usize>
    decreases n,
{
    if n == 0 {
        Seq::empty()
    } else {
        let before = positions_below(haystack, needle, (n - 1) as nat);
        if matches_at(haystack, needle, n - 1) {
            before.push((n - 1) as usize)
        } else {
            before
        }
    }
}

/// The first service number, loaded by one of the instructions that begin
/// within positions `i` to `n` behind `start`.
pub open spec fn ssn_forward(memory: Seq<u8>, start: int, i: int, n: int) -> Option<u32>
    decreases n - i,
{
    if i >= n {
        None
    } else if memory[start + i] == 0xB8 && le32(memory, start + i + 1) < 0x300 {
        Some(le32(memory, start + i + 1) as u32)
    } else {
        ssn_forward(memory, start, i + 1, n)
    }
}

/// The service number that is loaded within eight bytes behind `start`.
pub open spec fn ssn_after(memory: Seq<u8>, start: int) -> Option<u32> {
    if start + 4 > memory.len() {
        None
    } else {
        let room = memory.len() - start - 4;
        ssn_forward(memory, start, 0, if room < 8 { room } else { 8 })
    }
}

/// The service number that the nearest of the instructions from `k` to `n` bytes in
/// front of `offset` loads.
pub open spec fn ssn_backward(memory: Seq<u8>, offset: int, k: int, n: int) -> Option<u32>
    decreases n - k + 1,
{
    if k > n {
        None
    } else if memory[offset - k] == 0xB8 && offset - k + 5 <= memory.len() && le32(
        memory,
        offset - k + 1,
    ) < 0x300 {
        Some(le32(memory, offset - k + 1) as u32)
    } else {
        ssn_backward(memory, offset, k + 1, n)
    }
}

/// The service number that is loaded within twenty bytes in front of `offset`.
pub open spec fn ssn_before(memory: Seq<u8>, offset: int) -> Option<u32> {
    if offset < 10 {
        None
    } else {
        ssn_backward(memory, offset, 1, if offset < 20 { offset } else { 20 })
    }
}

/// The bytes from `back` in front of `offset` to `ahead` behind it.
pub open spec fn around(memory: Seq<u8>, offset: int, back: int, ahead: int) -> Seq<u8> {
    memory.subrange(
        if offset < back { 0 } else { offset - back },
        if offset + ahead < memory.len() { offset + ahead } else { memory.len() as int },
    )
}

/// Whether the bytes around `offset` hold a whole stub: both loads and a system
/// call or a jump.
pub open spec fn in_complete_stub(memory: Seq<u8>, offset: int) -> bool {
    let region = around(memory, offset, 10, 20);
    offset >= 4 && offset + 10 < memory.len() && found(region, seq![0x4C, 0x8B, 0xD1]) && found(
        region,
        seq![0xB8],
    ) && (found(region, seq![0x0F, 0x05]) || found(region, seq![0xFF, 0xE0]) || found(
        region,
        seq![0x41, 0xFF],
    ))
}

/// Whether one of the windows of `width` bytes begins with `prefix`.
pub open spec fn window_begins(region: Seq<u8>, width: int, prefix: Seq<u8>) -> bool {
    exists|i: int| i + width <= region.len() && matches_at(region, prefix, i)
}

/// What a technique weighs by itself, in millionths.
pub open spec fn technique_weight(technique: IndirectSyscallTechnique) -> u32 {
    match technique {
        IndirectSyscallTechnique::SysWhispers2 => 300_000,
        IndirectSyscallTechnique::SysWhispers3 => 300_000,
        IndirectSyscallTechnique::HellsGate => 300_000,
        IndirectSyscallTechnique::HalosGate => 300_000,
        IndirectSyscallTechnique::GenericDirect => 200_000,
        IndirectSyscallTechnique::GenericIndirect => 200_000,
        _ => 100_000,
    }
}

/// How sure a match is, in millionths.
pub open spec fn match_confidence(
    memory: Seq<u8>,
    offset: int,
    technique: IndirectSyscallTechnique,
    has_ssn: bool,
) -> u32 {
    let sum = 500_000 + technique_weight(technique) + (if has_ssn { 150_000int } else { 0 }) + (
    if in_complete_stub(memory, offset) {
        100_000int
    } else {
        0
    });
    if sum < ONE { sum as u32 } else { ONE }
}

/// The notes on the bytes around a match.
pub open spec fn match_indicators(
    memory: Seq<u8>,
    offset: int,
    technique: IndirectSyscallTechnique,
) -> Seq<Seq<char>> {
    let region = around(memory, offset, 50, 50);
    let none = Seq::<Seq<char>>::empty();
    let a = if window_begins(region, 4, seq![0xFF, 0x15]) {
        none.push("indirect_call_detected"@)
    } else {
        none
    };
    let b = if window_begins(region, 3, seq![0x0F, 0x23]) {
        a.push("debug_register_manipulation"@)
    } else {
        a
    };
    let c = if window_begins(region, 4, seq![0x65, 0x48]) {
        b.push("teb_access"@)
    } else {
        b
    };
    let d = if window_begins(region, 5, seq![0x48, 0x8D, 0x0D]) {
        c.push("dynamic_api_resolution"@)
    } else {
        c
    };
    match technique {
        IndirectSyscallTechnique::HellsGate => d.push("export_table_parsing"@),
        IndirectSyscallTechnique::HalosGate => d.push("export_table_parsing"@),
        IndirectSyscallTechnique::HwSyscalls => d.push("hardware_breakpoint_abuse"@),
        IndirectSyscallTechnique::RopSyscall => d.push("rop_chain_detected"@),
        _ => d,
    }
}

/// The system calls that are known by their numbers where the machine's own
/// table does not tell.
pub const COMMON_SSNS: [(&'static str, u32); 10] = [
    ("NtAllocateVirtualMemory", 0x18),
    ("NtProtectVirtualMemory", 0x50),
    ("NtWriteVirtualMemory", 0x3A),
    ("NtCreateThreadEx", 0xC2),
    ("NtQueueApcThread", 0x45),
    ("NtMapViewOfSection", 0x28),
    ("NtOpenProcess", 0x26),
    ("NtReadVirtualMemory", 0x3F),
    ("NtCreateSection", 0x4A),
    ("NtResumeThread", 0x52),
];

/// The name of the first of the entries with a number.
pub open spec fn known_ssn(ssn: u32, i: int) -> Option<Seq<char>>
    decreases 10 - i,
{
    if i < 0 || i >= 10 {
        None
    } else if COMMON_SSNS@[i].1 == ssn {
        Some(COMMON_SSNS@[i].0@)
    } else {
        known_ssn(ssn, i + 1)
    }
}

/// The machine's table of system calls.
pub open spec fn table_view(table: Seq<(u32, String)>) -> Seq<(u32, Seq<char>)> {
    table.map_values(|e: (u32, String)| (e.0, e.1@))
}

/// The entries of the machine's table with a number.
pub open spec fn has_number(ssn: u32) -> spec_fn((u32, String)) -> bool {
    |e: (u32, String)| e.0 == ssn
}

/// The name of a service number: from the machine's table, else a common one.
pub open spec fn ssn_name(table: Seq<(u32, String)>, ssn: u32) -> Option<Seq<char>> {
    match first_index(table, has_number(ssn)) {
        Some(i) => Some(table[i].1@),
        None => known_ssn(ssn, 0),
    }
}

/// The bytes in hexadecimal, with spaces between them.
pub open spec fn hex_bytes(bytes: Seq<u8>) -> Seq<char> {
    joined(bytes.map_values(|b: u8| padded(b as nat, 16, true, 2)), " "@)
}

/// A region of a process's memory that is scanned.
#[verifier::ext_equal]
pub struct RegionModel {
    pub pid: u32,
    pub base: u64,
    pub size: u64,
    pub process_name: Seq<char>,
}

/// The service number that stands at a position.
pub open spec fn ssn_at(memory: Seq<u8>, at: int) -> Option<u32> {
    if at + 4 <= memory.len() && le32(memory, at) < 0x300 {
        Some(le32(memory, at) as u32)
    } else {
        None
    }
}

/// Whether a pattern itself ends in the instruction that loads the service number.
pub open spec fn ends_in_load(p: SyscallPatternModel) -> bool {
    p.bytes.len() > 0 && p.bytes.last() == 0xB8
}

/// Whether the stub at a position ends as the pattern asks.
pub open spec fn ends_as_asked(memory: Seq<u8>, p: SyscallPatternModel, offset: int) -> bool {
    p.ending.len() == 0 || matches_at(memory, p.ending, offset + p.bytes.len() + 4)
}

/// The service number that goes with a match.
pub open spec fn match_ssn(memory: Seq<u8>, p: SyscallPatternModel, offset: int) -> Option<u32> {
    if p.is_prefix && ends_in_load(p) {
        ssn_at(memory, offset + p.bytes.len())
    } else if p.is_prefix {
        ssn_after(memory, offset + p.bytes.len())
    } else {
        ssn_before(memory, offset)
    }
}

/// What a match says.
pub open spec fn match_event(
    table: Seq<(u32, String)>,
    region: RegionModel,
    memory: Seq<u8>,
    p: SyscallPatternModel,
    offset: int,
) -> SyscallEventModel {
    let ssn = match_ssn(memory, p, offset);
    SyscallEventModel {
        technique: p.technique,
        pid: region.pid,
        tid: 0,
        process_name: region.process_name,
        process_path: Seq::empty(),
        cmdline: Seq::empty(),
        user: Seq::empty(),
        ssn,
        syscall_name: match ssn {
            Some(s) => ssn_name(table, s),
            None => None,
        },
        return_address: None,
        return_module: None,
        syscall_instruction_addr: if p.bytes == seq![0x0Fu8, 0x05u8] {
            Some((region.base + offset) as u64)
        } else {
            None
        },
        from_ntdll: false,
        stub_region_base: Some(region.base),
        stub_region_size: Some(region.size),
        stub_region_protection: None,
        matched_pattern: Some(hex_bytes(around(memory, offset, 0, 16))),
        pattern_name: Some(p.name),
        indicators: match_indicators(memory, offset, p.technique),
        confidence: match_confidence(memory, offset, p.technique, ssn is Some),
        details: p.technique.spec_description() + " detected at 0x"@ + padded(
            (region.base + offset) as nat,
            16,
            true,
            16,
        ) + " (pattern: "@ + p.name + ")"@,
    }
}

/// What the matches of a pattern at some positions say, as far as they end as asked
/// and are sure enough.
pub open spec fn pattern_events(
    table: Seq<(u32, String)>,
    threshold: u32,
    region: RegionModel,
    memory: Seq<u8>,
    p: SyscallPatternModel,
    positions: Seq<usize>,
) -> Seq<SyscallEventModel>
    decreases positions.len(),
{
    if positions.len() == 0 {
        Seq::empty()
    } else {
        let before = pattern_events(table, threshold, region, memory, p, positions.drop_last());
        let event = match_event(table, region, memory, p, positions.last() as int);
        if ends_as_asked(memory, p, positions.last() as int) && event.confidence >= threshold {
            before.push(event)
        } else {
            before
        }
    }
}

/// What the matches of all patterns in a region say.
pub open spec fn region_events(
    table: Seq<(u32, String)>,
    threshold: u32,
    region: RegionModel,
    memory: Seq<u8>,
    patterns: Seq<SyscallPatternModel>,
) -> Seq<SyscallEventModel>
    decreases patterns.len(),
{
    if patterns.len() == 0 {
        Seq::empty()
    } else {
        region_events(table, threshold, region, memory, patterns.drop_last()) + pattern_events(
            table,
            threshold,
            region,
            memory,
            patterns.last(),
            positions_below(memory, patterns.last().bytes, memory.len()),
        )
    }
}

fn ends_there(memory: &[u8], pattern: &SyscallPattern, offset: usize) -> (r: bool)
    requires
        matches_at(memory@, pattern.bytes@, offset as int),
    ensures
        r == ends_as_asked(memory@, pattern@, offset as int),
{
    assert(memory.len() == memory@.len());
    assert(pattern.bytes.len() == pattern.bytes@.len());
    if pattern.ending.len() == 0 {
        return true;
    }
    let end: usize = offset + pattern.bytes.len();
    if memory.len() - end < 4 {
        return false;
    }
    bytes_match_at(memory, pattern.ending.as_slice(), end + 4)
}

/// Where the header of a section of an image begins.
pub open spec fn image_section(image: Seq<u8>, pe: int, i: int) -> int {
    pe + 24 + le16(image, pe + 20) + i * 40
}

/// Whether a section's name begins with `.text`.
pub open spec fn is_text_section(image: Seq<u8>, at: int) -> bool {
    matches_at(image, seq![0x2E, 0x74, 0x65, 0x78, 0x74], at)
}

/// The start and the size of the first text section from section `i` on, of
/// those whose headers lie within the image.
pub open spec fn text_section_from(
    image: Seq<u8>,
    base: u64,
    pe: int,
    i: int,
    n: int,
) -> Option<(int, nat)>
    decreases n - i,
{
    let at = image_section(image, pe, i);
    if i >= n || at + 40 > image.len() {
        None
    } else if is_text_section(image, at) {
        Some((base + le32(image, at + 12), le32(image, at + 8) as nat))
    } else {
        text_section_from(image, base, pe, i + 1, n)
    }
}

/// The start and the size of the text section of an image loaded at `base`.
pub open spec fn text_section(image: Seq<u8>, base: u64) -> Option<(int, nat)> {
    if image.len() < 0x40 || le16(image, 0) != 0x5A4D {
        None
    } else {
        let pe = le32(image, 0x3C);
        if pe + 24 > image.len() || le32(image, pe) != 0x0000_4550 {
            None
        } else {
            text_section_from(image, base, pe, 0, le16(image, pe + 6))
        }
    }
}

/// The system library as it is loaded in this process.
pub struct NtdllModule<'a> {
    pub base: u64,
    pub size: u64,
    /// Its bytes from `base` on.
    pub image: &'a [u8],
}

/// Whether no process has two profiles.
pub open spec fn distinct_pids(profiles: Seq<ProcessSyscallProfile>) -> bool {
    forall|i: int, j: int|
        0 <= i < j < profiles.len() ==> (#[trigger] profiles[i]).pid != (#[trigger] profiles[j]).pid
}

/// The profiles of a process.
pub open spec fn of_process(pid: u32) -> spec_fn(ProcessSyscallProfile) -> bool {
    |p: ProcessSyscallProfile| p.pid == pid
}

/// The position of a process's profile.
pub open spec fn profile_index(profiles: Seq<ProcessSyscallProfile>, pid: u32) -> Option<int> {
    first_index(profiles, of_process(pid))
}

/// Analyzes memory and system calls.
pub struct IndirectSyscallAnalyzer {
    pub profiles: Vec<ProcessSyscallProfile>,
    pub max_processes: usize,
    /// In millionths.
    pub confidence_threshold: u32,
    pub deep_scan_enabled: bool,
    pub ntdll_base: Option<u64>,
    pub ntdll_size: Option<u64>,
    pub ntdll_text_bounds: Option<(u64, u64)>,
    /// The machine's table of system calls, empty where it was not resolved.
    pub ssn_table: Vec<(u32, String)>,
}

fn slice_around(memory: &[u8], offset: usize, back: usize, ahead: usize) -> (r: &[u8])
    requires
        offset <= memory@.len(),
    ensures
        r@ == around(memory@, offset as int, back as int, ahead as int),
{
    let from: usize = if offset < back { 0 } else { offset - back };
    let to: usize = if ahead < memory.len() - offset { offset + ahead } else { memory.len() };
    vstd::slice::slice_subrange(memory, from, to)
}

fn find_pair(region: &[u8], a: u8, b: u8) -> (r: bool)
    ensures
        r == found(region@, seq![a, b]),
{
    let pattern: [u8; 2] = [a, b];
    assert(pattern@ =~= seq![a, b]);
    find_bytes(region, &pattern)
}

fn find_window(region: &[u8], width: usize, prefix: &[u8]) -> (r: bool)
    requires
        0 < width,
        prefix@.len() <= width,
    ensures
        r == window_begins(region@, width as int, prefix@),
{
    let mut i: usize = 0;
    while i < region.len() && width <= region.len() - i
        invariant
            i <= region@.len(),
            forall|j: int| 0 <= j < i ==> !matches_at(region@, prefix@, j),
        decreases region@.len() - i,
    {
        if bytes_match_at(region, prefix, i) {
            assert(i + width <= region@.len() && matches_at(region@, prefix@, i as int));
            return true;
        }
        i += 1;
    }
    proof {
        if window_begins(region@, width as int, prefix@) {
            let k = choose|k: int| k + width <= region@.len() && matches_at(region@, prefix@, k);
            if k < i {
                assert(!matches_at(region@, prefix@, k));
            }
        }
    }
    false
}

fn hex_text(bytes: &[u8]) -> (r: String)
    ensures
        r@ == hex_bytes(bytes@),
{
    let mut parts: Vec<String> = Vec::new();
    let ghost all = bytes@.map_values(|b: u8| padded(b as nat, 16, true, 2));
    let mut i: usize = 0;
    assert(texts(parts@) =~= all.take(0));
    while i < bytes.len()
        invariant
            i <= bytes@.len(),
            all == bytes@.map_values(|b: u8| padded(b as nat, 16, true, 2)),
            texts(parts@) == all.take(i as int),
        decreases bytes@.len() - i,
    {
        push_text(&mut parts, hex_padded_text(bytes[i] as u64, 2));
        assert(all.take(i + 1) =~= all.take(i as int).push(all[i as int]));
        i += 1;
    }
    assert(all.take(i as int) =~= all);
    join(&parts, " ")
}

impl IndirectSyscallAnalyzer {
    /// Each process has at most one profile, and each profile counts right.
    pub open spec fn wf(&self) -> bool {
        &&& distinct_pids(self.profiles@)
        &&& forall|i: int| 0 <= i < self.profiles@.len() ==> (#[trigger] self.profiles@[i]).wf()
    }

    /// Whether everything but the profiles is the same.
    pub open spec fn same_setup(&self, other: &IndirectSyscallAnalyzer) -> bool {
        &&& self.max_processes == other.max_processes
        &&& self.confidence_threshold == other.confidence_threshold
        &&& self.deep_scan_enabled == other.deep_scan_enabled
        &&& self.ntdll_base == other.ntdll_base
        &&& self.ntdll_size == other.ntdll_size
        &&& self.ntdll_text_bounds == other.ntdll_text_bounds
        &&& self.ssn_table == other.ssn_table
    }

    /// An analyzer that knows nothing of the system library yet.
    pub fn new() -> (a: IndirectSyscallAnalyzer)
        ensures
            a.wf(),
            a.profiles@ == Seq::<ProcessSyscallProfile>::empty(),
            a.max_processes == 1000,
            a.confidence_threshold == 700_000,
            a.deep_scan_enabled,
            a.ntdll_base is None,
            a.ntdll_size is None,
            a.ntdll_text_bounds is None,
            a.ssn_table@ == Seq::<(u32, String)>::empty(),
    {
        IndirectSyscallAnalyzer {
            profiles: Vec::new(),
            max_processes: 1000,
            confidence_threshold: 700_000,
            deep_scan_enabled: true,
            ntdll_base: None,
            ntdll_size: None,
            ntdll_text_bounds: None,
            ssn_table: Vec::new(),
        }
    }

    /// Learns where the system library lies. Without one there is nothing to
    /// learn.
    pub fn initialize_ntdll_bounds(&mut self, module: Option<NtdllModule>) -> (r: bool)
        requires
            module matches Some(m) ==> (text_section(m.image@, m.base) matches Some(t) ==> t.0 + t.1
                <= u64::MAX),
        ensures
            r == module is Some,
            final(self).profiles == old(self).profiles,
            final(self).max_processes == old(self).max_processes,
            final(self).confidence_threshold == old(self).confidence_threshold,
            final(self).deep_scan_enabled == old(self).deep_scan_enabled,
            final(self).ssn_table == old(self).ssn_table,
            match module {
                None => final(self).same_setup(old(self)),
                Some(m) => final(self).ntdll_base == Some(m.base) && final(self).ntdll_size == Some(
                    m.size,
                ) && final(self).ntdll_text_bounds == match text_section(m.image@, m.base) {
                    Some(t) => Some((t.0 as u64, (t.0 + t.1) as u64)),
                    None => old(self).ntdll_text_bounds,
                },
            },
    {
        match module {
            None => false,
            Some(m) => {
                self.ntdll_base = Some(m.base);
                self.ntdll_size = Some(m.size);
                if let Some((start, size)) = self.parse_text_section(m.image, m.base) {
                    self.ntdll_text_bounds = Some((start, start + size));
                }
                true
            },
        }
    }

    /// Finds the text section of an image by its headers.
    pub fn parse_text_section(&self, image: &[u8], base: u64) -> (r: Option<(u64, u64)>)
        requires
            text_section(image@, base) matches Some(t) ==> t.0 <= u64::MAX,
        ensures
            match text_section(image@, base) {
                Some(t) => r matches Some(found_section) && found_section.0 == t.0
                    && found_section.1 == t.1 && t.0 <= base + 0xFFFF_FFFF && t.1 <= 0xFFFF_FFFF,
                None => r is None,
            },
    {
        if image.len() < 0x40 || read_le16(image, 0) != 0x5A4D {
            return None;
        }
        let pe_offset: u64 = read_le32(image, 0x3C) as u64;
        if pe_offset + 24 > image.len() as u64 {
            return None;
        }
        let pe: usize = pe_offset as usize;
        if read_le32(image, pe) != 0x0000_4550 {
            return None;
        }
        let num_sections: u64 = read_le16(image, pe + 6) as u64;
        let optional_header_size: u64 = read_le16(image, pe + 20) as u64;
        let text_name: [u8; 5] = [0x2E, 0x74, 0x65, 0x78, 0x74];
        assert(text_name@ =~= seq![0x2Eu8, 0x74, 0x65, 0x78, 0x74]);
        let mut i: u64 = 0;
        while i < num_sections
            invariant
                i <= num_sections <= 0xFFFF,
                pe + 24 <= image@.len() <= usize::MAX,
                pe == pe_offset <= 0xFFFF_FFFF,
                optional_header_size == le16(image@, pe + 20),
                optional_header_size <= 0xFFFF,
                num_sections == le16(image@, pe + 6),
                text_name@ == seq![0x2Eu8, 0x74, 0x65, 0x78, 0x74],
                text_section(image@, base) matches Some(t) ==> t.0 <= u64::MAX,
                image@.len() >= 0x40,
                le16(image@, 0) == 0x5A4D,
                pe == le32(image@, 0x3C),
                le32(image@, pe as int) == 0x0000_4550,
                text_section(image@, base) == text_section_from(
                    image@,
                    base,
                    pe as int,
                    i as int,
                    num_sections as int,
                ),
            decreases num_sections - i,
        {
            let at_offset: u64 = pe_offset + 24 + optional_header_size + i * 40;
            if at_offset + 40 > image.len() as u64 {
                return None;
            }
            let at: usize = at_offset as usize;
            if bytes_match_at(image, &text_name, at) {
                let size: u64 = read_le32(image, at + 8) as u64;
                let address: u64 = read_le32(image, at + 12) as u64;
                return Some((base + address, size));
            }
            i += 1;
        }
        None
    }

    /// Whether an address lies in the system library.
    pub fn is_in_ntdll(&self, addr: u64) -> (r: bool)
        ensures
            r == self.spec_in_ntdll(addr),
    {
        match (self.ntdll_base, self.ntdll_size) {
            (Some(base), Some(size)) => addr >= base && addr - base < size,
            _ => false,
        }
    }

    /// Whether an address lies in the system library.
    pub open spec fn spec_in_ntdll(&self, addr: u64) -> bool {
        self.ntdll_base is Some && self.ntdll_size is Some && self.ntdll_base->0 <= addr
            < self.ntdll_base->0 + self.ntdll_size->0
    }

    /// Whether an address lies in the system library's code.
    pub fn is_in_ntdll_text(&self, addr: u64) -> (r: bool)
        ensures
            r == match self.ntdll_text_bounds {
                Some(bounds) => bounds.0 <= addr < bounds.1,
                None => self.spec_in_ntdll(addr),
            },
    {
        match self.ntdll_text_bounds {
            Some((start, end)) => addr >= start && addr < end,
            None => self.is_in_ntdll(addr),
        }
    }

    /// Looks for the patterns of techniques in a region of a process's memory,
    /// unless the region belongs to the system library.
    pub fn analyze_memory_region(
        &self,
        pid: u32,
        region_base: u64,
        region_size: u64,
        memory: &[u8],
        process_name: &str,
    ) -> (detections: Vec<IndirectSyscallEvent>)
        requires
            region_base + memory@.len() <= u64::MAX,
        ensures
            events_view(detections@) == if self.spec_in_ntdll(region_base) {
                Seq::empty()
            } else {
                region_events(
                    self.ssn_table@,
                    self.confidence_threshold,
                    RegionModel {
                        pid,
                        base: region_base,
                        size: region_size,
                        process_name: process_name@,
                    },
                    memory@,
                    syscall_patterns(),
                )
            },
    {
        let mut detections: Vec<IndirectSyscallEvent> = Vec::new();
        assert(events_view(detections@) =~= Seq::empty());
        if self.is_in_ntdll(region_base) {
            return detections;
        }
        assert(memory.len() == memory@.len());
        let ghost region = RegionModel {
            pid,
            base: region_base,
            size: region_size,
            process_name: process_name@,
        };
        let patterns = indirect_syscall_patterns();
        let ghost all = syscall_patterns();
        assert(patterns@.len() == patterns_view(patterns@).len());
        assert(forall|k: int| 0 <= k < all.len() ==> (#[trigger] all[k]).bytes.len() > 0);
        let mut k: usize = 0;
        assert(all.take(0) =~= Seq::empty());
        while k < patterns.len()
            invariant
                k <= patterns@.len(),
                all == syscall_patterns(),
                patterns_view(patterns@) == all,
                patterns@.len() == all.len(),
                forall|j: int| 0 <= j < all.len() ==> (#[trigger] all[j]).bytes.len() > 0,
                region == (RegionModel {
                    pid,
                    base: region_base,
                    size: region_size,
                    process_name: process_name@,
                }),
                region_base + memory@.len() <= u64::MAX,
                memory@.len() <= usize::MAX,
                events_view(detections@) == region_events(
                    self.ssn_table@,
                    self.confidence_threshold,
                    region,
                    memory@,
                    all.take(k as int),
                ),
            decreases patterns@.len() - k,
        {
            let ghost before = events_view(detections@);
            let ghost p = all[k as int];
            assert(all.take(k + 1).drop_last() =~= all.take(k as int));
            assert(all.take(k + 1).last() == p);
            assert(p == patterns@[k as int]@);
            let matches_found = self.find_all_patterns(memory, patterns[k].bytes.as_slice());
            let ghost positions = matches_found@;
            assert(positions.take(0) =~= Seq::empty());
            let mut i: usize = 0;
            while i < matches_found.len()
                invariant
                    i <= matches_found@.len(),
                    k < patterns@.len(),
                    p == patterns@[k as int]@,
                    p.bytes.len() > 0,
                    positions == matches_found@,
                    positions == positions_below(memory@, p.bytes, memory@.len()),
                    region == (RegionModel {
                        pid,
                        base: region_base,
                        size: region_size,
                        process_name: process_name@,
                    }),
                    region_base + memory@.len() <= u64::MAX,
                    memory@.len() <= usize::MAX,
                    events_view(detections@) == before + pattern_events(
                        self.ssn_table@,
                        self.confidence_threshold,
                        region,
                        memory@,
                        p,
                        positions.take(i as int),
                    ),
                decreases matches_found@.len() - i,
            {
                let offset: usize = matches_found[i];
                proof {
                    lemma_positions(memory@, p.bytes, memory@.len(), i as int);
                    assert(positions.take(i + 1).drop_last() =~= positions.take(i as int));
                    assert(positions.take(i + 1).last() == offset);
                }
                let whole = ends_there(memory, &patterns[k], offset);
                let event = self.match_at(
                    pid,
                    region_base,
                    region_size,
                    memory,
                    process_name,
                    &patterns[k],
                    offset,
                );
                if whole && event.confidence >= self.confidence_threshold {
                    let ghost held = detections@;
                    detections.push(event);
                    assert(events_view(detections@) =~= events_view(held).push(event@));
                    assert(events_view(detections@) =~= before + pattern_events(
                        self.ssn_table@,
                        self.confidence_threshold,
                        region,
                        memory@,
                        p,
                        positions.take(i + 1),
                    ));
                }
                i += 1;
            }
            assert(positions.take(i as int) =~= positions);
            k += 1;
        }
        assert(all.take(k as int) =~= all);
        detections
    }

    fn match_at(
        &self,
        pid: u32,
        region_base: u64,
        region_size: u64,
        memory: &[u8],
        process_name: &str,
        pattern: &SyscallPattern,
        offset: usize,
    ) -> (event: IndirectSyscallEvent)
        requires
            region_base + memory@.len() <= u64::MAX,
            offset < memory@.len(),
        ensures
            event@ == match_event(
                self.ssn_table@,
                RegionModel {
                    pid,
                    base: region_base,
                    size: region_size,
                    process_name: process_name@,
                },
                memory@,
                pattern@,
                offset as int,
            ),
    {
        let addr: u64 = region_base + offset as u64;
        let length: usize = pattern.bytes.len();
        let ssn = if pattern.is_prefix && length > 0 && pattern.bytes[length - 1] == 0xB8 {
            self.read_ssn(memory, offset, length)
        } else if pattern.is_prefix {
            self.extract_ssn_after_pattern(memory, offset, length)
        } else {
            self.extract_ssn_before_pattern(memory, offset)
        };
        let confidence: u32 = self.calculate_detection_confidence(
            memory,
            offset,
            pattern.technique,
            ssn.is_some(),
        );
        let syscall_name = match ssn {
            Some(s) => self.resolve_ssn_name(s),
            None => None,
        };
        let is_syscall = pattern.bytes.len() == 2 && pattern.bytes[0] == 0x0F && pattern.bytes[1]
            == 0x05;
        assert(is_syscall == (pattern.bytes@ == seq![0x0Fu8, 0x05u8])) by {
            if is_syscall {
                assert(pattern.bytes@ =~= seq![0x0Fu8, 0x05u8]);
            }
        }
        let event = IndirectSyscallEvent {
            technique: pattern.technique,
            pid,
            tid: 0,
            process_name: process_name.to_string(),
            process_path: String::new(),
            cmdline: String::new(),
            user: String::new(),
            ssn,
            syscall_name,
            return_address: None,
            return_module: None,
            syscall_instruction_addr: if is_syscall { Some(addr) } else { None },
            from_ntdll: false,
            stub_region_base: Some(region_base),
            stub_region_size: Some(region_size),
            stub_region_protection: None,
            matched_pattern: Some(hex_text(slice_around(memory, offset, 0, 16))),
            pattern_name: Some(pattern.name.to_string()),
            indicators: self.extract_indicators(memory, offset, pattern.technique),
            confidence,
            details: pattern.technique.description().to_string().concat(" detected at 0x").concat(
                hex_padded_text(addr, 16).as_str(),
            ).concat(" (pattern: ").concat(pattern.name).concat(")"),
        };
        event
    }

    /// The positions at which a pattern stands.
    pub fn find_all_patterns(&self, haystack: &[u8], needle: &[u8]) -> (r: Vec<usize>)
        ensures
            r@ == if needle@.len() == 0 {
                Seq::empty()
            } else {
                positions_below(haystack@, needle@, haystack@.len())
            },
    {
        let mut r: Vec<usize> = Vec::new();
        if needle.len() == 0 {
            return r;
        }
        let mut i: usize = 0;
        while i < haystack.len()
            invariant
                i <= haystack@.len(),
                r@ == positions_below(haystack@, needle@, i as nat),
            decreases haystack@.len() - i,
        {
            if bytes_match_at(haystack, needle, i) {
                r.push(i);
            }
            i += 1;
        }
        r
    }

    fn read_ssn(&self, memory: &[u8], offset: usize, pattern_len: usize) -> (r: Option<u32>)
        ensures
            r == ssn_at(memory@, offset + pattern_len),
    {
        if offset > memory.len() || pattern_len > memory.len() - offset || memory.len() - offset
            - pattern_len < 4 {
            return None;
        }
        let ssn: u32 = read_le32(memory, offset + pattern_len);
        if ssn < 0x300 {
            Some(ssn)
        } else {
            None
        }
    }

    /// The service number that is loaded behind a match.
    pub fn extract_ssn_after_pattern(
        &self,
        memory: &[u8],
        offset: usize,
        pattern_len: usize,
    ) -> (r: Option<u32>)
        ensures
            r == ssn_after(memory@, offset + pattern_len),
    {
        if offset > memory.len() || pattern_len > memory.len() - offset || memory.len() - offset
            - pattern_len < 4 {
            return None;
        }
        let start: usize = offset + pattern_len;
        let room: usize = memory.len() - start - 4;
        let n: usize = if room < 8 { room } else { 8 };
        let mut i: usize = 0;
        while i < n
            invariant
                i <= n <= 8,
                start + n + 4 <= memory@.len() <= usize::MAX,
                ssn_after(memory@, start as int) == ssn_forward(
                    memory@,
                    start as int,
                    i as int,
                    n as int,
                ),
                start == offset + pattern_len,
            decreases n - i,
        {
            if memory[start + i] == 0xB8 {
                let ssn: u32 = read_le32(memory, start + i + 1);
                if ssn < 0x300 {
                    return Some(ssn);
                }
            }
            i += 1;
        }
        None
    }

    /// The service number that is loaded in front of a match.
    pub fn extract_ssn_before_pattern(&self, memory: &[u8], offset: usize) -> (r: Option<u32>)
        requires
            offset <= memory@.len(),
        ensures
            r == ssn_before(memory@, offset as int),
    {
        if offset < 10 {
            return None;
        }
        assert(memory.len() == memory@.len());
        let n: usize = if offset < 20 { offset } else { 20 };
        let mut k: usize = 1;
        while k <= n
            invariant
                1 <= k <= n + 1,
                n <= 20,
                n <= offset <= memory@.len() <= usize::MAX,
                ssn_before(memory@, offset as int) == ssn_backward(
                    memory@,
                    offset as int,
                    k as int,
                    n as int,
                ),
            decreases n + 1 - k,
        {
            let at: usize = offset - k;
            if memory[at] == 0xB8 && memory.len() - at >= 5 {
                let ssn: u32 = read_le32(memory, at + 1);
                if ssn < 0x300 {
                    return Some(ssn);
                }
            }
            k += 1;
        }
        None
    }

    /// The name of a service number.
    pub fn resolve_ssn_name(&self, ssn: u32) -> (r: Option<String>)
        ensures
            opt_text(r) == ssn_name(self.ssn_table@, ssn),
    {
        let meets = |e: &(u32, String)| -> (b: bool)
            ensures
                b == (e.0 == ssn),
            { e.0 == ssn };
        match position_where(&self.ssn_table, meets, Ghost(has_number(ssn))) {
            Some(i) => Some(self.ssn_table[i].1.clone()),
            None => {
                let mut i: usize = 0;
                while i < 10
                    invariant
                        i <= 10,
                        known_ssn(ssn, 0) == known_ssn(ssn, i as int),
                        ssn_name(self.ssn_table@, ssn) == known_ssn(ssn, 0),
                    decreases 10 - i,
                {
                    if COMMON_SSNS[i].1 == ssn {
                        return Some(COMMON_SSNS[i].0.to_string());
                    }
                    i += 1;
                }
                None
            },
        }
    }

    /// How sure a match is.
    pub fn calculate_detection_confidence(
        &self,
        memory: &[u8],
        offset: usize,
        technique: IndirectSyscallTechnique,
        has_ssn: bool,
    ) -> (r: u32)
        ensures
            r == match_confidence(memory@, offset as int, technique, has_ssn),
            r <= ONE,
    {
        let mut confidence: u32 = 500_000 + match technique {
            IndirectSyscallTechnique::SysWhispers2 => 300_000,
            IndirectSyscallTechnique::SysWhispers3 => 300_000,
            IndirectSyscallTechnique::HellsGate => 300_000,
            IndirectSyscallTechnique::HalosGate => 300_000,
            IndirectSyscallTechnique::GenericDirect => 200_000,
            IndirectSyscallTechnique::GenericIndirect => 200_000,
            _ => 100_000,
        };
        if has_ssn {
            confidence = confidence + 150_000;
        }
        if self.has_complete_syscall_stub(memory, offset) {
            confidence = confidence + 100_000;
        }
        if confidence < ONE { confidence } else { ONE }
    }

    /// Whether the bytes around a match hold a whole stub.
    pub fn has_complete_syscall_stub(&self, memory: &[u8], offset: usize) -> (r: bool)
        ensures
            r == in_complete_stub(memory@, offset as int),
    {
        if offset >= 4 && offset < memory.len() && 10 < memory.len() - offset {
            let region = slice_around(memory, offset, 10, 20);
            let mov_r10: [u8; 3] = [0x4C, 0x8B, 0xD1];
            let mov_eax: [u8; 1] = [0xB8];
            assert(mov_r10@ =~= seq![0x4Cu8, 0x8B, 0xD1]);
            assert(mov_eax@ =~= seq![0xB8u8]);
            let has_mov_r10 = find_bytes(region, &mov_r10);
            let has_mov_eax = find_bytes(region, &mov_eax);
            let has_syscall = find_pair(region, 0x0F, 0x05);
            let has_jmp = find_pair(region, 0xFF, 0xE0) || find_pair(region, 0x41, 0xFF);
            return has_mov_r10 && has_mov_eax && (has_syscall || has_jmp);
        }
        false
    }

    /// The notes on the bytes around a match.
    pub fn extract_indicators(
        &self,
        memory: &[u8],
        offset: usize,
        technique: IndirectSyscallTechnique,
    ) -> (r: Vec<String>)
        requires
            offset <= memory@.len(),
        ensures
            texts(r@) == match_indicators(memory@, offset as int, technique),
    {
        let mut indicators: Vec<String> = Vec::new();
        assert(texts(indicators@) =~= Seq::<Seq<char>>::empty());
        let region = slice_around(memory, offset, 50, 50);
        let call: [u8; 2] = [0xFF, 0x15];
        let debug: [u8; 2] = [0x0F, 0x23];
        let teb: [u8; 2] = [0x65, 0x48];
        let lea: [u8; 3] = [0x48, 0x8D, 0x0D];
        assert(call@ =~= seq![0xFFu8, 0x15]);
        assert(debug@ =~= seq![0x0Fu8, 0x23]);
        assert(teb@ =~= seq![0x65u8, 0x48]);
        assert(lea@ =~= seq![0x48u8, 0x8D, 0x0D]);
        if find_window(region, 4, &call) {
            push_text(&mut indicators, "indirect_call_detected".to_string());
        }
        if find_window(region, 3, &debug) {
            push_text(&mut indicators, "debug_register_manipulation".to_string());
        }
        if find_window(region, 4, &teb) {
            push_text(&mut indicators, "teb_access".to_string());
        }
        if find_window(region, 5, &lea) {
            push_text(&mut indicators, "dynamic_api_resolution".to_string());
        }
        match technique {
            IndirectSyscallTechnique::HellsGate | IndirectSyscallTechnique::HalosGate => {
                push_text(&mut indicators, "export_table_parsing".to_string());
            },
            IndirectSyscallTechnique::HwSyscalls => {
                push_text(&mut indicators, "hardware_breakpoint_abuse".to_string());
            },
            IndirectSyscallTechnique::RopSyscall => {
                push_text(&mut indicators, "rop_chain_detected".to_string());
            },
            _ => {},
        }
        indicators
    }
}

proof fn lemma_positions(haystack: Seq<u8>, needle: Seq<u8>, n: nat, i: int)
    requires
        0 <= i < positions_below(haystack, needle, n).len(),
        n <= haystack.len() <= usize::MAX,
    ensures
        positions_below(haystack, needle, n)[i] < n,
        matches_at(haystack, needle, positions_below(haystack, needle, n)[i] as int),
    decreases n,
{
    if n > 0 {
        let before = positions_below(haystack, needle, (n - 1) as nat);
        if i < before.len() {
            lemma_positions(haystack, needle, (n - 1) as nat, i);
        }
    }
}

/// The value of an optional text.
pub open spec fn text_field(t: Option<Seq<char>>) -> CustomModel {
    match t {
        Some(s) => CustomModel::Text(s),
        None => CustomModel::Null,
    }
}

/// The value of an optional number.
pub open spec fn number_field(n: Option<u64>) -> CustomModel {
    match n {
        Some(n) => CustomModel::Number(n),
        None => CustomModel::Null,
    }
}

/// An address with sixteen hexadecimal digits.
pub open spec fn address_text(address: u64) -> Seq<char> {
    "0x"@ + padded(address as nat, 16, true, 16)
}

/// The value of an optional address.
pub open spec fn address_field(a: Option<u64>) -> CustomModel {
    match a {
        Some(a) => CustomModel::Text(address_text(a)),
        None => CustomModel::Null,
    }
}

/// The payload of the event that reports a use.
pub open spec fn report_fields(e: SyscallEventModel) -> Seq<(Seq<char>, CustomModel)> {
    seq![
        ("detection_type"@, CustomModel::Text("indirect_syscall"@)),
        ("technique"@, CustomModel::Text(e.technique.spec_as_str())),
        ("pid"@, CustomModel::Number(e.pid as u64)),
        ("tid"@, CustomModel::Number(e.tid as u64)),
        ("process_name"@, CustomModel::Text(e.process_name)),
        ("process_path"@, CustomModel::Text(e.process_path)),
        ("cmdline"@, CustomModel::Text(e.cmdline)),
        (
            "ssn"@,
            match e.ssn {
                Some(s) => CustomModel::Number(s as u64),
                None => CustomModel::Null,
            },
        ),
        ("syscall_name"@, text_field(e.syscall_name)),
        ("return_address"@, address_field(e.return_address)),
        ("return_module"@, text_field(e.return_module)),
        ("syscall_instruction_addr"@, address_field(e.syscall_instruction_addr)),
        ("from_ntdll"@, CustomModel::Flag(e.from_ntdll)),
        ("stub_region_base"@, address_field(e.stub_region_base)),
        ("stub_region_size"@, number_field(e.stub_region_size)),
        ("stub_region_protection"@, text_field(e.stub_region_protection)),
        ("matched_pattern"@, text_field(e.matched_pattern)),
        ("pattern_name"@, text_field(e.pattern_name)),
        ("indicators"@, CustomModel::Texts(e.indicators)),
        ("confidence"@, CustomModel::Millionths(e.confidence)),
        ("details"@, CustomModel::Text(e.details)),
    ]
}

/// A service number with four hexadecimal digits.
pub open spec fn ssn_text(ssn: u32) -> Seq<char> {
    "0x"@ + padded(ssn as nat, 16, true, 4)
}

/// The detection of the event that reports a use.
pub open spec fn report_detection(e: SyscallEventModel) -> DetectionModel {
    DetectionModel {
        detection_type: DetectionType::DefenseEvasion,
        rule_name: "indirect_syscall_"@ + e.technique.spec_as_str(),
        confidence: e.confidence,
        description: e.technique.spec_description() + ": "@ + e.details + " (PID: "@ + decimal(
            e.pid as nat,
        ) + ", SSN: "@ + (match e.ssn {
            Some(s) => ssn_text(s),
            None => "unknown"@,
        }) + ")"@,
        mitre_tactics: seq!["defense-evasion"@, "execution"@],
        mitre_techniques: seq!["T1106"@, "T1562.001"@],
    }
}

/// The facts of the event that reports a use.
pub open spec fn report_facts(e: SyscallEventModel) -> Map<Seq<char>, Seq<char>> {
    let a = Map::<Seq<char>, Seq<char>>::empty().insert("technique"@, e.technique.spec_as_str());
    let b = match e.ssn {
        Some(s) => a.insert("ssn"@, ssn_text(s)),
        None => a,
    };
    let c = match e.syscall_name {
        Some(n) => b.insert("syscall_name"@, n),
        None => b,
    };
    match e.pattern_name {
        Some(n) => c.insert("pattern_name"@, n),
        None => c,
    }
}

/// Whether an event reports a use.
pub open spec fn reports(event: TelemetryEvent, e: SyscallEventModel) -> bool {
    &&& event.event_type == EventType::DefenseEvasion
    &&& event.severity == e.technique.spec_severity()
    &&& event.payload matches EventPayload::Custom(fields) && fields_view(fields@) == report_fields(
        e,
    )
    &&& detections_view(event.detections@) == seq![report_detection(e)]
    &&& event.metadata@ == report_facts(e)
}

fn text_value(t: &Option<String>) -> (r: CustomValue)
    ensures
        r@ == text_field(opt_text(*t)),
{
    match t {
        Some(s) => CustomValue::Text(s.clone()),
        None => CustomValue::Null,
    }
}

fn address_value(a: Option<u64>) -> (r: CustomValue)
    ensures
        r@ == address_field(a),
{
    match a {
        Some(a) => CustomValue::Text("0x".to_string().concat(hex_padded_text(a, 16).as_str())),
        None => CustomValue::Null,
    }
}

fn number_value(n: Option<u64>) -> (r: CustomValue)
    ensures
        r@ == number_field(n),
{
    match n {
        Some(n) => CustomValue::Number(n),
        None => CustomValue::Null,
    }
}

/// Whether an idle profile is kept when room is needed.
pub open spec fn is_active(now: u64) -> spec_fn(ProcessSyscallProfile) -> bool {
    |p: ProcessSyscallProfile| p.last_seen > now - PROFILE_IDLE_MS
}

/// The last profiles, as many as leave room for one more.
pub open spec fn last_but_one(profiles: Seq<ProcessSyscallProfile>, max: usize) -> Seq<
    ProcessSyscallProfile,
> {
    if profiles.len() < max {
        profiles
    } else if max == 0 {
        Seq::empty()
    } else {
        profiles.skip(profiles.len() - (max - 1))
    }
}

/// The profiles that stay before something of a process is noted: where there is
/// no room for another, the active ones, without those that were begun first where
/// even they leave none.
pub open spec fn with_room(
    profiles: Seq<ProcessSyscallProfile>,
    max: usize,
    pid: u32,
    now: u64,
) -> Seq<ProcessSyscallProfile> {
    if profiles.len() >= max && profile_index(profiles, pid) is None {
        last_but_one(profiles.filter(is_active(now)), max)
    } else {
        profiles
    }
}

/// Whether a profile is that of a process of which nothing was seen before.
pub open spec fn is_blank(p: ProcessSyscallProfile, pid: u32, name: Seq<char>, now: u64) -> bool {
    &&& p.pid == pid
    &&& p.process_name@ == name
    &&& p.total_syscalls == 0
    &&& p.ntdll_syscalls == 0
    &&& p.non_ntdll_syscalls == 0
    &&& p.return_addresses@ == Set::<u64>::empty()
    &&& p.ssns_used@ == Set::<u32>::empty()
    &&& p.ntdll_reads@ == Seq::<NtdllReadEvent>::empty()
    &&& p.detected_techniques@ == Seq::<IndirectSyscallTechnique>::empty()
    &&& p.first_seen == now
    &&& p.last_seen == now
    &&& p.anomaly_score == 0
}

/// Where the profile of a process stands, or will stand.
pub open spec fn slot(profiles: Seq<ProcessSyscallProfile>, pid: u32) -> int {
    match profile_index(profiles, pid) {
        Some(i) => i,
        None => profiles.len() as int,
    }
}

/// Whether the profiles differ at one position only, perhaps a new one.
pub open spec fn only_changed(
    before: Seq<ProcessSyscallProfile>,
    after: Seq<ProcessSyscallProfile>,
    i: int,
) -> bool {
    &&& after.len() == (if i == before.len() { before.len() + 1 } else { before.len() })
    &&& forall|j: int| 0 <= j < before.len() && j != i ==> #[trigger] after[j] == before[j]
}

/// Whether the profile at a position was this one; a new one was blank.
pub open spec fn was(
    profiles: Seq<ProcessSyscallProfile>,
    i: int,
    p: ProcessSyscallProfile,
    pid: u32,
    name: Seq<char>,
    now: u64,
) -> bool {
    if i == profiles.len() {
        is_blank(p, pid, name, now)
    } else {
        p == profiles[i]
    }
}

impl IndirectSyscallAnalyzer {
    /// The event that reports a use.
    pub fn create_telemetry_event(event: &IndirectSyscallEvent) -> (telemetry: TelemetryEvent)
        ensures
            reports(telemetry, event@),
    {
        let ssn_value = match event.ssn {
            Some(s) => CustomValue::Number(s as u64),
            None => CustomValue::Null,
        };
        let fields: Vec<(&'static str, CustomValue)> = vec![
            ("detection_type", CustomValue::Text("indirect_syscall".to_string())),
            ("technique", CustomValue::Text(event.technique.as_str().to_string())),
            ("pid", CustomValue::Number(event.pid as u64)),
            ("tid", CustomValue::Number(event.tid as u64)),
            ("process_name", CustomValue::Text(event.process_name.clone())),
            ("process_path", CustomValue::Text(event.process_path.clone())),
            ("cmdline", CustomValue::Text(event.cmdline.clone())),
            ("ssn", ssn_value),
            ("syscall_name", text_value(&event.syscall_name)),
            ("return_address", address_value(event.return_address)),
            ("return_module", text_value(&event.return_module)),
            ("syscall_instruction_addr", address_value(event.syscall_instruction_addr)),
            ("from_ntdll", CustomValue::Flag(event.from_ntdll)),
            ("stub_region_base", address_value(event.stub_region_base)),
            ("stub_region_size", number_value(event.stub_region_size)),
            ("stub_region_protection", text_value(&event.stub_region_protection)),
            ("matched_pattern", text_value(&event.matched_pattern)),
            ("pattern_name", text_value(&event.pattern_name)),
            ("indicators", CustomValue::Texts(copies(&event.indicators))),
            ("confidence", CustomValue::Millionths(event.confidence)),
            ("details", CustomValue::Text(event.details.clone())),
        ];
        assert(fields_view(fields@) =~~= report_fields(event@));
        let mut telemetry = TelemetryEvent::new(
            EventType::DefenseEvasion,
            event.technique.severity(),
            EventPayload::Custom(fields),
        );
        let ssn = match event.ssn {
            Some(s) => "0x".to_string().concat(hex_padded_text(s as u64, 4).as_str()),
            None => "unknown".to_string(),
        };
        let detection = Detection {
            detection_type: DetectionType::DefenseEvasion,
            rule_name: "indirect_syscall_".to_string().concat(event.technique.as_str()),
            confidence: event.confidence,
            description: event.technique.description().to_string().concat(": ").concat(
                event.details.as_str(),
            ).concat(" (PID: ").concat(decimal_text(event.pid as u64).as_str()).concat(
                ", SSN: ",
            ).concat(ssn.as_str()).concat(")"),
            mitre_tactics: vec!["defense-evasion".to_string(), "execution".to_string()],
            mitre_techniques: vec!["T1106".to_string(), "T1562.001".to_string()],
        };
        assert(detection@ =~= report_detection(event@));
        telemetry.add_detection(detection);
        telemetry.metadata.insert("technique".to_string(), event.technique.as_str().to_string());
        if let Some(s) = event.ssn {
            telemetry.metadata.insert(
                "ssn".to_string(),
                "0x".to_string().concat(hex_padded_text(s as u64, 4).as_str()),
            );
        }
        if let Some(name) = &event.syscall_name {
            telemetry.metadata.insert("syscall_name".to_string(), name.clone());
        }
        if let Some(name) = &event.pattern_name {
            telemetry.metadata.insert("pattern_name".to_string(), name.clone());
        }
        assert(detections_view(telemetry.detections@) =~= seq![report_detection(event@)]);
        telemetry
    }

    fn index_of(&self, pid: u32) -> (r: Option<usize>)
        ensures
            match r {
                Some(i) => profile_index(self.profiles@, pid) == Some(i as int) && i
                    < self.profiles@.len() && self.profiles@[i as int].pid == pid,
                None => profile_index(self.profiles@, pid) is None && forall|j: int|
                    0 <= j < self.profiles@.len() ==> (#[trigger] self.profiles@[j]).pid != pid,
            },
    {
        let meets = |p: &ProcessSyscallProfile| -> (b: bool)
            ensures
                b == (p.pid == pid),
            { p.pid == pid };
        let r = position_where(&self.profiles, meets, Ghost(of_process(pid)));
        assert(forall|j: int|
            0 <= j < self.profiles@.len() ==> of_process(pid)(#[trigger] self.profiles@[j]) == (
            self.profiles@[j].pid == pid));
        r
    }

    fn open_profile(&mut self, pid: u32, name: &str, now: u64) -> (i: usize)
        requires
            old(self).wf(),
        ensures
            final(self).wf(),
            final(self).same_setup(old(self)),
            i == slot(old(self).profiles@, pid),
            i < final(self).profiles@.len(),
            only_changed(old(self).profiles@, final(self).profiles@, i as int),
            was(old(self).profiles@, i as int, final(self).profiles@[i as int], pid, name@, now),
    {
        match self.index_of(pid) {
            Some(i) => i,
            None => {
                let i: usize = self.profiles.len();
                self.profiles.push(ProcessSyscallProfile::new(pid, name.to_string(), now));
                i
            },
        }
    }

    /// Counts a call of a process. Where there is no room for another process,
    /// those that have been idle make room.
    pub fn record_syscall(
        &mut self,
        pid: u32,
        name: &str,
        from_ntdll: bool,
        return_addr: u64,
        ssn: Option<u32>,
        now: u64,
    )
        requires
            old(self).wf(),
            forall|i: int|
                0 <= i < old(self).profiles@.len() ==> (#[trigger] old(
                    self,
                ).profiles@[i]).total_syscalls < u64::MAX,
        ensures
            final(self).wf(),
            final(self).same_setup(old(self)),
            ({
                let kept = with_room(old(self).profiles@, old(self).max_processes, pid, now);
                let i = slot(kept, pid);
                &&& only_changed(kept, final(self).profiles@, i)
                &&& exists|before: ProcessSyscallProfile|
                    {
                        &&& #[trigger] was(kept, i, before, pid, name@, now)
                        &&& before.counted(
                            &final(self).profiles@[i],
                            from_ntdll,
                            return_addr,
                            ssn,
                            now,
                        )
                    }
                &&& final(self).profiles@[i].anomaly_score
                    == final(self).profiles@[i].current_anomaly()
            }),
    {
        self.make_room(pid, now);
        let ghost slots = self.profiles@;
        let i: usize = self.open_profile(pid, name, now);
        let ghost opened = self.profiles@;
        self.profiles[i].record_syscall(from_ntdll, return_addr, ssn, now);
        assert(was(slots, i as int, opened[i as int], pid, name@, now));
        assert(distinct_pids(self.profiles@)) by {
            assert forall|a: int, b: int| 0 <= a < b < self.profiles@.len() implies (
            #[trigger] self.profiles@[a]).pid != (#[trigger] self.profiles@[b]).pid by {
                assert(opened[a].pid != opened[b].pid);
            }
        }
    }

    fn make_room(&mut self, pid: u32, now: u64)
        requires
            old(self).wf(),
        ensures
            final(self).wf(),
            final(self).same_setup(old(self)),
            final(self).profiles@ == with_room(
                old(self).profiles@,
                old(self).max_processes,
                pid,
                now,
            ),
            forall|i: int|
                0 <= i < final(self).profiles@.len() ==> old(self).profiles@.contains(
                    #[trigger] final(self).profiles@[i],
                ),
    {
        if self.profiles.len() >= self.max_processes && self.index_of(pid).is_none() {
            let ghost p = is_active(now);
            let ghost all = self.profiles@;
            proof {
                lemma_filter_members(all, p);
                let key = |p: ProcessSyscallProfile| p.pid;
                assert forall|i: int, j: int| 0 <= i < j < all.len() implies key(
                    #[trigger] all[i],
                ) != key(#[trigger] all[j]) by {
                    assert(all[i].pid != all[j].pid);
                }
                lemma_filter_distinct(all, p, key);
                let kept = all.filter(p);
                assert forall|i: int, j: int| 0 <= i < j < kept.len() implies (
                #[trigger] kept[i]).pid != (#[trigger] kept[j]).pid by {
                    assert(key(kept[i]) != key(kept[j]));
                }
            }
            let keep = |p: &ProcessSyscallProfile| -> (b: bool)
                ensures
                    b == (p.last_seen > now - PROFILE_IDLE_MS),
                { active_since(p.last_seen, now) };
            retain(&mut self.profiles, keep, Ghost(p));
            let ghost active = self.profiles@;
            let ghost mut gone: int = 0;
            assert(active.skip(0) =~= active);
            while self.profiles.len() > 0 && self.profiles.len() >= self.max_processes
                invariant
                    0 <= gone <= active.len(),
                    self.profiles@ == active.skip(gone),
                    gone > 0 ==> active.len() - gone + 1 >= self.max_processes,
                    self.same_setup(old(self)),
                decreases self.profiles@.len(),
            {
                self.profiles.remove(0);
                proof {
                    assert(self.profiles@ =~= active.skip(gone + 1));
                    gone = gone + 1;
                }
            }
            proof {
                assert(self.profiles@ =~= last_but_one(active, self.max_processes));
                assert forall|i: int| 0 <= i < self.profiles@.len() implies all.contains(
                    #[trigger] self.profiles@[i],
                ) by {
                    assert(self.profiles@[i] == active[gone + i]);
                }
                assert forall|a: int, b: int| 0 <= a < b < self.profiles@.len() implies (
                #[trigger] self.profiles@[a]).pid != (#[trigger] self.profiles@[b]).pid by {
                    assert(active[gone + a].pid != active[gone + b].pid);
                }
            }
        }
    }

    /// Notes a process's read of the system library's memory.
    pub fn record_ntdll_read(&mut self, pid: u32, name: &str, read: NtdllReadEvent, now: u64)
        requires
            old(self).wf(),
        ensures
            final(self).wf(),
            final(self).same_setup(old(self)),
            ({
                let kept = with_room(old(self).profiles@, old(self).max_processes, pid, now);
                let i = slot(kept, pid);
                &&& only_changed(kept, final(self).profiles@, i)
                &&& exists|before: ProcessSyscallProfile|
                    {
                        &&& #[trigger] was(kept, i, before, pid, name@, now)
                        &&& before.noted(&final(self).profiles@[i], read, now)
                    }
            }),
    {
        self.make_room(pid, now);
        let ghost slots = self.profiles@;
        let i: usize = self.open_profile(pid, name, now);
        let ghost opened = self.profiles@;
        self.profiles[i].record_ntdll_read(read, now);
        assert(was(slots, i as int, opened[i as int], pid, name@, now));
        assert(distinct_pids(self.profiles@)) by {
            assert forall|a: int, b: int| 0 <= a < b < self.profiles@.len() implies (
            #[trigger] self.profiles@[a]).pid != (#[trigger] self.profiles@[b]).pid by {
                assert(opened[a].pid != opened[b].pid);
            }
        }
    }

    /// The anomaly score of a process.
    pub fn get_anomaly_score(&self, pid: u32) -> (r: Option<u32>)
        ensures
            r == match profile_index(self.profiles@, pid) {
                Some(i) => Some(self.profiles@[i].anomaly_score),
                None => None,
            },
    {
        match self.index_of(pid) {
            Some(i) => Some(self.profiles[i].anomaly_score),
            None => None,
        }
    }

    /// Whether a process seems to scan the system library.
    pub fn is_process_scanning_ntdll(&self, pid: u32) -> (r: bool)
        ensures
            r == match profile_index(self.profiles@, pid) {
                Some(i) => looks_like_scan(self.profiles@[i].ntdll_reads@),
                None => false,
            },
    {
        match self.index_of(pid) {
            Some(i) => self.profiles[i].is_scanning_ntdll(),
            None => false,
        }
    }

    /// Forgets a process.
    pub fn remove_profile(&mut self, pid: u32)
        requires
            old(self).wf(),
        ensures
            final(self).wf(),
            final(self).same_setup(old(self)),
            final(self).profiles@ == match profile_index(old(self).profiles@, pid) {
                Some(i) => old(self).profiles@.remove(i),
                None => old(self).profiles@,
            },
    {
        if let Some(i) = self.index_of(pid) {
            let ghost before = self.profiles@;
            self.profiles.remove(i);
            assert forall|a: int, b: int| 0 <= a < b < self.profiles@.len() implies (
            #[trigger] self.profiles@[a]).pid != (#[trigger] self.profiles@[b]).pid by {
                let x = if a < i { a } else { a + 1 };
                let y = if b < i { b } else { b + 1 };
                assert(before[x].pid != before[y].pid);
            }
        }
    }

    /// The number of profiles, and of those with a score over a half.
    pub fn get_stats(&self) -> (r: (usize, usize))
        ensures
            r.0 == self.profiles@.len(),
            r.1 == self.profiles@.filter(
                |p: ProcessSyscallProfile| p.anomaly_score > 500_000,
            ).len(),
    {
        let meets = |p: &ProcessSyscallProfile| -> (b: bool)
            ensures
                b == (p.anomaly_score > 500_000),
            { p.anomaly_score > 500_000 };
        let suspicious: usize = count_where(
            &self.profiles,
            meets,
            Ghost(|p: ProcessSyscallProfile| p.anomaly_score > 500_000),
        );
        (self.profiles.len(), suspicious)
    }
}

fn active_since(last_seen: u64, now: u64) -> (r: bool)
    ensures
        r == (last_seen > now - PROFILE_IDLE_MS),
{
    now < PROFILE_IDLE_MS || last_seen > now - PROFILE_IDLE_MS
}

impl Default for IndirectSyscallAnalyzer {
    fn default() -> (a: IndirectSyscallAnalyzer)
        ensures
            a.wf(),
            a.profiles@ == Seq::<ProcessSyscallProfile>::empty(),
            a.max_processes == 1000,
            a.confidence_threshold == 700_000,
            a.deep_scan_enabled,
            a.ntdll_base is None,
            a.ntdll_size is None,
            a.ntdll_text_bounds is None,
            a.ssn_table@ == Seq::<(u32, String)>::empty(),
    {
        IndirectSyscallAnalyzer::new()
    }
}

/// A region of another process's memory, as the system describes it.
pub struct RegionInfo {
    pub base: u64,
    pub size: u64,
    pub is_private: bool,
    pub is_committed: bool,
    pub protection: u32,
}

/// Whether a protection lets code run, and be read.
pub open spec fn is_executable_readable(protection: u32) -> bool {
    protection == 0x20 || protection == 0x40 || protection == 0x80
}

/// The highest address at which regions are looked for.
pub const MAX_SCAN_ADDRESS: u64 = 0x7FFF_FFFF_FFFF;

/// How much of a region is read at most.
pub const MAX_REGION_READ: u64 = 0x10000;

/// The scanner of all processes' memory: which regions it has read.
pub struct MemoryScanner {
    pub scanned: Vec<(u32, u64)>,
}

impl MemoryScanner {
    /// A scanner that has read nothing.
    pub fn new() -> (s: MemoryScanner)
        ensures
            s.scanned@ == Seq::<(u32, u64)>::empty(),
    {
        MemoryScanner { scanned: Vec::new() }
    }

    /// Whether a process is one to scan: not one of the system's.
    pub fn is_target(pid: u32) -> (r: bool)
        ensures
            r == (pid >= 10),
    {
        pid >= 10
    }

    /// Whether a region has been read.
    pub fn has_scanned(&self, pid: u32, base: u64) -> (r: bool)
        ensures
            r == self.scanned@.contains((pid, base)),
    {
        let mut i: usize = 0;
        while i < self.scanned.len()
            invariant
                i <= self.scanned@.len(),
                forall|j: int| 0 <= j < i ==> self.scanned@[j] != (pid, base),
            decreases self.scanned@.len() - i,
        {
            let entry = self.scanned[i];
            if entry.0 == pid && entry.1 == base {
                assert(self.scanned@[i as int] == (pid, base));
                return true;
            }
            i += 1;
        }
        false
    }

    /// How many bytes of a region to read, where it is to be read: private,
    /// committed, executable and not read before.
    pub fn bytes_to_read(&self, pid: u32, region: &RegionInfo) -> (r: Option<u64>)
        ensures
            r == if region.is_private && region.is_committed && is_executable_readable(
                region.protection,
            ) && region.size > 0 && !self.scanned@.contains((pid, region.base)) {
                Some(
                    if region.size < MAX_REGION_READ {
                        region.size
                    } else {
                        MAX_REGION_READ
                    },
                )
            } else {
                None
            },
    {
        let executable = region.protection == 0x20 || region.protection == 0x40
            || region.protection == 0x80;
        if region.is_private && region.is_committed && executable && region.size > 0
            && !self.has_scanned(pid, region.base) {
            if region.size < MAX_REGION_READ {
                Some(region.size)
            } else {
                Some(MAX_REGION_READ)
            }
        } else {
            None
        }
    }

    /// Where the next region is looked for; nowhere past the highest address.
    pub fn next_address(region: &RegionInfo) -> (r: Option<u64>)
        ensures
            r == if region.base + region.size < MAX_SCAN_ADDRESS {
                Some((region.base + region.size) as u64)
            } else {
                None
            },
    {
        if region.base < MAX_SCAN_ADDRESS && region.size < MAX_SCAN_ADDRESS - region.base {
            Some(region.base + region.size)
        } else {
            None
        }
    }

    /// Takes in what was read of a region: the events that report what the
    /// analyzer finds there. A region of which nothing could be read is tried
    /// again.
    pub fn take_region(
        &mut self,
        analyzer: &IndirectSyscallAnalyzer,
        pid: u32,
        process_name: &str,
        process_path: &str,
        cmdline: &str,
        region: &RegionInfo,
        memory: &[u8],
    ) -> (events: Vec<TelemetryEvent>)
        requires
            region.base + memory@.len() <= u64::MAX,
        ensures
            memory@.len() == 0 ==> events@.len() == 0 && final(self).scanned@ == old(self).scanned@,
            memory@.len() > 0 ==> {
                let found_events = if analyzer.spec_in_ntdll(region.base) {
                    Seq::empty()
                } else {
                    region_events(
                        analyzer.ssn_table@,
                        analyzer.confidence_threshold,
                        RegionModel {
                            pid,
                            base: region.base,
                            size: region.size,
                            process_name: process_name@,
                        },
                        memory@,
                        syscall_patterns(),
                    )
                };
                &&& final(self).scanned@ == (if old(self).scanned@.contains((pid, region.base)) {
                    old(self).scanned@
                } else {
                    old(self).scanned@.push((pid, region.base))
                })
                &&& events@.len() == found_events.len()
                &&& forall|i: int|
                    0 <= i < events@.len() ==> reports(
                        #[trigger] events@[i],
                        (SyscallEventModel {
                            process_path: process_path@,
                            cmdline: cmdline@,
                            ..found_events[i]
                        }),
                    )
            },
    {
        let mut events: Vec<TelemetryEvent> = Vec::new();
        if memory.len() == 0 {
            return events;
        }
        let detections = analyzer.analyze_memory_region(
            pid,
            region.base,
            region.size,
            memory,
            process_name,
        );
        let ghost found_events = events_view(detections@);
        let mut i: usize = 0;
        while i < detections.len()
            invariant
                i <= detections@.len(),
                events@.len() == i,
                found_events == events_view(detections@),
                forall|j: int|
                    0 <= j < i ==> reports(
                        #[trigger] events@[j],
                        (SyscallEventModel {
                            process_path: process_path@,
                            cmdline: cmdline@,
                            ..found_events[j]
                        }),
                    ),
            decreases detections@.len() - i,
        {
            let d = with_origin(&detections[i], process_path, cmdline);
            assert(found_events[i as int] == detections@[i as int]@);
            events.push(IndirectSyscallAnalyzer::create_telemetry_event(&d));
            i += 1;
        }
        if !self.has_scanned(pid, region.base) {
            self.scanned.push((pid, region.base));
        }
        events
    }

    /// Ends a pass over all processes: too long a list of regions is dropped.
    pub fn end_pass(&mut self)
        ensures
            final(self).scanned@ == if old(self).scanned@.len() > 50_000 {
                Seq::empty()
            } else {
                old(self).scanned@
            },
    {
        if self.scanned.len() > 50_000 {
            self.scanned = Vec::new();
        }
    }
}

fn with_origin(e: &IndirectSyscallEvent, process_path: &str, cmdline: &str) -> (r:
    IndirectSyscallEvent)
    ensures
        r@ == (SyscallEventModel { process_path: process_path@, cmdline: cmdline@, ..e@ }),
{
    IndirectSyscallEvent {
        technique: e.technique,
        pid: e.pid,
        tid: e.tid,
        process_name: e.process_name.clone(),
        process_path: process_path.to_string(),
        cmdline: cmdline.to_string(),
        user: e.user.clone(),
        ssn: e.ssn,
        syscall_name: opt_copy(&e.syscall_name),
        return_address: e.return_address,
        return_module: opt_copy(&e.return_module),
        syscall_instruction_addr: e.syscall_instruction_addr,
        from_ntdll: e.from_ntdll,
        stub_region_base: e.stub_region_base,
        stub_region_size: e.stub_region_size,
        stub_region_protection: opt_copy(&e.stub_region_protection),
        matched_pattern: opt_copy(&e.matched_pattern),
        pattern_name: opt_copy(&e.pattern_name),
        indicators: copies(&e.indicators),
        confidence: e.confidence,
        details: e.details.clone(),
    }
}

/// Every reported match is at least as sure as the threshold asks.
pub proof fn law_reports_meet_threshold(
    table: Seq<(u32, String)>,
    threshold: u32,
    region: RegionModel,
    memory: Seq<u8>,
    patterns: Seq<SyscallPatternModel>,
)
    ensures
        forall|i: int|
            0 <= i < region_events(table, threshold, region, memory, patterns).len() ==> (
            #[trigger] region_events(table, threshold, region, memory, patterns)[i]).confidence
                >= threshold,
    decreases patterns.len(),
{
    if patterns.len() > 0 {
        law_reports_meet_threshold(table, threshold, region, memory, patterns.drop_last());
        lemma_pattern_events_meet_threshold(
            table,
            threshold,
            region,
            memory,
            patterns.last(),
            positions_below(memory, patterns.last().bytes, memory.len()),
        );
    }
}

proof fn lemma_pattern_events_meet_threshold(
    table: Seq<(u32, String)>,
    threshold: u32,
    region: RegionModel,
    memory: Seq<u8>,
    p: SyscallPatternModel,
    positions: Seq<usize>,
)
    ensures
        forall|i: int|
            0 <= i < pattern_events(table, threshold, region, memory, p, positions).len() ==> (
            #[trigger] pattern_events(
                table,
                threshold,
                region,
                memory,
                p,
                positions,
            )[i]).confidence >= threshold,
    decreases positions.len(),
{
    if positions.len() > 0 {
        lemma_pattern_events_meet_threshold(
            table,
            threshold,
            region,
            memory,
            p,
            positions.drop_last(),
        );
    }
}

/// A process that was forgotten has no profile.
pub proof fn law_forgotten_process_has_no_profile(profiles: Seq<ProcessSyscallProfile>, pid: u32)
    requires
        distinct_pids(profiles),
        profile_index(profiles, pid) is Some,
    ensures
        profile_index(profiles.remove(profile_index(profiles, pid)->0), pid) is None,
{
    lemma_first_index(profiles, of_process(pid));
    let i = profile_index(profiles, pid)->0;
    let rest = profiles.remove(i);
    lemma_first_index(rest, of_process(pid));
    if profile_index(rest, pid) is Some {
        let k = profile_index(rest, pid)->0;
        let x = if k < i { k } else { k + 1 };
        assert(profiles[x] == rest[k]);
        if x < i {
            assert(profiles[x].pid != profiles[i].pid);
        } else {
            assert(profiles[i].pid != profiles[x].pid);
        }
    }
}

/// No more processes are followed than allowed, where any are, whatever is noted.
pub proof fn law_profiles_are_bounded(
    profiles: Seq<ProcessSyscallProfile>,
    after: Seq<ProcessSyscallProfile>,
    max: usize,
    pid: u32,
    now: u64,
)
    requires
        1 <= max,
        profiles.len() <= max,
        only_changed(
            with_room(profiles, max, pid, now),
            after,
            slot(with_room(profiles, max, pid, now), pid),
        ),
    ensures
        after.len() <= max,
{
    lemma_first_index(profiles, of_process(pid));
    lemma_first_index(with_room(profiles, max, pid, now), of_process(pid));
}

proof fn lemma_position_members(haystack: Seq<u8>, needle: Seq<u8>, n: nat, at: usize)
    requires
        n <= usize::MAX,
    ensures
        positions_below(haystack, needle, n).contains(at) <==> at < n && matches_at(
            haystack,
            needle,
            at as int,
        ),
    decreases n,
{
    if n > 0 {
        lemma_position_members(haystack, needle, (n - 1) as nat, at);
        let before = positions_below(haystack, needle, (n - 1) as nat);
        let after = positions_below(haystack, needle, n);
        if before.contains(at) {
            let k = choose|k: int| 0 <= k < before.len() && before[k] == at;
            assert(after[k] == at);
        }
        if matches_at(haystack, needle, n - 1) {
            assert(after.last() == (n - 1) as usize);
            if after.contains(at) {
                let k = choose|k: int| 0 <= k < after.len() && after[k] == at;
                if k < before.len() {
                    assert(before[k] == at);
                }
            }
        }
    }
}

proof fn lemma_pattern_events(
    table: Seq<(u32, String)>,
    threshold: u32,
    region: RegionModel,
    memory: Seq<u8>,
    p: SyscallPatternModel,
    positions: Seq<usize>,
    e: SyscallEventModel,
)
    ensures
        pattern_events(table, threshold, region, memory, p, positions).contains(e) <==> exists|
            k: int,
        |
            0 <= k < positions.len() && ends_as_asked(memory, p, #[trigger] positions[k] as int)
                && match_event(table, region, memory, p, positions[k] as int).confidence >= threshold
                && e == match_event(table, region, memory, p, positions[k] as int),
    decreases positions.len(),
{
    if positions.len() > 0 {
        let rest = positions.drop_last();
        lemma_pattern_events(table, threshold, region, memory, p, rest, e);
        let before = pattern_events(table, threshold, region, memory, p, rest);
        let after = pattern_events(table, threshold, region, memory, p, positions);
        let last = positions.len() - 1;
        let event = match_event(table, region, memory, p, positions[last] as int);
        let taken = ends_as_asked(memory, p, positions[last] as int) && event.confidence
            >= threshold;
        assert(forall|k: int| 0 <= k < rest.len() ==> #[trigger] rest[k] == positions[k]);
        if before.contains(e) {
            let i = choose|i: int| 0 <= i < before.len() && before[i] == e;
            assert(after[i] == e);
            let k = choose|k: int|
                0 <= k < rest.len() && ends_as_asked(memory, p, #[trigger] rest[k] as int)
                    && match_event(table, region, memory, p, rest[k] as int).confidence >= threshold
                    && e == match_event(table, region, memory, p, rest[k] as int);
            assert(ends_as_asked(memory, p, positions[k] as int));
        }
        if taken {
            assert(after.last() == event);
            if e == event {
                assert(ends_as_asked(memory, p, positions[last] as int));
            }
        }
        if after.contains(e) && !before.contains(e) {
            let i = choose|i: int| 0 <= i < after.len() && after[i] == e;
            if i < before.len() {
                assert(before[i] == e);
            }
            assert(ends_as_asked(memory, p, positions[last] as int));
        }
        if exists|k: int|
            0 <= k < positions.len() && ends_as_asked(memory, p, #[trigger] positions[k] as int)
                && match_event(table, region, memory, p, positions[k] as int).confidence >= threshold
                && e == match_event(table, region, memory, p, positions[k] as int) {
            let k = choose|k: int|
                0 <= k < positions.len() && ends_as_asked(memory, p, #[trigger] positions[k] as int)
                    && match_event(table, region, memory, p, positions[k] as int).confidence
                    >= threshold && e == match_event(table, region, memory, p, positions[k] as int);
            if k < last {
                assert(ends_as_asked(memory, p, rest[k] as int));
                assert(before.contains(e));
            }
        }
    }
}

/// What is reported of a region is what the patterns that stand in it say, wherever they
/// stand, as far as the stub ends as the pattern asks and the match is sure enough.
pub proof fn law_stubs_are_reported(
    table: Seq<(u32, String)>,
    threshold: u32,
    region: RegionModel,
    memory: Seq<u8>,
    patterns: Seq<SyscallPatternModel>,
    e: SyscallEventModel,
)
    requires
        memory.len() <= usize::MAX,
    ensures
        region_events(table, threshold, region, memory, patterns).contains(e) <==> exists|
            i: int,
            at: usize,
        |
            0 <= i < patterns.len() && at < memory.len() && #[trigger] matches_at(
                memory,
                patterns[i].bytes,
                at as int,
            ) && (patterns[i].ending.len() == 0 || matches_at(
                memory,
                patterns[i].ending,
                at + patterns[i].bytes.len() + 4,
            )) && e == match_event(table, region, memory, patterns[i], at as int) && e.confidence
                >= threshold,
    decreases patterns.len(),
{
    if patterns.len() > 0 {
        let rest = patterns.drop_last();
        let p = patterns.last();
        let last = patterns.len() - 1;
        let positions = positions_below(memory, p.bytes, memory.len());
        let before = region_events(table, threshold, region, memory, rest);
        let own = pattern_events(table, threshold, region, memory, p, positions);
        let all = region_events(table, threshold, region, memory, patterns);
        law_stubs_are_reported(table, threshold, region, memory, rest, e);
        lemma_pattern_events(table, threshold, region, memory, p, positions, e);
        assert(forall|k: int| 0 <= k < rest.len() ==> #[trigger] rest[k] == patterns[k]);
        assert(all.contains(e) <==> before.contains(e) || own.contains(e)) by {
            if before.contains(e) {
                let k = choose|k: int| 0 <= k < before.len() && before[k] == e;
                assert(all[k] == e);
            }
            if own.contains(e) {
                let k = choose|k: int| 0 <= k < own.len() && own[k] == e;
                assert(all[before.len() + k] == e);
            }
            if all.contains(e) {
                let k = choose|k: int| 0 <= k < all.len() && all[k] == e;
                if k < before.len() {
                    assert(before[k] == e);
                } else {
                    assert(own[k - before.len()] == e);
                }
            }
        }
        if before.contains(e) {
            let (i, at) = choose|i: int, at: usize|
                0 <= i < rest.len() && at < memory.len() && #[trigger] matches_at(
                    memory,
                    rest[i].bytes,
                    at as int,
                ) && (rest[i].ending.len() == 0 || matches_at(
                    memory,
                    rest[i].ending,
                    at + rest[i].bytes.len() + 4,
                )) && e == match_event(table, region, memory, rest[i], at as int) && e.confidence
                    >= threshold;
            assert(matches_at(memory, patterns[i].bytes, at as int));
        }
        if own.contains(e) {
            let k = choose|k: int|
                0 <= k < positions.len() && ends_as_asked(memory, p, #[trigger] positions[k] as int)
                    && match_event(table, region, memory, p, positions[k] as int).confidence
                    >= threshold && e == match_event(table, region, memory, p, positions[k] as int);
            lemma_position_members(memory, p.bytes, memory.len(), positions[k]);
            assert(positions.contains(positions[k]));
            assert(matches_at(memory, patterns[last].bytes, positions[k] as int));
        }
        if exists|i: int, at: usize|
            0 <= i < patterns.len() && at < memory.len() && #[trigger] matches_at(
                memory,
                patterns[i].bytes,
                at as int,
            ) && (patterns[i].ending.len() == 0 || matches_at(
                memory,
                patterns[i].ending,
                at + patterns[i].bytes.len() + 4,
            )) && e == match_event(table, region, memory, patterns[i], at as int) && e.confidence
                >= threshold {
            let (i, at) = choose|i: int, at: usize|
                0 <= i < patterns.len() && at < memory.len() && #[trigger] matches_at(
                    memory,
                    patterns[i].bytes,
                    at as int,
                ) && (patterns[i].ending.len() == 0 || matches_at(
                    memory,
                    patterns[i].ending,
                    at + patterns[i].bytes.len() + 4,
                )) && e == match_event(table, region, memory, patterns[i], at as int)
                    && e.confidence >= threshold;
            if i < last {
                assert(matches_at(memory, rest[i].bytes, at as int));
                assert(before.contains(e));
            } else {
                lemma_position_members(memory, p.bytes, memory.len(), at);
                let k = choose|k: int| 0 <= k < positions.len() && positions[k] == at;
                assert(ends_as_asked(memory, p, positions[k] as int));
                assert(own.contains(e));
            }
        }
    }
}

/// How sure a match is: half sure by itself, surer by its technique, by the number of a
/// service, and by a whole stub around it; never more than certain.
pub proof fn law_matches_add_up(
    memory: Seq<u8>,
    offset: int,
    technique: IndirectSyscallTechnique,
    has_ssn: bool,
)
    ensures
        ({
            let weight: int = match technique {
                IndirectSyscallTechnique::SysWhispers2 => 300_000,
                IndirectSyscallTechnique::SysWhispers3 => 300_000,
                IndirectSyscallTechnique::HellsGate => 300_000,
                IndirectSyscallTechnique::HalosGate => 300_000,
                IndirectSyscallTechnique::GenericDirect => 200_000,
                IndirectSyscallTechnique::GenericIndirect => 200_000,
                _ => 100_000,
            };
            let region = memory.subrange(
                if offset < 10 {
                    0
                } else {
                    offset - 10
                },
                if offset + 20 < memory.len() {
                    offset + 20
                } else {
                    memory.len() as int
                },
            );
            let whole = offset >= 4 && offset + 10 < memory.len() && found(
                region,
                seq![0x4C, 0x8B, 0xD1],
            ) && found(region, seq![0xB8]) && (found(region, seq![0x0F, 0x05]) || found(
                region,
                seq![0xFF, 0xE0],
            ) || found(region, seq![0x41, 0xFF]));
            let sum = 500_000 + weight + (if has_ssn {
                150_000int
            } else {
                0
            }) + (if whole {
                100_000int
            } else {
                0
            });
            match_confidence(memory, offset, technique, has_ssn) == if sum < 1_000_000 {
                sum
            } else {
                1_000_000
            }
        }),
{
}

/// The number of a service that goes with a pattern in front of it is the one that is
/// loaded next behind it, within eight bytes; with any other, the one that the nearest
/// instruction within twenty bytes in front of it loads. No number is above 0x2FF.
pub proof fn law_numbers_are_the_nearest(memory: Seq<u8>, start: int, i: int, n: int)
    ensures
        0 <= i <= n ==> match ssn_forward(memory, start, i, n) {
            Some(ssn) => ssn < 0x300 && exists|k: int|
                i <= k < n && #[trigger] memory[start + k] == 0xB8 && le32(memory, start + k + 1)
                    == ssn && forall|j: int|
                    i <= j < k ==> !(#[trigger] memory[start + j] == 0xB8 && le32(
                        memory,
                        start + j + 1,
                    ) < 0x300),
            None => forall|k: int|
                i <= k < n ==> !(#[trigger] memory[start + k] == 0xB8 && le32(
                    memory,
                    start + k + 1,
                ) < 0x300),
        },
    decreases n - i,
{
    if 0 <= i < n && !(memory[start + i] == 0xB8 && le32(memory, start + i + 1) < 0x300) {
        law_numbers_are_the_nearest(memory, start, i + 1, n);
        if ssn_forward(memory, start, i + 1, n) is Some {
            let ssn = ssn_forward(memory, start, i + 1, n)->0;
            let k = choose|k: int|
                i + 1 <= k < n && #[trigger] memory[start + k] == 0xB8 && le32(
                    memory,
                    start + k + 1,
                ) == ssn && forall|j: int|
                    i + 1 <= j < k ==> !(#[trigger] memory[start + j] == 0xB8 && le32(
                        memory,
                        start + j + 1,
                    ) < 0x300);
            assert(memory[start + k] == 0xB8);
        }
    } else if 0 <= i < n {
        assert(memory[start + i] == 0xB8);
    }
}

/// The number in front of a match is that of the nearest instruction that loads one.
pub proof fn law_numbers_in_front_are_the_nearest(memory: Seq<u8>, offset: int, k: int, n: int)
    ensures
        match ssn_backward(memory, offset, k, n) {
            Some(ssn) => ssn < 0x300 && exists|i: int|
                k <= i <= n && #[trigger] memory[offset - i] == 0xB8 && offset - i + 5
                    <= memory.len() && le32(memory, offset - i + 1) == ssn && forall|j: int|
                    k <= j < i ==> !(#[trigger] memory[offset - j] == 0xB8 && offset - j + 5
                        <= memory.len() && le32(memory, offset - j + 1) < 0x300),
            None => forall|i: int|
                k <= i <= n ==> !(#[trigger] memory[offset - i] == 0xB8 && offset - i + 5
                    <= memory.len() && le32(memory, offset - i + 1) < 0x300),
        },
    decreases n - k + 1,
{
    if k <= n {
        if memory[offset - k] == 0xB8 && offset - k + 5 <= memory.len() && le32(
            memory,
            offset - k + 1,
        ) < 0x300 {
            assert(memory[offset - k] == 0xB8);
        } else {
            law_numbers_in_front_are_the_nearest(memory, offset, k + 1, n);
            if ssn_backward(memory, offset, k + 1, n) is Some {
                let ssn = ssn_backward(memory, offset, k + 1, n)->0;
                let i = choose|i: int|
                    k + 1 <= i <= n && #[trigger] memory[offset - i] == 0xB8 && offset - i + 5
                        <= memory.len() && le32(memory, offset - i + 1) == ssn && forall|j: int|
                        k + 1 <= j < i ==> !(#[trigger] memory[offset - j] == 0xB8 && offset - j + 5
                            <= memory.len() && le32(memory, offset - j + 1) < 0x300);
                assert(memory[offset - i] == 0xB8);
            }
        }
    }
}

/// A process that read the system library more than fifty times lately, at more than
/// thirty different addresses, scans it.
pub proof fn law_many_reads_are_a_scan(reads: Seq<NtdllReadEvent>, picked: Seq<int>)
    requires
        picked.len() > 30,
        forall|i: int| 0 <= i < picked.len() ==> 0 <= #[trigger] picked[i] < reads.len(),
        forall|i: int, j: int|
            0 <= i < j < picked.len() ==> reads[#[trigger] picked[i]].read_address
                != reads[#[trigger] picked[j]].read_address,
    ensures
        looks_like_scan(reads) <==> reads.len() > 50,
{
    let all = reads.map_values(|r: NtdllReadEvent| r.read_address);
    let some = Seq::new(picked.len(), |k: int| all[picked[k]]);
    assert(some.no_duplicates()) by {
        assert forall|i: int, j: int| 0 <= i < j < some.len() implies some[i] != some[j] by {
            assert(reads[picked[i]].read_address != reads[picked[j]].read_address);
        }
    }
    some.unique_seq_to_set();
    all.lemma_cardinality_of_set();
    assert(some.to_set().subset_of(all.to_set())) by {
        assert forall|x: u64| some.to_set().contains(x) implies all.to_set().contains(x) by {
            let k = choose|k: int| 0 <= k < some.len() && some[k] == x;
            assert(all[picked[k]] == x);
        }
    }
    vstd::set_lib::lemma_len_subset(some.to_set(), all.to_set());
}

/// What a profile scores: four tenths of the share of calls from elsewhere, two tenths or
/// one for return addresses that are more than half or a fifth of the calls, two for
/// scanning and two for known techniques.
pub proof fn law_anomalies_add_up(
    total: u64,
    elsewhere: u64,
    addresses: nat,
    scanning: bool,
    techniques: bool,
)
    requires
        elsewhere <= total,
    ensures
        ({
            let score = anomaly(total, elsewhere, addresses, scanning, techniques);
            let rest = (if 2 * addresses > total {
                200_000int
            } else if 5 * addresses > total {
                100_000
            } else {
                0
            }) + (if scanning {
                200_000int
            } else {
                0
            }) + (if techniques {
                200_000int
            } else {
                0
            });
            &&& total == 0 ==> score == 0
            &&& total > 0 ==> (score - rest) * total <= 400_000 * elsewhere && 400_000 * elsewhere
                < (score - rest + 1) * total
        }),
{
    if total > 0 {
        let t = total as int;
        let x = 400_000 * elsewhere;
        let q = x / t;
        assert(q * t <= x && x < (q + 1) * t) by (nonlinear_arith)
            requires
                t > 0,
                q == x / t,
        ;
    }
}

/// Reads of the system library that are older than five seconds, in front of the others,
/// are forgotten, and no others.
pub proof fn law_old_reads_are_forgotten(reads: Seq<NtdllReadEvent>, now: u64)
    ensures
        ({
            let left = without_stale(reads, now);
            &&& left.len() <= reads.len()
            &&& left == reads.skip(reads.len() - left.len())
            &&& left.len() > 0 ==> left[0].timestamp + 5_000 >= now
            &&& forall|i: int|
                0 <= i < reads.len() - left.len() ==> (#[trigger] reads[i]).timestamp + 5_000 < now
        }),
    decreases reads.len(),
{
    let left = without_stale(reads, now);
    if reads.len() > 0 && reads[0].timestamp < now - RECENT_READS_MS {
        let rest = reads.drop_first();
        law_old_reads_are_forgotten(rest, now);
        assert(left =~= reads.skip(reads.len() - left.len()));
        assert forall|i: int| 0 <= i < reads.len() - left.len() implies (
        #[trigger] reads[i]).timestamp + 5_000 < now by {
            if i > 0 {
                assert(rest[i - 1] == reads[i]);
            }
        }
    } else {
        assert(reads.skip(0) =~= reads);
    }
}

/// The code of an image is its first section whose name begins as that of code does, with
/// where it lies and how long it is; an image without one has none.
pub proof fn law_the_first_code_section_is_taken(
    image: Seq<u8>,
    base: u64,
    pe: int,
    from: int,
    i: int,
    n: int,
)
    requires
        0 <= from <= i <= n,
        forall|j: int|
            from <= j < i ==> #[trigger] image_section(image, pe, j) + 40 <= image.len()
                && !matches_at(
                image,
                seq![0x2Eu8, 0x74, 0x65, 0x78, 0x74],
                image_section(image, pe, j),
            ),
    ensures
        i == n ==> text_section_from(image, base, pe, from, n) is None,
        i < n && image_section(image, pe, i) + 40 > image.len() ==> text_section_from(
            image,
            base,
            pe,
            from,
            n,
        ) is None,
        i < n && image_section(image, pe, i) + 40 <= image.len() && matches_at(
            image,
            seq![0x2Eu8, 0x74, 0x65, 0x78, 0x74],
            image_section(image, pe, i),
        ) ==> text_section_from(image, base, pe, from, n) == Some(
            (
                base + le32(image, image_section(image, pe, i) + 12),
                le32(image, image_section(image, pe, i) + 8) as nat,
            ),
        ),
    decreases i - from,
{
    if from < i {
        assert(image_section(image, pe, from) + 40 <= image.len());
        law_the_first_code_section_is_taken(image, base, pe, from + 1, i, n);
    }
}

/// An image is one that has the two marks of an executable, where its header says that the
/// second stands.
pub proof fn law_images_have_their_marks(image: Seq<u8>, base: u64)
    ensures
        image.len() < 64 || image[0] != 0x4D || image[1] != 0x5A ==> text_section(
            image,
            base,
        ) is None,
        image.len() >= 64 && le32(image, 0x3C) + 24 <= image.len() && (image[le32(image, 0x3C)]
            != 0x50 || image[le32(image, 0x3C) + 1] != 0x45) ==> text_section(image, base) is None,
{
}

/// Whether a pattern stands in memory at a position, with the ending that it asks for, if
/// any, behind the four bytes of a number.
pub open spec fn stub_stands(memory: Seq<u8>, bytes: Seq<u8>, ending: Seq<u8>, at: int) -> bool {
    matches_at(memory, bytes, at) && (ending.len() == 0 || matches_at(
        memory,
        ending,
        at + bytes.len() + 4,
    ))
}

/// Whether a pattern of a technique is among what was reported.
pub open spec fn tells_of(
    v: Seq<SyscallEventModel>,
    name: Seq<char>,
    technique: IndirectSyscallTechnique,
) -> bool {
    exists|k: int|
        0 <= k < v.len() && (#[trigger] v[k]).pattern_name == Some(name) && v[k].technique
            == technique
}

proof fn lemma_known_stub(
    table: Seq<(u32, String)>,
    region: RegionModel,
    memory: Seq<u8>,
    i: int,
    at: usize,
)
    requires
        memory.len() <= usize::MAX,
        at < memory.len(),
        0 <= i < syscall_patterns().len(),
        stub_stands(memory, syscall_patterns()[i].bytes, syscall_patterns()[i].ending, at as int),
    ensures
        tells_of(
            region_events(table, 0, region, memory, syscall_patterns()),
            syscall_patterns()[i].name,
            syscall_patterns()[i].technique,
        ),
{
    let patterns = syscall_patterns();
    let e = match_event(table, region, memory, patterns[i], at as int);
    law_stubs_are_reported(table, 0, region, memory, patterns, e);
    assert(matches_at(memory, patterns[i].bytes, at as int));
    let v = region_events(table, 0, region, memory, patterns);
    let k = choose|k: int| 0 <= k < v.len() && v[k] == e;
    assert(v[k].pattern_name == Some(patterns[i].name));
}

/// Each of the known stubs is reported, as of its technique, wherever it stands in a region,
/// where whatever is found is sure enough.
pub proof fn law_known_stubs_are_reported(
    table: Seq<(u32, String)>,
    region: RegionModel,
    memory: Seq<u8>,
    at: usize,
)
    requires
        memory.len() <= usize::MAX,
        at < memory.len(),
    ensures
        ({
            let told = region_events(table, 0, region, memory, syscall_patterns());
            &&& stub_stands(memory, seq![0x4Cu8, 0x8B, 0xD1, 0xB8], seq![0x0Fu8, 0x05], at as int) ==> tells_of(
                told,
                "syswhispers2_direct"@,
                IndirectSyscallTechnique::SysWhispers2,
            )
            &&& stub_stands(memory, seq![0x4Cu8, 0x8B, 0xD1, 0xB8], seq![0x41u8, 0xFF, 0xE3], at as int) ==> tells_of(
                told,
                "syswhispers3_jmp_r11"@,
                IndirectSyscallTechnique::SysWhispers3,
            )
            &&& stub_stands(memory, seq![0x41u8, 0xFF, 0xD3], Seq::empty(), at as int) ==> tells_of(
                told,
                "syswhispers3_call_r11"@,
                IndirectSyscallTechnique::SysWhispers3,
            )
            &&& stub_stands(memory, seq![0xFFu8, 0xE0], Seq::empty(), at as int) ==> tells_of(
                told,
                "syswhispers3_jmp_rax"@,
                IndirectSyscallTechnique::SysWhispers3,
            )
            &&& stub_stands(memory, seq![0x8Bu8, 0x40, 0x04], Seq::empty(), at as int) ==> tells_of(
                told,
                "hells_gate_ssn_read"@,
                IndirectSyscallTechnique::HellsGate,
            )
            &&& stub_stands(memory, seq![0x4Au8, 0x8B, 0x04, 0xC0], Seq::empty(), at as int) ==> tells_of(
                told,
                "hells_gate_export_walk"@,
                IndirectSyscallTechnique::HellsGate,
            )
            &&& stub_stands(memory, seq![0x66u8, 0x81, 0x38, 0x0F, 0x05], Seq::empty(), at as int) ==> tells_of(
                told,
                "halos_gate_syscall_check"@,
                IndirectSyscallTechnique::HalosGate,
            )
            &&& stub_stands(memory, seq![0x80u8, 0x38, 0x4C], Seq::empty(), at as int) ==> tells_of(
                told,
                "halos_gate_stub_check"@,
                IndirectSyscallTechnique::HalosGate,
            )
            &&& stub_stands(memory, seq![0x80u8, 0x38, 0xE9], Seq::empty(), at as int) ==> tells_of(
                told,
                "halos_gate_hook_detect"@,
                IndirectSyscallTechnique::HalosGate,
            )
            &&& stub_stands(memory, seq![0x48u8, 0x8B, 0x41, 0x10, 0x4C, 0x8B, 0x40], Seq::empty(), at as int) ==> tells_of(
                told,
                "tartarus_gate_resolve"@,
                IndirectSyscallTechnique::TartarusGate,
            )
            &&& stub_stands(memory, seq![0x65u8, 0x48, 0x8B, 0x04, 0x25, 0x30, 0x00, 0x00, 0x00], Seq::empty(), at as int) ==> tells_of(
                told,
                "freshycalls_teb_access"@,
                IndirectSyscallTechnique::FreshyCalls,
            )
            &&& stub_stands(memory, seq![0x65u8, 0x4C, 0x8B, 0x14, 0x25, 0x30, 0x00], Seq::empty(), at as int) ==> tells_of(
                told,
                "freshycalls_tls"@,
                IndirectSyscallTechnique::FreshyCalls,
            )
            &&& stub_stands(memory, seq![0x48u8, 0x89, 0x4C, 0x24, 0x08, 0x48, 0x8B, 0xC1], Seq::empty(), at as int) ==> tells_of(
                told,
                "recycled_gate_save"@,
                IndirectSyscallTechnique::RecycledGate,
            )
            &&& stub_stands(memory, seq![0x0Fu8, 0x23, 0xF8], Seq::empty(), at as int) ==> tells_of(
                told,
                "hw_syscalls_dr7"@,
                IndirectSyscallTechnique::HwSyscalls,
            )
            &&& stub_stands(memory, seq![0x0Fu8, 0x23, 0xC0], Seq::empty(), at as int) ==> tells_of(
                told,
                "hw_syscalls_dr0"@,
                IndirectSyscallTechnique::HwSyscalls,
            )
            &&& stub_stands(memory, seq![0x0Fu8, 0x05], Seq::empty(), at as int) ==> tells_of(
                told,
                "direct_syscall"@,
                IndirectSyscallTechnique::GenericDirect,
            )
            &&& stub_stands(memory, seq![0xCDu8, 0x2E], Seq::empty(), at as int) ==> tells_of(
                told,
                "int2e_syscall"@,
                IndirectSyscallTechnique::GenericDirect,
            )
            &&& stub_stands(memory, seq![0x0Fu8, 0x34], Seq::empty(), at as int) ==> tells_of(
                told,
                "sysenter"@,
                IndirectSyscallTechnique::GenericDirect,
            )
            &&& stub_stands(memory, seq![0x6Au8, 0x33, 0xE8, 0x00, 0x00, 0x00, 0x00, 0x83, 0x04, 0x24, 0x05, 0xCB], Seq::empty(), at as int) ==> tells_of(
                told,
                "heavens_gate"@,
                IndirectSyscallTechnique::Unknown,
            )
            &&& stub_stands(memory, seq![0x58u8, 0xC3], Seq::empty(), at as int) ==> tells_of(
                told,
                "rop_pop_rax_ret"@,
                IndirectSyscallTechnique::RopSyscall,
            )
            &&& stub_stands(memory, seq![0x4Cu8, 0x8B, 0xD1, 0xC3], Seq::empty(), at as int) ==> tells_of(
                told,
                "rop_mov_r10_ret"@,
                IndirectSyscallTechnique::RopSyscall,
            )
            &&& stub_stands(memory, seq![0x0Fu8, 0x05, 0xC3], Seq::empty(), at as int) ==> tells_of(
                told,
                "rop_syscall_ret"@,
                IndirectSyscallTechnique::RopSyscall,
            )
        }),
{
    let patterns = syscall_patterns();
    let told = region_events(table, 0, region, memory, patterns);
    assert forall|i: int|
        0 <= i < patterns.len() && stub_stands(
            memory,
            (#[trigger] patterns[i]).bytes,
            patterns[i].ending,
            at as int,
        ) implies tells_of(told, patterns[i].name, patterns[i].technique) by {
        lemma_known_stub(table, region, memory, i, at);
    }
    assert(patterns[0].name == "syswhispers2_direct"@ && patterns[0].bytes == seq![0x4Cu8, 0x8B, 0xD1, 0xB8] && patterns[0].ending
        == seq![0x0Fu8, 0x05]);
    assert(patterns[1].name == "syswhispers3_jmp_r11"@ && patterns[1].bytes == seq![0x4Cu8, 0x8B, 0xD1, 0xB8] && patterns[1].ending
        == seq![0x41u8, 0xFF, 0xE3]);
    assert(patterns[2].name == "syswhispers3_call_r11"@ && patterns[2].bytes == seq![0x41u8, 0xFF, 0xD3] && patterns[2].ending
        == Seq::<u8>::empty());
    assert(patterns[3].name == "syswhispers3_jmp_rax"@ && patterns[3].bytes == seq![0xFFu8, 0xE0] && patterns[3].ending
        == Seq::<u8>::empty());
    assert(patterns[4].name == "hells_gate_ssn_read"@ && patterns[4].bytes == seq![0x8Bu8, 0x40, 0x04] && patterns[4].ending
        == Seq::<u8>::empty());
    assert(patterns[5].name == "hells_gate_export_walk"@ && patterns[5].bytes == seq![0x4Au8, 0x8B, 0x04, 0xC0] && patterns[5].ending
        == Seq::<u8>::empty());
    assert(patterns[6].name == "halos_gate_syscall_check"@ && patterns[6].bytes == seq![0x66u8, 0x81, 0x38, 0x0F, 0x05] && patterns[6].ending
        == Seq::<u8>::empty());
    assert(patterns[7].name == "halos_gate_stub_check"@ && patterns[7].bytes == seq![0x80u8, 0x38, 0x4C] && patterns[7].ending
        == Seq::<u8>::empty());
    assert(patterns[8].name == "halos_gate_hook_detect"@ && patterns[8].bytes == seq![0x80u8, 0x38, 0xE9] && patterns[8].ending
        == Seq::<u8>::empty());
    assert(patterns[9].name == "tartarus_gate_resolve"@ && patterns[9].bytes == seq![0x48u8, 0x8B, 0x41, 0x10, 0x4C, 0x8B, 0x40] && patterns[9].ending
        == Seq::<u8>::empty());
    assert(patterns[10].name == "freshycalls_teb_access"@ && patterns[10].bytes == seq![0x65u8, 0x48, 0x8B, 0x04, 0x25, 0x30, 0x00, 0x00, 0x00] && patterns[10].ending
        == Seq::<u8>::empty());
    assert(patterns[11].name == "freshycalls_tls"@ && patterns[11].bytes == seq![0x65u8, 0x4C, 0x8B, 0x14, 0x25, 0x30, 0x00] && patterns[11].ending
        == Seq::<u8>::empty());
    assert(patterns[12].name == "recycled_gate_save"@ && patterns[12].bytes == seq![0x48u8, 0x89, 0x4C, 0x24, 0x08, 0x48, 0x8B, 0xC1] && patterns[12].ending
        == Seq::<u8>::empty());
    assert(patterns[13].name == "hw_syscalls_dr7"@ && patterns[13].bytes == seq![0x0Fu8, 0x23, 0xF8] && patterns[13].ending
        == Seq::<u8>::empty());
    assert(patterns[14].name == "hw_syscalls_dr0"@ && patterns[14].bytes == seq![0x0Fu8, 0x23, 0xC0] && patterns[14].ending
        == Seq::<u8>::empty());
    assert(patterns[15].name == "direct_syscall"@ && patterns[15].bytes == seq![0x0Fu8, 0x05] && patterns[15].ending
        == Seq::<u8>::empty());
    assert(patterns[16].name == "int2e_syscall"@ && patterns[16].bytes == seq![0xCDu8, 0x2E] && patterns[16].ending
        == Seq::<u8>::empty());
    assert(patterns[17].name == "sysenter"@ && patterns[17].bytes == seq![0x0Fu8, 0x34] && patterns[17].ending
        == Seq::<u8>::empty());
    assert(patterns[18].name == "heavens_gate"@ && patterns[18].bytes == seq![0x6Au8, 0x33, 0xE8, 0x00, 0x00, 0x00, 0x00, 0x83, 0x04, 0x24, 0x05, 0xCB] && patterns[18].ending
        == Seq::<u8>::empty());
    assert(patterns[19].name == "rop_pop_rax_ret"@ && patterns[19].bytes == seq![0x58u8, 0xC3] && patterns[19].ending
        == Seq::<u8>::empty());
    assert(patterns[20].name == "rop_mov_r10_ret"@ && patterns[20].bytes == seq![0x4Cu8, 0x8B, 0xD1, 0xC3] && patterns[20].ending
        == Seq::<u8>::empty());
    assert(patterns[21].name == "rop_syscall_ret"@ && patterns[21].bytes == seq![0x0Fu8, 0x05, 0xC3] && patterns[21].ending
        == Seq::<u8>::empty());
}

} // verus!
