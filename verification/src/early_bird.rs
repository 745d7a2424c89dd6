//! Detection of code that is injected into a process before it starts: the
//! process is created suspended, memory is allocated in it and written, a call is
//! queued to its first thread, and the thread is resumed.
//!
//! Confidences are whole numbers of millionths, times are in milliseconds.
use vstd::prelude::*;

use std::collections::HashSet;

use crate::collect::{first_index, lemma_first_index, retain};
use crate::telemetry::{
    detections_view, Detection, DetectionModel, DetectionType, EventPayload, EventType, Metadata,
    ProcessEvent, Severity, TelemetryEvent,
};
use crate::text::{
    decimal, decimal_text, fraction, fraction_text, hex_upper, hex_upper_text, join, joined,
    opt_text, push_text, same, texts,
};

verus! {

broadcast use vstd::std_specs::hash::group_hash_axioms;

/// The technique of queueing a call to a thread.
pub const APC_TECHNIQUE: &'static str = "T1055.004";

/// How far an injection has got.
#[derive(Clone, Copy, Debug, PartialEq, Eq, Structural)]
pub enum EarlyBirdStage {
    SuspendedProcessCreated,
    MemoryAllocated,
    MemoryWritten,
    ApcQueued,
    ThreadResumed,
    FullSequence,
    ApcTargetUnbacked,
}

impl EarlyBirdStage {
    /// The stage's name.
    pub open spec fn spec_as_str(&self) -> Seq<char> {
        match self {
            EarlyBirdStage::SuspendedProcessCreated => "suspended_process_created"@,
            EarlyBirdStage::MemoryAllocated => "memory_allocated"@,
            EarlyBirdStage::MemoryWritten => "memory_written"@,
            EarlyBirdStage::ApcQueued => "apc_queued"@,
            EarlyBirdStage::ThreadResumed => "thread_resumed"@,
            EarlyBirdStage::FullSequence => "full_sequence"@,
            EarlyBirdStage::ApcTargetUnbacked => "apc_target_unbacked"@,
        }
    }

    /// The stage's name.
    pub fn as_str(&self) -> (r: &'static str)
        ensures
            r@ == self.spec_as_str(),
    {
        match self {
            EarlyBirdStage::SuspendedProcessCreated => "suspended_process_created",
            EarlyBirdStage::MemoryAllocated => "memory_allocated",
            EarlyBirdStage::MemoryWritten => "memory_written",
            EarlyBirdStage::ApcQueued => "apc_queued",
            EarlyBirdStage::ThreadResumed => "thread_resumed",
            EarlyBirdStage::FullSequence => "full_sequence",
            EarlyBirdStage::ApcTargetUnbacked => "apc_target_unbacked",
        }
    }

    /// The stage in words.
    pub open spec fn spec_description(&self) -> Seq<char> {
        match self {
            EarlyBirdStage::SuspendedProcessCreated => "Process created in suspended state"@,
            EarlyBirdStage::MemoryAllocated => "Memory allocated in suspended process"@,
            EarlyBirdStage::MemoryWritten => "Executable memory written to suspended process"@,
            EarlyBirdStage::ApcQueued => "APC queued to initial thread of suspended process"@,
            EarlyBirdStage::ThreadResumed => "Thread resumed with pending APC"@,
            EarlyBirdStage::FullSequence => "Complete Early Bird APC injection sequence detected"@,
            EarlyBirdStage::ApcTargetUnbacked => "APC routine points to unbacked executable memory"@,
        }
    }

    /// The stage in words.
    pub fn description(&self) -> (r: &'static str)
        ensures
            r@ == self.spec_description(),
    {
        match self {
            EarlyBirdStage::SuspendedProcessCreated => "Process created in suspended state",
            EarlyBirdStage::MemoryAllocated => "Memory allocated in suspended process",
            EarlyBirdStage::MemoryWritten => "Executable memory written to suspended process",
            EarlyBirdStage::ApcQueued => "APC queued to initial thread of suspended process",
            EarlyBirdStage::ThreadResumed => "Thread resumed with pending APC",
            EarlyBirdStage::FullSequence => "Complete Early Bird APC injection sequence detected",
            EarlyBirdStage::ApcTargetUnbacked => "APC routine points to unbacked executable memory",
        }
    }

    /// By how much the stage adds to the confidence, in millionths.
    pub open spec fn spec_confidence_boost(&self) -> u32 {
        match self {
            EarlyBirdStage::SuspendedProcessCreated => 200_000,
            EarlyBirdStage::MemoryAllocated => 150_000,
            EarlyBirdStage::MemoryWritten => 200_000,
            EarlyBirdStage::ApcQueued => 250_000,
            EarlyBirdStage::ThreadResumed => 150_000,
            EarlyBirdStage::FullSequence => 50_000,
            EarlyBirdStage::ApcTargetUnbacked => 300_000,
        }
    }

    /// By how much the stage adds to the confidence, in millionths.
    pub fn confidence_boost(&self) -> (r: u32)
        ensures
            r == self.spec_confidence_boost(),
    {
        match self {
            EarlyBirdStage::SuspendedProcessCreated => 200_000,
            EarlyBirdStage::MemoryAllocated => 150_000,
            EarlyBirdStage::MemoryWritten => 200_000,
            EarlyBirdStage::ApcQueued => 250_000,
            EarlyBirdStage::ThreadResumed => 150_000,
            EarlyBirdStage::FullSequence => 50_000,
            EarlyBirdStage::ApcTargetUnbacked => 300_000,
        }
    }
}

/// A detection of an injection.
pub struct EarlyBirdDetection {
    pub source_pid: u32,
    pub source_name: String,
    pub source_path: String,
    pub target_pid: u32,
    pub target_name: String,
    pub target_path: String,
    pub target_thread_id: u32,
    /// Zero where it is not known.
    pub apc_routine_address: u64,
    pub allocation_address: Option<u64>,
    pub allocation_size: Option<u64>,
    pub memory_protection: Option<u32>,
    /// In millionths.
    pub confidence: u32,
    pub stage: EarlyBirdStage,
    pub evidence: Vec<String>,
    pub timestamp: u64,
    pub mitre_id: &'static str,
}

/// What a detection says.
#[verifier::ext_equal]
pub struct InjectionModel {
    pub source: IdentityModel,
    pub target: IdentityModel,
    pub target_thread_id: u32,
    pub apc_routine_address: u64,
    pub allocation_address: Option<u64>,
    pub allocation_size: Option<u64>,
    pub memory_protection: Option<u32>,
    pub confidence: u32,
    pub stage: EarlyBirdStage,
    pub evidence: Seq<Seq<char>>,
    pub timestamp: u64,
    pub mitre_id: Seq<char>,
}

impl View for EarlyBirdDetection {
    type V = InjectionModel;

    open spec fn view(&self) -> InjectionModel {
        InjectionModel {
            source: IdentityModel {
                pid: self.source_pid,
                name: self.source_name@,
                path: self.source_path@,
            },
            target: IdentityModel {
                pid: self.target_pid,
                name: self.target_name@,
                path: self.target_path@,
            },
            target_thread_id: self.target_thread_id,
            apc_routine_address: self.apc_routine_address,
            allocation_address: self.allocation_address,
            allocation_size: self.allocation_size,
            memory_protection: self.memory_protection,
            confidence: self.confidence,
            stage: self.stage,
            evidence: texts(self.evidence@),
            timestamp: self.timestamp,
            mitre_id: self.mitre_id@,
        }
    }
}

/// What an optional detection says.
pub open spec fn injection_view(d: Option<EarlyBirdDetection>) -> Option<InjectionModel> {
    match d {
        Some(d) => Some(d@),
        None => None,
    }
}

/// A process, its name and its path.
pub struct ProcessIdentity {
    pub pid: u32,
    pub name: String,
    pub path: String,
}

/// What identifies a process.
#[verifier::ext_equal]
pub struct IdentityModel {
    pub pid: u32,
    pub name: Seq<char>,
    pub path: Seq<char>,
}

impl View for ProcessIdentity {
    type V = IdentityModel;

    open spec fn view(&self) -> IdentityModel {
        IdentityModel { pid: self.pid, name: self.name@, path: self.path@ }
    }
}

/// An allocation in a suspended process.
#[derive(Clone, Copy, Debug, PartialEq, Eq, Structural)]
pub struct MemoryAllocation {
    pub address: u64,
    pub size: u64,
    pub protection: u32,
    pub source_pid: u32,
    pub timestamp: u64,
    /// Whether it was written to.
    pub written: bool,
}

/// A call that was queued to a thread.
#[derive(Clone, Copy, Debug, PartialEq, Eq, Structural)]
pub struct ApcQueueEvent {
    pub thread_id: u32,
    pub routine_address: u64,
    pub argument: u64,
    pub source_pid: u32,
    pub timestamp: u64,
    /// Whether the routine is in memory without a file behind it.
    pub routine_unbacked: bool,
}

/// A process that was created suspended.
pub struct SuspendedProcessState {
    pub pid: u32,
    pub name: String,
    pub path: String,
    pub parent_pid: u32,
    pub parent_name: String,
    pub initial_thread_id: u32,
    pub creation_time: u64,
    pub allocations: Vec<MemoryAllocation>,
    pub apc_events: Vec<ApcQueueEvent>,
    pub resumed: bool,
    pub resume_time: Option<u64>,
}

/// What is known of a suspended process.
#[verifier::ext_equal]
pub struct SuspendedModel {
    pub process: IdentityModel,
    pub parent_pid: u32,
    pub parent_name: Seq<char>,
    pub initial_thread_id: u32,
    pub creation_time: u64,
    pub allocations: Seq<MemoryAllocation>,
    pub apc_events: Seq<ApcQueueEvent>,
    pub resumed: bool,
    pub resume_time: Option<u64>,
}

impl View for SuspendedProcessState {
    type V = SuspendedModel;

    open spec fn view(&self) -> SuspendedModel {
        SuspendedModel {
            process: IdentityModel { pid: self.pid, name: self.name@, path: self.path@ },
            parent_pid: self.parent_pid,
            parent_name: self.parent_name@,
            initial_thread_id: self.initial_thread_id,
            creation_time: self.creation_time,
            allocations: self.allocations@,
            apc_events: self.apc_events@,
            resumed: self.resumed,
            resume_time: self.resume_time,
        }
    }
}

/// What is known of suspended processes.
pub open spec fn suspended_view(v: Seq<SuspendedProcessState>) -> Seq<SuspendedModel> {
    v.map_values(|s: SuspendedProcessState| s@)
}

/// How the detector works.
#[derive(Clone, Copy, Debug, PartialEq, Eq, Structural)]
pub struct EarlyBirdConfig {
    /// For how long a suspended process is followed.
    pub max_track_time_ms: u64,
    /// In millionths.
    pub min_confidence: u32,
    pub verbose: bool,
}

impl Default for EarlyBirdConfig {
    fn default() -> (c: EarlyBirdConfig)
        ensures
            c == (EarlyBirdConfig {
                max_track_time_ms: 60_000,
                min_confidence: 500_000,
                verbose: false,
            }),
    {
        EarlyBirdConfig { max_track_time_ms: 60_000, min_confidence: 500_000, verbose: false }
    }
}

/// How much the detector follows.
#[derive(Clone, Copy, Debug, PartialEq, Eq, Structural)]
pub struct EarlyBirdStats {
    pub tracked_processes: usize,
    pub total_allocations: usize,
    pub total_apc_events: usize,
    pub known_detections: usize,
}

/// Whether a protection lets code run.
pub open spec fn executable(protection: u32) -> bool {
    protection & 0x10 != 0 || protection & 0x20 != 0 || protection & 0x40 != 0 || protection & 0x80
        != 0
}

/// Whether a protection lets code run.
pub fn is_protection_executable(protection: u32) -> (r: bool)
    ensures
        r == executable(protection),
{
    protection & 0x10 != 0 || protection & 0x20 != 0 || protection & 0x40 != 0 || protection & 0x80
        != 0
}

/// The name of a protection.
pub open spec fn protection_name(protection: u32) -> Seq<char> {
    if protection == 0x01 {
        "PAGE_NOACCESS"@
    } else if protection == 0x02 {
        "PAGE_READONLY"@
    } else if protection == 0x04 {
        "PAGE_READWRITE"@
    } else if protection == 0x08 {
        "PAGE_WRITECOPY"@
    } else if protection == 0x10 {
        "PAGE_EXECUTE"@
    } else if protection == 0x20 {
        "PAGE_EXECUTE_READ"@
    } else if protection == 0x40 {
        "PAGE_EXECUTE_READWRITE"@
    } else if protection == 0x80 {
        "PAGE_EXECUTE_WRITECOPY"@
    } else {
        "UNKNOWN"@
    }
}

/// The name of a protection.
pub fn protection_to_string(protection: u32) -> (r: &'static str)
    ensures
        r@ == protection_name(protection),
{
    match protection {
        0x01 => "PAGE_NOACCESS",
        0x02 => "PAGE_READONLY",
        0x04 => "PAGE_READWRITE",
        0x08 => "PAGE_WRITECOPY",
        0x10 => "PAGE_EXECUTE",
        0x20 => "PAGE_EXECUTE_READ",
        0x40 => "PAGE_EXECUTE_READWRITE",
        0x80 => "PAGE_EXECUTE_WRITECOPY",
        _ => "UNKNOWN",
    }
}

/// Whether memory of a state and a type is committed and has no file behind it.
pub open spec fn unbacked(state: u32, mem_type: u32) -> bool {
    state & 0x1000 != 0 && mem_type & 0x20000 != 0
}

/// Whether memory of a state and a type is committed and has no file behind it.
pub fn is_memory_unbacked(state: u32, mem_type: u32) -> (r: bool)
    ensures
        r == unbacked(state, mem_type),
{
    state & 0x1000 != 0 && mem_type & 0x20000 != 0
}

/// Whether an address is in an allocation.
pub open spec fn within(address: u64, a: MemoryAllocation) -> bool {
    a.address <= address < a.address + a.size
}

fn is_within(address: u64, a: &MemoryAllocation) -> (r: bool)
    ensures
        r == within(address, *a),
{
    address >= a.address && address - a.address < a.size
}

/// Whether a process is the one of an identifier.
pub open spec fn has_pid(pid: u32) -> spec_fn(SuspendedModel) -> bool {
    |s: SuspendedModel| s.process.pid == pid
}

/// Where a process stands among the followed.
pub open spec fn find(s: Seq<SuspendedModel>, pid: u32) -> Option<int> {
    first_index(s, has_pid(pid))
}

/// The followed processes with one more, or with another state of one.
pub open spec fn with_suspended(s: Seq<SuspendedModel>, p: SuspendedModel) -> Seq<SuspendedModel> {
    match find(s, p.process.pid) {
        Some(i) => s.update(i, p),
        None => s.push(p),
    }
}

/// The state of a process that was just created.
pub open spec fn just_created(
    process: IdentityModel,
    parent_pid: u32,
    parent_name: Seq<char>,
    initial_thread_id: u32,
    now: u64,
) -> SuspendedModel {
    SuspendedModel {
        process,
        parent_pid,
        parent_name,
        initial_thread_id,
        creation_time: now,
        allocations: Seq::empty(),
        apc_events: Seq::empty(),
        resumed: false,
        resume_time: None,
    }
}

/// What is reported of a process that was created suspended.
pub open spec fn creation_report(
    process: IdentityModel,
    parent: IdentityModel,
    initial_thread_id: u32,
    now: u64,
) -> InjectionModel {
    let pid = decimal(process.pid as nat);
    let parent_pid = decimal(parent.pid as nat);
    InjectionModel {
        source: parent,
        target: process,
        target_thread_id: initial_thread_id,
        apc_routine_address: 0,
        allocation_address: None,
        allocation_size: None,
        memory_protection: None,
        confidence: 300_000,
        stage: EarlyBirdStage::SuspendedProcessCreated,
        evidence: seq![
            "Process "@ + pid + " (PID "@ + pid + ") created in suspended state"@,
            "Parent: "@ + parent_pid + " (PID "@ + parent_pid + ")"@,
            "Initial thread: "@ + decimal(initial_thread_id as nat),
            "CREATE_SUSPENDED flag indicates potential injection target"@,
        ],
        timestamp: now,
        mitre_id: APC_TECHNIQUE@,
    }
}

/// An address and a size in words.
pub open spec fn extent(address: u64, size: u64) -> Seq<char> {
    "Address: 0x"@ + hex_upper(address as nat) + ", Size: "@ + decimal(size as nat) + " bytes"@
}

fn extent_of(address: u64, size: u64) -> (r: String)
    ensures
        r@ == extent(address, size),
{
    "Address: 0x".to_string().concat(hex_upper_text(address).as_str()).concat(", Size: ").concat(
        decimal_text(size).as_str(),
    ).concat(" bytes")
}

/// The process that does something, by its identifier.
pub open spec fn source_line(pid: u32) -> Seq<char> {
    "Source process: "@ + decimal(pid as nat) + " (PID "@ + decimal(pid as nat) + ")"@
}

fn source_line_of(pid: u32) -> (r: String)
    ensures
        r@ == source_line(pid),
{
    "Source process: ".to_string().concat(decimal_text(pid as u64).as_str()).concat(
        " (PID ",
    ).concat(decimal_text(pid as u64).as_str()).concat(")")
}

/// The process that does something, by its name.
pub open spec fn named_source_line(source: IdentityModel) -> Seq<char> {
    "Source: "@ + source.name + " (PID "@ + decimal(source.pid as nat) + ")"@
}

fn named_source_line_of(source: &ProcessIdentity) -> (r: String)
    ensures
        r@ == named_source_line(source@),
{
    "Source: ".to_string().concat(source.name.as_str()).concat(" (PID ").concat(
        decimal_text(source.pid as u64).as_str(),
    ).concat(")")
}

/// What is reported of an allocation in a suspended process.
pub open spec fn allocation_report(
    s: SuspendedModel,
    source: IdentityModel,
    address: u64,
    size: u64,
    protection: u32,
    now: u64,
) -> InjectionModel {
    InjectionModel {
        source,
        target: s.process,
        target_thread_id: s.initial_thread_id,
        apc_routine_address: 0,
        allocation_address: Some(address),
        allocation_size: Some(size),
        memory_protection: Some(protection),
        confidence: if executable(protection) { 550_000 } else { 400_000 },
        stage: EarlyBirdStage::MemoryAllocated,
        evidence: seq![
            "VirtualAllocEx detected in suspended process "@ + decimal(s.process.pid as nat),
            extent(address, size),
            "Protection: 0x"@ + hex_upper(protection as nat) + " ("@ + protection_name(protection)
                + ")"@,
            source_line(source.pid),
            if executable(protection) {
                "Allocation has EXECUTE permission - shellcode staging"@
            } else {
                "Allocation may be followed by protection change"@
            },
        ],
        timestamp: now,
        mitre_id: APC_TECHNIQUE@,
    }
}

/// Whether an address is in one of the allocations.
pub open spec fn in_allocation(allocations: Seq<MemoryAllocation>, address: u64) -> bool {
    exists|i: int| 0 <= i < allocations.len() && within(address, #[trigger] allocations[i])
}

/// The allocations, the first of which that holds an address is marked as
/// written.
pub open spec fn marked(allocations: Seq<MemoryAllocation>, address: u64) -> Seq<MemoryAllocation>
    decreases allocations.len(),
{
    if allocations.len() == 0 {
        allocations
    } else if within(address, allocations[0]) {
        allocations.update(0, MemoryAllocation { written: true, ..allocations[0] })
    } else {
        seq![allocations[0]] + marked(allocations.drop_first(), address)
    }
}

/// What is reported of a write to a suspended process.
pub open spec fn write_report(
    s: SuspendedModel,
    source: IdentityModel,
    address: u64,
    size: u64,
    now: u64,
) -> InjectionModel {
    InjectionModel {
        source,
        target: s.process,
        target_thread_id: s.initial_thread_id,
        apc_routine_address: 0,
        allocation_address: Some(address),
        allocation_size: Some(size),
        memory_protection: None,
        confidence: 600_000,
        stage: EarlyBirdStage::MemoryWritten,
        evidence: seq![
            "WriteProcessMemory to suspended process "@ + decimal(s.process.pid as nat),
            extent(address, size),
            source_line(source.pid),
            if in_allocation(s.allocations, address) {
                "Write is to previously allocated region"@
            } else {
                "Write is to existing memory region"@
            },
            "Shellcode injection in progress"@,
        ],
        timestamp: now,
        mitre_id: APC_TECHNIQUE@,
    }
}

/// A number where a condition holds.
pub open spec fn if_so(c: bool, n: u32) -> u32 {
    if c {
        n
    } else {
        0
    }
}

/// A text where a condition holds.
pub open spec fn line_if(c: bool, line: Seq<char>) -> Seq<Seq<char>> {
    if c {
        seq![line]
    } else {
        Seq::empty()
    }
}

/// What is reported of a call that was queued to a thread of a suspended process.
pub open spec fn apc_report(
    s: SuspendedModel,
    source: IdentityModel,
    thread_id: u32,
    routine: u64,
    argument: u64,
    routine_unbacked: bool,
    now: u64,
) -> InjectionModel {
    let initial = thread_id == s.initial_thread_id;
    let allocated = in_allocation(s.allocations, routine);
    InjectionModel {
        source,
        target: s.process,
        target_thread_id: thread_id,
        apc_routine_address: routine,
        allocation_address: if s.allocations.len() > 0 {
            Some(s.allocations[0].address)
        } else {
            None
        },
        allocation_size: if s.allocations.len() > 0 {
            Some(s.allocations[0].size)
        } else {
            None
        },
        memory_protection: if s.allocations.len() > 0 {
            Some(s.allocations[0].protection)
        } else {
            None
        },
        confidence: (700_000 + if_so(initial, 150_000) + if_so(routine_unbacked, 100_000) + if_so(
            allocated,
            50_000,
        )) as u32,
        stage: EarlyBirdStage::ApcQueued,
        evidence: seq![
            "NtQueueApcThread/QueueUserAPC detected"@,
            "Target: "@ + s.process.name + " (PID "@ + decimal(s.process.pid as nat) + "), Thread: "@
                + decimal(thread_id as nat),
            "APC routine: 0x"@ + hex_upper(routine as nat),
            "APC argument: 0x"@ + hex_upper(argument as nat),
            named_source_line(source),
        ] + line_if(initial, "APC queued to INITIAL thread - classic Early Bird signature"@)
            + line_if(
            routine_unbacked,
            "Routine address is in unbacked (private) memory - shellcode"@,
        ) + line_if(allocated, "Routine points to previously allocated memory region"@),
        timestamp: now,
        mitre_id: APC_TECHNIQUE@,
    }
}

/// Whether one of the allocations was written to.
pub open spec fn any_written(allocations: Seq<MemoryAllocation>) -> bool {
    exists|i: int| 0 <= i < allocations.len() && (#[trigger] allocations[i]).written
}

/// Whether a suspended process has all that an injection needs.
pub open spec fn prepared(s: SuspendedModel) -> bool {
    s.apc_events.len() > 0 && s.allocations.len() > 0
}

/// What is reported of a suspended process whose thread is resumed.
pub open spec fn resume_report(
    s: SuspendedModel,
    source: IdentityModel,
    thread_id: u32,
    now: u64,
) -> InjectionModel {
    let pending = s.apc_events.len() > 0;
    let allocated = s.allocations.len() > 0;
    InjectionModel {
        source,
        target: s.process,
        target_thread_id: thread_id,
        apc_routine_address: if pending { s.apc_events.last().routine_address } else { 0 },
        allocation_address: if allocated { Some(s.allocations.last().address) } else { None },
        allocation_size: if allocated { Some(s.allocations.last().size) } else { None },
        memory_protection: if allocated { Some(s.allocations.last().protection) } else { None },
        confidence: if prepared(s) {
            950_000
        } else {
            (500_000 + if_so(pending, 250_000) + if_so(allocated, 100_000) + if_so(
                any_written(s.allocations),
                100_000,
            )) as u32
        },
        stage: if prepared(s) {
            EarlyBirdStage::FullSequence
        } else {
            EarlyBirdStage::ThreadResumed
        },
        evidence: seq![
            "ResumeThread called on suspended process "@ + decimal(s.process.pid as nat),
            "Thread: "@ + decimal(thread_id as nat),
            named_source_line(source),
        ] + line_if(
            pending,
            "Thread has pending APC (routine: 0x"@ + hex_upper(
                s.apc_events.last().routine_address as nat,
            ) + ")"@,
        ) + line_if(pending, "APC will execute BEFORE main thread code"@) + line_if(
            allocated,
            "Process has remote allocation at 0x"@ + hex_upper(
                s.allocations.last().address as nat,
            ) + " ("@ + decimal(s.allocations.last().size as nat) + " bytes)"@,
        ) + line_if(prepared(s), "COMPLETE EARLY BIRD SEQUENCE DETECTED"@) + line_if(
            prepared(s),
            "Sequence: CREATE_SUSPENDED -> VirtualAllocEx -> WriteProcessMemory -> QueueUserAPC -> ResumeThread"@,
        ),
        timestamp: now,
        mitre_id: APC_TECHNIQUE@,
    }
}

/// Where a thread runs: its next instruction, and the memory there.
#[derive(Clone, Copy, Debug, PartialEq, Eq, Structural)]
pub struct ThreadProbe {
    pub instruction: u64,
    pub region_base: u64,
    pub region_size: u64,
    pub state: u32,
    pub mem_type: u32,
    pub protection: u32,
}

/// What is reported of a thread that runs in memory without a file behind it.
pub open spec fn thread_report(process: IdentityModel, thread_id: u32, probe: ThreadProbe, now: u64) -> Option<
    InjectionModel,
> {
    if unbacked(probe.state, probe.mem_type) && executable(probe.protection) {
        Some(
            InjectionModel {
                source: IdentityModel { pid: 0, name: "unknown"@, path: Seq::empty() },
                target: process,
                target_thread_id: thread_id,
                apc_routine_address: probe.instruction,
                allocation_address: Some(probe.region_base),
                allocation_size: Some(probe.region_size),
                memory_protection: Some(probe.protection),
                confidence: 750_000,
                stage: EarlyBirdStage::ApcTargetUnbacked,
                evidence: seq![
                    "Thread "@ + decimal(thread_id as nat) + " IP at 0x"@ + hex_upper(
                        probe.instruction as nat,
                    ),
                    "IP is in MEM_PRIVATE executable memory"@,
                    "Region: 0x"@ + hex_upper(probe.region_base as nat) + " - 0x"@ + hex_upper(
                        (probe.region_base + probe.region_size) as nat,
                    ) + " ("@ + decimal(probe.region_size as nat) + " bytes)"@,
                    "Protection: 0x"@ + hex_upper(probe.protection as nat),
                    "Legitimate threads run from MEM_IMAGE regions"@,
                    "IP in unbacked memory indicates APC/injection execution"@,
                ],
                timestamp: now,
                mitre_id: APC_TECHNIQUE@,
            },
        )
    } else {
        None
    }
}

/// Whether a process is still followed.
pub open spec fn still_followed(now: u64, max_age: u64) -> spec_fn(SuspendedModel) -> bool {
    |s: SuspendedModel| now - s.creation_time < max_age
}

/// The number of allocations of the first `n` processes.
pub open spec fn allocations_of(s: Seq<SuspendedModel>, n: nat) -> nat
    decreases n,
{
    if n == 0 {
        0
    } else {
        allocations_of(s, (n - 1) as nat) + s[n - 1].allocations.len()
    }
}

/// The number of queued calls of the first `n` processes.
pub open spec fn calls_of(s: Seq<SuspendedModel>, n: nat) -> nat
    decreases n,
{
    if n == 0 {
        0
    } else {
        calls_of(s, (n - 1) as nat) + s[n - 1].apc_events.len()
    }
}

/// A number, up to the largest.
pub open spec fn at_most_max(n: nat) -> usize {
    if n > usize::MAX {
        usize::MAX
    } else {
        n as usize
    }
}

/// The detector of injections.
pub struct EarlyBirdDetector {
    /// Each process once.
    pub suspended_processes: Vec<SuspendedProcessState>,
    /// What was reported: process, thread and the stage's name.
    pub known_detections: Vec<(u32, u32, String)>,
    pub config: EarlyBirdConfig,
}

impl View for EarlyBirdDetector {
    type V = Seq<SuspendedModel>;

    open spec fn view(&self) -> Seq<SuspendedModel> {
        suspended_view(self.suspended_processes@)
    }
}

/// What is told to the detector.
pub enum RecordedCall {
    /// A process was created suspended.
    Created { state: SuspendedModel },
    /// Memory was allocated in a process.
    Allocated { pid: u32, allocation: MemoryAllocation },
    /// Memory of a process was written to.
    Written { pid: u32, address: u64 },
    /// A call was queued to a thread of a process.
    Queued { pid: u32, call: ApcQueueEvent },
    /// A thread of a process was resumed.
    Resumed { pid: u32, now: u64 },
}

/// The state of a followed process after it was told of it.
pub open spec fn state_after(s: SuspendedModel, call: RecordedCall) -> SuspendedModel {
    match call {
        RecordedCall::Created { state } => state,
        RecordedCall::Allocated { allocation, .. } => SuspendedModel {
            allocations: s.allocations.push(allocation),
            ..s
        },
        RecordedCall::Written { address, .. } => SuspendedModel {
            allocations: marked(s.allocations, address),
            ..s
        },
        RecordedCall::Queued { call, .. } => SuspendedModel {
            apc_events: s.apc_events.push(call),
            ..s
        },
        RecordedCall::Resumed { now, .. } => SuspendedModel {
            resumed: true,
            resume_time: Some(now),
            ..s
        },
    }
}

/// Which process the detector is told of.
pub open spec fn target_of(call: RecordedCall) -> u32 {
    match call {
        RecordedCall::Created { state } => state.process.pid,
        RecordedCall::Allocated { pid, .. } => pid,
        RecordedCall::Written { pid, .. } => pid,
        RecordedCall::Queued { pid, .. } => pid,
        RecordedCall::Resumed { pid, .. } => pid,
    }
}

/// The followed processes after the detector was told something.
pub open spec fn after_call(s: Seq<SuspendedModel>, call: RecordedCall) -> Seq<SuspendedModel> {
    match find(s, target_of(call)) {
        Some(i) => s.update(i, state_after(s[i], call)),
        None => match call {
            RecordedCall::Created { state } => s.push(state),
            _ => s,
        },
    }
}

/// What is remembered of a report.
pub open spec fn report_key(d: InjectionModel) -> (u32, u32, Seq<char>) {
    (d.target.pid, d.target_thread_id, d.stage.spec_as_str())
}

/// What is remembered of reports.
pub open spec fn known_view(v: Seq<(u32, u32, String)>) -> Seq<(u32, u32, Seq<char>)> {
    v.map_values(|k: (u32, u32, String)| (k.0, k.1, k.2@))
}

/// Whether a detection is to be reported: it is sure enough, and nothing of its kind
/// was reported of its thread.
pub open spec fn to_report(
    min_confidence: u32,
    known: Seq<(u32, u32, Seq<char>)>,
    d: InjectionModel,
) -> bool {
    d.confidence >= min_confidence && !known.contains(report_key(d))
}

/// Whether no process is followed twice.
pub open spec fn distinct(s: Seq<SuspendedModel>) -> bool {
    forall|i: int, j: int|
        0 <= i < j < s.len() ==> (#[trigger] s[i]).process.pid != (#[trigger] s[j]).process.pid
}

proof fn lemma_kept_processes(
    v: Seq<SuspendedProcessState>,
    p: spec_fn(SuspendedProcessState) -> bool,
    q: spec_fn(SuspendedModel) -> bool,
)
    requires
        forall|s: SuspendedProcessState| #[trigger] p(s) == q(s@),
    ensures
        suspended_view(v.filter(p)) == suspended_view(v).filter(q),
    decreases v.len(),
{
    reveal(Seq::filter);
    if v.len() > 0 {
        lemma_kept_processes(v.drop_last(), p, q);
        assert(suspended_view(v).drop_last() =~= suspended_view(v.drop_last()));
        assert(suspended_view(v).last() == v.last()@);
        let kept = v.drop_last().filter(p);
        if p(v.last()) {
            assert(suspended_view(kept.push(v.last())) =~= suspended_view(kept).push(v.last()@));
        }
    } else {
        assert(suspended_view(v.filter(p)) =~= suspended_view(v).filter(q));
    }
}

proof fn lemma_marked(allocations: Seq<MemoryAllocation>, address: u64, i: int)
    requires
        0 <= i < allocations.len(),
        within(address, allocations[i]),
        forall|j: int| 0 <= j < i ==> !within(address, #[trigger] allocations[j]),
    ensures
        marked(allocations, address) == allocations.update(
            i,
            MemoryAllocation { written: true, ..allocations[i] },
        ),
    decreases i,
{
    if i > 0 {
        let rest = allocations.drop_first();
        assert(!within(address, allocations[0]));
        assert forall|j: int| 0 <= j < i - 1 implies !within(address, #[trigger] rest[j]) by {
            assert(!within(address, allocations[j + 1]));
        }
        lemma_marked(rest, address, i - 1);
        assert(marked(allocations, address) =~= allocations.update(
            i,
            MemoryAllocation { written: true, ..allocations[i] },
        ));
    }
}

proof fn lemma_unmarked(allocations: Seq<MemoryAllocation>, address: u64)
    requires
        !in_allocation(allocations, address),
    ensures
        marked(allocations, address) == allocations,
    decreases allocations.len(),
{
    if allocations.len() > 0 {
        let rest = allocations.drop_first();
        assert(!within(address, allocations[0]));
        assert forall|j: int| 0 <= j < rest.len() implies !within(address, #[trigger] rest[j]) by {
            assert(!within(address, allocations[j + 1]));
        }
        lemma_unmarked(rest, address);
        assert(marked(allocations, address) =~= allocations);
    }
}

fn first_within(allocations: &Vec<MemoryAllocation>, address: u64) -> (r: Option<usize>)
    ensures
        match r {
            Some(i) => i < allocations@.len() && within(address, allocations@[i as int]) && forall|
                j: int,
            |
                0 <= j < i ==> !within(address, #[trigger] allocations@[j]),
            None => !in_allocation(allocations@, address),
        },
{
    let mut i: usize = 0;
    while i < allocations.len()
        invariant
            i <= allocations@.len(),
            forall|j: int| 0 <= j < i ==> !within(address, #[trigger] allocations@[j]),
        decreases allocations@.len() - i,
    {
        if is_within(address, &allocations[i]) {
            return Some(i);
        }
        i += 1;
    }
    None
}

impl EarlyBirdDetector {
    /// No process is followed twice.
    pub open spec fn wf(&self) -> bool {
        distinct(self@)
    }

    /// A detector that follows nothing.
    pub fn new(config: EarlyBirdConfig) -> (r: EarlyBirdDetector)
        ensures
            r.wf(),
            r.config == config,
            r.known_detections@.len() == 0,
            r@ == Seq::<SuspendedModel>::empty(),
    {
        let r = EarlyBirdDetector {
            suspended_processes: Vec::new(),
            known_detections: Vec::new(),
            config,
        };
        assert(r@ =~= Seq::<SuspendedModel>::empty());
        r
    }

    fn position(&self, pid: u32) -> (r: Option<usize>)
        ensures
            match r {
                Some(i) => i < self.suspended_processes@.len() && find(self@, pid) == Some(i as int)
                    && self@[i as int].process.pid == pid,
                None => find(self@, pid) is None,
            },
    {
        let ghost all = self@;
        let ghost p = has_pid(pid);
        let mut i: usize = 0;
        while i < self.suspended_processes.len()
            invariant
                i <= self.suspended_processes@.len(),
                all == self@,
                p == has_pid(pid),
                forall|j: int| 0 <= j < i ==> !p(#[trigger] all[j]),
            decreases self.suspended_processes@.len() - i,
        {
            assert(all[i as int] == self.suspended_processes@[i as int]@);
            if self.suspended_processes[i].pid == pid {
                proof {
                    crate::collect::lemma_first_index_is(all, p, i as int);
                }
                return Some(i);
            }
            i += 1;
        }
        proof {
            lemma_first_index(all, p);
            if find(all, pid) is Some {
                assert(p(all[find(all, pid)->0]));
            }
        }
        None
    }

    /// Whether a detection is to be reported: it is sure enough, and nothing of its
    /// kind was reported of its thread.
    pub fn is_reported(&self, detection: &EarlyBirdDetection) -> (r: bool)
        ensures
            r == to_report(
                self.config.min_confidence,
                known_view(self.known_detections@),
                detection@,
            ),
    {
        let ghost known = known_view(self.known_detections@);
        let ghost key = report_key(detection@);
        if detection.confidence < self.config.min_confidence {
            return false;
        }
        let name = detection.stage.as_str();
        let mut i: usize = 0;
        while i < self.known_detections.len()
            invariant
                i <= self.known_detections@.len(),
                known == known_view(self.known_detections@),
                key == report_key(detection@),
                name@ == key.2,
                forall|j: int| 0 <= j < i ==> #[trigger] known[j] != key,
            decreases self.known_detections@.len() - i,
        {
            let (pid, thread_id, stage) = &self.known_detections[i];
            assert(known[i as int] == (
                self.known_detections@[i as int].0,
                self.known_detections@[i as int].1,
                self.known_detections@[i as int].2@,
            ));
            if *pid == detection.target_pid && *thread_id == detection.target_thread_id && same(
                stage.as_str(),
                name,
            ) {
                assert(known[i as int] == key);
                return false;
            }
            i += 1;
        }
        true
    }

    /// Remembers that a detection was reported.
    pub fn note_reported(&mut self, detection: &EarlyBirdDetection)
        ensures
            final(self).suspended_processes == old(self).suspended_processes,
            final(self).config == old(self).config,
            known_view(final(self).known_detections@) == known_view(
                old(self).known_detections@,
            ).push(report_key(detection@)),
    {
        let ghost before = known_view(self.known_detections@);
        self.known_detections.push(
            (
                detection.target_pid,
                detection.target_thread_id,
                detection.stage.as_str().to_string(),
            ),
        );
        assert(known_view(self.known_detections@) =~= before.push(report_key(detection@)));
    }

    /// Follows a process that was created suspended, and reports it.
    pub fn record_suspended_process(
        &mut self,
        process: ProcessIdentity,
        parent: ProcessIdentity,
        initial_thread_id: u32,
        now: u64,
    ) -> (r: Option<EarlyBirdDetection>)
        requires
            old(self).wf(),
        ensures
            final(self).wf(),
            final(self).config == old(self).config,
            final(self).known_detections == old(self).known_detections,
            final(self)@ == after_call(
                old(self)@,
                RecordedCall::Created {
                    state: just_created(process@, parent.pid, parent.name@, initial_thread_id, now),
                },
            ),
            final(self)@ == with_suspended(
                old(self)@,
                just_created(process@, parent.pid, parent.name@, initial_thread_id, now),
            ),
            injection_view(r) == Some(
                creation_report(process@, parent@, initial_thread_id, now),
            ),
    {
        let state = SuspendedProcessState {
            pid: process.pid,
            name: process.name.clone(),
            path: process.path.clone(),
            parent_pid: parent.pid,
            parent_name: parent.name.clone(),
            initial_thread_id,
            creation_time: now,
            allocations: Vec::new(),
            apc_events: Vec::new(),
            resumed: false,
            resume_time: None,
        };
        let ghost all = self@;
        let ghost model = just_created(
            process@,
            parent.pid,
            parent.name@,
            initial_thread_id,
            now,
        );
        assert(state@ =~= model);
        match self.position(process.pid) {
            Some(i) => {
                self.suspended_processes.set(i, state);
                assert(self@ =~= all.update(i as int, model));
                assert(distinct(self@)) by {
                    assert forall|a: int, b: int| 0 <= a < b < self@.len() implies (
                    #[trigger] self@[a]).process.pid != (#[trigger] self@[b]).process.pid by {
                        assert(all[a].process.pid != all[b].process.pid);
                    }
                }
            },
            None => {
                proof {
                    lemma_first_index(all, has_pid(process.pid));
                }
                self.suspended_processes.push(state);
                assert(self@ =~= all.push(model));
                assert(distinct(self@)) by {
                    assert forall|a: int, b: int| 0 <= a < b < self@.len() implies (
                    #[trigger] self@[a]).process.pid != (#[trigger] self@[b]).process.pid by {
                        if b < all.len() {
                            assert(all[a].process.pid != all[b].process.pid);
                        } else {
                            assert(!has_pid(process.pid)(all[a]));
                        }
                    }
                }
            },
        }
        let pid = decimal_text(process.pid as u64);
        let parent_pid = decimal_text(parent.pid as u64);
        let mut evidence: Vec<String> = Vec::new();
        assert(texts(evidence@) =~= Seq::empty());
        push_text(
            &mut evidence,
            "Process ".to_string().concat(pid.as_str()).concat(" (PID ").concat(
                pid.as_str(),
            ).concat(") created in suspended state"),
        );
        push_text(
            &mut evidence,
            "Parent: ".to_string().concat(parent_pid.as_str()).concat(" (PID ").concat(
                parent_pid.as_str(),
            ).concat(")"),
        );
        push_text(
            &mut evidence,
            "Initial thread: ".to_string().concat(decimal_text(initial_thread_id as u64).as_str()),
        );
        push_text(
            &mut evidence,
            "CREATE_SUSPENDED flag indicates potential injection target".to_string(),
        );
        assert(texts(evidence@) =~= creation_report(
            process@,
            parent@,
            initial_thread_id,
            now,
        ).evidence);
        Some(
            EarlyBirdDetection {
                source_pid: parent.pid,
                source_name: parent.name,
                source_path: parent.path,
                target_pid: process.pid,
                target_name: process.name,
                target_path: process.path,
                target_thread_id: initial_thread_id,
                apc_routine_address: 0,
                allocation_address: None,
                allocation_size: None,
                memory_protection: None,
                confidence: 300_000,
                stage: EarlyBirdStage::SuspendedProcessCreated,
                evidence,
                timestamp: now,
                mitre_id: APC_TECHNIQUE,
            },
        )
    }

    /// Notes an allocation in a process, and reports it where the process is
    /// followed.
    pub fn record_memory_allocation(
        &mut self,
        target_pid: u32,
        source: ProcessIdentity,
        address: u64,
        size: u64,
        protection: u32,
        now: u64,
    ) -> (r: Option<EarlyBirdDetection>)
        requires
            old(self).wf(),
        ensures
            final(self).wf(),
            final(self).config == old(self).config,
            final(self).known_detections == old(self).known_detections,
            final(self)@ == after_call(
                old(self)@,
                RecordedCall::Allocated {
                    pid: target_pid,
                    allocation: MemoryAllocation {
                        address,
                        size,
                        protection,
                        source_pid: source.pid,
                        timestamp: now,
                        written: false,
                    },
                },
            ),
            match find(old(self)@, target_pid) {
                Some(i) => {
                    let s = old(self)@[i];
                    &&& final(self)@ == old(self)@.update(
                        i,
                        (SuspendedModel {
                            allocations: s.allocations.push(
                                (MemoryAllocation {
                                    address,
                                    size,
                                    protection,
                                    source_pid: source.pid,
                                    timestamp: now,
                                    written: false,
                                }),
                            ),
                            ..s
                        }),
                    )
                    &&& injection_view(r) == Some(
                        allocation_report(s, source@, address, size, protection, now),
                    )
                },
                None => final(self)@ == old(self)@ && r is None,
            },
    {
        let ghost all = self@;
        match self.position(target_pid) {
            Some(i) => {
                let allocation = MemoryAllocation {
                    address,
                    size,
                    protection,
                    source_pid: source.pid,
                    timestamp: now,
                    written: false,
                };
                self.suspended_processes[i].allocations.push(allocation);
                assert(self@ =~= all.update(
                    i as int,
                    (SuspendedModel {
                        allocations: all[i as int].allocations.push(allocation),
                        ..all[i as int]
                    }),
                ));
                proof {
                    lemma_still_distinct(all, i as int, self@[i as int]);
                }
                let is_executable = is_protection_executable(protection);
                let mut evidence: Vec<String> = Vec::new();
                assert(texts(evidence@) =~= Seq::empty());
                push_text(
                    &mut evidence,
                    "VirtualAllocEx detected in suspended process ".to_string().concat(
                        decimal_text(target_pid as u64).as_str(),
                    ),
                );
                push_text(&mut evidence, extent_of(address, size));
                push_text(
                    &mut evidence,
                    "Protection: 0x".to_string().concat(
                        hex_upper_text(protection as u64).as_str(),
                    ).concat(" (").concat(protection_to_string(protection)).concat(")"),
                );
                push_text(&mut evidence, source_line_of(source.pid));
                push_text(
                    &mut evidence,
                    if is_executable {
                        "Allocation has EXECUTE permission - shellcode staging".to_string()
                    } else {
                        "Allocation may be followed by protection change".to_string()
                    },
                );
                assert(texts(evidence@) =~= allocation_report(
                    all[i as int],
                    source@,
                    address,
                    size,
                    protection,
                    now,
                ).evidence);
                let state = &self.suspended_processes[i];
                Some(
                    EarlyBirdDetection {
                        source_pid: source.pid,
                        source_name: source.name,
                        source_path: source.path,
                        target_pid,
                        target_name: state.name.clone(),
                        target_path: state.path.clone(),
                        target_thread_id: state.initial_thread_id,
                        apc_routine_address: 0,
                        allocation_address: Some(address),
                        allocation_size: Some(size),
                        memory_protection: Some(protection),
                        confidence: if is_executable { 550_000 } else { 400_000 },
                        stage: EarlyBirdStage::MemoryAllocated,
                        evidence,
                        timestamp: now,
                        mitre_id: APC_TECHNIQUE,
                    },
                )
            },
            None => None,
        }
    }

    /// Notes a write to a process, and reports it where the process is followed.
    pub fn record_memory_write(
        &mut self,
        target_pid: u32,
        source: ProcessIdentity,
        address: u64,
        size: u64,
        now: u64,
    ) -> (r: Option<EarlyBirdDetection>)
        requires
            old(self).wf(),
        ensures
            final(self).wf(),
            final(self).config == old(self).config,
            final(self).known_detections == old(self).known_detections,
            final(self)@ == after_call(
                old(self)@,
                RecordedCall::Written { pid: target_pid, address },
            ),
            match find(old(self)@, target_pid) {
                Some(i) => {
                    let s = old(self)@[i];
                    &&& final(self)@ == old(self)@.update(
                        i,
                        (SuspendedModel { allocations: marked(s.allocations, address), ..s }),
                    )
                    &&& injection_view(r) == Some(write_report(s, source@, address, size, now))
                },
                None => final(self)@ == old(self)@ && r is None,
            },
    {
        let ghost all = self@;
        match self.position(target_pid) {
            Some(i) => {
                let ghost before = self.suspended_processes@[i as int].allocations@;
                let at = first_within(&self.suspended_processes[i].allocations, address);
                let found = match at {
                    Some(k) => {
                        proof {
                            lemma_marked(before, address, k as int);
                            assert(in_allocation(before, address));
                        }
                        let was = self.suspended_processes[i].allocations[k];
                        self.suspended_processes[i].allocations.set(
                            k,
                            MemoryAllocation {
                                address: was.address,
                                size: was.size,
                                protection: was.protection,
                                source_pid: was.source_pid,
                                timestamp: was.timestamp,
                                written: true,
                            },
                        );
                        true
                    },
                    None => {
                        proof {
                            lemma_unmarked(before, address);
                        }
                        false
                    },
                };
                assert(self@ =~= all.update(
                    i as int,
                    (SuspendedModel {
                        allocations: marked(all[i as int].allocations, address),
                        ..all[i as int]
                    }),
                ));
                proof {
                    lemma_still_distinct(all, i as int, self@[i as int]);
                }
                let mut evidence: Vec<String> = Vec::new();
                assert(texts(evidence@) =~= Seq::empty());
                push_text(
                    &mut evidence,
                    "WriteProcessMemory to suspended process ".to_string().concat(
                        decimal_text(target_pid as u64).as_str(),
                    ),
                );
                push_text(&mut evidence, extent_of(address, size));
                push_text(&mut evidence, source_line_of(source.pid));
                push_text(
                    &mut evidence,
                    if found {
                        "Write is to previously allocated region".to_string()
                    } else {
                        "Write is to existing memory region".to_string()
                    },
                );
                push_text(&mut evidence, "Shellcode injection in progress".to_string());
                assert(texts(evidence@) =~= write_report(
                    all[i as int],
                    source@,
                    address,
                    size,
                    now,
                ).evidence);
                let state = &self.suspended_processes[i];
                Some(
                    EarlyBirdDetection {
                        source_pid: source.pid,
                        source_name: source.name,
                        source_path: source.path,
                        target_pid,
                        target_name: state.name.clone(),
                        target_path: state.path.clone(),
                        target_thread_id: state.initial_thread_id,
                        apc_routine_address: 0,
                        allocation_address: Some(address),
                        allocation_size: Some(size),
                        memory_protection: None,
                        confidence: 600_000,
                        stage: EarlyBirdStage::MemoryWritten,
                        evidence,
                        timestamp: now,
                        mitre_id: APC_TECHNIQUE,
                    },
                )
            },
            None => None,
        }
    }

    /// Notes a call that was queued to a thread of a process, and reports it
    /// where the process is followed. Whether the routine has a file behind it
    /// is given.
    pub fn record_apc_queue(
        &mut self,
        target_pid: u32,
        target_thread_id: u32,
        source: ProcessIdentity,
        routine_address: u64,
        argument: u64,
        routine_unbacked: bool,
        now: u64,
    ) -> (r: Option<EarlyBirdDetection>)
        requires
            old(self).wf(),
        ensures
            final(self).wf(),
            final(self).config == old(self).config,
            final(self).known_detections == old(self).known_detections,
            final(self)@ == after_call(
                old(self)@,
                RecordedCall::Queued {
                    pid: target_pid,
                    call: ApcQueueEvent {
                        thread_id: target_thread_id,
                        routine_address,
                        argument,
                        source_pid: source.pid,
                        timestamp: now,
                        routine_unbacked,
                    },
                },
            ),
            match find(old(self)@, target_pid) {
                Some(i) => {
                    let s = old(self)@[i];
                    &&& final(self)@ == old(self)@.update(
                        i,
                        (SuspendedModel {
                            apc_events: s.apc_events.push(
                                (ApcQueueEvent {
                                    thread_id: target_thread_id,
                                    routine_address,
                                    argument,
                                    source_pid: source.pid,
                                    timestamp: now,
                                    routine_unbacked,
                                }),
                            ),
                            ..s
                        }),
                    )
                    &&& injection_view(r) == Some(
                        apc_report(
                            s,
                            source@,
                            target_thread_id,
                            routine_address,
                            argument,
                            routine_unbacked,
                            now,
                        ),
                    )
                },
                None => final(self)@ == old(self)@ && r is None,
            },
    {
        let ghost all = self@;
        match self.position(target_pid) {
            Some(i) => {
                let call = ApcQueueEvent {
                    thread_id: target_thread_id,
                    routine_address,
                    argument,
                    source_pid: source.pid,
                    timestamp: now,
                    routine_unbacked,
                };
                self.suspended_processes[i].apc_events.push(call);
                assert(self@ =~= all.update(
                    i as int,
                    (SuspendedModel {
                        apc_events: all[i as int].apc_events.push(call),
                        ..all[i as int]
                    }),
                ));
                proof {
                    lemma_still_distinct(all, i as int, self@[i as int]);
                }
                let state = &self.suspended_processes[i];
                let initial = target_thread_id == state.initial_thread_id;
                let allocated = match first_within(&state.allocations, routine_address) {
                    Some(k) => {
                        assert(within(routine_address, state.allocations@[k as int]));
                        true
                    },
                    None => false,
                };
                let mut confidence: u32 = 700_000;
                if initial {
                    confidence = confidence + 150_000;
                }
                if routine_unbacked {
                    confidence = confidence + 100_000;
                }
                if allocated {
                    confidence = confidence + 50_000;
                }
                let mut evidence: Vec<String> = Vec::new();
                assert(texts(evidence@) =~= Seq::empty());
                push_text(&mut evidence, "NtQueueApcThread/QueueUserAPC detected".to_string());
                push_text(
                    &mut evidence,
                    "Target: ".to_string().concat(state.name.as_str()).concat(" (PID ").concat(
                        decimal_text(target_pid as u64).as_str(),
                    ).concat("), Thread: ").concat(decimal_text(target_thread_id as u64).as_str()),
                );
                push_text(
                    &mut evidence,
                    "APC routine: 0x".to_string().concat(hex_upper_text(routine_address).as_str()),
                );
                push_text(
                    &mut evidence,
                    "APC argument: 0x".to_string().concat(hex_upper_text(argument).as_str()),
                );
                push_text(&mut evidence, named_source_line_of(&source));
                if initial {
                    push_text(
                        &mut evidence,
                        "APC queued to INITIAL thread - classic Early Bird signature".to_string(),
                    );
                }
                if routine_unbacked {
                    push_text(
                        &mut evidence,
                        "Routine address is in unbacked (private) memory - shellcode".to_string(),
                    );
                }
                if allocated {
                    push_text(
                        &mut evidence,
                        "Routine points to previously allocated memory region".to_string(),
                    );
                }
                assert(texts(evidence@) =~= apc_report(
                    all[i as int],
                    source@,
                    target_thread_id,
                    routine_address,
                    argument,
                    routine_unbacked,
                    now,
                ).evidence);
                let (first_address, first_size, first_protection): (
                    Option<u64>,
                    Option<u64>,
                    Option<u32>,
                ) = if state.allocations.len() > 0 {
                    let a = state.allocations[0];
                    (Some(a.address), Some(a.size), Some(a.protection))
                } else {
                    (None, None, None)
                };
                Some(
                    EarlyBirdDetection {
                        source_pid: source.pid,
                        source_name: source.name,
                        source_path: source.path,
                        target_pid,
                        target_name: state.name.clone(),
                        target_path: state.path.clone(),
                        target_thread_id,
                        apc_routine_address: routine_address,
                        allocation_address: first_address,
                        allocation_size: first_size,
                        memory_protection: first_protection,
                        confidence,
                        stage: EarlyBirdStage::ApcQueued,
                        evidence,
                        timestamp: now,
                        mitre_id: APC_TECHNIQUE,
                    },
                )
            },
            None => None,
        }
    }

    /// Notes that a thread of a process is resumed, and reports it where the
    /// process is followed.
    pub fn record_thread_resume(
        &mut self,
        target_pid: u32,
        thread_id: u32,
        source: ProcessIdentity,
        now: u64,
    ) -> (r: Option<EarlyBirdDetection>)
        requires
            old(self).wf(),
        ensures
            final(self).wf(),
            final(self).config == old(self).config,
            final(self).known_detections == old(self).known_detections,
            final(self)@ == after_call(
                old(self)@,
                RecordedCall::Resumed { pid: target_pid, now },
            ),
            match find(old(self)@, target_pid) {
                Some(i) => {
                    let s = old(self)@[i];
                    &&& final(self)@ == old(self)@.update(
                        i,
                        (SuspendedModel { resumed: true, resume_time: Some(now), ..s }),
                    )
                    &&& injection_view(r) == Some(resume_report(s, source@, thread_id, now))
                },
                None => final(self)@ == old(self)@ && r is None,
            },
    {
        let ghost all = self@;
        match self.position(target_pid) {
            Some(i) => {
                self.suspended_processes[i].resumed = true;
                self.suspended_processes[i].resume_time = Some(now);
                assert(self@ =~= all.update(
                    i as int,
                    (SuspendedModel { resumed: true, resume_time: Some(now), ..all[i as int] }),
                ));
                proof {
                    lemma_still_distinct(all, i as int, self@[i as int]);
                }
                let state = &self.suspended_processes[i];
                let pending = state.apc_events.len() > 0;
                let allocated = state.allocations.len() > 0;
                let mut written = false;
                let mut k: usize = 0;
                while k < state.allocations.len()
                    invariant
                        k <= state.allocations@.len(),
                        written == exists|j: int|
                            0 <= j < k && (#[trigger] state.allocations@[j]).written,
                    decreases state.allocations@.len() - k,
                {
                    if state.allocations[k].written {
                        assert(state.allocations@[k as int].written);
                        written = true;
                    }
                    k += 1;
                }
                assert(written == any_written(state.allocations@));
                let full = pending && allocated;
                let mut confidence: u32 = 500_000;
                if full {
                    confidence = 950_000;
                } else {
                    if pending {
                        confidence = confidence + 250_000;
                    }
                    if allocated {
                        confidence = confidence + 100_000;
                    }
                    if written {
                        confidence = confidence + 100_000;
                    }
                }
                let mut evidence: Vec<String> = Vec::new();
                assert(texts(evidence@) =~= Seq::empty());
                push_text(
                    &mut evidence,
                    "ResumeThread called on suspended process ".to_string().concat(
                        decimal_text(target_pid as u64).as_str(),
                    ),
                );
                push_text(
                    &mut evidence,
                    "Thread: ".to_string().concat(decimal_text(thread_id as u64).as_str()),
                );
                push_text(&mut evidence, named_source_line_of(&source));
                let mut routine: u64 = 0;
                if pending {
                    let call = state.apc_events[state.apc_events.len() - 1];
                    routine = call.routine_address;
                    push_text(
                        &mut evidence,
                        "Thread has pending APC (routine: 0x".to_string().concat(
                            hex_upper_text(routine).as_str(),
                        ).concat(")"),
                    );
                    push_text(
                        &mut evidence,
                        "APC will execute BEFORE main thread code".to_string(),
                    );
                }
                let mut last_address: Option<u64> = None;
                let mut last_size: Option<u64> = None;
                let mut last_protection: Option<u32> = None;
                if allocated {
                    let a = state.allocations[state.allocations.len() - 1];
                    last_address = Some(a.address);
                    last_size = Some(a.size);
                    last_protection = Some(a.protection);
                    push_text(
                        &mut evidence,
                        "Process has remote allocation at 0x".to_string().concat(
                            hex_upper_text(a.address).as_str(),
                        ).concat(" (").concat(decimal_text(a.size).as_str()).concat(" bytes)"),
                    );
                }
                if full {
                    push_text(
                        &mut evidence,
                        "COMPLETE EARLY BIRD SEQUENCE DETECTED".to_string(),
                    );
                    push_text(
                        &mut evidence,
                        "Sequence: CREATE_SUSPENDED -> VirtualAllocEx -> WriteProcessMemory -> QueueUserAPC -> ResumeThread".to_string(),
                    );
                }
                assert(texts(evidence@) =~= resume_report(
                    all[i as int],
                    source@,
                    thread_id,
                    now,
                ).evidence);
                Some(
                    EarlyBirdDetection {
                        source_pid: source.pid,
                        source_name: source.name,
                        source_path: source.path,
                        target_pid,
                        target_name: state.name.clone(),
                        target_path: state.path.clone(),
                        target_thread_id: thread_id,
                        apc_routine_address: routine,
                        allocation_address: last_address,
                        allocation_size: last_size,
                        memory_protection: last_protection,
                        confidence,
                        stage: if full {
                            EarlyBirdStage::FullSequence
                        } else {
                            EarlyBirdStage::ThreadResumed
                        },
                        evidence,
                        timestamp: now,
                        mitre_id: APC_TECHNIQUE,
                    },
                )
            },
            None => None,
        }
    }

    /// Judges where a thread runs.
    pub fn analyze_thread_for_early_bird(
        &self,
        process: ProcessIdentity,
        thread_id: u32,
        probe: ThreadProbe,
        now: u64,
    ) -> (r: Option<EarlyBirdDetection>)
        requires
            probe.region_base + probe.region_size <= u64::MAX,
        ensures
            injection_view(r) == thread_report(process@, thread_id, probe, now),
    {
        if !(is_memory_unbacked(probe.state, probe.mem_type) && is_protection_executable(
            probe.protection,
        )) {
            return None;
        }
        let mut evidence: Vec<String> = Vec::new();
        assert(texts(evidence@) =~= Seq::empty());
        push_text(
            &mut evidence,
            "Thread ".to_string().concat(decimal_text(thread_id as u64).as_str()).concat(
                " IP at 0x",
            ).concat(hex_upper_text(probe.instruction).as_str()),
        );
        push_text(&mut evidence, "IP is in MEM_PRIVATE executable memory".to_string());
        push_text(
            &mut evidence,
            "Region: 0x".to_string().concat(hex_upper_text(probe.region_base).as_str()).concat(
                " - 0x",
            ).concat(hex_upper_text(probe.region_base + probe.region_size).as_str()).concat(
                " (",
            ).concat(decimal_text(probe.region_size).as_str()).concat(" bytes)"),
        );
        push_text(
            &mut evidence,
            "Protection: 0x".to_string().concat(hex_upper_text(probe.protection as u64).as_str()),
        );
        push_text(&mut evidence, "Legitimate threads run from MEM_IMAGE regions".to_string());
        push_text(
            &mut evidence,
            "IP in unbacked memory indicates APC/injection execution".to_string(),
        );
        assert(texts(evidence@) =~= thread_report(process@, thread_id, probe, now)->0.evidence);
        Some(
            EarlyBirdDetection {
                source_pid: 0,
                source_name: "unknown".to_string(),
                source_path: String::new(),
                target_pid: process.pid,
                target_name: process.name,
                target_path: process.path,
                target_thread_id: thread_id,
                apc_routine_address: probe.instruction,
                allocation_address: Some(probe.region_base),
                allocation_size: Some(probe.region_size),
                memory_protection: Some(probe.protection),
                confidence: 750_000,
                stage: EarlyBirdStage::ApcTargetUnbacked,
                evidence,
                timestamp: now,
                mitre_id: APC_TECHNIQUE,
            },
        )
    }

    /// Forgets the processes that were followed long enough.
    pub fn cleanup_old_entries(&mut self, now: u64)
        requires
            old(self).wf(),
        ensures
            final(self).wf(),
            final(self).config == old(self).config,
            final(self).known_detections == old(self).known_detections,
            final(self)@ == old(self)@.filter(
                still_followed(now, old(self).config.max_track_time_ms),
            ),
    {
        let max_age: u64 = self.config.max_track_time_ms;
        let ghost before = self.suspended_processes@;
        let ghost q = still_followed(now, max_age);
        let ghost p = |s: SuspendedProcessState| q(s@);
        let keep = |s: &SuspendedProcessState| -> (b: bool)
            ensures
                b == q(s@),
            { is_still_followed(s, now, max_age) };
        retain(&mut self.suspended_processes, keep, Ghost(p));
        proof {
            lemma_kept_processes(before, p, q);
            let key = |s: SuspendedModel| s.process.pid;
            assert(forall|i: int, j: int|
                0 <= i < j < old(self)@.len() ==> key(#[trigger] old(self)@[i]) != key(
                    #[trigger] old(self)@[j],
                ));
            crate::collect::lemma_filter_distinct(old(self)@, q, key);
            assert(distinct(self@)) by {
                assert forall|i: int, j: int| 0 <= i < j < self@.len() implies (
                #[trigger] self@[i]).process.pid != (#[trigger] self@[j]).process.pid by {
                    assert(key(old(self)@.filter(q)[i]) != key(old(self)@.filter(q)[j]));
                }
            }
        }
    }

    /// How much is followed.
    pub fn get_stats(&self) -> (r: EarlyBirdStats)
        ensures
            r.tracked_processes == self@.len(),
            r.total_allocations == at_most_max(allocations_of(self@, self@.len())),
            r.total_apc_events == at_most_max(calls_of(self@, self@.len())),
            r.known_detections == self.known_detections@.len(),
    {
        let mut allocations: u128 = 0;
        let mut calls: u128 = 0;
        let mut i: usize = 0;
        while i < self.suspended_processes.len()
            invariant
                i <= self.suspended_processes@.len(),
                allocations == allocations_of(self@, i as nat),
                calls == calls_of(self@, i as nat),
                allocations <= i * 0xffff_ffff_ffff_ffff,
                calls <= i * 0xffff_ffff_ffff_ffff,
            decreases self.suspended_processes@.len() - i,
        {
            allocations = allocations + self.suspended_processes[i].allocations.len() as u128;
            calls = calls + self.suspended_processes[i].apc_events.len() as u128;
            i += 1;
        }
        EarlyBirdStats {
            tracked_processes: self.suspended_processes.len(),
            total_allocations: if allocations > usize::MAX as u128 {
                usize::MAX
            } else {
                allocations as usize
            },
            total_apc_events: if calls > usize::MAX as u128 { usize::MAX } else { calls as usize },
            known_detections: self.known_detections.len(),
        }
    }
}

fn is_still_followed(s: &SuspendedProcessState, now: u64, max_age: u64) -> (r: bool)
    ensures
        r == (now - s.creation_time < max_age),
{
    if now >= s.creation_time {
        now - s.creation_time < max_age
    } else {
        true
    }
}

proof fn lemma_still_distinct(s: Seq<SuspendedModel>, i: int, p: SuspendedModel)
    requires
        distinct(s),
        0 <= i < s.len(),
        p.process.pid == s[i].process.pid,
    ensures
        distinct(s.update(i, p)),
{
    let t = s.update(i, p);
    assert forall|a: int, b: int| 0 <= a < b < t.len() implies (#[trigger] t[a]).process.pid != (
    #[trigger] t[b]).process.pid by {
        assert(s[a].process.pid != s[b].process.pid);
    }
}

/// How severe a detection is by how sure it is.
pub open spec fn severity_of(confidence: u32) -> Severity {
    if confidence >= 900_000 {
        Severity::Critical
    } else if confidence >= 700_000 {
        Severity::High
    } else if confidence >= 500_000 {
        Severity::Medium
    } else {
        Severity::Low
    }
}

/// Whether an event's process is the target of a detection, and its parent the
/// source.
pub open spec fn is_target(p: ProcessEvent, d: InjectionModel) -> bool {
    &&& p.pid == d.target.pid
    &&& p.ppid == d.source.pid
    &&& p.name@ == d.target.name
    &&& p.path@ == d.target.path
    &&& p.cmdline@.len() == 0
    &&& p.user@.len() == 0
    &&& p.sha256@.len() == 0
    &&& p.entropy == 0
    &&& !p.is_elevated
    &&& opt_text(p.parent_name) == Some(d.source.name)
    &&& opt_text(p.parent_path) == Some(d.source.path)
    &&& !p.is_signed
    &&& p.signer is None
    &&& p.start_time == d.timestamp
    &&& p.cpu_usage == 0
    &&& p.memory_bytes == 0
    &&& p.company_name is None
    &&& p.file_description is None
    &&& p.product_name is None
    &&& p.file_version is None
    &&& p.environment is None
}

/// The detection of an event that reports an injection.
pub open spec fn event_detection(d: InjectionModel) -> DetectionModel {
    DetectionModel {
        detection_type: DetectionType::Behavioral,
        rule_name: "early_bird_"@ + d.stage.spec_as_str(),
        confidence: d.confidence,
        description: "Early Bird APC Injection: "@ + d.stage.spec_description() + " - "@
            + d.source.name + " (PID "@ + decimal(d.source.pid as nat) + ") -> "@ + d.target.name
            + " (PID "@ + decimal(d.target.pid as nat) + ")"@,
        mitre_tactics: seq!["defense-evasion"@, "privilege-escalation"@],
        mitre_techniques: seq![d.mitre_id],
    }
}

/// A fact, where there is one.
pub open spec fn with_fact(
    facts: Map<Seq<char>, Seq<char>>,
    name: Seq<char>,
    value: Option<Seq<char>>,
) -> Map<Seq<char>, Seq<char>> {
    match value {
        Some(v) => facts.insert(name, v),
        None => facts,
    }
}

/// A number in hexadecimal behind its prefix, where there is one.
pub open spec fn opt_hex(n: Option<u64>) -> Option<Seq<char>> {
    match n {
        Some(n) => Some("0x"@ + hex_upper(n as nat)),
        None => None,
    }
}

/// The facts of an event that reports an injection.
pub open spec fn event_facts(d: InjectionModel) -> Map<Seq<char>, Seq<char>> {
    let base = Map::<Seq<char>, Seq<char>>::empty().insert(
        "stage"@,
        d.stage.spec_as_str(),
    ).insert("source_pid"@, decimal(d.source.pid as nat)).insert(
        "target_pid"@,
        decimal(d.target.pid as nat),
    ).insert("target_thread_id"@, decimal(d.target_thread_id as nat)).insert(
        "mitre_technique"@,
        d.mitre_id,
    ).insert("confidence"@, fraction(d.confidence as nat));
    let routine = with_fact(
        base,
        "apc_routine_address"@,
        if d.apc_routine_address != 0 {
            Some("0x"@ + hex_upper(d.apc_routine_address as nat))
        } else {
            None
        },
    );
    let address = with_fact(routine, "allocation_address"@, opt_hex(d.allocation_address));
    let size = with_fact(
        address,
        "allocation_size"@,
        match d.allocation_size {
            Some(n) => Some(decimal(n as nat)),
            None => None,
        },
    );
    let protection = with_fact(
        size,
        "memory_protection"@,
        match d.memory_protection {
            Some(n) => Some("0x"@ + hex_upper(n as nat)),
            None => None,
        },
    );
    with_fact(
        protection,
        "evidence"@,
        if d.evidence.len() > 0 {
            Some(joined(d.evidence, "; "@))
        } else {
            None
        },
    )
}

fn note(facts: &mut Metadata, name: &str, value: String)
    ensures
        final(facts)@ == old(facts)@.insert(name@, value@),
{
    facts.insert(name.to_string(), value);
}

fn hex_of(n: u64) -> (r: String)
    ensures
        r@ == "0x"@ + hex_upper(n as nat),
{
    "0x".to_string().concat(hex_upper_text(n).as_str())
}

/// The decisions of the collector that watches for injections.
pub struct EarlyBirdCollector {
    /// The processes of the last look around.
    pub known_pids: HashSet<u32>,
    pub detector: EarlyBirdDetector,
}

/// The processes that are new and no part of the system.
pub open spec fn is_new(known: Set<u32>) -> spec_fn(u32) -> bool {
    |pid: u32| !known.contains(pid) && pid > 10
}

/// How often something is done: a usual interval times a multiplier in
/// millionths, and no more often than the least interval says.
pub open spec fn interval(usual_ms: u64, least_ms: u64, multiplier: u32) -> u64 {
    let scaled = usual_ms * multiplier / 1_000_000;
    if scaled > least_ms {
        scaled as u64
    } else {
        least_ms
    }
}

/// How often something is done: a usual interval times a multiplier in
/// millionths, and no more often than the least interval says.
pub fn scan_interval(usual_ms: u64, least_ms: u64, multiplier: u32) -> (r: u64)
    requires
        usual_ms <= 0xffff_ffff,
    ensures
        r == interval(usual_ms, least_ms, multiplier),
{
    assert(usual_ms * multiplier <= 0xffff_ffff * 0xffff_ffff) by (nonlinear_arith)
        requires
            usual_ms <= 0xffff_ffff,
            multiplier <= 0xffff_ffff,
    ;
    let m: u64 = multiplier as u64;
    assert(usual_ms * m == usual_ms * multiplier);
    let scaled: u64 = usual_ms * m / 1_000_000;
    if scaled > least_ms {
        scaled
    } else {
        least_ms
    }
}

/// The first thread of a process, in a list of owners and threads.
pub open spec fn first_thread(threads: Seq<(u32, u32)>, pid: u32) -> Option<u32>
    decreases threads.len(),
{
    if threads.len() == 0 {
        None
    } else if threads[0].0 == pid {
        Some(threads[0].1)
    } else {
        first_thread(threads.drop_first(), pid)
    }
}

/// The first thread of a process, in a list of owners and threads.
pub fn initial_thread(threads: &Vec<(u32, u32)>, pid: u32) -> (r: Option<u32>)
    ensures
        r == first_thread(threads@, pid),
{
    let ghost all = threads@;
    let mut i: usize = 0;
    assert(all.skip(0) =~= all);
    while i < threads.len()
        invariant
            i <= threads@.len(),
            all == threads@,
            first_thread(all.skip(i as int), pid) == first_thread(all, pid),
        decreases threads@.len() - i,
    {
        assert(all.skip(i as int).drop_first() =~= all.skip(i + 1));
        if threads[i].0 == pid {
            return Some(threads[i].1);
        }
        i += 1;
    }
    None
}

/// Whether the answer to a question after a thread's suspensions says that it is
/// suspended.
pub fn check_thread_suspended(status: i32, suspend_count: u32) -> (r: bool)
    ensures
        r == (status == 0 && suspend_count > 0),
{
    status == 0 && suspend_count > 0
}

impl EarlyBirdCollector {
    /// A collector that knows the processes of a first look around.
    pub fn new(pids: &Vec<u32>) -> (r: EarlyBirdCollector)
        ensures
            r.detector.wf(),
            r.detector@ == Seq::<SuspendedModel>::empty(),
            r.detector.config == (EarlyBirdConfig {
                max_track_time_ms: 60_000,
                min_confidence: 500_000,
                verbose: false,
            }),
            r.detector.known_detections@.len() == 0,
            r.known_pids@ == pids@.to_set(),
    {
        EarlyBirdCollector {
            known_pids: pid_set(pids),
            detector: EarlyBirdDetector::new(EarlyBirdConfig::default()),
        }
    }

    /// Takes the processes of a look around; the new ones are to be examined.
    pub fn take_snapshot(&mut self, pids: &Vec<u32>) -> (r: Vec<u32>)
        ensures
            r@ == pids@.filter(is_new(old(self).known_pids@)),
            final(self).known_pids@ == pids@.to_set(),
            final(self).detector == old(self).detector,
    {
        let ghost p = is_new(self.known_pids@);
        let mut r: Vec<u32> = Vec::new();
        let mut i: usize = 0;
        proof {
            crate::collect::lemma_filter_nothing(pids@, p);
        }
        while i < pids.len()
            invariant
                i <= pids@.len(),
                *self == *old(self),
                p == is_new(self.known_pids@),
                r@ == pids@.take(i as int).filter(p),
            decreases pids@.len() - i,
        {
            proof {
                crate::collect::lemma_filter_step(pids@, i as int, p);
            }
            if !self.known_pids.contains(&pids[i]) && pids[i] > 10 {
                r.push(pids[i]);
            }
            i += 1;
        }
        assert(pids@.take(i as int) =~= pids@);
        self.known_pids = pid_set(pids);
        r
    }

    /// Whether the threads of a process are looked at: not those of the system
    /// and not our own.
    pub fn is_scanned(pid: u32, own_pid: u32) -> (r: bool)
        ensures
            r == (pid > 10 && pid != own_pid),
    {
        pid > 10 && pid != own_pid
    }

    /// The event that reports an injection.
    pub fn create_event(detection: &EarlyBirdDetection) -> (event: TelemetryEvent)
        ensures
            event.event_type == EventType::ProcessInject,
            event.severity == severity_of(detection.confidence),
            event.payload matches EventPayload::Process(p) && is_target(p, detection@),
            detections_view(event.detections@) == seq![event_detection(detection@)],
            event.metadata@ == event_facts(detection@),
    {
        let severity = if detection.confidence >= 900_000 {
            Severity::Critical
        } else if detection.confidence >= 700_000 {
            Severity::High
        } else if detection.confidence >= 500_000 {
            Severity::Medium
        } else {
            Severity::Low
        };
        let mut event = TelemetryEvent::new(
            EventType::ProcessInject,
            severity,
            EventPayload::Process(
                ProcessEvent {
                    pid: detection.target_pid,
                    ppid: detection.source_pid,
                    name: detection.target_name.clone(),
                    path: detection.target_path.clone(),
                    cmdline: String::new(),
                    user: String::new(),
                    sha256: Vec::new(),
                    entropy: 0,
                    is_elevated: false,
                    parent_name: Some(detection.source_name.clone()),
                    parent_path: Some(detection.source_path.clone()),
                    is_signed: false,
                    signer: None,
                    start_time: detection.timestamp,
                    cpu_usage: 0,
                    memory_bytes: 0,
                    company_name: None,
                    file_description: None,
                    product_name: None,
                    file_version: None,
                    environment: None,
                },
            ),
        );
        let mitre_tactics = vec![
            "defense-evasion".to_string(),
            "privilege-escalation".to_string(),
        ];
        let mitre_techniques = vec![detection.mitre_id.to_string()];
        assert(texts(mitre_tactics@) =~= seq!["defense-evasion"@, "privilege-escalation"@]);
        assert(texts(mitre_techniques@) =~= seq![detection.mitre_id@]);
        let description = "Early Bird APC Injection: ".to_string().concat(
            detection.stage.description(),
        ).concat(" - ").concat(detection.source_name.as_str()).concat(" (PID ").concat(
            decimal_text(detection.source_pid as u64).as_str(),
        ).concat(") -> ").concat(detection.target_name.as_str()).concat(" (PID ").concat(
            decimal_text(detection.target_pid as u64).as_str(),
        ).concat(")");
        event.add_detection(
            Detection {
                detection_type: DetectionType::Behavioral,
                rule_name: "early_bird_".to_string().concat(detection.stage.as_str()),
                confidence: detection.confidence,
                description,
                mitre_tactics,
                mitre_techniques,
            },
        );
        assert(detections_view(event.detections@) =~= seq![event_detection(detection@)]);
        note(&mut event.metadata, "stage", detection.stage.as_str().to_string());
        note(&mut event.metadata, "source_pid", decimal_text(detection.source_pid as u64));
        note(&mut event.metadata, "target_pid", decimal_text(detection.target_pid as u64));
        note(
            &mut event.metadata,
            "target_thread_id",
            decimal_text(detection.target_thread_id as u64),
        );
        note(&mut event.metadata, "mitre_technique", detection.mitre_id.to_string());
        note(&mut event.metadata, "confidence", fraction_text(detection.confidence as u64));
        if detection.apc_routine_address != 0 {
            note(
                &mut event.metadata,
                "apc_routine_address",
                hex_of(detection.apc_routine_address),
            );
        }
        if let Some(address) = detection.allocation_address {
            note(&mut event.metadata, "allocation_address", hex_of(address));
        }
        if let Some(size) = detection.allocation_size {
            note(&mut event.metadata, "allocation_size", decimal_text(size));
        }
        if let Some(protection) = detection.memory_protection {
            note(&mut event.metadata, "memory_protection", hex_of(protection as u64));
        }
        if detection.evidence.len() > 0 {
            note(&mut event.metadata, "evidence", join(&detection.evidence, "; "));
        }
        event
    }
}

fn pid_set(pids: &Vec<u32>) -> (r: HashSet<u32>)
    ensures
        r@ == pids@.to_set(),
{
    let mut r: HashSet<u32> = HashSet::new();
    let mut i: usize = 0;
    while i < pids.len()
        invariant
            i <= pids@.len(),
            forall|p: u32|
                r@.contains(p) <==> exists|j: int| 0 <= j < i && #[trigger] pids@[j] == p,
        decreases pids@.len() - i,
    {
        r.insert(pids[i]);
        assert forall|p: u32|
            r@.contains(p) <==> exists|j: int| 0 <= j < i + 1 && #[trigger] pids@[j] == p by {
            if p == pids@[i as int] {
                assert(pids@[i as int] == p);
            }
        }
        i += 1;
    }
    assert(r@ =~= pids@.to_set());
    r
}

/// A process that was followed, into which memory was allocated and to which a
/// call was queued, is reported as a full injection when it is resumed.
pub proof fn law_full_sequence_is_reported(
    s: SuspendedModel,
    source: IdentityModel,
    thread_id: u32,
    now: u64,
)
    requires
        s.allocations.len() > 0,
        s.apc_events.len() > 0,
    ensures
        resume_report(s, source, thread_id, now).stage == EarlyBirdStage::FullSequence,
        resume_report(s, source, thread_id, now).confidence == 950_000,
{
}

/// A resumed process without an allocation or without a queued call is no full
/// injection.
pub proof fn law_incomplete_sequence_is_not_full(
    s: SuspendedModel,
    source: IdentityModel,
    thread_id: u32,
    now: u64,
)
    requires
        s.allocations.len() == 0 || s.apc_events.len() == 0,
    ensures
        resume_report(s, source, thread_id, now).stage == EarlyBirdStage::ThreadResumed,
        resume_report(s, source, thread_id, now).confidence < 950_000,
{
}

/// The reports of a followed process are never more than sure.
pub proof fn law_reports_within_bounds(
    s: SuspendedModel,
    source: IdentityModel,
    thread_id: u32,
    routine: u64,
    argument: u64,
    unbacked: bool,
    now: u64,
)
    ensures
        apc_report(s, source, thread_id, routine, argument, unbacked, now).confidence <= 1_000_000,
        resume_report(s, source, thread_id, now).confidence <= 1_000_000,
{
}

/// A process is found once it is followed, in the state it was last given.
pub proof fn law_followed_process_is_found(s: Seq<SuspendedModel>, p: SuspendedModel)
    ensures
        find(with_suspended(s, p), p.process.pid) matches Some(i) && with_suspended(s, p)[i] == p,
{
    let meets = has_pid(p.process.pid);
    let after = with_suspended(s, p);
    lemma_first_index(s, meets);
    match find(s, p.process.pid) {
        Some(i) => {
            assert forall|j: int| 0 <= j < i implies !meets(#[trigger] after[j]) by {
                assert(!meets(s[j]));
            }
            crate::collect::lemma_first_index_is(after, meets, i);
        },
        None => {
            assert forall|j: int| 0 <= j < s.len() implies !meets(#[trigger] after[j]) by {
                assert(!meets(s[j]));
            }
            crate::collect::lemma_first_index_is(after, meets, s.len() as int);
        },
    }
}

/// What was reported of a thread is not reported again.
pub proof fn law_reported_once(
    min_confidence: u32,
    known: Seq<(u32, u32, Seq<char>)>,
    d: InjectionModel,
    again: InjectionModel,
)
    requires
        report_key(d) == report_key(again),
    ensures
        !to_report(min_confidence, known.push(report_key(d)), again),
{
    let after = known.push(report_key(d));
    assert(after[known.len() as int] == report_key(again));
}

/// The followed processes after a detector that followed none was told the first `n`
/// of some things.
pub open spec fn after_calls(calls: Seq<RecordedCall>, n: nat) -> Seq<SuspendedModel>
    decreases n,
{
    if n == 0 {
        Seq::empty()
    } else {
        after_call(after_calls(calls, (n - 1) as nat), calls[n - 1])
    }
}

/// Whether a process was created suspended by one of the first `n` calls.
pub open spec fn was_created(calls: Seq<RecordedCall>, pid: u32, n: nat) -> bool {
    exists|i: int|
        0 <= i < n && (#[trigger] calls[i]) is Created && target_of(calls[i]) == pid
}

/// How many allocations in a process there are among the first `n` calls since it
/// was last created.
pub open spec fn allocations_since(calls: Seq<RecordedCall>, pid: u32, n: nat) -> nat
    decreases n,
{
    if n == 0 {
        0
    } else {
        let before = allocations_since(calls, pid, (n - 1) as nat);
        if target_of(calls[n - 1]) != pid {
            before
        } else if calls[n - 1] is Created {
            0
        } else if calls[n - 1] is Allocated {
            before + 1
        } else {
            before
        }
    }
}

/// How many calls queued to a process there are among the first `n` calls since it
/// was last created.
pub open spec fn queued_since(calls: Seq<RecordedCall>, pid: u32, n: nat) -> nat
    decreases n,
{
    if n == 0 {
        0
    } else {
        let before = queued_since(calls, pid, (n - 1) as nat);
        if target_of(calls[n - 1]) != pid {
            before
        } else if calls[n - 1] is Created {
            0
        } else if calls[n - 1] is Queued {
            before + 1
        } else {
            before
        }
    }
}

/// Whether every process that is told of as created is in the state of one that was.
pub open spec fn fresh_creations(calls: Seq<RecordedCall>) -> bool {
    forall|i: int|
        0 <= i < calls.len() ==> ((#[trigger] calls[i]) matches RecordedCall::Created { state }
            ==> state.allocations.len() == 0 && state.apc_events.len() == 0)
}

/// The state of a process, where it is followed.
pub open spec fn state_of(s: Seq<SuspendedModel>, pid: u32) -> Option<SuspendedModel> {
    match find(s, pid) {
        Some(i) => Some(s[i]),
        None => None,
    }
}

proof fn lemma_marked_len(allocations: Seq<MemoryAllocation>, address: u64)
    ensures
        marked(allocations, address).len() == allocations.len(),
    decreases allocations.len(),
{
    if allocations.len() > 0 && !within(address, allocations[0]) {
        lemma_marked_len(allocations.drop_first(), address);
    }
}

proof fn lemma_state_after_call(s: Seq<SuspendedModel>, call: RecordedCall, pid: u32)
    ensures
        state_of(after_call(s, call), pid) == if pid != target_of(call) {
            state_of(s, pid)
        } else {
            match state_of(s, pid) {
                Some(p) => Some(state_after(p, call)),
                None => match call {
                    RecordedCall::Created { state } => Some(state),
                    _ => None,
                },
            }
        },
{
    let after = after_call(s, call);
    let target = target_of(call);
    let p = has_pid(pid);
    lemma_first_index(s, has_pid(target));
    lemma_first_index(s, p);
    lemma_first_index(after, p);
    match find(s, target) {
        Some(i) => {
            assert(has_pid(target)(s[i]));
            assert(after[i].process.pid == target);
            assert forall|j: int| 0 <= j < s.len() implies p(#[trigger] after[j]) == p(s[j]) by {
                if j != i {
                    assert(after[j] == s[j]);
                }
            }
            match find(s, pid) {
                Some(k) => {
                    assert forall|j: int| 0 <= j < k implies !p(#[trigger] after[j]) by {
                        assert(!p(s[j]));
                    }
                    assert(p(s[k]) && p(after[k]));
                    crate::collect::lemma_first_index_is(after, p, k);
                },
                None => {
                    if let Some(k) = find(after, pid) {
                        assert(p(after[k]));
                        assert(p(s[k]));
                    }
                },
            }
        },
        None => {
            if let RecordedCall::Created { state } = call {
                match find(s, pid) {
                    Some(k) => {
                        assert forall|j: int| 0 <= j < k implies !p(#[trigger] after[j]) by {
                            assert(!p(s[j]));
                        }
                        assert(p(s[k]) && after[k] == s[k]);
                        crate::collect::lemma_first_index_is(after, p, k);
                    },
                    None => {
                        assert forall|j: int| 0 <= j < s.len() implies !p(#[trigger] after[j]) by {
                            assert(!p(s[j]));
                        }
                        assert(after[s.len() as int] == state);
                        if p(state) {
                            crate::collect::lemma_first_index_is(after, p, s.len() as int);
                        } else if let Some(k) = find(after, pid) {
                            assert(p(after[k]));
                        }
                    },
                }
            }
        },
    }
}

proof fn lemma_state_after_calls(calls: Seq<RecordedCall>, pid: u32, n: nat)
    requires
        n <= calls.len(),
        fresh_creations(calls),
    ensures
        match state_of(after_calls(calls, n), pid) {
            Some(s) => was_created(calls, pid, n) && s.allocations.len() == allocations_since(
                calls,
                pid,
                n,
            ) && s.apc_events.len() == queued_since(calls, pid, n),
            None => !was_created(calls, pid, n),
        },
    decreases n,
{
    if n == 0 {
        lemma_first_index(Seq::<SuspendedModel>::empty(), has_pid(pid));
    } else {
        let m = (n - 1) as nat;
        let call = calls[n - 1];
        lemma_state_after_calls(calls, pid, m);
        lemma_state_after_call(after_calls(calls, m), call, pid);
        if was_created(calls, pid, m) {
            let i = choose|i: int|
                0 <= i < m && (#[trigger] calls[i]) is Created && target_of(calls[i]) == pid;
            assert(calls[i] is Created);
            assert(was_created(calls, pid, n));
        } else if was_created(calls, pid, n) {
            let i = choose|i: int|
                0 <= i < n && (#[trigger] calls[i]) is Created && target_of(calls[i]) == pid;
            assert(i == n - 1);
        }
        if let RecordedCall::Written { address, .. } = call {
            if let Some(s) = state_of(after_calls(calls, m), pid) {
                lemma_marked_len(s.allocations, address);
            }
        }
    }
}

/// Whatever a detector was told, in any order: a resumed process is reported exactly
/// where it was created suspended, and as a full injection exactly where since then
/// memory was allocated in it and a call was queued to it. Otherwise the report is
/// less than nine tenths sure.
pub proof fn law_stage_of_a_resume(
    calls: Seq<RecordedCall>,
    pid: u32,
    source: IdentityModel,
    thread_id: u32,
    now: u64,
)
    requires
        fresh_creations(calls),
    ensures
        match find(after_calls(calls, calls.len()), pid) {
            None => !was_created(calls, pid, calls.len()),
            Some(i) => was_created(calls, pid, calls.len()) && {
                let s = after_calls(calls, calls.len())[i];
                let report = resume_report(s, source, thread_id, now);
                if allocations_since(calls, pid, calls.len()) > 0 && queued_since(
                    calls,
                    pid,
                    calls.len(),
                ) > 0 {
                    report.stage == EarlyBirdStage::FullSequence && report.confidence == 950_000
                } else {
                    report.stage == EarlyBirdStage::ThreadResumed && report.confidence < 900_000
                }
            },
        },
{
    lemma_state_after_calls(calls, pid, calls.len());
    let s = state_of(after_calls(calls, calls.len()), pid);
    if s is Some && s->0.allocations.len() == 0 {
        assert(!any_written(s->0.allocations));
    }
}

/// How sure the reports are: less for a creation than for an allocation, less for one that
/// lets no code run, more for a write; a queued call is surer where it goes to the first
/// thread, where its routine has no file behind it and where it lies in what was
/// allocated; a resumed thread is surer where calls wait, memory was allocated and it was
/// written to, and surest where calls wait and memory was allocated.
pub proof fn law_how_sure_the_reports_are(
    s: SuspendedModel,
    source: IdentityModel,
    address: u64,
    size: u64,
    protection: u32,
    thread_id: u32,
    argument: u64,
    routine_unbacked: bool,
    now: u64,
)
    ensures
        ({
            let one = |b: bool, n: int|
                if b {
                    n
                } else {
                    0
                };
            let held = exists|i: int|
                0 <= i < s.allocations.len() && (#[trigger] s.allocations[i]).address <= address
                    < s.allocations[i].address + s.allocations[i].size;
            let written = exists|i: int|
                0 <= i < s.allocations.len() && (#[trigger] s.allocations[i]).written;
            let calls = s.apc_events.len() > 0;
            let allocated = s.allocations.len() > 0;
            &&& creation_report(s.process, source, thread_id, now).confidence == 300_000
            &&& allocation_report(s, source, address, size, protection, now).confidence == 400_000
                + one((protection / 16) % 16 != 0, 150_000)
            &&& write_report(s, source, address, size, now).confidence == 600_000
            &&& apc_report(
                s,
                source,
                thread_id,
                address,
                argument,
                routine_unbacked,
                now,
            ).confidence == 700_000 + one(thread_id == s.initial_thread_id, 150_000) + one(
                routine_unbacked,
                100_000,
            ) + one(held, 50_000)
            &&& resume_report(s, source, thread_id, now).confidence == if calls && allocated {
                950_000
            } else {
                500_000 + one(calls, 250_000) + one(allocated, 100_000) + one(written, 100_000)
            }
            &&& resume_report(s, source, thread_id, now).stage == EarlyBirdStage::FullSequence
                <==> calls && allocated
        }),
{
    lemma_protection_bits(protection);
    assert(in_allocation(s.allocations, address) == (exists|i: int|
        0 <= i < s.allocations.len() && (#[trigger] s.allocations[i]).address <= address
            < s.allocations[i].address + s.allocations[i].size)) by {
        if in_allocation(s.allocations, address) {
            let i = choose|i: int|
                0 <= i < s.allocations.len() && within(address, #[trigger] s.allocations[i]);
            assert(s.allocations[i].address <= address);
        }
        if exists|i: int|
            0 <= i < s.allocations.len() && (#[trigger] s.allocations[i]).address <= address
                < s.allocations[i].address + s.allocations[i].size {
            let i = choose|i: int|
                0 <= i < s.allocations.len() && (#[trigger] s.allocations[i]).address <= address
                    < s.allocations[i].address + s.allocations[i].size;
            assert(within(address, s.allocations[i]));
        }
    }
}

proof fn lemma_protection_bits(protection: u32)
    ensures
        executable(protection) <==> (protection / 16) % 16 != 0,
{
    assert((protection & 0x10 != 0 || protection & 0x20 != 0 || protection & 0x40 != 0 || protection
        & 0x80 != 0) <==> (protection / 16) % 16 != 0) by (bit_vector);
}

/// A thread is reported exactly where it runs in memory that is committed, private and
/// lets code run.
pub proof fn law_threads_in_private_memory_are_reported(
    process: IdentityModel,
    thread_id: u32,
    probe: ThreadProbe,
    now: u64,
)
    ensures
        thread_report(process, thread_id, probe, now) is Some <==> (probe.state / 0x1000) % 2 == 1
            && (probe.mem_type / 0x2_0000) % 2 == 1 && (probe.protection / 16) % 16 != 0,
        thread_report(process, thread_id, probe, now) matches Some(d) ==> {
            &&& d.target == process
            &&& d.target_thread_id == thread_id
            &&& d.confidence == 750_000
            &&& d.stage == EarlyBirdStage::ApcTargetUnbacked
            &&& d.apc_routine_address == probe.instruction
        },
{
    let state = probe.state;
    let mem_type = probe.mem_type;
    lemma_protection_bits(probe.protection);
    assert((state & 0x1000 != 0) <==> (state / 0x1000) % 2 == 1) by (bit_vector);
    assert((mem_type & 0x20000 != 0) <==> (mem_type / 0x2_0000) % 2 == 1) by (bit_vector);
}

/// A write marks the first allocation that holds its address, and no other.
pub proof fn law_writes_mark_what_they_hit(allocations: Seq<MemoryAllocation>, address: u64, i: int)
    requires
        0 <= i < allocations.len(),
    ensures
        marked(allocations, address).len() == allocations.len(),
        within(address, allocations[i]) && (forall|j: int|
            0 <= j < i ==> !within(address, #[trigger] allocations[j])) ==> marked(
            allocations,
            address,
        )[i] == (MemoryAllocation { written: true, ..allocations[i] }),
        !within(address, allocations[i]) || (exists|j: int|
            0 <= j < i && within(address, #[trigger] allocations[j])) ==> marked(
            allocations,
            address,
        )[i] == allocations[i],
    decreases allocations.len(),
{
    let rest = allocations.drop_first();
    if within(address, allocations[0]) {
        if i > 0 {
            assert(within(address, allocations[0]));
        }
    } else {
        assert(forall|j: int| 0 <= j < rest.len() ==> #[trigger] rest[j] == allocations[j + 1]);
        assert(marked(allocations, address) == seq![allocations[0]] + marked(rest, address));
        if i > 0 {
            law_writes_mark_what_they_hit(rest, address, i - 1);
            if forall|j: int| 0 <= j < i ==> !within(address, #[trigger] allocations[j]) {
                assert forall|j: int| 0 <= j < i - 1 implies !within(address, #[trigger] rest[j]) by {
                    assert(!within(address, allocations[j + 1]));
                }
            }
            if exists|j: int| 0 <= j < i && within(address, #[trigger] allocations[j]) {
                let j = choose|j: int| 0 <= j < i && within(address, #[trigger] allocations[j]);
                assert(rest[j - 1] == allocations[j]);
            }
        } else {
            if rest.len() > 0 {
                law_writes_mark_what_they_hit(rest, address, 0);
            }
        }
    }
}

/// What a report is taken for: critical from nine tenths on, high from seven, medium from
/// half on, and low below that.
pub proof fn law_severity_follows_confidence(confidence: u32)
    ensures
        severity_of(confidence) == Severity::Critical <==> confidence >= 900_000,
        severity_of(confidence) == Severity::High <==> 700_000 <= confidence < 900_000,
        severity_of(confidence) == Severity::Medium <==> 500_000 <= confidence < 700_000,
        severity_of(confidence) == Severity::Low <==> confidence < 500_000,
{
}

/// A report tells who did what to whom, and when.
pub proof fn law_reports_tell_what_happened(
    s: SuspendedModel,
    source: IdentityModel,
    address: u64,
    size: u64,
    protection: u32,
    thread_id: u32,
    argument: u64,
    routine_unbacked: bool,
    now: u64,
)
    ensures
        ({
            let created = creation_report(s.process, source, thread_id, now);
            let allocated = allocation_report(s, source, address, size, protection, now);
            let written = write_report(s, source, address, size, now);
            let queued = apc_report(
                s,
                source,
                thread_id,
                address,
                argument,
                routine_unbacked,
                now,
            );
            let resumed = resume_report(s, source, thread_id, now);
            &&& created.source == source && created.target == s.process
                && created.target_thread_id == thread_id && created.timestamp == now
                && created.stage == EarlyBirdStage::SuspendedProcessCreated
            &&& allocated.source == source && allocated.target == s.process
                && allocated.target_thread_id == s.initial_thread_id
                && allocated.allocation_address == Some(address) && allocated.allocation_size
                == Some(size) && allocated.memory_protection == Some(protection)
                && allocated.timestamp == now && allocated.stage == EarlyBirdStage::MemoryAllocated
            &&& written.source == source && written.target == s.process
                && written.allocation_address == Some(address) && written.allocation_size == Some(
                size,
            ) && written.timestamp == now && written.stage == EarlyBirdStage::MemoryWritten
            &&& queued.source == source && queued.target == s.process && queued.target_thread_id
                == thread_id && queued.apc_routine_address == address && queued.timestamp == now
                && queued.stage == EarlyBirdStage::ApcQueued && (queued.allocation_address is Some
                <==> s.allocations.len() > 0)
            &&& resumed.source == source && resumed.target == s.process
                && resumed.target_thread_id == thread_id && resumed.timestamp == now
                && (s.apc_events.len() > 0 ==> resumed.apc_routine_address
                == s.apc_events.last().routine_address) && (s.allocations.len() > 0
                ==> resumed.allocation_address == Some(s.allocations.last().address))
        }),
{
}

/// What is told of a followed process is noted in its state, behind what was, and changes
/// no other process; a process is followed from its creation on and not before.
pub proof fn law_calls_are_noted(
    s: Seq<SuspendedModel>,
    i: int,
    j: int,
    allocation: MemoryAllocation,
    queued: ApcQueueEvent,
    now: u64,
)
    requires
        0 <= i < s.len(),
        0 <= j < s.len(),
        i != j,
        distinct(s),
    ensures
        ({
            let pid = s[i].process.pid;
            let one = after_call(s, RecordedCall::Allocated { pid, allocation });
            let two = after_call(s, RecordedCall::Queued { pid, call: queued });
            let three = after_call(s, RecordedCall::Resumed { pid, now });
            &&& one.len() == s.len() && two.len() == s.len() && three.len() == s.len()
            &&& one[i].allocations == s[i].allocations.push(allocation) && one[i].apc_events
                == s[i].apc_events && one[j] == s[j]
            &&& two[i].apc_events == s[i].apc_events.push(queued) && two[i].allocations
                == s[i].allocations && two[j] == s[j]
            &&& three[i].resumed && three[i].resume_time == Some(now) && three[i].allocations
                == s[i].allocations && three[i].apc_events == s[i].apc_events && three[j] == s[j]
        }),
{
    let pid = s[i].process.pid;
    lemma_first_index(s, has_pid(pid));
    assert(has_pid(pid)(s[i]));
    let k = find(s, pid)->0;
    assert(has_pid(pid)(s[k]));
    assert(k == i);
}

/// What is sure enough and new of its thread is reported.
pub proof fn law_new_findings_are_reported(
    min_confidence: u32,
    known: Seq<(u32, u32, Seq<char>)>,
    d: InjectionModel,
)
    requires
        d.confidence >= min_confidence,
        forall|k: int|
            0 <= k < known.len() ==> !((#[trigger] known[k]).0 == d.target.pid && known[k].1
                == d.target_thread_id && known[k].2 == d.stage.spec_as_str()),
    ensures
        to_report(min_confidence, known, d),
{
}

/// The names of protections that let code run say so, and no others do.
pub proof fn law_protections_have_names(protection: u32)
    ensures
        protection_name(protection) != "UNKNOWN"@ ==> (executable(protection) <==> crate::text::begins(
            protection_name(protection),
            "PAGE_EXECUTE"@,
        )),
        protection_name(protection) == "UNKNOWN"@ <==> !(protection == 1 || protection == 2
            || protection == 4 || protection == 8 || protection == 16 || protection == 32
            || protection == 64 || protection == 128),
{
    reveal_strlit("UNKNOWN");
    reveal_strlit("PAGE_EXECUTE");
    reveal_strlit("PAGE_NOACCESS");
    reveal_strlit("PAGE_READONLY");
    reveal_strlit("PAGE_READWRITE");
    reveal_strlit("PAGE_WRITECOPY");
    reveal_strlit("PAGE_EXECUTE_READ");
    reveal_strlit("PAGE_EXECUTE_READWRITE");
    reveal_strlit("PAGE_EXECUTE_WRITECOPY");
    lemma_protection_bits(protection);
    let name = protection_name(protection);
    let asked = "PAGE_EXECUTE"@;
    assert("UNKNOWN"@[0] == 'U');
    if protection_name(protection) != "UNKNOWN"@ {
        assert(name[0] == 'P');
        if executable(protection) {
            assert(name.subrange(0, 12) =~= asked);
        } else {
            assert(name[5] != 'E');
            if crate::text::begins(name, asked) {
                assert(name.subrange(0, 12)[5] == name[5]);
            }
        }
    }
    assert(protection == 1 || protection == 2 || protection == 4 || protection == 8 || protection
        == 16 || protection == 32 || protection == 64 || protection == 128 ==> name[0] == 'P');
}

/// The first thread of a process is the first one in the list that is of it.
pub proof fn law_the_first_thread_is_taken(threads: Seq<(u32, u32)>, pid: u32, i: int)
    requires
        0 <= i <= threads.len(),
        forall|j: int| 0 <= j < i ==> (#[trigger] threads[j]).0 != pid,
    ensures
        i < threads.len() && threads[i].0 == pid ==> first_thread(threads, pid) == Some(
            threads[i].1,
        ),
        i == threads.len() ==> first_thread(threads, pid) is None,
    decreases threads.len(),
{
    if i > 0 {
        let rest = threads.drop_first();
        assert(threads[0].0 != pid);
        assert(forall|j: int| 0 <= j < rest.len() ==> #[trigger] rest[j] == threads[j + 1]);
        law_the_first_thread_is_taken(rest, pid, i - 1);
    }
}

/// An interval is never shorter than the least, and with a multiplier of one it is the
/// usual one where that is longer.
pub proof fn law_intervals_have_a_least(usual_ms: u64, least_ms: u64, multiplier: u32)
    requires
        usual_ms <= 0xffff_ffff,
    ensures
        interval(usual_ms, least_ms, multiplier) >= least_ms,
        usual_ms >= least_ms ==> interval(usual_ms, least_ms, 1_000_000) == usual_ms,
        2 * usual_ms >= least_ms ==> interval(usual_ms, least_ms, 2_000_000) == 2 * usual_ms,
{
    assert(usual_ms * 1_000_000 / 1_000_000 == usual_ms);
    assert(usual_ms * 2_000_000 / 1_000_000 == 2 * usual_ms);
    let m = multiplier as int;
    let u = usual_ms as int;
    assert(0 <= u * m <= 0xffff_ffff * 0xffff_ffff) by (nonlinear_arith)
        requires
            0 <= u <= 0xffff_ffff,
            0 <= m <= 0xffff_ffff,
    ;
}

/// The detection that a report becomes is as sure as the report and named by its stage.
pub proof fn law_detections_say_what_the_report_says(d: InjectionModel)
    ensures
        event_detection(d).confidence == d.confidence,
        event_detection(d).rule_name == "early_bird_"@ + d.stage.spec_as_str(),
        event_detection(d).mitre_techniques == seq![d.mitre_id],
        event_detection(d).detection_type == DetectionType::Behavioral,
{
}

} // verus!
