//! Detection of tampering with event tracing: patched and hooked functions,
//! providers and sessions that were switched off, and weakened logs.
use vstd::prelude::*;

use crate::collect::{count_where, lemma_filter_nothing, lemma_filter_step};
use crate::critical_providers::{
    all_critical_guids, critical_guids, name_from_guid, provider_name, THREAT_INTEL_GUID,
};
use crate::telemetry::{Metadata, ONE};
use crate::text::{
    contains, decimal, decimal_text, hex_padded_text, holds, join, joined, lowercase, occurs,
    opt_copy, opt_text, padded, push_text, round_to, rounded, same, str_texts, texts, to_lowercase,
};

verus! {

/// What was done to event tracing.
#[derive(Clone, Copy, Debug, PartialEq, Eq, Structural, Hash)]
pub enum EtwTamperingType {
    FunctionPatch,
    ProviderDisabled,
    TraceSessionStopped,
    ProviderUnregistered,
    AmsiBypass,
    NopSled,
    ProviderUnregistrationAttack,
    TraceLoggingTampering,
    EventWriteHook,
    SessionManipulation,
    ThreatIntelProviderTargeted,
    ThreatIntelProviderDisabled,
    NotificationCallbackRemoved,
    PrivateLoggerHijack,
    CriticalProviderMissing,
    RegistryTampering,
    SyscallHook,
}

impl EtwTamperingType {
    /// The ATT&CK technique of the kind.
    pub open spec fn spec_mitre_technique(&self) -> Seq<char> {
        match self {
            EtwTamperingType::AmsiBypass => "T1562.001"@,
            _ => "T1562.006"@,
        }
    }

    /// What the kind means.
    pub open spec fn spec_description(&self) -> Seq<char> {
        match self {
            EtwTamperingType::FunctionPatch => "ETW function has been patched to disable event logging"@,
            EtwTamperingType::ProviderDisabled => "ETW provider has been disabled via registry"@,
            EtwTamperingType::TraceSessionStopped => "ETW trace session has been stopped"@,
            EtwTamperingType::ProviderUnregistered => "ETW provider has been unregistered"@,
            EtwTamperingType::AmsiBypass => "AMSI scanning has been bypassed"@,
            EtwTamperingType::NopSled => "NOP sled detected in ETW function (potential patch)"@,
            EtwTamperingType::ProviderUnregistrationAttack => "Abuse of EtwEventUnregister to disable providers"@,
            EtwTamperingType::TraceLoggingTampering => "TraceLogging provider metadata has been tampered"@,
            EtwTamperingType::EventWriteHook => "EventWrite function has been hooked/redirected"@,
            EtwTamperingType::SessionManipulation => "ETW session configuration has been manipulated"@,
            EtwTamperingType::ThreatIntelProviderTargeted => "Threat Intelligence ETW provider is being targeted"@,
            EtwTamperingType::ThreatIntelProviderDisabled => "Microsoft-Windows-Threat-Intelligence provider is disabled"@,
            EtwTamperingType::NotificationCallbackRemoved => "ETW notification callbacks have been removed"@,
            EtwTamperingType::PrivateLoggerHijack => "Private ETW logger session has been hijacked"@,
            EtwTamperingType::CriticalProviderMissing => "Critical ETW provider is missing or corrupted"@,
            EtwTamperingType::RegistryTampering => "ETW configuration registry keys have been tampered"@,
            EtwTamperingType::SyscallHook => "Direct syscall hook detected on ETW functions"@,
        }
    }

    /// How severe the kind is, in millionths.
    pub open spec fn spec_severity(&self) -> u32 {
        match self {
            EtwTamperingType::FunctionPatch => 900_000,
            EtwTamperingType::ProviderDisabled => 700_000,
            EtwTamperingType::TraceSessionStopped => 650_000,
            EtwTamperingType::ProviderUnregistered => 600_000,
            EtwTamperingType::AmsiBypass => 750_000,
            EtwTamperingType::NopSled => 700_000,
            EtwTamperingType::ProviderUnregistrationAttack => 850_000,
            EtwTamperingType::TraceLoggingTampering => 750_000,
            EtwTamperingType::EventWriteHook => 900_000,
            EtwTamperingType::SessionManipulation => 800_000,
            EtwTamperingType::ThreatIntelProviderTargeted => 950_000,
            EtwTamperingType::ThreatIntelProviderDisabled => 1_000_000,
            EtwTamperingType::NotificationCallbackRemoved => 950_000,
            EtwTamperingType::PrivateLoggerHijack => 850_000,
            EtwTamperingType::CriticalProviderMissing => 850_000,
            EtwTamperingType::RegistryTampering => 700_000,
            EtwTamperingType::SyscallHook => 900_000,
        }
    }

    /// The ATT&CK technique of the kind.
    pub fn mitre_technique(&self) -> (r: &'static str)
        ensures
            r@ == self.spec_mitre_technique(),
    {
        match self {
            EtwTamperingType::AmsiBypass => "T1562.001",
            _ => "T1562.006",
        }
    }

    /// What the kind means.
    pub fn description(&self) -> (r: &'static str)
        ensures
            r@ == self.spec_description(),
    {
        match self {
            EtwTamperingType::FunctionPatch => "ETW function has been patched to disable event logging",
            EtwTamperingType::ProviderDisabled => "ETW provider has been disabled via registry",
            EtwTamperingType::TraceSessionStopped => "ETW trace session has been stopped",
            EtwTamperingType::ProviderUnregistered => "ETW provider has been unregistered",
            EtwTamperingType::AmsiBypass => "AMSI scanning has been bypassed",
            EtwTamperingType::NopSled => "NOP sled detected in ETW function (potential patch)",
            EtwTamperingType::ProviderUnregistrationAttack => "Abuse of EtwEventUnregister to disable providers",
            EtwTamperingType::TraceLoggingTampering => "TraceLogging provider metadata has been tampered",
            EtwTamperingType::EventWriteHook => "EventWrite function has been hooked/redirected",
            EtwTamperingType::SessionManipulation => "ETW session configuration has been manipulated",
            EtwTamperingType::ThreatIntelProviderTargeted => "Threat Intelligence ETW provider is being targeted",
            EtwTamperingType::ThreatIntelProviderDisabled => "Microsoft-Windows-Threat-Intelligence provider is disabled",
            EtwTamperingType::NotificationCallbackRemoved => "ETW notification callbacks have been removed",
            EtwTamperingType::PrivateLoggerHijack => "Private ETW logger session has been hijacked",
            EtwTamperingType::CriticalProviderMissing => "Critical ETW provider is missing or corrupted",
            EtwTamperingType::RegistryTampering => "ETW configuration registry keys have been tampered",
            EtwTamperingType::SyscallHook => "Direct syscall hook detected on ETW functions",
        }
    }

    /// How severe the kind is, in millionths.
    pub fn severity(&self) -> (r: u32)
        ensures
            r == self.spec_severity(),
            r <= ONE,
    {
        match self {
            EtwTamperingType::FunctionPatch => 900_000,
            EtwTamperingType::ProviderDisabled => 700_000,
            EtwTamperingType::TraceSessionStopped => 650_000,
            EtwTamperingType::ProviderUnregistered => 600_000,
            EtwTamperingType::AmsiBypass => 750_000,
            EtwTamperingType::NopSled => 700_000,
            EtwTamperingType::ProviderUnregistrationAttack => 850_000,
            EtwTamperingType::TraceLoggingTampering => 750_000,
            EtwTamperingType::EventWriteHook => 900_000,
            EtwTamperingType::SessionManipulation => 800_000,
            EtwTamperingType::ThreatIntelProviderTargeted => 950_000,
            EtwTamperingType::ThreatIntelProviderDisabled => 1_000_000,
            EtwTamperingType::NotificationCallbackRemoved => 950_000,
            EtwTamperingType::PrivateLoggerHijack => 850_000,
            EtwTamperingType::CriticalProviderMissing => 850_000,
            EtwTamperingType::RegistryTampering => 700_000,
            EtwTamperingType::SyscallHook => 900_000,
        }
    }
}

/// A detection of tampering.
pub struct EtwTamperingDetection {
    pub detection_type: EtwTamperingType,
    /// In millionths.
    pub confidence: u32,
    pub mitre_technique: String,
    pub description: String,
    pub details: Metadata,
    /// In seconds since the Unix epoch.
    pub timestamp: u64,
}

/// What a detection says.
#[verifier::ext_equal]
pub struct TamperingModel {
    pub detection_type: EtwTamperingType,
    pub confidence: u32,
    pub mitre_technique: Seq<char>,
    pub description: Seq<char>,
    pub details: Map<Seq<char>, Seq<char>>,
    pub timestamp: u64,
}

impl View for EtwTamperingDetection {
    type V = TamperingModel;

    open spec fn view(&self) -> TamperingModel {
        TamperingModel {
            detection_type: self.detection_type,
            confidence: self.confidence,
            mitre_technique: self.mitre_technique@,
            description: self.description@,
            details: self.details@,
            timestamp: self.timestamp,
        }
    }
}

/// What a sequence of detections says.
pub open spec fn detections_view(v: Seq<EtwTamperingDetection>) -> Seq<TamperingModel> {
    v.map_values(|d: EtwTamperingDetection| d@)
}

/// What an optional detection says.
pub open spec fn detection_view(d: Option<EtwTamperingDetection>) -> Option<TamperingModel> {
    match d {
        Some(d) => Some(d@),
        None => None,
    }
}

/// The one item, or none.
pub open spec fn at_most_one(d: Option<TamperingModel>) -> Seq<TamperingModel> {
    match d {
        Some(d) => seq![d],
        None => Seq::empty(),
    }
}

/// A detection of indicator blocking.
pub open spec fn tampering(
    detection_type: EtwTamperingType,
    confidence: u32,
    description: Seq<char>,
    details: Map<Seq<char>, Seq<char>>,
    timestamp: u64,
) -> TamperingModel {
    TamperingModel {
        detection_type,
        confidence,
        mitre_technique: "T1562.006"@,
        description,
        details,
        timestamp,
    }
}

/// No facts.
pub open spec fn no_facts() -> Map<Seq<char>, Seq<char>> {
    Map::empty()
}

fn tampering_of(
    detection_type: EtwTamperingType,
    confidence: u32,
    description: String,
    details: Metadata,
    timestamp: u64,
) -> (d: EtwTamperingDetection)
    ensures
        d@ == tampering(detection_type, confidence, description@, details@, timestamp),
{
    EtwTamperingDetection {
        detection_type,
        confidence,
        mitre_technique: "T1562.006".to_string(),
        description,
        details,
        timestamp,
    }
}

fn fact(details: Metadata, name: &str, value: &str) -> (r: Metadata)
    ensures
        r@ == details@.insert(name@, value@),
{
    let mut r = details;
    r.insert(name.to_string(), value.to_string());
    r
}

fn push_some(list: &mut Vec<EtwTamperingDetection>, d: Option<EtwTamperingDetection>)
    ensures
        detections_view(final(list)@) == detections_view(old(list)@) + at_most_one(
            detection_view(d),
        ),
{
    match d {
        Some(d) => {
            list.push(d);
            assert(detections_view(list@) =~= detections_view(old(list)@) + seq![d@]);
        },
        None => {
            assert(detections_view(list@) =~= detections_view(old(list)@) + Seq::empty());
        },
    }
}

fn push_all(list: &mut Vec<EtwTamperingDetection>, more: Vec<EtwTamperingDetection>)
    ensures
        detections_view(final(list)@) == detections_view(old(list)@) + detections_view(more@),
{
    let mut more = more;
    let ghost added = more@;
    list.append(&mut more);
    assert(detections_view(list@) =~= detections_view(old(list)@) + detections_view(added));
}

impl Clone for EtwTamperingDetection {
    fn clone(&self) -> (r: EtwTamperingDetection)
        ensures
            r@ == self@,
    {
        EtwTamperingDetection {
            detection_type: self.detection_type,
            confidence: self.confidence,
            mitre_technique: self.mitre_technique.clone(),
            description: self.description.clone(),
            details: self.details.clone(),
            timestamp: self.timestamp,
        }
    }
}

fn copy_detections(v: &Vec<EtwTamperingDetection>) -> (r: Vec<EtwTamperingDetection>)
    ensures
        detections_view(r@) == detections_view(v@),
{
    let mut r: Vec<EtwTamperingDetection> = Vec::new();
    let mut i: usize = 0;
    assert(detections_view(r@) =~= detections_view(v@).take(0));
    while i < v.len()
        invariant
            i <= v@.len(),
            detections_view(r@) == detections_view(v@).take(i as int),
        decreases v@.len() - i,
    {
        let ghost before = r@;
        r.push(v[i].clone());
        assert(detections_view(r@) =~= detections_view(before).push(v@[i as int]@));
        assert(detections_view(v@).take(i + 1) =~= detections_view(v@).take(i as int).push(
            detections_view(v@)[i as int],
        ));
        i += 1;
    }
    assert(detections_view(v@).take(i as int) =~= detections_view(v@));
    r
}

/// A byte of a function, where there is one.
pub open spec fn byte_at(bytes: Seq<u8>, i: int, b: u8) -> bool {
    0 <= i < bytes.len() && bytes[i] == b
}

/// Whether the first bytes of a function return at once or jump elsewhere.
pub open spec fn patched(b: Seq<u8>) -> bool {
    ||| byte_at(b, 0, 0xC3)
    ||| byte_at(b, 0, 0x33) && byte_at(b, 1, 0xC0) && byte_at(b, 2, 0xC3)
    ||| byte_at(b, 0, 0x31) && byte_at(b, 1, 0xC0) && byte_at(b, 2, 0xC3)
    ||| byte_at(b, 0, 0xB8) && byte_at(b, 5, 0xC3)
    ||| byte_at(b, 0, 0xE9)
    ||| byte_at(b, 0, 0xFF)
    ||| byte_at(b, 0, 0x68) && byte_at(b, 5, 0xC3)
}

/// Whether the first bytes of a function load an address and jump to it.
pub open spec fn hooked(b: Seq<u8>) -> bool {
    b.len() >= 16 && {
        ||| byte_at(b, 0, 0xFF) && byte_at(b, 1, 0x25)
        ||| byte_at(b, 0, 0x48) && byte_at(b, 1, 0xB8) && byte_at(b, 10, 0xFF) && byte_at(b, 11, 0xE0)
        ||| byte_at(b, 0, 0x68) && byte_at(b, 5, 0xC7) && byte_at(b, 6, 0x44) && byte_at(b, 7, 0x24)
        ||| byte_at(b, 0, 0x49) && byte_at(b, 1, 0xBB) && byte_at(b, 10, 0x41) && byte_at(b, 11, 0xFF)
    }
}

/// How many of the first `n` bytes lie between two.
pub open spec fn count_between(b: Seq<u8>, low: u8, high: u8, n: nat) -> nat
    decreases n,
{
    if n == 0 {
        0
    } else {
        count_between(b, low, high, (n - 1) as nat) + if n <= b.len() && low <= b[n - 1] <= high {
            1nat
        } else {
            0nat
        }
    }
}

/// Whether the first bytes of a function do other work first.
pub open spec fn instrumented(b: Seq<u8>) -> bool {
    b.len() >= 16 && {
        ||| byte_at(b, 0, 0x4C) && byte_at(b, 1, 0x8B) && byte_at(b, 2, 0xD1) && byte_at(b, 3, 0xB8) && (!byte_at(
            b,
            8,
            0x0F,
        ) || !byte_at(b, 9, 0x05))
        ||| count_between(b, 0x50, 0x57, 8) >= 3
        ||| byte_at(b, 0, 0x48) && byte_at(b, 1, 0x89) && byte_at(b, 2, 0x44)
    }
}

/// Whether four or more of the first eight bytes do nothing.
pub open spec fn nop_sled(b: Seq<u8>) -> bool {
    count_between(b, 0x90, 0x90, 8) >= 4
}

/// Whether two functions begin alike.
pub open spec fn bytes_alike(a: Seq<u8>, b: Seq<u8>) -> bool {
    a.len() == b.len() && (a.len() >= 8 ==> a.subrange(0, 8) == b.subrange(0, 8))
}

/// Whether bytes are those of an untouched system call stub.
pub open spec fn valid_stub(b: Seq<u8>) -> bool {
    byte_at(b, 0, 0x4C) && byte_at(b, 1, 0x8B) && byte_at(b, 2, 0xD1) && byte_at(b, 3, 0xB8) && byte_at(b, 8, 0x0F)
        && byte_at(b, 9, 0x05) && (byte_at(b, 10, 0xC3) || byte_at(b, 10, 0xC2))
}

/// How a system call stub was changed.
pub open spec fn stub_change(b: Seq<u8>) -> Seq<char> {
    if byte_at(b, 0, 0xE9) || byte_at(b, 0, 0xFF) {
        "Jump/hook detected"@
    } else if byte_at(b, 0, 0x4C) && !byte_at(b, 3, 0xB8) {
        "Syscall number obfuscation"@
    } else if !byte_at(b, 8, 0x0F) || !byte_at(b, 9, 0x05) {
        "Syscall instruction replaced"@
    } else {
        "Unknown modification"@
    }
}

fn byte_is(bytes: &[u8], i: usize, b: u8) -> (r: bool)
    ensures
        r == byte_at(bytes@, i as int, b),
{
    i < bytes.len() && bytes[i] == b
}

fn count_in_first_eight(bytes: &[u8], low: u8, high: u8) -> (n: usize)
    ensures
        n == count_between(bytes@, low, high, 8),
{
    let mut n: usize = 0;
    let mut i: usize = 0;
    while i < 8
        invariant
            i <= 8,
            n <= i,
            n == count_between(bytes@, low, high, i as nat),
        decreases 8 - i,
    {
        if i < bytes.len() && low <= bytes[i] && bytes[i] <= high {
            n += 1;
        }
        i += 1;
    }
    n
}

/// Bytes in hexadecimal, in square brackets.
pub open spec fn byte_list(bytes: Seq<u8>) -> Seq<char> {
    "["@ + joined(bytes.map_values(|b: u8| padded(b as nat, 16, true, 2)), ", "@) + "]"@
}

/// The first `n` bytes, or all where there are fewer.
pub open spec fn first_bytes(bytes: Seq<u8>, n: nat) -> Seq<u8> {
    if n < bytes.len() { bytes.take(n as int) } else { bytes }
}

fn byte_list_text(bytes: &[u8], n: usize) -> (r: String)
    ensures
        r@ == byte_list(first_bytes(bytes@, n as nat)),
{
    let count: usize = if n < bytes.len() { n } else { bytes.len() };
    let ghost shown = first_bytes(bytes@, n as nat);
    let ghost all = shown.map_values(|b: u8| padded(b as nat, 16, true, 2));
    let mut parts: Vec<String> = Vec::new();
    let mut i: usize = 0;
    assert(texts(parts@) =~= all.take(0));
    while i < count
        invariant
            i <= count <= bytes@.len(),
            count == shown.len(),
            shown == first_bytes(bytes@, n as nat),
            all == shown.map_values(|b: u8| padded(b as nat, 16, true, 2)),
            texts(parts@) == all.take(i as int),
        decreases count - i,
    {
        push_text(&mut parts, hex_padded_text(bytes[i] as u64, 2));
        assert(all.take(i + 1) =~= all.take(i as int).push(all[i as int]));
        i += 1;
    }
    assert(all.take(i as int) =~= all);
    "[".to_string().concat(join(&parts, ", ").as_str()).concat("]")
}

/// The first bytes of a function in a loaded module.
pub struct FunctionImage {
    pub module: String,
    pub name: String,
    pub bytes: Vec<u8>,
}

/// The first `count` bytes of a function, where they could be read.
pub open spec fn function_bytes(
    functions: Seq<FunctionImage>,
    module: Seq<char>,
    name: Seq<char>,
    count: nat,
) -> Option<Seq<u8>>
    decreases functions.len(),
{
    if functions.len() == 0 {
        None
    } else {
        let f = functions[0];
        if f.module@ == module && f.name@ == name {
            if f.bytes@.len() >= count {
                Some(f.bytes@.take(count as int))
            } else {
                None
            }
        } else {
            function_bytes(functions.drop_first(), module, name, count)
        }
    }
}

/// What optional bytes are.
pub open spec fn bytes_view(b: Option<Vec<u8>>) -> Option<Seq<u8>> {
    match b {
        Some(v) => Some(v@),
        None => None,
    }
}

/// The functions whose first bytes are kept to compare with later.
pub const BASELINE_FUNCTIONS: [&'static str; 9] = [
    "EtwEventWrite",
    "EtwEventWriteFull",
    "EtwEventWriteTransfer",
    "EtwEventRegister",
    "EtwEventUnregister",
    "EtwNotificationRegister",
    "EtwNotificationUnregister",
    "NtTraceEvent",
    "NtTraceControl",
];

/// The functions of the tracing library and what they are for.
pub const ETW_FAMILY: [(&'static str, &'static str); 10] = [
    ("EtwEventWriteFull", "Extended event write function"),
    ("EtwEventWriteTransfer", "Event write with activity transfer"),
    ("EtwEventRegister", "Provider registration function"),
    ("EtwEventUnregister", "Provider unregistration function"),
    ("EtwNotificationRegister", "ETW callback registration"),
    ("EtwNotificationUnregister", "ETW callback unregistration"),
    ("NtTraceControl", "Trace session control syscall"),
    ("EtwEventWriteEx", "Extended event write"),
    ("EtwEventWriteString", "String event write"),
    ("EtwEventWriteNoRegistration", "Unregistered event write"),
];

/// The functions that write events.
pub const EVENT_WRITERS: [&'static str; 3] = [
    "EtwEventWrite",
    "EtwEventWriteFull",
    "EtwEventWriteTransfer",
];

/// The system calls of tracing and what they are for.
pub const SYSCALL_FUNCTIONS: [(&'static str, &'static str); 3] = [
    ("NtTraceEvent", "Primary ETW event write syscall"),
    ("NtTraceControl", "ETW session control syscall"),
    ("NtQuerySystemInformation", "System info (used for ETW enumeration)"),
];

/// The sessions that always run.
pub const CRITICAL_SESSIONS: [&'static str; 6] = [
    "EventLog-Security",
    "EventLog-System",
    "EventLog-Application",
    "DefenderApiLogger",
    "DefenderAuditLogger",
    "DiagTrack",
];

/// The channels that are always enabled.
pub const CRITICAL_CHANNELS: [&'static str; 4] = [
    "Microsoft-Windows-Security-Auditing/Audit",
    "Microsoft-Windows-PowerShell/Operational",
    "Microsoft-Windows-Sysmon/Operational",
    "Microsoft-Windows-Windows Defender/Operational",
];

/// A session that is started at boot, as the registry has it.
pub struct SessionKey {
    pub name: String,
    pub start: Option<u32>,
    pub guid: Option<String>,
    pub buffer_size: Option<u32>,
    pub log_file_mode: Option<u32>,
    pub max_file_size: Option<u32>,
}

/// One of the sessions that always run, as the registry has it.
#[derive(Clone, Copy, Debug, PartialEq, Eq, Structural)]
pub enum CriticalSession {
    Missing,
    Present(Option<u32>),
}

/// The registry's keys of the sessions that are started at boot.
pub struct AutologgerKey {
    /// In the order of the list of critical sessions.
    pub critical: Vec<CriticalSession>,
    pub sessions: Vec<SessionKey>,
}

/// The registry's key of the threat intelligence provider.
pub struct PublisherKey {
    pub enabled: Option<u32>,
    pub message_file_name: Option<String>,
}

/// The registry's key of a channel.
#[derive(Clone, Copy, Debug, PartialEq, Eq, Structural)]
pub struct ChannelKey {
    pub enabled: Option<u32>,
    pub max_size: Option<u32>,
}

/// The registry's key of the security log.
#[derive(Clone, Copy, Debug, PartialEq, Eq, Structural)]
pub struct SecurityLogKey {
    pub max_size: Option<u32>,
    pub retention: Option<u32>,
}

/// What the machine shows of event tracing.
pub struct EtwSnapshot {
    pub functions: Vec<FunctionImage>,
    /// The identifiers of the providers that are registered.
    pub registered_guids: Vec<String>,
    /// Absent where the key cannot be opened.
    pub autologger: Option<AutologgerKey>,
    /// Absent where the key is missing.
    pub threat_intel: Option<PublisherKey>,
    /// Absent where the key cannot be opened; in the order of the list of
    /// critical channels.
    pub channels: Option<Vec<Option<ChannelKey>>>,
    /// Absent where the key cannot be opened.
    pub security_log: Option<SecurityLogKey>,
}

impl EtwSnapshot {
    /// The lists that go by others have their length.
    pub open spec fn wf(&self) -> bool {
        &&& self.autologger matches Some(a) ==> a.critical@.len() == 6
        &&& self.channels matches Some(c) ==> c@.len() == 4
    }
}

/// Whether a character is a curly bracket.
pub open spec fn is_brace(c: char) -> bool {
    c == '{' || c == '}'
}

/// A text without curly brackets at its end.
pub open spec fn without_braces_behind(s: Seq<char>) -> Seq<char>
    decreases s.len(),
{
    if s.len() > 0 && is_brace(s.last()) {
        without_braces_behind(s.drop_last())
    } else {
        s
    }
}

/// A text without curly brackets at its start.
pub open spec fn without_braces_before(s: Seq<char>) -> Seq<char>
    decreases s.len(),
{
    if s.len() > 0 && is_brace(s[0]) {
        without_braces_before(s.drop_first())
    } else {
        s
    }
}

fn strip_braces(text: &str) -> (r: String)
    ensures
        r@ == without_braces_behind(without_braces_before(text@)),
{
    let chars = crate::text::characters(text);
    let mut from: usize = 0;
    assert(text@.skip(0) =~= text@);
    while from < chars.len() && (chars[from] == '{' || chars[from] == '}')
        invariant
            from <= chars@.len(),
            chars@ == text@,
            without_braces_before(text@.skip(from as int)) == without_braces_before(text@),
        decreases chars@.len() - from,
    {
        assert(text@.skip(from as int).drop_first() =~= text@.skip(from + 1));
        from += 1;
    }
    let ghost middle = text@.skip(from as int);
    let mut to: usize = chars.len();
    assert(middle.take(to - from) =~= middle);
    while to > from && (chars[to - 1] == '{' || chars[to - 1] == '}')
        invariant
            from <= to <= chars@.len(),
            chars@ == text@,
            middle == text@.skip(from as int),
            without_braces_behind(middle.take(to - from)) == without_braces_behind(middle),
        decreases to,
    {
        assert(middle.take(to - from).drop_last() =~= middle.take(to - from - 1));
        to -= 1;
    }
    assert(middle.take(to - from) =~= text@.subrange(from as int, to as int));
    text.substring_char(from, to).to_string()
}

/// Where the registry keeps a provider.
pub fn publisher_key_path(guid: &str) -> (r: String)
    ensures
        r@ == "SOFTWARE\\Microsoft\\Windows\\CurrentVersion\\WINEVT\\Publishers\\{"@
            + without_braces_behind(without_braces_before(guid@)) + "}"@,
{
    "SOFTWARE\\Microsoft\\Windows\\CurrentVersion\\WINEVT\\Publishers\\{".to_string().concat(
        strip_braces(guid).as_str(),
    ).concat("}")
}

/// A function of the system library, as a snapshot has it.
pub open spec fn ntdll_bytes(s: EtwSnapshot, name: Seq<char>, count: nat) -> Option<Seq<u8>> {
    function_bytes(s.functions@, "ntdll.dll"@, name, count)
}

/// The facts about a function and its first bytes.
pub open spec fn function_facts(name: Seq<char>, shown: Seq<u8>) -> Map<Seq<char>, Seq<char>> {
    no_facts().insert("function"@, name).insert("first_bytes"@, byte_list(shown))
}

/// What the check of the event writing function finds.
pub open spec fn event_write_check(s: EtwSnapshot, ts: u64) -> Option<TamperingModel> {
    match ntdll_bytes(s, "EtwEventWrite"@, 16) {
        Some(b) => if patched(b) {
            Some(
                tampering(
                    EtwTamperingType::FunctionPatch,
                    950_000,
                    "EtwEventWrite function appears to be patched"@,
                    function_facts("EtwEventWrite"@, first_bytes(b, 8)),
                    ts,
                ),
            )
        } else if nop_sled(b) {
            Some(
                tampering(
                    EtwTamperingType::NopSled,
                    900_000,
                    "EtwEventWrite function contains NOP sled"@,
                    no_facts().insert("function"@, "EtwEventWrite"@).insert(
                        "pattern"@,
                        "NOP sled detected"@,
                    ),
                    ts,
                ),
            )
        } else {
            None
        },
        None => None,
    }
}

/// What the check of the trace event system call finds.
pub open spec fn trace_event_check(s: EtwSnapshot, ts: u64) -> Option<TamperingModel> {
    match ntdll_bytes(s, "NtTraceEvent"@, 16) {
        Some(b) => if patched(b) {
            Some(
                tampering(
                    EtwTamperingType::FunctionPatch,
                    900_000,
                    "NtTraceEvent function appears to be patched"@,
                    function_facts("NtTraceEvent"@, first_bytes(b, 8)),
                    ts,
                ),
            )
        } else {
            None
        },
        None => None,
    }
}

/// What the check of the antimalware scan finds.
pub open spec fn amsi_check(s: EtwSnapshot, ts: u64) -> Option<TamperingModel> {
    match function_bytes(s.functions@, "amsi.dll"@, "AmsiScanBuffer"@, 16) {
        Some(b) => if byte_at(b, 0, 0xB8) || byte_at(b, 0, 0x31) || byte_at(b, 0, 0x33) || byte_at(
            b,
            0,
            0xC3,
        ) {
            Some(
                TamperingModel {
                    detection_type: EtwTamperingType::AmsiBypass,
                    confidence: 950_000,
                    mitre_technique: "T1562.001"@,
                    description: "AmsiScanBuffer function appears to be patched"@,
                    details: function_facts("AmsiScanBuffer"@, first_bytes(b, 8)),
                    timestamp: ts,
                },
            )
        } else {
            None
        },
        None => None,
    }
}

/// What the check of one function of the tracing library finds.
pub open spec fn family_member_check(
    s: EtwSnapshot,
    name: Seq<char>,
    purpose: Seq<char>,
    ts: u64,
) -> Option<TamperingModel> {
    match ntdll_bytes(s, name, 16) {
        Some(b) => if patched(b) {
            Some(
                tampering(
                    EtwTamperingType::FunctionPatch,
                    900_000,
                    name + " function appears to be patched"@,
                    function_facts(name, first_bytes(b, 8)).insert("purpose"@, purpose),
                    ts,
                ),
            )
        } else if nop_sled(b) {
            Some(
                tampering(
                    EtwTamperingType::NopSled,
                    850_000,
                    name + " function contains NOP sled"@,
                    no_facts().insert("function"@, name).insert("pattern"@, "NOP sled detected"@),
                    ts,
                ),
            )
        } else {
            None
        },
        None => None,
    }
}

/// What the check of the first `n` functions of the tracing library finds.
pub open spec fn family_check(s: EtwSnapshot, n: nat, ts: u64) -> Seq<TamperingModel>
    decreases n,
{
    if n == 0 {
        Seq::empty()
    } else {
        family_check(s, (n - 1) as nat, ts) + at_most_one(
            family_member_check(s, ETW_FAMILY@[n - 1].0@, ETW_FAMILY@[n - 1].1@, ts),
        )
    }
}

/// What the check of one critical provider finds: one that is not registered.
pub open spec fn provider_check(s: EtwSnapshot, guid: Seq<char>, ts: u64) -> Option<
    TamperingModel,
> {
    if texts(s.registered_guids@).contains(guid) {
        None
    } else {
        let name = provider_name(lowercase(guid));
        let intel = guid == THREAT_INTEL_GUID@;
        Some(
            tampering(
                if intel {
                    EtwTamperingType::ThreatIntelProviderDisabled
                } else {
                    EtwTamperingType::ProviderUnregistered
                },
                if intel { 980_000 } else { 800_000 },
                "Critical ETW provider '"@ + name + "' appears unregistered"@,
                no_facts().insert("provider_guid"@, guid).insert("provider_name"@, name),
                ts,
            ),
        )
    }
}

/// What the check of the first `n` critical providers finds.
pub open spec fn providers_check(s: EtwSnapshot, n: nat, ts: u64) -> Seq<TamperingModel>
    decreases n,
{
    if n == 0 {
        Seq::empty()
    } else {
        providers_check(s, (n - 1) as nat, ts) + at_most_one(
            provider_check(s, critical_guids()[n - 1], ts),
        )
    }
}

/// What the check of unregistration finds.
pub open spec fn unregistration_check(s: EtwSnapshot, ts: u64) -> Seq<TamperingModel> {
    at_most_one(
        match ntdll_bytes(s, "EtwEventUnregister"@, 32) {
            Some(b) => if instrumented(b) {
                Some(
                    tampering(
                        EtwTamperingType::ProviderUnregistrationAttack,
                        850_000,
                        "EtwEventUnregister appears to be instrumented for handle capture"@,
                        no_facts().insert("function"@, "EtwEventUnregister"@).insert(
                            "pattern"@,
                            "Instrumentation detected"@,
                        ).insert("first_bytes"@, byte_list(first_bytes(b, 16))),
                        ts,
                    ),
                )
            } else {
                None
            },
            None => None,
        },
    ) + providers_check(s, 10, ts)
}

/// What the check of trace logging finds: of the two functions the first that
/// is patched.
pub open spec fn tracelogging_check(s: EtwSnapshot, ts: u64) -> Option<TamperingModel> {
    let write = ntdll_bytes(s, "TlgWrite"@, 16);
    let define = ntdll_bytes(s, "_TlgDefineProvider"@, 16);
    if write is Some && patched(write->0) {
        Some(
            tampering(
                EtwTamperingType::TraceLoggingTampering,
                850_000,
                "TraceLogging TlgWrite function appears to be patched"@,
                function_facts("TlgWrite"@, first_bytes(write->0, 8)),
                ts,
            ),
        )
    } else if define is Some && patched(define->0) {
        Some(
            tampering(
                EtwTamperingType::TraceLoggingTampering,
                800_000,
                "TraceLogging provider definition function appears to be patched"@,
                function_facts("_TlgDefineProvider"@, first_bytes(define->0, 8)),
                ts,
            ),
        )
    } else {
        None
    }
}

/// The bytes that a function had when the baseline was taken.
pub open spec fn baseline_bytes(baseline: Seq<(String, Vec<u8>)>, name: Seq<char>) -> Option<
    Seq<u8>,
>
    decreases baseline.len(),
{
    if baseline.len() == 0 {
        None
    } else if baseline[0].0@ == name {
        Some(baseline[0].1@)
    } else {
        baseline_bytes(baseline.drop_first(), name)
    }
}

/// What the comparison of one function with its baseline finds.
pub open spec fn baseline_check(
    baseline: Seq<(String, Vec<u8>)>,
    s: EtwSnapshot,
    name: Seq<char>,
    ts: u64,
) -> Option<TamperingModel> {
    let then = baseline_bytes(baseline, name);
    let now = ntdll_bytes(s, name, 32);
    if then is Some && now is Some && !bytes_alike(then->0, now->0) {
        Some(
            tampering(
                EtwTamperingType::EventWriteHook,
                950_000,
                name + " bytes differ from baseline"@,
                no_facts().insert("function"@, name).insert(
                    "baseline_bytes"@,
                    byte_list(first_bytes(then->0, 8)),
                ).insert("current_bytes"@, byte_list(first_bytes(now->0, 8))),
                ts,
            ),
        )
    } else {
        None
    }
}

/// What the comparison of the first `n` event writing functions with their
/// baselines finds.
pub open spec fn baselines_check(
    baseline: Seq<(String, Vec<u8>)>,
    s: EtwSnapshot,
    n: nat,
    ts: u64,
) -> Seq<TamperingModel>
    decreases n,
{
    if n == 0 {
        Seq::empty()
    } else {
        baselines_check(baseline, s, (n - 1) as nat, ts) + at_most_one(
            baseline_check(baseline, s, EVENT_WRITERS@[n - 1]@, ts),
        )
    }
}

/// What the check of the event writing functions for hooks finds.
pub open spec fn eventwrite_hooks_check(
    baseline: Seq<(String, Vec<u8>)>,
    s: EtwSnapshot,
    ts: u64,
) -> Seq<TamperingModel> {
    at_most_one(
        match function_bytes(s.functions@, "kernelbase.dll"@, "EventWrite"@, 32) {
            Some(b) => if patched(b) || hooked(b) {
                Some(
                    tampering(
                        EtwTamperingType::EventWriteHook,
                        900_000,
                        "kernelbase!EventWrite appears to be hooked"@,
                        function_facts("kernelbase!EventWrite"@, first_bytes(b, 16)),
                        ts,
                    ),
                )
            } else {
                None
            },
            None => None,
        },
    ) + baselines_check(baseline, s, 3, ts)
}

/// What the check of one critical session finds.
pub open spec fn session_check(name: Seq<char>, state: CriticalSession, ts: u64) -> Option<
    TamperingModel,
> {
    match state {
        CriticalSession::Missing => Some(
            tampering(
                EtwTamperingType::SessionManipulation,
                750_000,
                "Critical ETW Autologger session '"@ + name + "' registry key is missing"@,
                no_facts().insert("session_name"@, name).insert("status"@, "Missing"@),
                ts,
            ),
        ),
        CriticalSession::Present(start) => if start == Some(0u32) {
            Some(
                tampering(
                    EtwTamperingType::SessionManipulation,
                    850_000,
                    "Critical ETW Autologger session '"@ + name + "' is disabled"@,
                    no_facts().insert("session_name"@, name).insert("status"@, "Disabled"@),
                    ts,
                ),
            )
        } else {
            None
        },
    }
}

/// What the check of the first `n` critical sessions finds.
pub open spec fn sessions_check(states: Seq<CriticalSession>, n: nat, ts: u64) -> Seq<
    TamperingModel,
>
    decreases n,
{
    if n == 0 {
        Seq::empty()
    } else {
        sessions_check(states, (n - 1) as nat, ts) + at_most_one(
            session_check(CRITICAL_SESSIONS@[n - 1]@, states[n - 1], ts),
        )
    }
}

/// What the check of the sessions finds.
pub open spec fn session_manipulation_check(s: EtwSnapshot, ts: u64) -> Seq<TamperingModel> {
    (match s.autologger {
        Some(a) => sessions_check(a.critical@, 6, ts),
        None => Seq::empty(),
    }) + at_most_one(
        match ntdll_bytes(s, "NtTraceControl"@, 32) {
            Some(b) => if patched(b) || hooked(b) {
                Some(
                    tampering(
                        EtwTamperingType::SessionManipulation,
                        900_000,
                        "NtTraceControl appears to be tampered - session control compromised"@,
                        function_facts("NtTraceControl"@, first_bytes(b, 16)),
                        ts,
                    ),
                )
            } else {
                None
            },
            None => None,
        },
    )
}

/// The identifier of the threat intelligence provider, without brackets.
pub const THREAT_INTEL_BARE_GUID: &'static str = "f4e1897c-bb5d-5668-f1d8-040f4d8dd344";

/// The name of the threat intelligence provider.
pub const THREAT_INTEL_NAME: &'static str = "Microsoft-Windows-Threat-Intelligence";

/// The facts about the threat intelligence provider.
pub open spec fn intel_facts(status: Seq<char>) -> Map<Seq<char>, Seq<char>> {
    no_facts().insert("provider"@, THREAT_INTEL_NAME@).insert(
        "guid"@,
        THREAT_INTEL_BARE_GUID@,
    ).insert("status"@, status)
}

/// What the check of the threat intelligence provider finds.
pub open spec fn threat_intel_check(s: EtwSnapshot, ts: u64) -> Seq<TamperingModel> {
    match s.threat_intel {
        Some(k) => {
            at_most_one(
                if k.enabled == Some(0u32) {
                    Some(
                        tampering(
                            EtwTamperingType::ThreatIntelProviderDisabled,
                            980_000,
                            "Microsoft-Windows-Threat-Intelligence ETW provider is explicitly disabled"@,
                            intel_facts("Explicitly disabled"@),
                            ts,
                        ),
                    )
                } else {
                    None
                },
            ) + at_most_one(
                match k.message_file_name {
                    Some(f) => if !occurs("system32"@, lowercase(f@)) {
                        Some(
                            tampering(
                                EtwTamperingType::ThreatIntelProviderTargeted,
                                900_000,
                                "Threat Intelligence provider MessageFileName points to unexpected location"@,
                                no_facts().insert("provider"@, THREAT_INTEL_NAME@).insert(
                                    "message_file"@,
                                    f@,
                                ),
                                ts,
                            ),
                        )
                    } else {
                        None
                    },
                    None => None,
                },
            )
        },
        None => seq![
            tampering(
                EtwTamperingType::ThreatIntelProviderDisabled,
                950_000,
                "Microsoft-Windows-Threat-Intelligence ETW provider registry key is missing"@,
                intel_facts("Registry key missing"@),
                ts,
            ),
        ],
    }
}

/// What the check of the notification callbacks finds.
pub open spec fn notification_check(s: EtwSnapshot, ts: u64) -> Option<TamperingModel> {
    let register = ntdll_bytes(s, "EtwNotificationRegister"@, 32);
    let unregister = ntdll_bytes(s, "EtwNotificationUnregister"@, 32);
    if register is Some && patched(register->0) {
        Some(
            tampering(
                EtwTamperingType::NotificationCallbackRemoved,
                950_000,
                "EtwNotificationRegister is patched - callback registration disabled"@,
                function_facts("EtwNotificationRegister"@, first_bytes(register->0, 16)),
                ts,
            ),
        )
    } else if unregister is Some && instrumented(unregister->0) {
        Some(
            tampering(
                EtwTamperingType::NotificationCallbackRemoved,
                850_000,
                "EtwNotificationUnregister appears instrumented for callback enumeration"@,
                function_facts("EtwNotificationUnregister"@, first_bytes(unregister->0, 16)),
                ts,
            ),
        )
    } else {
        None
    }
}

/// What the check of one logger's buffers finds.
pub open spec fn buffer_check(k: SessionKey, ts: u64) -> Option<TamperingModel> {
    match k.buffer_size {
        Some(size) => if 0 < size < 64 {
            Some(
                tampering(
                    EtwTamperingType::PrivateLoggerHijack,
                    700_000,
                    "Logger '"@ + k.name@ + "' has suspiciously small buffer size ("@ + decimal(
                        size as nat,
                    ) + "KB)"@,
                    no_facts().insert("session_name"@, k.name@).insert(
                        "buffer_size"@,
                        decimal(size as nat),
                    ),
                    ts,
                ),
            )
        } else {
            None
        },
        None => None,
    }
}

/// What the check of one logger's file finds.
pub open spec fn file_mode_check(k: SessionKey, ts: u64) -> Option<TamperingModel> {
    match (k.log_file_mode, k.max_file_size) {
        (Some(mode), Some(size)) => if mode & 0x2 != 0 && 0 < size < 10 {
            Some(
                tampering(
                    EtwTamperingType::PrivateLoggerHijack,
                    750_000,
                    "Logger '"@ + k.name@ + "' has circular mode with tiny max size ("@ + decimal(
                        size as nat,
                    ) + "MB) - events will be lost"@,
                    no_facts().insert("session_name"@, k.name@).insert(
                        "file_mode"@,
                        "Circular"@,
                    ).insert("max_size_mb"@, decimal(size as nat)),
                    ts,
                ),
            )
        } else {
            None
        },
        _ => None,
    }
}

/// What the check of the first `n` loggers finds.
pub open spec fn loggers_check(sessions: Seq<SessionKey>, n: nat, ts: u64) -> Seq<TamperingModel>
    decreases n,
{
    if n == 0 {
        Seq::empty()
    } else {
        loggers_check(sessions, (n - 1) as nat, ts) + at_most_one(
            buffer_check(sessions[n - 1], ts),
        ) + at_most_one(file_mode_check(sessions[n - 1], ts))
    }
}

/// What the check of the private loggers finds.
pub open spec fn private_logger_check(s: EtwSnapshot, ts: u64) -> Seq<TamperingModel> {
    match s.autologger {
        Some(a) => loggers_check(a.sessions@, a.sessions@.len(), ts),
        None => Seq::empty(),
    }
}

/// What the check of whether a channel is enabled finds.
pub open spec fn channel_enabled_check(name: Seq<char>, k: ChannelKey, ts: u64) -> Option<
    TamperingModel,
> {
    if k.enabled == Some(0u32) {
        Some(
            tampering(
                EtwTamperingType::RegistryTampering,
                850_000,
                "Critical ETW channel '"@ + name + "' is disabled"@,
                no_facts().insert("channel"@, name).insert("status"@, "Disabled"@),
                ts,
            ),
        )
    } else {
        None
    }
}

/// What the check of a channel's size finds.
pub open spec fn channel_size_check(name: Seq<char>, k: ChannelKey, ts: u64) -> Option<
    TamperingModel,
> {
    match k.max_size {
        Some(size) => if 0 < size < 1_048_576 {
            Some(
                tampering(
                    EtwTamperingType::RegistryTampering,
                    700_000,
                    "ETW channel '"@ + name + "' has suspiciously small max size ("@ + decimal(
                        size as nat,
                    ) + " bytes)"@,
                    no_facts().insert("channel"@, name).insert(
                        "max_size_bytes"@,
                        decimal(size as nat),
                    ),
                    ts,
                ),
            )
        } else {
            None
        },
        None => None,
    }
}

/// What the check of the first `n` critical channels finds.
pub open spec fn channels_check(keys: Seq<Option<ChannelKey>>, n: nat, ts: u64) -> Seq<
    TamperingModel,
>
    decreases n,
{
    if n == 0 {
        Seq::empty()
    } else {
        let before = channels_check(keys, (n - 1) as nat, ts);
        let name = CRITICAL_CHANNELS@[n - 1]@;
        match keys[n - 1] {
            Some(k) => before + at_most_one(channel_enabled_check(name, k, ts)) + at_most_one(
                channel_size_check(name, k, ts),
            ),
            None => before,
        }
    }
}

/// What the check of the security log finds.
pub open spec fn security_log_check(k: SecurityLogKey, ts: u64) -> Seq<TamperingModel> {
    at_most_one(
        match k.max_size {
            Some(size) => if size < 5_242_880 {
                Some(
                    tampering(
                        EtwTamperingType::RegistryTampering,
                        750_000,
                        "Security Event Log has small max size ("@ + decimal(size as nat)
                            + " bytes)"@,
                        no_facts().insert("log"@, "Security"@).insert(
                            "max_size"@,
                            decimal(size as nat) + " bytes"@,
                        ),
                        ts,
                    ),
                )
            } else {
                None
            },
            None => None,
        },
    ) + at_most_one(
        if k.retention == Some(0u32) {
            Some(
                tampering(
                    EtwTamperingType::RegistryTampering,
                    600_000,
                    "Security Event Log set to overwrite events (no retention)"@,
                    no_facts().insert("log"@, "Security"@).insert(
                        "retention"@,
                        "Overwrite as needed"@,
                    ),
                    ts,
                ),
            )
        } else {
            None
        },
    )
}

/// What the check of the registry finds.
pub open spec fn registry_check(s: EtwSnapshot, ts: u64) -> Seq<TamperingModel> {
    (match s.channels {
        Some(c) => channels_check(c@, 4, ts),
        None => Seq::empty(),
    }) + (match s.security_log {
        Some(k) => security_log_check(k, ts),
        None => Seq::empty(),
    })
}

/// What the check of one system call stub finds.
pub open spec fn syscall_check(
    s: EtwSnapshot,
    name: Seq<char>,
    purpose: Seq<char>,
    ts: u64,
) -> Option<TamperingModel> {
    match ntdll_bytes(s, name, 32) {
        Some(b) => if !valid_stub(b) {
            Some(
                tampering(
                    EtwTamperingType::SyscallHook,
                    900_000,
                    name + " syscall stub has been modified: "@ + stub_change(b),
                    no_facts().insert("function"@, name).insert("description"@, purpose).insert(
                        "tampering_type"@,
                        stub_change(b),
                    ).insert("first_bytes"@, byte_list(first_bytes(b, 12))),
                    ts,
                ),
            )
        } else {
            None
        },
        None => None,
    }
}

/// What the check of the first `n` system call stubs finds.
pub open spec fn syscalls_check(s: EtwSnapshot, n: nat, ts: u64) -> Seq<TamperingModel>
    decreases n,
{
    if n == 0 {
        Seq::empty()
    } else {
        syscalls_check(s, (n - 1) as nat, ts) + at_most_one(
            syscall_check(s, SYSCALL_FUNCTIONS@[n - 1].0@, SYSCALL_FUNCTIONS@[n - 1].1@, ts),
        )
    }
}

/// All that a scan finds.
pub open spec fn scan_findings(
    baseline: Seq<(String, Vec<u8>)>,
    s: EtwSnapshot,
    ts: u64,
) -> Seq<TamperingModel> {
    at_most_one(event_write_check(s, ts)) + at_most_one(trace_event_check(s, ts)) + at_most_one(
        amsi_check(s, ts),
    ) + family_check(s, 10, ts) + unregistration_check(s, ts) + at_most_one(
        tracelogging_check(s, ts),
    ) + eventwrite_hooks_check(baseline, s, ts) + session_manipulation_check(s, ts)
        + threat_intel_check(s, ts) + at_most_one(notification_check(s, ts))
        + private_logger_check(s, ts) + registry_check(s, ts) + syscalls_check(s, 3, ts)
}

fn read_function(snapshot: &EtwSnapshot, module: &str, name: &str, count: usize) -> (r: Option<
    Vec<u8>,
>)
    ensures
        bytes_view(r) == function_bytes(snapshot.functions@, module@, name@, count as nat),
        r matches Some(b) ==> b@.len() == count,
{
    let ghost all = snapshot.functions@;
    let mut i: usize = 0;
    assert(all.skip(0) =~= all);
    while i < snapshot.functions.len()
        invariant
            i <= snapshot.functions@.len(),
            all == snapshot.functions@,
            function_bytes(all.skip(i as int), module@, name@, count as nat) == function_bytes(
                all,
                module@,
                name@,
                count as nat,
            ),
        decreases snapshot.functions@.len() - i,
    {
        assert(all.skip(i as int).drop_first() =~= all.skip(i + 1));
        let f = &snapshot.functions[i];
        if same(f.module.as_str(), module) && same(f.name.as_str(), name) {
            if f.bytes.len() >= count {
                let mut b: Vec<u8> = Vec::new();
                let mut k: usize = 0;
                while k < count
                    invariant
                        k <= count <= f.bytes@.len(),
                        b@ == f.bytes@.take(k as int),
                    decreases count - k,
                {
                    b.push(f.bytes[k]);
                    k += 1;
                }
                return Some(b);
            }
            return None;
        }
        i += 1;
    }
    None
}

fn ntdll_function(snapshot: &EtwSnapshot, name: &str, count: usize) -> (r: Option<Vec<u8>>)
    ensures
        bytes_view(r) == ntdll_bytes(*snapshot, name@, count as nat),
        r matches Some(b) ==> b@.len() == count,
{
    read_function(snapshot, "ntdll.dll", name, count)
}

fn function_details(name: &str, bytes: &[u8], shown: usize) -> (r: Metadata)
    ensures
        r@ == function_facts(name@, first_bytes(bytes@, shown as nat)),
{
    fact(
        fact(Metadata::new(), "function", name),
        "first_bytes",
        byte_list_text(bytes, shown).as_str(),
    )
}

fn intel_details(status: &str) -> (r: Metadata)
    ensures
        r@ == intel_facts(status@),
{
    fact(
        fact(
            fact(Metadata::new(), "provider", THREAT_INTEL_NAME),
            "guid",
            THREAT_INTEL_BARE_GUID,
        ),
        "status",
        status,
    )
}

/// The state of a critical provider.
pub struct ProviderState {
    pub guid: String,
    pub name: String,
    pub is_registered: bool,
    pub handle: Option<u64>,
    /// In seconds since the Unix epoch.
    pub last_check: u64,
}

/// What the state of a provider says.
#[verifier::ext_equal]
pub struct ProviderModel {
    pub guid: Seq<char>,
    pub name: Seq<char>,
    pub is_registered: bool,
    pub handle: Option<u64>,
    pub last_check: u64,
}

impl View for ProviderState {
    type V = ProviderModel;

    open spec fn view(&self) -> ProviderModel {
        ProviderModel {
            guid: self.guid@,
            name: self.name@,
            is_registered: self.is_registered,
            handle: self.handle,
            last_check: self.last_check,
        }
    }
}

/// What the states of providers say.
pub open spec fn providers_view(v: Seq<ProviderState>) -> Seq<ProviderModel> {
    v.map_values(|p: ProviderState| p@)
}

/// A tracing session.
pub struct EtwSessionInfo {
    pub name: String,
    pub guid: Option<String>,
    pub is_running: bool,
    /// In seconds since the Unix epoch.
    pub last_seen: u64,
    pub provider_count: u32,
}

/// What a session says.
#[verifier::ext_equal]
pub struct SessionModel {
    pub name: Seq<char>,
    pub guid: Option<Seq<char>>,
    pub is_running: bool,
    pub last_seen: u64,
    pub provider_count: u32,
}

impl View for EtwSessionInfo {
    type V = SessionModel;

    open spec fn view(&self) -> SessionModel {
        SessionModel {
            name: self.name@,
            guid: opt_text(self.guid),
            is_running: self.is_running,
            last_seen: self.last_seen,
            provider_count: self.provider_count,
        }
    }
}

/// What sessions say.
pub open spec fn sessions_view(v: Seq<EtwSessionInfo>) -> Seq<SessionModel> {
    v.map_values(|s: EtwSessionInfo| s@)
}

/// The states of the critical providers.
pub open spec fn provider_states(s: EtwSnapshot, ts: u64) -> Seq<ProviderModel> {
    critical_guids().map_values(
        |guid: Seq<char>|
            ProviderModel {
                guid,
                name: provider_name(lowercase(guid)),
                is_registered: texts(s.registered_guids@).contains(guid),
                handle: None,
                last_check: ts,
            },
    )
}

/// The sessions that are started at boot.
pub open spec fn session_states(s: EtwSnapshot, ts: u64) -> Seq<SessionModel> {
    match s.autologger {
        Some(a) => a.sessions@.map_values(
            |k: SessionKey|
                SessionModel {
                    name: k.name@,
                    guid: opt_text(k.guid),
                    is_running: k.start is Some && k.start->0 != 0,
                    last_seen: ts,
                    provider_count: 0,
                },
        ),
        None => Seq::empty(),
    }
}

/// Whether the functions of a baseline still begin alike.
pub open spec fn integrity(baseline: Seq<(String, Vec<u8>)>, s: EtwSnapshot) -> Seq<
    (Seq<char>, bool),
> {
    baseline.map_values(
        |e: (String, Vec<u8>)|
            (
                e.0@,
                match ntdll_bytes(s, e.0@, e.1@.len()) {
                    Some(b) => bytes_alike(e.1@, b),
                    None => false,
                },
            ),
    )
}

/// What integrity results say.
pub open spec fn integrity_view(v: Seq<(String, bool)>) -> Seq<(Seq<char>, bool)> {
    v.map_values(|e: (String, bool)| (e.0@, e.1))
}

/// The sum of the severities of detections.
pub open spec fn total_severity(v: Seq<TamperingModel>) -> nat
    decreases v.len(),
{
    if v.len() == 0 {
        0
    } else {
        total_severity(v.drop_last()) + v.last().detection_type.spec_severity() as nat
    }
}

/// The health that detections leave: one less half the sum of their severities,
/// at least zero.
pub open spec fn health(v: Seq<TamperingModel>) -> u32 {
    if total_severity(v) / 2 >= ONE {
        0
    } else {
        (ONE - total_severity(v) / 2) as u32
    }
}

/// The detector of tampering.
pub struct EtwTamperingDetector {
    /// Everything that scans have found.
    pub detections: Vec<EtwTamperingDetection>,
    /// The first bytes of functions when the baseline was taken.
    pub baseline_functions: Vec<(String, Vec<u8>)>,
}

/// A module of another process, with the first bytes of its functions where
/// they could be read.
pub struct RemoteModule {
    pub path: String,
    pub event_write: Option<Vec<u8>>,
    pub amsi_scan_buffer: Option<Vec<u8>>,
}

/// What the check of a function of another process finds.
pub open spec fn remote_check(
    amsi: bool,
    bytes: Option<Seq<u8>>,
    pid: u32,
    ts: u64,
) -> Option<TamperingModel> {
    let name = if amsi { "AmsiScanBuffer"@ } else { "EtwEventWrite"@ };
    let kind = if amsi { EtwTamperingType::AmsiBypass } else { EtwTamperingType::FunctionPatch };
    match bytes {
        Some(b) => if patched(b) {
            Some(
                TamperingModel {
                    detection_type: kind,
                    confidence: 900_000,
                    mitre_technique: kind.spec_mitre_technique(),
                    description: name + " appears patched in PID "@ + decimal(pid as nat),
                    details: no_facts().insert("function"@, name).insert(
                        "pid"@,
                        decimal(pid as nat),
                    ).insert("first_bytes"@, byte_list(first_bytes(b, 8))),
                    timestamp: ts,
                },
            )
        } else {
            None
        },
        None => None,
    }
}

/// What the check of the first `n` modules of another process finds.
pub open spec fn modules_check(modules: Seq<RemoteModule>, n: nat, pid: u32, ts: u64) -> Seq<
    TamperingModel,
>
    decreases n,
{
    if n == 0 {
        Seq::empty()
    } else {
        let m = modules[n - 1];
        let path = lowercase(m.path@);
        modules_check(modules, (n - 1) as nat, pid, ts) + at_most_one(
            if occurs("ntdll.dll"@, path) {
                remote_check(false, bytes_view(m.event_write), pid, ts)
            } else {
                None
            },
        ) + at_most_one(
            if occurs("amsi.dll"@, path) {
                remote_check(true, bytes_view(m.amsi_scan_buffer), pid, ts)
            } else {
                None
            },
        )
    }
}

/// The functions of a baseline, among the first `n`, that could be read.
pub open spec fn captured(s: EtwSnapshot, n: nat) -> Seq<(Seq<char>, Seq<u8>)>
    decreases n,
{
    if n == 0 {
        Seq::empty()
    } else {
        let name = BASELINE_FUNCTIONS@[n - 1]@;
        match ntdll_bytes(s, name, 32) {
            Some(b) => captured(s, (n - 1) as nat).push((name, b)),
            None => captured(s, (n - 1) as nat),
        }
    }
}

/// What a baseline says.
pub open spec fn baseline_view(v: Seq<(String, Vec<u8>)>) -> Seq<(Seq<char>, Seq<u8>)> {
    v.map_values(|e: (String, Vec<u8>)| (e.0@, e.1@))
}

impl EtwTamperingDetector {
    /// A detector that has found nothing and has no baseline.
    pub fn new() -> (d: EtwTamperingDetector)
        ensures
            d.detections@ == Seq::<EtwTamperingDetection>::empty(),
            d.baseline_functions@ == Seq::<(String, Vec<u8>)>::empty(),
    {
        EtwTamperingDetector { detections: Vec::new(), baseline_functions: Vec::new() }
    }

    /// Takes the baseline: the first bytes of the functions that can be read.
    pub fn capture_baseline_bytes(&mut self, snapshot: &EtwSnapshot)
        ensures
            final(self).detections == old(self).detections,
            baseline_view(final(self).baseline_functions@) == captured(*snapshot, 9),
    {
        let mut baseline: Vec<(String, Vec<u8>)> = Vec::new();
        let mut i: usize = 0;
        assert(baseline_view(baseline@) =~= Seq::empty());
        while i < 9
            invariant
                i <= 9,
                baseline_view(baseline@) == captured(*snapshot, i as nat),
            decreases 9 - i,
        {
            let name: &str = BASELINE_FUNCTIONS[i];
            if let Some(b) = ntdll_function(snapshot, name, 32) {
                let ghost before = baseline@;
                baseline.push((name.to_string(), b));
                assert(baseline_view(baseline@) =~= baseline_view(before).push((name@, b@)));
            }
            i += 1;
        }
        self.baseline_functions = baseline;
    }

    /// Whether the first bytes of a function return at once or jump elsewhere.
    pub fn is_patched(&self, bytes: &[u8]) -> (r: bool)
        ensures
            r == patched(bytes@),
    {
        byte_is(bytes, 0, 0xC3) || (byte_is(bytes, 0, 0x33) && byte_is(bytes, 1, 0xC0) && byte_is(
            bytes,
            2,
            0xC3,
        )) || (byte_is(bytes, 0, 0x31) && byte_is(bytes, 1, 0xC0) && byte_is(bytes, 2, 0xC3)) || (
        byte_is(bytes, 0, 0xB8) && byte_is(bytes, 5, 0xC3)) || byte_is(bytes, 0, 0xE9) || byte_is(
            bytes,
            0,
            0xFF,
        ) || (byte_is(bytes, 0, 0x68) && byte_is(bytes, 5, 0xC3))
    }

    /// Whether the first bytes of a function load an address and jump to it.
    pub fn is_hooked(&self, bytes: &[u8]) -> (r: bool)
        ensures
            r == hooked(bytes@),
    {
        bytes.len() >= 16 && ((byte_is(bytes, 0, 0xFF) && byte_is(bytes, 1, 0x25)) || (byte_is(
            bytes,
            0,
            0x48,
        ) && byte_is(bytes, 1, 0xB8) && byte_is(bytes, 10, 0xFF) && byte_is(bytes, 11, 0xE0)) || (
        byte_is(bytes, 0, 0x68) && byte_is(bytes, 5, 0xC7) && byte_is(bytes, 6, 0x44) && byte_is(
            bytes,
            7,
            0x24,
        )) || (byte_is(bytes, 0, 0x49) && byte_is(bytes, 1, 0xBB) && byte_is(bytes, 10, 0x41)
            && byte_is(bytes, 11, 0xFF)))
    }

    /// Whether the first bytes of a function do other work first.
    pub fn is_instrumented(&self, bytes: &[u8]) -> (r: bool)
        ensures
            r == instrumented(bytes@),
    {
        if bytes.len() < 16 {
            return false;
        }
        if byte_is(bytes, 0, 0x4C) && byte_is(bytes, 1, 0x8B) && byte_is(bytes, 2, 0xD1) && byte_is(
            bytes,
            3,
            0xB8,
        ) && (!byte_is(bytes, 8, 0x0F) || !byte_is(bytes, 9, 0x05)) {
            return true;
        }
        if count_in_first_eight(bytes, 0x50, 0x57) >= 3 {
            return true;
        }
        byte_is(bytes, 0, 0x48) && byte_is(bytes, 1, 0x89) && byte_is(bytes, 2, 0x44)
    }

    /// Whether four or more of the first eight bytes do nothing.
    pub fn is_nop_sled(&self, bytes: &[u8]) -> (r: bool)
        ensures
            r == nop_sled(bytes@),
    {
        count_in_first_eight(bytes, 0x90, 0x90) >= 4
    }

    /// Whether two functions begin alike.
    pub fn bytes_match(&self, a: &[u8], b: &[u8]) -> (r: bool)
        ensures
            r == bytes_alike(a@, b@),
    {
        if a.len() != b.len() {
            return false;
        }
        if a.len() >= 8 {
            let mut i: usize = 0;
            while i < 8
                invariant
                    i <= 8 <= a@.len(),
                    a@.len() == b@.len(),
                    forall|j: int| 0 <= j < i ==> a@[j] == b@[j],
                decreases 8 - i,
            {
                if a[i] != b[i] {
                    assert(a@.subrange(0, 8)[i as int] != b@.subrange(0, 8)[i as int]);
                    return false;
                }
                i += 1;
            }
            assert(a@.subrange(0, 8) =~= b@.subrange(0, 8));
        }
        true
    }

    /// Whether a provider is registered.
    pub fn is_provider_registered_in_registry(&self, snapshot: &EtwSnapshot, guid: &str) -> (r:
        bool)
        ensures
            r == texts(snapshot.registered_guids@).contains(guid@),
    {
        holds(&snapshot.registered_guids, guid)
    }

    /// Checks the event writing function.
    pub fn check_etw_eventwrite(&self, snapshot: &EtwSnapshot, timestamp: u64) -> (r: Option<
        EtwTamperingDetection,
    >)
        ensures
            detection_view(r) == event_write_check(*snapshot, timestamp),
    {
        match ntdll_function(snapshot, "EtwEventWrite", 16) {
            Some(b) => {
                if self.is_patched(b.as_slice()) {
                    Some(
                        tampering_of(
                            EtwTamperingType::FunctionPatch,
                            950_000,
                            "EtwEventWrite function appears to be patched".to_string(),
                            function_details("EtwEventWrite", b.as_slice(), 8),
                            timestamp,
                        ),
                    )
                } else if self.is_nop_sled(b.as_slice()) {
                    Some(
                        tampering_of(
                            EtwTamperingType::NopSled,
                            900_000,
                            "EtwEventWrite function contains NOP sled".to_string(),
                            fact(
                                fact(Metadata::new(), "function", "EtwEventWrite"),
                                "pattern",
                                "NOP sled detected",
                            ),
                            timestamp,
                        ),
                    )
                } else {
                    None
                }
            },
            None => None,
        }
    }

    /// Checks the trace event system call.
    pub fn check_nt_trace_event(&self, snapshot: &EtwSnapshot, timestamp: u64) -> (r: Option<
        EtwTamperingDetection,
    >)
        ensures
            detection_view(r) == trace_event_check(*snapshot, timestamp),
    {
        match ntdll_function(snapshot, "NtTraceEvent", 16) {
            Some(b) => {
                if self.is_patched(b.as_slice()) {
                    Some(
                        tampering_of(
                            EtwTamperingType::FunctionPatch,
                            900_000,
                            "NtTraceEvent function appears to be patched".to_string(),
                            function_details("NtTraceEvent", b.as_slice(), 8),
                            timestamp,
                        ),
                    )
                } else {
                    None
                }
            },
            None => None,
        }
    }

    /// Checks the antimalware scan.
    pub fn check_amsi_scan_buffer(&self, snapshot: &EtwSnapshot, timestamp: u64) -> (r: Option<
        EtwTamperingDetection,
    >)
        ensures
            detection_view(r) == amsi_check(*snapshot, timestamp),
    {
        match read_function(snapshot, "amsi.dll", "AmsiScanBuffer", 16) {
            Some(b) => {
                let bytes = b.as_slice();
                if byte_is(bytes, 0, 0xB8) || byte_is(bytes, 0, 0x31) || byte_is(bytes, 0, 0x33)
                    || byte_is(bytes, 0, 0xC3) {
                    Some(
                        EtwTamperingDetection {
                            detection_type: EtwTamperingType::AmsiBypass,
                            confidence: 950_000,
                            mitre_technique: "T1562.001".to_string(),
                            description: "AmsiScanBuffer function appears to be patched".to_string(),
                            details: function_details("AmsiScanBuffer", bytes, 8),
                            timestamp,
                        },
                    )
                } else {
                    None
                }
            },
            None => None,
        }
    }

    fn check_family_member(
        &self,
        snapshot: &EtwSnapshot,
        name: &str,
        purpose: &str,
        timestamp: u64,
    ) -> (r: Option<EtwTamperingDetection>)
        ensures
            detection_view(r) == family_member_check(*snapshot, name@, purpose@, timestamp),
    {
        match ntdll_function(snapshot, name, 16) {
            Some(b) => {
                if self.is_patched(b.as_slice()) {
                    Some(
                        tampering_of(
                            EtwTamperingType::FunctionPatch,
                            900_000,
                            name.to_string().concat(" function appears to be patched"),
                            fact(function_details(name, b.as_slice(), 8), "purpose", purpose),
                            timestamp,
                        ),
                    )
                } else if self.is_nop_sled(b.as_slice()) {
                    Some(
                        tampering_of(
                            EtwTamperingType::NopSled,
                            850_000,
                            name.to_string().concat(" function contains NOP sled"),
                            fact(
                                fact(Metadata::new(), "function", name),
                                "pattern",
                                "NOP sled detected",
                            ),
                            timestamp,
                        ),
                    )
                } else {
                    None
                }
            },
            None => None,
        }
    }

    /// Checks the functions of the tracing library.
    pub fn check_etw_function_family(&self, snapshot: &EtwSnapshot, timestamp: u64) -> (r: Vec<
        EtwTamperingDetection,
    >)
        ensures
            detections_view(r@) == family_check(*snapshot, 10, timestamp),
    {
        let mut found: Vec<EtwTamperingDetection> = Vec::new();
        let mut i: usize = 0;
        assert(detections_view(found@) =~= Seq::empty());
        while i < 10
            invariant
                i <= 10,
                detections_view(found@) == family_check(*snapshot, i as nat, timestamp),
            decreases 10 - i,
        {
            let entry = ETW_FAMILY[i];
            push_some(
                &mut found,
                self.check_family_member(snapshot, entry.0, entry.1, timestamp),
            );
            i += 1;
        }
        found
    }

    fn check_provider(&self, snapshot: &EtwSnapshot, guid: &str, timestamp: u64) -> (r: Option<
        EtwTamperingDetection,
    >)
        ensures
            detection_view(r) == provider_check(*snapshot, guid@, timestamp),
    {
        if self.is_provider_registered_in_registry(snapshot, guid) {
            return None;
        }
        let name = name_from_guid(guid);
        let intel = same(guid, THREAT_INTEL_GUID);
        let (kind, confidence): (EtwTamperingType, u32) = if intel {
            (EtwTamperingType::ThreatIntelProviderDisabled, 980_000)
        } else {
            (EtwTamperingType::ProviderUnregistered, 800_000)
        };
        Some(
            tampering_of(
                kind,
                confidence,
                "Critical ETW provider '".to_string().concat(name).concat("' appears unregistered"),
                fact(fact(Metadata::new(), "provider_guid", guid), "provider_name", name),
                timestamp,
            ),
        )
    }

    /// Checks for attacks that unregister providers.
    pub fn check_provider_unregistration_attacks(
        &self,
        snapshot: &EtwSnapshot,
        timestamp: u64,
    ) -> (r: Vec<EtwTamperingDetection>)
        ensures
            detections_view(r@) == unregistration_check(*snapshot, timestamp),
    {
        let mut found: Vec<EtwTamperingDetection> = Vec::new();
        assert(detections_view(found@) =~= Seq::empty());
        let first = match ntdll_function(snapshot, "EtwEventUnregister", 32) {
            Some(b) => {
                if self.is_instrumented(b.as_slice()) {
                    Some(
                        tampering_of(
                            EtwTamperingType::ProviderUnregistrationAttack,
                            850_000,
                            "EtwEventUnregister appears to be instrumented for handle capture".to_string(),
                            fact(
                                fact(
                                    fact(Metadata::new(), "function", "EtwEventUnregister"),
                                    "pattern",
                                    "Instrumentation detected",
                                ),
                                "first_bytes",
                                byte_list_text(b.as_slice(), 16).as_str(),
                            ),
                            timestamp,
                        ),
                    )
                } else {
                    None
                }
            },
            None => None,
        };
        push_some(&mut found, first);
        let ghost start = detections_view(found@);
        let guids = all_critical_guids();
        let mut i: usize = 0;
        assert(start + providers_check(*snapshot, 0, timestamp) =~= start);
        while i < 10
            invariant
                i <= 10,
                guids@.len() == 10,
                str_texts(guids@) == critical_guids(),
                detections_view(found@) == start + providers_check(
                    *snapshot,
                    i as nat,
                    timestamp,
                ),
            decreases 10 - i,
        {
            let guid: &str = guids[i];
            assert(critical_guids()[i as int] == guid@);
            push_some(&mut found, self.check_provider(snapshot, guid, timestamp));
            assert(detections_view(found@) =~= start + providers_check(
                *snapshot,
                (i + 1) as nat,
                timestamp,
            ));
            i += 1;
        }
        assert(detections_view(found@) =~= unregistration_check(*snapshot, timestamp));
        found
    }

    /// Checks trace logging.
    pub fn check_tracelogging_tampering(&self, snapshot: &EtwSnapshot, timestamp: u64) -> (r:
        Option<EtwTamperingDetection>)
        ensures
            detection_view(r) == tracelogging_check(*snapshot, timestamp),
    {
        if let Some(b) = ntdll_function(snapshot, "TlgWrite", 16) {
            if self.is_patched(b.as_slice()) {
                return Some(
                    tampering_of(
                        EtwTamperingType::TraceLoggingTampering,
                        850_000,
                        "TraceLogging TlgWrite function appears to be patched".to_string(),
                        function_details("TlgWrite", b.as_slice(), 8),
                        timestamp,
                    ),
                );
            }
        }
        if let Some(b) = ntdll_function(snapshot, "_TlgDefineProvider", 16) {
            if self.is_patched(b.as_slice()) {
                return Some(
                    tampering_of(
                        EtwTamperingType::TraceLoggingTampering,
                        800_000,
                        "TraceLogging provider definition function appears to be patched".to_string(),
                        function_details("_TlgDefineProvider", b.as_slice(), 8),
                        timestamp,
                    ),
                );
            }
        }
        None
    }

    fn baseline_index(&self, name: &str) -> (r: Option<usize>)
        ensures
            match r {
                Some(i) => i < self.baseline_functions@.len() && baseline_bytes(
                    self.baseline_functions@,
                    name@,
                ) == Some(self.baseline_functions@[i as int].1@),
                None => baseline_bytes(self.baseline_functions@, name@) is None,
            },
    {
        let ghost all = self.baseline_functions@;
        let mut i: usize = 0;
        assert(all.skip(0) =~= all);
        while i < self.baseline_functions.len()
            invariant
                i <= self.baseline_functions@.len(),
                all == self.baseline_functions@,
                baseline_bytes(all.skip(i as int), name@) == baseline_bytes(all, name@),
            decreases self.baseline_functions@.len() - i,
        {
            assert(all.skip(i as int).drop_first() =~= all.skip(i + 1));
            if same(self.baseline_functions[i].0.as_str(), name) {
                return Some(i);
            }
            i += 1;
        }
        None
    }

    fn check_against_baseline(&self, snapshot: &EtwSnapshot, name: &str, timestamp: u64) -> (r:
        Option<EtwTamperingDetection>)
        ensures
            detection_view(r) == baseline_check(
                self.baseline_functions@,
                *snapshot,
                name@,
                timestamp,
            ),
    {
        if let Some(i) = self.baseline_index(name) {
            let known = self.baseline_functions[i].1.as_slice();
            if let Some(b) = ntdll_function(snapshot, name, 32) {
                if !self.bytes_match(known, b.as_slice()) {
                    return Some(
                        tampering_of(
                            EtwTamperingType::EventWriteHook,
                            950_000,
                            name.to_string().concat(" bytes differ from baseline"),
                            fact(
                                fact(
                                    fact(Metadata::new(), "function", name),
                                    "baseline_bytes",
                                    byte_list_text(known, 8).as_str(),
                                ),
                                "current_bytes",
                                byte_list_text(b.as_slice(), 8).as_str(),
                            ),
                            timestamp,
                        ),
                    );
                }
            }
        }
        None
    }

    /// Checks the event writing functions for hooks.
    pub fn check_eventwrite_hooks(&self, snapshot: &EtwSnapshot, timestamp: u64) -> (r: Vec<
        EtwTamperingDetection,
    >)
        ensures
            detections_view(r@) == eventwrite_hooks_check(
                self.baseline_functions@,
                *snapshot,
                timestamp,
            ),
    {
        let mut found: Vec<EtwTamperingDetection> = Vec::new();
        assert(detections_view(found@) =~= Seq::empty());
        let first = match read_function(snapshot, "kernelbase.dll", "EventWrite", 32) {
            Some(b) => {
                if self.is_patched(b.as_slice()) || self.is_hooked(b.as_slice()) {
                    Some(
                        tampering_of(
                            EtwTamperingType::EventWriteHook,
                            900_000,
                            "kernelbase!EventWrite appears to be hooked".to_string(),
                            function_details("kernelbase!EventWrite", b.as_slice(), 16),
                            timestamp,
                        ),
                    )
                } else {
                    None
                }
            },
            None => None,
        };
        push_some(&mut found, first);
        let ghost start = detections_view(found@);
        let ghost baseline = self.baseline_functions@;
        let mut i: usize = 0;
        assert(start + baselines_check(baseline, *snapshot, 0, timestamp) =~= start);
        while i < 3
            invariant
                i <= 3,
                baseline == self.baseline_functions@,
                detections_view(found@) == start + baselines_check(
                    baseline,
                    *snapshot,
                    i as nat,
                    timestamp,
                ),
            decreases 3 - i,
        {
            let name: &str = EVENT_WRITERS[i];
            push_some(&mut found, self.check_against_baseline(snapshot, name, timestamp));
            assert(detections_view(found@) =~= start + baselines_check(
                baseline,
                *snapshot,
                (i + 1) as nat,
                timestamp,
            ));
            i += 1;
        }
        assert(detections_view(found@) =~= eventwrite_hooks_check(baseline, *snapshot, timestamp));
        found
    }

    fn check_session(&self, name: &str, state: CriticalSession, timestamp: u64) -> (r: Option<
        EtwTamperingDetection,
    >)
        ensures
            detection_view(r) == session_check(name@, state, timestamp),
    {
        match state {
            CriticalSession::Missing => Some(
                tampering_of(
                    EtwTamperingType::SessionManipulation,
                    750_000,
                    "Critical ETW Autologger session '".to_string().concat(name).concat(
                        "' registry key is missing",
                    ),
                    fact(fact(Metadata::new(), "session_name", name), "status", "Missing"),
                    timestamp,
                ),
            ),
            CriticalSession::Present(start) => {
                match start {
                    Some(value) => {
                        if value == 0 {
                            Some(
                                tampering_of(
                                    EtwTamperingType::SessionManipulation,
                                    850_000,
                                    "Critical ETW Autologger session '".to_string().concat(
                                        name,
                                    ).concat("' is disabled"),
                                    fact(
                                        fact(Metadata::new(), "session_name", name),
                                        "status",
                                        "Disabled",
                                    ),
                                    timestamp,
                                ),
                            )
                        } else {
                            None
                        }
                    },
                    None => None,
                }
            },
        }
    }

    /// Checks the sessions.
    pub fn check_session_manipulation(&self, snapshot: &EtwSnapshot, timestamp: u64) -> (r: Vec<
        EtwTamperingDetection,
    >)
        requires
            snapshot.wf(),
        ensures
            detections_view(r@) == session_manipulation_check(*snapshot, timestamp),
    {
        let mut found: Vec<EtwTamperingDetection> = Vec::new();
        assert(detections_view(found@) =~= Seq::empty());
        if let Some(a) = &snapshot.autologger {
            let mut i: usize = 0;
            while i < 6
                invariant
                    i <= 6,
                    a.critical@.len() == 6,
                    detections_view(found@) == sessions_check(a.critical@, i as nat, timestamp),
                decreases 6 - i,
            {
                let name: &str = CRITICAL_SESSIONS[i];
                push_some(&mut found, self.check_session(name, a.critical[i], timestamp));
                i += 1;
            }
        }
        let last = match ntdll_function(snapshot, "NtTraceControl", 32) {
            Some(b) => {
                if self.is_patched(b.as_slice()) || self.is_hooked(b.as_slice()) {
                    Some(
                        tampering_of(
                            EtwTamperingType::SessionManipulation,
                            900_000,
                            "NtTraceControl appears to be tampered - session control compromised".to_string(),
                            function_details("NtTraceControl", b.as_slice(), 16),
                            timestamp,
                        ),
                    )
                } else {
                    None
                }
            },
            None => None,
        };
        push_some(&mut found, last);
        found
    }

    /// Checks the threat intelligence provider.
    pub fn check_threat_intel_provider(&self, snapshot: &EtwSnapshot, timestamp: u64) -> (r: Vec<
        EtwTamperingDetection,
    >)
        ensures
            detections_view(r@) == threat_intel_check(*snapshot, timestamp),
    {
        let mut found: Vec<EtwTamperingDetection> = Vec::new();
        assert(detections_view(found@) =~= Seq::empty());
        match &snapshot.threat_intel {
            Some(k) => {
                let disabled = match k.enabled {
                    Some(value) => value == 0,
                    None => false,
                };
                let first = if disabled {
                    Some(
                        tampering_of(
                            EtwTamperingType::ThreatIntelProviderDisabled,
                            980_000,
                            "Microsoft-Windows-Threat-Intelligence ETW provider is explicitly disabled".to_string(),
                            intel_details("Explicitly disabled"),
                            timestamp,
                        ),
                    )
                } else {
                    None
                };
                push_some(&mut found, first);
                let second = match &k.message_file_name {
                    Some(f) => {
                        if !contains(to_lowercase(f.as_str()).as_str(), "system32") {
                            Some(
                                tampering_of(
                                    EtwTamperingType::ThreatIntelProviderTargeted,
                                    900_000,
                                    "Threat Intelligence provider MessageFileName points to unexpected location".to_string(),
                                    fact(
                                        fact(Metadata::new(), "provider", THREAT_INTEL_NAME),
                                        "message_file",
                                        f.as_str(),
                                    ),
                                    timestamp,
                                ),
                            )
                        } else {
                            None
                        }
                    },
                    None => None,
                };
                push_some(&mut found, second);
                assert(detections_view(found@) =~= threat_intel_check(*snapshot, timestamp));
            },
            None => {
                push_some(
                    &mut found,
                    Some(
                        tampering_of(
                            EtwTamperingType::ThreatIntelProviderDisabled,
                            950_000,
                            "Microsoft-Windows-Threat-Intelligence ETW provider registry key is missing".to_string(),
                            intel_details("Registry key missing"),
                            timestamp,
                        ),
                    ),
                );
                assert(detections_view(found@) =~= threat_intel_check(*snapshot, timestamp));
            },
        }
        found
    }

    /// Checks the notification callbacks.
    pub fn check_notification_callbacks(&self, snapshot: &EtwSnapshot, timestamp: u64) -> (r:
        Option<EtwTamperingDetection>)
        ensures
            detection_view(r) == notification_check(*snapshot, timestamp),
    {
        if let Some(b) = ntdll_function(snapshot, "EtwNotificationRegister", 32) {
            if self.is_patched(b.as_slice()) {
                return Some(
                    tampering_of(
                        EtwTamperingType::NotificationCallbackRemoved,
                        950_000,
                        "EtwNotificationRegister is patched - callback registration disabled".to_string(),
                        function_details("EtwNotificationRegister", b.as_slice(), 16),
                        timestamp,
                    ),
                );
            }
        }
        if let Some(b) = ntdll_function(snapshot, "EtwNotificationUnregister", 32) {
            if self.is_instrumented(b.as_slice()) {
                return Some(
                    tampering_of(
                        EtwTamperingType::NotificationCallbackRemoved,
                        850_000,
                        "EtwNotificationUnregister appears instrumented for callback enumeration".to_string(),
                        function_details("EtwNotificationUnregister", b.as_slice(), 16),
                        timestamp,
                    ),
                );
            }
        }
        None
    }

    fn check_buffer(&self, k: &SessionKey, timestamp: u64) -> (r: Option<EtwTamperingDetection>)
        ensures
            detection_view(r) == buffer_check(*k, timestamp),
    {
        match k.buffer_size {
            Some(size) => {
                if size < 64 && size > 0 {
                    let text = decimal_text(size as u64);
                    Some(
                        tampering_of(
                            EtwTamperingType::PrivateLoggerHijack,
                            700_000,
                            "Logger '".to_string().concat(k.name.as_str()).concat(
                                "' has suspiciously small buffer size (",
                            ).concat(text.as_str()).concat("KB)"),
                            fact(
                                fact(Metadata::new(), "session_name", k.name.as_str()),
                                "buffer_size",
                                text.as_str(),
                            ),
                            timestamp,
                        ),
                    )
                } else {
                    None
                }
            },
            None => None,
        }
    }

    fn check_file_mode(&self, k: &SessionKey, timestamp: u64) -> (r: Option<EtwTamperingDetection>)
        ensures
            detection_view(r) == file_mode_check(*k, timestamp),
    {
        match (k.log_file_mode, k.max_file_size) {
            (Some(mode), Some(size)) => {
                if mode & 0x2 != 0 && size < 10 && size > 0 {
                    let text = decimal_text(size as u64);
                    Some(
                        tampering_of(
                            EtwTamperingType::PrivateLoggerHijack,
                            750_000,
                            "Logger '".to_string().concat(k.name.as_str()).concat(
                                "' has circular mode with tiny max size (",
                            ).concat(text.as_str()).concat("MB) - events will be lost"),
                            fact(
                                fact(
                                    fact(Metadata::new(), "session_name", k.name.as_str()),
                                    "file_mode",
                                    "Circular",
                                ),
                                "max_size_mb",
                                text.as_str(),
                            ),
                            timestamp,
                        ),
                    )
                } else {
                    None
                }
            },
            _ => None,
        }
    }

    /// Checks the private loggers.
    pub fn check_private_logger_hijacking(&self, snapshot: &EtwSnapshot, timestamp: u64) -> (r: Vec<
        EtwTamperingDetection,
    >)
        ensures
            detections_view(r@) == private_logger_check(*snapshot, timestamp),
    {
        let mut found: Vec<EtwTamperingDetection> = Vec::new();
        assert(detections_view(found@) =~= Seq::empty());
        if let Some(a) = &snapshot.autologger {
            let mut i: usize = 0;
            while i < a.sessions.len()
                invariant
                    i <= a.sessions@.len(),
                    detections_view(found@) == loggers_check(a.sessions@, i as nat, timestamp),
                decreases a.sessions@.len() - i,
            {
                let k = &a.sessions[i];
                push_some(&mut found, self.check_buffer(k, timestamp));
                push_some(&mut found, self.check_file_mode(k, timestamp));
                i += 1;
            }
        }
        found
    }

    fn check_channel_enabled(&self, name: &str, k: ChannelKey, timestamp: u64) -> (r: Option<
        EtwTamperingDetection,
    >)
        ensures
            detection_view(r) == channel_enabled_check(name@, k, timestamp),
    {
        let disabled = match k.enabled {
            Some(value) => value == 0,
            None => false,
        };
        if disabled {
            Some(
                tampering_of(
                    EtwTamperingType::RegistryTampering,
                    850_000,
                    "Critical ETW channel '".to_string().concat(name).concat("' is disabled"),
                    fact(fact(Metadata::new(), "channel", name), "status", "Disabled"),
                    timestamp,
                ),
            )
        } else {
            None
        }
    }

    fn check_channel_size(&self, name: &str, k: ChannelKey, timestamp: u64) -> (r: Option<
        EtwTamperingDetection,
    >)
        ensures
            detection_view(r) == channel_size_check(name@, k, timestamp),
    {
        match k.max_size {
            Some(size) => {
                if size < 1_048_576 && size > 0 {
                    let text = decimal_text(size as u64);
                    Some(
                        tampering_of(
                            EtwTamperingType::RegistryTampering,
                            700_000,
                            "ETW channel '".to_string().concat(name).concat(
                                "' has suspiciously small max size (",
                            ).concat(text.as_str()).concat(" bytes)"),
                            fact(
                                fact(Metadata::new(), "channel", name),
                                "max_size_bytes",
                                text.as_str(),
                            ),
                            timestamp,
                        ),
                    )
                } else {
                    None
                }
            },
            None => None,
        }
    }

    fn check_security_log(&self, k: SecurityLogKey, timestamp: u64) -> (r: Vec<
        EtwTamperingDetection,
    >)
        ensures
            detections_view(r@) == security_log_check(k, timestamp),
    {
        let mut found: Vec<EtwTamperingDetection> = Vec::new();
        assert(detections_view(found@) =~= Seq::empty());
        let first = match k.max_size {
            Some(size) => {
                if size < 5_242_880 {
                    let text = decimal_text(size as u64);
                    Some(
                        tampering_of(
                            EtwTamperingType::RegistryTampering,
                            750_000,
                            "Security Event Log has small max size (".to_string().concat(
                                text.as_str(),
                            ).concat(" bytes)"),
                            fact(
                                fact(Metadata::new(), "log", "Security"),
                                "max_size",
                                text.concat(" bytes").as_str(),
                            ),
                            timestamp,
                        ),
                    )
                } else {
                    None
                }
            },
            None => None,
        };
        push_some(&mut found, first);
        let overwrites = match k.retention {
            Some(value) => value == 0,
            None => false,
        };
        let second = if overwrites {
            Some(
                tampering_of(
                    EtwTamperingType::RegistryTampering,
                    600_000,
                    "Security Event Log set to overwrite events (no retention)".to_string(),
                    fact(
                        fact(Metadata::new(), "log", "Security"),
                        "retention",
                        "Overwrite as needed",
                    ),
                    timestamp,
                ),
            )
        } else {
            None
        };
        push_some(&mut found, second);
        assert(detections_view(found@) =~= security_log_check(k, timestamp));
        found
    }

    /// Checks the registry.
    pub fn check_registry_tampering(&self, snapshot: &EtwSnapshot, timestamp: u64) -> (r: Vec<
        EtwTamperingDetection,
    >)
        requires
            snapshot.wf(),
        ensures
            detections_view(r@) == registry_check(*snapshot, timestamp),
    {
        let mut found: Vec<EtwTamperingDetection> = Vec::new();
        assert(detections_view(found@) =~= Seq::empty());
        if let Some(c) = &snapshot.channels {
            let mut i: usize = 0;
            while i < 4
                invariant
                    i <= 4,
                    c@.len() == 4,
                    detections_view(found@) == channels_check(c@, i as nat, timestamp),
                decreases 4 - i,
            {
                let name: &str = CRITICAL_CHANNELS[i];
                if let Some(k) = c[i] {
                    push_some(&mut found, self.check_channel_enabled(name, k, timestamp));
                    push_some(&mut found, self.check_channel_size(name, k, timestamp));
                }
                i += 1;
            }
        }
        if let Some(k) = snapshot.security_log {
            push_all(&mut found, self.check_security_log(k, timestamp));
        }
        assert(detections_view(found@) =~= registry_check(*snapshot, timestamp));
        found
    }

    fn check_syscall(&self, snapshot: &EtwSnapshot, name: &str, purpose: &str, timestamp: u64) -> (r:
        Option<EtwTamperingDetection>)
        ensures
            detection_view(r) == syscall_check(*snapshot, name@, purpose@, timestamp),
    {
        match ntdll_function(snapshot, name, 32) {
            Some(v) => {
                let b = v.as_slice();
                let valid = byte_is(b, 0, 0x4C) && byte_is(b, 1, 0x8B) && byte_is(b, 2, 0xD1)
                    && byte_is(b, 3, 0xB8) && byte_is(b, 8, 0x0F) && byte_is(b, 9, 0x05) && (
                byte_is(b, 10, 0xC3) || byte_is(b, 10, 0xC2));
                if !valid {
                    let change = if byte_is(b, 0, 0xE9) || byte_is(b, 0, 0xFF) {
                        "Jump/hook detected"
                    } else if byte_is(b, 0, 0x4C) && !byte_is(b, 3, 0xB8) {
                        "Syscall number obfuscation"
                    } else if !byte_is(b, 8, 0x0F) || !byte_is(b, 9, 0x05) {
                        "Syscall instruction replaced"
                    } else {
                        "Unknown modification"
                    };
                    Some(
                        tampering_of(
                            EtwTamperingType::SyscallHook,
                            900_000,
                            name.to_string().concat(" syscall stub has been modified: ").concat(
                                change,
                            ),
                            fact(
                                fact(
                                    fact(
                                        fact(Metadata::new(), "function", name),
                                        "description",
                                        purpose,
                                    ),
                                    "tampering_type",
                                    change,
                                ),
                                "first_bytes",
                                byte_list_text(b, 12).as_str(),
                            ),
                            timestamp,
                        ),
                    )
                } else {
                    None
                }
            },
            None => None,
        }
    }

    /// Checks the system call stubs.
    pub fn check_syscall_hooks(&self, snapshot: &EtwSnapshot, timestamp: u64) -> (r: Vec<
        EtwTamperingDetection,
    >)
        ensures
            detections_view(r@) == syscalls_check(*snapshot, 3, timestamp),
    {
        let mut found: Vec<EtwTamperingDetection> = Vec::new();
        let mut i: usize = 0;
        assert(detections_view(found@) =~= Seq::empty());
        while i < 3
            invariant
                i <= 3,
                detections_view(found@) == syscalls_check(*snapshot, i as nat, timestamp),
            decreases 3 - i,
        {
            let entry = SYSCALL_FUNCTIONS[i];
            push_some(&mut found, self.check_syscall(snapshot, entry.0, entry.1, timestamp));
            i += 1;
        }
        found
    }

    /// Scans what the machine shows for tampering. What is found is kept.
    pub fn scan_current_process(&mut self, snapshot: &EtwSnapshot, timestamp: u64) -> (r: Vec<
        EtwTamperingDetection,
    >)
        requires
            snapshot.wf(),
        ensures
            detections_view(r@) == scan_findings(
                old(self).baseline_functions@,
                *snapshot,
                timestamp,
            ),
            detections_view(final(self).detections@) == detections_view(old(self).detections@)
                + detections_view(r@),
            final(self).baseline_functions == old(self).baseline_functions,
    {
        let mut found: Vec<EtwTamperingDetection> = Vec::new();
        assert(detections_view(found@) =~= Seq::empty());
        push_some(&mut found, self.check_etw_eventwrite(snapshot, timestamp));
        assert(detections_view(found@) =~= at_most_one(event_write_check(*snapshot, timestamp)));
        push_some(&mut found, self.check_nt_trace_event(snapshot, timestamp));
        push_some(&mut found, self.check_amsi_scan_buffer(snapshot, timestamp));
        push_all(&mut found, self.check_etw_function_family(snapshot, timestamp));
        push_all(&mut found, self.check_provider_unregistration_attacks(snapshot, timestamp));
        push_some(&mut found, self.check_tracelogging_tampering(snapshot, timestamp));
        push_all(&mut found, self.check_eventwrite_hooks(snapshot, timestamp));
        push_all(&mut found, self.check_session_manipulation(snapshot, timestamp));
        push_all(&mut found, self.check_threat_intel_provider(snapshot, timestamp));
        push_some(&mut found, self.check_notification_callbacks(snapshot, timestamp));
        push_all(&mut found, self.check_private_logger_hijacking(snapshot, timestamp));
        push_all(&mut found, self.check_registry_tampering(snapshot, timestamp));
        push_all(&mut found, self.check_syscall_hooks(snapshot, timestamp));
        push_all(&mut self.detections, copy_detections(&found));
        found
    }

    fn check_remote_function(
        &self,
        amsi: bool,
        bytes: &Option<Vec<u8>>,
        pid: u32,
        timestamp: u64,
    ) -> (r: Option<EtwTamperingDetection>)
        ensures
            detection_view(r) == remote_check(amsi, bytes_view(*bytes), pid, timestamp),
    {
        let name = if amsi { "AmsiScanBuffer" } else { "EtwEventWrite" };
        let kind = if amsi {
            EtwTamperingType::AmsiBypass
        } else {
            EtwTamperingType::FunctionPatch
        };
        match bytes {
            Some(b) => {
                if self.is_patched(b.as_slice()) {
                    let text = decimal_text(pid as u64);
                    Some(
                        EtwTamperingDetection {
                            detection_type: kind,
                            confidence: 900_000,
                            mitre_technique: kind.mitre_technique().to_string(),
                            description: name.to_string().concat(" appears patched in PID ").concat(
                                text.as_str(),
                            ),
                            details: fact(
                                fact(
                                    fact(Metadata::new(), "function", name),
                                    "pid",
                                    text.as_str(),
                                ),
                                "first_bytes",
                                byte_list_text(b.as_slice(), 8).as_str(),
                            ),
                            timestamp,
                        },
                    )
                } else {
                    None
                }
            },
            None => None,
        }
    }

    /// Scans the modules of another process for tampering.
    pub fn scan_process(&self, pid: u32, modules: &Vec<RemoteModule>, timestamp: u64) -> (r: Vec<
        EtwTamperingDetection,
    >)
        ensures
            detections_view(r@) == modules_check(modules@, modules@.len(), pid, timestamp),
    {
        let mut found: Vec<EtwTamperingDetection> = Vec::new();
        let mut i: usize = 0;
        assert(detections_view(found@) =~= Seq::empty());
        while i < modules.len()
            invariant
                i <= modules@.len(),
                detections_view(found@) == modules_check(modules@, i as nat, pid, timestamp),
            decreases modules@.len() - i,
        {
            let m = &modules[i];
            let path = to_lowercase(m.path.as_str());
            let first = if contains(path.as_str(), "ntdll.dll") {
                self.check_remote_function(false, &m.event_write, pid, timestamp)
            } else {
                None
            };
            push_some(&mut found, first);
            let second = if contains(path.as_str(), "amsi.dll") {
                self.check_remote_function(true, &m.amsi_scan_buffer, pid, timestamp)
            } else {
                None
            };
            push_some(&mut found, second);
            i += 1;
        }
        found
    }

    /// The states of the critical providers.
    pub fn get_critical_provider_status(&self, snapshot: &EtwSnapshot, timestamp: u64) -> (r: Vec<
        ProviderState,
    >)
        ensures
            providers_view(r@) == provider_states(*snapshot, timestamp),
    {
        let guids = all_critical_guids();
        let ghost all = provider_states(*snapshot, timestamp);
        let mut r: Vec<ProviderState> = Vec::new();
        let mut i: usize = 0;
        assert(providers_view(r@) =~= all.take(0));
        while i < guids.len()
            invariant
                i <= guids@.len(),
                guids@.len() == all.len(),
                str_texts(guids@) == critical_guids(),
                all == provider_states(*snapshot, timestamp),
                providers_view(r@) == all.take(i as int),
            decreases guids@.len() - i,
        {
            let guid: &str = guids[i];
            assert(critical_guids()[i as int] == guid@);
            let ghost before = r@;
            r.push(
                ProviderState {
                    guid: guid.to_string(),
                    name: name_from_guid(guid).to_string(),
                    is_registered: self.is_provider_registered_in_registry(snapshot, guid),
                    handle: None,
                    last_check: timestamp,
                },
            );
            assert(providers_view(r@) =~= providers_view(before).push(r@.last()@));
            assert(all.take(i + 1) =~= all.take(i as int).push(all[i as int]));
            i += 1;
        }
        assert(all.take(i as int) =~= all);
        r
    }

    /// The sessions that are started at boot.
    pub fn get_session_status(&self, snapshot: &EtwSnapshot, timestamp: u64) -> (r: Vec<
        EtwSessionInfo,
    >)
        ensures
            sessions_view(r@) == session_states(*snapshot, timestamp),
    {
        let mut r: Vec<EtwSessionInfo> = Vec::new();
        let ghost all = session_states(*snapshot, timestamp);
        assert(sessions_view(r@) =~= all.take(0));
        if let Some(a) = &snapshot.autologger {
            let mut i: usize = 0;
            while i < a.sessions.len()
                invariant
                    i <= a.sessions@.len(),
                    snapshot.autologger == Some(*a),
                    all == session_states(*snapshot, timestamp),
                    sessions_view(r@) == all.take(i as int),
                decreases a.sessions@.len() - i,
            {
                let k = &a.sessions[i];
                let ghost before = r@;
                r.push(
                    EtwSessionInfo {
                        name: k.name.clone(),
                        guid: opt_copy(&k.guid),
                        is_running: match k.start {
                            Some(v) => v != 0,
                            None => false,
                        },
                        last_seen: timestamp,
                        provider_count: 0,
                    },
                );
                assert(sessions_view(r@) =~= sessions_view(before).push(r@.last()@));
                assert(all.take(i + 1) =~= all.take(i as int).push(all[i as int]));
                i += 1;
            }
            assert(all.take(i as int) =~= all);
        }
        r
    }

    /// Whether the functions of the baseline still begin alike.
    pub fn check_all_function_integrity(&self, snapshot: &EtwSnapshot) -> (r: Vec<(String, bool)>)
        ensures
            integrity_view(r@) == integrity(self.baseline_functions@, *snapshot),
    {
        let ghost all = integrity(self.baseline_functions@, *snapshot);
        let mut r: Vec<(String, bool)> = Vec::new();
        let mut i: usize = 0;
        assert(integrity_view(r@) =~= all.take(0));
        while i < self.baseline_functions.len()
            invariant
                i <= self.baseline_functions@.len(),
                all == integrity(self.baseline_functions@, *snapshot),
                integrity_view(r@) == all.take(i as int),
            decreases self.baseline_functions@.len() - i,
        {
            let name = self.baseline_functions[i].0.as_str();
            let known = self.baseline_functions[i].1.as_slice();
            let intact = match ntdll_function(snapshot, name, known.len()) {
                Some(b) => self.bytes_match(known, b.as_slice()),
                None => false,
            };
            let ghost before = r@;
            r.push((name.to_string(), intact));
            assert(integrity_view(r@) =~= integrity_view(before).push((name@, intact)));
            assert(all.take(i + 1) =~= all.take(i as int).push(all[i as int]));
            i += 1;
        }
        assert(all.take(i as int) =~= all);
        r
    }

    /// The health that everything found so far leaves, in millionths.
    pub fn calculate_overall_health(&self) -> (r: u32)
        ensures
            r == health(detections_view(self.detections@)),
            r <= ONE,
    {
        let ghost all = detections_view(self.detections@);
        let mut total: u128 = 0;
        let mut i: usize = 0;
        assert(all.take(0) =~= Seq::empty());
        while i < self.detections.len()
            invariant
                i <= self.detections@.len(),
                all == detections_view(self.detections@),
                total == total_severity(all.take(i as int)),
                total <= i * 1_000_000,
            decreases self.detections@.len() - i,
        {
            assert(all.take(i + 1).drop_last() =~= all.take(i as int));
            assert(all.take(i + 1).last() == self.detections@[i as int]@);
            total = total + self.detections[i].detection_type.severity() as u128;
            i += 1;
        }
        assert(all.take(i as int) =~= all);
        let impact: u128 = total / 2;
        if impact >= ONE as u128 {
            0
        } else {
            ONE - impact as u32
        }
    }

    /// Scans what the machine shows and reports on it.
    pub fn deep_scan(&mut self, snapshot: &EtwSnapshot, timestamp: u64) -> (r: EtwScanReport)
        requires
            snapshot.wf(),
        ensures
            r.timestamp == timestamp,
            detections_view(r.detections@) == scan_findings(
                old(self).baseline_functions@,
                *snapshot,
                timestamp,
            ),
            providers_view(r.provider_status@) == provider_states(*snapshot, timestamp),
            sessions_view(r.session_status@) == session_states(*snapshot, timestamp),
            integrity_view(r.function_integrity@) == integrity(
                old(self).baseline_functions@,
                *snapshot,
            ),
            r.overall_health == health(
                detections_view(old(self).detections@) + detections_view(r.detections@),
            ),
            detections_view(final(self).detections@) == detections_view(old(self).detections@)
                + detections_view(r.detections@),
            final(self).baseline_functions == old(self).baseline_functions,
    {
        let detections = self.scan_current_process(snapshot, timestamp);
        EtwScanReport {
            timestamp,
            detections,
            provider_status: self.get_critical_provider_status(snapshot, timestamp),
            session_status: self.get_session_status(snapshot, timestamp),
            function_integrity: self.check_all_function_integrity(snapshot),
            overall_health: self.calculate_overall_health(),
        }
    }

    /// Everything that scans have found.
    pub fn get_detections(&self) -> (r: Vec<EtwTamperingDetection>)
        ensures
            detections_view(r@) == detections_view(self.detections@),
    {
        copy_detections(&self.detections)
    }

    /// Forgets everything that scans have found.
    pub fn clear_detections(&mut self)
        ensures
            final(self).detections@ == Seq::<EtwTamperingDetection>::empty(),
            final(self).baseline_functions == old(self).baseline_functions,
    {
        self.detections.clear();
    }
}

impl Default for EtwTamperingDetector {
    fn default() -> (d: EtwTamperingDetector)
        ensures
            d.detections@ == Seq::<EtwTamperingDetection>::empty(),
            d.baseline_functions@ == Seq::<(String, Vec<u8>)>::empty(),
    {
        EtwTamperingDetector::new()
    }
}

/// The report of a scan.
pub struct EtwScanReport {
    /// In seconds since the Unix epoch.
    pub timestamp: u64,
    pub detections: Vec<EtwTamperingDetection>,
    pub provider_status: Vec<ProviderState>,
    pub session_status: Vec<EtwSessionInfo>,
    /// The functions, and whether each is intact.
    pub function_integrity: Vec<(String, bool)>,
    /// In millionths: zero is compromised, one is healthy.
    pub overall_health: u32,
}

/// Whether a severity lies from one bound up to, and not at, another.
pub open spec fn severity_between(low: int, high: int) -> spec_fn(EtwTamperingDetection) -> bool {
    |d: EtwTamperingDetection| low <= d.detection_type.spec_severity() < high
}

/// Whether a detection is of a kind.
pub open spec fn of_type(t: EtwTamperingType) -> spec_fn(EtwTamperingDetection) -> bool {
    |d: EtwTamperingDetection| d.detection_type == t
}

/// Whether a detection is about the threat intelligence provider.
pub open spec fn is_about_intel(d: EtwTamperingDetection) -> bool {
    d.detection_type == EtwTamperingType::ThreatIntelProviderDisabled || d.detection_type
        == EtwTamperingType::ThreatIntelProviderTargeted
}

/// The names of the functions, among the first `n`, that are not intact.
pub open spec fn broken(v: Seq<(String, bool)>, n: nat) -> Seq<Seq<char>>
    decreases n,
{
    if n == 0 {
        Seq::empty()
    } else if v[n - 1].1 {
        broken(v, (n - 1) as nat)
    } else {
        broken(v, (n - 1) as nat).push(v[n - 1].0@)
    }
}

/// Whether a provider is registered.
pub open spec fn is_registered(p: ProviderState) -> bool {
    p.is_registered
}

/// Whether a provider is not registered.
pub open spec fn is_unregistered(p: ProviderModel) -> bool {
    !p.is_registered
}

/// Whether no detection is more severe than the one at `i`, and none behind it
/// as severe.
pub open spec fn is_last_highest(v: Seq<EtwTamperingDetection>, i: int) -> bool {
    &&& 0 <= i < v.len()
    &&& forall|j: int|
        0 <= j < v.len() ==> (#[trigger] v[j]).detection_type.spec_severity()
            <= v[i].detection_type.spec_severity()
    &&& forall|j: int|
        i < j < v.len() ==> (#[trigger] v[j]).detection_type.spec_severity()
            < v[i].detection_type.spec_severity()
}

impl EtwScanReport {
    /// Whether a detection is critical.
    pub fn has_critical_issues(&self) -> (r: bool)
        ensures
            r == exists|i: int|
                0 <= i < self.detections@.len() && (
                #[trigger] self.detections@[i]).detection_type.spec_severity() >= 900_000,
    {
        let mut i: usize = 0;
        while i < self.detections.len()
            invariant
                i <= self.detections@.len(),
                forall|j: int|
                    0 <= j < i ==> (
                    #[trigger] self.detections@[j]).detection_type.spec_severity() < 900_000,
            decreases self.detections@.len() - i,
        {
            if self.detections[i].detection_type.severity() >= 900_000 {
                return true;
            }
            i += 1;
        }
        false
    }

    fn count_of(&self, t: EtwTamperingType) -> (n: usize)
        ensures
            n == self.detections@.filter(of_type(t)).len(),
    {
        let meets = |d: &EtwTamperingDetection| -> (b: bool)
            ensures
                b == (d.detection_type == t),
            { d.detection_type == t };
        count_where(&self.detections, meets, Ghost(of_type(t)))
    }

    /// The kinds of the detections, each once, and how many are of it.
    pub fn detection_count_by_type(&self) -> (r: Vec<(EtwTamperingType, usize)>)
        ensures
            forall|i: int, j: int|
                0 <= i < j < r@.len() ==> (#[trigger] r@[i]).0 != (#[trigger] r@[j]).0,
            forall|i: int|
                0 <= i < r@.len() ==> (#[trigger] r@[i]).1 == self.detections@.filter(
                    of_type(r@[i].0),
                ).len() && r@[i].1 > 0,
            forall|k: int|
                0 <= k < self.detections@.len() ==> exists|i: int|
                    0 <= i < r@.len() && (#[trigger] r@[i]).0 == (
                    #[trigger] self.detections@[k]).detection_type,
    {
        let mut r: Vec<(EtwTamperingType, usize)> = Vec::new();
        let mut k: usize = 0;
        while k < self.detections.len()
            invariant
                k <= self.detections@.len(),
                forall|i: int, j: int|
                    0 <= i < j < r@.len() ==> (#[trigger] r@[i]).0 != (#[trigger] r@[j]).0,
                forall|i: int|
                    0 <= i < r@.len() ==> (#[trigger] r@[i]).1 == self.detections@.filter(
                        of_type(r@[i].0),
                    ).len() && r@[i].1 > 0,
                forall|m: int|
                    0 <= m < k ==> exists|i: int|
                        0 <= i < r@.len() && (#[trigger] r@[i]).0 == (
                        #[trigger] self.detections@[m]).detection_type,
            decreases self.detections@.len() - k,
        {
            let t = self.detections[k].detection_type;
            let mut seen = false;
            let mut i: usize = 0;
            while i < r.len()
                invariant
                    i <= r@.len(),
                    seen == exists|j: int| 0 <= j < i && (#[trigger] r@[j]).0 == t,
                decreases r@.len() - i,
            {
                if r[i].0 == t {
                    seen = true;
                    assert(r@[i as int].0 == t);
                }
                i += 1;
            }
            let ghost before = r@;
            if !seen {
                let n: usize = self.count_of(t);
                proof {
                    crate::collect::lemma_filter_members(self.detections@, of_type(t));
                    assert(of_type(t)(self.detections@[k as int]));
                    assert(self.detections@.filter(of_type(t)).contains(self.detections@[k as int]));
                }
                r.push((t, n));
            }
            assert forall|m: int| 0 <= m < k + 1 implies exists|i: int|
                0 <= i < r@.len() && (#[trigger] r@[i]).0 == (
                #[trigger] self.detections@[m]).detection_type by {
                if m < k {
                    let i = choose|i: int|
                        0 <= i < before.len() && (#[trigger] before[i]).0
                            == self.detections@[m].detection_type;
                    assert(r@[i] == before[i]);
                } else if seen {
                    let j = choose|j: int| 0 <= j < before.len() && (#[trigger] before[j]).0 == t;
                    assert(r@[j] == before[j]);
                } else {
                    assert(r@[before.len() as int].0 == t);
                }
            }
            k += 1;
        }
        assert forall|m: int| 0 <= m < self.detections@.len() implies exists|i: int|
            0 <= i < r@.len() && (#[trigger] r@[i]).0 == (
            #[trigger] self.detections@[m]).detection_type by {
            let i = choose|i: int|
                0 <= i < r@.len() && (#[trigger] r@[i]).0 == self.detections@[m].detection_type;
            assert(r@[i].0 == self.detections@[m].detection_type);
        }
        r
    }

    fn highest_index(&self) -> (r: Option<usize>)
        ensures
            r is None <==> self.detections@.len() == 0,
            r matches Some(i) ==> i < self.detections@.len() && (forall|j: int|
                0 <= j < self.detections@.len() ==> (
                #[trigger] self.detections@[j]).detection_type.spec_severity()
                    <= self.detections@[i as int].detection_type.spec_severity()) && (forall|
                j: int,
            |
                i < j < self.detections@.len() ==> (
                #[trigger] self.detections@[j]).detection_type.spec_severity()
                    < self.detections@[i as int].detection_type.spec_severity()),
    {
        if self.detections.len() == 0 {
            return None;
        }
        let mut best: usize = 0;
        let mut i: usize = 1;
        while i < self.detections.len()
            invariant
                1 <= i <= self.detections@.len(),
                best < i,
                forall|j: int|
                    0 <= j < i ==> (
                    #[trigger] self.detections@[j]).detection_type.spec_severity()
                        <= self.detections@[best as int].detection_type.spec_severity(),
                forall|j: int|
                    best < j < i ==> (
                    #[trigger] self.detections@[j]).detection_type.spec_severity()
                        < self.detections@[best as int].detection_type.spec_severity(),
            decreases self.detections@.len() - i,
        {
            if self.detections[i].detection_type.severity()
                >= self.detections[best].detection_type.severity() {
                best = i;
            }
            i += 1;
        }
        Some(best)
    }

    /// The last of the most severe detections.
    pub fn highest_severity_detection(&self) -> (r: Option<&EtwTamperingDetection>)
        ensures
            r is None <==> self.detections@.len() == 0,
            r matches Some(d) ==> exists|i: int|
                is_last_highest(self.detections@, i) && *d == #[trigger] self.detections@[i],
    {
        match self.highest_index() {
            Some(i) => {
                assert(is_last_highest(self.detections@, i as int));
                Some(&self.detections[i])
            },
            None => None,
        }
    }

    /// The functions that are not intact.
    pub fn compromised_functions(&self) -> (r: Vec<String>)
        ensures
            texts(r@) == broken(self.function_integrity@, self.function_integrity@.len()),
    {
        let mut r: Vec<String> = Vec::new();
        let mut i: usize = 0;
        assert(texts(r@) =~= Seq::empty());
        while i < self.function_integrity.len()
            invariant
                i <= self.function_integrity@.len(),
                texts(r@) == broken(self.function_integrity@, i as nat),
            decreases self.function_integrity@.len() - i,
        {
            if !self.function_integrity[i].1 {
                push_text(&mut r, self.function_integrity[i].0.clone());
            }
            i += 1;
        }
        r
    }

    /// The critical providers that are not registered.
    pub fn unregistered_providers(&self) -> (r: Vec<ProviderState>)
        ensures
            providers_view(r@) == providers_view(self.provider_status@).filter(
                |p: ProviderModel| is_unregistered(p),
            ),
    {
        let ghost all = providers_view(self.provider_status@);
        let ghost p = |p: ProviderModel| is_unregistered(p);
        let mut r: Vec<ProviderState> = Vec::new();
        let mut i: usize = 0;
        proof {
            lemma_filter_nothing(all, p);
            assert(providers_view(r@) =~= Seq::empty());
        }
        while i < self.provider_status.len()
            invariant
                i <= self.provider_status@.len(),
                all == providers_view(self.provider_status@),
                p == (|p: ProviderModel| is_unregistered(p)),
                providers_view(r@) == all.take(i as int).filter(p),
            decreases self.provider_status@.len() - i,
        {
            proof {
                lemma_filter_step(all, i as int, p);
            }
            let s = &self.provider_status[i];
            if !s.is_registered {
                let ghost before = r@;
                r.push(
                    ProviderState {
                        guid: s.guid.clone(),
                        name: s.name.clone(),
                        is_registered: s.is_registered,
                        handle: s.handle,
                        last_check: s.last_check,
                    },
                );
                assert(providers_view(r@) =~= providers_view(before).push(all[i as int]));
            }
            i += 1;
        }
        assert(all.take(i as int) =~= all);
        r
    }

    /// Whether a detection is about the threat intelligence provider.
    pub fn is_threat_intel_compromised(&self) -> (r: bool)
        ensures
            r == exists|i: int|
                0 <= i < self.detections@.len() && is_about_intel(#[trigger] self.detections@[i]),
    {
        let mut i: usize = 0;
        while i < self.detections.len()
            invariant
                i <= self.detections@.len(),
                forall|j: int| 0 <= j < i ==> !is_about_intel(#[trigger] self.detections@[j]),
            decreases self.detections@.len() - i,
        {
            let t = self.detections[i].detection_type;
            if t == EtwTamperingType::ThreatIntelProviderDisabled || t
                == EtwTamperingType::ThreatIntelProviderTargeted {
                assert(is_about_intel(self.detections@[i as int]));
                return true;
            }
            i += 1;
        }
        false
    }

    fn count_severity(&self, low: u32, high: u32) -> (n: usize)
        ensures
            n == self.detections@.filter(severity_between(low as int, high as int)).len(),
    {
        let meets = |d: &EtwTamperingDetection| -> (b: bool)
            ensures
                b == (low <= d.detection_type.spec_severity() < high),
            { severity_within(d, low, high) };
        count_where(
            &self.detections,
            meets,
            Ghost(severity_between(low as int, high as int)),
        )
    }

    /// The report in one line.
    pub fn summary(&self) -> (r: String)
        ensures
            r@ == "ETW Health: "@ + decimal(rounded(self.overall_health as nat, 10_000))
                + "% | Detections: "@ + decimal(self.detections@.len()) + " (Critical: "@
                + decimal(self.detections@.filter(severity_between(900_000, 2_000_000)).len())
                + ", High: "@ + decimal(
                self.detections@.filter(severity_between(750_000, 900_000)).len(),
            ) + ", Medium: "@ + decimal(
                self.detections@.filter(severity_between(500_000, 750_000)).len(),
            ) + ") | Providers: "@ + decimal(
                self.provider_status@.filter(|p: ProviderState| is_registered(p)).len(),
            ) + "/"@ + decimal(self.provider_status@.len()) + " OK"@,
    {
        let critical: usize = self.count_severity(900_000, 2_000_000);
        let high: usize = self.count_severity(750_000, 900_000);
        let medium: usize = self.count_severity(500_000, 750_000);
        let meets = |p: &ProviderState| -> (b: bool)
            ensures
                b == is_registered(*p),
            { p.is_registered };
        let registered: usize = count_where(
            &self.provider_status,
            meets,
            Ghost(|p: ProviderState| is_registered(p)),
        );
        "ETW Health: ".to_string().concat(
            decimal_text(round_to(self.overall_health as u64, 10_000)).as_str(),
        ).concat("% | Detections: ").concat(
            decimal_text(self.detections.len() as u64).as_str(),
        ).concat(" (Critical: ").concat(decimal_text(critical as u64).as_str()).concat(
            ", High: ",
        ).concat(decimal_text(high as u64).as_str()).concat(", Medium: ").concat(
            decimal_text(medium as u64).as_str(),
        ).concat(") | Providers: ").concat(decimal_text(registered as u64).as_str()).concat(
            "/",
        ).concat(decimal_text(self.provider_status.len() as u64).as_str()).concat(" OK")
    }
}

fn severity_within(d: &EtwTamperingDetection, low: u32, high: u32) -> (r: bool)
    ensures
        r == (low <= d.detection_type.spec_severity() < high),
{
    let s: u32 = d.detection_type.severity();
    low <= s && s < high
}

/// Without detections the health is whole, and only then.
pub proof fn law_healthy_iff_nothing_found(v: Seq<TamperingModel>)
    ensures
        health(v) == ONE <==> v.len() == 0,
{
    if v.len() > 0 {
        assert(v.last().detection_type.spec_severity() >= 600_000);
    }
}

/// More detections never make the health better.
pub proof fn law_health_only_falls(v: Seq<TamperingModel>, more: Seq<TamperingModel>)
    ensures
        health(v + more) <= health(v),
{
    lemma_severity_grows(v, more);
}

proof fn lemma_severity_grows(v: Seq<TamperingModel>, more: Seq<TamperingModel>)
    ensures
        total_severity(v + more) >= total_severity(v),
    decreases more.len(),
{
    if more.len() > 0 {
        lemma_severity_grows(v, more.drop_last());
        assert((v + more).drop_last() =~= v + more.drop_last());
    } else {
        assert(v + more =~= v);
    }
}

/// A function that returns at once counts as patched, whatever follows.
pub proof fn law_immediate_return_is_a_patch(b: Seq<u8>)
    requires
        b.len() > 0,
        b[0] == 0xC3,
    ensures
        patched(b),
{
}

/// An untouched system call stub is neither patched nor hooked, and is not
/// instrumented where the number of its call fits in sixteen bits.
pub proof fn law_valid_stub_is_untouched(b: Seq<u8>)
    requires
        b.len() >= 16,
        valid_stub(b),
    ensures
        !patched(b),
        !hooked(b),
        b[6] == 0 && b[7] == 0 ==> !instrumented(b),
{
    reveal_with_fuel(count_between, 9);
}

/// Whether something of a type is among some detections.
pub open spec fn finds(v: Seq<TamperingModel>, t: EtwTamperingType) -> bool {
    exists|k: int| 0 <= k < v.len() && (#[trigger] v[k]).detection_type == t
}

proof fn lemma_finds_both(a: Seq<TamperingModel>, b: Seq<TamperingModel>, t: EtwTamperingType)
    ensures
        finds(a + b, t) <==> finds(a, t) || finds(b, t),
{
    let all = a + b;
    assert(forall|k: int| 0 <= k < a.len() ==> #[trigger] all[k] == a[k]);
    assert(forall|k: int| a.len() <= k < all.len() ==> #[trigger] all[k] == b[k - a.len()]);
    if finds(a, t) {
        let k = choose|k: int| 0 <= k < a.len() && (#[trigger] a[k]).detection_type == t;
        assert(all[k].detection_type == t);
    }
    if finds(b, t) {
        let k = choose|k: int| 0 <= k < b.len() && (#[trigger] b[k]).detection_type == t;
        assert(all[a.len() + k].detection_type == t);
    }
    if finds(all, t) {
        let k = choose|k: int| 0 <= k < all.len() && (#[trigger] all[k]).detection_type == t;
        if k < a.len() {
            assert(a[k].detection_type == t);
        } else {
            assert(b[k - a.len()].detection_type == t);
        }
    }
}

proof fn lemma_finds_one(d: Option<TamperingModel>, t: EtwTamperingType)
    ensures
        finds(at_most_one(d), t) <==> d is Some && d->0.detection_type == t,
{
    if d is Some {
        assert(at_most_one(d)[0] == d->0);
    }
}

spec fn is_of(d: Option<TamperingModel>, t: EtwTamperingType) -> bool {
    d is Some && d->0.detection_type == t
}

proof fn lemma_family(s: EtwSnapshot, n: nat, ts: u64, t: EtwTamperingType)
    ensures
        finds(family_check(s, n, ts), t) <==> exists|i: int|
            0 <= i < n && #[trigger] is_of(family_member_check(s, ETW_FAMILY@[i].0@, ETW_FAMILY@[i].1@, ts), t),
    decreases n,
{
    if n > 0 {
        lemma_family(s, (n - 1) as nat, ts, t);
        lemma_finds_one(family_member_check(s, ETW_FAMILY@[n - 1].0@, ETW_FAMILY@[n - 1].1@, ts), t);
        lemma_finds_both(
            family_check(s, (n - 1) as nat, ts),
            at_most_one(family_member_check(s, ETW_FAMILY@[n - 1].0@, ETW_FAMILY@[n - 1].1@, ts)),
            t,
        );
        if is_of(family_member_check(s, ETW_FAMILY@[n - 1].0@, ETW_FAMILY@[n - 1].1@, ts), t) {
            assert(is_of(family_member_check(s, ETW_FAMILY@[n - 1].0@, ETW_FAMILY@[n - 1].1@, ts), t));
        }
        if finds(family_check(s, (n - 1) as nat, ts), t) {
            let i = choose|i: int|
                0 <= i < n - 1 && #[trigger] is_of(family_member_check(s, ETW_FAMILY@[i].0@, ETW_FAMILY@[i].1@, ts), t);
            assert(is_of(family_member_check(s, ETW_FAMILY@[i].0@, ETW_FAMILY@[i].1@, ts), t));
        }
    }
}

proof fn lemma_providers(s: EtwSnapshot, n: nat, ts: u64, t: EtwTamperingType)
    ensures
        finds(providers_check(s, n, ts), t) <==> exists|i: int|
            0 <= i < n && #[trigger] is_of(provider_check(s, critical_guids()[i], ts), t),
    decreases n,
{
    if n > 0 {
        lemma_providers(s, (n - 1) as nat, ts, t);
        lemma_finds_one(provider_check(s, critical_guids()[n - 1], ts), t);
        lemma_finds_both(
            providers_check(s, (n - 1) as nat, ts),
            at_most_one(provider_check(s, critical_guids()[n - 1], ts)),
            t,
        );
        if is_of(provider_check(s, critical_guids()[n - 1], ts), t) {
            assert(is_of(provider_check(s, critical_guids()[n - 1], ts), t));
        }
        if finds(providers_check(s, (n - 1) as nat, ts), t) {
            let i = choose|i: int|
                0 <= i < n - 1 && #[trigger] is_of(provider_check(s, critical_guids()[i], ts), t);
            assert(is_of(provider_check(s, critical_guids()[i], ts), t));
        }
    }
}

proof fn lemma_baselines(baseline: Seq<(String, Vec<u8>)>, s: EtwSnapshot, n: nat, ts: u64, t: EtwTamperingType)
    ensures
        finds(baselines_check(baseline, s, n, ts), t) <==> exists|i: int|
            0 <= i < n && #[trigger] is_of(baseline_check(baseline, s, EVENT_WRITERS@[i]@, ts), t),
    decreases n,
{
    if n > 0 {
        lemma_baselines(baseline, s, (n - 1) as nat, ts, t);
        lemma_finds_one(baseline_check(baseline, s, EVENT_WRITERS@[n - 1]@, ts), t);
        lemma_finds_both(
            baselines_check(baseline, s, (n - 1) as nat, ts),
            at_most_one(baseline_check(baseline, s, EVENT_WRITERS@[n - 1]@, ts)),
            t,
        );
        if is_of(baseline_check(baseline, s, EVENT_WRITERS@[n - 1]@, ts), t) {
            assert(is_of(baseline_check(baseline, s, EVENT_WRITERS@[n - 1]@, ts), t));
        }
        if finds(baselines_check(baseline, s, (n - 1) as nat, ts), t) {
            let i = choose|i: int|
                0 <= i < n - 1 && #[trigger] is_of(baseline_check(baseline, s, EVENT_WRITERS@[i]@, ts), t);
            assert(is_of(baseline_check(baseline, s, EVENT_WRITERS@[i]@, ts), t));
        }
    }
}

proof fn lemma_sessions(states: Seq<CriticalSession>, n: nat, ts: u64, t: EtwTamperingType)
    ensures
        finds(sessions_check(states, n, ts), t) <==> exists|i: int|
            0 <= i < n && #[trigger] is_of(session_check(CRITICAL_SESSIONS@[i]@, states[i], ts), t),
    decreases n,
{
    if n > 0 {
        lemma_sessions(states, (n - 1) as nat, ts, t);
        lemma_finds_one(session_check(CRITICAL_SESSIONS@[n - 1]@, states[n - 1], ts), t);
        lemma_finds_both(
            sessions_check(states, (n - 1) as nat, ts),
            at_most_one(session_check(CRITICAL_SESSIONS@[n - 1]@, states[n - 1], ts)),
            t,
        );
        if is_of(session_check(CRITICAL_SESSIONS@[n - 1]@, states[n - 1], ts), t) {
            assert(is_of(session_check(CRITICAL_SESSIONS@[n - 1]@, states[n - 1], ts), t));
        }
        if finds(sessions_check(states, (n - 1) as nat, ts), t) {
            let i = choose|i: int|
                0 <= i < n - 1 && #[trigger] is_of(session_check(CRITICAL_SESSIONS@[i]@, states[i], ts), t);
            assert(is_of(session_check(CRITICAL_SESSIONS@[i]@, states[i], ts), t));
        }
    }
}

proof fn lemma_syscalls(s: EtwSnapshot, n: nat, ts: u64, t: EtwTamperingType)
    ensures
        finds(syscalls_check(s, n, ts), t) <==> exists|i: int|
            0 <= i < n && #[trigger] is_of(syscall_check(s, SYSCALL_FUNCTIONS@[i].0@, SYSCALL_FUNCTIONS@[i].1@, ts), t),
    decreases n,
{
    if n > 0 {
        lemma_syscalls(s, (n - 1) as nat, ts, t);
        lemma_finds_one(syscall_check(s, SYSCALL_FUNCTIONS@[n - 1].0@, SYSCALL_FUNCTIONS@[n - 1].1@, ts), t);
        lemma_finds_both(
            syscalls_check(s, (n - 1) as nat, ts),
            at_most_one(syscall_check(s, SYSCALL_FUNCTIONS@[n - 1].0@, SYSCALL_FUNCTIONS@[n - 1].1@, ts)),
            t,
        );
        if is_of(syscall_check(s, SYSCALL_FUNCTIONS@[n - 1].0@, SYSCALL_FUNCTIONS@[n - 1].1@, ts), t) {
            assert(is_of(syscall_check(s, SYSCALL_FUNCTIONS@[n - 1].0@, SYSCALL_FUNCTIONS@[n - 1].1@, ts), t));
        }
        if finds(syscalls_check(s, (n - 1) as nat, ts), t) {
            let i = choose|i: int|
                0 <= i < n - 1 && #[trigger] is_of(syscall_check(s, SYSCALL_FUNCTIONS@[i].0@, SYSCALL_FUNCTIONS@[i].1@, ts), t);
            assert(is_of(syscall_check(s, SYSCALL_FUNCTIONS@[i].0@, SYSCALL_FUNCTIONS@[i].1@, ts), t));
        }
    }
}

proof fn lemma_loggers(sessions: Seq<SessionKey>, n: nat, ts: u64, t: EtwTamperingType)
    ensures
        finds(loggers_check(sessions, n, ts), t) <==> exists|i: int|
            0 <= i < n && (is_of(buffer_check(#[trigger] sessions[i], ts), t) || is_of(
                file_mode_check(sessions[i], ts),
                t,
            )),
    decreases n,
{
    if n > 0 {
        lemma_loggers(sessions, (n - 1) as nat, ts, t);
        let before = loggers_check(sessions, (n - 1) as nat, ts);
        let a = buffer_check(sessions[n - 1], ts);
        let b = file_mode_check(sessions[n - 1], ts);
        lemma_finds_one(a, t);
        lemma_finds_one(b, t);
        lemma_finds_both(before, at_most_one(a), t);
        lemma_finds_both(before + at_most_one(a), at_most_one(b), t);
        if finds(before, t) {
            let i = choose|i: int|
                0 <= i < n - 1 && (is_of(buffer_check(#[trigger] sessions[i], ts), t) || is_of(
                    file_mode_check(sessions[i], ts),
                    t,
                ));
            assert(is_of(buffer_check(sessions[i], ts), t) || is_of(
                file_mode_check(sessions[i], ts),
                t,
            ));
        }
        if is_of(a, t) || is_of(b, t) {
            assert(is_of(buffer_check(sessions[n - 1], ts), t) || is_of(
                file_mode_check(sessions[n - 1], ts),
                t,
            ));
        }
    }
}

proof fn lemma_channels(keys: Seq<Option<ChannelKey>>, n: nat, ts: u64, t: EtwTamperingType)
    ensures
        finds(channels_check(keys, n, ts), t) <==> t == EtwTamperingType::RegistryTampering
            && exists|i: int|
            0 <= i < n && (#[trigger] keys[i] matches Some(k) && (k.enabled == Some(0u32) || (
            k.max_size matches Some(size) && 0 < size < 1_048_576))),
    decreases n,
{
    if n > 0 {
        lemma_channels(keys, (n - 1) as nat, ts, t);
        let before = channels_check(keys, (n - 1) as nat, ts);
        let name = CRITICAL_CHANNELS@[n - 1]@;
        if let Some(k) = keys[n - 1] {
            let a = channel_enabled_check(name, k, ts);
            let b = channel_size_check(name, k, ts);
            lemma_finds_one(a, t);
            lemma_finds_one(b, t);
            lemma_finds_both(before, at_most_one(a), t);
            lemma_finds_both(before + at_most_one(a), at_most_one(b), t);
        }
        if finds(before, t) {
            let i = choose|i: int|
                0 <= i < n - 1 && (#[trigger] keys[i] matches Some(k) && (k.enabled == Some(0u32)
                    || (k.max_size matches Some(size) && 0 < size < 1_048_576)));
            assert(keys[i] is Some);
        }
    }
}

proof fn lemma_scan(
    baseline: Seq<(String, Vec<u8>)>,
    s: EtwSnapshot,
    ts: u64,
    t: EtwTamperingType,
)
    ensures
        finds(scan_findings(baseline, s, ts), t) <==> {
            ||| is_of(event_write_check(s, ts), t)
            ||| is_of(trace_event_check(s, ts), t)
            ||| is_of(amsi_check(s, ts), t)
            ||| finds(family_check(s, 10, ts), t)
            ||| finds(unregistration_check(s, ts), t)
            ||| is_of(tracelogging_check(s, ts), t)
            ||| finds(eventwrite_hooks_check(baseline, s, ts), t)
            ||| finds(session_manipulation_check(s, ts), t)
            ||| finds(threat_intel_check(s, ts), t)
            ||| is_of(notification_check(s, ts), t)
            ||| finds(private_logger_check(s, ts), t)
            ||| finds(registry_check(s, ts), t)
            ||| finds(syscalls_check(s, 3, ts), t)
        },
{
    let a1 = at_most_one(event_write_check(s, ts));
    let a2 = at_most_one(trace_event_check(s, ts));
    let a3 = at_most_one(amsi_check(s, ts));
    let a4 = family_check(s, 10, ts);
    let a5 = unregistration_check(s, ts);
    let a6 = at_most_one(tracelogging_check(s, ts));
    let a7 = eventwrite_hooks_check(baseline, s, ts);
    let a8 = session_manipulation_check(s, ts);
    let a9 = threat_intel_check(s, ts);
    let a10 = at_most_one(notification_check(s, ts));
    let a11 = private_logger_check(s, ts);
    let a12 = registry_check(s, ts);
    let a13 = syscalls_check(s, 3, ts);
    lemma_finds_one(event_write_check(s, ts), t);
    lemma_finds_one(trace_event_check(s, ts), t);
    lemma_finds_one(amsi_check(s, ts), t);
    lemma_finds_one(tracelogging_check(s, ts), t);
    lemma_finds_one(notification_check(s, ts), t);
    lemma_finds_both(a1, a2, t);
    lemma_finds_both(a1 + a2, a3, t);
    lemma_finds_both(a1 + a2 + a3, a4, t);
    lemma_finds_both(a1 + a2 + a3 + a4, a5, t);
    lemma_finds_both(a1 + a2 + a3 + a4 + a5, a6, t);
    lemma_finds_both(a1 + a2 + a3 + a4 + a5 + a6, a7, t);
    lemma_finds_both(a1 + a2 + a3 + a4 + a5 + a6 + a7, a8, t);
    lemma_finds_both(a1 + a2 + a3 + a4 + a5 + a6 + a7 + a8, a9, t);
    lemma_finds_both(a1 + a2 + a3 + a4 + a5 + a6 + a7 + a8 + a9, a10, t);
    lemma_finds_both(a1 + a2 + a3 + a4 + a5 + a6 + a7 + a8 + a9 + a10, a11, t);
    lemma_finds_both(a1 + a2 + a3 + a4 + a5 + a6 + a7 + a8 + a9 + a10 + a11, a12, t);
    lemma_finds_both(a1 + a2 + a3 + a4 + a5 + a6 + a7 + a8 + a9 + a10 + a11 + a12, a13, t);
}

proof fn lemma_parts(
    baseline: Seq<(String, Vec<u8>)>,
    s: EtwSnapshot,
    ts: u64,
    t: EtwTamperingType,
)
    requires
        s.wf(),
    ensures
        finds(unregistration_check(s, ts), t) <==> (t
            == EtwTamperingType::ProviderUnregistrationAttack && (ntdll_bytes(
            s,
            "EtwEventUnregister"@,
            32,
        ) matches Some(b) && instrumented(b))) || finds(providers_check(s, 10, ts), t),
        finds(eventwrite_hooks_check(baseline, s, ts), t) <==> (t
            == EtwTamperingType::EventWriteHook && (function_bytes(
            s.functions@,
            "kernelbase.dll"@,
            "EventWrite"@,
            32,
        ) matches Some(b) && (patched(b) || hooked(b)))) || finds(
            baselines_check(baseline, s, 3, ts),
            t,
        ),
        finds(session_manipulation_check(s, ts), t) <==> (s.autologger matches Some(a) && finds(
            sessions_check(a.critical@, 6, ts),
            t,
        )) || (t == EtwTamperingType::SessionManipulation && (ntdll_bytes(
            s,
            "NtTraceControl"@,
            32,
        ) matches Some(b) && (patched(b) || hooked(b)))),
        finds(threat_intel_check(s, ts), t) <==> (t
            == EtwTamperingType::ThreatIntelProviderDisabled && (s.threat_intel is None
            || s.threat_intel->0.enabled == Some(0u32))) || (t
            == EtwTamperingType::ThreatIntelProviderTargeted && (s.threat_intel matches Some(k)
            && k.message_file_name matches Some(f) && !occurs("system32"@, lowercase(f@)))),
        finds(registry_check(s, ts), t) <==> t == EtwTamperingType::RegistryTampering && ((
        s.channels matches Some(c) && exists|i: int|
            0 <= i < 4 && (#[trigger] c@[i] matches Some(k) && (k.enabled == Some(0u32) || (
            k.max_size matches Some(size) && 0 < size < 1_048_576)))) || (s.security_log matches
            Some(k) && ((k.max_size matches Some(size) && size < 5_242_880) || k.retention == Some(
            0u32,
        )))),
{
    let unregister = ntdll_bytes(s, "EtwEventUnregister"@, 32);
    let d1 = if unregister is Some && instrumented(unregister->0) {
        Some(
            tampering(
                EtwTamperingType::ProviderUnregistrationAttack,
                850_000,
                "EtwEventUnregister appears to be instrumented for handle capture"@,
                no_facts().insert("function"@, "EtwEventUnregister"@).insert(
                    "pattern"@,
                    "Instrumentation detected"@,
                ).insert("first_bytes"@, byte_list(first_bytes(unregister->0, 16))),
                ts,
            ),
        )
    } else {
        None
    };
    lemma_finds_one(d1, t);
    lemma_finds_both(at_most_one(d1), providers_check(s, 10, ts), t);
    assert(unregistration_check(s, ts) == at_most_one(d1) + providers_check(s, 10, ts));
    let write = function_bytes(s.functions@, "kernelbase.dll"@, "EventWrite"@, 32);
    let d2 = if write is Some && (patched(write->0) || hooked(write->0)) {
        Some(
            tampering(
                EtwTamperingType::EventWriteHook,
                900_000,
                "kernelbase!EventWrite appears to be hooked"@,
                function_facts("kernelbase!EventWrite"@, first_bytes(write->0, 16)),
                ts,
            ),
        )
    } else {
        None
    };
    lemma_finds_one(d2, t);
    lemma_finds_both(at_most_one(d2), baselines_check(baseline, s, 3, ts), t);
    assert(eventwrite_hooks_check(baseline, s, ts) == at_most_one(d2) + baselines_check(
        baseline,
        s,
        3,
        ts,
    ));
    let control = ntdll_bytes(s, "NtTraceControl"@, 32);
    let d3 = if control is Some && (patched(control->0) || hooked(control->0)) {
        Some(
            tampering(
                EtwTamperingType::SessionManipulation,
                900_000,
                "NtTraceControl appears to be tampered - session control compromised"@,
                function_facts("NtTraceControl"@, first_bytes(control->0, 16)),
                ts,
            ),
        )
    } else {
        None
    };
    let first = match s.autologger {
        Some(a) => sessions_check(a.critical@, 6, ts),
        None => Seq::empty(),
    };
    lemma_finds_one(d3, t);
    lemma_finds_both(first, at_most_one(d3), t);
    assert(session_manipulation_check(s, ts) == first + at_most_one(d3));
    lemma_threat_intel(s, ts, t);
    lemma_registry(s, ts, t);
}

proof fn lemma_threat_intel(s: EtwSnapshot, ts: u64, t: EtwTamperingType)
    ensures
        finds(threat_intel_check(s, ts), t) <==> (t
            == EtwTamperingType::ThreatIntelProviderDisabled && (s.threat_intel is None
            || s.threat_intel->0.enabled == Some(0u32))) || (t
            == EtwTamperingType::ThreatIntelProviderTargeted && (s.threat_intel matches Some(k)
            && k.message_file_name matches Some(f) && !occurs("system32"@, lowercase(f@)))),
{
    match s.threat_intel {
        Some(k) => {
            let d1 = if k.enabled == Some(0u32) {
                Some(
                    tampering(
                        EtwTamperingType::ThreatIntelProviderDisabled,
                        980_000,
                        "Microsoft-Windows-Threat-Intelligence ETW provider is explicitly disabled"@,
                        intel_facts("Explicitly disabled"@),
                        ts,
                    ),
                )
            } else {
                None
            };
            let d2 = match k.message_file_name {
                Some(f) => if !occurs("system32"@, lowercase(f@)) {
                    Some(
                        tampering(
                            EtwTamperingType::ThreatIntelProviderTargeted,
                            900_000,
                            "Threat Intelligence provider MessageFileName points to unexpected location"@,
                            no_facts().insert("provider"@, THREAT_INTEL_NAME@).insert(
                                "message_file"@,
                                f@,
                            ),
                            ts,
                        ),
                    )
                } else {
                    None
                },
                None => None,
            };
            lemma_finds_one(d1, t);
            lemma_finds_one(d2, t);
            lemma_finds_both(at_most_one(d1), at_most_one(d2), t);
            assert(threat_intel_check(s, ts) == at_most_one(d1) + at_most_one(d2));
        },
        None => {
            let v = threat_intel_check(s, ts);
            assert(v[0].detection_type == EtwTamperingType::ThreatIntelProviderDisabled);
        },
    }
}

proof fn lemma_registry(s: EtwSnapshot, ts: u64, t: EtwTamperingType)
    ensures
        finds(registry_check(s, ts), t) <==> t == EtwTamperingType::RegistryTampering && ((
        s.channels matches Some(c) && exists|i: int|
            0 <= i < 4 && (#[trigger] c@[i] matches Some(k) && (k.enabled == Some(0u32) || (
            k.max_size matches Some(size) && 0 < size < 1_048_576)))) || (s.security_log matches
            Some(k) && ((k.max_size matches Some(size) && size < 5_242_880) || k.retention == Some(
            0u32,
        )))),
{
    let first = match s.channels {
        Some(c) => channels_check(c@, 4, ts),
        None => Seq::empty(),
    };
    if let Some(c) = s.channels {
        lemma_channels(c@, 4, ts, t);
    }
    let second = match s.security_log {
        Some(k) => security_log_check(k, ts),
        None => Seq::empty(),
    };
    if let Some(k) = s.security_log {
        let d1 = match k.max_size {
            Some(size) => if size < 5_242_880 {
                Some(
                    tampering(
                        EtwTamperingType::RegistryTampering,
                        750_000,
                        "Security Event Log has small max size ("@ + decimal(size as nat)
                            + " bytes)"@,
                        no_facts().insert("log"@, "Security"@).insert(
                            "max_size"@,
                            decimal(size as nat) + " bytes"@,
                        ),
                        ts,
                    ),
                )
            } else {
                None
            },
            None => None,
        };
        let d2 = if k.retention == Some(0u32) {
            Some(
                tampering(
                    EtwTamperingType::RegistryTampering,
                    600_000,
                    "Security Event Log set to overwrite events (no retention)"@,
                    no_facts().insert("log"@, "Security"@).insert(
                        "retention"@,
                        "Overwrite as needed"@,
                    ),
                    ts,
                ),
            )
        } else {
            None
        };
        lemma_finds_one(d1, t);
        lemma_finds_one(d2, t);
        lemma_finds_both(at_most_one(d1), at_most_one(d2), t);
        assert(security_log_check(k, ts) == at_most_one(d1) + at_most_one(d2));
    }
    lemma_finds_both(first, second, t);
    assert(registry_check(s, ts) == first + second);
}

/// The functions of the tracing library that are watched beside the one that writes events.
pub open spec fn watched_functions() -> Seq<&'static str> {
    seq![
        "EtwEventWriteFull",
        "EtwEventWriteTransfer",
        "EtwEventRegister",
        "EtwEventUnregister",
        "EtwNotificationRegister",
        "EtwNotificationUnregister",
        "NtTraceControl",
        "EtwEventWriteEx",
        "EtwEventWriteString",
        "EtwEventWriteNoRegistration",
    ]
}

/// A function that was changed to return at once or to jump elsewhere is found, and only
/// then is a patch: the two that write events, and every other that is watched. One that
/// was not, and half of whose first eight bytes do nothing, is found as such.
pub proof fn law_changed_functions_are_found(
    baseline: Seq<(String, Vec<u8>)>,
    s: EtwSnapshot,
    ts: u64,
)
    requires
        s.wf(),
    ensures
        ({
            let found = scan_findings(baseline, s, ts);
            let writes = ntdll_bytes(s, "EtwEventWrite"@, 16);
            let traces = ntdll_bytes(s, "NtTraceEvent"@, 16);
            &&& finds(found, EtwTamperingType::FunctionPatch) <==> {
                ||| writes is Some && patched(writes->0)
                ||| traces is Some && patched(traces->0)
                ||| exists|i: int|
                    0 <= i < 10 && (#[trigger] ntdll_bytes(
                        s,
                        watched_functions()[i]@,
                        16,
                    ) matches Some(b) && patched(b))
            }
            &&& finds(found, EtwTamperingType::NopSled) <==> {
                ||| writes is Some && !patched(writes->0) && nop_sled(writes->0)
                ||| exists|i: int|
                    0 <= i < 10 && (#[trigger] ntdll_bytes(
                        s,
                        watched_functions()[i]@,
                        16,
                    ) matches Some(b) && !patched(b) && nop_sled(b))
            }
        }),
{
    let a = EtwTamperingType::FunctionPatch;
    let b = EtwTamperingType::NopSled;
    lemma_scan(baseline, s, ts, a);
    lemma_scan(baseline, s, ts, b);
    lemma_others_are_no_patch(baseline, s, ts, a);
    lemma_others_are_no_patch(baseline, s, ts, b);
    lemma_family(s, 10, ts, a);
    lemma_family(s, 10, ts, b);
    assert forall|i: int| 0 <= i < 10 implies ETW_FAMILY@[i].0@ == #[trigger] watched_functions()[i]@ by {
        assert(ETW_FAMILY@[0].0@ == "EtwEventWriteFull"@);
        assert(ETW_FAMILY@[1].0@ == "EtwEventWriteTransfer"@);
        assert(ETW_FAMILY@[2].0@ == "EtwEventRegister"@);
        assert(ETW_FAMILY@[3].0@ == "EtwEventUnregister"@);
        assert(ETW_FAMILY@[4].0@ == "EtwNotificationRegister"@);
        assert(ETW_FAMILY@[5].0@ == "EtwNotificationUnregister"@);
        assert(ETW_FAMILY@[6].0@ == "NtTraceControl"@);
        assert(ETW_FAMILY@[7].0@ == "EtwEventWriteEx"@);
        assert(ETW_FAMILY@[8].0@ == "EtwEventWriteString"@);
        assert(ETW_FAMILY@[9].0@ == "EtwEventWriteNoRegistration"@);
    }
    if finds(family_check(s, 10, ts), a) {
        let i = choose|i: int|
            0 <= i < 10 && #[trigger] is_of(
                family_member_check(s, ETW_FAMILY@[i].0@, ETW_FAMILY@[i].1@, ts),
                a,
            );
        assert(ntdll_bytes(s, watched_functions()[i]@, 16) is Some);
    }
    if finds(family_check(s, 10, ts), b) {
        let i = choose|i: int|
            0 <= i < 10 && #[trigger] is_of(
                family_member_check(s, ETW_FAMILY@[i].0@, ETW_FAMILY@[i].1@, ts),
                b,
            );
        assert(ntdll_bytes(s, watched_functions()[i]@, 16) is Some);
    }
    assert forall|i: int| 0 <= i < 10 && (#[trigger] ntdll_bytes(
        s,
        watched_functions()[i]@,
        16,
    ) matches Some(x) && (patched(x) || nop_sled(x))) implies is_of(
        family_member_check(s, ETW_FAMILY@[i].0@, ETW_FAMILY@[i].1@, ts),
        if patched(ntdll_bytes(s, watched_functions()[i]@, 16)->0) {
            a
        } else {
            b
        },
    ) by {}
}

proof fn lemma_others_are_no_patch(
    baseline: Seq<(String, Vec<u8>)>,
    s: EtwSnapshot,
    ts: u64,
    t: EtwTamperingType,
)
    requires
        s.wf(),
        t == EtwTamperingType::FunctionPatch || t == EtwTamperingType::NopSled || t
            == EtwTamperingType::AmsiBypass || t == EtwTamperingType::TraceLoggingTampering || t
            == EtwTamperingType::NotificationCallbackRemoved,
    ensures
        !finds(unregistration_check(s, ts), t),
        !finds(eventwrite_hooks_check(baseline, s, ts), t),
        !finds(session_manipulation_check(s, ts), t),
        !finds(threat_intel_check(s, ts), t),
        !finds(private_logger_check(s, ts), t),
        !finds(registry_check(s, ts), t),
        !finds(syscalls_check(s, 3, ts), t),
{
    lemma_parts(baseline, s, ts, t);
    lemma_providers(s, 10, ts, t);
    lemma_baselines(baseline, s, 3, ts, t);
    if let Some(a) = s.autologger {
        lemma_sessions(a.critical@, 6, ts, t);
        lemma_loggers(a.sessions@, a.sessions@.len(), ts, t);
    }
    lemma_syscalls(s, 3, ts, t);
}

/// A scan for malware that was changed to answer at once, a function of trace logging that
/// was patched, and one for notifications that was patched or does other work first, are
/// found, and nothing else is of these types.
pub proof fn law_changed_scanners_and_callbacks_are_found(
    baseline: Seq<(String, Vec<u8>)>,
    s: EtwSnapshot,
    ts: u64,
)
    requires
        s.wf(),
    ensures
        ({
            let found = scan_findings(baseline, s, ts);
            &&& finds(found, EtwTamperingType::AmsiBypass) <==> (function_bytes(
                s.functions@,
                "amsi.dll"@,
                "AmsiScanBuffer"@,
                16,
            ) matches Some(b) && (b[0] == 0xB8 || b[0] == 0x31 || b[0] == 0x33 || b[0] == 0xC3))
            &&& finds(found, EtwTamperingType::TraceLoggingTampering) <==> (ntdll_bytes(
                s,
                "TlgWrite"@,
                16,
            ) matches Some(b) && patched(b)) || (ntdll_bytes(
                s,
                "_TlgDefineProvider"@,
                16,
            ) matches Some(b) && patched(b))
            &&& finds(found, EtwTamperingType::NotificationCallbackRemoved) <==> (ntdll_bytes(
                s,
                "EtwNotificationRegister"@,
                32,
            ) matches Some(b) && patched(b)) || (ntdll_bytes(
                s,
                "EtwNotificationUnregister"@,
                32,
            ) matches Some(b) && instrumented(b))
        }),
{
    let a = EtwTamperingType::AmsiBypass;
    let b = EtwTamperingType::TraceLoggingTampering;
    let c = EtwTamperingType::NotificationCallbackRemoved;
    lemma_scan(baseline, s, ts, a);
    lemma_scan(baseline, s, ts, b);
    lemma_scan(baseline, s, ts, c);
    lemma_others_are_no_patch(baseline, s, ts, a);
    lemma_others_are_no_patch(baseline, s, ts, b);
    lemma_others_are_no_patch(baseline, s, ts, c);
    lemma_family(s, 10, ts, a);
    lemma_family(s, 10, ts, b);
    lemma_family(s, 10, ts, c);
    lemma_read_length(s.functions@, "amsi.dll"@, "AmsiScanBuffer"@, 16);
}

proof fn lemma_read_length(
    functions: Seq<FunctionImage>,
    module: Seq<char>,
    name: Seq<char>,
    count: nat,
)
    ensures
        function_bytes(functions, module, name, count) matches Some(b) ==> b.len() == count,
    decreases functions.len(),
{
    if functions.len() > 0 {
        lemma_read_length(functions.drop_first(), module, name, count);
    }
}

/// What else a scan finds: a critical provider that is not registered, the one of threat
/// intelligence apart; its key missing or switched off, or its messages elsewhere; a
/// function that unregisters providers and does other work first; a function that writes
/// events and was hooked or no longer begins as it did; a session that always runs and is
/// missing or switched off, or their control changed; a logger that loses events; a
/// channel or the security log switched off or kept small; a stub of a system call that
/// was changed.
pub proof fn law_what_else_a_scan_finds(
    baseline: Seq<(String, Vec<u8>)>,
    s: EtwSnapshot,
    ts: u64,
)
    requires
        s.wf(),
    ensures
        ({
            let found = scan_findings(baseline, s, ts);
            let guids = critical_guids();
            &&& finds(found, EtwTamperingType::ProviderUnregistered) <==> exists|i: int|
                0 <= i < 10 && #[trigger] guids[i] != THREAT_INTEL_GUID@ && !texts(
                    s.registered_guids@,
                ).contains(guids[i])
            &&& finds(found, EtwTamperingType::ThreatIntelProviderDisabled) <==> (exists|i: int|
                0 <= i < 10 && #[trigger] guids[i] == THREAT_INTEL_GUID@ && !texts(
                    s.registered_guids@,
                ).contains(guids[i])) || s.threat_intel is None || s.threat_intel->0.enabled
                == Some(0u32)
            &&& finds(found, EtwTamperingType::ThreatIntelProviderTargeted) <==> (
            s.threat_intel matches Some(k) && k.message_file_name matches Some(f) && !occurs(
                "system32"@,
                lowercase(f@),
            ))
            &&& finds(found, EtwTamperingType::ProviderUnregistrationAttack) <==> (ntdll_bytes(
                s,
                "EtwEventUnregister"@,
                32,
            ) matches Some(b) && instrumented(b))
            &&& finds(found, EtwTamperingType::EventWriteHook) <==> (function_bytes(
                s.functions@,
                "kernelbase.dll"@,
                "EventWrite"@,
                32,
            ) matches Some(b) && (patched(b) || hooked(b))) || (exists|i: int|
                0 <= i < 3 && (#[trigger] baseline_bytes(
                    baseline,
                    EVENT_WRITERS@[i]@,
                ) matches Some(then) && ntdll_bytes(
                    s,
                    EVENT_WRITERS@[i]@,
                    32,
                ) matches Some(now) && !(then.len() == now.len() && (then.len() >= 8
                    ==> then.subrange(0, 8) == now.subrange(0, 8)))))
            &&& finds(found, EtwTamperingType::SessionManipulation) <==> (s.autologger matches
                Some(a) && exists|i: int|
                0 <= i < 6 && (#[trigger] a.critical@[i] == CriticalSession::Missing
                    || a.critical@[i] == CriticalSession::Present(Some(0u32)))) || (ntdll_bytes(
                s,
                "NtTraceControl"@,
                32,
            ) matches Some(b) && (patched(b) || hooked(b)))
            &&& finds(found, EtwTamperingType::PrivateLoggerHijack) <==> (s.autologger matches
                Some(a) && exists|i: int|
                0 <= i < a.sessions@.len() && (((#[trigger] a.sessions@[i]).buffer_size matches
                    Some(size) && 0 < size < 64) || (a.sessions@[i].log_file_mode matches Some(mode)
                    && (mode & 0x2 != 0) && (a.sessions@[i].max_file_size matches Some(size) && 0
                    < size < 10))))
            &&& finds(found, EtwTamperingType::RegistryTampering) <==> (s.channels matches Some(c)
                && exists|i: int|
                0 <= i < 4 && (#[trigger] c@[i] matches Some(k) && (k.enabled == Some(0u32) || (
                k.max_size matches Some(size) && 0 < size < 1_048_576)))) || (s.security_log matches
                Some(k) && ((k.max_size matches Some(size) && size < 5_242_880) || k.retention
                == Some(0u32)))
            &&& finds(found, EtwTamperingType::SyscallHook) <==> exists|i: int|
                0 <= i < 3 && (#[trigger] ntdll_bytes(
                    s,
                    SYSCALL_FUNCTIONS@[i].0@,
                    32,
                ) matches Some(b) && !valid_stub(b))
        }),
{
    lemma_provider_types(baseline, s, ts);
    lemma_hook_types(baseline, s, ts);
    lemma_session_types(baseline, s, ts);
}

proof fn lemma_all_parts(
    baseline: Seq<(String, Vec<u8>)>,
    s: EtwSnapshot,
    ts: u64,
    t: EtwTamperingType,
)
    requires
        s.wf(),
        t != EtwTamperingType::FunctionPatch,
        t != EtwTamperingType::NopSled,
        t != EtwTamperingType::AmsiBypass,
        t != EtwTamperingType::TraceLoggingTampering,
        t != EtwTamperingType::NotificationCallbackRemoved,
    ensures
        finds(scan_findings(baseline, s, ts), t) <==> {
            ||| finds(unregistration_check(s, ts), t)
            ||| finds(eventwrite_hooks_check(baseline, s, ts), t)
            ||| finds(session_manipulation_check(s, ts), t)
            ||| finds(threat_intel_check(s, ts), t)
            ||| finds(private_logger_check(s, ts), t)
            ||| finds(registry_check(s, ts), t)
            ||| finds(syscalls_check(s, 3, ts), t)
        },
        t != EtwTamperingType::ProviderUnregistered && t
            != EtwTamperingType::ThreatIntelProviderDisabled ==> !finds(
            providers_check(s, 10, ts),
            t,
        ),
        t != EtwTamperingType::EventWriteHook ==> !finds(baselines_check(baseline, s, 3, ts), t),
        t != EtwTamperingType::SessionManipulation ==> !(s.autologger matches Some(a) && finds(
            sessions_check(a.critical@, 6, ts),
            t,
        )),
        t != EtwTamperingType::PrivateLoggerHijack ==> !finds(private_logger_check(s, ts), t),
        t != EtwTamperingType::SyscallHook ==> !finds(syscalls_check(s, 3, ts), t),
{
    lemma_scan(baseline, s, ts, t);
    lemma_family(s, 10, ts, t);
    lemma_providers(s, 10, ts, t);
    lemma_baselines(baseline, s, 3, ts, t);
    if let Some(a) = s.autologger {
        lemma_sessions(a.critical@, 6, ts, t);
        lemma_loggers(a.sessions@, a.sessions@.len(), ts, t);
    }
    lemma_syscalls(s, 3, ts, t);
}

proof fn lemma_provider_types(baseline: Seq<(String, Vec<u8>)>, s: EtwSnapshot, ts: u64)
    requires
        s.wf(),
    ensures
        ({
            let found = scan_findings(baseline, s, ts);
            let guids = critical_guids();
            &&& finds(found, EtwTamperingType::ProviderUnregistered) <==> exists|i: int|
                0 <= i < 10 && #[trigger] guids[i] != THREAT_INTEL_GUID@ && !texts(
                    s.registered_guids@,
                ).contains(guids[i])
            &&& finds(found, EtwTamperingType::ThreatIntelProviderDisabled) <==> (exists|i: int|
                0 <= i < 10 && #[trigger] guids[i] == THREAT_INTEL_GUID@ && !texts(
                    s.registered_guids@,
                ).contains(guids[i])) || s.threat_intel is None || s.threat_intel->0.enabled
                == Some(0u32)
            &&& finds(found, EtwTamperingType::ThreatIntelProviderTargeted) <==> (
            s.threat_intel matches Some(k) && k.message_file_name matches Some(f) && !occurs(
                "system32"@,
                lowercase(f@),
            ))
            &&& finds(found, EtwTamperingType::ProviderUnregistrationAttack) <==> (ntdll_bytes(
                s,
                "EtwEventUnregister"@,
                32,
            ) matches Some(b) && instrumented(b))
        }),
{
    let guids = critical_guids();
    let found = scan_findings(baseline, s, ts);
    lemma_all_parts(baseline, s, ts, EtwTamperingType::ProviderUnregistered);
    lemma_parts(baseline, s, ts, EtwTamperingType::ProviderUnregistered);
    lemma_all_parts(baseline, s, ts, EtwTamperingType::ThreatIntelProviderDisabled);
    lemma_parts(baseline, s, ts, EtwTamperingType::ThreatIntelProviderDisabled);
    lemma_all_parts(baseline, s, ts, EtwTamperingType::ThreatIntelProviderTargeted);
    lemma_parts(baseline, s, ts, EtwTamperingType::ThreatIntelProviderTargeted);
    lemma_all_parts(baseline, s, ts, EtwTamperingType::ProviderUnregistrationAttack);
    lemma_parts(baseline, s, ts, EtwTamperingType::ProviderUnregistrationAttack);
    let a = EtwTamperingType::ProviderUnregistered;
    let b = EtwTamperingType::ThreatIntelProviderDisabled;
    lemma_providers(s, 10, ts, a);
    lemma_providers(s, 10, ts, b);
    assert forall|i: int| 0 <= i < 10 implies (is_of(provider_check(s, #[trigger] guids[i], ts), a)
        <==> guids[i] != THREAT_INTEL_GUID@ && !texts(s.registered_guids@).contains(guids[i])) && (
    is_of(provider_check(s, guids[i], ts), b) <==> guids[i] == THREAT_INTEL_GUID@ && !texts(
        s.registered_guids@,
    ).contains(guids[i])) by {}
}

proof fn lemma_hook_types(baseline: Seq<(String, Vec<u8>)>, s: EtwSnapshot, ts: u64)
    requires
        s.wf(),
    ensures
        ({
            let found = scan_findings(baseline, s, ts);
            let guids = critical_guids();
            &&& finds(found, EtwTamperingType::EventWriteHook) <==> (function_bytes(
                s.functions@,
                "kernelbase.dll"@,
                "EventWrite"@,
                32,
            ) matches Some(b) && (patched(b) || hooked(b))) || (exists|i: int|
                0 <= i < 3 && (#[trigger] baseline_bytes(
                    baseline,
                    EVENT_WRITERS@[i]@,
                ) matches Some(then) && ntdll_bytes(
                    s,
                    EVENT_WRITERS@[i]@,
                    32,
                ) matches Some(now) && !(then.len() == now.len() && (then.len() >= 8
                    ==> then.subrange(0, 8) == now.subrange(0, 8)))))
            &&& finds(found, EtwTamperingType::SyscallHook) <==> exists|i: int|
                0 <= i < 3 && (#[trigger] ntdll_bytes(
                    s,
                    SYSCALL_FUNCTIONS@[i].0@,
                    32,
                ) matches Some(b) && !valid_stub(b))
        }),
{
    let guids = critical_guids();
    let found = scan_findings(baseline, s, ts);
    lemma_all_parts(baseline, s, ts, EtwTamperingType::EventWriteHook);
    lemma_parts(baseline, s, ts, EtwTamperingType::EventWriteHook);
    lemma_all_parts(baseline, s, ts, EtwTamperingType::SyscallHook);
    lemma_parts(baseline, s, ts, EtwTamperingType::SyscallHook);
    let a = EtwTamperingType::EventWriteHook;
    let b = EtwTamperingType::SyscallHook;
    lemma_baselines(baseline, s, 3, ts, a);
    lemma_syscalls(s, 3, ts, b);
    if finds(baselines_check(baseline, s, 3, ts), a) {
        let i = choose|i: int|
            0 <= i < 3 && #[trigger] is_of(baseline_check(baseline, s, EVENT_WRITERS@[i]@, ts), a);
        assert(baseline_bytes(baseline, EVENT_WRITERS@[i]@) is Some);
    }
    assert forall|i: int| 0 <= i < 3 && (#[trigger] baseline_bytes(
        baseline,
        EVENT_WRITERS@[i]@,
    ) matches Some(then) && ntdll_bytes(s, EVENT_WRITERS@[i]@, 32) matches Some(now)
        && !bytes_alike(then, now)) implies is_of(
        baseline_check(baseline, s, EVENT_WRITERS@[i]@, ts),
        a,
    ) by {}
    if finds(syscalls_check(s, 3, ts), b) {
        let i = choose|i: int|
            0 <= i < 3 && #[trigger] is_of(
                syscall_check(s, SYSCALL_FUNCTIONS@[i].0@, SYSCALL_FUNCTIONS@[i].1@, ts),
                b,
            );
        assert(ntdll_bytes(s, SYSCALL_FUNCTIONS@[i].0@, 32) is Some);
    }
    assert forall|i: int| 0 <= i < 3 && (#[trigger] ntdll_bytes(
        s,
        SYSCALL_FUNCTIONS@[i].0@,
        32,
    ) matches Some(x) && !valid_stub(x)) implies is_of(
        syscall_check(s, SYSCALL_FUNCTIONS@[i].0@, SYSCALL_FUNCTIONS@[i].1@, ts),
        b,
    ) by {}
}

proof fn lemma_session_types(baseline: Seq<(String, Vec<u8>)>, s: EtwSnapshot, ts: u64)
    requires
        s.wf(),
    ensures
        ({
            let found = scan_findings(baseline, s, ts);
            let guids = critical_guids();
            &&& finds(found, EtwTamperingType::SessionManipulation) <==> (s.autologger matches
                Some(a) && exists|i: int|
                0 <= i < 6 && (#[trigger] a.critical@[i] == CriticalSession::Missing
                    || a.critical@[i] == CriticalSession::Present(Some(0u32)))) || (ntdll_bytes(
                s,
                "NtTraceControl"@,
                32,
            ) matches Some(b) && (patched(b) || hooked(b)))
            &&& finds(found, EtwTamperingType::PrivateLoggerHijack) <==> (s.autologger matches
                Some(a) && exists|i: int|
                0 <= i < a.sessions@.len() && (((#[trigger] a.sessions@[i]).buffer_size matches
                    Some(size) && 0 < size < 64) || (a.sessions@[i].log_file_mode matches Some(mode)
                    && (mode & 0x2 != 0) && (a.sessions@[i].max_file_size matches Some(size) && 0
                    < size < 10))))
            &&& finds(found, EtwTamperingType::RegistryTampering) <==> (s.channels matches Some(c)
                && exists|i: int|
                0 <= i < 4 && (#[trigger] c@[i] matches Some(k) && (k.enabled == Some(0u32) || (
                k.max_size matches Some(size) && 0 < size < 1_048_576)))) || (s.security_log matches
                Some(k) && ((k.max_size matches Some(size) && size < 5_242_880) || k.retention
                == Some(0u32)))
        }),
{
    let guids = critical_guids();
    let found = scan_findings(baseline, s, ts);
    lemma_all_parts(baseline, s, ts, EtwTamperingType::SessionManipulation);
    lemma_parts(baseline, s, ts, EtwTamperingType::SessionManipulation);
    lemma_all_parts(baseline, s, ts, EtwTamperingType::PrivateLoggerHijack);
    lemma_parts(baseline, s, ts, EtwTamperingType::PrivateLoggerHijack);
    lemma_all_parts(baseline, s, ts, EtwTamperingType::RegistryTampering);
    lemma_parts(baseline, s, ts, EtwTamperingType::RegistryTampering);
    let a = EtwTamperingType::SessionManipulation;
    let b = EtwTamperingType::PrivateLoggerHijack;
    if let Some(k) = s.autologger {
        lemma_sessions(k.critical@, 6, ts, a);
        lemma_loggers(k.sessions@, k.sessions@.len(), ts, b);
        if finds(sessions_check(k.critical@, 6, ts), a) {
            let i = choose|i: int|
                0 <= i < 6 && #[trigger] is_of(
                    session_check(CRITICAL_SESSIONS@[i]@, k.critical@[i], ts),
                    a,
                );
            assert(k.critical@[i] == CriticalSession::Missing || k.critical@[i]
                == CriticalSession::Present(Some(0u32)));
        }
        assert forall|i: int| 0 <= i < 6 && (#[trigger] k.critical@[i] == CriticalSession::Missing
            || k.critical@[i] == CriticalSession::Present(Some(0u32))) implies is_of(
            session_check(CRITICAL_SESSIONS@[i]@, k.critical@[i], ts),
            a,
        ) by {}
    }
}

/// A function is patched exactly where its first bytes return, clear the result and return,
/// load a result and return, jump, or push an address and return to it.
pub proof fn law_patches(b: Seq<u8>)
    requires
        b.len() >= 6,
    ensures
        patched(b) <==> b[0] == 0xC3 || b[0] == 0xE9 || b[0] == 0xFF || ((b[0] == 0x31 || b[0]
            == 0x33) && b[1] == 0xC0 && b[2] == 0xC3) || ((b[0] == 0xB8 || b[0] == 0x68) && b[5]
            == 0xC3),
{
}

/// A stub of a system call is untouched exactly where it keeps the first argument, loads
/// its number, calls the system and returns.
pub proof fn law_stubs(b: Seq<u8>)
    requires
        b.len() >= 11,
    ensures
        valid_stub(b) <==> b.subrange(0, 4) == seq![0x4Cu8, 0x8B, 0xD1, 0xB8] && b.subrange(8, 10)
            == seq![0x0Fu8, 0x05] && (b[10] == 0xC3 || b[10] == 0xC2),
{
    if valid_stub(b) {
        assert(b.subrange(0, 4) =~= seq![0x4Cu8, 0x8B, 0xD1, 0xB8]);
        assert(b.subrange(8, 10) =~= seq![0x0Fu8, 0x05]);
    }
    if b.subrange(0, 4) == seq![0x4Cu8, 0x8B, 0xD1, 0xB8] && b.subrange(8, 10) == seq![
        0x0Fu8,
        0x05,
    ] {
        assert(b[0] == b.subrange(0, 4)[0] && b[1] == b.subrange(0, 4)[1] && b[2] == b.subrange(
            0,
            4,
        )[2] && b[3] == b.subrange(0, 4)[3]);
        assert(b[8] == b.subrange(8, 10)[0] && b[9] == b.subrange(8, 10)[1]);
    }
}

/// In another process a patch is found exactly where the function that writes events is
/// patched in its copy of the system library, and a bypass exactly where the scan for
/// malware is patched in its copy of the library for that.
pub proof fn law_patches_in_other_processes_are_found(
    modules: Seq<RemoteModule>,
    n: nat,
    pid: u32,
    ts: u64,
)
    requires
        n <= modules.len(),
    ensures
        ({
            let found = modules_check(modules, n, pid, ts);
            &&& finds(found, EtwTamperingType::FunctionPatch) <==> exists|i: int|
                0 <= i < n && occurs("ntdll.dll"@, lowercase((#[trigger] modules[i]).path@)) && (
                modules[i].event_write matches Some(b) && patched(b@))
            &&& finds(found, EtwTamperingType::AmsiBypass) <==> exists|i: int|
                0 <= i < n && occurs("amsi.dll"@, lowercase((#[trigger] modules[i]).path@)) && (
                modules[i].amsi_scan_buffer matches Some(b) && patched(b@))
        }),
    decreases n,
{
    if n > 0 {
        law_patches_in_other_processes_are_found(modules, (n - 1) as nat, pid, ts);
        let m = modules[n - 1];
        let path = lowercase(m.path@);
        let before = modules_check(modules, (n - 1) as nat, pid, ts);
        let one = if occurs("ntdll.dll"@, path) {
            remote_check(false, bytes_view(m.event_write), pid, ts)
        } else {
            None
        };
        let two = if occurs("amsi.dll"@, path) {
            remote_check(true, bytes_view(m.amsi_scan_buffer), pid, ts)
        } else {
            None
        };
        let t = EtwTamperingType::FunctionPatch;
        let u = EtwTamperingType::AmsiBypass;
        lemma_finds_both(before, at_most_one(one), t);
        lemma_finds_both(before + at_most_one(one), at_most_one(two), t);
        lemma_finds_one(one, t);
        lemma_finds_one(two, t);
        lemma_finds_both(before, at_most_one(one), u);
        lemma_finds_both(before + at_most_one(one), at_most_one(two), u);
        lemma_finds_one(one, u);
        lemma_finds_one(two, u);
        if finds(before, t) {
            let i = choose|i: int|
                0 <= i < n - 1 && occurs("ntdll.dll"@, lowercase((#[trigger] modules[i]).path@)) && (
                modules[i].event_write matches Some(b) && patched(b@));
            assert(modules[i] == modules[i]);
        }
        if finds(before, u) {
            let i = choose|i: int|
                0 <= i < n - 1 && occurs("amsi.dll"@, lowercase((#[trigger] modules[i]).path@)) && (
                modules[i].amsi_scan_buffer matches Some(b) && patched(b@));
            assert(modules[i] == modules[i]);
        }
    }
}

/// A function is whole exactly where it could be read and still begins with the eight bytes
/// that it began with.
pub proof fn law_whole_functions_begin_as_they_did(
    baseline: Seq<(String, Vec<u8>)>,
    s: EtwSnapshot,
    i: int,
)
    requires
        0 <= i < baseline.len(),
        baseline[i].1@.len() >= 8,
    ensures
        integrity(baseline, s).len() == baseline.len(),
        integrity(baseline, s)[i].0 == baseline[i].0@,
        integrity(baseline, s)[i].1 <==> (ntdll_bytes(
            s,
            baseline[i].0@,
            baseline[i].1@.len(),
        ) matches Some(b) && b.len() == baseline[i].1@.len() && forall|k: int|
            0 <= k < 8 ==> b[k] == #[trigger] baseline[i].1@[k]),
{
    let then = baseline[i].1@;
    if let Some(b) = ntdll_bytes(s, baseline[i].0@, then.len()) {
        if b.len() == then.len() {
            if then.subrange(0, 8) == b.subrange(0, 8) {
                assert forall|k: int| 0 <= k < 8 implies b[k] == #[trigger] then[k] by {
                    assert(then.subrange(0, 8)[k] == b.subrange(0, 8)[k]);
                }
            }
            if forall|k: int| 0 <= k < 8 ==> b[k] == #[trigger] then[k] {
                assert(then.subrange(0, 8) =~= b.subrange(0, 8));
            }
        }
    }
}

/// The severities of detections add up.
pub proof fn law_severities_add_up(v: Seq<TamperingModel>, d: TamperingModel)
    ensures
        total_severity(v.push(d)) == total_severity(v) + d.detection_type.spec_severity(),
        total_severity(Seq::empty()) == 0,
{
    assert(v.push(d).drop_last() =~= v);
}

} // verus!
