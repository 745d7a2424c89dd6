//! Chains of events across processes that together look like an attack.
//!
//! Confidences are whole numbers of millionths.
use vstd::prelude::*;

use std::collections::{HashSet, VecDeque};

use crate::telemetry::{fresh_id, is_identifier, Metadata};
use crate::text::{
    copies, decimal, decimal_text, holds, join, joined, opt_copy, opt_text, owned, push_text, same,
    str_texts, texts,
};
use crate::textset::{with_member, TextSet};

verus! {

broadcast use vstd::std_specs::hash::group_hash_axioms;

/// For how long events belong together, in milliseconds.
pub const DEFAULT_WINDOW_MS: u64 = 300_000;

/// How many events are kept of a chain.
pub const MAX_CHAIN_EVENTS: usize = 100;

/// How many chains are followed at once.
pub const MAX_ACTIVE_CHAINS: usize = 1000;

/// What happened.
#[derive(Clone, Copy, Debug, PartialEq, Eq, Structural, Hash)]
pub enum BehavioralEventType {
    ProcessEnumeration,
    NetworkEnumeration,
    FileEnumeration,
    RegistryEnumeration,
    AccountEnumeration,
    ServiceEnumeration,
    CredentialDump,
    LsassAccess,
    SamAccess,
    TokenManipulation,
    ShellExecution,
    ScriptExecution,
    LolbinExecution,
    RemoteExecution,
    PrivilegeEscalation,
    UacBypass,
    TokenElevation,
    KernelExploit,
    RdpConnection,
    SmbConnection,
    WmiExecution,
    PsexecExecution,
    SshConnection,
    DataStaging,
    ArchiveCreation,
    FileAggregation,
    ClipboardAccess,
    LargeDataTransfer,
    DnsExfiltration,
    HttpExfiltration,
    CloudUpload,
    EtwTampering,
    AmsiBypass,
    LogClearing,
    TimestampModification,
    ProcessHollowing,
    RegistryPersistence,
    ScheduledTaskCreation,
    ServiceInstallation,
    StartupModification,
    BeaconCallback,
    C2Communication,
    DomainGeneration,
    SuspiciousActivity,
}

impl BehavioralEventType {
    /// The tactic that an event is part of.
    pub open spec fn tactic(&self) -> Seq<char> {
        match self {
            BehavioralEventType::ProcessEnumeration
            | BehavioralEventType::NetworkEnumeration
            | BehavioralEventType::FileEnumeration
            | BehavioralEventType::RegistryEnumeration
            | BehavioralEventType::AccountEnumeration
            | BehavioralEventType::ServiceEnumeration => "TA0007"@,
            BehavioralEventType::CredentialDump
            | BehavioralEventType::LsassAccess
            | BehavioralEventType::SamAccess
            | BehavioralEventType::TokenManipulation => "TA0006"@,
            BehavioralEventType::ShellExecution
            | BehavioralEventType::ScriptExecution
            | BehavioralEventType::LolbinExecution
            | BehavioralEventType::RemoteExecution => "TA0002"@,
            BehavioralEventType::PrivilegeEscalation
            | BehavioralEventType::UacBypass
            | BehavioralEventType::TokenElevation
            | BehavioralEventType::KernelExploit => "TA0004"@,
            BehavioralEventType::RdpConnection
            | BehavioralEventType::SmbConnection
            | BehavioralEventType::WmiExecution
            | BehavioralEventType::PsexecExecution
            | BehavioralEventType::SshConnection => "TA0008"@,
            BehavioralEventType::DataStaging
            | BehavioralEventType::ArchiveCreation
            | BehavioralEventType::FileAggregation
            | BehavioralEventType::ClipboardAccess => "TA0009"@,
            BehavioralEventType::LargeDataTransfer
            | BehavioralEventType::DnsExfiltration
            | BehavioralEventType::HttpExfiltration
            | BehavioralEventType::CloudUpload => "TA0010"@,
            BehavioralEventType::EtwTampering
            | BehavioralEventType::AmsiBypass
            | BehavioralEventType::LogClearing
            | BehavioralEventType::TimestampModification
            | BehavioralEventType::ProcessHollowing => "TA0005"@,
            BehavioralEventType::RegistryPersistence
            | BehavioralEventType::ScheduledTaskCreation
            | BehavioralEventType::ServiceInstallation
            | BehavioralEventType::StartupModification => "TA0003"@,
            BehavioralEventType::BeaconCallback
            | BehavioralEventType::C2Communication
            | BehavioralEventType::DomainGeneration => "TA0011"@,
            BehavioralEventType::SuspiciousActivity => "TA0000"@,
        }
    }

    /// The tactic that an event is part of.
    pub fn mitre_tactic(&self) -> (r: &'static str)
        ensures
            r@ == self.tactic(),
    {
        match self {
            BehavioralEventType::ProcessEnumeration
            | BehavioralEventType::NetworkEnumeration
            | BehavioralEventType::FileEnumeration
            | BehavioralEventType::RegistryEnumeration
            | BehavioralEventType::AccountEnumeration
            | BehavioralEventType::ServiceEnumeration => "TA0007",
            BehavioralEventType::CredentialDump
            | BehavioralEventType::LsassAccess
            | BehavioralEventType::SamAccess
            | BehavioralEventType::TokenManipulation => "TA0006",
            BehavioralEventType::ShellExecution
            | BehavioralEventType::ScriptExecution
            | BehavioralEventType::LolbinExecution
            | BehavioralEventType::RemoteExecution => "TA0002",
            BehavioralEventType::PrivilegeEscalation
            | BehavioralEventType::UacBypass
            | BehavioralEventType::TokenElevation
            | BehavioralEventType::KernelExploit => "TA0004",
            BehavioralEventType::RdpConnection
            | BehavioralEventType::SmbConnection
            | BehavioralEventType::WmiExecution
            | BehavioralEventType::PsexecExecution
            | BehavioralEventType::SshConnection => "TA0008",
            BehavioralEventType::DataStaging
            | BehavioralEventType::ArchiveCreation
            | BehavioralEventType::FileAggregation
            | BehavioralEventType::ClipboardAccess => "TA0009",
            BehavioralEventType::LargeDataTransfer
            | BehavioralEventType::DnsExfiltration
            | BehavioralEventType::HttpExfiltration
            | BehavioralEventType::CloudUpload => "TA0010",
            BehavioralEventType::EtwTampering
            | BehavioralEventType::AmsiBypass
            | BehavioralEventType::LogClearing
            | BehavioralEventType::TimestampModification
            | BehavioralEventType::ProcessHollowing => "TA0005",
            BehavioralEventType::RegistryPersistence
            | BehavioralEventType::ScheduledTaskCreation
            | BehavioralEventType::ServiceInstallation
            | BehavioralEventType::StartupModification => "TA0003",
            BehavioralEventType::BeaconCallback
            | BehavioralEventType::C2Communication
            | BehavioralEventType::DomainGeneration => "TA0011",
            BehavioralEventType::SuspiciousActivity => "TA0000",
        }
    }

    /// The variant's name.
    pub open spec fn spec_name(&self) -> Seq<char> {
        match self {
            BehavioralEventType::ProcessEnumeration => "ProcessEnumeration"@,
            BehavioralEventType::NetworkEnumeration => "NetworkEnumeration"@,
            BehavioralEventType::FileEnumeration => "FileEnumeration"@,
            BehavioralEventType::RegistryEnumeration => "RegistryEnumeration"@,
            BehavioralEventType::AccountEnumeration => "AccountEnumeration"@,
            BehavioralEventType::ServiceEnumeration => "ServiceEnumeration"@,
            BehavioralEventType::CredentialDump => "CredentialDump"@,
            BehavioralEventType::LsassAccess => "LsassAccess"@,
            BehavioralEventType::SamAccess => "SamAccess"@,
            BehavioralEventType::TokenManipulation => "TokenManipulation"@,
            BehavioralEventType::ShellExecution => "ShellExecution"@,
            BehavioralEventType::ScriptExecution => "ScriptExecution"@,
            BehavioralEventType::LolbinExecution => "LolbinExecution"@,
            BehavioralEventType::RemoteExecution => "RemoteExecution"@,
            BehavioralEventType::PrivilegeEscalation => "PrivilegeEscalation"@,
            BehavioralEventType::UacBypass => "UacBypass"@,
            BehavioralEventType::TokenElevation => "TokenElevation"@,
            BehavioralEventType::KernelExploit => "KernelExploit"@,
            BehavioralEventType::RdpConnection => "RdpConnection"@,
            BehavioralEventType::SmbConnection => "SmbConnection"@,
            BehavioralEventType::WmiExecution => "WmiExecution"@,
            BehavioralEventType::PsexecExecution => "PsexecExecution"@,
            BehavioralEventType::SshConnection => "SshConnection"@,
            BehavioralEventType::DataStaging => "DataStaging"@,
            BehavioralEventType::ArchiveCreation => "ArchiveCreation"@,
            BehavioralEventType::FileAggregation => "FileAggregation"@,
            BehavioralEventType::ClipboardAccess => "ClipboardAccess"@,
            BehavioralEventType::LargeDataTransfer => "LargeDataTransfer"@,
            BehavioralEventType::DnsExfiltration => "DnsExfiltration"@,
            BehavioralEventType::HttpExfiltration => "HttpExfiltration"@,
            BehavioralEventType::CloudUpload => "CloudUpload"@,
            BehavioralEventType::EtwTampering => "EtwTampering"@,
            BehavioralEventType::AmsiBypass => "AmsiBypass"@,
            BehavioralEventType::LogClearing => "LogClearing"@,
            BehavioralEventType::TimestampModification => "TimestampModification"@,
            BehavioralEventType::ProcessHollowing => "ProcessHollowing"@,
            BehavioralEventType::RegistryPersistence => "RegistryPersistence"@,
            BehavioralEventType::ScheduledTaskCreation => "ScheduledTaskCreation"@,
            BehavioralEventType::ServiceInstallation => "ServiceInstallation"@,
            BehavioralEventType::StartupModification => "StartupModification"@,
            BehavioralEventType::BeaconCallback => "BeaconCallback"@,
            BehavioralEventType::C2Communication => "C2Communication"@,
            BehavioralEventType::DomainGeneration => "DomainGeneration"@,
            BehavioralEventType::SuspiciousActivity => "SuspiciousActivity"@,
        }
    }

    /// The variant's name.
    pub fn name(&self) -> (r: &'static str)
        ensures
            r@ == self.spec_name(),
    {
        match self {
            BehavioralEventType::ProcessEnumeration => "ProcessEnumeration",
            BehavioralEventType::NetworkEnumeration => "NetworkEnumeration",
            BehavioralEventType::FileEnumeration => "FileEnumeration",
            BehavioralEventType::RegistryEnumeration => "RegistryEnumeration",
            BehavioralEventType::AccountEnumeration => "AccountEnumeration",
            BehavioralEventType::ServiceEnumeration => "ServiceEnumeration",
            BehavioralEventType::CredentialDump => "CredentialDump",
            BehavioralEventType::LsassAccess => "LsassAccess",
            BehavioralEventType::SamAccess => "SamAccess",
            BehavioralEventType::TokenManipulation => "TokenManipulation",
            BehavioralEventType::ShellExecution => "ShellExecution",
            BehavioralEventType::ScriptExecution => "ScriptExecution",
            BehavioralEventType::LolbinExecution => "LolbinExecution",
            BehavioralEventType::RemoteExecution => "RemoteExecution",
            BehavioralEventType::PrivilegeEscalation => "PrivilegeEscalation",
            BehavioralEventType::UacBypass => "UacBypass",
            BehavioralEventType::TokenElevation => "TokenElevation",
            BehavioralEventType::KernelExploit => "KernelExploit",
            BehavioralEventType::RdpConnection => "RdpConnection",
            BehavioralEventType::SmbConnection => "SmbConnection",
            BehavioralEventType::WmiExecution => "WmiExecution",
            BehavioralEventType::PsexecExecution => "PsexecExecution",
            BehavioralEventType::SshConnection => "SshConnection",
            BehavioralEventType::DataStaging => "DataStaging",
            BehavioralEventType::ArchiveCreation => "ArchiveCreation",
            BehavioralEventType::FileAggregation => "FileAggregation",
            BehavioralEventType::ClipboardAccess => "ClipboardAccess",
            BehavioralEventType::LargeDataTransfer => "LargeDataTransfer",
            BehavioralEventType::DnsExfiltration => "DnsExfiltration",
            BehavioralEventType::HttpExfiltration => "HttpExfiltration",
            BehavioralEventType::CloudUpload => "CloudUpload",
            BehavioralEventType::EtwTampering => "EtwTampering",
            BehavioralEventType::AmsiBypass => "AmsiBypass",
            BehavioralEventType::LogClearing => "LogClearing",
            BehavioralEventType::TimestampModification => "TimestampModification",
            BehavioralEventType::ProcessHollowing => "ProcessHollowing",
            BehavioralEventType::RegistryPersistence => "RegistryPersistence",
            BehavioralEventType::ScheduledTaskCreation => "ScheduledTaskCreation",
            BehavioralEventType::ServiceInstallation => "ServiceInstallation",
            BehavioralEventType::StartupModification => "StartupModification",
            BehavioralEventType::BeaconCallback => "BeaconCallback",
            BehavioralEventType::C2Communication => "C2Communication",
            BehavioralEventType::DomainGeneration => "DomainGeneration",
            BehavioralEventType::SuspiciousActivity => "SuspiciousActivity",
        }
    }
}

/// An event and its time.
pub struct TimestampedEvent {
    pub timestamp: u64,
    pub pid: u32,
    /// Zero where it is not known.
    pub parent_pid: u32,
    pub process_name: String,
    pub event_type: BehavioralEventType,
    pub mitre_technique: Option<String>,
    pub context: Metadata,
}

/// What an event says.
#[verifier::ext_equal]
pub struct EventModel {
    pub timestamp: u64,
    pub pid: u32,
    pub parent_pid: u32,
    pub process_name: Seq<char>,
    pub event_type: BehavioralEventType,
    pub technique: Option<Seq<char>>,
    pub context: Map<Seq<char>, Seq<char>>,
}

impl View for TimestampedEvent {
    type V = EventModel;

    open spec fn view(&self) -> EventModel {
        EventModel {
            timestamp: self.timestamp,
            pid: self.pid,
            parent_pid: self.parent_pid,
            process_name: self.process_name@,
            event_type: self.event_type,
            technique: opt_text(self.mitre_technique),
            context: self.context@,
        }
    }
}

impl Clone for TimestampedEvent {
    fn clone(&self) -> (r: TimestampedEvent)
        ensures
            r@ == self@,
    {
        TimestampedEvent {
            timestamp: self.timestamp,
            pid: self.pid,
            parent_pid: self.parent_pid,
            process_name: self.process_name.clone(),
            event_type: self.event_type,
            mitre_technique: opt_copy(&self.mitre_technique),
            context: self.context.clone(),
        }
    }
}

/// What events say.
pub open spec fn events_view(v: Seq<TimestampedEvent>) -> Seq<EventModel> {
    v.map_values(|e: TimestampedEvent| e@)
}

fn copy_events(v: &Vec<TimestampedEvent>) -> (r: Vec<TimestampedEvent>)
    ensures
        events_view(r@) == events_view(v@),
{
    let ghost all = events_view(v@);
    let mut r: Vec<TimestampedEvent> = Vec::new();
    let mut i: usize = 0;
    assert(events_view(r@) =~= all.take(0));
    while i < v.len()
        invariant
            i <= v@.len(),
            all == events_view(v@),
            events_view(r@) == all.take(i as int),
        decreases v@.len() - i,
    {
        let ghost before = r@;
        r.push(v[i].clone());
        assert(events_view(r@) =~= events_view(before).push(all[i as int]));
        assert(all.take(i + 1) =~= all.take(i as int).push(all[i as int]));
        i += 1;
    }
    assert(all.take(i as int) =~= all);
    r
}

/// A sequence of events that is an attack.
pub struct AttackChainPattern {
    pub name: String,
    pub description: String,
    /// In their order; others may stand between them.
    pub sequence: Vec<BehavioralEventType>,
    pub min_events: usize,
    pub mitre_techniques: Vec<String>,
    /// How sure the whole sequence is, in millionths.
    pub base_confidence: u32,
}

/// What a pattern says.
#[verifier::ext_equal]
pub struct ChainPatternModel {
    pub name: Seq<char>,
    pub description: Seq<char>,
    pub sequence: Seq<BehavioralEventType>,
    pub min_events: nat,
    pub mitre_techniques: Seq<Seq<char>>,
    pub base_confidence: u32,
}

impl View for AttackChainPattern {
    type V = ChainPatternModel;

    open spec fn view(&self) -> ChainPatternModel {
        ChainPatternModel {
            name: self.name@,
            description: self.description@,
            sequence: self.sequence@,
            min_events: self.min_events as nat,
            mitre_techniques: texts(self.mitre_techniques@),
            base_confidence: self.base_confidence,
        }
    }
}

fn copy_types(v: &Vec<BehavioralEventType>) -> (r: Vec<BehavioralEventType>)
    ensures
        r@ == v@,
{
    let mut r: Vec<BehavioralEventType> = Vec::new();
    let mut i: usize = 0;
    while i < v.len()
        invariant
            i <= v@.len(),
            r@ == v@.take(i as int),
        decreases v@.len() - i,
    {
        r.push(v[i]);
        assert(v@.take(i + 1) =~= v@.take(i as int).push(v@[i as int]));
        i += 1;
    }
    assert(v@.take(i as int) =~= v@);
    r
}

impl Clone for AttackChainPattern {
    fn clone(&self) -> (r: AttackChainPattern)
        ensures
            r@ == self@,
    {
        AttackChainPattern {
            name: self.name.clone(),
            description: self.description.clone(),
            sequence: copy_types(&self.sequence),
            min_events: self.min_events,
            mitre_techniques: copies(&self.mitre_techniques),
            base_confidence: self.base_confidence,
        }
    }
}

/// What patterns say.
pub open spec fn patterns_view(v: Seq<AttackChainPattern>) -> Seq<ChainPatternModel> {
    v.map_values(|p: AttackChainPattern| p@)
}

/// What an optional pattern says.
pub open spec fn pattern_view(p: Option<AttackChainPattern>) -> Option<ChainPatternModel> {
    match p {
        Some(p) => Some(p@),
        None => None,
    }
}

fn copy_pattern(p: &Option<AttackChainPattern>) -> (r: Option<AttackChainPattern>)
    ensures
        pattern_view(r) == pattern_view(*p),
{
    match p {
        Some(p) => Some(p.clone()),
        None => None,
    }
}

/// The techniques of a pattern.
pub const CREDENTIAL_THEFT_TECHNIQUES: [&'static str; 3] = [
    "T1087",
    "T1003",
    "T1021.002",
];

/// The techniques of a pattern.
pub const PRIVILEGE_ESCALATION_TECHNIQUES: [&'static str; 3] = [
    "T1059",
    "T1548.002",
    "T1547.001",
];

/// The techniques of a pattern.
pub const EXFILTRATION_TECHNIQUES: [&'static str; 4] = [
    "T1083",
    "T1074",
    "T1560",
    "T1041",
];

/// The techniques of a pattern.
pub const EVASIVE_THEFT_TECHNIQUES: [&'static str; 3] = [
    "T1562.006",
    "T1003.001",
    "T1048",
];

/// The techniques of a pattern.
pub const RANSOMWARE_TECHNIQUES: [&'static str; 3] = [
    "T1007",
    "T1070.001",
    "T1486",
];

/// The techniques of a pattern.
pub const LOLBIN_TECHNIQUES: [&'static str; 1] = [
    "T1218",
];

/// The techniques of a pattern.
pub const C2_TECHNIQUES: [&'static str; 3] = [
    "T1059",
    "T1568",
    "T1071",
];

/// The techniques of a pattern.
pub const TOKEN_TECHNIQUES: [&'static str; 2] = [
    "T1134",
    "T1543.003",
];

/// The names of the patterns, what they describe, how many events they need at
/// least, and how sure they are.
pub const CHAIN_TEXTS: [(&'static str, &'static str, usize, u32); 8] = [
    (
        "Credential Theft Chain",
        "Discovery followed by credential dumping and lateral movement",
        3,
        850000,
    ),
    (
        "Privilege Escalation Chain",
        "Initial execution followed by privilege escalation and persistence",
        3,
        800000,
    ),
    ("Data Exfiltration Chain", "File enumeration followed by staging and exfiltration", 3, 900000),
    (
        "Evasive Data Theft",
        "Defense evasion followed by credential theft and data exfiltration",
        3,
        950000,
    ),
    ("Ransomware Chain", "Typical ransomware attack sequence", 3, 900000),
    (
        "Living-off-the-Land Chain",
        "Multiple LOLBin executions indicating malicious activity",
        3,
        750000,
    ),
    ("C2 Establishment Chain", "Process execution followed by C2 communication", 2, 850000),
    ("Token Manipulation Chain", "Token theft followed by privileged operations", 2, 850000),
];

/// The events of a pattern, in their order.
pub open spec fn pattern_sequence(i: int) -> Seq<BehavioralEventType> {
    if i == 0 {
        seq![
            BehavioralEventType::ProcessEnumeration,
            BehavioralEventType::CredentialDump,
            BehavioralEventType::SmbConnection,
        ]
    } else if i == 1 {
        seq![
            BehavioralEventType::ScriptExecution,
            BehavioralEventType::UacBypass,
            BehavioralEventType::RegistryPersistence,
        ]
    } else if i == 2 {
        seq![
            BehavioralEventType::FileEnumeration,
            BehavioralEventType::DataStaging,
            BehavioralEventType::ArchiveCreation,
            BehavioralEventType::LargeDataTransfer,
        ]
    } else if i == 3 {
        seq![
            BehavioralEventType::EtwTampering,
            BehavioralEventType::LsassAccess,
            BehavioralEventType::HttpExfiltration,
        ]
    } else if i == 4 {
        seq![
            BehavioralEventType::ServiceEnumeration,
            BehavioralEventType::LogClearing,
            BehavioralEventType::FileEnumeration,
            BehavioralEventType::ArchiveCreation,
        ]
    } else if i == 5 {
        seq![
            BehavioralEventType::LolbinExecution,
            BehavioralEventType::LolbinExecution,
            BehavioralEventType::LolbinExecution,
        ]
    } else if i == 6 {
        seq![
            BehavioralEventType::ScriptExecution,
            BehavioralEventType::DomainGeneration,
            BehavioralEventType::BeaconCallback,
        ]
    } else {
        seq![
            BehavioralEventType::TokenManipulation,
            BehavioralEventType::TokenElevation,
            BehavioralEventType::ServiceInstallation,
        ]
    }
}

/// The techniques of a pattern.
pub open spec fn pattern_techniques(i: int) -> Seq<Seq<char>> {
    if i == 0 {
        str_texts(CREDENTIAL_THEFT_TECHNIQUES@)
    } else if i == 1 {
        str_texts(PRIVILEGE_ESCALATION_TECHNIQUES@)
    } else if i == 2 {
        str_texts(EXFILTRATION_TECHNIQUES@)
    } else if i == 3 {
        str_texts(EVASIVE_THEFT_TECHNIQUES@)
    } else if i == 4 {
        str_texts(RANSOMWARE_TECHNIQUES@)
    } else if i == 5 {
        str_texts(LOLBIN_TECHNIQUES@)
    } else if i == 6 {
        str_texts(C2_TECHNIQUES@)
    } else {
        str_texts(TOKEN_TECHNIQUES@)
    }
}

/// The pattern at a position.
pub open spec fn attack_pattern(i: int) -> ChainPatternModel {
    ChainPatternModel {
        name: CHAIN_TEXTS@[i].0@,
        description: CHAIN_TEXTS@[i].1@,
        sequence: pattern_sequence(i),
        min_events: CHAIN_TEXTS@[i].2 as nat,
        mitre_techniques: pattern_techniques(i),
        base_confidence: CHAIN_TEXTS@[i].3,
    }
}

fn attack_pattern_at(i: usize) -> (r: AttackChainPattern)
    requires
        i < 8,
    ensures
        r@ == attack_pattern(i as int),
{
    let t = CHAIN_TEXTS[i];
    let sequence: Vec<BehavioralEventType> = match i {
        0 => vec![
            BehavioralEventType::ProcessEnumeration,
            BehavioralEventType::CredentialDump,
            BehavioralEventType::SmbConnection,
        ],
        1 => vec![
            BehavioralEventType::ScriptExecution,
            BehavioralEventType::UacBypass,
            BehavioralEventType::RegistryPersistence,
        ],
        2 => vec![
            BehavioralEventType::FileEnumeration,
            BehavioralEventType::DataStaging,
            BehavioralEventType::ArchiveCreation,
            BehavioralEventType::LargeDataTransfer,
        ],
        3 => vec![
            BehavioralEventType::EtwTampering,
            BehavioralEventType::LsassAccess,
            BehavioralEventType::HttpExfiltration,
        ],
        4 => vec![
            BehavioralEventType::ServiceEnumeration,
            BehavioralEventType::LogClearing,
            BehavioralEventType::FileEnumeration,
            BehavioralEventType::ArchiveCreation,
        ],
        5 => vec![
            BehavioralEventType::LolbinExecution,
            BehavioralEventType::LolbinExecution,
            BehavioralEventType::LolbinExecution,
        ],
        6 => vec![
            BehavioralEventType::ScriptExecution,
            BehavioralEventType::DomainGeneration,
            BehavioralEventType::BeaconCallback,
        ],
        _ => vec![
            BehavioralEventType::TokenManipulation,
            BehavioralEventType::TokenElevation,
            BehavioralEventType::ServiceInstallation,
        ],
    };
    assert(sequence@ =~= pattern_sequence(i as int));
    let mitre_techniques: Vec<String> = match i {
        0 => owned(&CREDENTIAL_THEFT_TECHNIQUES),
        1 => owned(&PRIVILEGE_ESCALATION_TECHNIQUES),
        2 => owned(&EXFILTRATION_TECHNIQUES),
        3 => owned(&EVASIVE_THEFT_TECHNIQUES),
        4 => owned(&RANSOMWARE_TECHNIQUES),
        5 => owned(&LOLBIN_TECHNIQUES),
        6 => owned(&C2_TECHNIQUES),
        _ => owned(&TOKEN_TECHNIQUES),
    };
    AttackChainPattern {
        name: t.0.to_string(),
        description: t.1.to_string(),
        sequence,
        min_events: t.2,
        mitre_techniques,
        base_confidence: t.3,
    }
}

/// The patterns.
pub open spec fn attack_patterns() -> Seq<ChainPatternModel> {
    Seq::new(8, |i: int| attack_pattern(i))
}

/// How severe a chain is.
#[derive(Clone, Copy, Debug, PartialEq, Eq, Structural)]
pub enum ChainSeverity {
    Low,
    Medium,
    High,
    Critical,
}

impl ChainSeverity {
    /// How severe a chain is by how sure it is and how many tactics it shows.
    pub open spec fn of(confidence: u32, tactics_count: nat) -> ChainSeverity {
        if confidence >= 900_000 || tactics_count >= 4 {
            ChainSeverity::Critical
        } else if confidence >= 700_000 || tactics_count >= 3 {
            ChainSeverity::High
        } else if confidence >= 500_000 || tactics_count >= 2 {
            ChainSeverity::Medium
        } else {
            ChainSeverity::Low
        }
    }

    /// How severe a chain is by how sure it is and how many tactics it shows.
    pub fn from_confidence(confidence: u32, tactics_count: usize) -> (r: ChainSeverity)
        ensures
            r == ChainSeverity::of(confidence, tactics_count as nat),
    {
        if confidence >= 900_000 || tactics_count >= 4 {
            ChainSeverity::Critical
        } else if confidence >= 700_000 || tactics_count >= 3 {
            ChainSeverity::High
        } else if confidence >= 500_000 || tactics_count >= 2 {
            ChainSeverity::Medium
        } else {
            ChainSeverity::Low
        }
    }

    /// The severities in their order.
    pub open spec fn rank(&self) -> int {
        match self {
            ChainSeverity::Low => 0,
            ChainSeverity::Medium => 1,
            ChainSeverity::High => 2,
            ChainSeverity::Critical => 3,
        }
    }
}

/// A chain of events.
pub struct BehavioralChain {
    pub id: String,
    pub events: Vec<TimestampedEvent>,
    /// The processes of the events, each once.
    pub processes: Vec<u32>,
    pub techniques: Vec<String>,
    pub tactics: Vec<String>,
    pub created_at: u64,
    pub last_event_at: u64,
    /// In millionths.
    pub confidence: u32,
    pub matched_pattern: Option<AttackChainPattern>,
    pub severity: ChainSeverity,
}

/// What a chain says.
#[verifier::ext_equal]
pub struct ChainModel {
    pub id: Seq<char>,
    pub events: Seq<EventModel>,
    pub processes: Seq<u32>,
    pub techniques: Seq<Seq<char>>,
    pub tactics: Seq<Seq<char>>,
    pub created_at: u64,
    pub last_event_at: u64,
    pub confidence: u32,
    pub matched: Option<ChainPatternModel>,
    pub severity: ChainSeverity,
}

impl View for BehavioralChain {
    type V = ChainModel;

    open spec fn view(&self) -> ChainModel {
        ChainModel {
            id: self.id@,
            events: events_view(self.events@),
            processes: self.processes@,
            techniques: texts(self.techniques@),
            tactics: texts(self.tactics@),
            created_at: self.created_at,
            last_event_at: self.last_event_at,
            confidence: self.confidence,
            matched: pattern_view(self.matched_pattern),
            severity: self.severity,
        }
    }
}

fn copy_pids(v: &Vec<u32>) -> (r: Vec<u32>)
    ensures
        r@ == v@,
{
    let mut r: Vec<u32> = Vec::new();
    let mut i: usize = 0;
    while i < v.len()
        invariant
            i <= v@.len(),
            r@ == v@.take(i as int),
        decreases v@.len() - i,
    {
        r.push(v[i]);
        assert(v@.take(i + 1) =~= v@.take(i as int).push(v@[i as int]));
        i += 1;
    }
    assert(v@.take(i as int) =~= v@);
    r
}

impl Clone for BehavioralChain {
    fn clone(&self) -> (r: BehavioralChain)
        ensures
            r@ == self@,
    {
        BehavioralChain {
            id: self.id.clone(),
            events: copy_events(&self.events),
            processes: copy_pids(&self.processes),
            techniques: copies(&self.techniques),
            tactics: copies(&self.tactics),
            created_at: self.created_at,
            last_event_at: self.last_event_at,
            confidence: self.confidence,
            matched_pattern: copy_pattern(&self.matched_pattern),
            severity: self.severity,
        }
    }
}

/// What chains say.
pub open spec fn chains_view(v: Seq<BehavioralChain>) -> Seq<ChainModel> {
    v.map_values(|c: BehavioralChain| c@)
}

/// The kinds of events.
pub open spec fn kinds(events: Seq<EventModel>) -> Seq<BehavioralEventType> {
    events.map_values(|e: EventModel| e.event_type)
}

/// How far into a sequence events lead, each taking its next step where it fits.
pub open spec fn steps_taken(
    sequence: Seq<BehavioralEventType>,
    events: Seq<BehavioralEventType>,
) -> nat
    decreases events.len(),
{
    if events.len() == 0 {
        0
    } else {
        let before = steps_taken(sequence, events.drop_last());
        if before < sequence.len() && events.last() == sequence[before as int] {
            before + 1
        } else {
            before
        }
    }
}

/// How sure it is that events follow a pattern: where there are enough of them
/// and they lead through six tenths of its sequence, the part of its confidence
/// that they lead through.
pub open spec fn pattern_match(p: ChainPatternModel, events: Seq<BehavioralEventType>) -> Option<
    u32,
> {
    let steps = steps_taken(p.sequence, events);
    if events.len() < p.min_events || p.sequence.len() == 0 || steps * 10 < p.sequence.len() * 6 {
        None
    } else {
        Some((p.base_confidence * steps / p.sequence.len() as int) as u32)
    }
}

/// The first of the surest among the first `n` patterns that events follow.
pub open spec fn best_match(
    patterns: Seq<ChainPatternModel>,
    events: Seq<BehavioralEventType>,
    n: nat,
) -> Option<(ChainPatternModel, u32)>
    decreases n,
{
    if n == 0 {
        None
    } else {
        let before = best_match(patterns, events, (n - 1) as nat);
        match pattern_match(patterns[n - 1], events) {
            Some(c) => match before {
                Some(b) => if c > b.1 {
                    Some((patterns[n - 1], c))
                } else {
                    before
                },
                None => Some((patterns[n - 1], c)),
            },
            None => before,
        }
    }
}

/// The lesser of a number and a bound.
pub open spec fn capped(n: nat, bound: nat) -> nat {
    if n < bound {
        n
    } else {
        bound
    }
}

/// How sure a chain is that follows no pattern, by its tactics, events and
/// processes.
pub open spec fn diversity(tactics: nat, events: nat, processes: nat) -> u32 {
    capped(
        capped(tactics, 5) * 100_000 + capped(events, 10) * 30_000 + capped(processes, 5) * 40_000,
        700_000,
    ) as u32
}

/// A chain with its confidence, pattern and severity by its events.
pub open spec fn assessed(c: ChainModel, patterns: Seq<ChainPatternModel>) -> ChainModel {
    let best = best_match(patterns, kinds(c.events), patterns.len());
    let confidence = match best {
        Some(b) => b.1,
        None => diversity(c.tactics.len(), c.events.len(), c.processes.len()),
    };
    ChainModel {
        confidence,
        matched: match best {
            Some(b) => Some(b.0),
            None => c.matched,
        },
        severity: ChainSeverity::of(confidence, c.tactics.len()),
        ..c
    }
}

/// A process in a list, once.
pub open spec fn with_pid(pids: Seq<u32>, pid: u32) -> Seq<u32> {
    if pids.contains(pid) {
        pids
    } else {
        pids.push(pid)
    }
}

/// The newest of some events, as many as a chain holds.
pub open spec fn newest_events(events: Seq<EventModel>) -> Seq<EventModel> {
    if events.len() > MAX_CHAIN_EVENTS {
        events.skip(events.len() - MAX_CHAIN_EVENTS)
    } else {
        events
    }
}

/// A chain with one event more; the oldest goes where there are too many.
pub open spec fn extended(c: ChainModel, e: EventModel, patterns: Seq<ChainPatternModel>) -> ChainModel {
    assessed(
        ChainModel {
            events: newest_events(c.events.push(e)),
            processes: with_pid(c.processes, e.pid),
            techniques: match e.technique {
                Some(t) => with_member(c.techniques, t),
                None => c.techniques,
            },
            tactics: with_member(c.tactics, e.event_type.tactic()),
            last_event_at: e.timestamp,
            ..c
        },
        patterns,
    )
}

/// A chain of one event.
pub open spec fn fresh_chain(e: EventModel, id: Seq<char>) -> ChainModel {
    ChainModel {
        id: "chain_"@ + id,
        events: seq![e],
        processes: seq![e.pid],
        techniques: match e.technique {
            Some(t) => seq![t],
            None => Seq::empty(),
        },
        tactics: seq![e.event_type.tactic()],
        created_at: e.timestamp,
        last_event_at: e.timestamp,
        confidence: 100_000,
        matched: None,
        severity: ChainSeverity::Low,
    }
}

/// The parent of a process.
pub open spec fn parent_of(ancestry: Seq<(u32, u32)>, pid: u32) -> Option<u32>
    decreases ancestry.len(),
{
    if ancestry.len() == 0 {
        None
    } else if ancestry[0].0 == pid {
        Some(ancestry[0].1)
    } else {
        parent_of(ancestry.drop_first(), pid)
    }
}

/// The parents of processes, with that of one.
pub open spec fn with_parent(ancestry: Seq<(u32, u32)>, pid: u32, parent: u32) -> Seq<(u32, u32)>
    decreases ancestry.len(),
{
    if ancestry.len() == 0 {
        seq![(pid, parent)]
    } else if ancestry[0].0 == pid {
        seq![(pid, parent)] + ancestry.drop_first()
    } else {
        seq![ancestry[0]] + with_parent(ancestry.drop_first(), pid, parent)
    }
}

/// How many entries have a parent that is not among the known.
pub open spec fn unknown_parents(ancestry: Seq<(u32, u32)>, known: Set<u32>) -> nat
    decreases ancestry.len(),
{
    if ancestry.len() == 0 {
        0
    } else {
        unknown_parents(ancestry.drop_first(), known) + if known.contains(ancestry[0].1) {
            0nat
        } else {
            1nat
        }
    }
}

/// A parent that becomes known is one unknown less.
pub proof fn lemma_unknown_parents(ancestry: Seq<(u32, u32)>, known: Set<u32>, pid: u32)
    requires
        parent_of(ancestry, pid) is Some,
        !known.contains(parent_of(ancestry, pid)->0),
    ensures
        unknown_parents(ancestry, known.insert(parent_of(ancestry, pid)->0)) < unknown_parents(
            ancestry,
            known,
        ),
    decreases ancestry.len(),
{
    let parent = parent_of(ancestry, pid)->0;
    if ancestry[0].0 == pid {
        lemma_unknown_parents_fall(ancestry.drop_first(), known, parent);
    } else {
        lemma_unknown_parents(ancestry.drop_first(), known, pid);
    }
}

proof fn lemma_unknown_parents_fall(ancestry: Seq<(u32, u32)>, known: Set<u32>, parent: u32)
    ensures
        unknown_parents(ancestry, known.insert(parent)) <= unknown_parents(ancestry, known),
    decreases ancestry.len(),
{
    if ancestry.len() > 0 {
        lemma_unknown_parents_fall(ancestry.drop_first(), known, parent);
    }
}

/// The known processes with the ancestors of one of them, up to one that is
/// known already.
pub open spec fn with_ancestors(ancestry: Seq<(u32, u32)>, known: Set<u32>, pid: u32) -> Set<u32>
    decreases unknown_parents(ancestry, known),
{
    match parent_of(ancestry, pid) {
        Some(parent) => if parent == 0 || known.contains(parent) {
            known
        } else {
            proof {
                lemma_unknown_parents(ancestry, known, pid);
            }
            with_ancestors(ancestry, known.insert(parent), parent)
        },
        None => known,
    }
}

/// Whether at most `n` steps from child to parent lead from a process to a known
/// one.
pub open spec fn descends(ancestry: Seq<(u32, u32)>, known: Set<u32>, pid: u32, n: nat) -> bool
    decreases n,
{
    known.contains(pid) || (n > 0 && exists|i: int|
        0 <= i < ancestry.len() && (#[trigger] ancestry[i]).0 == pid && descends(
            ancestry,
            known,
            ancestry[i].1,
            (n - 1) as nat,
        ))
}

/// The known processes and all their descendants.
pub open spec fn with_descendants(ancestry: Seq<(u32, u32)>, known: Set<u32>) -> Set<u32> {
    Set::new(|pid: u32| exists|n: nat| descends(ancestry, known, pid, n))
}

/// The processes related to one: its ancestors, and the descendants of it and of
/// these.
pub open spec fn related(ancestry: Seq<(u32, u32)>, pid: u32) -> Set<u32> {
    with_descendants(ancestry, with_ancestors(ancestry, set![pid], pid))
}

/// How many entries have a child that is not among the known.
pub open spec fn unknown_children(ancestry: Seq<(u32, u32)>, known: Set<u32>) -> nat
    decreases ancestry.len(),
{
    if ancestry.len() == 0 {
        0
    } else {
        unknown_children(ancestry.drop_first(), known) + if known.contains(ancestry[0].0) {
            0nat
        } else {
            1nat
        }
    }
}

proof fn lemma_unknown_children(ancestry: Seq<(u32, u32)>, known: Set<u32>, pid: u32)
    ensures
        unknown_children(ancestry, known.insert(pid)) <= unknown_children(ancestry, known),
        !known.contains(pid) && (exists|i: int|
            0 <= i < ancestry.len() && (#[trigger] ancestry[i]).0 == pid) ==> unknown_children(
            ancestry,
            known.insert(pid),
        ) < unknown_children(ancestry, known),
    decreases ancestry.len(),
{
    if ancestry.len() > 0 {
        let rest = ancestry.drop_first();
        lemma_unknown_children(rest, known, pid);
        if !known.contains(pid) && (exists|i: int|
            0 <= i < ancestry.len() && (#[trigger] ancestry[i]).0 == pid) && ancestry[0].0 != pid {
            let i = choose|i: int| 0 <= i < ancestry.len() && (#[trigger] ancestry[i]).0 == pid;
            assert(rest[i - 1] == ancestry[i]);
        }
    }
}

/// Whether the children of known processes are known.
pub open spec fn closed_under_children(ancestry: Seq<(u32, u32)>, known: Set<u32>) -> bool {
    forall|i: int|
        0 <= i < ancestry.len() && known.contains((#[trigger] ancestry[i]).1) ==> known.contains(
            ancestry[i].0,
        )
}

proof fn lemma_descendants_known(
    ancestry: Seq<(u32, u32)>,
    start: Set<u32>,
    known: Set<u32>,
    pid: u32,
    n: nat,
)
    requires
        start.subset_of(known),
        closed_under_children(ancestry, known),
        descends(ancestry, start, pid, n),
    ensures
        known.contains(pid),
    decreases n,
{
    if !start.contains(pid) {
        let i = choose|i: int|
            0 <= i < ancestry.len() && (#[trigger] ancestry[i]).0 == pid && descends(
                ancestry,
                start,
                ancestry[i].1,
                (n - 1) as nat,
            );
        lemma_descendants_known(ancestry, start, known, ancestry[i].1, (n - 1) as nat);
    }
}

proof fn lemma_child_descends(ancestry: Seq<(u32, u32)>, start: Set<u32>, i: int)
    requires
        0 <= i < ancestry.len(),
        with_descendants(ancestry, start).contains(ancestry[i].1),
    ensures
        with_descendants(ancestry, start).contains(ancestry[i].0),
{
    let n = choose|n: nat| descends(ancestry, start, ancestry[i].1, n);
    assert(descends(ancestry, start, ancestry[i].0, n + 1)) by {
        assert(((n + 1) - 1) as nat == n);
        assert(ancestry[i].0 == ancestry[i].0);
    }
}

/// Whether an event belongs to a chain: a process of the chain is related, or
/// the chain's last event is not long ago.
pub open spec fn belongs(c: ChainModel, e: EventModel, relatives: Set<u32>, window_ms: u64) -> bool {
    (exists|i: int| 0 <= i < c.processes.len() && relatives.contains(#[trigger] c.processes[i]))
        || (if e.timestamp >= c.last_event_at {
        e.timestamp - c.last_event_at < window_ms
    } else {
        0 < window_ms
    })
}

/// The first chain that an event belongs to.
pub open spec fn first_home(
    chains: Seq<ChainModel>,
    e: EventModel,
    relatives: Set<u32>,
    window_ms: u64,
    from: nat,
) -> Option<int>
    decreases chains.len() - from,
{
    if from >= chains.len() {
        None
    } else if belongs(chains[from as int], e, relatives, window_ms) {
        Some(from as int)
    } else {
        first_home(chains, e, relatives, window_ms, from + 1)
    }
}

/// The chains after an event was put into the first that it belongs to, or into
/// a new one.
pub open spec fn joined_chains(
    chains: Seq<ChainModel>,
    e: EventModel,
    relatives: Set<u32>,
    window_ms: u64,
    patterns: Seq<ChainPatternModel>,
    id: Seq<char>,
) -> Seq<ChainModel> {
    match first_home(chains, e, relatives, window_ms, 0) {
        Some(i) => chains.update(i, extended(chains[i], e, patterns)),
        None => chains.push(fresh_chain(e, id)),
    }
}

/// Whether a chain's last event is not too long ago.
pub open spec fn fresh_enough(cutoff: int) -> spec_fn(ChainModel) -> bool {
    |c: ChainModel| c.last_event_at >= cutoff
}

/// The first of the chains whose last event is longest ago, among the first `n`.
pub open spec fn stalest(chains: Seq<ChainModel>, n: nat) -> int
    decreases n,
{
    if n <= 1 {
        0
    } else {
        let before = stalest(chains, (n - 1) as nat);
        if chains[n - 1].last_event_at < chains[before].last_event_at {
            n - 1
        } else {
            before
        }
    }
}

/// The chains without the stalest, where there are too many.
pub open spec fn limited(chains: Seq<ChainModel>) -> Seq<ChainModel> {
    if chains.len() > MAX_ACTIVE_CHAINS {
        chains.remove(stalest(chains, chains.len()))
    } else {
        chains
    }
}

/// The events without those at the front that are older than a time.
pub open spec fn trimmed(events: Seq<EventModel>, cutoff: int) -> Seq<EventModel>
    decreases events.len(),
{
    if events.len() > 0 && events[0].timestamp < cutoff {
        trimmed(events.drop_first(), cutoff)
    } else {
        events
    }
}

/// What the analyzer knows.
#[verifier::ext_equal]
pub struct ChainsState {
    pub chains: Seq<ChainModel>,
    pub buffer: Seq<EventModel>,
    pub ancestry: Seq<(u32, u32)>,
}

/// Whether no chain holds more events than are kept of one.
pub open spec fn chains_fit(chains: Seq<ChainModel>) -> bool {
    forall|i: int|
        0 <= i < chains.len() ==> (#[trigger] chains[i]).events.len() <= MAX_CHAIN_EVENTS
}

/// What the analyzer knows after an event; `id` is what a new chain is named by.
pub open spec fn after_event(
    s: ChainsState,
    e: EventModel,
    window_ms: u64,
    patterns: Seq<ChainPatternModel>,
    id: Seq<char>,
) -> ChainsState {
    let ancestry = if e.parent_pid != 0 {
        with_parent(s.ancestry, e.pid, e.parent_pid)
    } else {
        s.ancestry
    };
    let chains = joined_chains(
        s.chains,
        e,
        related(ancestry, e.pid),
        window_ms,
        patterns,
        id,
    );
    ChainsState {
        chains: limited(chains.filter(fresh_enough(e.timestamp - window_ms * 2))),
        buffer: trimmed(s.buffer.push(e), e.timestamp - window_ms),
        ancestry,
    }
}

/// The analyzer of chains.
pub struct BehavioralChainAnalyzer {
    pub chains: Vec<BehavioralChain>,
    pub event_buffer: VecDeque<TimestampedEvent>,
    /// From each process to its parent.
    pub process_ancestry: Vec<(u32, u32)>,
    pub patterns: Vec<AttackChainPattern>,
    pub window_ms: u64,
}

impl View for BehavioralChainAnalyzer {
    type V = ChainsState;

    open spec fn view(&self) -> ChainsState {
        ChainsState {
            chains: chains_view(self.chains@),
            buffer: events_view(self.event_buffer@),
            ancestry: self.process_ancestry@,
        }
    }
}

fn find_parent(ancestry: &Vec<(u32, u32)>, pid: u32) -> (r: Option<u32>)
    ensures
        r == parent_of(ancestry@, pid),
{
    let ghost all = ancestry@;
    let mut i: usize = 0;
    assert(all.skip(0) =~= all);
    while i < ancestry.len()
        invariant
            i <= ancestry@.len(),
            all == ancestry@,
            parent_of(all.skip(i as int), pid) == parent_of(all, pid),
        decreases ancestry@.len() - i,
    {
        assert(all.skip(i as int).drop_first() =~= all.skip(i + 1));
        if ancestry[i].0 == pid {
            return Some(ancestry[i].1);
        }
        i += 1;
    }
    None
}

proof fn lemma_with_parent(ancestry: Seq<(u32, u32)>, pid: u32, parent: u32, i: int)
    requires
        0 <= i <= ancestry.len(),
        forall|j: int| 0 <= j < i ==> (#[trigger] ancestry[j]).0 != pid,
        i < ancestry.len() ==> ancestry[i].0 == pid,
    ensures
        with_parent(ancestry, pid, parent) == if i < ancestry.len() {
            ancestry.update(i, (pid, parent))
        } else {
            ancestry.push((pid, parent))
        },
    decreases ancestry.len(),
{
    if ancestry.len() == 0 {
        assert(seq![(pid, parent)] =~= ancestry.push((pid, parent)));
    } else if i == 0 {
        assert(seq![(pid, parent)] + ancestry.drop_first() =~= ancestry.update(0, (pid, parent)));
    } else {
        let rest = ancestry.drop_first();
        assert forall|j: int| 0 <= j < i - 1 implies (#[trigger] rest[j]).0 != pid by {
            assert(ancestry[j + 1].0 != pid);
        }
        lemma_with_parent(rest, pid, parent, i - 1);
        assert(ancestry[0].0 != pid);
        if i < ancestry.len() {
            assert(seq![ancestry[0]] + rest.update(i - 1, (pid, parent)) =~= ancestry.update(
                i,
                (pid, parent),
            ));
        } else {
            assert(seq![ancestry[0]] + rest.push((pid, parent)) =~= ancestry.push((pid, parent)));
        }
    }
}

fn set_parent(ancestry: &mut Vec<(u32, u32)>, pid: u32, parent: u32)
    ensures
        final(ancestry)@ == with_parent(old(ancestry)@, pid, parent),
{
    let ghost before = ancestry@;
    let mut i: usize = 0;
    while i < ancestry.len() && ancestry[i].0 != pid
        invariant
            i <= ancestry@.len(),
            ancestry@ == before,
            forall|j: int| 0 <= j < i ==> (#[trigger] before[j]).0 != pid,
        decreases ancestry@.len() - i,
    {
        i += 1;
    }
    proof {
        lemma_with_parent(before, pid, parent, i as int);
    }
    if i < ancestry.len() {
        ancestry.set(i, (pid, parent));
    } else {
        ancestry.push((pid, parent));
    }
}

fn add_member(list: &mut Vec<String>, text: &str)
    ensures
        texts(final(list)@) == with_member(texts(old(list)@), text@),
{
    if !holds(list, text) {
        push_text(list, text.to_string());
    }
}

fn add_pid(list: &mut Vec<u32>, pid: u32)
    ensures
        final(list)@ == with_pid(old(list)@, pid),
{
    let mut i: usize = 0;
    while i < list.len()
        invariant
            i <= list@.len(),
            list@ == old(list)@,
            forall|j: int| 0 <= j < i ==> list@[j] != pid,
        decreases list@.len() - i,
    {
        if list[i] == pid {
            assert(list@[i as int] == pid);
            return;
        }
        i += 1;
    }
    list.push(pid);
}

/// A chain, for an alert.
pub struct ChainAlert {
    pub chain_id: String,
    pub severity: ChainSeverity,
    /// In millionths.
    pub confidence: u32,
    pub pattern: Option<String>,
    pub process_count: usize,
    pub event_count: usize,
    pub tactics: Vec<String>,
    pub techniques: Vec<String>,
    pub duration_ms: u64,
    pub summary: String,
}

/// What an alert says.
#[verifier::ext_equal]
pub struct ChainAlertModel {
    pub chain_id: Seq<char>,
    pub severity: ChainSeverity,
    pub confidence: u32,
    pub pattern: Option<Seq<char>>,
    pub process_count: nat,
    pub event_count: nat,
    pub tactics: Seq<Seq<char>>,
    pub techniques: Seq<Seq<char>>,
    pub duration_ms: u64,
    pub summary: Seq<char>,
}

impl View for ChainAlert {
    type V = ChainAlertModel;

    open spec fn view(&self) -> ChainAlertModel {
        ChainAlertModel {
            chain_id: self.chain_id@,
            severity: self.severity,
            confidence: self.confidence,
            pattern: opt_text(self.pattern),
            process_count: self.process_count as nat,
            event_count: self.event_count as nat,
            tactics: texts(self.tactics@),
            techniques: texts(self.techniques@),
            duration_ms: self.duration_ms,
            summary: self.summary@,
        }
    }
}

/// What alerts say.
pub open spec fn alerts_view(v: Seq<ChainAlert>) -> Seq<ChainAlertModel> {
    v.map_values(|a: ChainAlert| a@)
}

/// The names of the kinds of the first `n` events, each once.
pub open spec fn kind_names(events: Seq<EventModel>, n: nat) -> Seq<Seq<char>>
    decreases n,
{
    if n == 0 {
        Seq::empty()
    } else {
        with_member(kind_names(events, (n - 1) as nat), events[n - 1].event_type.spec_name())
    }
}

/// The names of the processes of the first `n` events, each once.
pub open spec fn process_names(events: Seq<EventModel>, n: nat) -> Seq<Seq<char>>
    decreases n,
{
    if n == 0 {
        Seq::empty()
    } else {
        with_member(process_names(events, (n - 1) as nat), events[n - 1].process_name)
    }
}

/// Events in one line: how many, across how many processes, and the first five
/// kinds.
pub open spec fn summary(events: Seq<EventModel>) -> Seq<char> {
    if events.len() == 0 {
        "No events"@
    } else {
        decimal(events.len()) + " events across "@ + decimal(
            process_names(events, events.len()).len(),
        ) + " processes: ["@ + joined(
            crate::textset::first_members(kind_names(events, events.len()), 5),
            ", "@,
        ) + "]"@
    }
}

/// A chain, for an alert.
pub open spec fn alert_of(c: ChainModel) -> ChainAlertModel {
    ChainAlertModel {
        chain_id: c.id,
        severity: c.severity,
        confidence: c.confidence,
        pattern: match c.matched {
            Some(p) => Some(p.name),
            None => None,
        },
        process_count: c.processes.len(),
        event_count: c.events.len(),
        tactics: c.tactics,
        techniques: c.techniques,
        duration_ms: if c.last_event_at >= c.created_at {
            (c.last_event_at - c.created_at) as u64
        } else {
            0
        },
        summary: summary(c.events),
    }
}

/// Whether a chain is of high or critical severity.
pub open spec fn is_severe(c: ChainModel) -> bool {
    c.severity == ChainSeverity::High || c.severity == ChainSeverity::Critical
}

/// Whether a chain follows the pattern of a name.
pub open spec fn follows(name: Seq<char>) -> spec_fn(ChainModel) -> bool {
    |c: ChainModel| c.matched matches Some(p) && p.name == name
}

proof fn lemma_first_home(
    chains: Seq<ChainModel>,
    e: EventModel,
    relatives: Set<u32>,
    window_ms: u64,
    from: nat,
    i: nat,
)
    requires
        from <= i <= chains.len(),
        forall|j: int|
            from <= j < i ==> !belongs(#[trigger] chains[j], e, relatives, window_ms),
    ensures
        first_home(chains, e, relatives, window_ms, from) == first_home(
            chains,
            e,
            relatives,
            window_ms,
            i,
        ),
    decreases i - from,
{
    if from < i {
        assert(!belongs(chains[from as int], e, relatives, window_ms));
        lemma_first_home(chains, e, relatives, window_ms, from + 1, i);
    }
}

proof fn lemma_kept_chains(
    v: Seq<BehavioralChain>,
    p: spec_fn(BehavioralChain) -> bool,
    q: spec_fn(ChainModel) -> bool,
)
    requires
        forall|c: BehavioralChain| #[trigger] p(c) == q(c@),
    ensures
        chains_view(v.filter(p)) == chains_view(v).filter(q),
    decreases v.len(),
{
    reveal(Seq::filter);
    if v.len() > 0 {
        lemma_kept_chains(v.drop_last(), p, q);
        assert(chains_view(v).drop_last() =~= chains_view(v.drop_last()));
        assert(chains_view(v).last() == v.last()@);
        let kept = v.drop_last().filter(p);
        if p(v.last()) {
            assert(chains_view(kept.push(v.last())) =~= chains_view(kept).push(v.last()@));
        }
    } else {
        assert(chains_view(v.filter(p)) =~= chains_view(v).filter(q));
    }
}

proof fn lemma_stalest(chains: Seq<ChainModel>, n: nat)
    requires
        1 <= n <= chains.len(),
    ensures
        0 <= stalest(chains, n) < n,
    decreases n,
{
    if n > 1 {
        lemma_stalest(chains, (n - 1) as nat);
    }
}

fn is_fresh_enough(c: &BehavioralChain, cutoff: u128) -> (r: bool)
    ensures
        r == (c.last_event_at as u128 >= cutoff),
{
    c.last_event_at as u128 >= cutoff
}

impl BehavioralChainAnalyzer {
    /// No more chains are followed than allowed, and none holds too many events.
    pub open spec fn wf(&self) -> bool {
        self.chains@.len() <= MAX_ACTIVE_CHAINS && chains_fit(self@.chains)
    }

    /// An analyzer with the usual window.
    pub fn new() -> (r: BehavioralChainAnalyzer)
        ensures
            r.wf(),
            r.window_ms == DEFAULT_WINDOW_MS,
            patterns_view(r.patterns@) == attack_patterns(),
            r@ == (ChainsState {
                chains: Seq::empty(),
                buffer: Seq::empty(),
                ancestry: Seq::empty(),
            }),
    {
        BehavioralChainAnalyzer::with_window(DEFAULT_WINDOW_MS)
    }

    /// An analyzer with a window in milliseconds.
    pub fn with_window(window_ms: u64) -> (r: BehavioralChainAnalyzer)
        ensures
            r.wf(),
            r.window_ms == window_ms,
            patterns_view(r.patterns@) == attack_patterns(),
            r@ == (ChainsState {
                chains: Seq::empty(),
                buffer: Seq::empty(),
                ancestry: Seq::empty(),
            }),
    {
        let r = BehavioralChainAnalyzer {
            chains: Vec::new(),
            event_buffer: VecDeque::new(),
            process_ancestry: Vec::new(),
            patterns: BehavioralChainAnalyzer::load_attack_patterns(),
            window_ms,
        };
        assert(r@ =~= (ChainsState {
            chains: Seq::empty(),
            buffer: Seq::empty(),
            ancestry: Seq::empty(),
        }));
        r
    }

    /// The patterns of attacks.
    pub fn load_attack_patterns() -> (r: Vec<AttackChainPattern>)
        ensures
            patterns_view(r@) == attack_patterns(),
    {
        let mut r: Vec<AttackChainPattern> = Vec::new();
        let mut i: usize = 0;
        assert(patterns_view(r@) =~= attack_patterns().take(0));
        while i < 8
            invariant
                i <= 8,
                patterns_view(r@) == attack_patterns().take(i as int),
            decreases 8 - i,
        {
            let ghost before = r@;
            r.push(attack_pattern_at(i));
            assert(patterns_view(r@) =~= patterns_view(before).push(attack_pattern(i as int)));
            assert(attack_patterns().take(i + 1) =~= attack_patterns().take(i as int).push(
                attack_pattern(i as int),
            ));
            i += 1;
        }
        assert(attack_patterns().take(8) =~= attack_patterns());
        r
    }

    /// Holds events against a pattern.
    pub fn match_pattern(&self, pattern: &AttackChainPattern, events: &[BehavioralEventType]) -> (r:
        Option<u32>)
        ensures
            r == pattern_match(pattern@, events@),
    {
        if events.len() < pattern.min_events {
            return None;
        }
        let ghost all = events@;
        let mut steps: usize = 0;
        let mut i: usize = 0;
        assert(all.take(0) =~= Seq::empty());
        while i < events.len()
            invariant
                i <= events@.len(),
                all == events@,
                steps <= i,
                steps <= pattern.sequence@.len(),
                steps == steps_taken(pattern.sequence@, all.take(i as int)),
            decreases events@.len() - i,
        {
            assert(all.take(i + 1).drop_last() =~= all.take(i as int));
            if steps < pattern.sequence.len() && events[i] == pattern.sequence[steps] {
                steps += 1;
            }
            i += 1;
        }
        assert(all.take(i as int) =~= all);
        let length: usize = pattern.sequence.len();
        if length == 0 || (steps as u128) * 10 < (length as u128) * 6 {
            return None;
        }
        let base: u128 = pattern.base_confidence as u128;
        let taken: u128 = steps as u128;
        proof {
            let b = base as int;
            let t = taken as int;
            let l = length as int;
            assert(0 <= b * t <= b * l) by (nonlinear_arith)
                requires
                    0 <= t <= l,
                    0 <= b,
            ;
            assert(b * l <= 0xffff_ffff * 0xffff_ffff_ffff_ffff) by (nonlinear_arith)
                requires
                    0 <= b <= 0xffff_ffff,
                    0 <= l <= 0xffff_ffff_ffff_ffff,
            ;
            assert(0 <= (b * t) / l <= b) by (nonlinear_arith)
                requires
                    0 <= b * t <= b * l,
                    0 < l,
            ;
            assert(base * taken == pattern.base_confidence * steps);
        }
        Some((base * taken / length as u128) as u32)
    }

    fn assess(&self, chain: &mut BehavioralChain)
        requires
            old(chain).events@.len() > 0,
        ensures
            final(chain)@ == assessed(old(chain)@, patterns_view(self.patterns@)),
    {
        let ghost patterns = patterns_view(self.patterns@);
        let mut types: Vec<BehavioralEventType> = Vec::new();
        let ghost all = kinds(events_view(chain.events@));
        let mut k: usize = 0;
        assert(types@ =~= all.take(0));
        while k < chain.events.len()
            invariant
                k <= chain.events@.len(),
                *chain == *old(chain),
                all == kinds(events_view(chain.events@)),
                types@ == all.take(k as int),
            decreases chain.events@.len() - k,
        {
            types.push(chain.events[k].event_type);
            assert(all.take(k + 1) =~= all.take(k as int).push(all[k as int]));
            k += 1;
        }
        assert(all.take(k as int) =~= all);
        let mut best: Option<(usize, u32)> = None;
        let mut i: usize = 0;
        while i < self.patterns.len()
            invariant
                i <= self.patterns@.len(),
                patterns == patterns_view(self.patterns@),
                types@ == all,
                match best {
                    Some(b) => b.0 < i && best_match(patterns, all, i as nat) == Some(
                        (patterns[b.0 as int], b.1),
                    ),
                    None => best_match(patterns, all, i as nat) is None,
                },
            decreases self.patterns@.len() - i,
        {
            assert(patterns[i as int] == self.patterns@[i as int]@);
            if let Some(c) = self.match_pattern(&self.patterns[i], types.as_slice()) {
                match best {
                    Some(b) => {
                        if c > b.1 {
                            best = Some((i, c));
                        }
                    },
                    None => {
                        best = Some((i, c));
                    },
                }
            }
            i += 1;
        }
        match best {
            Some(b) => {
                chain.matched_pattern = Some(self.patterns[b.0].clone());
                chain.confidence = b.1;
            },
            None => {
                chain.confidence = diversity_of(
                    chain.tactics.len(),
                    chain.events.len(),
                    chain.processes.len(),
                );
            },
        }
        chain.severity = ChainSeverity::from_confidence(chain.confidence, chain.tactics.len());
    }

    fn extend(&self, chain: &mut BehavioralChain, event: &TimestampedEvent)
        requires
            old(chain).events@.len() <= MAX_CHAIN_EVENTS,
        ensures
            final(chain)@ == extended(old(chain)@, event@, patterns_view(self.patterns@)),
    {
        let ghost before = chain.events@;
        chain.events.push(event.clone());
        assert(events_view(chain.events@) =~= events_view(before).push(event@));
        if chain.events.len() > MAX_CHAIN_EVENTS {
            let ghost all = events_view(chain.events@);
            chain.events.remove(0);
            assert(events_view(chain.events@) =~= all.skip(1));
        }
        add_pid(&mut chain.processes, event.pid);
        chain.last_event_at = event.timestamp;
        if let Some(t) = &event.mitre_technique {
            add_member(&mut chain.techniques, t.as_str());
        }
        add_member(&mut chain.tactics, event.event_type.mitre_tactic());
        self.assess(chain);
    }

    /// The processes related to one: its ancestors, and the descendants of it and
    /// of these.
    pub fn get_related_processes(&self, pid: u32) -> (r: HashSet<u32>)
        ensures
            r@ == related(self@.ancestry, pid),
    {
        let ghost ancestry = self.process_ancestry@;
        let mut known: HashSet<u32> = HashSet::new();
        known.insert(pid);
        assert(known@ =~= set![pid]);
        let mut current: u32 = pid;
        let mut more = true;
        while more
            invariant
                ancestry == self.process_ancestry@,
                if more {
                    with_ancestors(ancestry, known@, current) == with_ancestors(
                        ancestry,
                        set![pid],
                        pid,
                    )
                } else {
                    known@ == with_ancestors(ancestry, set![pid], pid)
                },
            decreases unknown_parents(ancestry, known@), (if more { 1int } else { 0 }),
        {
            match find_parent(&self.process_ancestry, current) {
                Some(parent) => {
                    if parent == 0 || known.contains(&parent) {
                        more = false;
                    } else {
                        proof {
                            lemma_unknown_parents(ancestry, known@, current);
                        }
                        known.insert(parent);
                        current = parent;
                    }
                },
                None => {
                    more = false;
                },
            }
        }
        let ghost start = known@;
        assert forall|q: u32| start.contains(q) implies with_descendants(ancestry, start).contains(
            q,
        ) by {
            assert(descends(ancestry, start, q, 0));
        }
        let mut grown = true;
        while grown
            invariant
                ancestry == self.process_ancestry@,
                start.subset_of(known@),
                known@.subset_of(with_descendants(ancestry, start)),
                !grown ==> closed_under_children(ancestry, known@),
            decreases unknown_children(ancestry, known@), (if grown { 1int } else { 0 }),
        {
            grown = false;
            let ghost had = known@;
            let mut i: usize = 0;
            while i < self.process_ancestry.len()
                invariant
                    i <= self.process_ancestry@.len(),
                    ancestry == self.process_ancestry@,
                    start.subset_of(known@),
                    known@.subset_of(with_descendants(ancestry, start)),
                    if grown {
                        unknown_children(ancestry, known@) < unknown_children(ancestry, had)
                    } else {
                        known@ == had
                    },
                    !grown ==> forall|j: int|
                        0 <= j < i && known@.contains((#[trigger] ancestry[j]).1)
                            ==> known@.contains(ancestry[j].0),
                decreases self.process_ancestry@.len() - i,
            {
                let entry = self.process_ancestry[i];
                if known.contains(&entry.1) && !known.contains(&entry.0) {
                    proof {
                        assert(ancestry[i as int] == entry);
                        lemma_unknown_children(ancestry, known@, entry.0);
                        lemma_child_descends(ancestry, start, i as int);
                    }
                    known.insert(entry.0);
                    grown = true;
                }
                i += 1;
            }
        }
        proof {
            assert forall|q: u32| with_descendants(ancestry, start).contains(q) implies known@.contains(
                q,
            ) by {
                let n = choose|n: nat| descends(ancestry, start, q, n);
                lemma_descendants_known(ancestry, start, known@, q, n);
            }
            assert(known@ =~= with_descendants(ancestry, start));
        }
        known
    }

    fn event_belongs(&self, chain: &BehavioralChain, event: &TimestampedEvent, relatives: &HashSet<u32>) -> (r:
        bool)
        ensures
            r == belongs(chain@, event@, relatives@, self.window_ms),
    {
        let mut i: usize = 0;
        while i < chain.processes.len()
            invariant
                i <= chain.processes@.len(),
                forall|j: int|
                    0 <= j < i ==> !relatives@.contains(#[trigger] chain.processes@[j]),
            decreases chain.processes@.len() - i,
        {
            if relatives.contains(&chain.processes[i]) {
                assert(relatives@.contains(chain@.processes[i as int]));
                return true;
            }
            i += 1;
        }
        let gap: u64 = if event.timestamp >= chain.last_event_at {
            event.timestamp - chain.last_event_at
        } else {
            0
        };
        gap < self.window_ms
    }

    fn put_event(&mut self, event: &TimestampedEvent, new_id: &str)
        requires
            old(self).wf(),
        ensures
            final(self).event_buffer == old(self).event_buffer,
            final(self).process_ancestry == old(self).process_ancestry,
            final(self).patterns == old(self).patterns,
            final(self).window_ms == old(self).window_ms,
            final(self).chains@.len() <= MAX_ACTIVE_CHAINS + 1,
            chains_fit(final(self)@.chains),
            chains_view(final(self).chains@) == joined_chains(
                chains_view(old(self).chains@),
                event@,
                related(old(self)@.ancestry, event.pid),
                old(self).window_ms,
                patterns_view(old(self).patterns@),
                new_id@,
            ),
    {
        let relatives = self.get_related_processes(event.pid);
        let ghost all = chains_view(self.chains@);
        let ghost window = self.window_ms;
        let mut i: usize = 0;
        while i < self.chains.len()
            invariant
                i <= self.chains@.len(),
                *self == *old(self),
                self.wf(),
                window == self.window_ms,
                all == chains_view(self.chains@),
                relatives@ == related(old(self)@.ancestry, event.pid),
                forall|j: int|
                    0 <= j < i ==> !belongs(#[trigger] all[j], event@, relatives@, window),
            decreases self.chains@.len() - i,
        {
            assert(all[i as int] == self.chains@[i as int]@);
            if self.event_belongs(&self.chains[i], event, &relatives) {
                proof {
                    lemma_first_home(all, event@, relatives@, window, 0, i as nat);
                }
                let mut chain = self.chains[i].clone();
                self.extend(&mut chain, event);
                self.chains.set(i, chain);
                assert(chains_view(self.chains@) =~= all.update(
                    i as int,
                    extended(all[i as int], event@, patterns_view(old(self).patterns@)),
                ));
                return;
            }
            i += 1;
        }
        proof {
            lemma_first_home(all, event@, relatives@, window, 0, all.len());
        }
        let events = vec![event.clone()];
        let processes = vec![event.pid];
        let tactics = vec![event.event_type.mitre_tactic().to_string()];
        let techniques: Vec<String> = match &event.mitre_technique {
            Some(t) => vec![t.clone()],
            None => Vec::new(),
        };
        let chain = BehavioralChain {
            id: "chain_".to_string().concat(new_id),
            events,
            processes,
            techniques,
            tactics,
            created_at: event.timestamp,
            last_event_at: event.timestamp,
            confidence: 100_000,
            matched_pattern: None,
            severity: ChainSeverity::Low,
        };
        assert(chain@ =~= fresh_chain(event@, new_id@)) by {
            assert(events_view(events@) =~= seq![event@]);
            assert(texts(tactics@) =~= seq![event.event_type.tactic()]);
            assert(texts(techniques@) =~= fresh_chain(event@, new_id@).techniques);
            assert(processes@ =~= seq![event.pid]);
        }
        self.chains.push(chain);
        assert(chains_view(self.chains@) =~= all.push(fresh_chain(event@, new_id@)));
    }

    fn limit(&mut self)
        requires
            old(self).chains@.len() <= MAX_ACTIVE_CHAINS + 1,
            chains_fit(old(self)@.chains),
        ensures
            final(self).wf(),
            final(self).event_buffer == old(self).event_buffer,
            final(self).process_ancestry == old(self).process_ancestry,
            final(self).patterns == old(self).patterns,
            final(self).window_ms == old(self).window_ms,
            chains_view(final(self).chains@) == limited(chains_view(old(self).chains@)),
    {
        if self.chains.len() <= MAX_ACTIVE_CHAINS {
            return;
        }
        let ghost all = chains_view(self.chains@);
        let mut oldest: usize = 0;
        let mut i: usize = 1;
        while i < self.chains.len()
            invariant
                1 <= i <= self.chains@.len(),
                *self == *old(self),
                all == chains_view(self.chains@),
                oldest < i,
                oldest == stalest(all, i as nat),
            decreases self.chains@.len() - i,
        {
            if self.chains[i].last_event_at < self.chains[oldest].last_event_at {
                oldest = i;
            }
            i += 1;
        }
        self.chains.remove(oldest);
        assert(chains_view(self.chains@) =~= all.remove(oldest as int));
    }

    /// Takes an event in; `new_id` is what a chain is named by that begins with
    /// it.
    pub fn add_event_as(&mut self, event: TimestampedEvent, new_id: &str)
        requires
            old(self).wf(),
        ensures
            final(self).wf(),
            final(self).patterns == old(self).patterns,
            final(self).window_ms == old(self).window_ms,
            final(self)@ == after_event(
                old(self)@,
                event@,
                old(self).window_ms,
                patterns_view(old(self).patterns@),
                new_id@,
            ),
    {
        if event.parent_pid != 0 {
            set_parent(&mut self.process_ancestry, event.pid, event.parent_pid);
        }
        let ghost was = self.event_buffer@;
        self.event_buffer.push_back(event.clone());
        assert(events_view(self.event_buffer@) =~= events_view(was).push(event@));
        let ghost full = events_view(self.event_buffer@);
        let ghost wanted = trimmed(full, event.timestamp - self.window_ms);
        let cutoff: u64 = if event.timestamp >= self.window_ms {
            event.timestamp - self.window_ms
        } else {
            0
        };
        while self.event_buffer.len() > 0 && self.event_buffer[0].timestamp < cutoff
            invariant
                self.chains == old(self).chains,
                self.patterns == old(self).patterns,
                self.window_ms == old(self).window_ms,
                self.process_ancestry@ == if event.parent_pid != 0 {
                    with_parent(old(self).process_ancestry@, event.pid, event.parent_pid)
                } else {
                    old(self).process_ancestry@
                },
                cutoff == if event.timestamp >= self.window_ms {
                    event.timestamp - self.window_ms
                } else {
                    0
                },
                trimmed(events_view(self.event_buffer@), event.timestamp - self.window_ms)
                    == wanted,
            decreases self.event_buffer@.len(),
        {
            let ghost before = events_view(self.event_buffer@);
            self.event_buffer.pop_front();
            assert(events_view(self.event_buffer@) =~= before.drop_first());
        }
        self.put_event(&event, new_id);
        let span: u128 = self.window_ms as u128 * 2;
        let now: u128 = event.timestamp as u128;
        let oldest: u128 = if now >= span { now - span } else { 0 };
        let ghost p = |c: BehavioralChain| c.last_event_at as u128 >= oldest;
        let ghost joined = chains_view(self.chains@);
        let ghost kept_before = self.chains@;
        let keep = |c: &BehavioralChain| -> (b: bool)
            ensures
                b == (c.last_event_at as u128 >= oldest),
            { is_fresh_enough(c, oldest) };
        crate::collect::retain(&mut self.chains, keep, Ghost(p));
        proof {
            lemma_kept_chains(
                kept_before,
                p,
                fresh_enough(event.timestamp - old(self).window_ms * 2),
            );
            crate::collect::lemma_filter_members(kept_before, p);
            lemma_kept_fit(joined, fresh_enough(event.timestamp - old(self).window_ms * 2));
        }
        self.limit();
    }

    /// Takes an event in.
    pub fn add_event(&mut self, event: TimestampedEvent)
        requires
            old(self).wf(),
        ensures
            final(self).wf(),
            final(self).patterns == old(self).patterns,
            final(self).window_ms == old(self).window_ms,
            exists|id: Seq<char>|
                final(self)@ == #[trigger] after_event(
                    old(self)@,
                    event@,
                    old(self).window_ms,
                    patterns_view(old(self).patterns@),
                    id,
                ) && is_identifier(id),
    {
        let id = fresh_id();
        self.add_event_as(event, id.as_str());
        assert(self@ == after_event(
            old(self)@,
            event@,
            old(self).window_ms,
            patterns_view(old(self).patterns@),
            id@,
        ));
    }

    /// The chains.
    pub fn get_chains(&self) -> (r: Vec<BehavioralChain>)
        ensures
            chains_view(r@) == self@.chains,
    {
        let ghost all = self@.chains;
        let mut r: Vec<BehavioralChain> = Vec::new();
        let mut i: usize = 0;
        assert(chains_view(r@) =~= all.take(0));
        while i < self.chains.len()
            invariant
                i <= self.chains@.len(),
                all == chains_view(self.chains@),
                chains_view(r@) == all.take(i as int),
            decreases self.chains@.len() - i,
        {
            let ghost before = r@;
            r.push(self.chains[i].clone());
            assert(chains_view(r@) =~= chains_view(before).push(all[i as int]));
            assert(all.take(i + 1) =~= all.take(i as int).push(all[i as int]));
            i += 1;
        }
        assert(all.take(i as int) =~= all);
        r
    }

    /// The chains of high or critical severity.
    pub fn get_high_severity_chains(&self) -> (r: Vec<BehavioralChain>)
        ensures
            chains_view(r@) == self@.chains.filter(|c: ChainModel| is_severe(c)),
    {
        let mut r = self.get_chains();
        let ghost before = r@;
        let ghost p = |c: BehavioralChain| is_severe(c@);
        let ghost q = |c: ChainModel| is_severe(c);
        let keep = |c: &BehavioralChain| -> (b: bool)
            ensures
                b == is_severe(c@),
            { c.severity == ChainSeverity::High || c.severity == ChainSeverity::Critical };
        crate::collect::retain(&mut r, keep, Ghost(p));
        proof {
            lemma_kept_chains(before, p, q);
        }
        r
    }

    /// The chains that follow the pattern of a name.
    pub fn get_chains_by_pattern(&self, pattern_name: &str) -> (r: Vec<BehavioralChain>)
        ensures
            chains_view(r@) == self@.chains.filter(follows(pattern_name@)),
    {
        let mut r = self.get_chains();
        let ghost before = r@;
        let ghost q = follows(pattern_name@);
        let ghost p = |c: BehavioralChain| q(c@);
        let keep = |c: &BehavioralChain| -> (b: bool)
            ensures
                b == q(c@),
            { chain_follows(c, pattern_name) };
        crate::collect::retain(&mut r, keep, Ghost(p));
        proof {
            lemma_kept_chains(before, p, q);
        }
        r
    }

    /// The chains of high or critical severity, for alerts.
    pub fn export_for_alert(&self) -> (r: Vec<ChainAlert>)
        ensures
            alerts_view(r@) == self@.chains.filter(|c: ChainModel| is_severe(c)).map_values(
                |c: ChainModel| alert_of(c),
            ),
    {
        let severe = self.get_high_severity_chains();
        let ghost all = chains_view(severe@).map_values(|c: ChainModel| alert_of(c));
        let mut r: Vec<ChainAlert> = Vec::new();
        let mut i: usize = 0;
        assert(alerts_view(r@) =~= all.take(0));
        while i < severe.len()
            invariant
                i <= severe@.len(),
                all == chains_view(severe@).map_values(|c: ChainModel| alert_of(c)),
                alerts_view(r@) == all.take(i as int),
            decreases severe@.len() - i,
        {
            let chain = &severe[i];
            let ghost before = r@;
            r.push(
                ChainAlert {
                    chain_id: chain.id.clone(),
                    severity: chain.severity,
                    confidence: chain.confidence,
                    pattern: match &chain.matched_pattern {
                        Some(p) => Some(p.name.clone()),
                        None => None,
                    },
                    process_count: chain.processes.len(),
                    event_count: chain.events.len(),
                    tactics: copies(&chain.tactics),
                    techniques: copies(&chain.techniques),
                    duration_ms: if chain.last_event_at >= chain.created_at {
                        chain.last_event_at - chain.created_at
                    } else {
                        0
                    },
                    summary: self.generate_summary(&chain.events),
                },
            );
            assert(r@.last()@ =~= all[i as int]);
            assert(alerts_view(r@) =~= alerts_view(before).push(all[i as int]));
            assert(all.take(i + 1) =~= all.take(i as int).push(all[i as int]));
            i += 1;
        }
        assert(all.take(i as int) =~= all);
        r
    }

    /// Events in one line.
    pub fn generate_summary(&self, events: &Vec<TimestampedEvent>) -> (r: String)
        ensures
            r@ == summary(events_view(events@)),
    {
        if events.len() == 0 {
            return "No events".to_string();
        }
        let ghost all = events_view(events@);
        let mut types = TextSet::new();
        let mut names = TextSet::new();
        let mut i: usize = 0;
        while i < events.len()
            invariant
                i <= events@.len(),
                all == events_view(events@),
                types.members() == kind_names(all, i as nat),
                names.members() == process_names(all, i as nat),
            decreases events@.len() - i,
        {
            types.insert(events[i].event_type.name().to_string());
            names.insert(events[i].process_name.clone());
            i += 1;
        }
        decimal_text(events.len() as u64).concat(" events across ").concat(
            decimal_text(names.count() as u64).as_str(),
        ).concat(" processes: [").concat(join(&types.first(5), ", ").as_str()).concat("]")
    }
}

fn chain_follows(c: &BehavioralChain, name: &str) -> (r: bool)
    ensures
        r == follows(name@)(c@),
{
    match &c.matched_pattern {
        Some(p) => same(p.name.as_str(), name),
        None => false,
    }
}

fn diversity_of(tactics: usize, events: usize, processes: usize) -> (r: u32)
    ensures
        r == diversity(tactics as nat, events as nat, processes as nat),
{
    let t: u32 = if tactics < 5 { tactics as u32 } else { 5 };
    let e: u32 = if events < 10 { events as u32 } else { 10 };
    let p: u32 = if processes < 5 { processes as u32 } else { 5 };
    let sum: u32 = t * 100_000 + e * 30_000 + p * 40_000;
    if sum < 700_000 {
        sum
    } else {
        700_000
    }
}

impl Default for BehavioralChainAnalyzer {
    fn default() -> (r: BehavioralChainAnalyzer)
        ensures
            r.wf(),
            r.window_ms == DEFAULT_WINDOW_MS,
            patterns_view(r.patterns@) == attack_patterns(),
            r@ == (ChainsState {
                chains: Seq::empty(),
                buffer: Seq::empty(),
                ancestry: Seq::empty(),
            }),
    {
        BehavioralChainAnalyzer::new()
    }
}

/// No more than so many chains are ever followed, and none of them ever holds more
/// events than are kept of one.
pub proof fn law_chains_are_bounded(
    s: ChainsState,
    e: EventModel,
    window_ms: u64,
    patterns: Seq<ChainPatternModel>,
    id: Seq<char>,
)
    requires
        s.chains.len() <= MAX_ACTIVE_CHAINS,
        chains_fit(s.chains),
    ensures
        after_event(s, e, window_ms, patterns, id).chains.len() <= MAX_ACTIVE_CHAINS,
        chains_fit(after_event(s, e, window_ms, patterns, id).chains),
{
    let ancestry = after_event(s, e, window_ms, patterns, id).ancestry;
    let joined = joined_chains(s.chains, e, related(ancestry, e.pid), window_ms, patterns, id);
    let p = fresh_enough(e.timestamp - window_ms * 2);
    lemma_home_in_range(s.chains, e, related(ancestry, e.pid), window_ms, 0);
    crate::collect::lemma_filter_members(joined, p);
    if joined.filter(p).len() > 0 {
        lemma_stalest(joined.filter(p), joined.filter(p).len());
    }
    assert(chains_fit(joined));
    lemma_kept_fit(joined, p);
    let kept = joined.filter(p);
    let limit = limited(kept);
    assert forall|i: int| 0 <= i < limit.len() implies (#[trigger] limit[i]).events.len()
        <= MAX_CHAIN_EVENTS by {
        if kept.len() > MAX_ACTIVE_CHAINS && i >= stalest(kept, kept.len()) {
            assert(limit[i] == kept[i + 1]);
        } else {
            assert(limit[i] == kept[i]);
        }
    }
}

proof fn lemma_kept_fit(chains: Seq<ChainModel>, p: spec_fn(ChainModel) -> bool)
    requires
        chains_fit(chains),
    ensures
        chains_fit(chains.filter(p)),
{
    crate::collect::lemma_filter_members(chains, p);
    let kept = chains.filter(p);
    assert forall|i: int| 0 <= i < kept.len() implies (#[trigger] kept[i]).events.len()
        <= MAX_CHAIN_EVENTS by {
        assert(chains.contains(kept[i]));
        let k = choose|k: int| 0 <= k < chains.len() && chains[k] == kept[i];
        assert(chains[k].events.len() <= MAX_CHAIN_EVENTS);
    }
}

proof fn lemma_home_in_range(
    chains: Seq<ChainModel>,
    e: EventModel,
    relatives: Set<u32>,
    window_ms: u64,
    from: nat,
)
    ensures
        first_home(chains, e, relatives, window_ms, from) matches Some(i) ==> from <= i
            < chains.len(),
    decreases chains.len() - from,
{
    if from < chains.len() && !belongs(chains[from as int], e, relatives, window_ms) {
        lemma_home_in_range(chains, e, relatives, window_ms, from + 1);
    }
}

/// A later event never undoes a step into a pattern.
pub proof fn law_steps_never_go_back(
    sequence: Seq<BehavioralEventType>,
    events: Seq<BehavioralEventType>,
    e: BehavioralEventType,
)
    ensures
        steps_taken(sequence, events) <= steps_taken(sequence, events.push(e)) <= sequence.len(),
    decreases events.len(),
{
    assert(events.push(e).drop_last() =~= events);
    if events.len() > 0 {
        law_steps_never_go_back(sequence, events.drop_last(), events.last());
        assert(events.drop_last().push(events.last()) =~= events);
    } else {
        assert(steps_taken(sequence, events) == 0);
    }
    assert(events.push(e).last() == e);
    assert(steps_taken(sequence, events.push(e).drop_last()) == steps_taken(sequence, events));
}

/// Events that follow a pattern go on doing so when others come behind them.
pub proof fn law_match_persists(
    p: ChainPatternModel,
    events: Seq<BehavioralEventType>,
    e: BehavioralEventType,
)
    requires
        pattern_match(p, events) is Some,
    ensures
        pattern_match(p, events.push(e)) is Some,
{
    law_steps_never_go_back(p.sequence, events, e);
}

/// Events that are the whole of a pattern's sequence are as sure as the pattern.
pub proof fn law_whole_pattern_is_sure(p: ChainPatternModel)
    requires
        p.sequence.len() > 0,
        p.min_events <= p.sequence.len(),
    ensures
        pattern_match(p, p.sequence) == Some(p.base_confidence),
{
    lemma_whole_sequence(p.sequence, p.sequence.len());
    assert(p.sequence.take(p.sequence.len() as int) =~= p.sequence);
    let b = p.base_confidence as int;
    let n = p.sequence.len() as int;
    assert((b * n) / n == b) by (nonlinear_arith)
        requires
            n > 0,
    ;
}

proof fn lemma_whole_sequence(sequence: Seq<BehavioralEventType>, n: nat)
    requires
        n <= sequence.len(),
    ensures
        steps_taken(sequence, sequence.take(n as int)) == n,
    decreases n,
{
    if n > 0 {
        lemma_whole_sequence(sequence, (n - 1) as nat);
        assert(sequence.take(n as int).drop_last() =~= sequence.take(n - 1));
    }
}

/// Events in the window hold: after an event no older one than the window allows
/// stands at the front of the buffer, and the event itself is in it.
pub proof fn law_buffer_keeps_the_window(
    s: ChainsState,
    e: EventModel,
    window_ms: u64,
    patterns: Seq<ChainPatternModel>,
    id: Seq<char>,
)
    ensures
        ({
            let buffer = after_event(s, e, window_ms, patterns, id).buffer;
            buffer.len() > 0 && buffer.last() == e && buffer[0].timestamp >= e.timestamp
                - window_ms
        }),
{
    lemma_trimmed(s.buffer.push(e), e.timestamp - window_ms);
}

proof fn lemma_trimmed(events: Seq<EventModel>, cutoff: int)
    requires
        events.len() > 0,
        events.last().timestamp >= cutoff,
    ensures
        trimmed(events, cutoff).len() > 0,
        trimmed(events, cutoff).last() == events.last(),
        trimmed(events, cutoff)[0].timestamp >= cutoff,
    decreases events.len(),
{
    if events[0].timestamp < cutoff {
        assert(events.len() > 1);
        assert(events.drop_first().last() == events.last());
        lemma_trimmed(events.drop_first(), cutoff);
    }
}

/// A surer chain, and one with more tactics, is no less severe.
pub proof fn law_severity_is_monotonic(low: u32, high: u32, fewer: nat, more: nat)
    requires
        low <= high,
        fewer <= more,
    ensures
        ChainSeverity::of(low, fewer).rank() <= ChainSeverity::of(high, more).rank(),
{
}

/// A process is related to itself.
pub proof fn law_process_is_related_to_itself(ancestry: Seq<(u32, u32)>, pid: u32)
    ensures
        related(ancestry, pid).contains(pid),
{
    lemma_ancestors_keep(ancestry, set![pid], pid, pid);
    assert(descends(ancestry, with_ancestors(ancestry, set![pid], pid), pid, 0));
}

/// A child of a related process is related.
pub proof fn law_children_of_relatives_are_related(ancestry: Seq<(u32, u32)>, pid: u32, i: int)
    requires
        0 <= i < ancestry.len(),
        related(ancestry, pid).contains(ancestry[i].1),
    ensures
        related(ancestry, pid).contains(ancestry[i].0),
{
    lemma_child_descends(ancestry, with_ancestors(ancestry, set![pid], pid), i);
}

proof fn lemma_ancestors_keep(ancestry: Seq<(u32, u32)>, known: Set<u32>, pid: u32, kept: u32)
    requires
        known.contains(kept),
    ensures
        with_ancestors(ancestry, known, pid).contains(kept),
    decreases unknown_parents(ancestry, known),
{
    match parent_of(ancestry, pid) {
        Some(parent) => {
            if parent != 0 && !known.contains(parent) {
                lemma_unknown_parents(ancestry, known, pid);
                lemma_ancestors_keep(ancestry, known.insert(parent), parent, kept);
            }
        },
        None => {},
    }
}

/// Events that hold the first steps of a sequence, in order and with whatever others
/// between them, lead at least so far into it.
pub proof fn law_steps_are_found_among_others(
    sequence: Seq<BehavioralEventType>,
    events: Seq<BehavioralEventType>,
    picked: Seq<int>,
)
    requires
        picked.len() <= sequence.len(),
        forall|k: int|
            0 <= k < picked.len() ==> 0 <= #[trigger] picked[k] < events.len() && events[picked[k]]
                == sequence[k],
        forall|j: int, k: int| 0 <= j < k < picked.len() ==> #[trigger] picked[j] < #[trigger] picked[k],
    ensures
        steps_taken(sequence, events) >= picked.len(),
    decreases events.len(),
{
    if picked.len() > 0 {
        let rest = events.drop_last();
        let last = picked.len() - 1;
        assert(0 <= picked[last] < events.len());
        if picked[last] == events.len() - 1 {
            let fewer = picked.drop_last();
            assert forall|k: int| 0 <= k < fewer.len() implies 0 <= #[trigger] fewer[k] < rest.len()
                && rest[fewer[k]] == sequence[k] by {
                assert(picked[k] < picked[last]);
            }
            assert forall|j: int, k: int| 0 <= j < k < fewer.len() implies #[trigger] fewer[j]
                < #[trigger] fewer[k] by {
                assert(picked[j] < picked[k]);
            }
            law_steps_are_found_among_others(sequence, rest, fewer);
        } else {
            assert forall|k: int| 0 <= k < picked.len() implies 0 <= #[trigger] picked[k]
                < rest.len() && rest[picked[k]] == sequence[k] by {
                if k < last {
                    assert(picked[k] < picked[last]);
                }
            }
            law_steps_are_found_among_others(sequence, rest, picked);
        }
    }
}

/// However far events lead into a sequence, they hold its first steps in order.
pub proof fn law_steps_were_taken(
    sequence: Seq<BehavioralEventType>,
    events: Seq<BehavioralEventType>,
) -> (picked: Seq<int>)
    ensures
        picked.len() == steps_taken(sequence, events),
        picked.len() <= sequence.len(),
        forall|k: int|
            0 <= k < picked.len() ==> 0 <= #[trigger] picked[k] < events.len() && events[picked[k]]
                == sequence[k],
        forall|j: int, k: int| 0 <= j < k < picked.len() ==> #[trigger] picked[j] < #[trigger] picked[k],
    decreases events.len(),
{
    if events.len() == 0 {
        Seq::empty()
    } else {
        let rest = events.drop_last();
        let before = law_steps_were_taken(sequence, rest);
        assert forall|k: int| 0 <= k < before.len() implies 0 <= #[trigger] before[k] < events.len()
            && events[before[k]] == sequence[k] by {
            assert(rest[before[k]] == events[before[k]]);
        }
        if before.len() < sequence.len() && events.last() == sequence[before.len() as int] {
            before.push(events.len() - 1)
        } else {
            before
        }
    }
}

/// An event that is not the next step of a sequence changes nothing of how far others lead
/// into it.
pub proof fn law_other_events_are_passed_over(
    sequence: Seq<BehavioralEventType>,
    front: Seq<BehavioralEventType>,
    e: BehavioralEventType,
    back: Seq<BehavioralEventType>,
)
    requires
        ({
            let n = steps_taken(sequence, front);
            n < sequence.len() ==> e != sequence[n as int]
        }),
    ensures
        steps_taken(sequence, front.push(e) + back) == steps_taken(sequence, front + back),
    decreases back.len(),
{
    if back.len() == 0 {
        assert(front.push(e) + back =~= front.push(e));
        assert(front + back =~= front);
        assert(front.push(e).drop_last() =~= front);
    } else {
        let rest = back.drop_last();
        law_other_events_are_passed_over(sequence, front, e, rest);
        assert((front.push(e) + back).drop_last() =~= front.push(e) + rest);
        assert((front + back).drop_last() =~= front + rest);
    }
}

/// Events follow a pattern exactly where there are enough of them and they lead through
/// six tenths of its sequence or more, and it is as sure as the part that they lead
/// through of what the pattern is.
pub proof fn law_patterns_are_followed(p: ChainPatternModel, events: Seq<BehavioralEventType>)
    ensures
        ({
            let steps = steps_taken(p.sequence, events);
            let n = p.sequence.len();
            &&& pattern_match(p, events) is Some <==> events.len() >= p.min_events && n > 0 && 5
                * steps >= 3 * n
            &&& pattern_match(p, events) matches Some(c) ==> c * n <= p.base_confidence * steps
                && p.base_confidence * steps < (c + 1) * n
        }),
{
    let steps = steps_taken(p.sequence, events) as int;
    let n = p.sequence.len() as int;
    let picked = law_steps_were_taken(p.sequence, events);
    if pattern_match(p, events) is Some {
        let b = p.base_confidence as int;
        let q = (b * steps) / n;
        assert(q * n <= b * steps && b * steps < (q + 1) * n && 0 <= q <= b) by (nonlinear_arith)
            requires
                n > 0,
                0 <= steps <= n,
                0 <= b,
                q == (b * steps) / n,
        ;
    }
}

/// A chain follows a pattern exactly where its events follow one of those that are known,
/// and then the one that is surest.
pub proof fn law_the_surest_pattern_counts(
    patterns: Seq<ChainPatternModel>,
    events: Seq<BehavioralEventType>,
    n: nat,
)
    requires
        n <= patterns.len(),
    ensures
        best_match(patterns, events, n) is Some <==> exists|i: int|
            0 <= i < n && pattern_match(#[trigger] patterns[i], events) is Some,
        best_match(patterns, events, n) matches Some(b) ==> {
            &&& exists|i: int| 0 <= i < n && #[trigger] patterns[i] == b.0
            &&& pattern_match(b.0, events) == Some(b.1)
            &&& forall|i: int|
                0 <= i < n ==> (pattern_match(#[trigger] patterns[i], events) matches Some(c) ==> c
                    <= b.1)
        },
    decreases n,
{
    if n > 0 {
        law_the_surest_pattern_counts(patterns, events, (n - 1) as nat);
        let before = best_match(patterns, events, (n - 1) as nat);
        if before is Some {
            let i = choose|i: int|
                0 <= i < n - 1 && pattern_match(#[trigger] patterns[i], events) is Some;
            assert(pattern_match(patterns[i], events) is Some);
            let (p, c) = before->0;
            let k = choose|k: int| 0 <= k < n - 1 && #[trigger] patterns[k] == p;
            assert(patterns[k] == p);
        }
        assert(patterns[n - 1] == patterns[n - 1]);
    }
}

/// A chain that follows no pattern is the surer the more tactics, events and processes it
/// has, up to seven tenths.
pub proof fn law_diversity(tactics: nat, events: nat, processes: nat)
    ensures
        diversity(tactics, events, processes) <= 700_000,
        tactics <= 5 && events <= 10 && processes <= 5 && 10 * tactics + 3 * events + 4 * processes
            <= 70 ==> diversity(tactics, events, processes) == 100_000 * tactics + 30_000 * events
            + 40_000 * processes,
        tactics >= 5 && processes >= 5 ==> diversity(tactics, events, processes) == 700_000,
        events >= 10 && tactics >= 4 ==> diversity(tactics, events, processes) == 700_000,
{
}

/// How severe a chain is: critical where it is nine tenths sure or shows four tactics,
/// high at seven tenths or three, medium at a half or two, and low otherwise.
pub proof fn law_severity_of_chains(confidence: u32, tactics: nat)
    ensures
        ChainSeverity::of(confidence, tactics) == ChainSeverity::Critical <==> confidence >= 900_000
            || tactics >= 4,
        ChainSeverity::of(confidence, tactics) == ChainSeverity::High <==> confidence < 900_000
            && tactics < 4 && (confidence >= 700_000 || tactics == 3),
        ChainSeverity::of(confidence, tactics) == ChainSeverity::Medium <==> confidence < 700_000
            && tactics < 3 && (confidence >= 500_000 || tactics == 2),
        ChainSeverity::of(confidence, tactics) == ChainSeverity::Low <==> confidence < 500_000
            && tactics < 2,
{
}

/// A chain holds the event that came last, its process, its technique and its tactic, and
/// is judged by what it holds then.
pub proof fn law_chains_grow_by_their_events(
    c: ChainModel,
    e: EventModel,
    patterns: Seq<ChainPatternModel>,
)
    ensures
        ({
            let after = extended(c, e, patterns);
            let best = best_match(patterns, kinds(after.events), patterns.len());
            &&& after.events.last() == e
            &&& c.events.len() < MAX_CHAIN_EVENTS ==> after.events == c.events.push(e)
            &&& after.processes.contains(e.pid)
            &&& after.tactics.contains(e.event_type.tactic())
            &&& e.technique matches Some(t) ==> after.techniques.contains(t)
            &&& after.last_event_at == e.timestamp
            &&& after.created_at == c.created_at
            &&& after.id == c.id
            &&& best matches Some(b) ==> after.confidence == b.1 && after.matched == Some(b.0)
            &&& best is None ==> after.confidence == diversity(
                after.tactics.len(),
                after.events.len(),
                after.processes.len(),
            )
            &&& after.severity == ChainSeverity::of(after.confidence, after.tactics.len())
        }),
{
    let after = extended(c, e, patterns);
    if !c.processes.contains(e.pid) {
        assert(after.processes.last() == e.pid);
    }
    if !c.tactics.contains(e.event_type.tactic()) {
        assert(after.tactics.last() == e.event_type.tactic());
    }
    if let Some(t) = e.technique {
        if !c.techniques.contains(t) {
            assert(after.techniques.last() == t);
        }
    }
}

/// An event goes to the first chain with a process that is related to its own or with an
/// event shortly before, and begins a new one where there is none; every other chain
/// stays as it was.
pub proof fn law_events_join_the_first_chain(
    chains: Seq<ChainModel>,
    e: EventModel,
    relatives: Set<u32>,
    window_ms: u64,
    patterns: Seq<ChainPatternModel>,
    id: Seq<char>,
    i: int,
)
    requires
        0 <= i < chains.len(),
    ensures
        ({
            let after = joined_chains(chains, e, relatives, window_ms, patterns, id);
            let home = |c: ChainModel|
                (exists|k: int|
                    0 <= k < c.processes.len() && relatives.contains(#[trigger] c.processes[k]))
                    || (window_ms > 0 && e.timestamp - c.last_event_at < window_ms);
            &&& home(chains[i]) && (forall|j: int| 0 <= j < i ==> !home(#[trigger] chains[j]))
                ==> after.len() == chains.len() && after[i] == extended(chains[i], e, patterns)
            &&& !home(chains[i]) || (exists|j: int| 0 <= j < i && home(#[trigger] chains[j]))
                ==> after[i] == chains[i]
            &&& (forall|j: int| 0 <= j < chains.len() ==> !home(#[trigger] chains[j])) ==> after
                == chains.push(fresh_chain(e, id))
        }),
{
    let home = |c: ChainModel|
        (exists|k: int|
            0 <= k < c.processes.len() && relatives.contains(#[trigger] c.processes[k])) || (
        window_ms > 0 && e.timestamp - c.last_event_at < window_ms);
    assert forall|c: ChainModel| #[trigger] home(c) == belongs(c, e, relatives, window_ms) by {}
    lemma_home_is_first(chains, e, relatives, window_ms, 0);
    match first_home(chains, e, relatives, window_ms, 0) {
        Some(k) => {
            assert(home(chains[k]));
            assert forall|j: int| 0 <= j < k implies !home(#[trigger] chains[j]) by {
                assert(!belongs(chains[j], e, relatives, window_ms));
            }
        },
        None => {
            assert forall|j: int| 0 <= j < chains.len() implies !home(#[trigger] chains[j]) by {
                assert(!belongs(chains[j], e, relatives, window_ms));
            }
        },
    }
}

proof fn lemma_home_is_first(
    chains: Seq<ChainModel>,
    e: EventModel,
    relatives: Set<u32>,
    window_ms: u64,
    from: nat,
)
    requires
        from <= chains.len(),
    ensures
        match first_home(chains, e, relatives, window_ms, from) {
            Some(k) => from <= k < chains.len() && belongs(chains[k], e, relatives, window_ms)
                && forall|j: int|
                from <= j < k ==> !belongs(#[trigger] chains[j], e, relatives, window_ms),
            None => forall|j: int|
                from <= j < chains.len() ==> !belongs(#[trigger] chains[j], e, relatives, window_ms),
        },
    decreases chains.len() - from,
{
    if from < chains.len() && !belongs(chains[from as int], e, relatives, window_ms) {
        lemma_home_is_first(chains, e, relatives, window_ms, from + 1);
    }
}

/// The alert on a chain tells of it: how severe and how sure it is, by which pattern, and
/// how many events and processes it has, and from the first event to the last how long it
/// took.
pub proof fn law_alerts_tell_of_the_chain(c: ChainModel)
    ensures
        alert_of(c).chain_id == c.id,
        alert_of(c).severity == c.severity,
        alert_of(c).confidence == c.confidence,
        alert_of(c).pattern is Some <==> c.matched is Some,
        c.matched matches Some(p) ==> alert_of(c).pattern == Some(p.name),
        alert_of(c).event_count == c.events.len(),
        alert_of(c).process_count == c.processes.len(),
        alert_of(c).tactics == c.tactics,
        alert_of(c).techniques == c.techniques,
        c.last_event_at >= c.created_at ==> alert_of(c).duration_ms == c.last_event_at
            - c.created_at,
{
}

/// The descendants of processes are the processes themselves, the children of every
/// descendant, and no others.
pub proof fn law_descendants(ancestry: Seq<(u32, u32)>, known: Set<u32>, pid: u32)
    ensures
        with_descendants(ancestry, known).contains(pid) <==> known.contains(pid) || exists|i: int|
            0 <= i < ancestry.len() && (#[trigger] ancestry[i]).0 == pid && with_descendants(
                ancestry,
                known,
            ).contains(ancestry[i].1),
{
    let all = with_descendants(ancestry, known);
    if all.contains(pid) && !known.contains(pid) {
        let n = choose|n: nat| descends(ancestry, known, pid, n);
        assert(n > 0);
        let i = choose|i: int|
            0 <= i < ancestry.len() && (#[trigger] ancestry[i]).0 == pid && descends(
                ancestry,
                known,
                ancestry[i].1,
                (n - 1) as nat,
            );
        assert(all.contains(ancestry[i].1));
    }
    if known.contains(pid) {
        assert(descends(ancestry, known, pid, 0));
    }
    if exists|i: int|
        0 <= i < ancestry.len() && (#[trigger] ancestry[i]).0 == pid && all.contains(
            ancestry[i].1,
        ) {
        let i = choose|i: int|
            0 <= i < ancestry.len() && (#[trigger] ancestry[i]).0 == pid && all.contains(
                ancestry[i].1,
            );
        let n = choose|n: nat| descends(ancestry, known, ancestry[i].1, n);
        assert(descends(ancestry, known, pid, n + 1));
    }
}

/// To what is known come the parent of a process, the parent of that, and so on, up to one
/// that is known already or has none.
pub proof fn law_ancestors(ancestry: Seq<(u32, u32)>, known: Set<u32>, pid: u32)
    ensures
        known.subset_of(with_ancestors(ancestry, known, pid)),
        parent_of(ancestry, pid) matches Some(parent) ==> parent == 0 || with_ancestors(
            ancestry,
            known,
            pid,
        ).contains(parent),
        parent_of(ancestry, pid) matches Some(parent) ==> parent != 0 && !known.contains(parent)
            ==> with_ancestors(ancestry, known, pid) == with_ancestors(
            ancestry,
            known.insert(parent),
            parent,
        ),
    decreases unknown_parents(ancestry, known),
{
    if let Some(parent) = parent_of(ancestry, pid) {
        if parent != 0 && !known.contains(parent) {
            lemma_unknown_parents(ancestry, known, pid);
            law_ancestors(ancestry, known.insert(parent), parent);
            assert(known.insert(parent).contains(parent));
        }
    }
}

/// Whether some steps come in order among events, at the positions picked.
pub open spec fn come_in_order(
    events: Seq<BehavioralEventType>,
    steps: Seq<BehavioralEventType>,
    picked: Seq<int>,
) -> bool {
    &&& picked.len() == steps.len()
    &&& forall|k: int|
        0 <= k < picked.len() ==> 0 <= #[trigger] picked[k] < events.len() && events[picked[k]]
            == steps[k]
    &&& forall|j: int, k: int|
        0 <= j < k < picked.len() ==> #[trigger] picked[j] < #[trigger] picked[k]
}

proof fn lemma_enough_events(events: Seq<BehavioralEventType>, picked: Seq<int>, n: nat)
    requires
        n <= picked.len(),
        forall|k: int| 0 <= k < picked.len() ==> 0 <= #[trigger] picked[k] < events.len(),
        forall|j: int, k: int|
            0 <= j < k < picked.len() ==> #[trigger] picked[j] < #[trigger] picked[k],
    ensures
        n > 0 ==> picked[n - 1] >= n - 1,
        n <= events.len(),
    decreases n,
{
    if n > 1 {
        lemma_enough_events(events, picked, (n - 1) as nat);
        assert(picked[n - 2] < picked[n - 1]);
    }
    if n > 0 {
        assert(0 <= picked[n - 1] < events.len());
    }
}

proof fn lemma_whole_attack(events: Seq<BehavioralEventType>, picked: Seq<int>, i: int)
    requires
        0 <= i < 8,
        come_in_order(events, pattern_sequence(i), picked),
    ensures
        best_match(attack_patterns(), events, 8) matches Some(b) && b.1 >= CHAIN_TEXTS@[i].3,
{
    let p = attack_patterns()[i];
    assert(p == attack_pattern(i));
    let n = p.sequence.len() as int;
    law_steps_are_found_among_others(p.sequence, events, picked);
    let taken = law_steps_were_taken(p.sequence, events);
    lemma_enough_events(events, picked, picked.len());
    assert(p.min_events <= n);
    law_patterns_are_followed(p, events);
    let c = pattern_match(p, events)->0 as int;
    let b = p.base_confidence as int;
    assert(c == b) by (nonlinear_arith)
        requires
            n > 0,
            c * n <= b * n,
            b * n < (c + 1) * n,
    ;
    law_the_surest_pattern_counts(attack_patterns(), events, 8);
    assert(pattern_match(attack_patterns()[i], events) is Some);
}

/// Each of the known attacks is recognized wherever its steps come in order, whatever
/// happens between them, and at least as surely as it is known to be.
pub proof fn law_known_attacks_are_recognized(
    events: Seq<BehavioralEventType>,
    picked: Seq<int>,
)
    ensures
        ({
            let sure = |n: int|
                best_match(attack_patterns(), events, 8) matches Some(b) && b.1 >= n;
            &&& come_in_order(
                events,
                seq![
                    BehavioralEventType::ProcessEnumeration,
                    BehavioralEventType::CredentialDump,
                    BehavioralEventType::SmbConnection,
                ],
                picked,
            ) ==> sure(850_000)
            &&& come_in_order(
                events,
                seq![
                    BehavioralEventType::ScriptExecution,
                    BehavioralEventType::UacBypass,
                    BehavioralEventType::RegistryPersistence,
                ],
                picked,
            ) ==> sure(800_000)
            &&& come_in_order(
                events,
                seq![
                    BehavioralEventType::FileEnumeration,
                    BehavioralEventType::DataStaging,
                    BehavioralEventType::ArchiveCreation,
                    BehavioralEventType::LargeDataTransfer,
                ],
                picked,
            ) ==> sure(900_000)
            &&& come_in_order(
                events,
                seq![
                    BehavioralEventType::EtwTampering,
                    BehavioralEventType::LsassAccess,
                    BehavioralEventType::HttpExfiltration,
                ],
                picked,
            ) ==> sure(950_000)
            &&& come_in_order(
                events,
                seq![
                    BehavioralEventType::ServiceEnumeration,
                    BehavioralEventType::LogClearing,
                    BehavioralEventType::FileEnumeration,
                    BehavioralEventType::ArchiveCreation,
                ],
                picked,
            ) ==> sure(900_000)
            &&& come_in_order(
                events,
                seq![
                    BehavioralEventType::LolbinExecution,
                    BehavioralEventType::LolbinExecution,
                    BehavioralEventType::LolbinExecution,
                ],
                picked,
            ) ==> sure(750_000)
            &&& come_in_order(
                events,
                seq![
                    BehavioralEventType::ScriptExecution,
                    BehavioralEventType::DomainGeneration,
                    BehavioralEventType::BeaconCallback,
                ],
                picked,
            ) ==> sure(850_000)
            &&& come_in_order(
                events,
                seq![
                    BehavioralEventType::TokenManipulation,
                    BehavioralEventType::TokenElevation,
                    BehavioralEventType::ServiceInstallation,
                ],
                picked,
            ) ==> sure(850_000)
        }),
{
    assert forall|i: int|
        0 <= i < 8 && come_in_order(events, #[trigger] pattern_sequence(i), picked) implies (
    best_match(attack_patterns(), events, 8) matches Some(b) && b.1 >= CHAIN_TEXTS@[i].3) by {
        lemma_whole_attack(events, picked, i);
    }
    assert(pattern_sequence(0).len() == 3);
    assert(pattern_sequence(1).len() == 3);
    assert(pattern_sequence(2).len() == 4);
    assert(pattern_sequence(3).len() == 3);
    assert(pattern_sequence(4).len() == 4);
    assert(pattern_sequence(5).len() == 3);
    assert(pattern_sequence(6).len() == 3);
    assert(pattern_sequence(7).len() == 3);
}

} // verus!
