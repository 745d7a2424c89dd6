//! The events that the agent's collectors report and the detections that
//! analyzers attach to them.
//!
//! Confidences, scores and weights are whole numbers of millionths, entropies
//! are whole numbers of millionths of a bit.
use vstd::prelude::*;

use crate::risk::RiskScoreSnapshot;
use crate::text::texts;
use crate::textmap::TextMap;

verus! {

/// One, in millionths.
pub const ONE: u32 = 1_000_000;

/// How severe an event is.
#[derive(Clone, Copy, Debug, PartialEq, Eq, Structural, PartialOrd, Ord, Hash)]
pub enum Severity {
    Info,
    Low,
    Medium,
    High,
    Critical,
}

/// What kind of analysis made a detection.
#[derive(Clone, Copy, Debug, PartialEq, Eq, Structural, Hash)]
pub enum DetectionType {
    Yara,
    Sigma,
    Ioc,
    Behavioral,
    Entropy,
    Honeyfile,
    Ransomware,
    Malware,
    ThreatIntel,
    MemoryThreat,
    DefenseEvasion,
    UsbThreat,
    WmiPersistence,
    DriverThreat,
}

impl DetectionType {
    /// The variant's name.
    pub open spec fn spec_name(&self) -> Seq<char> {
        match self {
            DetectionType::Yara => "Yara"@,
            DetectionType::Sigma => "Sigma"@,
            DetectionType::Ioc => "Ioc"@,
            DetectionType::Behavioral => "Behavioral"@,
            DetectionType::Entropy => "Entropy"@,
            DetectionType::Honeyfile => "Honeyfile"@,
            DetectionType::Ransomware => "Ransomware"@,
            DetectionType::Malware => "Malware"@,
            DetectionType::ThreatIntel => "ThreatIntel"@,
            DetectionType::MemoryThreat => "MemoryThreat"@,
            DetectionType::DefenseEvasion => "DefenseEvasion"@,
            DetectionType::UsbThreat => "UsbThreat"@,
            DetectionType::WmiPersistence => "WmiPersistence"@,
            DetectionType::DriverThreat => "DriverThreat"@,
        }
    }

    /// The variant's name.
    pub fn name(&self) -> (r: &'static str)
        ensures
            r@ == self.spec_name(),
    {
        match self {
            DetectionType::Yara => "Yara",
            DetectionType::Sigma => "Sigma",
            DetectionType::Ioc => "Ioc",
            DetectionType::Behavioral => "Behavioral",
            DetectionType::Entropy => "Entropy",
            DetectionType::Honeyfile => "Honeyfile",
            DetectionType::Ransomware => "Ransomware",
            DetectionType::Malware => "Malware",
            DetectionType::ThreatIntel => "ThreatIntel",
            DetectionType::MemoryThreat => "MemoryThreat",
            DetectionType::DefenseEvasion => "DefenseEvasion",
            DetectionType::UsbThreat => "UsbThreat",
            DetectionType::WmiPersistence => "WmiPersistence",
            DetectionType::DriverThreat => "DriverThreat",
        }
    }
}

/// A detection on an event.
pub struct Detection {
    pub detection_type: DetectionType,
    pub rule_name: String,
    /// In millionths.
    pub confidence: u32,
    pub description: String,
    pub mitre_tactics: Vec<String>,
    pub mitre_techniques: Vec<String>,
}

/// What a detection says.
#[verifier::ext_equal]
pub struct DetectionModel {
    pub detection_type: DetectionType,
    pub rule_name: Seq<char>,
    pub confidence: u32,
    pub description: Seq<char>,
    pub mitre_tactics: Seq<Seq<char>>,
    pub mitre_techniques: Seq<Seq<char>>,
}

impl View for Detection {
    type V = DetectionModel;

    open spec fn view(&self) -> DetectionModel {
        DetectionModel {
            detection_type: self.detection_type,
            rule_name: self.rule_name@,
            confidence: self.confidence,
            description: self.description@,
            mitre_tactics: texts(self.mitre_tactics@),
            mitre_techniques: texts(self.mitre_techniques@),
        }
    }
}

/// What a sequence of detections says.
pub open spec fn detections_view(v: Seq<Detection>) -> Seq<DetectionModel> {
    v.map_values(|d: Detection| d@)
}

impl Clone for Detection {
    fn clone(&self) -> (r: Detection)
        ensures
            r@ == self@,
    {
        Detection {
            detection_type: self.detection_type,
            rule_name: self.rule_name.clone(),
            confidence: self.confidence,
            description: self.description.clone(),
            mitre_tactics: crate::text::copies(&self.mitre_tactics),
            mitre_techniques: crate::text::copies(&self.mitre_techniques),
        }
    }
}

/// A process, as a collector saw it.
pub struct ProcessEvent {
    pub pid: u32,
    pub ppid: u32,
    pub name: String,
    pub path: String,
    pub cmdline: String,
    pub user: String,
    pub sha256: Vec<u8>,
    /// In millionths of a bit.
    pub entropy: u32,
    pub is_elevated: bool,
    pub parent_name: Option<String>,
    pub parent_path: Option<String>,
    pub is_signed: bool,
    pub signer: Option<String>,
    pub start_time: u64,
    /// In millionths.
    pub cpu_usage: u32,
    pub memory_bytes: u64,
    pub company_name: Option<String>,
    pub file_description: Option<String>,
    pub product_name: Option<String>,
    pub file_version: Option<String>,
    pub environment: Option<Vec<(String, String)>>,
}

/// A network connection.
pub struct NetworkEvent {
    pub pid: u32,
    pub process_name: String,
    pub local_ip: String,
    pub local_port: u16,
    pub remote_ip: String,
    pub remote_port: u16,
    pub protocol: String,
    pub direction: String,
}

/// An operation on a file.
pub struct FileEvent {
    pub path: String,
    pub old_path: Option<String>,
    pub operation: String,
    pub pid: u32,
    pub process_name: String,
    pub sha256: Vec<u8>,
    pub size: u64,
    /// In millionths of a bit.
    pub entropy: u32,
    pub file_type: String,
}

/// A change in the registry.
pub struct RegistryEvent {
    pub pid: u32,
    pub process_name: String,
    pub key_path: String,
}

/// A name that a process looked up.
pub struct DnsEvent {
    pub pid: u32,
    pub process_name: String,
    pub query: String,
}

/// A region of memory whose protection matters.
pub struct MemoryPermissionEvent {
    pub pid: u32,
    pub process_name: String,
    pub process_path: String,
    pub base_address: u64,
    pub region_size: u64,
    pub old_protection: u32,
    pub new_protection: u32,
    pub old_protection_str: String,
    pub new_protection_str: String,
    pub mem_type: u32,
    pub mem_type_str: String,
    /// In millionths of a bit.
    pub entropy: u32,
    pub transition_type: String,
    pub thread_from_unbacked: bool,
    pub thread_id: Option<u32>,
    pub thread_start_address: Option<u64>,
}

/// What a memory event says.
#[verifier::ext_equal]
pub struct MemoryPermissionModel {
    pub pid: u32,
    pub process_name: Seq<char>,
    pub process_path: Seq<char>,
    pub base_address: u64,
    pub region_size: u64,
    pub old_protection: u32,
    pub new_protection: u32,
    pub old_protection_str: Seq<char>,
    pub new_protection_str: Seq<char>,
    pub mem_type: u32,
    pub mem_type_str: Seq<char>,
    pub entropy: u32,
    pub transition_type: Seq<char>,
    pub thread_from_unbacked: bool,
    pub thread_id: Option<u32>,
    pub thread_start_address: Option<u64>,
}

impl View for MemoryPermissionEvent {
    type V = MemoryPermissionModel;

    open spec fn view(&self) -> MemoryPermissionModel {
        MemoryPermissionModel {
            pid: self.pid,
            process_name: self.process_name@,
            process_path: self.process_path@,
            base_address: self.base_address,
            region_size: self.region_size,
            old_protection: self.old_protection,
            new_protection: self.new_protection,
            old_protection_str: self.old_protection_str@,
            new_protection_str: self.new_protection_str@,
            mem_type: self.mem_type,
            mem_type_str: self.mem_type_str@,
            entropy: self.entropy,
            transition_type: self.transition_type@,
            thread_from_unbacked: self.thread_from_unbacked,
            thread_id: self.thread_id,
            thread_start_address: self.thread_start_address,
        }
    }
}

/// A field of an event of its own kind.
pub enum CustomValue {
    Null,
    Flag(bool),
    Number(u64),
    /// A fraction, in millionths.
    Millionths(u32),
    Text(String),
    Texts(Vec<String>),
}

/// What a field says.
#[verifier::ext_equal]
pub enum CustomModel {
    Null,
    Flag(bool),
    Number(u64),
    Millionths(u32),
    Text(Seq<char>),
    Texts(Seq<Seq<char>>),
}

impl View for CustomValue {
    type V = CustomModel;

    open spec fn view(&self) -> CustomModel {
        match self {
            CustomValue::Null => CustomModel::Null,
            CustomValue::Flag(b) => CustomModel::Flag(*b),
            CustomValue::Number(n) => CustomModel::Number(*n),
            CustomValue::Millionths(n) => CustomModel::Millionths(*n),
            CustomValue::Text(s) => CustomModel::Text(s@),
            CustomValue::Texts(v) => CustomModel::Texts(texts(v@)),
        }
    }
}

/// What the fields of an event of its own kind say.
pub open spec fn fields_view(fields: Seq<(&'static str, CustomValue)>) -> Seq<
    (Seq<char>, CustomModel),
> {
    fields.map_values(|f: (&'static str, CustomValue)| (f.0@, f.1@))
}

/// What kind of event a collector or an analyzer reports.
#[derive(Clone, Copy, Debug, PartialEq, Eq, Structural, Hash)]
pub enum EventType {
    ProcessCreate,
    ProcessInject,
    NetworkConnect,
    FileWrite,
    RegistryModify,
    DnsQuery,
    MemoryScan,
    DefenseEvasion,
    BehavioralRiskScore,
}

/// What an event tells of its subject.
pub enum EventPayload {
    Process(ProcessEvent),
    Network(NetworkEvent),
    File(FileEvent),
    Registry(RegistryEvent),
    Dns(DnsEvent),
    MemoryPermission(MemoryPermissionEvent),
    BehavioralRiskScore(RiskScoreSnapshot),
    Custom(Vec<(&'static str, CustomValue)>),
}

/// Named facts about an event.
pub struct Metadata {
    map: TextMap<String>,
}

impl View for Metadata {
    type V = Map<Seq<char>, Seq<char>>;

    closed spec fn view(&self) -> Map<Seq<char>, Seq<char>> {
        self.map@.map_values(|s: String| s@)
    }
}

impl Clone for Metadata {
    fn clone(&self) -> (r: Metadata)
        ensures
            r@ == self@,
    {
        let mut map: TextMap<String> = TextMap::new();
        let ghost entries = self.map.pairs();
        let mut i: usize = 0;
        while i < self.map.len()
            invariant
                i <= entries.len(),
                entries == self.map.pairs(),
                map@ == crate::textmap::entries_map(entries.take(i as int)),
            decreases entries.len() - i,
        {
            assert(entries.take(i + 1).drop_last() =~= entries.take(i as int));
            map.insert(self.map.key_at(i).to_string(), self.map.value_at(i).clone());
            i += 1;
        }
        assert(entries.take(i as int) =~= entries);
        proof {
            self.map.lemma_view();
        }
        Metadata { map }
    }
}

impl Metadata {
    /// No facts.
    pub fn new() -> (m: Metadata)
        ensures
            m@ == Map::<Seq<char>, Seq<char>>::empty(),
    {
        let m = Metadata { map: TextMap::new() };
        assert(m@ =~= Map::<Seq<char>, Seq<char>>::empty());
        m
    }

    /// Sets a fact.
    pub fn insert(&mut self, key: String, value: String)
        ensures
            final(self)@ == old(self)@.insert(key@, value@),
    {
        self.map.insert(key, value);
        assert(self@ =~= old(self)@.insert(key@, value@));
    }

    /// The fact under a name.
    pub fn get(&self, key: &str) -> (r: Option<&String>)
        ensures
            match r {
                Some(v) => self@.contains_key(key@) && v@ == self@[key@],
                None => !self@.contains_key(key@),
            },
    {
        self.map.get(key)
    }

    /// Whether there is a fact under a name.
    pub fn contains_key(&self, key: &str) -> (r: bool)
        ensures
            r == self@.contains_key(key@),
    {
        self.map.contains_key(key)
    }

    /// The number of facts.
    pub closed spec fn count(&self) -> nat {
        self.map.pairs().len()
    }

    /// The number of facts.
    pub fn len(&self) -> (n: usize)
        ensures
            n == self.count(),
    {
        self.map.len()
    }

    /// The name and the text of the fact at a position.
    pub fn entry(&self, i: usize) -> (r: (&str, &str))
        requires
            i < self.count(),
        ensures
            r.0@ == self.name_at(i as int),
            r.1@ == self.text_at(i as int),
    {
        (self.map.key_at(i), self.map.value_at(i).as_str())
    }

    /// The name of the fact at a position.
    pub closed spec fn name_at(&self, i: int) -> Seq<char> {
        self.map.pairs()[i].0@
    }

    /// The text of the fact at a position.
    pub closed spec fn text_at(&self, i: int) -> Seq<char> {
        self.map.pairs()[i].1@
    }
}

/// An event.
pub struct TelemetryEvent {
    pub event_id: String,
    pub event_type: EventType,
    pub timestamp: u64,
    pub severity: Severity,
    pub payload: EventPayload,
    pub detections: Vec<Detection>,
    pub metadata: Metadata,
}

/// Whether a text has the form of an identifier: digits of base sixteen in groups of
/// eight, four, four, four and twelve, with hyphens between them.
pub open spec fn is_identifier(id: Seq<char>) -> bool {
    &&& id.len() == 36
    &&& forall|i: int|
        0 <= i < 36 ==> if i == 8 || i == 13 || i == 18 || i == 23 {
            #[trigger] id[i] == '-'
        } else {
            '0' <= id[i] <= '9' || 'a' <= id[i] <= 'f'
        }
}

/// Calls `uuid::Uuid::new_v4` and its `Display`: the hyphenated form, in lower case,
/// of random bits. Nothing is promised of the bits.
#[verifier::external_body]
pub(crate) fn fresh_id() -> (id: String)
    ensures
        is_identifier(id@),
{
    uuid::Uuid::new_v4().to_string()
}

/// Reads `std::time::SystemTime::now`: milliseconds since the Unix epoch, zero
/// where the clock stands before it. Nothing is promised of the time.
#[verifier::external_body]
pub(crate) fn current_timestamp() -> (millis: u64)
{
    std::time::SystemTime::now()
        .duration_since(std::time::UNIX_EPOCH)
        .map(|d| d.as_millis() as u64)
        .unwrap_or(0)
}

impl TelemetryEvent {
    /// An event with a fresh identity, stamped with the present time, without
    /// detections and facts.
    pub fn new(event_type: EventType, severity: Severity, payload: EventPayload) -> (r:
        TelemetryEvent)
        ensures
            is_identifier(r.event_id@),
            r.event_type == event_type,
            r.severity == severity,
            r.payload == payload,
            r.detections@ == Seq::<Detection>::empty(),
            r.metadata@ == Map::<Seq<char>, Seq<char>>::empty(),
    {
        TelemetryEvent {
            event_id: fresh_id(),
            event_type,
            timestamp: current_timestamp(),
            severity,
            payload,
            detections: Vec::new(),
            metadata: Metadata::new(),
        }
    }

    /// Attaches a detection.
    pub fn add_detection(&mut self, detection: Detection)
        ensures
            final(self).detections@ == old(self).detections@.push(detection),
            final(self).event_id == old(self).event_id,
            final(self).event_type == old(self).event_type,
            final(self).timestamp == old(self).timestamp,
            final(self).severity == old(self).severity,
            final(self).payload == old(self).payload,
            final(self).metadata == old(self).metadata,
    {
        self.detections.push(detection);
    }
}

} // verus!
