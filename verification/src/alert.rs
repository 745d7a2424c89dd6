//! Alerts.
//!
//! Confidences are in millionths, risk scores in millionths of a point.
use vstd::prelude::*;

use crate::digest::{hex_digits, hex_encode, sha256, sha256_digest};
use crate::ids::{drawn, used, IdSource};
use crate::telemetry::{
    current_timestamp, fresh_id, is_identifier, Detection, DetectionModel, EventPayload, FileEvent, Metadata,
    NetworkEvent, ProcessEvent, Severity, TelemetryEvent,
};
use crate::text::{
    copies, decimal, decimal_text, join, joined, opt_copy, opt_text, push_text, texts,
};

verus! {

/// How severe an alert is.
#[derive(Clone, Copy, Debug, PartialEq, Eq, Structural, PartialOrd, Ord, Hash)]
pub enum AlertSeverity {
    /// For the record.
    Info,
    /// Minor.
    Low,
    /// To be looked into.
    Medium,
    /// A threat is active.
    High,
    /// To be answered at once.
    Critical,
}

/// How high a severity stands.
pub open spec fn level(severity: AlertSeverity) -> u8 {
    match severity {
        AlertSeverity::Info => 0,
        AlertSeverity::Low => 1,
        AlertSeverity::Medium => 2,
        AlertSeverity::High => 3,
        AlertSeverity::Critical => 4,
    }
}

/// What a severity weighs, in millionths.
pub open spec fn severity_weight(severity: AlertSeverity) -> u32 {
    match severity {
        AlertSeverity::Info => 100_000,
        AlertSeverity::Low => 250_000,
        AlertSeverity::Medium => 500_000,
        AlertSeverity::High => 750_000,
        AlertSeverity::Critical => 1_000_000,
    }
}

/// What a severity is called.
pub open spec fn severity_name(severity: AlertSeverity) -> Seq<char> {
    match severity {
        AlertSeverity::Info => "Info"@,
        AlertSeverity::Low => "Low"@,
        AlertSeverity::Medium => "Medium"@,
        AlertSeverity::High => "High"@,
        AlertSeverity::Critical => "Critical"@,
    }
}

/// The severity of an alert on an event.
pub open spec fn event_severity(severity: Severity) -> AlertSeverity {
    match severity {
        Severity::Info => AlertSeverity::Info,
        Severity::Low => AlertSeverity::Low,
        Severity::Medium => AlertSeverity::Medium,
        Severity::High => AlertSeverity::High,
        Severity::Critical => AlertSeverity::Critical,
    }
}

impl AlertSeverity {
    /// What the severity weighs, in millionths.
    pub fn weight(&self) -> (r: u32)
        ensures
            r == severity_weight(*self),
    {
        match self {
            AlertSeverity::Info => 100_000,
            AlertSeverity::Low => 250_000,
            AlertSeverity::Medium => 500_000,
            AlertSeverity::High => 750_000,
            AlertSeverity::Critical => 1_000_000,
        }
    }

    /// How high the severity stands.
    pub fn level(&self) -> (r: u8)
        ensures
            r == level(*self),
    {
        match self {
            AlertSeverity::Info => 0,
            AlertSeverity::Low => 1,
            AlertSeverity::Medium => 2,
            AlertSeverity::High => 3,
            AlertSeverity::Critical => 4,
        }
    }

    /// What the severity is called.
    pub fn name(&self) -> (r: &'static str)
        ensures
            r@ == severity_name(*self),
    {
        match self {
            AlertSeverity::Info => "Info",
            AlertSeverity::Low => "Low",
            AlertSeverity::Medium => "Medium",
            AlertSeverity::High => "High",
            AlertSeverity::Critical => "Critical",
        }
    }

    /// The severity of an alert on an event.
    pub fn from_detection_severity(severity: &Severity) -> (r: AlertSeverity)
        ensures
            r == event_severity(*severity),
    {
        match severity {
            Severity::Info => AlertSeverity::Info,
            Severity::Low => AlertSeverity::Low,
            Severity::Medium => AlertSeverity::Medium,
            Severity::High => AlertSeverity::High,
            Severity::Critical => AlertSeverity::Critical,
        }
    }
}

impl Default for AlertSeverity {
    fn default() -> (r: AlertSeverity)
        ensures
            r == AlertSeverity::Medium,
    {
        AlertSeverity::Medium
    }
}

/// A severity that stands higher weighs more.
pub proof fn law_weight_follows_level(a: AlertSeverity, b: AlertSeverity)
    ensures
        level(a) < level(b) <==> severity_weight(a) < severity_weight(b),
        level(a) == level(b) <==> a == b,
{
}

/// Where an alert stands.
#[derive(Clone, Copy, Debug, PartialEq, Eq, Structural, Hash)]
pub enum AlertStatus {
    /// Just raised.
    New,
    /// Seen.
    Acknowledged,
    /// Being looked into.
    Investigating,
    /// Done with.
    Resolved,
    /// Raised for nothing.
    FalsePositive,
    /// Passed on.
    Escalated,
}

impl Default for AlertStatus {
    fn default() -> (r: AlertStatus)
        ensures
            r == AlertStatus::New,
    {
        AlertStatus::New
    }
}

/// The process that an alert is about.
pub struct ProcessContext {
    pub pid: u32,
    pub ppid: u32,
    pub name: String,
    pub path: String,
    pub cmdline: String,
    pub user: String,
    pub sha256: String,
    pub parent_name: Option<String>,
    pub parent_path: Option<String>,
    pub is_elevated: bool,
    pub is_signed: bool,
    pub signer: Option<String>,
}

/// What a process context says.
#[verifier::ext_equal]
pub struct ProcessModel {
    pub pid: u32,
    pub ppid: u32,
    pub name: Seq<char>,
    pub path: Seq<char>,
    pub cmdline: Seq<char>,
    pub user: Seq<char>,
    pub sha256: Seq<char>,
    pub parent_name: Option<Seq<char>>,
    pub parent_path: Option<Seq<char>>,
    pub is_elevated: bool,
    pub is_signed: bool,
    pub signer: Option<Seq<char>>,
}

impl View for ProcessContext {
    type V = ProcessModel;

    open spec fn view(&self) -> ProcessModel {
        ProcessModel {
            pid: self.pid,
            ppid: self.ppid,
            name: self.name@,
            path: self.path@,
            cmdline: self.cmdline@,
            user: self.user@,
            sha256: self.sha256@,
            parent_name: opt_text(self.parent_name),
            parent_path: opt_text(self.parent_path),
            is_elevated: self.is_elevated,
            is_signed: self.is_signed,
            signer: opt_text(self.signer),
        }
    }
}

impl Clone for ProcessContext {
    fn clone(&self) -> (r: ProcessContext)
        ensures
            r@ == self@,
    {
        ProcessContext {
            pid: self.pid,
            ppid: self.ppid,
            name: self.name.clone(),
            path: self.path.clone(),
            cmdline: self.cmdline.clone(),
            user: self.user.clone(),
            sha256: self.sha256.clone(),
            parent_name: opt_copy(&self.parent_name),
            parent_path: opt_copy(&self.parent_path),
            is_elevated: self.is_elevated,
            is_signed: self.is_signed,
            signer: opt_copy(&self.signer),
        }
    }
}

/// The connection that an alert is about.
pub struct NetworkContext {
    pub pid: u32,
    pub process_name: String,
    pub local_ip: String,
    pub local_port: u16,
    pub remote_ip: String,
    pub remote_port: u16,
    pub protocol: String,
    pub direction: String,
}

/// What a network context says.
#[verifier::ext_equal]
pub struct NetworkModel {
    pub pid: u32,
    pub process_name: Seq<char>,
    pub local_ip: Seq<char>,
    pub local_port: u16,
    pub remote_ip: Seq<char>,
    pub remote_port: u16,
    pub protocol: Seq<char>,
    pub direction: Seq<char>,
}

impl View for NetworkContext {
    type V = NetworkModel;

    open spec fn view(&self) -> NetworkModel {
        NetworkModel {
            pid: self.pid,
            process_name: self.process_name@,
            local_ip: self.local_ip@,
            local_port: self.local_port,
            remote_ip: self.remote_ip@,
            remote_port: self.remote_port,
            protocol: self.protocol@,
            direction: self.direction@,
        }
    }
}

impl Clone for NetworkContext {
    fn clone(&self) -> (r: NetworkContext)
        ensures
            r@ == self@,
    {
        NetworkContext {
            pid: self.pid,
            process_name: self.process_name.clone(),
            local_ip: self.local_ip.clone(),
            local_port: self.local_port,
            remote_ip: self.remote_ip.clone(),
            remote_port: self.remote_port,
            protocol: self.protocol.clone(),
            direction: self.direction.clone(),
        }
    }
}

/// The file that an alert is about.
pub struct FileContext {
    pub path: String,
    pub old_path: Option<String>,
    pub operation: String,
    pub pid: u32,
    pub process_name: String,
    pub sha256: String,
    pub size: u64,
    /// In millionths of a bit.
    pub entropy: u32,
    pub file_type: String,
}

/// What a file context says.
#[verifier::ext_equal]
pub struct FileModel {
    pub path: Seq<char>,
    pub old_path: Option<Seq<char>>,
    pub operation: Seq<char>,
    pub pid: u32,
    pub process_name: Seq<char>,
    pub sha256: Seq<char>,
    pub size: u64,
    pub entropy: u32,
    pub file_type: Seq<char>,
}

impl View for FileContext {
    type V = FileModel;

    open spec fn view(&self) -> FileModel {
        FileModel {
            path: self.path@,
            old_path: opt_text(self.old_path),
            operation: self.operation@,
            pid: self.pid,
            process_name: self.process_name@,
            sha256: self.sha256@,
            size: self.size,
            entropy: self.entropy,
            file_type: self.file_type@,
        }
    }
}

impl Clone for FileContext {
    fn clone(&self) -> (r: FileContext)
        ensures
            r@ == self@,
    {
        FileContext {
            path: self.path.clone(),
            old_path: opt_copy(&self.old_path),
            operation: self.operation.clone(),
            pid: self.pid,
            process_name: self.process_name.clone(),
            sha256: self.sha256.clone(),
            size: self.size,
            entropy: self.entropy,
            file_type: self.file_type.clone(),
        }
    }
}

/// Where an alert stands in the ATT&CK catalogue.
pub struct MitreMapping {
    pub tactics: Vec<String>,
    pub techniques: Vec<String>,
    pub sub_techniques: Vec<String>,
}

/// What a mapping says.
#[verifier::ext_equal]
pub struct MappingModel {
    pub tactics: Seq<Seq<char>>,
    pub techniques: Seq<Seq<char>>,
    pub sub_techniques: Seq<Seq<char>>,
}

impl View for MitreMapping {
    type V = MappingModel;

    open spec fn view(&self) -> MappingModel {
        MappingModel {
            tactics: texts(self.tactics@),
            techniques: texts(self.techniques@),
            sub_techniques: texts(self.sub_techniques@),
        }
    }
}

impl Clone for MitreMapping {
    fn clone(&self) -> (r: MitreMapping)
        ensures
            r@ == self@,
    {
        MitreMapping {
            tactics: copies(&self.tactics),
            techniques: copies(&self.techniques),
            sub_techniques: copies(&self.sub_techniques),
        }
    }
}

/// The mapping that says nothing.
pub open spec fn no_mapping() -> MappingModel {
    MappingModel {
        tactics: Seq::empty(),
        techniques: Seq::empty(),
        sub_techniques: Seq::empty(),
    }
}

impl Default for MitreMapping {
    fn default() -> (r: MitreMapping)
        ensures
            r@ == no_mapping(),
    {
        let r = MitreMapping {
            tactics: Vec::new(),
            techniques: Vec::new(),
            sub_techniques: Vec::new(),
        };
        assert(texts(r.tactics@) =~= Seq::empty());
        assert(texts(r.techniques@) =~= Seq::empty());
        assert(texts(r.sub_techniques@) =~= Seq::empty());
        r
    }
}

/// What threat intelligence says of an alert.
pub struct ThreatIntelContext {
    pub source: String,
    pub indicator_type: String,
    pub indicator_value: String,
    /// In millionths.
    pub confidence: u32,
    pub tags: Vec<String>,
    pub related_campaigns: Vec<String>,
    pub related_actors: Vec<String>,
}

/// What a context says.
#[verifier::ext_equal]
pub struct IntelModel {
    pub source: Seq<char>,
    pub indicator_type: Seq<char>,
    pub indicator_value: Seq<char>,
    pub confidence: u32,
    pub tags: Seq<Seq<char>>,
    pub related_campaigns: Seq<Seq<char>>,
    pub related_actors: Seq<Seq<char>>,
}

impl View for ThreatIntelContext {
    type V = IntelModel;

    open spec fn view(&self) -> IntelModel {
        IntelModel {
            source: self.source@,
            indicator_type: self.indicator_type@,
            indicator_value: self.indicator_value@,
            confidence: self.confidence,
            tags: texts(self.tags@),
            related_campaigns: texts(self.related_campaigns@),
            related_actors: texts(self.related_actors@),
        }
    }
}

impl Clone for ThreatIntelContext {
    fn clone(&self) -> (r: ThreatIntelContext)
        ensures
            r@ == self@,
    {
        ThreatIntelContext {
            source: self.source.clone(),
            indicator_type: self.indicator_type.clone(),
            indicator_value: self.indicator_value.clone(),
            confidence: self.confidence,
            tags: copies(&self.tags),
            related_campaigns: copies(&self.related_campaigns),
            related_actors: copies(&self.related_actors),
        }
    }
}

/// What a process context says, if there is one.
pub open spec fn process_view(o: Option<ProcessContext>) -> Option<ProcessModel> {
    match o {
        Some(x) => Some(x@),
        None => None,
    }
}

/// What a network context says, if there is one.
pub open spec fn network_view(o: Option<NetworkContext>) -> Option<NetworkModel> {
    match o {
        Some(x) => Some(x@),
        None => None,
    }
}

/// What a file context says, if there is one.
pub open spec fn file_view(o: Option<FileContext>) -> Option<FileModel> {
    match o {
        Some(x) => Some(x@),
        None => None,
    }
}

/// What threat intelligence says, if anything.
pub open spec fn intel_view(o: Option<ThreatIntelContext>) -> Option<IntelModel> {
    match o {
        Some(x) => Some(x@),
        None => None,
    }
}

/// What a detection says, if there is one.
pub open spec fn detection_view(o: Option<Detection>) -> Option<DetectionModel> {
    match o {
        Some(x) => Some(x@),
        None => None,
    }
}

/// An alert.
pub struct Alert {
    pub alert_id: String,
    pub title: String,
    pub description: String,
    pub severity: AlertSeverity,
    pub status: AlertStatus,
    /// In milliseconds.
    pub created_at: u64,
    /// In milliseconds.
    pub updated_at: u64,
    /// The detection that raised it, if one did.
    pub source_detection: Option<Detection>,
    pub related_event_ids: Vec<String>,
    pub related_alert_ids: Vec<String>,
    pub process_context: Option<ProcessContext>,
    pub network_context: Option<NetworkContext>,
    pub file_context: Option<FileContext>,
    pub mitre_mapping: MitreMapping,
    pub threat_intel: Option<ThreatIntelContext>,
    /// In millionths of a point.
    pub risk_score: u64,
    /// In millionths.
    pub confidence: u32,
    pub auto_response_triggered: bool,
    pub auto_response_actions: Vec<String>,
    /// How many alerts like it were held back.
    pub suppression_count: u32,
    pub tags: Vec<String>,
    pub metadata: Metadata,
}

/// What an alert says.
#[verifier::ext_equal]
pub struct AlertModel {
    pub alert_id: Seq<char>,
    pub title: Seq<char>,
    pub description: Seq<char>,
    pub severity: AlertSeverity,
    pub status: AlertStatus,
    pub created_at: u64,
    pub updated_at: u64,
    pub source_detection: Option<DetectionModel>,
    pub related_event_ids: Seq<Seq<char>>,
    pub related_alert_ids: Seq<Seq<char>>,
    pub process_context: Option<ProcessModel>,
    pub network_context: Option<NetworkModel>,
    pub file_context: Option<FileModel>,
    pub mitre_mapping: MappingModel,
    pub threat_intel: Option<IntelModel>,
    pub risk_score: u64,
    pub confidence: u32,
    pub auto_response_triggered: bool,
    pub auto_response_actions: Seq<Seq<char>>,
    pub suppression_count: u32,
    pub tags: Seq<Seq<char>>,
    pub metadata: Map<Seq<char>, Seq<char>>,
}

impl View for Alert {
    type V = AlertModel;

    open spec fn view(&self) -> AlertModel {
        AlertModel {
            alert_id: self.alert_id@,
            title: self.title@,
            description: self.description@,
            severity: self.severity,
            status: self.status,
            created_at: self.created_at,
            updated_at: self.updated_at,
            source_detection: detection_view(self.source_detection),
            related_event_ids: texts(self.related_event_ids@),
            related_alert_ids: texts(self.related_alert_ids@),
            process_context: process_view(self.process_context),
            network_context: network_view(self.network_context),
            file_context: file_view(self.file_context),
            mitre_mapping: self.mitre_mapping@,
            threat_intel: intel_view(self.threat_intel),
            risk_score: self.risk_score,
            confidence: self.confidence,
            auto_response_triggered: self.auto_response_triggered,
            auto_response_actions: texts(self.auto_response_actions@),
            suppression_count: self.suppression_count,
            tags: texts(self.tags@),
            metadata: self.metadata@,
        }
    }
}

impl Clone for Alert {
    fn clone(&self) -> (r: Alert)
        ensures
            r@ == self@,
    {
        Alert {
            alert_id: self.alert_id.clone(),
            title: self.title.clone(),
            description: self.description.clone(),
            severity: self.severity,
            status: self.status,
            created_at: self.created_at,
            updated_at: self.updated_at,
            source_detection: match &self.source_detection {
                Some(x) => Some(x.clone()),
                None => None,
            },
            related_event_ids: copies(&self.related_event_ids),
            related_alert_ids: copies(&self.related_alert_ids),
            process_context: match &self.process_context {
                Some(x) => Some(x.clone()),
                None => None,
            },
            network_context: match &self.network_context {
                Some(x) => Some(x.clone()),
                None => None,
            },
            file_context: match &self.file_context {
                Some(x) => Some(x.clone()),
                None => None,
            },
            mitre_mapping: self.mitre_mapping.clone(),
            threat_intel: match &self.threat_intel {
                Some(x) => Some(x.clone()),
                None => None,
            },
            risk_score: self.risk_score,
            confidence: self.confidence,
            auto_response_triggered: self.auto_response_triggered,
            auto_response_actions: copies(&self.auto_response_actions),
            suppression_count: self.suppression_count,
            tags: copies(&self.tags),
            metadata: self.metadata.clone(),
        }
    }
}

/// What an alert says.
pub open spec fn of_alert() -> spec_fn(Alert) -> AlertModel {
    |a: Alert| a@
}

/// What some alerts say.
pub open spec fn alerts_view(alerts: Seq<Alert>) -> Seq<AlertModel> {
    alerts.map_values(of_alert())
}

/// What an alert says, if there is one.
pub open spec fn alert_view(alert: Option<Alert>) -> Option<AlertModel> {
    match alert {
        Some(a) => Some(a@),
        None => None,
    }
}

/// An alert that says no more than its title, its description and its severity.
pub open spec fn bare_alert(
    id: Seq<char>,
    title: Seq<char>,
    description: Seq<char>,
    severity: AlertSeverity,
    now: u64,
) -> AlertModel {
    AlertModel {
        alert_id: id,
        title,
        description,
        severity,
        status: AlertStatus::New,
        created_at: now,
        updated_at: now,
        source_detection: None,
        related_event_ids: Seq::empty(),
        related_alert_ids: Seq::empty(),
        process_context: None,
        network_context: None,
        file_context: None,
        mitre_mapping: no_mapping(),
        threat_intel: None,
        risk_score: 0,
        confidence: 500_000,
        auto_response_triggered: false,
        auto_response_actions: Seq::empty(),
        suppression_count: 0,
        tags: Seq::empty(),
        metadata: Map::empty(),
    }
}

/// What an alert says of a process.
pub open spec fn process_context(p: ProcessEvent) -> ProcessModel {
    ProcessModel {
        pid: p.pid,
        ppid: p.ppid,
        name: p.name@,
        path: p.path@,
        cmdline: p.cmdline@,
        user: p.user@,
        sha256: hex_digits(p.sha256@),
        parent_name: opt_text(p.parent_name),
        parent_path: opt_text(p.parent_path),
        is_elevated: p.is_elevated,
        is_signed: p.is_signed,
        signer: opt_text(p.signer),
    }
}

/// What an alert says of a connection.
pub open spec fn network_context(n: NetworkEvent) -> NetworkModel {
    NetworkModel {
        pid: n.pid,
        process_name: n.process_name@,
        local_ip: n.local_ip@,
        local_port: n.local_port,
        remote_ip: n.remote_ip@,
        remote_port: n.remote_port,
        protocol: n.protocol@,
        direction: n.direction@,
    }
}

/// What an alert says of a file.
pub open spec fn file_context(f: FileEvent) -> FileModel {
    FileModel {
        path: f.path@,
        old_path: opt_text(f.old_path),
        operation: f.operation@,
        pid: f.pid,
        process_name: f.process_name@,
        sha256: hex_digits(f.sha256@),
        size: f.size,
        entropy: f.entropy,
        file_type: f.file_type@,
    }
}

/// An alert with what an event tells of its subject.
pub open spec fn with_context(alert: AlertModel, payload: EventPayload) -> AlertModel {
    match payload {
        EventPayload::Process(p) => AlertModel {
            process_context: Some(process_context(p)),
            ..alert
        },
        EventPayload::Network(n) => AlertModel {
            network_context: Some(network_context(n)),
            ..alert
        },
        EventPayload::File(f) => AlertModel { file_context: Some(file_context(f)), ..alert },
        _ => alert,
    }
}

/// The alert that a detection on an event raises.
pub open spec fn detection_alert(
    id: Seq<char>,
    event: TelemetryEvent,
    d: DetectionModel,
    now: u64,
) -> AlertModel {
    with_context(
        AlertModel {
            source_detection: Some(d),
            related_event_ids: seq![event.event_id@],
            confidence: d.confidence,
            mitre_mapping: MappingModel {
                tactics: d.mitre_tactics,
                techniques: d.mitre_techniques,
                sub_techniques: Seq::empty(),
            },
            ..bare_alert(id, d.rule_name, d.description, event_severity(event.severity), now)
        },
        event.payload,
    )
}

/// What tells alerts apart that are not repetitions of one another.
pub open spec fn fingerprint_parts(a: AlertModel) -> Seq<Seq<char>> {
    seq![a.title, severity_name(a.severity)] + (match a.process_context {
        Some(p) => seq![p.path, p.sha256],
        None => Seq::empty(),
    }) + (match a.network_context {
        Some(n) => seq![n.remote_ip + ":"@ + decimal(n.remote_port as nat)],
        None => Seq::empty(),
    }) + (match a.file_context {
        Some(f) => seq![f.path, f.sha256],
        None => Seq::empty(),
    })
}

/// The fingerprint of an alert: alerts with one fingerprint are repetitions of one
/// another.
pub open spec fn fingerprint(a: AlertModel) -> Seq<char> {
    hex_digits(sha256(vstd::utf8::encode_utf8(joined(fingerprint_parts(a), "|"@))))
}

/// Alerts with the same title, severity and subject have the same fingerprint,
/// whatever else they say.
pub proof fn law_fingerprint_is_of_the_subject(a: AlertModel, b: AlertModel)
    requires
        a.title == b.title,
        a.severity == b.severity,
        a.process_context == b.process_context,
        a.network_context == b.network_context,
        a.file_context == b.file_context,
    ensures
        fingerprint(a) == fingerprint(b),
{
}

impl Alert {
    /// An alert that says no more than its title, its description and its severity.
    pub fn new_as(
        id: String,
        title: String,
        description: String,
        severity: AlertSeverity,
        now: u64,
    ) -> (r: Alert)
        ensures
            r@ == bare_alert(id@, title@, description@, severity, now),
    {
        let r = Alert {
            alert_id: id,
            title,
            description,
            severity,
            status: AlertStatus::New,
            created_at: now,
            updated_at: now,
            source_detection: None,
            related_event_ids: Vec::new(),
            related_alert_ids: Vec::new(),
            process_context: None,
            network_context: None,
            file_context: None,
            mitre_mapping: MitreMapping::default(),
            threat_intel: None,
            risk_score: 0,
            confidence: 500_000,
            auto_response_triggered: false,
            auto_response_actions: Vec::new(),
            suppression_count: 0,
            tags: Vec::new(),
            metadata: Metadata::new(),
        };
        assert(texts(r.related_event_ids@) =~= Seq::empty());
        assert(texts(r.related_alert_ids@) =~= Seq::empty());
        assert(texts(r.auto_response_actions@) =~= Seq::empty());
        assert(texts(r.tags@) =~= Seq::empty());
        r
    }

    /// An alert with a random identifier, raised now.
    pub fn new(title: String, description: String, severity: AlertSeverity) -> (r: Alert)
        ensures
            r@ == bare_alert(r.alert_id@, title@, description@, severity, r.created_at),
            is_identifier(r.alert_id@),
    {
        Alert::new_as(fresh_id(), title, description, severity, current_timestamp())
    }

    /// The alert that a detection on an event raises.
    pub fn from_detection_as(
        id: String,
        event: &TelemetryEvent,
        detection: &Detection,
        now: u64,
    ) -> (r: Alert)
        ensures
            r@ == detection_alert(id@, *event, detection@, now),
    {
        let severity = AlertSeverity::from_detection_severity(&event.severity);
        let mut alert = Alert::new_as(
            id,
            detection.rule_name.clone(),
            detection.description.clone(),
            severity,
            now,
        );
        alert.source_detection = Some(detection.clone());
        push_text(&mut alert.related_event_ids, event.event_id.clone());
        alert.confidence = detection.confidence;
        let sub_techniques: Vec<String> = Vec::new();
        assert(texts(sub_techniques@) =~= Seq::empty());
        alert.mitre_mapping = MitreMapping {
            tactics: copies(&detection.mitre_tactics),
            techniques: copies(&detection.mitre_techniques),
            sub_techniques,
        };
        alert.take_context(&event.payload);
        assert(alert@ =~= detection_alert(id@, *event, detection@, now));
        alert
    }

    /// The alert that a detection on an event raises now, with a random identifier.
    pub fn from_detection(event: &TelemetryEvent, detection: &Detection) -> (r: Alert)
        ensures
            r@ == detection_alert(r.alert_id@, *event, detection@, r.created_at),
            is_identifier(r.alert_id@),
    {
        Alert::from_detection_as(fresh_id(), event, detection, current_timestamp())
    }

    /// Takes over what an event tells of its subject.
    pub fn take_context(&mut self, payload: &EventPayload)
        ensures
            final(self)@ == with_context(old(self)@, *payload),
    {
        match payload {
            EventPayload::Process(p) => {
                self.process_context = Some(
                    ProcessContext {
                        pid: p.pid,
                        ppid: p.ppid,
                        name: p.name.clone(),
                        path: p.path.clone(),
                        cmdline: p.cmdline.clone(),
                        user: p.user.clone(),
                        sha256: hex_encode(p.sha256.as_slice()),
                        parent_name: opt_copy(&p.parent_name),
                        parent_path: opt_copy(&p.parent_path),
                        is_elevated: p.is_elevated,
                        is_signed: p.is_signed,
                        signer: opt_copy(&p.signer),
                    },
                );
            },
            EventPayload::Network(n) => {
                self.network_context = Some(
                    NetworkContext {
                        pid: n.pid,
                        process_name: n.process_name.clone(),
                        local_ip: n.local_ip.clone(),
                        local_port: n.local_port,
                        remote_ip: n.remote_ip.clone(),
                        remote_port: n.remote_port,
                        protocol: n.protocol.clone(),
                        direction: n.direction.clone(),
                    },
                );
            },
            EventPayload::File(f) => {
                self.file_context = Some(
                    FileContext {
                        path: f.path.clone(),
                        old_path: opt_copy(&f.old_path),
                        operation: f.operation.clone(),
                        pid: f.pid,
                        process_name: f.process_name.clone(),
                        sha256: hex_encode(f.sha256.as_slice()),
                        size: f.size,
                        entropy: f.entropy,
                        file_type: f.file_type.clone(),
                    },
                );
            },
            _ => {},
        }
    }

    /// The fingerprint of the alert.
    pub fn fingerprint(&self) -> (r: String)
        ensures
            r@ == fingerprint(self@),
    {
        let ghost goal = fingerprint_parts(self@);
        let mut parts: Vec<String> = Vec::new();
        parts.push(self.title.clone());
        parts.push(self.severity.name().to_string());
        match &self.process_context {
            Some(p) => {
                parts.push(p.path.clone());
                parts.push(p.sha256.clone());
            },
            None => {},
        }
        match &self.network_context {
            Some(n) => {
                parts.push(
                    n.remote_ip.clone().concat(":").concat(
                        decimal_text(n.remote_port as u64).as_str(),
                    ),
                );
            },
            None => {},
        }
        match &self.file_context {
            Some(f) => {
                parts.push(f.path.clone());
                parts.push(f.sha256.clone());
            },
            None => {},
        }
        assert(texts(parts@) =~= goal);
        let line = join(&parts, "|");
        let digest = sha256_digest(line.as_str().as_bytes());
        hex_encode(digest.as_slice())
    }
}

/// An alert under another identifier.
pub open spec fn with_id(alert: AlertModel, id: Seq<char>) -> AlertModel {
    AlertModel { alert_id: id, ..alert }
}

/// Some alerts under identifiers of their own.
pub open spec fn with_ids(alerts: Seq<AlertModel>, ids: Seq<Seq<char>>) -> Seq<AlertModel> {
    Seq::new(alerts.len(), |i: int| with_id(alerts[i], ids[i]))
}

/// Gives each of some alerts an identifier of its own.
pub fn assign_ids(alerts: Vec<Alert>, ids: &mut IdSource) -> (r: Vec<Alert>)
    ensures
        drawn(*old(ids), *final(ids)),
        used(*old(ids), *final(ids)).len() == alerts@.len(),
        alerts_view(r@) == with_ids(alerts_view(alerts@), used(*old(ids), *final(ids))),
{
    let ghost all = alerts_view(alerts@);
    let ghost before = *ids;
    let mut rest = alerts;
    let mut r: Vec<Alert> = Vec::new();
    let n: usize = rest.len();
    let mut i: usize = 0;
    proof {
        crate::ids::lemma_nothing_drawn(before);
        assert(all.skip(0) =~= all);
        assert(alerts_view(r@) =~= with_ids(all.take(0), used(before, *ids)));
    }
    while i < n
        invariant
            i <= n,
            n == all.len(),
            alerts_view(rest@) == all.skip(i as int),
            drawn(before, *ids),
            used(before, *ids).len() == i,
            alerts_view(r@) == with_ids(all.take(i as int), used(before, *ids)),
        decreases n - i,
    {
        let ghost middle = *ids;
        let ghost seen = alerts_view(r@);
        let ghost left = rest@;
        assert(alerts_view(left).len() == left.len());
        assert(alerts_view(left)[0] == all[i as int]);
        let mut alert = rest.remove(0);
        proof {
            assert(alert@ == all[i as int]);
            assert forall|k: int| 0 <= k < rest@.len() implies alerts_view(rest@)[k] == all.skip(
                i + 1,
            )[k] by {
                assert(rest@[k] == left[k + 1]);
                assert(alerts_view(left)[k + 1] == all.skip(i as int)[k + 1]);
            }
            assert(alerts_view(rest@) =~= all.skip(i + 1));
        }
        let id = ids.draw();
        alert.alert_id = id;
        proof {
            crate::ids::lemma_drawn_twice(before, middle, *ids);
            let now = used(before, *ids);
            assert(now == used(before, middle).push(id@));
            assert(alert@ == with_id(all[i as int], now[i as int]));
        }
        r.push(alert);
        proof {
            let now = used(before, *ids);
            assert(alerts_view(r@) =~= seen.push(alert@));
            assert(alerts_view(r@) =~= with_ids(all.take(i + 1), now));
        }
        i += 1;
    }
    assert(all.take(n as int) =~= all);
    r
}

/// The severities stand one above the other, and the severity of an alert on an event is
/// the one of the event.
pub proof fn law_severities_are_ordered(severity: Severity)
    ensures
        level(AlertSeverity::Info) < level(AlertSeverity::Low),
        level(AlertSeverity::Low) < level(AlertSeverity::Medium),
        level(AlertSeverity::Medium) < level(AlertSeverity::High),
        level(AlertSeverity::High) < level(AlertSeverity::Critical),
        event_severity(severity) == AlertSeverity::Critical <==> severity == Severity::Critical,
        event_severity(severity) == AlertSeverity::High <==> severity == Severity::High,
        event_severity(severity) == AlertSeverity::Medium <==> severity == Severity::Medium,
        event_severity(severity) == AlertSeverity::Low <==> severity == Severity::Low,
        event_severity(severity) == AlertSeverity::Info <==> severity == Severity::Info,
{
}

/// An alert on a detection says what the detection says, names its event, and tells of the
/// process, the connection or the file that the event is about.
pub proof fn law_alerts_say_what_was_detected(
    id: Seq<char>,
    event: TelemetryEvent,
    d: DetectionModel,
    now: u64,
)
    ensures
        ({
            let a = detection_alert(id, event, d, now);
            &&& a.alert_id == id
            &&& a.title == d.rule_name
            &&& a.description == d.description
            &&& a.confidence == d.confidence
            &&& a.severity == event_severity(event.severity)
            &&& a.source_detection == Some(d)
            &&& a.mitre_mapping.tactics == d.mitre_tactics
            &&& a.mitre_mapping.techniques == d.mitre_techniques
            &&& a.related_event_ids == seq![event.event_id@]
            &&& a.status == AlertStatus::New
            &&& a.created_at == now
            &&& a.process_context is Some <==> event.payload is Process
            &&& a.network_context is Some <==> event.payload is Network
            &&& a.file_context is Some <==> event.payload is File
            &&& event.payload matches EventPayload::Process(p) ==> a.process_context->0.pid == p.pid
                && a.process_context->0.name == p.name@ && a.process_context->0.path == p.path@
                && a.process_context->0.cmdline == p.cmdline@
            &&& event.payload matches EventPayload::Network(n) ==> a.network_context->0.remote_ip
                == n.remote_ip@ && a.network_context->0.remote_port == n.remote_port
            &&& event.payload matches EventPayload::File(f) ==> a.file_context->0.path == f.path@
        }),
{
}

} // verus!
