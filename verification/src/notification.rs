//! What goes out over the channels that carry alerts.
use vstd::prelude::*;

use crate::alert::{level, AlertModel, Alert, AlertSeverity};
use crate::text::{decimal, decimal_text, round_to, rounded};

verus! {

/// A channel to the event log of Windows.
#[derive(Debug)]
pub struct WindowsEventLogChannel {
    /// The name under which entries are made.
    pub source_name: String,
}

/// A channel to the log of the system.
#[derive(Debug)]
pub struct SyslogChannel {
    /// The facility under which entries are made.
    pub facility: String,
}

/// A channel to a file.
#[derive(Debug)]
pub struct FileChannel {
    /// The file.
    pub path: String,
}

/// A channel that carries alerts.
#[derive(Debug)]
pub enum ChannelKind {
    /// To the server.
    WebSocket,
    /// To the event log of Windows.
    WindowsEventLog(WindowsEventLogChannel),
    /// To the log of the system.
    Syslog(SyslogChannel),
    /// To a file.
    File(FileChannel),
}

/// What a channel is.
#[verifier::ext_equal]
pub enum ChannelModel {
    WebSocket,
    WindowsEventLog { source_name: Seq<char> },
    Syslog { facility: Seq<char> },
    File { path: Seq<char> },
}

impl View for ChannelKind {
    type V = ChannelModel;

    open spec fn view(&self) -> ChannelModel {
        match self {
            ChannelKind::WebSocket => ChannelModel::WebSocket,
            ChannelKind::WindowsEventLog(c) => ChannelModel::WindowsEventLog {
                source_name: c.source_name@,
            },
            ChannelKind::Syslog(c) => ChannelModel::Syslog { facility: c.facility@ },
            ChannelKind::File(c) => ChannelModel::File { path: c.path@ },
        }
    }
}

/// What some channels are.
pub open spec fn channels_view(channels: Seq<ChannelKind>) -> Seq<ChannelModel> {
    channels.map_values(|c: ChannelKind| c@)
}

/// What a channel is called.
pub open spec fn channel_name(channel: ChannelModel) -> Seq<char> {
    match channel {
        ChannelModel::WebSocket => "websocket"@,
        ChannelModel::WindowsEventLog { .. } => "windows_event_log"@,
        ChannelModel::Syslog { .. } => "syslog"@,
        ChannelModel::File { .. } => "file"@,
    }
}

impl ChannelKind {
    /// What the channel is called.
    pub fn name(&self) -> (r: &'static str)
        ensures
            r@ == channel_name(self@),
    {
        match self {
            ChannelKind::WebSocket => "websocket",
            ChannelKind::WindowsEventLog(_) => "windows_event_log",
            ChannelKind::Syslog(_) => "syslog",
            ChannelKind::File(_) => "file",
        }
    }
}

impl FileChannel {
    /// A channel to a file.
    pub fn new(path: &str) -> (r: FileChannel)
        ensures
            r.path@ == path@,
    {
        FileChannel { path: path.to_string() }
    }
}

/// A confidence in whole per cent.
pub open spec fn per_cent(confidence: u32) -> Seq<char> {
    decimal(rounded(confidence as nat, 10_000)) + "%"@
}

fn per_cent_text(confidence: u32) -> (r: String)
    ensures
        r@ == per_cent(confidence),
{
    decimal_text(round_to(confidence as u64, 10_000)).concat("%")
}

/// An entry for the event log of Windows.
#[derive(Debug)]
pub struct EventLogEntry {
    pub source_name: String,
    pub event_type: &'static str,
    pub event_id: u32,
    pub message: String,
}

/// The type of the entry for a severity.
pub open spec fn log_type(severity: AlertSeverity) -> Seq<char> {
    match severity {
        AlertSeverity::Critical | AlertSeverity::High => "Error"@,
        AlertSeverity::Medium => "Warning"@,
        _ => "Information"@,
    }
}

/// The number of the entry for a severity.
pub open spec fn log_number(severity: AlertSeverity) -> u32 {
    match severity {
        AlertSeverity::Critical => 1001,
        AlertSeverity::High => 1002,
        AlertSeverity::Medium => 1003,
        AlertSeverity::Low => 1004,
        AlertSeverity::Info => 1005,
    }
}

/// The message of the entry for an alert.
pub open spec fn log_message(a: AlertModel) -> Seq<char> {
    "["@ + decimal(level(a.severity) as nat) + "] "@ + a.title + "\n\nDescription: "@
        + a.description + "\nAlert ID: "@ + a.alert_id + "\nConfidence: "@ + per_cent(a.confidence)
}

impl WindowsEventLogChannel {
    /// A channel to the event log of Windows, with entries under a name.
    pub fn new(source_name: &str) -> (r: WindowsEventLogChannel)
        ensures
            r.source_name@ == source_name@,
    {
        WindowsEventLogChannel { source_name: source_name.to_string() }
    }

    /// The entry for an alert.
    pub fn entry(&self, alert: &Alert) -> (r: EventLogEntry)
        ensures
            r.source_name@ == self.source_name@,
            r.event_type@ == log_type(alert.severity),
            r.event_id == log_number(alert.severity),
            r.message@ == log_message(alert@),
    {
        let event_type = match alert.severity {
            AlertSeverity::Critical | AlertSeverity::High => "Error",
            AlertSeverity::Medium => "Warning",
            _ => "Information",
        };
        let event_id: u32 = match alert.severity {
            AlertSeverity::Critical => 1001,
            AlertSeverity::High => 1002,
            AlertSeverity::Medium => 1003,
            AlertSeverity::Low => 1004,
            AlertSeverity::Info => 1005,
        };
        let message = "[".to_string().concat(
            decimal_text(alert.severity.level() as u64).as_str(),
        ).concat("] ").concat(alert.title.as_str()).concat("\n\nDescription: ").concat(
            alert.description.as_str(),
        ).concat("\nAlert ID: ").concat(alert.alert_id.as_str()).concat("\nConfidence: ").concat(
            per_cent_text(alert.confidence).as_str(),
        );
        EventLogEntry { source_name: self.source_name.clone(), event_type, event_id, message }
    }
}

/// An entry for the log of the system.
#[derive(Debug)]
pub struct SyslogEntry {
    /// Facility and priority.
    pub selector: String,
    pub message: String,
}

/// The priority of the entry for a severity.
pub open spec fn priority(severity: AlertSeverity) -> Seq<char> {
    match severity {
        AlertSeverity::Critical => "crit"@,
        AlertSeverity::High => "err"@,
        AlertSeverity::Medium => "warning"@,
        AlertSeverity::Low => "notice"@,
        AlertSeverity::Info => "info"@,
    }
}

impl SyslogChannel {
    /// A channel to the log of the system, with entries under a facility.
    pub fn new(facility: &str) -> (r: SyslogChannel)
        ensures
            r.facility@ == facility@,
    {
        SyslogChannel { facility: facility.to_string() }
    }

    /// The entry for an alert.
    pub fn entry(&self, alert: &Alert) -> (r: SyslogEntry)
        ensures
            r.selector@ == self.facility@ + "."@ + priority(alert.severity),
            r.message@ == "[Tamandua] "@ + alert@.title + " - "@ + alert@.description + " (ID: "@
                + alert@.alert_id + ", Confidence: "@ + per_cent(alert.confidence) + ")"@,
    {
        let level = match alert.severity {
            AlertSeverity::Critical => "crit",
            AlertSeverity::High => "err",
            AlertSeverity::Medium => "warning",
            AlertSeverity::Low => "notice",
            AlertSeverity::Info => "info",
        };
        SyslogEntry {
            selector: self.facility.clone().concat(".").concat(level),
            message: "[Tamandua] ".to_string().concat(alert.title.as_str()).concat(" - ").concat(
                alert.description.as_str(),
            ).concat(" (ID: ").concat(alert.alert_id.as_str()).concat(", Confidence: ").concat(
                per_cent_text(alert.confidence).as_str(),
            ).concat(")"),
        }
    }
}

/// The more severe an alert, the lower the number of its entry, one for each severity;
/// from high on it is an error, and a warning at medium.
pub proof fn law_entries_follow_the_severity(a: AlertSeverity, b: AlertSeverity)
    ensures
        log_number(a) + level(a) == 1005,
        log_number(a) == log_number(b) <==> a == b,
        level(a) >= level(AlertSeverity::High) ==> log_type(a) == "Error"@,
        level(a) == level(AlertSeverity::Medium) ==> log_type(a) == "Warning"@,
        level(a) < level(AlertSeverity::Medium) ==> log_type(a) == "Information"@,
        priority(a) == priority(b) <==> a == b,
{
    reveal_strlit("crit");
    reveal_strlit("err");
    reveal_strlit("warning");
    reveal_strlit("notice");
    reveal_strlit("info");
    assert(priority(a) == priority(b) ==> priority(a).len() == priority(b).len() && priority(a)[0]
        == priority(b)[0]);
}

} // verus!
