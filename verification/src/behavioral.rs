//! Analysis of behaviour: what a process does is held against what is usual and
//! against patterns of attacks, and adds to the process's risk.
//!
//! Confidences, the sensitivity and the z-score's threshold are whole numbers of
//! millionths, scores whole numbers of millionths of a point.
use vstd::prelude::*;

use std::collections::HashMap;

use crate::baseline::{
    after_child, after_connection, after_destination, after_file, after_registry, after_start,
    count_up, counted, hour_at, hour_of_day, key_prefix, process_of, rare, times_seen,
    unknown_system, with_process, SystemBaseline, SystemModel, HOUR_MS,
};
use crate::paths::{is_directory_of, is_extension_of};
use crate::risk::{
    copy_factors, decayed, factors_view, no_risk, snapshot_of, with_factor, FactorModel, RiskFactor,
    RiskModel, RiskScore, FACTOR_LIFETIME_MS, MAX_SCORE,
};
use crate::statistics::{low_activity, standard_score};
use crate::telemetry::{
    detections_view, Detection, DetectionModel, DetectionType, DnsEvent, EventPayload, EventType,
    FileEvent, NetworkEvent, ProcessEvent, RegistryEvent, Severity, TelemetryEvent,
};
use crate::text::{
    any_ends, any_occurs, begins, characters, contains, contains_any, contains_twice, decimal,
    decimal_text, ends, ends_with, ends_with_any, hundredths, hundredths_text, is_one_of, join,
    joined, lowercase, occurs, occurs_twice, one_of, opt_text, round_to, rounded, same,
    signed_hundredths, signed_hundredths_text, tenths, tenths_text, texts, to_lowercase,
};
use crate::textmap::TextMap;
use crate::textset::TextSet;

verus! {

broadcast use vstd::std_specs::hash::group_hash_axioms;

/// How the analyzer works.
pub struct BehavioralConfig {
    pub learning_duration_hours: u64,
    /// Whether baselines are updated after learning too.
    pub continuous_learning: bool,
    /// From which z-score on a rate is an anomaly, in millionths.
    pub zscore_threshold: u32,
    /// From which score on a process is reported, in millionths of a point.
    pub alert_threshold: u64,
    /// How much a score falls in an hour, in millionths of a point.
    pub score_decay_per_hour: u64,
    pub max_events_per_process: usize,
    pub moving_average_window_minutes: u64,
    /// Whether the hour of the day counts.
    pub time_analysis_enabled: bool,
    pub baseline_path: String,
    pub autosave_interval_minutes: u64,
    /// By how much scores are multiplied, in millionths.
    pub sensitivity: u32,
    /// Whether scores are reported as events.
    pub export_risk_score: bool,
}

impl BehavioralConfig {
    /// The usual values; where baselines are kept depends on the system.
    pub open spec fn is_default(&self, windows: bool) -> bool {
        &&& self.learning_duration_hours == 48
        &&& self.continuous_learning
        &&& self.zscore_threshold == 3_000_000
        &&& self.alert_threshold == 50_000_000
        &&& self.score_decay_per_hour == 5_000_000
        &&& self.max_events_per_process == 1000
        &&& self.moving_average_window_minutes == 60
        &&& self.time_analysis_enabled
        &&& self.baseline_path@ == if windows {
            "C:\\ProgramData\\Tamandua\\baselines.json"@
        } else {
            "/var/lib/tamandua/baselines.json"@
        }
        &&& self.autosave_interval_minutes == 15
        &&& self.sensitivity == 1_000_000
        &&& !self.export_risk_score
    }

    /// The usual values on a system.
    pub fn for_system(windows: bool) -> (c: BehavioralConfig)
        ensures
            c.is_default(windows),
    {
        BehavioralConfig {
            learning_duration_hours: 48,
            continuous_learning: true,
            zscore_threshold: 3_000_000,
            alert_threshold: 50_000_000,
            score_decay_per_hour: 5_000_000,
            max_events_per_process: 1000,
            moving_average_window_minutes: 60,
            time_analysis_enabled: true,
            baseline_path: if windows {
                "C:\\ProgramData\\Tamandua\\baselines.json".to_string()
            } else {
                "/var/lib/tamandua/baselines.json".to_string()
            },
            autosave_interval_minutes: 15,
            sensitivity: 1_000_000,
            export_risk_score: false,
        }
    }
}

impl Default for BehavioralConfig {
    fn default() -> (c: BehavioralConfig)
        ensures
            c.is_default(true) || c.is_default(false),
    {
        BehavioralConfig::for_system(crate::paths::backslash_separates())
    }
}

/// Something that was seen: a contribution to a process's risk, and the
/// detection that reports it.
pub struct Finding {
    pub factor: String,
    /// In millionths of a point.
    pub score: u64,
    pub detection: Detection,
}

/// What a finding says.
#[verifier::ext_equal]
pub struct FindingModel {
    pub factor: Seq<char>,
    pub score: u64,
    pub detection: DetectionModel,
}

impl View for Finding {
    type V = FindingModel;

    open spec fn view(&self) -> FindingModel {
        FindingModel { factor: self.factor@, score: self.score, detection: self.detection@ }
    }
}

/// What findings say.
pub open spec fn findings_view(v: Seq<Finding>) -> Seq<FindingModel> {
    v.map_values(|f: Finding| f@)
}

/// What an optional finding says.
pub open spec fn finding_view(f: Option<Finding>) -> Option<FindingModel> {
    match f {
        Some(f) => Some(f@),
        None => None,
    }
}

/// The one finding, or none.
pub open spec fn at_most_one(f: Option<FindingModel>) -> Seq<FindingModel> {
    match f {
        Some(f) => seq![f],
        None => Seq::empty(),
    }
}

/// The detections of findings.
pub open spec fn reported(v: Seq<FindingModel>) -> Seq<DetectionModel> {
    v.map_values(|f: FindingModel| f.detection)
}

fn push_finding(list: &mut Vec<Finding>, f: Option<Finding>)
    ensures
        findings_view(final(list)@) == findings_view(old(list)@) + at_most_one(finding_view(f)),
{
    match f {
        Some(f) => {
            list.push(f);
            assert(findings_view(list@) =~= findings_view(old(list)@) + seq![f@]);
        },
        None => {
            assert(findings_view(list@) =~= findings_view(old(list)@) + Seq::empty());
        },
    }
}

fn push_findings(list: &mut Vec<Finding>, more: Vec<Finding>)
    ensures
        findings_view(final(list)@) == findings_view(old(list)@) + findings_view(more@),
{
    let mut more = more;
    let ghost added = more@;
    list.append(&mut more);
    assert(findings_view(list@) =~= findings_view(old(list)@) + findings_view(added));
}

/// A detection of behaviour.
pub open spec fn behavioral_detection(
    rule_name: Seq<char>,
    confidence: u32,
    description: Seq<char>,
    tactic: Seq<char>,
    technique: Seq<char>,
) -> DetectionModel {
    DetectionModel {
        detection_type: DetectionType::Behavioral,
        rule_name: "behavioral_"@ + rule_name,
        confidence,
        description,
        mitre_tactics: seq![tactic],
        mitre_techniques: seq![technique],
    }
}

/// A detection of behaviour.
pub fn create_detection(
    rule_name: &str,
    confidence: u32,
    description: &str,
    tactic: &str,
    technique: &str,
) -> (d: Detection)
    ensures
        d@ == behavioral_detection(rule_name@, confidence, description@, tactic@, technique@),
{
    let mitre_tactics = vec![tactic.to_string()];
    let mitre_techniques = vec![technique.to_string()];
    assert(texts(mitre_tactics@) =~= seq![tactic@]);
    assert(texts(mitre_techniques@) =~= seq![technique@]);
    Detection {
        detection_type: DetectionType::Behavioral,
        rule_name: "behavioral_".to_string().concat(rule_name),
        confidence,
        description: description.to_string(),
        mitre_tactics,
        mitre_techniques,
    }
}

/// A finding of so many points.
pub open spec fn seen(
    factor: Seq<char>,
    points: u32,
    sensitivity: u32,
    rule_name: Seq<char>,
    confidence: u32,
    description: Seq<char>,
    tactic: Seq<char>,
    technique: Seq<char>,
) -> FindingModel {
    FindingModel {
        factor,
        score: scaled(points, sensitivity),
        detection: behavioral_detection(rule_name, confidence, description, tactic, technique),
    }
}

/// Points times a sensitivity, in millionths of a point.
pub open spec fn scaled(points: u32, sensitivity: u32) -> u64 {
    (points * sensitivity) as u64
}

/// Points times a sensitivity, in millionths of a point.
pub fn scale(points: u32, sensitivity: u32) -> (r: u64)
    ensures
        r == scaled(points, sensitivity),
        r == points * sensitivity,
{
    assert(0 <= points * sensitivity <= 0xffff_ffff * 0xffff_ffff) by (nonlinear_arith)
        requires
            0 <= points <= 0xffff_ffff,
            0 <= sensitivity <= 0xffff_ffff,
    ;
    let p: u64 = points as u64;
    let s: u64 = sensitivity as u64;
    assert(p * s == points * sensitivity);
    p * s
}

fn seen_of(
    factor: &str,
    points: u32,
    sensitivity: u32,
    rule_name: &str,
    confidence: u32,
    description: &str,
    tactic: &str,
    technique: &str,
) -> (f: Finding)
    ensures
        f@ == seen(
            factor@,
            points,
            sensitivity,
            rule_name@,
            confidence,
            description@,
            tactic@,
            technique@,
        ),
{
    Finding {
        factor: factor.to_string(),
        score: scale(points, sensitivity),
        detection: create_detection(rule_name, confidence, description, tactic, technique),
    }
}

/// How sure a detection of so high a score is.
pub open spec fn pattern_confidence(score: u64) -> u32 {
    if score / 100 >= 450_000 {
        900_000
    } else {
        (450_000 + score / 100) as u32
    }
}

/// How sure a detection of so high a score is, in millionths.
pub fn confidence_from_pattern_score(score: u64) -> (r: u32)
    ensures
        r == pattern_confidence(score),
        450_000 <= r <= 900_000,
{
    if score / 100 >= 450_000 {
        900_000
    } else {
        450_000 + (score / 100) as u32
    }
}

/// A finding whose score says how sure it is.
pub open spec fn scored(
    name: Seq<char>,
    points: u32,
    sensitivity: u32,
    description: Seq<char>,
    tactic: Seq<char>,
    technique: Seq<char>,
) -> FindingModel {
    seen(
        name,
        points,
        sensitivity,
        name,
        pattern_confidence(scaled(points, sensitivity)),
        description,
        tactic,
        technique,
    )
}

fn scored_of(
    name: &str,
    points: u32,
    sensitivity: u32,
    description: &str,
    tactic: &str,
    technique: &str,
) -> (f: Finding)
    ensures
        f@ == scored(name@, points, sensitivity, description@, tactic@, technique@),
{
    seen_of(
        name,
        points,
        sensitivity,
        name,
        confidence_from_pattern_score(scale(points, sensitivity)),
        description,
        tactic,
        technique,
    )
}

/// No names.
pub const NO_NAMES: [&'static str; 0] = [];

/// Office programs.
pub const OFFICE_PROGRAMS: [&'static str; 5] = [
    "winword",
    "excel",
    "powerpnt",
    "outlook",
    "msaccess",
];

/// Shells and script hosts.
pub const SHELLS: [&'static str; 6] = [
    "cmd.exe",
    "powershell",
    "pwsh",
    "wscript",
    "cscript",
    "mshta",
];

/// Browsers.
pub const BROWSERS: [&'static str; 5] = ["chrome", "firefox", "iexplore", "msedge", "opera"];

/// What no browser starts.
pub const BROWSER_CHILDREN: [&'static str; 5] = [
    "cmd.exe",
    "powershell",
    "certutil",
    "bitsadmin",
    "msiexec",
];

/// The host of services.
pub const SERVICE_HOSTS: [&'static str; 1] = ["svchost"];

/// The local security authority.
pub const LSASS_NAMES: [&'static str; 1] = ["lsass"];

/// Script hosts.
pub const SCRIPT_HOSTS: [&'static str; 4] = ["wscript", "cscript", "mshta", "powershell"];

/// The manager of services.
pub const SERVICE_MANAGERS: [&'static str; 1] = ["services.exe"];

/// Programs with windows.
pub const INTERACTIVE_PROGRAMS: [&'static str; 4] = ["notepad", "calc", "mspaint", "explorer"];

/// The host of WMI providers.
pub const WMI_HOSTS: [&'static str; 1] = ["wmiprvse"];

/// Command shells.
pub const COMMAND_SHELLS: [&'static str; 3] = ["cmd.exe", "powershell", "pwsh"];

/// The program that runs functions of libraries.
pub const RUNDLL_NAMES: [&'static str; 1] = ["rundll32"];

/// The program that registers libraries.
pub const REGSVR_NAMES: [&'static str; 1] = ["regsvr32"];

/// A parent and a child that do not go together.
pub struct SuspiciousPattern {
    pub name: &'static str,
    pub description: &'static str,
    /// What stands in the parent's name; anything where there is none.
    pub parent_patterns: &'static [&'static str],
    pub child_patterns: &'static [&'static str],
    /// In points.
    pub score: u32,
    pub mitre_tactic: &'static str,
    pub mitre_technique: &'static str,
}

/// What a pattern says.
#[verifier::ext_equal]
pub struct PatternModel {
    pub name: Seq<char>,
    pub description: Seq<char>,
    pub parents: Seq<&'static str>,
    pub children: Seq<&'static str>,
    pub score: u32,
    pub tactic: Seq<char>,
    pub technique: Seq<char>,
}

impl View for SuspiciousPattern {
    type V = PatternModel;

    open spec fn view(&self) -> PatternModel {
        PatternModel {
            name: self.name@,
            description: self.description@,
            parents: self.parent_patterns@,
            children: self.child_patterns@,
            score: self.score,
            tactic: self.mitre_tactic@,
            technique: self.mitre_technique@,
        }
    }
}

/// The names of the patterns, what they describe, their points, tactics and
/// techniques.
pub const PATTERN_TEXTS: [(&'static str, &'static str, u32, &'static str, &'static str); 9] = [
    (
        "office_shell_spawn",
        "Office application spawning command shell",
        25,
        "execution",
        "T1204.002",
    ),
    ("browser_process_spawn", "Browser spawning suspicious process", 20, "execution", "T1189"),
    (
        "svchost_unusual_parent",
        "svchost.exe with unusual parent",
        30,
        "defense-evasion",
        "T1036.004",
    ),
    ("lsass_access", "Process accessing LSASS memory", 35, "credential-access", "T1003.001"),
    ("script_from_temp", "Script execution from temp directory", 15, "defense-evasion", "T1059"),
    (
        "services_interactive",
        "Services spawning interactive process",
        25,
        "privilege-escalation",
        "T1543.003",
    ),
    ("wmiprvse_spawn", "WMI spawning command shell", 20, "execution", "T1047"),
    (
        "rundll32_network",
        "rundll32 making network connections",
        15,
        "defense-evasion",
        "T1218.011",
    ),
    (
        "regsvr32_network",
        "regsvr32 network activity (Squiblydoo)",
        20,
        "defense-evasion",
        "T1218.010",
    ),
];

/// What stands in the names of a pattern's parents.
pub open spec fn pattern_parents(i: int) -> Seq<&'static str> {
    if i == 0 {
        OFFICE_PROGRAMS@
    } else if i == 1 {
        BROWSERS@
    } else if i == 5 {
        SERVICE_MANAGERS@
    } else if i == 6 {
        WMI_HOSTS@
    } else {
        NO_NAMES@
    }
}

/// What stands in the names of a pattern's children.
pub open spec fn pattern_children(i: int) -> Seq<&'static str> {
    if i == 0 {
        SHELLS@
    } else if i == 1 {
        BROWSER_CHILDREN@
    } else if i == 2 {
        SERVICE_HOSTS@
    } else if i == 3 {
        LSASS_NAMES@
    } else if i == 4 {
        SCRIPT_HOSTS@
    } else if i == 5 {
        INTERACTIVE_PROGRAMS@
    } else if i == 6 {
        COMMAND_SHELLS@
    } else if i == 7 {
        RUNDLL_NAMES@
    } else {
        REGSVR_NAMES@
    }
}

/// The pattern at a position.
pub open spec fn pattern(i: int) -> PatternModel {
    PatternModel {
        name: PATTERN_TEXTS@[i].0@,
        description: PATTERN_TEXTS@[i].1@,
        parents: pattern_parents(i),
        children: pattern_children(i),
        score: PATTERN_TEXTS@[i].2,
        tactic: PATTERN_TEXTS@[i].3@,
        technique: PATTERN_TEXTS@[i].4@,
    }
}

/// The pattern at a position.
pub fn suspicious_pattern(i: usize) -> (r: SuspiciousPattern)
    requires
        i < 9,
    ensures
        r@ == pattern(i as int),
{
    let t = PATTERN_TEXTS[i];
    let parent_patterns: &'static [&'static str] = match i {
        0 => &OFFICE_PROGRAMS,
        1 => &BROWSERS,
        5 => &SERVICE_MANAGERS,
        6 => &WMI_HOSTS,
        _ => &NO_NAMES,
    };
    let child_patterns: &'static [&'static str] = match i {
        0 => &SHELLS,
        1 => &BROWSER_CHILDREN,
        2 => &SERVICE_HOSTS,
        3 => &LSASS_NAMES,
        4 => &SCRIPT_HOSTS,
        5 => &INTERACTIVE_PROGRAMS,
        6 => &COMMAND_SHELLS,
        7 => &RUNDLL_NAMES,
        _ => &REGSVR_NAMES,
    };
    SuspiciousPattern {
        name: t.0,
        description: t.1,
        parent_patterns,
        child_patterns,
        score: t.2,
        mitre_tactic: t.3,
        mitre_technique: t.4,
    }
}

/// The patterns that are about more than the start of a process: the memory of the
/// local security authority is read, or a connection is made.
pub const LATER_PATTERNS: [&'static str; 3] = [
    "lsass_access",
    "rundll32_network",
    "regsvr32_network",
];

/// What a pattern finds in the start of a process. The host of services is only
/// wrong under another parent than their manager, and a script is only run from a
/// directory for temporary files where the path is in one.
pub open spec fn pattern_check(
    p: PatternModel,
    path: Seq<char>,
    parent: Seq<char>,
    child: Seq<char>,
    sensitivity: u32,
) -> Option<FindingModel> {
    if !is_one_of(p.name, LATER_PATTERNS@) && (p.parents.len() == 0 || any_occurs(
        p.parents,
        parent,
    )) && any_occurs(p.children, child) && (p.name == "svchost_unusual_parent"@ ==> !occurs(
        "services.exe"@,
        parent,
    ) && occurs("svchost"@, child)) && (p.name == "script_from_temp"@ ==> any_occurs(
        TEMP_DIRECTORIES@,
        path,
    )) {
        Some(scored(p.name, p.score, sensitivity, p.description, p.tactic, p.technique))
    } else {
        None
    }
}

fn check_pattern(
    p: &SuspiciousPattern,
    path: &str,
    parent: &str,
    child: &str,
    sensitivity: u32,
) -> (r: Option<Finding>)
    ensures
        finding_view(r) == pattern_check(p@, path@, parent@, child@, sensitivity),
{
    if one_of(p.name, &LATER_PATTERNS) {
        return None;
    }
    let parent_matches = p.parent_patterns.len() == 0 || contains_any(parent, p.parent_patterns);
    let child_matches = contains_any(child, p.child_patterns);
    if parent_matches && child_matches {
        if same(p.name, "script_from_temp") {
            if !contains_any(path, &TEMP_DIRECTORIES) {
                return None;
            }
        }
        if same(p.name, "svchost_unusual_parent") {
            if contains(parent, "services.exe") || !contains(child, "svchost") {
                return None;
            }
        }
        return Some(
            scored_of(
                p.name,
                p.score,
                sensitivity,
                p.description,
                p.mitre_tactic,
                p.mitre_technique,
            ),
        );
    }
    None
}

/// What the first `n` patterns find in the start of a process.
pub open spec fn patterns_check(
    n: nat,
    path: Seq<char>,
    parent: Seq<char>,
    child: Seq<char>,
    sensitivity: u32,
) -> Seq<FindingModel>
    decreases n,
{
    if n == 0 {
        Seq::empty()
    } else {
        patterns_check((n - 1) as nat, path, parent, child, sensitivity) + at_most_one(
            pattern_check(pattern(n - 1), path, parent, child, sensitivity),
        )
    }
}

/// Whether a process passes itself off as the local security authority: it has
/// such a name, and not the authority's name, parent and path.
pub open spec fn lsass_masquerade(path: Seq<char>, parent: Seq<char>, child: Seq<char>) -> bool {
    occurs("lsass"@, child) && !(child == "lsass.exe"@ && occurs("wininit.exe"@, parent) && ends(
        lowercase(path),
        "\\windows\\system32\\lsass.exe"@,
    ))
}

/// What the check for processes that pass themselves off as the local security
/// authority finds.
pub open spec fn masquerade_check(proc: ProcessEvent, parent: Seq<char>, sensitivity: u32) -> Option<
    FindingModel,
> {
    if lsass_masquerade(proc.path@, lowercase(parent), lowercase(proc.name@)) {
        Some(
            seen(
                "lsass_masquerade"@,
                35,
                sensitivity,
                "lsass_masquerade"@,
                900_000,
                "Suspicious LSASS-like process '"@ + proc.name@ + "' with parent '"@ + parent
                    + "' and path '"@ + proc.path@ + "'"@,
                "credential-access"@,
                "T1003.001"@,
            ),
        )
    } else {
        None
    }
}

/// What the comparison of a child with those that its parent usually starts
/// finds.
pub open spec fn child_check(b: SystemModel, proc: ProcessEvent, parent: Seq<char>, sensitivity: u32) -> Option<
    FindingModel,
> {
    if b.processes.contains_key(lowercase(parent)) && b.processes[lowercase(parent)].observations
        >= 50 && !b.processes[lowercase(parent)].approved
        && !b.processes[lowercase(parent)].children.contains(lowercase(proc.name@)) {
        Some(
            seen(
                "baseline_deviation_child"@,
                10,
                sensitivity,
                "baseline_deviation_child"@,
                600_000,
                "Process '"@ + parent + "' spawned unusual child '"@ + proc.name@
                    + "' (not in baseline)"@,
                "defense-evasion"@,
                "T1036"@,
            ),
        )
    } else {
        None
    }
}

/// Directories for temporary files.
pub const TEMP_DIRECTORIES: [&'static str; 4] = [
    "\\temp\\",
    "\\tmp\\",
    "\\appdata\\local\\temp",
    "/tmp/",
];

/// What the check of where a process was started from finds.
pub open spec fn temp_check(path: Seq<char>, sensitivity: u32) -> Option<FindingModel> {
    if any_occurs(TEMP_DIRECTORIES@, path) {
        Some(
            seen(
                "temp_execution"@,
                10,
                sensitivity,
                "temp_execution"@,
                500_000,
                "Process executed from temporary directory"@,
                "defense-evasion"@,
                "T1036.005"@,
            ),
        )
    } else {
        None
    }
}

/// What the check for encoded commands finds.
pub open spec fn encoded_check(cmdline: Seq<char>, sensitivity: u32) -> Option<FindingModel> {
    if occurs("-encodedcommand"@, cmdline) || occurs("-enc "@, cmdline) || (occurs("-e "@, cmdline)
        && occurs("powershell"@, cmdline)) {
        Some(
            seen(
                "encoded_command"@,
                20,
                sensitivity,
                "encoded_powershell"@,
                800_000,
                "PowerShell with encoded command detected"@,
                "execution"@,
                "T1059.001"@,
            ),
        )
    } else {
        None
    }
}

/// What the check for a bypassed execution policy finds.
pub open spec fn bypass_check(cmdline: Seq<char>, sensitivity: u32) -> Option<FindingModel> {
    if occurs("-executionpolicy"@, cmdline) && occurs("bypass"@, cmdline) {
        Some(
            seen(
                "policy_bypass"@,
                15,
                sensitivity,
                "execution_policy_bypass"@,
                700_000,
                "PowerShell execution policy bypass"@,
                "defense-evasion"@,
                "T1059.001"@,
            ),
        )
    } else {
        None
    }
}

/// What the check of the hour of the day finds.
pub open spec fn hour_check(
    b: SystemModel,
    name: Seq<char>,
    enabled: bool,
    timestamp: u64,
    sensitivity: u32,
) -> Option<FindingModel> {
    if enabled && b.processes.contains_key(lowercase(name)) && low_activity(
        b.processes[lowercase(name)].hours,
        hour_of_day(timestamp),
    ) && b.processes[lowercase(name)].observations > 100 {
        Some(
            seen(
                "unusual_time"@,
                5,
                sensitivity,
                "unusual_execution_time"@,
                400_000,
                "Process '"@ + name + "' executed during unusual hours (hour "@ + decimal(
                    hour_of_day(timestamp) as nat,
                ) + ")"@,
                "defense-evasion"@,
                "T1036"@,
            ),
        )
    } else {
        None
    }
}

/// Names of the local security authority in command lines.
pub const LSASS_PROBES: [&'static str; 3] = ["get-process lsass", "process lsass", "lsass.exe"];

/// Programs that list processes.
pub const PROCESS_LISTERS: [&'static str; 4] = ["powershell", "pwsh", "wmic", "tasklist"];

/// Where credentials are looked for.
pub const CREDENTIAL_PROBES: [&'static str; 4] = [
    "cmdkey.exe /list",
    "login data",
    "tamandua-credential-canary",
    "findstr /i password",
];

/// Tools of remote management.
pub const REMOTE_TOOLS: [&'static str; 5] = [
    "wmic.exe",
    "winrm ",
    "invoke-command",
    "test-wsman",
    "psremoting",
];

/// Names of shares.
pub const SHARE_PROBES: [&'static str; 4] = ["net use", "net share", "admin$", "c$"];

/// The creation of tasks.
pub const TASK_CREATION: [&'static str; 2] = ["schtasks.exe /create", "schtasks /create"];

/// The creation of services.
pub const SERVICE_CREATION: [&'static str; 2] = ["sc.exe create", "sc create"];

/// Settings of user account control.
pub const UAC_PROBES: [&'static str; 3] = ["enablelua", "\\policies\\system", "uac"];

/// Programs that transfer files.
pub const TRANSFER_TOOLS: [&'static str; 3] = ["curl.exe", "invoke-webrequest", "downloadfile"];

/// What a download looks like.
pub const DOWNLOAD_WORDS: [&'static str; 5] = [" -o ", " -out", "download", "http://", "https://"];

/// Network probes.
pub const NETWORK_PROBES: [&'static str; 2] = ["curl.exe -i", "test-netconnection"];

/// Programs that make archives.
pub const ARCHIVERS: [&'static str; 3] = ["tar.exe", "makecab.exe", "compress-archive"];

/// The endings of archives.
pub const ARCHIVE_ENDINGS: [&'static str; 3] = [".zip", ".cab", ".tar"];

/// Words of exfiltration.
pub const EXFILTRATION_WORDS: [&'static str; 2] = ["exfil", "exfil-canary"];

/// Programs that fetch and send.
pub const WEB_TOOLS: [&'static str; 2] = ["curl.exe", "invoke-webrequest"];

/// What is staged before it is sent.
pub const STAGED_WORDS: [&'static str; 4] = [".zip", "archive", "staged", "canary"];

/// Libraries that are planted.
pub const PLANTED_LIBRARIES: [&'static str; 2] = ["version.dll", "dll-canary"];

/// Settings of the system's own protection.
pub const PROTECTION_PROBES: [&'static str; 4] = [
    "get-mppreference",
    "set-mppreference",
    "vssadmin.exe",
    "delete shadows",
];

/// The rules on attacks: their names, points, what they describe, tactics and
/// techniques.
pub const ENTERPRISE_RULES: [(&'static str, u32, &'static str, &'static str, &'static str); 17] = [
    (
        "lsass_credential_access_probe",
        18,
        "Credential access probe targeting LSASS metadata",
        "credential-access",
        "T1003.001",
    ),
    (
        "credential_material_discovery",
        16,
        "Credential material discovery or credential-store probing",
        "credential-access",
        "T1552.001",
    ),
    (
        "remote_management_wmi_winrm",
        18,
        "Remote management tooling observed via WMI, WinRM, or PowerShell remoting",
        "lateral-movement",
        "T1021.006",
    ),
    (
        "lateral_smb_admin_share_probe",
        12,
        "SMB admin-share or network-share discovery",
        "lateral-movement",
        "T1021.002",
    ),
    (
        "scheduled_task_privilege_persistence",
        20,
        "Scheduled task creation can provide persistence or privilege escalation",
        "persistence",
        "T1053.005",
    ),
    (
        "service_creation_abuse",
        22,
        "Windows service creation observed",
        "persistence",
        "T1543.003",
    ),
    (
        "privilege_escalation_configuration_probe",
        10,
        "Privilege escalation relevant configuration was queried",
        "privilege-escalation",
        "T1548.002",
    ),
    (
        "c2_download_transfer",
        18,
        "HTTP transfer pattern consistent with ingress tool transfer or C2 staging",
        "command-and-control",
        "T1105",
    ),
    (
        "c2_beacon_safe_probe",
        14,
        "Repeated network probe can indicate beacon-like command-and-control behavior",
        "command-and-control",
        "T1071.001",
    ),
    ("archive_staging", 14, "Data archive staging observed", "collection", "T1560.001"),
    (
        "exfiltration_staging",
        18,
        "Local staging followed by network transfer pattern",
        "exfiltration",
        "T1041",
    ),
    (
        "dll_hijack_canary",
        18,
        "DLL search order hijack or side-loading canary observed",
        "defense-evasion",
        "T1574.001",
    ),
    (
        "regsvr32_proxy_execution",
        18,
        "Regsvr32 signed binary proxy execution",
        "defense-evasion",
        "T1218.010",
    ),
    (
        "rundll32_proxy_execution",
        18,
        "Rundll32 signed binary proxy execution",
        "defense-evasion",
        "T1218.011",
    ),
    (
        "mshta_proxy_execution",
        18,
        "Mshta signed binary proxy execution",
        "defense-evasion",
        "T1218.005",
    ),
    (
        "certutil_decode_or_transfer",
        18,
        "Certutil encode/decode or transfer behavior",
        "defense-evasion",
        "T1140",
    ),
    (
        "tamper_defense_evasion_probe",
        18,
        "Security-tool or recovery configuration probe observed",
        "defense-evasion",
        "T1562.001",
    ),
];

/// Whether a rule on attacks applies to a process's name, path and command line,
/// all in lower case. Of the signed programs that run others one rule applies,
/// that of the first of them.
pub open spec fn enterprise_rule_applies(
    i: int,
    name: Seq<char>,
    path: Seq<char>,
    cmdline: Seq<char>,
) -> bool {
    let both = name + " "@ + cmdline;
    if i == 0 {
        any_occurs(LSASS_PROBES@, both) && any_occurs(PROCESS_LISTERS@, both)
    } else if i == 1 {
        any_occurs(CREDENTIAL_PROBES@, both)
    } else if i == 2 {
        name == "wmic.exe"@ || any_occurs(REMOTE_TOOLS@, cmdline)
    } else if i == 3 {
        any_occurs(SHARE_PROBES@, both)
    } else if i == 4 {
        any_occurs(TASK_CREATION@, both)
    } else if i == 5 {
        any_occurs(SERVICE_CREATION@, both)
    } else if i == 6 {
        any_occurs(UAC_PROBES@, cmdline)
    } else if i == 7 {
        any_occurs(TRANSFER_TOOLS@, both) && any_occurs(DOWNLOAD_WORDS@, both)
    } else if i == 8 {
        any_occurs(NETWORK_PROBES@, both) || (occurs_twice("curl.exe"@, cmdline) && occurs(
            "timeout"@,
            cmdline,
        ))
    } else if i == 9 {
        any_occurs(ARCHIVERS@, both) && any_occurs(ARCHIVE_ENDINGS@, both)
    } else if i == 10 {
        any_occurs(EXFILTRATION_WORDS@, both) || (any_occurs(WEB_TOOLS@, both) && any_occurs(
            STAGED_WORDS@,
            both,
        ))
    } else if i == 11 {
        any_occurs(PLANTED_LIBRARIES@, both) || (occurs("\\temp\\"@, path) && ends(name, ".dll"@))
    } else if i == 12 {
        occurs("regsvr32.exe"@, both)
    } else if i == 13 {
        occurs("rundll32.exe"@, both) && !occurs("regsvr32.exe"@, both)
    } else if i == 14 {
        occurs("mshta.exe"@, both) && !occurs("rundll32.exe"@, both) && !occurs(
            "regsvr32.exe"@,
            both,
        )
    } else if i == 15 {
        occurs("certutil.exe"@, both) && !occurs("mshta.exe"@, both) && !occurs(
            "rundll32.exe"@,
            both,
        ) && !occurs("regsvr32.exe"@, both)
    } else {
        any_occurs(PROTECTION_PROBES@, both)
    }
}

/// What the first `n` rules on attacks find.
pub open spec fn enterprise_check(
    n: nat,
    name: Seq<char>,
    path: Seq<char>,
    cmdline: Seq<char>,
    sensitivity: u32,
) -> Seq<FindingModel>
    decreases n,
{
    if n == 0 {
        Seq::empty()
    } else {
        let rule = ENTERPRISE_RULES@[n - 1];
        enterprise_check((n - 1) as nat, name, path, cmdline, sensitivity) + at_most_one(
            if enterprise_rule_applies(n - 1, name, path, cmdline) {
                Some(scored(rule.0@, rule.1, sensitivity, rule.2@, rule.3@, rule.4@))
            } else {
                None
            },
        )
    }
}

fn rule_applies(i: usize, name: &str, path: &str, cmdline: &str, both: &str) -> (r: bool)
    requires
        i < 17,
        both@ == name@ + " "@ + cmdline@,
    ensures
        r == enterprise_rule_applies(i as int, name@, path@, cmdline@),
{
    match i {
        0 => contains_any(both, &LSASS_PROBES) && contains_any(both, &PROCESS_LISTERS),
        1 => contains_any(both, &CREDENTIAL_PROBES),
        2 => same(name, "wmic.exe") || contains_any(cmdline, &REMOTE_TOOLS),
        3 => contains_any(both, &SHARE_PROBES),
        4 => contains_any(both, &TASK_CREATION),
        5 => contains_any(both, &SERVICE_CREATION),
        6 => contains_any(cmdline, &UAC_PROBES),
        7 => contains_any(both, &TRANSFER_TOOLS) && contains_any(both, &DOWNLOAD_WORDS),
        8 => contains_any(both, &NETWORK_PROBES) || (contains_twice(cmdline, "curl.exe")
            && contains(cmdline, "timeout")),
        9 => contains_any(both, &ARCHIVERS) && contains_any(both, &ARCHIVE_ENDINGS),
        10 => contains_any(both, &EXFILTRATION_WORDS) || (contains_any(both, &WEB_TOOLS)
            && contains_any(both, &STAGED_WORDS)),
        11 => contains_any(both, &PLANTED_LIBRARIES) || (contains(path, "\\temp\\") && ends_with(
            name,
            ".dll",
        )),
        12 => contains(both, "regsvr32.exe"),
        13 => contains(both, "rundll32.exe") && !contains(both, "regsvr32.exe"),
        14 => contains(both, "mshta.exe") && !contains(both, "rundll32.exe") && !contains(
            both,
            "regsvr32.exe",
        ),
        15 => contains(both, "certutil.exe") && !contains(both, "mshta.exe") && !contains(
            both,
            "rundll32.exe",
        ) && !contains(both, "regsvr32.exe"),
        _ => contains_any(both, &PROTECTION_PROBES),
    }
}

/// Holds a process against the rules on attacks. Path and command line are in
/// lower case.
pub fn analyze_enterprise_attack_patterns(
    proc: &ProcessEvent,
    path_lower: &str,
    cmdline_lower: &str,
    sensitivity: u32,
) -> (r: Vec<Finding>)
    ensures
        findings_view(r@) == enterprise_check(
            17,
            lowercase(proc.name@),
            path_lower@,
            cmdline_lower@,
            sensitivity,
        ),
{
    let name = to_lowercase(proc.name.as_str());
    let both = name.clone().concat(" ").concat(cmdline_lower);
    let mut found: Vec<Finding> = Vec::new();
    let mut i: usize = 0;
    assert(findings_view(found@) =~= Seq::empty());
    while i < 17
        invariant
            i <= 17,
            both@ == name@ + " "@ + cmdline_lower@,
            findings_view(found@) == enterprise_check(
                i as nat,
                name@,
                path_lower@,
                cmdline_lower@,
                sensitivity,
            ),
        decreases 17 - i,
    {
        let rule = ENTERPRISE_RULES[i];
        let f = if rule_applies(i, name.as_str(), path_lower, cmdline_lower, both.as_str()) {
            Some(scored_of(rule.0, rule.1, sensitivity, rule.2, rule.3, rule.4))
        } else {
            None
        };
        push_finding(&mut found, f);
        i += 1;
    }
    found
}

/// What is found in a process by what its parent is.
pub open spec fn parent_findings(
    b: SystemModel,
    proc: ProcessEvent,
    parent: Seq<char>,
    sensitivity: u32,
) -> Seq<FindingModel> {
    patterns_check(
        9,
        lowercase(proc.path@),
        lowercase(parent),
        lowercase(proc.name@),
        sensitivity,
    ) + at_most_one(masquerade_check(proc, parent, sensitivity)) + at_most_one(
        child_check(b, proc, parent, sensitivity),
    )
}

/// All that is found in a process.
pub open spec fn process_findings(
    config: BehavioralConfig,
    b: SystemModel,
    proc: ProcessEvent,
    timestamp: u64,
) -> Seq<FindingModel> {
    let s = config.sensitivity;
    let path = lowercase(proc.path@);
    let cmdline = lowercase(proc.cmdline@);
    (match proc.parent_name {
        Some(parent) => parent_findings(b, proc, parent@, s),
        None => Seq::empty(),
    }) + at_most_one(temp_check(path, s)) + at_most_one(encoded_check(cmdline, s)) + at_most_one(
        bypass_check(cmdline, s),
    ) + enterprise_check(17, lowercase(proc.name@), path, cmdline, s) + at_most_one(
        hour_check(b, proc.name@, config.time_analysis_enabled, timestamp, s),
    )
}

fn check_parent(b: &SystemBaseline, proc: &ProcessEvent, parent: &str, sensitivity: u32) -> (r: Vec<
    Finding,
>)
    requires
        b.wf(),
    ensures
        findings_view(r@) == parent_findings(b@, *proc, parent@, sensitivity),
{
    let path_lower = to_lowercase(proc.path.as_str());
    let parent_lower = to_lowercase(parent);
    let child_lower = to_lowercase(proc.name.as_str());
    let mut found: Vec<Finding> = Vec::new();
    let mut i: usize = 0;
    assert(findings_view(found@) =~= Seq::empty());
    while i < 9
        invariant
            i <= 9,
            findings_view(found@) == patterns_check(
                i as nat,
                path_lower@,
                parent_lower@,
                child_lower@,
                sensitivity,
            ),
        decreases 9 - i,
    {
        let p = suspicious_pattern(i);
        push_finding(
            &mut found,
            check_pattern(
                &p,
                path_lower.as_str(),
                parent_lower.as_str(),
                child_lower.as_str(),
                sensitivity,
            ),
        );
        i += 1;
    }
    let masquerade = if BehavioralAnalyzer::is_lsass_masquerade(proc, parent_lower.as_str(), child_lower.as_str()) {
        let description = "Suspicious LSASS-like process '".to_string().concat(
            proc.name.as_str(),
        ).concat("' with parent '").concat(parent).concat("' and path '").concat(
            proc.path.as_str(),
        ).concat("'");
        Some(
            seen_of(
                "lsass_masquerade",
                35,
                sensitivity,
                "lsass_masquerade",
                900_000,
                description.as_str(),
                "credential-access",
                "T1003.001",
            ),
        )
    } else {
        None
    };
    push_finding(&mut found, masquerade);
    let unusual = match b.process_baselines.get(parent_lower.as_str()) {
        Some(known) => known.observation_count >= 50 && !known.approved
            && !known.known_children.contains(child_lower.as_str()),
        None => false,
    };
    let child = if unusual {
        let description = "Process '".to_string().concat(parent).concat(
            "' spawned unusual child '",
        ).concat(proc.name.as_str()).concat("' (not in baseline)");
        Some(
            seen_of(
                "baseline_deviation_child",
                10,
                sensitivity,
                "baseline_deviation_child",
                600_000,
                description.as_str(),
                "defense-evasion",
                "T1036",
            ),
        )
    } else {
        None
    };
    push_finding(&mut found, child);
    found
}

impl BehavioralAnalyzer {
    /// Whether a process passes itself off as the local security authority. The
    /// names are in lower case.
    pub fn is_lsass_masquerade(proc: &ProcessEvent, parent_lower: &str, child_lower: &str) -> (r: bool)
        ensures
            r == lsass_masquerade(proc.path@, parent_lower@, child_lower@),
    {
        if !contains(child_lower, "lsass") {
            return false;
        }
        let path = to_lowercase(proc.path.as_str());
        !(same(child_lower, "lsass.exe") && contains(parent_lower, "wininit.exe") && ends_with(
            path.as_str(),
            "\\windows\\system32\\lsass.exe",
        ))
    }
}

/// Holds a process against what is usual and against the patterns.
pub fn check_process(
    config: &BehavioralConfig,
    b: &SystemBaseline,
    proc: &ProcessEvent,
    timestamp: u64,
) -> (r: Vec<Finding>)
    requires
        b.wf(),
    ensures
        findings_view(r@) == process_findings(*config, b@, *proc, timestamp),
{
    let s: u32 = config.sensitivity;
    let path = to_lowercase(proc.path.as_str());
    let cmdline = to_lowercase(proc.cmdline.as_str());
    let mut found: Vec<Finding> = match &proc.parent_name {
        Some(parent) => check_parent(b, proc, parent.as_str(), s),
        None => {
            let none: Vec<Finding> = Vec::new();
            assert(findings_view(none@) =~= Seq::empty());
            none
        },
    };
    let temp = if contains_any(path.as_str(), &TEMP_DIRECTORIES) {
        Some(
            seen_of(
                "temp_execution",
                10,
                s,
                "temp_execution",
                500_000,
                "Process executed from temporary directory",
                "defense-evasion",
                "T1036.005",
            ),
        )
    } else {
        None
    };
    push_finding(&mut found, temp);
    let is_encoded = contains(cmdline.as_str(), "-encodedcommand") || contains(
        cmdline.as_str(),
        "-enc ",
    ) || (contains(cmdline.as_str(), "-e ") && contains(cmdline.as_str(), "powershell"));
    let encoded = if is_encoded {
        Some(
            seen_of(
                "encoded_command",
                20,
                s,
                "encoded_powershell",
                800_000,
                "PowerShell with encoded command detected",
                "execution",
                "T1059.001",
            ),
        )
    } else {
        None
    };
    push_finding(&mut found, encoded);
    let is_bypass = contains(cmdline.as_str(), "-executionpolicy") && contains(
        cmdline.as_str(),
        "bypass",
    );
    let bypass = if is_bypass {
        Some(
            seen_of(
                "policy_bypass",
                15,
                s,
                "execution_policy_bypass",
                700_000,
                "PowerShell execution policy bypass",
                "defense-evasion",
                "T1059.001",
            ),
        )
    } else {
        None
    };
    push_finding(&mut found, bypass);
    push_findings(
        &mut found,
        analyze_enterprise_attack_patterns(proc, path.as_str(), cmdline.as_str(), s),
    );
    let is_unusual = if config.time_analysis_enabled {
        match b.process_baselines.get(to_lowercase(proc.name.as_str()).as_str()) {
            Some(known) => known.hourly_pattern.is_low_activity_period(hour_at(timestamp))
                && known.observation_count > 100,
            None => false,
        }
    } else {
        false
    };
    let hour = if is_unusual {
        let description = "Process '".to_string().concat(proc.name.as_str()).concat(
            "' executed during unusual hours (hour ",
        ).concat(decimal_text(hour_at(timestamp) as u64).as_str()).concat(")");
        Some(
            seen_of(
                "unusual_time",
                5,
                s,
                "unusual_execution_time",
                400_000,
                description.as_str(),
                "defense-evasion",
                "T1036",
            ),
        )
    } else {
        None
    };
    push_finding(&mut found, hour);
    found
}

/// An address and a port.
pub open spec fn endpoint(net: NetworkEvent) -> Seq<char> {
    net.remote_ip@ + ":"@ + decimal(net.remote_port as nat)
}

fn endpoint_of(net: &NetworkEvent) -> (r: String)
    ensures
        r@ == endpoint(*net),
{
    net.remote_ip.clone().concat(":").concat(decimal_text(net.remote_port as u64).as_str())
}

/// What the check of how often a destination was seen finds.
pub open spec fn rare_check(b: SystemModel, net: NetworkEvent, sensitivity: u32) -> Option<
    FindingModel,
> {
    if rare(b, endpoint(net)) {
        Some(
            seen(
                "rare_destination"@,
                10,
                sensitivity,
                "rare_network_destination"@,
                500_000,
                "Process '"@ + net.process_name@ + "' connected to rare destination: "@ + endpoint(
                    net,
                ),
                "command-and-control"@,
                "T1071"@,
            ),
        )
    } else {
        None
    }
}

/// Whether enough is known of a process to compare with.
pub open spec fn well_known(b: SystemModel, name: Seq<char>) -> bool {
    b.processes.contains_key(lowercase(name)) && b.processes[lowercase(name)].observations >= 50
}

/// What the comparison of a destination with those of the process finds.
pub open spec fn destination_check(b: SystemModel, net: NetworkEvent, sensitivity: u32) -> Option<
    FindingModel,
> {
    if well_known(b, net.process_name@) && !b.processes[lowercase(
        net.process_name@,
    )].destinations.contains(lowercase(endpoint(net))) {
        Some(
            seen(
                "new_destination"@,
                8,
                sensitivity,
                "baseline_deviation_network"@,
                500_000,
                "Process '"@ + net.process_name@ + "' connected to new destination: "@ + endpoint(
                    net,
                ) + " (not in baseline)"@,
                "command-and-control"@,
                "T1071"@,
            ),
        )
    } else {
        None
    }
}

/// How far the number of values of a series stands from their mean.
pub open spec fn count_score(values: Seq<i32>) -> int {
    standard_score(values, values.len() as int * 1000)
}

/// What the check of the rate of connections finds.
pub open spec fn network_rate_check(
    b: SystemModel,
    net: NetworkEvent,
    threshold: u32,
    sensitivity: u32,
) -> Option<FindingModel> {
    let z = count_score(b.processes[lowercase(net.process_name@)].network_rate.values);
    if well_known(b, net.process_name@) && (z > threshold || -z > threshold) {
        Some(
            seen(
                "network_rate_anomaly"@,
                12,
                sensitivity,
                "network_rate_anomaly"@,
                600_000,
                "Process '"@ + net.process_name@ + "' network activity anomaly: z-score "@
                    + signed_hundredths(z),
                "command-and-control"@,
                "T1071"@,
            ),
        )
    } else {
        None
    }
}

/// What the check for a program that has no business on the network finds: the
/// pattern at a position, where `word` stands in the process's name.
pub open spec fn program_check(
    i: int,
    word: Seq<char>,
    confidence: u32,
    name: Seq<char>,
    sensitivity: u32,
) -> Option<FindingModel> {
    if occurs(word, lowercase(name)) {
        let p = pattern(i);
        Some(
            seen(
                p.name,
                p.score,
                sensitivity,
                p.name,
                confidence,
                p.description,
                p.tactic,
                p.technique,
            ),
        )
    } else {
        None
    }
}

/// All that is found in a network connection.
pub open spec fn network_findings(config: BehavioralConfig, b: SystemModel, net: NetworkEvent) -> Seq<
    FindingModel,
> {
    let s = config.sensitivity;
    at_most_one(rare_check(b, net, s)) + at_most_one(destination_check(b, net, s)) + at_most_one(
        network_rate_check(b, net, config.zscore_threshold, s),
    ) + at_most_one(program_check(7, "rundll32"@, 600_000, net.process_name@, s)) + at_most_one(
        program_check(8, "regsvr32"@, 700_000, net.process_name@, s),
    )
}

fn check_program(i: usize, word: &str, confidence: u32, name: &str, sensitivity: u32) -> (r: Option<
    Finding,
>)
    requires
        i < 9,
    ensures
        finding_view(r) == program_check(i as int, word@, confidence, name@, sensitivity),
{
    if contains(to_lowercase(name).as_str(), word) {
        let p = suspicious_pattern(i);
        Some(
            seen_of(
                p.name,
                p.score,
                sensitivity,
                p.name,
                confidence,
                p.description,
                p.mitre_tactic,
                p.mitre_technique,
            ),
        )
    } else {
        None
    }
}

/// Holds a network connection against what is usual.
pub fn check_network(config: &BehavioralConfig, b: &SystemBaseline, net: &NetworkEvent) -> (r: Vec<
    Finding,
>)
    requires
        b.wf(),
    ensures
        findings_view(r@) == network_findings(*config, b@, *net),
{
    let s: u32 = config.sensitivity;
    let destination = endpoint_of(net);
    let name = net.process_name.as_str();
    let mut found: Vec<Finding> = Vec::new();
    assert(findings_view(found@) =~= Seq::empty());
    let first = if b.is_rare_destination(destination.as_str()) {
        let description = "Process '".to_string().concat(name).concat(
            "' connected to rare destination: ",
        ).concat(destination.as_str());
        Some(
            seen_of(
                "rare_destination",
                10,
                s,
                "rare_network_destination",
                500_000,
                description.as_str(),
                "command-and-control",
                "T1071",
            ),
        )
    } else {
        None
    };
    push_finding(&mut found, first);
    assert(findings_view(found@) =~= at_most_one(rare_check(b@, *net, s)));
    let mut second: Option<Finding> = None;
    let mut third: Option<Finding> = None;
    if let Some(known) = b.process_baselines.get(to_lowercase(name).as_str()) {
        if known.observation_count >= 50 {
            if !known.known_network_destinations.contains(
                to_lowercase(destination.as_str()).as_str(),
            ) {
                let description = "Process '".to_string().concat(name).concat(
                    "' connected to new destination: ",
                ).concat(destination.as_str()).concat(" (not in baseline)");
                second = Some(
                    seen_of(
                        "new_destination",
                        8,
                        s,
                        "baseline_deviation_network",
                        500_000,
                        description.as_str(),
                        "command-and-control",
                        "T1071",
                    ),
                );
            }
            proof {
                known.network_rate_stats.lemma_wf();
            }
            let rate: i64 = known.network_rate_stats.count() as i64 * 1000;
            let z: i128 = known.network_rate_stats.zscore(rate);
            if z > config.zscore_threshold as i128 || -z > config.zscore_threshold as i128 {
                let description = "Process '".to_string().concat(name).concat(
                    "' network activity anomaly: z-score ",
                ).concat(signed_hundredths_text(z).as_str());
                third = Some(
                    seen_of(
                        "network_rate_anomaly",
                        12,
                        s,
                        "network_rate_anomaly",
                        600_000,
                        description.as_str(),
                        "command-and-control",
                        "T1071",
                    ),
                );
            }
        }
    }
    assert(finding_view(second) == destination_check(b@, *net, s));
    assert(finding_view(third) == network_rate_check(b@, *net, config.zscore_threshold, s));
    push_finding(&mut found, second);
    push_finding(&mut found, third);
    push_finding(&mut found, check_program(7, "rundll32", 600_000, name, s));
    push_finding(&mut found, check_program(8, "regsvr32", 700_000, name, s));
    found
}

/// What a process did to files within a while.
pub struct EncryptionPattern {
    pub file_mod_count: u64,
    pub extension_changes: TextSet,
    pub high_entropy_count: u64,
    pub window_start: u64,
}

/// What was counted.
#[verifier::ext_equal]
pub struct EncryptionModel {
    pub modified: u64,
    pub extensions: Set<Seq<char>>,
    pub high_entropy: u64,
    pub window_start: u64,
}

impl View for EncryptionPattern {
    type V = EncryptionModel;

    open spec fn view(&self) -> EncryptionModel {
        EncryptionModel {
            modified: self.file_mod_count,
            extensions: self.extension_changes@,
            high_entropy: self.high_entropy_count,
            window_start: self.window_start,
        }
    }
}

/// For how long operations on files are counted together, in milliseconds.
pub const ENCRYPTION_WINDOW_MS: u64 = 300_000;

/// The entropy from which on contents look encrypted, in millionths of a bit.
pub const ENCRYPTED_ENTROPY: u32 = 7_500_000;

/// Nothing counted since a time.
pub open spec fn nothing_counted(timestamp: u64) -> EncryptionModel {
    EncryptionModel {
        modified: 0,
        extensions: Set::empty(),
        high_entropy: 0,
        window_start: timestamp,
    }
}

/// Whether an operation changes a file's contents.
pub open spec fn changes_contents(operation: Seq<char>) -> bool {
    operation == "modify"@ || operation == "write"@
}

/// What is counted of a process after an operation on a file.
pub open spec fn after_operation(
    before: Option<EncryptionModel>,
    file: FileEvent,
    extension: Option<Seq<char>>,
    timestamp: u64,
) -> EncryptionModel {
    let p = match before {
        Some(p) => if timestamp - p.window_start > ENCRYPTION_WINDOW_MS {
            nothing_counted(timestamp)
        } else {
            p
        },
        None => nothing_counted(timestamp),
    };
    if changes_contents(file.operation@) {
        EncryptionModel {
            modified: counted(p.modified),
            extensions: match extension {
                Some(e) => p.extensions.insert(e),
                None => p.extensions,
            },
            high_entropy: if file.entropy > ENCRYPTED_ENTROPY {
                counted(p.high_entropy)
            } else {
                p.high_entropy
            },
            window_start: p.window_start,
        }
    } else {
        p
    }
}

/// Whether a process changes files as if it encrypted them: more than twenty, of
/// more than three kinds, more than ten to contents that look encrypted.
pub open spec fn encrypts(p: EncryptionModel) -> bool {
    p.modified > 20 && p.high_entropy > 10 && p.extensions.len() > 3
}

/// What the check for encryption finds.
pub open spec fn encryption_check(p: EncryptionModel, file: FileEvent, sensitivity: u32) -> Option<
    FindingModel,
> {
    if changes_contents(file.operation@) && encrypts(p) {
        Some(
            FindingModel {
                factor: "ransomware_behavior"@,
                score: scaled(40, sensitivity),
                detection: DetectionModel {
                    detection_type: DetectionType::Ransomware,
                    rule_name: "mass_file_encryption"@,
                    confidence: 900_000,
                    description: "Potential ransomware: "@ + file.process_name@ + " modified "@
                        + decimal(p.modified as nat) + " files, "@ + decimal(p.high_entropy as nat)
                        + " high-entropy, "@ + decimal(p.extensions.len()) + " extension changes"@,
                    mitre_tactics: seq!["impact"@],
                    mitre_techniques: seq!["T1486"@],
                },
            },
        )
    } else {
        None
    }
}

impl EncryptionPattern {
    /// Each extension stands once.
    pub open spec fn wf(&self) -> bool {
        self.extension_changes.wf()
    }

    /// Nothing counted since a time.
    pub fn starting_at(timestamp: u64) -> (r: EncryptionPattern)
        ensures
            r.wf(),
            r@ == nothing_counted(timestamp),
    {
        EncryptionPattern {
            file_mod_count: 0,
            extension_changes: TextSet::new(),
            high_entropy_count: 0,
            window_start: timestamp,
        }
    }
}

/// Counts an operation on a file, and says what it was counted to.
pub fn track_operation(
    before: Option<EncryptionPattern>,
    file: &FileEvent,
    extension: Option<&str>,
    timestamp: u64,
) -> (r: EncryptionPattern)
    requires
        before matches Some(p) ==> p.wf(),
    ensures
        r.wf(),
        r@ == after_operation(
            match before {
                Some(p) => Some(p@),
                None => None,
            },
            *file,
            str_view(extension),
            timestamp,
        ),
{
    let mut p: EncryptionPattern = match before {
        Some(p) => {
            if timestamp > p.window_start && timestamp - p.window_start > ENCRYPTION_WINDOW_MS {
                EncryptionPattern::starting_at(timestamp)
            } else {
                p
            }
        },
        None => EncryptionPattern::starting_at(timestamp),
    };
    if same(file.operation.as_str(), "modify") || same(file.operation.as_str(), "write") {
        p.file_mod_count = count_up(p.file_mod_count);
        if let Some(e) = extension {
            p.extension_changes.insert(e.to_string());
        }
        if file.entropy > ENCRYPTED_ENTROPY {
            p.high_entropy_count = count_up(p.high_entropy_count);
        }
    }
    p
}

fn check_encryption(p: &EncryptionPattern, file: &FileEvent, sensitivity: u32) -> (r: Option<
    Finding,
>)
    requires
        p.wf(),
    ensures
        finding_view(r) == encryption_check(p@, *file, sensitivity),
{
    if !(same(file.operation.as_str(), "modify") || same(file.operation.as_str(), "write")) {
        return None;
    }
    let extensions: usize = p.extension_changes.len();
    if p.file_mod_count > 20 && p.high_entropy_count > 10 && extensions > 3 {
        let mitre_tactics = vec!["impact".to_string()];
        let mitre_techniques = vec!["T1486".to_string()];
        assert(texts(mitre_tactics@) =~= seq!["impact"@]);
        assert(texts(mitre_techniques@) =~= seq!["T1486"@]);
        Some(
            Finding {
                factor: "ransomware_behavior".to_string(),
                score: scale(40, sensitivity),
                detection: Detection {
                    detection_type: DetectionType::Ransomware,
                    rule_name: "mass_file_encryption".to_string(),
                    confidence: 900_000,
                    description: "Potential ransomware: ".to_string().concat(
                        file.process_name.as_str(),
                    ).concat(" modified ").concat(decimal_text(p.file_mod_count).as_str()).concat(
                        " files, ",
                    ).concat(decimal_text(p.high_entropy_count).as_str()).concat(
                        " high-entropy, ",
                    ).concat(decimal_text(extensions as u64).as_str()).concat(" extension changes"),
                    mitre_tactics,
                    mitre_techniques,
                },
            },
        )
    } else {
        None
    }
}

/// What an optional string slice holds.
pub open spec fn str_view(s: Option<&str>) -> Option<Seq<char>> {
    match s {
        Some(s) => Some(s@),
        None => None,
    }
}

/// Whether a text begins with a member of a set.
pub open spec fn begins_with_known(text: Seq<char>, known: Set<Seq<char>>) -> bool {
    exists|p: Seq<char>| known.contains(p) && #[trigger] begins(text, p)
}

/// What the comparison of a file's directory with those of the process finds.
pub open spec fn directory_check(
    b: SystemModel,
    file: FileEvent,
    directory: Option<Seq<char>>,
    sensitivity: u32,
) -> Option<FindingModel> {
    if well_known(b, file.process_name@) && directory is Some && !begins_with_known(
        lowercase(directory->0),
        b.processes[lowercase(file.process_name@)].directories,
    ) {
        Some(
            seen(
                "unusual_file_access"@,
                8,
                sensitivity,
                "baseline_deviation_file"@,
                500_000,
                "Process '"@ + file.process_name@ + "' accessing unusual path: "@ + file.path@,
                "collection"@,
                "T1005"@,
            ),
        )
    } else {
        None
    }
}

/// What the check of the rate of operations on files finds.
pub open spec fn file_rate_check(
    b: SystemModel,
    file: FileEvent,
    threshold: u32,
    sensitivity: u32,
) -> Option<FindingModel> {
    let z = count_score(b.processes[lowercase(file.process_name@)].file_rate.values);
    if well_known(b, file.process_name@) && z > threshold {
        Some(
            seen(
                "file_rate_anomaly"@,
                15,
                sensitivity,
                "file_rate_anomaly"@,
                700_000,
                "Process '"@ + file.process_name@ + "' file operation rate anomaly: z-score "@
                    + signed_hundredths(z),
                "impact"@,
                "T1486"@,
            ),
        )
    } else {
        None
    }
}

/// All that is found in an operation on a file, after it was counted.
pub open spec fn file_findings(
    config: BehavioralConfig,
    b: SystemModel,
    p: EncryptionModel,
    file: FileEvent,
    directory: Option<Seq<char>>,
) -> Seq<FindingModel> {
    let s = config.sensitivity;
    at_most_one(encryption_check(p, file, s)) + at_most_one(directory_check(b, file, directory, s))
        + at_most_one(file_rate_check(b, file, config.zscore_threshold, s))
}

/// Holds an operation on a file against what is usual.
pub fn check_file(
    config: &BehavioralConfig,
    b: &SystemBaseline,
    p: &EncryptionPattern,
    file: &FileEvent,
    directory: Option<&str>,
) -> (r: Vec<Finding>)
    requires
        b.wf(),
        p.wf(),
    ensures
        findings_view(r@) == file_findings(*config, b@, p@, *file, str_view(directory)),
{
    let s: u32 = config.sensitivity;
    let name = file.process_name.as_str();
    let mut found: Vec<Finding> = Vec::new();
    assert(findings_view(found@) =~= Seq::empty());
    push_finding(&mut found, check_encryption(p, file, s));
    assert(findings_view(found@) =~= at_most_one(encryption_check(p@, *file, s)));
    let mut second: Option<Finding> = None;
    let mut third: Option<Finding> = None;
    if let Some(known) = b.process_baselines.get(to_lowercase(name).as_str()) {
        if known.observation_count >= 50 {
            if let Some(d) = directory {
                if !known.known_file_patterns.prefixes(to_lowercase(d).as_str()) {
                    let description = "Process '".to_string().concat(name).concat(
                        "' accessing unusual path: ",
                    ).concat(file.path.as_str());
                    second = Some(
                        seen_of(
                            "unusual_file_access",
                            8,
                            s,
                            "baseline_deviation_file",
                            500_000,
                            description.as_str(),
                            "collection",
                            "T1005",
                        ),
                    );
                }
            }
            proof {
                known.file_rate_stats.lemma_wf();
            }
            let rate: i64 = known.file_rate_stats.count() as i64 * 1000;
            let z: i128 = known.file_rate_stats.zscore(rate);
            if z > config.zscore_threshold as i128 {
                let description = "Process '".to_string().concat(name).concat(
                    "' file operation rate anomaly: z-score ",
                ).concat(signed_hundredths_text(z).as_str());
                third = Some(
                    seen_of(
                        "file_rate_anomaly",
                        15,
                        s,
                        "file_rate_anomaly",
                        700_000,
                        description.as_str(),
                        "impact",
                        "T1486",
                    ),
                );
            }
        }
    }
    assert(finding_view(second) == directory_check(b@, *file, str_view(directory), s));
    assert(finding_view(third) == file_rate_check(b@, *file, config.zscore_threshold, s));
    push_finding(&mut found, second);
    push_finding(&mut found, third);
    found
}

/// Registry keys that start programs.
pub const PERSISTENCE_KEYS: [&'static str; 5] = [
    "software\\microsoft\\windows\\currentversion\\run",
    "software\\microsoft\\windows\\currentversion\\runonce",
    "software\\microsoft\\windows nt\\currentversion\\winlogon",
    "system\\currentcontrolset\\services",
    "software\\microsoft\\windows\\currentversion\\explorer\\shell folders",
];

/// Registry keys of the system's protection.
pub const SECURITY_KEYS: [&'static str; 4] = [
    "software\\microsoft\\windows defender",
    "software\\policies\\microsoft\\windows defender",
    "system\\currentcontrolset\\services\\winsock",
    "software\\microsoft\\windows\\currentversion\\policies\\system",
];

/// All that is found in a change of the registry.
pub open spec fn registry_findings(config: BehavioralConfig, b: SystemModel, reg: RegistryEvent) -> Seq<
    FindingModel,
> {
    let s = config.sensitivity;
    let key = lowercase(reg.key_path@);
    at_most_one(
        if any_occurs(PERSISTENCE_KEYS@, key) {
            Some(
                seen(
                    "persistence_registry"@,
                    20,
                    s,
                    "persistence_registry"@,
                    700_000,
                    "Process '"@ + reg.process_name@ + "' modifying persistence key: "@
                        + reg.key_path@,
                    "persistence"@,
                    "T1547.001"@,
                ),
            )
        } else {
            None
        },
    ) + at_most_one(
        if any_occurs(SECURITY_KEYS@, key) {
            Some(
                seen(
                    "security_registry"@,
                    25,
                    s,
                    "security_registry_modification"@,
                    800_000,
                    "Process '"@ + reg.process_name@ + "' modifying security-related key: "@
                        + reg.key_path@,
                    "defense-evasion"@,
                    "T1562.001"@,
                ),
            )
        } else {
            None
        },
    ) + at_most_one(
        if well_known(b, reg.process_name@) && !begins_with_known(
            key,
            b.processes[lowercase(reg.process_name@)].registry_keys,
        ) {
            Some(
                seen(
                    "unusual_registry"@,
                    10,
                    s,
                    "baseline_deviation_registry"@,
                    500_000,
                    "Process '"@ + reg.process_name@ + "' accessing unusual registry key: "@
                        + reg.key_path@,
                    "defense-evasion"@,
                    "T1112"@,
                ),
            )
        } else {
            None
        },
    )
}

/// Holds a change of the registry against what is usual and against the keys
/// that matter.
pub fn check_registry(config: &BehavioralConfig, b: &SystemBaseline, reg: &RegistryEvent) -> (r: Vec<
    Finding,
>)
    requires
        b.wf(),
    ensures
        findings_view(r@) == registry_findings(*config, b@, *reg),
{
    let s: u32 = config.sensitivity;
    let name = reg.process_name.as_str();
    let key = to_lowercase(reg.key_path.as_str());
    let mut found: Vec<Finding> = Vec::new();
    assert(findings_view(found@) =~= Seq::empty());
    if contains_any(key.as_str(), &PERSISTENCE_KEYS) {
        let description = "Process '".to_string().concat(name).concat(
            "' modifying persistence key: ",
        ).concat(reg.key_path.as_str());
        push_finding(
            &mut found,
            Some(
                seen_of(
                    "persistence_registry",
                    20,
                    s,
                    "persistence_registry",
                    700_000,
                    description.as_str(),
                    "persistence",
                    "T1547.001",
                ),
            ),
        );
    }
    if contains_any(key.as_str(), &SECURITY_KEYS) {
        let description = "Process '".to_string().concat(name).concat(
            "' modifying security-related key: ",
        ).concat(reg.key_path.as_str());
        push_finding(
            &mut found,
            Some(
                seen_of(
                    "security_registry",
                    25,
                    s,
                    "security_registry_modification",
                    800_000,
                    description.as_str(),
                    "defense-evasion",
                    "T1562.001",
                ),
            ),
        );
    }
    let unusual = match b.process_baselines.get(to_lowercase(name).as_str()) {
        Some(known) => known.observation_count >= 50 && !known.known_registry_patterns.prefixes(
            key.as_str(),
        ),
        None => false,
    };
    if unusual {
        let description = "Process '".to_string().concat(name).concat(
            "' accessing unusual registry key: ",
        ).concat(reg.key_path.as_str());
        push_finding(
            &mut found,
            Some(
                seen_of(
                    "unusual_registry",
                    10,
                    s,
                    "baseline_deviation_registry",
                    500_000,
                    description.as_str(),
                    "defense-evasion",
                    "T1112",
                ),
            ),
        );
    }
    assert(findings_view(found@) =~= registry_findings(*config, b@, *reg));
    found
}

/// Whether a character is a vowel.
pub open spec fn vowel(c: char) -> bool {
    c == 'a' || c == 'e' || c == 'i' || c == 'o' || c == 'u'
}

/// Whether a character is a consonant; `y` is neither.
pub open spec fn consonant(c: char) -> bool {
    'a' <= c <= 'z' && !vowel(c) && c != 'y'
}

/// How many of the first `n` characters are consonants.
pub open spec fn consonants(text: Seq<char>, n: nat) -> nat
    decreases n,
{
    if n == 0 {
        0
    } else {
        consonants(text, (n - 1) as nat) + if consonant(text[n - 1]) {
            1nat
        } else {
            0nat
        }
    }
}

/// How many of the first `n` characters are consonants or vowels.
pub open spec fn letters(text: Seq<char>, n: nat) -> nat
    decreases n,
{
    if n == 0 {
        0
    } else {
        letters(text, (n - 1) as nat) + if consonant(text[n - 1]) || vowel(text[n - 1]) {
            1nat
        } else {
            0nat
        }
    }
}

fn letter_counts(text: &str) -> (r: (usize, usize))
    ensures
        r.0 == consonants(text@, text@.len()),
        r.1 == letters(text@, text@.len()),
        r.0 <= r.1 <= text@.len(),
        text@.len() <= usize::MAX,
{
    let chars = characters(text);
    let mut c: usize = 0;
    let mut l: usize = 0;
    let mut i: usize = 0;
    assert(chars.len() == text@.len());
    while i < chars.len()
        invariant
            i <= chars@.len(),
            chars@ == text@,
            c == consonants(text@, i as nat),
            l == letters(text@, i as nat),
            c <= l <= i,
        decreases chars@.len() - i,
    {
        let x = chars[i];
        let is_vowel = x == 'a' || x == 'e' || x == 'i' || x == 'o' || x == 'u';
        if 'a' <= x && x <= 'z' && !is_vowel && x != 'y' {
            c += 1;
            l += 1;
        } else if is_vowel {
            l += 1;
        }
        i += 1;
    }
    (c, l)
}

/// How large the part of consonants among the letters is, in millionths.
pub fn consonant_ratio(text: &str) -> (r: u32)
    ensures
        r == if letters(text@, text@.len()) == 0 {
            0
        } else {
            consonants(text@, text@.len()) * 1_000_000 / letters(text@, text@.len())
        },
{
    let (c, l) = letter_counts(text);
    if l == 0 {
        return 0;
    }
    let part: u128 = c as u128 * 1_000_000 / l as u128;
    assert(part <= 1_000_000) by (nonlinear_arith)
        requires
            part == (c * 1_000_000) / (l as int),
            c <= l,
            l > 0,
    ;
    part as u32
}

/// How often each character of a text stands in it: one count for each, in the
/// order in which they first occur.
pub fn character_counts(text: &str) -> (r: Vec<(char, u64)>)
    requires
        text@.len() <= u64::MAX,
    ensures
        forall|i: int, j: int|
            0 <= i < j < r@.len() ==> (#[trigger] r@[i]).0 != (#[trigger] r@[j]).0,
        forall|i: int|
            0 <= i < r@.len() ==> (#[trigger] r@[i]).1 == times(text@, r@[i].0, text@.len())
                && r@[i].1 > 0,
        forall|k: int|
            0 <= k < text@.len() ==> exists|i: int|
                0 <= i < r@.len() && (#[trigger] r@[i]).0 == #[trigger] text@[k],
{
    let chars = characters(text);
    let mut r: Vec<(char, u64)> = Vec::new();
    let mut k: usize = 0;
    while k < chars.len()
        invariant
            k <= chars@.len(),
            chars@ == text@,
            text@.len() <= u64::MAX,
            forall|i: int, j: int|
                0 <= i < j < r@.len() ==> (#[trigger] r@[i]).0 != (#[trigger] r@[j]).0,
            forall|i: int|
                0 <= i < r@.len() ==> (#[trigger] r@[i]).1 == times(text@, r@[i].0, k as nat)
                    && 0 < r@[i].1 <= k,
            forall|m: int|
                0 <= m < k ==> exists|i: int|
                    0 <= i < r@.len() && (#[trigger] r@[i]).0 == #[trigger] text@[m],
            forall|c: char|
                (forall|i: int| 0 <= i < r@.len() ==> (#[trigger] r@[i]).0 != c)
                    ==> #[trigger] times(text@, c, k as nat) == 0,
        decreases chars@.len() - k,
    {
        let c = chars[k];
        let ghost before = r@;
        let mut at: usize = 0;
        while at < r.len() && r[at].0 != c
            invariant
                at <= r@.len(),
                forall|j: int| 0 <= j < at ==> (#[trigger] r@[j]).0 != c,
            decreases r@.len() - at,
        {
            at += 1;
        }
        if at < r.len() {
            let n: u64 = r[at].1 + 1;
            r.set(at, (c, n));
        } else {
            assert(times(text@, c, k as nat) == 0);
            r.push((c, 1));
        }
        assert(r@[at as int].0 == c);
        assert forall|i: int, j: int| 0 <= i < j < r@.len() implies (#[trigger] r@[i]).0 != (
        #[trigger] r@[j]).0 by {
            if j < before.len() {
                assert(before[i].0 != before[j].0);
            }
        }
        assert forall|i: int| 0 <= i < r@.len() implies (#[trigger] r@[i]).1 == times(
            text@,
            r@[i].0,
            (k + 1) as nat,
        ) && 0 < r@[i].1 <= k + 1 by {
            if i != at {
                assert(before[i].1 == times(text@, before[i].0, k as nat));
                if at < before.len() {
                    assert(before[at as int].0 != before[i].0);
                }
            }
        }
        assert forall|m: int| 0 <= m < k + 1 implies exists|i: int|
            0 <= i < r@.len() && (#[trigger] r@[i]).0 == #[trigger] text@[m] by {
            if m < k {
                let i = choose|i: int|
                    0 <= i < before.len() && (#[trigger] before[i]).0 == text@[m];
                assert(r@[i].0 == before[i].0);
            } else {
                assert(r@[at as int].0 == text@[m]);
            }
        }
        assert forall|d: char|
            (forall|i: int| 0 <= i < r@.len() ==> (#[trigger] r@[i]).0 != d) implies
            #[trigger] times(text@, d, (k + 1) as nat) == 0 by {
            assert(r@[at as int].0 != d);
            assert forall|i: int| 0 <= i < before.len() implies (#[trigger] before[i]).0 != d by {
                assert(r@[i].0 == before[i].0);
            }
            assert(times(text@, d, k as nat) == 0);
        }
        k += 1;
    }
    assert forall|m: int| 0 <= m < text@.len() implies exists|i: int|
        0 <= i < r@.len() && (#[trigger] r@[i]).0 == #[trigger] text@[m] by {
        let i = choose|i: int| 0 <= i < r@.len() && (#[trigger] r@[i]).0 == text@[m];
        assert(r@[i].0 == text@[m]);
    }
    r
}

/// How often `c` stands among the first `n` characters.
pub open spec fn times(text: Seq<char>, c: char, n: nat) -> nat
    decreases n,
{
    if n == 0 {
        0
    } else {
        times(text, c, (n - 1) as nat) + if text[n - 1] == c {
            1nat
        } else {
            0nat
        }
    }
}

/// Endings of domains that attackers like.
pub const SUSPICIOUS_TLDS: [&'static str; 9] = [
    ".tk",
    ".ml",
    ".ga",
    ".cf",
    ".gq",
    ".top",
    ".xyz",
    ".work",
    ".click",
];

/// Whether a domain looks generated: long, of high entropy, and more than seven
/// in ten of its letters are consonants.
pub open spec fn looks_generated(domain: Seq<char>, entropy: u32) -> bool {
    entropy > 4_000_000 && vstd::utf8::encode_utf8(domain).len() > 15 && consonants(
        domain,
        domain.len(),
    ) * 10 > letters(domain, domain.len()) * 7
}

/// All that is found in a lookup of a name, whose entropy in lower case is
/// given.
pub open spec fn dns_findings(config: BehavioralConfig, dns: DnsEvent, entropy: u32) -> Seq<
    FindingModel,
> {
    let s = config.sensitivity;
    let query = lowercase(dns.query@);
    at_most_one(
        if looks_generated(query, entropy) {
            Some(
                seen(
                    "dga_domain"@,
                    15,
                    s,
                    "potential_dga_domain"@,
                    700_000,
                    "Potential DGA domain queried by '"@ + dns.process_name@ + "': "@ + dns.query@
                        + " (entropy: "@ + hundredths(rounded(entropy as nat, 10_000)) + ")"@,
                    "command-and-control"@,
                    "T1568.002"@,
                ),
            )
        } else {
            None
        },
    ) + at_most_one(
        if any_ends(query, SUSPICIOUS_TLDS@) {
            Some(
                seen(
                    "suspicious_tld"@,
                    8,
                    s,
                    "suspicious_tld"@,
                    500_000,
                    "Query to suspicious TLD by '"@ + dns.process_name@ + "': "@ + dns.query@,
                    "command-and-control"@,
                    "T1071.004"@,
                ),
            )
        } else {
            None
        },
    )
}

/// Holds a lookup of a name, whose entropy in lower case is given, against what
/// generated names look like.
pub fn check_dns(config: &BehavioralConfig, dns: &DnsEvent, entropy: u32) -> (r: Vec<Finding>)
    ensures
        findings_view(r@) == dns_findings(*config, *dns, entropy),
{
    let s: u32 = config.sensitivity;
    let name = dns.process_name.as_str();
    let query = to_lowercase(dns.query.as_str());
    let mut found: Vec<Finding> = Vec::new();
    assert(findings_view(found@) =~= Seq::empty());
    let (c, l) = letter_counts(query.as_str());
    if entropy > 4_000_000 && query.as_str().as_bytes().len() > 15 && c as u128 * 10 > l as u128
        * 7 {
        let description = "Potential DGA domain queried by '".to_string().concat(name).concat(
            "': ",
        ).concat(dns.query.as_str()).concat(" (entropy: ").concat(
            hundredths_text(round_to(entropy as u64, 10_000)).as_str(),
        ).concat(")");
        push_finding(
            &mut found,
            Some(
                seen_of(
                    "dga_domain",
                    15,
                    s,
                    "potential_dga_domain",
                    700_000,
                    description.as_str(),
                    "command-and-control",
                    "T1568.002",
                ),
            ),
        );
    }
    if ends_with_any(query.as_str(), &SUSPICIOUS_TLDS) {
        let description = "Query to suspicious TLD by '".to_string().concat(name).concat(
            "': ",
        ).concat(dns.query.as_str());
        push_finding(
            &mut found,
            Some(
                seen_of(
                    "suspicious_tld",
                    8,
                    s,
                    "suspicious_tld",
                    500_000,
                    description.as_str(),
                    "command-and-control",
                    "T1071.004",
                ),
            ),
        );
    }
    assert(findings_view(found@) =~= dns_findings(*config, *dns, entropy));
    found
}

/// The factors that alone make a score worth acting on.
pub const STRONG_SIGNALS: [&'static str; 11] = [
    "browser_process_spawn",
    "encoded_command",
    "lsass_masquerade",
    "office_shell_spawn",
    "policy_bypass",
    "ransomware_behavior",
    "regsvr32_network",
    "rundll32_network",
    "svchost_unusual_parent",
    "temp_execution",
    "wmiprvse_spawn",
];

/// The factors that together make a score worth acting on.
pub const CONTEXTUAL_SIGNALS: [&'static str; 5] = [
    "baseline_deviation_child",
    "file_rate_anomaly",
    "network_rate_anomaly",
    "new_destination",
    "rare_destination",
];

/// The sum of the scores of factors, without those of the time of day.
pub open spec fn untimed_score(factors: Seq<FactorModel>) -> nat
    decreases factors.len(),
{
    if factors.len() == 0 {
        0
    } else {
        untimed_score(factors.drop_last()) + if factors.last().name == "unusual_time"@ {
            0
        } else {
            factors.last().score as nat
        }
    }
}

/// Whether one of the factors is a strong one.
pub open spec fn strong_signal(factors: Seq<FactorModel>) -> bool {
    exists|i: int|
        0 <= i < factors.len() && is_one_of((#[trigger] factors[i]).name, STRONG_SIGNALS@)
}

/// Whether two different ones of the factors say something about the context.
pub open spec fn two_contexts(factors: Seq<FactorModel>) -> bool {
    exists|i: int, j: int|
        0 <= i < factors.len() && 0 <= j < factors.len() && (#[trigger] factors[i]).name != (
        #[trigger] factors[j]).name && is_one_of(factors[i].name, CONTEXTUAL_SIGNALS@) && is_one_of(
            factors[j].name,
            CONTEXTUAL_SIGNALS@,
        )
}

/// Whether a score rests on something to act on: a strong factor, or two of the
/// context and half the threshold without the time of day.
pub open spec fn actionable(factors: Seq<FactorModel>, alert_threshold: u64) -> bool {
    strong_signal(factors) || (two_contexts(factors) && untimed_score(factors) * 2
        >= alert_threshold)
}

impl BehavioralAnalyzer {
    /// Whether a score rests on something to act on.
    pub fn risk_score_has_actionable_signal(score: &RiskScore, alert_threshold: u64) -> (r: bool)
        ensures
            r == actionable(score@.factors, alert_threshold),
    {
        let ghost all = score@.factors;
        let mut i: usize = 0;
        while i < score.factors.len()
            invariant
                i <= score.factors@.len(),
                all == score@.factors,
                forall|j: int| 0 <= j < i ==> !is_one_of((#[trigger] all[j]).name, STRONG_SIGNALS@),
            decreases score.factors@.len() - i,
        {
            assert(all[i as int] == score.factors@[i as int]@);
            if one_of(score.factors[i].name.as_str(), &STRONG_SIGNALS) {
                return true;
            }
            i += 1;
        }
        let mut first: Option<usize> = None;
        let mut two = false;
        let mut sum: u128 = 0;
        let mut k: usize = 0;
        assert(all.take(0) =~= Seq::empty());
        while k < score.factors.len()
            invariant
                k <= score.factors@.len(),
                all == score@.factors,
                sum == untimed_score(all.take(k as int)),
                sum <= k * 0xffff_ffff_ffff_ffff,
                match first {
                    Some(f) => f < k && is_one_of(all[f as int].name, CONTEXTUAL_SIGNALS@),
                    None => forall|j: int|
                        0 <= j < k ==> !is_one_of((#[trigger] all[j]).name, CONTEXTUAL_SIGNALS@),
                },
                two == exists|j: int|
                    0 <= j < k && first is Some && (#[trigger] all[j]).name != all[first->0 as int].name
                        && is_one_of(all[j].name, CONTEXTUAL_SIGNALS@),
            decreases score.factors@.len() - k,
        {
            assert(all.take(k + 1).drop_last() =~= all.take(k as int));
            assert(all[k as int] == score.factors@[k as int]@);
            let factor = &score.factors[k];
            if one_of(factor.name.as_str(), &CONTEXTUAL_SIGNALS) {
                match first {
                    Some(f) => {
                        if !same(score.factors[f].name.as_str(), factor.name.as_str()) {
                            assert(all[f as int] == score.factors@[f as int]@);
                            assert(all[k as int].name != all[f as int].name);
                            two = true;
                        }
                    },
                    None => {
                        first = Some(k);
                    },
                }
            }
            if !same(factor.name.as_str(), "unusual_time") {
                sum = sum + factor.score as u128;
            }
            k += 1;
        }
        assert(all.take(k as int) =~= all);
        assert(two == two_contexts(all)) by {
            if two_contexts(all) {
                let (a, b) = choose|a: int, b: int|
                    0 <= a < all.len() && 0 <= b < all.len() && (#[trigger] all[a]).name != (
                    #[trigger] all[b]).name && is_one_of(all[a].name, CONTEXTUAL_SIGNALS@) && is_one_of(
                        all[b].name,
                        CONTEXTUAL_SIGNALS@,
                    );
                let f = first->0 as int;
                if all[a].name != all[f].name {
                    assert(two);
                } else {
                    assert(all[b].name != all[f].name);
                    assert(two);
                }
            }
            if two {
                let j = choose|j: int|
                    0 <= j < all.len() && first is Some && (#[trigger] all[j]).name
                        != all[first->0 as int].name && is_one_of(all[j].name, CONTEXTUAL_SIGNALS@);
                assert(all[j].name != all[first->0 as int].name);
            }
        }
        two && sum >= (alert_threshold as u128 + 1) / 2
    }
}

/// How sure the report of a score is that has reached the threshold.
pub open spec fn score_confidence(score: u64, threshold: u64) -> u32 {
    if score >= MAX_SCORE {
        1_000_000
    } else {
        (500_000 + (score - threshold) * 500_000 / (MAX_SCORE - threshold)) as u32
    }
}

/// The names of factors.
pub open spec fn factor_names(factors: Seq<FactorModel>) -> Seq<Seq<char>> {
    factors.map_values(|f: FactorModel| f.name)
}

/// The report of a process's score, where it has reached the threshold and rests
/// on something to act on.
pub open spec fn score_report(
    config: BehavioralConfig,
    risks: Map<Seq<char>, RiskModel>,
    name: Seq<char>,
) -> Option<DetectionModel> {
    let score = risks[lowercase(name)];
    if risks.contains_key(lowercase(name)) && score.score >= config.alert_threshold && actionable(
        score.factors,
        config.alert_threshold,
    ) {
        Some(
            behavioral_detection(
                "high_risk_score"@,
                score_confidence(score.score, config.alert_threshold),
                "Process '"@ + name + "' exceeded risk threshold: "@ + tenths(
                    rounded(score.score as nat, 100_000),
                ) + " (factors: "@ + joined(factor_names(score.factors), ", "@) + ")"@,
                "multiple"@,
                "multiple"@,
            ),
        )
    } else {
        None
    }
}

/// What the scores of processes say.
pub open spec fn risks_view(m: Map<Seq<char>, RiskScore>) -> Map<Seq<char>, RiskModel> {
    m.map_values(|r: RiskScore| r@)
}

/// The scores after one contribution.
pub open spec fn with_risk(
    risks: Map<Seq<char>, RiskModel>,
    process: Seq<char>,
    f: FindingModel,
    now: u64,
) -> Map<Seq<char>, RiskModel> {
    let key = lowercase(process);
    let before = if risks.contains_key(key) {
        risks[key]
    } else {
        no_risk(key, now)
    };
    risks.insert(
        key,
        with_factor(before, f.factor, f.score, f.detection.description, now),
    )
}

/// The scores after the contributions of findings.
pub open spec fn with_risks(
    risks: Map<Seq<char>, RiskModel>,
    process: Seq<char>,
    findings: Seq<FindingModel>,
    now: u64,
) -> Map<Seq<char>, RiskModel>
    decreases findings.len(),
{
    if findings.len() == 0 {
        risks
    } else {
        with_risk(
            with_risks(risks, process, findings.drop_last(), now),
            process,
            findings.last(),
            now,
        )
    }
}

/// Whether a score still says something.
pub open spec fn still_counts(m: RiskModel) -> bool {
    m.score > 0 || m.factors.len() > 0
}

/// The scores after time passed, without those that say nothing any more.
pub open spec fn decayed_risks(risks: Map<Seq<char>, RiskModel>, per_hour: u64, now: u64) -> Map<
    Seq<char>,
    RiskModel,
> {
    Map::new(
        |k: Seq<char>| risks.contains_key(k) && still_counts(decayed(risks[k], per_hour, now)),
        |k: Seq<char>| decayed(risks[k], per_hour, now),
    )
}

/// The name of a process, in a list of identifiers and names.
pub open spec fn with_name(names: Seq<(u32, Seq<char>)>, pid: u32, name: Seq<char>) -> Seq<
    (u32, Seq<char>),
>
    decreases names.len(),
{
    if names.len() == 0 {
        seq![(pid, name)]
    } else if names[0].0 == pid {
        seq![(pid, name)] + names.drop_first()
    } else {
        seq![names[0]] + with_name(names.drop_first(), pid, name)
    }
}

/// The last process of a name, which is in lower case.
pub open spec fn pid_named(names: Seq<(u32, Seq<char>)>, key: Seq<char>) -> Option<u32>
    decreases names.len(),
{
    if names.len() == 0 {
        None
    } else if lowercase(names.last().1) == key {
        Some(names.last().0)
    } else {
        pid_named(names.drop_last(), key)
    }
}

/// What names say.
pub open spec fn names_view(names: Seq<(u32, String)>) -> Seq<(u32, Seq<char>)> {
    names.map_values(|n: (u32, String)| (n.0, n.1@))
}

/// What is counted of processes.
pub open spec fn encryption_view(m: Map<u32, EncryptionPattern>) -> Map<u32, EncryptionModel> {
    m.map_values(|p: EncryptionPattern| p@)
}

/// What the analyzer knows.
#[verifier::ext_equal]
pub struct AnalyzerModel {
    pub baseline: SystemModel,
    pub risks: Map<Seq<char>, RiskModel>,
    pub encryption: Map<u32, EncryptionModel>,
    pub tree: Map<u32, u32>,
    pub names: Seq<(u32, Seq<char>)>,
}

/// Whether the analyzer still learns what is usual.
pub open spec fn learning(config: BehavioralConfig, b: SystemModel, now: u64) -> bool {
    !b.learning_complete && now < b.learning_start + config.learning_duration_hours * HOUR_MS
}

/// What is usual after an event. A file's directory is given.
pub open spec fn learned(
    b: SystemModel,
    payload: EventPayload,
    directory: Option<Seq<char>>,
    timestamp: u64,
) -> SystemModel {
    match payload {
        EventPayload::Process(proc) => {
            let name = proc.name@;
            let own = with_process(
                b,
                name,
                after_start(process_of(b, name), opt_text(proc.parent_name), timestamp),
            );
            match proc.parent_name {
                Some(parent) => with_process(
                    own,
                    parent@,
                    after_child(process_of(own, parent@), name),
                ),
                None => own,
            }
        },
        EventPayload::Network(net) => {
            let counted = after_destination(b, endpoint(net));
            with_process(
                counted,
                net.process_name@,
                after_connection(process_of(counted, net.process_name@), endpoint(net), timestamp),
            )
        },
        EventPayload::File(file) => with_process(
            b,
            file.process_name@,
            after_file(process_of(b, file.process_name@), directory, timestamp),
        ),
        EventPayload::Registry(reg) => with_process(
            b,
            reg.process_name@,
            after_registry(process_of(b, reg.process_name@), reg.key_path@),
        ),
        _ => b,
    }
}

/// Whether baselines are updated: while the analyzer learns, and afterwards where it
/// is to go on.
pub open spec fn updates_baselines(config: BehavioralConfig, b: SystemModel, now: u64) -> bool {
    config.continuous_learning || learning(config, b, now)
}

/// What the analyzer knows after it noted an event, and learned from it where it
/// updates baselines.
pub open spec fn noted(
    m: AnalyzerModel,
    payload: EventPayload,
    directory: Option<Seq<char>>,
    timestamp: u64,
    updates: bool,
) -> AnalyzerModel {
    AnalyzerModel {
        baseline: if updates {
            learned(m.baseline, payload, directory, timestamp)
        } else {
            m.baseline
        },
        risks: m.risks,
        encryption: m.encryption,
        tree: match payload {
            EventPayload::Process(proc) => m.tree.insert(proc.pid, proc.ppid),
            _ => m.tree,
        },
        names: match payload {
            EventPayload::Process(proc) => with_name(m.names, proc.pid, proc.name@),
            _ => m.names,
        },
    }
}

/// What was counted of a process.
pub open spec fn counted_of(m: Map<u32, EncryptionModel>, pid: u32) -> Option<EncryptionModel> {
    if m.contains_key(pid) {
        Some(m[pid])
    } else {
        None
    }
}

/// What was counted of each process, after an event.
pub open spec fn encryption_after(
    m: AnalyzerModel,
    payload: EventPayload,
    extension: Option<Seq<char>>,
    timestamp: u64,
) -> Map<u32, EncryptionModel> {
    match payload {
        EventPayload::File(file) => m.encryption.insert(
            file.pid,
            after_operation(counted_of(m.encryption, file.pid), file, extension, timestamp),
        ),
        _ => m.encryption,
    }
}

/// All that is found in an event, by an analyzer that has learned from it.
pub open spec fn event_findings(
    config: BehavioralConfig,
    m: AnalyzerModel,
    payload: EventPayload,
    directory: Option<Seq<char>>,
    extension: Option<Seq<char>>,
    entropy: u32,
    timestamp: u64,
) -> Seq<FindingModel> {
    match payload {
        EventPayload::Process(proc) => process_findings(config, m.baseline, proc, timestamp),
        EventPayload::Network(net) => network_findings(config, m.baseline, net),
        EventPayload::File(file) => file_findings(
            config,
            m.baseline,
            after_operation(counted_of(m.encryption, file.pid), file, extension, timestamp),
            file,
            directory,
        ),
        EventPayload::Registry(reg) => registry_findings(config, m.baseline, reg),
        EventPayload::Dns(dns) => dns_findings(config, dns, entropy),
        _ => Seq::empty(),
    }
}

/// The process that an event is about.
pub open spec fn subject(payload: EventPayload) -> Seq<char> {
    match payload {
        EventPayload::Process(proc) => proc.name@,
        EventPayload::Network(net) => net.process_name@,
        EventPayload::File(file) => file.process_name@,
        EventPayload::Registry(reg) => reg.process_name@,
        EventPayload::Dns(dns) => dns.process_name@,
        _ => Seq::empty(),
    }
}

/// What the analyzer knows after an event that it judged, and what it reports.
pub open spec fn judged(
    config: BehavioralConfig,
    m: AnalyzerModel,
    payload: EventPayload,
    directory: Option<Seq<char>>,
    extension: Option<Seq<char>>,
    entropy: u32,
    timestamp: u64,
    now: u64,
) -> (AnalyzerModel, Seq<DetectionModel>) {
    let findings = event_findings(
        config,
        m,
        payload,
        directory,
        extension,
        entropy,
        timestamp,
    );
    let risks = with_risks(m.risks, subject(payload), findings, now);
    let report = if payload is Process {
        score_report(config, risks, subject(payload))
    } else {
        None
    };
    (
        AnalyzerModel {
            baseline: m.baseline,
            risks,
            encryption: encryption_after(m, payload, extension, timestamp),
            tree: m.tree,
            names: m.names,
        },
        reported(findings) + match report {
            Some(d) => seq![d],
            None => Seq::empty(),
        },
    )
}

/// What the analyzer knows after an event, and what it reports: while it learns
/// it only notes what is usual.
pub open spec fn analysis(
    config: BehavioralConfig,
    m: AnalyzerModel,
    payload: EventPayload,
    directory: Option<Seq<char>>,
    extension: Option<Seq<char>>,
    entropy: u32,
    timestamp: u64,
    now: u64,
) -> (AnalyzerModel, Seq<DetectionModel>) {
    let after = noted(
        m,
        payload,
        directory,
        timestamp,
        updates_baselines(config, m.baseline, now),
    );
    if learning(config, m.baseline, now) {
        (after, Seq::empty())
    } else {
        judged(config, after, payload, directory, extension, entropy, timestamp, now)
    }
}

/// How much is known.
#[derive(Clone, Copy, Debug, PartialEq, Eq, Structural)]
pub struct BaselineStats {
    pub process_count: usize,
    pub network_destinations: usize,
    pub learning_complete: bool,
    pub learning_start: u64,
}

/// The analyzer of behaviour.
pub struct BehavioralAnalyzer {
    pub config: BehavioralConfig,
    pub baseline: SystemBaseline,
    /// By the process's name in lower case.
    pub risk_scores: TextMap<RiskScore>,
    pub encryption_patterns: HashMap<u32, EncryptionPattern>,
    /// From each process to its parent.
    pub process_tree: HashMap<u32, u32>,
    pub process_names: Vec<(u32, String)>,
}

impl View for BehavioralAnalyzer {
    type V = AnalyzerModel;

    open spec fn view(&self) -> AnalyzerModel {
        AnalyzerModel {
            baseline: self.baseline@,
            risks: risks_view(self.risk_scores@),
            encryption: encryption_view(self.encryption_patterns@),
            tree: self.process_tree@,
            names: names_view(self.process_names@),
        }
    }
}

fn detections_of(findings: Vec<Finding>) -> (r: Vec<Detection>)
    ensures
        detections_view(r@) == reported(findings_view(findings@)),
{
    let ghost all = reported(findings_view(findings@));
    let mut r: Vec<Detection> = Vec::new();
    let mut i: usize = 0;
    assert(detections_view(r@) =~= all.take(0));
    while i < findings.len()
        invariant
            i <= findings@.len(),
            all == reported(findings_view(findings@)),
            detections_view(r@) == all.take(i as int),
        decreases findings@.len() - i,
    {
        let ghost before = r@;
        r.push(findings[i].detection.clone());
        assert(detections_view(r@) =~= detections_view(before).push(all[i as int]));
        assert(all.take(i + 1) =~= all.take(i as int).push(all[i as int]));
        i += 1;
    }
    assert(all.take(i as int) =~= all);
    r
}

fn copy_score(s: &RiskScore) -> (r: RiskScore)
    ensures
        r@ == s@,
{
    RiskScore {
        process_key: s.process_key.clone(),
        score: s.score,
        last_update: s.last_update,
        factors: copy_factors(&s.factors),
    }
}

impl BehavioralAnalyzer {
    /// What is usual and what was counted is well formed.
    pub open spec fn wf(&self) -> bool {
        &&& self.baseline.wf()
        &&& self.risk_scores.wf()
        &&& forall|pid: u32|
            self.encryption_patterns@.contains_key(pid) ==> (
            #[trigger] self.encryption_patterns@[pid]).wf()
    }

    /// An analyzer that knows a baseline.
    pub fn with_baseline(config: BehavioralConfig, baseline: SystemBaseline) -> (r:
        BehavioralAnalyzer)
        requires
            baseline.wf(),
        ensures
            r.wf(),
            r.config == config,
            r.baseline == baseline,
            r@ == (AnalyzerModel {
                baseline: baseline@,
                risks: Map::empty(),
                encryption: Map::empty(),
                tree: Map::empty(),
                names: Seq::empty(),
            }),
    {
        let r = BehavioralAnalyzer {
            config,
            baseline,
            risk_scores: TextMap::new(),
            encryption_patterns: HashMap::new(),
            process_tree: HashMap::new(),
            process_names: Vec::new(),
        };
        assert(r@.risks =~= Map::empty());
        assert(r@.encryption =~= Map::empty());
        assert(r@.tree =~= Map::empty());
        assert(r@.names =~= Seq::empty());
        r
    }

    /// An analyzer that starts to learn at the present time.
    pub fn new(config: BehavioralConfig) -> (r: BehavioralAnalyzer)
        ensures
            r.wf(),
            r.config == config,
            r@ == (AnalyzerModel {
                baseline: unknown_system(r.baseline.learning_start_time),
                risks: Map::empty(),
                encryption: Map::empty(),
                tree: Map::empty(),
                names: Seq::empty(),
            }),
    {
        BehavioralAnalyzer::with_baseline(config, SystemBaseline::default())
    }

    /// Whether the analyzer still learns what is usual.
    pub fn is_learning(&self, now: u64) -> (r: bool)
        ensures
            r == learning(self.config, self@.baseline, now),
    {
        if self.baseline.learning_complete {
            return false;
        }
        let hours: u128 = self.config.learning_duration_hours as u128;
        let start: u128 = self.baseline.learning_start_time as u128;
        (now as u128) < start + hours * (HOUR_MS as u128)
    }

    /// Ends learning.
    pub fn complete_learning(&mut self)
        requires
            old(self).wf(),
        ensures
            final(self).wf(),
            final(self).config == old(self).config,
            final(self)@ == (AnalyzerModel {
                baseline: SystemModel { learning_complete: true, ..old(self)@.baseline },
                ..old(self)@
            }),
    {
        self.baseline.learning_complete = true;
    }

    /// Approves of what is usual for a process, where something is known of it.
    pub fn approve_baseline(&mut self, process_name: &str)
        requires
            old(self).wf(),
        ensures
            final(self).wf(),
            final(self).config == old(self).config,
            final(self)@ == if old(self)@.baseline.processes.contains_key(
                lowercase(process_name@),
            ) {
                AnalyzerModel {
                    baseline: with_process(
                        old(self)@.baseline,
                        process_name@,
                        (crate::baseline::BaselineModel {
                            approved: true,
                            ..process_of(old(self)@.baseline, process_name@)
                        }),
                    ),
                    ..old(self)@
                }
            } else {
                old(self)@
            },
    {
        if self.baseline.process_baselines.contains_key(to_lowercase(process_name).as_str()) {
            let known = self.baseline.get_or_create_process(process_name);
            known.approved = true;
        }
    }

    fn remember_name(&mut self, pid: u32, name: String)
        ensures
            names_view(final(self).process_names@) == with_name(
                names_view(old(self).process_names@),
                pid,
                name@,
            ),
            final(self).config == old(self).config,
            final(self).baseline == old(self).baseline,
            final(self).risk_scores == old(self).risk_scores,
            final(self).encryption_patterns == old(self).encryption_patterns,
            final(self).process_tree == old(self).process_tree,
    {
        let ghost before = self.process_names@;
        let ghost all = names_view(before);
        let mut i: usize = 0;
        while i < self.process_names.len() && self.process_names[i].0 != pid
            invariant
                i <= self.process_names@.len(),
                self.process_names@ == before,
                forall|j: int| 0 <= j < i ==> (#[trigger] before[j]).0 != pid,
                self.config == old(self).config,
                self.baseline == old(self).baseline,
                self.risk_scores == old(self).risk_scores,
                self.encryption_patterns == old(self).encryption_patterns,
                self.process_tree == old(self).process_tree,
            decreases self.process_names@.len() - i,
        {
            i += 1;
        }
        proof {
            assert forall|j: int| 0 <= j < i implies (#[trigger] all[j]).0 != pid by {
                assert(before[j].0 != pid);
            }
            lemma_with_name(all, pid, name@, i as int);
        }
        if i < self.process_names.len() {
            self.process_names.set(i, (pid, name));
            assert(names_view(self.process_names@) =~= all.update(i as int, (pid, name@)));
        } else {
            self.process_names.push((pid, name));
            assert(names_view(self.process_names@) =~= all.push((pid, name@)));
        }
    }

    fn learn(
        &mut self,
        payload: &EventPayload,
        directory: Option<&str>,
        timestamp: u64,
        updates: bool,
    )
        requires
            old(self).wf(),
        ensures
            final(self).wf(),
            final(self).config == old(self).config,
            final(self)@ == noted(
                old(self)@,
                *payload,
                str_view(directory),
                timestamp,
                updates,
            ),
    {
        if let EventPayload::Process(proc) = payload {
            self.process_tree.insert(proc.pid, proc.ppid);
            self.remember_name(proc.pid, proc.name.clone());
        }
        if !updates {
            return;
        }
        match payload {
            EventPayload::Process(proc) => {
                let own = self.baseline.get_or_create_process(proc.name.as_str());
                own.update_from_process(proc, timestamp);
                if let Some(parent) = &proc.parent_name {
                    let other = self.baseline.get_or_create_process(parent.as_str());
                    other.record_child(proc.name.as_str());
                }
            },
            EventPayload::Network(net) => {
                let destination = endpoint_of(net);
                self.baseline.record_destination(destination.as_str());
                let own = self.baseline.get_or_create_process(net.process_name.as_str());
                own.record_network(destination.as_str(), timestamp);
            },
            EventPayload::File(file) => {
                let own = self.baseline.get_or_create_process(file.process_name.as_str());
                own.record_file_in(directory, timestamp);
            },
            EventPayload::Registry(reg) => {
                let own = self.baseline.get_or_create_process(reg.process_name.as_str());
                own.record_registry_op(reg.key_path.as_str());
            },
            _ => {},
        }
    }

    fn add_risk(&mut self, process: &str, f: &Finding, now: u64)
        requires
            old(self).wf(),
        ensures
            final(self).wf(),
            final(self).config == old(self).config,
            final(self)@ == (AnalyzerModel {
                risks: with_risk(old(self)@.risks, process@, f@, now),
                ..old(self)@
            }),
    {
        let key = to_lowercase(process);
        let ghost before = self.risk_scores@;
        let fresh = RiskScore::starting_at(key.as_str(), now);
        let score = self.risk_scores.get_or_insert(key, fresh);
        score.add_factor_at(f.factor.as_str(), f.score, f.detection.description.as_str(), now);
        assert(risks_view(self.risk_scores@) =~= with_risk(
            risks_view(before),
            process@,
            f@,
            now,
        ));
    }

    fn add_risks(&mut self, process: &str, findings: &Vec<Finding>, now: u64)
        requires
            old(self).wf(),
        ensures
            final(self).wf(),
            final(self).config == old(self).config,
            final(self)@ == (AnalyzerModel {
                risks: with_risks(old(self)@.risks, process@, findings_view(findings@), now),
                ..old(self)@
            }),
    {
        let ghost all = findings_view(findings@);
        let mut i: usize = 0;
        assert(all.take(0) =~= Seq::empty());
        while i < findings.len()
            invariant
                i <= findings@.len(),
                all == findings_view(findings@),
                self.wf(),
                self.config == old(self).config,
                self@ == (AnalyzerModel {
                    risks: with_risks(old(self)@.risks, process@, all.take(i as int), now),
                    ..old(self)@
                }),
            decreases findings@.len() - i,
        {
            assert(all.take(i + 1).drop_last() =~= all.take(i as int));
            self.add_risk(process, &findings[i], now);
            i += 1;
        }
        assert(all.take(i as int) =~= all);
    }

    fn report_score(&self, name: &str) -> (r: Option<Detection>)
        ensures
            match r {
                Some(d) => score_report(self.config, self@.risks, name@) == Some(d@),
                None => score_report(self.config, self@.risks, name@) is None,
            },
    {
        match self.risk_scores.get(to_lowercase(name).as_str()) {
            Some(score) => {
                let threshold: u64 = self.config.alert_threshold;
                if score.score >= threshold
                    && BehavioralAnalyzer::risk_score_has_actionable_signal(score, threshold) {
                    let mut names: Vec<String> = Vec::new();
                    let ghost all = factor_names(score@.factors);
                    let mut i: usize = 0;
                    assert(texts(names@) =~= all.take(0));
                    while i < score.factors.len()
                        invariant
                            i <= score.factors@.len(),
                            all == factor_names(score@.factors),
                            texts(names@) == all.take(i as int),
                        decreases score.factors@.len() - i,
                    {
                        crate::text::push_text(&mut names, score.factors[i].name.clone());
                        assert(all.take(i + 1) =~= all.take(i as int).push(all[i as int]));
                        i += 1;
                    }
                    assert(all.take(i as int) =~= all);
                    let confidence: u32 = if score.score >= MAX_SCORE {
                        1_000_000
                    } else {
                        let above: u64 = score.score - threshold;
                        let room: u64 = MAX_SCORE - threshold;
                        proof {
                            let a = above as int;
                            let b = room as int;
                            assert(0 <= (a * 500_000) / b <= 500_000) by (nonlinear_arith)
                                requires
                                    0 <= a < b,
                            ;
                        }
                        500_000 + (above * 500_000 / room) as u32
                    };
                    let description = "Process '".to_string().concat(name).concat(
                        "' exceeded risk threshold: ",
                    ).concat(tenths_text(round_to(score.score, 100_000)).as_str()).concat(
                        " (factors: ",
                    ).concat(join(&names, ", ").as_str()).concat(")");
                    Some(
                        create_detection(
                            "high_risk_score",
                            confidence,
                            description.as_str(),
                            "multiple",
                            "multiple",
                        ),
                    )
                } else {
                    None
                }
            },
            None => None,
        }
    }

    fn conclude(&mut self, process: &str, findings: Vec<Finding>, now: u64) -> (r: Vec<Detection>)
        requires
            old(self).wf(),
        ensures
            final(self).wf(),
            final(self).config == old(self).config,
            final(self)@ == (AnalyzerModel {
                risks: with_risks(old(self)@.risks, process@, findings_view(findings@), now),
                ..old(self)@
            }),
            detections_view(r@) == reported(findings_view(findings@)),
    {
        self.add_risks(process, &findings, now);
        detections_of(findings)
    }

    /// Judges a process: what is found adds to its risk, and where the risk has
    /// reached the threshold that is reported too.
    pub fn analyze_process_behavior(&mut self, proc: &ProcessEvent, timestamp: u64, now: u64) -> (r:
        Vec<Detection>)
        requires
            old(self).wf(),
        ensures
            final(self).wf(),
            final(self).config == old(self).config,
            (final(self)@, detections_view(r@)) == judged(
                old(self).config,
                old(self)@,
                EventPayload::Process(*proc),
                None,
                None,
                0,
                timestamp,
                now,
            ),
    {
        let findings = check_process(&self.config, &self.baseline, proc, timestamp);
        let mut r = self.conclude(proc.name.as_str(), findings, now);
        let ghost before = r@;
        match self.report_score(proc.name.as_str()) {
            Some(d) => {
                r.push(d);
                assert(detections_view(r@) =~= detections_view(before) + seq![d@]);
            },
            None => {
                assert(detections_view(r@) =~= detections_view(before) + Seq::empty());
            },
        }
        r
    }

    /// Judges a network connection.
    pub fn analyze_network_behavior(&mut self, net: &NetworkEvent, timestamp: u64, now: u64) -> (r:
        Vec<Detection>)
        requires
            old(self).wf(),
        ensures
            final(self).wf(),
            final(self).config == old(self).config,
            (final(self)@, detections_view(r@)) == judged(
                old(self).config,
                old(self)@,
                EventPayload::Network(*net),
                None,
                None,
                0,
                timestamp,
                now,
            ),
    {
        let findings = check_network(&self.config, &self.baseline, net);
        let r = self.conclude(net.process_name.as_str(), findings, now);
        assert(detections_view(r@) =~= detections_view(r@) + Seq::empty());
        r
    }

    /// Judges an operation on a file in a directory and of an extension.
    pub fn analyze_file_behavior(
        &mut self,
        file: &FileEvent,
        directory: Option<&str>,
        extension: Option<&str>,
        timestamp: u64,
        now: u64,
    ) -> (r: Vec<Detection>)
        requires
            old(self).wf(),
        ensures
            final(self).wf(),
            final(self).config == old(self).config,
            (final(self)@, detections_view(r@)) == judged(
                old(self).config,
                old(self)@,
                EventPayload::File(*file),
                str_view(directory),
                str_view(extension),
                0,
                timestamp,
                now,
            ),
    {
        let ghost before = self.encryption_patterns@;
        let was = self.encryption_patterns.remove(&file.pid);
        let p = track_operation(was, file, extension, timestamp);
        let findings = check_file(&self.config, &self.baseline, &p, file, directory);
        self.encryption_patterns.insert(file.pid, p);
        assert(encryption_view(self.encryption_patterns@) =~= encryption_view(before).insert(
            file.pid,
            p@,
        ));
        let r = self.conclude(file.process_name.as_str(), findings, now);
        assert(detections_view(r@) =~= detections_view(r@) + Seq::empty());
        r
    }

    /// Judges a change of the registry.
    pub fn analyze_registry_behavior(&mut self, reg: &RegistryEvent, timestamp: u64, now: u64) -> (r:
        Vec<Detection>)
        requires
            old(self).wf(),
        ensures
            final(self).wf(),
            final(self).config == old(self).config,
            (final(self)@, detections_view(r@)) == judged(
                old(self).config,
                old(self)@,
                EventPayload::Registry(*reg),
                None,
                None,
                0,
                timestamp,
                now,
            ),
    {
        let findings = check_registry(&self.config, &self.baseline, reg);
        let r = self.conclude(reg.process_name.as_str(), findings, now);
        assert(detections_view(r@) =~= detections_view(r@) + Seq::empty());
        r
    }

    /// Judges a lookup of a name, whose entropy in lower case is given in
    /// millionths of a bit.
    pub fn analyze_dns_behavior(&mut self, dns: &DnsEvent, entropy: u32, timestamp: u64, now: u64) -> (r:
        Vec<Detection>)
        requires
            old(self).wf(),
        ensures
            final(self).wf(),
            final(self).config == old(self).config,
            (final(self)@, detections_view(r@)) == judged(
                old(self).config,
                old(self)@,
                EventPayload::Dns(*dns),
                None,
                None,
                entropy,
                timestamp,
                now,
            ),
    {
        let findings = check_dns(&self.config, dns, entropy);
        let r = self.conclude(dns.process_name.as_str(), findings, now);
        assert(detections_view(r@) =~= detections_view(r@) + Seq::empty());
        r
    }

    /// Learns from an event and, once learning is over, judges it. A file's
    /// directory and extension are given, and the entropy of a name that was
    /// looked up.
    pub fn analyze_event(
        &mut self,
        event: &TelemetryEvent,
        directory: Option<&str>,
        extension: Option<&str>,
        query_entropy: u32,
        now: u64,
    ) -> (r: Vec<Detection>)
        requires
            old(self).wf(),
        ensures
            final(self).wf(),
            final(self).config == old(self).config,
            (final(self)@, detections_view(r@)) == analysis(
                old(self).config,
                old(self)@,
                event.payload,
                str_view(directory),
                str_view(extension),
                query_entropy,
                event.timestamp,
                now,
            ),
    {
        let is_learning = self.is_learning(now);
        let updates = self.config.continuous_learning || is_learning;
        self.learn(&event.payload, directory, event.timestamp, updates);
        let none: Vec<Detection> = Vec::new();
        assert(detections_view(none@) =~= Seq::empty());
        if is_learning {
            return none;
        }
        match &event.payload {
            EventPayload::Process(proc) => self.analyze_process_behavior(
                proc,
                event.timestamp,
                now,
            ),
            EventPayload::Network(net) => self.analyze_network_behavior(net, event.timestamp, now),
            EventPayload::File(file) => self.analyze_file_behavior(
                file,
                directory,
                extension,
                event.timestamp,
                now,
            ),
            EventPayload::Registry(reg) => self.analyze_registry_behavior(
                reg,
                event.timestamp,
                now,
            ),
            EventPayload::Dns(dns) => self.analyze_dns_behavior(
                dns,
                query_entropy,
                event.timestamp,
                now,
            ),
            _ => {
                assert(reported(Seq::<FindingModel>::empty()) =~= Seq::empty());
                assert(reported(Seq::<FindingModel>::empty()) + Seq::empty() =~= Seq::empty());
                none
            },
        }
    }

    /// Learns from an event and, once learning is over, judges it. Which
    /// directory and extension a file has the machine's rules for paths decide.
    pub fn analyze(&mut self, event: &TelemetryEvent, query_entropy: u32, now: u64) -> (r: Vec<
        Detection,
    >)
        requires
            old(self).wf(),
        ensures
            final(self).wf(),
            final(self).config == old(self).config,
            exists|directory: Option<Seq<char>>, extension: Option<Seq<char>>|
                (final(self)@, detections_view(r@)) == #[trigger] analysis(
                    old(self).config,
                    old(self)@,
                    event.payload,
                    directory,
                    extension,
                    query_entropy,
                    event.timestamp,
                    now,
                ) && (event.payload matches EventPayload::File(file) ==> is_directory_of(
                    directory,
                    file.path@,
                ) && is_extension_of(extension, file.path@)),
    {
        let (directory, extension): (Option<String>, Option<String>) = match &event.payload {
            EventPayload::File(file) => (
                crate::paths::parent_directory(file.path.as_str()),
                crate::paths::file_extension(file.path.as_str()),
            ),
            _ => (None, None),
        };
        let d: Option<&str> = match &directory {
            Some(s) => Some(s.as_str()),
            None => None,
        };
        let e: Option<&str> = match &extension {
            Some(s) => Some(s.as_str()),
            None => None,
        };
        assert(str_view(d) == opt_text(directory) && str_view(e) == opt_text(extension));
        let r = self.analyze_event(event, d, e, query_entropy, now);
        assert((self@, detections_view(r@)) == analysis(
            old(self).config,
            old(self)@,
            event.payload,
            str_view(d),
            str_view(e),
            query_entropy,
            event.timestamp,
            now,
        ));
        r
    }

    /// The score of a process.
    pub fn get_risk_score(&self, process: &str) -> (r: Option<u64>)
        ensures
            match r {
                Some(score) => self@.risks.contains_key(lowercase(process@))
                    && self@.risks[lowercase(process@)].score == score,
                None => !self@.risks.contains_key(lowercase(process@)),
            },
    {
        match self.risk_scores.get(to_lowercase(process).as_str()) {
            Some(s) => Some(s.score),
            None => None,
        }
    }

    /// The scores of all processes.
    pub fn get_all_risk_scores(&self) -> (r: Vec<(String, u64)>)
        requires
            self.wf(),
        ensures
            forall|i: int|
                0 <= i < r@.len() ==> self@.risks.contains_key((#[trigger] r@[i]).0@)
                    && self@.risks[r@[i].0@].score == r@[i].1,
            forall|i: int, j: int|
                0 <= i < j < r@.len() ==> (#[trigger] r@[i]).0@ != (#[trigger] r@[j]).0@,
            forall|k: Seq<char>|
                #[trigger]
                self@.risks.contains_key(k) ==> exists|i: int|
                    0 <= i < r@.len() && (#[trigger] r@[i]).0@ == k,
    {
        proof {
            self.risk_scores.lemma_entries();
        }
        let ghost all = self.risk_scores.pairs();
        let mut r: Vec<(String, u64)> = Vec::new();
        let mut i: usize = 0;
        while i < self.risk_scores.len()
            invariant
                i <= all.len(),
                all == self.risk_scores.pairs(),
                r@.len() == i,
                forall|j: int|
                    0 <= j < i ==> (#[trigger] r@[j]).0@ == all[j].0@ && r@[j].1 == all[j].1.score,
            decreases all.len() - i,
        {
            r.push((self.risk_scores.key_at(i).to_string(), self.risk_scores.value_at(i).score));
            i += 1;
        }
        assert forall|a: int, b: int| 0 <= a < b < r@.len() implies (#[trigger] r@[a]).0@ != (
        #[trigger] r@[b]).0@ by {
            assert(all[a].0@ != all[b].0@);
        }
        assert forall|k: Seq<char>| #[trigger] self@.risks.contains_key(k) implies exists|j: int|
            0 <= j < r@.len() && (#[trigger] r@[j]).0@ == k by {
            assert(self.risk_scores@.contains_key(k));
            let j = choose|j: int| 0 <= j < all.len() && (#[trigger] all[j]).0@ == k;
            assert(r@[j].0@ == k);
        }
        r
    }

    fn find_pid(&self, key: &str) -> (r: Option<u32>)
        ensures
            r == pid_named(self@.names, key@),
    {
        let ghost all = self@.names;
        let mut i: usize = self.process_names.len();
        assert(all.take(i as int) =~= all);
        while i > 0
            invariant
                i <= self.process_names@.len(),
                all == names_view(self.process_names@),
                pid_named(all.take(i as int), key@) == pid_named(all, key@),
            decreases i,
        {
            assert(all.take(i as int).drop_last() =~= all.take(i - 1));
            let entry = &self.process_names[i - 1];
            if same(to_lowercase(entry.1.as_str()).as_str(), key) {
                return Some(entry.0);
            }
            i -= 1;
        }
        None
    }

    /// The scores as events, where that is wanted: one for each process, with
    /// the last known process of its name.
    pub fn export_risk_score_events(&self) -> (r: Vec<TelemetryEvent>)
        ensures
            !self.config.export_risk_score ==> r@.len() == 0,
            self.config.export_risk_score ==> {
                &&& r@.len() == self.risk_scores.pairs().len()
                &&& forall|i: int|
                    0 <= i < r@.len() ==> {
                        let score = self.risk_scores.pairs()[i].1@;
                        &&& (#[trigger] r@[i]).event_type == EventType::BehavioralRiskScore
                        &&& r@[i].severity == Severity::Info
                        &&& r@[i].detections@.len() == 0
                        &&& r@[i].payload matches EventPayload::BehavioralRiskScore(s) && s@
                            == snapshot_of(
                            score,
                            pid_named(self@.names, score.process_key),
                            s.snapshot_at,
                        )
                    }
            },
    {
        let mut r: Vec<TelemetryEvent> = Vec::new();
        if !self.config.export_risk_score {
            return r;
        }
        let ghost all = self.risk_scores.pairs();
        let mut i: usize = 0;
        while i < self.risk_scores.len()
            invariant
                i <= all.len(),
                all == self.risk_scores.pairs(),
                r@.len() == i,
                forall|j: int|
                    0 <= j < i ==> {
                        let score = all[j].1@;
                        &&& (#[trigger] r@[j]).event_type == EventType::BehavioralRiskScore
                        &&& r@[j].severity == Severity::Info
                        &&& r@[j].detections@.len() == 0
                        &&& r@[j].payload matches EventPayload::BehavioralRiskScore(s) && s@
                            == snapshot_of(
                            score,
                            pid_named(self@.names, score.process_key),
                            s.snapshot_at,
                        )
                    },
            decreases all.len() - i,
        {
            let score = self.risk_scores.value_at(i);
            let pid = self.find_pid(score.process_key.as_str());
            r.push(
                TelemetryEvent::new(
                    EventType::BehavioralRiskScore,
                    Severity::Info,
                    EventPayload::BehavioralRiskScore(score.snapshot(pid)),
                ),
            );
            i += 1;
        }
        r
    }

    /// The factors of a process's score.
    pub fn get_risk_factors(&self, process: &str) -> (r: Vec<RiskFactor>)
        ensures
            factors_view(r@) == if self@.risks.contains_key(lowercase(process@)) {
                self@.risks[lowercase(process@)].factors
            } else {
                Seq::empty()
            },
    {
        match self.risk_scores.get(to_lowercase(process).as_str()) {
            Some(s) => copy_factors(&s.factors),
            None => {
                let none: Vec<RiskFactor> = Vec::new();
                assert(factors_view(none@) =~= Seq::empty());
                none
            },
        }
    }

    /// How much is known.
    pub fn get_baseline_stats(&self) -> (r: BaselineStats)
        ensures
            r.process_count == self.baseline.process_baselines.pairs().len(),
            r.network_destinations == self.baseline.global_network_destinations.pairs().len(),
            r.learning_complete == self.baseline.learning_complete,
            r.learning_start == self.baseline.learning_start_time,
    {
        BaselineStats {
            process_count: self.baseline.process_baselines.len(),
            network_destinations: self.baseline.global_network_destinations.len(),
            learning_complete: self.baseline.learning_complete,
            learning_start: self.baseline.learning_start_time,
        }
    }

    /// Takes over a baseline.
    pub fn import_baselines(&mut self, baseline: SystemBaseline)
        requires
            old(self).wf(),
            baseline.wf(),
        ensures
            final(self).wf(),
            final(self).config == old(self).config,
            final(self).baseline == baseline,
            final(self)@ == (AnalyzerModel { baseline: baseline@, ..old(self)@ }),
    {
        self.baseline = baseline;
    }

    /// Forgets what is usual; learning starts anew at `now`.
    pub fn reset_baselines(&mut self, now: u64)
        requires
            old(self).wf(),
        ensures
            final(self).wf(),
            final(self).config == old(self).config,
            final(self)@ == (AnalyzerModel { baseline: unknown_system(now), ..old(self)@ }),
    {
        self.baseline = SystemBaseline::starting_at(now);
    }

    /// Whether no score was updated after a time.
    pub open spec fn updated_by(&self, now: u64) -> bool {
        forall|k: Seq<char>|
            self@.risks.contains_key(k) ==> (#[trigger] self@.risks[k]).last_update <= now
    }

    /// Lets time pass until `now`: scores fall, and those that say nothing any
    /// more go.
    pub fn decay_scores(&mut self, now: u64)
        requires
            old(self).wf(),
            old(self).updated_by(now),
            FACTOR_LIFETIME_MS <= now,
        ensures
            final(self).wf(),
            final(self).config == old(self).config,
            final(self)@ == (AnalyzerModel {
                risks: decayed_risks(
                    old(self)@.risks,
                    old(self).config.score_decay_per_hour,
                    now,
                ),
                ..old(self)@
            }),
    {
        proof {
            self.risk_scores.lemma_entries();
        }
        let rate: u64 = self.config.score_decay_per_hour;
        let ghost all = self.risk_scores.pairs();
        let ghost risks = self@.risks;
        let mut kept: TextMap<RiskScore> = TextMap::new();
        let mut i: usize = 0;
        while i < self.risk_scores.len()
            invariant
                i <= all.len(),
                *self == *old(self),
                all == self.risk_scores.pairs(),
                risks == self@.risks,
                self.risk_scores.wf(),
                self.updated_by(now),
                FACTOR_LIFETIME_MS <= now,
                kept.wf(),
                crate::textmap::distinct_keys(all),
                forall|j: int|
                    0 <= j < all.len() ==> self.risk_scores@.contains_key((#[trigger] all[j]).0@)
                        && self.risk_scores@[all[j].0@] == all[j].1,
                forall|k: Seq<char>|
                    #[trigger]
                    kept@.contains_key(k) ==> risks.contains_key(k) && kept@[k]@ == decayed(
                        risks[k],
                        rate,
                        now,
                    ) && still_counts(kept@[k]@),
                forall|j: int|
                    0 <= j < i && still_counts(decayed(all[j].1@, rate, now))
                        ==> kept@.contains_key((#[trigger] all[j]).0@),
            decreases all.len() - i,
        {
            let mut score = copy_score(self.risk_scores.value_at(i));
            assert(risks.contains_key(all[i as int].0@));
            assert(risks[all[i as int].0@] == all[i as int].1@);
            score.apply_decay_at(rate, now);
            if score.score > 0 || score.factors.len() > 0 {
                kept.insert(self.risk_scores.key_at(i).to_string(), score);
            }
            i += 1;
        }
        assert(risks_view(kept@) =~= decayed_risks(risks, rate, now)) by {
            assert forall|k: Seq<char>|
                decayed_risks(risks, rate, now).contains_key(k) implies kept@.contains_key(k) by {
                assert(self.risk_scores@.contains_key(k));
                let j = choose|j: int| 0 <= j < all.len() && (#[trigger] all[j]).0@ == k;
                assert(risks[k] == all[j].1@);
            }
        }
        self.risk_scores = kept;
    }
}

proof fn lemma_with_name(names: Seq<(u32, Seq<char>)>, pid: u32, name: Seq<char>, i: int)
    requires
        0 <= i <= names.len(),
        forall|j: int| 0 <= j < i ==> (#[trigger] names[j]).0 != pid,
        i < names.len() ==> names[i].0 == pid,
    ensures
        with_name(names, pid, name) == if i < names.len() {
            names.update(i, (pid, name))
        } else {
            names.push((pid, name))
        },
    decreases names.len(),
{
    if names.len() == 0 {
        assert(seq![(pid, name)] =~= names.push((pid, name)));
    } else if i == 0 {
        assert(seq![(pid, name)] + names.drop_first() =~= names.update(0, (pid, name)));
    } else {
        let rest = names.drop_first();
        assert forall|j: int| 0 <= j < i - 1 implies (#[trigger] rest[j]).0 != pid by {
            assert(names[j + 1].0 != pid);
        }
        lemma_with_name(rest, pid, name, i - 1);
        assert(names[0].0 != pid);
        if i < names.len() {
            assert(seq![names[0]] + rest.update(i - 1, (pid, name)) =~= names.update(
                i,
                (pid, name),
            ));
        } else {
            assert(seq![names[0]] + rest.push((pid, name)) =~= names.push((pid, name)));
        }
    }
}

impl Default for BehavioralAnalyzer {
    fn default() -> (r: BehavioralAnalyzer)
        ensures
            r.wf(),
            r.config.is_default(true) || r.config.is_default(false),
            r@ == (AnalyzerModel {
                baseline: unknown_system(r.baseline.learning_start_time),
                risks: Map::empty(),
                encryption: Map::empty(),
                tree: Map::empty(),
                names: Seq::empty(),
            }),
    {
        BehavioralAnalyzer::new(BehavioralConfig::default())
    }
}

/// The words are all different from `word`.
proof fn lemma_not_strong(word: Seq<char>)
    requires
        word == "unusual_time"@,
    ensures
        !is_one_of(word, STRONG_SIGNALS@),
        !is_one_of(word, CONTEXTUAL_SIGNALS@),
{
    reveal_strlit("unusual_time");
    reveal_strlit("browser_process_spawn");
    reveal_strlit("encoded_command");
    reveal_strlit("lsass_masquerade");
    reveal_strlit("office_shell_spawn");
    reveal_strlit("policy_bypass");
    reveal_strlit("ransomware_behavior");
    reveal_strlit("regsvr32_network");
    reveal_strlit("rundll32_network");
    reveal_strlit("svchost_unusual_parent");
    reveal_strlit("temp_execution");
    reveal_strlit("wmiprvse_spawn");
    reveal_strlit("baseline_deviation_child");
    reveal_strlit("file_rate_anomaly");
    reveal_strlit("network_rate_anomaly");
    reveal_strlit("new_destination");
    reveal_strlit("rare_destination");
    assert forall|k: int| 0 <= k < STRONG_SIGNALS@.len() implies word != #[trigger] STRONG_SIGNALS@[k]@ by {
        if STRONG_SIGNALS@[k]@.len() == 12 {
            assert(word[0] == 'u');
        }
    }
    assert forall|k: int| 0 <= k < CONTEXTUAL_SIGNALS@.len() implies word
        != #[trigger] CONTEXTUAL_SIGNALS@[k]@ by {
        assert(CONTEXTUAL_SIGNALS@[k]@.len() > 12);
    }
}

/// The time of day alone never makes a score worth acting on.
pub proof fn law_time_alone_is_not_actionable(factors: Seq<FactorModel>, alert_threshold: u64)
    requires
        forall|i: int|
            0 <= i < factors.len() ==> (#[trigger] factors[i]).name == "unusual_time"@,
    ensures
        !actionable(factors, alert_threshold),
{
    lemma_not_strong("unusual_time"@);
}

/// One factor of the context, however often it is repeated and whatever the time
/// of day adds, never makes a score worth acting on.
pub proof fn law_one_context_is_not_actionable(
    factors: Seq<FactorModel>,
    context: Seq<char>,
    alert_threshold: u64,
)
    requires
        !is_one_of(context, STRONG_SIGNALS@),
        forall|i: int|
            0 <= i < factors.len() ==> (#[trigger] factors[i]).name == "unusual_time"@
                || factors[i].name == context,
    ensures
        !actionable(factors, alert_threshold),
{
    lemma_not_strong("unusual_time"@);
}

/// A strong factor makes a score worth acting on, whatever else there is.
pub proof fn law_strong_signal_is_actionable(
    factors: Seq<FactorModel>,
    i: int,
    alert_threshold: u64,
)
    requires
        0 <= i < factors.len(),
        is_one_of(factors[i].name, STRONG_SIGNALS@),
    ensures
        actionable(factors, alert_threshold),
{
}

/// While it learns the analyzer reports nothing and holds nothing against
/// anyone.
pub proof fn law_learning_is_silent(
    config: BehavioralConfig,
    m: AnalyzerModel,
    payload: EventPayload,
    directory: Option<Seq<char>>,
    extension: Option<Seq<char>>,
    entropy: u32,
    timestamp: u64,
    now: u64,
)
    requires
        learning(config, m.baseline, now),
    ensures
        ({
            let (after, reports) = analysis(
                config,
                m,
                payload,
                directory,
                extension,
                entropy,
                timestamp,
                now,
            );
            reports.len() == 0 && after.risks == m.risks && after.encryption == m.encryption
        }),
{
}

/// Once learning is over, baselines stay as they are, unless they are to be updated
/// all the same.
pub proof fn law_finished_baseline_stays(
    config: BehavioralConfig,
    m: AnalyzerModel,
    payload: EventPayload,
    directory: Option<Seq<char>>,
    extension: Option<Seq<char>>,
    entropy: u32,
    timestamp: u64,
    now: u64,
)
    requires
        !learning(config, m.baseline, now),
        !config.continuous_learning,
    ensures
        analysis(
            config,
            m,
            payload,
            directory,
            extension,
            entropy,
            timestamp,
            now,
        ).0.baseline == m.baseline,
{
}

/// Learning that was completed stays so, whatever happens.
pub proof fn law_completed_learning_stays(
    config: BehavioralConfig,
    m: AnalyzerModel,
    payload: EventPayload,
    directory: Option<Seq<char>>,
    extension: Option<Seq<char>>,
    entropy: u32,
    timestamp: u64,
    now: u64,
    later: u64,
)
    requires
        m.baseline.learning_complete,
    ensures
        !learning(
            config,
            analysis(
                config,
                m,
                payload,
                directory,
                extension,
                entropy,
                timestamp,
                now,
            ).0.baseline,
            later,
        ),
{
}

proof fn lemma_others_keep_their_risk(
    risks: Map<Seq<char>, RiskModel>,
    process: Seq<char>,
    findings: Seq<FindingModel>,
    now: u64,
    other: Seq<char>,
)
    requires
        other != lowercase(process),
    ensures
        with_risks(risks, process, findings, now).contains_key(other) == risks.contains_key(other),
        risks.contains_key(other) ==> with_risks(risks, process, findings, now)[other]
            == risks[other],
    decreases findings.len(),
{
    if findings.len() > 0 {
        lemma_others_keep_their_risk(risks, process, findings.drop_last(), now, other);
    }
}

/// An event changes the score of no other process than the one it is about.
pub proof fn law_others_keep_their_risk(
    config: BehavioralConfig,
    m: AnalyzerModel,
    payload: EventPayload,
    directory: Option<Seq<char>>,
    extension: Option<Seq<char>>,
    entropy: u32,
    timestamp: u64,
    now: u64,
    other: Seq<char>,
)
    requires
        other != lowercase(subject(payload)),
    ensures
        ({
            let after = analysis(
                config,
                m,
                payload,
                directory,
                extension,
                entropy,
                timestamp,
                now,
            ).0.risks;
            after.contains_key(other) == m.risks.contains_key(other) && (m.risks.contains_key(
                other,
            ) ==> after[other] == m.risks[other])
        }),
{
    let noted = noted(
        m,
        payload,
        directory,
        timestamp,
        updates_baselines(config, m.baseline, now),
    );
    let findings = event_findings(
        config,
        noted,
        payload,
        directory,
        extension,
        entropy,
        timestamp,
    );
    lemma_others_keep_their_risk(m.risks, subject(payload), findings, now, other);
}

proof fn lemma_risk_within_bounds(
    risks: Map<Seq<char>, RiskModel>,
    process: Seq<char>,
    findings: Seq<FindingModel>,
    now: u64,
    k: Seq<char>,
)
    requires
        risks.contains_key(k) ==> risks[k].score <= MAX_SCORE,
    ensures
        with_risks(risks, process, findings, now).contains_key(k) ==> with_risks(
            risks,
            process,
            findings,
            now,
        )[k].score <= MAX_SCORE,
    decreases findings.len(),
{
    if findings.len() > 0 {
        lemma_risk_within_bounds(risks, process, findings.drop_last(), now, k);
    }
}

/// No event lifts a score above a hundred points.
pub proof fn law_risk_within_bounds(
    config: BehavioralConfig,
    m: AnalyzerModel,
    payload: EventPayload,
    directory: Option<Seq<char>>,
    extension: Option<Seq<char>>,
    entropy: u32,
    timestamp: u64,
    now: u64,
    process: Seq<char>,
)
    requires
        m.risks.contains_key(process) ==> m.risks[process].score <= MAX_SCORE,
    ensures
        ({
            let after = analysis(
                config,
                m,
                payload,
                directory,
                extension,
                entropy,
                timestamp,
                now,
            ).0.risks;
            after.contains_key(process) ==> after[process].score <= MAX_SCORE
        }),
{
    let noted = noted(
        m,
        payload,
        directory,
        timestamp,
        updates_baselines(config, m.baseline, now),
    );
    let findings = event_findings(
        config,
        noted,
        payload,
        directory,
        extension,
        entropy,
        timestamp,
    );
    lemma_risk_within_bounds(m.risks, subject(payload), findings, now, process);
}

/// What an event shows is noted before it is judged: a child that a parent just
/// started is never an unusual one of it.
pub proof fn law_noted_child_is_usual(
    b: SystemModel,
    proc: ProcessEvent,
    parent: String,
    timestamp: u64,
    sensitivity: u32,
)
    requires
        proc.parent_name == Some(parent),
    ensures
        child_check(
            learned(b, EventPayload::Process(proc), None, timestamp),
            proc,
            parent@,
            sensitivity,
        ) is None,
{
}

/// What an event shows is noted before it is judged: a destination that a
/// process just connected to is never a new one of it.
pub proof fn law_noted_destination_is_known(
    b: SystemModel,
    net: NetworkEvent,
    timestamp: u64,
    sensitivity: u32,
)
    ensures
        destination_check(
            learned(b, EventPayload::Network(net), None, timestamp),
            net,
            sensitivity,
        ) is None,
{
}

/// The local security authority, under its own parent and from its own place, is
/// never taken for an impostor.
pub proof fn law_authority_is_no_impostor(path: Seq<char>, parent: Seq<char>)
    requires
        occurs("wininit.exe"@, parent),
        ends(lowercase(path), "\\windows\\system32\\lsass.exe"@),
    ensures
        !lsass_masquerade(path, parent, "lsass.exe"@),
{
}

/// The confidence of a pattern grows with its score and stays within its bounds.
pub proof fn law_pattern_confidence_is_monotonic(low: u64, high: u64)
    requires
        low <= high,
    ensures
        450_000 <= pattern_confidence(low) <= pattern_confidence(high) <= 900_000,
{
}

/// What the patterns find in the start of a process is about the start alone, and a
/// script that is said to run from a directory for temporary files does.
pub proof fn law_patterns_say_what_is_there(
    n: nat,
    path: Seq<char>,
    parent: Seq<char>,
    child: Seq<char>,
    sensitivity: u32,
    k: int,
)
    requires
        n <= 9,
        0 <= k < patterns_check(n, path, parent, child, sensitivity).len(),
    ensures
        ({
            let found = patterns_check(n, path, parent, child, sensitivity)[k];
            &&& !is_one_of(found.factor, LATER_PATTERNS@)
            &&& found.factor == "script_from_temp"@ ==> any_occurs(TEMP_DIRECTORIES@, path)
        }),
    decreases n,
{
    if n > 0 {
        let before = patterns_check((n - 1) as nat, path, parent, child, sensitivity);
        if k < before.len() {
            law_patterns_say_what_is_there(
                (n - 1) as nat,
                path,
                parent,
                child,
                sensitivity,
                k,
            );
        }
    }
}

/// What an event shows is known afterwards: of a start its parent, and of the parent the
/// child; of a connection where it went, once more than before; of an operation on a file
/// its directory; of one on the registry the first levels of the key.
pub proof fn law_events_are_learned(
    b: SystemModel,
    payload: EventPayload,
    directory: Seq<char>,
    timestamp: u64,
)
    ensures
        ({
            let then = learned(b, payload, Some(directory), timestamp);
            &&& (payload matches EventPayload::Process(p) ==> (p.parent_name matches Some(parent)
                ==> process_of(then, parent@).children.contains(lowercase(p.name@)) && process_of(
                then,
                p.name@,
            ).parents.contains(lowercase(parent@))))
            &&& (payload matches EventPayload::Process(p) ==> process_of(then, p.name@).last_seen
                == timestamp)
            &&& (payload matches EventPayload::Network(n) ==> process_of(
                then,
                n.process_name@,
            ).destinations.contains(lowercase(endpoint(n))) && (times_seen(b, endpoint(n))
                < u64::MAX ==> times_seen(then, endpoint(n)) == times_seen(b, endpoint(n)) + 1))
            &&& (payload matches EventPayload::File(f) ==> process_of(
                then,
                f.process_name@,
            ).directories.contains(lowercase(directory)))
            &&& (payload matches EventPayload::Registry(r) ==> (key_prefix(r.key_path@) matches Some(
                k,
            ) ==> process_of(then, r.process_name@).registry_keys.contains(lowercase(k))))
        }),
{
}

/// An event changes what is known of no process but the one it is about and its parent.
pub proof fn law_other_processes_are_left_as_they_were(
    b: SystemModel,
    payload: EventPayload,
    directory: Option<Seq<char>>,
    timestamp: u64,
    other: Seq<char>,
)
    requires
        lowercase(other) != lowercase(subject(payload)),
        payload matches EventPayload::Process(p) ==> (p.parent_name matches Some(parent)
            ==> lowercase(other) != lowercase(parent@)),
    ensures
        process_of(learned(b, payload, directory, timestamp), other) == process_of(b, other),
{
}

/// While the analyzer learns, and afterwards where it is to go on, it learns from every
/// event; it learns until its time is over or it is told that learning is complete.
pub proof fn law_when_it_learns(
    config: BehavioralConfig,
    m: AnalyzerModel,
    payload: EventPayload,
    directory: Option<Seq<char>>,
    extension: Option<Seq<char>>,
    entropy: u32,
    timestamp: u64,
    now: u64,
)
    ensures
        ({
            let after = analysis(
                config,
                m,
                payload,
                directory,
                extension,
                entropy,
                timestamp,
                now,
            ).0;
            let early = !m.baseline.learning_complete && now < m.baseline.learning_start
                + config.learning_duration_hours * 3_600_000;
            &&& early || config.continuous_learning ==> after.baseline == learned(
                m.baseline,
                payload,
                directory,
                timestamp,
            )
            &&& !early && !config.continuous_learning ==> after.baseline == m.baseline
            &&& (payload matches EventPayload::Process(p) ==> after.tree.contains_key(p.pid)
                && after.tree[p.pid] == p.ppid)
        }),
{
}

/// The sum of the scores of findings.
pub open spec fn points(findings: Seq<FindingModel>) -> nat
    decreases findings.len(),
{
    if findings.len() == 0 {
        0
    } else {
        points(findings.drop_last()) + findings.last().score as nat
    }
}

/// What is found in a process raises its score by what it scores together, up to a hundred
/// points.
pub proof fn law_findings_raise_the_score(
    risks: Map<Seq<char>, RiskModel>,
    process: Seq<char>,
    findings: Seq<FindingModel>,
    now: u64,
)
    requires
        findings.len() > 0,
        risks.contains_key(lowercase(process)) ==> risks[lowercase(process)].score <= 100_000_000,
    ensures
        ({
            let key = lowercase(process);
            let before = if risks.contains_key(key) {
                risks[key].score as int
            } else {
                0
            };
            let after = with_risks(risks, process, findings, now);
            &&& after.contains_key(key)
            &&& before + points(findings) <= 100_000_000 ==> after[key].score == before + points(
                findings,
            )
            &&& before + points(findings) > 100_000_000 ==> after[key].score == 100_000_000
            &&& after[key].last_update == now
        }),
    decreases findings.len(),
{
    let rest = findings.drop_last();
    if rest.len() > 0 {
        law_findings_raise_the_score(risks, process, rest, now);
    } else {
        assert(with_risks(risks, process, rest, now) == risks);
        assert(points(rest) == 0);
    }
    assert(points(findings) == points(rest) + findings.last().score);
}

/// After time passed a score is kept exactly where something is left of it, or something it
/// rests on is less than a day old.
pub proof fn law_faded_scores_are_dropped(
    risks: Map<Seq<char>, RiskModel>,
    per_hour: u64,
    now: u64,
    key: Seq<char>,
)
    ensures
        ({
            let after = decayed_risks(risks, per_hour, now);
            &&& after.contains_key(key) <==> risks.contains_key(key) && (decayed(
                risks[key],
                per_hour,
                now,
            ).score > 0 || exists|f: FactorModel| #[trigger]
                risks[key].factors.contains(f) && now - f.timestamp < 86_400_000)
            &&& after.contains_key(key) ==> after[key] == decayed(risks[key], per_hour, now)
        }),
{
    if risks.contains_key(key) {
        let p = crate::risk::newer_than(now - crate::risk::FACTOR_LIFETIME_MS);
        let factors = risks[key].factors;
        crate::collect::lemma_filter_members(factors, p);
        let left = factors.filter(p);
        if left.len() > 0 {
            assert(p(left[0]));
            assert(factors.contains(left[0]));
        }
        if exists|f: FactorModel| #[trigger]
            factors.contains(f) && now - f.timestamp < 86_400_000 {
            let f = choose|f: FactorModel| #[trigger]
                factors.contains(f) && now - f.timestamp < 86_400_000;
            let i = choose|i: int| 0 <= i < factors.len() && factors[i] == f;
            assert(p(factors[i]));
            assert(left.contains(f));
        }
    }
}

/// A process goes by the name it was last given, and no other process by another.
pub proof fn law_names_are_kept(
    names: Seq<(u32, Seq<char>)>,
    pid: u32,
    name: Seq<char>,
    other: (u32, Seq<char>),
)
    ensures
        with_name(names, pid, name).contains((pid, name)),
        other.0 != pid ==> (with_name(names, pid, name).contains(other) <==> names.contains(other)),
    decreases names.len(),
{
    let after = with_name(names, pid, name);
    if names.len() == 0 {
        assert(after[0] == (pid, name));
    } else {
        let rest = names.drop_first();
        assert forall|x: (u32, Seq<char>)| #[trigger]
            names.contains(x) <==> x == names[0] || rest.contains(x) by {
            if names.contains(x) {
                let i = choose|i: int| 0 <= i < names.len() && names[i] == x;
                if i > 0 {
                    assert(rest[i - 1] == x);
                }
            }
            if rest.contains(x) {
                let i = choose|i: int| 0 <= i < rest.len() && rest[i] == x;
                assert(names[i + 1] == x);
            }
            assert(names.contains(names[0]));
        }
        let (front, tail) = if names[0].0 == pid {
            ((pid, name), rest)
        } else {
            (names[0], with_name(rest, pid, name))
        };
        assert(after == seq![front] + tail);
        assert forall|x: (u32, Seq<char>)| #[trigger]
            after.contains(x) <==> x == front || tail.contains(x) by {
            if after.contains(x) {
                let i = choose|i: int| 0 <= i < after.len() && after[i] == x;
                if i > 0 {
                    assert(tail[i - 1] == x);
                }
            }
            if tail.contains(x) {
                let i = choose|i: int| 0 <= i < tail.len() && tail[i] == x;
                assert(after[i + 1] == x);
            }
            assert(after[0] == front);
        }
        if names[0].0 != pid {
            law_names_are_kept(rest, pid, name, other);
        }
    }
}

/// The process of a name is the last one that goes by it, whatever the case of letters,
/// and there is none where none does.
pub proof fn law_processes_are_found_by_name(names: Seq<(u32, Seq<char>)>, key: Seq<char>, i: int)
    requires
        -1 <= i < names.len(),
        forall|j: int| i < j < names.len() ==> lowercase((#[trigger] names[j]).1) != key,
        i >= 0 ==> lowercase(names[i].1) == key,
    ensures
        i >= 0 ==> pid_named(names, key) == Some(names[i].0),
        i < 0 ==> pid_named(names, key) is None,
    decreases names.len(),
{
    if names.len() > 0 && i < names.len() - 1 {
        assert(lowercase(names[names.len() - 1].1) != key);
        let rest = names.drop_last();
        assert(forall|j: int| 0 <= j < rest.len() ==> #[trigger] rest[j] == names[j]);
        law_processes_are_found_by_name(rest, key, i);
    }
}

} // verus!
