//! Why a detection was made, in words.
use vstd::prelude::*;

use crate::collect::one_if;
use crate::digest::{hex_digits, hex_encode};
use crate::telemetry::{
    Detection, DetectionModel, DetectionType, EventPayload, FileEvent, NetworkEvent, ProcessEvent,
    TelemetryEvent,
};
use crate::text::{
    any_ends, any_occurs, bytes_of, contains, contains_any, decimal, decimal_text, ends_with_any, hundredths,
    hundredths_text, join, joined, lowercase, occurs, opt_text, push_text, round_to, rounded, same,
    str_texts, texts, to_lowercase,
};

verus! {

/// One reason for a detection.
#[derive(Debug)]
pub struct ExplanationEntry {
    /// What the reason is called.
    pub factor: String,
    /// How much it weighs, in millionths.
    pub contribution: u32,
    /// What it is, in words.
    pub description: String,
    /// What shows it.
    pub evidence: Vec<String>,
    /// What to look into, if anything.
    pub investigation_hint: Option<String>,
}

/// What a reason says.
#[verifier::ext_equal]
pub struct EntryModel {
    pub factor: Seq<char>,
    pub contribution: u32,
    pub description: Seq<char>,
    pub evidence: Seq<Seq<char>>,
    pub investigation_hint: Option<Seq<char>>,
}

impl View for ExplanationEntry {
    type V = EntryModel;

    open spec fn view(&self) -> EntryModel {
        EntryModel {
            factor: self.factor@,
            contribution: self.contribution,
            description: self.description@,
            evidence: texts(self.evidence@),
            investigation_hint: opt_text(self.investigation_hint),
        }
    }
}

/// What some reasons say.
pub open spec fn entries_view(entries: Seq<ExplanationEntry>) -> Seq<EntryModel> {
    entries.map_values(|e: ExplanationEntry| e@)
}

/// A tactic of the ATT&CK catalogue.
#[derive(Debug)]
pub struct TacticInfo {
    pub id: String,
    pub name: String,
    pub description: String,
}

/// What a tactic is.
#[verifier::ext_equal]
pub struct TacticModel {
    pub id: Seq<char>,
    pub name: Seq<char>,
    pub description: Seq<char>,
}

impl View for TacticInfo {
    type V = TacticModel;

    open spec fn view(&self) -> TacticModel {
        TacticModel { id: self.id@, name: self.name@, description: self.description@ }
    }
}

/// A technique of the ATT&CK catalogue.
#[derive(Debug)]
pub struct TechniqueInfo {
    pub id: String,
    pub name: String,
    pub description: String,
    pub detection_tips: Vec<String>,
}

/// What a technique is.
#[verifier::ext_equal]
pub struct TechniqueModel {
    pub id: Seq<char>,
    pub name: Seq<char>,
    pub description: Seq<char>,
    pub detection_tips: Seq<Seq<char>>,
}

impl View for TechniqueInfo {
    type V = TechniqueModel;

    open spec fn view(&self) -> TechniqueModel {
        TechniqueModel {
            id: self.id@,
            name: self.name@,
            description: self.description@,
            detection_tips: texts(self.detection_tips@),
        }
    }
}

/// What some tactics are.
pub open spec fn tactics_view(tactics: Seq<TacticInfo>) -> Seq<TacticModel> {
    tactics.map_values(|t: TacticInfo| t@)
}

/// What some techniques are.
pub open spec fn techniques_view(techniques: Seq<TechniqueInfo>) -> Seq<TechniqueModel> {
    techniques.map_values(|t: TechniqueInfo| t@)
}

/// Where a detection stands in the ATT&CK catalogue.
#[derive(Debug)]
pub struct MitreContext {
    pub tactics: Vec<TacticInfo>,
    pub techniques: Vec<TechniqueInfo>,
    pub attack_stage: String,
    pub typical_next_steps: Vec<String>,
}

/// What a context says.
#[verifier::ext_equal]
pub struct ContextModel {
    pub tactics: Seq<TacticModel>,
    pub techniques: Seq<TechniqueModel>,
    pub attack_stage: Seq<char>,
    pub typical_next_steps: Seq<Seq<char>>,
}

impl View for MitreContext {
    type V = ContextModel;

    open spec fn view(&self) -> ContextModel {
        ContextModel {
            tactics: tactics_view(self.tactics@),
            techniques: techniques_view(self.techniques@),
            attack_stage: self.attack_stage@,
            typical_next_steps: texts(self.typical_next_steps@),
        }
    }
}

impl Default for MitreContext {
    /// A context that says nothing.
    fn default() -> (r: MitreContext)
        ensures
            r@ == (ContextModel {
                tactics: Seq::empty(),
                techniques: Seq::empty(),
                attack_stage: Seq::empty(),
                typical_next_steps: Seq::empty(),
            }),
    {
        let r = MitreContext {
            tactics: Vec::new(),
            techniques: Vec::new(),
            attack_stage: String::new(),
            typical_next_steps: Vec::new(),
        };
        assert(tactics_view(r.tactics@) =~= Seq::empty());
        assert(techniques_view(r.techniques@) =~= Seq::empty());
        assert(texts(r.typical_next_steps@) =~= Seq::empty());
        assert(r.attack_stage@ =~= Seq::empty());
        r
    }
}

/// Why a detection was made.
#[derive(Debug)]
pub struct DetectionExplanation {
    /// In short.
    pub summary: String,
    /// The reasons.
    pub factors: Vec<ExplanationEntry>,
    /// How sure it is.
    pub confidence_explanation: String,
    /// What to look into.
    pub investigation_steps: Vec<String>,
    /// Where it stands in the ATT&CK catalogue.
    pub mitre_context: MitreContext,
    /// Incidents like it.
    pub similar_incidents: Vec<String>,
    /// What speaks against it.
    pub fp_indicators: Vec<String>,
    /// What speaks for it.
    pub tp_indicators: Vec<String>,
}

/// What an explanation says.
#[verifier::ext_equal]
pub struct ExplanationModel {
    pub summary: Seq<char>,
    pub factors: Seq<EntryModel>,
    pub confidence_explanation: Seq<char>,
    pub investigation_steps: Seq<Seq<char>>,
    pub mitre_context: ContextModel,
    pub similar_incidents: Seq<Seq<char>>,
    pub fp_indicators: Seq<Seq<char>>,
    pub tp_indicators: Seq<Seq<char>>,
}

impl View for DetectionExplanation {
    type V = ExplanationModel;

    open spec fn view(&self) -> ExplanationModel {
        ExplanationModel {
            summary: self.summary@,
            factors: entries_view(self.factors@),
            confidence_explanation: self.confidence_explanation@,
            investigation_steps: texts(self.investigation_steps@),
            mitre_context: self.mitre_context@,
            similar_incidents: texts(self.similar_incidents@),
            fp_indicators: texts(self.fp_indicators@),
            tp_indicators: texts(self.tp_indicators@),
        }
    }
}

/// What is known of the reasons for a detection: the reasons, what speaks for it
/// and what speaks against it.
#[verifier::ext_equal]
pub struct Reasons {
    pub factors: Seq<EntryModel>,
    pub tp: Seq<Seq<char>>,
    pub fp: Seq<Seq<char>>,
}

struct Notes {
    factors: Vec<ExplanationEntry>,
    tp: Vec<String>,
    fp: Vec<String>,
}

impl Notes {
    spec fn reasons(&self) -> Reasons {
        Reasons { factors: entries_view(self.factors@), tp: texts(self.tp@), fp: texts(self.fp@) }
    }

    fn new() -> (r: Notes)
        ensures
            r.reasons() == (Reasons { factors: Seq::empty(), tp: Seq::empty(), fp: Seq::empty() }),
    {
        let r = Notes { factors: Vec::new(), tp: Vec::new(), fp: Vec::new() };
        assert(entries_view(r.factors@) =~= Seq::empty());
        assert(texts(r.tp@) =~= Seq::empty());
        assert(texts(r.fp@) =~= Seq::empty());
        r
    }

    fn factor(
        &mut self,
        factor: String,
        contribution: u32,
        description: String,
        evidence: Vec<String>,
        hint: &str,
    )
        ensures
            final(self).reasons() == (Reasons {
                factors: old(self).reasons().factors.push(
                    EntryModel {
                        factor: factor@,
                        contribution,
                        description: description@,
                        evidence: texts(evidence@),
                        investigation_hint: if hint@.len() == 0 {
                            None
                        } else {
                            Some(hint@)
                        },
                    },
                ),
                ..old(self).reasons()
            }),
    {
        let ghost before = entries_view(self.factors@);
        let investigation_hint = if hint.is_empty() {
            None
        } else {
            Some(hint.to_string())
        };
        let entry = ExplanationEntry {
            factor,
            contribution,
            description,
            evidence,
            investigation_hint,
        };
        let ghost model = entry@;
        self.factors.push(entry);
        assert(entries_view(self.factors@) =~= before.push(model));
    }

    fn speaks_for(&mut self, text: String)
        ensures
            final(self).reasons() == (Reasons {
                tp: old(self).reasons().tp.push(text@),
                ..old(self).reasons()
            }),
    {
        push_text(&mut self.tp, text);
    }

    fn speaks_against(&mut self, text: String)
        ensures
            final(self).reasons() == (Reasons {
                fp: old(self).reasons().fp.push(text@),
                ..old(self).reasons()
            }),
    {
        push_text(&mut self.fp, text);
    }
}

/// The tactics that are known: identifier, name and description.
pub const TACTICS: [(&'static str, &'static str, &'static str); 2] = [
    ("TA0001", "Initial Access", "Techniques to gain initial foothold in the network"),
    ("TA0002", "Execution", "Techniques to run malicious code"),
];

/// The techniques that are known: identifier, name, description and two tips.
pub const TECHNIQUES: [(
    &'static str,
    &'static str,
    &'static str,
    &'static str,
    &'static str,
); 3] = [
    (
        "T1059",
        "Command and Scripting Interpreter",
        "Abuse of command and script interpreters to execute commands",
        "Monitor command-line arguments for obfuscation",
        "Check parent process relationships",
    ),
    (
        "T1055",
        "Process Injection",
        "Inject code into processes to evade defenses",
        "Monitor for cross-process memory operations",
        "Check for suspicious API calls (WriteProcessMemory, CreateRemoteThread)",
    ),
    (
        "T1003",
        "OS Credential Dumping",
        "Dump credentials from OS for lateral movement",
        "Monitor LSASS access",
        "Watch for known credential dumping tools",
    ),
];

/// The processes that a process usually starts, for the processes of which that is
/// known.
pub open spec fn typical_children(parent: Seq<char>) -> Option<Seq<&'static str>> {
    if parent == "explorer.exe"@ {
        Some(EXPLORER_CHILDREN@)
    } else if parent == "services.exe"@ {
        Some(SERVICES_CHILDREN@)
    } else {
        None
    }
}

/// What the shell of the desktop usually starts.
pub const EXPLORER_CHILDREN: [&'static str; 4] = [
    "chrome.exe",
    "firefox.exe",
    "notepad.exe",
    "cmd.exe",
];

/// What the service manager usually starts.
pub const SERVICES_CHILDREN: [&'static str; 1] = ["svchost.exe"];

/// A list of names as it is shown: each in quotes, in square brackets.
pub open spec fn quoted_list(names: Seq<Seq<char>>) -> Seq<char> {
    "["@ + joined(names.map_values(|n: Seq<char>| "\""@ + n + "\""@), ", "@) + "]"@
}

fn quoted_list_text(names: &[&str]) -> (r: String)
    ensures
        r@ == quoted_list(str_texts(names@)),
{
    let ghost all = str_texts(names@).map_values(|n: Seq<char>| "\""@ + n + "\""@);
    let mut parts: Vec<String> = Vec::new();
    let mut i: usize = 0;
    assert(texts(parts@) =~= all.take(0));
    while i < names.len()
        invariant
            i <= names@.len(),
            all == str_texts(names@).map_values(|n: Seq<char>| "\""@ + n + "\""@),
            texts(parts@) == all.take(i as int),
        decreases names@.len() - i,
    {
        push_text(&mut parts, "\"".to_string().concat(names[i]).concat("\""));
        assert(all[i as int] == "\""@ + names@[i as int]@ + "\""@);
        assert(all.take(i + 1) =~= all.take(i as int).push(all[i as int]));
        i += 1;
    }
    assert(all.take(i as int) =~= all);
    "[".to_string().concat(join(&parts, ", ").as_str()).concat("]")
}

/// How many characters of a text, from `k` on, make up its first `n` bytes, if a
/// character ends there.
pub open spec fn boundary(text: Seq<char>, n: nat, k: nat) -> Option<nat>
    decreases text.len() - k,
    when k <= text.len()
{
    if bytes_of(text.take(k as int)) == n {
        Some(k)
    } else if k == text.len() {
        None
    } else {
        boundary(text, n, k + 1)
    }
}

fn find_boundary(text: &str, n: usize) -> (r: Option<usize>)
    ensures
        match r {
            Some(k) => boundary(text@, n as nat, 0) == Some(k as nat) && k <= text@.len(),
            None => boundary(text@, n as nat, 0) is None,
        },
{
    let total: usize = text.unicode_len();
    let mut k: usize = 0;
    loop
        invariant
            k <= total,
            total == text@.len(),
            boundary(text@, n as nat, k as nat) == boundary(text@, n as nat, 0),
        decreases total - k,
    {
        let part = text.substring_char(0, k);
        assert(part@ =~= text@.take(k as int));
        if part.as_bytes().len() == n {
            return Some(k);
        }
        if k == total {
            return None;
        }
        k += 1;
    }
}

/// How many bytes of a command line are shown.
pub const SHOWN_BYTES: usize = 100;

/// Whether a command line can be shown: one that is too long has to have a
/// character end where it is cut.
pub open spec fn showable(cmdline: Seq<char>) -> bool {
    bytes_of(cmdline) > SHOWN_BYTES ==> boundary(cmdline, SHOWN_BYTES as nat, 0) is Some
}

/// As much of a command line as is shown.
pub open spec fn shown(cmdline: Seq<char>) -> Seq<char> {
    if bytes_of(cmdline) > SHOWN_BYTES {
        cmdline.take(boundary(cmdline, SHOWN_BYTES as nat, 0)->0 as int)
    } else {
        cmdline
    }
}

fn is_showable(cmdline: &str) -> (r: bool)
    ensures
        r == showable(cmdline@),
{
    cmdline.as_bytes().len() <= SHOWN_BYTES || find_boundary(cmdline, SHOWN_BYTES).is_some()
}

fn shown_text(cmdline: &str) -> (r: String)
    requires
        showable(cmdline@),
    ensures
        r@ == shown(cmdline@),
{
    if cmdline.as_bytes().len() > SHOWN_BYTES {
        match find_boundary(cmdline, SHOWN_BYTES) {
            Some(k) => {
                let part = cmdline.substring_char(0, k);
                assert(part@ =~= cmdline@.take(k as int));
                part.to_string()
            },
            None => String::new(),
        }
    } else {
        cmdline.to_string()
    }
}

/// Part of the names of office programs.
pub const OFFICE: [&'static str; 3] = ["word", "excel", "outlook"];

/// Part of the names of command shells.
pub const SHELLS: [&'static str; 2] = ["cmd", "powershell"];

/// How an encoded command is asked for.
pub const ENCODED_FLAGS: [&'static str; 2] = ["-enc", "-encodedcommand"];

/// How the execution policy is got around.
pub const BYPASS_FLAGS: [&'static str; 2] = ["bypass", "-nop"];

/// Where temporary files lie.
pub const TEMP_PATHS: [&'static str; 2] = ["\\temp\\", "\\appdata\\local\\temp"];

/// Where programs of the system lie.
pub const SYSTEM_PATHS: [&'static str; 2] = ["\\system32\\", "\\program files"];

/// Part of the names of vendors that are trusted.
pub const TRUSTED_VENDORS: [&'static str; 3] = ["Microsoft", "Google", "Apple"];

/// How the names of archives end.
pub const ARCHIVES: [&'static str; 3] = [".zip", ".7z", ".gz"];

/// Whether an office program started a command shell.
pub open spec fn office_starts_shell(parent: Seq<char>, child: Seq<char>) -> bool {
    any_occurs(OFFICE@, lowercase(parent)) && any_occurs(SHELLS@, lowercase(child))
}

/// Whether a process started one that it usually does not start.
pub open spec fn unusual_child(parent: Seq<char>, child: Seq<char>) -> bool {
    match typical_children(lowercase(parent)) {
        Some(names) => !any_occurs(names, lowercase(child)),
        None => false,
    }
}

/// A reason.
pub open spec fn reason(
    factor: Seq<char>,
    contribution: u32,
    description: Seq<char>,
    evidence: Seq<Seq<char>>,
    hint: Option<Seq<char>>,
) -> EntryModel {
    EntryModel { factor, contribution, description, evidence, investigation_hint: hint }
}

/// The reasons that lie in who started a process.
pub open spec fn parent_factors(parent: Seq<char>, child: Seq<char>) -> Seq<EntryModel> {
    one_if(
        office_starts_shell(parent, child),
        reason(
            "Suspicious Parent-Child"@,
            400_000,
            "Office application ("@ + parent + ") spawned a command shell ("@ + child
                + ") - common malware delivery technique"@,
            seq!["Parent: "@ + parent, "Child: "@ + child],
            Some("Check for recent email attachments or downloaded documents"@),
        ),
    ) + one_if(
        unusual_child(parent, child),
        reason(
            "Baseline Deviation"@,
            200_000,
            parent + " doesn't typically spawn "@ + child + " based on learned behavior"@,
            seq![
                "Typical children: "@ + quoted_list(
                    str_texts(typical_children(lowercase(parent))->0),
                ),
            ],
            Some("Verify if this is a new legitimate behavior"@),
        ),
    )
}

/// The reasons that lie in a command line.
pub open spec fn cmdline_factors(cmdline: Seq<char>) -> Seq<EntryModel> {
    one_if(
        any_occurs(ENCODED_FLAGS@, lowercase(cmdline)),
        reason(
            "Encoded Command"@,
            350_000,
            "PowerShell executed with encoded/obfuscated command - often used to hide malicious intent"@,
            seq![
                "Command contains -enc or -encodedcommand flag"@,
                "Full command: "@ + shown(cmdline),
            ],
            Some("Decode the Base64 command to see actual payload"@),
        ),
    ) + one_if(
        any_occurs(BYPASS_FLAGS@, lowercase(cmdline)),
        reason(
            "Execution Policy Bypass"@,
            250_000,
            "Command attempts to bypass security controls"@,
            seq!["Contains bypass/nop flags"@],
            None,
        ),
    )
}

/// The reasons that lie in the file of a process.
pub open spec fn file_factors(path: Seq<char>, is_signed: bool) -> Seq<EntryModel> {
    one_if(
        any_occurs(TEMP_PATHS@, lowercase(path)),
        reason(
            "Temp Execution"@,
            150_000,
            "Process running from temporary directory - common for malware"@,
            seq!["Path: "@ + path],
            Some("Check how the file arrived in temp directory"@),
        ),
    ) + one_if(
        !is_signed,
        reason(
            "Unsigned Binary"@,
            150_000,
            "Executable is not digitally signed"@,
            seq!["No valid digital signature"@],
            Some("Legitimate software is usually signed"@),
        ),
    )
}

/// The reasons for a finding on the behaviour of a process.
pub open spec fn process_reasons(p: ProcessEvent) -> Reasons {
    let temp = any_occurs(TEMP_PATHS@, lowercase(p.path@));
    let system = any_occurs(SYSTEM_PATHS@, lowercase(p.path@));
    let parent = p.parent_name;
    Reasons {
        factors: (if parent is Some {
            parent_factors(parent->0@, p.name@)
        } else {
            Seq::empty()
        }) + cmdline_factors(p.cmdline@) + file_factors(p.path@, p.is_signed),
        tp: one_if(
            parent is Some && office_starts_shell(parent->0@, p.name@),
            "Office application spawning shell is a common macro malware indicator"@,
        ) + one_if(
            any_occurs(ENCODED_FLAGS@, lowercase(p.cmdline@)),
            "Base64 encoded PowerShell is a strong malware indicator"@,
        ) + one_if(temp, "Execution from temp directory is suspicious"@),
        fp: one_if(!temp && system, "Running from standard system location"@) + one_if(
            p.is_signed && p.signer is Some && any_occurs(TRUSTED_VENDORS@, p.signer->0@),
            "Signed by trusted vendor: "@ + p.signer->0@,
        ),
    }
}

/// The reasons for a finding on the entropy of a file.
pub open spec fn entropy_reasons(f: FileEvent) -> Reasons {
    let bits = hundredths(rounded(f.entropy as nat, 10_000));
    Reasons {
        factors: seq![
            reason(
                "High Entropy"@,
                500_000,
                "File has entropy of "@ + bits + " bits - indicates encrypted/compressed content"@,
                seq!["Entropy: "@ + bits, "File: "@ + f.path@],
                Some("Check if file was recently encrypted by a suspicious process"@),
            ),
        ],
        tp: one_if(f.entropy > 7_900_000, "Entropy > 7.9 strongly indicates encryption"@),
        fp: one_if(
            any_ends(f.path@, ARCHIVES@),
            "File is a known archive format - high entropy is expected"@,
        ),
    }
}

/// One reason with what speaks for the detection.
pub open spec fn one_reason(entry: EntryModel, tp: Seq<Seq<char>>) -> Reasons {
    Reasons { factors: seq![entry], tp, fp: Seq::empty() }
}

/// No reason.
pub open spec fn no_reasons() -> Reasons {
    Reasons { factors: Seq::empty(), tp: Seq::empty(), fp: Seq::empty() }
}

/// The reasons for a detection.
pub open spec fn reasons(event: TelemetryEvent, d: DetectionModel) -> Reasons {
    let said = seq![d.description];
    match d.detection_type {
        DetectionType::Behavioral => match event.payload {
            EventPayload::Process(p) => process_reasons(p),
            _ => no_reasons(),
        },
        DetectionType::Yara => one_reason(
            reason(
                "YARA Rule Match"@,
                800_000,
                "Matched YARA rule: "@ + d.rule_name,
                said,
                Some("Review the matched file content and rule definition"@),
            ),
            seq!["YARA rule '"@ + d.rule_name + "' designed to detect known malware patterns"@],
        ),
        DetectionType::Sigma => one_reason(
            reason(
                "Sigma Rule Match"@,
                700_000,
                "Matched Sigma rule: "@ + d.rule_name,
                said,
                Some("Check the full event context and timeline"@),
            ),
            seq!["Sigma rule '"@ + d.rule_name + "' detects known attack patterns"@],
        ),
        DetectionType::Ioc | DetectionType::ThreatIntel => one_reason(
            reason(
                "Known Indicator Match"@,
                d.confidence,
                "Matched known threat intelligence indicator: "@ + d.rule_name,
                said,
                Some("Check threat intel source for additional context"@),
            ),
            seq!["Match against curated threat intelligence"@],
        ),
        DetectionType::Honeyfile => one_reason(
            reason(
                "Deception Triggered"@,
                950_000,
                "Honeyfile/honeytoken access detected - no legitimate process should access these files"@,
                said,
                Some("Immediately investigate the accessing process - this is high confidence"@),
            ),
            seq!["Honeyfile access has near-zero false positive rate"@],
        ),
        DetectionType::Entropy => match event.payload {
            EventPayload::File(f) => entropy_reasons(f),
            _ => no_reasons(),
        },
        DetectionType::Ransomware => one_reason(
            reason(
                "ransomware_detection"@,
                950_000,
                "Ransomware behavior detected - file encryption patterns observed"@,
                said,
                Some("Check for ransom notes and encrypted file extensions"@),
            ),
            seq![
                "Rapid file modification with encryption signatures"@,
                "Extension changes to known ransomware patterns"@,
            ],
        ),
        DetectionType::Malware => one_reason(
            reason(
                "malware_detection"@,
                900_000,
                "Malware signatures or behavior detected"@,
                said,
                Some("Submit sample to sandbox for full analysis"@),
            ),
            seq!["Known malware signature match"@],
        ),
        DetectionType::MemoryThreat => one_reason(
            reason(
                "memory_threat"@,
                850_000,
                "Suspicious memory patterns detected - possible fileless malware"@,
                said,
                Some("Capture memory dump for forensic analysis"@),
            ),
            seq![
                "Shellcode or injection patterns in memory"@,
                "Suspicious memory region permissions"@,
            ],
        ),
        DetectionType::DriverThreat => one_reason(
            reason(
                "driver_threat"@,
                900_000,
                "Malicious or vulnerable driver detected"@,
                said,
                Some("Block driver and check for kernel-level persistence"@),
            ),
            seq!["Driver matches known BYOVD blocklist"@, "Driver has known vulnerabilities"@],
        ),
        _ => one_reason(
            reason(
                lowercase(d.detection_type.spec_name() + "_detection"@),
                d.confidence,
                d.description,
                said,
                Some("Review detection details and correlate with other events"@),
            ),
            seq!["Detection matched configured rules"@],
        ),
    }
}

/// What is shown of a technique that is known.
pub open spec fn known_technique(id: Seq<char>, i: nat) -> Option<int>
    decreases TECHNIQUES@.len() - i,
    when i <= TECHNIQUES@.len()
{
    if i == TECHNIQUES@.len() {
        None
    } else if TECHNIQUES@[i as int].0@ == id {
        Some(i as int)
    } else {
        known_technique(id, i + 1)
    }
}

/// The technique of an identifier, if it is known.
pub open spec fn technique(id: Seq<char>) -> Option<TechniqueModel> {
    match known_technique(id, 0) {
        Some(i) => Some(
            TechniqueModel {
                id: TECHNIQUES@[i].0@,
                name: TECHNIQUES@[i].1@,
                description: TECHNIQUES@[i].2@,
                detection_tips: seq![TECHNIQUES@[i].3@, TECHNIQUES@[i].4@],
            },
        ),
        None => None,
    }
}

/// The tactic of an identifier, if it is known.
pub open spec fn tactic(id: Seq<char>) -> Option<TacticModel> {
    if id == TACTICS@[0].0@ {
        Some(
            TacticModel {
                id: TACTICS@[0].0@,
                name: TACTICS@[0].1@,
                description: TACTICS@[0].2@,
            },
        )
    } else if id == TACTICS@[1].0@ {
        Some(
            TacticModel {
                id: TACTICS@[1].0@,
                name: TACTICS@[1].1@,
                description: TACTICS@[1].2@,
            },
        )
    } else {
        None
    }
}

fn get_tactic(id: &str) -> (r: Option<TacticInfo>)
    ensures
        match r {
            Some(t) => tactic(id@) == Some(t@),
            None => tactic(id@) is None,
        },
{
    let row = if same(id, TACTICS[0].0) {
        TACTICS[0]
    } else if same(id, TACTICS[1].0) {
        TACTICS[1]
    } else {
        return None;
    };
    Some(
        TacticInfo {
            id: row.0.to_string(),
            name: row.1.to_string(),
            description: row.2.to_string(),
        },
    )
}

fn get_technique(id: &str) -> (r: Option<TechniqueInfo>)
    ensures
        match r {
            Some(t) => technique(id@) == Some(t@),
            None => technique(id@) is None,
        },
{
    let mut i: usize = 0;
    while i < TECHNIQUES.len()
        invariant
            i <= TECHNIQUES@.len(),
            known_technique(id@, i as nat) == known_technique(id@, 0),
        decreases TECHNIQUES@.len() - i,
    {
        let row = TECHNIQUES[i];
        if same(id, row.0) {
            let mut detection_tips: Vec<String> = Vec::new();
            detection_tips.push(row.3.to_string());
            detection_tips.push(row.4.to_string());
            assert(texts(detection_tips@) =~= seq![row.3@, row.4@]);
            return Some(
                TechniqueInfo {
                    id: row.0.to_string(),
                    name: row.1.to_string(),
                    description: row.2.to_string(),
                    detection_tips,
                },
            );
        }
        i += 1;
    }
    None
}

/// The tactics that are known among the first `n`.
pub open spec fn known_tactics(ids: Seq<Seq<char>>, n: nat) -> Seq<TacticModel>
    decreases n,
{
    if n == 0 {
        Seq::empty()
    } else {
        let before = known_tactics(ids, (n - 1) as nat);
        match tactic(ids[n - 1]) {
            Some(t) => before.push(t),
            None => before,
        }
    }
}

/// The techniques that are known among the first `n`.
pub open spec fn known_techniques(ids: Seq<Seq<char>>, n: nat) -> Seq<TechniqueModel>
    decreases n,
{
    if n == 0 {
        Seq::empty()
    } else {
        let before = known_techniques(ids, (n - 1) as nat);
        match technique(ids[n - 1]) {
            Some(t) => before.push(t),
            None => before,
        }
    }
}

/// What the tips of a technique say.
pub open spec fn tip(id: Seq<char>, text: Seq<char>) -> Seq<char> {
    "["@ + id + "] "@ + text
}

/// The tips of the first `n` techniques.
pub open spec fn tips(ids: Seq<Seq<char>>, n: nat) -> Seq<Seq<char>>
    decreases n,
{
    if n == 0 {
        Seq::empty()
    } else {
        let before = tips(ids, (n - 1) as nat);
        match technique(ids[n - 1]) {
            Some(t) => before + seq![
                tip(ids[n - 1], t.detection_tips[0]),
                tip(ids[n - 1], t.detection_tips[1]),
            ],
            None => before,
        }
    }
}

/// What to look into for a process.
pub open spec fn process_steps(p: ProcessEvent) -> Seq<Seq<char>> {
    seq![
        "1. Examine process tree for PID "@ + decimal(p.pid as nat)
            + " to understand execution context"@,
        "2. Check for related file and network activity in the same timeframe"@,
    ] + one_if(
        p.sha256@.len() > 0,
        "3. Search VirusTotal for hash: "@ + hex_digits(p.sha256@),
    ) + one_if(
        p.parent_name is Some,
        "4. Investigate parent process: "@ + p.parent_name->0@,
    )
}

/// What to look into for a connection.
pub open spec fn network_steps(n: NetworkEvent) -> Seq<Seq<char>> {
    seq![
        "1. Check reputation of remote IP: "@ + n.remote_ip@,
        "2. Look for other connections to "@ + n.remote_ip@ + ":"@ + decimal(n.remote_port as nat),
        "3. Examine process "@ + n.process_name@ + " (PID: "@ + decimal(n.pid as nat)
            + ") for other suspicious activity"@,
    ]
}

/// What to look into for an event.
pub open spec fn event_steps(payload: EventPayload) -> Seq<Seq<char>> {
    match payload {
        EventPayload::Process(p) => process_steps(p),
        EventPayload::Network(n) => network_steps(n),
        EventPayload::File(f) => seq![
            "1. Collect and analyze file: "@ + f.path@,
            "2. Identify process "@ + f.process_name@ + " that performed the operation"@,
            "3. Check for bulk file operations by the same process"@,
        ],
        _ => seq!["1. Review full event details"@, "2. Check related events in timeline"@],
    }
}

/// What to look into for a detection.
pub open spec fn investigation_steps(payload: EventPayload, techniques: Seq<Seq<char>>) -> Seq<
    Seq<char>,
> {
    event_steps(payload) + tips(techniques, techniques.len())
}

/// Two words that tell a stage of an attack, and the stage.
pub const STAGES: [(&'static str, &'static str, &'static str); 6] = [
    ("initial", "initial", "Early Stage - Initial Access"),
    ("execution", "persistence", "Establishment Phase"),
    ("privilege", "credential", "Escalation Phase"),
    ("lateral", "discovery", "Expansion Phase"),
    ("collection", "exfiltration", "Objective Phase - Data Theft"),
    ("impact", "impact", "Final Phase - Impact"),
];

/// The first stage, from position `i` of the table on, that a word of it tells.
pub open spec fn stage_from(tactic: Seq<char>, i: nat) -> Option<Seq<char>>
    decreases STAGES@.len() - i,
    when i <= STAGES@.len()
{
    if i == STAGES@.len() {
        None
    } else if occurs(STAGES@[i as int].0@, tactic) || occurs(STAGES@[i as int].1@, tactic) {
        Some(STAGES@[i as int].2@)
    } else {
        stage_from(tactic, i + 1)
    }
}

/// The stage that a tactic stands for, if any.
pub open spec fn stage(tactic: Seq<char>) -> Option<Seq<char>> {
    stage_from(lowercase(tactic), 0)
}

/// The stage of the first tactic, from position `i` on, that stands for one.
pub open spec fn attack_stage(tactics: Seq<Seq<char>>, i: nat) -> Seq<char>
    decreases tactics.len() - i,
    when i <= tactics.len()
{
    if i == tactics.len() {
        "Unknown Stage"@
    } else {
        match stage(tactics[i as int]) {
            Some(s) => s,
            None => attack_stage(tactics, i + 1),
        }
    }
}

/// What usually follows a technique.
pub open spec fn predictions_of(technique: Seq<char>) -> Seq<Seq<char>> {
    if technique == "T1059"@ || technique == "T1059.001"@ {
        seq![
            "Watch for: Persistence mechanisms (scheduled tasks, registry run keys)"@,
            "Watch for: Credential dumping attempts"@,
        ]
    } else if technique == "T1055"@ {
        seq![
            "Watch for: Network connections from injected processes"@,
            "Watch for: Privilege escalation attempts"@,
        ]
    } else if technique == "T1003"@ {
        seq![
            "Watch for: Lateral movement using stolen credentials"@,
            "Watch for: Access to sensitive file shares"@,
        ]
    } else {
        Seq::empty()
    }
}

/// What usually follows the first `n` techniques.
pub open spec fn all_predictions(techniques: Seq<Seq<char>>, n: nat) -> Seq<Seq<char>>
    decreases n,
{
    if n == 0 {
        Seq::empty()
    } else {
        all_predictions(techniques, (n - 1) as nat) + predictions_of(techniques[n - 1])
    }
}

/// What usually follows, or that nothing is known of it.
pub open spec fn next_steps(techniques: Seq<Seq<char>>) -> Seq<Seq<char>> {
    let all = all_predictions(techniques, techniques.len());
    if all.len() == 0 {
        seq!["Monitor for follow-up suspicious activity"@]
    } else {
        all
    }
}

/// Where a detection stands in the ATT&CK catalogue.
pub open spec fn mitre_context(techniques: Seq<Seq<char>>, tactics: Seq<Seq<char>>) -> ContextModel {
    ContextModel {
        tactics: known_tactics(tactics, tactics.len()),
        techniques: known_techniques(techniques, techniques.len()),
        attack_stage: attack_stage(tactics, 0),
        typical_next_steps: next_steps(techniques),
    }
}

/// The last of the heaviest among the first `n` reasons.
pub open spec fn heaviest(factors: Seq<EntryModel>, n: nat) -> int
    decreases n,
{
    if n <= 1 {
        0
    } else {
        let before = heaviest(factors, (n - 1) as nat);
        if factors[before].contribution <= factors[n - 1].contribution {
            n - 1
        } else {
            before
        }
    }
}

/// What the main reason is called.
pub open spec fn primary(factors: Seq<EntryModel>) -> Seq<char> {
    if factors.len() == 0 {
        "Unknown"@
    } else {
        factors[heaviest(factors, factors.len())].factor
    }
}

/// A confidence in whole per cent.
pub open spec fn per_cent(confidence: u32) -> Seq<char> {
    decimal(rounded(confidence as nat, 10_000))
}

/// A detection in short.
pub open spec fn summary(payload: EventPayload, d: DetectionModel, factors: Seq<EntryModel>) -> Seq<
    char,
> {
    match payload {
        EventPayload::Process(p) => "Process '"@ + p.name@ + "' (PID: "@ + decimal(p.pid as nat)
            + ") triggered detection '"@ + d.rule_name + "'. Primary factor: "@ + primary(factors)
            + ". Confidence: "@ + per_cent(d.confidence) + "%"@,
        EventPayload::File(f) => "File operation on '"@ + f.path@ + "' by '"@ + f.process_name@
            + "' triggered detection '"@ + d.rule_name + "'. Primary factor: "@ + primary(factors),
        EventPayload::Network(n) => "Network connection to "@ + n.remote_ip@ + ":"@ + decimal(
            n.remote_port as nat,
        ) + " by '"@ + n.process_name@ + "' triggered detection '"@ + d.rule_name
            + "'. Primary factor: "@ + primary(factors),
        _ => "Detection '"@ + d.rule_name + "' triggered. Primary factor: "@ + primary(factors),
    }
}

/// What the first `n` reasons weigh together.
pub open spec fn weight(factors: Seq<EntryModel>, n: nat) -> nat
    decreases n,
{
    if n == 0 {
        0
    } else {
        weight(factors, (n - 1) as nat) + factors[n - 1].contribution as nat
    }
}

/// How high a confidence is, in words.
pub open spec fn confidence_level(confidence: u32) -> Seq<char> {
    if confidence >= 900_000 {
        "Very High"@
    } else if confidence >= 750_000 {
        "High"@
    } else if confidence >= 500_000 {
        "Medium"@
    } else {
        "Low"@
    }
}

/// How sure a detection is.
pub open spec fn confidence_explanation(confidence: u32, factors: Seq<EntryModel>) -> Seq<char> {
    confidence_level(confidence) + " confidence ("@ + per_cent(confidence) + "%) based on "@
        + decimal(factors.len()) + " contributing factors with combined weight of "@ + hundredths(
        rounded(weight(factors, factors.len()), 10_000),
    )
}

/// Why a detection was made.
pub open spec fn explanation(event: TelemetryEvent, d: DetectionModel) -> ExplanationModel {
    let r = reasons(event, d);
    ExplanationModel {
        summary: summary(event.payload, d, r.factors),
        factors: r.factors,
        confidence_explanation: confidence_explanation(d.confidence, r.factors),
        investigation_steps: investigation_steps(event.payload, d.mitre_techniques),
        mitre_context: mitre_context(d.mitre_techniques, d.mitre_tactics),
        similar_incidents: Seq::empty(),
        fp_indicators: r.fp,
        tp_indicators: r.tp,
    }
}

/// Whether a detection can be explained: a command line that is part of the
/// explanation has to be one that can be shown.
pub open spec fn explainable(event: TelemetryEvent, d: DetectionModel) -> bool {
    d.detection_type == DetectionType::Behavioral ==> match event.payload {
        EventPayload::Process(p) => any_occurs(ENCODED_FLAGS@, lowercase(p.cmdline@)) ==> showable(
            p.cmdline@,
        ),
        _ => true,
    }
}

fn note_behavior(p: &ProcessEvent, notes: &mut Notes)
    requires
        old(notes).reasons() == no_reasons(),
        any_occurs(ENCODED_FLAGS@, lowercase(p.cmdline@)) ==> showable(p.cmdline@),
    ensures
        final(notes).reasons() == process_reasons(*p),
{
    let ghost goal = process_reasons(*p);
    match &p.parent_name {
        Some(parent) => {
            note_parent(parent.as_str(), p.name.as_str(), notes);
        },
        None => {},
    }
    let ghost r1 = notes.reasons();
    note_cmdline(p.cmdline.as_str(), notes);
    let ghost r2 = notes.reasons();
    note_file(p, notes);
    proof {
        assert(notes.reasons().factors =~= goal.factors);
        assert(notes.reasons().tp =~= goal.tp);
        assert(notes.reasons().fp =~= goal.fp);
    }
}

fn note_parent(parent: &str, child: &str, notes: &mut Notes)
    ensures
        final(notes).reasons() == (Reasons {
            factors: old(notes).reasons().factors + parent_factors(parent@, child@),
            tp: old(notes).reasons().tp + one_if(
                office_starts_shell(parent@, child@),
                "Office application spawning shell is a common macro malware indicator"@,
            ),
            ..old(notes).reasons()
        }),
{
    let ghost r0 = notes.reasons();
    let parent_lower = to_lowercase(parent);
    let child_lower = to_lowercase(child);
    if contains_any(parent_lower.as_str(), &OFFICE) && contains_any(child_lower.as_str(), &SHELLS) {
        let mut evidence: Vec<String> = Vec::new();
        evidence.push("Parent: ".to_string().concat(parent));
        evidence.push("Child: ".to_string().concat(child));
        assert(texts(evidence@) =~= seq!["Parent: "@ + parent@, "Child: "@ + child@]);
        proof {
            reveal_strlit("Check for recent email attachments or downloaded documents");
        }
        notes.factor(
            "Suspicious Parent-Child".to_string(),
            400_000,
            "Office application (".to_string().concat(parent).concat(
                ") spawned a command shell (",
            ).concat(child).concat(") - common malware delivery technique"),
            evidence,
            "Check for recent email attachments or downloaded documents",
        );
        notes.speaks_for(
            "Office application spawning shell is a common macro malware indicator".to_string(),
        );
    }
    let ghost r1 = notes.reasons();
    let names: Option<&[&str]> = if same(parent_lower.as_str(), "explorer.exe") {
        Some(&EXPLORER_CHILDREN)
    } else if same(parent_lower.as_str(), "services.exe") {
        Some(&SERVICES_CHILDREN)
    } else {
        None
    };
    match names {
        Some(names) => {
            if !contains_any(child_lower.as_str(), names) {
                let mut evidence: Vec<String> = Vec::new();
                evidence.push(
                    "Typical children: ".to_string().concat(quoted_list_text(names).as_str()),
                );
                assert(texts(evidence@) =~= seq![
                    "Typical children: "@ + quoted_list(str_texts(names@)),
                ]);
                proof {
                    reveal_strlit("Verify if this is a new legitimate behavior");
                }
                notes.factor(
                    "Baseline Deviation".to_string(),
                    200_000,
                    parent.to_string().concat(" doesn't typically spawn ").concat(child).concat(
                        " based on learned behavior",
                    ),
                    evidence,
                    "Verify if this is a new legitimate behavior",
                );
            }
        },
        None => {},
    }
    proof {
        assert(notes.reasons().factors =~= r0.factors + parent_factors(parent@, child@));
        assert(notes.reasons().tp =~= r0.tp + one_if(
            office_starts_shell(parent@, child@),
            "Office application spawning shell is a common macro malware indicator"@,
        ));
    }
}

fn note_cmdline(cmdline: &str, notes: &mut Notes)
    requires
        any_occurs(ENCODED_FLAGS@, lowercase(cmdline@)) ==> showable(cmdline@),
    ensures
        final(notes).reasons() == (Reasons {
            factors: old(notes).reasons().factors + cmdline_factors(cmdline@),
            tp: old(notes).reasons().tp + one_if(
                any_occurs(ENCODED_FLAGS@, lowercase(cmdline@)),
                "Base64 encoded PowerShell is a strong malware indicator"@,
            ),
            ..old(notes).reasons()
        }),
{
    let ghost r0 = notes.reasons();
    let lower = to_lowercase(cmdline);
    if contains_any(lower.as_str(), &ENCODED_FLAGS) {
        let mut evidence: Vec<String> = Vec::new();
        evidence.push("Command contains -enc or -encodedcommand flag".to_string());
        evidence.push("Full command: ".to_string().concat(shown_text(cmdline).as_str()));
        assert(texts(evidence@) =~= seq![
            "Command contains -enc or -encodedcommand flag"@,
            "Full command: "@ + shown(cmdline@),
        ]);
        proof {
            reveal_strlit("Decode the Base64 command to see actual payload");
        }
        notes.factor(
            "Encoded Command".to_string(),
            350_000,
            "PowerShell executed with encoded/obfuscated command - often used to hide malicious intent".to_string(),
            evidence,
            "Decode the Base64 command to see actual payload",
        );
        notes.speaks_for("Base64 encoded PowerShell is a strong malware indicator".to_string());
    }
    if contains_any(lower.as_str(), &BYPASS_FLAGS) {
        let mut evidence: Vec<String> = Vec::new();
        evidence.push("Contains bypass/nop flags".to_string());
        assert(texts(evidence@) =~= seq!["Contains bypass/nop flags"@]);
        proof {
            reveal_strlit("");
        }
        notes.factor(
            "Execution Policy Bypass".to_string(),
            250_000,
            "Command attempts to bypass security controls".to_string(),
            evidence,
            "",
        );
    }
    proof {
        assert(notes.reasons().factors =~= r0.factors + cmdline_factors(cmdline@));
        assert(notes.reasons().tp =~= r0.tp + one_if(
            any_occurs(ENCODED_FLAGS@, lowercase(cmdline@)),
            "Base64 encoded PowerShell is a strong malware indicator"@,
        ));
    }
}

fn note_file(p: &ProcessEvent, notes: &mut Notes)
    ensures
        ({
            let temp = any_occurs(TEMP_PATHS@, lowercase(p.path@));
            let system = any_occurs(SYSTEM_PATHS@, lowercase(p.path@));
            final(notes).reasons() == (Reasons {
                factors: old(notes).reasons().factors + file_factors(p.path@, p.is_signed),
                tp: old(notes).reasons().tp + one_if(
                    temp,
                    "Execution from temp directory is suspicious"@,
                ),
                fp: old(notes).reasons().fp + (one_if(
                    !temp && system,
                    "Running from standard system location"@,
                ) + one_if(
                    p.is_signed && p.signer is Some && any_occurs(TRUSTED_VENDORS@, p.signer->0@),
                    "Signed by trusted vendor: "@ + p.signer->0@,
                )),
            })
        }),
{
    let ghost r0 = notes.reasons();
    let ghost temp = any_occurs(TEMP_PATHS@, lowercase(p.path@));
    let ghost system = any_occurs(SYSTEM_PATHS@, lowercase(p.path@));
    let path = p.path.as_str();
    let lower = to_lowercase(path);
    if contains_any(lower.as_str(), &TEMP_PATHS) {
        let mut evidence: Vec<String> = Vec::new();
        evidence.push("Path: ".to_string().concat(path));
        assert(texts(evidence@) =~= seq!["Path: "@ + path@]);
        proof {
            reveal_strlit("Check how the file arrived in temp directory");
        }
        notes.factor(
            "Temp Execution".to_string(),
            150_000,
            "Process running from temporary directory - common for malware".to_string(),
            evidence,
            "Check how the file arrived in temp directory",
        );
        notes.speaks_for("Execution from temp directory is suspicious".to_string());
    } else if contains_any(lower.as_str(), &SYSTEM_PATHS) {
        notes.speaks_against("Running from standard system location".to_string());
    }
    if !p.is_signed {
        let mut evidence: Vec<String> = Vec::new();
        evidence.push("No valid digital signature".to_string());
        assert(texts(evidence@) =~= seq!["No valid digital signature"@]);
        proof {
            reveal_strlit("Legitimate software is usually signed");
        }
        notes.factor(
            "Unsigned Binary".to_string(),
            150_000,
            "Executable is not digitally signed".to_string(),
            evidence,
            "Legitimate software is usually signed",
        );
    } else {
        match &p.signer {
            Some(signer) => {
                if contains_any(signer.as_str(), &TRUSTED_VENDORS) {
                    notes.speaks_against(
                        "Signed by trusted vendor: ".to_string().concat(signer.as_str()),
                    );
                }
            },
            None => {},
        }
    }
    proof {
        assert(notes.reasons().factors =~= r0.factors + file_factors(p.path@, p.is_signed));
        assert(notes.reasons().tp =~= r0.tp + one_if(
            temp,
            "Execution from temp directory is suspicious"@,
        ));
        assert(notes.reasons().fp =~= r0.fp + (one_if(
            !temp && system,
            "Running from standard system location"@,
        ) + one_if(
            p.is_signed && p.signer is Some && any_occurs(TRUSTED_VENDORS@, p.signer->0@),
            "Signed by trusted vendor: "@ + p.signer->0@,
        )));
    }
}

fn note_entropy(f: &FileEvent, notes: &mut Notes)
    requires
        old(notes).reasons() == no_reasons(),
    ensures
        final(notes).reasons() == entropy_reasons(*f),
{
    let ghost goal = entropy_reasons(*f);
    let bits = hundredths_text(round_to(f.entropy as u64, 10_000));
    let mut evidence: Vec<String> = Vec::new();
    evidence.push("Entropy: ".to_string().concat(bits.as_str()));
    evidence.push("File: ".to_string().concat(f.path.as_str()));
    assert(texts(evidence@) =~= seq!["Entropy: "@ + bits@, "File: "@ + f.path@]);
    proof {
        reveal_strlit("Check if file was recently encrypted by a suspicious process");
    }
    notes.factor(
        "High Entropy".to_string(),
        500_000,
        "File has entropy of ".to_string().concat(bits.as_str()).concat(
            " bits - indicates encrypted/compressed content",
        ),
        evidence,
        "Check if file was recently encrypted by a suspicious process",
    );
    if f.entropy > 7_900_000 {
        notes.speaks_for("Entropy > 7.9 strongly indicates encryption".to_string());
    }
    if ends_with_any(f.path.as_str(), &ARCHIVES) {
        notes.speaks_against(
            "File is a known archive format - high entropy is expected".to_string(),
        );
    }
    proof {
        assert(notes.reasons().factors =~= goal.factors);
        assert(notes.reasons().tp =~= goal.tp);
        assert(notes.reasons().fp =~= goal.fp);
    }
}

fn note_one(
    detection: &Detection,
    factor: String,
    contribution: u32,
    description: String,
    hint: &str,
    first: String,
    second: &str,
    notes: &mut Notes,
)
    requires
        old(notes).reasons() == no_reasons(),
        hint@.len() > 0,
    ensures
        final(notes).reasons() == one_reason(
            reason(
                factor@,
                contribution,
                description@,
                seq![detection.description@],
                Some(hint@),
            ),
            if second@.len() == 0 {
                seq![first@]
            } else {
                seq![first@, second@]
            },
        ),
{
    let ghost goal = one_reason(
        reason(factor@, contribution, description@, seq![detection.description@], Some(hint@)),
        if second@.len() == 0 {
            seq![first@]
        } else {
            seq![first@, second@]
        },
    );
    let mut evidence: Vec<String> = Vec::new();
    evidence.push(detection.description.clone());
    assert(texts(evidence@) =~= seq![detection.description@]);
    notes.factor(factor, contribution, description, evidence, hint);
    notes.speaks_for(first);
    if !second.is_empty() {
        notes.speaks_for(second.to_string());
    }
    proof {
        assert(notes.reasons().factors =~= goal.factors);
        assert(notes.reasons().tp =~= goal.tp);
        assert(notes.reasons().fp =~= goal.fp);
    }
}

fn find_reasons(event: &TelemetryEvent, detection: &Detection) -> (notes: Notes)
    requires
        explainable(*event, detection@),
    ensures
        notes.reasons() == reasons(*event, detection@),
{
    let mut notes = Notes::new();
    let rule = detection.rule_name.as_str();
    match detection.detection_type {
        DetectionType::Behavioral => match &event.payload {
            EventPayload::Process(p) => {
                note_behavior(p, &mut notes);
            },
            _ => {},
        },
        DetectionType::Entropy => match &event.payload {
            EventPayload::File(f) => {
                note_entropy(f, &mut notes);
            },
            _ => {},
        },
        DetectionType::Yara => {
            proof {
                reveal_strlit("Review the matched file content and rule definition");
                reveal_strlit("");
            }
            note_one(
                detection,
                "YARA Rule Match".to_string(),
                800_000,
                "Matched YARA rule: ".to_string().concat(rule),
                "Review the matched file content and rule definition",
                "YARA rule '".to_string().concat(rule).concat("' designed to detect known malware patterns"),
                "",
                &mut notes,
            );
        },
        DetectionType::Sigma => {
            proof {
                reveal_strlit("Check the full event context and timeline");
                reveal_strlit("");
            }
            note_one(
                detection,
                "Sigma Rule Match".to_string(),
                700_000,
                "Matched Sigma rule: ".to_string().concat(rule),
                "Check the full event context and timeline",
                "Sigma rule '".to_string().concat(rule).concat("' detects known attack patterns"),
                "",
                &mut notes,
            );
        },
        DetectionType::Ioc | DetectionType::ThreatIntel => {
            proof {
                reveal_strlit("Check threat intel source for additional context");
                reveal_strlit("");
            }
            note_one(
                detection,
                "Known Indicator Match".to_string(),
                detection.confidence,
                "Matched known threat intelligence indicator: ".to_string().concat(rule),
                "Check threat intel source for additional context",
                "Match against curated threat intelligence".to_string(),
                "",
                &mut notes,
            );
        },
        DetectionType::Honeyfile => {
            proof {
                reveal_strlit("Immediately investigate the accessing process - this is high confidence");
                reveal_strlit("");
            }
            note_one(
                detection,
                "Deception Triggered".to_string(),
                950_000,
                "Honeyfile/honeytoken access detected - no legitimate process should access these files".to_string(),
                "Immediately investigate the accessing process - this is high confidence",
                "Honeyfile access has near-zero false positive rate".to_string(),
                "",
                &mut notes,
            );
        },
        DetectionType::Ransomware => {
            proof {
                reveal_strlit("Check for ransom notes and encrypted file extensions");
                reveal_strlit("Extension changes to known ransomware patterns");
            }
            note_one(
                detection,
                "ransomware_detection".to_string(),
                950_000,
                "Ransomware behavior detected - file encryption patterns observed".to_string(),
                "Check for ransom notes and encrypted file extensions",
                "Rapid file modification with encryption signatures".to_string(),
                "Extension changes to known ransomware patterns",
                &mut notes,
            );
        },
        DetectionType::Malware => {
            proof {
                reveal_strlit("Submit sample to sandbox for full analysis");
                reveal_strlit("");
            }
            note_one(
                detection,
                "malware_detection".to_string(),
                900_000,
                "Malware signatures or behavior detected".to_string(),
                "Submit sample to sandbox for full analysis",
                "Known malware signature match".to_string(),
                "",
                &mut notes,
            );
        },
        DetectionType::MemoryThreat => {
            proof {
                reveal_strlit("Capture memory dump for forensic analysis");
                reveal_strlit("Suspicious memory region permissions");
            }
            note_one(
                detection,
                "memory_threat".to_string(),
                850_000,
                "Suspicious memory patterns detected - possible fileless malware".to_string(),
                "Capture memory dump for forensic analysis",
                "Shellcode or injection patterns in memory".to_string(),
                "Suspicious memory region permissions",
                &mut notes,
            );
        },
        DetectionType::DriverThreat => {
            proof {
                reveal_strlit("Block driver and check for kernel-level persistence");
                reveal_strlit("Driver has known vulnerabilities");
            }
            note_one(
                detection,
                "driver_threat".to_string(),
                900_000,
                "Malicious or vulnerable driver detected".to_string(),
                "Block driver and check for kernel-level persistence",
                "Driver matches known BYOVD blocklist".to_string(),
                "Driver has known vulnerabilities",
                &mut notes,
            );
        },
        _ => {
            proof {
                reveal_strlit("Review detection details and correlate with other events");
                reveal_strlit("");
            }
            note_one(
                detection,
                to_lowercase(detection.detection_type.name().to_string().concat("_detection").as_str()),
                detection.confidence,
                detection.description.clone(),
                "Review detection details and correlate with other events",
                "Detection matched configured rules".to_string(),
                "",
                &mut notes,
            );
        },
    }
    notes
}

fn push_tips(steps: &mut Vec<String>, ids: &Vec<String>)
    ensures
        texts(final(steps)@) == texts(old(steps)@) + tips(texts(ids@), ids@.len()),
{
    let ghost all = texts(ids@);
    let ghost start = texts(steps@);
    let mut i: usize = 0;
    assert(texts(steps@) =~= start + tips(all, 0));
    while i < ids.len()
        invariant
            i <= ids@.len(),
            all == texts(ids@),
            texts(steps@) == start + tips(all, i as nat),
        decreases ids@.len() - i,
    {
        let id = ids[i].as_str();
        assert(all[i as int] == id@);
        let ghost before = texts(steps@);
        match get_technique(id) {
            Some(t) => {
                let ghost model = t@;
                assert(model.detection_tips.len() == 2);
                assert(model.detection_tips == texts(t.detection_tips@));
                assert(model.detection_tips[0] == t.detection_tips@[0]@);
                assert(model.detection_tips[1] == t.detection_tips@[1]@);
                push_text(
                    steps,
                    "[".to_string().concat(id).concat("] ").concat(t.detection_tips[0].as_str()),
                );
                push_text(
                    steps,
                    "[".to_string().concat(id).concat("] ").concat(t.detection_tips[1].as_str()),
                );
                assert(texts(steps@) =~= start + tips(all, (i + 1) as nat));
            },
            None => {
                assert(texts(steps@) =~= start + tips(all, (i + 1) as nat));
            },
        }
        i += 1;
    }
}

fn steps_for_event(payload: &EventPayload) -> (steps: Vec<String>)
    ensures
        texts(steps@) == event_steps(*payload),
{
    let mut steps: Vec<String> = Vec::new();
    assert(texts(steps@) =~= Seq::empty());
    match payload {
        EventPayload::Process(p) => {
            push_text(
                &mut steps,
                "1. Examine process tree for PID ".to_string().concat(
                    decimal_text(p.pid as u64).as_str(),
                ).concat(" to understand execution context"),
            );
            push_text(
                &mut steps,
                "2. Check for related file and network activity in the same timeframe".to_string(),
            );
            if p.sha256.len() > 0 {
                push_text(
                    &mut steps,
                    "3. Search VirusTotal for hash: ".to_string().concat(
                        hex_encode(p.sha256.as_slice()).as_str(),
                    ),
                );
            }
            match &p.parent_name {
                Some(parent) => {
                    push_text(
                        &mut steps,
                        "4. Investigate parent process: ".to_string().concat(parent.as_str()),
                    );
                },
                None => {},
            }
            assert(texts(steps@) =~= process_steps(*p));
        },
        EventPayload::Network(n) => {
            let ip = n.remote_ip.as_str();
            push_text(
                &mut steps,
                "1. Check reputation of remote IP: ".to_string().concat(ip),
            );
            push_text(
                &mut steps,
                "2. Look for other connections to ".to_string().concat(ip).concat(":").concat(
                    decimal_text(n.remote_port as u64).as_str(),
                ),
            );
            push_text(
                &mut steps,
                "3. Examine process ".to_string().concat(n.process_name.as_str()).concat(
                    " (PID: ",
                ).concat(decimal_text(n.pid as u64).as_str()).concat(
                    ") for other suspicious activity",
                ),
            );
            assert(texts(steps@) =~= network_steps(*n));
        },
        EventPayload::File(f) => {
            push_text(
                &mut steps,
                "1. Collect and analyze file: ".to_string().concat(f.path.as_str()),
            );
            push_text(
                &mut steps,
                "2. Identify process ".to_string().concat(f.process_name.as_str()).concat(
                    " that performed the operation",
                ),
            );
            push_text(
                &mut steps,
                "3. Check for bulk file operations by the same process".to_string(),
            );
            assert(texts(steps@) =~= event_steps(*payload));
        },
        _ => {
            push_text(&mut steps, "1. Review full event details".to_string());
            push_text(&mut steps, "2. Check related events in timeline".to_string());
            assert(texts(steps@) =~= event_steps(*payload));
        },
    }
    steps
}

fn find_stage(tactic: &str) -> (r: Option<String>)
    ensures
        opt_text(r) == stage(tactic@),
{
    let lower = to_lowercase(tactic);
    let mut i: usize = 0;
    while i < STAGES.len()
        invariant
            i <= STAGES@.len(),
            lower@ == lowercase(tactic@),
            stage_from(lower@, i as nat) == stage_from(lower@, 0),
        decreases STAGES@.len() - i,
    {
        let row = STAGES[i];
        if contains(lower.as_str(), row.0) || contains(lower.as_str(), row.1) {
            return Some(row.2.to_string());
        }
        i += 1;
    }
    None
}

fn push_predictions(list: &mut Vec<String>, technique: &str)
    ensures
        texts(final(list)@) == texts(old(list)@) + predictions_of(technique@),
{
    let ghost before = texts(list@);
    if same(technique, "T1059") || same(technique, "T1059.001") {
        push_text(
            list,
            "Watch for: Persistence mechanisms (scheduled tasks, registry run keys)".to_string(),
        );
        push_text(list, "Watch for: Credential dumping attempts".to_string());
    } else if same(technique, "T1055") {
        push_text(
            list,
            "Watch for: Network connections from injected processes".to_string(),
        );
        push_text(list, "Watch for: Privilege escalation attempts".to_string());
    } else if same(technique, "T1003") {
        push_text(list, "Watch for: Lateral movement using stolen credentials".to_string());
        push_text(list, "Watch for: Access to sensitive file shares".to_string());
    }
    assert(texts(list@) =~= before + predictions_of(technique@));
}

fn per_cent_text(confidence: u32) -> (r: String)
    ensures
        r@ == per_cent(confidence),
{
    decimal_text(round_to(confidence as u64, 10_000))
}

fn primary_factor(factors: &Vec<ExplanationEntry>) -> (r: String)
    ensures
        r@ == primary(entries_view(factors@)),
{
    if factors.len() == 0 {
        return "Unknown".to_string();
    }
    let ghost all = entries_view(factors@);
    let mut top: usize = 0;
    let mut i: usize = 1;
    while i < factors.len()
        invariant
            1 <= i <= factors@.len(),
            all == entries_view(factors@),
            top < i,
            top == heaviest(all, i as nat),
        decreases factors@.len() - i,
    {
        assert(all[top as int] == factors@[top as int]@);
        assert(all[i as int] == factors@[i as int]@);
        if factors[top].contribution <= factors[i].contribution {
            top = i;
        }
        i += 1;
    }
    factors[top].factor.clone()
}

/// Says why detections were made.
#[derive(Debug)]
pub struct DetectionExplainer {}

impl Default for DetectionExplainer {
    /// An explainer.
    fn default() -> (r: DetectionExplainer)
        ensures
            r == (DetectionExplainer {  }),
    {
        DetectionExplainer {  }
    }
}

impl DetectionExplainer {
    /// An explainer.
    pub fn new() -> (r: DetectionExplainer)
        ensures
            r == (DetectionExplainer {  }),
    {
        DetectionExplainer {  }
    }

    /// Says why a detection was made on an event.
    pub fn explain(&self, event: &TelemetryEvent, detection: &Detection) -> (r:
        DetectionExplanation)
        requires
            explainable(*event, detection@),
        ensures
            r@ == explanation(*event, detection@),
    {
        let notes = find_reasons(event, detection);
        let investigation_steps = self.generate_investigation_steps(event, detection);
        let mitre_context = self.get_mitre_context(
            &detection.mitre_techniques,
            &detection.mitre_tactics,
        );
        let summary = self.generate_summary(event, detection, &notes.factors);
        let confidence_explanation = self.explain_confidence(detection.confidence, &notes.factors);
        let similar_incidents: Vec<String> = Vec::new();
        assert(texts(similar_incidents@) =~= Seq::empty());
        DetectionExplanation {
            summary,
            factors: notes.factors,
            confidence_explanation,
            investigation_steps,
            mitre_context,
            similar_incidents,
            fp_indicators: notes.fp,
            tp_indicators: notes.tp,
        }
    }

    /// Says why a detection was made on an event, where that can be said.
    pub fn try_explain(&self, event: &TelemetryEvent, detection: &Detection) -> (r: Option<
        DetectionExplanation,
    >)
        ensures
            match r {
                Some(e) => explainable(*event, detection@) && e@ == explanation(
                    *event,
                    detection@,
                ),
                None => !explainable(*event, detection@),
            },
    {
        if detection.detection_type == DetectionType::Behavioral {
            match &event.payload {
                EventPayload::Process(p) => {
                    let lower = to_lowercase(p.cmdline.as_str());
                    if contains_any(lower.as_str(), &ENCODED_FLAGS) && !is_showable(
                        p.cmdline.as_str(),
                    ) {
                        return None;
                    }
                },
                _ => {},
            }
        }
        Some(self.explain(event, detection))
    }

    fn generate_investigation_steps(&self, event: &TelemetryEvent, detection: &Detection) -> (r:
        Vec<String>)
        ensures
            texts(r@) == investigation_steps(event.payload, detection@.mitre_techniques),
    {
        let mut steps = steps_for_event(&event.payload);
        push_tips(&mut steps, &detection.mitre_techniques);
        steps
    }

    fn get_mitre_context(&self, techniques: &Vec<String>, tactics: &Vec<String>) -> (r:
        MitreContext)
        ensures
            r@ == mitre_context(texts(techniques@), texts(tactics@)),
    {
        let ghost tactic_ids = texts(tactics@);
        let ghost technique_ids = texts(techniques@);
        let mut found_tactics: Vec<TacticInfo> = Vec::new();
        let mut i: usize = 0;
        assert(tactics_view(found_tactics@) =~= Seq::empty());
        while i < tactics.len()
            invariant
                i <= tactics@.len(),
                tactic_ids == texts(tactics@),
                tactics_view(found_tactics@) == known_tactics(tactic_ids, i as nat),
            decreases tactics@.len() - i,
        {
            let ghost before = tactics_view(found_tactics@);
            assert(tactic_ids[i as int] == tactics@[i as int]@);
            match get_tactic(tactics[i].as_str()) {
                Some(t) => {
                    let ghost model = t@;
                    found_tactics.push(t);
                    assert(tactics_view(found_tactics@) =~= before.push(model));
                },
                None => {},
            }
            i += 1;
        }
        let mut found_techniques: Vec<TechniqueInfo> = Vec::new();
        let mut j: usize = 0;
        assert(techniques_view(found_techniques@) =~= Seq::empty());
        while j < techniques.len()
            invariant
                j <= techniques@.len(),
                technique_ids == texts(techniques@),
                techniques_view(found_techniques@) == known_techniques(technique_ids, j as nat),
            decreases techniques@.len() - j,
        {
            let ghost before = techniques_view(found_techniques@);
            assert(technique_ids[j as int] == techniques@[j as int]@);
            match get_technique(techniques[j].as_str()) {
                Some(t) => {
                    let ghost model = t@;
                    found_techniques.push(t);
                    assert(techniques_view(found_techniques@) =~= before.push(model));
                },
                None => {},
            }
            j += 1;
        }
        MitreContext {
            tactics: found_tactics,
            techniques: found_techniques,
            attack_stage: self.determine_attack_stage(tactics),
            typical_next_steps: self.predict_next_steps(techniques),
        }
    }

    fn determine_attack_stage(&self, tactics: &Vec<String>) -> (r: String)
        ensures
            r@ == attack_stage(texts(tactics@), 0),
    {
        let ghost all = texts(tactics@);
        let mut i: usize = 0;
        while i < tactics.len()
            invariant
                i <= tactics@.len(),
                all == texts(tactics@),
                attack_stage(all, i as nat) == attack_stage(all, 0),
            decreases tactics@.len() - i,
        {
            assert(all[i as int] == tactics@[i as int]@);
            match find_stage(tactics[i].as_str()) {
                Some(s) => {
                    return s;
                },
                None => {},
            }
            i += 1;
        }
        "Unknown Stage".to_string()
    }

    fn predict_next_steps(&self, techniques: &Vec<String>) -> (r: Vec<String>)
        ensures
            texts(r@) == next_steps(texts(techniques@)),
    {
        let ghost all = texts(techniques@);
        let mut r: Vec<String> = Vec::new();
        let mut i: usize = 0;
        assert(texts(r@) =~= Seq::empty());
        while i < techniques.len()
            invariant
                i <= techniques@.len(),
                all == texts(techniques@),
                texts(r@) == all_predictions(all, i as nat),
            decreases techniques@.len() - i,
        {
            assert(all[i as int] == techniques@[i as int]@);
            push_predictions(&mut r, techniques[i].as_str());
            i += 1;
        }
        if r.len() == 0 {
            push_text(&mut r, "Monitor for follow-up suspicious activity".to_string());
            assert(texts(r@) =~= seq!["Monitor for follow-up suspicious activity"@]);
        }
        r
    }

    fn generate_summary(
        &self,
        event: &TelemetryEvent,
        detection: &Detection,
        factors: &Vec<ExplanationEntry>,
    ) -> (r: String)
        ensures
            r@ == summary(event.payload, detection@, entries_view(factors@)),
    {
        let top = primary_factor(factors);
        let rule = detection.rule_name.as_str();
        match &event.payload {
            EventPayload::Process(p) => {
                "Process '".to_string().concat(p.name.as_str()).concat("' (PID: ").concat(
                    decimal_text(p.pid as u64).as_str(),
                ).concat(") triggered detection '").concat(rule).concat(
                    "'. Primary factor: ",
                ).concat(top.as_str()).concat(". Confidence: ").concat(
                    per_cent_text(detection.confidence).as_str(),
                ).concat("%")
            },
            EventPayload::File(f) => {
                "File operation on '".to_string().concat(f.path.as_str()).concat("' by '").concat(
                    f.process_name.as_str(),
                ).concat("' triggered detection '").concat(rule).concat(
                    "'. Primary factor: ",
                ).concat(top.as_str())
            },
            EventPayload::Network(n) => {
                "Network connection to ".to_string().concat(n.remote_ip.as_str()).concat(
                    ":",
                ).concat(decimal_text(n.remote_port as u64).as_str()).concat(" by '").concat(
                    n.process_name.as_str(),
                ).concat("' triggered detection '").concat(rule).concat(
                    "'. Primary factor: ",
                ).concat(top.as_str())
            },
            _ => {
                "Detection '".to_string().concat(rule).concat(
                    "' triggered. Primary factor: ",
                ).concat(top.as_str())
            },
        }
    }

    fn explain_confidence(&self, confidence: u32, factors: &Vec<ExplanationEntry>) -> (r: String)
        requires
            factors@.len() <= 0xffff_ffff,
        ensures
            r@ == confidence_explanation(confidence, entries_view(factors@)),
    {
        let ghost all = entries_view(factors@);
        let mut total: u64 = 0;
        let mut i: usize = 0;
        while i < factors.len()
            invariant
                i <= factors@.len() <= 0xffff_ffff,
                all == entries_view(factors@),
                total == weight(all, i as nat),
                total <= i * 0xffff_ffff,
            decreases factors@.len() - i,
        {
            assert(all[i as int] == factors@[i as int]@);
            assert(i * 0xffff_ffff + 0xffff_ffff <= 0xffff_ffff * 0xffff_ffff)
                by (nonlinear_arith)
                requires
                    i < 0xffff_ffff,
            ;
            total += factors[i].contribution as u64;
            i += 1;
        }
        let level = if confidence >= 900_000 {
            "Very High"
        } else if confidence >= 750_000 {
            "High"
        } else if confidence >= 500_000 {
            "Medium"
        } else {
            "Low"
        };
        level.to_string().concat(" confidence (").concat(
            per_cent_text(confidence).as_str(),
        ).concat("%) based on ").concat(decimal_text(factors.len() as u64).as_str()).concat(
            " contributing factors with combined weight of ",
        ).concat(hundredths_text(round_to(total, 10_000)).as_str())
    }
}

/// No reason weighs more than the one that a summary names.
pub proof fn law_primary_reason_is_heaviest(factors: Seq<EntryModel>, j: int)
    requires
        0 <= j < factors.len(),
    ensures
        exists|top: int|
            0 <= top < factors.len() && (#[trigger] factors[top]).factor == primary(factors)
                && factors[j].contribution <= factors[top].contribution,
{
    lemma_heaviest(factors, factors.len());
    let top = heaviest(factors, factors.len());
    assert(factors[top].factor == primary(factors));
}

proof fn lemma_heaviest(factors: Seq<EntryModel>, n: nat)
    requires
        1 <= n <= factors.len(),
    ensures
        0 <= heaviest(factors, n) < n,
        forall|j: int|
            0 <= j < n ==> (#[trigger] factors[j]).contribution <= factors[heaviest(
                factors,
                n,
            )].contribution,
    decreases n,
{
    if n > 1 {
        lemma_heaviest(factors, (n - 1) as nat);
    }
}

/// A detection that does not rest on behaviour or on entropy has one reason, which
/// its summary names.
pub proof fn law_one_reason_is_named(event: TelemetryEvent, d: DetectionModel)
    requires
        d.detection_type != DetectionType::Behavioral,
        d.detection_type != DetectionType::Entropy,
    ensures
        explanation(event, d).factors.len() == 1,
        primary(explanation(event, d).factors) == explanation(event, d).factors[0].factor,
        explanation(event, d).tp_indicators.len() > 0,
{
}

/// There is always something to look into and to watch for.
pub proof fn law_there_is_always_a_next_step(event: TelemetryEvent, d: DetectionModel)
    ensures
        explanation(event, d).investigation_steps.len() >= 2,
        explanation(event, d).mitre_context.typical_next_steps.len() >= 1,
{
}

/// Exactly two tactics are known, each under its identifier.
pub proof fn law_known_tactics(id: Seq<char>)
    ensures
        tactic(id) is Some <==> id == "TA0001"@ || id == "TA0002"@,
        tactic(id) matches Some(t) ==> t.id == id,
        tactic("TA0001"@) matches Some(t) && t.name == "Initial Access"@,
        tactic("TA0002"@) matches Some(t) && t.name == "Execution"@,
{
    reveal_strlit("TA0001");
    reveal_strlit("TA0002");
    assert("TA0001"@[5] != "TA0002"@[5]);
}

/// Exactly three techniques are known, each under its identifier and with two tips.
pub proof fn law_known_techniques(id: Seq<char>)
    ensures
        technique(id) is Some <==> id == "T1059"@ || id == "T1055"@ || id == "T1003"@,
        technique(id) matches Some(t) ==> t.id == id && t.detection_tips.len() == 2,
{
    reveal_with_fuel(known_technique, 4);
}

/// Whether a reason of a name is among some reasons, and with which weight.
pub open spec fn names_reason(v: Seq<EntryModel>, name: Seq<char>, weight: u32) -> bool {
    exists|k: int|
        0 <= k < v.len() && (#[trigger] v[k]).factor == name && v[k].contribution == weight
}

proof fn lemma_reason_both(a: Seq<EntryModel>, b: Seq<EntryModel>, name: Seq<char>, weight: u32)
    ensures
        names_reason(a + b, name, weight) <==> names_reason(a, name, weight) || names_reason(
            b,
            name,
            weight,
        ),
{
    let all = a + b;
    assert(forall|k: int| 0 <= k < a.len() ==> #[trigger] all[k] == a[k]);
    assert(forall|k: int| a.len() <= k < all.len() ==> #[trigger] all[k] == b[k - a.len()]);
    if names_reason(a, name, weight) {
        let k = choose|k: int|
            0 <= k < a.len() && (#[trigger] a[k]).factor == name && a[k].contribution == weight;
        assert(all[k].factor == name);
    }
    if names_reason(b, name, weight) {
        let k = choose|k: int|
            0 <= k < b.len() && (#[trigger] b[k]).factor == name && b[k].contribution == weight;
        assert(all[a.len() + k].factor == name);
    }
    if names_reason(all, name, weight) {
        let k = choose|k: int|
            0 <= k < all.len() && (#[trigger] all[k]).factor == name && all[k].contribution == weight;
        if k < a.len() {
            assert(a[k].factor == name);
        } else {
            assert(b[k - a.len()].factor == name);
        }
    }
}

proof fn lemma_reason_one(c: bool, entry: EntryModel, name: Seq<char>, weight: u32)
    ensures
        names_reason(one_if(c, entry), name, weight) <==> c && entry.factor == name
            && entry.contribution == weight,
{
    if c {
        assert(one_if(c, entry)[0] == entry);
    }
}

proof fn lemma_process_reason(p: ProcessEvent, name: Seq<char>, weight: u32)
    ensures
        names_reason(process_reasons(p).factors, name, weight) <==> {
            ||| p.parent_name matches Some(parent) && office_starts_shell(parent@, p.name@) && name
                == "Suspicious Parent-Child"@ && weight == 400_000
            ||| p.parent_name matches Some(parent) && unusual_child(parent@, p.name@) && name
                == "Baseline Deviation"@ && weight == 200_000
            ||| any_occurs(ENCODED_FLAGS@, lowercase(p.cmdline@)) && name == "Encoded Command"@
                && weight == 350_000
            ||| any_occurs(BYPASS_FLAGS@, lowercase(p.cmdline@)) && name
                == "Execution Policy Bypass"@ && weight == 250_000
            ||| any_occurs(TEMP_PATHS@, lowercase(p.path@)) && name == "Temp Execution"@ && weight
                == 150_000
            ||| !p.is_signed && name == "Unsigned Binary"@ && weight == 150_000
        },
{
    let first = if p.parent_name is Some {
        parent_factors(p.parent_name->0@, p.name@)
    } else {
        Seq::empty()
    };
    let second = cmdline_factors(p.cmdline@);
    let third = file_factors(p.path@, p.is_signed);
    lemma_reason_both(first, second, name, weight);
    lemma_reason_both(first + second, third, name, weight);
    if let Some(parent) = p.parent_name {
        let a = reason(
            "Suspicious Parent-Child"@,
            400_000,
            "Office application ("@ + parent@ + ") spawned a command shell ("@ + p.name@
                + ") - common malware delivery technique"@,
            seq!["Parent: "@ + parent@, "Child: "@ + p.name@],
            Some("Check for recent email attachments or downloaded documents"@),
        );
        let b = reason(
            "Baseline Deviation"@,
            200_000,
            parent@ + " doesn't typically spawn "@ + p.name@ + " based on learned behavior"@,
            seq![
                "Typical children: "@ + quoted_list(
                    str_texts(typical_children(lowercase(parent@))->0),
                ),
            ],
            Some("Verify if this is a new legitimate behavior"@),
        );
        let u = office_starts_shell(parent@, p.name@);
        let v = unusual_child(parent@, p.name@);
        assert(first == one_if(u, a) + one_if(v, b));
        lemma_reason_both(one_if(u, a), one_if(v, b), name, weight);
        lemma_reason_one(u, a, name, weight);
        lemma_reason_one(v, b, name, weight);
    }
    let c = reason(
        "Encoded Command"@,
        350_000,
        "PowerShell executed with encoded/obfuscated command - often used to hide malicious intent"@,
        seq![
            "Command contains -enc or -encodedcommand flag"@,
            "Full command: "@ + shown(p.cmdline@),
        ],
        Some("Decode the Base64 command to see actual payload"@),
    );
    let d = reason(
        "Execution Policy Bypass"@,
        250_000,
        "Command attempts to bypass security controls"@,
        seq!["Contains bypass/nop flags"@],
        None,
    );
    let e = any_occurs(ENCODED_FLAGS@, lowercase(p.cmdline@));
    let f = any_occurs(BYPASS_FLAGS@, lowercase(p.cmdline@));
    assert(second == one_if(e, c) + one_if(f, d));
    lemma_reason_both(one_if(e, c), one_if(f, d), name, weight);
    lemma_reason_one(e, c, name, weight);
    lemma_reason_one(f, d, name, weight);
    let g = reason(
        "Temp Execution"@,
        150_000,
        "Process running from temporary directory - common for malware"@,
        seq!["Path: "@ + p.path@],
        Some("Check how the file arrived in temp directory"@),
    );
    let h = reason(
        "Unsigned Binary"@,
        150_000,
        "Executable is not digitally signed"@,
        seq!["No valid digital signature"@],
        Some("Legitimate software is usually signed"@),
    );
    let t = any_occurs(TEMP_PATHS@, lowercase(p.path@));
    assert(third == one_if(t, g) + one_if(!p.is_signed, h));
    lemma_reason_both(one_if(t, g), one_if(!p.is_signed, h), name, weight);
    lemma_reason_one(t, g, name, weight);
    lemma_reason_one(!p.is_signed, h, name, weight);
}

/// A detection of the behaviour of a process names as reasons exactly what there is: a
/// shell that an office program started, a child that its parent usually does not start,
/// an encoded command, a bypass, a directory for temporary files, and a file that is not
/// signed, each with its weight.
pub proof fn law_reasons_for_a_process(event: TelemetryEvent, d: DetectionModel, p: ProcessEvent)
    requires
        d.detection_type == DetectionType::Behavioral,
        event.payload == EventPayload::Process(p),
    ensures
        ({
            let named = explanation(event, d).factors;
            let cmdline = lowercase(p.cmdline@);
            &&& names_reason(named, "Suspicious Parent-Child"@, 400_000) <==> (
            p.parent_name matches Some(parent) && any_occurs(
                seq!["word", "excel", "outlook"],
                lowercase(parent@),
            ) && any_occurs(seq!["cmd", "powershell"], lowercase(p.name@)))
            &&& names_reason(named, "Baseline Deviation"@, 200_000) <==> (
            p.parent_name matches Some(parent) && typical_children(
                lowercase(parent@),
            ) matches Some(usual) && !any_occurs(usual, lowercase(p.name@)))
            &&& names_reason(named, "Encoded Command"@, 350_000) <==> occurs("-enc"@, cmdline)
                || occurs("-encodedcommand"@, cmdline)
            &&& names_reason(named, "Execution Policy Bypass"@, 250_000) <==> occurs(
                "bypass"@,
                cmdline,
            ) || occurs("-nop"@, cmdline)
            &&& names_reason(named, "Temp Execution"@, 150_000) <==> occurs(
                "\\temp\\"@,
                lowercase(p.path@),
            ) || occurs("\\appdata\\local\\temp"@, lowercase(p.path@))
            &&& names_reason(named, "Unsigned Binary"@, 150_000) <==> !p.is_signed
        }),
{
    reveal_strlit("Suspicious Parent-Child");
    reveal_strlit("Baseline Deviation");
    reveal_strlit("Encoded Command");
    reveal_strlit("Execution Policy Bypass");
    reveal_strlit("Temp Execution");
    reveal_strlit("Unsigned Binary");
    assert("Temp Execution"@[0] == 'T' && "Unsigned Binary"@[0] == 'U');
    lemma_process_reason(p, "Suspicious Parent-Child"@, 400_000);
    lemma_process_reason(p, "Baseline Deviation"@, 200_000);
    lemma_process_reason(p, "Encoded Command"@, 350_000);
    lemma_process_reason(p, "Execution Policy Bypass"@, 250_000);
    lemma_process_reason(p, "Temp Execution"@, 150_000);
    lemma_process_reason(p, "Unsigned Binary"@, 150_000);
    assert(OFFICE@ =~= seq!["word", "excel", "outlook"]);
    assert(SHELLS@ =~= seq!["cmd", "powershell"]);
    let cmdline = lowercase(p.cmdline@);
    assert(ENCODED_FLAGS@[0]@ == "-enc"@ && ENCODED_FLAGS@[1]@ == "-encodedcommand"@);
    assert(BYPASS_FLAGS@[0]@ == "bypass"@ && BYPASS_FLAGS@[1]@ == "-nop"@);
    assert(TEMP_PATHS@[0]@ == "\\temp\\"@ && TEMP_PATHS@[1]@ == "\\appdata\\local\\temp"@);
    assert(any_occurs(ENCODED_FLAGS@, cmdline) <==> occurs("-enc"@, cmdline) || occurs(
        "-encodedcommand"@,
        cmdline,
    ));
    assert(any_occurs(BYPASS_FLAGS@, cmdline) <==> occurs("bypass"@, cmdline) || occurs(
        "-nop"@,
        cmdline,
    ));
    let path = lowercase(p.path@);
    assert(any_occurs(TEMP_PATHS@, path) <==> occurs("\\temp\\"@, path) || occurs(
        "\\appdata\\local\\temp"@,
        path,
    ));
}

/// How high a confidence is called: very high from nine tenths on, high from three
/// quarters, medium from a half, and low below that.
pub proof fn law_confidence_in_words(confidence: u32)
    ensures
        confidence >= 900_000 ==> confidence_level(confidence) == "Very High"@,
        750_000 <= confidence < 900_000 ==> confidence_level(confidence) == "High"@,
        500_000 <= confidence < 750_000 ==> confidence_level(confidence) == "Medium"@,
        confidence < 500_000 ==> confidence_level(confidence) == "Low"@,
{
}

/// What speaks against a detection of behaviour: a standard place of the system, where it
/// is not one for temporary files, and the signature of a trusted vendor. For one of
/// entropy: an archive.
pub proof fn law_what_speaks_against(p: ProcessEvent, f: FileEvent)
    ensures
        process_reasons(p).fp.contains("Running from standard system location"@) || !(!any_occurs(
            seq!["\\temp\\", "\\appdata\\local\\temp"],
            lowercase(p.path@),
        ) && any_occurs(seq!["\\system32\\", "\\program files"], lowercase(p.path@))),
        p.is_signed && (p.signer matches Some(s) && any_occurs(
            seq!["Microsoft", "Google", "Apple"],
            s@,
        )) ==> process_reasons(p).fp.contains("Signed by trusted vendor: "@ + p.signer->0@),
        entropy_reasons(f).fp.len() > 0 <==> any_ends(f.path@, seq![".zip", ".7z", ".gz"]),
        entropy_reasons(f).tp.len() > 0 <==> f.entropy > 7_900_000,
{
    assert(TEMP_PATHS@ =~= seq!["\\temp\\", "\\appdata\\local\\temp"]);
    assert(SYSTEM_PATHS@ =~= seq!["\\system32\\", "\\program files"]);
    assert(TRUSTED_VENDORS@ =~= seq!["Microsoft", "Google", "Apple"]);
    assert(ARCHIVES@ =~= seq![".zip", ".7z", ".gz"]);
    let fp = process_reasons(p).fp;
    if !any_occurs(TEMP_PATHS@, lowercase(p.path@)) && any_occurs(
        SYSTEM_PATHS@,
        lowercase(p.path@),
    ) {
        assert(fp[0] == "Running from standard system location"@);
    }
    if p.is_signed && (p.signer matches Some(s) && any_occurs(TRUSTED_VENDORS@, s@)) {
        assert(fp[fp.len() - 1] == "Signed by trusted vendor: "@ + p.signer->0@);
    }
}

proof fn lemma_known_tactics(ids: Seq<Seq<char>>, n: nat, t: TacticModel)
    requires
        n <= ids.len(),
    ensures
        known_tactics(ids, n).contains(t) <==> exists|i: int|
            0 <= i < n && tactic(#[trigger] ids[i]) == Some(t),
    decreases n,
{
    if n > 0 {
        lemma_known_tactics(ids, (n - 1) as nat, t);
        let before = known_tactics(ids, (n - 1) as nat);
        let after = known_tactics(ids, n);
        if before.contains(t) {
            let k = choose|k: int| 0 <= k < before.len() && before[k] == t;
            assert(after[k] == t);
        }
        if after.contains(t) {
            let k = choose|k: int| 0 <= k < after.len() && after[k] == t;
            if k < before.len() {
                assert(before[k] == t);
            } else {
                assert(tactic(ids[n - 1]) == Some(t));
            }
        }
        if exists|i: int| 0 <= i < n && tactic(#[trigger] ids[i]) == Some(t) {
            let i = choose|i: int| 0 <= i < n && tactic(#[trigger] ids[i]) == Some(t);
            if i == n - 1 {
                assert(after.last() == t);
            }
        }
    }
}

proof fn lemma_known_techniques(ids: Seq<Seq<char>>, n: nat, t: TechniqueModel)
    requires
        n <= ids.len(),
    ensures
        known_techniques(ids, n).contains(t) <==> exists|i: int|
            0 <= i < n && technique(#[trigger] ids[i]) == Some(t),
    decreases n,
{
    if n > 0 {
        lemma_known_techniques(ids, (n - 1) as nat, t);
        let before = known_techniques(ids, (n - 1) as nat);
        let after = known_techniques(ids, n);
        if before.contains(t) {
            let k = choose|k: int| 0 <= k < before.len() && before[k] == t;
            assert(after[k] == t);
        }
        if after.contains(t) {
            let k = choose|k: int| 0 <= k < after.len() && after[k] == t;
            if k < before.len() {
                assert(before[k] == t);
            } else {
                assert(technique(ids[n - 1]) == Some(t));
            }
        }
        if exists|i: int| 0 <= i < n && technique(#[trigger] ids[i]) == Some(t) {
            let i = choose|i: int| 0 <= i < n && technique(#[trigger] ids[i]) == Some(t);
            if i == n - 1 {
                assert(after.last() == t);
            }
        }
    }
}

proof fn lemma_tips(ids: Seq<Seq<char>>, n: nat, i: int)
    requires
        n <= ids.len(),
        0 <= i < n,
        technique(ids[i]) is Some,
    ensures
        tips(ids, n).contains(tip(ids[i], technique(ids[i])->0.detection_tips[0])),
        tips(ids, n).contains(tip(ids[i], technique(ids[i])->0.detection_tips[1])),
    decreases n,
{
    let before = tips(ids, (n - 1) as nat);
    let after = tips(ids, n);
    if i < n - 1 {
        lemma_tips(ids, (n - 1) as nat, i);
        let a = tip(ids[i], technique(ids[i])->0.detection_tips[0]);
        let b = tip(ids[i], technique(ids[i])->0.detection_tips[1]);
        let j = choose|j: int| 0 <= j < before.len() && before[j] == a;
        let k = choose|k: int| 0 <= k < before.len() && before[k] == b;
        assert(after[j] == a);
        assert(after[k] == b);
    } else {
        assert(after[before.len() as int] == tip(ids[i], technique(ids[i])->0.detection_tips[0]));
        assert(after[(before.len() + 1) as int] == tip(ids[i], technique(ids[i])->0.detection_tips[1]));
    }
}

/// The tactics and the techniques of a detection that are known are told, and no others,
/// and the tips of the techniques are among what is to be looked into.
pub proof fn law_known_tactics_and_techniques_are_told(
    event: TelemetryEvent,
    d: DetectionModel,
    t: TacticModel,
    u: TechniqueModel,
    i: int,
)
    ensures
        ({
            let context = explanation(event, d).mitre_context;
            let steps = explanation(event, d).investigation_steps;
            &&& context.tactics.contains(t) <==> exists|k: int|
                0 <= k < d.mitre_tactics.len() && tactic(#[trigger] d.mitre_tactics[k]) == Some(t)
            &&& context.techniques.contains(u) <==> exists|k: int|
                0 <= k < d.mitre_techniques.len() && technique(#[trigger] d.mitre_techniques[k])
                    == Some(u)
            &&& 0 <= i < d.mitre_techniques.len() && technique(d.mitre_techniques[i]) == Some(u)
                ==> steps.contains(tip(d.mitre_techniques[i], u.detection_tips[0]))
                && steps.contains(tip(d.mitre_techniques[i], u.detection_tips[1]))
        }),
{
    lemma_known_tactics(d.mitre_tactics, d.mitre_tactics.len(), t);
    lemma_known_techniques(d.mitre_techniques, d.mitre_techniques.len(), u);
    if 0 <= i < d.mitre_techniques.len() && technique(d.mitre_techniques[i]) == Some(u) {
        let ids = d.mitre_techniques;
        lemma_tips(ids, ids.len(), i);
        let all = tips(ids, ids.len());
        let front = event_steps(event.payload);
        let steps = investigation_steps(event.payload, ids);
        let a = tip(ids[i], u.detection_tips[0]);
        let b = tip(ids[i], u.detection_tips[1]);
        let j = choose|j: int| 0 <= j < all.len() && all[j] == a;
        let k = choose|k: int| 0 <= k < all.len() && all[k] == b;
        assert(steps[front.len() + j] == a);
        assert(steps[front.len() + k] == b);
    }
}

/// The stage of an attack is told by the words in its tactics, whatever the case of
/// letters; among several words the earlier stage counts.
pub proof fn law_words_tell_the_stage(name: Seq<char>)
    ensures
        ({
            let l = lowercase(name);
            let first = occurs("initial"@, l);
            let second = occurs("execution"@, l) || occurs("persistence"@, l);
            let third = occurs("privilege"@, l) || occurs("credential"@, l);
            let fourth = occurs("lateral"@, l) || occurs("discovery"@, l);
            let fifth = occurs("collection"@, l) || occurs("exfiltration"@, l);
            let last = occurs("impact"@, l);
            &&& first ==> stage(name) == Some("Early Stage - Initial Access"@)
            &&& !first && second ==> stage(name) == Some("Establishment Phase"@)
            &&& !first && !second && third ==> stage(name) == Some("Escalation Phase"@)
            &&& !first && !second && !third && fourth ==> stage(name) == Some("Expansion Phase"@)
            &&& !first && !second && !third && !fourth && fifth ==> stage(name) == Some(
                "Objective Phase - Data Theft"@,
            )
            &&& !first && !second && !third && !fourth && !fifth && last ==> stage(name) == Some(
                "Final Phase - Impact"@,
            )
            &&& !first && !second && !third && !fourth && !fifth && !last ==> stage(name) is None
        }),
{
    reveal_with_fuel(stage_from, 7);
    assert(STAGES@.len() == 6);
}

/// The stage of an attack is that of the first of its tactics that tells one, and unknown
/// where none does.
pub proof fn law_the_first_tactic_tells_the_stage(tactics: Seq<Seq<char>>, from: nat, i: int)
    requires
        from <= tactics.len(),
        from <= i <= tactics.len(),
        forall|k: int| from <= k < i ==> stage(#[trigger] tactics[k]) is None,
    ensures
        i == tactics.len() ==> attack_stage(tactics, from) == "Unknown Stage"@,
        i < tactics.len() ==> (stage(tactics[i]) matches Some(s) ==> attack_stage(tactics, from)
            == s),
    decreases i - from,
{
    if from < i {
        assert(stage(tactics[from as int]) is None);
        law_the_first_tactic_tells_the_stage(tactics, from + 1, i);
    }
}

proof fn lemma_predictions(ids: Seq<Seq<char>>, n: nat, i: int, k: int)
    requires
        n <= ids.len(),
        0 <= i < n,
        0 <= k < predictions_of(ids[i]).len(),
    ensures
        all_predictions(ids, n).contains(predictions_of(ids[i])[k]),
    decreases n,
{
    let before = all_predictions(ids, (n - 1) as nat);
    let after = all_predictions(ids, n);
    if i < n - 1 {
        lemma_predictions(ids, (n - 1) as nat, i, k);
        let j = choose|j: int| 0 <= j < before.len() && before[j] == predictions_of(ids[i])[k];
        assert(after[j] == before[j]);
    } else {
        assert(after[before.len() + k] == predictions_of(ids[i])[k]);
    }
}

/// What usually follows a technique is told of every detection of it: persistence and the
/// dumping of credentials of a script, connections and more privileges of an injection,
/// and movement with what was stolen of such a dump.
pub proof fn law_what_usually_follows_is_told(event: TelemetryEvent, d: DetectionModel, i: int)
    requires
        0 <= i < d.mitre_techniques.len(),
    ensures
        ({
            let told = explanation(event, d).mitre_context.typical_next_steps;
            let id = d.mitre_techniques[i];
            &&& id == "T1059"@ || id == "T1059.001"@ ==> told.contains(
                "Watch for: Persistence mechanisms (scheduled tasks, registry run keys)"@,
            ) && told.contains("Watch for: Credential dumping attempts"@)
            &&& id == "T1055"@ ==> told.contains(
                "Watch for: Network connections from injected processes"@,
            ) && told.contains("Watch for: Privilege escalation attempts"@)
            &&& id == "T1003"@ ==> told.contains(
                "Watch for: Lateral movement using stolen credentials"@,
            ) && told.contains("Watch for: Access to sensitive file shares"@)
        }),
{
    reveal_strlit("T1059");
    reveal_strlit("T1059.001");
    reveal_strlit("T1055");
    reveal_strlit("T1003");
    let ids = d.mitre_techniques;
    let id = ids[i];
    assert("T1055"@[4] != "T1059"@[4]);
    assert("T1003"@[4] != "T1059"@[4]);
    assert("T1003"@[4] != "T1055"@[4]);
    assert("T1059.001"@.len() == 9);
    if predictions_of(id).len() > 0 {
        lemma_predictions(ids, ids.len(), i, 0);
        lemma_predictions(ids, ids.len(), i, 1);
    }
}

/// Reasons weigh together what each of them weighs.
pub proof fn law_weights_add_up(factors: Seq<EntryModel>, e: EntryModel)
    ensures
        weight(factors.push(e), factors.len() + 1) == weight(factors, factors.len())
            + e.contribution,
        weight(factors, 0) == 0,
{
    lemma_weight_of_front(factors, e, factors.len());
}

proof fn lemma_weight_of_front(factors: Seq<EntryModel>, e: EntryModel, n: nat)
    requires
        n <= factors.len(),
    ensures
        weight(factors.push(e), n) == weight(factors, n),
    decreases n,
{
    if n > 0 {
        lemma_weight_of_front(factors, e, (n - 1) as nat);
    }
}

proof fn lemma_boundary(text: Seq<char>, n: nat, k: nat)
    requires
        k <= text.len(),
    ensures
        boundary(text, n, k) matches Some(b) ==> k <= b <= text.len() && bytes_of(
            text.take(b as int),
        ) == n,
    decreases text.len() - k,
{
    if bytes_of(text.take(k as int)) != n && k < text.len() {
        lemma_boundary(text, n, k + 1);
    }
}

/// A command line of at most a hundred bytes is shown whole, a longer one by its first
/// hundred bytes.
pub proof fn law_command_lines_are_shown_in_part(cmdline: Seq<char>)
    requires
        showable(cmdline),
    ensures
        bytes_of(cmdline) <= 100 ==> shown(cmdline) == cmdline,
        bytes_of(cmdline) > 100 ==> bytes_of(shown(cmdline)) == 100 && shown(cmdline).len()
            <= cmdline.len() && shown(cmdline) == cmdline.take(shown(cmdline).len() as int),
{
    lemma_boundary(cmdline, 100, 0);
}

/// What rules say weighs by their kind, and is told with the name of the rule; what
/// indicators say weighs as much as it is sure.
pub proof fn law_what_rules_weigh(event: TelemetryEvent, d: DetectionModel)
    ensures
        ({
            let factors = explanation(event, d).factors;
            &&& d.detection_type == DetectionType::Yara ==> factors.len() == 1
                && factors[0].contribution == 800_000 && factors[0].description
                == "Matched YARA rule: "@ + d.rule_name && factors[0].evidence
                == seq![d.description]
            &&& d.detection_type == DetectionType::Sigma ==> factors.len() == 1
                && factors[0].contribution == 700_000 && factors[0].description
                == "Matched Sigma rule: "@ + d.rule_name && factors[0].evidence
                == seq![d.description]
            &&& d.detection_type == DetectionType::Ioc || d.detection_type
                == DetectionType::ThreatIntel ==> factors.len() == 1 && factors[0].contribution
                == d.confidence && factors[0].evidence == seq![d.description]
            &&& explanation(event, d).confidence_explanation == confidence_explanation(
                d.confidence,
                factors,
            )
        }),
{
}

} // verus!
