//! What the analyzer finds in the start of a process, and when.
use vstd::prelude::*;

use crate::baseline::{hour_of_day, SystemModel};
use crate::behavioral::{
    ARCHIVERS, ARCHIVE_ENDINGS, AnalyzerModel, BROWSERS, BROWSER_CHILDREN, BehavioralConfig,
    COMMAND_SHELLS, CONTEXTUAL_SIGNALS, CREDENTIAL_PROBES, DOWNLOAD_WORDS, ENTERPRISE_RULES,
    EXFILTRATION_WORDS, EncryptionModel, FindingModel, INTERACTIVE_PROGRAMS, LATER_PATTERNS,
    LSASS_PROBES, NETWORK_PROBES, NO_NAMES, OFFICE_PROGRAMS, PATTERN_TEXTS, PERSISTENCE_KEYS,
    PLANTED_LIBRARIES, PROCESS_LISTERS, PROTECTION_PROBES, REMOTE_TOOLS, SCRIPT_HOSTS,
    SECURITY_KEYS, SERVICE_CREATION, SERVICE_HOSTS, SERVICE_MANAGERS, SHARE_PROBES, SHELLS,
    STAGED_WORDS, STRONG_SIGNALS, SUSPICIOUS_TLDS, TASK_CREATION, TEMP_DIRECTORIES,
    TRANSFER_TOOLS, UAC_PROBES, WEB_TOOLS, WMI_HOSTS, actionable, after_operation, analysis,
    at_most_one, begins_with_known, bypass_check, child_check, consonant, consonants,
    count_score, destination_check, directory_check, dns_findings, encoded_check,
    encryption_check, enterprise_check, enterprise_rule_applies, event_findings, file_findings,
    file_rate_check, hour_check, judged, learning, letters, looks_generated, masquerade_check,
    network_findings, network_rate_check, noted, parent_findings, pattern, pattern_check,
    pattern_confidence, patterns_check, process_findings, program_check, rare_check,
    registry_findings, reported, score_confidence, score_report, scored, seen, subject,
    temp_check, untimed_score, updates_baselines, well_known, with_risks,
};
use crate::risk::{FactorModel, RiskModel};
use crate::statistics::low_activity;
use crate::telemetry::{
    DetectionModel, DetectionType, DnsEvent, EventPayload, FileEvent, NetworkEvent, ProcessEvent,
    RegistryEvent,
};
use crate::text::{
    any_ends, any_occurs, begins, decimal, ends, hundredths, is_one_of, lowercase, occurs, occurs_twice,
    rounded,
};

verus! {

/// Whether something with a factor is among some findings.
pub open spec fn finds(v: Seq<FindingModel>, factor: Seq<char>) -> bool {
    exists|k: int| 0 <= k < v.len() && (#[trigger] v[k]).factor == factor
}

/// Whether each finding with a factor has these points, for a sensitivity, and its
/// detection has this name, tactic and technique.
pub open spec fn tells(
    v: Seq<FindingModel>,
    factor: Seq<char>,
    points: int,
    sensitivity: u32,
    rule_name: Seq<char>,
    tactic: Seq<char>,
    technique: Seq<char>,
) -> bool {
    forall|k: int|
        0 <= k < v.len() && (#[trigger] v[k]).factor == factor ==> {
            &&& v[k].score == points * sensitivity
            &&& v[k].detection.detection_type == DetectionType::Behavioral
            &&& v[k].detection.rule_name == "behavioral_"@ + rule_name
            &&& v[k].detection.mitre_tactics == seq![tactic]
            &&& v[k].detection.mitre_techniques == seq![technique]
        }
}

/// Whether each finding with a factor is so sure.
pub open spec fn sure(v: Seq<FindingModel>, factor: Seq<char>, confidence: u32) -> bool {
    forall|k: int|
        0 <= k < v.len() && (#[trigger] v[k]).factor == factor ==> v[k].detection.confidence
            == confidence
}

#[verifier::opaque]
spec fn only(v: Seq<FindingModel>, factor: Seq<char>, there: bool, x: FindingModel) -> bool {
    &&& finds(v, factor) <==> there
    &&& forall|k: int| 0 <= k < v.len() && (#[trigger] v[k]).factor == factor ==> v[k] == x
}

proof fn lemma_only_both(
    a: Seq<FindingModel>,
    b: Seq<FindingModel>,
    factor: Seq<char>,
    in_a: bool,
    in_b: bool,
    x: FindingModel,
)
    requires
        only(a, factor, in_a, x),
        only(b, factor, in_b, x),
    ensures
        only(a + b, factor, in_a || in_b, x),
{
    reveal(only);
    let all = a + b;
    assert(forall|k: int| 0 <= k < a.len() ==> #[trigger] all[k] == a[k]);
    assert(forall|k: int| a.len() <= k < all.len() ==> #[trigger] all[k] == b[k - a.len()]);
    if finds(a, factor) {
        let k = choose|k: int| 0 <= k < a.len() && (#[trigger] a[k]).factor == factor;
        assert(all[k].factor == factor);
    }
    if finds(b, factor) {
        let k = choose|k: int| 0 <= k < b.len() && (#[trigger] b[k]).factor == factor;
        assert(all[a.len() + k].factor == factor);
    }
    if finds(all, factor) {
        let k = choose|k: int| 0 <= k < all.len() && (#[trigger] all[k]).factor == factor;
        if k < a.len() {
            assert(a[k].factor == factor);
        } else {
            assert(b[k - a.len()].factor == factor);
        }
    }
}

proof fn lemma_only_one(f: Option<FindingModel>, factor: Seq<char>, x: FindingModel)
    requires
        f is Some && f->0.factor == factor ==> f->0 == x,
    ensures
        only(at_most_one(f), factor, f is Some && f->0.factor == factor, x),
{
    reveal(only);
    if f is Some {
        assert(at_most_one(f)[0] == f->0);
    }
}

proof fn lemma_only_patterns(
    n: nat,
    path: Seq<char>,
    parent: Seq<char>,
    child: Seq<char>,
    sensitivity: u32,
    factor: Seq<char>,
    j: int,
    x: FindingModel,
)
    requires
        forall|i: int| 0 <= i < n ==> ((#[trigger] pattern(i)).name == factor <==> i == j),
        0 <= j < n && pattern_check(pattern(j), path, parent, child, sensitivity) is Some ==> x
            == pattern_check(pattern(j), path, parent, child, sensitivity)->0,
    ensures
        only(
            patterns_check(n, path, parent, child, sensitivity),
            factor,
            0 <= j < n && pattern_check(pattern(j), path, parent, child, sensitivity) is Some,
            x,
        ),
    decreases n,
{
    if n == 0 {
        reveal(only);
    } else {
        lemma_only_patterns(
            (n - 1) as nat,
            path,
            parent,
            child,
            sensitivity,
            factor,
            j,
            x,
        );
        let f = pattern_check(pattern(n - 1), path, parent, child, sensitivity);
        assert(pattern(n - 1).name == factor <==> n - 1 == j);
        lemma_only_one(f, factor, x);
        lemma_only_both(
            patterns_check((n - 1) as nat, path, parent, child, sensitivity),
            at_most_one(f),
            factor,
            0 <= j < n - 1 && pattern_check(pattern(j), path, parent, child, sensitivity) is Some,
            f is Some && f->0.factor == factor,
            x,
        );
    }
}

spec fn rule_finding(i: int, sensitivity: u32) -> FindingModel {
    let rule = ENTERPRISE_RULES@[i];
    scored(rule.0@, rule.1, sensitivity, rule.2@, rule.3@, rule.4@)
}

proof fn lemma_only_rules(
    n: nat,
    name: Seq<char>,
    path: Seq<char>,
    cmdline: Seq<char>,
    sensitivity: u32,
    factor: Seq<char>,
    j: int,
    x: FindingModel,
)
    requires
        forall|i: int|
            0 <= i < n ==> ((#[trigger] rule_finding(i, sensitivity)).factor == factor <==> i == j),
        0 <= j < n ==> x == rule_finding(j, sensitivity),
    ensures
        only(
            enterprise_check(n, name, path, cmdline, sensitivity),
            factor,
            0 <= j < n && enterprise_rule_applies(j, name, path, cmdline),
            x,
        ),
    decreases n,
{
    if n == 0 {
        reveal(only);
    } else {
        lemma_only_rules((n - 1) as nat, name, path, cmdline, sensitivity, factor, j, x);
        let f = if enterprise_rule_applies(n - 1, name, path, cmdline) {
            Some(rule_finding(n - 1, sensitivity))
        } else {
            None
        };
        assert(rule_finding(n - 1, sensitivity).factor == factor <==> n - 1 == j);
        lemma_only_one(f, factor, x);
        lemma_only_both(
            enterprise_check((n - 1) as nat, name, path, cmdline, sensitivity),
            at_most_one(f),
            factor,
            0 <= j < n - 1 && enterprise_rule_applies(j, name, path, cmdline),
            f is Some && f->0.factor == factor,
            x,
        );
    }
}

spec fn mark(name: Seq<char>) -> int {
    name.len() * 128 + name[5] as int
}

spec fn pattern_mark(i: int) -> int {
    if i == 0 {
        2405
    } else if i == 1 {
        2789
    } else if i == 2 {
        2931
    } else if i == 3 {
        1631
    } else if i == 4 {
        2164
    } else if i == 5 {
        2659
    } else if i == 6 {
        1910
    } else if i == 7 {
        2156
    } else {
        2162
    }
}

spec fn rule_mark(i: int) -> int {
    if i == 0 {
        3807
    } else if i == 1 {
        3822
    } else if i == 2 {
        3557
    } else if i == 3 {
        3809
    } else if i == 4 {
        4725
    } else if i == 5 {
        2915
    } else if i == 6 {
        5228
    } else if i == 7 {
        2679
    } else if i == 8 {
        2657
    } else if i == 9 {
        2038
    } else if i == 10 {
        2676
    } else if i == 11 {
        2281
    } else if i == 12 {
        3186
    } else if i == 13 {
        3180
    } else if i == 14 {
        2783
    } else if i == 15 {
        3572
    } else {
        3698
    }
}

proof fn lemma_pattern_marks()
    ensures
        forall|i: int| 0 <= i < 9 ==> mark((#[trigger] pattern(i)).name) == pattern_mark(i),
{
    reveal_strlit("office_shell_spawn");
    reveal_strlit("browser_process_spawn");
    reveal_strlit("svchost_unusual_parent");
    reveal_strlit("lsass_access");
    reveal_strlit("script_from_temp");
    reveal_strlit("services_interactive");
    reveal_strlit("wmiprvse_spawn");
    reveal_strlit("rundll32_network");
    reveal_strlit("regsvr32_network");
    assert forall|i: int| 0 <= i < 9 implies mark((#[trigger] pattern(i)).name) == pattern_mark(
        i,
    ) by {
        let t = PATTERN_TEXTS@;
        assert(t[0].0@ == "office_shell_spawn"@);
        assert(t[1].0@ == "browser_process_spawn"@);
        assert(t[2].0@ == "svchost_unusual_parent"@);
        assert(t[3].0@ == "lsass_access"@);
        assert(t[4].0@ == "script_from_temp"@);
        assert(t[5].0@ == "services_interactive"@);
        assert(t[6].0@ == "wmiprvse_spawn"@);
        assert(t[7].0@ == "rundll32_network"@);
        assert(t[8].0@ == "regsvr32_network"@);
    }
}

proof fn lemma_rule_marks(sensitivity: u32)
    ensures
        forall|i: int|
            0 <= i < 17 ==> mark((#[trigger] rule_finding(i, sensitivity)).factor) == rule_mark(i),
{
    reveal_strlit("lsass_credential_access_probe");
    reveal_strlit("credential_material_discovery");
    reveal_strlit("remote_management_wmi_winrm");
    reveal_strlit("lateral_smb_admin_share_probe");
    reveal_strlit("scheduled_task_privilege_persistence");
    reveal_strlit("service_creation_abuse");
    reveal_strlit("privilege_escalation_configuration_probe");
    reveal_strlit("c2_download_transfer");
    reveal_strlit("c2_beacon_safe_probe");
    reveal_strlit("archive_staging");
    reveal_strlit("exfiltration_staging");
    reveal_strlit("dll_hijack_canary");
    reveal_strlit("regsvr32_proxy_execution");
    reveal_strlit("rundll32_proxy_execution");
    reveal_strlit("mshta_proxy_execution");
    reveal_strlit("certutil_decode_or_transfer");
    reveal_strlit("tamper_defense_evasion_probe");
    assert forall|i: int| 0 <= i < 17 implies mark(
        (#[trigger] rule_finding(i, sensitivity)).factor,
    ) == rule_mark(i) by {
        let t = ENTERPRISE_RULES@;
        assert(t[0].0@ == "lsass_credential_access_probe"@);
        assert(t[1].0@ == "credential_material_discovery"@);
        assert(t[2].0@ == "remote_management_wmi_winrm"@);
        assert(t[3].0@ == "lateral_smb_admin_share_probe"@);
        assert(t[4].0@ == "scheduled_task_privilege_persistence"@);
        assert(t[5].0@ == "service_creation_abuse"@);
        assert(t[6].0@ == "privilege_escalation_configuration_probe"@);
        assert(t[7].0@ == "c2_download_transfer"@);
        assert(t[8].0@ == "c2_beacon_safe_probe"@);
        assert(t[9].0@ == "archive_staging"@);
        assert(t[10].0@ == "exfiltration_staging"@);
        assert(t[11].0@ == "dll_hijack_canary"@);
        assert(t[12].0@ == "regsvr32_proxy_execution"@);
        assert(t[13].0@ == "rundll32_proxy_execution"@);
        assert(t[14].0@ == "mshta_proxy_execution"@);
        assert(t[15].0@ == "certutil_decode_or_transfer"@);
        assert(t[16].0@ == "tamper_defense_evasion_probe"@);
    }
}

proof fn lemma_other_marks()
    ensures
        mark("lsass_masquerade"@) == 2143,
        mark("baseline_deviation_child"@) == 3177,
        mark("temp_execution"@) == 1893,
        mark("encoded_command"@) == 2021,
        mark("policy_bypass"@) == 1785,
        mark("unusual_time"@) == 1633,
{
    reveal_strlit("lsass_masquerade");
    reveal_strlit("baseline_deviation_child");
    reveal_strlit("temp_execution");
    reveal_strlit("encoded_command");
    reveal_strlit("policy_bypass");
    reveal_strlit("unusual_time");
}

spec fn there(
    config: BehavioralConfig,
    b: SystemModel,
    proc: ProcessEvent,
    timestamp: u64,
    factor: Seq<char>,
    p: int,
    r: int,
) -> bool {
    let s = config.sensitivity;
    let name = lowercase(proc.name@);
    let path = lowercase(proc.path@);
    let cmdline = lowercase(proc.cmdline@);
    ||| there_by_parent(config, b, proc, factor, p)
    ||| factor == "temp_execution"@ && temp_check(path, s) is Some
    ||| factor == "encoded_command"@ && encoded_check(cmdline, s) is Some
    ||| factor == "policy_bypass"@ && bypass_check(cmdline, s) is Some
    ||| 0 <= r < 17 && enterprise_rule_applies(r, name, path, cmdline)
    ||| factor == "unusual_time"@ && hour_check(
        b,
        proc.name@,
        config.time_analysis_enabled,
        timestamp,
        s,
    ) is Some
}

spec fn fits(
    config: BehavioralConfig,
    b: SystemModel,
    proc: ProcessEvent,
    timestamp: u64,
    factor: Seq<char>,
    p: int,
    r: int,
    x: FindingModel,
) -> bool {
    let s = config.sensitivity;
    let name = lowercase(proc.name@);
    let path = lowercase(proc.path@);
    let cmdline = lowercase(proc.cmdline@);
    &&& proc.parent_name matches Some(parent) ==> {
        &&& 0 <= p < 9 && pattern_check(pattern(p), path, lowercase(parent@), name, s) is Some ==> x
            == pattern_check(pattern(p), path, lowercase(parent@), name, s)->0
        &&& factor == "lsass_masquerade"@ && masquerade_check(proc, parent@, s) is Some ==> x
            == masquerade_check(proc, parent@, s)->0
        &&& factor == "baseline_deviation_child"@ && child_check(b, proc, parent@, s) is Some ==> x
            == child_check(b, proc, parent@, s)->0
    }
    &&& factor == "temp_execution"@ && temp_check(path, s) is Some ==> x == temp_check(path, s)->0
    &&& factor == "encoded_command"@ && encoded_check(cmdline, s) is Some ==> x == encoded_check(
        cmdline,
        s,
    )->0
    &&& factor == "policy_bypass"@ && bypass_check(cmdline, s) is Some ==> x == bypass_check(
        cmdline,
        s,
    )->0
    &&& 0 <= r < 17 ==> x == rule_finding(r, s)
    &&& factor == "unusual_time"@ && hour_check(
        b,
        proc.name@,
        config.time_analysis_enabled,
        timestamp,
        s,
    ) is Some ==> x == hour_check(b, proc.name@, config.time_analysis_enabled, timestamp, s)->0
}

spec fn there_by_parent(
    config: BehavioralConfig,
    b: SystemModel,
    proc: ProcessEvent,
    factor: Seq<char>,
    p: int,
) -> bool {
    let s = config.sensitivity;
    proc.parent_name matches Some(parent) && ((0 <= p < 9 && pattern_check(
        pattern(p),
        lowercase(proc.path@),
        lowercase(parent@),
        lowercase(proc.name@),
        s,
    ) is Some) || (factor == "lsass_masquerade"@ && masquerade_check(proc, parent@, s) is Some) || (
    factor == "baseline_deviation_child"@ && child_check(b, proc, parent@, s) is Some))
}

proof fn lemma_parent_only(
    config: BehavioralConfig,
    b: SystemModel,
    proc: ProcessEvent,
    timestamp: u64,
    factor: Seq<char>,
    p: int,
    r: int,
    x: FindingModel,
)
    requires
        forall|i: int| 0 <= i < 9 ==> ((#[trigger] pattern(i)).name == factor <==> i == p),
        fits(config, b, proc, timestamp, factor, p, r, x),
    ensures
        only(
            match proc.parent_name {
                Some(parent) => parent_findings(b, proc, parent@, config.sensitivity),
                None => Seq::empty(),
            },
            factor,
            there_by_parent(config, b, proc, factor, p),
            x,
        ),
{
    let s = config.sensitivity;
    let name = lowercase(proc.name@);
    let path = lowercase(proc.path@);
    match proc.parent_name {
        Some(parent) => {
            let d0 = 0 <= p < 9 && pattern_check(
                pattern(p),
                path,
                lowercase(parent@),
                name,
                s,
            ) is Some;
            let f1 = masquerade_check(proc, parent@, s);
            let f2 = child_check(b, proc, parent@, s);
            let d1 = f1 is Some && f1->0.factor == factor;
            let d2 = f2 is Some && f2->0.factor == factor;
            let v0 = patterns_check(9, path, lowercase(parent@), name, s);
            lemma_only_patterns(9, path, lowercase(parent@), name, s, factor, p, x);
            lemma_only_one(f1, factor, x);
            lemma_only_one(f2, factor, x);
            lemma_only_both(v0, at_most_one(f1), factor, d0, d1, x);
            lemma_only_both(v0 + at_most_one(f1), at_most_one(f2), factor, d0 || d1, d2, x);
        },
        None => {
            reveal(only);
        },
    }
}

proof fn lemma_process_only(
    config: BehavioralConfig,
    b: SystemModel,
    proc: ProcessEvent,
    timestamp: u64,
    factor: Seq<char>,
    p: int,
    r: int,
    x: FindingModel,
)
    requires
        forall|i: int| 0 <= i < 9 ==> ((#[trigger] pattern(i)).name == factor <==> i == p),
        forall|i: int|
            0 <= i < 17 ==> ((#[trigger] rule_finding(i, config.sensitivity)).factor == factor
                <==> i == r),
        fits(config, b, proc, timestamp, factor, p, r, x),
    ensures
        only(
            process_findings(config, b, proc, timestamp),
            factor,
            there(config, b, proc, timestamp, factor, p, r),
            x,
        ),
{
    let s = config.sensitivity;
    let name = lowercase(proc.name@);
    let path = lowercase(proc.path@);
    let cmdline = lowercase(proc.cmdline@);
    let none = Seq::<FindingModel>::empty();
    let first = match proc.parent_name {
        Some(parent) => parent_findings(b, proc, parent@, s),
        None => none,
    };
    let c0 = there_by_parent(config, b, proc, factor, p);
    lemma_parent_only(config, b, proc, timestamp, factor, p, r, x);
    let f1 = temp_check(path, s);
    let f2 = encoded_check(cmdline, s);
    let f3 = bypass_check(cmdline, s);
    let f5 = hour_check(b, proc.name@, config.time_analysis_enabled, timestamp, s);
    let c1 = f1 is Some && f1->0.factor == factor;
    let c2 = f2 is Some && f2->0.factor == factor;
    let c3 = f3 is Some && f3->0.factor == factor;
    let c4 = 0 <= r < 17 && enterprise_rule_applies(r, name, path, cmdline);
    let c5 = f5 is Some && f5->0.factor == factor;
    let v1 = first + at_most_one(f1);
    let v2 = v1 + at_most_one(f2);
    let v3 = v2 + at_most_one(f3);
    let v4 = v3 + enterprise_check(17, name, path, cmdline, s);
    lemma_only_one(f1, factor, x);
    lemma_only_one(f2, factor, x);
    lemma_only_one(f3, factor, x);
    lemma_only_rules(17, name, path, cmdline, s, factor, r, x);
    lemma_only_one(f5, factor, x);
    lemma_only_both(first, at_most_one(f1), factor, c0, c1, x);
    lemma_only_both(v1, at_most_one(f2), factor, c0 || c1, c2, x);
    lemma_only_both(v2, at_most_one(f3), factor, c0 || c1 || c2, c3, x);
    lemma_only_both(
        v3,
        enterprise_check(17, name, path, cmdline, s),
        factor,
        c0 || c1 || c2 || c3,
        c4,
        x,
    );
    lemma_only_both(v4, at_most_one(f5), factor, c0 || c1 || c2 || c3 || c4, c5, x);
    assert(process_findings(config, b, proc, timestamp) == v4 + at_most_one(f5));
}

/// A process whose command line, in lower case, asks for an encoded command, by either
/// name of the option or by its first letter given to PowerShell, is found, and no other.
pub proof fn law_encoded_commands_are_found(
    config: BehavioralConfig,
    b: SystemModel,
    proc: ProcessEvent,
    timestamp: u64,
)
    ensures
        ({
            let found = process_findings(config, b, proc, timestamp);
            let cmdline = lowercase(proc.cmdline@);
            &&& finds(found, "encoded_command"@) <==> occurs("-encodedcommand"@, cmdline) || occurs(
                "-enc "@,
                cmdline,
            ) || (occurs("-e "@, cmdline) && occurs("powershell"@, cmdline))
            &&& tells(
                found,
                "encoded_command"@,
                20,
                config.sensitivity,
                "encoded_powershell"@,
                "execution"@,
                "T1059.001"@,
            )
            &&& sure(found, "encoded_command"@, 800_000)
        }),
{
    reveal(only);
    lemma_pattern_marks();
    lemma_rule_marks(config.sensitivity);
    lemma_other_marks();
    let s = config.sensitivity;
    let factor = "encoded_command"@;
    let x = seen(
        factor,
        20,
        s,
        "encoded_powershell"@,
        800000,
        "PowerShell with encoded command detected"@,
        "execution"@,
        "T1059.001"@,
    );
    lemma_process_only(config, b, proc, timestamp, factor, -1, -1, x);
}

/// A process whose command line, in lower case, names the execution policy and a bypass
/// is found, and no other.
pub proof fn law_bypassed_policies_are_found(
    config: BehavioralConfig,
    b: SystemModel,
    proc: ProcessEvent,
    timestamp: u64,
)
    ensures
        ({
            let found = process_findings(config, b, proc, timestamp);
            let cmdline = lowercase(proc.cmdline@);
            &&& finds(found, "policy_bypass"@) <==> occurs("-executionpolicy"@, cmdline) && occurs(
                "bypass"@,
                cmdline,
            )
            &&& tells(
                found,
                "policy_bypass"@,
                15,
                config.sensitivity,
                "execution_policy_bypass"@,
                "defense-evasion"@,
                "T1059.001"@,
            )
            &&& sure(found, "policy_bypass"@, 700_000)
        }),
{
    reveal(only);
    lemma_pattern_marks();
    lemma_rule_marks(config.sensitivity);
    lemma_other_marks();
    let s = config.sensitivity;
    let factor = "policy_bypass"@;
    let x = seen(
        factor,
        15,
        s,
        "execution_policy_bypass"@,
        700000,
        "PowerShell execution policy bypass"@,
        "defense-evasion"@,
        "T1059.001"@,
    );
    lemma_process_only(config, b, proc, timestamp, factor, -1, -1, x);
}

/// A process whose path, in lower case, leads through a directory for temporary files is
/// found, and no other.
pub proof fn law_starts_from_temporary_directories_are_found(
    config: BehavioralConfig,
    b: SystemModel,
    proc: ProcessEvent,
    timestamp: u64,
)
    ensures
        ({
            let found = process_findings(config, b, proc, timestamp);
            let path = lowercase(proc.path@);
            &&& finds(found, "temp_execution"@) <==> any_occurs(
                seq!["\\temp\\", "\\tmp\\", "\\appdata\\local\\temp", "/tmp/"],
                path,
            )
            &&& tells(
                found,
                "temp_execution"@,
                10,
                config.sensitivity,
                "temp_execution"@,
                "defense-evasion"@,
                "T1036.005"@,
            )
            &&& sure(found, "temp_execution"@, 500_000)
        }),
{
    reveal(only);
    lemma_pattern_marks();
    lemma_rule_marks(config.sensitivity);
    lemma_other_marks();
    let s = config.sensitivity;
    let factor = "temp_execution"@;
    let x = seen(
        factor,
        10,
        s,
        "temp_execution"@,
        500000,
        "Process executed from temporary directory"@,
        "defense-evasion"@,
        "T1036.005"@,
    );
    assert(TEMP_DIRECTORIES@ =~= seq!["\\temp\\", "\\tmp\\", "\\appdata\\local\\temp", "/tmp/"]);
    lemma_process_only(config, b, proc, timestamp, factor, -1, -1, x);
}

/// A process that was seen more than a hundred times, and hardly ever in the hour of the
/// day, is found, where the time is looked at, and no other.
pub proof fn law_unusual_hours_are_found(
    config: BehavioralConfig,
    b: SystemModel,
    proc: ProcessEvent,
    timestamp: u64,
)
    ensures
        ({
            let found = process_findings(config, b, proc, timestamp);
            let name = lowercase(proc.name@);
            &&& finds(found, "unusual_time"@) <==> config.time_analysis_enabled
                && b.processes.contains_key(name) && b.processes[name].observations > 100
                && low_activity(b.processes[name].hours, hour_of_day(timestamp))
            &&& tells(
                found,
                "unusual_time"@,
                5,
                config.sensitivity,
                "unusual_execution_time"@,
                "defense-evasion"@,
                "T1036"@,
            )
            &&& sure(found, "unusual_time"@, 400_000)
        }),
{
    reveal(only);
    lemma_pattern_marks();
    lemma_rule_marks(config.sensitivity);
    lemma_other_marks();
    let s = config.sensitivity;
    let factor = "unusual_time"@;
    let x = match hour_check(b, proc.name@, config.time_analysis_enabled, timestamp, s) {
        Some(f) => f,
        None => FindingModel { factor, score: 0, detection: arbitrary() },
    };
    lemma_process_only(config, b, proc, timestamp, factor, -1, -1, x);
}

/// A process with a parent whose name, in lower case, looks like that of the local
/// security authority, but which is not that under its own parent and from its own
/// place, is found, and no other.
pub proof fn law_impostors_are_found(
    config: BehavioralConfig,
    b: SystemModel,
    proc: ProcessEvent,
    timestamp: u64,
)
    ensures
        ({
            let found = process_findings(config, b, proc, timestamp);
            let name = lowercase(proc.name@);
            &&& finds(found, "lsass_masquerade"@) <==> (proc.parent_name matches Some(parent)
                && occurs(
                "lsass"@,
                name,
            ) && !(name == "lsass.exe"@ && occurs("wininit.exe"@, lowercase(parent@)) && ends(
                lowercase(proc.path@),
                "\\windows\\system32\\lsass.exe"@,
            )))
            &&& tells(
                found,
                "lsass_masquerade"@,
                35,
                config.sensitivity,
                "lsass_masquerade"@,
                "credential-access"@,
                "T1003.001"@,
            )
            &&& sure(found, "lsass_masquerade"@, 900_000)
        }),
{
    reveal(only);
    lemma_pattern_marks();
    lemma_rule_marks(config.sensitivity);
    lemma_other_marks();
    let s = config.sensitivity;
    let factor = "lsass_masquerade"@;
    let x = match proc.parent_name {
        Some(parent) if masquerade_check(proc, parent@, s) is Some => masquerade_check(
            proc,
            parent@,
            s,
        )->0,
        _ => FindingModel { factor, score: 0, detection: arbitrary() },
    };
    lemma_process_only(config, b, proc, timestamp, factor, -1, -1, x);
}

/// A process that a parent started which was seen at least fifty times, is not approved,
/// and never started one of that name, is found, and no other.
pub proof fn law_unusual_children_are_found(
    config: BehavioralConfig,
    b: SystemModel,
    proc: ProcessEvent,
    timestamp: u64,
)
    ensures
        ({
            let found = process_findings(config, b, proc, timestamp);
            let name = lowercase(proc.name@);
            &&& finds(found, "baseline_deviation_child"@) <==> (proc.parent_name matches Some(parent)
                && b.processes.contains_key(lowercase(parent@)) && b.processes[lowercase(
                parent@,
            )].observations >= 50 && !b.processes[lowercase(parent@)].approved
                && !b.processes[lowercase(parent@)].children.contains(name))
            &&& tells(
                found,
                "baseline_deviation_child"@,
                10,
                config.sensitivity,
                "baseline_deviation_child"@,
                "defense-evasion"@,
                "T1036"@,
            )
            &&& sure(found, "baseline_deviation_child"@, 600_000)
        }),
{
    reveal(only);
    lemma_pattern_marks();
    lemma_rule_marks(config.sensitivity);
    lemma_other_marks();
    let s = config.sensitivity;
    let factor = "baseline_deviation_child"@;
    let x = match proc.parent_name {
        Some(parent) if child_check(b, proc, parent@, s) is Some => child_check(
            b,
            proc,
            parent@,
            s,
        )->0,
        _ => FindingModel { factor, score: 0, detection: arbitrary() },
    };
    lemma_process_only(config, b, proc, timestamp, factor, -1, -1, x);
}

/// A command shell that a program of an office suite started is found, and no other.
pub proof fn law_office_shells_are_found(
    config: BehavioralConfig,
    b: SystemModel,
    proc: ProcessEvent,
    timestamp: u64,
)
    ensures
        ({
            let found = process_findings(config, b, proc, timestamp);
            let name = lowercase(proc.name@);
            &&& finds(found, "office_shell_spawn"@) <==> (proc.parent_name matches Some(parent)
                && any_occurs(
                    seq!["winword", "excel", "powerpnt", "outlook", "msaccess"],
                    lowercase(parent@),
                )
                && any_occurs(
                    seq!["cmd.exe", "powershell", "pwsh", "wscript", "cscript", "mshta"],
                    name,
                ))
            &&& tells(
                found,
                "office_shell_spawn"@,
                25,
                config.sensitivity,
                "office_shell_spawn"@,
                "execution"@,
                "T1204.002"@,
            )
            &&& sure(
                found,
                "office_shell_spawn"@,
                pattern_confidence((25 * config.sensitivity) as u64),
            )
        }),
{
    reveal(only);
    lemma_pattern_marks();
    lemma_rule_marks(config.sensitivity);
    lemma_other_marks();
    let s = config.sensitivity;
    let factor = "office_shell_spawn"@;
    let x = scored(
        factor,
        25,
        s,
        "Office application spawning command shell"@,
        "execution"@,
        "T1204.002"@,
    );
    assert(OFFICE_PROGRAMS@ =~= seq!["winword", "excel", "powerpnt", "outlook", "msaccess"]);
    assert(SHELLS@ =~= seq!["cmd.exe", "powershell", "pwsh", "wscript", "cscript", "mshta"]);
    lemma_reported_at_start(0);
    assert(PATTERN_TEXTS@[0].0@ == factor);
    reveal_strlit("svchost_unusual_parent");
    reveal_strlit("office_shell_spawn");
    assert(mark("svchost_unusual_parent"@) == 2931);
    reveal_strlit("script_from_temp");
    assert(mark("script_from_temp"@) == 2164);
    lemma_process_only(config, b, proc, timestamp, factor, 0, -1, x);
}

/// A suspicious program that a browser started is found, and no other.
pub proof fn law_browser_children_are_found(
    config: BehavioralConfig,
    b: SystemModel,
    proc: ProcessEvent,
    timestamp: u64,
)
    ensures
        ({
            let found = process_findings(config, b, proc, timestamp);
            let name = lowercase(proc.name@);
            &&& finds(found, "browser_process_spawn"@) <==> (proc.parent_name matches Some(parent)
                && any_occurs(
                    seq!["chrome", "firefox", "iexplore", "msedge", "opera"],
                    lowercase(parent@),
                )
                && any_occurs(
                    seq!["cmd.exe", "powershell", "certutil", "bitsadmin", "msiexec"],
                    name,
                ))
            &&& tells(
                found,
                "browser_process_spawn"@,
                20,
                config.sensitivity,
                "browser_process_spawn"@,
                "execution"@,
                "T1189"@,
            )
            &&& sure(
                found,
                "browser_process_spawn"@,
                pattern_confidence((20 * config.sensitivity) as u64),
            )
        }),
{
    reveal(only);
    lemma_pattern_marks();
    lemma_rule_marks(config.sensitivity);
    lemma_other_marks();
    let s = config.sensitivity;
    let factor = "browser_process_spawn"@;
    let x = scored(
        factor,
        20,
        s,
        "Browser spawning suspicious process"@,
        "execution"@,
        "T1189"@,
    );
    assert(BROWSERS@ =~= seq!["chrome", "firefox", "iexplore", "msedge", "opera"]);
    assert(BROWSER_CHILDREN@ =~= seq!["cmd.exe", "powershell", "certutil", "bitsadmin", "msiexec"]);
    lemma_reported_at_start(1);
    assert(PATTERN_TEXTS@[1].0@ == factor);
    reveal_strlit("svchost_unusual_parent");
    reveal_strlit("browser_process_spawn");
    assert(mark("svchost_unusual_parent"@) == 2931);
    reveal_strlit("script_from_temp");
    assert(mark("script_from_temp"@) == 2164);
    lemma_process_only(config, b, proc, timestamp, factor, 1, -1, x);
}

/// A host of services that something else than the manager of services started is found,
/// and no other.
pub proof fn law_misplaced_service_hosts_are_found(
    config: BehavioralConfig,
    b: SystemModel,
    proc: ProcessEvent,
    timestamp: u64,
)
    ensures
        ({
            let found = process_findings(config, b, proc, timestamp);
            let name = lowercase(proc.name@);
            &&& finds(found, "svchost_unusual_parent"@) <==> (proc.parent_name matches Some(parent)
                && any_occurs(seq!["svchost"], name)
                && !occurs("services.exe"@, lowercase(parent@)))
            &&& tells(
                found,
                "svchost_unusual_parent"@,
                30,
                config.sensitivity,
                "svchost_unusual_parent"@,
                "defense-evasion"@,
                "T1036.004"@,
            )
            &&& sure(
                found,
                "svchost_unusual_parent"@,
                pattern_confidence((30 * config.sensitivity) as u64),
            )
        }),
{
    reveal(only);
    lemma_pattern_marks();
    lemma_rule_marks(config.sensitivity);
    lemma_other_marks();
    let s = config.sensitivity;
    let factor = "svchost_unusual_parent"@;
    let x = scored(
        factor,
        30,
        s,
        "svchost.exe with unusual parent"@,
        "defense-evasion"@,
        "T1036.004"@,
    );
    assert(SERVICE_HOSTS@ =~= seq!["svchost"]);
    lemma_reported_at_start(2);
    assert(PATTERN_TEXTS@[2].0@ == factor);
    assert(NO_NAMES@.len() == 0);
    reveal_strlit("script_from_temp");
    assert(mark("script_from_temp"@) == 2164);
    assert(any_occurs(seq!["svchost"], lowercase(proc.name@)) <==> occurs(
        "svchost"@,
        lowercase(proc.name@),
    )) by {
        let one: Seq<&str> = seq!["svchost"];
        assert(one[0]@ == "svchost"@);
    }
    lemma_process_only(config, b, proc, timestamp, factor, 2, -1, x);
}

/// A script host with a parent that runs from a directory for temporary files is found,
/// and no other.
pub proof fn law_scripts_from_temporary_directories_are_found(
    config: BehavioralConfig,
    b: SystemModel,
    proc: ProcessEvent,
    timestamp: u64,
)
    ensures
        ({
            let found = process_findings(config, b, proc, timestamp);
            let name = lowercase(proc.name@);
            &&& finds(found, "script_from_temp"@) <==> (proc.parent_name matches Some(parent)
                && any_occurs(seq!["wscript", "cscript", "mshta", "powershell"], name)
                && any_occurs(
                    seq!["\\temp\\", "\\tmp\\", "\\appdata\\local\\temp", "/tmp/"],
                    lowercase(proc.path@),
                ))
            &&& tells(
                found,
                "script_from_temp"@,
                15,
                config.sensitivity,
                "script_from_temp"@,
                "defense-evasion"@,
                "T1059"@,
            )
            &&& sure(
                found,
                "script_from_temp"@,
                pattern_confidence((15 * config.sensitivity) as u64),
            )
        }),
{
    reveal(only);
    lemma_pattern_marks();
    lemma_rule_marks(config.sensitivity);
    lemma_other_marks();
    let s = config.sensitivity;
    let factor = "script_from_temp"@;
    let x = scored(
        factor,
        15,
        s,
        "Script execution from temp directory"@,
        "defense-evasion"@,
        "T1059"@,
    );
    assert(SCRIPT_HOSTS@ =~= seq!["wscript", "cscript", "mshta", "powershell"]);
    assert(TEMP_DIRECTORIES@ =~= seq!["\\temp\\", "\\tmp\\", "\\appdata\\local\\temp", "/tmp/"]);
    lemma_reported_at_start(4);
    assert(PATTERN_TEXTS@[4].0@ == factor);
    assert(NO_NAMES@.len() == 0);
    reveal_strlit("svchost_unusual_parent");
    reveal_strlit("script_from_temp");
    assert(mark("svchost_unusual_parent"@) == 2931);
    lemma_process_only(config, b, proc, timestamp, factor, 4, -1, x);
}

/// An interactive program that the manager of services started is found, and no other.
pub proof fn law_interactive_services_are_found(
    config: BehavioralConfig,
    b: SystemModel,
    proc: ProcessEvent,
    timestamp: u64,
)
    ensures
        ({
            let found = process_findings(config, b, proc, timestamp);
            let name = lowercase(proc.name@);
            &&& finds(found, "services_interactive"@) <==> (proc.parent_name matches Some(parent)
                && any_occurs(seq!["services.exe"], lowercase(parent@))
                && any_occurs(seq!["notepad", "calc", "mspaint", "explorer"], name))
            &&& tells(
                found,
                "services_interactive"@,
                25,
                config.sensitivity,
                "services_interactive"@,
                "privilege-escalation"@,
                "T1543.003"@,
            )
            &&& sure(
                found,
                "services_interactive"@,
                pattern_confidence((25 * config.sensitivity) as u64),
            )
        }),
{
    reveal(only);
    lemma_pattern_marks();
    lemma_rule_marks(config.sensitivity);
    lemma_other_marks();
    let s = config.sensitivity;
    let factor = "services_interactive"@;
    let x = scored(
        factor,
        25,
        s,
        "Services spawning interactive process"@,
        "privilege-escalation"@,
        "T1543.003"@,
    );
    assert(SERVICE_MANAGERS@ =~= seq!["services.exe"]);
    assert(INTERACTIVE_PROGRAMS@ =~= seq!["notepad", "calc", "mspaint", "explorer"]);
    lemma_reported_at_start(5);
    assert(PATTERN_TEXTS@[5].0@ == factor);
    reveal_strlit("svchost_unusual_parent");
    reveal_strlit("services_interactive");
    assert(mark("svchost_unusual_parent"@) == 2931);
    reveal_strlit("script_from_temp");
    assert(mark("script_from_temp"@) == 2164);
    lemma_process_only(config, b, proc, timestamp, factor, 5, -1, x);
}

/// A command shell that the host of management instrumentation started is found, and no
/// other.
pub proof fn law_management_shells_are_found(
    config: BehavioralConfig,
    b: SystemModel,
    proc: ProcessEvent,
    timestamp: u64,
)
    ensures
        ({
            let found = process_findings(config, b, proc, timestamp);
            let name = lowercase(proc.name@);
            &&& finds(found, "wmiprvse_spawn"@) <==> (proc.parent_name matches Some(parent)
                && any_occurs(seq!["wmiprvse"], lowercase(parent@))
                && any_occurs(seq!["cmd.exe", "powershell", "pwsh"], name))
            &&& tells(
                found,
                "wmiprvse_spawn"@,
                20,
                config.sensitivity,
                "wmiprvse_spawn"@,
                "execution"@,
                "T1047"@,
            )
            &&& sure(found, "wmiprvse_spawn"@, pattern_confidence((20 * config.sensitivity) as u64))
        }),
{
    reveal(only);
    lemma_pattern_marks();
    lemma_rule_marks(config.sensitivity);
    lemma_other_marks();
    let s = config.sensitivity;
    let factor = "wmiprvse_spawn"@;
    let x = scored(
        factor,
        20,
        s,
        "WMI spawning command shell"@,
        "execution"@,
        "T1047"@,
    );
    assert(WMI_HOSTS@ =~= seq!["wmiprvse"]);
    assert(COMMAND_SHELLS@ =~= seq!["cmd.exe", "powershell", "pwsh"]);
    lemma_reported_at_start(6);
    assert(PATTERN_TEXTS@[6].0@ == factor);
    reveal_strlit("svchost_unusual_parent");
    reveal_strlit("wmiprvse_spawn");
    assert(mark("svchost_unusual_parent"@) == 2931);
    reveal_strlit("script_from_temp");
    assert(mark("script_from_temp"@) == 2164);
    lemma_process_only(config, b, proc, timestamp, factor, 6, -1, x);
}

proof fn lemma_reported_at_start(i: int)
    requires
        i == 0 || i == 1 || i == 2 || i == 4 || i == 5 || i == 6,
    ensures
        !is_one_of(pattern(i).name, LATER_PATTERNS@),
{
    lemma_pattern_marks();
    assert(pattern(3).name == "lsass_access"@ && mark(pattern(3).name) == pattern_mark(3));
    assert(pattern(7).name == "rundll32_network"@ && mark(pattern(7).name) == pattern_mark(7));
    assert(pattern(8).name == "regsvr32_network"@ && mark(pattern(8).name) == pattern_mark(8));
    assert(mark(pattern(i).name) == pattern_mark(i));
    assert(LATER_PATTERNS@ =~= seq!["lsass_access", "rundll32_network", "regsvr32_network"]);
}

/// What takes more than the start of a process, a read of the memory of the local security
/// authority or a connection, is not found in the start of one.
pub proof fn law_later_patterns_are_not_found(
    config: BehavioralConfig,
    b: SystemModel,
    proc: ProcessEvent,
    timestamp: u64,
)
    ensures
        ({
            let found = process_findings(config, b, proc, timestamp);
            &&& !finds(found, "lsass_access"@)
            &&& !finds(found, "rundll32_network"@)
            &&& !finds(found, "regsvr32_network"@)
        }),
{
    reveal(only);
    lemma_pattern_marks();
    lemma_rule_marks(config.sensitivity);
    lemma_other_marks();
    let x = arbitrary();
    assert(pattern(3).name == "lsass_access"@ && pattern(7).name == "rundll32_network"@ && pattern(
        8,
    ).name == "regsvr32_network"@);
    assert(LATER_PATTERNS@ =~= seq!["lsass_access", "rundll32_network", "regsvr32_network"]);
    assert(LATER_PATTERNS@[0]@ == "lsass_access"@ && PATTERN_TEXTS@[3].0@ == "lsass_access"@);
    assert(LATER_PATTERNS@[1]@ == "rundll32_network"@ && PATTERN_TEXTS@[7].0@
        == "rundll32_network"@);
    assert(LATER_PATTERNS@[2]@ == "regsvr32_network"@ && PATTERN_TEXTS@[8].0@
        == "regsvr32_network"@);
    lemma_process_only(config, b, proc, timestamp, "lsass_access"@, 3, -1, x);
    lemma_process_only(config, b, proc, timestamp, "rundll32_network"@, 7, -1, x);
    lemma_process_only(config, b, proc, timestamp, "regsvr32_network"@, 8, -1, x);
}

/// A process whose name and command line, in lower case, say that it lists
/// processes and names the local security authority is found, and no other.
pub proof fn law_probes_of_the_security_authority_are_found(
    config: BehavioralConfig,
    b: SystemModel,
    proc: ProcessEvent,
    timestamp: u64,
)
    ensures
        ({
            let found = process_findings(config, b, proc, timestamp);
            let name = lowercase(proc.name@);
            let cmdline = lowercase(proc.cmdline@);
            let both = name + " "@ + cmdline;
            &&& finds(found, "lsass_credential_access_probe"@) <==> any_occurs(
                seq!["get-process lsass", "process lsass", "lsass.exe"],
                both,
            )
                && any_occurs(seq!["powershell", "pwsh", "wmic", "tasklist"], both)
            &&& tells(
                found,
                "lsass_credential_access_probe"@,
                18,
                config.sensitivity,
                "lsass_credential_access_probe"@,
                "credential-access"@,
                "T1003.001"@,
            )
            &&& sure(
                found,
                "lsass_credential_access_probe"@,
                pattern_confidence((18 * config.sensitivity) as u64),
            )
        }),
{
    reveal(only);
    lemma_pattern_marks();
    lemma_rule_marks(config.sensitivity);
    lemma_other_marks();
    let s = config.sensitivity;
    let factor = "lsass_credential_access_probe"@;
    let x = scored(
        factor,
        18,
        s,
        "Credential access probe targeting LSASS metadata"@,
        "credential-access"@,
        "T1003.001"@,
    );
    assert(LSASS_PROBES@ =~= seq!["get-process lsass", "process lsass", "lsass.exe"]);
    assert(PROCESS_LISTERS@ =~= seq!["powershell", "pwsh", "wmic", "tasklist"]);
    assert(ENTERPRISE_RULES@[0].0@ == factor);
    assert(x == rule_finding(0, s));
    lemma_process_only(config, b, proc, timestamp, factor, -1, 0, x);
}

/// A process whose name and command line, in lower case, say that it looks for
/// credentials is found, and no other.
pub proof fn law_searches_for_credentials_are_found(
    config: BehavioralConfig,
    b: SystemModel,
    proc: ProcessEvent,
    timestamp: u64,
)
    ensures
        ({
            let found = process_findings(config, b, proc, timestamp);
            let name = lowercase(proc.name@);
            let cmdline = lowercase(proc.cmdline@);
            let both = name + " "@ + cmdline;
            &&& finds(found, "credential_material_discovery"@) <==> any_occurs(
                seq![
                    "cmdkey.exe /list",
                    "login data",
                    "tamandua-credential-canary",
                    "findstr /i password",
                ],
                both,
            )
            &&& tells(
                found,
                "credential_material_discovery"@,
                16,
                config.sensitivity,
                "credential_material_discovery"@,
                "credential-access"@,
                "T1552.001"@,
            )
            &&& sure(
                found,
                "credential_material_discovery"@,
                pattern_confidence((16 * config.sensitivity) as u64),
            )
        }),
{
    reveal(only);
    lemma_pattern_marks();
    lemma_rule_marks(config.sensitivity);
    lemma_other_marks();
    let s = config.sensitivity;
    let factor = "credential_material_discovery"@;
    let x = scored(
        factor,
        16,
        s,
        "Credential material discovery or credential-store probing"@,
        "credential-access"@,
        "T1552.001"@,
    );
    assert(CREDENTIAL_PROBES@ =~= seq![
        "cmdkey.exe /list",
        "login data",
        "tamandua-credential-canary",
        "findstr /i password",
    ]);
    assert(ENTERPRISE_RULES@[1].0@ == factor);
    assert(x == rule_finding(1, s));
    lemma_process_only(config, b, proc, timestamp, factor, -1, 1, x);
}

/// A process whose name and command line, in lower case, say that it manages other
/// machines is found, and no other.
pub proof fn law_remote_management_is_found(
    config: BehavioralConfig,
    b: SystemModel,
    proc: ProcessEvent,
    timestamp: u64,
)
    ensures
        ({
            let found = process_findings(config, b, proc, timestamp);
            let name = lowercase(proc.name@);
            let cmdline = lowercase(proc.cmdline@);
            let both = name + " "@ + cmdline;
            &&& finds(found, "remote_management_wmi_winrm"@) <==> name == "wmic.exe"@
                || any_occurs(
                    seq!["wmic.exe", "winrm ", "invoke-command", "test-wsman", "psremoting"],
                    cmdline,
                )
            &&& tells(
                found,
                "remote_management_wmi_winrm"@,
                18,
                config.sensitivity,
                "remote_management_wmi_winrm"@,
                "lateral-movement"@,
                "T1021.006"@,
            )
            &&& sure(
                found,
                "remote_management_wmi_winrm"@,
                pattern_confidence((18 * config.sensitivity) as u64),
            )
        }),
{
    reveal(only);
    lemma_pattern_marks();
    lemma_rule_marks(config.sensitivity);
    lemma_other_marks();
    let s = config.sensitivity;
    let factor = "remote_management_wmi_winrm"@;
    let x = scored(
        factor,
        18,
        s,
        "Remote management tooling observed via WMI, WinRM, or PowerShell remoting"@,
        "lateral-movement"@,
        "T1021.006"@,
    );
    assert(REMOTE_TOOLS@ =~= seq![
        "wmic.exe",
        "winrm ",
        "invoke-command",
        "test-wsman",
        "psremoting",
    ]);
    assert(ENTERPRISE_RULES@[2].0@ == factor);
    assert(x == rule_finding(2, s));
    lemma_process_only(config, b, proc, timestamp, factor, -1, 2, x);
}

/// A process whose name and command line, in lower case, say that it names shares
/// is found, and no other.
pub proof fn law_probes_of_shares_are_found(
    config: BehavioralConfig,
    b: SystemModel,
    proc: ProcessEvent,
    timestamp: u64,
)
    ensures
        ({
            let found = process_findings(config, b, proc, timestamp);
            let name = lowercase(proc.name@);
            let cmdline = lowercase(proc.cmdline@);
            let both = name + " "@ + cmdline;
            &&& finds(found, "lateral_smb_admin_share_probe"@) <==> any_occurs(
                seq!["net use", "net share", "admin$", "c$"],
                both,
            )
            &&& tells(
                found,
                "lateral_smb_admin_share_probe"@,
                12,
                config.sensitivity,
                "lateral_smb_admin_share_probe"@,
                "lateral-movement"@,
                "T1021.002"@,
            )
            &&& sure(
                found,
                "lateral_smb_admin_share_probe"@,
                pattern_confidence((12 * config.sensitivity) as u64),
            )
        }),
{
    reveal(only);
    lemma_pattern_marks();
    lemma_rule_marks(config.sensitivity);
    lemma_other_marks();
    let s = config.sensitivity;
    let factor = "lateral_smb_admin_share_probe"@;
    let x = scored(
        factor,
        12,
        s,
        "SMB admin-share or network-share discovery"@,
        "lateral-movement"@,
        "T1021.002"@,
    );
    assert(SHARE_PROBES@ =~= seq!["net use", "net share", "admin$", "c$"]);
    assert(ENTERPRISE_RULES@[3].0@ == factor);
    assert(x == rule_finding(3, s));
    lemma_process_only(config, b, proc, timestamp, factor, -1, 3, x);
}

/// A process whose name and command line, in lower case, say that it creates a
/// scheduled task is found, and no other.
pub proof fn law_creation_of_tasks_is_found(
    config: BehavioralConfig,
    b: SystemModel,
    proc: ProcessEvent,
    timestamp: u64,
)
    ensures
        ({
            let found = process_findings(config, b, proc, timestamp);
            let name = lowercase(proc.name@);
            let cmdline = lowercase(proc.cmdline@);
            let both = name + " "@ + cmdline;
            &&& finds(found, "scheduled_task_privilege_persistence"@) <==> any_occurs(
                seq!["schtasks.exe /create", "schtasks /create"],
                both,
            )
            &&& tells(
                found,
                "scheduled_task_privilege_persistence"@,
                20,
                config.sensitivity,
                "scheduled_task_privilege_persistence"@,
                "persistence"@,
                "T1053.005"@,
            )
            &&& sure(
                found,
                "scheduled_task_privilege_persistence"@,
                pattern_confidence((20 * config.sensitivity) as u64),
            )
        }),
{
    reveal(only);
    lemma_pattern_marks();
    lemma_rule_marks(config.sensitivity);
    lemma_other_marks();
    let s = config.sensitivity;
    let factor = "scheduled_task_privilege_persistence"@;
    let x = scored(
        factor,
        20,
        s,
        "Scheduled task creation can provide persistence or privilege escalation"@,
        "persistence"@,
        "T1053.005"@,
    );
    assert(TASK_CREATION@ =~= seq!["schtasks.exe /create", "schtasks /create"]);
    assert(ENTERPRISE_RULES@[4].0@ == factor);
    assert(x == rule_finding(4, s));
    lemma_process_only(config, b, proc, timestamp, factor, -1, 4, x);
}

/// A process whose name and command line, in lower case, say that it creates a
/// service is found, and no other.
pub proof fn law_creation_of_services_is_found(
    config: BehavioralConfig,
    b: SystemModel,
    proc: ProcessEvent,
    timestamp: u64,
)
    ensures
        ({
            let found = process_findings(config, b, proc, timestamp);
            let name = lowercase(proc.name@);
            let cmdline = lowercase(proc.cmdline@);
            let both = name + " "@ + cmdline;
            &&& finds(found, "service_creation_abuse"@) <==> any_occurs(
                seq!["sc.exe create", "sc create"],
                both,
            )
            &&& tells(
                found,
                "service_creation_abuse"@,
                22,
                config.sensitivity,
                "service_creation_abuse"@,
                "persistence"@,
                "T1543.003"@,
            )
            &&& sure(
                found,
                "service_creation_abuse"@,
                pattern_confidence((22 * config.sensitivity) as u64),
            )
        }),
{
    reveal(only);
    lemma_pattern_marks();
    lemma_rule_marks(config.sensitivity);
    lemma_other_marks();
    let s = config.sensitivity;
    let factor = "service_creation_abuse"@;
    let x = scored(
        factor,
        22,
        s,
        "Windows service creation observed"@,
        "persistence"@,
        "T1543.003"@,
    );
    assert(SERVICE_CREATION@ =~= seq!["sc.exe create", "sc create"]);
    assert(ENTERPRISE_RULES@[5].0@ == factor);
    assert(x == rule_finding(5, s));
    lemma_process_only(config, b, proc, timestamp, factor, -1, 5, x);
}

/// A process whose name and command line, in lower case, say that it asks for the
/// settings of user account control is found, and no other.
pub proof fn law_probes_of_account_control_are_found(
    config: BehavioralConfig,
    b: SystemModel,
    proc: ProcessEvent,
    timestamp: u64,
)
    ensures
        ({
            let found = process_findings(config, b, proc, timestamp);
            let name = lowercase(proc.name@);
            let cmdline = lowercase(proc.cmdline@);
            let both = name + " "@ + cmdline;
            &&& finds(found, "privilege_escalation_configuration_probe"@) <==> any_occurs(
                seq!["enablelua", "\\policies\\system", "uac"],
                cmdline,
            )
            &&& tells(
                found,
                "privilege_escalation_configuration_probe"@,
                10,
                config.sensitivity,
                "privilege_escalation_configuration_probe"@,
                "privilege-escalation"@,
                "T1548.002"@,
            )
            &&& sure(
                found,
                "privilege_escalation_configuration_probe"@,
                pattern_confidence((10 * config.sensitivity) as u64),
            )
        }),
{
    reveal(only);
    lemma_pattern_marks();
    lemma_rule_marks(config.sensitivity);
    lemma_other_marks();
    let s = config.sensitivity;
    let factor = "privilege_escalation_configuration_probe"@;
    let x = scored(
        factor,
        10,
        s,
        "Privilege escalation relevant configuration was queried"@,
        "privilege-escalation"@,
        "T1548.002"@,
    );
    assert(UAC_PROBES@ =~= seq!["enablelua", "\\policies\\system", "uac"]);
    assert(ENTERPRISE_RULES@[6].0@ == factor);
    assert(x == rule_finding(6, s));
    lemma_process_only(config, b, proc, timestamp, factor, -1, 6, x);
}

/// A process whose name and command line, in lower case, say that it fetches a file
/// is found, and no other.
pub proof fn law_downloads_are_found(
    config: BehavioralConfig,
    b: SystemModel,
    proc: ProcessEvent,
    timestamp: u64,
)
    ensures
        ({
            let found = process_findings(config, b, proc, timestamp);
            let name = lowercase(proc.name@);
            let cmdline = lowercase(proc.cmdline@);
            let both = name + " "@ + cmdline;
            &&& finds(found, "c2_download_transfer"@) <==> any_occurs(
                seq!["curl.exe", "invoke-webrequest", "downloadfile"],
                both,
            )
                && any_occurs(seq![" -o ", " -out", "download", "http://", "https://"], both)
            &&& tells(
                found,
                "c2_download_transfer"@,
                18,
                config.sensitivity,
                "c2_download_transfer"@,
                "command-and-control"@,
                "T1105"@,
            )
            &&& sure(
                found,
                "c2_download_transfer"@,
                pattern_confidence((18 * config.sensitivity) as u64),
            )
        }),
{
    reveal(only);
    lemma_pattern_marks();
    lemma_rule_marks(config.sensitivity);
    lemma_other_marks();
    let s = config.sensitivity;
    let factor = "c2_download_transfer"@;
    let x = scored(
        factor,
        18,
        s,
        "HTTP transfer pattern consistent with ingress tool transfer or C2 staging"@,
        "command-and-control"@,
        "T1105"@,
    );
    assert(TRANSFER_TOOLS@ =~= seq!["curl.exe", "invoke-webrequest", "downloadfile"]);
    assert(DOWNLOAD_WORDS@ =~= seq![" -o ", " -out", "download", "http://", "https://"]);
    assert(ENTERPRISE_RULES@[7].0@ == factor);
    assert(x == rule_finding(7, s));
    lemma_process_only(config, b, proc, timestamp, factor, -1, 7, x);
}

/// A process whose name and command line, in lower case, say that it probes the
/// network again and again is found, and no other.
pub proof fn law_repeated_probes_are_found(
    config: BehavioralConfig,
    b: SystemModel,
    proc: ProcessEvent,
    timestamp: u64,
)
    ensures
        ({
            let found = process_findings(config, b, proc, timestamp);
            let name = lowercase(proc.name@);
            let cmdline = lowercase(proc.cmdline@);
            let both = name + " "@ + cmdline;
            &&& finds(found, "c2_beacon_safe_probe"@) <==> any_occurs(
                seq!["curl.exe -i", "test-netconnection"],
                both,
            )
                || (occurs_twice("curl.exe"@, cmdline)
                && occurs("timeout"@, cmdline))
            &&& tells(
                found,
                "c2_beacon_safe_probe"@,
                14,
                config.sensitivity,
                "c2_beacon_safe_probe"@,
                "command-and-control"@,
                "T1071.001"@,
            )
            &&& sure(
                found,
                "c2_beacon_safe_probe"@,
                pattern_confidence((14 * config.sensitivity) as u64),
            )
        }),
{
    reveal(only);
    lemma_pattern_marks();
    lemma_rule_marks(config.sensitivity);
    lemma_other_marks();
    let s = config.sensitivity;
    let factor = "c2_beacon_safe_probe"@;
    let x = scored(
        factor,
        14,
        s,
        "Repeated network probe can indicate beacon-like command-and-control behavior"@,
        "command-and-control"@,
        "T1071.001"@,
    );
    assert(NETWORK_PROBES@ =~= seq!["curl.exe -i", "test-netconnection"]);
    assert(ENTERPRISE_RULES@[8].0@ == factor);
    assert(x == rule_finding(8, s));
    lemma_process_only(config, b, proc, timestamp, factor, -1, 8, x);
}

/// A process whose name and command line, in lower case, say that it makes an
/// archive is found, and no other.
pub proof fn law_archives_are_found(
    config: BehavioralConfig,
    b: SystemModel,
    proc: ProcessEvent,
    timestamp: u64,
)
    ensures
        ({
            let found = process_findings(config, b, proc, timestamp);
            let name = lowercase(proc.name@);
            let cmdline = lowercase(proc.cmdline@);
            let both = name + " "@ + cmdline;
            &&& finds(found, "archive_staging"@) <==> any_occurs(
                seq!["tar.exe", "makecab.exe", "compress-archive"],
                both,
            )
                && any_occurs(seq![".zip", ".cab", ".tar"], both)
            &&& tells(
                found,
                "archive_staging"@,
                14,
                config.sensitivity,
                "archive_staging"@,
                "collection"@,
                "T1560.001"@,
            )
            &&& sure(
                found,
                "archive_staging"@,
                pattern_confidence((14 * config.sensitivity) as u64),
            )
        }),
{
    reveal(only);
    lemma_pattern_marks();
    lemma_rule_marks(config.sensitivity);
    lemma_other_marks();
    let s = config.sensitivity;
    let factor = "archive_staging"@;
    let x = scored(
        factor,
        14,
        s,
        "Data archive staging observed"@,
        "collection"@,
        "T1560.001"@,
    );
    assert(ARCHIVERS@ =~= seq!["tar.exe", "makecab.exe", "compress-archive"]);
    assert(ARCHIVE_ENDINGS@ =~= seq![".zip", ".cab", ".tar"]);
    assert(ENTERPRISE_RULES@[9].0@ == factor);
    assert(x == rule_finding(9, s));
    lemma_process_only(config, b, proc, timestamp, factor, -1, 9, x);
}

/// A process whose name and command line, in lower case, say that it sends what was
/// staged is found, and no other.
pub proof fn law_staging_for_exfiltration_is_found(
    config: BehavioralConfig,
    b: SystemModel,
    proc: ProcessEvent,
    timestamp: u64,
)
    ensures
        ({
            let found = process_findings(config, b, proc, timestamp);
            let name = lowercase(proc.name@);
            let cmdline = lowercase(proc.cmdline@);
            let both = name + " "@ + cmdline;
            &&& finds(found, "exfiltration_staging"@) <==> any_occurs(
                seq!["exfil", "exfil-canary"],
                both,
            )
                || (any_occurs(seq!["curl.exe", "invoke-webrequest"], both)
                && any_occurs(seq![".zip", "archive", "staged", "canary"], both))
            &&& tells(
                found,
                "exfiltration_staging"@,
                18,
                config.sensitivity,
                "exfiltration_staging"@,
                "exfiltration"@,
                "T1041"@,
            )
            &&& sure(
                found,
                "exfiltration_staging"@,
                pattern_confidence((18 * config.sensitivity) as u64),
            )
        }),
{
    reveal(only);
    lemma_pattern_marks();
    lemma_rule_marks(config.sensitivity);
    lemma_other_marks();
    let s = config.sensitivity;
    let factor = "exfiltration_staging"@;
    let x = scored(
        factor,
        18,
        s,
        "Local staging followed by network transfer pattern"@,
        "exfiltration"@,
        "T1041"@,
    );
    assert(EXFILTRATION_WORDS@ =~= seq!["exfil", "exfil-canary"]);
    assert(WEB_TOOLS@ =~= seq!["curl.exe", "invoke-webrequest"]);
    assert(STAGED_WORDS@ =~= seq![".zip", "archive", "staged", "canary"]);
    assert(ENTERPRISE_RULES@[10].0@ == factor);
    assert(x == rule_finding(10, s));
    lemma_process_only(config, b, proc, timestamp, factor, -1, 10, x);
}

/// A process whose name and command line, in lower case, say that it plants a
/// library is found, and no other.
pub proof fn law_planted_libraries_are_found(
    config: BehavioralConfig,
    b: SystemModel,
    proc: ProcessEvent,
    timestamp: u64,
)
    ensures
        ({
            let found = process_findings(config, b, proc, timestamp);
            let name = lowercase(proc.name@);
            let cmdline = lowercase(proc.cmdline@);
            let both = name + " "@ + cmdline;
            &&& finds(found, "dll_hijack_canary"@) <==> any_occurs(
                seq!["version.dll", "dll-canary"],
                both,
            )
                || (occurs("\\temp\\"@, lowercase(proc.path@))
                && ends(name, ".dll"@))
            &&& tells(
                found,
                "dll_hijack_canary"@,
                18,
                config.sensitivity,
                "dll_hijack_canary"@,
                "defense-evasion"@,
                "T1574.001"@,
            )
            &&& sure(
                found,
                "dll_hijack_canary"@,
                pattern_confidence((18 * config.sensitivity) as u64),
            )
        }),
{
    reveal(only);
    lemma_pattern_marks();
    lemma_rule_marks(config.sensitivity);
    lemma_other_marks();
    let s = config.sensitivity;
    let factor = "dll_hijack_canary"@;
    let x = scored(
        factor,
        18,
        s,
        "DLL search order hijack or side-loading canary observed"@,
        "defense-evasion"@,
        "T1574.001"@,
    );
    assert(PLANTED_LIBRARIES@ =~= seq!["version.dll", "dll-canary"]);
    assert(ENTERPRISE_RULES@[11].0@ == factor);
    assert(x == rule_finding(11, s));
    lemma_process_only(config, b, proc, timestamp, factor, -1, 11, x);
}

/// A process whose name and command line, in lower case, say that it registers a
/// library through a signed program is found, and no other.
pub proof fn law_registration_of_others_is_found(
    config: BehavioralConfig,
    b: SystemModel,
    proc: ProcessEvent,
    timestamp: u64,
)
    ensures
        ({
            let found = process_findings(config, b, proc, timestamp);
            let name = lowercase(proc.name@);
            let cmdline = lowercase(proc.cmdline@);
            let both = name + " "@ + cmdline;
            &&& finds(found, "regsvr32_proxy_execution"@) <==> occurs("regsvr32.exe"@, both)
            &&& tells(
                found,
                "regsvr32_proxy_execution"@,
                18,
                config.sensitivity,
                "regsvr32_proxy_execution"@,
                "defense-evasion"@,
                "T1218.010"@,
            )
            &&& sure(
                found,
                "regsvr32_proxy_execution"@,
                pattern_confidence((18 * config.sensitivity) as u64),
            )
        }),
{
    reveal(only);
    lemma_pattern_marks();
    lemma_rule_marks(config.sensitivity);
    lemma_other_marks();
    let s = config.sensitivity;
    let factor = "regsvr32_proxy_execution"@;
    let x = scored(
        factor,
        18,
        s,
        "Regsvr32 signed binary proxy execution"@,
        "defense-evasion"@,
        "T1218.010"@,
    );
    assert(ENTERPRISE_RULES@[12].0@ == factor);
    assert(x == rule_finding(12, s));
    lemma_process_only(config, b, proc, timestamp, factor, -1, 12, x);
}

/// A process whose name and command line, in lower case, say that it runs a library
/// through a signed program, where none registers one is found, and no other.
pub proof fn law_libraries_run_by_others_are_found(
    config: BehavioralConfig,
    b: SystemModel,
    proc: ProcessEvent,
    timestamp: u64,
)
    ensures
        ({
            let found = process_findings(config, b, proc, timestamp);
            let name = lowercase(proc.name@);
            let cmdline = lowercase(proc.cmdline@);
            let both = name + " "@ + cmdline;
            &&& finds(found, "rundll32_proxy_execution"@) <==> occurs("rundll32.exe"@, both)
                && !occurs("regsvr32.exe"@, both)
            &&& tells(
                found,
                "rundll32_proxy_execution"@,
                18,
                config.sensitivity,
                "rundll32_proxy_execution"@,
                "defense-evasion"@,
                "T1218.011"@,
            )
            &&& sure(
                found,
                "rundll32_proxy_execution"@,
                pattern_confidence((18 * config.sensitivity) as u64),
            )
        }),
{
    reveal(only);
    lemma_pattern_marks();
    lemma_rule_marks(config.sensitivity);
    lemma_other_marks();
    let s = config.sensitivity;
    let factor = "rundll32_proxy_execution"@;
    let x = scored(
        factor,
        18,
        s,
        "Rundll32 signed binary proxy execution"@,
        "defense-evasion"@,
        "T1218.011"@,
    );
    assert(ENTERPRISE_RULES@[13].0@ == factor);
    assert(x == rule_finding(13, s));
    lemma_process_only(config, b, proc, timestamp, factor, -1, 13, x);
}

/// A process whose name and command line, in lower case, say that it runs a script
/// through a signed program, where none of the others comes first is found, and no
/// other.
pub proof fn law_scripts_run_by_others_are_found(
    config: BehavioralConfig,
    b: SystemModel,
    proc: ProcessEvent,
    timestamp: u64,
)
    ensures
        ({
            let found = process_findings(config, b, proc, timestamp);
            let name = lowercase(proc.name@);
            let cmdline = lowercase(proc.cmdline@);
            let both = name + " "@ + cmdline;
            &&& finds(found, "mshta_proxy_execution"@) <==> occurs("mshta.exe"@, both)
                && !occurs("rundll32.exe"@, both)
                && !occurs("regsvr32.exe"@, both)
            &&& tells(
                found,
                "mshta_proxy_execution"@,
                18,
                config.sensitivity,
                "mshta_proxy_execution"@,
                "defense-evasion"@,
                "T1218.005"@,
            )
            &&& sure(
                found,
                "mshta_proxy_execution"@,
                pattern_confidence((18 * config.sensitivity) as u64),
            )
        }),
{
    reveal(only);
    lemma_pattern_marks();
    lemma_rule_marks(config.sensitivity);
    lemma_other_marks();
    let s = config.sensitivity;
    let factor = "mshta_proxy_execution"@;
    let x = scored(
        factor,
        18,
        s,
        "Mshta signed binary proxy execution"@,
        "defense-evasion"@,
        "T1218.005"@,
    );
    assert(ENTERPRISE_RULES@[14].0@ == factor);
    assert(x == rule_finding(14, s));
    lemma_process_only(config, b, proc, timestamp, factor, -1, 14, x);
}

/// A process whose name and command line, in lower case, say that it decodes or
/// transfers through a signed program, where none of the others comes first is
/// found, and no other.
pub proof fn law_decoding_by_certificate_tools_is_found(
    config: BehavioralConfig,
    b: SystemModel,
    proc: ProcessEvent,
    timestamp: u64,
)
    ensures
        ({
            let found = process_findings(config, b, proc, timestamp);
            let name = lowercase(proc.name@);
            let cmdline = lowercase(proc.cmdline@);
            let both = name + " "@ + cmdline;
            &&& finds(found, "certutil_decode_or_transfer"@) <==> occurs("certutil.exe"@, both)
                && !occurs("mshta.exe"@, both)
                && !occurs("rundll32.exe"@, both)
                && !occurs("regsvr32.exe"@, both)
            &&& tells(
                found,
                "certutil_decode_or_transfer"@,
                18,
                config.sensitivity,
                "certutil_decode_or_transfer"@,
                "defense-evasion"@,
                "T1140"@,
            )
            &&& sure(
                found,
                "certutil_decode_or_transfer"@,
                pattern_confidence((18 * config.sensitivity) as u64),
            )
        }),
{
    reveal(only);
    lemma_pattern_marks();
    lemma_rule_marks(config.sensitivity);
    lemma_other_marks();
    let s = config.sensitivity;
    let factor = "certutil_decode_or_transfer"@;
    let x = scored(
        factor,
        18,
        s,
        "Certutil encode/decode or transfer behavior"@,
        "defense-evasion"@,
        "T1140"@,
    );
    assert(ENTERPRISE_RULES@[15].0@ == factor);
    assert(x == rule_finding(15, s));
    lemma_process_only(config, b, proc, timestamp, factor, -1, 15, x);
}

/// A process whose name and command line, in lower case, say that it asks for or
/// changes the settings of the system's own protection is found, and no other.
pub proof fn law_probes_of_the_protection_are_found(
    config: BehavioralConfig,
    b: SystemModel,
    proc: ProcessEvent,
    timestamp: u64,
)
    ensures
        ({
            let found = process_findings(config, b, proc, timestamp);
            let name = lowercase(proc.name@);
            let cmdline = lowercase(proc.cmdline@);
            let both = name + " "@ + cmdline;
            &&& finds(found, "tamper_defense_evasion_probe"@) <==> any_occurs(
                seq!["get-mppreference", "set-mppreference", "vssadmin.exe", "delete shadows"],
                both,
            )
            &&& tells(
                found,
                "tamper_defense_evasion_probe"@,
                18,
                config.sensitivity,
                "tamper_defense_evasion_probe"@,
                "defense-evasion"@,
                "T1562.001"@,
            )
            &&& sure(
                found,
                "tamper_defense_evasion_probe"@,
                pattern_confidence((18 * config.sensitivity) as u64),
            )
        }),
{
    reveal(only);
    lemma_pattern_marks();
    lemma_rule_marks(config.sensitivity);
    lemma_other_marks();
    let s = config.sensitivity;
    let factor = "tamper_defense_evasion_probe"@;
    let x = scored(
        factor,
        18,
        s,
        "Security-tool or recovery configuration probe observed"@,
        "defense-evasion"@,
        "T1562.001"@,
    );
    assert(PROTECTION_PROBES@ =~= seq![
        "get-mppreference",
        "set-mppreference",
        "vssadmin.exe",
        "delete shadows",
    ]);
    assert(ENTERPRISE_RULES@[16].0@ == factor);
    assert(x == rule_finding(16, s));
    lemma_process_only(config, b, proc, timestamp, factor, -1, 16, x);
}

spec fn listed(fs: Seq<Option<FindingModel>>, n: nat) -> Seq<FindingModel>
    decreases n,
{
    if n == 0 {
        Seq::empty()
    } else {
        listed(fs, (n - 1) as nat) + at_most_one(fs[n - 1])
    }
}

proof fn lemma_listed_only(
    fs: Seq<Option<FindingModel>>,
    n: nat,
    factor: Seq<char>,
    j: int,
    x: FindingModel,
)
    requires
        n <= fs.len(),
        forall|i: int|
            0 <= i < n && (#[trigger] fs[i]) is Some ==> (fs[i]->0.factor == factor <==> i == j),
        0 <= j < n && fs[j] is Some ==> x == fs[j]->0,
    ensures
        only(listed(fs, n), factor, 0 <= j < n && fs[j] is Some, x),
    decreases n,
{
    if n == 0 {
        reveal(only);
    } else {
        lemma_listed_only(fs, (n - 1) as nat, factor, j, x);
        let f = fs[n - 1];
        lemma_only_one(f, factor, x);
        lemma_only_both(
            listed(fs, (n - 1) as nat),
            at_most_one(f),
            factor,
            0 <= j < n - 1 && fs[j] is Some,
            f is Some && f->0.factor == factor,
            x,
        );
    }
}

proof fn lemma_network_list(config: BehavioralConfig, b: SystemModel, net: NetworkEvent)
    ensures
        ({
            let s = config.sensitivity;
            network_findings(config, b, net) == listed(
                seq![
                    rare_check(b, net, s),
                    destination_check(b, net, s),
                    network_rate_check(b, net, config.zscore_threshold, s),
                    program_check(7, "rundll32"@, 600_000, net.process_name@, s),
                    program_check(8, "regsvr32"@, 700_000, net.process_name@, s),
                ],
                5,
            )
        }),
{
    let s = config.sensitivity;
    let fs = seq![
        rare_check(b, net, s),
        destination_check(b, net, s),
        network_rate_check(b, net, config.zscore_threshold, s),
        program_check(7, "rundll32"@, 600_000, net.process_name@, s),
        program_check(8, "regsvr32"@, 700_000, net.process_name@, s),
    ];
    reveal_with_fuel(listed, 6);
    assert(listed(fs, 1) =~= at_most_one(fs[0]));
}

proof fn lemma_network_marks()
    ensures
        mark("rare_destination"@) == 2148,
        mark("new_destination"@) == 2021,
        mark("network_rate_anomaly"@) == 2674,
        pattern(7).name == "rundll32_network"@,
        pattern(8).name == "regsvr32_network"@,
        mark("rundll32_network"@) == 2156,
        mark("regsvr32_network"@) == 2162,
        pattern(7).score == 15,
        pattern(8).score == 20,
        pattern(7).tactic == "defense-evasion"@,
        pattern(8).tactic == "defense-evasion"@,
        pattern(7).technique == "T1218.011"@,
        pattern(8).technique == "T1218.010"@,
{
    reveal_strlit("rare_destination");
    reveal_strlit("new_destination");
    reveal_strlit("network_rate_anomaly");
    reveal_strlit("rundll32_network");
    reveal_strlit("regsvr32_network");
    assert(PATTERN_TEXTS@[7].0@ == "rundll32_network"@);
    assert(PATTERN_TEXTS@[8].0@ == "regsvr32_network"@);
}

/// A connection is found, and no other, where its destination was seen on the machine
/// less often than the usual ones; where the process was seen at least fifty times and
/// never connected there; where it was, and the number of its connections stands farther
/// from their mean than the threshold, on either side; and where the process is one that
/// runs libraries for others and has no business on the network.
pub proof fn law_what_is_found_in_a_connection(
    config: BehavioralConfig,
    b: SystemModel,
    net: NetworkEvent,
)
    ensures
        ({
            let found = network_findings(config, b, net);
            let s = config.sensitivity;
            let name = lowercase(net.process_name@);
            let to = lowercase(net.remote_ip@ + ":"@ + decimal(net.remote_port as nat));
            let known = b.processes.contains_key(name) && b.processes[name].observations >= 50;
            let z = count_score(b.processes[name].network_rate.values);
            &&& finds(found, "rare_destination"@) <==> !(b.destinations.contains_key(to)
                && b.destinations[to] >= b.rare_below)
            &&& finds(found, "new_destination"@) <==> known
                && !b.processes[name].destinations.contains(to)
            &&& finds(found, "network_rate_anomaly"@) <==> known && (z > config.zscore_threshold
                || z < -config.zscore_threshold)
            &&& finds(found, "rundll32_network"@) <==> occurs("rundll32"@, name)
            &&& finds(found, "regsvr32_network"@) <==> occurs("regsvr32"@, name)
            &&& tells(
                found,
                "rare_destination"@,
                10,
                s,
                "rare_network_destination"@,
                "command-and-control"@,
                "T1071"@,
            )
            &&& tells(
                found,
                "new_destination"@,
                8,
                s,
                "baseline_deviation_network"@,
                "command-and-control"@,
                "T1071"@,
            )
            &&& tells(
                found,
                "network_rate_anomaly"@,
                12,
                s,
                "network_rate_anomaly"@,
                "command-and-control"@,
                "T1071"@,
            )
            &&& tells(
                found,
                "rundll32_network"@,
                15,
                s,
                "rundll32_network"@,
                "defense-evasion"@,
                "T1218.011"@,
            )
            &&& tells(
                found,
                "regsvr32_network"@,
                20,
                s,
                "regsvr32_network"@,
                "defense-evasion"@,
                "T1218.010"@,
            )
            &&& sure(found, "rare_destination"@, 500_000)
            &&& sure(found, "new_destination"@, 500_000)
            &&& sure(found, "network_rate_anomaly"@, 600_000)
            &&& sure(found, "rundll32_network"@, 600_000)
            &&& sure(found, "regsvr32_network"@, 700_000)
        }),
{
    reveal(only);
    lemma_network_list(config, b, net);
    lemma_network_marks();
    let s = config.sensitivity;
    let fs = seq![
        rare_check(b, net, s),
        destination_check(b, net, s),
        network_rate_check(b, net, config.zscore_threshold, s),
        program_check(7, "rundll32"@, 600_000, net.process_name@, s),
        program_check(8, "regsvr32"@, 700_000, net.process_name@, s),
    ];
    lemma_listed_only(fs, 5, "rare_destination"@, 0, fs[0]->0);
    lemma_listed_only(fs, 5, "new_destination"@, 1, fs[1]->0);
    lemma_listed_only(fs, 5, "network_rate_anomaly"@, 2, fs[2]->0);
    lemma_listed_only(fs, 5, "rundll32_network"@, 3, fs[3]->0);
    lemma_listed_only(fs, 5, "regsvr32_network"@, 4, fs[4]->0);
}

/// An operation on a file is found, and no other, where the process changes contents
/// as if it encrypted them: more than twenty files, of more than three kinds, more than
/// ten to contents that look encrypted; where the process was seen at least fifty times
/// and never used a directory that this one begins with; and where it was, and the number
/// of its operations stands farther above their mean than the threshold.
pub proof fn law_what_is_found_in_an_operation_on_a_file(
    config: BehavioralConfig,
    b: SystemModel,
    p: EncryptionModel,
    file: FileEvent,
    directory: Option<Seq<char>>,
)
    ensures
        ({
            let found = file_findings(config, b, p, file, directory);
            let s = config.sensitivity;
            let name = lowercase(file.process_name@);
            let known = b.processes.contains_key(name) && b.processes[name].observations >= 50;
            let z = count_score(b.processes[name].file_rate.values);
            &&& finds(found, "ransomware_behavior"@) <==> (file.operation@ == "modify"@
                || file.operation@ == "write"@) && p.modified > 20 && p.high_entropy > 10
                && p.extensions.len() > 3
            &&& finds(found, "unusual_file_access"@) <==> known && directory is Some && !(exists|
                d: Seq<char>,
            |
                b.processes[name].directories.contains(d) && #[trigger] begins(
                    lowercase(directory->0),
                    d,
                ))
            &&& finds(found, "file_rate_anomaly"@) <==> known && z > config.zscore_threshold
            &&& tells(
                found,
                "unusual_file_access"@,
                8,
                s,
                "baseline_deviation_file"@,
                "collection"@,
                "T1005"@,
            )
            &&& tells(
                found,
                "file_rate_anomaly"@,
                15,
                s,
                "file_rate_anomaly"@,
                "impact"@,
                "T1486"@,
            )
            &&& sure(found, "ransomware_behavior"@, 900_000)
            &&& sure(found, "unusual_file_access"@, 500_000)
            &&& sure(found, "file_rate_anomaly"@, 700_000)
            &&& forall|k: int|
                0 <= k < found.len() && (#[trigger] found[k]).factor == "ransomware_behavior"@ ==> {
                    &&& found[k].score == 40 * s
                    &&& found[k].detection.detection_type == DetectionType::Ransomware
                    &&& found[k].detection.rule_name == "mass_file_encryption"@
                    &&& found[k].detection.mitre_techniques == seq!["T1486"@]
                }
        }),
{
    reveal(only);
    reveal_strlit("ransomware_behavior");
    reveal_strlit("unusual_file_access");
    reveal_strlit("file_rate_anomaly");
    assert("ransomware_behavior"@[0] != "unusual_file_access"@[0]);
    let s = config.sensitivity;
    let fs = seq![
        encryption_check(p, file, s),
        directory_check(b, file, directory, s),
        file_rate_check(b, file, config.zscore_threshold, s),
    ];
    assert(file_findings(config, b, p, file, directory) == listed(fs, 3)) by {
        reveal_with_fuel(listed, 4);
        assert(listed(fs, 1) =~= at_most_one(fs[0]));
    }
    lemma_listed_only(fs, 3, "ransomware_behavior"@, 0, fs[0]->0);
    lemma_listed_only(fs, 3, "unusual_file_access"@, 1, fs[1]->0);
    lemma_listed_only(fs, 3, "file_rate_anomaly"@, 2, fs[2]->0);
    if directory is Some {
        let known = b.processes[lowercase(file.process_name@)].directories;
        assert(begins_with_known(lowercase(directory->0), known) == (exists|d: Seq<char>|
            known.contains(d) && #[trigger] begins(lowercase(directory->0), d)));
    }
}

/// What is counted of the operations of a process on files: those within five minutes of
/// the first that change contents count, with the ending of the file and whether the
/// contents look encrypted; after five minutes counting starts over.
pub proof fn law_operations_are_counted(
    before: Option<EncryptionModel>,
    file: FileEvent,
    extension: Option<Seq<char>>,
    timestamp: u64,
)
    ensures
        ({
            let after = after_operation(before, file, extension, timestamp);
            let goes_on = before is Some && timestamp - before->0.window_start <= 300_000;
            let modified: u64 = if goes_on {
                before->0.modified
            } else {
                0
            };
            let high: u64 = if goes_on {
                before->0.high_entropy
            } else {
                0
            };
            let changes = file.operation@ == "modify"@ || file.operation@ == "write"@;
            &&& after.window_start == if goes_on {
                before->0.window_start
            } else {
                timestamp
            }
            &&& modified < u64::MAX ==> after.modified == modified + if changes {
                1int
            } else {
                0
            }
            &&& high < u64::MAX ==> after.high_entropy == high + if changes && file.entropy
                > 7_500_000 {
                1int
            } else {
                0
            }
            &&& forall|e: Seq<char>| #[trigger]
                after.extensions.contains(e) <==> (goes_on && before->0.extensions.contains(e)) || (
                changes && extension == Some(e))
        }),
{
}

/// What was counted of the first `n` of some operations on files, with the endings of
/// the files, from nothing.
pub open spec fn counted_after(
    files: Seq<FileEvent>,
    extensions: Seq<Option<Seq<char>>>,
    times: Seq<u64>,
    n: nat,
) -> Option<EncryptionModel>
    decreases n,
{
    if n == 0 {
        None
    } else {
        Some(
            after_operation(
                counted_after(files, extensions, times, (n - 1) as nat),
                files[n - 1],
                extensions[n - 1],
                times[n - 1],
            ),
        )
    }
}

spec fn below(picked: Seq<int>, n: int) -> int
    decreases picked.len(),
{
    if picked.len() == 0 {
        0
    } else {
        below(picked.drop_last(), n) + if picked.last() < n {
            1int
        } else {
            0
        }
    }
}

proof fn lemma_below(picked: Seq<int>, n: int)
    requires
        forall|i: int, j: int| 0 <= i < j < picked.len() ==> #[trigger] picked[i] < #[trigger] picked[j],
    ensures
        below(picked, n + 1) == below(picked, n) + if picked.contains(n) {
            1int
        } else {
            0
        },
        0 <= below(picked, n) <= picked.len(),
        (forall|i: int| 0 <= i < picked.len() ==> #[trigger] picked[i] >= n) ==> below(picked, n)
            == 0,
        (forall|i: int| 0 <= i < picked.len() ==> #[trigger] picked[i] < n) ==> below(picked, n)
            == picked.len(),
    decreases picked.len(),
{
    if picked.len() > 0 {
        let rest = picked.drop_last();
        assert(forall|i: int| 0 <= i < rest.len() ==> #[trigger] rest[i] == picked[i]);
        lemma_below(rest, n);
        if picked.last() == n {
            assert(picked[picked.len() - 1] == n);
            assert(!rest.contains(n)) by {
                if rest.contains(n) {
                    let k = choose|k: int| 0 <= k < rest.len() && rest[k] == n;
                    assert(picked[k] < picked[picked.len() - 1]);
                }
            }
        } else {
            assert(rest.contains(n) <==> picked.contains(n)) by {
                if picked.contains(n) {
                    let k = choose|k: int| 0 <= k < picked.len() && picked[k] == n;
                    assert(rest[k] == n);
                }
                if rest.contains(n) {
                    let k = choose|k: int| 0 <= k < rest.len() && rest[k] == n;
                    assert(picked[k] == n);
                }
            }
        }
    }
}

proof fn lemma_counted(
    files: Seq<FileEvent>,
    extensions: Seq<Option<Seq<char>>>,
    times: Seq<u64>,
    high: Seq<int>,
    n: nat,
)
    requires
        0 < n <= files.len(),
        files.len() == extensions.len(),
        files.len() == times.len(),
        files.len() < u64::MAX,
        forall|i: int|
            0 <= i < files.len() ==> ((#[trigger] files[i]).operation@ == "modify"@
                || files[i].operation@ == "write"@),
        forall|i: int| 0 <= i < files.len() ==> #[trigger] times[i] - times[0] <= 300_000,
        forall|i: int, j: int| 0 <= i < j < high.len() ==> #[trigger] high[i] < #[trigger] high[j],
        forall|i: int|
            0 <= i < high.len() ==> 0 <= #[trigger] high[i] < files.len()
                && files[high[i]].entropy > 7_500_000,
    ensures
        counted_after(files, extensions, times, n) matches Some(p) && {
            &&& p.window_start == times[0]
            &&& p.modified == n
            &&& below(high, n as int) <= p.high_entropy <= n
            &&& p.extensions.finite()
            &&& forall|i: int|
                0 <= i < n && (#[trigger] extensions[i]) is Some ==> p.extensions.contains(
                    extensions[i]->0,
                )
        },
    decreases n,
{
    let m = (n - 1) as nat;
    let before = counted_after(files, extensions, times, m);
    assert(files[m as int].operation@ == "modify"@ || files[m as int].operation@ == "write"@);
    lemma_below(high, m as int);
    if high.contains(m as int) {
        let k = choose|k: int| 0 <= k < high.len() && high[k] == m as int;
        assert(files[high[k]].entropy > 7_500_000);
    }
    if m > 0 {
        lemma_counted(files, extensions, times, high, m);
        assert(times[m as int] - times[0] <= 300_000);
    } else {
        assert(forall|i: int| 0 <= i < high.len() ==> #[trigger] high[i] >= 0);
        assert(below(high, 0) == 0);
    }
}

/// A process that changes more than twenty files within five minutes, more than ten of
/// them to contents that look encrypted and with at least four different endings, is
/// taken for one that encrypts them.
pub proof fn law_mass_encryption_is_found(
    config: BehavioralConfig,
    b: SystemModel,
    files: Seq<FileEvent>,
    extensions: Seq<Option<Seq<char>>>,
    times: Seq<u64>,
    directory: Option<Seq<char>>,
    high: Seq<int>,
    kinds: Seq<int>,
)
    requires
        20 < files.len() < u64::MAX,
        files.len() == extensions.len(),
        files.len() == times.len(),
        forall|i: int|
            0 <= i < files.len() ==> ((#[trigger] files[i]).operation@ == "modify"@
                || files[i].operation@ == "write"@),
        forall|i: int| 0 <= i < files.len() ==> #[trigger] times[i] - times[0] <= 300_000,
        high.len() > 10,
        forall|i: int, j: int| 0 <= i < j < high.len() ==> #[trigger] high[i] < #[trigger] high[j],
        forall|i: int|
            0 <= i < high.len() ==> 0 <= #[trigger] high[i] < files.len()
                && files[high[i]].entropy > 7_500_000,
        kinds.len() > 3,
        forall|i: int|
            0 <= i < kinds.len() ==> 0 <= #[trigger] kinds[i] < files.len()
                && extensions[kinds[i]] is Some,
        forall|i: int, j: int|
            0 <= i < j < kinds.len() ==> extensions[#[trigger] kinds[i]]
                != extensions[#[trigger] kinds[j]],
    ensures
        ({
            let n = files.len();
            let p = counted_after(files, extensions, times, n)->0;
            finds(
                file_findings(config, b, p, files[n - 1], directory),
                "ransomware_behavior"@,
            )
        }),
{
    let n = files.len();
    lemma_counted(files, extensions, times, high, n);
    lemma_below(high, n as int);
    let p = counted_after(files, extensions, times, n)->0;
    let named = Seq::new(kinds.len(), |k: int| extensions[kinds[k]]->0);
    assert(named.no_duplicates()) by {
        assert forall|i: int, j: int| 0 <= i < j < named.len() implies named[i] != named[j] by {
            assert(extensions[kinds[i]] != extensions[kinds[j]]);
            assert(extensions[kinds[i]] is Some && extensions[kinds[j]] is Some);
        }
    }
    named.unique_seq_to_set();
    assert(named.to_set().subset_of(p.extensions)) by {
        assert forall|e: Seq<char>| named.to_set().contains(e) implies p.extensions.contains(e) by {
            let k = choose|k: int| 0 <= k < named.len() && named[k] == e;
            assert(extensions[kinds[k]] is Some);
        }
    }
    vstd::set_lib::lemma_len_subset(named.to_set(), p.extensions);
    assert(files[n - 1].operation@ == "modify"@ || files[n - 1].operation@ == "write"@);
    law_what_is_found_in_an_operation_on_a_file(config, b, p, files[n - 1], directory);
}

/// A change of the registry is found, and no other, where its key starts programs, where
/// it is one of the system's protection, and where the process was seen at least fifty
/// times and never used keys that this one begins with.
pub proof fn law_what_is_found_in_the_registry(
    config: BehavioralConfig,
    b: SystemModel,
    reg: RegistryEvent,
)
    ensures
        ({
            let found = registry_findings(config, b, reg);
            let s = config.sensitivity;
            let key = lowercase(reg.key_path@);
            let name = lowercase(reg.process_name@);
            &&& finds(found, "persistence_registry"@) <==> any_occurs(
                seq![
                    "software\\microsoft\\windows\\currentversion\\run",
                    "software\\microsoft\\windows\\currentversion\\runonce",
                    "software\\microsoft\\windows nt\\currentversion\\winlogon",
                    "system\\currentcontrolset\\services",
                    "software\\microsoft\\windows\\currentversion\\explorer\\shell folders",
                ],
                key,
            )
            &&& finds(found, "security_registry"@) <==> any_occurs(
                seq![
                    "software\\microsoft\\windows defender",
                    "software\\policies\\microsoft\\windows defender",
                    "system\\currentcontrolset\\services\\winsock",
                    "software\\microsoft\\windows\\currentversion\\policies\\system",
                ],
                key,
            )
            &&& finds(found, "unusual_registry"@) <==> b.processes.contains_key(name)
                && b.processes[name].observations >= 50 && !(exists|k: Seq<char>|
                b.processes[name].registry_keys.contains(k) && #[trigger] begins(key, k))
            &&& tells(
                found,
                "persistence_registry"@,
                20,
                s,
                "persistence_registry"@,
                "persistence"@,
                "T1547.001"@,
            )
            &&& tells(
                found,
                "security_registry"@,
                25,
                s,
                "security_registry_modification"@,
                "defense-evasion"@,
                "T1562.001"@,
            )
            &&& tells(
                found,
                "unusual_registry"@,
                10,
                s,
                "baseline_deviation_registry"@,
                "defense-evasion"@,
                "T1112"@,
            )
            &&& sure(found, "persistence_registry"@, 700_000)
            &&& sure(found, "security_registry"@, 800_000)
            &&& sure(found, "unusual_registry"@, 500_000)
        }),
{
    reveal(only);
    reveal_strlit("persistence_registry");
    reveal_strlit("security_registry");
    reveal_strlit("unusual_registry");
    assert("persistence_registry"@.len() == 20 && "security_registry"@.len() == 17);
    assert("unusual_registry"@.len() == 16);
    assert(PERSISTENCE_KEYS@ =~= seq![
        "software\\microsoft\\windows\\currentversion\\run",
        "software\\microsoft\\windows\\currentversion\\runonce",
        "software\\microsoft\\windows nt\\currentversion\\winlogon",
        "system\\currentcontrolset\\services",
        "software\\microsoft\\windows\\currentversion\\explorer\\shell folders",
    ]);
    assert(SECURITY_KEYS@ =~= seq![
        "software\\microsoft\\windows defender",
        "software\\policies\\microsoft\\windows defender",
        "system\\currentcontrolset\\services\\winsock",
        "software\\microsoft\\windows\\currentversion\\policies\\system",
    ]);
    let s = config.sensitivity;
    let key = lowercase(reg.key_path@);
    let f1 = if any_occurs(PERSISTENCE_KEYS@, key) {
        Some(
            seen(
                "persistence_registry"@,
                20,
                s,
                "persistence_registry"@,
                700_000,
                "Process '"@ + reg.process_name@ + "' modifying persistence key: "@
                    + reg.key_path@,
                "persistence"@,
                "T1547.001"@,
            ),
        )
    } else {
        None
    };
    let f2 = if any_occurs(SECURITY_KEYS@, key) {
        Some(
            seen(
                "security_registry"@,
                25,
                s,
                "security_registry_modification"@,
                800_000,
                "Process '"@ + reg.process_name@ + "' modifying security-related key: "@
                    + reg.key_path@,
                "defense-evasion"@,
                "T1562.001"@,
            ),
        )
    } else {
        None
    };
    let f3 = if well_known(b, reg.process_name@) && !begins_with_known(
        key,
        b.processes[lowercase(reg.process_name@)].registry_keys,
    ) {
        Some(
            seen(
                "unusual_registry"@,
                10,
                s,
                "baseline_deviation_registry"@,
                500_000,
                "Process '"@ + reg.process_name@ + "' accessing unusual registry key: "@
                    + reg.key_path@,
                "defense-evasion"@,
                "T1112"@,
            ),
        )
    } else {
        None
    };
    let fs = seq![f1, f2, f3];
    assert(registry_findings(config, b, reg) == listed(fs, 3)) by {
        reveal_with_fuel(listed, 4);
        assert(listed(fs, 1) =~= at_most_one(fs[0]));
    }
    lemma_listed_only(fs, 3, "persistence_registry"@, 0, fs[0]->0);
    lemma_listed_only(fs, 3, "security_registry"@, 1, fs[1]->0);
    lemma_listed_only(fs, 3, "unusual_registry"@, 2, fs[2]->0);
    let known = b.processes[lowercase(reg.process_name@)].registry_keys;
    assert(begins_with_known(key, known) == (exists|k: Seq<char>|
        known.contains(k) && #[trigger] begins(key, k)));
}

/// A lookup of a name is found, and no other, where the name is longer than fifteen bytes,
/// its entropy is above four bits and more than seven in ten of its letters are
/// consonants; and where it ends as attackers like.
pub proof fn law_what_is_found_in_a_lookup(config: BehavioralConfig, dns: DnsEvent, entropy: u32)
    ensures
        ({
            let found = dns_findings(config, dns, entropy);
            let s = config.sensitivity;
            let query = lowercase(dns.query@);
            &&& finds(found, "dga_domain"@) <==> entropy > 4_000_000 && vstd::utf8::encode_utf8(
                query,
            ).len() > 15 && consonants(query, query.len()) * 10 > letters(query, query.len()) * 7
            &&& finds(found, "suspicious_tld"@) <==> any_ends(
                query,
                seq![".tk", ".ml", ".ga", ".cf", ".gq", ".top", ".xyz", ".work", ".click"],
            )
            &&& tells(
                found,
                "dga_domain"@,
                15,
                s,
                "potential_dga_domain"@,
                "command-and-control"@,
                "T1568.002"@,
            )
            &&& tells(
                found,
                "suspicious_tld"@,
                8,
                s,
                "suspicious_tld"@,
                "command-and-control"@,
                "T1071.004"@,
            )
            &&& sure(found, "dga_domain"@, 700_000)
            &&& sure(found, "suspicious_tld"@, 500_000)
        }),
{
    reveal(only);
    reveal_strlit("dga_domain");
    reveal_strlit("suspicious_tld");
    assert(SUSPICIOUS_TLDS@ =~= seq![
        ".tk",
        ".ml",
        ".ga",
        ".cf",
        ".gq",
        ".top",
        ".xyz",
        ".work",
        ".click",
    ]);
    let s = config.sensitivity;
    let query = lowercase(dns.query@);
    let f1 = if looks_generated(query, entropy) {
        Some(
            seen(
                "dga_domain"@,
                15,
                s,
                "potential_dga_domain"@,
                700_000,
                "Potential DGA domain queried by '"@ + dns.process_name@ + "': "@ + dns.query@
                    + " (entropy: "@ + hundredths(rounded(entropy as nat, 10_000)) + ")"@,
                "command-and-control"@,
                "T1568.002"@,
            ),
        )
    } else {
        None
    };
    let f2 = if any_ends(query, SUSPICIOUS_TLDS@) {
        Some(
            seen(
                "suspicious_tld"@,
                8,
                s,
                "suspicious_tld"@,
                500_000,
                "Query to suspicious TLD by '"@ + dns.process_name@ + "': "@ + dns.query@,
                "command-and-control"@,
                "T1071.004"@,
            ),
        )
    } else {
        None
    };
    let fs = seq![f1, f2];
    assert(dns_findings(config, dns, entropy) == listed(fs, 2)) by {
        reveal_with_fuel(listed, 3);
        assert(listed(fs, 1) =~= at_most_one(fs[0]));
    }
    lemma_listed_only(fs, 2, "dga_domain"@, 0, fs[0]->0);
    lemma_listed_only(fs, 2, "suspicious_tld"@, 1, fs[1]->0);
}

/// A name without consonants is never taken for a generated one.
pub proof fn law_names_of_vowels_are_not_generated(domain: Seq<char>, entropy: u32)
    requires
        forall|i: int|
            0 <= i < domain.len() ==> {
                let c = #[trigger] domain[i];
                c == 'a' || c == 'e' || c == 'i' || c == 'o' || c == 'u' || c == 'y' || !('a' <= c
                    <= 'z')
            },
    ensures
        !looks_generated(domain, entropy),
{
    lemma_no_consonants(domain, domain.len());
}

proof fn lemma_no_consonants(text: Seq<char>, n: nat)
    requires
        n <= text.len(),
        forall|i: int|
            0 <= i < text.len() ==> {
                let c = #[trigger] text[i];
                c == 'a' || c == 'e' || c == 'i' || c == 'o' || c == 'u' || c == 'y' || !('a' <= c
                    <= 'z')
            },
    ensures
        consonants(text, n) == 0,
    decreases n,
{
    if n > 0 {
        lemma_no_consonants(text, (n - 1) as nat);
        let c = text[n - 1];
        assert(!consonant(c));
    }
}

/// A long name of high entropy whose letters are all consonants is taken for a generated
/// one.
pub proof fn law_names_of_consonants_are_generated(domain: Seq<char>, entropy: u32)
    requires
        entropy > 4_000_000,
        vstd::utf8::encode_utf8(domain).len() > 15,
        domain.len() > 0,
        forall|i: int|
            0 <= i < domain.len() ==> {
                let c = #[trigger] domain[i];
                'a' <= c <= 'z' && c != 'a' && c != 'e' && c != 'i' && c != 'o' && c != 'u' && c
                    != 'y'
            },
    ensures
        looks_generated(domain, entropy),
{
    lemma_all_consonants(domain, domain.len());
}

proof fn lemma_all_consonants(text: Seq<char>, n: nat)
    requires
        n <= text.len(),
        forall|i: int|
            0 <= i < text.len() ==> {
                let c = #[trigger] text[i];
                'a' <= c <= 'z' && c != 'a' && c != 'e' && c != 'i' && c != 'o' && c != 'u' && c
                    != 'y'
            },
    ensures
        consonants(text, n) == n,
        letters(text, n) == n,
    decreases n,
{
    if n > 0 {
        lemma_all_consonants(text, (n - 1) as nat);
        let c = text[n - 1];
        assert(consonant(c));
    }
}

/// Once learning is over, what is found in an event is reported, in the order in which it
/// is found, and counts for the process that the event is about. The score of a process
/// that starts is reported behind it where it has reached the threshold and rests on
/// something to act on.
pub proof fn law_findings_are_reported(
    config: BehavioralConfig,
    m: AnalyzerModel,
    payload: EventPayload,
    directory: Option<Seq<char>>,
    extension: Option<Seq<char>>,
    entropy: u32,
    timestamp: u64,
    now: u64,
)
    requires
        m.baseline.learning_complete || now >= m.baseline.learning_start
            + config.learning_duration_hours * 3_600_000,
    ensures
        ({
            let after = noted(m, payload, directory, timestamp, config.continuous_learning);
            let found = event_findings(
                config,
                after,
                payload,
                directory,
                extension,
                entropy,
                timestamp,
            );
            let (then, said) = analysis(
                config,
                m,
                payload,
                directory,
                extension,
                entropy,
                timestamp,
                now,
            );
            let key = lowercase(subject(payload));
            let loud = payload is Process && then.risks.contains_key(key) && then.risks[key].score
                >= config.alert_threshold && actionable(
                then.risks[key].factors,
                config.alert_threshold,
            );
            &&& said.len() == found.len() + if loud {
                1int
            } else {
                0
            }
            &&& forall|k: int| 0 <= k < found.len() ==> #[trigger] said[k] == found[k].detection
            &&& loud ==> said.last().rule_name == "behavioral_"@ + "high_risk_score"@
                && said.last().detection_type == DetectionType::Behavioral
            &&& found.len() > 0 ==> then.risks.contains_key(key)
            &&& adds(factors_of(m.risks, key), found, factors_of(then.risks, key))
        }),
{
    let updates = updates_baselines(config, m.baseline, now);
    let after = noted(m, payload, directory, timestamp, updates);
    let found = event_findings(config, after, payload, directory, extension, entropy, timestamp);
    lemma_noted_risks(m.risks, subject(payload), found, now);
    assert(!learning(config, m.baseline, now));
    let then = judged(config, after, payload, directory, extension, entropy, timestamp, now);
    assert(then.0.risks == with_risks(m.risks, subject(payload), found, now));
    lemma_said(config, then.0.risks, payload, found, then.1);
}

proof fn lemma_said(
    config: BehavioralConfig,
    risks: Map<Seq<char>, RiskModel>,
    payload: EventPayload,
    found: Seq<FindingModel>,
    said: Seq<DetectionModel>,
)
    requires
        said == reported(found) + match (if payload is Process {
            score_report(config, risks, subject(payload))
        } else {
            None
        }) {
            Some(d) => seq![d],
            None => Seq::empty(),
        },
    ensures
        ({
            let key = lowercase(subject(payload));
            let loud = payload is Process && risks.contains_key(key) && risks[key].score
                >= config.alert_threshold && actionable(risks[key].factors, config.alert_threshold);
            &&& said.len() == found.len() + if loud {
                1int
            } else {
                0
            }
            &&& forall|k: int| 0 <= k < found.len() ==> #[trigger] said[k] == found[k].detection
            &&& loud ==> said.last().rule_name == "behavioral_"@ + "high_risk_score"@
                && said.last().detection_type == DetectionType::Behavioral
        }),
{
    assert(reported(found).len() == found.len());
}

/// What counts against a process.
pub open spec fn factors_of(risks: Map<Seq<char>, RiskModel>, key: Seq<char>) -> Seq<FactorModel> {
    if risks.contains_key(key) {
        risks[key].factors
    } else {
        Seq::empty()
    }
}

/// Whether each of some findings was added, in order, with its score.
pub open spec fn adds(
    before: Seq<FactorModel>,
    found: Seq<FindingModel>,
    after: Seq<FactorModel>,
) -> bool {
    &&& after.len() == before.len() + found.len()
    &&& forall|i: int| 0 <= i < before.len() ==> #[trigger] after[i] == before[i]
    &&& forall|i: int|
        before.len() <= i < after.len() ==> (#[trigger] after[i]).name == found[i
            - before.len()].factor && after[i].score == found[i - before.len()].score
}

proof fn lemma_noted_risks(
    risks: Map<Seq<char>, RiskModel>,
    process: Seq<char>,
    found: Seq<FindingModel>,
    now: u64,
)
    ensures
        ({
            let key = lowercase(process);
            let then = with_risks(risks, process, found, now);
            &&& then.contains_key(key) <==> risks.contains_key(key) || found.len() > 0
            &&& adds(factors_of(risks, key), found, factors_of(then, key))
        }),
    decreases found.len(),
{
    if found.len() > 0 {
        lemma_noted_risks(risks, process, found.drop_last(), now);
        let key = lowercase(process);
        let before = factors_of(risks, key);
        let middle = factors_of(with_risks(risks, process, found.drop_last(), now), key);
        let then = factors_of(with_risks(risks, process, found, now), key);
        assert(then.drop_last() =~= middle);
        assert forall|i: int| before.len() <= i < then.len() implies (#[trigger] then[i]).name
            == found[i - before.len()].factor && then[i].score == found[i - before.len()].score by {
            if i < middle.len() {
                assert(middle[i] == then[i]);
                assert(found.drop_last()[i - before.len()] == found[i - before.len()]);
            }
        }
        assert forall|i: int| 0 <= i < before.len() implies #[trigger] then[i] == before[i] by {
            assert(middle[i] == then[i]);
        }
    }
}

/// A score rests on something to act on exactly where one of its factors is strong, or
/// two different ones are of the context and those that are not of the time of day make
/// up half the threshold.
pub proof fn law_what_can_be_acted_on(factors: Seq<FactorModel>, alert_threshold: u64)
    ensures
        actionable(factors, alert_threshold) <==> (exists|i: int|
            0 <= i < factors.len() && is_one_of(
                (#[trigger] factors[i]).name,
                seq![
                    "browser_process_spawn",
                    "encoded_command",
                    "lsass_masquerade",
                    "office_shell_spawn",
                    "policy_bypass",
                    "ransomware_behavior",
                    "regsvr32_network",
                    "rundll32_network",
                    "svchost_unusual_parent",
                    "temp_execution",
                    "wmiprvse_spawn",
                ],
            )) || (untimed_score(factors) * 2 >= alert_threshold && exists|i: int, j: int|
            0 <= i < factors.len() && 0 <= j < factors.len() && (#[trigger] factors[i]).name != (
            #[trigger] factors[j]).name && is_one_of(
                factors[i].name,
                seq![
                    "baseline_deviation_child",
                    "file_rate_anomaly",
                    "network_rate_anomaly",
                    "new_destination",
                    "rare_destination",
                ],
            ) && is_one_of(
                factors[j].name,
                seq![
                    "baseline_deviation_child",
                    "file_rate_anomaly",
                    "network_rate_anomaly",
                    "new_destination",
                    "rare_destination",
                ],
            )),
{
    assert(STRONG_SIGNALS@ =~= seq![
        "browser_process_spawn",
        "encoded_command",
        "lsass_masquerade",
        "office_shell_spawn",
        "policy_bypass",
        "ransomware_behavior",
        "regsvr32_network",
        "rundll32_network",
        "svchost_unusual_parent",
        "temp_execution",
        "wmiprvse_spawn",
    ]);
    assert(CONTEXTUAL_SIGNALS@ =~= seq![
        "baseline_deviation_child",
        "file_rate_anomaly",
        "network_rate_anomaly",
        "new_destination",
        "rare_destination",
    ]);
}

/// The time of day adds nothing to what counts for acting, and every other factor adds its
/// score.
pub proof fn law_time_adds_nothing(factors: Seq<FactorModel>, f: FactorModel)
    ensures
        untimed_score(factors.push(f)) == untimed_score(factors) + if f.name == "unusual_time"@ {
            0
        } else {
            f.score as int
        },
{
    assert(factors.push(f).drop_last() =~= factors);
}

/// How sure the report of a score is: half sure at the threshold, certain at the highest
/// score, and surer the higher the score.
pub proof fn law_scores_are_reported_surer_the_higher(low: u64, high: u64, threshold: u64)
    requires
        threshold <= low <= high <= 100_000_000,
        threshold < 100_000_000,
    ensures
        score_confidence(threshold, threshold) == 500_000,
        score_confidence(100_000_000, threshold) == 1_000_000,
        500_000 <= score_confidence(low, threshold) <= score_confidence(high, threshold)
            <= 1_000_000,
{
    let d = 100_000_000 - threshold;
    let a = low - threshold;
    let c = high - threshold;
    assert(0 <= (a * 500_000) / d <= (c * 500_000) / d <= 500_000) by (nonlinear_arith)
        requires
            0 <= a <= c <= d,
            d > 0,
    ;
    assert(0int / d == 0) by (nonlinear_arith)
        requires
            d > 0,
    ;
}

/// A detection by a pattern is surer by one in a hundred for each point of its score, from
/// forty-five in a hundred up to ninety.
pub proof fn law_pattern_confidence_follows_the_score(score: u64)
    ensures
        score >= 45_000_000 ==> pattern_confidence(score) == 900_000,
        score < 45_000_000 ==> 0 <= score - 100 * (pattern_confidence(score) - 450_000) < 100,
{
}

} // verus!
