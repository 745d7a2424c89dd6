use tamandua_analyzers::baseline::SystemBaseline;
use tamandua_analyzers::behavioral::{
    confidence_from_pattern_score, BehavioralAnalyzer, BehavioralConfig,
};
use tamandua_analyzers::risk::RiskScore;
use tamandua_analyzers::telemetry::{
    Detection, DetectionType, DnsEvent, EventPayload, EventType, FileEvent, Metadata,
    NetworkEvent, ProcessEvent, RegistryEvent, Severity, TelemetryEvent,
};

fn analyzer() -> BehavioralAnalyzer {
    let mut baseline = SystemBaseline::starting_at(0);
    baseline.learning_complete = true;
    let mut config = BehavioralConfig::default();
    config.time_analysis_enabled = false;
    BehavioralAnalyzer::with_baseline(config, baseline)
}

fn process(name: &str, path: &str, cmdline: &str, parent: &str) -> ProcessEvent {
    ProcessEvent {
        pid: 10,
        ppid: 9,
        name: name.to_string(),
        path: path.to_string(),
        cmdline: cmdline.to_string(),
        user: "user".to_string(),
        sha256: vec![],
        entropy: 0,
        is_elevated: false,
        parent_name: Some(parent.to_string()),
        parent_path: None,
        is_signed: true,
        signer: None,
        start_time: 0,
        cpu_usage: 0,
        memory_bytes: 0,
        company_name: None,
        file_description: None,
        product_name: None,
        file_version: None,
        environment: None,
    }
}

fn event(payload: EventPayload) -> TelemetryEvent {
    TelemetryEvent {
        event_id: "e".to_string(),
        event_type: EventType::ProcessCreate,
        timestamp: 1_000,
        severity: Severity::Low,
        payload,
        detections: vec![],
        metadata: Metadata::new(),
    }
}

fn names(found: &[Detection]) -> Vec<&str> {
    found.iter().map(|d| d.rule_name.as_str()).collect()
}

fn run(analyzer: &mut BehavioralAnalyzer, payload: EventPayload) -> Vec<Detection> {
    analyzer.analyze(&event(payload), 0, 2_000)
}

#[test]
fn an_office_program_that_starts_a_shell() {
    let mut analyzer = analyzer();
    let found = run(
        &mut analyzer,
        EventPayload::Process(process(
            "powershell.exe",
            "C:\\Windows\\System32\\powershell.exe",
            "powershell -EncodedCommand AAAA",
            "WINWORD.EXE",
        )),
    );
    assert!(names(&found).contains(&"behavioral_office_shell_spawn"));
    let spawn = found
        .iter()
        .find(|d| d.rule_name == "behavioral_office_shell_spawn")
        .unwrap();
    assert_eq!(spawn.confidence, 700_000);
    assert_eq!(spawn.detection_type, DetectionType::Behavioral);
    assert_eq!(spawn.mitre_techniques, vec!["T1204.002"]);
    assert!(analyzer.get_risk_score("PowerShell.EXE").unwrap() >= 25_000_000);
    assert_eq!(analyzer.get_risk_score("other.exe"), None);
    let factors = analyzer.get_risk_factors("powershell.exe");
    assert!(factors.iter().any(|f| f.name == "office_shell_spawn"));
    assert_eq!(analyzer.get_all_risk_scores().len(), 1);
}

#[test]
fn nothing_is_reported_while_learning() {
    let mut config = BehavioralConfig::default();
    config.learning_duration_hours = 24;
    let mut learning = BehavioralAnalyzer::with_baseline(config, SystemBaseline::starting_at(0));
    assert!(learning.is_learning(1_000));
    assert!(!learning.is_learning(24 * 3_600_000));
    let found = run(
        &mut learning,
        EventPayload::Process(process("cmd.exe", "C:\\cmd.exe", "cmd", "winword.exe")),
    );
    assert!(found.is_empty());
    assert_eq!(learning.get_baseline_stats().process_count, 2);
    assert!(!learning.get_baseline_stats().learning_complete);
    learning.complete_learning();
    assert!(!learning.is_learning(1_000));
    learning.approve_baseline("CMD.EXE");
    assert!(learning.baseline.process_baselines.get("cmd.exe").unwrap().approved);
    learning.reset_baselines(77);
    assert_eq!(learning.get_baseline_stats().process_count, 0);
    assert_eq!(learning.get_baseline_stats().learning_start, 77);
    learning.import_baselines(SystemBaseline::starting_at(5));
    assert_eq!(learning.get_baseline_stats().learning_start, 5);
}

#[test]
fn tools_of_an_attack() {
    for (cmdline, rule) in [
        ("tasklist | find lsass.exe", "behavioral_lsass_credential_access_probe"),
        ("findstr /i password *.txt", "behavioral_credential_material_discovery"),
        ("invoke-command -computer x", "behavioral_remote_management_wmi_winrm"),
        ("net use \\\\x\\admin$", "behavioral_lateral_smb_admin_share_probe"),
        ("schtasks /create /tn x", "behavioral_scheduled_task_privilege_persistence"),
        ("sc create x", "behavioral_service_creation_abuse"),
        ("reg query enablelua", "behavioral_privilege_escalation_configuration_probe"),
        ("curl.exe http://x -o y", "behavioral_c2_download_transfer"),
        ("test-netconnection x", "behavioral_c2_beacon_safe_probe"),
        ("curl.exe x & timeout 5 & curl.exe x", "behavioral_c2_beacon_safe_probe"),
        ("tar.exe -cf x.tar", "behavioral_archive_staging"),
        ("exfil now", "behavioral_exfiltration_staging"),
        ("load version.dll", "behavioral_dll_hijack_canary"),
        ("regsvr32.exe x", "behavioral_regsvr32_proxy_execution"),
        ("rundll32.exe x", "behavioral_rundll32_proxy_execution"),
        ("mshta.exe x", "behavioral_mshta_proxy_execution"),
        ("certutil.exe -decode", "behavioral_certutil_decode_or_transfer"),
        ("vssadmin.exe delete", "behavioral_tamper_defense_evasion_probe"),
    ] {
        let found = run(
            &mut analyzer(),
            EventPayload::Process(process("a.exe", "C:\\a.exe", cmdline, "b.exe")),
        );
        assert!(names(&found).contains(&rule), "{}", cmdline);
    }
    let found = run(
        &mut analyzer(),
        EventPayload::Process(process("a.exe", "C:\\a.exe", "a harmless line", "b.exe")),
    );
    assert!(found.is_empty());
}

#[test]
fn rare_destinations_and_odd_connections() {
    let connect = |name: &str| {
        EventPayload::Network(NetworkEvent {
            pid: 1,
            process_name: name.to_string(),
            local_ip: "l".to_string(),
            local_port: 1,
            remote_ip: "198.51.100.9".to_string(),
            remote_port: 443,
            protocol: "tcp".to_string(),
            direction: "out".to_string(),
        })
    };
    let mut analyzer = analyzer();
    let found = run(&mut analyzer, connect("RunDLL32.exe"));
    assert_eq!(
        names(&found),
        vec!["behavioral_rare_network_destination", "behavioral_rundll32_network"]
    );
    assert_eq!(
        found[0].description,
        "Process 'RunDLL32.exe' connected to rare destination: 198.51.100.9:443"
    );
    assert_eq!(found[0].confidence, 500_000);
    for _ in 0..4 {
        run(&mut analyzer, connect("a.exe"));
    }
    assert!(run(&mut analyzer, connect("a.exe")).is_empty());
    assert_eq!(
        names(&run(&mut analyzer, connect("regsvr32.exe"))),
        vec!["behavioral_regsvr32_network"]
    );
}

#[test]
fn mass_encryption_is_ransomware() {
    let mut analyzer = analyzer();
    let mut last = vec![];
    for i in 0..21 {
        last = run(
            &mut analyzer,
            EventPayload::File(FileEvent {
                path: format!("/home/u/f{}.x{}", i, i % 5),
                old_path: None,
                operation: "write".to_string(),
                pid: 3,
                process_name: "enc.exe".to_string(),
                sha256: vec![],
                size: 0,
                entropy: 7_600_000,
                file_type: "".to_string(),
            }),
        );
    }
    assert_eq!(last.len(), 1);
    assert_eq!(last[0].detection_type, DetectionType::Ransomware);
    assert_eq!(last[0].rule_name, "mass_file_encryption");
    assert_eq!(last[0].confidence, 900_000);
    assert_eq!(
        last[0].description,
        "Potential ransomware: enc.exe modified 21 files, 21 high-entropy, 5 extension changes"
    );
}

#[test]
fn keys_that_matter() {
    let write = |key: &str| {
        EventPayload::Registry(RegistryEvent {
            pid: 1,
            process_name: "r.exe".to_string(),
            key_path: key.to_string(),
        })
    };
    let found = run(
        &mut analyzer(),
        write("HKLM\\SOFTWARE\\Microsoft\\Windows\\CurrentVersion\\Run\\x"),
    );
    assert_eq!(names(&found), vec!["behavioral_persistence_registry"]);
    assert_eq!(found[0].confidence, 700_000);
    let found = run(&mut analyzer(), write("HKLM\\Software\\Microsoft\\Windows Defender"));
    assert_eq!(names(&found), vec!["behavioral_security_registry_modification"]);
    assert!(run(&mut analyzer(), write("HKLM\\Software\\Other")).is_empty());
}

#[test]
fn names_that_look_made_up() {
    let ask = |query: &str, entropy: u32| {
        analyzer().analyze(
            &event(EventPayload::Dns(DnsEvent {
                pid: 1,
                process_name: "d.exe".to_string(),
                query: query.to_string(),
            })),
            entropy,
            2_000,
        )
    };
    let found = ask("xkcdnqmzplwrtgbvf.xyz", 4_012_345);
    assert_eq!(
        names(&found),
        vec!["behavioral_potential_dga_domain", "behavioral_suspicious_tld"]
    );
    assert_eq!(
        found[0].description,
        "Potential DGA domain queried by 'd.exe': xkcdnqmzplwrtgbvf.xyz (entropy: 4.01)"
    );
    assert_eq!(names(&ask("xkcdnqmzplwrtgbvf.xyz", 4_000_000)), vec!["behavioral_suspicious_tld"]);
    assert!(ask("example.com", 4_500_000).is_empty());
}

#[test]
fn a_high_score_is_reported_once_there_is_a_strong_sign() {
    let mut analyzer = analyzer();
    let mut score = RiskScore::starting_at("a.exe", 2_000);
    score.add_factor_at("encoded_command", 90_000_000, "x", 2_000);
    analyzer.risk_scores.insert("a.exe".to_string(), score);
    let found = run(
        &mut analyzer,
        EventPayload::Process(process("a.exe", "C:\\a.exe", "a", "b.exe")),
    );
    assert_eq!(names(&found), vec!["behavioral_high_risk_score"]);
    assert_eq!(
        found[0].description,
        "Process 'a.exe' exceeded risk threshold: 90.0 (factors: encoded_command)"
    );
    assert_eq!(found[0].confidence, 900_000);
    analyzer.decay_scores(2_000 + 3_600_000);
    assert!(analyzer.get_risk_score("a.exe").unwrap() < 90_000_000);
}

#[test]
fn signals_of_the_context_need_company() {
    let threshold = 75_000_000;
    let of = |factors: &[(&str, u64)]| {
        let mut score = RiskScore::starting_at("p", 0);
        for (name, points) in factors {
            score.add_factor_at(name, *points, "", 0);
        }
        BehavioralAnalyzer::risk_score_has_actionable_signal(&score, threshold)
    };
    assert!(!of(&[]));
    assert!(!of(&[("rare_destination", 90_000_000)]));
    assert!(!of(&[("rare_destination", 18_000_000), ("new_destination", 19_499_999)]));
    assert!(of(&[("rare_destination", 18_000_000), ("new_destination", 19_500_000)]));
    assert!(!of(&[
        ("rare_destination", 1_000_000),
        ("new_destination", 1_000_000),
        ("unusual_time", 90_000_000)
    ]));
    assert!(of(&[("temp_execution", 1)]));
    assert_eq!(confidence_from_pattern_score(0), 450_000);
    assert_eq!(confidence_from_pattern_score(25_000_000), 700_000);
    assert_eq!(confidence_from_pattern_score(80_000_000), 900_000);
}

#[test]
fn usual_settings() {
    let config = BehavioralConfig::for_system(false);
    assert_eq!(config.learning_duration_hours, 48);
    assert!(config.continuous_learning);
    assert_eq!(config.zscore_threshold, 3_000_000);
    assert_eq!(config.alert_threshold, 50_000_000);
    assert_eq!(config.score_decay_per_hour, 5_000_000);
    assert!(config.time_analysis_enabled);
    assert_eq!(config.baseline_path, "/var/lib/tamandua/baselines.json");
    assert_eq!(config.sensitivity, 1_000_000);
    assert!(!config.export_risk_score);
    assert_eq!(
        BehavioralConfig::for_system(true).baseline_path,
        "C:\\ProgramData\\Tamandua\\baselines.json"
    );
}

#[test]
fn a_finished_baseline_stays_where_learning_does_not_go_on() {
    let start = |pid: u32| {
        let mut started = process("new.exe", "C:\\new.exe", "new", "explorer.exe");
        started.pid = pid;
        EventPayload::Process(started)
    };
    let mut analyzer = analyzer();
    analyzer.config.continuous_learning = false;
    run(&mut analyzer, start(10));
    assert_eq!(analyzer.get_baseline_stats().process_count, 0);
    assert!(analyzer.process_tree.contains_key(&10));
    analyzer.config.continuous_learning = true;
    run(&mut analyzer, start(11));
    assert_eq!(analyzer.get_baseline_stats().process_count, 2);

    let mut config = BehavioralConfig::default();
    config.continuous_learning = false;
    config.learning_duration_hours = 24;
    let mut learning = BehavioralAnalyzer::with_baseline(config, SystemBaseline::starting_at(0));
    run(&mut learning, start(10));
    assert_eq!(learning.get_baseline_stats().process_count, 2);
}

#[test]
fn files_are_known_by_directory_and_counted_by_extension() {
    let mut analyzer = analyzer();
    for path in ["/tmp/a/b.locked", "/tmp/a/c.locked", "/tmp/a/plain", "/tmp/a/d.tar.enc"] {
        run(
            &mut analyzer,
            EventPayload::File(FileEvent {
                path: path.to_string(),
                old_path: None,
                operation: "write".to_string(),
                pid: 3,
                process_name: "enc.exe".to_string(),
                sha256: vec![],
                size: 0,
                entropy: 7_600_000,
                file_type: "".to_string(),
            }),
        );
    }
    let counted = &analyzer.encryption_patterns[&3];
    assert_eq!(counted.extension_changes.len(), 2);
    assert!(counted.extension_changes.contains("locked"));
    assert!(counted.extension_changes.contains("enc"));
    let known = analyzer.baseline.process_baselines.get("enc.exe").unwrap();
    assert_eq!(known.known_file_patterns.len(), 1);
    assert!(known.known_file_patterns.contains("/tmp/a"));
}

#[test]
fn scripts_are_from_temp_only_where_the_path_is() {
    let rule = "behavioral_script_from_temp";
    let start = |path: &str| {
        let mut analyzer = analyzer();
        let found = run(
            &mut analyzer,
            EventPayload::Process(process("powershell.exe", path, "powershell.exe", "explorer.exe")),
        );
        names(&found).contains(&rule)
    };
    assert!(!start("C:\\Windows\\System32\\WindowsPowerShell\\v1.0\\powershell.exe"));
    assert!(!start("C:\\temporary\\powershell.exe"));
    assert!(start("C:\\Windows\\Temp\\powershell.exe"));
    assert!(start("C:\\Users\\u\\AppData\\Local\\Temp\\powershell.exe"));
    assert!(start("/tmp/powershell"));
}

#[test]
fn a_start_is_no_connection() {
    for name in ["rundll32.exe", "regsvr32.exe"] {
        let mut analyzer = analyzer();
        let found = run(
            &mut analyzer,
            EventPayload::Process(process(name, "C:\\Windows\\System32\\x.exe", "x", "explorer.exe")),
        );
        assert!(names(&found).iter().all(|n| !n.ends_with("_network")));
    }
}
