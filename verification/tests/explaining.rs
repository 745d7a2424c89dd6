use tamandua_analyzers::explainer::DetectionExplainer;
use tamandua_analyzers::telemetry::{
    Detection, DetectionType, EventPayload, EventType, FileEvent, Metadata, NetworkEvent,
    ProcessEvent, RegistryEvent, Severity, TelemetryEvent,
};

fn detection(kind: DetectionType, confidence: u32) -> Detection {
    Detection {
        detection_type: kind,
        rule_name: "rule".to_string(),
        confidence,
        description: "what".to_string(),
        mitre_tactics: vec![],
        mitre_techniques: vec![],
    }
}

fn process(name: &str, parent: Option<&str>, path: &str, cmdline: &str) -> ProcessEvent {
    ProcessEvent {
        pid: 42,
        ppid: 1,
        name: name.to_string(),
        path: path.to_string(),
        cmdline: cmdline.to_string(),
        user: "u".to_string(),
        sha256: vec![0xde, 0xad, 0x01],
        entropy: 0,
        is_elevated: false,
        parent_name: parent.map(|p| p.to_string()),
        parent_path: None,
        is_signed: false,
        signer: None,
        start_time: 0,
        cpu_usage: 0,
        memory_bytes: 0,
        company_name: None,
        file_description: None,
        product_name: None,
        file_version: None,
        environment: None,
    }
}

fn event(payload: EventPayload) -> TelemetryEvent {
    TelemetryEvent {
        event_id: "e".to_string(),
        event_type: EventType::ProcessCreate,
        timestamp: 0,
        severity: Severity::High,
        payload,
        detections: vec![],
        metadata: Metadata::new(),
    }
}

fn file(path: &str, entropy: u32) -> EventPayload {
    EventPayload::File(FileEvent {
        path: path.to_string(),
        old_path: None,
        operation: "write".to_string(),
        pid: 3,
        process_name: "p.exe".to_string(),
        sha256: vec![],
        size: 0,
        entropy,
        file_type: "".to_string(),
    })
}

#[test]
fn behaviour_is_explained_by_its_reasons() {
    let explainer = DetectionExplainer::new();
    let event = event(EventPayload::Process(process(
        "PowerShell.exe",
        Some("WINWORD.EXE"),
        "C:\\Users\\u\\AppData\\Local\\Temp\\x.exe",
        "powershell -ENC AAAA -nop",
    )));
    let mut found = detection(DetectionType::Behavioral, 875_000);
    found.mitre_techniques = vec!["T1059".to_string(), "T9999".to_string(), "T1003".to_string()];
    found.mitre_tactics = vec!["TA0002".to_string(), "Execution".to_string()];
    let r = explainer.explain(&event, &found);

    let names: Vec<&str> = r.factors.iter().map(|f| f.factor.as_str()).collect();
    assert_eq!(
        names,
        vec![
            "Suspicious Parent-Child",
            "Encoded Command",
            "Execution Policy Bypass",
            "Temp Execution",
            "Unsigned Binary",
        ]
    );
    assert_eq!(
        r.summary,
        "Process 'PowerShell.exe' (PID: 42) triggered detection 'rule'. Primary factor: \
         Suspicious Parent-Child. Confidence: 88%"
    );
    assert_eq!(
        r.confidence_explanation,
        "High confidence (88%) based on 5 contributing factors with combined weight of 1.30"
    );
    assert_eq!(r.factors[0].evidence[0], "Parent: WINWORD.EXE");
    assert_eq!(
        r.factors[1].evidence[1],
        "Full command: powershell -ENC AAAA -nop"
    );
    assert!(r.factors[2].investigation_hint.is_none());
    assert_eq!(
        r.investigation_steps,
        vec![
            "1. Examine process tree for PID 42 to understand execution context",
            "2. Check for related file and network activity in the same timeframe",
            "3. Search VirusTotal for hash: dead01",
            "4. Investigate parent process: WINWORD.EXE",
            "[T1059] Monitor command-line arguments for obfuscation",
            "[T1059] Check parent process relationships",
            "[T1003] Monitor LSASS access",
            "[T1003] Watch for known credential dumping tools",
        ]
    );
    assert_eq!(r.mitre_context.tactics.len(), 1);
    assert_eq!(r.mitre_context.tactics[0].name, "Execution");
    assert_eq!(r.mitre_context.techniques.len(), 2);
    assert_eq!(r.mitre_context.attack_stage, "Establishment Phase");
    assert_eq!(r.mitre_context.typical_next_steps.len(), 4);
    assert!(r.similar_incidents.is_empty());
}

#[test]
fn usual_children_are_no_deviation() {
    let explainer = DetectionExplainer::new();
    let mut usual = process("CMD.exe", Some("Explorer.EXE"), "C:\\Windows\\System32\\cmd.exe", "cmd");
    usual.is_signed = true;
    usual.signer = Some("Microsoft Windows".to_string());
    let r = explainer.explain(
        &event(EventPayload::Process(usual)),
        &detection(DetectionType::Behavioral, 100_000),
    );
    assert!(r.factors.is_empty());
    assert!(r.summary.contains("Primary factor: Unknown."));
    assert_eq!(
        r.fp_indicators,
        vec![
            "Running from standard system location",
            "Signed by trusted vendor: Microsoft Windows",
        ]
    );
    assert_eq!(
        r.confidence_explanation,
        "Low confidence (10%) based on 0 contributing factors with combined weight of 0.00"
    );

    let odd = process("evil.exe", Some("services.exe"), "C:\\evil.exe", "evil");
    let r = explainer.explain(
        &event(EventPayload::Process(odd)),
        &detection(DetectionType::Behavioral, 500_000),
    );
    assert_eq!(r.factors[0].factor, "Baseline Deviation");
    assert_eq!(
        r.factors[0].evidence,
        vec!["Typical children: [\"svchost.exe\"]"]
    );
    assert!(r.confidence_explanation.starts_with("Medium confidence (50%)"));
}

#[test]
fn long_command_lines_are_cut() {
    let explainer = DetectionExplainer::new();
    let found = detection(DetectionType::Behavioral, 900_000);
    let line = format!("-enc {}", "A".repeat(200));
    let long = event(EventPayload::Process(process("a", None, "p", &line)));
    let r = explainer.explain(&long, &found);
    assert_eq!(
        r.factors[0].evidence[1],
        format!("Full command: {}", &line[..100])
    );
    assert!(explainer.try_explain(&long, &found).is_some());

    let cut_through = format!("-enc {}{}", "A".repeat(94), "ä".repeat(5));
    let bad = event(EventPayload::Process(process("a", None, "p", &cut_through)));
    assert!(explainer.try_explain(&bad, &found).is_none());
    let fine = format!("-enc {}{}", "A".repeat(95), "ä".repeat(5));
    let good = event(EventPayload::Process(process("a", None, "p", &fine)));
    assert!(explainer.try_explain(&good, &found).is_some());
    let not_encoded = format!("{}{}", "A".repeat(99), "ä".repeat(5));
    let other = event(EventPayload::Process(process("a", None, "p", &not_encoded)));
    assert!(explainer.try_explain(&other, &found).is_some());
}

#[test]
fn every_other_kind_has_one_reason() {
    let explainer = DetectionExplainer::new();
    let network = || {
        event(EventPayload::Network(NetworkEvent {
            pid: 9,
            process_name: "n.exe".to_string(),
            local_ip: "l".to_string(),
            local_port: 1,
            remote_ip: "192.0.2.7".to_string(),
            remote_port: 8080,
            protocol: "tcp".to_string(),
            direction: "out".to_string(),
        }))
    };
    let expected = [
        (DetectionType::Yara, "YARA Rule Match", 800_000),
        (DetectionType::Sigma, "Sigma Rule Match", 700_000),
        (DetectionType::Ioc, "Known Indicator Match", 123_000),
        (DetectionType::ThreatIntel, "Known Indicator Match", 123_000),
        (DetectionType::Honeyfile, "Deception Triggered", 950_000),
        (DetectionType::Ransomware, "ransomware_detection", 950_000),
        (DetectionType::Malware, "malware_detection", 900_000),
        (DetectionType::MemoryThreat, "memory_threat", 850_000),
        (DetectionType::DriverThreat, "driver_threat", 900_000),
        (DetectionType::DefenseEvasion, "defenseevasion_detection", 123_000),
        (DetectionType::UsbThreat, "usbthreat_detection", 123_000),
        (DetectionType::WmiPersistence, "wmipersistence_detection", 123_000),
    ];
    for (kind, name, weight) in expected {
        let r = explainer.explain(&network(), &detection(kind, 123_000));
        assert_eq!(r.factors.len(), 1);
        assert_eq!(r.factors[0].factor, name);
        assert_eq!(r.factors[0].contribution, weight);
        assert_eq!(r.factors[0].evidence, vec!["what"]);
        assert!(!r.tp_indicators.is_empty());
        assert_eq!(
            r.summary,
            format!(
                "Network connection to 192.0.2.7:8080 by 'n.exe' triggered detection 'rule'. \
                 Primary factor: {}",
                name
            )
        );
        assert_eq!(r.investigation_steps.len(), 3);
        assert_eq!(
            r.mitre_context.typical_next_steps,
            vec!["Monitor for follow-up suspicious activity"]
        );
        assert_eq!(r.mitre_context.attack_stage, "Unknown Stage");
    }
}

#[test]
fn entropy_is_explained_on_files() {
    let explainer = DetectionExplainer::new();
    let found = detection(DetectionType::Entropy, 950_000);
    let r = explainer.explain(&event(file("/a.zip", 7_954_999)), &found);
    assert_eq!(
        r.factors[0].description,
        "File has entropy of 7.95 bits - indicates encrypted/compressed content"
    );
    assert_eq!(r.tp_indicators.len(), 1);
    assert_eq!(r.fp_indicators.len(), 1);
    assert_eq!(
        r.summary,
        "File operation on '/a.zip' by 'p.exe' triggered detection 'rule'. Primary factor: High \
         Entropy"
    );
    assert!(r.confidence_explanation.starts_with("Very High confidence (95%)"));

    let r = explainer.explain(&event(file("/a.bin", 7_900_000)), &found);
    assert!(r.tp_indicators.is_empty());
    assert!(r.fp_indicators.is_empty());

    let registry = event(EventPayload::Registry(RegistryEvent {
        pid: 1,
        process_name: "p".to_string(),
        key_path: "k".to_string(),
    }));
    let r = explainer.explain(&registry, &found);
    assert!(r.factors.is_empty());
    assert_eq!(
        r.summary,
        "Detection 'rule' triggered. Primary factor: Unknown"
    );
    assert_eq!(r.investigation_steps.len(), 2);
}

#[test]
fn stages_of_an_attack() {
    let explainer = DetectionExplainer::new();
    for (tactic, stage) in [
        ("Initial-Access", "Early Stage - Initial Access"),
        ("persistence", "Establishment Phase"),
        ("CREDENTIAL access", "Escalation Phase"),
        ("privilege", "Escalation Phase"),
        ("Lateral Movement", "Expansion Phase"),
        ("Discovery", "Expansion Phase"),
        ("Exfiltration", "Objective Phase - Data Theft"),
        ("Impact", "Final Phase - Impact"),
        ("TA0001", "Unknown Stage"),
    ] {
        let mut found = detection(DetectionType::Yara, 500_000);
        found.mitre_tactics = vec![tactic.to_string()];
        found.mitre_techniques = vec!["T1055".to_string()];
        let r = explainer.explain(&event(file("/a", 0)), &found);
        assert_eq!(r.mitre_context.attack_stage, stage);
        assert_eq!(r.mitre_context.typical_next_steps.len(), 2);
    }
}
