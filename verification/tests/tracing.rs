use tamandua_analyzers::critical_providers::{
    all_critical_guids, name_from_guid, THREAT_INTEL_GUID,
};
use tamandua_analyzers::etw_tampering::{
    publisher_key_path, AutologgerKey, CriticalSession, EtwSnapshot, EtwTamperingDetector,
    EtwTamperingType, FunctionImage, PublisherKey, RemoteModule,
};

const CLEAN: [u8; 32] = [
    0x4C, 0x8B, 0xDC, 0x49, 0x89, 0x5B, 0x08, 0x49, 0x89, 0x73, 0x10, 0x49, 0x89, 0x7B, 0x18, 0x41,
    0x56, 0x48, 0x83, 0xEC, 0x50, 0x33, 0xC0, 0x4D, 0x8B, 0xF0, 0x8B, 0xF2, 0x48, 0x8B, 0xF9, 0x90,
];

fn function(module: &str, name: &str, bytes: &[u8]) -> FunctionImage {
    FunctionImage {
        module: module.to_string(),
        name: name.to_string(),
        bytes: bytes.to_vec(),
    }
}

fn snapshot(functions: Vec<FunctionImage>) -> EtwSnapshot {
    EtwSnapshot {
        functions,
        registered_guids: all_critical_guids().iter().map(|g| g.to_string()).collect(),
        autologger: None,
        threat_intel: None,
        channels: None,
        security_log: None,
    }
}

fn patched() -> Vec<u8> {
    let mut bytes = CLEAN.to_vec();
    bytes[0] = 0xC3;
    bytes
}

#[test]
fn a_function_that_returns_at_once_is_patched() {
    let detector = EtwTamperingDetector::new();
    let clean = snapshot(vec![function("ntdll.dll", "EtwEventWrite", &CLEAN)]);
    assert!(detector.check_etw_eventwrite(&clean, 5).is_none());
    let bad = snapshot(vec![function("ntdll.dll", "EtwEventWrite", &patched())]);
    let found = detector.check_etw_eventwrite(&bad, 5).unwrap();
    assert_eq!(found.detection_type, EtwTamperingType::FunctionPatch);
    assert_eq!(found.confidence, 950_000);
    assert_eq!(found.timestamp, 5);
    assert_eq!(found.mitre_technique, "T1562.006");
    assert_eq!(found.details.get("function"), Some(&"EtwEventWrite".to_string()));
    assert_eq!(
        found.details.get("first_bytes"),
        Some(&"[C3, 8B, DC, 49, 89, 5B, 08, 49]".to_string())
    );
    assert!(detector.check_etw_eventwrite(&snapshot(vec![]), 5).is_none());
}

#[test]
fn changes_against_the_first_look_are_hooks() {
    let mut detector = EtwTamperingDetector::new();
    let clean = snapshot(vec![function("ntdll.dll", "EtwEventWrite", &CLEAN)]);
    detector.capture_baseline_bytes(&clean);
    assert!(detector.check_eventwrite_hooks(&clean, 1).is_empty());
    let mut other = CLEAN.to_vec();
    other[3] = 0x77;
    let changed = snapshot(vec![function("ntdll.dll", "EtwEventWrite", &other)]);
    let found = detector.check_eventwrite_hooks(&changed, 1);
    assert_eq!(found.len(), 1);
    assert_eq!(found[0].detection_type, EtwTamperingType::EventWriteHook);
    assert_eq!(found[0].description, "EtwEventWrite bytes differ from baseline");
    assert_eq!(
        detector.check_all_function_integrity(&changed).iter().filter(|f| !f.1).count(),
        1
    );
}

#[test]
fn sessions_that_are_off_or_gone() {
    let detector = EtwTamperingDetector::new();
    let mut shown = snapshot(vec![]);
    shown.autologger = Some(AutologgerKey {
        critical: vec![
            CriticalSession::Present(Some(1)),
            CriticalSession::Present(Some(0)),
            CriticalSession::Present(None),
            CriticalSession::Missing,
            CriticalSession::Present(Some(1)),
            CriticalSession::Present(Some(1)),
        ],
        sessions: vec![],
    });
    let found = detector.check_session_manipulation(&shown, 1);
    assert_eq!(found.len(), 2);
    assert_eq!(
        found[0].description,
        "Critical ETW Autologger session 'EventLog-System' is disabled"
    );
    assert_eq!(found[0].confidence, 850_000);
    assert_eq!(
        found[1].description,
        "Critical ETW Autologger session 'DefenderApiLogger' registry key is missing"
    );
    assert_eq!(found[1].confidence, 750_000);
}

#[test]
fn providers_are_looked_up() {
    let detector = EtwTamperingDetector::new();
    let mut shown = snapshot(vec![]);
    assert!(detector.is_provider_registered_in_registry(&shown, THREAT_INTEL_GUID));
    let all = detector.get_critical_provider_status(&shown, 9);
    assert_eq!(all.len(), all_critical_guids().len());
    assert!(all.iter().all(|p| p.is_registered && p.last_check == 9));
    shown.registered_guids.clear();
    assert!(!detector.is_provider_registered_in_registry(&shown, THREAT_INTEL_GUID));
    assert!(detector
        .get_critical_provider_status(&shown, 9)
        .iter()
        .all(|p| !p.is_registered));
    assert_eq!(
        publisher_key_path("{abc}"),
        "SOFTWARE\\Microsoft\\Windows\\CurrentVersion\\WINEVT\\Publishers\\{abc}"
    );
    assert_eq!(publisher_key_path("abc"), publisher_key_path("{abc}"));
    assert_eq!(name_from_guid("nothing"), "Unknown");
}

#[test]
fn reports_sum_up_what_was_found() {
    let mut detector = EtwTamperingDetector::new();
    let mut shown = snapshot(vec![
        function("ntdll.dll", "EtwEventWrite", &patched()),
        function("amsi.dll", "AmsiScanBuffer", &patched()),
    ]);
    shown.threat_intel = Some(PublisherKey {
        enabled: Some(0),
        message_file_name: None,
    });
    let report = detector.deep_scan(&shown, 77);
    assert_eq!(report.timestamp, 77);
    assert!(report.has_critical_issues());
    assert!(report.overall_health < 1_000_000);
    assert!(report.is_threat_intel_compromised());
    assert!(report.unregistered_providers().is_empty());
    assert!(report.compromised_functions().is_empty());
    let highest = report.highest_severity_detection().unwrap();
    assert!(report
        .detections
        .iter()
        .all(|d| d.detection_type.severity() <= highest.detection_type.severity()));
    let by_type = report.detection_count_by_type();
    assert_eq!(
        by_type.iter().map(|t| t.1).sum::<usize>(),
        report.detections.len()
    );
    assert_eq!(detector.get_detections().len(), report.detections.len());
    let before = detector.calculate_overall_health();
    detector.deep_scan(&shown, 78);
    assert!(detector.calculate_overall_health() <= before);
    detector.clear_detections();
    assert_eq!(detector.calculate_overall_health(), 1_000_000);
}

#[test]
fn functions_are_held_against_the_baseline() {
    let intact: Vec<u8> = (1..=32).collect();
    let mut detector = EtwTamperingDetector::new();
    detector.capture_baseline_bytes(&snapshot(vec![
        function("ntdll.dll", "EtwEventWrite", &intact),
        function("ntdll.dll", "NtTraceControl", &intact),
    ]));
    let report = detector.deep_scan(
        &snapshot(vec![
            function("ntdll.dll", "EtwEventWrite", &patched()),
            function("ntdll.dll", "NtTraceControl", &intact),
        ]),
        1,
    );
    assert_eq!(report.function_integrity.len(), 2);
    assert_eq!(report.compromised_functions(), vec!["EtwEventWrite".to_string()]);
}

#[test]
fn other_processes_are_scanned_by_their_modules() {
    let detector = EtwTamperingDetector::new();
    let modules = vec![
        RemoteModule {
            path: "C:\\Windows\\System32\\NTDLL.dll".to_string(),
            event_write: Some(patched()),
            amsi_scan_buffer: None,
        },
        RemoteModule {
            path: "C:\\x.dll".to_string(),
            event_write: Some(patched()),
            amsi_scan_buffer: Some(patched()),
        },
    ];
    let found = detector.scan_process(12, &modules, 3);
    assert_eq!(found.len(), 1);
    assert_eq!(found[0].details.get("pid"), Some(&"12".to_string()));
}

#[test]
fn each_critical_provider_has_a_name_of_its_own() {
    let guids = all_critical_guids();
    let mut names: Vec<String> = vec![];
    for guid in guids {
        let name = name_from_guid(guid).to_string();
        assert_ne!(name, "Unknown");
        assert!(!names.contains(&name));
        assert_eq!(name_from_guid(&guid.to_uppercase()), name);
        names.push(name);
    }
    assert_eq!(names.len(), 10);
}
