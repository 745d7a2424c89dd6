use tamandua_analyzers::critical_providers::{
    all_critical_guids, name_from_guid, AMSI_GUID, SECURITY_AUDITING_GUID, THREAT_INTEL_GUID,
};
use tamandua_analyzers::etw_tampering::{
    EtwScanReport, EtwTamperingDetector, EtwTamperingType, ProviderState,
};

#[test]
fn test_patch_detection() {
    let detector = EtwTamperingDetector::new();

    assert!(detector.is_patched(&[0xC3, 0x00, 0x00, 0x00, 0x00, 0x00, 0x00, 0x00]));
    assert!(detector.is_patched(&[0x33, 0xC0, 0xC3, 0x00, 0x00, 0x00, 0x00, 0x00]));
    assert!(detector.is_patched(&[0xE9, 0x00, 0x00, 0x00, 0x00, 0x00, 0x00, 0x00]));
    assert!(!detector.is_patched(&[0x4C, 0x8B, 0xDC, 0x49, 0x89, 0x5B, 0x08, 0x49]));
}

#[test]
fn test_nop_sled_detection() {
    let detector = EtwTamperingDetector::new();

    assert!(detector.is_nop_sled(&[0x90, 0x90, 0x90, 0x90, 0x90, 0x90, 0x90, 0x90]));
    assert!(!detector.is_nop_sled(&[0x4C, 0x8B, 0xDC, 0x49, 0x89, 0x5B, 0x08, 0x49]));
}

#[test]
fn test_hook_detection() {
    let detector = EtwTamperingDetector::new();

    assert!(detector.is_hooked(&[
        0xFF, 0x25, 0x00, 0x00, 0x00, 0x00, 0x00, 0x00, 0x00, 0x00, 0x00, 0x00, 0x00, 0x00, 0x00,
        0x00
    ]));
    assert!(detector.is_hooked(&[
        0x48, 0xB8, 0x00, 0x00, 0x00, 0x00, 0x00, 0x00, 0x00, 0x00, 0xFF, 0xE0, 0x00, 0x00, 0x00,
        0x00
    ]));
    assert!(!detector.is_hooked(&[
        0x4C, 0x8B, 0xDC, 0x49, 0x89, 0x5B, 0x08, 0x49, 0x89, 0x73, 0x10, 0x49, 0x89, 0x7B, 0x18,
        0x55
    ]));
}

#[test]
fn test_instrumentation_detection() {
    let detector = EtwTamperingDetector::new();

    assert!(detector.is_instrumented(&[
        0x50, 0x51, 0x52, 0x53, 0x54, 0x55, 0x56, 0x57, 0x00, 0x00, 0x00, 0x00, 0x00, 0x00, 0x00,
        0x00
    ]));
    assert!(detector.is_instrumented(&[
        0x48, 0x89, 0x44, 0x24, 0x08, 0x00, 0x00, 0x00, 0x00, 0x00, 0x00, 0x00, 0x00, 0x00, 0x00,
        0x00
    ]));
    assert!(!detector.is_instrumented(&[
        0x4C, 0x8B, 0xD1, 0xB8, 0x23, 0x00, 0x00, 0x00, 0x0F, 0x05, 0xC3, 0x00, 0x00, 0x00, 0x00,
        0x00
    ]));
}

#[test]
fn test_tampering_type_severity() {
    assert_eq!(
        EtwTamperingType::ThreatIntelProviderDisabled.severity(),
        1_000_000
    );
    assert!(EtwTamperingType::ThreatIntelProviderTargeted.severity() >= 900_000);
    assert!(EtwTamperingType::NotificationCallbackRemoved.severity() >= 900_000);

    assert!(EtwTamperingType::FunctionPatch.severity() >= 850_000);
    assert!(EtwTamperingType::EventWriteHook.severity() >= 850_000);

    assert!(EtwTamperingType::ProviderUnregistered.severity() >= 500_000);
}

#[test]
fn test_tampering_type_mitre_technique() {
    assert_eq!(
        EtwTamperingType::FunctionPatch.mitre_technique(),
        "T1562.006"
    );
    assert_eq!(
        EtwTamperingType::ProviderDisabled.mitre_technique(),
        "T1562.006"
    );
    assert_eq!(
        EtwTamperingType::ThreatIntelProviderDisabled.mitre_technique(),
        "T1562.006"
    );
    assert_eq!(EtwTamperingType::SyscallHook.mitre_technique(), "T1562.006");

    assert_eq!(EtwTamperingType::AmsiBypass.mitre_technique(), "T1562.001");
}

#[test]
fn test_bytes_match() {
    let detector = EtwTamperingDetector::new();

    let bytes1 = vec![0x4C, 0x8B, 0xDC, 0x49, 0x89, 0x5B, 0x08, 0x49];
    let bytes2 = vec![0x4C, 0x8B, 0xDC, 0x49, 0x89, 0x5B, 0x08, 0x49];
    assert!(detector.bytes_match(&bytes1, &bytes2));

    let bytes3 = vec![0xC3, 0x00, 0x00, 0x00, 0x00, 0x00, 0x00, 0x00];
    assert!(!detector.bytes_match(&bytes1, &bytes3));
}

#[test]
fn test_overall_health_calculation() {
    let detector = EtwTamperingDetector::new();

    assert_eq!(detector.calculate_overall_health(), 1_000_000);
}

#[test]
fn test_critical_providers() {
    assert!(!THREAT_INTEL_GUID.is_empty());
    assert!(!SECURITY_AUDITING_GUID.is_empty());
    assert!(!AMSI_GUID.is_empty());

    let all_guids = all_critical_guids();
    assert!(all_guids.len() >= 10);

    let ti_name = name_from_guid(THREAT_INTEL_GUID);
    assert_eq!(ti_name, "Microsoft-Windows-Threat-Intelligence");
}

#[test]
fn test_scan_report_methods() {
    let report = EtwScanReport {
        timestamp: 0,
        detections: vec![],
        provider_status: vec![ProviderState {
            guid: "test-guid".to_string(),
            name: "Test Provider".to_string(),
            is_registered: true,
            handle: None,
            last_check: 0,
        }],
        session_status: vec![],
        function_integrity: vec![],
        overall_health: 1_000_000,
    };

    assert!(!report.has_critical_issues());
    assert!(report.unregistered_providers().is_empty());
    assert!(!report.is_threat_intel_compromised());

    let summary = report.summary();
    assert!(summary.contains("ETW Health: 100%"));
}
