use tamandua_analyzers::indirect_syscall::{
    IndirectSyscallAnalyzer, IndirectSyscallTechnique, ProcessSyscallProfile,
};
use tamandua_analyzers::telemetry::Severity;

#[test]
fn test_pattern_detection() {
    let analyzer = IndirectSyscallAnalyzer::new();

    let syscall_stub = vec![0x4C, 0x8B, 0xD1, 0xB8, 0x18, 0x00, 0x00, 0x00, 0x0F, 0x05];

    let detections = analyzer.analyze_memory_region(
        1234,
        0x10000,
        syscall_stub.len() as u64,
        &syscall_stub,
        "test.exe",
    );

    assert!(!detections.is_empty());
    assert!(detections.iter().any(|d| matches!(
        d.technique,
        IndirectSyscallTechnique::SysWhispers2 | IndirectSyscallTechnique::GenericDirect
    )));
}

#[test]
fn test_ssn_extraction() {
    let analyzer = IndirectSyscallAnalyzer::new();

    let stub = vec![0x4C, 0x8B, 0xD1, 0xB8, 0x50, 0x00, 0x00, 0x00, 0x0F, 0x05];

    let ssn = analyzer.extract_ssn_after_pattern(&stub, 0, 3);
    assert_eq!(ssn, Some(0x50));
}

#[test]
fn test_process_profile() {
    let mut profile = ProcessSyscallProfile::new(1234, "test.exe".to_string(), 0);

    for i in 0..100 {
        profile.record_syscall(true, 0x7FFB1234, Some(0x18), i);
    }

    assert_eq!(profile.ntdll_syscalls, 100);
    assert_eq!(profile.non_ntdll_syscalls, 0);
    assert!(profile.anomaly_score < 200_000);

    for i in 0..50 {
        profile.record_syscall(false, 0x10000 + i, Some(0x18), 100 + i);
    }

    assert_eq!(profile.non_ntdll_syscalls, 50);
    assert!(profile.anomaly_score > 200_000);
}

#[test]
fn test_technique_classification() {
    let techniques = [
        IndirectSyscallTechnique::HellsGate,
        IndirectSyscallTechnique::HalosGate,
        IndirectSyscallTechnique::TartarusGate,
        IndirectSyscallTechnique::SysWhispers1,
        IndirectSyscallTechnique::SysWhispers2,
        IndirectSyscallTechnique::SysWhispers3,
        IndirectSyscallTechnique::FreshyCalls,
        IndirectSyscallTechnique::RecycledGate,
        IndirectSyscallTechnique::HwSyscalls,
        IndirectSyscallTechnique::GenericDirect,
        IndirectSyscallTechnique::GenericIndirect,
        IndirectSyscallTechnique::RopSyscall,
        IndirectSyscallTechnique::NtdllScanning,
    ];

    for technique in techniques {
        assert!(!technique.as_str().is_empty());
        assert!(!technique.description().is_empty());
        assert!(matches!(
            technique.severity(),
            Severity::Critical | Severity::High | Severity::Medium
        ));
    }
}
