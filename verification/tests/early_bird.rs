use tamandua_analyzers::early_bird::{
    is_protection_executable, protection_to_string, EarlyBirdConfig, EarlyBirdDetector,
    EarlyBirdStage, ProcessIdentity,
};

fn identity(pid: u32, name: &str, path: &str) -> ProcessIdentity {
    ProcessIdentity {
        pid,
        name: name.to_string(),
        path: path.to_string(),
    }
}

#[test]
fn test_early_bird_stage_confidence() {
    assert!(EarlyBirdStage::SuspendedProcessCreated.confidence_boost() > 0);
    assert!(
        EarlyBirdStage::ApcQueued.confidence_boost()
            > EarlyBirdStage::MemoryAllocated.confidence_boost()
    );
}

#[test]
fn test_protection_executable() {
    assert!(is_protection_executable(0x10));
    assert!(is_protection_executable(0x20));
    assert!(is_protection_executable(0x40));
    assert!(!is_protection_executable(0x04));
}

#[test]
fn test_protection_to_string() {
    assert_eq!(protection_to_string(0x40), "PAGE_EXECUTE_READWRITE");
    assert_eq!(protection_to_string(0x04), "PAGE_READWRITE");
}

#[test]
fn test_detector_creation() {
    let detector = EarlyBirdDetector::new(EarlyBirdConfig::default());
    let stats = detector.get_stats();
    assert_eq!(stats.tracked_processes, 0);
}

#[test]
fn test_record_suspended_process() {
    let mut detector = EarlyBirdDetector::new(EarlyBirdConfig::default());

    let detection = detector.record_suspended_process(
        identity(1234, "test.exe", "C:\\test.exe"),
        identity(5678, "parent.exe", ""),
        1111,
        1_000,
    );

    assert!(detection.is_some());
    let d = detection.unwrap();
    assert_eq!(d.target_pid, 1234);
    assert_eq!(d.source_pid, 5678);
    assert_eq!(d.stage, EarlyBirdStage::SuspendedProcessCreated);

    let stats = detector.get_stats();
    assert_eq!(stats.tracked_processes, 1);
}

#[test]
fn test_full_sequence_detection() {
    let mut detector = EarlyBirdDetector::new(EarlyBirdConfig::default());

    let _ = detector.record_suspended_process(
        identity(1234, "target.exe", "C:\\target.exe"),
        identity(5678, "injector.exe", ""),
        1111,
        1_000,
    );

    let _ = detector.record_memory_allocation(
        1234,
        identity(5678, "injector.exe", ""),
        0x10000,
        4096,
        0x40,
        1_001,
    );

    let _ = detector.record_memory_write(
        1234,
        identity(5678, "injector.exe", ""),
        0x10000,
        256,
        1_002,
    );

    let apc_detection = detector.record_apc_queue(
        1234,
        1111,
        identity(5678, "injector.exe", ""),
        0x10000,
        0,
        false,
        1_003,
    );
    assert!(apc_detection.is_some());
    assert_eq!(apc_detection.unwrap().stage, EarlyBirdStage::ApcQueued);

    let resume_detection =
        detector.record_thread_resume(1234, 1111, identity(5678, "injector.exe", ""), 1_004);
    assert!(resume_detection.is_some());
    let d = resume_detection.unwrap();
    assert_eq!(d.stage, EarlyBirdStage::FullSequence);
    assert!(d.confidence >= 900_000);
}
