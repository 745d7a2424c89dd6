use tamandua_analyzers::early_bird::{
    check_thread_suspended, initial_thread, is_memory_unbacked, scan_interval, EarlyBirdCollector,
    EarlyBirdConfig, EarlyBirdDetector, EarlyBirdStage, ProcessIdentity, ThreadProbe,
};
use tamandua_analyzers::telemetry::DetectionType;

fn source() -> ProcessIdentity {
    ProcessIdentity {
        pid: 50,
        name: "src.exe".to_string(),
        path: "C:\\src.exe".to_string(),
    }
}

fn followed() -> EarlyBirdDetector {
    let mut detector = EarlyBirdDetector::new(EarlyBirdConfig::default());
    detector.record_suspended_process(
        ProcessIdentity {
            pid: 60,
            name: "dst.exe".to_string(),
            path: "C:\\dst.exe".to_string(),
        },
        source(),
        7,
        1_000,
    );
    detector
}

#[test]
fn only_followed_processes_are_reported() {
    let mut detector = EarlyBirdDetector::new(EarlyBirdConfig::default());
    assert!(detector.record_memory_allocation(1, source(), 0, 1, 0x40, 0).is_none());
    assert!(detector.record_memory_write(1, source(), 0, 1, 0).is_none());
    assert!(detector.record_apc_queue(1, 1, source(), 0, 0, true, 0).is_none());
    assert!(detector.record_thread_resume(1, 1, source(), 0).is_none());
}

#[test]
fn allocations_and_writes() {
    let mut detector = followed();
    let found = detector
        .record_memory_allocation(60, source(), 0x1000, 0x100, 0x40, 2_000)
        .unwrap();
    assert_eq!(found.stage, EarlyBirdStage::MemoryAllocated);
    assert_eq!(found.evidence[1], "Address: 0x1000, Size: 256 bytes");
    assert_eq!(
        found.evidence[2],
        "Protection: 0x40 (PAGE_EXECUTE_READWRITE)"
    );
    assert_eq!(found.evidence[3], "Source process: 50 (PID 50)");
    let found = detector.record_memory_write(60, source(), 0x10ff, 4, 3_000).unwrap();
    assert_eq!(found.confidence, 600_000);
    assert_eq!(found.evidence[3], "Write is to previously allocated region");
    let found = detector.record_memory_write(60, source(), 0x1100, 4, 3_000).unwrap();
    assert_eq!(found.evidence[3], "Write is to existing memory region");
    let stats = detector.get_stats();
    assert_eq!(stats.tracked_processes, 1);
    assert_eq!(stats.total_allocations, 1);
}

#[test]
fn queued_calls_are_weighed() {
    let mut detector = followed();
    let found = detector.record_apc_queue(60, 8, source(), 0x1, 0x2, false, 0).unwrap();
    assert_eq!(found.confidence, 700_000);
    assert_eq!(found.evidence[2], "APC routine: 0x1");
    assert_eq!(found.evidence[4], "Source: src.exe (PID 50)");
    let found = detector.record_apc_queue(60, 7, source(), 0x1, 0, false, 0).unwrap();
    assert_eq!(found.confidence, 850_000);
    let found = detector.record_apc_queue(60, 7, source(), 0x1, 0, true, 0).unwrap();
    assert_eq!(found.confidence, 950_000);
    detector.record_memory_allocation(60, source(), 0, 0x10, 0x04, 0);
    let found = detector.record_apc_queue(60, 7, source(), 0x1, 0, true, 0).unwrap();
    assert_eq!(found.confidence, 1_000_000);
    assert_eq!(found.allocation_address, Some(0));
}

#[test]
fn a_resumed_process_without_the_rest_is_no_injection() {
    let mut detector = followed();
    let found = detector.record_thread_resume(60, 7, source(), 5_000).unwrap();
    assert_eq!(found.stage, EarlyBirdStage::ThreadResumed);
    assert_eq!(found.confidence, 500_000);
    assert_eq!(found.apc_routine_address, 0);

    let mut queued = followed();
    queued.record_apc_queue(60, 7, source(), 0x99, 0, false, 0);
    let found = queued.record_thread_resume(60, 7, source(), 5_000).unwrap();
    assert_eq!(found.stage, EarlyBirdStage::ThreadResumed);
    assert_eq!(found.confidence, 750_000);
    assert_eq!(found.apc_routine_address, 0x99);

    let mut allocated = followed();
    allocated.record_memory_allocation(60, source(), 0x10, 0x10, 0x04, 0);
    allocated.record_memory_write(60, source(), 0x10, 1, 0);
    let found = allocated.record_thread_resume(60, 7, source(), 5_000).unwrap();
    assert_eq!(found.stage, EarlyBirdStage::ThreadResumed);
    assert_eq!(found.confidence, 700_000);
}

#[test]
fn threads_outside_of_files() {
    let detector = EarlyBirdDetector::new(EarlyBirdConfig::default());
    let probe = |protection: u32, mem_type: u32| ThreadProbe {
        instruction: 0x1010,
        region_base: 0x1000,
        region_size: 0x1000,
        state: 0x1000,
        mem_type,
        protection,
    };
    let found = detector
        .analyze_thread_for_early_bird(source(), 3, probe(0x20, 0x20000), 9)
        .unwrap();
    assert_eq!(found.stage, EarlyBirdStage::ApcTargetUnbacked);
    assert_eq!(found.confidence, 750_000);
    assert_eq!(found.evidence[2], "Region: 0x1000 - 0x2000 (4096 bytes)");
    assert!(detector
        .analyze_thread_for_early_bird(source(), 3, probe(0x04, 0x20000), 9)
        .is_none());
    assert!(detector
        .analyze_thread_for_early_bird(source(), 3, probe(0x20, 0x1000000), 9)
        .is_none());
    assert!(is_memory_unbacked(0x1000, 0x20000));
    assert!(!is_memory_unbacked(0x1000, 0x1000000));
}

#[test]
fn what_is_too_old_is_forgotten() {
    let mut detector = followed();
    let limit = detector.config.max_track_time_ms;
    detector.cleanup_old_entries(1_000 + limit - 1);
    assert_eq!(detector.get_stats().tracked_processes, 1);
    detector.cleanup_old_entries(1_000 + limit + 1);
    assert_eq!(detector.get_stats().tracked_processes, 0);
}

#[test]
fn new_processes_are_noticed() {
    let mut collector = EarlyBirdCollector::new(&vec![101, 102]);
    assert_eq!(collector.take_snapshot(&vec![101, 102, 103, 3]), vec![103]);
    assert!(collector.take_snapshot(&vec![101, 102, 103, 3]).is_empty());
    assert!(!EarlyBirdCollector::is_scanned(10, 99));
    assert!(EarlyBirdCollector::is_scanned(11, 99));
    assert!(!EarlyBirdCollector::is_scanned(99, 99));
    assert_eq!(initial_thread(&vec![(1, 100), (2, 200), (2, 201)], 2), Some(200));
    assert_eq!(initial_thread(&vec![], 2), None);
    assert!(check_thread_suspended(0, 1));
    assert!(!check_thread_suspended(0, 0));
    assert_eq!(scan_interval(5_000, 2_000, 1_500_000), 7_500);
    assert_eq!(scan_interval(5_000, 2_000, 500_000), 2_500);
    assert_eq!(scan_interval(5_000, 2_000, 100_000), 2_000);
}

#[test]
fn any_order_of_calls_leads_to_a_full_injection() {
    let mut detector = followed();
    detector.record_apc_queue(60, 7, source(), 0x10, 0, false, 0);
    detector.record_memory_write(60, source(), 0x10, 1, 0);
    detector.record_memory_allocation(60, source(), 0x10, 0x10, 0x04, 0);
    let found = detector.record_thread_resume(60, 7, source(), 1).unwrap();
    assert_eq!(found.stage, EarlyBirdStage::FullSequence);
    assert_eq!(found.confidence, 950_000);
    let again = ProcessIdentity {
        pid: 60,
        name: "again.exe".to_string(),
        path: String::new(),
    };
    detector.record_suspended_process(again, source(), 7, 2);
    let found = detector.record_thread_resume(60, 7, source(), 3).unwrap();
    assert_eq!(found.stage, EarlyBirdStage::ThreadResumed);
    assert!(detector.record_thread_resume(61, 7, source(), 3).is_none());
}

#[test]
fn reports_become_events() {
    let mut detector = followed();
    detector.record_memory_allocation(60, source(), 0x10, 0x10, 0x40, 0);
    detector.record_apc_queue(60, 7, source(), 0x10, 0, true, 0);
    let found = detector.record_thread_resume(60, 7, source(), 5_000).unwrap();
    assert!(detector.is_reported(&found));
    assert_eq!(detector.get_stats().known_detections, 0);
    detector.note_reported(&found);
    assert!(!detector.is_reported(&found));
    assert_eq!(detector.get_stats().known_detections, 1);
    let other = detector.record_thread_resume(60, 8, source(), 5_000).unwrap();
    assert!(detector.is_reported(&other));
    detector.config.min_confidence = 950_001;
    assert!(!detector.is_reported(&other));
    let event = EarlyBirdCollector::create_event(&found);
    assert_eq!(event.detections.len(), 1);
    assert_eq!(event.detections[0].detection_type, DetectionType::Behavioral);
    assert_eq!(event.detections[0].confidence, 950_000);
    assert_eq!(
        event.metadata.get("mitre_technique"),
        Some(&"T1055.004".to_string())
    );
    assert_eq!(event.metadata.get("confidence"), Some(&"0.95".to_string()));
}
