use tamandua_analyzers::heap_spray::{
    calculate_pattern_confidence, detect_js_heap_spray, unnamed_process, AllocationTracker,
    HeapSprayAlert, HeapSprayConfig, HeapSprayDetector, HeapSprayIndicators, PatternMatcher,
    SprayPatternType, SprayType, TrackedAllocation,
};
use tamandua_analyzers::telemetry::{EventType, Severity};

fn entropy(data: &[u8]) -> u32 {
    let mut counts = [0u64; 256];
    for b in data {
        counts[*b as usize] += 1;
    }
    let mut sum = 0.0f64;
    for c in counts {
        if c > 0 {
            let p = c as f64 / data.len() as f64;
            sum -= p * p.log2();
        }
    }
    (sum * 1_000_000.0) as u32
}

#[test]
fn test_spray_type_metadata() {
    assert_eq!(SprayType::NopSled.as_str(), "nop_sled");
    assert_eq!(SprayType::ShellcodeSpray.severity(), Severity::Critical);
    assert_eq!(SprayType::BrowserSpray.severity(), Severity::High);
}

#[test]
fn test_nop_pattern_detection() {
    let matcher = PatternMatcher::new();

    let data = vec![0x90u8; 1024];
    let result = matcher.detect_spray_pattern(&data, entropy(&data));

    assert!(result.is_some());
    let pattern = result.unwrap();
    assert_eq!(pattern.pattern_type, SprayPatternType::NopSled);
    assert!(pattern.confidence > 500_000);
}

#[test]
fn test_browser_spray_pattern_detection() {
    let matcher = PatternMatcher::new();

    let data = vec![0x0cu8; 1024];
    let result = matcher.detect_spray_pattern(&data, entropy(&data));

    assert!(result.is_some());
    let pattern = result.unwrap();
    assert_eq!(pattern.pattern_type, SprayPatternType::NopSled);
    assert!(pattern.pattern_name.contains("0c"));
}

#[test]
fn test_shellcode_detection() {
    let matcher = PatternMatcher::new();

    let data = [
        0x65u8, 0x48, 0x8B, 0x04, 0x25, 0x60, 0x00, 0x00, 0x00, 0x00, 0x00,
    ];
    let found = matcher.contains_shellcode(&data);

    assert!(!found.is_empty());
    assert!(found.iter().any(|s| s.contains("peb")));
}

#[test]
fn test_allocation_tracker() {
    let mut tracker = AllocationTracker::new();

    let hash = 0x12345678u64;
    for i in 0..30 {
        tracker.track_allocation(
            1234,
            0x10000000 + i * 0x10000,
            0x10000,
            hash,
            1_500_000,
            0x04,
            1_000,
        );
    }

    assert!(tracker.can_total(1234));
    let stats = tracker.get_stats(1234);
    assert_eq!(stats.allocation_count, 30);
    assert_eq!(stats.most_common_hash_count, 30);
    assert_eq!(stats.unique_content_count, 1);
}

#[test]
fn test_indicators_confidence() {
    let mut indicators = HeapSprayIndicators::default();

    assert!(indicators.calculate_confidence() < 500_000);

    indicators.large_identical_allocations = true;
    indicators.same_content_count = 100;
    indicators.nop_sled_detected = true;
    indicators.low_entropy_detected = true;

    assert!(indicators.calculate_confidence() > 600_000);
}

#[test]
fn test_heap_spray_detector() {
    let mut config = HeapSprayConfig::default();
    config.min_identical_allocations = 10;
    config.min_spray_size = 1024 * 1024;
    config.min_confidence = 500_000;
    let mut detector = HeapSprayDetector::new(config, 1_000);

    let hash = 0xABCDEF01u64;
    for i in 0..50 {
        detector.track_allocation(1234, 0x10000000 + i * 0x10000, 0x10000, hash, 1_000);
    }

    assert!(detector.allocation_tracker.can_total(1234));
    let alert = detector.analyze(1234, unnamed_process(1234), String::new(), 1_000);
    assert!(alert.is_some());

    let alert = alert.unwrap();
    assert_eq!(alert.pid, 1234);
    assert!(alert.identical_allocation_count >= 10);
    assert!(alert.confidence > 500_000);
}

#[test]
fn test_content_analysis() {
    let mut config = HeapSprayConfig::default();
    config.min_confidence = 250_000;
    let detector = HeapSprayDetector::new(config, 1_000);

    let content = vec![0x90u8; 4096];
    let alert = detector.analyze_memory_content(
        1234,
        0x10000000,
        &content,
        entropy(&content),
        unnamed_process(1234),
        String::new(),
        1_000,
    );

    assert!(alert.is_some());
    let alert = alert.unwrap();
    assert!(alert.indicators.nop_sled_detected);
}

#[test]
fn test_pattern_confidence() {
    let confidence = calculate_pattern_confidence(200, 1024);
    assert!(confidence > 700_000);

    let confidence = calculate_pattern_confidence(10, 1024);
    assert!(confidence < 100_000);
}

#[test]
fn test_excluded_processes() {
    let detector = HeapSprayDetector::new(HeapSprayConfig::default(), 1_000);

    assert!(!detector.should_monitor_process("chrome.exe"));
    assert!(!detector.should_monitor_process("CHROME.EXE"));

    assert!(detector.should_monitor_process("notepad.exe"));
}

#[test]
fn test_js_spray_detection() {
    let allocations: Vec<TrackedAllocation> = (0..100)
        .map(|i| TrackedAllocation {
            address: 0x10000000 + i * 0x10000,
            size: 0x10000,
            content_hash: 0x12345678,
            entropy: 1_500_000,
            timestamp: 1_000,
            protection: 0x04,
        })
        .collect();

    let result = detect_js_heap_spray(&allocations);
    assert!(result.is_some());

    let indicator = result.unwrap();
    assert!(indicator.confidence > 500_000);
    assert_eq!(indicator.spray_count, 100);
}

#[test]
fn test_telemetry_event_creation() {
    let mut indicators = HeapSprayIndicators::default();
    indicators.nop_sled_detected = true;
    indicators.large_identical_allocations = true;
    indicators.same_content_count = 50;
    indicators.total_spray_size = 10 * 1024 * 1024;
    let alert = HeapSprayAlert {
        pid: 1234,
        process_name: "test.exe".to_string(),
        process_path: "C:\\test.exe".to_string(),
        spray_type: SprayType::NopSled,
        estimated_size: 10 * 1024 * 1024,
        pattern_detected: "x86_nop".to_string(),
        affected_memory_range: (0x10000000, 0x20000000),
        confidence: 850_000,
        identical_allocation_count: 50,
        indicators,
        evidence: vec!["50 identical allocations".to_string()],
        mitre_id: "T1203",
        timestamp: 0,
    };

    let event = HeapSprayDetector::create_telemetry_event(&alert);

    assert_eq!(event.event_type, EventType::MemoryScan);
    assert_eq!(event.severity, Severity::High);
    assert!(!event.detections.is_empty());
    assert!(event.metadata.contains_key("spray_type"));
    assert_eq!(
        event.metadata.get("mitre_technique"),
        Some(&"T1203".to_string())
    );
}
