use tamandua_analyzers::heap_spray::{
    analyze_memory_layout, calculate_content_hash, contains_pattern, count_pattern_occurrences,
    determine_spray_type, detect_js_heap_spray, find_most_common_sequence, format_size,
    layout_read_size, next_region_address, unnamed_process, AllocationTracker, HeapSprayConfig,
    HeapSprayDetector, HeapSprayIndicators, PatternMatcher, ScannedRegion, SprayMonitor, SprayType,
};

#[test]
fn bytes_repeat() {
    assert_eq!(count_pattern_occurrences(&[1, 2, 1, 2, 1], &[1, 2]), 2);
    assert!(contains_pattern(&[1, 2, 3], &[2, 3]));
    assert!(!contains_pattern(&[1, 2, 3], &[3, 2]));
    assert_eq!(find_most_common_sequence(&[], 4), None);
    let (sequence, count) = find_most_common_sequence(&[7; 16], 4).unwrap();
    assert_eq!(sequence, 0x0707_0707);
    assert_eq!(count, 13);
    assert_eq!(calculate_content_hash(&[1, 2]), calculate_content_hash(&[1, 2]));
    assert_ne!(calculate_content_hash(&[1, 2]), calculate_content_hash(&[2, 1]));
}

#[test]
fn sizes_as_text() {
    assert_eq!(format_size(512), "512 B");
    assert_eq!(format_size(2_048), "2.0 KB");
    assert_eq!(format_size(1_572_864), "1.5 MB");
    assert_eq!(format_size(3_221_225_472), "3.0 GB");
    assert_eq!(unnamed_process(7), "pid_7");
}

#[test]
fn the_most_common_content() {
    let mut tracker = AllocationTracker::new();
    for (i, hash) in [5u64, 6, 6, 7, 6].iter().enumerate() {
        tracker.track_allocation(1, i * 0x1000, 0x1000, *hash, 1_000_000, 4, 10);
    }
    assert_eq!(tracker.get_most_common_hash(1), Some((6, 3)));
    assert_eq!(tracker.get_hash_count(1, 5), 1);
    assert_eq!(tracker.get_hash_count(2, 5), 0);
    assert_eq!(tracker.get_most_common_hash(2), None);
    assert_eq!(tracker.get_allocations(1).len(), 5);
    let stats = tracker.get_stats(1);
    assert_eq!(stats.total_size, 0x5000);
    assert_eq!(stats.average_entropy, 1_000_000);
    assert_eq!(stats.unique_content_count, 3);
    assert_eq!(tracker.get_stats(9).allocation_count, 0);
}

#[test]
fn reported_content_is_silent() {
    let mut config = HeapSprayConfig::default();
    config.min_identical_allocations = 10;
    config.min_spray_size = 0x10000;
    config.min_confidence = 100_000;
    let mut detector = HeapSprayDetector::new(config, 0);
    for i in 0..40 {
        detector.track_allocation(1, 0x10000000 + i * 0x10000, 0x10000, 99, 0);
    }
    let alert = detector.analyze(1, "a".to_string(), "p".to_string(), 5).unwrap();
    assert_eq!(alert.process_name, "a");
    assert_eq!(alert.identical_allocation_count, 40);
    detector.mark_alert_known(1, 99);
    assert!(detector.analyze(1, "a".to_string(), "p".to_string(), 5).is_none());
    assert!(detector.analyze(2, "a".to_string(), "p".to_string(), 5).is_none());
}

#[test]
fn content_is_tracked_by_its_hash() {
    let mut detector = HeapSprayDetector::new(HeapSprayConfig::default(), 0);
    let content = [7u8; 32];
    detector.track_allocation_with_content(3, 0x5000, 32, &content, 12, 8);
    let kept = detector.allocation_tracker.get_allocations(3);
    assert_eq!(kept.len(), 1);
    assert_eq!(kept[0].address, 0x5000);
    assert_eq!(kept[0].size, 32);
    assert_eq!(kept[0].content_hash, calculate_content_hash(&content));
    assert_eq!(kept[0].entropy, 12);
    assert_eq!(kept[0].timestamp, 8);
    assert!(detector.allocation_tracker.get_allocations(4).is_empty());
}

#[test]
fn shellcode_decides_the_kind() {
    let mut indicators = HeapSprayIndicators::default();
    indicators.nop_sled_detected = true;
    assert_ne!(determine_spray_type(&indicators), SprayType::ShellcodeSpray);
    indicators.shellcode_patterns = true;
    assert_eq!(determine_spray_type(&indicators), SprayType::ShellcodeSpray);
    let matcher = PatternMatcher::new();
    assert!(matcher.detect_nop_sled(&[0x90; 64]).is_some());
    assert!(matcher.detect_nop_sled(&[1, 2, 3]).is_none());
    assert!(matcher.detect_shellcode(&[1, 2, 3]).is_none());
    assert!(matcher.detect_spray_pattern(&[], 0).is_none());
}

#[test]
fn few_allocations_are_no_script() {
    assert!(detect_js_heap_spray(&vec![]).is_none());
}

#[test]
fn regions_of_memory() {
    assert_eq!(next_region_address(0x1000, 0x1000), Some(0x2000));
    assert_eq!(next_region_address(usize::MAX, 1), None);
    let heap = layout_read_size(0x100000, 0x1000, 0x20000, 0x04);
    assert!(heap > 0 && heap <= 0x100000);
    assert_eq!(layout_read_size(0x100000, 0x1000, 0x1000000, 0x04), 0);
    let region = |base: usize| ScannedRegion {
        base,
        size: 0x20000,
        state: 0x1000,
        mem_type: 0x20000,
        protection: 0x04,
        content: vec![0x90; 4096],
        entropy: 0,
    };
    let analysis = analyze_memory_layout(&vec![region(0x10000), region(0x50000)]);
    assert_eq!(analysis.total_rw_memory, 0x40000);
    assert!(SprayMonitor::is_suspicious(&analysis));
    assert!(!analysis.suspicious_regions.is_empty());
    let nothing = analyze_memory_layout(&vec![]);
    assert_eq!(nothing.total_rw_memory, 0);
    assert!(!SprayMonitor::is_suspicious(&nothing));
}

#[test]
fn a_monitor_looks_at_a_process_once() {
    let mut monitor = SprayMonitor::new(0);
    assert!(monitor.wants(500, 1, "a.exe"));
    assert!(!monitor.wants(1, 1, "a.exe"));
    assert!(!monitor.wants(500, 1, "chrome.exe"));
    monitor.take_regions(500, &vec![], 0);
    assert!(!monitor.wants(500, 1, "a.exe"));
}

#[test]
fn names_of_code_stay_when_more_data_follows() {
    let matcher = PatternMatcher::new();
    let peb = [0x65u8, 0x48, 0x8B, 0x04, 0x25, 0x60, 0x00, 0x00, 0x00];
    let before = matcher.contains_shellcode(&peb);
    assert_eq!(matcher.detect_shellcode(&peb), Some(before[0].as_str()));
    let mut longer = peb.to_vec();
    longer.extend_from_slice(&peb);
    longer.extend_from_slice(&[0xFC, 0xE8, 0x82, 0x00, 0x00, 0x00]);
    let after = matcher.contains_shellcode(&longer);
    assert_eq!(matcher.detect_shellcode(&longer), Some(after[0].as_str()));
    assert!(before.iter().all(|n| after.contains(n)));
    for (i, name) in after.iter().enumerate() {
        assert!(!after[..i].contains(name));
    }
    assert!(matcher.contains_shellcode(&[0; 4]).is_empty());
    assert_eq!(matcher.detect_shellcode(&[0; 4]), None);
}

#[test]
fn the_last_thousand_reports_stay_known() {
    let mut detector = HeapSprayDetector::new(HeapSprayConfig::default(), 0);
    for i in 0..1_003u64 {
        detector.mark_alert_known(7, i);
    }
    detector.cleanup(30_000);
    assert_eq!(detector.known_alerts.len(), 1_003);
    detector.cleanup(30_001);
    assert_eq!(detector.known_alerts.len(), 1_000);
    assert_eq!(detector.known_alerts[0], (7, 3));
    assert_eq!(detector.known_alerts[999], (7, 1_002));
}

#[test]
fn small_sprays_are_silent() {
    let alerts = |count: usize, hashes: u64, least_size: usize| {
        let mut config = HeapSprayConfig::default();
        config.min_identical_allocations = 10;
        config.min_spray_size = least_size;
        config.min_confidence = 0;
        let mut detector = HeapSprayDetector::new(config, 0);
        for i in 0..count {
            let hash = i as u64 % hashes;
            detector.track_allocation(1, 0x10000000 + i * 0x10000, 0x10000, hash, 0);
        }
        detector.analyze(1, "a".to_string(), "p".to_string(), 5).is_some()
    };
    assert!(alerts(10, 1, 0xa0000));
    assert!(!alerts(10, 1, 0xa0001));
    assert!(!alerts(10, 2, 0));
    assert!(alerts(20, 2, 0));
    assert!(!alerts(9, 1, 0));
}
