use tamandua_analyzers::cmdline_spoofing::{
    cmdline_from_bytes, identify_given, is_mark_on, DetectionMethod,
    EnhancedCmdlineSpoofingDetector, MemoryRegionInfo, ProcessReading, SpoofingDetectorConfig,
    SpoofingPattern,
};
use tamandua_analyzers::memory_write_monitor::{
    analyze_write, is_process_parameters_region, judge_write,
};
use tamandua_analyzers::similarity::{lcs_length, likeness};

fn reading(pid: u32, current: Option<&str>, now: u64) -> ProcessReading {
    ProcessReading {
        pid,
        current: current.map(|c| c.to_string()),
        is_elevated: true,
        is_signed: false,
        memory_region: Some(MemoryRegionInfo::of_environment_block(0x1000)),
        now,
    }
}

fn record(detector: &mut EnhancedCmdlineSpoofingDetector, pid: u32, name: &str, line: &str, now: u64) {
    detector.record_creation(pid, name, "C:\\p", line, 1, "parent", 500, now);
}

#[test]
fn longest_common_subsequences() {
    assert_eq!(lcs_length("ABCBDAB", "BDCABA"), 4);
    assert_eq!(lcs_length("BDCABA", "ABCBDAB"), 4);
    assert_eq!(lcs_length("abc", "abc"), 3);
    assert_eq!(lcs_length("", "abc"), 0);
    assert_eq!(lcs_length("äöü", "öü"), 2);
    assert_eq!(likeness("same", "same"), 1_000_000);
    assert_eq!(likeness("", ""), 1_000_000);
    assert_eq!(likeness("", "a"), 0);
    assert_eq!(likeness("ab", "ac"), 500_000);
    assert_eq!(likeness("abc", "abd"), 666_666);
    assert_eq!(likeness("abd", "abc"), 666_666);
    assert_eq!(likeness("ä", "a"), 0);
    assert_eq!(likeness("äb", "cb"), 500_000);
    assert_eq!(likeness("äöü", "äöx"), 666_666);
}

#[test]
fn a_changed_command_line_is_reported() {
    let mut detector = EnhancedCmdlineSpoofingDetector::new();
    record(&mut detector, 7, "cmd.exe", "cmd.exe /c one two", 1_000);
    assert!(detector
        .validate_process(reading(7, Some("CMD.EXE   /c one\ttwo"), 2_000))
        .is_none());
    let alert = detector
        .validate_process(reading(7, Some("zzzz"), 3_000))
        .unwrap();
    assert_eq!(alert.pid, 7);
    assert_eq!(alert.process_name, "cmd.exe");
    assert_eq!(alert.original_cmdline, "cmd.exe /c one two");
    assert_eq!(alert.current_cmdline, "zzzz");
    assert_eq!(alert.original_length, 18);
    assert_eq!(alert.current_length, 4);
    assert_eq!(alert.similarity_score, 0);
    assert_eq!(alert.detection_method, DetectionMethod::PebValidation);
    assert_eq!(alert.spoofing_pattern, SpoofingPattern::CompleteReplacement);
    assert_eq!(alert.confidence, 1_000_000);
    assert_eq!(alert.detected_at_ms, 3_000);
    assert_eq!(alert.context.parent_pid, 1);
    assert!(alert.context.is_elevated);
    assert_eq!(alert.context.process_start_time, 500);
    assert_eq!(alert.context.time_to_detection_ms, 2_500);
    let region = alert.context.memory_region.unwrap();
    assert_eq!(region.process_parameters_base, 0x1000);
    assert_eq!(region.protection_str, "Unknown");
    assert_eq!(detector.get_stats(), (1, 2, 1));
}

#[test]
fn what_is_not_followed_is_not_judged() {
    let mut detector = EnhancedCmdlineSpoofingDetector::new();
    assert!(detector.validate_process(reading(7, Some("x"), 0)).is_none());
    record(&mut detector, 7, "Java.EXE", "java.exe -jar", 0);
    assert_eq!(detector.tracked_count(), 0);
    record(&mut detector, 8, "a.exe", "a.exe one", 0);
    assert!(detector.validate_process(reading(8, None, 0)).is_none());
    assert_eq!(detector.get_stats(), (1, 0, 0));
    detector.remove_process(8);
    assert_eq!(detector.tracked_count(), 0);
}

#[test]
fn the_oldest_make_room() {
    let mut config = SpoofingDetectorConfig::default();
    config.max_cache_size = 20;
    let mut detector = EnhancedCmdlineSpoofingDetector::with_config(config);
    for i in 0..20u32 {
        record(&mut detector, 100 + i, "a.exe", "a", 1_000 - i as u64);
    }
    assert_eq!(detector.tracked_count(), 20);
    record(&mut detector, 1, "a.exe", "a", 5_000);
    assert_eq!(detector.tracked_count(), 19);
    let pids = detector.tracked_pids();
    assert!(!pids.contains(&119));
    assert!(!pids.contains(&118));
    assert!(pids.contains(&117));
    assert!(pids.contains(&1));

    let mut config = SpoofingDetectorConfig::default();
    config.max_cache_size = 5;
    let mut small = EnhancedCmdlineSpoofingDetector::with_config(config);
    for i in 0..8u32 {
        record(&mut small, i, "a.exe", "a", 0);
    }
    assert_eq!(small.tracked_count(), 5);
    assert!(small.tracked_pids().contains(&7));
}

#[test]
fn the_dead_and_the_old_are_dropped() {
    let mut detector = EnhancedCmdlineSpoofingDetector::new();
    record(&mut detector, 1, "a.exe", "a", 0);
    record(&mut detector, 2, "a.exe", "a", 10_000);
    record(&mut detector, 3, "a.exe", "a", 10_000);
    detector.gc_dead_processes(&[1, 2], 3_600_000);
    assert_eq!(detector.tracked_pids(), vec![1, 2]);
    detector.gc_dead_processes(&[1, 2], 3_600_001);
    assert_eq!(detector.tracked_pids(), vec![2]);
}

#[test]
fn a_batch_has_a_limit() {
    let mut config = SpoofingDetectorConfig::default();
    config.max_validations_per_cycle = 2;
    let mut detector = EnhancedCmdlineSpoofingDetector::with_config(config);
    for pid in 1..4 {
        detector.record_creation_with_peb(
            pid, "a.exe", "p", "a.exe one two", 1, "q", 0, 0x10, 0x20, 0,
        );
    }
    assert_eq!(detector.cache[0].peb_address, Some(0x10));
    assert_eq!(detector.cache[0].process_parameters_address, Some(0x20));
    let alerts = detector.validate_batch(vec![
        reading(1, Some("zz"), 1),
        reading(2, Some("a.exe one two"), 1),
        reading(3, Some("zz"), 1),
    ]);
    assert_eq!(alerts.len(), 1);
    assert_eq!(alerts[0].pid, 1);
    assert_eq!(detector.get_stats(), (3, 2, 1));
}

#[test]
fn patterns_are_told_apart() {
    let detector = EnhancedCmdlineSpoofingDetector::new();
    let known = |original: &str, current: &str| detector.identify_spoofing_pattern(original, current);
    assert_eq!(known("a", "b      "), SpoofingPattern::SpacePadding);
    assert_eq!(
        known("a long command line here", "b"),
        SpoofingPattern::Truncation
    );
    assert_eq!(known("abc", "\t\t"), SpoofingPattern::NullPadding);
    assert_eq!(
        known("x Beacon y", "x other y"),
        SpoofingPattern::KnownToolSignature
    );
    assert_eq!(
        known("x meterpreter", "x meterpreter z"),
        SpoofingPattern::GenericModification
    );
    assert_eq!(known("a b", "c d"), SpoofingPattern::CompleteReplacement);
    assert_eq!(known("a b c", "a d"), SpoofingPattern::ArgumentSubstitution);
    assert_eq!(
        known("a b", "a b\u{1}c"),
        SpoofingPattern::SuspiciousCharacters
    );
    assert_eq!(known("a b", "a c"), SpoofingPattern::GenericModification);
    assert_eq!(
        identify_given(10, "a b", "a c", true),
        SpoofingPattern::KnownToolSignature
    );
    assert_eq!(
        identify_given(10, "a b", "a c", false),
        SpoofingPattern::GenericModification
    );
}

#[test]
fn confidence_rests_on_the_pattern() {
    let detector = EnhancedCmdlineSpoofingDetector::new();
    let sure = |original: &str, current: &str, similarity: u32, pattern: SpoofingPattern| {
        detector.calculate_confidence(original, current, similarity, &pattern)
    };
    let long = "x".repeat(60);
    assert_eq!(sure("a", "b", 600_000, SpoofingPattern::GenericModification), 400_000);
    assert_eq!(sure("a", "b", 600_000, SpoofingPattern::KnownToolSignature), 950_000);
    assert_eq!(sure("a", "b", 600_000, SpoofingPattern::SpacePadding), 900_000);
    assert_eq!(sure("a", "b", 600_000, SpoofingPattern::NullPadding), 900_000);
    assert_eq!(sure("a", "b", 600_000, SpoofingPattern::Truncation), 500_000);
    assert_eq!(sure("a", "b", 600_000, SpoofingPattern::CompleteReplacement), 550_000);
    assert_eq!(sure(&long, "b", 600_000, SpoofingPattern::GenericModification), 500_000);
    assert_eq!(sure("IEX bypass", "b", 600_000, SpoofingPattern::GenericModification), 450_000);
    assert_eq!(sure(&long, "b", 0, SpoofingPattern::Truncation), 1_000_000);
}

#[test]
fn command_lines_from_bytes() {
    assert_eq!(
        cmdline_from_bytes(b"/bin/sh\0-c\0ls"),
        Some("/bin/sh -c ls".to_string())
    );
    assert_eq!(cmdline_from_bytes(b"a\0"), Some("a ".to_string()));
    assert_eq!(
        cmdline_from_bytes(b"a\0\xff\0b"),
        Some("a b".to_string())
    );
    assert_eq!(
        cmdline_from_bytes("ä\0ö".as_bytes()),
        Some("ä ö".to_string())
    );
    assert_eq!(cmdline_from_bytes(b""), None);
    assert_eq!(cmdline_from_bytes(b"\xff"), None);
}

#[test]
fn marks_of_the_start_have_to_be_gone() {
    assert!(is_mark_on(true, Some(true), Some(false)));
    assert!(!is_mark_on(true, Some(true), Some(true)));
    assert!(!is_mark_on(true, Some(false), Some(false)));
    assert!(!is_mark_on(true, None, None));
    assert!(is_mark_on(false, None, Some(true)));
    assert!(!is_mark_on(false, Some(true), Some(false)));
    assert!(!is_mark_on(false, Some(true), None));
}

#[test]
fn writes_to_memory() {
    let block = Some((0x1000, 0x100));
    assert!(!is_process_parameters_region(None, 0x1000, 8));
    assert!(!is_process_parameters_region(block, 0xff8, 8));
    assert!(is_process_parameters_region(block, 0xff8, 9));
    assert!(is_process_parameters_region(block, 0x10ff, 1));
    assert!(!is_process_parameters_region(block, 0x1100, 8));
    assert!(is_process_parameters_region(block, 0, 0x10000));
    assert!(!is_process_parameters_region(block, 0x1000, 0));
    assert!(!is_process_parameters_region(Some((0x1000, 0)), 0, 0x10000));
    assert!(is_process_parameters_region(Some((u64::MAX, 1)), u64::MAX, 1));
    assert!(analyze_write(1, 2, "p".to_string(), None, 3, 4, 5).is_none());
    assert!(analyze_write(1, 1, "p".to_string(), block, 0x1000, 4, 5).is_none());
    assert!(analyze_write(1, 2, "p".to_string(), block, 3, 4, 5).is_none());
    let write = analyze_write(1, 2, "p".to_string(), block, 0x1000, 4, 5).unwrap();
    assert_eq!(write.source_process, "p");
    assert_eq!(write.target_address, 0x1000);
    assert!(write.targets_process_parameters);
    assert!(judge_write(1, 2, "p".to_string(), 3, 4, false, 5).is_none());
    let write = judge_write(1, 2, "p".to_string(), 3, 4, true, 5).unwrap();
    assert_eq!(write.target_pid, 1);
    assert_eq!(write.source_pid, 2);
    assert_eq!(write.target_address, 3);
    assert_eq!(write.write_size, 4);
    assert_eq!(write.timestamp_ms, 5);
    assert!(write.targets_process_parameters);
}

#[test]
fn small_changes_of_length_do_not_count() {
    let long = "powershell.exe -enc VeryLongEncodedStringHere1234567890 and much more behind it";
    let with_least = |least| {
        let mut config = SpoofingDetectorConfig::default();
        config.min_length_diff = least;
        EnhancedCmdlineSpoofingDetector::with_config(config)
    };
    let usual = with_least(10);
    assert_eq!(
        usual.identify_spoofing_pattern(long, "powershell.exe"),
        SpoofingPattern::Truncation
    );
    let strict = with_least(1_000);
    assert_ne!(
        strict.identify_spoofing_pattern(long, "powershell.exe"),
        SpoofingPattern::Truncation
    );
    let sure = |detector: &EnhancedCmdlineSpoofingDetector| {
        detector.calculate_confidence(
            &"a".repeat(60),
            "a",
            500_000,
            &SpoofingPattern::GenericModification,
        )
    };
    assert_eq!(sure(&usual), 600_000);
    assert_eq!(sure(&strict), 500_000);
}
