use tamandua_analyzers::bof_detector::{BofDetectionType, BofDetector, CoffMachine};

#[test]
fn test_coff_machine_types() {
    assert_eq!(CoffMachine::from_magic(0x8664), CoffMachine::X64);
    assert_eq!(CoffMachine::from_magic(0x014C), CoffMachine::X86);
    assert_eq!(CoffMachine::from_magic(0xAA64), CoffMachine::Arm64);
    assert!(matches!(
        CoffMachine::from_magic(0x0000),
        CoffMachine::Unknown(_)
    ));
}

#[test]
fn test_bof_detection_type_metadata() {
    let detection_type = BofDetectionType::CoffHeaderInMemory;
    assert_eq!(detection_type.as_str(), "coff_header_in_memory");
    assert!(detection_type.mitre_techniques().contains(&"T1620"));
}

#[test]
fn test_beacon_api_string_detection() {
    let detector = BofDetector::new();

    let buffer = b"some data BeaconPrintf more data BeaconOutput end";
    let found = detector.scan_beacon_api_strings(buffer);

    assert!(found.contains(&"BeaconPrintf".to_string()));
    assert!(found.contains(&"BeaconOutput".to_string()));
}

#[test]
fn test_api_hashing_detection() {
    let detector = BofDetector::new();

    let buffer = [0x31, 0xC0, 0xAC, 0xC1, 0xC8, 0x0D, 0x01, 0xC0];

    assert!(detector.detect_api_hashing(&buffer));
}

#[test]
fn test_coff_header_parsing() {
    let detector = BofDetector::new();

    let mut buffer = vec![0u8; 100];
    buffer[0] = 0x64;
    buffer[1] = 0x86;
    buffer[2] = 0x01;
    buffer[3] = 0x00;
    buffer[4..8].copy_from_slice(&[0x01, 0x02, 0x03, 0x04]);
    buffer[8..12].copy_from_slice(&[0x00, 0x00, 0x00, 0x00]);
    buffer[12..16].copy_from_slice(&[0x00, 0x00, 0x00, 0x00]);
    buffer[16] = 0x00;
    buffer[17] = 0x00;
    buffer[18] = 0x00;
    buffer[19] = 0x00;
    buffer[20..28].copy_from_slice(b".text\0\0\0");

    let coff_info = detector.parse_coff_header(&buffer);
    assert!(coff_info.is_some());

    let info = coff_info.unwrap();
    assert_eq!(info.machine, CoffMachine::X64);
    assert_eq!(info.num_sections, 1);
    assert!(info.sections.contains(&".text".to_string()));
}

#[test]
fn bof_detector_test_pattern_matching() {
    let detector = BofDetector::new();

    let buffer = [0x55, 0x48, 0x89, 0xE5, 0x48, 0x83, 0xEC, 0x20];
    let pattern = &[0x55, 0x48, 0x89, 0xE5, 0x48, 0x83, 0xEC];

    assert!(detector.find_pattern(&buffer, pattern));
    assert!(!detector.find_pattern(&buffer, &[0xFF, 0xFF]));
}

#[test]
fn test_skip_process() {
    let detector = BofDetector::new();

    assert!(detector.should_skip_process("link.exe"));
    assert!(detector.should_skip_process("LINK.EXE"));
    assert!(!detector.should_skip_process("notepad.exe"));
}

#[test]
fn test_full_scan_with_bof_indicators() {
    let mut detector = BofDetector::new();

    let mut buffer = vec![0u8; 200];
    buffer[0] = 0x64;
    buffer[1] = 0x86;
    buffer[2] = 0x02;
    buffer[3] = 0x00;

    let api_str = b"BeaconPrintf";
    buffer[100..100 + api_str.len()].copy_from_slice(api_str);

    buffer[150..153].copy_from_slice(&[0xC1, 0xC8, 0x0D]);
    buffer[160..162].copy_from_slice(&[0x31, 0xC0]);
    buffer[170] = 0xAC;

    let detection =
        detector.scan_buffer(1234, "test.exe", "C:\\test.exe", 0x7FF00000, &buffer, 1_000);

    if let Some(det) = detection {
        assert!(det.confidence > 0);
        assert!(!det.detected_patterns.is_empty());
    }
}
