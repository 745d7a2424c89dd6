use tamandua_analyzers::bof_detector::{
    BofDetection, BofDetectionType, BofDetector, BofDetectorConfig, CoffMachine,
};
use tamandua_analyzers::telemetry::{DetectionType, EventPayload, EventType, Severity};

fn coff(sections: u16, characteristics: u16) -> Vec<u8> {
    let mut buffer = vec![0u8; 200];
    buffer[0..2].copy_from_slice(&[0x64, 0x86]);
    buffer[2..4].copy_from_slice(&sections.to_le_bytes());
    buffer[18..20].copy_from_slice(&characteristics.to_le_bytes());
    buffer[20..25].copy_from_slice(b".text");
    buffer
}

#[test]
fn headers_of_object_files() {
    let detector = BofDetector::new();
    let info = detector.parse_coff_header(&coff(2, 0)).unwrap();
    assert_eq!(info.machine, CoffMachine::X64);
    assert_eq!(info.num_sections, 2);
    assert_eq!(info.sections, vec![".text"]);
    assert!(info.symbols.is_empty());
    assert!(info.is_likely_bof);
    assert!(!detector.parse_coff_header(&coff(2, 2)).unwrap().is_likely_bof);
    assert!(!detector.parse_coff_header(&coff(2, 1)).unwrap().is_likely_bof);
    assert!(!detector.parse_coff_header(&coff(11, 0)).unwrap().is_likely_bof);
    assert!(detector.parse_coff_header(&coff(0, 0)).is_none());
    assert!(detector.parse_coff_header(&coff(97, 0)).is_none());
    assert!(detector.parse_coff_header(&[0x64, 0x86]).is_none());
    assert!(detector.parse_coff_header(&vec![0u8; 100]).is_none());

    let mut odd = coff(1, 0);
    odd[20..28].copy_from_slice(b"a\xff\xfebcdef");
    let info = detector.parse_coff_header(&odd).unwrap();
    assert_eq!(info.sections, vec!["a\u{fffd}\u{fffd}bcdef"]);
}

#[test]
fn symbols_of_object_files() {
    let mut buffer = coff(1, 0);
    buffer[8..12].copy_from_slice(&60u32.to_le_bytes());
    buffer[12..16].copy_from_slice(&1u32.to_le_bytes());
    buffer[78..82].copy_from_slice(&40u32.to_le_bytes());
    buffer[90..102].copy_from_slice(b"BeaconPrintf");
    let info = BofDetector::new().parse_coff_header(&buffer).unwrap();
    assert_eq!(info.symbols, vec!["BeaconPrintf"]);
}

#[test]
fn a_region_is_reported_once() {
    let mut detector = BofDetector::new();
    let mut buffer = coff(1, 0);
    buffer[100..109].copy_from_slice(&[0x65, 0x48, 0x8B, 0x04, 0x25, 0x60, 0x00, 0x00, 0x00]);
    let found = detector
        .scan_buffer(7, "a.exe", "C:\\a.exe", 0x1000, &buffer, 0)
        .unwrap();
    assert_eq!(found.detection_type, BofDetectionType::CoffHeaderInMemory);
    assert_eq!(found.confidence, 750_000);
    assert_eq!(found.region_size, 200);
    assert_eq!(
        found.detected_patterns,
        vec!["coff_header", "bof_characteristics", "peb_access_x64"]
    );
    assert_eq!(
        found.evidence[0],
        "COFF header detected: machine=x64, sections=1"
    );
    assert!(detector.scan_buffer(7, "a.exe", "", 0x1000, &buffer, 299_999).is_none());
    assert!(detector.scan_buffer(7, "a.exe", "", 0x2000, &buffer, 299_999).is_some());
    assert!(detector.scan_buffer(8, "a.exe", "", 0x1000, &buffer, 299_999).is_some());
    assert!(detector.scan_buffer(7, "a.exe", "", 0x1000, &buffer, 300_000).is_some());
    detector.cleanup_cache(599_999);
    assert_eq!(detector.scan_cache.len(), 1);
}

#[test]
fn one_sign_is_not_enough() {
    let mut detector = BofDetector::new();
    assert!(detector.scan_buffer(7, "a", "", 0, &[], 0).is_none());
    assert!(detector
        .scan_buffer(7, "a", "", 0, &[0x4C, 0x8B, 0xD1, 0xB8], 0)
        .is_none());
    let found = detector
        .scan_buffer(
            7,
            "a",
            "",
            0,
            &[0x4C, 0x8B, 0xD1, 0xB8, 0x53, 0x48, 0x83, 0xEC],
            0,
        )
        .unwrap();
    assert_eq!(found.detection_type, BofDetectionType::BofEntryPoint);
    assert_eq!(found.confidence, 750_000);

    let mut config = BofDetectorConfig::default();
    config.confidence_threshold = 760_000;
    let mut strict = BofDetector::with_config(config);
    assert!(strict
        .scan_buffer(7, "a", "", 0, &[0x4C, 0x8B, 0xD1, 0xB8, 0x53, 0x48, 0x83, 0xEC], 0)
        .is_none());
}

#[test]
fn addresses_relative_to_the_code() {
    let detector = BofDetector::new();
    let load = [0x48, 0x8D, 0x05, 0x00];
    assert!(!detector.detect_coff_relocations(&load.repeat(2)));
    assert!(detector.detect_coff_relocations(&load.repeat(3)));
    assert!(!detector.detect_api_hashing(&[0xC1, 0xC8, 0x0D, 0xAC]));
}

#[test]
fn a_detection_becomes_an_event() {
    let detection = BofDetection {
        pid: 7,
        process_name: "a.exe".to_string(),
        process_path: "C:\\a.exe".to_string(),
        memory_address: 0xabc,
        region_size: 10,
        detection_type: BofDetectionType::CombinedIndicators,
        confidence: 900_000,
        detected_patterns: vec!["x".to_string(), "y".to_string()],
        coff_info: None,
        beacon_apis: vec!["BeaconOutput".to_string()],
        evidence: vec![],
    };
    let event = BofDetector::create_telemetry_event(&detection);
    assert_eq!(event.event_type, EventType::MemoryScan);
    assert_eq!(event.severity, Severity::Critical);
    assert_eq!(event.detections.len(), 1);
    assert_eq!(event.detections[0].detection_type, DetectionType::MemoryThreat);
    assert_eq!(event.detections[0].confidence, 900_000);
    assert!(event.detections[0]
        .description
        .ends_with(": a.exe (PID: 7) at 0xabc - 2 patterns detected, 1 Beacon APIs found"));
    match event.payload {
        EventPayload::MemoryPermission(memory) => {
            assert_eq!(memory.base_address, 0xabc);
            assert_eq!(memory.mem_type, 0x20000);
            assert_eq!(memory.transition_type, "bof_detection");
        }
        _ => panic!("not about memory"),
    }
}

#[test]
fn section_names_end_at_their_first_zero() {
    let detector = BofDetector::new();
    let mut buffer = vec![0u8; 100];
    buffer[0..4].copy_from_slice(&[0x64, 0x86, 1, 0]);
    buffer[20..28].copy_from_slice(b".text\0AB");
    let info = detector.parse_coff_header(&buffer).unwrap();
    assert_eq!(info.sections, vec![".text"]);
    assert!(info.is_likely_bof);
    buffer[20..28].copy_from_slice(b".textbss");
    let info = detector.parse_coff_header(&buffer).unwrap();
    assert_eq!(info.sections, vec![".textbss"]);
}

#[test]
fn large_regions_are_left_alone() {
    let mut buffer = coff(1, 0);
    buffer[100..109].copy_from_slice(&[0x65, 0x48, 0x8B, 0x04, 0x25, 0x60, 0x00, 0x00, 0x00]);
    let scanning_up_to = |size| {
        let mut config = BofDetectorConfig::default();
        config.max_scan_size = size;
        BofDetector::with_config(config)
    };
    assert!(scanning_up_to(199).scan_buffer(7, "a", "", 0, &buffer, 0).is_none());
    assert!(scanning_up_to(200).scan_buffer(7, "a", "", 0, &buffer, 0).is_some());
}
