use tamandua_analyzers::indirect_syscall::{
    indirect_syscall_patterns, IndirectSyscallAnalyzer, MemoryScanner, NtdllModule, NtdllReadEvent,
    RegionInfo,
};

fn stub() -> Vec<u8> {
    vec![0x4C, 0x8B, 0xD1, 0xB8, 0x18, 0x00, 0x00, 0x00, 0x0F, 0x05, 0xC3]
}

#[test]
fn reports_meet_the_threshold() {
    let analyzer = IndirectSyscallAnalyzer::new();
    let found = analyzer.analyze_memory_region(7, 0x1000, 11, &stub(), "a.exe");
    assert!(!found.is_empty());
    for event in &found {
        assert!(event.confidence >= analyzer.confidence_threshold);
        assert!(event.confidence <= 1_000_000);
        assert_eq!(event.pid, 7);
        assert_eq!(event.process_name, "a.exe");
        assert_eq!(event.stub_region_base, Some(0x1000));
        assert!(!event.from_ntdll);
    }
    assert!(analyzer
        .analyze_memory_region(7, 0x1000, 4, &[0, 0, 0, 0], "a.exe")
        .is_empty());
}

#[test]
fn patterns_and_numbers() {
    let analyzer = IndirectSyscallAnalyzer::new();
    assert_eq!(analyzer.find_all_patterns(&[1, 2, 1, 2, 1], &[1, 2]), vec![0, 2]);
    assert!(analyzer.find_all_patterns(&[1], &[1, 2]).is_empty());
    let mut inside = vec![0x90; 4];
    inside.extend(stub());
    assert!(analyzer.has_complete_syscall_stub(&inside, 4));
    assert!(!analyzer.has_complete_syscall_stub(&inside, 3));
    assert!(!analyzer.has_complete_syscall_stub(&[0x90; 30], 10));
    assert_eq!(analyzer.extract_ssn_after_pattern(&[0x4C, 0x8B, 0xD1], 0, 3), None);
    let before = [0, 0, 0, 0, 0, 0xB8, 0x18, 0, 0, 0, 0x0F, 0x05];
    assert_eq!(analyzer.extract_ssn_before_pattern(&before, 10), Some(0x18));
    assert_eq!(analyzer.extract_ssn_before_pattern(&before[1..], 9), None);
    assert_eq!(analyzer.resolve_ssn_name(0xFFFF_FFFF), None);
    assert!(!indirect_syscall_patterns().is_empty());
}

#[test]
fn processes_have_profiles() {
    let mut analyzer = IndirectSyscallAnalyzer::new();
    assert_eq!(analyzer.get_anomaly_score(7), None);
    analyzer.record_syscall(7, "a.exe", false, 0x10, Some(1), 100);
    assert!(analyzer.get_anomaly_score(7).is_some());
    assert_eq!(analyzer.get_stats().0, 1);
    assert!(!analyzer.is_process_scanning_ntdll(7));
    for i in 0..200u64 {
        analyzer.record_ntdll_read(
            7,
            "a.exe",
            NtdllReadEvent {
                pid: 7,
                tid: 1,
                read_address: i * 0x1000,
                read_size: 0x1000,
                timestamp: 100 + i,
            },
            100 + i,
        );
    }
    assert!(analyzer.is_process_scanning_ntdll(7));
    analyzer.remove_profile(7);
    assert_eq!(analyzer.get_anomaly_score(7), None);
    assert!(!analyzer.is_process_scanning_ntdll(7));
}

#[test]
fn addresses_of_the_system_library() {
    let mut analyzer = IndirectSyscallAnalyzer::new();
    assert!(!analyzer.is_in_ntdll(0x5000));
    assert!(!analyzer.initialize_ntdll_bounds(None));
    let image = vec![0u8; 64];
    analyzer.initialize_ntdll_bounds(Some(NtdllModule {
        base: 0x4000,
        size: 0x2000,
        image: &image,
    }));
    assert!(analyzer.is_in_ntdll(0x4000));
    assert!(analyzer.is_in_ntdll(0x5fff));
    assert!(!analyzer.is_in_ntdll(0x6000));
    assert!(analyzer.parse_text_section(&image, 0x4000).is_none());
}

#[test]
fn the_code_section_is_found() {
    let mut image = vec![0u8; 256];
    image[0] = 0x4D;
    image[1] = 0x5A;
    image[0x3C] = 0x40;
    image[0x40..0x44].copy_from_slice(&[0x50, 0x45, 0, 0]);
    image[0x46] = 2;
    let second = 0x40 + 24 + 40;
    image[second..second + 5].copy_from_slice(b".text");
    image[second + 8] = 0x80;
    image[second + 13] = 0x10;
    let mut analyzer = IndirectSyscallAnalyzer::new();
    assert_eq!(analyzer.parse_text_section(&image, 0x4000), Some((0x5000, 0x80)));
    assert!(analyzer.initialize_ntdll_bounds(Some(NtdllModule {
        base: 0x4000,
        size: 0x2000,
        image: &image,
    })));
    assert!(!analyzer.is_in_ntdll_text(0x4fff));
    assert!(analyzer.is_in_ntdll_text(0x5000));
    assert!(analyzer.is_in_ntdll_text(0x507f));
    assert!(!analyzer.is_in_ntdll_text(0x5080));
}

#[test]
fn regions_are_read_once() {
    let analyzer = IndirectSyscallAnalyzer::new();
    let mut scanner = MemoryScanner::new();
    let region = |base: u64, protection: u32| RegionInfo {
        base,
        size: 0x1000,
        is_private: true,
        is_committed: true,
        protection,
    };
    assert_eq!(scanner.bytes_to_read(7, &region(0x1000, 0x40)), Some(0x1000));
    assert_eq!(scanner.bytes_to_read(7, &region(0x1000, 0x04)), None);
    assert_eq!(MemoryScanner::next_address(&region(0x1000, 0x40)), Some(0x2000));
    let events = scanner.take_region(
        &analyzer, 7, "a.exe", "C:\\a.exe", "a", &region(0x1000, 0x40), &stub(),
    );
    assert!(!events.is_empty());
    assert!(scanner.has_scanned(7, 0x1000));
    assert_eq!(scanner.bytes_to_read(7, &region(0x1000, 0x40)), None);
    assert!(scanner
        .take_region(&analyzer, 7, "a", "", "", &region(0x9000, 0x40), &[])
        .is_empty());
    assert!(!scanner.has_scanned(7, 0x9000));
    assert!(MemoryScanner::is_target(500));
    assert!(!MemoryScanner::is_target(0));
}

#[test]
fn stubs_are_told_apart_by_how_they_end() {
    let analyzer = IndirectSyscallAnalyzer::new();
    let named = |memory: &[u8]| -> Vec<(String, Option<u32>)> {
        analyzer
            .analyze_memory_region(7, 0x1000, memory.len() as u64, memory, "a.exe")
            .into_iter()
            .filter(|e| e.pattern_name.as_ref().unwrap().starts_with("syswhispers"))
            .map(|e| (e.pattern_name.unwrap(), e.ssn))
            .collect()
    };
    assert_eq!(named(&stub()), vec![("syswhispers2_direct".to_string(), Some(0x18))]);
    let jump = [0x4C, 0x8B, 0xD1, 0xB8, 0x50, 0, 0, 0, 0x41, 0xFF, 0xE3];
    assert_eq!(named(&jump), vec![("syswhispers3_jmp_r11".to_string(), Some(0x50))]);
    let far = [0x4C, 0x8B, 0xD1, 0xB8, 0, 3, 0, 0, 0x0F, 0x05];
    assert_eq!(named(&far), vec![("syswhispers2_direct".to_string(), None)]);
    assert!(named(&[0x4C, 0x8B, 0xD1, 0xB8, 0x18, 0, 0, 0, 0x90, 0x90]).is_empty());
    assert!(named(&[0x4C, 0x8B, 0xD1, 0xB8, 0x18]).is_empty());
}

#[test]
fn no_more_processes_are_followed_than_allowed() {
    let mut analyzer = IndirectSyscallAnalyzer::new();
    analyzer.max_processes = 3;
    let read = |pid, now| NtdllReadEvent {
        pid,
        tid: 1,
        read_address: 0,
        read_size: 1,
        timestamp: now,
    };
    for pid in 1..=5u32 {
        analyzer.record_ntdll_read(pid, "a.exe", read(pid, 100), 100);
        assert!(analyzer.profiles.len() <= 3);
        assert!(analyzer.get_anomaly_score(pid).is_some());
    }
    assert_eq!(analyzer.get_anomaly_score(2), None);
    analyzer.record_syscall(3, "a.exe", true, 0, None, 100);
    analyzer.record_syscall(6, "a.exe", true, 0, None, 100);
    assert_eq!(analyzer.profiles.len(), 3);
    assert_eq!(analyzer.get_anomaly_score(3), None);
    analyzer.record_ntdll_read(7, "a.exe", read(7, 300_100), 300_100);
    assert_eq!(analyzer.profiles.len(), 1);
}

#[test]
fn the_nearest_number_counts() {
    let analyzer = IndirectSyscallAnalyzer::new();
    let twice = [0xB8, 0x18, 0, 0, 0, 0xB8, 0x50, 0, 0, 0, 0x0F, 0x05];
    assert_eq!(analyzer.extract_ssn_before_pattern(&twice, 10), Some(0x50));
}

#[test]
fn more_than_fifty_reads_are_a_scan() {
    let mut analyzer = IndirectSyscallAnalyzer::new();
    for i in 0..51u64 {
        assert!(!analyzer.is_process_scanning_ntdll(7));
        let read = NtdllReadEvent {
            pid: 7,
            tid: 1,
            read_address: i,
            read_size: 1,
            timestamp: 100,
        };
        analyzer.record_ntdll_read(7, "a.exe", read, 100);
    }
    assert!(analyzer.is_process_scanning_ntdll(7));
}
