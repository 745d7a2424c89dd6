use tamandua_analyzers::data_staging::{
    DataStagingDetector, FileAccessEvent, FileAccessType, StagingDetectionType,
};

#[test]
fn test_high_value_detection() {
    let detector = DataStagingDetector::new();
    assert!(detector.is_high_value_file("document.docx"));
    assert!(detector.is_high_value_file("credentials.json"));
    assert!(detector.is_high_value_file("database.sqlite"));
    assert!(!detector.is_high_value_file("program.exe"));
}

#[test]
fn test_staging_location() {
    let detector = DataStagingDetector::new();
    assert!(detector.is_staging_location("C:\\Windows\\Temp\\data.zip"));
    assert!(detector.is_staging_location("/tmp/collected.tar"));
    assert!(!detector.is_staging_location("C:\\Program Files\\app.exe"));
}

#[test]
fn test_credential_store() {
    let detector = DataStagingDetector::new();
    assert!(detector.is_credential_store("Login Data"));
    assert!(detector.is_credential_store("passwords.kdbx"));
    assert!(detector.is_credential_store("C:\\Windows\\System32\\config\\SAM"));
    assert!(!detector.is_credential_store(
        "\\Device\\HarddiskVolume2\\Windows\\System32\\winevt\\Logs\\Application.evtx"
    ));
    assert!(!detector.is_credential_store(
        "\\Device\\HarddiskVolume2\\Windows\\System32\\Tasks\\Microsoft\\Windows\\SoftwareProtectionPlatform\\SvcRestartTask"
    ));
    assert!(!detector.is_credential_store(
        "\\Device\\HarddiskVolume2\\Windows\\System32\\config\\systemprofile\\AppData\\Local\\Microsoft\\Windows\\PowerShell\\StartupProfileData-NonInteractive"
    ));
}

#[test]
fn test_operating_system_database_paths_are_low_signal() {
    let detector = DataStagingDetector::new();

    assert!(detector.is_low_signal_path(
        "\\Device\\HarddiskVolume2\\ProgramData\\Microsoft\\Network\\Downloader\\qmgr.db"
    ));
    assert!(detector.is_low_signal_path(
        "\\Device\\HarddiskVolume2\\ProgramData\\Microsoft\\Windows Defender\\Scans\\mpenginedb.db"
    ));
    assert!(!detector.is_sensitive_database_path(
        "\\Device\\HarddiskVolume2\\ProgramData\\Microsoft\\Network\\Downloader\\qmgr.db"
    ));
}

#[test]
fn test_database_detection_requires_sensitive_path() {
    let mut detector = DataStagingDetector::new();

    let os_database_event = FileAccessEvent {
        timestamp: 1000,
        pid: 4,
        process_name: "System".to_string(),
        file_path: "\\Device\\HarddiskVolume2\\ProgramData\\Microsoft\\Network\\Downloader\\qmgr.db"
            .to_string(),
        access_type: FileAccessType::Write,
        bytes_read: None,
        bytes_written: Some(4096),
    };

    let detections = detector.process_event(os_database_event);
    assert!(detections
        .iter()
        .all(|d| !matches!(d.detection_type, StagingDetectionType::DatabaseAccess)));
}

#[test]
fn test_archive_detection() {
    let mut detector = DataStagingDetector::new();

    for i in 0..10 {
        let event = FileAccessEvent {
            timestamp: 1000 + i * 100,
            pid: 1234,
            process_name: "test.exe".to_string(),
            file_path: format!("C:\\Users\\test\\doc{}.docx", i),
            access_type: FileAccessType::Read,
            bytes_read: Some(10000),
            bytes_written: None,
        };
        detector.process_event(event);
    }

    let archive_event = FileAccessEvent {
        timestamp: 2000,
        pid: 1234,
        process_name: "test.exe".to_string(),
        file_path: "C:\\Windows\\Temp\\collected.zip".to_string(),
        access_type: FileAccessType::Write,
        bytes_read: None,
        bytes_written: Some(100000),
    };

    let detections = detector.process_event(archive_event);
    assert!(!detections.is_empty());
    assert!(detections
        .iter()
        .any(|d| matches!(d.detection_type, StagingDetectionType::ArchiveCreation)));
}
