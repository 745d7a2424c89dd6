use tamandua_analyzers::data_staging::{
    system_drive, DataStagingDetector, FileAccessEvent, FileAccessType, StagingDetectionType,
};

fn access(pid: u32, path: &str, kind: FileAccessType) -> FileAccessEvent {
    FileAccessEvent {
        timestamp: 1_000,
        pid,
        process_name: "p.exe".to_string(),
        file_path: path.to_string(),
        access_type: kind,
        bytes_read: Some(10),
        bytes_written: None,
    }
}

fn kinds(detector: &mut DataStagingDetector, event: FileAccessEvent) -> Vec<StagingDetectionType> {
    detector
        .process_event(event)
        .iter()
        .map(|d| d.detection_type)
        .collect()
}

#[test]
fn passwords_mail_and_databases() {
    let mut detector = DataStagingDetector::on_system(None);
    let found = detector.process_event(access(1, "/etc/shadow", FileAccessType::Read));
    assert_eq!(found.len(), 1);
    assert_eq!(found[0].detection_type, StagingDetectionType::CredentialStoreAccess);
    assert_eq!(found[0].confidence, 900_000);
    assert_eq!(found[0].mitre_technique, "T1555");
    assert_eq!(found[0].files_involved, vec!["/etc/shadow"]);
    assert_eq!(found[0].timestamp, 1_000);
    assert!(kinds(&mut detector, access(1, "mail.pst", FileAccessType::Read))
        .contains(&StagingDetectionType::EmailStoreAccess));
    assert!(kinds(&mut detector, access(1, "/documents/a.sqlite", FileAccessType::Read))
        .contains(&StagingDetectionType::DatabaseAccess));
    assert_eq!(detector.get_detections().len(), 3);
    assert!(detector
        .get_high_confidence_detections()
        .iter()
        .all(|d| d.confidence >= 700_000));
}

#[test]
fn shares_and_removable_media() {
    let mut detector = DataStagingDetector::on_system(Some("c:".to_string()));
    assert!(kinds(&mut detector, access(1, "\\\\server\\share\\x.bin", FileAccessType::Write))
        .contains(&StagingDetectionType::NetworkShareStaging));
    assert!(kinds(&mut detector, access(1, "E:\\x.bin", FileAccessType::Copy))
        .contains(&StagingDetectionType::RemovableMediaStaging));
    assert!(kinds(&mut detector, access(1, "C:\\x.bin", FileAccessType::Copy)).is_empty());
    assert!(kinds(&mut detector, access(1, "E:\\x.bin", FileAccessType::Read)).is_empty());
    assert_eq!(system_drive(None, None), "C:");
    assert_eq!(system_drive(Some("D:".to_string()), None), "D:");
    assert_eq!(system_drive(Some("D".to_string()), Some("E:\\Windows".to_string())), "E:");
}

#[test]
fn paths_that_are_touched_all_the_time_are_passed_over() {
    let mut detector = DataStagingDetector::on_system(None);
    let before = detector.process_activity.len();
    assert!(kinds(
        &mut detector,
        access(9, "/home/u/node_modules/passwords.kdbx", FileAccessType::Write)
    )
    .is_empty());
    assert_eq!(detector.process_activity.len(), before);
    assert!(detector.get_detections().is_empty());
}

#[test]
fn archives_count_only_after_reading() {
    let mut detector = DataStagingDetector::on_system(None);
    assert!(kinds(&mut detector, access(1, "/data/out.zip", FileAccessType::Create)).is_empty());
    for i in 0..6 {
        assert!(kinds(
            &mut detector,
            access(1, &format!("/data/f{}.bin", i), FileAccessType::Read)
        )
        .is_empty());
    }
    let found = detector.process_event(access(1, "/data/out.zip", FileAccessType::Create));
    assert_eq!(found.len(), 1);
    assert_eq!(found[0].detection_type, StagingDetectionType::ArchiveCreation);
    assert_eq!(
        found[0].description,
        "Process created archive after reading 6 files"
    );
    assert_eq!(found[0].staging_location, Some("/data".to_string()));
    assert!(kinds(&mut detector, access(2, "/data/out.zip", FileAccessType::Create)).is_empty());
    detector.clear_process(1);
    assert!(kinds(&mut detector, access(1, "/data/out.zip", FileAccessType::Create)).is_empty());
}

#[test]
fn collections_grow_sure_with_their_size() {
    let mut detector = DataStagingDetector::on_system(None);
    let mut last = vec![];
    for i in 0..30 {
        last = detector.process_event(access(
            1,
            &format!("/home/u/documents/report{}.docx", i),
            FileAccessType::Read,
        ));
    }
    let found = last
        .iter()
        .find(|d| d.detection_type == StagingDetectionType::HighValueFileCollection)
        .unwrap();
    assert_eq!(found.confidence, 1_000_000);
    assert_eq!(found.files_involved.len(), 10);
    assert_eq!(
        found.description,
        "Process accessed 30 high-value files"
    );
    assert!(detector.get_detections().len() <= 100);
}

#[test]
fn the_first_staging_directory_is_kept() {
    let mut detector = DataStagingDetector::on_system(None);
    detector.process_event(access(5, "/tmp/one/a.bin", FileAccessType::Write));
    detector.process_event(access(5, "/tmp/two/b.bin", FileAccessType::Write));
    let known = detector.process_activity.get(&5).unwrap();
    assert_eq!(known.staging_directory, Some("/tmp/one".to_string()));
}
