use tamandua_analyzers::aggregation::AlertAggregator;
use tamandua_analyzers::alert::{
    Alert, AlertSeverity, AlertStatus, NetworkContext, ProcessContext,
};
use tamandua_analyzers::telemetry::{
    Detection, DetectionType, EventPayload, EventType, FileEvent, Metadata, Severity,
    TelemetryEvent,
};

fn alert(title: &str, description: &str) -> Alert {
    Alert::new_as(
        "id".to_string(),
        title.to_string(),
        description.to_string(),
        AlertSeverity::Medium,
        0,
    )
}

#[test]
fn fingerprints_are_digests() {
    assert_eq!(
        alert("Test Alert", "x").fingerprint(),
        "a39d0890e3c3290e0357c56d752eb293f595322768a9c603d69a1ecbe5fdb38d"
    );
    let mut net = Alert::new_as(
        "id".to_string(),
        "Net".to_string(),
        "d".to_string(),
        AlertSeverity::High,
        0,
    );
    net.network_context = Some(NetworkContext {
        pid: 1,
        process_name: "p".to_string(),
        local_ip: "l".to_string(),
        local_port: 1,
        remote_ip: "203.0.113.5".to_string(),
        remote_port: 443,
        protocol: "tcp".to_string(),
        direction: "out".to_string(),
    });
    assert_eq!(net.fingerprint(), "e5610061a559e4907bf0165c3042dee60a6e8d85e8105b08b6881118fb98a419");
}

#[test]
fn fingerprints_tell_subjects_apart() {
    let plain = alert("a", "x");
    assert_eq!(plain.fingerprint(), alert("a", "y").fingerprint());
    assert_ne!(plain.fingerprint(), alert("b", "x").fingerprint());
    let mut about = alert("a", "x");
    about.process_context = Some(ProcessContext {
        pid: 1,
        ppid: 2,
        name: "n".to_string(),
        path: "p".to_string(),
        cmdline: "c".to_string(),
        user: "u".to_string(),
        sha256: "s".to_string(),
        parent_name: None,
        parent_path: None,
        is_elevated: false,
        is_signed: false,
        signer: None,
    });
    assert_ne!(plain.fingerprint(), about.fingerprint());
}

#[test]
fn weights_follow_levels() {
    let all = [
        AlertSeverity::Info,
        AlertSeverity::Low,
        AlertSeverity::Medium,
        AlertSeverity::High,
        AlertSeverity::Critical,
    ];
    for pair in all.windows(2) {
        assert!(pair[0].weight() < pair[1].weight());
        assert!(pair[0].level() < pair[1].level());
    }
    assert_eq!(AlertSeverity::default(), AlertSeverity::Medium);
    assert_eq!(AlertStatus::default(), AlertStatus::New);
    assert_eq!(AlertSeverity::Medium.weight(), 500_000);
    assert_eq!(AlertSeverity::Critical.name(), "Critical");
    assert_eq!(
        AlertSeverity::from_detection_severity(&Severity::High),
        AlertSeverity::High
    );
}

#[test]
fn a_detection_raises_an_alert_about_its_event() {
    let event = TelemetryEvent {
        event_id: "e1".to_string(),
        event_type: EventType::FileWrite,
        timestamp: 5,
        severity: Severity::Critical,
        payload: EventPayload::File(FileEvent {
            path: "/a".to_string(),
            old_path: None,
            operation: "write".to_string(),
            pid: 3,
            process_name: "p".to_string(),
            sha256: vec![0x0f, 0xa0, 0xff],
            size: 9,
            entropy: 7_500_000,
            file_type: "bin".to_string(),
        }),
        detections: vec![],
        metadata: Metadata::new(),
    };
    let detection = Detection {
        detection_type: DetectionType::Malware,
        rule_name: "R".to_string(),
        confidence: 420_000,
        description: "D".to_string(),
        mitre_tactics: vec!["TA1".to_string()],
        mitre_techniques: vec!["T1".to_string(), "T2".to_string()],
    };
    let alert = Alert::from_detection_as("id7".to_string(), &event, &detection, 99);
    assert_eq!(alert.alert_id, "id7");
    assert_eq!(alert.title, "R");
    assert_eq!(alert.description, "D");
    assert_eq!(alert.severity, AlertSeverity::Critical);
    assert_eq!(alert.status, AlertStatus::New);
    assert_eq!(alert.created_at, 99);
    assert_eq!(alert.confidence, 420_000);
    assert_eq!(alert.related_event_ids, vec!["e1".to_string()]);
    assert_eq!(alert.mitre_mapping.techniques.len(), 2);
    let file = alert.file_context.unwrap();
    assert_eq!(file.sha256, "0fa0ff");
    assert_eq!(file.entropy, 7_500_000);
    assert!(alert.process_context.is_none());

    let now = Alert::from_detection(&event, &detection);
    assert_eq!(now.title, "R");
    assert!(now.created_at > 0);
    assert_eq!(now.alert_id.len(), 36);
}

#[test]
fn the_first_alert_goes_out_and_repetitions_do_not() {
    let mut aggregator = AlertAggregator::new();
    assert!(aggregator.process_at(alert("a", "1"), 0).is_some());
    assert!(aggregator.process_at(alert("a", "2"), 1_000).is_none());
    assert!(aggregator.process_at(alert("b", "3"), 2_000).is_some());
    assert!(aggregator.process_at(alert("a", "4"), 299_999).is_none());
    assert!(aggregator.process_at(alert("a", "5"), 300_000).is_some());
}

#[test]
fn too_many_repetitions_are_summed_up() {
    let mut aggregator = AlertAggregator::with_window(60);
    assert!(aggregator.process_at(alert("a", "first"), 0).is_some());
    for i in 1..100 {
        assert!(aggregator.process_at(alert("a", "again"), i).is_none());
    }
    let summed = aggregator.process_at(alert("a", "last"), 100).unwrap();
    assert_eq!(summed.suppression_count, 100);
    assert_eq!(summed.description, "first");
    assert!(aggregator.process_at(alert("a", "new"), 101).is_some());
}

#[test]
fn a_flush_gives_one_alert_for_each_that_was_repeated() {
    let mut aggregator = AlertAggregator::default();
    aggregator.process_at(alert("a", "1"), 0);
    aggregator.process_at(alert("a", "2"), 1);
    aggregator.process_at(alert("b", "3"), 2);
    let flushed = aggregator.flush();
    assert_eq!(flushed.len(), 1);
    assert_eq!(flushed[0].title, "a");
    assert_eq!(flushed[0].suppression_count, 1);
    assert!(aggregator.flush().is_empty());
    assert!(aggregator.process(alert("a", "4")).is_some());
}

#[test]
fn identifiers_are_written_with_four_hyphens() {
    let alert = Alert::new("t".to_string(), "d".to_string(), AlertSeverity::Low);
    let id: Vec<char> = alert.alert_id.chars().collect();
    assert_eq!(id.len(), 36);
    for (i, c) in id.iter().enumerate() {
        if [8, 13, 18, 23].contains(&i) {
            assert_eq!(*c, '-');
        } else {
            assert!(c.is_ascii_digit() || ('a'..='f').contains(c));
        }
    }
}
