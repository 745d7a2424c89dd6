use tamandua_analyzers::behavioral_chains::{
    BehavioralChainAnalyzer, BehavioralEventType, ChainSeverity, TimestampedEvent,
};
use tamandua_analyzers::telemetry::Metadata;

fn event(timestamp: u64, pid: u32, kind: BehavioralEventType, technique: &str) -> TimestampedEvent {
    TimestampedEvent {
        timestamp,
        pid,
        parent_pid: 1000,
        process_name: "test.exe".to_string(),
        event_type: kind,
        mitre_technique: Some(technique.to_string()),
        context: Metadata::new(),
    }
}

#[test]
fn test_new_analyzer() {
    let analyzer = BehavioralChainAnalyzer::new();
    assert!(analyzer.get_chains().is_empty());
}

#[test]
fn test_add_single_event() {
    let mut analyzer = BehavioralChainAnalyzer::new();

    analyzer.add_event(event(
        1000,
        1234,
        BehavioralEventType::ProcessEnumeration,
        "T1087",
    ));

    let chains = analyzer.get_chains();
    assert_eq!(chains.len(), 1);
    assert_eq!(chains[0].events.len(), 1);
}

#[test]
fn test_chain_correlation() {
    let mut analyzer = BehavioralChainAnalyzer::new();

    let events = vec![
        event(1000, 1234, BehavioralEventType::ProcessEnumeration, "T1087"),
        event(2000, 1234, BehavioralEventType::CredentialDump, "T1003"),
        event(3000, 1234, BehavioralEventType::SmbConnection, "T1021.002"),
    ];

    for event in events {
        analyzer.add_event(event);
    }

    let chains = analyzer.get_chains();
    assert_eq!(chains.len(), 1);
    assert_eq!(chains[0].events.len(), 3);
    assert!(chains[0].matched_pattern.is_some());
}

#[test]
fn behavioral_chains_test_pattern_matching() {
    let analyzer = BehavioralChainAnalyzer::new();

    let pattern = &analyzer.patterns[0];
    let events = vec![
        BehavioralEventType::ProcessEnumeration,
        BehavioralEventType::CredentialDump,
        BehavioralEventType::SmbConnection,
    ];

    let confidence = analyzer.match_pattern(pattern, &events);
    assert!(confidence.is_some());
    assert!(confidence.unwrap() as f32 / 1_000_000.0 > 0.8);
}

#[test]
fn test_severity_calculation() {
    assert_eq!(
        ChainSeverity::from_confidence(950_000, 4),
        ChainSeverity::Critical
    );
    assert_eq!(
        ChainSeverity::from_confidence(750_000, 3),
        ChainSeverity::High
    );
    assert_eq!(
        ChainSeverity::from_confidence(550_000, 2),
        ChainSeverity::Medium
    );
    assert_eq!(
        ChainSeverity::from_confidence(300_000, 1),
        ChainSeverity::Low
    );
}
