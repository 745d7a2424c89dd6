use tamandua_analyzers::behavioral_chains::{
    BehavioralChainAnalyzer, BehavioralEventType, ChainSeverity, TimestampedEvent,
};
use tamandua_analyzers::telemetry::Metadata;

fn event(timestamp: u64, pid: u32, parent: u32, kind: BehavioralEventType) -> TimestampedEvent {
    TimestampedEvent {
        timestamp,
        pid,
        parent_pid: parent,
        process_name: format!("p{}.exe", pid),
        event_type: kind,
        mitre_technique: None,
        context: Metadata::new(),
    }
}

#[test]
fn sequences_may_have_gaps() {
    let analyzer = BehavioralChainAnalyzer::new();
    let pattern = &analyzer.patterns[0];
    let whole = pattern.sequence.clone();
    assert_eq!(
        analyzer.match_pattern(pattern, &whole),
        Some(pattern.base_confidence)
    );
    let mut with_gap = whole.clone();
    with_gap.insert(1, BehavioralEventType::SuspiciousActivity);
    assert_eq!(
        analyzer.match_pattern(pattern, &with_gap),
        Some(pattern.base_confidence)
    );
    let mut longer = whole.clone();
    longer.push(BehavioralEventType::LogClearing);
    assert!(analyzer.match_pattern(pattern, &longer).is_some());
    let reversed: Vec<BehavioralEventType> = whole.iter().rev().copied().collect();
    assert_eq!(analyzer.match_pattern(pattern, &reversed), None);
    assert_eq!(analyzer.match_pattern(pattern, &[]), None);
}

#[test]
fn relatives_share_a_chain() {
    let mut analyzer = BehavioralChainAnalyzer::with_window(1_000);
    analyzer.add_event_as(event(0, 10, 1, BehavioralEventType::ShellExecution), "one");
    analyzer.add_event_as(event(5_000, 20, 10, BehavioralEventType::ShellExecution), "two");
    assert_eq!(analyzer.get_chains().len(), 1);
    analyzer.add_event_as(event(10_000, 99, 50, BehavioralEventType::ShellExecution), "three");
    let chains = analyzer.get_chains();
    assert_eq!(chains.len(), 1);
    assert_eq!(chains[0].id, "chain_three");
    let related = analyzer.get_related_processes(10);
    assert!(related.contains(&10));
    assert!(related.contains(&1));
    assert!(related.contains(&20));
    assert!(!related.contains(&99));
}

#[test]
fn events_close_in_time_share_a_chain() {
    let mut analyzer = BehavioralChainAnalyzer::with_window(1_000);
    analyzer.add_event_as(event(0, 10, 0, BehavioralEventType::ShellExecution), "one");
    analyzer.add_event_as(event(999, 20, 0, BehavioralEventType::ShellExecution), "two");
    assert_eq!(analyzer.get_chains().len(), 1);
    analyzer.add_event_as(event(1_999, 30, 0, BehavioralEventType::ShellExecution), "three");
    assert_eq!(analyzer.get_chains().len(), 2);
    assert_eq!(analyzer.event_buffer.len(), 2);
}

#[test]
fn a_chain_without_a_pattern_is_weighed_by_its_variety() {
    let mut analyzer = BehavioralChainAnalyzer::new();
    analyzer.add_event_as(event(0, 10, 0, BehavioralEventType::ClipboardAccess), "one");
    let chains = analyzer.get_chains();
    assert_eq!(chains[0].confidence, 100_000);
    assert_eq!(chains[0].severity, ChainSeverity::Low);
    analyzer.add_event_as(event(1, 11, 0, BehavioralEventType::TimestampModification), "two");
    let chains = analyzer.get_chains();
    assert_eq!(chains.len(), 1);
    assert!(chains[0].matched_pattern.is_none());
    assert_eq!(chains[0].confidence, 340_000);
    assert_eq!(chains[0].tactics.len(), 2);
}

#[test]
fn severe_chains_are_exported() {
    let mut analyzer = BehavioralChainAnalyzer::new();
    assert!(analyzer.export_for_alert().is_empty());
    for (i, kind) in [
        BehavioralEventType::ProcessEnumeration,
        BehavioralEventType::CredentialDump,
        BehavioralEventType::SmbConnection,
    ]
    .iter()
    .enumerate()
    {
        let mut e = event(1_000 * i as u64, 7, 1, *kind);
        e.mitre_technique = Some("T1".to_string());
        analyzer.add_event_as(e, "c");
    }
    let alerts = analyzer.export_for_alert();
    assert_eq!(alerts.len(), 1);
    assert_eq!(alerts[0].chain_id, "chain_c");
    assert_eq!(alerts[0].event_count, 3);
    assert_eq!(alerts[0].process_count, 1);
    assert_eq!(alerts[0].techniques, vec!["T1"]);
    assert_eq!(alerts[0].tactics.len(), 3);
    assert_eq!(alerts[0].duration_ms, 2_000);
    assert_eq!(
        alerts[0].summary,
        "3 events across 1 processes: [ProcessEnumeration, CredentialDump, SmbConnection]"
    );
    let name = alerts[0].pattern.clone().unwrap();
    assert_eq!(analyzer.get_chains_by_pattern(&name).len(), 1);
    assert!(analyzer.get_chains_by_pattern("none").is_empty());
    assert_eq!(analyzer.get_high_severity_chains().len(), 1);
    assert_eq!(analyzer.generate_summary(&vec![]), "No events");
}

#[test]
fn no_more_chains_than_fit_are_followed() {
    let mut analyzer = BehavioralChainAnalyzer::with_window(0);
    for i in 0..1_050u32 {
        analyzer.add_event(event(5, 1_000 + i, 0, BehavioralEventType::ShellExecution));
    }
    assert_eq!(analyzer.get_chains().len(), 1_000);
}

#[test]
fn severity_grows_with_confidence_and_tactics() {
    let level = |s: ChainSeverity| match s {
        ChainSeverity::Low => 0,
        ChainSeverity::Medium => 1,
        ChainSeverity::High => 2,
        ChainSeverity::Critical => 3,
    };
    for tactics in 0..6 {
        for step in 0..20u32 {
            let low = ChainSeverity::from_confidence(step * 50_000, tactics);
            let high = ChainSeverity::from_confidence((step + 1) * 50_000, tactics);
            let more = ChainSeverity::from_confidence(step * 50_000, tactics + 1);
            assert!(level(low) <= level(high));
            assert!(level(low) <= level(more));
        }
    }
}

#[test]
fn a_chain_holds_its_newest_hundred_events() {
    let mut analyzer = BehavioralChainAnalyzer::new();
    for time in 1..=101 {
        analyzer.add_event_as(event(time, 7, 1, BehavioralEventType::ShellExecution), "id");
    }
    let chains = analyzer.get_chains();
    assert_eq!(chains.len(), 1);
    assert_eq!(chains[0].events.len(), 100);
    assert_eq!(chains[0].events[0].timestamp, 2);
    assert_eq!(chains[0].events[99].timestamp, 101);
}

#[test]
fn descendants_are_related_at_any_depth() {
    let mut analyzer = BehavioralChainAnalyzer::new();
    for (pid, parent) in [(4, 3), (3, 2), (2, 1), (50, 49)] {
        analyzer.add_event_as(
            event(0, pid, parent, BehavioralEventType::ShellExecution),
            "id",
        );
    }
    for pid in 1..=4 {
        let related = analyzer.get_related_processes(pid);
        for other in 1..=4 {
            assert!(related.contains(&other));
        }
        assert_eq!(related.len(), 4);
    }
}
