use tamandua_analyzers::baseline::ProcessBaseline;
use tamandua_analyzers::behavioral::{
    character_counts, consonant_ratio, BehavioralAnalyzer, BehavioralConfig,
};
use tamandua_analyzers::risk::RiskScore;
use tamandua_analyzers::statistics::{HourlyPattern, RollingStats};
use tamandua_analyzers::telemetry::{EventPayload, ProcessEvent};

fn process(name: &str, path: &str, cmdline: &str, parent: &str) -> ProcessEvent {
    ProcessEvent {
        pid: 1234,
        ppid: 100,
        name: name.to_string(),
        path: path.to_string(),
        cmdline: cmdline.to_string(),
        user: "user".to_string(),
        sha256: vec![],
        entropy: 0,
        is_elevated: false,
        parent_name: Some(parent.to_string()),
        parent_path: Some("C:\\Windows\\explorer.exe".to_string()),
        is_signed: true,
        signer: Some("Microsoft".to_string()),
        start_time: 0,
        cpu_usage: 0,
        memory_bytes: 0,
        company_name: None,
        file_description: None,
        product_name: None,
        file_version: None,
        environment: None,
    }
}

fn entropy(text: &str) -> f64 {
    let counts = character_counts(text);
    let total: u64 = counts.iter().map(|c| c.1).sum();
    counts
        .iter()
        .map(|c| {
            let p = c.1 as f64 / total as f64;
            -p * p.log2()
        })
        .sum()
}

#[test]
fn test_rolling_stats() {
    let mut stats = RollingStats::new(10);

    for i in 0..10i32 {
        stats.add(i * 1000, i as u64 * 1000);
    }

    assert_eq!(stats.count(), 10);
    assert!((stats.mean() as f64 / 1_000_000.0 - 4.5).abs() < 0.001);
    assert!(stats.std_dev() > 0);
}

#[test]
fn test_rolling_stats_zscore() {
    let mut stats = RollingStats::new(100);

    for i in 0..100i32 {
        stats.add((50 + i % 10 - 5) * 1000, i as u64 * 1000);
    }

    assert!((stats.zscore(50_000) as f64 / 1_000_000.0).abs() < 1.0);
    assert!((stats.zscore(100_000) as f64 / 1_000_000.0).abs() > 2.0);
}

#[test]
fn test_hourly_pattern() {
    let mut pattern = HourlyPattern::default();

    for _ in 0..100 {
        for hour in 9..17 {
            pattern.record(hour);
        }
    }

    assert!(pattern.expected_rate(12) > pattern.expected_rate(3));
    assert!(pattern.is_low_activity_period(3));
}

#[test]
fn test_process_baseline() {
    let mut baseline = ProcessBaseline::new("test.exe");

    let mut proc = process(
        "test.exe",
        "C:\\test\\test.exe",
        "test.exe --flag",
        "explorer.exe",
    );
    proc.pid = 1234;

    baseline.update_from_process(&proc, 1000000);

    assert!(baseline.known_parents.contains("explorer.exe"));
    assert_eq!(baseline.observation_count, 1);
}

#[test]
fn test_risk_score_decay() {
    let mut score = RiskScore::new("test.exe");
    score.add_factor("test", 50_000_000, "test factor");

    score.last_update = score.last_update - 3600000;
    score.apply_decay(10_000_000);

    assert!(score.score < 50_000_000);
}

#[test]
fn test_lsass_process_tree_does_not_flag_legitimate_lsass() {
    let proc = process(
        "lsass.exe",
        "C:\\Windows\\System32\\lsass.exe",
        "C:\\Windows\\System32\\lsass.exe",
        "wininit.exe",
    );

    assert!(!BehavioralAnalyzer::is_lsass_masquerade(
        &proc,
        "wininit.exe",
        "lsass.exe"
    ));
}

#[test]
fn test_lsass_masquerade_flags_non_system_lsass() {
    let proc = process(
        "lsass.exe",
        "C:\\Users\\Public\\lsass.exe",
        "C:\\Users\\Public\\lsass.exe",
        "explorer.exe",
    );

    assert!(BehavioralAnalyzer::is_lsass_masquerade(
        &proc,
        "explorer.exe",
        "lsass.exe"
    ));
}

#[test]
fn test_unusual_time_alone_does_not_create_high_risk_score() {
    let mut score = RiskScore::new("pwsh.exe");
    for _ in 0..20 {
        score.add_factor("unusual_time", 5_000_000, "night execution");
    }

    assert!(!BehavioralAnalyzer::risk_score_has_actionable_signal(
        &score, 75_000_000
    ));

    score.add_factor("encoded_command", 20_000_000, "encoded PowerShell");
    assert!(BehavioralAnalyzer::risk_score_has_actionable_signal(
        &score, 75_000_000
    ));
}

#[test]
fn test_repeated_rare_destination_alone_does_not_create_high_risk_score() {
    let mut score = RiskScore::new("sshd");
    for _ in 0..10 {
        score.add_factor("rare_destination", 10_000_000, "rare destination");
        score.add_factor("unusual_time", 5_000_000, "unusual hour");
    }

    assert!(!BehavioralAnalyzer::risk_score_has_actionable_signal(
        &score, 75_000_000
    ));

    score.add_factor("new_destination", 10_000_000, "new destination");
    assert!(BehavioralAnalyzer::risk_score_has_actionable_signal(
        &score, 75_000_000
    ));
}

#[test]
fn test_string_entropy() {
    assert!(entropy("xkcd7nq9mzplwo") > 3.5);
    assert!(entropy("aaaaaaaaaa") < 0.1);
    let normal = entropy("google.com");
    assert!(normal > 2.0 && normal < 3.5);
}

#[test]
fn test_consonant_ratio() {
    assert!(consonant_ratio("xkcdnqmzplw") as f32 / 1_000_000.0 > 0.8);
    assert!((consonant_ratio("hello") as f32 / 1_000_000.0) < 0.7);
}

#[test]
fn test_behavioral_analyzer_learning_mode() {
    let mut config = BehavioralConfig::default();
    config.learning_duration_hours = 0;
    let mut analyzer = BehavioralAnalyzer::new(config);

    analyzer.complete_learning();
    assert!(!analyzer.is_learning(1_700_000_000_000));
}

#[test]
fn test_export_risk_score_disabled_by_default() {
    let analyzer = BehavioralAnalyzer::new(BehavioralConfig::default());
    let events = analyzer.export_risk_score_events();
    assert!(
        events.is_empty(),
        "Should emit nothing when runtime flag is off"
    );
}

#[test]
fn test_export_risk_score_enabled_emits_snapshots() {
    let mut config = BehavioralConfig::default();
    config.export_risk_score = true;
    let mut analyzer = BehavioralAnalyzer::new(config);

    let mut rs = RiskScore::new("testproc");
    rs.score = 50_000_000;
    analyzer.risk_scores.insert("testproc".to_string(), rs);

    let events = analyzer.export_risk_score_events();
    assert!(
        !events.is_empty(),
        "Should emit snapshots when enabled + scores exist"
    );
    match &events[0].payload {
        EventPayload::BehavioralRiskScore(snap) => {
            assert_eq!(snap.process_key, "testproc");
            assert!((snap.score as f32 / 1_000_000.0 - 50.0).abs() < 0.01);
        }
        _ => panic!("Expected BehavioralRiskScore payload"),
    }
}
