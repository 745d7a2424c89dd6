use tamandua_analyzers::alert::{
    Alert, AlertSeverity, AlertStatus, MitreMapping, ProcessContext,
};
use tamandua_analyzers::alert_rules::{
    AlertRule, AutoResponseAction, AutoResponseTrigger, ConditionGroup, ConditionOperator,
    LogicOperator, RuleCondition, TimeCondition,
};
use tamandua_analyzers::alerting::{AlertingConfig, AlertingEngine, AlertingEngineBuilder};
use tamandua_analyzers::ids::IdSource;
use tamandua_analyzers::json::JsonValue;
use tamandua_analyzers::notification::{
    ChannelKind, FileChannel, SyslogChannel, WindowsEventLogChannel,
};
use tamandua_analyzers::predefined_rules::{get_predefined_correlation_rules, get_predefined_rules};
use tamandua_analyzers::response::{Order, Responder};
use tamandua_analyzers::risk_scorer::RiskScorer;
use tamandua_analyzers::telemetry::{
    Detection, DetectionType, EventPayload, EventType, FileEvent, Metadata, NetworkEvent,
    ProcessEvent, Severity, TelemetryEvent,
};

fn detection(kind: DetectionType, confidence: u32) -> Detection {
    Detection {
        detection_type: kind,
        rule_name: "rule".to_string(),
        confidence,
        description: "what".to_string(),
        mitre_tactics: vec![],
        mitre_techniques: vec![],
    }
}

fn process(pid: u32) -> ProcessEvent {
    ProcessEvent {
        pid,
        ppid: 1,
        name: "p.exe".to_string(),
        path: "C:\\p.exe".to_string(),
        cmdline: "p.exe".to_string(),
        user: "u".to_string(),
        sha256: vec![],
        entropy: 0,
        is_elevated: false,
        parent_name: None,
        parent_path: None,
        is_signed: false,
        signer: None,
        start_time: 0,
        cpu_usage: 0,
        memory_bytes: 0,
        company_name: None,
        file_description: None,
        product_name: None,
        file_version: None,
        environment: None,
    }
}

fn event(severity: Severity, payload: EventPayload, detections: Vec<Detection>) -> TelemetryEvent {
    TelemetryEvent {
        event_id: "e".to_string(),
        event_type: EventType::ProcessCreate,
        timestamp: 0,
        severity,
        payload,
        detections,
        metadata: Metadata::new(),
    }
}

fn ids(names: &[&str]) -> IdSource {
    IdSource::of(names.iter().map(|n| n.to_string()).collect())
}

fn text(s: &str) -> JsonValue {
    JsonValue::Text(s.to_string())
}

fn about_process(id: &str, pid: u32, severity: AlertSeverity) -> Alert {
    let mut alert = Alert::new_as(
        id.to_string(),
        "t".to_string(),
        "d".to_string(),
        severity,
        0,
    );
    alert.confidence = 950_000;
    alert.process_context = Some(ProcessContext {
        pid,
        ppid: 0,
        name: "p".to_string(),
        path: "p".to_string(),
        cmdline: "p".to_string(),
        user: "u".to_string(),
        sha256: "00".to_string(),
        parent_name: None,
        parent_path: None,
        is_elevated: false,
        is_signed: false,
        signer: None,
    });
    alert
}

fn trigger(severity: AlertSeverity, actions: Vec<AutoResponseAction>, ask: bool) -> AutoResponseTrigger {
    AutoResponseTrigger {
        min_severity: severity,
        min_confidence: 900_000,
        actions,
        require_approval: ask,
        cooldown_seconds: 300,
    }
}

#[test]
fn default_settings() {
    let unix = AlertingConfig::for_system(false);
    assert!(unix.enabled);
    assert_eq!(unix.min_severity, AlertSeverity::Low);
    assert!(unix.aggregation_enabled);
    assert_eq!(unix.aggregation_window_seconds, 300);
    assert!(!unix.auto_response_enabled);
    assert_eq!(unix.auto_response_triggers.len(), 1);
    assert_eq!(unix.auto_response_triggers[0].min_confidence, 900_000);
    assert_eq!(unix.rate_limit_per_minute, 100);
    assert!(!unix.file_logging_enabled);
    assert_eq!(unix.file_log_path, "/var/log/tamandua/alerts.jsonl");
    assert!(unix.local_log_enabled);
    assert_eq!(unix.risk_escalation_threshold, 80_000_000);
    assert_eq!(
        AlertingConfig::for_system(true).file_log_path,
        "C:\\ProgramData\\Tamandua\\alerts.jsonl"
    );
}

#[test]
fn rules_and_detections_raise_alerts() {
    let mut engine = AlertingEngine::new(AlertingConfig::default());
    for rule in get_predefined_rules() {
        engine.add_rule(rule);
    }
    let event = event(
        Severity::High,
        EventPayload::Process(process(7)),
        vec![detection(DetectionType::Sigma, 700_000)],
    );
    let json = JsonValue::Object(vec![(
        "payload".to_string(),
        JsonValue::Object(vec![(
            "cmdline".to_string(),
            text("powershell -encodedcommand AAAA"),
        )]),
    )]);
    let mut source = ids(&["a", "b", "c"]);
    let sent = engine.process_event(&event, Some(&json), &[], &mut source, 1_000);
    assert_eq!(sent.len(), 2);
    assert_eq!(sent[0].alert_id, "a");
    assert_eq!(sent[1].alert_id, "b");
    assert_eq!(sent[1].title, "rule");
    assert_eq!(source.draw(), "c");
    assert_eq!(engine.get_status("a"), Some(AlertStatus::New));
    assert_eq!(engine.get_status("b"), Some(AlertStatus::New));
    assert_eq!(engine.get_status("c"), None);

    engine.update_status("b", AlertStatus::Resolved);
    assert_eq!(engine.get_status("b"), Some(AlertStatus::Resolved));
    assert_eq!(engine.get_status("a"), Some(AlertStatus::New));
    engine.update_status("z", AlertStatus::Escalated);
    assert_eq!(engine.get_status("z"), Some(AlertStatus::Escalated));

    let again = engine.process_event(&event, Some(&json), &[], &mut source, 2_000);
    assert!(again.is_empty());
    let flushed = engine.flush_aggregated();
    assert_eq!(flushed.len(), 2);
    assert!(flushed.iter().all(|a| a.suppression_count == 1));
}

#[test]
fn an_engine_that_is_off_does_nothing() {
    let mut config = AlertingConfig::default();
    config.enabled = false;
    let mut engine = AlertingEngine::new(config);
    let event = event(
        Severity::Critical,
        EventPayload::Process(process(7)),
        vec![detection(DetectionType::Malware, 900_000)],
    );
    let mut source = ids(&["a"]);
    assert!(engine
        .process_event(&event, None, &[], &mut source, 0)
        .is_empty());
    assert!(engine
        .process_detection(&event, &event.detections[0], &mut source, 0)
        .is_none());
    assert_eq!(source.draw(), "a");
}

#[test]
fn weak_alerts_are_dropped() {
    let mut config = AlertingConfig::default();
    config.min_severity = AlertSeverity::High;
    let mut engine = AlertingEngine::new(config);
    let weak = event(
        Severity::Medium,
        EventPayload::Process(process(7)),
        vec![detection(DetectionType::Malware, 900_000)],
    );
    let mut source = IdSource::random();
    assert!(engine
        .process_event(&weak, None, &[], &mut source, 0)
        .is_empty());
    assert!(engine
        .process_detection(&weak, &weak.detections[0], &mut source, 0)
        .is_none());
    let strong = event(
        Severity::High,
        EventPayload::Process(process(7)),
        vec![detection(DetectionType::Malware, 900_000)],
    );
    assert!(engine
        .process_detection(&strong, &strong.detections[0], &mut source, 0)
        .is_some());
    assert_eq!(engine.get_process_risk(7, &[]), 0);
}

#[test]
fn no_more_alerts_go_out_than_the_limit_allows() {
    let mut config = AlertingConfig::default();
    config.rate_limit_per_minute = 3;
    config.aggregation_enabled = false;
    let mut engine = AlertingEngine::new(config);
    let event = event(
        Severity::Low,
        EventPayload::Process(process(7)),
        vec![
            detection(DetectionType::Entropy, 100_000),
            detection(DetectionType::Entropy, 100_000),
        ],
    );
    let mut source = IdSource::random();
    assert_eq!(engine.process_event(&event, None, &[], &mut source, 0).len(), 2);
    assert_eq!(
        engine.process_event(&event, None, &[], &mut source, 30_000).len(),
        1
    );
    assert_eq!(
        engine.process_event(&event, None, &[], &mut source, 60_000).len(),
        0
    );
    assert_eq!(
        engine.process_event(&event, None, &[], &mut source, 60_001).len(),
        2
    );
}

#[test]
fn high_risk_is_an_alert() {
    let mut engine = AlertingEngine::new(AlertingConfig::default());
    let event = event(
        Severity::Critical,
        EventPayload::Process(process(7)),
        vec![detection(DetectionType::Ransomware, 810_000)],
    );
    let mut source = ids(&["a", "b"]);
    let sent = engine.process_event(&event, None, &[], &mut source, 0);
    assert_eq!(sent.len(), 2);
    let escalation = &sent[1];
    assert_eq!(escalation.title, "High Endpoint Risk Score");
    assert_eq!(
        escalation.description,
        "Endpoint risk score has reached 81.0%"
    );
    assert_eq!(escalation.severity, AlertSeverity::High);
    assert_eq!(escalation.risk_score, 81_000_000);
    assert_eq!(escalation.tags, vec!["risk_escalation".to_string()]);
    assert_eq!(engine.get_process_risk(7, &[]), 81_000_000);
    assert_eq!(engine.get_process_risk(7, &[500_000]), 40_500_000);
    assert_eq!(engine.get_endpoint_risk(&[250_000]), 20_250_000);
    assert_eq!(engine.get_process_risk(8, &[]), 0);
    engine.cleanup(35_999_999);
    assert_eq!(engine.get_endpoint_risk(&[]), 81_000_000);
    engine.cleanup(36_000_000);
    assert_eq!(engine.get_endpoint_risk(&[]), 0);
}

#[test]
fn risks_are_weighed_and_bounded() {
    let mut scorer = RiskScorer::new();
    scorer.add_process_risk(1, &detection(DetectionType::UsbThreat, 500_000), AlertSeverity::Medium, 0);
    assert_eq!(scorer.get_process_risk(1, &[]), 10_000_000);
    scorer.add_process_risk(
        1,
        &detection(DetectionType::DefenseEvasion, 1_000_000),
        AlertSeverity::Info,
        3_600_000,
    );
    assert_eq!(scorer.process_ages(1, 3_600_000), vec![3_600_000, 0]);
    assert_eq!(scorer.endpoint_ages(7_200_000), vec![7_200_000, 3_600_000]);
    assert!(scorer.process_ages(2, 0).is_empty());
    assert!(scorer.get_process_risk(1, &[500_000]) < scorer.get_process_risk(1, &[]));

    for _ in 0..1_200 {
        scorer.add_process_risk(2, &detection(DetectionType::Malware, 1_000_000), AlertSeverity::High, 5);
    }
    assert_eq!(scorer.process_ages(2, 5).len(), 100);
    assert_eq!(scorer.endpoint_ages(5).len(), 1_000);
    assert_eq!(scorer.get_endpoint_risk(&[]), 100_000_000);
}

#[test]
fn attack_chains_become_alerts() {
    let mut engine = AlertingEngineBuilder::new()
        .add_correlation_rule(get_predefined_correlation_rules().remove(0))
        .build();
    let mut source = ids(&["a1", "c1", "a2", "c2", "a3", "c3", "x"]);
    let kinds = ["file_create", "process_create", "registry_set_value"];
    let mut last = vec![];
    for (i, kind) in kinds.iter().enumerate() {
        let event = event(
            Severity::Low,
            EventPayload::Process(process(7)),
            vec![detection(DetectionType::Entropy, 100_000)],
        );
        let json = JsonValue::Object(vec![
            ("event_type".to_string(), text(kind)),
            (
                "payload".to_string(),
                JsonValue::Object(vec![("key_path".to_string(), text("HKCU\\Run"))]),
            ),
        ]);
        last = engine.process_event(&event, Some(&json), &[], &mut source, i as u64);
    }
    let chain = last.iter().find(|a| a.tags.contains(&"attack_chain".to_string()));
    let chain = chain.unwrap();
    assert_eq!(chain.title, "Attack Chain Detected (3 stages)");
    assert_eq!(
        chain.description,
        "Correlated attack chain with 3 stages detected"
    );
    assert_eq!(chain.severity, AlertSeverity::Critical);
    assert_eq!(chain.confidence, 800_000);
    assert_eq!(chain.related_alert_ids.len(), 3);
    assert_eq!(chain.related_event_ids, vec!["e".to_string(); 3]);
    assert_eq!(chain.tags[1], "stages:3");
    assert_eq!(chain.metadata.get("related_pids"), Some(&"7".to_string()));
    assert_eq!(chain.metadata.get("related_ips"), Some(&"".to_string()));
}

#[test]
fn the_builder_hands_everything_on() {
    let engine = AlertingEngineBuilder::new()
        .config(AlertingConfig::for_system(true))
        .add_rule(get_predefined_rules().remove(0))
        .add_channel(ChannelKind::WebSocket)
        .with_file_logging("/x")
        .with_windows_event_log("src")
        .with_syslog("auth")
        .build();
    assert_eq!(engine.rules.len(), 1);
    let names: Vec<&str> = engine.channels.iter().map(|c| c.name()).collect();
    assert_eq!(names, vec!["websocket", "file", "windows_event_log", "syslog"]);
    assert_eq!(engine.config.file_log_path, "/x");
    assert!(engine.config.file_logging_enabled);
}

#[test]
fn entries_for_the_logs_of_the_system() {
    let mut alert = about_process("id1", 7, AlertSeverity::High);
    alert.confidence = 876_543;
    let entry = WindowsEventLogChannel::new("Tamandua").entry(&alert);
    assert_eq!(entry.source_name, "Tamandua");
    assert_eq!(entry.event_type, "Error");
    assert_eq!(entry.event_id, 1002);
    assert_eq!(
        entry.message,
        "[3] t\n\nDescription: d\nAlert ID: id1\nConfidence: 88%"
    );
    let entry = SyslogChannel::new("local0").entry(&alert);
    assert_eq!(entry.selector, "local0.err");
    assert_eq!(
        entry.message,
        "[Tamandua] t - d (ID: id1, Confidence: 88%)"
    );
    assert_eq!(FileChannel::new("/a").path, "/a");
}

#[test]
fn triggers_act_once_until_the_time_is_over() {
    let mut responder = Responder::new();
    let triggers = vec![trigger(
        AlertSeverity::High,
        vec![
            AutoResponseAction::KillProcess { force: true },
            AutoResponseAction::QuarantineFile,
            AutoResponseAction::BlockDomain,
        ],
        false,
    )];
    let alert = about_process("a", 7, AlertSeverity::High);
    responder.respond(&triggers, &alert, 0);
    let orders = responder.take_orders();
    assert_eq!(orders.len(), 2);
    assert_eq!(orders[0].alert_id, "a");
    assert!(matches!(orders[0].order, Order::KillProcess { pid: 7, force: true }));
    assert!(matches!(orders[1].order, Order::BlockDomain));

    responder.respond(&triggers, &alert, 299_999);
    assert!(responder.take_orders().is_empty());
    responder.respond(&triggers, &alert, 300_000);
    assert_eq!(responder.take_orders().len(), 2);

    let weak = about_process("b", 7, AlertSeverity::Medium);
    responder.respond(&triggers, &weak, 900_000);
    let mut unsure = about_process("c", 7, AlertSeverity::Critical);
    unsure.confidence = 899_999;
    responder.respond(&triggers, &unsure, 900_000);
    assert!(responder.take_orders().is_empty());
}

#[test]
fn some_triggers_ask_first() {
    let mut config = AlertingConfig::default();
    config.auto_response_enabled = true;
    config.auto_response_triggers = vec![trigger(
        AlertSeverity::Low,
        vec![
            AutoResponseAction::IsolateNetwork {
                allowed_ips: vec!["10.0.0.1".to_string()],
            },
            AutoResponseAction::EmergencyCallback {
                message: "help".to_string(),
            },
            AutoResponseAction::Custom {
                action_type: "x".to_string(),
                payload: JsonValue::Null,
            },
        ],
        true,
    )];
    let mut engine = AlertingEngine::new(config);
    let event = event(
        Severity::High,
        EventPayload::File(FileEvent {
            path: "/f".to_string(),
            old_path: None,
            operation: "write".to_string(),
            pid: 1,
            process_name: "p".to_string(),
            sha256: vec![],
            size: 0,
            entropy: 0,
            file_type: "".to_string(),
        }),
        vec![],
    );
    let mut source = ids(&["a", "b"]);
    let found = detection(DetectionType::Malware, 950_000);
    assert!(engine.process_detection(&event, &found, &mut source, 0).is_some());
    assert!(engine.process_detection(&event, &found, &mut source, 1).is_some());
    assert_eq!(engine.get_pending_responses().len(), 2);
    assert!(engine.take_orders().is_empty());

    assert!(!engine.approve_response("z"));
    assert!(!engine.reject_response("z"));
    assert!(engine.approve_response("b"));
    assert_eq!(engine.get_pending_responses().len(), 1);
    assert_eq!(engine.get_pending_responses()[0].0.alert_id, "a");
    let orders = engine.take_orders();
    assert_eq!(orders.len(), 3);
    assert!(orders.iter().all(|o| o.alert_id == "b"));
    assert!(matches!(&orders[0].order, Order::IsolateNetwork { allowed_ips } if allowed_ips.len() == 1));
    assert!(matches!(&orders[1].order, Order::EmergencyCallback { message } if message == "help"));
    assert!(matches!(&orders[2].order, Order::Custom { action_type } if action_type == "x"));
    assert!(engine.reject_response("a"));
    assert!(engine.get_pending_responses().is_empty());
    assert!(engine.take_orders().is_empty());
}

#[test]
fn addresses_are_blocked() {
    let mut responder = Responder::new();
    let alert = Alert::from_detection_as(
        "a".to_string(),
        &event(
            Severity::Critical,
            EventPayload::Network(NetworkEvent {
                pid: 1,
                process_name: "p".to_string(),
                local_ip: "l".to_string(),
                local_port: 1,
                remote_ip: "203.0.113.9".to_string(),
                remote_port: 2,
                protocol: "tcp".to_string(),
                direction: "outbound".to_string(),
            }),
            vec![],
        ),
        &detection(DetectionType::ThreatIntel, 1_000_000),
        0,
    );
    let actions = vec![
        AutoResponseAction::BlockIP {
            direction: "both".to_string(),
        },
        AutoResponseAction::KillProcess { force: false },
    ];
    responder.execute(&alert, &actions);
    let orders = responder.take_orders();
    assert_eq!(orders.len(), 1);
    assert!(
        matches!(&orders[0].order, Order::BlockIP { ip, direction } if ip == "203.0.113.9" && direction == "both")
    );
}

#[test]
fn nothing_weaker_than_the_least_severity_goes_out() {
    let mut config = AlertingConfig::default();
    config.min_severity = AlertSeverity::Critical;
    let mut rule = get_predefined_correlation_rules().remove(0);
    rule.severity = AlertSeverity::High;
    let mut engine = AlertingEngineBuilder::new()
        .config(config)
        .add_correlation_rule(rule)
        .build();
    let mut source = IdSource::random();
    for (i, kind) in ["file_create", "process_create", "registry_set_value"].iter().enumerate() {
        let event = event(
            Severity::Critical,
            EventPayload::Process(process(7)),
            vec![detection(DetectionType::Ransomware, 810_000)],
        );
        let json = JsonValue::Object(vec![
            ("event_type".to_string(), text(kind)),
            (
                "payload".to_string(),
                JsonValue::Object(vec![("key_path".to_string(), text("HKCU\\Run"))]),
            ),
        ]);
        let sent = engine.process_event(&event, Some(&json), &[], &mut source, i as u64);
        assert!(sent.iter().all(|a| a.severity == AlertSeverity::Critical));
        assert!(sent.iter().all(|a| a.title != "High Endpoint Risk Score"));
    }
    assert!(engine.get_endpoint_risk(&[]) >= 80_000_000);
}

fn timed(count: u32, group_by: Option<&str>) -> AlertRule {
    AlertRule {
        rule_id: "timed".to_string(),
        name: "Timed".to_string(),
        description: "d".to_string(),
        enabled: true,
        conditions: ConditionGroup {
            logic: LogicOperator::And,
            conditions: vec![RuleCondition {
                field: "event_type".to_string(),
                operator: ConditionOperator::Equals,
                value: text("logon"),
                negate: false,
            }],
            groups: vec![],
        },
        time_condition: Some(TimeCondition {
            count,
            window_seconds: 10,
            group_by: group_by.map(|g| g.to_string()),
        }),
        severity: AlertSeverity::High,
        confidence: 500_000,
        mitre_mapping: MitreMapping {
            tactics: vec![],
            techniques: vec![],
            sub_techniques: vec![],
        },
        tags: vec![],
        auto_response: vec![],
    }
}

fn logons(engine: &mut AlertingEngine, user: &str, now: u64) -> usize {
    let json = JsonValue::Object(vec![
        ("event_type".to_string(), text("logon")),
        (
            "payload".to_string(),
            JsonValue::Object(vec![("user".to_string(), text(user))]),
        ),
    ]);
    let event = event(Severity::Low, EventPayload::Process(process(7)), vec![]);
    engine
        .process_event(&event, Some(&json), &[], &mut IdSource::random(), now)
        .len()
}

#[test]
fn a_rule_on_a_number_of_events_waits_for_them() {
    let unaggregated = || {
        let mut config = AlertingConfig::default();
        config.aggregation_enabled = false;
        config
    };
    let mut engine = AlertingEngineBuilder::new()
        .config(unaggregated())
        .add_rule(timed(3, None))
        .build();
    assert_eq!(logons(&mut engine, "a", 0), 0);
    assert_eq!(logons(&mut engine, "b", 4_000), 0);
    assert_eq!(logons(&mut engine, "a", 10_001), 0);
    assert_eq!(logons(&mut engine, "a", 14_000), 1);
    assert_eq!(logons(&mut engine, "a", 30_000), 0);

    let mut grouped = AlertingEngineBuilder::new()
        .config(unaggregated())
        .add_rule(timed(2, Some("payload.user")))
        .build();
    assert_eq!(logons(&mut grouped, "a", 0), 0);
    assert_eq!(logons(&mut grouped, "b", 1), 0);
    assert_eq!(logons(&mut grouped, "c", 2), 0);
    assert_eq!(logons(&mut grouped, "b", 3), 1);
    assert_eq!(logons(&mut grouped, "a", 10_001), 0);
}

#[test]
fn a_rule_that_takes_one_event_does_not_wait() {
    let mut engine = AlertingEngineBuilder::new().add_rule(timed(1, None)).build();
    assert_eq!(logons(&mut engine, "a", 0), 1);
}

#[test]
fn what_a_rule_asks_for_is_ordered_and_noted() {
    let config = || {
        let mut config = AlertingConfig::default();
        config.auto_response_enabled = true;
        config.auto_response_triggers = vec![AutoResponseTrigger {
            min_severity: AlertSeverity::Critical,
            min_confidence: 0,
            actions: vec![AutoResponseAction::BlockDomain],
            require_approval: false,
            cooldown_seconds: 60,
        }];
        config
    };
    let rule = |severity| {
        let mut rule = timed(1, None);
        rule.time_condition = None;
        rule.severity = severity;
        rule.auto_response = vec![
            AutoResponseAction::KillProcess { force: true },
            AutoResponseAction::QuarantineFile,
        ];
        rule
    };
    let json = JsonValue::Object(vec![("event_type".to_string(), text("logon"))]);
    let event = || event(Severity::Low, EventPayload::Process(process(7)), vec![]);

    let mut engine = AlertingEngineBuilder::new()
        .config(config())
        .add_rule(rule(AlertSeverity::High))
        .build();
    let mut source = ids(&["a", "b", "c"]);
    let sent = engine.process_event(&event(), Some(&json), &[], &mut source, 0);
    assert_eq!(sent.len(), 1);
    assert!(sent[0].auto_response_triggered);
    assert_eq!(sent[0].auto_response_actions, vec!["kill_process".to_string()]);
    let orders = engine.take_orders();
    assert_eq!(orders.len(), 1);
    assert_eq!(orders[0].alert_id, "a");
    assert!(matches!(orders[0].order, Order::KillProcess { pid: 7, force: true }));

    let mut both = AlertingEngineBuilder::new()
        .config(config())
        .add_rule(rule(AlertSeverity::Critical))
        .build();
    let sent = both.process_event(&event(), Some(&json), &[], &mut source, 0);
    assert_eq!(
        sent[0].auto_response_actions,
        vec!["kill_process".to_string(), "block_domain".to_string()]
    );

    let mut off = AlertingEngineBuilder::new().add_rule(rule(AlertSeverity::Critical)).build();
    let sent = off.process_event(&event(), Some(&json), &[], &mut source, 0);
    assert!(!sent[0].auto_response_triggered);
    assert!(sent[0].auto_response_actions.is_empty());
    assert!(off.take_orders().is_empty());
}

#[test]
fn what_a_trigger_orders_is_noted() {
    let engine_with = |require_approval| {
        let mut config = AlertingConfig::default();
        config.auto_response_enabled = true;
        config.auto_response_triggers = vec![AutoResponseTrigger {
            min_severity: AlertSeverity::High,
            min_confidence: 500_000,
            actions: vec![AutoResponseAction::KillProcess { force: false }],
            require_approval,
            cooldown_seconds: 60,
        }];
        AlertingEngine::new(config)
    };
    let event = event(
        Severity::High,
        EventPayload::Process(process(7)),
        vec![detection(DetectionType::Malware, 900_000)],
    );
    let mut engine = engine_with(false);
    let mut source = IdSource::random();
    let alert = engine
        .process_detection(&event, &event.detections[0], &mut source, 0)
        .unwrap();
    assert!(alert.auto_response_triggered);
    assert_eq!(alert.auto_response_actions, vec!["kill_process".to_string()]);
    let again = engine
        .process_detection(&event, &event.detections[0], &mut source, 59_999)
        .unwrap();
    assert!(!again.auto_response_triggered);

    let mut asking = engine_with(true);
    let alert = asking
        .process_detection(&event, &event.detections[0], &mut source, 0)
        .unwrap();
    assert!(!alert.auto_response_triggered);
    assert_eq!(asking.get_pending_responses().len(), 1);
}
