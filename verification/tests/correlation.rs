use tamandua_analyzers::alert::{Alert, AlertSeverity};
use tamandua_analyzers::correlation::CorrelationEngine;
use tamandua_analyzers::ids::IdSource;
use tamandua_analyzers::json::JsonValue;
use tamandua_analyzers::predefined_rules::get_predefined_correlation_rules;
use tamandua_analyzers::telemetry::{
    EventPayload, EventType, Metadata, NetworkEvent, RegistryEvent, Severity, TelemetryEvent,
};

fn event(id: &str, pid: u32, ip: &str) -> TelemetryEvent {
    TelemetryEvent {
        event_id: id.to_string(),
        event_type: EventType::NetworkConnect,
        timestamp: 0,
        severity: Severity::Low,
        payload: EventPayload::Network(NetworkEvent {
            pid,
            process_name: "p.exe".to_string(),
            local_ip: "10.0.0.1".to_string(),
            local_port: 1,
            remote_ip: ip.to_string(),
            remote_port: 443,
            protocol: "tcp".to_string(),
            direction: "outbound".to_string(),
        }),
        detections: vec![],
        metadata: Metadata::new(),
    }
}

fn kind(name: &str) -> JsonValue {
    JsonValue::Object(vec![
        ("event_type".to_string(), JsonValue::Text(name.to_string())),
        (
            "payload".to_string(),
            JsonValue::Object(vec![(
                "key_path".to_string(),
                JsonValue::Text("HKLM\\Run".to_string()),
            )]),
        ),
    ])
}

fn engine() -> CorrelationEngine {
    let mut engine = CorrelationEngine::new();
    for rule in get_predefined_correlation_rules() {
        engine.add_rule(rule);
    }
    engine
}

#[test]
fn steps_in_a_row_are_an_attack() {
    let mut engine = engine();
    let mut ids = IdSource::of(vec!["c1".to_string(), "c2".to_string()]);
    let alert = Alert::new_as(
        "a1".to_string(),
        "t".to_string(),
        "d".to_string(),
        AlertSeverity::Low,
        0,
    );

    let first = engine.process_event(
        &event("e1", 7, "198.51.100.1"),
        Some(&kind("file_create")),
        Some(&alert),
        &mut ids,
        1_000,
    );
    assert!(first.is_empty());
    let second = engine.process_event(
        &event("e2", 7, "198.51.100.2"),
        Some(&kind("process_create")),
        None,
        &mut ids,
        2_000,
    );
    assert!(second.is_empty());
    let third = engine.process_event(
        &event("e3", 7, "198.51.100.2"),
        Some(&kind("registry_set_value")),
        None,
        &mut ids,
        3_500,
    );
    assert_eq!(third.len(), 1);
    let chain = &third[0];
    assert_eq!(chain.chain_id, "c1");
    assert_eq!(chain.overall_severity, AlertSeverity::Critical);
    assert_eq!(chain.overall_confidence, 800_000);
    assert_eq!(chain.first_seen, 2_500);
    assert_eq!(chain.last_seen, 3_500);
    assert_eq!(chain.related_pids, vec![7]);
    assert_eq!(
        chain.related_ips,
        vec!["198.51.100.1".to_string(), "198.51.100.2".to_string()]
    );
    assert_eq!(chain.stages.len(), 3);
    assert_eq!(chain.stages[0].stage_name, "Stage 1");
    assert_eq!(chain.stages[0].alert_ids, vec!["a1".to_string()]);
    assert_eq!(chain.stages[0].event_ids, vec!["e1".to_string()]);
    assert_eq!(chain.stages[2].stage_name, "Stage 3");
    assert!(chain.stages[2].alert_ids.is_empty());
    assert_eq!(chain.stages[2].timestamp, 3_500);
}

#[test]
fn a_long_pause_starts_over() {
    let mut engine = engine();
    let mut ids = IdSource::random();
    for (i, name) in ["file_create", "process_create"].iter().enumerate() {
        engine.process_event(
            &event("e", 7, "198.51.100.1"),
            Some(&kind(name)),
            None,
            &mut ids,
            1_000 * i as u64,
        );
    }
    let late = engine.process_event(
        &event("e", 7, "198.51.100.1"),
        Some(&kind("registry_set_value")),
        None,
        &mut ids,
        1_000 + 301_000,
    );
    assert!(late.is_empty());
}

#[test]
fn short_sessions_and_rules_that_are_off_show_nothing() {
    let mut ids = IdSource::random();
    let mut short = engine();
    assert!(short
        .process_event(
            &event("e", 7, "x"),
            Some(&kind("file_create")),
            None,
            &mut ids,
            0
        )
        .is_empty());

    let mut off = engine();
    off.rules[0].enabled = false;
    for name in ["file_create", "process_create", "registry_set_value"] {
        assert!(off
            .process_event(&event("e", 7, "x"), Some(&kind(name)), None, &mut ids, 0)
            .is_empty());
    }
}

#[test]
fn events_that_cannot_be_written_out_are_no_step() {
    let mut engine = engine();
    let mut ids = IdSource::random();
    for _ in 0..3 {
        assert!(engine
            .process_event(&event("e", 7, "x"), None, None, &mut ids, 0)
            .is_empty());
    }
    assert_eq!(engine.sessions.len(), 3);
    assert_eq!(engine.event_buffer.len(), 3);
}

#[test]
fn old_sessions_and_events_are_forgotten() {
    let mut engine = engine();
    let mut ids = IdSource::random();
    engine.process_event(&event("e", 7, "x"), None, None, &mut ids, 0);
    assert_eq!(engine.sessions[0].key, "pid:7");
    assert_eq!(engine.sessions[1].key, "remote_ip:x");
    assert_eq!(engine.sessions[2].key, "process_name:p.exe");
    engine.process_event(&event("e", 8, "y"), None, None, &mut ids, 300_001);
    assert_eq!(engine.event_buffer.len(), 1);
    assert_eq!(engine.sessions.len(), 5);
    engine.process_event(&event("e", 9, "z"), None, None, &mut ids, 3_600_000);
    assert_eq!(engine.sessions.len(), 5);
    assert_eq!(engine.sessions[0].key, "process_name:p.exe");
    assert_eq!(engine.sessions[1].key, "pid:8");
}

#[test]
fn a_session_keeps_its_last_thousand_events() {
    let mut engine = CorrelationEngine::new();
    let mut ids = IdSource::random();
    for i in 0..1_005u64 {
        engine.process_event(&event(&format!("e{}", i), 7, "x"), None, None, &mut ids, i);
    }
    assert_eq!(engine.sessions[0].events.len(), 1_000);
    assert_eq!(engine.sessions[0].events[0].event_id, "e5");
    assert_eq!(engine.sessions[0].events[999].event_id, "e1004");
}

fn chains_of_steps(fields: &[&str], pids: [u32; 3], ips: [&str; 3]) -> Vec<String> {
    let mut engine = engine();
    engine.rules[0].correlation_fields = fields.iter().map(|f| f.to_string()).collect();
    let mut ids = IdSource::random();
    let steps = ["file_create", "process_create", "registry_set_value"];
    let mut seen = vec![];
    for i in 0..3 {
        let found = engine.process_event(
            &event("e", pids[i], ips[i]),
            Some(&kind(steps[i])),
            None,
            &mut ids,
            i as u64,
        );
        for chain in found {
            seen.push(format!("{:?} {:?}", chain.related_pids, chain.related_ips));
        }
    }
    seen
}

#[test]
fn only_the_fields_of_a_rule_tie_events_together() {
    assert!(chains_of_steps(&["pid"], [1, 2, 3], ["x", "x", "x"]).is_empty());
    assert_eq!(
        chains_of_steps(&["remote_ip"], [1, 2, 3], ["x", "x", "x"]),
        vec!["[1, 2, 3] [\"x\"]".to_string()]
    );
    assert_eq!(
        chains_of_steps(&["process_name"], [1, 2, 3], ["x", "y", "z"]),
        vec!["[1, 2, 3] [\"x\", \"y\", \"z\"]".to_string()]
    );
    assert_eq!(
        chains_of_steps(&["pid", "remote_ip"], [7, 7, 7], ["x", "x", "x"]).len(),
        2
    );
    assert!(chains_of_steps(&["user"], [7, 7, 7], ["x", "x", "x"]).is_empty());
    assert_eq!(chains_of_steps(&[], [7, 7, 7], ["x", "y", "z"]).len(), 1);
    assert!(chains_of_steps(&[], [1, 2, 3], ["x", "y", "z"]).is_empty());
}

#[test]
fn changes_of_the_registry_belong_to_their_process() {
    let mut engine = engine();
    let mut ids = IdSource::of(vec!["c1".to_string()]);
    for (i, name) in ["file_create", "process_create"].iter().enumerate() {
        let step = event("e", 7, "198.51.100.1");
        assert!(engine
            .process_event(&step, Some(&kind(name)), None, &mut ids, i as u64)
            .is_empty());
    }
    let registry = |pid| {
        let mut step = event("r", 0, "");
        step.payload = EventPayload::Registry(RegistryEvent {
            pid,
            process_name: "r.exe".to_string(),
            key_path: "HKLM\\Run".to_string(),
        });
        step
    };
    let key = kind("registry_set_value");
    assert!(engine.process_event(&registry(8), Some(&key), None, &mut ids, 2).is_empty());
    let found = engine.process_event(&registry(7), Some(&key), None, &mut ids, 3);
    assert_eq!(found.len(), 1);
    assert_eq!(found[0].related_pids, vec![7]);
    assert_eq!(found[0].stages.len(), 3);
}
