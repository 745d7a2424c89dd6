use tamandua_analyzers::alert::{Alert, AlertSeverity};
use tamandua_analyzers::alert_rules::{ConditionOperator, RuleCondition};
use tamandua_analyzers::alerting::{AlertingConfig, AlertingEngine};
use tamandua_analyzers::json::JsonValue;
use tamandua_analyzers::predefined_rules::get_predefined_rules;

#[test]
fn test_severity_ordering() {
    assert!(AlertSeverity::Critical > AlertSeverity::High);
    assert!(AlertSeverity::High > AlertSeverity::Medium);
    assert!(AlertSeverity::Medium > AlertSeverity::Low);
    assert!(AlertSeverity::Low > AlertSeverity::Info);
}

#[test]
fn test_alert_fingerprint() {
    let alert1 = Alert::new(
        "Test Alert".to_string(),
        "Description".to_string(),
        AlertSeverity::Medium,
    );

    let alert2 = Alert::new(
        "Test Alert".to_string(),
        "Different description".to_string(),
        AlertSeverity::Medium,
    );

    assert_eq!(alert1.fingerprint(), alert2.fingerprint());
}

#[test]
fn test_condition_evaluation() {
    let condition = RuleCondition {
        field: "test".to_string(),
        operator: ConditionOperator::Contains,
        value: JsonValue::Text("hello".to_string()),
        negate: false,
    };

    assert!(!condition.negate);
}

#[test]
fn test_alerting_engine_creation() {
    let config = AlertingConfig::default();
    let engine = AlertingEngine::new(config);

    assert_eq!(engine.get_endpoint_risk(&[]), 0);
}

#[test]
fn test_predefined_rules() {
    let rules = get_predefined_rules();
    assert!(!rules.is_empty());

    for rule in &rules {
        assert!(!rule.rule_id.is_empty());
        assert!(!rule.name.is_empty());
        assert!(rule.enabled);
    }
}
