use tamandua_analyzers::alert::{AlertSeverity, MitreMapping};
use tamandua_analyzers::alert_rules::{
    pattern_found, AlertRule, ConditionGroup, ConditionOperator, LogicOperator, RuleCondition,
};
use tamandua_analyzers::json::{rank_of_whole, JsonValue};
use tamandua_analyzers::predefined_rules::{
    get_predefined_correlation_rules, get_predefined_rules, HIGH_ENTROPY_RANK,
};
use tamandua_analyzers::telemetry::{
    EventPayload, EventType, RegistryEvent, Severity, TelemetryEvent,
};

fn text(s: &str) -> JsonValue {
    JsonValue::Text(s.to_string())
}

fn object(fields: Vec<(&str, JsonValue)>) -> JsonValue {
    JsonValue::Object(
        fields
            .into_iter()
            .map(|(name, value)| (name.to_string(), value))
            .collect(),
    )
}

fn number(x: f64) -> JsonValue {
    JsonValue::Float(x.to_bits() as i64)
}

fn condition(field: &str, operator: ConditionOperator, value: JsonValue) -> RuleCondition {
    RuleCondition {
        field: field.to_string(),
        operator,
        value,
        negate: false,
    }
}

fn holds(operator: ConditionOperator, value: JsonValue, with: JsonValue) -> bool {
    let json = object(vec![("f", value)]);
    condition("f", operator, with).evaluate(Some(&json))
}

fn group(logic: LogicOperator, conditions: Vec<RuleCondition>) -> ConditionGroup {
    ConditionGroup {
        logic,
        conditions,
        groups: vec![],
    }
}

#[test]
fn texts_are_compared_without_case() {
    use_operator(ConditionOperator::Contains, "HELLO World", "lo w", true);
    use_operator(ConditionOperator::Contains, "HELLO World", "low", false);
    use_operator(ConditionOperator::StartsWith, "HELLO World", "hello", true);
    use_operator(ConditionOperator::StartsWith, "HELLO World", "world", false);
    use_operator(ConditionOperator::EndsWith, "HELLO World", "WORLD", true);
    use_operator(ConditionOperator::EndsWith, "HELLO World", "hello", false);
    assert!(!holds(
        ConditionOperator::Contains,
        JsonValue::PosInt(12),
        text("1")
    ));
    assert!(!holds(
        ConditionOperator::Contains,
        text("12"),
        JsonValue::PosInt(1)
    ));
}

fn use_operator(operator: ConditionOperator, value: &str, with: &str, expected: bool) {
    assert_eq!(holds(operator, text(value), text(with)), expected);
}

#[test]
fn patterns_are_searched_for() {
    use_operator(ConditionOperator::Regex, "C:\\Temp\\a.exe", "(?i)\\\\temp\\\\", true);
    use_operator(ConditionOperator::Regex, "C:\\Windows\\a.exe", "(?i)\\\\temp\\\\", false);
    use_operator(ConditionOperator::Regex, "abc", "^b", false);
    use_operator(ConditionOperator::Regex, "abc", "(", false);
    assert!(pattern_found(Some(true)));
    assert!(!pattern_found(Some(false)));
    assert!(!pattern_found(None));
}

#[test]
fn numbers_are_ordered() {
    let greater = ConditionOperator::GreaterThan;
    assert!(holds(greater, number(7.95), number(7.9)));
    assert!(!holds(greater, number(7.9), number(7.9)));
    assert!(holds(greater, JsonValue::PosInt(8), number(7.9)));
    assert!(holds(greater, JsonValue::PosInt(0), JsonValue::NegInt(-3)));
    assert!(holds(greater, JsonValue::NegInt(-2), JsonValue::NegInt(-3)));
    assert!(!holds(greater, text("9"), JsonValue::PosInt(1)));
    assert!(holds(
        ConditionOperator::GreaterOrEqual,
        JsonValue::PosInt(3),
        JsonValue::Float(rank_of_whole(3))
    ));
    assert!(holds(
        ConditionOperator::LessOrEqual,
        JsonValue::PosInt(3),
        JsonValue::PosInt(3)
    ));
    assert!(holds(
        ConditionOperator::LessThan,
        JsonValue::PosInt(2),
        JsonValue::PosInt(3)
    ));
    assert!(!holds(
        ConditionOperator::LessThan,
        JsonValue::PosInt(3),
        JsonValue::PosInt(3)
    ));
    assert_eq!(HIGH_ENTROPY_RANK, 7.9f64.to_bits() as i64);
}

#[test]
fn opposite_operators_never_agree() {
    let list = || JsonValue::Array(vec![text("a"), text("b")]);
    for value in ["a", "c"] {
        assert_ne!(
            holds(ConditionOperator::Equals, text(value), text("a")),
            holds(ConditionOperator::NotEquals, text(value), text("a"))
        );
        assert_ne!(
            holds(ConditionOperator::In, text(value), list()),
            holds(ConditionOperator::NotIn, text(value), list())
        );
    }
    assert!(holds(ConditionOperator::In, text("b"), list()));
    assert!(!holds(ConditionOperator::In, text("b"), text("b")));
    assert!(holds(ConditionOperator::NotIn, text("b"), text("b")));
}

#[test]
fn a_negated_condition_holds_where_the_condition_does_not() {
    let json = object(vec![("a", object(vec![("b", text("x"))]))]);
    for (field, value) in [("a.b", "x"), ("a.b", "y"), ("a.c", "x"), ("", "x")] {
        let plain = condition(field, ConditionOperator::Equals, text(value));
        let mut negated = condition(field, ConditionOperator::Equals, text(value));
        negated.negate = true;
        assert_ne!(plain.evaluate(Some(&json)), negated.evaluate(Some(&json)));
    }
    let mut negated = condition("a.b", ConditionOperator::Equals, text("y"));
    negated.negate = true;
    assert!(!negated.evaluate(None));
}

#[test]
fn groups_put_conditions_together() {
    let json = object(vec![("a", JsonValue::PosInt(1)), ("b", JsonValue::PosInt(2))]);
    let yes = || condition("a", ConditionOperator::Equals, JsonValue::PosInt(1));
    let no = || condition("b", ConditionOperator::Equals, JsonValue::PosInt(1));

    assert!(group(LogicOperator::And, vec![yes(), yes()]).evaluate(Some(&json)));
    assert!(!group(LogicOperator::And, vec![yes(), no()]).evaluate(Some(&json)));
    assert!(group(LogicOperator::Or, vec![no(), yes()]).evaluate(Some(&json)));
    assert!(!group(LogicOperator::Or, vec![no(), no()]).evaluate(Some(&json)));
    assert!(group(LogicOperator::Not, vec![yes(), no()]).evaluate(Some(&json)));
    assert!(!group(LogicOperator::Not, vec![yes(), yes()]).evaluate(Some(&json)));

    let mut outer = group(LogicOperator::And, vec![yes()]);
    outer.groups.push(group(LogicOperator::Or, vec![no(), yes()]));
    assert!(outer.evaluate(Some(&json)));
    outer.groups.push(group(LogicOperator::Not, vec![yes()]));
    assert!(!outer.evaluate(Some(&json)));
}

#[test]
fn an_empty_group_holds_under_and_alone() {
    let json = object(vec![]);
    assert!(group(LogicOperator::And, vec![]).evaluate(Some(&json)));
    assert!(!group(LogicOperator::Or, vec![]).evaluate(Some(&json)));
    assert!(!group(LogicOperator::Not, vec![]).evaluate(Some(&json)));
}

#[test]
fn predefined_rules_match_what_they_are_for() {
    let rules = get_predefined_rules();
    assert_eq!(rules.len(), 4);

    let encoded = object(vec![(
        "payload",
        object(vec![("cmdline", text("powershell.exe -ENC AAAA"))]),
    )]);
    assert!(rules[0].matches(Some(&encoded)));
    assert!(!rules[1].matches(Some(&encoded)));

    let office = object(vec![(
        "payload",
        object(vec![
            ("parent_name", text("WINWORD.EXE")),
            ("name", text("cmd.exe")),
        ]),
    )]);
    assert!(rules[1].matches(Some(&office)));
    assert!(!rules[0].matches(Some(&office)));

    let temp = object(vec![
        ("event_type", text("process_create")),
        ("payload", object(vec![("path", text("/tmp/x"))])),
    ]);
    assert!(rules[2].matches(Some(&temp)));

    let written = object(vec![
        ("event_type", text("file_modify")),
        ("payload", object(vec![("entropy", number(7.95))])),
    ]);
    assert!(rules[3].matches(Some(&written)));
    let read = object(vec![
        ("event_type", text("file_read")),
        ("payload", object(vec![("entropy", number(7.95))])),
    ]);
    assert!(!rules[3].matches(Some(&read)));
}

#[test]
fn a_rule_that_is_off_matches_nothing() {
    let mut rules = get_predefined_rules();
    let encoded = object(vec![(
        "payload",
        object(vec![("cmdline", text("powershell.exe -enc AAAA"))]),
    )]);
    assert!(rules[0].matches(Some(&encoded)));
    rules[0].enabled = false;
    assert!(!rules[0].matches(Some(&encoded)));
}

#[test]
fn a_rule_raises_an_alert_with_what_it_says() {
    let rule = AlertRule {
        rule_id: "r".to_string(),
        name: "Rule".to_string(),
        description: "What it is".to_string(),
        enabled: true,
        conditions: group(LogicOperator::And, vec![]),
        time_condition: None,
        severity: AlertSeverity::High,
        confidence: 850_000,
        mitre_mapping: MitreMapping {
            tactics: vec!["TA0001".to_string()],
            techniques: vec![],
            sub_techniques: vec![],
        },
        tags: vec!["t".to_string()],
        auto_response: vec![],
    };
    let event = TelemetryEvent::new(
        EventType::RegistryModify,
        Severity::Low,
        EventPayload::Registry(RegistryEvent {
            pid: 1,
            process_name: "p".to_string(),
            key_path: "k".to_string(),
        }),
    );
    let alert = rule.create_alert_as("id".to_string(), &event, 77);
    assert_eq!(alert.alert_id, "id");
    assert_eq!(alert.title, "Rule");
    assert_eq!(alert.description, "What it is");
    assert_eq!(alert.severity, AlertSeverity::High);
    assert_eq!(alert.confidence, 850_000);
    assert_eq!(alert.created_at, 77);
    assert_eq!(alert.related_event_ids, vec![event.event_id.clone()]);
    assert_eq!(alert.mitre_mapping.tactics, vec!["TA0001".to_string()]);
    assert_eq!(alert.tags, vec!["t".to_string()]);
    assert!(alert.process_context.is_none());

    let other = rule.create_alert(&event);
    assert_ne!(other.alert_id, rule.create_alert(&event).alert_id);
    assert_eq!(other.title, "Rule");
}

#[test]
fn the_predefined_correlation_rule_has_three_steps() {
    let rules = get_predefined_correlation_rules();
    assert_eq!(rules.len(), 1);
    assert_eq!(rules[0].sequence.len(), 3);
    assert_eq!(rules[0].severity, AlertSeverity::Critical);
    let persisted = object(vec![
        ("event_type", text("registry_set_value")),
        (
            "payload",
            object(vec![("key_path", text("HKCU\\...\\CurrentVersion\\run"))]),
        ),
    ]);
    assert!(rules[0].sequence[2].evaluate(Some(&persisted)));
    assert!(!rules[0].sequence[0].evaluate(Some(&persisted)));
}
