//! Rules that raise alerts.
use vstd::prelude::*;

use crate::alert::{
    bare_alert, with_context, Alert, AlertModel, AlertSeverity, MappingModel, MitreMapping,
};
use crate::json::{lemma_items, opt_json, items_view, rank, value_at, JsonModel, JsonValue};
use crate::pattern::{regex_search, search};
use crate::telemetry::{current_timestamp, fresh_id, is_identifier, TelemetryEvent};
use crate::text::{
    begins, contains, copies, ends, ends_with, lowercase, occurs, occurs_at, opt_text, push_text,
    starts_with, texts, to_lowercase,
};
use crate::words::{pieces, pieces_of};

verus! {

/// How a value is held against the value of a condition.
#[derive(Clone, Copy, Debug, PartialEq, Eq, Structural)]
pub enum ConditionOperator {
    Equals,
    NotEquals,
    Contains,
    StartsWith,
    EndsWith,
    Regex,
    GreaterThan,
    LessThan,
    GreaterOrEqual,
    LessOrEqual,
    In,
    NotIn,
}

/// One condition of a rule.
pub struct RuleCondition {
    /// Where the value stands: names and positions, with dots between them.
    pub field: String,
    /// How it is compared.
    pub operator: ConditionOperator,
    /// What it is compared with.
    pub value: JsonValue,
    /// Whether the comparison has to fail.
    pub negate: bool,
}

/// What a condition asks.
#[verifier::ext_equal]
pub struct ConditionModel {
    pub field: Seq<char>,
    pub operator: ConditionOperator,
    pub value: JsonModel,
    pub negate: bool,
}

impl View for RuleCondition {
    type V = ConditionModel;

    open spec fn view(&self) -> ConditionModel {
        ConditionModel {
            field: self.field@,
            operator: self.operator,
            value: self.value@,
            negate: self.negate,
        }
    }
}

/// How two numbers stand, by an operator that orders.
pub open spec fn ordered(operator: ConditionOperator, a: int, b: int) -> bool {
    match operator {
        ConditionOperator::GreaterThan => a > b,
        ConditionOperator::LessThan => a < b,
        ConditionOperator::GreaterOrEqual => a >= b,
        ConditionOperator::LessOrEqual => a <= b,
        _ => false,
    }
}

/// How two texts stand, by an operator on texts: the case of letters does not
/// count, except in patterns.
pub open spec fn texts_compare(operator: ConditionOperator, text: Seq<char>, with: Seq<char>) -> bool {
    match operator {
        ConditionOperator::Contains => occurs(lowercase(with), lowercase(text)),
        ConditionOperator::StartsWith => begins(lowercase(text), lowercase(with)),
        ConditionOperator::EndsWith => ends(lowercase(text), lowercase(with)),
        ConditionOperator::Regex => regex_search(with, text) == Some(true),
        _ => false,
    }
}

/// Whether a value meets an operator with the value of a condition.
pub open spec fn compares(operator: ConditionOperator, value: JsonModel, with: JsonModel) -> bool {
    match operator {
        ConditionOperator::Equals => value == with,
        ConditionOperator::NotEquals => value != with,
        ConditionOperator::Contains | ConditionOperator::StartsWith | ConditionOperator::EndsWith
        | ConditionOperator::Regex => match (value, with) {
            (JsonModel::Text(a), JsonModel::Text(b)) => texts_compare(operator, a, b),
            _ => false,
        },
        ConditionOperator::GreaterThan | ConditionOperator::LessThan
        | ConditionOperator::GreaterOrEqual | ConditionOperator::LessOrEqual => match (
            rank(value),
            rank(with),
        ) {
            (Some(a), Some(b)) => ordered(operator, a, b),
            _ => false,
        },
        ConditionOperator::In => with is Array && with->Array_0.contains(value),
        ConditionOperator::NotIn => !(with is Array && with->Array_0.contains(value)),
    }
}

/// Whether a condition holds of an event. Of an event that cannot be written out
/// none does.
pub open spec fn condition_holds(c: ConditionModel, event: Option<JsonModel>) -> bool {
    match event {
        None => false,
        Some(json) => {
            let found = match value_at(json, pieces(c.field, '.'), 0) {
                Some(value) => compares(c.operator, value, c.value),
                None => false,
            };
            if c.negate {
                !found
            } else {
                found
            }
        },
    }
}

/// What a search for a pattern comes to: a pattern that does not compile matches
/// nothing.
pub fn pattern_found(search: Option<bool>) -> (r: bool)
    ensures
        r == (search == Some(true)),
{
    match search {
        Some(found) => found,
        None => false,
    }
}

fn listed(items: &Vec<JsonValue>, value: &JsonValue) -> (r: bool)
    ensures
        r == items_view(items@).contains(value@),
{
    proof {
        lemma_items(items@);
    }
    let ghost all = items_view(items@);
    let mut i: usize = 0;
    while i < items.len()
        invariant
            i <= items@.len(),
            all == items_view(items@),
            all.len() == items@.len(),
            forall|j: int| 0 <= j < items@.len() ==> #[trigger] all[j] == items@[j]@,
            forall|j: int| 0 <= j < i ==> #[trigger] all[j] != value@,
        decreases items@.len() - i,
    {
        assert(all[i as int] == items@[i as int]@);
        if items[i].equals(value) {
            return true;
        }
        i += 1;
    }
    false
}

impl RuleCondition {
    /// Whether the condition holds of an event, given as it is written out, if it
    /// can be.
    pub fn evaluate(&self, event: Option<&JsonValue>) -> (r: bool)
        ensures
            r == condition_holds(self@, opt_json(event)),
    {
        let json = match event {
            Some(json) => json,
            None => {
                return false;
            },
        };
        let found = match self.get_field_value(json) {
            Some(value) => self.compare(value),
            None => false,
        };
        if self.negate {
            !found
        } else {
            found
        }
    }

    fn get_field_value<'a>(&self, json: &'a JsonValue) -> (r: Option<&'a JsonValue>)
        ensures
            opt_json(r) == value_at(json@, pieces(self.field@, '.'), 0),
    {
        json.at(&pieces_of(self.field.as_str(), '.'))
    }

    fn compare(&self, value: &JsonValue) -> (r: bool)
        ensures
            r == compares(self.operator, value@, self.value@),
    {
        match self.operator {
            ConditionOperator::Equals => value.equals(&self.value),
            ConditionOperator::NotEquals => !value.equals(&self.value),
            ConditionOperator::Contains | ConditionOperator::StartsWith
            | ConditionOperator::EndsWith | ConditionOperator::Regex => match (
                value.as_text(),
                self.value.as_text(),
            ) {
                (Some(a), Some(b)) => self.compare_texts(a, b),
                _ => false,
            },
            ConditionOperator::GreaterThan | ConditionOperator::LessThan
            | ConditionOperator::GreaterOrEqual | ConditionOperator::LessOrEqual => match (
                value.number_rank(),
                self.value.number_rank(),
            ) {
                (Some(a), Some(b)) => self.compare_numeric(a, b),
                _ => false,
            },
            ConditionOperator::In => match &self.value {
                JsonValue::Array(items) => listed(items, value),
                _ => false,
            },
            ConditionOperator::NotIn => match &self.value {
                JsonValue::Array(items) => !listed(items, value),
                _ => true,
            },
        }
    }

    fn compare_texts(&self, text: &str, with: &str) -> (r: bool)
        ensures
            r == texts_compare(self.operator, text@, with@),
    {
        match self.operator {
            ConditionOperator::Contains => contains(
                to_lowercase(text).as_str(),
                to_lowercase(with).as_str(),
            ),
            ConditionOperator::StartsWith => starts_with(
                to_lowercase(text).as_str(),
                to_lowercase(with).as_str(),
            ),
            ConditionOperator::EndsWith => ends_with(
                to_lowercase(text).as_str(),
                to_lowercase(with).as_str(),
            ),
            ConditionOperator::Regex => pattern_found(search(with, text)),
            _ => false,
        }
    }

    fn compare_numeric(&self, a: i64, b: i64) -> (r: bool)
        ensures
            r == ordered(self.operator, a as int, b as int),
    {
        match self.operator {
            ConditionOperator::GreaterThan => a > b,
            ConditionOperator::LessThan => a < b,
            ConditionOperator::GreaterOrEqual => a >= b,
            ConditionOperator::LessOrEqual => a <= b,
            _ => false,
        }
    }
}

/// A negated condition holds of an event that can be written out where the
/// condition itself does not.
pub proof fn law_negation_turns_a_condition(c: ConditionModel, json: JsonModel)
    ensures
        condition_holds(ConditionModel { negate: true, ..c }, Some(json)) != condition_holds(
            ConditionModel { negate: false, ..c },
            Some(json),
        ),
{
}

/// Each operator that has an opposite is met exactly where the opposite is not.
pub proof fn law_opposite_operators(value: JsonModel, with: JsonModel)
    ensures
        compares(ConditionOperator::Equals, value, with) != compares(
            ConditionOperator::NotEquals,
            value,
            with,
        ),
        compares(ConditionOperator::In, value, with) != compares(
            ConditionOperator::NotIn,
            value,
            with,
        ),
        rank(value) is Some && rank(with) is Some ==> (compares(
            ConditionOperator::GreaterThan,
            value,
            with,
        ) != compares(ConditionOperator::LessOrEqual, value, with)) && (compares(
            ConditionOperator::LessThan,
            value,
            with,
        ) != compares(ConditionOperator::GreaterOrEqual, value, with)),
{
}

/// How conditions are put together.
#[derive(Clone, Copy, Debug, PartialEq, Eq, Structural)]
pub enum LogicOperator {
    /// All have to hold.
    And,
    /// One has to hold.
    Or,
    /// Not all may hold.
    Not,
}

/// Conditions and groups of conditions, put together.
pub struct ConditionGroup {
    pub logic: LogicOperator,
    pub conditions: Vec<RuleCondition>,
    pub groups: Vec<ConditionGroup>,
}

/// What a group asks.
#[verifier::ext_equal]
pub struct GroupModel {
    pub logic: LogicOperator,
    pub conditions: Seq<ConditionModel>,
    pub groups: Seq<GroupModel>,
}

/// What some conditions ask.
pub open spec fn conditions_view(conditions: Seq<RuleCondition>) -> Seq<ConditionModel> {
    conditions.map_values(|c: RuleCondition| c@)
}

/// What a group asks.
pub open spec fn group_view(group: ConditionGroup) -> GroupModel
    decreases group,
{
    GroupModel {
        logic: group.logic,
        conditions: conditions_view(group.conditions@),
        groups: groups_view(group.groups@),
    }
}

/// What some groups ask.
pub open spec fn groups_view(groups: Seq<ConditionGroup>) -> Seq<GroupModel>
    decreases groups,
{
    if groups.len() == 0 {
        Seq::empty()
    } else {
        groups_view(groups.drop_last()).push(group_view(groups.last()))
    }
}

impl View for ConditionGroup {
    type V = GroupModel;

    open spec fn view(&self) -> GroupModel {
        group_view(*self)
    }
}

/// Each group is viewed on its own.
pub proof fn lemma_groups(groups: Seq<ConditionGroup>)
    ensures
        groups_view(groups).len() == groups.len(),
        forall|i: int| 0 <= i < groups.len() ==> #[trigger] groups_view(groups)[i] == groups[i]@,
    decreases groups.len(),
{
    if groups.len() > 0 {
        let rest = groups.drop_last();
        lemma_groups(rest);
        assert forall|i: int| 0 <= i < groups.len() implies #[trigger] groups_view(groups)[i]
            == groups[i]@ by {
            if i < rest.len() {
                assert(groups_view(rest)[i] == rest[i]@);
            }
        }
    }
}

/// Whether a group holds of an event.
pub open spec fn group_holds(g: GroupModel, event: Option<JsonModel>) -> bool
    decreases g,
{
    match g.logic {
        LogicOperator::And => all_hold(g.conditions, event) && all_groups_hold(g.groups, event),
        LogicOperator::Or => !(none_holds(g.conditions, event) && no_group_holds(g.groups, event)),
        LogicOperator::Not => !(all_hold(g.conditions, event) && all_groups_hold(g.groups, event)),
    }
}

/// Whether all of some conditions hold.
pub open spec fn all_hold(conditions: Seq<ConditionModel>, event: Option<JsonModel>) -> bool {
    forall|i: int| 0 <= i < conditions.len() ==> condition_holds(#[trigger] conditions[i], event)
}

/// Whether none of some conditions holds.
pub open spec fn none_holds(conditions: Seq<ConditionModel>, event: Option<JsonModel>) -> bool {
    forall|i: int| 0 <= i < conditions.len() ==> !condition_holds(#[trigger] conditions[i], event)
}

/// Whether all of some groups hold.
pub open spec fn all_groups_hold(groups: Seq<GroupModel>, event: Option<JsonModel>) -> bool
    decreases groups,
{
    if groups.len() == 0 {
        true
    } else {
        all_groups_hold(groups.drop_last(), event) && group_holds(groups.last(), event)
    }
}

/// Whether none of some groups holds.
pub open spec fn no_group_holds(groups: Seq<GroupModel>, event: Option<JsonModel>) -> bool
    decreases groups,
{
    if groups.len() == 0 {
        true
    } else {
        no_group_holds(groups.drop_last(), event) && !group_holds(groups.last(), event)
    }
}

impl ConditionGroup {
    /// Whether the group holds of an event, given as it is written out, if it can be.
    pub fn evaluate(&self, event: Option<&JsonValue>) -> (r: bool)
        ensures
            r == group_holds(self@, opt_json(event)),
        decreases self,
    {
        let ghost json = opt_json(event);
        let ghost conditions = conditions_view(self.conditions@);
        let ghost groups = groups_view(self.groups@);
        proof {
            lemma_groups(self.groups@);
        }
        let mut all = true;
        let mut any = false;
        let mut i: usize = 0;
        while i < self.conditions.len()
            invariant
                i <= self.conditions@.len(),
                conditions == conditions_view(self.conditions@),
                json == opt_json(event),
                all == all_hold(conditions.take(i as int), json),
                any == !none_holds(conditions.take(i as int), json),
            decreases self.conditions@.len() - i,
        {
            let holds = self.conditions[i].evaluate(event);
            proof {
                let before = conditions.take(i as int);
                let after = conditions.take(i + 1);
                assert(conditions[i as int] == self.conditions@[i as int]@);
                assert(after =~= before.push(conditions[i as int]));
                assert(forall|k: int| 0 <= k < i ==> #[trigger] after[k] == before[k]);
                assert(after[i as int] == conditions[i as int]);
                if all_hold(after, json) {
                    assert forall|k: int| 0 <= k < before.len() implies condition_holds(
                        #[trigger] before[k],
                        json,
                    ) by {
                        assert(condition_holds(after[k], json));
                    }
                }
                if none_holds(after, json) {
                    assert forall|k: int| 0 <= k < before.len() implies !condition_holds(
                        #[trigger] before[k],
                        json,
                    ) by {
                        assert(!condition_holds(after[k], json));
                    }
                }
            }
            all = all && holds;
            any = any || holds;
            i += 1;
        }
        assert(conditions.take(i as int) =~= conditions);
        let ghost first_all = all;
        let ghost first_any = any;
        let mut k: usize = 0;
        while k < self.groups.len()
            invariant
                k <= self.groups@.len(),
                groups == groups_view(self.groups@),
                groups.len() == self.groups@.len(),
                forall|j: int|
                    0 <= j < self.groups@.len() ==> #[trigger] groups[j] == self.groups@[j]@,
                json == opt_json(event),
                all == (first_all && all_groups_hold(groups.take(k as int), json)),
                any == (first_any || !no_group_holds(groups.take(k as int), json)),
            decreases self.groups@.len() - k,
        {
            assert(groups[k as int] == self.groups@[k as int]@);
            assert(groups.take(k + 1).drop_last() =~= groups.take(k as int));
            assert(decreases_to!(*self => self.groups));
            assert(decreases_to!(self.groups => self.groups@));
            assert(decreases_to!(self.groups@ => self.groups@[k as int]));
            let holds = self.groups[k].evaluate(event);
            all = all && holds;
            any = any || holds;
            k += 1;
        }
        assert(groups.take(k as int) =~= groups);
        match self.logic {
            LogicOperator::And => all,
            LogicOperator::Or => any,
            LogicOperator::Not => !all,
        }
    }
}

/// A group under "not" holds exactly where it does not hold under "and".
pub proof fn law_not_is_not_all(g: GroupModel, event: Option<JsonModel>)
    ensures
        group_holds(GroupModel { logic: LogicOperator::Not, ..g }, event) != group_holds(
            GroupModel { logic: LogicOperator::And, ..g },
            event,
        ),
{
}

/// A group that asks for nothing holds under "and", and does not hold under "or"
/// and under "not".
pub proof fn law_empty_group(event: Option<JsonModel>, logic: LogicOperator)
    ensures
        group_holds(
            GroupModel { logic, conditions: Seq::empty(), groups: Seq::empty() },
            event,
        ) == (logic == LogicOperator::And),
{
}

/// A rule on the number of events in a time.
#[derive(Debug)]
pub struct TimeCondition {
    /// How many events it takes.
    pub count: u32,
    /// Within how many seconds.
    pub window_seconds: u64,
    /// By what the events are grouped, if by anything.
    pub group_by: Option<String>,
}

/// What a time condition asks.
#[verifier::ext_equal]
pub struct TimeModel {
    pub count: u32,
    pub window_seconds: u64,
    pub group_by: Option<Seq<char>>,
}

impl View for TimeCondition {
    type V = TimeModel;

    open spec fn view(&self) -> TimeModel {
        TimeModel {
            count: self.count,
            window_seconds: self.window_seconds,
            group_by: opt_text(self.group_by),
        }
    }
}

/// What a time condition asks, if there is one.
pub open spec fn time_view(o: Option<TimeCondition>) -> Option<TimeModel> {
    match o {
        Some(x) => Some(x@),
        None => None,
    }
}

/// What to do about an alert.
pub enum AutoResponseAction {
    /// End the process.
    KillProcess { force: bool },
    /// Put the file away.
    QuarantineFile,
    /// Cut the machine off from the network.
    IsolateNetwork { allowed_ips: Vec<String> },
    /// Block the other side of the connection.
    BlockIP { direction: String },
    /// Block the domain.
    BlockDomain,
    /// Call for help.
    EmergencyCallback { message: String },
    /// Something else.
    Custom { action_type: String, payload: JsonValue },
}

/// What an action is.
#[verifier::ext_equal]
pub enum ActionModel {
    KillProcess { force: bool },
    QuarantineFile,
    IsolateNetwork { allowed_ips: Seq<Seq<char>> },
    BlockIP { direction: Seq<char> },
    BlockDomain,
    EmergencyCallback { message: Seq<char> },
    Custom { action_type: Seq<char>, payload: JsonModel },
}

impl View for AutoResponseAction {
    type V = ActionModel;

    open spec fn view(&self) -> ActionModel {
        match self {
            AutoResponseAction::KillProcess { force } => ActionModel::KillProcess { force: *force },
            AutoResponseAction::QuarantineFile => ActionModel::QuarantineFile,
            AutoResponseAction::IsolateNetwork { allowed_ips } => ActionModel::IsolateNetwork {
                allowed_ips: texts(allowed_ips@),
            },
            AutoResponseAction::BlockIP { direction } => ActionModel::BlockIP {
                direction: direction@,
            },
            AutoResponseAction::BlockDomain => ActionModel::BlockDomain,
            AutoResponseAction::EmergencyCallback { message } => ActionModel::EmergencyCallback {
                message: message@,
            },
            AutoResponseAction::Custom { action_type, payload } => ActionModel::Custom {
                action_type: action_type@,
                payload: payload@,
            },
        }
    }
}

impl Clone for AutoResponseAction {
    fn clone(&self) -> (r: AutoResponseAction)
        ensures
            r@ == self@,
    {
        match self {
            AutoResponseAction::KillProcess { force } => AutoResponseAction::KillProcess {
                force: *force,
            },
            AutoResponseAction::QuarantineFile => AutoResponseAction::QuarantineFile,
            AutoResponseAction::IsolateNetwork { allowed_ips } => {
                AutoResponseAction::IsolateNetwork { allowed_ips: copies(allowed_ips) }
            },
            AutoResponseAction::BlockIP { direction } => AutoResponseAction::BlockIP {
                direction: direction.clone(),
            },
            AutoResponseAction::BlockDomain => AutoResponseAction::BlockDomain,
            AutoResponseAction::EmergencyCallback { message } => {
                AutoResponseAction::EmergencyCallback { message: message.clone() }
            },
            AutoResponseAction::Custom { action_type, payload } => AutoResponseAction::Custom {
                action_type: action_type.clone(),
                payload: payload.clone(),
            },
        }
    }
}

/// What some actions are.
pub open spec fn actions_view(actions: Seq<AutoResponseAction>) -> Seq<ActionModel> {
    actions.map_values(|a: AutoResponseAction| a@)
}

/// A copy of some actions.
pub fn copy_actions(actions: &Vec<AutoResponseAction>) -> (r: Vec<AutoResponseAction>)
    ensures
        actions_view(r@) == actions_view(actions@),
{
    let ghost all = actions_view(actions@);
    let mut r: Vec<AutoResponseAction> = Vec::new();
    let mut i: usize = 0;
    assert(actions_view(r@) =~= all.take(0));
    while i < actions.len()
        invariant
            i <= actions@.len(),
            all == actions_view(actions@),
            actions_view(r@) == all.take(i as int),
        decreases actions@.len() - i,
    {
        let ghost before = actions_view(r@);
        let copy = actions[i].clone();
        let ghost model = copy@;
        r.push(copy);
        assert(all[i as int] == actions@[i as int]@);
        assert(actions_view(r@) =~= before.push(model));
        assert(all.take(i + 1) =~= all.take(i as int).push(all[i as int]));
        i += 1;
    }
    assert(all.take(i as int) =~= all);
    r
}

/// When to act on alerts, and how.
pub struct AutoResponseTrigger {
    /// The least severity.
    pub min_severity: AlertSeverity,
    /// The least confidence, in millionths.
    pub min_confidence: u32,
    /// What to do.
    pub actions: Vec<AutoResponseAction>,
    /// Whether somebody has to agree first.
    pub require_approval: bool,
    /// For how many seconds not to act again.
    pub cooldown_seconds: u64,
}

/// What a trigger says.
#[verifier::ext_equal]
pub struct TriggerModel {
    pub min_severity: AlertSeverity,
    pub min_confidence: u32,
    pub actions: Seq<ActionModel>,
    pub require_approval: bool,
    pub cooldown_seconds: u64,
}

impl View for AutoResponseTrigger {
    type V = TriggerModel;

    open spec fn view(&self) -> TriggerModel {
        TriggerModel {
            min_severity: self.min_severity,
            min_confidence: self.min_confidence,
            actions: actions_view(self.actions@),
            require_approval: self.require_approval,
            cooldown_seconds: self.cooldown_seconds,
        }
    }
}

/// What some triggers say.
pub open spec fn triggers_view(triggers: Seq<AutoResponseTrigger>) -> Seq<TriggerModel> {
    triggers.map_values(|t: AutoResponseTrigger| t@)
}

/// A rule that raises alerts.
pub struct AlertRule {
    pub rule_id: String,
    pub name: String,
    pub description: String,
    pub enabled: bool,
    pub conditions: ConditionGroup,
    pub time_condition: Option<TimeCondition>,
    pub severity: AlertSeverity,
    /// In millionths.
    pub confidence: u32,
    pub mitre_mapping: MitreMapping,
    pub tags: Vec<String>,
    pub auto_response: Vec<AutoResponseAction>,
}

/// What a rule says.
#[verifier::ext_equal]
pub struct RuleModel {
    pub rule_id: Seq<char>,
    pub name: Seq<char>,
    pub description: Seq<char>,
    pub enabled: bool,
    pub conditions: GroupModel,
    pub time_condition: Option<TimeModel>,
    pub severity: AlertSeverity,
    pub confidence: u32,
    pub mitre_mapping: MappingModel,
    pub tags: Seq<Seq<char>>,
    pub auto_response: Seq<ActionModel>,
}

impl View for AlertRule {
    type V = RuleModel;

    open spec fn view(&self) -> RuleModel {
        RuleModel {
            rule_id: self.rule_id@,
            name: self.name@,
            description: self.description@,
            enabled: self.enabled,
            conditions: self.conditions@,
            time_condition: time_view(self.time_condition),
            severity: self.severity,
            confidence: self.confidence,
            mitre_mapping: self.mitre_mapping@,
            tags: texts(self.tags@),
            auto_response: actions_view(self.auto_response@),
        }
    }
}

/// What some rules say.
pub open spec fn rules_view(rules: Seq<AlertRule>) -> Seq<RuleModel> {
    rules.map_values(|r: AlertRule| r@)
}

/// Whether a rule matches an event.
pub open spec fn rule_matches(rule: RuleModel, event: Option<JsonModel>) -> bool {
    rule.enabled && group_holds(rule.conditions, event)
}

/// The alert that a rule raises on an event.
pub open spec fn rule_alert(
    rule: RuleModel,
    id: Seq<char>,
    event: TelemetryEvent,
    now: u64,
) -> AlertModel {
    with_context(
        AlertModel {
            confidence: rule.confidence,
            related_event_ids: seq![event.event_id@],
            mitre_mapping: rule.mitre_mapping,
            tags: rule.tags,
            ..bare_alert(id, rule.name, rule.description, rule.severity, now)
        },
        event.payload,
    )
}

impl AlertRule {
    /// Whether the rule matches an event, given as it is written out, if it can be.
    pub fn matches(&self, event: Option<&JsonValue>) -> (r: bool)
        ensures
            r == rule_matches(self@, opt_json(event)),
    {
        self.enabled && self.conditions.evaluate(event)
    }

    /// The alert that the rule raises on an event.
    pub fn create_alert_as(&self, id: String, event: &TelemetryEvent, now: u64) -> (r: Alert)
        ensures
            r@ == rule_alert(self@, id@, *event, now),
    {
        let mut alert = Alert::new_as(
            id,
            self.name.clone(),
            self.description.clone(),
            self.severity,
            now,
        );
        alert.confidence = self.confidence;
        push_text(&mut alert.related_event_ids, event.event_id.clone());
        alert.mitre_mapping = self.mitre_mapping.clone();
        alert.tags = copies(&self.tags);
        alert.take_context(&event.payload);
        assert(alert@ =~= rule_alert(self@, id@, *event, now));
        alert
    }

    /// The alert that the rule raises on an event now, with a random identifier.
    pub fn create_alert(&self, event: &TelemetryEvent) -> (r: Alert)
        ensures
            r@ == rule_alert(self@, r.alert_id@, *event, r.created_at),
            is_identifier(r.alert_id@),
    {
        self.create_alert_as(fresh_id(), event, current_timestamp())
    }
}

/// A rule on events that follow one another.
pub struct CorrelationRule {
    pub rule_id: String,
    pub name: String,
    pub description: String,
    pub enabled: bool,
    /// What the events have to meet, one after the other.
    pub sequence: Vec<ConditionGroup>,
    /// How many seconds may lie between two of them.
    pub max_gap_seconds: u64,
    /// What the events have in common.
    pub correlation_fields: Vec<String>,
    pub severity: AlertSeverity,
}

/// What a correlation rule says.
#[verifier::ext_equal]
pub struct CorrelationRuleModel {
    pub rule_id: Seq<char>,
    pub name: Seq<char>,
    pub description: Seq<char>,
    pub enabled: bool,
    pub sequence: Seq<GroupModel>,
    pub max_gap_seconds: u64,
    pub correlation_fields: Seq<Seq<char>>,
    pub severity: AlertSeverity,
}

impl View for CorrelationRule {
    type V = CorrelationRuleModel;

    open spec fn view(&self) -> CorrelationRuleModel {
        CorrelationRuleModel {
            rule_id: self.rule_id@,
            name: self.name@,
            description: self.description@,
            enabled: self.enabled,
            sequence: groups_view(self.sequence@),
            max_gap_seconds: self.max_gap_seconds,
            correlation_fields: texts(self.correlation_fields@),
            severity: self.severity,
        }
    }
}

/// What some correlation rules say.
pub open spec fn correlation_rules_view(rules: Seq<CorrelationRule>) -> Seq<CorrelationRuleModel> {
    rules.map_values(|r: CorrelationRule| r@)
}

proof fn lemma_groups_hold(groups: Seq<GroupModel>, event: Option<JsonModel>)
    ensures
        all_groups_hold(groups, event) == (forall|i: int|
            0 <= i < groups.len() ==> group_holds(#[trigger] groups[i], event)),
        no_group_holds(groups, event) == (forall|i: int|
            0 <= i < groups.len() ==> !group_holds(#[trigger] groups[i], event)),
    decreases groups.len(),
{
    if groups.len() > 0 {
        let rest = groups.drop_last();
        lemma_groups_hold(rest, event);
        assert(forall|i: int| 0 <= i < rest.len() ==> #[trigger] groups[i] == rest[i]);
        if all_groups_hold(groups, event) {
            assert forall|i: int| 0 <= i < groups.len() implies group_holds(
                #[trigger] groups[i],
                event,
            ) by {
                if i < rest.len() {
                    assert(group_holds(rest[i], event));
                }
            }
        }
        if no_group_holds(groups, event) {
            assert forall|i: int| 0 <= i < groups.len() implies !group_holds(
                #[trigger] groups[i],
                event,
            ) by {
                if i < rest.len() {
                    assert(!group_holds(rest[i], event));
                }
            }
        }
        if forall|i: int| 0 <= i < groups.len() ==> group_holds(#[trigger] groups[i], event) {
            assert forall|i: int| 0 <= i < rest.len() implies group_holds(
                #[trigger] rest[i],
                event,
            ) by {
                assert(group_holds(groups[i], event));
            }
            assert(group_holds(groups[groups.len() - 1], event));
        }
        if forall|i: int| 0 <= i < groups.len() ==> !group_holds(#[trigger] groups[i], event) {
            assert forall|i: int| 0 <= i < rest.len() implies !group_holds(
                #[trigger] rest[i],
                event,
            ) by {
                assert(!group_holds(groups[i], event));
            }
            assert(!group_holds(groups[groups.len() - 1], event));
        }
    }
}

/// A group under "or" holds exactly where at least one of its conditions or at least
/// one of its groups holds.
pub proof fn law_or_takes_one(g: GroupModel, event: Option<JsonModel>)
    requires
        g.logic == LogicOperator::Or,
    ensures
        group_holds(g, event) <==> ((exists|i: int|
            0 <= i < g.conditions.len() && condition_holds(#[trigger] g.conditions[i], event)) || (
        exists|i: int| 0 <= i < g.groups.len() && group_holds(#[trigger] g.groups[i], event))),
{
    lemma_groups_hold(g.groups, event);
    if !none_holds(g.conditions, event) {
        let i = choose|i: int|
            0 <= i < g.conditions.len() && condition_holds(#[trigger] g.conditions[i], event);
        assert(condition_holds(g.conditions[i], event));
    }
    if !no_group_holds(g.groups, event) {
        let i = choose|i: int|
            0 <= i < g.groups.len() && group_holds(#[trigger] g.groups[i], event);
        assert(group_holds(g.groups[i], event));
    }
}

/// A group under "and" holds exactly where each of its conditions and each of its
/// groups holds.
pub proof fn law_and_takes_all(g: GroupModel, event: Option<JsonModel>)
    requires
        g.logic == LogicOperator::And,
    ensures
        group_holds(g, event) <==> ((forall|i: int|
            0 <= i < g.conditions.len() ==> condition_holds(#[trigger] g.conditions[i], event)) && (
        forall|i: int| 0 <= i < g.groups.len() ==> group_holds(#[trigger] g.groups[i], event))),
{
    lemma_groups_hold(g.groups, event);
}

/// A group under "not" holds exactly where at least one of its conditions or at least
/// one of its groups does not.
pub proof fn law_not_takes_one_that_fails(g: GroupModel, event: Option<JsonModel>)
    requires
        g.logic == LogicOperator::Not,
    ensures
        group_holds(g, event) <==> ((exists|i: int|
            0 <= i < g.conditions.len() && !condition_holds(#[trigger] g.conditions[i], event)) || (
        exists|i: int| 0 <= i < g.groups.len() && !group_holds(#[trigger] g.groups[i], event))),
{
    lemma_groups_hold(g.groups, event);
}

/// A condition on a text that is there and asks for a part, a beginning or an end
/// holds exactly where the text has it, whatever the case of letters.
pub proof fn law_conditions_on_texts(
    c: ConditionModel,
    json: JsonModel,
    text: Seq<char>,
    asked: Seq<char>,
)
    requires
        value_at(json, pieces(c.field, '.'), 0) == Some(JsonModel::Text(text)),
        c.value == JsonModel::Text(asked),
        !c.negate,
    ensures
        c.operator == ConditionOperator::Contains ==> (condition_holds(c, Some(json)) <==> exists|
            before: Seq<char>,
            behind: Seq<char>,
        |
            lowercase(text) == #[trigger] (before + lowercase(asked) + behind)),
        c.operator == ConditionOperator::StartsWith ==> (condition_holds(c, Some(json)) <==> exists|
            behind: Seq<char>,
        |
            lowercase(text) == #[trigger] (lowercase(asked) + behind)),
        c.operator == ConditionOperator::EndsWith ==> (condition_holds(c, Some(json)) <==> exists|
            before: Seq<char>,
        |
            lowercase(text) == #[trigger] (before + lowercase(asked))),
        c.operator == ConditionOperator::Regex ==> (condition_holds(c, Some(json)) <==> regex_search(
            asked,
            text,
        ) == Some(true)),
        c.operator == ConditionOperator::Equals ==> (condition_holds(c, Some(json)) <==> text
            == asked),
        c.operator == ConditionOperator::NotEquals ==> (condition_holds(c, Some(json)) <==> text
            != asked),
{
    let a = lowercase(asked);
    let t = lowercase(text);
    if c.operator == ConditionOperator::Contains {
        if occurs(a, t) {
            let i = choose|i: int| occurs_at(a, t, i);
            assert(t =~= t.take(i) + a + t.skip(i + a.len())) by {
                assert forall|k: int| i <= k < i + a.len() implies t[k] == a[k - i] by {
                    assert(t.subrange(i, i + a.len())[k - i] == t[k]);
                }
            }
        }
        if exists|before: Seq<char>, behind: Seq<char>| t == #[trigger] (before + a + behind) {
            let (before, behind) = choose|before: Seq<char>, behind: Seq<char>|
                t == #[trigger] (before + a + behind);
            assert(t.subrange(before.len() as int, (before.len() + a.len()) as int) =~= a);
            assert(occurs_at(a, t, before.len() as int));
        }
    }
    if c.operator == ConditionOperator::StartsWith {
        if begins(t, a) {
            assert(t =~= a + t.skip(a.len() as int)) by {
                assert forall|k: int| 0 <= k < a.len() implies t[k] == a[k] by {
                    assert(t.subrange(0, a.len() as int)[k] == t[k]);
                }
            }
        }
        if exists|behind: Seq<char>| t == #[trigger] (a + behind) {
            assert(t.subrange(0, a.len() as int) =~= a);
        }
    }
    if c.operator == ConditionOperator::EndsWith {
        if ends(t, a) {
            let n = t.len() - a.len();
            assert(t =~= t.take(n) + a) by {
                assert forall|k: int| n <= k < t.len() implies t[k] == a[k - n] by {
                    assert(t.subrange(n, t.len() as int)[k - n] == t[k]);
                }
            }
        }
        if exists|before: Seq<char>| t == #[trigger] (before + a) {
            assert(t.subrange(t.len() - a.len(), t.len() as int) =~= a);
        }
    }
}

/// A condition on a number that is there holds exactly where the number stands as
/// asked to the number that is asked for.
pub proof fn law_conditions_on_numbers(c: ConditionModel, json: JsonModel, value: JsonModel)
    requires
        value_at(json, pieces(c.field, '.'), 0) == Some(value),
        rank(value) is Some,
        rank(c.value) is Some,
        !c.negate,
    ensures
        c.operator == ConditionOperator::GreaterThan ==> (condition_holds(c, Some(json)) <==> rank(
            value,
        )->0 > rank(c.value)->0),
        c.operator == ConditionOperator::LessThan ==> (condition_holds(c, Some(json)) <==> rank(
            value,
        )->0 < rank(c.value)->0),
        c.operator == ConditionOperator::GreaterOrEqual ==> (condition_holds(c, Some(json))
            <==> rank(value)->0 >= rank(c.value)->0),
        c.operator == ConditionOperator::LessOrEqual ==> (condition_holds(c, Some(json)) <==> rank(
            value,
        )->0 <= rank(c.value)->0),
{
}

/// A condition that asks for one of some values holds exactly where the value is
/// among them.
pub proof fn law_conditions_on_lists(
    c: ConditionModel,
    json: JsonModel,
    value: JsonModel,
    items: Seq<JsonModel>,
)
    requires
        value_at(json, pieces(c.field, '.'), 0) == Some(value),
        c.value == JsonModel::Array(items),
        !c.negate,
    ensures
        c.operator == ConditionOperator::In ==> (condition_holds(c, Some(json)) <==> exists|i: int|
            0 <= i < items.len() && #[trigger] items[i] == value),
        c.operator == ConditionOperator::NotIn ==> (condition_holds(c, Some(json)) <==> forall|
            i: int,
        |
            0 <= i < items.len() ==> #[trigger] items[i] != value),
{
}

/// Values of different kinds never compare, except as different; what is not there
/// meets no condition but a negated one, and an event that cannot be written out
/// meets none.
pub proof fn law_conditions_that_cannot_be_met(c: ConditionModel, json: JsonModel)
    ensures
        !condition_holds(c, None),
        value_at(json, pieces(c.field, '.'), 0) is None ==> condition_holds(c, Some(json))
            == c.negate,
        value_at(json, pieces(c.field, '.'), 0) matches Some(value) ==> {
            &&& (c.operator == ConditionOperator::Contains || c.operator
                == ConditionOperator::StartsWith || c.operator == ConditionOperator::EndsWith
                || c.operator == ConditionOperator::Regex) && !(value is Text && c.value is Text)
                ==> condition_holds(c, Some(json)) == c.negate
            &&& (c.operator == ConditionOperator::GreaterThan || c.operator
                == ConditionOperator::LessThan || c.operator == ConditionOperator::GreaterOrEqual
                || c.operator == ConditionOperator::LessOrEqual) && (rank(value) is None || rank(
                c.value,
            ) is None) ==> condition_holds(c, Some(json)) == c.negate
            &&& c.operator == ConditionOperator::In && !(c.value is Array) ==> condition_holds(
                c,
                Some(json),
            ) == c.negate
            &&& c.operator == ConditionOperator::NotIn && !(c.value is Array) ==> condition_holds(
                c,
                Some(json),
            ) != c.negate
            &&& c.operator == ConditionOperator::Equals ==> (condition_holds(c, Some(json)) <==> (
            value == c.value) != c.negate)
            &&& c.operator == ConditionOperator::NotEquals ==> (condition_holds(c, Some(json))
                <==> (value == c.value) == c.negate)
        },
{
}

/// A rule that is off matches nothing; one that is on matches what its conditions
/// hold of.
pub proof fn law_rules_match_by_their_conditions(rule: RuleModel, event: Option<JsonModel>)
    ensures
        !rule.enabled ==> !rule_matches(rule, event),
        rule.enabled ==> rule_matches(rule, event) == group_holds(rule.conditions, event),
{
}

/// An alert of a rule says what the rule says, names its event, and tells of the process,
/// the connection or the file that the event is about.
pub proof fn law_alerts_say_what_the_rule_says(
    rule: RuleModel,
    id: Seq<char>,
    event: TelemetryEvent,
    now: u64,
)
    ensures
        ({
            let a = rule_alert(rule, id, event, now);
            &&& a.alert_id == id
            &&& a.title == rule.name
            &&& a.description == rule.description
            &&& a.severity == rule.severity
            &&& a.confidence == rule.confidence
            &&& a.mitre_mapping == rule.mitre_mapping
            &&& a.tags == rule.tags
            &&& a.related_event_ids == seq![event.event_id@]
            &&& a.created_at == now
            &&& a.process_context is Some <==> event.payload is Process
            &&& a.network_context is Some <==> event.payload is Network
            &&& a.file_context is Some <==> event.payload is File
        }),
{
}

} // verus!
